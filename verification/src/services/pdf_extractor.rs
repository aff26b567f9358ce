//! Document extraction: turning the text of a PDF, Markdown or plain-text file
//! into sections, code blocks and metadata.

use vstd::prelude::*;
use pulldown_cmark::{CodeBlockKind, Event, Parser, Tag, TagEnd};
use vstd::string::{StrSliceExecFns, StringExecFns};
use crate::db::models::import::{
    code_block_views, opt_view, section_views, CodeBlock, CodeBlockView, DocumentMetadata,
    DocumentMetadataView, ExtractedDocument, ExtractedDocumentView, ExtractedSection,
    ExtractedSectionView,
};
use crate::error::AppError;
use crate::text::{
    chars_of, contains_str, ends_with_str, is_whitespace, lemma_lines_bound, lowercase,
    mentions_any, mentions_any_of, spec_contains, spec_ends_with, spec_is_whitespace, spec_lines,
    spec_lowercase, spec_starts_with, spec_trim, split_lines, starts_with_str, str_eq, str_views,
    string_of, string_views, texts, trim,
};

verus! {

/// Whether `c` has the Unicode property `Uppercase`.
pub uninterp spec fn is_uppercase_char(c: char) -> bool;

/// Whether `c` has one of the Unicode general categories for numbers.
pub uninterp spec fn is_numeric_char(c: char) -> bool;

/// `char::is_uppercase`: whether the character has the `Uppercase` property,
/// which depends on the character alone.
pub assume_specification[ char::is_uppercase ](c: char) -> (r: bool)
    ensures
        r == is_uppercase_char(c),
;

/// `char::is_numeric`: whether the character has one of the general categories
/// for numbers, which depends on the character alone.
pub assume_specification[ char::is_numeric ](c: char) -> (r: bool)
    ensures
        r == is_numeric_char(c),
;

/// Every character of `s` is an upper-case letter, white space or, where
/// `digits` is set, a numeric character.
pub open spec fn is_capitals(s: Seq<char>, digits: bool) -> bool {
    forall|i: int|
        0 <= i < s.len() ==> is_uppercase_char(#[trigger] s[i]) || spec_is_whitespace(s[i]) || (
        digits && is_numeric_char(s[i]))
}

/// Whether every character of `s` is an upper-case letter, white space or,
/// where `digits` is set, a numeric character.
pub fn all_capitals(s: &Vec<char>, digits: bool) -> (r: bool)
    ensures
        r == is_capitals(s@, digits),
{
    let mut i: usize = 0;
    while i < s.len()
        invariant
            i <= s.len(),
            forall|k: int|
                0 <= k < i ==> is_uppercase_char(#[trigger] s@[k]) || spec_is_whitespace(s@[k]) || (
                digits && is_numeric_char(s@[k])),
        decreases s.len() - i,
    {
        let c = s[i];
        if !(c.is_uppercase() || is_whitespace(c) || (digits && c.is_numeric())) {
            return false;
        }
        i += 1;
    }
    true
}

/// A line is a heading if, trimmed, it is not empty and is all capitals, white
/// space and digits, or begins with `Chapter `, `Section ` or `Part `, or has
/// fewer than 60 characters and ends with a colon.
pub open spec fn spec_is_heading(line: Seq<char>) -> bool {
    let t = spec_trim(line);
    &&& t.len() > 0
    &&& {
        ||| is_capitals(t, true)
        ||| spec_starts_with(t, "Chapter "@)
        ||| spec_starts_with(t, "Section "@)
        ||| spec_starts_with(t, "Part "@)
        ||| (t.len() < 60 && spec_ends_with(t, ":"@))
    }
}

/// Whether a line of PDF or plain text is a heading.
pub fn is_heading_heuristic(line: &str) -> (r: bool)
    ensures
        r == spec_is_heading(line@),
{
    is_heading_line(&chars_of(line))
}

/// Whether the line with these characters is a heading.
pub fn is_heading_line(line: &Vec<char>) -> (r: bool)
    ensures
        r == spec_is_heading(line@),
{
    let t = trim(line);
    if t.len() == 0 {
        return false;
    }
    all_capitals(&t, true) || starts_with_str(&t, "Chapter ") || starts_with_str(&t, "Section ")
        || starts_with_str(&t, "Part ") || (t.len() < 60 && ends_with_str(&t, ":"))
}

/// The level of a heading line: the number of its leading hash marks where it
/// has one to three followed by a space; else 1 for a line of capitals and
/// white space, and 2 for any other.
pub open spec fn spec_heading_level(line: Seq<char>) -> u8 {
    if spec_starts_with(line, "# "@) {
        1
    } else if spec_starts_with(line, "## "@) {
        2
    } else if spec_starts_with(line, "### "@) {
        3
    } else if is_capitals(line, false) {
        1
    } else {
        2
    }
}

/// The level of a heading line.
pub fn detect_heading_level(line: &str) -> (r: u8)
    ensures
        r == spec_heading_level(line@),
        1 <= r <= 3,
{
    heading_level_of(&chars_of(line))
}

/// The level of the heading line with these characters.
pub fn heading_level_of(line: &Vec<char>) -> (r: u8)
    ensures
        r == spec_heading_level(line@),
        1 <= r <= 3,
{
    if starts_with_str(line, "# ") {
        1
    } else if starts_with_str(line, "## ") {
        2
    } else if starts_with_str(line, "### ") {
        3
    } else if all_capitals(line, false) {
        1
    } else {
        2
    }
}

/// The language that a run of code looks like, if any: the first of `rust`,
/// `javascript`, `python`, `svelte` and `css` of which a telltale occurs.
pub open spec fn spec_detect_language(code: Seq<char>) -> Option<Seq<char>> {
    if spec_contains(code, "fn "@) || spec_contains(code, "impl "@) || spec_contains(code, "pub "@) {
        Some("rust"@)
    } else if spec_contains(code, "const "@) || spec_contains(code, "let "@) || spec_contains(
        code,
        "function "@,
    ) {
        Some("javascript"@)
    } else if spec_contains(code, "def "@) || spec_contains(code, "import "@) {
        Some("python"@)
    } else if spec_contains(code, "<script>"@) || spec_contains(code, "</script>"@) {
        Some("svelte"@)
    } else if spec_contains(code, "{"@) && spec_contains(code, "}"@) && spec_contains(code, ":"@) {
        Some("css"@)
    } else {
        None
    }
}

/// Guesses the language of a run of code from the words in it.
pub fn detect_language(code: &str) -> (r: Option<String>)
    ensures
        opt_view(r) == spec_detect_language(code@),
{
    language_of(&chars_of(code))
}

/// Guesses the language of the run of code with these characters.
pub fn language_of(code: &Vec<char>) -> (r: Option<String>)
    ensures
        opt_view(r) == spec_detect_language(code@),
{
    if contains_str(code, "fn ") || contains_str(code, "impl ") || contains_str(code, "pub ") {
        Some(String::from_str("rust"))
    } else if contains_str(code, "const ") || contains_str(code, "let ") || contains_str(
        code,
        "function ",
    ) {
        Some(String::from_str("javascript"))
    } else if contains_str(code, "def ") || contains_str(code, "import ") {
        Some(String::from_str("python"))
    } else if contains_str(code, "<script>") || contains_str(code, "</script>") {
        Some(String::from_str("svelte"))
    } else if contains_str(code, "{") && contains_str(code, "}") && contains_str(code, ":") {
        Some(String::from_str("css"))
    } else {
        None
    }
}

/// The words that mark a section as technical.
pub open spec fn technical_keywords() -> Seq<Seq<char>> {
    seq![
        "algorithm"@,
        "implementation"@,
        "architecture"@,
        "async"@,
        "await"@,
        "closure"@,
        "generic"@,
        "trait"@,
        "interface"@,
    ]
}

/// Whether `lowered`, a text in lower case, holds a technical keyword.
pub fn mentions_technical_keyword(lowered: &Vec<char>) -> (r: bool)
    ensures
        r == mentions_any(lowered@, technical_keywords()),
{
    let keywords: Vec<&str> = vec![
        "algorithm",
        "implementation",
        "architecture",
        "async",
        "await",
        "closure",
        "generic",
        "trait",
        "interface",
    ];
    assert(str_views(keywords@) =~= technical_keywords());
    mentions_any_of(lowered, &keywords)
}

/// The complexity of a section, from 1 to 5: one, and one more for each of:
/// code, more than 2000 characters, more than 5000 characters, a technical
/// keyword.
pub open spec fn spec_section_score(length: nat, has_code: bool, technical: bool) -> u8 {
    let score = 1 + (if has_code {
        1int
    } else {
        0
    }) + (if length > 2000 {
        1int
    } else {
        0
    }) + (if length > 5000 {
        1int
    } else {
        0
    }) + (if technical {
        1int
    } else {
        0
    });
    if score > 5 {
        5
    } else {
        score as u8
    }
}

/// The complexity of a section of `length` characters.
pub fn section_score(length: usize, has_code: bool, technical: bool) -> (r: u8)
    ensures
        r == spec_section_score(length as nat, has_code, technical),
        1 <= r <= 5,
{
    let mut score: u8 = 1;
    if has_code {
        score += 1;
    }
    if length > 2000 {
        score += 1;
    }
    if length > 5000 {
        score += 1;
    }
    if technical {
        score += 1;
    }
    if score > 5 {
        5
    } else {
        score
    }
}

/// The complexity of a section with the given content.
pub open spec fn spec_estimate_complexity(content: Seq<char>, has_code: bool) -> u8 {
    spec_section_score(
        content.len(),
        has_code,
        mentions_any(spec_lowercase(content), technical_keywords()),
    )
}

/// Scores the complexity of a section from 1 to 5. Length is counted in
/// characters; keywords are looked for without regard to case.
pub fn estimate_complexity(content: &str, has_code: bool) -> (r: u8)
    ensures
        r == spec_estimate_complexity(content@, has_code),
        1 <= r <= 5,
{
    complexity_of(&chars_of(content), has_code)
}

/// Scores the complexity of the section with these characters.
pub fn complexity_of(content: &Vec<char>, has_code: bool) -> (r: u8)
    ensures
        r == spec_estimate_complexity(content@, has_code),
        1 <= r <= 5,
{
    let lowered = chars_of(lowercase(string_of(content).as_str()).as_str());
    let technical = mentions_technical_keyword(&lowered);
    section_score(content.len(), has_code, technical)
}

/// The topics that are looked for in a document.
pub open spec fn topic_keywords() -> Seq<Seq<char>> {
    seq![
        "svelte"@,
        "react"@,
        "vue"@,
        "typescript"@,
        "javascript"@,
        "rust"@,
        "python"@,
        "css"@,
        "html"@,
        "api"@,
        "database"@,
        "authentication"@,
        "testing"@,
        "deployment"@,
    ]
}

/// Those of `keywords` that occur in `text`, in the order of `keywords`.
pub open spec fn keywords_found(text: Seq<char>, keywords: Seq<Seq<char>>) -> Seq<Seq<char>>
    decreases keywords.len(),
{
    if keywords.len() == 0 {
        Seq::empty()
    } else if spec_contains(text, keywords.last()) {
        keywords_found(text, keywords.drop_last()).push(keywords.last())
    } else {
        keywords_found(text, keywords.drop_last())
    }
}

/// The topics that occur in `lowered`, a text in lower case, in the order of
/// the topic list.
pub fn topics_in(lowered: &Vec<char>) -> (r: Vec<String>)
    ensures
        string_views(r@) == keywords_found(lowered@, topic_keywords()),
{
    let keywords: Vec<&str> = vec![
        "svelte",
        "react",
        "vue",
        "typescript",
        "javascript",
        "rust",
        "python",
        "css",
        "html",
        "api",
        "database",
        "authentication",
        "testing",
        "deployment",
    ];
    assert(str_views(keywords@) =~= topic_keywords());
    let ghost all = topic_keywords();
    let mut r: Vec<String> = Vec::new();
    let mut i: usize = 0;
    assert(all.take(0) =~= Seq::<Seq<char>>::empty());
    assert(string_views(r@) =~= Seq::<Seq<char>>::empty());
    while i < keywords.len()
        invariant
            i <= keywords.len(),
            all == topic_keywords(),
            str_views(keywords@) == all,
            string_views(r@) == keywords_found(lowered@, all.take(i as int)),
        decreases keywords.len() - i,
    {
        proof {
            assert(all.take(i + 1).drop_last() == all.take(i as int));
            assert(all.take(i + 1).last() == keywords@[i as int]@);
        }
        if contains_str(lowered, keywords[i]) {
            let ghost before = string_views(r@);
            let topic = String::from_str(keywords[i]);
            r.push(topic);
            assert(string_views(r@) =~= before.push(topic@));
        }
        i += 1;
    }
    assert(all.take(keywords@.len() as int) == all);
    r
}

/// The topics of a text: those of the topic list that occur in it, without
/// regard to case, each once.
pub open spec fn spec_extract_topics(text: Seq<char>) -> Seq<Seq<char>> {
    keywords_found(spec_lowercase(text), topic_keywords())
}

/// Finds the topics that a text deals with.
pub fn extract_topics(text: &str) -> (r: Vec<String>)
    ensures
        string_views(r@) == spec_extract_topics(text@),
{
    let lowered = chars_of(lowercase(text).as_str());
    topics_in(&lowered)
}

/// The number of words in `s`: the maximal runs of characters that are not
/// white space.
pub open spec fn spec_word_count(s: Seq<char>) -> nat
    decreases s.len(),
{
    if s.len() == 0 {
        0
    } else {
        let before = spec_word_count(s.drop_last());
        if !spec_is_whitespace(s.last()) && (s.len() == 1 || spec_is_whitespace(s[s.len() - 2])) {
            before + 1
        } else {
            before
        }
    }
}

/// Counts the words of `s`.
pub fn word_count(s: &Vec<char>) -> (r: usize)
    ensures
        r == spec_word_count(s@),
{
    let mut count: usize = 0;
    let mut in_word = false;
    let mut i: usize = 0;
    assert(s@.take(0) =~= Seq::<char>::empty());
    while i < s.len()
        invariant
            i <= s.len(),
            count == spec_word_count(s@.take(i as int)),
            count <= i,
            in_word == (i > 0 && !spec_is_whitespace(s@[i - 1])),
        decreases s.len() - i,
    {
        proof {
            assert(s@.take(i + 1).drop_last() == s@.take(i as int));
            assert(s@.take(i + 1).last() == s@[i as int]);
            if i > 0 {
                assert(s@.take(i + 1)[i - 1] == s@[i - 1]);
            }
        }
        let white = is_whitespace(s[i]);
        if !white && !in_word {
            count += 1;
        }
        in_word = !white;
        i += 1;
    }
    assert(s@.take(s@.len() as int) == s@);
    count
}

/// Which marks count as code in the text of a section.
#[derive(Debug, Clone, Copy, PartialEq, Eq, Structural)]
pub enum CodeMarks {
    /// A fence of three backticks, or four spaces in a row.
    FenceOrIndent,
    /// A fence of three backticks.
    Fence,
    /// Four spaces in a row.
    Indent,
}

/// Whether `body` holds code by the given marks.
pub open spec fn spec_has_code(body: Seq<char>, marks: CodeMarks) -> bool {
    match marks {
        CodeMarks::FenceOrIndent => spec_contains(body, "```"@) || spec_contains(body, "    "@),
        CodeMarks::Fence => spec_contains(body, "```"@),
        CodeMarks::Indent => spec_contains(body, "    "@),
    }
}

/// Whether `body` holds a bullet marker.
pub open spec fn spec_has_list(body: Seq<char>) -> bool {
    spec_contains(body, "- "@) || spec_contains(body, "* "@)
}

/// The section that is closed over the accumulated text `body`: its content
/// is the trimmed text; code, lists and complexity are judged on the text as
/// accumulated.
pub open spec fn closed_section(
    heading: Seq<char>,
    level: u8,
    body: Seq<char>,
    page_number: usize,
    marks: CodeMarks,
) -> ExtractedSectionView {
    ExtractedSectionView {
        heading,
        level,
        content: spec_trim(body),
        page_number,
        has_code: spec_has_code(body, marks),
        has_list: spec_has_list(body),
        estimated_complexity: spec_estimate_complexity(body, spec_has_code(body, marks)),
    }
}

/// Closes a section over the accumulated text `body`.
pub fn close_section(
    heading: &Vec<char>,
    level: u8,
    body: &Vec<char>,
    page_number: usize,
    marks: CodeMarks,
) -> (r: ExtractedSection)
    ensures
        r@ == closed_section(heading@, level, body@, page_number, marks),
{
    let has_code = match marks {
        CodeMarks::FenceOrIndent => contains_str(body, "```") || contains_str(body, "    "),
        CodeMarks::Fence => contains_str(body, "```"),
        CodeMarks::Indent => contains_str(body, "    "),
    };
    let has_list = contains_str(body, "- ") || contains_str(body, "* ");
    ExtractedSection {
        heading: string_of(heading),
        level,
        content: string_of(&trim(body)),
        page_number,
        has_code,
        has_list,
        estimated_complexity: complexity_of(body, has_code),
    }
}

/// `known` with `x` at its end unless it holds `x`.
pub open spec fn add_unique(known: Seq<Seq<char>>, x: Seq<char>) -> Seq<Seq<char>> {
    if known.contains(x) {
        known
    } else {
        known.push(x)
    }
}

/// Adds `x` to `known` unless it is there.
pub fn push_unique(known: &mut Vec<String>, x: String)
    ensures
        string_views(final(known)@) == add_unique(string_views(old(known)@), x@),
{
    let ghost all = string_views(known@);
    let mut i: usize = 0;
    while i < known.len()
        invariant
            i <= known.len(),
            known@ == old(known)@,
            all == string_views(known@),
            forall|k: int| 0 <= k < i ==> all[k] != x@,
        decreases known.len() - i,
    {
        if known[i] == x {
            assert(all[i as int] == x@);
            return ;
        }
        i += 1;
    }
    known.push(x);
    assert(string_views(known@) =~= all.push(x@));
}

/// The state of section accumulation.
pub struct Accumulator {
    pub sections: Vec<ExtractedSection>,
    pub code_blocks: Vec<CodeBlock>,
    pub body: Vec<char>,
    pub heading: Vec<char>,
    pub level: u8,
    pub page_number: usize,
    pub in_code: bool,
    pub code: Vec<char>,
    pub languages: Vec<String>,
    /// Whether the heading is being read, between its start and its end.
    pub in_heading: bool,
}

pub struct AccumulatorView {
    pub sections: Seq<ExtractedSectionView>,
    pub code_blocks: Seq<CodeBlockView>,
    pub body: Seq<char>,
    pub heading: Seq<char>,
    pub level: u8,
    pub page_number: usize,
    pub in_code: bool,
    pub code: Seq<char>,
    pub languages: Seq<Seq<char>>,
    pub in_heading: bool,
}

impl View for Accumulator {
    type V = AccumulatorView;

    open spec fn view(&self) -> AccumulatorView {
        AccumulatorView {
            sections: section_views(self.sections@),
            code_blocks: code_block_views(self.code_blocks@),
            body: self.body@,
            heading: self.heading@,
            level: self.level,
            page_number: self.page_number,
            in_code: self.in_code,
            code: self.code@,
            languages: string_views(self.languages@),
            in_heading: self.in_heading,
        }
    }
}

/// The state before any input: no sections, the heading "Introduction" at
/// level 1, page 1.
pub open spec fn initial_state() -> AccumulatorView {
    AccumulatorView {
        sections: Seq::empty(),
        code_blocks: Seq::empty(),
        body: Seq::empty(),
        heading: "Introduction"@,
        level: 1,
        page_number: 1,
        in_code: false,
        code: Seq::empty(),
        languages: Seq::empty(),
        in_heading: false,
    }
}

/// `st` with the accumulated text, if any, closed as a section.
pub open spec fn flush(st: AccumulatorView, marks: CodeMarks) -> AccumulatorView {
    if st.body.len() > 0 {
        AccumulatorView {
            sections: st.sections.push(
                closed_section(st.heading, st.level, st.body, st.page_number, marks),
            ),
            body: Seq::empty(),
            ..st
        }
    } else {
        st
    }
}

/// The page after `page`.
pub open spec fn next_page(page: usize) -> usize {
    (page + 1) as usize
}

impl Accumulator {
    /// The state before any input.
    pub fn new() -> (r: Accumulator)
        ensures
            r@ == initial_state(),
    {
        let r = Accumulator {
            sections: Vec::new(),
            code_blocks: Vec::new(),
            body: Vec::new(),
            heading: chars_of("Introduction"),
            level: 1,
            page_number: 1,
            in_code: false,
            code: Vec::new(),
            languages: Vec::new(),
            in_heading: false,
        };
        assert(r@.sections =~= Seq::<ExtractedSectionView>::empty());
        assert(r@.code_blocks =~= Seq::<CodeBlockView>::empty());
        assert(r@.languages =~= Seq::<Seq<char>>::empty());
        r
    }

    /// Closes the accumulated text, if any, as a section.
    pub fn flush(&mut self, marks: CodeMarks)
        ensures
            final(self)@ == flush(old(self)@, marks),
    {
        if self.body.len() > 0 {
            let section = close_section(
                &self.heading,
                self.level,
                &self.body,
                self.page_number,
                marks,
            );
            let ghost before = section_views(self.sections@);
            self.sections.push(section);
            assert(section_views(self.sections@) =~= before.push(section@));
            self.body = Vec::new();
        }
    }
}

/// Appends `more` to `to`.
pub fn append_chars(to: &mut Vec<char>, more: &Vec<char>)
    ensures
        final(to)@ == old(to)@ + more@,
{
    let mut i: usize = 0;
    assert(to@ =~= old(to)@ + more@.take(0));
    while i < more.len()
        invariant
            i <= more.len(),
            to@ == old(to)@ + more@.take(i as int),
        decreases more.len() - i,
    {
        to.push(more[i]);
        assert(to@ =~= old(to)@ + more@.take(i + 1));
        i += 1;
    }
    assert(more@.take(more@.len() as int) == more@);
}

/// The state after one more line of PDF text.
///
/// A blank line changes nothing. A heading closes the accumulated text as a
/// section and begins a page. Any other line enters the accumulated text; a
/// run of such lines that begin with four spaces or a tab is code, and the
/// first line after the run closes it as a code block with a guessed language.
pub open spec fn pdf_step(st: AccumulatorView, line: Seq<char>) -> AccumulatorView {
    if spec_trim(line).len() == 0 {
        st
    } else if spec_is_heading(line) {
        AccumulatorView {
            heading: spec_trim(line),
            level: spec_heading_level(line),
            page_number: next_page(st.page_number),
            ..flush(st, CodeMarks::FenceOrIndent)
        }
    } else {
        let noted = if spec_starts_with(line, "    "@) || spec_starts_with(line, "\t"@) {
            AccumulatorView {
                in_code: true,
                code: (if st.in_code {
                    st.code
                } else {
                    Seq::empty()
                }) + spec_trim(line) + "\n"@,
                ..st
            }
        } else if st.in_code {
            let language = spec_detect_language(st.code);
            AccumulatorView {
                in_code: false,
                code: Seq::empty(),
                languages: match language {
                    Some(l) => add_unique(st.languages, l),
                    None => st.languages,
                },
                code_blocks: st.code_blocks.push(
                    CodeBlockView {
                        language,
                        content: st.code,
                        context_heading: st.heading,
                        page_number: st.page_number,
                    },
                ),
                ..st
            }
        } else {
            st
        };
        AccumulatorView { body: noted.body + line + "\n"@, ..noted }
    }
}

/// The state after the lines `lines` of PDF text.
pub open spec fn pdf_fold(lines: Seq<Seq<char>>) -> AccumulatorView
    decreases lines.len(),
{
    if lines.len() == 0 {
        initial_state()
    } else {
        pdf_step(pdf_fold(lines.drop_last()), lines.last())
    }
}

/// The state after one more line of plain text.
///
/// A blank line closes the accumulated text, if any, as a section and begins
/// a page. A line of capitals, white space and digits becomes the heading. Any
/// other line enters the accumulated text.
pub open spec fn text_step(st: AccumulatorView, line: Seq<char>) -> AccumulatorView {
    if spec_trim(line).len() == 0 {
        if st.body.len() > 0 {
            AccumulatorView {
                page_number: next_page(st.page_number),
                ..flush(st, CodeMarks::Indent)
            }
        } else {
            st
        }
    } else if is_capitals(line, true) {
        AccumulatorView { heading: spec_trim(line), ..st }
    } else {
        AccumulatorView { body: st.body + line + "\n"@, ..st }
    }
}

/// The state after the lines `lines` of plain text.
pub open spec fn text_fold(lines: Seq<Seq<char>>) -> AccumulatorView
    decreases lines.len(),
{
    if lines.len() == 0 {
        initial_state()
    } else {
        text_step(text_fold(lines.drop_last()), lines.last())
    }
}

/// The document that accumulation ends with: the text still accumulated is
/// closed as the last section; the word count and the topics are those of the
/// whole text; the title is the file name.
pub open spec fn finish(
    st: AccumulatorView,
    text: Seq<char>,
    file_name: Seq<char>,
    marks: CodeMarks,
) -> ExtractedDocumentView {
    let done = flush(st, marks);
    ExtractedDocumentView {
        file_name,
        total_pages: done.page_number,
        raw_text: text,
        sections: done.sections,
        code_blocks: done.code_blocks,
        metadata: DocumentMetadataView {
            title: Some(file_name),
            author: None,
            page_count: done.page_number,
            word_count: spec_word_count(text) as usize,
            detected_languages: done.languages,
            detected_topics: spec_extract_topics(text),
        },
    }
}

/// The document extracted from PDF text.
pub open spec fn spec_extract_pdf(text: Seq<char>, file_name: Seq<char>) -> ExtractedDocumentView {
    finish(pdf_fold(spec_lines(text)), text, file_name, CodeMarks::FenceOrIndent)
}

/// The document extracted from plain text.
pub open spec fn spec_extract_text_file(text: Seq<char>, file_name: Seq<char>) -> ExtractedDocumentView {
    finish(text_fold(spec_lines(text)), text, file_name, CodeMarks::Indent)
}

impl Accumulator {
    /// Takes in one line of PDF text.
    pub fn pdf_line(&mut self, line: &Vec<char>)
        requires
            old(self).page_number < usize::MAX,
        ensures
            final(self)@ == pdf_step(old(self)@, line@),
            final(self).page_number <= old(self).page_number + 1,
    {
        let trimmed = trim(line);
        if trimmed.len() == 0 {
            return ;
        }
        if is_heading_line(line) {
            self.flush(CodeMarks::FenceOrIndent);
            self.heading = trimmed;
            self.level = heading_level_of(line);
            self.page_number = self.page_number + 1;
            return ;
        }
        if starts_with_str(line, "    ") || starts_with_str(line, "\t") {
            if !self.in_code {
                self.in_code = true;
                self.code = Vec::new();
            }
            append_chars(&mut self.code, &trimmed);
            self.code.push('\n');
            proof {
                reveal_strlit("\n");
                assert("\n"@ =~= seq!['\n']);
            }
            assert(self.code@ =~= (if old(self).in_code {
                old(self).code@
            } else {
                Seq::empty()
            }) + spec_trim(line@) + "\n"@);
        } else if self.in_code {
            self.in_code = false;
            let language = language_of(&self.code);
            match &language {
                Some(l) => {
                    push_unique(&mut self.languages, l.clone());
                },
                None => {},
            }
            let block = CodeBlock {
                language,
                content: string_of(&self.code),
                context_heading: string_of(&self.heading),
                page_number: self.page_number,
            };
            let ghost before = code_block_views(self.code_blocks@);
            self.code_blocks.push(block);
            assert(code_block_views(self.code_blocks@) =~= before.push(block@));
            self.code = Vec::new();
        }
        append_chars(&mut self.body, line);
        self.body.push('\n');
        proof {
            reveal_strlit("\n");
            assert("\n"@ =~= seq!['\n']);
            assert(self.body@ =~= old(self).body@ + line@ + "\n"@);
        }
    }

    /// Takes in one line of plain text.
    pub fn text_line(&mut self, line: &Vec<char>)
        requires
            old(self).page_number < usize::MAX,
        ensures
            final(self)@ == text_step(old(self)@, line@),
            final(self).page_number <= old(self).page_number + 1,
    {
        let trimmed = trim(line);
        if trimmed.len() == 0 {
            if self.body.len() > 0 {
                self.flush(CodeMarks::Indent);
                self.page_number = self.page_number + 1;
            }
            return ;
        }
        if all_capitals(line, true) {
            self.heading = trimmed;
            return ;
        }
        append_chars(&mut self.body, line);
        self.body.push('\n');
        proof {
            reveal_strlit("\n");
            assert("\n"@ =~= seq!['\n']);
            assert(self.body@ =~= old(self).body@ + line@ + "\n"@);
        }
    }

    /// Ends accumulation and builds the document.
    pub fn finish(self, text: &str, file_name: &str, marks: CodeMarks) -> (r: ExtractedDocument)
        ensures
            r@ == finish(self@, text@, file_name@, marks),
    {
        let mut done = self;
        done.flush(marks);
        let words = word_count(&chars_of(text));
        let topics = extract_topics(text);
        ExtractedDocument {
            file_name: String::from_str(file_name),
            total_pages: done.page_number,
            raw_text: String::from_str(text),
            sections: done.sections,
            code_blocks: done.code_blocks,
            metadata: DocumentMetadata {
                title: Some(String::from_str(file_name)),
                author: None,
                page_count: done.page_number,
                word_count: words,
                detected_languages: done.languages,
                detected_topics: topics,
            },
        }
    }
}

/// What accumulation maintains: no section and no code block lies on a page
/// after the current one, the sections stand in the order of their pages, and
/// the complexity of every section is between 1 and 5.
pub open spec fn state_in_order(st: AccumulatorView) -> bool {
    &&& forall|i: int|
        0 <= i < st.sections.len() ==> (#[trigger] st.sections[i]).page_number <= st.page_number
    &&& forall|i: int, j: int|
        0 <= i <= j < st.sections.len() ==> (#[trigger] st.sections[i]).page_number <= (
        #[trigger] st.sections[j]).page_number
    &&& forall|i: int|
        0 <= i < st.sections.len() ==> 1 <= (#[trigger] st.sections[i]).estimated_complexity <= 5
    &&& forall|i: int|
        0 <= i < st.code_blocks.len() ==> (#[trigger] st.code_blocks[i]).page_number
            <= st.page_number
}

/// Closing the accumulated text keeps the state in order.
pub proof fn lemma_flush_in_order(st: AccumulatorView, marks: CodeMarks)
    requires
        state_in_order(st),
    ensures
        state_in_order(flush(st, marks)),
        flush(st, marks).page_number == st.page_number,
{
    let after = flush(st, marks);
    if st.body.len() > 0 {
        assert forall|i: int| 0 <= i < after.sections.len() implies (
        #[trigger] after.sections[i]).page_number <= after.page_number && 1
            <= after.sections[i].estimated_complexity <= 5 by {
            if i < st.sections.len() {
                assert(after.sections[i] == st.sections[i]);
            }
        }
        assert forall|i: int, j: int| 0 <= i <= j < after.sections.len() implies (
        #[trigger] after.sections[i]).page_number <= (#[trigger] after.sections[j]).page_number by {
            if j < st.sections.len() {
                assert(after.sections[i] == st.sections[i]);
                assert(after.sections[j] == st.sections[j]);
            } else if i < st.sections.len() {
                assert(after.sections[i] == st.sections[i]);
            }
        }
    }
}

/// Every step of accumulation keeps the state in order, as long as the pages
/// can be counted.
pub proof fn lemma_steps_in_order(st: AccumulatorView, line: Seq<char>, event: MarkdownEventView)
    requires
        state_in_order(st),
        st.page_number < usize::MAX,
    ensures
        state_in_order(pdf_step(st, line)),
        state_in_order(text_step(st, line)),
        state_in_order(markdown_step(st, event)),
{
    lemma_flush_in_order(st, CodeMarks::FenceOrIndent);
    lemma_flush_in_order(st, CodeMarks::Indent);
    lemma_flush_in_order(st, CodeMarks::Fence);
    let after = pdf_step(st, line);
    assert forall|i: int| 0 <= i < after.code_blocks.len() implies (
    #[trigger] after.code_blocks[i]).page_number <= after.page_number by {
        if i < st.code_blocks.len() {
            assert(after.code_blocks[i] == st.code_blocks[i]);
        }
    }
    let after = markdown_step(st, event);
    assert forall|i: int| 0 <= i < after.code_blocks.len() implies (
    #[trigger] after.code_blocks[i]).page_number <= after.page_number by {
        if i < st.code_blocks.len() {
            assert(after.code_blocks[i] == st.code_blocks[i]);
        }
    }
}

/// The document that ends an accumulation in order is well formed, with its
/// sections in the order of their pages.
pub proof fn lemma_finish_well_formed(
    st: AccumulatorView,
    text: Seq<char>,
    file_name: Seq<char>,
    marks: CodeMarks,
)
    requires
        state_in_order(st),
    ensures
        finish(st, text, file_name, marks).well_formed(),
        finish(st, text, file_name, marks).in_page_order(),
{
    lemma_flush_in_order(st, marks);
}

/// The error for a text too long to number its pages: a `Validation` error
/// that says that the document is too large.
fn too_large() -> (e: AppError)
    ensures
        e is Validation,
        e.spec_detail() == "Document too large"@,
{
    AppError::Validation(String::from_str("Document too large"))
}

/// Extracts a document from the text of a PDF file.
///
/// Fails, with a `Validation` error, only on a text of `usize::MAX` characters.
pub fn extract_pdf(text: &str, file_name: &str) -> (r: Result<ExtractedDocument, AppError>)
    ensures
        match r {
            Ok(doc) => {
                &&& text@.len() < usize::MAX
                &&& doc@ == spec_extract_pdf(text@, file_name@)
                &&& doc@.well_formed()
                &&& doc@.in_page_order()
            },
            Err(e) => text@.len() >= usize::MAX && e is Validation,
        },
{
    if text.unicode_len() == usize::MAX {
        return Err(too_large());
    }
    let lines = split_lines(&chars_of(text));
    proof {
        lemma_lines_bound(text@);
        assert(texts(lines@).take(0) =~= Seq::<Seq<char>>::empty());
    }
    let mut acc = Accumulator::new();
    let mut i: usize = 0;
    while i < lines.len()
        invariant
            i <= lines.len(),
            lines@.len() < usize::MAX,
            acc.page_number <= i + 1,
            acc@ == pdf_fold(texts(lines@).take(i as int)),
            state_in_order(acc@),
        decreases lines.len() - i,
    {
        proof {
            assert(texts(lines@).take(i + 1).drop_last() == texts(lines@).take(i as int));
            assert(texts(lines@).take(i + 1).last() == lines@[i as int]@);
            lemma_steps_in_order(acc@, lines@[i as int]@, MarkdownEventView::Other);
        }
        acc.pdf_line(&lines[i]);
        i += 1;
    }
    assert(texts(lines@).take(lines@.len() as int) == texts(lines@));
    proof {
        lemma_finish_well_formed(acc@, text@, file_name@, CodeMarks::FenceOrIndent);
    }
    Ok(acc.finish(text, file_name, CodeMarks::FenceOrIndent))
}

/// Extracts a document from the text of a plain-text file.
///
/// Fails, with a `Validation` error, only on a text of `usize::MAX` characters.
pub fn extract_text_file(text: &str, file_name: &str) -> (r: Result<ExtractedDocument, AppError>)
    ensures
        match r {
            Ok(doc) => {
                &&& text@.len() < usize::MAX
                &&& doc@ == spec_extract_text_file(text@, file_name@)
                &&& doc@.well_formed()
                &&& doc@.in_page_order()
            },
            Err(e) => text@.len() >= usize::MAX && e is Validation,
        },
{
    if text.unicode_len() == usize::MAX {
        return Err(too_large());
    }
    let lines = split_lines(&chars_of(text));
    proof {
        lemma_lines_bound(text@);
        assert(texts(lines@).take(0) =~= Seq::<Seq<char>>::empty());
    }
    let mut acc = Accumulator::new();
    let mut i: usize = 0;
    while i < lines.len()
        invariant
            i <= lines.len(),
            lines@.len() < usize::MAX,
            acc.page_number <= i + 1,
            acc@ == text_fold(texts(lines@).take(i as int)),
            state_in_order(acc@),
        decreases lines.len() - i,
    {
        proof {
            assert(texts(lines@).take(i + 1).drop_last() == texts(lines@).take(i as int));
            assert(texts(lines@).take(i + 1).last() == lines@[i as int]@);
            lemma_steps_in_order(acc@, lines@[i as int]@, MarkdownEventView::Other);
        }
        acc.text_line(&lines[i]);
        i += 1;
    }
    assert(texts(lines@).take(lines@.len() as int) == texts(lines@));
    proof {
        lemma_finish_well_formed(acc@, text@, file_name@, CodeMarks::Indent);
    }
    Ok(acc.finish(text, file_name, CodeMarks::Indent))
}

/// What the Markdown parser reports, as far as extraction looks at it.
#[derive(Debug, Clone)]
pub enum MarkdownEvent {
    /// The start of a heading of the given level, 1 to 6.
    HeadingStart(u8),
    /// The end of a heading.
    HeadingEnd,
    /// A text node.
    Text(String),
    /// An inline code node.
    Code(String),
    /// The start of a fenced code block with the given language, which may be
    /// empty.
    FencedCode(String),
    /// The start of an indented code block.
    IndentedCode,
    /// Any other event.
    Other,
}

pub enum MarkdownEventView {
    HeadingStart(u8),
    HeadingEnd,
    Text(Seq<char>),
    Code(Seq<char>),
    FencedCode(Seq<char>),
    IndentedCode,
    Other,
}

impl View for MarkdownEvent {
    type V = MarkdownEventView;

    open spec fn view(&self) -> MarkdownEventView {
        match self {
            MarkdownEvent::HeadingStart(level) => MarkdownEventView::HeadingStart(*level),
            MarkdownEvent::HeadingEnd => MarkdownEventView::HeadingEnd,
            MarkdownEvent::Text(t) => MarkdownEventView::Text(t@),
            MarkdownEvent::Code(c) => MarkdownEventView::Code(c@),
            MarkdownEvent::FencedCode(l) => MarkdownEventView::FencedCode(l@),
            MarkdownEvent::IndentedCode => MarkdownEventView::IndentedCode,
            MarkdownEvent::Other => MarkdownEventView::Other,
        }
    }
}

/// The views of a sequence of events.
pub open spec fn event_views(events: Seq<MarkdownEvent>) -> Seq<MarkdownEventView> {
    events.map_values(|e: MarkdownEvent| e@)
}

/// The events that `pulldown_cmark::Parser::new` yields for `content`, each
/// reduced to what extraction looks at.
pub uninterp spec fn markdown_events_of(content: Seq<char>) -> Seq<MarkdownEventView>;

/// `pulldown_cmark::Parser::new`, run to its end: the events of `content` in
/// order, which depend on the text alone. A heading start keeps its level, a
/// text or inline code node its text, a code block start its kind and
/// language; every other event is `Other`.
#[verifier::external_body]
fn parse_markdown(content: &str) -> (events: Vec<MarkdownEvent>)
    ensures
        event_views(events@) == markdown_events_of(content@),
{
    let mut events = Vec::new();
    for event in Parser::new(content) {
        events.push(match event {
            Event::Start(Tag::Heading { level, .. }) => MarkdownEvent::HeadingStart(level as u8),
            Event::End(TagEnd::Heading(_)) => MarkdownEvent::HeadingEnd,
            Event::Text(t) => MarkdownEvent::Text(t.to_string()),
            Event::Code(c) => MarkdownEvent::Code(c.to_string()),
            Event::Start(Tag::CodeBlock(CodeBlockKind::Fenced(l))) => MarkdownEvent::FencedCode(l.to_string()),
            Event::Start(Tag::CodeBlock(CodeBlockKind::Indented)) => MarkdownEvent::IndentedCode,
            _ => MarkdownEvent::Other,
        });
    }
    events
}

/// The state after one more Markdown event.
///
/// The start of a heading closes the accumulated text as a section under the
/// heading before, sets the level, and begins a new, empty heading; its end
/// begins a page. Between the two, text is the heading's text; anywhere else
/// it enters the accumulated text. Inline code stands between backticks in
/// either. The start of a code block records a code block, with its language
/// where it is fenced.
pub open spec fn markdown_step(st: AccumulatorView, event: MarkdownEventView) -> AccumulatorView {
    match event {
        MarkdownEventView::HeadingStart(level) => AccumulatorView {
            level,
            heading: Seq::empty(),
            in_heading: true,
            ..flush(st, CodeMarks::Fence)
        },
        MarkdownEventView::HeadingEnd => AccumulatorView {
            in_heading: false,
            page_number: next_page(st.page_number),
            ..st
        },
        MarkdownEventView::Text(t) => if st.in_heading {
            AccumulatorView { heading: st.heading + t, ..st }
        } else {
            AccumulatorView { body: st.body + t, ..st }
        },
        MarkdownEventView::Code(c) => if st.in_heading {
            AccumulatorView { heading: st.heading + "`"@ + c + "`"@, ..st }
        } else {
            AccumulatorView { body: st.body + "`"@ + c + "`"@, ..st }
        },
        MarkdownEventView::FencedCode(l) => AccumulatorView {
            languages: add_unique(st.languages, l),
            code_blocks: st.code_blocks.push(
                CodeBlockView {
                    language: Some(l),
                    content: Seq::empty(),
                    context_heading: st.heading,
                    page_number: st.page_number,
                },
            ),
            ..st
        },
        MarkdownEventView::IndentedCode => AccumulatorView {
            code_blocks: st.code_blocks.push(
                CodeBlockView {
                    language: None,
                    content: Seq::empty(),
                    context_heading: st.heading,
                    page_number: st.page_number,
                },
            ),
            ..st
        },
        MarkdownEventView::Other => st,
    }
}

/// The state after the events `events`.
pub open spec fn markdown_fold(events: Seq<MarkdownEventView>) -> AccumulatorView
    decreases events.len(),
{
    if events.len() == 0 {
        initial_state()
    } else {
        markdown_step(markdown_fold(events.drop_last()), events.last())
    }
}

/// The document extracted from Markdown with the given events.
pub open spec fn spec_extract_markdown(
    events: Seq<MarkdownEventView>,
    content: Seq<char>,
    file_name: Seq<char>,
) -> ExtractedDocumentView {
    finish(markdown_fold(events), content, file_name, CodeMarks::Fence)
}

impl Accumulator {
    /// Records a code block that begins under the current heading.
    fn push_code_block(&mut self, language: Option<String>)
        ensures
            final(self)@ == (AccumulatorView {
                code_blocks: old(self)@.code_blocks.push(
                    CodeBlockView {
                        language: opt_view(language),
                        content: Seq::empty(),
                        context_heading: old(self)@.heading,
                        page_number: old(self)@.page_number,
                    },
                ),
                ..old(self)@
            }),
    {
        let block = CodeBlock {
            language,
            content: String::new(),
            context_heading: string_of(&self.heading),
            page_number: self.page_number,
        };
        let ghost before = code_block_views(self.code_blocks@);
        self.code_blocks.push(block);
        assert(code_block_views(self.code_blocks@) =~= before.push(block@));
    }

    /// Takes in one Markdown event.
    pub fn markdown_event(&mut self, event: &MarkdownEvent)
        requires
            old(self).page_number < usize::MAX,
        ensures
            final(self)@ == markdown_step(old(self)@, event@),
            final(self).page_number <= old(self).page_number + 1,
    {
        match event {
            MarkdownEvent::HeadingStart(level) => {
                self.flush(CodeMarks::Fence);
                self.level = *level;
                self.heading = Vec::new();
                self.in_heading = true;
            },
            MarkdownEvent::HeadingEnd => {
                self.in_heading = false;
                self.page_number = self.page_number + 1;
            },
            MarkdownEvent::Text(t) => {
                let text = chars_of(t.as_str());
                if self.in_heading {
                    append_chars(&mut self.heading, &text);
                } else {
                    append_chars(&mut self.body, &text);
                }
            },
            MarkdownEvent::Code(c) => {
                let mut code: Vec<char> = Vec::new();
                code.push('`');
                append_chars(&mut code, &chars_of(c.as_str()));
                code.push('`');
                proof {
                    reveal_strlit("`");
                    assert("`"@ =~= seq!['`']);
                    assert(code@ =~= "`"@ + c@ + "`"@);
                }
                if self.in_heading {
                    append_chars(&mut self.heading, &code);
                    assert(self.heading@ =~= old(self).heading@ + "`"@ + c@ + "`"@);
                } else {
                    append_chars(&mut self.body, &code);
                    assert(self.body@ =~= old(self).body@ + "`"@ + c@ + "`"@);
                }
            },
            MarkdownEvent::FencedCode(l) => {
                push_unique(&mut self.languages, l.clone());
                self.push_code_block(Some(l.clone()));
            },
            MarkdownEvent::IndentedCode => {
                self.push_code_block(None);
            },
            MarkdownEvent::Other => {},
        }
    }
}

/// Extracts a document from Markdown, given the events of its text.
///
/// Fails, with a `Validation` error, only on `usize::MAX` events.
pub fn extract_markdown_events(events: &Vec<MarkdownEvent>, content: &str, file_name: &str) -> (r:
    Result<ExtractedDocument, AppError>)
    ensures
        match r {
            Ok(doc) => {
                &&& events@.len() < usize::MAX
                &&& doc@ == spec_extract_markdown(event_views(events@), content@, file_name@)
                &&& doc@.well_formed()
                &&& doc@.in_page_order()
            },
            Err(e) => events@.len() >= usize::MAX && e is Validation,
        },
{
    if events.len() == usize::MAX {
        return Err(too_large());
    }
    let ghost all = event_views(events@);
    let mut acc = Accumulator::new();
    let mut i: usize = 0;
    assert(all.take(0) =~= Seq::<MarkdownEventView>::empty());
    while i < events.len()
        invariant
            i <= events.len(),
            events@.len() < usize::MAX,
            all == event_views(events@),
            acc.page_number <= i + 1,
            acc@ == markdown_fold(all.take(i as int)),
            state_in_order(acc@),
        decreases events.len() - i,
    {
        proof {
            assert(all.take(i + 1).drop_last() == all.take(i as int));
            assert(all.take(i + 1).last() == events@[i as int]@);
            lemma_steps_in_order(acc@, Seq::empty(), events@[i as int]@);
        }
        acc.markdown_event(&events[i]);
        i += 1;
    }
    assert(all.take(events@.len() as int) == all);
    proof {
        lemma_finish_well_formed(acc@, content@, file_name@, CodeMarks::Fence);
    }
    Ok(acc.finish(content, file_name, CodeMarks::Fence))
}

/// Extracts a document from the text of a Markdown file: headings and their
/// levels come from the format's own heading markup.
///
/// Fails, with a `Validation` error, only where the text has `usize::MAX`
/// events.
pub fn extract_markdown(content: &str, file_name: &str) -> (r: Result<ExtractedDocument, AppError>)
    ensures
        match r {
            Ok(doc) => {
                &&& markdown_events_of(content@).len() < usize::MAX
                &&& doc@ == spec_extract_markdown(
                    markdown_events_of(content@),
                    content@,
                    file_name@,
                )
                &&& doc@.well_formed()
                &&& doc@.in_page_order()
            },
            Err(e) => markdown_events_of(content@).len() >= usize::MAX && e is Validation,
        },
{
    let events = parse_markdown(content);
    assert(event_views(events@).len() == events@.len());
    extract_markdown_events(&events, content, file_name)
}

/// The formats that extraction accepts.
#[derive(Debug, Clone, Copy, PartialEq, Eq, Structural)]
pub enum DocumentFormat {
    Pdf,
    Markdown,
    PlainText,
}

/// The format for a file extension, without regard to case: `pdf`; `md` or
/// `markdown`; `txt`.
pub open spec fn spec_format_for_extension(extension: Seq<char>) -> Option<DocumentFormat> {
    spec_known_format(spec_lowercase(extension))
}

/// The format for a file extension in lower case.
pub open spec fn spec_known_format(e: Seq<char>) -> Option<DocumentFormat> {
    if e == "pdf"@ {
        Some(DocumentFormat::Pdf)
    } else if e == "md"@ || e == "markdown"@ {
        Some(DocumentFormat::Markdown)
    } else if e == "txt"@ {
        Some(DocumentFormat::PlainText)
    } else {
        None
    }
}

/// The format for a file extension in lower case, if it is one of the four
/// that are accepted.
pub fn known_format(lowered: &str) -> (r: Option<DocumentFormat>)
    ensures
        r == spec_known_format(lowered@),
{
    if str_eq(lowered, "pdf") {
        Some(DocumentFormat::Pdf)
    } else if str_eq(lowered, "md") || str_eq(lowered, "markdown") {
        Some(DocumentFormat::Markdown)
    } else if str_eq(lowered, "txt") {
        Some(DocumentFormat::PlainText)
    } else {
        None
    }
}

/// Selects the format by the file's extension. Any other extension is a
/// `Validation` error that names it, in lower case; no file is touched.
pub fn format_for_extension(extension: &str) -> (r: Result<DocumentFormat, AppError>)
    ensures
        match r {
            Ok(format) => spec_format_for_extension(extension@) == Some(format),
            Err(e) => {
                &&& spec_format_for_extension(extension@) is None
                &&& e is Validation
                &&& e.spec_detail() == "Unsupported file type: "@ + spec_lowercase(extension@)
            },
        },
{
    let lowered = lowercase(extension);
    match known_format(lowered.as_str()) {
        Some(format) => Ok(format),
        None => {
            let mut m = String::from_str("Unsupported file type: ");
            m.append(lowered.as_str());
            Err(AppError::Validation(m))
        },
    }
}

/// The document extracted from `text` in the given format.
pub open spec fn spec_extract(
    format: DocumentFormat,
    text: Seq<char>,
    file_name: Seq<char>,
) -> ExtractedDocumentView {
    match format {
        DocumentFormat::Pdf => spec_extract_pdf(text, file_name),
        DocumentFormat::Markdown => spec_extract_markdown(
            markdown_events_of(text),
            text,
            file_name,
        ),
        DocumentFormat::PlainText => spec_extract_text_file(text, file_name),
    }
}

/// Extraction fails: the text is too long for its pages to be numbered, that
/// is, it has `usize::MAX` characters or, in Markdown, events.
pub open spec fn extraction_fails(format: DocumentFormat, text: Seq<char>) -> bool {
    match format {
        DocumentFormat::Markdown => markdown_events_of(text).len() >= usize::MAX,
        _ => text.len() >= usize::MAX,
    }
}

/// Extracts a document from the text of a file in the given format. Fails,
/// with a `Validation` error, exactly where the text is too long for its pages
/// to be numbered.
pub fn extract_text(format: DocumentFormat, text: &str, file_name: &str) -> (r: Result<
    ExtractedDocument,
    AppError,
>)
    ensures
        r is Err <==> extraction_fails(format, text@),
        match r {
            Ok(doc) => doc@ == spec_extract(format, text@, file_name@) && doc@.well_formed()
                && doc@.in_page_order(),
            Err(e) => e is Validation,
        },
{
    match format {
        DocumentFormat::Pdf => extract_pdf(text, file_name),
        DocumentFormat::Markdown => extract_markdown(text, file_name),
        DocumentFormat::PlainText => extract_text_file(text, file_name),
    }
}

} // verus!
