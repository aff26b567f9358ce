//! Chunking: splitting an extracted document into token-bounded units.

use vstd::prelude::*;
use vstd::string::StringExecFns;
use crate::db::models::import::{
    chunk_views, ChunkStrategy, ChunkedDocument, ChunkedDocumentView, DocumentChunk,
    code_block_views, section_views, CodeBlock, CodeBlockView, DocumentChunkView, DocumentMetadata,
    DocumentMetadataView, ExtractedDocument, ExtractedDocumentView, ExtractedSection,
    ExtractedSectionView,
};
use crate::error::AppError;
use crate::text::{
    chars_of, decimal_usize, insert_sorted, insert_sorted_string, lemma_insert_sorted,
    spec_decimal, spec_lines, spec_starts_with, spec_trim, split_lines, strictly_sorted,
    string_of_range, string_views, texts, trim,
};

verus! {

/// The sum of `counts`.
pub open spec fn total(counts: Seq<usize>) -> nat
    decreases counts.len(),
{
    if counts.len() == 0 {
        0
    } else {
        total(counts.drop_last()) + counts.last() as nat
    }
}

/// The state of greedy grouping: the groups that are closed, and the one that
/// is still open with the tokens it holds.
pub struct Grouping {
    pub closed: Seq<Seq<usize>>,
    pub open: Seq<usize>,
    pub open_tokens: nat,
}

/// Grouping before any section.
pub open spec fn no_grouping() -> Grouping {
    Grouping { closed: Seq::empty(), open: Seq::empty(), open_tokens: 0 }
}

/// Takes in the section at `index`, which holds `tokens` tokens: where it
/// would take the open group over `budget`, and that group is not empty, the
/// group is closed first.
pub open spec fn group_step(g: Grouping, index: usize, tokens: usize, budget: usize) -> Grouping {
    if g.open_tokens + tokens > budget && g.open.len() > 0 {
        Grouping { closed: g.closed.push(g.open), open: seq![index], open_tokens: tokens as nat }
    } else {
        Grouping { closed: g.closed, open: g.open.push(index), open_tokens: (g.open_tokens + tokens) as nat }
    }
}

/// Greedy grouping of the sections with the token counts `counts`.
pub open spec fn grouping(counts: Seq<usize>, budget: usize) -> Grouping
    decreases counts.len(),
{
    if counts.len() == 0 {
        no_grouping()
    } else {
        group_step(
            grouping(counts.drop_last(), budget),
            (counts.len() - 1) as usize,
            counts.last(),
            budget,
        )
    }
}

/// The groups of section positions that greedy grouping ends with.
pub open spec fn spec_groups(counts: Seq<usize>, budget: usize) -> Seq<Seq<usize>> {
    let g = grouping(counts, budget);
    if g.open.len() > 0 {
        g.closed.push(g.open)
    } else {
        g.closed
    }
}

/// The groups one after the other.
pub open spec fn concat_groups(groups: Seq<Seq<usize>>) -> Seq<usize>
    decreases groups.len(),
{
    if groups.len() == 0 {
        Seq::empty()
    } else {
        concat_groups(groups.drop_last()) + groups.last()
    }
}

/// The positions `0, 1, .., n - 1`.
pub open spec fn positions(n: nat) -> Seq<usize> {
    Seq::new(n, |i: int| i as usize)
}

/// The tokens of the sections at `group`.
pub open spec fn group_tokens(counts: Seq<usize>, group: Seq<usize>) -> nat
    decreases group.len(),
{
    if group.len() == 0 {
        0
    } else {
        group_tokens(counts, group.drop_last()) + counts[group.last() as int] as nat
    }
}

/// The views of a sequence of groups.
pub open spec fn group_views(groups: Seq<Vec<usize>>) -> Seq<Seq<usize>> {
    groups.map_values(|g: Vec<usize>| g@)
}

/// What greedy grouping maintains: the groups hold the positions seen so
/// far, each once and in order; no closed group is empty; the open group
/// holds the tokens recorded for it; and a group of more than one section
/// stays within the budget.
pub open spec fn grouping_invariant(g: Grouping, counts: Seq<usize>, budget: usize) -> bool {
    &&& concat_groups(g.closed) + g.open == positions(counts.len())
    &&& forall|i: int| 0 <= i < g.closed.len() ==> (#[trigger] g.closed[i]).len() > 0
    &&& (counts.len() > 0 ==> g.open.len() > 0)
    &&& g.open_tokens == group_tokens(counts, g.open)
    &&& forall|i: int|
        0 <= i < g.closed.len() ==> (#[trigger] g.closed[i]).len() > 1 ==> group_tokens(
            counts,
            g.closed[i],
        ) <= budget
    &&& (g.open.len() > 1 ==> g.open_tokens <= budget)
}

/// The tokens of a group do not depend on counts beyond its positions.
pub proof fn lemma_group_tokens_prefix(counts: Seq<usize>, n: int, group: Seq<usize>)
    requires
        0 <= n <= counts.len(),
        forall|i: int| 0 <= i < group.len() ==> (#[trigger] group[i] as int) < n,
    ensures
        group_tokens(counts.take(n), group) == group_tokens(counts, group),
    decreases group.len(),
{
    if group.len() > 0 {
        assert forall|i: int| 0 <= i < group.drop_last().len() implies (
        #[trigger] group.drop_last()[i] as int) < n by {
            assert(group.drop_last()[i] == group[i]);
        }
        lemma_group_tokens_prefix(counts, n, group.drop_last());
        assert((group[group.len() - 1] as int) < n);
    }
}

/// Every position of a group lies below the number of positions that the
/// groups hold together.
pub proof fn lemma_concat_member(groups: Seq<Seq<usize>>, i: int, k: int)
    requires
        0 <= i < groups.len(),
        0 <= k < groups[i].len(),
    ensures
        concat_groups(groups).contains(groups[i][k]),
    decreases groups.len(),
{
    let all = concat_groups(groups);
    let before = concat_groups(groups.drop_last());
    if i == groups.len() - 1 {
        assert(all[before.len() + k] == groups[i][k]);
    } else {
        lemma_concat_member(groups.drop_last(), i, k);
        let j = choose|j: int| 0 <= j < before.len() && before[j] == groups[i][k];
        assert(all[j] == groups[i][k]);
    }
}

/// Under the invariant every position of the open group lies below the number
/// of sections seen.
pub proof fn lemma_open_positions(g: Grouping, counts: Seq<usize>, budget: usize)
    requires
        grouping_invariant(g, counts, budget),
        counts.len() <= usize::MAX,
    ensures
        forall|k: int| 0 <= k < g.open.len() ==> (#[trigger] g.open[k] as int) < counts.len(),
{
    let before = concat_groups(g.closed);
    let all = positions(counts.len());
    assert forall|k: int| 0 <= k < g.open.len() implies (#[trigger] g.open[k] as int)
        < counts.len() by {
        assert((before + g.open)[before.len() + k] == g.open[k]);
        assert((before + g.open).len() == all.len());
        assert(all[before.len() + k] == (before.len() + k) as usize);
    }
}

/// Under the invariant every position of a closed group lies below the
/// number of sections seen.
pub proof fn lemma_closed_positions(g: Grouping, counts: Seq<usize>, budget: usize)
    requires
        grouping_invariant(g, counts, budget),
        counts.len() <= usize::MAX,
    ensures
        forall|i: int, k: int|
            0 <= i < g.closed.len() && 0 <= k < g.closed[i].len() ==> (
            #[trigger] g.closed[i][k] as int) < counts.len(),
{
    let before = concat_groups(g.closed);
    let all = positions(counts.len());
    assert forall|i: int, k: int|
        0 <= i < g.closed.len() && 0 <= k < g.closed[i].len() implies (
    #[trigger] g.closed[i][k] as int) < counts.len() by {
        lemma_concat_member(g.closed, i, k);
        let j = choose|j: int| 0 <= j < before.len() && before[j] == g.closed[i][k];
        assert((before + g.open)[j] == g.closed[i][k]);
        assert((before + g.open).len() == all.len());
        assert(all[j] == j as usize);
    }
}

/// Greedy grouping maintains its invariant.
pub proof fn lemma_grouping(counts: Seq<usize>, budget: usize)
    requires
        counts.len() <= usize::MAX,
    ensures
        grouping_invariant(grouping(counts, budget), counts, budget),
    decreases counts.len(),
{
    if counts.len() > 0 {
        let n = counts.len() - 1;
        let shorter = counts.drop_last();
        let g = grouping(shorter, budget);
        let after = grouping(counts, budget);
        lemma_grouping(shorter, budget);
        assert(shorter == counts.take(n));
        assert(positions(counts.len()) =~= positions(n as nat).push(n as usize));
        lemma_open_positions(g, shorter, budget);
        lemma_closed_positions(g, shorter, budget);
        lemma_group_tokens_prefix(counts, n, g.open);
        assert forall|i: int| 0 <= i < g.closed.len() implies group_tokens(counts, g.closed[i])
            == group_tokens(shorter, #[trigger] g.closed[i]) by {
            lemma_group_tokens_prefix(counts, n, g.closed[i]);
        }
        if g.open_tokens + counts.last() > budget && g.open.len() > 0 {
            assert(after.closed.drop_last() == g.closed);
            assert(concat_groups(after.closed) + after.open =~= (concat_groups(g.closed) + g.open)
                + seq![n as usize]);
            assert(after.open.drop_last() =~= Seq::<usize>::empty());
            assert(after.open.last() as int == n);
            assert(group_tokens(counts, after.open.drop_last()) == 0);
            assert(group_tokens(counts, after.open) == counts[n] as nat);
            assert forall|i: int| 0 <= i < after.closed.len() implies (
            #[trigger] after.closed[i]).len() > 1 ==> group_tokens(counts, after.closed[i])
                <= budget by {
                if i < g.closed.len() {
                    assert(after.closed[i] == g.closed[i]);
                }
            }
        } else {
            assert(concat_groups(after.closed) + after.open =~= (concat_groups(g.closed) + g.open)
                + seq![n as usize]);
            assert(after.open.drop_last() == g.open);
            if g.open.len() == 0 {
                assert(g.open_tokens == 0);
            }
        }
        assert(concat_groups(after.closed) + after.open =~= positions(counts.len()));
    } else {
        assert(concat_groups(no_grouping().closed) + no_grouping().open =~= positions(0));
    }
}

/// Greedy grouping partitions the sections: its groups, one after the other,
/// are the positions `0, .., n - 1`, each once and in order. No group is empty,
/// and a group of more than one section holds no more tokens than the budget.
pub proof fn lemma_groups_partition(counts: Seq<usize>, budget: usize)
    requires
        counts.len() <= usize::MAX,
    ensures
        concat_groups(spec_groups(counts, budget)) == positions(counts.len()),
        forall|i: int|
            0 <= i < spec_groups(counts, budget).len() ==> (#[trigger] spec_groups(
                counts,
                budget,
            )[i]).len() > 0,
        forall|i: int|
            0 <= i < spec_groups(counts, budget).len() ==> (#[trigger] spec_groups(
                counts,
                budget,
            )[i]).len() > 1 ==> group_tokens(counts, spec_groups(counts, budget)[i]) <= budget,
{
    lemma_grouping(counts, budget);
    let g = grouping(counts, budget);
    if g.open.len() > 0 {
        assert(g.closed.push(g.open).drop_last() == g.closed);
    } else {
        assert(concat_groups(g.closed) + g.open =~= concat_groups(g.closed));
    }
}

/// Groups sections greedily by their token counts: sections are taken in
/// order into the open group; where the next one would take the group over
/// `budget` and the group is not empty, the group is closed and a new one
/// begins with that section. Returns the groups and the tokens of each.
pub fn group_sections(counts: &Vec<usize>, budget: usize) -> (r: (Vec<Vec<usize>>, Vec<usize>))
    ensures
        group_views(r.0@) == spec_groups(counts@, budget),
        r.1@.len() == r.0@.len(),
        forall|i: int|
            0 <= i < r.1@.len() ==> #[trigger] r.1@[i] == group_tokens(counts@, r.0@[i]@),
{
    let mut closed: Vec<Vec<usize>> = Vec::new();
    let mut sums: Vec<usize> = Vec::new();
    let mut open: Vec<usize> = Vec::new();
    let mut open_tokens: usize = 0;
    let mut i: usize = 0;
    proof {
        assert(counts@.take(0) =~= Seq::<usize>::empty());
        assert(group_views(closed@) =~= Seq::<Seq<usize>>::empty());
    }
    while i < counts.len()
        invariant
            i <= counts.len(),
            grouping(counts@.take(i as int), budget) == (Grouping {
                closed: group_views(closed@),
                open: open@,
                open_tokens: open_tokens as nat,
            }),
            sums@.len() == closed@.len(),
            forall|j: int|
                0 <= j < sums@.len() ==> #[trigger] sums@[j] == group_tokens(counts@, closed@[j]@),
        decreases counts.len() - i,
    {
        let c = counts[i];
        let ghost g = grouping(counts@.take(i as int), budget);
        proof {
            lemma_grouping(counts@.take(i as int), budget);
            assert(counts@.take(i + 1).drop_last() == counts@.take(i as int));
            assert(counts@.take(i + 1).last() == c);
            lemma_open_positions(g, counts@.take(i as int), budget);
            assert(g.open == open@);
            lemma_group_tokens_prefix(counts@, i as int, open@);
        }
        let fits = open_tokens <= budget && c <= budget - open_tokens;
        if !fits && open.len() > 0 {
            let ghost before = group_views(closed@);
            closed.push(open);
            sums.push(open_tokens);
            assert(group_views(closed@) =~= before.push(g.open));
            open = Vec::new();
            open.push(i);
            open_tokens = c;
        } else {
            open.push(i);
            open_tokens = open_tokens + c;
        }
        i += 1;
    }
    proof {
        assert(counts@.take(counts@.len() as int) == counts@);
        lemma_grouping(counts@, budget);
        let g = grouping(counts@, budget);
        lemma_open_positions(g, counts@, budget);
        assert(g.open == open@);
    }
    if open.len() > 0 {
        let ghost before = group_views(closed@);
        let ghost last = open@;
        closed.push(open);
        sums.push(open_tokens);
        assert(group_views(closed@) =~= before.push(last));
    }
    (closed, sums)
}

/// The chunks with the given contents, token counts and section groups.
pub open spec fn spec_chunks(
    contents: Seq<Seq<char>>,
    tokens: Seq<usize>,
    groups: Seq<Seq<usize>>,
) -> Seq<DocumentChunkView> {
    Seq::new(
        groups.len(),
        |i: int|
            DocumentChunkView {
                index: i as usize,
                content: contents[i],
                token_count: tokens[i],
                section_refs: groups[i],
                is_continuation: i > 0,
            },
    )
}

/// Builds the chunked document from the contents, token counts and section
/// groups of its chunks. Fails where the token counts do not sum within
/// `usize`.
pub fn assemble_chunks(
    contents: Vec<String>,
    tokens: &Vec<usize>,
    groups: Vec<Vec<usize>>,
    strategy: ChunkStrategy,
) -> (r: Result<ChunkedDocument, AppError>)
    requires
        contents@.len() == groups@.len(),
        tokens@.len() == groups@.len(),
    ensures
        match r {
            Ok(doc) => {
                &&& total(tokens@) <= usize::MAX
                &&& doc@ == (ChunkedDocumentView {
                    chunks: spec_chunks(string_views(contents@), tokens@, group_views(groups@)),
                    total_tokens: total(tokens@) as usize,
                    chunk_strategy: strategy,
                })
            },
            Err(e) => e is Internal && total(tokens@) > usize::MAX,
        },
{
    let mut contents = contents;
    let mut groups = groups;
    let ghost all_contents = string_views(contents@);
    let ghost all_groups = group_views(groups@);
    let n = groups.len();
    let mut chunks: Vec<DocumentChunk> = Vec::new();
    let mut sum: usize = 0;
    let mut i: usize = 0;
    proof {
        assert(tokens@.take(0) =~= Seq::<usize>::empty());
        assert(chunk_views(chunks@) =~= spec_chunks(all_contents, tokens@, all_groups).take(0));
    }
    while i < n
        invariant
            i <= n,
            n == groups@.len(),
            contents@.len() == n,
            tokens@.len() == n,
            all_contents.len() == n,
            all_groups.len() == n,
            forall|k: int| i <= k < n ==> (#[trigger] contents@[k])@ == all_contents[k],
            forall|k: int| i <= k < n ==> (#[trigger] groups@[k])@ == all_groups[k],
            sum == total(tokens@.take(i as int)),
            chunk_views(chunks@) == spec_chunks(all_contents, tokens@, all_groups).take(i as int),
        decreases n - i,
    {
        let mut content = String::new();
        let mut refs: Vec<usize> = Vec::new();
        std::mem::swap(&mut content, &mut contents[i]);
        std::mem::swap(&mut refs, &mut groups[i]);
        proof {
            assert(tokens@.take(i + 1).drop_last() == tokens@.take(i as int));
            assert(tokens@.take(i + 1).last() == tokens@[i as int]);
        }
        let count = tokens[i];
        if count > usize::MAX - sum {
            proof {
                lemma_total_monotone(tokens@, i + 1);
            }
            return Err(AppError::Internal(String::from_str("token counts exceed the machine range")));
        }
        sum = sum + count;
        let ghost before = chunk_views(chunks@);
        let chunk = DocumentChunk {
            index: i,
            content,
            token_count: count,
            section_refs: refs,
            is_continuation: i > 0,
        };
        chunks.push(chunk);
        assert(chunk_views(chunks@) =~= before.push(chunk@));
        assert(before.push(chunk@) =~= spec_chunks(all_contents, tokens@, all_groups).take(i + 1));
        i += 1;
    }
    proof {
        assert(tokens@.take(n as int) == tokens@);
        assert(spec_chunks(all_contents, tokens@, all_groups).take(n as int) =~= spec_chunks(
            all_contents,
            tokens@,
            all_groups,
        ));
    }
    Ok(ChunkedDocument { chunks, total_tokens: sum, chunk_strategy: strategy })
}

/// The sum of a prefix is at most the sum of the whole.
pub proof fn lemma_total_monotone(counts: Seq<usize>, n: int)
    requires
        0 <= n <= counts.len(),
    ensures
        total(counts.take(n)) <= total(counts),
    decreases counts.len() - n,
{
    if n < counts.len() {
        lemma_total_monotone(counts, n + 1);
        assert(counts.take(n + 1).drop_last() == counts.take(n));
    } else {
        assert(counts.take(n) == counts);
    }
}

/// The position that follows the closed group `i`: the first of the next
/// closed group, or of the open group after the last closed one.
pub open spec fn next_after(g: Grouping, i: int) -> usize {
    if i + 1 < g.closed.len() {
        g.closed[i + 1][0]
    } else {
        g.open[0]
    }
}

/// Every closed group was closed because the section after it did not fit.
pub open spec fn closed_for_cause(g: Grouping, counts: Seq<usize>, budget: usize) -> bool {
    forall|i: int|
        0 <= i < g.closed.len() ==> group_tokens(counts, #[trigger] g.closed[i]) + counts[next_after(
            g,
            i,
        ) as int] > budget
}

/// Greedy grouping closes a group only for cause.
pub proof fn lemma_grouping_is_greedy(counts: Seq<usize>, budget: usize)
    requires
        counts.len() <= usize::MAX,
    ensures
        closed_for_cause(grouping(counts, budget), counts, budget),
    decreases counts.len(),
{
    if counts.len() > 0 {
        let n = counts.len() - 1;
        let shorter = counts.drop_last();
        let g = grouping(shorter, budget);
        let after = grouping(counts, budget);
        lemma_grouping_is_greedy(shorter, budget);
        lemma_grouping(shorter, budget);
        lemma_grouping(counts, budget);
        lemma_open_positions(g, shorter, budget);
        assert(shorter == counts.take(n));
        lemma_group_tokens_prefix(counts, n, g.open);
        lemma_closed_positions(g, shorter, budget);
        assert forall|i: int| 0 <= i < g.closed.len() implies group_tokens(counts, g.closed[i])
            == group_tokens(shorter, #[trigger] g.closed[i]) by {
            lemma_group_tokens_prefix(counts, n, g.closed[i]);
        }
        assert forall|i: int| 0 <= i < after.closed.len() implies group_tokens(
            counts,
            #[trigger] after.closed[i],
        ) + counts[next_after(after, i) as int] > budget by {
            if i < g.closed.len() {
                assert(after.closed[i] == g.closed[i]);
                assert(g.open.len() > 0);
                assert(next_after(after, i) == next_after(g, i));
                let nxt = next_after(g, i) as int;
                if i + 1 < g.closed.len() {
                    assert((g.closed[i + 1][0] as int) < n);
                }
                assert(nxt < n);
                assert(shorter[nxt] == counts[nxt]);
            } else {
                assert(after.closed[i] == g.open);
                assert(after.open[0] == n as usize);
            }
        }
    }
}

/// Greedy grouping is greedy: each group but the last holds as many sections
/// as the budget allows, for the section that opens the next group would have
/// taken it over the budget.
pub proof fn lemma_groups_are_full(counts: Seq<usize>, budget: usize, i: int)
    requires
        counts.len() <= usize::MAX,
        0 <= i,
        i + 1 < spec_groups(counts, budget).len(),
    ensures
        spec_groups(counts, budget)[i + 1].len() > 0,
        group_tokens(counts, spec_groups(counts, budget)[i]) + counts[spec_groups(
            counts,
            budget,
        )[i + 1][0] as int] > budget,
{
    let g = grouping(counts, budget);
    lemma_grouping_is_greedy(counts, budget);
    lemma_groups_partition(counts, budget);
    assert(g.open.len() > 0);
    assert(spec_groups(counts, budget)[i] == g.closed[i]);
    assert(spec_groups(counts, budget)[i + 1].len() > 0);
    assert(spec_groups(counts, budget)[i + 1][0] == next_after(g, i));
}

/// Every position in a group of greedy grouping is the position of a section.
pub proof fn lemma_groups_in_range(counts: Seq<usize>, budget: usize)
    requires
        counts.len() <= usize::MAX,
    ensures
        forall|i: int, k: int|
            0 <= i < spec_groups(counts, budget).len() && 0 <= k < spec_groups(
                counts,
                budget,
            )[i].len() ==> (#[trigger] spec_groups(counts, budget)[i][k] as int) < counts.len(),
{
    let groups = spec_groups(counts, budget);
    lemma_groups_partition(counts, budget);
    assert forall|i: int, k: int|
        0 <= i < groups.len() && 0 <= k < groups[i].len() implies (#[trigger] groups[i][k] as int)
        < counts.len() by {
        lemma_concat_member(groups, i, k);
        let all = positions(counts.len());
        let j = choose|j: int| 0 <= j < all.len() && all[j] == groups[i][k];
        assert(all[j] == j as usize);
    }
}

/// The text under which a section enters a chunk: a second-level heading line
/// set off by blank lines, then the content.
pub open spec fn spec_section_text(section: ExtractedSectionView) -> Seq<char> {
    "\n\n## "@ + section.heading + "\n\n"@ + section.content
}

/// The text under which `section` enters a chunk.
pub fn section_text(section: &ExtractedSection) -> (r: String)
    ensures
        r@ == spec_section_text(section@),
{
    let mut r = String::from_str("\n\n## ");
    r.append(section.heading.as_str());
    r.append("\n\n");
    r.append(section.content.as_str());
    r
}

/// The texts of all sections, in order.
pub open spec fn spec_section_texts(sections: Seq<ExtractedSectionView>) -> Seq<Seq<char>> {
    Seq::new(sections.len(), |i: int| spec_section_text(sections[i]))
}

/// The texts of all sections of `doc`, in order.
pub fn section_texts(doc: &ExtractedDocument) -> (r: Vec<String>)
    ensures
        string_views(r@) == spec_section_texts(doc@.sections),
{
    let mut r: Vec<String> = Vec::new();
    let mut i: usize = 0;
    assert(string_views(r@) =~= spec_section_texts(doc@.sections).take(0));
    while i < doc.sections.len()
        invariant
            i <= doc.sections.len(),
            string_views(r@) == spec_section_texts(doc@.sections).take(i as int),
        decreases doc.sections.len() - i,
    {
        let ghost before = string_views(r@);
        let t = section_text(&doc.sections[i]);
        r.push(t);
        assert(string_views(r@) =~= before.push(t@));
        assert(doc@.sections[i as int] == doc.sections@[i as int]@);
        assert(before.push(t@) =~= spec_section_texts(doc@.sections).take(i + 1));
        i += 1;
    }
    assert(spec_section_texts(doc@.sections).take(doc.sections@.len() as int)
        =~= spec_section_texts(doc@.sections));
    r
}

/// The texts at the positions `group`, one after the other.
pub open spec fn join_texts(texts: Seq<Seq<char>>, group: Seq<usize>) -> Seq<char>
    decreases group.len(),
{
    if group.len() == 0 {
        Seq::empty()
    } else {
        join_texts(texts, group.drop_last()) + texts[group.last() as int]
    }
}

/// The texts at the positions `group`, one after the other.
pub fn join_group(texts: &Vec<String>, group: &Vec<usize>) -> (r: String)
    requires
        forall|k: int| 0 <= k < group@.len() ==> (#[trigger] group@[k] as int) < texts@.len(),
    ensures
        r@ == join_texts(string_views(texts@), group@),
{
    let mut r = String::new();
    let mut k: usize = 0;
    assert(group@.take(0) =~= Seq::<usize>::empty());
    while k < group.len()
        invariant
            k <= group.len(),
            forall|j: int| 0 <= j < group@.len() ==> (#[trigger] group@[j] as int) < texts@.len(),
            r@ == join_texts(string_views(texts@), group@.take(k as int)),
        decreases group.len() - k,
    {
        proof {
            assert(group@.take(k + 1).drop_last() == group@.take(k as int));
            assert(group@.take(k + 1).last() == group@[k as int]);
            assert((group@[k as int] as int) < texts@.len());
        }
        r.append(texts[group[k]].as_str());
        k += 1;
    }
    assert(group@.take(group@.len() as int) == group@);
    r
}

/// The contents of the chunks of section-based chunking: for each group, the
/// texts of its sections.
pub open spec fn group_contents(texts: Seq<Seq<char>>, groups: Seq<Seq<usize>>) -> Seq<Seq<char>> {
    Seq::new(groups.len(), |i: int| join_texts(texts, groups[i]))
}

/// The tokens of each group.
pub open spec fn group_sums(counts: Seq<usize>, groups: Seq<Seq<usize>>) -> Seq<usize> {
    Seq::new(groups.len(), |i: int| group_tokens(counts, groups[i]) as usize)
}

/// The section-based chunking of a document whose sections hold `counts`
/// tokens, with `budget` tokens to a chunk.
pub open spec fn spec_section_based(
    doc: ExtractedDocumentView,
    counts: Seq<usize>,
    budget: usize,
) -> ChunkedDocumentView {
    let groups = spec_groups(counts, budget);
    let sums = group_sums(counts, groups);
    ChunkedDocumentView {
        chunks: spec_chunks(group_contents(spec_section_texts(doc.sections), groups), sums, groups),
        total_tokens: total(sums) as usize,
        chunk_strategy: ChunkStrategy::SectionBased,
    }
}

/// The contents of the chunks for the groups `groups`.
fn contents_of_groups(texts: &Vec<String>, groups: &Vec<Vec<usize>>) -> (r: Vec<String>)
    requires
        forall|i: int, k: int|
            0 <= i < groups@.len() && 0 <= k < groups@[i]@.len() ==> (
            #[trigger] group_views(groups@)[i][k] as int) < texts@.len(),
    ensures
        string_views(r@) == group_contents(string_views(texts@), group_views(groups@)),
{
    let mut r: Vec<String> = Vec::new();
    let mut i: usize = 0;
    let ghost all = group_contents(string_views(texts@), group_views(groups@));
    assert(string_views(r@) =~= all.take(0));
    while i < groups.len()
        invariant
            i <= groups.len(),
            all == group_contents(string_views(texts@), group_views(groups@)),
            forall|i: int, k: int|
                0 <= i < groups@.len() && 0 <= k < groups@[i]@.len() ==> (
                #[trigger] group_views(groups@)[i][k] as int) < texts@.len(),
            string_views(r@) == all.take(i as int),
        decreases groups.len() - i,
    {
        let ghost before = string_views(r@);
        proof {
            assert forall|k: int| 0 <= k < groups@[i as int]@.len() implies (
            #[trigger] groups@[i as int]@[k] as int) < texts@.len() by {
                assert(group_views(groups@)[i as int][k] == groups@[i as int]@[k]);
            }
        }
        let content = join_group(texts, &groups[i]);
        r.push(content);
        assert(string_views(r@) =~= before.push(content@));
        assert(before.push(content@) =~= all.take(i + 1));
        i += 1;
    }
    assert(all.take(groups@.len() as int) =~= all);
    r
}

/// Section-based chunking, given the token count of each section's text:
/// sections are grouped greedily under the budget and never split; a chunk
/// holds the texts of its group and counts the tokens of its sections.
pub fn chunk_sections_counted(doc: &ExtractedDocument, counts: &Vec<usize>, max_tokens: usize) -> (r:
    Result<ChunkedDocument, AppError>)
    requires
        counts@.len() == doc.sections@.len(),
    ensures
        match r {
            Ok(chunked) => {
                &&& chunked@ == spec_section_based(doc@, counts@, max_tokens)
                &&& total(group_sums(counts@, spec_groups(counts@, max_tokens))) <= usize::MAX
                &&& chunking_well_formed(chunked@, doc@.sections.len())
            },
            Err(e) => e is Internal && total(group_sums(counts@, spec_groups(counts@, max_tokens)))
                > usize::MAX,
        },
{
    let texts = section_texts(doc);
    let section_count = counts.len();
    let (groups, sums) = group_sections(counts, max_tokens);
    proof {
        assert(counts@.len() == section_count);
        lemma_groups_in_range(counts@, max_tokens);
        assert(sums@ =~= group_sums(counts@, spec_groups(counts@, max_tokens)));
        assert(string_views(texts@).len() == counts@.len());
    }
    let contents = contents_of_groups(&texts, &groups);
    proof {
        assert(string_views(contents@).len() == contents@.len());
        assert(group_views(groups@).len() == groups@.len());
        assert(section_views(doc.sections@).len() == doc.sections@.len());
        if total(sums@) <= usize::MAX {
            lemma_section_based_well_formed(doc@, counts@, max_tokens);
        }
    }
    assemble_chunks(contents, &sums, groups, ChunkStrategy::SectionBased)
}

/// The last `n` of `lines`, or all of them where there are fewer.
pub open spec fn last_lines(lines: Seq<Seq<char>>, n: nat) -> Seq<Seq<char>> {
    if lines.len() > n {
        lines.skip(lines.len() - n)
    } else {
        lines
    }
}

/// The lines with `sep` between them.
pub open spec fn join_lines(lines: Seq<Seq<char>>, sep: Seq<char>) -> Seq<char>
    decreases lines.len(),
{
    if lines.len() == 0 {
        Seq::empty()
    } else if lines.len() == 1 {
        lines[0]
    } else {
        join_lines(lines.drop_last(), sep) + sep + lines.last()
    }
}

/// `s`, cut off after `n` characters.
pub open spec fn first_chars(s: Seq<char>, n: nat) -> Seq<char> {
    if s.len() > n {
        s.take(n as int)
    } else {
        s
    }
}

/// The context that a chunk hands to the next: the last three lines of its
/// trimmed content, joined by single spaces, cut off after 200 characters.
pub open spec fn spec_last_paragraph(content: Seq<char>) -> Seq<char> {
    first_chars(join_lines(last_lines(spec_lines(spec_trim(content)), 3), " "@), 200)
}

/// The context that a chunk with this content hands to the next.
pub fn extract_last_paragraph(content: &str) -> (r: String)
    ensures
        r@ == spec_last_paragraph(content@),
        r@.len() <= 200,
{
    let trimmed = trim(&chars_of(content));
    let lines = split_lines(&trimmed);
    let from: usize = if lines.len() > 3 {
        lines.len() - 3
    } else {
        0
    };
    let ghost kept = last_lines(texts(lines@), 3);
    proof {
        assert(kept =~= texts(lines@).skip(from as int));
        assert(kept.take(0) =~= Seq::<Seq<char>>::empty());
    }
    let mut joined: Vec<char> = Vec::new();
    let mut i: usize = from;
    while i < lines.len()
        invariant
            from <= i <= lines.len(),
            kept == texts(lines@).skip(from as int),
            joined@ == join_lines(kept.take(i - from), " "@),
        decreases lines.len() - i,
    {
        proof {
            reveal_strlit(" ");
            assert(kept.take(i - from + 1).drop_last() == kept.take(i - from));
            assert(kept.take(i - from + 1).last() == lines@[i as int]@);
            assert(" "@ =~= seq![' ']);
        }
        let ghost before = joined@;
        if i > from {
            joined.push(' ');
            assert(joined@ =~= before + " "@);
        } else {
            assert(kept.take(1)[0] == lines@[i as int]@);
        }
        let ghost with_sep = joined@;
        let line = &lines[i];
        let mut k: usize = 0;
        while k < line.len()
            invariant
                k <= line.len(),
                joined@ == with_sep + line@.take(k as int),
            decreases line.len() - k,
        {
            joined.push(line[k]);
            assert(joined@ =~= with_sep + line@.take(k + 1));
            k += 1;
        }
        assert(line@.take(line@.len() as int) == line@);
        assert(with_sep + Seq::<char>::empty() =~= with_sep);
        i += 1;
    }
    assert(kept.take(lines@.len() - from) == kept);
    if joined.len() > 200 {
        string_of_range(&joined, 0, 200)
    } else {
        let r = string_of_range(&joined, 0, joined.len());
        assert(joined@.subrange(0, joined@.len() as int) == joined@);
        r
    }
}

/// The note that opens every chunk but the first: the chunk's number, the
/// number of chunks, the document, and the context from the chunk before.
pub open spec fn continuation_note(
    number: int,
    count: int,
    file_name: Seq<char>,
    context: Seq<char>,
) -> Seq<char> {
    "This is chunk "@ + spec_decimal(number) + "/"@ + spec_decimal(count) + " of document '"@
        + file_name + "'. Previous context: "@ + context + "\n\n"@
}

/// The content of chunk `i` of multi-pass chunking: the texts of its group,
/// after the continuation note where it is not the first chunk.
pub open spec fn multi_pass_content(
    section_texts: Seq<Seq<char>>,
    groups: Seq<Seq<usize>>,
    file_name: Seq<char>,
    i: int,
) -> Seq<char> {
    if i == 0 {
        join_texts(section_texts, groups[0])
    } else {
        continuation_note(
            i + 1,
            groups.len() as int,
            file_name,
            spec_last_paragraph(join_texts(section_texts, groups[i - 1])),
        ) + join_texts(section_texts, groups[i])
    }
}

/// The contents of all chunks of multi-pass chunking.
pub open spec fn multi_pass_contents(
    section_texts: Seq<Seq<char>>,
    groups: Seq<Seq<usize>>,
    file_name: Seq<char>,
) -> Seq<Seq<char>> {
    Seq::new(groups.len(), |i: int| multi_pass_content(section_texts, groups, file_name, i))
}

/// Plans multi-pass chunking, given the token count of each section's text:
/// the sections are grouped as in section-based chunking, and every chunk but
/// the first opens with a continuation note that carries the number of chunks
/// and the last lines of the chunk before. Returns the contents and the groups.
pub fn plan_multi_pass(doc: &ExtractedDocument, counts: &Vec<usize>, max_tokens: usize) -> (r: (
    Vec<String>,
    Vec<Vec<usize>>,
))
    requires
        counts@.len() == doc.sections@.len(),
    ensures
        group_views(r.1@) == spec_groups(counts@, max_tokens),
        string_views(r.0@) == multi_pass_contents(
            spec_section_texts(doc@.sections),
            spec_groups(counts@, max_tokens),
            doc@.file_name,
        ),
{
    let section_strings = section_texts(doc);
    let section_count = counts.len();
    let (groups, _sums) = group_sections(counts, max_tokens);
    proof {
        assert(counts@.len() == section_count);
        lemma_groups_in_range(counts@, max_tokens);
        assert(string_views(section_strings@).len() == counts@.len());
    }
    let bodies = contents_of_groups(&section_strings, &groups);
    let chunk_count = decimal_usize(groups.len());
    let ghost all = multi_pass_contents(
        spec_section_texts(doc@.sections),
        spec_groups(counts@, max_tokens),
        doc@.file_name,
    );
    let mut contents: Vec<String> = Vec::new();
    let mut i: usize = 0;
    proof {
        assert(string_views(bodies@).len() == bodies@.len());
        assert(group_views(groups@).len() == groups@.len());
        assert(string_views(contents@) =~= all.take(0));
    }
    while i < bodies.len()
        invariant
            i <= bodies.len(),
            bodies@.len() == groups@.len(),
            group_views(groups@) == spec_groups(counts@, max_tokens),
            string_views(bodies@) == group_contents(
                spec_section_texts(doc@.sections),
                spec_groups(counts@, max_tokens),
            ),
            chunk_count@ == spec_decimal(groups@.len() as int),
            all == multi_pass_contents(
                spec_section_texts(doc@.sections),
                spec_groups(counts@, max_tokens),
                doc@.file_name,
            ),
            string_views(contents@) == all.take(i as int),
        decreases bodies.len() - i,
    {
        let ghost before = string_views(contents@);
        let mut content = String::new();
        proof {
            assert(string_views(bodies@)[i as int] == bodies@[i as int]@);
            assert(group_views(groups@).len() == groups@.len());
        }
        if i > 0 {
            proof {
                assert(string_views(bodies@)[i - 1] == bodies@[i - 1]@);
            }
            let context = extract_last_paragraph(bodies[i - 1].as_str());
            content.append("This is chunk ");
            content.append(decimal_usize(i + 1).as_str());
            content.append("/");
            content.append(chunk_count.as_str());
            content.append(" of document '");
            content.append(doc.file_name.as_str());
            content.append("'. Previous context: ");
            content.append(context.as_str());
            content.append("\n\n");
        }
        content.append(bodies[i].as_str());
        assert(content@ =~= all[i as int]);
        contents.push(content);
        assert(string_views(contents@) =~= before.push(content@));
        assert(before.push(content@) =~= all.take(i + 1));
        i += 1;
    }
    assert(all.take(bodies@.len() as int) =~= all);
    (contents, groups)
}

/// The multi-pass chunking of a document whose sections hold `counts` tokens
/// and whose chunk contents hold `content_tokens` tokens.
pub open spec fn spec_multi_pass(
    doc: ExtractedDocumentView,
    counts: Seq<usize>,
    content_tokens: Seq<usize>,
    budget: usize,
) -> ChunkedDocumentView {
    let groups = spec_groups(counts, budget);
    ChunkedDocumentView {
        chunks: spec_chunks(
            multi_pass_contents(spec_section_texts(doc.sections), groups, doc.file_name),
            content_tokens,
            groups,
        ),
        total_tokens: total(content_tokens) as usize,
        chunk_strategy: ChunkStrategy::MultiPass,
    }
}

/// `tiktoken_rs::CoreBPE`, a tokenizer with its vocabulary, carried as an
/// opaque value.
#[verifier::external_type_specification]
#[verifier::external_body]
pub struct ExCoreBPE(tiktoken_rs::CoreBPE);

/// The number of tokens in the `cl100k_base` encoding of `text`, with every
/// special token allowed.
pub uninterp spec fn cl100k_token_count(text: Seq<char>) -> nat;

/// Whether the `cl100k_base` tokenizer encodes `text`, that is, whether its
/// pattern engine gets through the text within its fixed limits.
pub uninterp spec fn cl100k_encodes(text: Seq<char>) -> bool;

/// The tokenizer encodes every one of `texts`.
pub open spec fn all_encode(texts: Seq<Seq<char>>) -> bool {
    forall|i: int| 0 <= i < texts.len() ==> cl100k_encodes(#[trigger] texts[i])
}

/// The `cl100k_base` subword tokenizer.
pub struct Tokenizer {
    bpe: tiktoken_rs::CoreBPE,
}

impl Tokenizer {
    /// `tiktoken_rs::cl100k_base`: builds the tokenizer from the vocabulary that
    /// the crate carries. Nothing is claimed of the outcome; a failure comes
    /// back as its text.
    #[verifier::external_body]
    fn load() -> (r: Result<Tokenizer, String>) {
        match tiktoken_rs::cl100k_base() {
            Ok(bpe) => Ok(Tokenizer { bpe }),
            Err(e) => Err(e.to_string()),
        }
    }

    /// `CoreBPE::encode` with the set from `CoreBPE::special_tokens` allowed:
    /// where it succeeds, the length of the encoding of `text`. Whether it
    /// succeeds and what it then returns depend on the text alone, the
    /// vocabulary, the pattern and the limits of the pattern engine being
    /// fixed. A failure of the pattern engine comes back as its text.
    #[verifier::external_body]
    fn encoded_len(&self, text: &str) -> (r: Result<usize, String>)
        ensures
            r is Ok <==> cl100k_encodes(text@),
            r matches Ok(n) ==> n == cl100k_token_count(text@),
    {
        match self.bpe.encode(text, &self.bpe.special_tokens()) {
            Ok((tokens, _)) => Ok(tokens.len()),
            Err(e) => Err(e.message),
        }
    }

    /// `r` is what a load that ended as `loaded` comes to: the tokenizer that
    /// was built, or an `ExternalService` error that says that the tokenizer
    /// could not be initialized, and why.
    pub open spec fn loaded_as(
        loaded: Result<Tokenizer, String>,
        r: Result<Tokenizer, AppError>,
    ) -> bool {
        match loaded {
            Ok(tokenizer) => r == Ok::<Tokenizer, AppError>(tokenizer),
            Err(detail) => {
                &&& r matches Err(e)
                &&& e is ExternalService
                &&& e.spec_detail() == "Failed to initialize tokenizer: "@ + detail@
            },
        }
    }

    /// Turns the outcome of a load into the tokenizer, or into the error that
    /// is reported for a tokenizer that could not be built.
    pub fn from_loaded(loaded: Result<Tokenizer, String>) -> (r: Result<Tokenizer, AppError>)
        ensures
            Tokenizer::loaded_as(loaded, r),
    {
        match loaded {
            Ok(tokenizer) => Ok(tokenizer),
            Err(detail) => {
                let mut m = String::from_str("Failed to initialize tokenizer: ");
                m.append(detail.as_str());
                Err(AppError::ExternalService(m))
            },
        }
    }

    /// The `cl100k_base` tokenizer, or, where it cannot be built, an
    /// `ExternalService` error whose text begins with "Failed to initialize
    /// tokenizer: " and goes on with the reason. Whether it can be built is for
    /// the vocabulary that the tokenizer crate carries to decide.
    pub fn cl100k() -> (r: Result<Tokenizer, AppError>)
        ensures
            r matches Err(e) ==> e is ExternalService && spec_starts_with(
                e.spec_detail(),
                "Failed to initialize tokenizer: "@,
            ),
    {
        let loaded = Tokenizer::load();
        let ghost outcome = loaded;
        let r = Tokenizer::from_loaded(loaded);
        proof {
            if let Err(detail) = outcome {
                let lead = "Failed to initialize tokenizer: "@;
                assert((lead + detail@).subrange(0, lead.len() as int) =~= lead);
            }
        }
        r
    }

    /// The number of tokens in `text`. Succeeds exactly where the tokenizer
    /// encodes the text, and fails with an `ExternalService` error otherwise.
    pub fn count_tokens(&self, text: &str) -> (r: Result<usize, AppError>)
        ensures
            r is Ok <==> cl100k_encodes(text@),
            match r {
                Ok(n) => n == cl100k_token_count(text@),
                Err(e) => e is ExternalService,
            },
    {
        match self.encoded_len(text) {
            Ok(n) => Ok(n),
            Err(detail) => {
                let mut m = String::from_str("Tokenization failed: ");
                m.append(detail.as_str());
                Err(AppError::ExternalService(m))
            },
        }
    }

    /// The number of tokens in each of `texts`. Succeeds exactly where the
    /// tokenizer encodes every text, and fails with an `ExternalService` error
    /// otherwise.
    pub fn count_all(&self, texts: &Vec<String>) -> (r: Result<Vec<usize>, AppError>)
        ensures
            r is Ok <==> all_encode(string_views(texts@)),
            match r {
                Ok(counts) => counts@ == token_counts(string_views(texts@)),
                Err(e) => e is ExternalService,
            },
    {
        let mut counts: Vec<usize> = Vec::new();
        let mut i: usize = 0;
        assert(counts@ =~= token_counts(string_views(texts@)).take(0));
        while i < texts.len()
            invariant
                i <= texts.len(),
                counts@ == token_counts(string_views(texts@)).take(i as int),
                forall|k: int| 0 <= k < i ==> cl100k_encodes(#[trigger] string_views(texts@)[k]),
            decreases texts.len() - i,
        {
            assert(string_views(texts@)[i as int] == texts@[i as int]@);
            match self.count_tokens(texts[i].as_str()) {
                Ok(n) => {
                    counts.push(n);
                    assert(counts@ =~= token_counts(string_views(texts@)).take(i + 1));
                },
                Err(e) => {
                    assert(!cl100k_encodes(string_views(texts@)[i as int]));
                    return Err(e);
                },
            }
            i += 1;
        }
        assert(token_counts(string_views(texts@)).take(texts@.len() as int) =~= token_counts(
            string_views(texts@),
        ));
        Ok(counts)
    }
}

/// The number of tokens in each of `texts`.
pub open spec fn token_counts(texts: Seq<Seq<char>>) -> Seq<usize> {
    Seq::new(texts.len(), |i: int| cl100k_token_count(texts[i]) as usize)
}

/// The tokens that section-based chunking counts in all: those of all
/// section texts.
pub open spec fn section_based_total(doc: ExtractedDocumentView, budget: usize) -> nat {
    let counts = token_counts(spec_section_texts(doc.sections));
    total(group_sums(counts, spec_groups(counts, budget)))
}

/// The tokens that multi-pass chunking counts in all: those of all chunk
/// contents, notes included.
pub open spec fn multi_pass_total(doc: ExtractedDocumentView, budget: usize) -> nat {
    let counts = token_counts(spec_section_texts(doc.sections));
    total(
        token_counts(
            multi_pass_contents(
                spec_section_texts(doc.sections),
                spec_groups(counts, budget),
                doc.file_name,
            ),
        ),
    )
}

/// The contents of the chunks that multi-pass chunking makes of `doc`.
pub open spec fn multi_pass_texts(doc: ExtractedDocumentView, budget: usize) -> Seq<Seq<char>> {
    multi_pass_contents(
        spec_section_texts(doc.sections),
        spec_groups(token_counts(spec_section_texts(doc.sections)), budget),
        doc.file_name,
    )
}

/// Section-based chunking succeeds: the tokenizer encodes the text of every
/// section, and the token counts sum within `usize`.
pub open spec fn section_based_succeeds(doc: ExtractedDocumentView, budget: usize) -> bool {
    &&& all_encode(spec_section_texts(doc.sections))
    &&& section_based_total(doc, budget) <= usize::MAX
}

/// Multi-pass chunking succeeds: the tokenizer encodes the text of every
/// section and the content of every chunk, and the token counts of the
/// chunks sum within `usize`.
pub open spec fn multi_pass_succeeds(doc: ExtractedDocumentView, budget: usize) -> bool {
    &&& all_encode(spec_section_texts(doc.sections))
    &&& all_encode(multi_pass_texts(doc, budget))
    &&& multi_pass_total(doc, budget) <= usize::MAX
}

/// A document without sections has no groups, no chunk contents and no
/// tokens to count.
pub proof fn lemma_no_sections(doc: ExtractedDocumentView, budget: usize)
    requires
        doc.sections.len() == 0,
    ensures
        spec_section_texts(doc.sections).len() == 0,
        multi_pass_texts(doc, budget).len() == 0,
        section_based_total(doc, budget) == 0,
        multi_pass_total(doc, budget) == 0,
        section_based_succeeds(doc, budget),
        multi_pass_succeeds(doc, budget),
{
    let texts = spec_section_texts(doc.sections);
    let counts = token_counts(texts);
    assert(counts =~= Seq::<usize>::empty());
    let groups = spec_groups(counts, budget);
    assert(groups =~= Seq::<Seq<usize>>::empty());
    assert(group_sums(counts, groups) =~= Seq::<usize>::empty());
    assert(multi_pass_texts(doc, budget) =~= Seq::<Seq<char>>::empty());
    assert(token_counts(multi_pass_texts(doc, budget)) =~= Seq::<usize>::empty());
}

/// Section-based chunking with `max_tokens` tokens to a chunk.
///
/// Succeeds exactly where the tokenizer encodes the text of every section and
/// the token counts sum within `usize`; a document without sections always
/// succeeds. Fails with `ExternalService` where a section text is not
/// encoded, and else with `Internal`.
pub fn chunk_by_sections(doc: &ExtractedDocument, tokenizer: &Tokenizer, max_tokens: usize) -> (r:
    Result<ChunkedDocument, AppError>)
    ensures
        r is Ok <==> section_based_succeeds(doc@, max_tokens),
        doc@.sections.len() == 0 ==> r is Ok,
        match r {
            Ok(chunked) => {
                &&& chunked@ == spec_section_based(
                    doc@,
                    token_counts(spec_section_texts(doc@.sections)),
                    max_tokens,
                )
                &&& chunking_well_formed(chunked@, doc@.sections.len())
            },
            Err(e) => if all_encode(spec_section_texts(doc@.sections)) {
                e is Internal
            } else {
                e is ExternalService
            },
        },
{
    let texts = section_texts(doc);
    assert(section_views(doc.sections@).len() == doc.sections@.len());
    proof {
        if doc@.sections.len() == 0 {
            lemma_no_sections(doc@, max_tokens);
        }
    }
    match tokenizer.count_all(&texts) {
        Ok(counts) => {
            assert(counts@.len() == spec_section_texts(doc@.sections).len());
            chunk_sections_counted(doc, &counts, max_tokens)
        },
        Err(e) => Err(e),
    }
}

/// Multi-pass chunking with `max_tokens` tokens to a group of sections. The
/// token count of a chunk is that of its whole content, note included.
///
/// Succeeds exactly where the tokenizer encodes the text of every section and
/// the content of every chunk, and the token counts of the chunks sum within
/// `usize`; a document without sections always succeeds. Fails with
/// `ExternalService` where a text is not encoded, and else with `Internal`.
pub fn chunk_multi_pass(doc: &ExtractedDocument, tokenizer: &Tokenizer, max_tokens: usize) -> (r:
    Result<ChunkedDocument, AppError>)
    ensures
        r is Ok <==> multi_pass_succeeds(doc@, max_tokens),
        doc@.sections.len() == 0 ==> r is Ok,
        match r {
            Ok(chunked) => {
                let counts = token_counts(spec_section_texts(doc@.sections));
                &&& chunked@ == spec_multi_pass(
                    doc@,
                    counts,
                    token_counts(
                        multi_pass_contents(
                            spec_section_texts(doc@.sections),
                            spec_groups(counts, max_tokens),
                            doc@.file_name,
                        ),
                    ),
                    max_tokens,
                )
                &&& chunking_well_formed(chunked@, doc@.sections.len())
            },
            Err(e) => if all_encode(spec_section_texts(doc@.sections)) && all_encode(
                multi_pass_texts(doc@, max_tokens),
            ) {
                e is Internal
            } else {
                e is ExternalService
            },
        },
{
    let texts = section_texts(doc);
    let section_count = doc.sections.len();
    assert(section_views(doc.sections@).len() == doc.sections@.len());
    proof {
        if doc@.sections.len() == 0 {
            lemma_no_sections(doc@, max_tokens);
        }
    }
    let counts = match tokenizer.count_all(&texts) {
        Ok(counts) => counts,
        Err(e) => {
            return Err(e);
        },
    };
    assert(counts@.len() == spec_section_texts(doc@.sections).len());
    let (contents, groups) = plan_multi_pass(doc, &counts, max_tokens);
    let content_tokens = match tokenizer.count_all(&contents) {
        Ok(tokens) => tokens,
        Err(e) => {
            return Err(e);
        },
    };
    proof {
        assert(string_views(contents@).len() == contents@.len());
        assert(group_views(groups@).len() == groups@.len());
        if total(content_tokens@) <= usize::MAX {
            lemma_multi_pass_well_formed(doc@, counts@, content_tokens@, max_tokens);
        }
    }
    assemble_chunks(contents, &content_tokens, groups, ChunkStrategy::MultiPass)
}

/// The thresholds and budgets of chunking, in tokens.
#[derive(Debug, Clone, Copy)]
pub struct ChunkerConfig {
    /// A document below this is one chunk.
    pub single_pass_limit: usize,
    /// A document below this, and not below `single_pass_limit`, is chunked by
    /// sections.
    pub section_based_limit: usize,
    /// The budget of a chunk in section-based chunking.
    pub section_chunk_budget: usize,
    /// The budget of a group of sections in multi-pass chunking.
    pub multi_pass_budget: usize,
}

pub const SINGLE_PASS_LIMIT: usize = 150_000;

pub const SECTION_BASED_LIMIT: usize = 500_000;

pub const SECTION_CHUNK_LIMIT: usize = 100_000;

pub const MULTI_PASS_LIMIT: usize = 80_000;

impl Default for ChunkerConfig {
    fn default() -> (r: ChunkerConfig)
        ensures
            r.single_pass_limit == 150_000,
            r.section_based_limit == 500_000,
            r.section_chunk_budget == 100_000,
            r.multi_pass_budget == 80_000,
            r.single_pass_limit <= r.section_based_limit,
    {
        ChunkerConfig {
            single_pass_limit: SINGLE_PASS_LIMIT,
            section_based_limit: SECTION_BASED_LIMIT,
            section_chunk_budget: SECTION_CHUNK_LIMIT,
            multi_pass_budget: MULTI_PASS_LIMIT,
        }
    }
}

/// The strategy for a document of `total_tokens` tokens.
pub open spec fn spec_select_strategy(total_tokens: usize, config: ChunkerConfig) -> ChunkStrategy {
    if total_tokens < config.single_pass_limit {
        ChunkStrategy::SinglePass
    } else if total_tokens < config.section_based_limit {
        ChunkStrategy::SectionBased
    } else {
        ChunkStrategy::MultiPass
    }
}

/// Selects the strategy by the token count of the whole text. A document
/// under the single-pass threshold is always chunked in a single pass.
pub fn select_strategy(total_tokens: usize, config: &ChunkerConfig) -> (r: ChunkStrategy)
    ensures
        r == spec_select_strategy(total_tokens, *config),
        total_tokens < config.single_pass_limit ==> r == ChunkStrategy::SinglePass,
{
    if total_tokens < config.single_pass_limit {
        ChunkStrategy::SinglePass
    } else if total_tokens < config.section_based_limit {
        ChunkStrategy::SectionBased
    } else {
        ChunkStrategy::MultiPass
    }
}

/// The document as one chunk of `total_tokens` tokens that refers to every
/// section.
pub open spec fn spec_single_pass(doc: ExtractedDocumentView, total_tokens: usize) -> ChunkedDocumentView {
    ChunkedDocumentView {
        chunks: seq![
            DocumentChunkView {
                index: 0,
                content: doc.raw_text,
                token_count: total_tokens,
                section_refs: positions(doc.sections.len()),
                is_continuation: false,
            },
        ],
        total_tokens,
        chunk_strategy: ChunkStrategy::SinglePass,
    }
}

/// Single-pass chunking: the whole raw text as one chunk that refers to every
/// section.
pub fn single_pass(doc: &ExtractedDocument, total_tokens: usize) -> (r: ChunkedDocument)
    ensures
        r@ == spec_single_pass(doc@, total_tokens),
        r@.chunks.len() == 1,
        chunking_well_formed(r@, doc@.sections.len()),
{
    let mut refs: Vec<usize> = Vec::new();
    let mut i: usize = 0;
    while i < doc.sections.len()
        invariant
            i <= doc.sections.len(),
            refs@ == positions(i as nat),
        decreases doc.sections.len() - i,
    {
        refs.push(i);
        assert(refs@ =~= positions((i + 1) as nat));
        i += 1;
    }
    let chunk = DocumentChunk {
        index: 0,
        content: doc.raw_text.clone(),
        token_count: total_tokens,
        section_refs: refs,
        is_continuation: false,
    };
    let mut chunks: Vec<DocumentChunk> = Vec::new();
    chunks.push(chunk);
    assert(chunk_views(chunks@) =~= seq![chunk@]);
    assert(section_views(doc.sections@).len() == doc.sections@.len());
    proof {
        lemma_single_pass_well_formed(doc@, total_tokens);
    }
    ChunkedDocument { chunks, total_tokens, chunk_strategy: ChunkStrategy::SinglePass }
}

/// The chunking of a document under the given configuration.
pub open spec fn spec_chunk_document(doc: ExtractedDocumentView, config: ChunkerConfig) -> ChunkedDocumentView {
    let total_tokens = cl100k_token_count(doc.raw_text) as usize;
    let counts = token_counts(spec_section_texts(doc.sections));
    match spec_select_strategy(total_tokens, config) {
        ChunkStrategy::SinglePass => spec_single_pass(doc, total_tokens),
        ChunkStrategy::SectionBased => spec_section_based(doc, counts, config.section_chunk_budget),
        ChunkStrategy::MultiPass => spec_multi_pass(
            doc,
            counts,
            token_counts(
                multi_pass_contents(
                    spec_section_texts(doc.sections),
                    spec_groups(counts, config.multi_pass_budget),
                    doc.file_name,
                ),
            ),
            config.multi_pass_budget,
        ),
    }
}

/// The tokens that the chunking of a document counts in all.
pub open spec fn chunk_document_total(doc: ExtractedDocumentView, config: ChunkerConfig) -> nat {
    match spec_select_strategy(cl100k_token_count(doc.raw_text) as usize, config) {
        ChunkStrategy::SinglePass => cl100k_token_count(doc.raw_text),
        ChunkStrategy::SectionBased => section_based_total(doc, config.section_chunk_budget),
        ChunkStrategy::MultiPass => multi_pass_total(doc, config.multi_pass_budget),
    }
}

/// The chunking of a document succeeds: the tokenizer encodes the raw text,
/// and the strategy that its token count selects succeeds.
pub open spec fn chunk_document_succeeds(doc: ExtractedDocumentView, config: ChunkerConfig) -> bool {
    &&& cl100k_encodes(doc.raw_text)
    &&& match spec_select_strategy(cl100k_token_count(doc.raw_text) as usize, config) {
        ChunkStrategy::SinglePass => true,
        ChunkStrategy::SectionBased => section_based_succeeds(doc, config.section_chunk_budget),
        ChunkStrategy::MultiPass => multi_pass_succeeds(doc, config.multi_pass_budget),
    }
}

/// The strategy that a raw text of `tokens` tokens is chunked by: a single
/// pass below `single_pass_limit`; by sections from there up to
/// `section_based_limit`; and multiple passes from both limits on.
pub open spec fn strategy_by_thresholds(
    strategy: ChunkStrategy,
    tokens: nat,
    config: ChunkerConfig,
) -> bool {
    &&& strategy == ChunkStrategy::SinglePass <==> tokens < config.single_pass_limit
    &&& strategy == ChunkStrategy::SectionBased <==> config.single_pass_limit <= tokens
        < config.section_based_limit
    &&& strategy == ChunkStrategy::MultiPass <==> config.single_pass_limit <= tokens
        && config.section_based_limit <= tokens
}

/// The error says that the tokenizer could not be built.
pub open spec fn is_load_failure(e: AppError) -> bool {
    e is ExternalService && spec_starts_with(e.spec_detail(), "Failed to initialize tokenizer: "@)
}

/// The default configuration.
pub open spec fn default_config() -> ChunkerConfig {
    ChunkerConfig {
        single_pass_limit: 150_000,
        section_based_limit: 500_000,
        section_chunk_budget: 100_000,
        multi_pass_budget: 80_000,
    }
}

/// Chunks a document with the given tokenizer and configuration.
///
/// The token count of the raw text selects the strategy: below
/// `single_pass_limit` the document is one chunk; below `section_based_limit`
/// it is chunked by sections; otherwise in multiple passes.
///
/// Succeeds exactly where the tokenizer encodes the raw text and the selected
/// strategy succeeds; so a document under the single-pass threshold is
/// chunked, into one chunk, whenever its raw text is encoded. Fails with
/// `ExternalService` where a text is not encoded, and with `Internal` where
/// token counts do not sum within `usize`.
pub fn chunk_document_with(doc: &ExtractedDocument, tokenizer: &Tokenizer, config: &ChunkerConfig) -> (r:
    Result<ChunkedDocument, AppError>)
    ensures
        r is Ok <==> chunk_document_succeeds(doc@, *config),
        match r {
            Ok(chunked) => {
                &&& cl100k_token_count(doc@.raw_text) <= usize::MAX
                &&& chunked@ == spec_chunk_document(doc@, *config)
                &&& chunking_well_formed(chunked@, doc@.sections.len())
                &&& strategy_by_thresholds(
                    chunked@.chunk_strategy,
                    cl100k_token_count(doc@.raw_text),
                    *config,
                )
            },
            Err(e) => e is ExternalService || (e is Internal && chunk_document_total(doc@, *config)
                > usize::MAX),
        },
        cl100k_encodes(doc@.raw_text) && cl100k_token_count(doc@.raw_text)
            < config.single_pass_limit ==> r is Ok,
        r is Ok && cl100k_token_count(doc@.raw_text) < config.single_pass_limit ==> {
            &&& r->Ok_0@.chunks.len() == 1
            &&& r->Ok_0@.chunk_strategy == ChunkStrategy::SinglePass
        },
{
    let total_tokens = match tokenizer.count_tokens(doc.raw_text.as_str()) {
        Ok(n) => n,
        Err(e) => {
            return Err(e);
        },
    };
    assert(total_tokens == cl100k_token_count(doc@.raw_text) as usize);
    match select_strategy(total_tokens, config) {
        ChunkStrategy::SinglePass => Ok(single_pass(doc, total_tokens)),
        ChunkStrategy::SectionBased => chunk_by_sections(
            doc,
            tokenizer,
            config.section_chunk_budget,
        ),
        ChunkStrategy::MultiPass => chunk_multi_pass(doc, tokenizer, config.multi_pass_budget),
    }
}

/// Chunks a document with the `cl100k_base` tokenizer and the default
/// thresholds: a single pass below 150,000 tokens, section-based chunks of
/// 100,000 tokens below 500,000, and multi-pass groups of 80,000 tokens
/// otherwise.
///
/// Once the tokenizer is built, chunking succeeds exactly where the tokenizer
/// encodes the raw text and the selected strategy succeeds: the only other
/// failure is that of building the tokenizer, which is reported as such.
pub fn chunk_document(doc: &ExtractedDocument) -> (r: Result<ChunkedDocument, AppError>)
    ensures
        match r {
            Ok(chunked) => {
                &&& chunk_document_succeeds(doc@, default_config())
                &&& cl100k_token_count(doc@.raw_text) <= usize::MAX
                &&& chunked@ == spec_chunk_document(doc@, default_config())
                &&& chunking_well_formed(chunked@, doc@.sections.len())
                &&& strategy_by_thresholds(
                    chunked@.chunk_strategy,
                    cl100k_token_count(doc@.raw_text),
                    default_config(),
                )
            },
            Err(e) => {
                &&& is_load_failure(e) || !chunk_document_succeeds(doc@, default_config())
                &&& e is ExternalService || (e is Internal && chunk_document_total(
                    doc@,
                    default_config(),
                ) > usize::MAX)
            },
        },
        r is Ok && cl100k_token_count(doc@.raw_text) < 150_000 ==> {
            &&& r->Ok_0@.chunks.len() == 1
            &&& r->Ok_0@.chunk_strategy == ChunkStrategy::SinglePass
        },
{
    let tokenizer = match Tokenizer::cl100k() {
        Ok(t) => t,
        Err(e) => {
            return Err(e);
        },
    };
    let config = ChunkerConfig::default();
    assert(config == default_config());
    chunk_document_with(doc, &tokenizer, &config)
}

/// The section groups of `chunks`.
pub open spec fn chunk_refs(chunks: Seq<DocumentChunkView>) -> Seq<Seq<usize>> {
    chunks.map_values(|c: DocumentChunkView| c.section_refs)
}

/// The token counts of `chunks`.
pub open spec fn chunk_tokens(chunks: Seq<DocumentChunkView>) -> Seq<usize> {
    chunks.map_values(|c: DocumentChunkView| c.token_count)
}

/// What holds of every chunked document of `section_count` sections: the
/// section references of its chunks, one after the other, are the positions
/// `0, .., section_count - 1`, so that every section lies in exactly one chunk
/// and the order of the sections is kept; chunk `i` has index `i` and is a
/// continuation exactly if `i > 0`; and the total is the sum of the token
/// counts of the chunks.
pub open spec fn chunking_well_formed(chunked: ChunkedDocumentView, section_count: nat) -> bool {
    &&& concat_groups(chunk_refs(chunked.chunks)) == positions(section_count)
    &&& forall|i: int|
        0 <= i < chunked.chunks.len() ==> (#[trigger] chunked.chunks[i]).index == i
            && chunked.chunks[i].is_continuation == (i > 0)
    &&& chunked.total_tokens == total(chunk_tokens(chunked.chunks))
}

/// Chunks built over greedy groups make a well-formed chunked document,
/// whatever their contents.
pub proof fn lemma_grouped_chunks_well_formed(
    contents: Seq<Seq<char>>,
    tokens: Seq<usize>,
    counts: Seq<usize>,
    budget: usize,
    strategy: ChunkStrategy,
)
    requires
        counts.len() <= usize::MAX,
        tokens.len() == spec_groups(counts, budget).len(),
        total(tokens) <= usize::MAX,
    ensures
        chunking_well_formed(
            ChunkedDocumentView {
                chunks: spec_chunks(contents, tokens, spec_groups(counts, budget)),
                total_tokens: total(tokens) as usize,
                chunk_strategy: strategy,
            },
            counts.len(),
        ),
{
    let groups = spec_groups(counts, budget);
    let chunks = spec_chunks(contents, tokens, groups);
    lemma_groups_partition(counts, budget);
    lemma_group_count(counts, budget);
    assert(chunk_refs(chunks) =~= groups);
    assert(chunk_tokens(chunks) =~= tokens);
}

/// Greedy grouping makes no more groups than there are sections.
pub proof fn lemma_group_count(counts: Seq<usize>, budget: usize)
    ensures
        counts.len() > 0 ==> grouping(counts, budget).closed.len() + 1 <= counts.len(),
        counts.len() > 0 ==> grouping(counts, budget).open.len() > 0,
        grouping(counts, budget).closed.len() <= counts.len(),
        spec_groups(counts, budget).len() <= counts.len(),
    decreases counts.len(),
{
    if counts.len() > 0 {
        lemma_group_count(counts.drop_last(), budget);
    }
}

/// Section-based chunking never splits a section and partitions the
/// sections: its result, where the totals fit, is well formed.
pub proof fn lemma_section_based_well_formed(
    doc: ExtractedDocumentView,
    counts: Seq<usize>,
    budget: usize,
)
    requires
        counts.len() == doc.sections.len(),
        counts.len() <= usize::MAX,
        total(group_sums(counts, spec_groups(counts, budget))) <= usize::MAX,
    ensures
        chunking_well_formed(spec_section_based(doc, counts, budget), doc.sections.len()),
{
    let groups = spec_groups(counts, budget);
    lemma_grouped_chunks_well_formed(
        group_contents(spec_section_texts(doc.sections), groups),
        group_sums(counts, groups),
        counts,
        budget,
        ChunkStrategy::SectionBased,
    );
}

/// Multi-pass chunking never splits a section and partitions the sections:
/// its result, where the totals fit, is well formed.
pub proof fn lemma_multi_pass_well_formed(
    doc: ExtractedDocumentView,
    counts: Seq<usize>,
    content_tokens: Seq<usize>,
    budget: usize,
)
    requires
        counts.len() == doc.sections.len(),
        counts.len() <= usize::MAX,
        content_tokens.len() == spec_groups(counts, budget).len(),
        total(content_tokens) <= usize::MAX,
    ensures
        chunking_well_formed(
            spec_multi_pass(doc, counts, content_tokens, budget),
            doc.sections.len(),
        ),
{
    let groups = spec_groups(counts, budget);
    lemma_grouped_chunks_well_formed(
        multi_pass_contents(spec_section_texts(doc.sections), groups, doc.file_name),
        content_tokens,
        counts,
        budget,
        ChunkStrategy::MultiPass,
    );
}

/// Single-pass chunking refers to every section once, in order.
pub proof fn lemma_single_pass_well_formed(doc: ExtractedDocumentView, total_tokens: usize)
    requires
        doc.sections.len() <= usize::MAX,
    ensures
        chunking_well_formed(spec_single_pass(doc, total_tokens), doc.sections.len()),
{
    let chunked = spec_single_pass(doc, total_tokens);
    let refs = chunk_refs(chunked.chunks);
    assert(refs =~= seq![positions(doc.sections.len())]);
    assert(refs.drop_last() =~= Seq::<Seq<usize>>::empty());
    assert(concat_groups(refs.drop_last()) =~= Seq::<usize>::empty());
    assert(concat_groups(refs) =~= positions(doc.sections.len()));
    let tokens = chunk_tokens(chunked.chunks);
    assert(tokens =~= seq![total_tokens]);
    assert(tokens.drop_last() =~= Seq::<usize>::empty());
    assert(total(tokens.drop_last()) == 0);
}

/// The line that marks where a file begins in merged text.
pub open spec fn file_marker(file_name: Seq<char>, total_pages: usize) -> Seq<char> {
    "\n\n=== FILE: "@ + file_name + " ("@ + spec_decimal(total_pages as int) + " pages) ===\n\n"@
}

/// What the documents seen so far have contributed to the merged document.
pub struct MergeParts {
    pub text: Seq<char>,
    pub sections: Seq<ExtractedSectionView>,
    pub code_blocks: Seq<CodeBlockView>,
    pub pages: nat,
    pub words: nat,
    pub languages: Seq<Seq<char>>,
    pub topics: Seq<Seq<char>>,
}

/// `docs` merged in order: each text after its file marker, the sections and
/// code blocks appended, pages and words summed, languages and topics as
/// sorted unions.
pub open spec fn merge_parts(docs: Seq<ExtractedDocumentView>) -> MergeParts
    decreases docs.len(),
{
    if docs.len() == 0 {
        MergeParts {
            text: Seq::empty(),
            sections: Seq::empty(),
            code_blocks: Seq::empty(),
            pages: 0,
            words: 0,
            languages: Seq::empty(),
            topics: Seq::empty(),
        }
    } else {
        let before = merge_parts(docs.drop_last());
        let doc = docs.last();
        MergeParts {
            text: before.text + file_marker(doc.file_name, doc.total_pages) + doc.raw_text,
            sections: before.sections + doc.sections,
            code_blocks: before.code_blocks + doc.code_blocks,
            pages: before.pages + doc.total_pages as nat,
            words: before.words + doc.metadata.word_count as nat,
            languages: sorted_union_with(before.languages, doc.metadata.detected_languages),
            topics: sorted_union_with(before.topics, doc.metadata.detected_topics),
        }
    }
}

/// `sorted` with each of `more` put in at its place unless it is there.
pub open spec fn sorted_union_with(sorted: Seq<Seq<char>>, more: Seq<Seq<char>>) -> Seq<Seq<char>>
    decreases more.len(),
{
    if more.len() == 0 {
        sorted
    } else {
        insert_sorted(sorted_union_with(sorted, more.drop_last()), more.last())
    }
}

/// Uniting into a strictly sorted sequence leaves it strictly sorted, so
/// that nothing occurs twice in it, and it then holds what it held and what
/// `more` holds, and nothing else.
pub proof fn lemma_sorted_union_with(sorted: Seq<Seq<char>>, more: Seq<Seq<char>>)
    requires
        strictly_sorted(sorted),
    ensures
        strictly_sorted(sorted_union_with(sorted, more)),
        forall|y: Seq<char>| #[trigger]
            sorted_union_with(sorted, more).contains(y) <==> (sorted.contains(y) || more.contains(
                y,
            )),
    decreases more.len(),
{
    if more.len() > 0 {
        let before = sorted_union_with(sorted, more.drop_last());
        let after = sorted_union_with(sorted, more);
        lemma_sorted_union_with(sorted, more.drop_last());
        lemma_insert_sorted(before, more.last());
        assert forall|y: Seq<char>| #[trigger] after.contains(y) <==> (sorted.contains(y)
            || more.contains(y)) by {
            if more.contains(y) {
                let k = choose|k: int| 0 <= k < more.len() && more[k] == y;
                if k < more.len() - 1 {
                    assert(more.drop_last()[k] == y);
                }
            }
            if more.drop_last().contains(y) {
                let k = choose|k: int| 0 <= k < more.drop_last().len() && more.drop_last()[k] == y;
                assert(more[k] == y);
            }
            if y == more.last() {
                assert(more[more.len() - 1] == y);
            }
        }
    }
}

/// The languages and the topics of a merged document stand in the order of
/// strings, none twice.
pub proof fn lemma_merged_sets_sorted(docs: Seq<ExtractedDocumentView>)
    ensures
        strictly_sorted(merge_parts(docs).languages),
        strictly_sorted(merge_parts(docs).topics),
    decreases docs.len(),
{
    if docs.len() > 0 {
        lemma_merged_sets_sorted(docs.drop_last());
        let before = merge_parts(docs.drop_last());
        lemma_sorted_union_with(before.languages, docs.last().metadata.detected_languages);
        lemma_sorted_union_with(before.topics, docs.last().metadata.detected_topics);
    }
}

/// The views of a sequence of documents.
pub open spec fn document_views(docs: Seq<ExtractedDocument>) -> Seq<ExtractedDocumentView> {
    docs.map_values(|d: ExtractedDocument| d@)
}

/// The document that `docs` merge into.
pub open spec fn spec_merge(docs: Seq<ExtractedDocumentView>) -> ExtractedDocumentView {
    let parts = merge_parts(docs);
    ExtractedDocumentView {
        file_name: "Multi-file Import"@,
        total_pages: parts.pages as usize,
        raw_text: parts.text,
        sections: parts.sections,
        code_blocks: parts.code_blocks,
        metadata: DocumentMetadataView {
            title: Some("Multi-file Import"@),
            author: None,
            page_count: parts.pages as usize,
            word_count: parts.words as usize,
            detected_languages: parts.languages,
            detected_topics: parts.topics,
        },
    }
}

/// Puts each of `more` into the sorted vector `sorted` unless it is there.
fn merge_sorted(sorted: &mut Vec<String>, more: Vec<String>)
    ensures
        string_views(final(sorted)@) == sorted_union_with(
            string_views(old(sorted)@),
            string_views(more@),
        ),
{
    let mut more = more;
    let ghost all = string_views(more@);
    let n = more.len();
    let mut i: usize = 0;
    assert(all.take(0) =~= Seq::<Seq<char>>::empty());
    while i < n
        invariant
            i <= n,
            n == more@.len(),
            all.len() == n,
            forall|k: int| i <= k < n ==> (#[trigger] more@[k])@ == all[k],
            string_views(sorted@) == sorted_union_with(
                string_views(old(sorted)@),
                all.take(i as int),
            ),
        decreases n - i,
    {
        let mut x = String::new();
        std::mem::swap(&mut x, &mut more[i]);
        proof {
            assert(all.take(i + 1).drop_last() == all.take(i as int));
            assert(all.take(i + 1).last() == x@);
        }
        insert_sorted_string(sorted, x);
        i += 1;
    }
    assert(all.take(n as int) == all);
}

/// Merges the documents extracted from several files into one document
/// named "Multi-file Import".
///
/// Each text follows a marker that names its file and page count; sections
/// and code blocks are appended in file order; pages and words are summed;
/// languages and topics are united, sorted and without repeats.
pub fn merge_multi_file_content(docs: Vec<ExtractedDocument>) -> (r: ExtractedDocument)
    requires
        merge_parts(document_views(docs@)).pages <= usize::MAX,
        merge_parts(document_views(docs@)).words <= usize::MAX,
    ensures
        r@ == spec_merge(document_views(docs@)),
        (forall|i: int| 0 <= i < docs@.len() ==> (#[trigger] docs@[i])@.well_formed())
            ==> r@.well_formed(),
{
    let ghost all = document_views(docs@);
    proof {
        if forall|i: int| 0 <= i < docs@.len() ==> (#[trigger] docs@[i])@.well_formed() {
            assert forall|i: int| 0 <= i < all.len() implies (#[trigger] all[i]).well_formed() by {
                assert(all[i] == docs@[i]@);
            }
            lemma_merge_well_formed(all);
        }
    }
    let mut merged_text = String::new();
    let mut merged_sections: Vec<ExtractedSection> = Vec::new();
    let mut merged_code_blocks: Vec<CodeBlock> = Vec::new();
    let mut total_pages: usize = 0;
    let mut total_words: usize = 0;
    let mut all_languages: Vec<String> = Vec::new();
    let mut all_topics: Vec<String> = Vec::new();
    proof {
        assert(all.take(0) =~= Seq::<ExtractedDocumentView>::empty());
        assert(section_views(merged_sections@) =~= Seq::<ExtractedSectionView>::empty());
        assert(code_block_views(merged_code_blocks@) =~= Seq::<CodeBlockView>::empty());
        assert(string_views(all_languages@) =~= Seq::<Seq<char>>::empty());
        assert(string_views(all_topics@) =~= Seq::<Seq<char>>::empty());
    }
    for doc in it: docs
        invariant
            it.seq() == docs@,
            all == document_views(docs@),
            merge_parts(all).pages <= usize::MAX,
            merge_parts(all).words <= usize::MAX,
            merge_parts(all.take(it.index() as int)) == (MergeParts {
                text: merged_text@,
                sections: section_views(merged_sections@),
                code_blocks: code_block_views(merged_code_blocks@),
                pages: total_pages as nat,
                words: total_words as nat,
                languages: string_views(all_languages@),
                topics: string_views(all_topics@),
            }),
    {
        let ghost i = it.index();
        let ghost view = doc@;
        let mut doc = doc;
        proof {
            assert(all.take(i + 1).drop_last() == all.take(i as int));
            assert(all.take(i + 1).last() == view);
            lemma_merge_monotone(all, i + 1);
        }
        merged_text.append("\n\n=== FILE: ");
        merged_text.append(doc.file_name.as_str());
        merged_text.append(" (");
        merged_text.append(decimal_usize(doc.total_pages).as_str());
        merged_text.append(" pages) ===\n\n");
        merged_text.append(doc.raw_text.as_str());

        let ghost sections_before = section_views(merged_sections@);
        merged_sections.append(&mut doc.sections);
        assert(section_views(merged_sections@) =~= sections_before + view.sections);
        let ghost blocks_before = code_block_views(merged_code_blocks@);
        merged_code_blocks.append(&mut doc.code_blocks);
        assert(code_block_views(merged_code_blocks@) =~= blocks_before + view.code_blocks);
        total_pages = total_pages + doc.total_pages;
        total_words = total_words + doc.metadata.word_count;
        merge_sorted(&mut all_languages, doc.metadata.detected_languages);
        merge_sorted(&mut all_topics, doc.metadata.detected_topics);
        assert(merge_parts(all.take(i + 1)).text =~= merged_text@);
    }
    assert(all.take(docs@.len() as int) == all);

    ExtractedDocument {
        file_name: String::from_str("Multi-file Import"),
        total_pages,
        raw_text: merged_text,
        sections: merged_sections,
        code_blocks: merged_code_blocks,
        metadata: DocumentMetadata {
            title: Some(String::from_str("Multi-file Import")),
            author: None,
            page_count: total_pages,
            word_count: total_words,
            detected_languages: all_languages,
            detected_topics: all_topics,
        },
    }
}

/// The sections and code blocks merged so far lie on pages up to the pages
/// counted so far, and the complexity of every section is between 1 and 5.
pub open spec fn parts_within_pages(parts: MergeParts) -> bool {
    &&& forall|i: int|
        0 <= i < parts.sections.len() ==> (#[trigger] parts.sections[i]).page_number
            <= parts.pages
    &&& forall|i: int|
        0 <= i < parts.sections.len() ==> 1 <= (
        #[trigger] parts.sections[i]).estimated_complexity <= 5
    &&& forall|i: int|
        0 <= i < parts.code_blocks.len() ==> (#[trigger] parts.code_blocks[i]).page_number
            <= parts.pages
}

/// Merging well-formed documents keeps every section and code block within
/// the pages counted.
pub proof fn lemma_merge_within_pages(docs: Seq<ExtractedDocumentView>)
    requires
        forall|i: int| 0 <= i < docs.len() ==> (#[trigger] docs[i]).well_formed(),
    ensures
        parts_within_pages(merge_parts(docs)),
    decreases docs.len(),
{
    if docs.len() > 0 {
        let before = merge_parts(docs.drop_last());
        let doc = docs.last();
        let after = merge_parts(docs);
        assert forall|i: int| 0 <= i < docs.drop_last().len() implies (
        #[trigger] docs.drop_last()[i]).well_formed() by {
            assert(docs.drop_last()[i] == docs[i]);
        }
        lemma_merge_within_pages(docs.drop_last());
        assert(doc.well_formed());
        assert forall|i: int| 0 <= i < after.sections.len() implies (
        #[trigger] after.sections[i]).page_number <= after.pages && 1
            <= after.sections[i].estimated_complexity <= 5 by {
            if i < before.sections.len() {
                assert(after.sections[i] == before.sections[i]);
            } else {
                assert(after.sections[i] == doc.sections[i - before.sections.len()]);
            }
        }
        assert forall|i: int| 0 <= i < after.code_blocks.len() implies (
        #[trigger] after.code_blocks[i]).page_number <= after.pages by {
            if i < before.code_blocks.len() {
                assert(after.code_blocks[i] == before.code_blocks[i]);
            } else {
                assert(after.code_blocks[i] == doc.code_blocks[i - before.code_blocks.len()]);
            }
        }
    }
}

/// The merge of well-formed documents is well formed.
pub proof fn lemma_merge_well_formed(docs: Seq<ExtractedDocumentView>)
    requires
        forall|i: int| 0 <= i < docs.len() ==> (#[trigger] docs[i]).well_formed(),
        merge_parts(docs).pages <= usize::MAX,
    ensures
        spec_merge(docs).well_formed(),
{
    lemma_merge_within_pages(docs);
}

/// Pages and words of a prefix do not exceed those of the whole.
pub proof fn lemma_merge_monotone(docs: Seq<ExtractedDocumentView>, n: int)
    requires
        0 <= n <= docs.len(),
    ensures
        merge_parts(docs.take(n)).pages <= merge_parts(docs).pages,
        merge_parts(docs.take(n)).words <= merge_parts(docs).words,
    decreases docs.len() - n,
{
    if n < docs.len() {
        lemma_merge_monotone(docs, n + 1);
        assert(docs.take(n + 1).drop_last() == docs.take(n));
    } else {
        assert(docs.take(n) == docs);
    }
}

} // verus!
