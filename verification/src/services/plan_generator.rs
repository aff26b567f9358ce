//! Plan generation: the rules that turn an unvalidated analysis into a
//! normalized draft plan with warnings.

use vstd::prelude::*;
use std::collections::HashMap;
use vstd::string::{StrSliceExecFns, StringExecFns};
use crate::db::models::import::{
    assignment_views, checklist_views, day_plan_views, dependency_views, module_views, quiz_views,
    names_tag, tag_views, AiAnalysisResponse, AiDayResponse, AiModuleResponse, ChecklistItemDraft,
    ChecklistItemDraftView, ConceptTagDraft, ConceptTagDraftView, DayPlanDraft, DayPlanDraftView,
    DependencyDraft, DependencyDraftView, GeneratedPlan, GeneratedPlanView, ModuleDraft,
    ModuleDraftView, ProgramDraft, ProgramDraftView, QuizQuestionDraft, QuizQuestionDraftView,
};
use crate::error::AppError;
use crate::text::{
    ascii_lowercase, chars_of, decimal_i64, decimal_usize, is_ascii_text, lemma_ascii_lowercase,
    lemma_trim_end_ascii_lowercase, lemma_trim_idempotent, lemma_trim_keeps_ascii,
    lemma_trim_start_ascii_lowercase, lowercase, mentions_any, mentions_any_of, spec_decimal,
    spec_lowercase, spec_trim, spec_trim_start, str_eq, str_views, string_of, string_views, trim,
};

verus! {

broadcast use vstd::std_specs::hash::group_hash_axioms;

/// The least number of minutes a day may be estimated at.
pub const MIN_DAY_MINUTES: i64 = 45;

/// The greatest number of minutes a day may be estimated at.
pub const MAX_DAY_MINUTES: i64 = 180;

/// `minutes` moved to the nearest bound of `[45, 180]`.
pub open spec fn spec_clamp_minutes(minutes: int) -> int {
    if minutes < 45 {
        45
    } else if minutes > 180 {
        180
    } else {
        minutes
    }
}

/// The warning that clamping `minutes` gives rise to, if any.
pub open spec fn clamp_warning(minutes: int) -> Option<Seq<char>> {
    if minutes < 45 {
        Some("Minutes "@ + spec_decimal(minutes) + " too low, clamping to 45"@)
    } else if minutes > 180 {
        Some("Minutes "@ + spec_decimal(minutes) + " too high, clamping to 180"@)
    } else {
        None
    }
}

/// The sequence that holds `w` if there is one, and nothing otherwise.
pub open spec fn optional_line(w: Option<Seq<char>>) -> Seq<Seq<char>> {
    match w {
        Some(line) => seq![line],
        None => Seq::empty(),
    }
}

/// Appends `line` to `warnings`.
fn push_warning(warnings: &mut Vec<String>, line: String)
    ensures
        string_views(final(warnings)@) == string_views(old(warnings)@).push(line@),
{
    warnings.push(line);
    assert(string_views(warnings@) == string_views(old(warnings)@).push(line@));
}

/// Clamps a minute estimate to `[45, 180]`. A value outside the range is
/// replaced by the nearest bound, and a warning that names it is recorded.
pub fn clamp_minutes(minutes: i64, warnings: &mut Vec<String>) -> (r: i64)
    ensures
        r == spec_clamp_minutes(minutes as int),
        45 <= r <= 180,
        string_views(final(warnings)@) == string_views(old(warnings)@) + optional_line(
            clamp_warning(minutes as int),
        ),
{
    if minutes < MIN_DAY_MINUTES {
        let mut w = String::from_str("Minutes ");
        w.append(decimal_i64(minutes).as_str());
        w.append(" too low, clamping to 45");
        push_warning(warnings, w);
        assert(string_views(old(warnings)@).push(w@) == string_views(old(warnings)@) + seq![w@]);
        MIN_DAY_MINUTES
    } else if minutes > MAX_DAY_MINUTES {
        let mut w = String::from_str("Minutes ");
        w.append(decimal_i64(minutes).as_str());
        w.append(" too high, clamping to 180");
        push_warning(warnings, w);
        assert(string_views(old(warnings)@).push(w@) == string_views(old(warnings)@) + seq![w@]);
        MAX_DAY_MINUTES
    } else {
        assert(string_views(old(warnings)@) + Seq::<Seq<char>>::empty() == string_views(old(warnings)@));
        minutes
    }
}

/// Clamping is idempotent: a clamped value is left as it is, without a warning.
pub proof fn lemma_clamp_minutes_idempotent(minutes: int)
    ensures
        45 <= spec_clamp_minutes(minutes) <= 180,
        spec_clamp_minutes(spec_clamp_minutes(minutes)) == spec_clamp_minutes(minutes),
        clamp_warning(spec_clamp_minutes(minutes)) is None,
{
}

/// The colours a module may have.
pub open spec fn palette() -> Seq<Seq<char>> {
    seq![
        "#6366F1"@,
        "#EC4899"@,
        "#F59E0B"@,
        "#22C55E"@,
        "#3B82F6"@,
        "#A855F7"@,
        "#EF4444"@,
        "#14B8A6"@,
    ]
}

/// `color` if the palette holds it, and the palette's first entry otherwise.
pub open spec fn spec_validate_color(color: Seq<char>) -> Seq<char> {
    if palette().contains(color) {
        color
    } else {
        "#6366F1"@
    }
}

/// Checks a module colour against the palette. A colour that the palette does
/// not hold is replaced by the default entry; no warning is recorded.
pub fn validate_color(color: &str) -> (r: String)
    ensures
        r@ == spec_validate_color(color@),
{
    let found = str_eq(color, "#6366F1") || str_eq(color, "#EC4899") || str_eq(color, "#F59E0B")
        || str_eq(color, "#22C55E") || str_eq(color, "#3B82F6") || str_eq(color, "#A855F7")
        || str_eq(color, "#EF4444") || str_eq(color, "#14B8A6");
    proof {
        let p = palette();
        if found {
            assert(p[0] == "#6366F1"@ && p[1] == "#EC4899"@ && p[2] == "#F59E0B"@ && p[3]
                == "#22C55E"@ && p[4] == "#3B82F6"@ && p[5] == "#A855F7"@ && p[6] == "#EF4444"@
                && p[7] == "#14B8A6"@);
            assert(exists|i: int| 0 <= i < p.len() && p[i] == color@);
        } else {
            assert forall|i: int| 0 <= i < p.len() implies p[i] != color@ by {}
        }
    }
    if found {
        String::from_str(color)
    } else {
        String::from_str("#6366F1")
    }
}

/// The kinds a quiz question may have.
pub open spec fn question_types() -> Seq<Seq<char>> {
    seq!["short_answer"@, "multiple_choice"@, "code_prompt"@, "reflection"@]
}

/// `qtype` if it is one of the four kinds, and `short_answer` otherwise.
pub open spec fn spec_validate_question_type(qtype: Seq<char>) -> Seq<char> {
    if question_types().contains(qtype) {
        qtype
    } else {
        "short_answer"@
    }
}

/// Coerces a question type into one of the four allowed kinds.
pub fn validate_question_type(qtype: &str) -> (r: String)
    ensures
        r@ == spec_validate_question_type(qtype@),
{
    let found = str_eq(qtype, "short_answer") || str_eq(qtype, "multiple_choice") || str_eq(
        qtype,
        "code_prompt",
    ) || str_eq(qtype, "reflection");
    proof {
        let p = question_types();
        if found {
            assert(p[0] == "short_answer"@ && p[1] == "multiple_choice"@ && p[2] == "code_prompt"@
                && p[3] == "reflection"@);
            assert(exists|i: int| 0 <= i < p.len() && p[i] == qtype@);
        } else {
            assert forall|i: int| 0 <= i < p.len() implies p[i] != qtype@ by {}
        }
    }
    if found {
        String::from_str(qtype)
    } else {
        String::from_str("short_answer")
    }
}

/// The kinds a dependency may have.
pub open spec fn dependency_types() -> Seq<Seq<char>> {
    seq!["prerequisite"@, "recommended"@]
}

/// `dtype` if it is one of the two kinds, and `prerequisite` otherwise.
pub open spec fn spec_validate_dependency_type(dtype: Seq<char>) -> Seq<char> {
    if dependency_types().contains(dtype) {
        dtype
    } else {
        "prerequisite"@
    }
}

/// Coerces a dependency type into one of the two allowed kinds.
pub fn validate_dependency_type(dtype: &str) -> (r: String)
    ensures
        r@ == spec_validate_dependency_type(dtype@),
{
    let found = str_eq(dtype, "prerequisite") || str_eq(dtype, "recommended");
    proof {
        let p = dependency_types();
        if found {
            assert(p[0] == "prerequisite"@ && p[1] == "recommended"@);
            assert(exists|i: int| 0 <= i < p.len() && p[i] == dtype@);
        } else {
            assert forall|i: int| 0 <= i < p.len() implies p[i] != dtype@ by {}
        }
    }
    if found {
        String::from_str(dtype)
    } else {
        String::from_str("prerequisite")
    }
}

/// The normal form of a tag name: trimmed, then in lower case.
pub open spec fn spec_normalize_tag_name(name: Seq<char>) -> Seq<char> {
    spec_lowercase(spec_trim(name))
}

/// Normalizes a concept tag name: white space at both ends is removed and the
/// rest is put in lower case.
pub fn normalize_tag_name(name: &str) -> (r: String)
    ensures
        r@ == spec_normalize_tag_name(name@),
{
    let trimmed = trim(&chars_of(name));
    lowercase(string_of(&trimmed).as_str())
}

/// Normalizing an ASCII tag name twice gives what normalizing it once gives.
pub proof fn lemma_normalize_tag_name_idempotent(name: Seq<char>)
    requires
        is_ascii_text(name),
    ensures
        spec_normalize_tag_name(spec_normalize_tag_name(name)) == spec_normalize_tag_name(name),
{
    let t = spec_trim(name);
    lemma_trim_keeps_ascii(name);
    lemma_ascii_lowercase(t);
    let n = ascii_lowercase(t);
    assert(spec_normalize_tag_name(name) == n);
    lemma_trim_start_ascii_lowercase(t);
    lemma_trim_end_ascii_lowercase(spec_trim_start(t));
    lemma_trim_idempotent(name);
    assert(spec_trim(n) == n);
}

/// The normal form of an ASCII name has no white space at its ends and is
/// its own lower-case form.
pub proof fn lemma_normal_form_is_trimmed_and_lower(name: Seq<char>)
    requires
        is_ascii_text(name),
    ensures
        spec_trim(spec_normalize_tag_name(name)) == spec_normalize_tag_name(name),
        spec_lowercase(spec_normalize_tag_name(name)) == spec_normalize_tag_name(name),
        is_ascii_text(spec_normalize_tag_name(name)),
{
    let t = spec_trim(name);
    lemma_trim_keeps_ascii(name);
    lemma_ascii_lowercase(t);
    lemma_trim_start_ascii_lowercase(t);
    lemma_trim_end_ascii_lowercase(spec_trim_start(t));
    lemma_trim_idempotent(name);
}

/// Two ASCII names that differ only by case and by white space at their ends
/// have the same normal form.
pub proof fn lemma_normalize_tag_name_merges(a: Seq<char>, b: Seq<char>)
    requires
        is_ascii_text(a),
        is_ascii_text(b),
        ascii_lowercase(spec_trim(a)) == ascii_lowercase(spec_trim(b)),
    ensures
        spec_normalize_tag_name(a) == spec_normalize_tag_name(b),
{
    lemma_trim_keeps_ascii(a);
    lemma_trim_keeps_ascii(b);
}

/// The words that mark a day as dealing with an advanced concept.
pub open spec fn advanced_keywords() -> Seq<Seq<char>> {
    seq![
        "async"@,
        "await"@,
        "closure"@,
        "generic"@,
        "trait"@,
        "interface"@,
        "algorithm"@,
        "architecture"@,
        "state management"@,
        "optimization"@,
    ]
}

/// Whether `lowered`, a text in lower case, names an advanced concept.
pub fn mentions_advanced_concept(lowered: &Vec<char>) -> (r: bool)
    ensures
        r == mentions_any(lowered@, advanced_keywords()),
{
    let keywords: Vec<&str> = vec![
        "async",
        "await",
        "closure",
        "generic",
        "trait",
        "interface",
        "algorithm",
        "architecture",
        "state management",
        "optimization",
    ];
    assert(str_views(keywords@) =~= advanced_keywords());
    mentions_any_of(lowered, &keywords)
}

/// The complexity of a day, from 1 to 5: one, and one more for each of: over
/// 90 minutes, over 120 minutes, an advanced concept, a long text.
pub open spec fn spec_complexity_score(minutes: int, advanced: bool, long_text: bool) -> int {
    let score = 1 + (if minutes > 90 {
        1int
    } else {
        0
    }) + (if minutes > 120 {
        1int
    } else {
        0
    }) + (if advanced {
        1int
    } else {
        0
    }) + (if long_text {
        1int
    } else {
        0
    });
    if score > 5 {
        5
    } else {
        score
    }
}

/// The complexity of a day given its minutes, whether its texts name an
/// advanced concept, and whether they are long.
pub fn complexity_score(minutes: i64, advanced: bool, long_text: bool) -> (r: i64)
    ensures
        r == spec_complexity_score(minutes as int, advanced, long_text),
        1 <= r <= 5,
{
    let mut score: i64 = 1;
    if minutes > 90 {
        score += 1;
    }
    if minutes > 120 {
        score += 1;
    }
    if advanced {
        score += 1;
    }
    if long_text {
        score += 1;
    }
    if score > 5 {
        5
    } else {
        score
    }
}

/// The text in which the advanced keywords are looked for: the syntax targets,
/// a space, and the implementation brief, in lower case.
pub open spec fn combined_text(syntax: Seq<char>, implementation: Seq<char>) -> Seq<char> {
    spec_lowercase(syntax + " "@ + implementation)
}

/// The complexity of a day with the given texts and minutes.
pub open spec fn spec_calculate_complexity(
    syntax: Seq<char>,
    implementation: Seq<char>,
    minutes: int,
) -> int {
    spec_complexity_score(
        minutes,
        mentions_any(combined_text(syntax, implementation), advanced_keywords()),
        syntax.len() > 500 || implementation.len() > 1000,
    )
}

/// Scores the complexity of a day from 1 to 5. Lengths are counted in
/// characters.
pub fn calculate_complexity(syntax: &str, implementation: &str, minutes: i64) -> (r: i64)
    ensures
        r == spec_calculate_complexity(syntax@, implementation@, minutes as int),
        1 <= r <= 5,
{
    let mut combined = String::from_str(syntax);
    combined.append(" ");
    combined.append(implementation);
    let lowered = chars_of(lowercase(combined.as_str()).as_str());
    let advanced = mentions_advanced_concept(&lowered);
    let long_text = syntax.unicode_len() > 500 || implementation.unicode_len() > 1000;
    complexity_score(minutes, advanced, long_text)
}

/// A dependency is flagged when its target day number is not in the plan, or
/// when the target day stands at or after the dependent day.
pub open spec fn is_flagged(dep: DependencyDraftView, day_numbers: Map<i64, usize>) -> bool {
    ||| !day_numbers.contains_key(dep.depends_on_day_number)
    ||| day_numbers[dep.depends_on_day_number] >= dep.day_index
}

/// The warning that a dependency gives rise to, if any.
pub open spec fn dependency_warning(dep: DependencyDraftView, day_numbers: Map<i64, usize>) -> Option<
    Seq<char>,
> {
    if !day_numbers.contains_key(dep.depends_on_day_number) {
        Some("Dependency references non-existent day "@ + spec_decimal(dep.depends_on_day_number as int))
    } else if day_numbers[dep.depends_on_day_number] >= dep.day_index {
        Some(
            "Circular or forward dependency detected: day at index "@ + spec_decimal(
                dep.day_index as int,
            ) + " depends on day "@ + spec_decimal(dep.depends_on_day_number as int),
        )
    } else {
        None
    }
}

/// The warnings that `deps` give rise to, in their order.
pub open spec fn dependency_warnings(
    deps: Seq<DependencyDraftView>,
    day_numbers: Map<i64, usize>,
) -> Seq<Seq<char>>
    decreases deps.len(),
{
    if deps.len() == 0 {
        Seq::empty()
    } else {
        dependency_warnings(deps.drop_last(), day_numbers) + optional_line(
            dependency_warning(deps.last(), day_numbers),
        )
    }
}

/// Checks each dependency against the days of the plan, given as a map from
/// day number to position. A flagged dependency is kept; a warning is recorded
/// for it. Only the order of the two days is looked at, not longer cycles.
pub fn validate_dependencies(
    dependencies: &Vec<DependencyDraft>,
    day_map: &HashMap<i64, usize>,
    warnings: &mut Vec<String>,
)
    ensures
        string_views(final(warnings)@) == string_views(old(warnings)@) + dependency_warnings(
            dependency_views(dependencies@),
            day_map@,
        ),
{
    let ghost deps = dependency_views(dependencies@);
    let mut i: usize = 0;
    assert(deps.take(0) =~= Seq::<DependencyDraftView>::empty());
    assert(string_views(warnings@) + Seq::<Seq<char>>::empty() == string_views(warnings@));
    while i < dependencies.len()
        invariant
            i <= dependencies.len(),
            deps == dependency_views(dependencies@),
            string_views(warnings@) == string_views(old(warnings)@) + dependency_warnings(
                deps.take(i as int),
                day_map@,
            ),
        decreases dependencies.len() - i,
    {
        let dep = &dependencies[i];
        let ghost before = string_views(warnings@);
        let ghost prefix = dependency_warnings(deps.take(i as int), day_map@);
        proof {
            assert(deps.take(i + 1).drop_last() == deps.take(i as int));
            assert(deps.take(i + 1).last() == dep@);
        }
        match day_map.get(&dep.depends_on_day_number) {
            None => {
                let mut w = String::from_str("Dependency references non-existent day ");
                w.append(decimal_i64(dep.depends_on_day_number).as_str());
                push_warning(warnings, w);
                assert(before.push(w@) == string_views(old(warnings)@) + (prefix + seq![w@]));
            },
            Some(target) => {
                if *target >= dep.day_index {
                    let mut w = String::from_str(
                        "Circular or forward dependency detected: day at index ",
                    );
                    w.append(decimal_usize(dep.day_index).as_str());
                    w.append(" depends on day ");
                    w.append(decimal_i64(dep.depends_on_day_number).as_str());
                    push_warning(warnings, w);
                    assert(before.push(w@) == string_views(old(warnings)@) + (prefix + seq![w@]));
                } else {
                    assert(before == string_views(old(warnings)@) + (prefix + Seq::<
                        Seq<char>,
                    >::empty()));
                }
            },
        }
        i += 1;
    }
    assert(deps.take(dependencies@.len() as int) == deps);
}

/// A warning is recorded for a dependency exactly when it is flagged.
pub proof fn lemma_warning_iff_flagged(dep: DependencyDraftView, day_numbers: Map<i64, usize>)
    ensures
        dependency_warning(dep, day_numbers) is Some <==> is_flagged(dep, day_numbers),
{
}

/// Validation records one warning for each flagged dependency and none for
/// any other.
pub proof fn lemma_flagged_exactly(deps: Seq<DependencyDraftView>, day_numbers: Map<i64, usize>)
    ensures
        dependency_warnings(deps, day_numbers).len() == deps.filter(
            |d: DependencyDraftView| is_flagged(d, day_numbers),
        ).len(),
    decreases deps.len(),
{
    reveal(Seq::filter);
    if deps.len() > 0 {
        lemma_flagged_exactly(deps.drop_last(), day_numbers);
    }
}

/// The draft of a day, given the position of its module.
pub open spec fn day_draft(module_index: usize, d: AiDayResponse) -> DayPlanDraftView {
    let estimated = spec_clamp_minutes(d.estimated_minutes as int);
    DayPlanDraftView {
        module_index,
        day_number: d.day_number,
        title: d.title@,
        syntax_targets: d.syntax_targets@,
        implementation_brief: d.implementation_brief@,
        files_to_create: d.files_to_create@,
        success_criteria: d.success_criteria@,
        stretch_challenge: d.stretch_challenge@,
        notes: d.notes@,
        estimated_minutes: estimated as i64,
        memory_rebuild_minutes: spec_clamp_minutes(d.memory_rebuild_minutes as int) as i64,
        min_minutes: (estimated * 3 / 4) as i64,
        recommended_minutes: estimated as i64,
        deep_minutes: (estimated * 3 / 2) as i64,
        complexity_level: spec_calculate_complexity(
            d.syntax_targets@,
            d.implementation_brief@,
            estimated,
        ) as i64,
    }
}

/// The warnings that the two minute estimates of a day give rise to.
pub open spec fn day_minute_warnings(d: AiDayResponse) -> Seq<Seq<char>> {
    optional_line(clamp_warning(d.estimated_minutes as int)) + optional_line(
        clamp_warning(d.memory_rebuild_minutes as int),
    )
}

/// The checklist item that a day without any is given.
pub open spec fn default_checklist_item(day_index: usize) -> ChecklistItemDraftView {
    ChecklistItemDraftView {
        day_index,
        label: "Complete the implementation"@,
        is_required: true,
        order_index: 0,
    }
}

/// The checklist drafts of the day at position `day_index`.
pub open spec fn day_checklist(day_index: usize, d: AiDayResponse) -> Seq<ChecklistItemDraftView> {
    if d.checklist_items@.len() == 0 {
        seq![default_checklist_item(day_index)]
    } else {
        Seq::new(
            d.checklist_items@.len(),
            |k: int|
                ChecklistItemDraftView {
                    day_index,
                    label: d.checklist_items@[k].label@,
                    is_required: d.checklist_items@[k].is_required,
                    order_index: k as i64,
                },
        )
    }
}

/// The reflection question that a day without any question is given.
pub open spec fn default_question(day_index: usize, title: Seq<char>) -> QuizQuestionDraftView {
    QuizQuestionDraftView {
        day_index,
        question_text: "What did you learn in "@ + title + "?"@,
        question_type: "reflection"@,
        correct_answer: Seq::empty(),
        options: Seq::empty(),
        points: 10,
        time_limit_seconds: 300,
    }
}

/// The question drafts of the day at position `day_index`.
pub open spec fn day_quiz(day_index: usize, d: AiDayResponse) -> Seq<QuizQuestionDraftView> {
    if d.quiz_questions@.len() == 0 {
        seq![default_question(day_index, d.title@)]
    } else {
        Seq::new(
            d.quiz_questions@.len(),
            |k: int|
                {
                    let q = d.quiz_questions@[k];
                    QuizQuestionDraftView {
                        day_index,
                        question_text: q.question_text@,
                        question_type: spec_validate_question_type(q.question_type@),
                        correct_answer: q.correct_answer@,
                        options: string_views(q.options@),
                        points: if q.points < 1 {
                            1
                        } else {
                            q.points
                        },
                        time_limit_seconds: if q.time_limit_seconds < 30 {
                            30
                        } else {
                            q.time_limit_seconds
                        },
                    }
                },
        )
    }
}

/// The tags of a day, each with its name in normal form.
pub open spec fn day_tags(d: AiDayResponse) -> Seq<ConceptTagDraftView> {
    Seq::new(
        d.concept_tags@.len(),
        |k: int|
            ConceptTagDraftView {
                name: spec_normalize_tag_name(d.concept_tags@[k].name@),
                domain: d.concept_tags@[k].domain@,
            },
    )
}

/// The tag assignments of the day at position `day_index`.
pub open spec fn day_tag_assignments(day_index: usize, d: AiDayResponse) -> Seq<(usize, Seq<char>)> {
    Seq::new(d.concept_tags@.len(), |k: int| (day_index, day_tags(d)[k].name))
}

/// `known`, followed by those of `new` that neither `known` nor an earlier
/// entry of `new` already holds.
pub open spec fn add_tags(known: Seq<ConceptTagDraftView>, new: Seq<ConceptTagDraftView>) -> Seq<
    ConceptTagDraftView,
>
    decreases new.len(),
{
    if new.len() == 0 {
        known
    } else {
        let before = add_tags(known, new.drop_last());
        if before.contains(new.last()) {
            before
        } else {
            before.push(new.last())
        }
    }
}

/// The dependency drafts of the day at position `day_index`.
pub open spec fn day_dependencies(day_index: usize, d: AiDayResponse) -> Seq<DependencyDraftView> {
    Seq::new(
        d.dependencies@.len(),
        |k: int|
            {
                let dep = d.dependencies@[k];
                DependencyDraftView {
                    day_index,
                    depends_on_day_number: dep.depends_on_day_number,
                    dependency_type: spec_validate_dependency_type(dep.dependency_type@),
                    minimum_score: if dep.minimum_score < 0 {
                        0
                    } else if dep.minimum_score > 100 {
                        100
                    } else {
                        dep.minimum_score
                    },
                }
            },
    )
}

/// The warning for a day that came without checklist items.
pub open spec fn no_checklist_warning(day_number: i64) -> Seq<char> {
    "Day "@ + spec_decimal(day_number as int) + " has no checklist items, adding default"@
}

/// The warning for a day that came without quiz questions.
pub open spec fn no_quiz_warning(day_number: i64) -> Seq<char> {
    "Day "@ + spec_decimal(day_number as int) + " has no quiz questions, adding default"@
}

/// The warnings that a day gives rise to, in their order.
pub open spec fn day_warnings(d: AiDayResponse) -> Seq<Seq<char>> {
    day_minute_warnings(d) + (if d.checklist_items@.len() == 0 {
        seq![no_checklist_warning(d.day_number)]
    } else {
        Seq::empty()
    }) + (if d.quiz_questions@.len() == 0 {
        seq![no_quiz_warning(d.day_number)]
    } else {
        Seq::empty()
    })
}

/// What the days seen so far have contributed to the plan.
pub struct PlanParts {
    pub day_plans: Seq<DayPlanDraftView>,
    pub checklist_items: Seq<ChecklistItemDraftView>,
    pub quiz_questions: Seq<QuizQuestionDraftView>,
    pub concept_tags: Seq<ConceptTagDraftView>,
    pub tag_assignments: Seq<(usize, Seq<char>)>,
    pub dependencies: Seq<DependencyDraftView>,
    pub warnings: Seq<Seq<char>>,
    pub day_numbers: Map<i64, usize>,
}

/// The parts of a plan without days.
pub open spec fn no_parts() -> PlanParts {
    PlanParts {
        day_plans: Seq::empty(),
        checklist_items: Seq::empty(),
        quiz_questions: Seq::empty(),
        concept_tags: Seq::empty(),
        tag_assignments: Seq::empty(),
        dependencies: Seq::empty(),
        warnings: Seq::empty(),
        day_numbers: Map::empty(),
    }
}

/// `parts` after one more day, of the module at `module_index`. The day's
/// position is the number of days before it.
pub open spec fn add_day(parts: PlanParts, module_index: usize, d: AiDayResponse) -> PlanParts {
    let day_index = parts.day_plans.len() as usize;
    PlanParts {
        day_plans: parts.day_plans.push(day_draft(module_index, d)),
        checklist_items: parts.checklist_items + day_checklist(day_index, d),
        quiz_questions: parts.quiz_questions + day_quiz(day_index, d),
        concept_tags: add_tags(parts.concept_tags, day_tags(d)),
        tag_assignments: parts.tag_assignments + day_tag_assignments(day_index, d),
        dependencies: parts.dependencies + day_dependencies(day_index, d),
        warnings: parts.warnings + day_warnings(d),
        day_numbers: parts.day_numbers.insert(d.day_number, day_index),
    }
}

/// `parts` after the days `days` of the module at `module_index`.
pub open spec fn add_days(parts: PlanParts, module_index: usize, days: Seq<AiDayResponse>) -> PlanParts
    decreases days.len(),
{
    if days.len() == 0 {
        parts
    } else {
        add_day(add_days(parts, module_index, days.drop_last()), module_index, days.last())
    }
}

/// `parts` after the days of the modules `modules`, the first of which stands
/// at position 0.
pub open spec fn add_modules(parts: PlanParts, modules: Seq<AiModuleResponse>) -> PlanParts
    decreases modules.len(),
{
    if modules.len() == 0 {
        parts
    } else {
        add_days(
            add_modules(parts, modules.drop_last()),
            (modules.len() - 1) as usize,
            modules.last().days@,
        )
    }
}

/// The draft of a module.
pub open spec fn module_draft(m: AiModuleResponse) -> ModuleDraftView {
    ModuleDraftView {
        title: m.title@,
        description: m.description@,
        order_index: m.order_index,
        color: spec_validate_color(m.color@),
    }
}

/// The plan that an analysis normalizes to.
pub open spec fn spec_generate_plan(response: AiAnalysisResponse) -> GeneratedPlanView {
    let parts = add_modules(no_parts(), response.modules@);
    GeneratedPlanView {
        program: ProgramDraftView {
            title: response.program_title@,
            description: response.program_description@,
            estimated_total_days: response.estimated_total_days,
        },
        modules: Seq::new(response.modules@.len(), |i: int| module_draft(response.modules@[i])),
        day_plans: parts.day_plans,
        checklist_items: parts.checklist_items,
        quiz_questions: parts.quiz_questions,
        concept_tags: parts.concept_tags,
        tag_assignments: parts.tag_assignments,
        dependencies: parts.dependencies,
        validation_warnings: parts.warnings + dependency_warnings(
            parts.dependencies,
            parts.day_numbers,
        ),
    }
}

/// Appends `item` to `items`.
fn push_checklist(items: &mut Vec<ChecklistItemDraft>, item: ChecklistItemDraft)
    ensures
        checklist_views(final(items)@) == checklist_views(old(items)@).push(item@),
{
    items.push(item);
    assert(checklist_views(items@) =~= checklist_views(old(items)@).push(item@));
}

/// Appends `question` to `questions`.
fn push_question(questions: &mut Vec<QuizQuestionDraft>, question: QuizQuestionDraft)
    ensures
        quiz_views(final(questions)@) == quiz_views(old(questions)@).push(question@),
{
    questions.push(question);
    assert(quiz_views(questions@) =~= quiz_views(old(questions)@).push(question@));
}

/// Appends `tag` to `tags`.
fn push_tag(tags: &mut Vec<ConceptTagDraft>, tag: ConceptTagDraft)
    ensures
        tag_views(final(tags)@) == tag_views(old(tags)@).push(tag@),
{
    tags.push(tag);
    assert(tag_views(tags@) =~= tag_views(old(tags)@).push(tag@));
}

/// Appends the assignment of the tag `name` to the day at `day_index`.
fn push_assignment(assignments: &mut Vec<(usize, String)>, day_index: usize, name: String)
    ensures
        assignment_views(final(assignments)@) == assignment_views(old(assignments)@).push(
            (day_index, name@),
        ),
{
    assignments.push((day_index, name));
    assert(assignment_views(assignments@) =~= assignment_views(old(assignments)@).push(
        (day_index, name@),
    ));
}

/// Appends `dependency` to `dependencies`.
fn push_dependency(dependencies: &mut Vec<DependencyDraft>, dependency: DependencyDraft)
    ensures
        dependency_views(final(dependencies)@) == dependency_views(old(dependencies)@).push(
            dependency@,
        ),
{
    dependencies.push(dependency);
    assert(dependency_views(dependencies@) =~= dependency_views(old(dependencies)@).push(
        dependency@,
    ));
}

/// A copy of `v`.
fn clone_strings(v: &Vec<String>) -> (r: Vec<String>)
    ensures
        string_views(r@) == string_views(v@),
{
    let mut r: Vec<String> = Vec::new();
    let mut i: usize = 0;
    while i < v.len()
        invariant
            i <= v.len(),
            string_views(r@) == string_views(v@).take(i as int),
        decreases v.len() - i,
    {
        let ghost before = string_views(r@);
        r.push(v[i].clone());
        assert(string_views(r@) =~= before.push(v@[i as int]@));
        assert(before.push(v@[i as int]@) =~= string_views(v@).take(i + 1));
        i += 1;
    }
    assert(string_views(v@).take(v@.len() as int) == string_views(v@));
    r
}

/// Drafts one day and records the warnings of its minute estimates.
fn draft_day(module_index: usize, d: &AiDayResponse, warnings: &mut Vec<String>) -> (r:
    DayPlanDraft)
    ensures
        r@ == day_draft(module_index, *d),
        string_views(final(warnings)@) == string_views(old(warnings)@) + day_minute_warnings(*d),
{
    let estimated_minutes = clamp_minutes(d.estimated_minutes, warnings);
    let memory_rebuild_minutes = clamp_minutes(d.memory_rebuild_minutes, warnings);
    let complexity_level = calculate_complexity(
        d.syntax_targets.as_str(),
        d.implementation_brief.as_str(),
        estimated_minutes,
    );
    assert(string_views(warnings@) == string_views(old(warnings)@) + day_minute_warnings(*d));
    DayPlanDraft {
        module_index,
        day_number: d.day_number,
        title: d.title.clone(),
        syntax_targets: d.syntax_targets.clone(),
        implementation_brief: d.implementation_brief.clone(),
        files_to_create: d.files_to_create.clone(),
        success_criteria: d.success_criteria.clone(),
        stretch_challenge: d.stretch_challenge.clone(),
        notes: d.notes.clone(),
        estimated_minutes,
        memory_rebuild_minutes,
        min_minutes: estimated_minutes * 3 / 4,
        recommended_minutes: estimated_minutes,
        deep_minutes: estimated_minutes * 3 / 2,
        complexity_level,
    }
}

/// Appends the checklist drafts of a day to `items`; a day without items is
/// given the default one, and a warning.
fn draft_checklist(
    day_index: usize,
    d: &AiDayResponse,
    items: &mut Vec<ChecklistItemDraft>,
    warnings: &mut Vec<String>,
)
    ensures
        checklist_views(final(items)@) == checklist_views(old(items)@) + day_checklist(
            day_index,
            *d,
        ),
        string_views(final(warnings)@) == string_views(old(warnings)@) + (if d.checklist_items@.len()
            == 0 {
            seq![no_checklist_warning(d.day_number)]
        } else {
            Seq::empty()
        }),
{
    if d.checklist_items.len() == 0 {
        let mut w = String::from_str("Day ");
        w.append(decimal_i64(d.day_number).as_str());
        w.append(" has no checklist items, adding default");
        push_warning(warnings, w);
        push_checklist(
            items,
            ChecklistItemDraft {
                day_index,
                label: String::from_str("Complete the implementation"),
                is_required: true,
                order_index: 0,
            },
        );
        assert(checklist_views(old(items)@).push(default_checklist_item(day_index))
            =~= checklist_views(old(items)@) + day_checklist(day_index, *d));
        assert(string_views(warnings@) =~= string_views(old(warnings)@) + seq![
            no_checklist_warning(d.day_number),
        ]);
    } else {
        let mut k: usize = 0;
        while k < d.checklist_items.len()
            invariant
                k <= d.checklist_items.len(),
                d.checklist_items@.len() > 0,
                checklist_views(items@) == checklist_views(old(items)@) + day_checklist(
                    day_index,
                    *d,
                ).take(k as int),
            decreases d.checklist_items.len() - k,
        {
            let item = &d.checklist_items[k];
            let ghost all = day_checklist(day_index, *d);
            push_checklist(
                items,
                ChecklistItemDraft {
                    day_index,
                    label: item.label.clone(),
                    is_required: item.is_required,
                    order_index: #[verifier::truncate] (k as i64),
                },
            );
            assert((checklist_views(old(items)@) + all.take(k as int)).push(all[k as int])
                =~= checklist_views(old(items)@) + all.take(k + 1));
            k += 1;
        }
        assert(day_checklist(day_index, *d).take(d.checklist_items@.len() as int) =~= day_checklist(
            day_index,
            *d,
        ));
        assert(string_views(warnings@) + Seq::<Seq<char>>::empty() == string_views(warnings@));
    }
}

/// Appends the question drafts of a day to `questions`; a day without
/// questions is given a reflection question, and a warning.
fn draft_quiz(
    day_index: usize,
    d: &AiDayResponse,
    questions: &mut Vec<QuizQuestionDraft>,
    warnings: &mut Vec<String>,
)
    ensures
        quiz_views(final(questions)@) == quiz_views(old(questions)@) + day_quiz(day_index, *d),
        string_views(final(warnings)@) == string_views(old(warnings)@) + (if d.quiz_questions@.len()
            == 0 {
            seq![no_quiz_warning(d.day_number)]
        } else {
            Seq::empty()
        }),
{
    if d.quiz_questions.len() == 0 {
        let mut w = String::from_str("Day ");
        w.append(decimal_i64(d.day_number).as_str());
        w.append(" has no quiz questions, adding default");
        push_warning(warnings, w);
        let mut text = String::from_str("What did you learn in ");
        text.append(d.title.as_str());
        text.append("?");
        push_question(
            questions,
            QuizQuestionDraft {
                day_index,
                question_text: text,
                question_type: String::from_str("reflection"),
                correct_answer: String::new(),
                options: Vec::new(),
                points: 10,
                time_limit_seconds: 300,
            },
        );
        assert(string_views(Seq::<String>::empty()) =~= Seq::<Seq<char>>::empty());
        assert(quiz_views(old(questions)@).push(default_question(day_index, d.title@))
            =~= quiz_views(old(questions)@) + day_quiz(day_index, *d));
        assert(string_views(warnings@) =~= string_views(old(warnings)@) + seq![
            no_quiz_warning(d.day_number),
        ]);
    } else {
        let mut k: usize = 0;
        while k < d.quiz_questions.len()
            invariant
                k <= d.quiz_questions.len(),
                d.quiz_questions@.len() > 0,
                quiz_views(questions@) == quiz_views(old(questions)@) + day_quiz(
                    day_index,
                    *d,
                ).take(k as int),
            decreases d.quiz_questions.len() - k,
        {
            let q = &d.quiz_questions[k];
            let ghost all = day_quiz(day_index, *d);
            push_question(
                questions,
                QuizQuestionDraft {
                    day_index,
                    question_text: q.question_text.clone(),
                    question_type: validate_question_type(q.question_type.as_str()),
                    correct_answer: q.correct_answer.clone(),
                    options: clone_strings(&q.options),
                    points: if q.points < 1 {
                        1
                    } else {
                        q.points
                    },
                    time_limit_seconds: if q.time_limit_seconds < 30 {
                        30
                    } else {
                        q.time_limit_seconds
                    },
                },
            );
            assert((quiz_views(old(questions)@) + all.take(k as int)).push(all[k as int])
                =~= quiz_views(old(questions)@) + all.take(k + 1));
            k += 1;
        }
        assert(day_quiz(day_index, *d).take(d.quiz_questions@.len() as int) =~= day_quiz(
            day_index,
            *d,
        ));
        assert(string_views(warnings@) + Seq::<Seq<char>>::empty() == string_views(warnings@));
    }
}

/// Whether `tags` holds a tag with this name and domain.
fn holds_tag(tags: &Vec<ConceptTagDraft>, name: &String, domain: &String) -> (r: bool)
    ensures
        r == tag_views(tags@).contains(ConceptTagDraftView { name: name@, domain: domain@ }),
{
    let ghost wanted = ConceptTagDraftView { name: name@, domain: domain@ };
    let mut i: usize = 0;
    while i < tags.len()
        invariant
            i <= tags.len(),
            wanted == (ConceptTagDraftView { name: name@, domain: domain@ }),
            forall|k: int| 0 <= k < i ==> tag_views(tags@)[k] != wanted,
        decreases tags.len() - i,
    {
        if tags[i].name == *name && tags[i].domain == *domain {
            assert(tag_views(tags@)[i as int] == wanted);
            return true;
        }
        i += 1;
    }
    false
}

/// Records the tags of a day: each name is put in normal form, a tag not seen
/// before, by name and domain, is added to `tags`, and every tag is assigned
/// to the day.
fn draft_tags(
    day_index: usize,
    d: &AiDayResponse,
    tags: &mut Vec<ConceptTagDraft>,
    assignments: &mut Vec<(usize, String)>,
)
    ensures
        tag_views(final(tags)@) == add_tags(tag_views(old(tags)@), day_tags(*d)),
        assignment_views(final(assignments)@) == assignment_views(old(assignments)@)
            + day_tag_assignments(day_index, *d),
{
    let mut k: usize = 0;
    assert(day_tags(*d).take(0) =~= Seq::<ConceptTagDraftView>::empty());
    assert(assignment_views(assignments@) =~= assignment_views(old(assignments)@)
        + day_tag_assignments(day_index, *d).take(0));
    while k < d.concept_tags.len()
        invariant
            k <= d.concept_tags.len(),
            tag_views(tags@) == add_tags(tag_views(old(tags)@), day_tags(*d).take(k as int)),
            assignment_views(assignments@) == assignment_views(old(assignments)@)
                + day_tag_assignments(day_index, *d).take(k as int),
        decreases d.concept_tags.len() - k,
    {
        let tag = &d.concept_tags[k];
        let name = normalize_tag_name(tag.name.as_str());
        proof {
            assert(day_tags(*d).take(k + 1).drop_last() == day_tags(*d).take(k as int));
            assert(day_tags(*d).take(k + 1).last() == (ConceptTagDraftView {
                name: name@,
                domain: tag.domain@,
            }));
        }
        if !holds_tag(tags, &name, &tag.domain) {
            push_tag(tags, ConceptTagDraft { name: name.clone(), domain: tag.domain.clone() });
        }
        let ghost all = day_tag_assignments(day_index, *d);
        push_assignment(assignments, day_index, name);
        assert((assignment_views(old(assignments)@) + all.take(k as int)).push(all[k as int])
            =~= assignment_views(old(assignments)@) + all.take(k + 1));
        k += 1;
    }
    assert(day_tags(*d).take(d.concept_tags@.len() as int) =~= day_tags(*d));
    assert(day_tag_assignments(day_index, *d).take(d.concept_tags@.len() as int)
        =~= day_tag_assignments(day_index, *d));
}

/// Appends the dependency drafts of a day to `dependencies`.
fn draft_dependencies(day_index: usize, d: &AiDayResponse, dependencies: &mut Vec<DependencyDraft>)
    ensures
        dependency_views(final(dependencies)@) == dependency_views(old(dependencies)@)
            + day_dependencies(day_index, *d),
{
    let mut k: usize = 0;
    assert(dependency_views(dependencies@) =~= dependency_views(old(dependencies)@)
        + day_dependencies(day_index, *d).take(0));
    while k < d.dependencies.len()
        invariant
            k <= d.dependencies.len(),
            dependency_views(dependencies@) == dependency_views(old(dependencies)@)
                + day_dependencies(day_index, *d).take(k as int),
        decreases d.dependencies.len() - k,
    {
        let dep = &d.dependencies[k];
        let ghost all = day_dependencies(day_index, *d);
        push_dependency(
            dependencies,
            DependencyDraft {
                day_index,
                depends_on_day_number: dep.depends_on_day_number,
                dependency_type: validate_dependency_type(dep.dependency_type.as_str()),
                minimum_score: if dep.minimum_score < 0 {
                    0
                } else if dep.minimum_score > 100 {
                    100
                } else {
                    dep.minimum_score
                },
            },
        );
        assert((dependency_views(old(dependencies)@) + all.take(k as int)).push(all[k as int])
            =~= dependency_views(old(dependencies)@) + all.take(k + 1));
        k += 1;
    }
    assert(day_dependencies(day_index, *d).take(d.dependencies@.len() as int)
        =~= day_dependencies(day_index, *d));
}

/// The parts seen so far refer only to days seen so far and to modules below
/// `module_count`, and hold no tag twice.
pub open spec fn parts_well_formed(parts: PlanParts, module_count: int) -> bool {
    &&& forall|i: int|
        0 <= i < parts.day_plans.len() ==> (#[trigger] parts.day_plans[i]).module_index
            < module_count
    &&& forall|i: int|
        0 <= i < parts.checklist_items.len() ==> (#[trigger] parts.checklist_items[i]).day_index
            < parts.day_plans.len()
    &&& forall|i: int|
        0 <= i < parts.quiz_questions.len() ==> (#[trigger] parts.quiz_questions[i]).day_index
            < parts.day_plans.len()
    &&& forall|i: int|
        0 <= i < parts.tag_assignments.len() ==> (#[trigger] parts.tag_assignments[i]).0
            < parts.day_plans.len()
    &&& forall|i: int|
        0 <= i < parts.tag_assignments.len() ==> names_tag(
            parts.concept_tags,
            (#[trigger] parts.tag_assignments[i]).1,
        )
    &&& forall|i: int|
        0 <= i < parts.dependencies.len() ==> (#[trigger] parts.dependencies[i]).day_index
            < parts.day_plans.len()
    &&& parts.concept_tags.no_duplicates()
}

/// Adding tags keeps the known ones, takes in each new one, adds nothing
/// else, and holds no tag twice if `known` held none twice.
pub proof fn lemma_add_tags(known: Seq<ConceptTagDraftView>, new: Seq<ConceptTagDraftView>)
    requires
        known.no_duplicates(),
    ensures
        add_tags(known, new).no_duplicates(),
        forall|i: int| 0 <= i < known.len() ==> add_tags(known, new).contains(#[trigger] known[i]),
        forall|k: int| 0 <= k < new.len() ==> add_tags(known, new).contains(#[trigger] new[k]),
        forall|x: ConceptTagDraftView| #[trigger]
            add_tags(known, new).contains(x) ==> known.contains(x) || new.contains(x),
    decreases new.len(),
{
    if new.len() > 0 {
        let before = add_tags(known, new.drop_last());
        let after = add_tags(known, new);
        lemma_add_tags(known, new.drop_last());
        if before.contains(new.last()) {
            assert forall|k: int| 0 <= k < new.len() implies after.contains(#[trigger] new[k]) by {
                if k < new.len() - 1 {
                    assert(new.drop_last()[k] == new[k]);
                }
            }
        } else {
            assert forall|i: int| 0 <= i < known.len() implies after.contains(
                #[trigger] known[i],
            ) by {
                let j = choose|j: int| 0 <= j < before.len() && before[j] == known[i];
                assert(after[j] == known[i]);
            }
            assert forall|k: int| 0 <= k < new.len() implies after.contains(#[trigger] new[k]) by {
                if k < new.len() - 1 {
                    assert(new.drop_last()[k] == new[k]);
                    let j = choose|j: int| 0 <= j < before.len() && before[j] == new[k];
                    assert(after[j] == new[k]);
                } else {
                    assert(after[before.len() as int] == new[k]);
                }
            }
            assert forall|i: int, j: int| 0 <= i < j < after.len() implies after[i] != after[j] by {
                if j == before.len() {
                    assert(before[i] == after[i]);
                }
            }
        }
        assert forall|x: ConceptTagDraftView| #[trigger] after.contains(x) implies known.contains(
            x,
        ) || new.contains(x) by {
            let j = choose|j: int| 0 <= j < after.len() && after[j] == x;
            if j < before.len() {
                assert(before.contains(x));
                if new.drop_last().contains(x) {
                    let k = choose|k: int| 0 <= k < new.drop_last().len() && new.drop_last()[k] == x;
                    assert(new[k] == x);
                }
            } else {
                assert(new[new.len() - 1] == x);
            }
        }
    }
}

/// A tag that comes twice, under names with the same normal form and in the
/// same domain, is held once.
pub proof fn lemma_same_tag_held_once(
    known: Seq<ConceptTagDraftView>,
    first: ConceptTagDraftView,
    second: ConceptTagDraftView,
)
    requires
        first == second,
    ensures
        add_tags(known, seq![first, second]) == add_tags(known, seq![first]),
        add_tags(known, seq![first]).contains(first),
{
    let one = seq![first];
    let two = seq![first, second];
    assert(two.drop_last() =~= one);
    assert(one.drop_last() =~= Seq::<ConceptTagDraftView>::empty());
    let before = add_tags(known, Seq::<ConceptTagDraftView>::empty());
    assert(before == known);
    let after = add_tags(known, one);
    if known.contains(first) {
        assert(after == known);
    } else {
        assert(after == known.push(first));
        assert(after[known.len() as int] == first);
    }
    assert(after.contains(first));
}

/// A day that comes without checklist items contributes exactly the default
/// item, required and tied to the day's position, and a warning that names the
/// day's number.
pub proof fn lemma_day_without_checklist(parts: PlanParts, module_index: usize, d: AiDayResponse)
    requires
        d.checklist_items@.len() == 0,
    ensures
        add_day(parts, module_index, d).checklist_items == parts.checklist_items.push(
            default_checklist_item(parts.day_plans.len() as usize),
        ),
        default_checklist_item(parts.day_plans.len() as usize).is_required,
        add_day(parts, module_index, d).warnings.contains(no_checklist_warning(d.day_number)),
{
    let after = add_day(parts, module_index, d);
    let idx = parts.day_plans.len() as usize;
    assert(parts.checklist_items + seq![default_checklist_item(idx)]
        =~= parts.checklist_items.push(default_checklist_item(idx)));
    let k = parts.warnings.len() + day_minute_warnings(d).len();
    assert(after.warnings[k as int] == no_checklist_warning(d.day_number));
}

/// Adding a day keeps the parts well formed.
pub proof fn lemma_add_day_well_formed(
    parts: PlanParts,
    module_index: usize,
    d: AiDayResponse,
    module_count: int,
)
    requires
        parts_well_formed(parts, module_count),
        module_index < module_count,
        parts.day_plans.len() < usize::MAX,
    ensures
        parts_well_formed(add_day(parts, module_index, d), module_count),
{
    let after = add_day(parts, module_index, d);
    let day_index = parts.day_plans.len() as usize;
    lemma_add_tags(parts.concept_tags, day_tags(d));
    assert forall|i: int| 0 <= i < after.day_plans.len() implies (
    #[trigger] after.day_plans[i]).module_index < module_count by {
        if i < parts.day_plans.len() {
            assert(after.day_plans[i] == parts.day_plans[i]);
        }
    }
    assert forall|i: int| 0 <= i < after.checklist_items.len() implies (
    #[trigger] after.checklist_items[i]).day_index < after.day_plans.len() by {
        if i < parts.checklist_items.len() {
            assert(after.checklist_items[i] == parts.checklist_items[i]);
        } else {
            assert(after.checklist_items[i] == day_checklist(day_index, d)[i
                - parts.checklist_items.len()]);
        }
    }
    assert forall|i: int| 0 <= i < after.quiz_questions.len() implies (
    #[trigger] after.quiz_questions[i]).day_index < after.day_plans.len() by {
        if i < parts.quiz_questions.len() {
            assert(after.quiz_questions[i] == parts.quiz_questions[i]);
        } else {
            assert(after.quiz_questions[i] == day_quiz(day_index, d)[i
                - parts.quiz_questions.len()]);
        }
    }
    assert forall|i: int| 0 <= i < after.tag_assignments.len() implies (
    #[trigger] after.tag_assignments[i]).0 < after.day_plans.len() by {
        if i < parts.tag_assignments.len() {
            assert(after.tag_assignments[i] == parts.tag_assignments[i]);
        } else {
            assert(after.tag_assignments[i] == day_tag_assignments(day_index, d)[i
                - parts.tag_assignments.len()]);
        }
    }
    assert forall|i: int| 0 <= i < after.dependencies.len() implies (
    #[trigger] after.dependencies[i]).day_index < after.day_plans.len() by {
        if i < parts.dependencies.len() {
            assert(after.dependencies[i] == parts.dependencies[i]);
        } else {
            assert(after.dependencies[i] == day_dependencies(day_index, d)[i
                - parts.dependencies.len()]);
        }
    }
    assert forall|i: int| 0 <= i < after.tag_assignments.len() implies names_tag(
        after.concept_tags,
        (#[trigger] after.tag_assignments[i]).1,
    ) by {
        if i < parts.tag_assignments.len() {
            assert(after.tag_assignments[i] == parts.tag_assignments[i]);
            let j0 = choose|j: int|
                0 <= j < parts.concept_tags.len() && (#[trigger] parts.concept_tags[j]).name
                    == parts.tag_assignments[i].1;
            assert(after.concept_tags.contains(parts.concept_tags[j0]));
            let j = choose|j: int|
                0 <= j < after.concept_tags.len() && after.concept_tags[j]
                    == parts.concept_tags[j0];
            assert(after.concept_tags[j].name == after.tag_assignments[i].1);
        } else {
            let k = i - parts.tag_assignments.len();
            assert(after.tag_assignments[i] == day_tag_assignments(day_index, d)[k]);
            assert(after.concept_tags.contains(day_tags(d)[k]));
            let j = choose|j: int|
                0 <= j < after.concept_tags.len() && after.concept_tags[j] == day_tags(d)[k];
            assert(after.concept_tags[j].name == after.tag_assignments[i].1);
        }
    }
}

/// Appends `module` to `modules`.
fn push_module(modules: &mut Vec<ModuleDraft>, module: ModuleDraft)
    ensures
        module_views(final(modules)@) == module_views(old(modules)@).push(module@),
{
    modules.push(module);
    assert(module_views(modules@) =~= module_views(old(modules)@).push(module@));
}

/// Appends `day` to `day_plans`.
fn push_day(day_plans: &mut Vec<DayPlanDraft>, day: DayPlanDraft)
    ensures
        day_plan_views(final(day_plans)@) == day_plan_views(old(day_plans)@).push(day@),
{
    day_plans.push(day);
    assert(day_plan_views(day_plans@) =~= day_plan_views(old(day_plans)@).push(day@));
}

/// Normalizes and checks an analysis, and flattens it into a draft plan.
///
/// Nothing in an analysis is an error: what is out of range is replaced, what
/// is missing is supplied, and each such step but the replacement of a colour
/// is recorded as a warning. Days are numbered by position over all modules;
/// checklist items, questions, tag assignments and dependencies refer to their
/// day by that position, days to their module by its position. A tag occurs
/// once in `concept_tags` for each pair of normalized name and domain, in the
/// order of first occurrence.
pub fn generate_plan(ai_response: AiAnalysisResponse) -> (r: Result<GeneratedPlan, AppError>)
    ensures
        r is Ok,
        r->Ok_0@ == spec_generate_plan(ai_response),
        r->Ok_0@.well_formed(),
{
    let mut validation_warnings: Vec<String> = Vec::new();
    let mut modules: Vec<ModuleDraft> = Vec::new();
    let mut day_plans: Vec<DayPlanDraft> = Vec::new();
    let mut checklist_items: Vec<ChecklistItemDraft> = Vec::new();
    let mut quiz_questions: Vec<QuizQuestionDraft> = Vec::new();
    let mut concept_tags: Vec<ConceptTagDraft> = Vec::new();
    let mut tag_assignments: Vec<(usize, String)> = Vec::new();
    let mut dependencies: Vec<DependencyDraft> = Vec::new();
    let mut day_number_to_index: HashMap<i64, usize> = HashMap::new();

    let ghost all_modules = ai_response.modules@;
    let ghost mut parts = no_parts();
    let mut module_idx: usize = 0;
    proof {
        assert(all_modules.take(0) =~= Seq::<AiModuleResponse>::empty());
        assert(day_plan_views(day_plans@) =~= parts.day_plans);
        assert(checklist_views(checklist_items@) =~= parts.checklist_items);
        assert(quiz_views(quiz_questions@) =~= parts.quiz_questions);
        assert(tag_views(concept_tags@) =~= parts.concept_tags);
        assert(assignment_views(tag_assignments@) =~= parts.tag_assignments);
        assert(dependency_views(dependencies@) =~= parts.dependencies);
        assert(string_views(validation_warnings@) =~= parts.warnings);
        assert(module_views(modules@) =~= Seq::new(0, |i: int| module_draft(all_modules[i])));
    }
    while module_idx < ai_response.modules.len()
        invariant
            module_idx <= ai_response.modules.len(),
            all_modules == ai_response.modules@,
            parts == add_modules(no_parts(), all_modules.take(module_idx as int)),
            parts_well_formed(parts, all_modules.len() as int),
            module_views(modules@) == Seq::new(
                module_idx as nat,
                |i: int| module_draft(all_modules[i]),
            ),
            day_plan_views(day_plans@) == parts.day_plans,
            checklist_views(checklist_items@) == parts.checklist_items,
            quiz_views(quiz_questions@) == parts.quiz_questions,
            tag_views(concept_tags@) == parts.concept_tags,
            assignment_views(tag_assignments@) == parts.tag_assignments,
            dependency_views(dependencies@) == parts.dependencies,
            string_views(validation_warnings@) == parts.warnings,
            day_number_to_index@ == parts.day_numbers,
        decreases ai_response.modules.len() - module_idx,
    {
        let ai_module = &ai_response.modules[module_idx];
        push_module(
            &mut modules,
            ModuleDraft {
                title: ai_module.title.clone(),
                description: ai_module.description.clone(),
                order_index: ai_module.order_index,
                color: validate_color(ai_module.color.as_str()),
            },
        );
        assert(module_views(modules@) =~= Seq::new(
            (module_idx + 1) as nat,
            |i: int| module_draft(all_modules[i]),
        ));

        let ghost before_module = parts;
        let ghost days = ai_module.days@;
        let mut day_idx: usize = 0;
        assert(days.take(0) =~= Seq::<AiDayResponse>::empty());
        while day_idx < ai_module.days.len()
            invariant
                day_idx <= ai_module.days.len(),
                days == ai_module.days@,
                parts == add_days(before_module, module_idx, days.take(day_idx as int)),
                parts_well_formed(parts, all_modules.len() as int),
                module_idx < all_modules.len(),
                day_plan_views(day_plans@) == parts.day_plans,
                checklist_views(checklist_items@) == parts.checklist_items,
                quiz_views(quiz_questions@) == parts.quiz_questions,
                tag_views(concept_tags@) == parts.concept_tags,
                assignment_views(tag_assignments@) == parts.tag_assignments,
                dependency_views(dependencies@) == parts.dependencies,
                string_views(validation_warnings@) == parts.warnings,
                day_number_to_index@ == parts.day_numbers,
            decreases ai_module.days.len() - day_idx,
        {
            let ai_day = &ai_module.days[day_idx];
            let day_index: usize = day_plans.len();
            let ghost before_day = parts;
            proof {
                assert(day_plan_views(day_plans@).len() == day_plans@.len());
                assert(days.take(day_idx + 1).drop_last() == days.take(day_idx as int));
                assert(days.take(day_idx + 1).last() == *ai_day);
                parts = add_day(before_day, module_idx, *ai_day);
            }
            day_number_to_index.insert(ai_day.day_number, day_index);
            let day = draft_day(module_idx, ai_day, &mut validation_warnings);
            push_day(&mut day_plans, day);
            draft_checklist(day_index, ai_day, &mut checklist_items, &mut validation_warnings);
            draft_quiz(day_index, ai_day, &mut quiz_questions, &mut validation_warnings);
            draft_tags(day_index, ai_day, &mut concept_tags, &mut tag_assignments);
            draft_dependencies(day_index, ai_day, &mut dependencies);
            assert(string_views(validation_warnings@) =~= before_day.warnings + day_warnings(
                *ai_day,
            ));
            let days_so_far: usize = day_plans.len();
            proof {
                assert(day_plan_views(day_plans@).len() == day_plans@.len());
                assert(before_day.day_plans.len() + 1 == days_so_far);
                lemma_add_day_well_formed(
                    before_day,
                    module_idx,
                    *ai_day,
                    all_modules.len() as int,
                );
            }
            day_idx += 1;
        }
        proof {
            assert(days.take(days.len() as int) == days);
            assert(all_modules.take(module_idx + 1).drop_last() == all_modules.take(
                module_idx as int,
            ));
            assert(all_modules.take(module_idx + 1).last() == *ai_module);
        }
        module_idx += 1;
    }
    proof {
        assert(all_modules.take(all_modules.len() as int) == all_modules);
    }
    validate_dependencies(&dependencies, &day_number_to_index, &mut validation_warnings);
    proof {
        assert(module_views(modules@).len() == all_modules.len());
    }

    Ok(
        GeneratedPlan {
            program: ProgramDraft {
                title: ai_response.program_title,
                description: ai_response.program_description,
                estimated_total_days: ai_response.estimated_total_days,
            },
            modules,
            day_plans,
            checklist_items,
            quiz_questions,
            concept_tags,
            tag_assignments,
            dependencies,
            validation_warnings,
        },
    )
}

} // verus!
