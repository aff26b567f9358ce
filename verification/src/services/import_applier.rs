//! The decisions of the apply stage: which rows an import writes, under which
//! identifiers, and when the transaction commits.

use vstd::prelude::*;
use vstd::string::StringExecFns;
use crate::db::models::import::{
    ChecklistItemDraftView, ConceptTagDraft, ConceptTagDraftView, DayPlanDraft, DayPlanDraftView,
    DependencyDraftView, GeneratedPlan, GeneratedPlanView, ModuleDraftView, QuizQuestionDraftView,
};
use crate::error::AppError;
use crate::text::string_views;

verus! {

/// The status that imported days are given.
pub const PUBLISHED: &'static str = "published";

/// The status that a new program is given.
pub const ACTIVE: &'static str = "active";

/// The colour that a new concept tag is given.
pub const DEFAULT_TAG_COLOR: &'static str = "#6366F1";

/// `a` divided by `b`, rounded towards zero.
pub open spec fn trunc_div(a: int, b: int) -> int {
    if a >= 0 {
        a / b
    } else {
        -((-a) / b)
    }
}

/// One block of the session schedule of a day.
#[derive(Debug, Clone)]
pub struct SessionBlock {
    pub session_type: String,
    pub minutes: i64,
}

/// The kinds and minutes of `blocks`.
pub open spec fn block_views(blocks: Seq<SessionBlock>) -> Seq<(Seq<char>, i64)> {
    blocks.map_values(|b: SessionBlock| (b.session_type@, b.minutes))
}

/// The default schedule of a day: a third of its minutes to learn, half to
/// build, a sixth to review, each rounded towards zero.
pub open spec fn spec_default_blocks(estimated_minutes: i64) -> Seq<(Seq<char>, i64)> {
    seq![
        ("learn"@, trunc_div(estimated_minutes as int, 3) as i64),
        ("build"@, trunc_div(estimated_minutes as int, 2) as i64),
        ("review"@, trunc_div(estimated_minutes as int, 6) as i64),
    ]
}

/// The default three-block schedule of a day of `estimated_minutes` minutes.
pub fn default_focus_blocks(estimated_minutes: i64) -> (r: Vec<SessionBlock>)
    ensures
        block_views(r@) == spec_default_blocks(estimated_minutes),
{
    let mut r: Vec<SessionBlock> = Vec::new();
    r.push(SessionBlock { session_type: String::from_str("learn"), minutes: estimated_minutes / 3 });
    r.push(SessionBlock { session_type: String::from_str("build"), minutes: estimated_minutes / 2 });
    r.push(
        SessionBlock { session_type: String::from_str("review"), minutes: estimated_minutes / 6 },
    );
    assert(block_views(r@) =~= spec_default_blocks(estimated_minutes));
    r
}

/// `uuid::Uuid::new_v4`, as text: a random identifier. Nothing is claimed of
/// it.
#[verifier::external_body]
fn fresh_id() -> (r: String) {
    uuid::Uuid::new_v4().to_string()
}

/// The position of the first day with the number `day_number`, if any.
pub open spec fn spec_find_day(days: Seq<i64>, day_number: i64) -> Option<int>
    decreases days.len(),
{
    if days.len() == 0 {
        None
    } else {
        match spec_find_day(days.drop_last(), day_number) {
            Some(i) => Some(i),
            None => if days.last() == day_number {
                Some(days.len() - 1)
            } else {
                None
            },
        }
    }
}

/// The day numbers of `days`.
pub open spec fn day_numbers(days: Seq<DayPlanDraft>) -> Seq<i64> {
    days.map_values(|d: DayPlanDraft| d.day_number)
}

/// What it means to be found: the position holds the number and no earlier
/// position does; nothing is found only where no position holds it.
pub proof fn lemma_find_day(days: Seq<i64>, day_number: i64)
    ensures
        match spec_find_day(days, day_number) {
            Some(i) => {
                &&& 0 <= i < days.len()
                &&& days[i] == day_number
                &&& forall|k: int| 0 <= k < i ==> days[k] != day_number
            },
            None => forall|k: int| 0 <= k < days.len() ==> days[k] != day_number,
        },
    decreases days.len(),
{
    if days.len() > 0 {
        lemma_find_day(days.drop_last(), day_number);
        match spec_find_day(days.drop_last(), day_number) {
            Some(i) => {
                assert(days.drop_last()[i] == days[i]);
                assert forall|k: int| 0 <= k < i implies days[k] != day_number by {
                    assert(days.drop_last()[k] == days[k]);
                }
            },
            None => {
                assert forall|k: int| 0 <= k < days.len() - 1 implies days[k] != day_number by {
                    assert(days.drop_last()[k] == days[k]);
                }
            },
        }
    }
}

/// Resolves a day number to the position of the first day that bears it.
pub fn find_day(days: &Vec<DayPlanDraft>, day_number: i64) -> (r: Option<usize>)
    ensures
        match r {
            Some(i) => spec_find_day(day_numbers(days@), day_number) == Some(i as int),
            None => spec_find_day(day_numbers(days@), day_number) is None,
        },
{
    let ghost numbers = day_numbers(days@);
    let mut i: usize = 0;
    assert(numbers.take(0) =~= Seq::<i64>::empty());
    while i < days.len()
        invariant
            i <= days.len(),
            numbers == day_numbers(days@),
            spec_find_day(numbers.take(i as int), day_number) is None,
        decreases days.len() - i,
    {
        proof {
            assert(numbers.take(i + 1).drop_last() == numbers.take(i as int));
            assert(numbers.take(i + 1).last() == days@[i as int].day_number);
        }
        if days[i].day_number == day_number {
            proof {
                lemma_find_day_extends(numbers, i + 1, day_number);
            }
            return Some(i);
        }
        i += 1;
    }
    assert(numbers.take(days@.len() as int) == numbers);
    None
}

/// What is found in a prefix is found in the whole.
pub proof fn lemma_find_day_extends(days: Seq<i64>, n: int, day_number: i64)
    requires
        0 <= n <= days.len(),
        spec_find_day(days.take(n), day_number) is Some,
    ensures
        spec_find_day(days, day_number) == spec_find_day(days.take(n), day_number),
    decreases days.len() - n,
{
    if n < days.len() {
        assert(days.take(n + 1).drop_last() == days.take(n));
        lemma_find_day_extends(days, n + 1, day_number);
    } else {
        assert(days.take(n) == days);
    }
}

/// The position of the last tag with the name `name`, if any: where several
/// tags share a name, the last one is the one that days are linked to.
pub open spec fn spec_find_tag(names: Seq<Seq<char>>, name: Seq<char>) -> Option<int>
    decreases names.len(),
{
    if names.len() == 0 {
        None
    } else if names.last() == name {
        Some(names.len() - 1)
    } else {
        spec_find_tag(names.drop_last(), name)
    }
}

/// The names of `tags`.
pub open spec fn tag_names(tags: Seq<ConceptTagDraft>) -> Seq<Seq<char>> {
    tags.map_values(|t: ConceptTagDraft| t.name@)
}

/// Resolves a tag name to the position of the last tag that bears it.
pub fn find_tag(tags: &Vec<ConceptTagDraft>, name: &String) -> (r: Option<usize>)
    ensures
        match r {
            Some(i) => spec_find_tag(tag_names(tags@), name@) == Some(i as int) && i < tags@.len(),
            None => spec_find_tag(tag_names(tags@), name@) is None,
        },
{
    let ghost names = tag_names(tags@);
    let mut i: usize = tags.len();
    assert(names.take(tags@.len() as int) == names);
    while i > 0
        invariant
            i <= tags.len(),
            names == tag_names(tags@),
            spec_find_tag(names, name@) == spec_find_tag(names.take(i as int), name@),
        decreases i,
    {
        proof {
            assert(names.take(i as int).drop_last() == names.take(i - 1));
            assert(names.take(i as int).last() == tags@[i - 1].name@);
        }
        if tags[i - 1].name == *name {
            return Some(i - 1);
        }
        i -= 1;
    }
    assert(names.take(0) =~= Seq::<Seq<char>>::empty());
    None
}

/// How the program row is written.
#[derive(Debug, Clone)]
pub enum ProgramWrite {
    /// The title and description of the program with this identifier are
    /// replaced.
    Update { id: String, title: String, description: String },
    /// A new, active program is inserted.
    Insert { id: String, title: String, description: String, target_days: i64 },
}

impl ProgramWrite {
    /// The identifier of the program that the import belongs to.
    pub open spec fn spec_id(&self) -> Seq<char> {
        match self {
            ProgramWrite::Update { id, .. } => id@,
            ProgramWrite::Insert { id, .. } => id@,
        }
    }

    /// The identifier of the program that the import belongs to.
    pub fn id(&self) -> (r: &String)
        ensures
            r@ == self.spec_id(),
    {
        match self {
            ProgramWrite::Update { id, .. } => id,
            ProgramWrite::Insert { id, .. } => id,
        }
    }
}

#[derive(Debug, Clone)]
pub struct ModuleRow {
    pub id: String,
    pub program_id: String,
    pub title: String,
    pub description: String,
    pub order_index: i64,
    pub color: String,
}

#[derive(Debug, Clone)]
pub struct DayPlanRow {
    pub id: String,
    pub program_id: String,
    pub module_id: String,
    pub title: String,
    pub day_number: i64,
    pub version: i64,
    pub status: String,
    pub syntax_targets: String,
    pub implementation_brief: String,
    pub files_to_create: String,
    pub success_criteria: String,
    pub stretch_challenge: String,
    pub notes: String,
    pub estimated_minutes: i64,
    pub memory_rebuild_minutes: i64,
    pub min_minutes: i64,
    pub recommended_minutes: i64,
    pub deep_minutes: i64,
    pub complexity_level: i64,
    pub focus_blocks: Vec<SessionBlock>,
}

#[derive(Debug, Clone)]
pub struct ChecklistRow {
    pub id: String,
    pub day_plan_id: String,
    pub label: String,
    pub is_required: bool,
    pub order_index: i64,
}

#[derive(Debug, Clone)]
pub struct QuizRow {
    pub id: String,
    pub day_plan_id: String,
    pub question_text: String,
    pub question_type: String,
    pub correct_answer: String,
    pub options: Vec<String>,
    pub points: i64,
    pub time_limit_seconds: i64,
    pub order_index: i64,
}

/// A concept tag of the plan, with the identifier it is inserted under where
/// the store does not hold a tag of its name and domain yet.
#[derive(Debug, Clone)]
pub struct TagCandidate {
    pub new_id: String,
    pub name: String,
    pub domain: String,
    pub color: String,
}

#[derive(Debug, Clone)]
pub struct DependencyRow {
    pub id: String,
    pub day_plan_id: String,
    pub depends_on_day_plan_id: String,
    pub dependency_type: String,
    pub minimum_score: i64,
}

/// The link of a day to a concept tag.
#[derive(Debug, Clone)]
pub struct TagLink {
    pub day_plan_id: String,
    pub tag_id: String,
}

/// Everything an import writes before the tags of the store are looked up,
/// in the order in which it is written.
#[derive(Debug, Clone)]
pub struct ImportWrites {
    pub program: ProgramWrite,
    pub modules: Vec<ModuleRow>,
    pub day_plans: Vec<DayPlanRow>,
    pub checklist_items: Vec<ChecklistRow>,
    pub quiz_questions: Vec<QuizRow>,
    pub tags: Vec<TagCandidate>,
    pub dependencies: Vec<DependencyRow>,
}

/// The identifiers of `rows`.
pub open spec fn module_ids(rows: Seq<ModuleRow>) -> Seq<Seq<char>> {
    rows.map_values(|r: ModuleRow| r.id@)
}

/// The identifiers of `rows`.
pub open spec fn day_ids(rows: Seq<DayPlanRow>) -> Seq<Seq<char>> {
    rows.map_values(|r: DayPlanRow| r.id@)
}

/// The program is written for `plan`: an update of the given program, or the
/// insertion of a new one.
pub open spec fn program_written(w: ProgramWrite, plan: GeneratedPlanView, existing: Option<String>) -> bool {
    match existing {
        Some(given) => w matches ProgramWrite::Update { id, title, description } && id@ == given@
            && title@ == plan.program.title && description@ == plan.program.description,
        None => w matches ProgramWrite::Insert { title, description, target_days, .. } && title@
            == plan.program.title && description@ == plan.program.description && target_days
            == plan.program.estimated_total_days,
    }
}

/// `row` is the row of the module `m` in the program `program_id`.
pub open spec fn module_written(row: ModuleRow, program_id: Seq<char>, m: ModuleDraftView) -> bool {
    &&& row.program_id@ == program_id
    &&& row.title@ == m.title
    &&& row.description@ == m.description
    &&& row.order_index == m.order_index
    &&& row.color@ == m.color
}

/// `row` is the row of the day `d`: published, in its first version, under
/// the module that `d` names, with the default schedule for its minutes.
pub open spec fn day_written(
    row: DayPlanRow,
    program_id: Seq<char>,
    modules: Seq<Seq<char>>,
    d: DayPlanDraftView,
) -> bool {
    &&& row.program_id@ == program_id
    &&& row.module_id@ == modules[d.module_index as int]
    &&& row.title@ == d.title
    &&& row.day_number == d.day_number
    &&& row.version == 1
    &&& row.status@ == PUBLISHED@
    &&& row.syntax_targets@ == d.syntax_targets
    &&& row.implementation_brief@ == d.implementation_brief
    &&& row.files_to_create@ == d.files_to_create
    &&& row.success_criteria@ == d.success_criteria
    &&& row.stretch_challenge@ == d.stretch_challenge
    &&& row.notes@ == d.notes
    &&& row.estimated_minutes == d.estimated_minutes
    &&& row.memory_rebuild_minutes == d.memory_rebuild_minutes
    &&& row.min_minutes == d.min_minutes
    &&& row.recommended_minutes == d.recommended_minutes
    &&& row.deep_minutes == d.deep_minutes
    &&& row.complexity_level == d.complexity_level
    &&& block_views(row.focus_blocks@) == spec_default_blocks(d.estimated_minutes)
}

/// `row` is the row of the checklist item `c`, under its day.
pub open spec fn checklist_written(row: ChecklistRow, days: Seq<Seq<char>>, c: ChecklistItemDraftView) -> bool {
    &&& row.day_plan_id@ == days[c.day_index as int]
    &&& row.label@ == c.label
    &&& row.is_required == c.is_required
    &&& row.order_index == c.order_index
}

/// `row` is the row of the question `q`, under its day.
pub open spec fn quiz_written(row: QuizRow, days: Seq<Seq<char>>, q: QuizQuestionDraftView) -> bool {
    &&& row.day_plan_id@ == days[q.day_index as int]
    &&& row.question_text@ == q.question_text
    &&& row.question_type@ == q.question_type
    &&& row.correct_answer@ == q.correct_answer
    &&& string_views(row.options@) == q.options
    &&& row.points == q.points
    &&& row.time_limit_seconds == q.time_limit_seconds
    &&& row.order_index == 0
}

/// `row` stands for the tag `t`.
pub open spec fn tag_written(row: TagCandidate, t: ConceptTagDraftView) -> bool {
    &&& row.name@ == t.name
    &&& row.domain@ == t.domain
    &&& row.color@ == DEFAULT_TAG_COLOR@
}

/// The dependencies whose target day number occurs in the plan, each with
/// the position of the first day of that number.
pub open spec fn resolved_dependencies(deps: Seq<DependencyDraftView>, numbers: Seq<i64>) -> Seq<
    (DependencyDraftView, int),
>
    decreases deps.len(),
{
    if deps.len() == 0 {
        Seq::empty()
    } else {
        let before = resolved_dependencies(deps.drop_last(), numbers);
        match spec_find_day(numbers, deps.last().depends_on_day_number) {
            Some(target) => before.push((deps.last(), target)),
            None => before,
        }
    }
}

/// `row` is the edge from the day of `dep` to the day at `target`.
pub open spec fn dependency_written(
    row: DependencyRow,
    days: Seq<Seq<char>>,
    dep: DependencyDraftView,
    target: int,
) -> bool {
    &&& row.day_plan_id@ == days[dep.day_index as int]
    &&& row.depends_on_day_plan_id@ == days[target]
    &&& row.dependency_type@ == dep.dependency_type
    &&& row.minimum_score == dep.minimum_score
}

/// `w` holds what the import of `plan` writes: the program; one row for each
/// module, day, checklist item, question and tag, in the order of the plan,
/// each child under the identifier of its parent; and one edge for each
/// dependency whose target day number occurs in the plan.
pub open spec fn writes_for(w: ImportWrites, plan: GeneratedPlanView, existing: Option<String>) -> bool {
    let program_id = w.program.spec_id();
    let modules = module_ids(w.modules@);
    let days = day_ids(w.day_plans@);
    let edges = resolved_dependencies(
        plan.dependencies,
        plan.day_plans.map_values(|d: DayPlanDraftView| d.day_number),
    );
    &&& program_written(w.program, plan, existing)
    &&& w.modules@.len() == plan.modules.len()
    &&& forall|i: int|
        0 <= i < plan.modules.len() ==> module_written(
            #[trigger] w.modules@[i],
            program_id,
            plan.modules[i],
        )
    &&& w.day_plans@.len() == plan.day_plans.len()
    &&& forall|i: int|
        0 <= i < plan.day_plans.len() ==> day_written(
            #[trigger] w.day_plans@[i],
            program_id,
            modules,
            plan.day_plans[i],
        )
    &&& w.checklist_items@.len() == plan.checklist_items.len()
    &&& forall|i: int|
        0 <= i < plan.checklist_items.len() ==> checklist_written(
            #[trigger] w.checklist_items@[i],
            days,
            plan.checklist_items[i],
        )
    &&& w.quiz_questions@.len() == plan.quiz_questions.len()
    &&& forall|i: int|
        0 <= i < plan.quiz_questions.len() ==> quiz_written(
            #[trigger] w.quiz_questions@[i],
            days,
            plan.quiz_questions[i],
        )
    &&& w.tags@.len() == plan.concept_tags.len()
    &&& forall|i: int|
        0 <= i < plan.concept_tags.len() ==> tag_written(
            #[trigger] w.tags@[i],
            plan.concept_tags[i],
        )
    &&& w.dependencies@.len() == edges.len()
    &&& forall|i: int|
        0 <= i < edges.len() ==> dependency_written(
            #[trigger] w.dependencies@[i],
            days,
            edges[i].0,
            edges[i].1,
        )
}

/// Whether every position that the plan refers to exists.
pub fn indices_in_range(plan: &GeneratedPlan) -> (r: bool)
    ensures
        r == plan@.indices_in_range(),
{
    let module_count = plan.modules.len();
    let day_count = plan.day_plans.len();
    proof {
        assert(plan@.modules.len() == module_count);
        assert(plan@.day_plans.len() == day_count);
    }
    let mut i: usize = 0;
    while i < plan.day_plans.len()
        invariant
            module_count == plan@.modules.len(),
            day_count == plan@.day_plans.len(),
            i <= plan.day_plans.len(),
            forall|k: int| 0 <= k < i ==> (#[trigger] plan@.day_plans[k]).module_index < module_count,
        decreases plan.day_plans.len() - i,
    {
        if plan.day_plans[i].module_index >= module_count {
            assert(plan@.day_plans[i as int].module_index >= module_count);
            return false;
        }
        i += 1;
    }
    i = 0;
    while i < plan.checklist_items.len()
        invariant
            module_count == plan@.modules.len(),
            day_count == plan@.day_plans.len(),
            i <= plan.checklist_items.len(),
            forall|k: int|
                0 <= k < i ==> (#[trigger] plan@.checklist_items[k]).day_index < day_count,
        decreases plan.checklist_items.len() - i,
    {
        if plan.checklist_items[i].day_index >= day_count {
            assert(plan@.checklist_items[i as int].day_index >= day_count);
            return false;
        }
        i += 1;
    }
    i = 0;
    while i < plan.quiz_questions.len()
        invariant
            module_count == plan@.modules.len(),
            day_count == plan@.day_plans.len(),
            i <= plan.quiz_questions.len(),
            forall|k: int| 0 <= k < i ==> (#[trigger] plan@.quiz_questions[k]).day_index < day_count,
        decreases plan.quiz_questions.len() - i,
    {
        if plan.quiz_questions[i].day_index >= day_count {
            assert(plan@.quiz_questions[i as int].day_index >= day_count);
            return false;
        }
        i += 1;
    }
    i = 0;
    while i < plan.tag_assignments.len()
        invariant
            module_count == plan@.modules.len(),
            day_count == plan@.day_plans.len(),
            i <= plan.tag_assignments.len(),
            forall|k: int| 0 <= k < i ==> (#[trigger] plan@.tag_assignments[k]).0 < day_count,
        decreases plan.tag_assignments.len() - i,
    {
        if plan.tag_assignments[i].0 >= day_count {
            assert(plan@.tag_assignments[i as int].0 >= day_count);
            return false;
        }
        i += 1;
    }
    i = 0;
    while i < plan.dependencies.len()
        invariant
            module_count == plan@.modules.len(),
            day_count == plan@.day_plans.len(),
            i <= plan.dependencies.len(),
            forall|k: int| 0 <= k < i ==> (#[trigger] plan@.dependencies[k]).day_index < day_count,
        decreases plan.dependencies.len() - i,
    {
        if plan.dependencies[i].day_index >= day_count {
            assert(plan@.dependencies[i as int].day_index >= day_count);
            return false;
        }
        i += 1;
    }
    true
}

/// A copy of `v`.
fn copy_strings(v: &Vec<String>) -> (r: Vec<String>)
    ensures
        string_views(r@) == string_views(v@),
{
    let mut r: Vec<String> = Vec::new();
    let mut i: usize = 0;
    assert(string_views(r@) =~= string_views(v@).take(0));
    while i < v.len()
        invariant
            i <= v.len(),
            string_views(r@) == string_views(v@).take(i as int),
        decreases v.len() - i,
    {
        let ghost before = string_views(r@);
        r.push(v[i].clone());
        assert(string_views(r@) =~= before.push(v@[i as int]@));
        assert(before.push(v@[i as int]@) =~= string_views(v@).take(i + 1));
        i += 1;
    }
    assert(string_views(v@).take(v@.len() as int) == string_views(v@));
    r
}

/// Lays out what the import of `plan` writes, each row under a fresh
/// identifier: the program, updated where an identifier is given and inserted
/// otherwise; the modules; the days, published and with the default schedule;
/// the checklist items and questions under their days; the tags; and the
/// dependency edges, each to the first day that bears the target number. A
/// dependency whose target number no day bears has no edge.
///
/// Fails with a `Validation` error, before anything is laid out, exactly where
/// the plan refers to a module or day that it does not hold.
pub fn prepare_import(plan: &GeneratedPlan, existing_program_id: Option<String>) -> (r: Result<
    ImportWrites,
    AppError,
>)
    ensures
        match r {
            Ok(w) => plan@.indices_in_range() && writes_for(w, plan@, existing_program_id),
            Err(e) => !plan@.indices_in_range() && e is Validation,
        },
{
    if !indices_in_range(plan) {
        return Err(
            AppError::Validation(String::from_str("Plan refers to a module or day it does not hold")),
        );
    }
    let program = match &existing_program_id {
        Some(id) => ProgramWrite::Update {
            id: id.clone(),
            title: plan.program.title.clone(),
            description: plan.program.description.clone(),
        },
        None => ProgramWrite::Insert {
            id: fresh_id(),
            title: plan.program.title.clone(),
            description: plan.program.description.clone(),
            target_days: plan.program.estimated_total_days,
        },
    };
    let ghost program_id = program.spec_id();

    let mut modules: Vec<ModuleRow> = Vec::new();
    let mut i: usize = 0;
    while i < plan.modules.len()
        invariant
            i <= plan.modules.len(),
            modules@.len() == i,
            forall|k: int|
                0 <= k < i ==> module_written(#[trigger] modules@[k], program_id, plan@.modules[k]),
            program_id == program.spec_id(),
        decreases plan.modules.len() - i,
    {
        let m = &plan.modules[i];
        modules.push(
            ModuleRow {
                id: fresh_id(),
                program_id: program.id().clone(),
                title: m.title.clone(),
                description: m.description.clone(),
                order_index: m.order_index,
                color: m.color.clone(),
            },
        );
        assert(plan@.modules[i as int] == m@);
        i += 1;
    }
    let ghost module_names = module_ids(modules@);

    let mut day_plans: Vec<DayPlanRow> = Vec::new();
    i = 0;
    while i < plan.day_plans.len()
        invariant
            i <= plan.day_plans.len(),
            plan@.indices_in_range(),
            day_plans@.len() == i,
            modules@.len() == plan@.modules.len(),
            module_names == module_ids(modules@),
            program_id == program.spec_id(),
            forall|k: int|
                0 <= k < i ==> day_written(
                    #[trigger] day_plans@[k],
                    program_id,
                    module_names,
                    plan@.day_plans[k],
                ),
        decreases plan.day_plans.len() - i,
    {
        let d = &plan.day_plans[i];
        proof {
            assert(plan@.day_plans[i as int] == d@);
            assert(d@.module_index < plan@.modules.len());
        }
        day_plans.push(
            DayPlanRow {
                id: fresh_id(),
                program_id: program.id().clone(),
                module_id: modules[d.module_index].id.clone(),
                title: d.title.clone(),
                day_number: d.day_number,
                version: 1,
                status: String::from_str(PUBLISHED),
                syntax_targets: d.syntax_targets.clone(),
                implementation_brief: d.implementation_brief.clone(),
                files_to_create: d.files_to_create.clone(),
                success_criteria: d.success_criteria.clone(),
                stretch_challenge: d.stretch_challenge.clone(),
                notes: d.notes.clone(),
                estimated_minutes: d.estimated_minutes,
                memory_rebuild_minutes: d.memory_rebuild_minutes,
                min_minutes: d.min_minutes,
                recommended_minutes: d.recommended_minutes,
                deep_minutes: d.deep_minutes,
                complexity_level: d.complexity_level,
                focus_blocks: default_focus_blocks(d.estimated_minutes),
            },
        );
        i += 1;
    }
    let ghost day_names = day_ids(day_plans@);

    let mut checklist_items: Vec<ChecklistRow> = Vec::new();
    i = 0;
    while i < plan.checklist_items.len()
        invariant
            i <= plan.checklist_items.len(),
            plan@.indices_in_range(),
            checklist_items@.len() == i,
            day_plans@.len() == plan@.day_plans.len(),
            day_names == day_ids(day_plans@),
            forall|k: int|
                0 <= k < i ==> checklist_written(
                    #[trigger] checklist_items@[k],
                    day_names,
                    plan@.checklist_items[k],
                ),
        decreases plan.checklist_items.len() - i,
    {
        let c = &plan.checklist_items[i];
        proof {
            assert(plan@.checklist_items[i as int] == c@);
            assert(c@.day_index < plan@.day_plans.len());
        }
        checklist_items.push(
            ChecklistRow {
                id: fresh_id(),
                day_plan_id: day_plans[c.day_index].id.clone(),
                label: c.label.clone(),
                is_required: c.is_required,
                order_index: c.order_index,
            },
        );
        i += 1;
    }

    let mut quiz_questions: Vec<QuizRow> = Vec::new();
    i = 0;
    while i < plan.quiz_questions.len()
        invariant
            i <= plan.quiz_questions.len(),
            plan@.indices_in_range(),
            quiz_questions@.len() == i,
            day_plans@.len() == plan@.day_plans.len(),
            day_names == day_ids(day_plans@),
            forall|k: int|
                0 <= k < i ==> quiz_written(
                    #[trigger] quiz_questions@[k],
                    day_names,
                    plan@.quiz_questions[k],
                ),
        decreases plan.quiz_questions.len() - i,
    {
        let q = &plan.quiz_questions[i];
        proof {
            assert(plan@.quiz_questions[i as int] == q@);
            assert(q@.day_index < plan@.day_plans.len());
        }
        quiz_questions.push(
            QuizRow {
                id: fresh_id(),
                day_plan_id: day_plans[q.day_index].id.clone(),
                question_text: q.question_text.clone(),
                question_type: q.question_type.clone(),
                correct_answer: q.correct_answer.clone(),
                options: copy_strings(&q.options),
                points: q.points,
                time_limit_seconds: q.time_limit_seconds,
                order_index: 0,
            },
        );
        i += 1;
    }

    let mut tags: Vec<TagCandidate> = Vec::new();
    i = 0;
    while i < plan.concept_tags.len()
        invariant
            i <= plan.concept_tags.len(),
            tags@.len() == i,
            forall|k: int| 0 <= k < i ==> tag_written(#[trigger] tags@[k], plan@.concept_tags[k]),
        decreases plan.concept_tags.len() - i,
    {
        let t = &plan.concept_tags[i];
        tags.push(
            TagCandidate {
                new_id: fresh_id(),
                name: t.name.clone(),
                domain: t.domain.clone(),
                color: String::from_str(DEFAULT_TAG_COLOR),
            },
        );
        assert(plan@.concept_tags[i as int] == t@);
        i += 1;
    }

    let ghost numbers = plan@.day_plans.map_values(|d: DayPlanDraftView| d.day_number);
    let ghost all_deps = plan@.dependencies;
    let mut dependencies: Vec<DependencyRow> = Vec::new();
    i = 0;
    proof {
        assert(numbers =~= day_numbers(plan.day_plans@));
        assert(all_deps.take(0) =~= Seq::<DependencyDraftView>::empty());
    }
    while i < plan.dependencies.len()
        invariant
            i <= plan.dependencies.len(),
            plan@.indices_in_range(),
            all_deps == plan@.dependencies,
            numbers == day_numbers(plan.day_plans@),
            day_plans@.len() == plan@.day_plans.len(),
            day_names == day_ids(day_plans@),
            dependencies@.len() == resolved_dependencies(all_deps.take(i as int), numbers).len(),
            forall|k: int|
                0 <= k < dependencies@.len() ==> dependency_written(
                    #[trigger] dependencies@[k],
                    day_names,
                    resolved_dependencies(all_deps.take(i as int), numbers)[k].0,
                    resolved_dependencies(all_deps.take(i as int), numbers)[k].1,
                ),
        decreases plan.dependencies.len() - i,
    {
        let dep = &plan.dependencies[i];
        proof {
            assert(all_deps.take(i + 1).drop_last() == all_deps.take(i as int));
            assert(all_deps.take(i + 1).last() == dep@);
            assert(dep@.day_index < plan@.day_plans.len());
            lemma_find_day(numbers, dep.depends_on_day_number);
        }
        match find_day(&plan.day_plans, dep.depends_on_day_number) {
            Some(target) => {
                dependencies.push(
                    DependencyRow {
                        id: fresh_id(),
                        day_plan_id: day_plans[dep.day_index].id.clone(),
                        depends_on_day_plan_id: day_plans[target].id.clone(),
                        dependency_type: dep.dependency_type.clone(),
                        minimum_score: dep.minimum_score,
                    },
                );
            },
            None => {},
        }
        i += 1;
    }
    proof {
        assert(all_deps.take(plan.dependencies@.len() as int) == all_deps);
    }
    Ok(
        ImportWrites {
            program,
            modules,
            day_plans,
            checklist_items,
            quiz_questions,
            tags,
            dependencies,
        },
    )
}

/// The assignments whose tag name one of the tags bears, each as the position
/// of its day and of the last tag of that name.
pub open spec fn resolved_assignments(assignments: Seq<(usize, Seq<char>)>, names: Seq<Seq<char>>) -> Seq<
    (int, int),
>
    decreases assignments.len(),
{
    if assignments.len() == 0 {
        Seq::empty()
    } else {
        let before = resolved_assignments(assignments.drop_last(), names);
        match spec_find_tag(names, assignments.last().1) {
            Some(tag) => before.push((assignments.last().0 as int, tag)),
            None => before,
        }
    }
}

/// The links of days to tags, once every tag of the plan has its identifier
/// in the store: one link for each assignment whose tag name occurs among the
/// plan's tags, in the order of the assignments. Where several tags share a
/// name, the last one is linked.
///
/// Fails with a `Validation` error exactly where the identifiers do not match
/// the plan in number, or an assignment names a day that the plan does not
/// hold.
pub fn tag_links(plan: &GeneratedPlan, day_plan_ids: &Vec<String>, tag_ids: &Vec<String>) -> (r:
    Result<Vec<TagLink>, AppError>)
    ensures
        match r {
            Ok(links) => {
                let wanted = resolved_assignments(
                    plan@.tag_assignments,
                    tag_names(plan.concept_tags@),
                );
                &&& links_in_range(plan@, day_plan_ids@.len(), tag_ids@.len())
                &&& links@.len() == wanted.len()
                &&& forall|i: int|
                    0 <= i < wanted.len() ==> (#[trigger] links@[i]).day_plan_id@
                        == day_plan_ids@[wanted[i].0]@ && links@[i].tag_id@
                        == tag_ids@[wanted[i].1]@
            },
            Err(e) => !links_in_range(plan@, day_plan_ids@.len(), tag_ids@.len()) && e
                is Validation,
        },
{
    let day_count = plan.day_plans.len();
    let ghost all = plan@.tag_assignments;
    let ghost names = tag_names(plan.concept_tags@);
    if day_plan_ids.len() != day_count || tag_ids.len() != plan.concept_tags.len() {
        return Err(AppError::Validation(String::from_str("Identifiers do not match the plan")));
    }
    let mut links: Vec<TagLink> = Vec::new();
    let mut i: usize = 0;
    assert(all.take(0) =~= Seq::<(usize, Seq<char>)>::empty());
    while i < plan.tag_assignments.len()
        invariant
            i <= plan.tag_assignments.len(),
            all == plan@.tag_assignments,
            names == tag_names(plan.concept_tags@),
            day_plan_ids@.len() == day_count,
            day_count == plan@.day_plans.len(),
            tag_ids@.len() == plan.concept_tags@.len(),
            forall|k: int| 0 <= k < i ==> (#[trigger] all[k]).0 < day_count,
            links@.len() == resolved_assignments(all.take(i as int), names).len(),
            forall|k: int|
                0 <= k < links@.len() ==> (#[trigger] links@[k]).day_plan_id@
                    == day_plan_ids@[resolved_assignments(all.take(i as int), names)[k].0]@
                    && links@[k].tag_id@ == tag_ids@[resolved_assignments(
                    all.take(i as int),
                    names,
                )[k].1]@,
        decreases plan.tag_assignments.len() - i,
    {
        let assignment = &plan.tag_assignments[i];
        proof {
            assert(all.take(i + 1).drop_last() == all.take(i as int));
            assert(all.take(i + 1).last() == (assignment.0, assignment.1@));
            assert(all[i as int] == (assignment.0, assignment.1@));
        }
        if assignment.0 >= day_count {
            return Err(
                AppError::Validation(String::from_str("Assignment names a day the plan does not hold")),
            );
        }
        match find_tag(&plan.concept_tags, &assignment.1) {
            Some(tag) => {
                links.push(
                    TagLink {
                        day_plan_id: day_plan_ids[assignment.0].clone(),
                        tag_id: tag_ids[tag].clone(),
                    },
                );
            },
            None => {},
        }
        i += 1;
    }
    assert(all.take(plan.tag_assignments@.len() as int) == all);
    Ok(links)
}

/// The identifiers match the plan in number, and every assignment names a day
/// of the plan.
pub open spec fn links_in_range(plan: GeneratedPlanView, day_count: nat, tag_count: nat) -> bool {
    &&& day_count == plan.day_plans.len()
    &&& tag_count == plan.concept_tags.len()
    &&& forall|i: int|
        0 <= i < plan.tag_assignments.len() ==> (#[trigger] plan.tag_assignments[i]).0
            < plan.day_plans.len()
}

/// The writes of an import, in their order.
#[derive(Debug, Clone, Copy, PartialEq, Eq, Structural)]
pub enum ApplyStep {
    Program,
    Modules,
    DayPlans,
    ChecklistItems,
    QuizQuestions,
    ConceptTags,
    TagAssignments,
    Dependencies,
}

/// Where the transaction of an import stands.
#[derive(Debug, Clone, Copy, PartialEq, Eq, Structural)]
pub enum Transaction {
    /// The transaction is open and this step is next.
    Writing(ApplyStep),
    /// Every step succeeded and the commit is next.
    Committing,
    /// The commit succeeded: every write of the import is in the store.
    Committed,
    /// A step or the commit failed: no write of the import is in the store.
    RolledBack,
}

/// What the caller does to the store next.
#[derive(Debug, Clone, Copy, PartialEq, Eq, Structural)]
pub enum StoreAction {
    /// Perform the writes of this step inside the transaction.
    Write(ApplyStep),
    /// Commit the transaction.
    Commit,
    /// Roll the transaction back and fail the job.
    Rollback,
    /// Read the program back and return it.
    ReadBack,
    /// Nothing is left to do.
    Nothing,
}

/// The step after `step`, if any.
pub open spec fn spec_next_step(step: ApplyStep) -> Option<ApplyStep> {
    match step {
        ApplyStep::Program => Some(ApplyStep::Modules),
        ApplyStep::Modules => Some(ApplyStep::DayPlans),
        ApplyStep::DayPlans => Some(ApplyStep::ChecklistItems),
        ApplyStep::ChecklistItems => Some(ApplyStep::QuizQuestions),
        ApplyStep::QuizQuestions => Some(ApplyStep::ConceptTags),
        ApplyStep::ConceptTags => Some(ApplyStep::TagAssignments),
        ApplyStep::TagAssignments => Some(ApplyStep::Dependencies),
        ApplyStep::Dependencies => None,
    }
}

/// The state and the action after the current step, or the commit, succeeded
/// or failed. Any failure rolls the transaction back; the commit comes after
/// the last step only.
pub open spec fn spec_after(t: Transaction, succeeded: bool) -> (Transaction, StoreAction) {
    match t {
        Transaction::Writing(step) => if !succeeded {
            (Transaction::RolledBack, StoreAction::Rollback)
        } else {
            match spec_next_step(step) {
                Some(next) => (Transaction::Writing(next), StoreAction::Write(next)),
                None => (Transaction::Committing, StoreAction::Commit),
            }
        },
        Transaction::Committing => if succeeded {
            (Transaction::Committed, StoreAction::ReadBack)
        } else {
            (Transaction::RolledBack, StoreAction::Rollback)
        },
        Transaction::Committed => (Transaction::Committed, StoreAction::Nothing),
        Transaction::RolledBack => (Transaction::RolledBack, StoreAction::Nothing),
    }
}

impl Transaction {
    /// The state in which the transaction is opened, and its first action.
    pub fn begin() -> (r: (Transaction, StoreAction))
        ensures
            r == (Transaction::Writing(ApplyStep::Program), StoreAction::Write(ApplyStep::Program)),
    {
        (Transaction::Writing(ApplyStep::Program), StoreAction::Write(ApplyStep::Program))
    }

    /// Takes in whether the current step, or the commit, succeeded, and says
    /// what to do next.
    pub fn after(self, succeeded: bool) -> (r: (Transaction, StoreAction))
        ensures
            r == spec_after(self, succeeded),
    {
        match self {
            Transaction::Writing(step) => {
                if !succeeded {
                    return (Transaction::RolledBack, StoreAction::Rollback);
                }
                let next = match step {
                    ApplyStep::Program => ApplyStep::Modules,
                    ApplyStep::Modules => ApplyStep::DayPlans,
                    ApplyStep::DayPlans => ApplyStep::ChecklistItems,
                    ApplyStep::ChecklistItems => ApplyStep::QuizQuestions,
                    ApplyStep::QuizQuestions => ApplyStep::ConceptTags,
                    ApplyStep::ConceptTags => ApplyStep::TagAssignments,
                    ApplyStep::TagAssignments => ApplyStep::Dependencies,
                    ApplyStep::Dependencies => {
                        return (Transaction::Committing, StoreAction::Commit);
                    },
                };
                (Transaction::Writing(next), StoreAction::Write(next))
            },
            Transaction::Committing => if succeeded {
                (Transaction::Committed, StoreAction::ReadBack)
            } else {
                (Transaction::RolledBack, StoreAction::Rollback)
            },
            Transaction::Committed => (Transaction::Committed, StoreAction::Nothing),
            Transaction::RolledBack => (Transaction::RolledBack, StoreAction::Nothing),
        }
    }
}

/// The state after the outcomes `outcomes`, one for each step in order and
/// one for the commit.
pub open spec fn state_after(outcomes: Seq<bool>) -> Transaction
    decreases outcomes.len(),
{
    if outcomes.len() == 0 {
        Transaction::Writing(ApplyStep::Program)
    } else {
        spec_after(state_after(outcomes.drop_last()), outcomes.last()).0
    }
}

/// The number of the step, counted from 0.
pub open spec fn step_number(step: ApplyStep) -> int {
    match step {
        ApplyStep::Program => 0,
        ApplyStep::Modules => 1,
        ApplyStep::DayPlans => 2,
        ApplyStep::ChecklistItems => 3,
        ApplyStep::QuizQuestions => 4,
        ApplyStep::ConceptTags => 5,
        ApplyStep::TagAssignments => 6,
        ApplyStep::Dependencies => 7,
    }
}

/// While the transaction is open, every outcome so far was a success and the
/// step that is next is the one after them; once it is committed, the eight
/// steps and the commit have succeeded.
pub proof fn lemma_open_means_all_succeeded(outcomes: Seq<bool>)
    ensures
        match state_after(outcomes) {
            Transaction::Writing(step) => step_number(step) == outcomes.len() && forall|i: int|
                0 <= i < outcomes.len() ==> outcomes[i],
            Transaction::Committing => outcomes.len() == 8 && forall|i: int|
                0 <= i < outcomes.len() ==> outcomes[i],
            Transaction::Committed => outcomes.len() >= 9 && forall|i: int| 0 <= i < 9 ==> outcomes[i],
            Transaction::RolledBack => exists|i: int| 0 <= i < outcomes.len() && i < 9 && !outcomes[i],
        },
    decreases outcomes.len(),
{
    if outcomes.len() > 0 {
        let before = outcomes.drop_last();
        lemma_open_means_all_succeeded(before);
        assert forall|i: int| 0 <= i < before.len() implies before[i] == outcomes[i] by {}
        match state_after(before) {
            Transaction::RolledBack => {
                let i = choose|i: int| 0 <= i < before.len() && i < 9 && !before[i];
                assert(!outcomes[i]);
            },
            Transaction::Committed => {},
            _ => {
                if !outcomes.last() {
                    assert(!outcomes[outcomes.len() - 1]);
                }
            },
        }
    }
}

/// An import is all or nothing: the transaction is committed only after every
/// step and the commit itself have succeeded, and a failure at any step, the
/// last one included, rolls it back for good, so that none of the import's
/// writes stays in the store.
pub proof fn lemma_all_or_nothing(outcomes: Seq<bool>, failed: int)
    requires
        0 <= failed < outcomes.len(),
        failed < 9,
        !outcomes[failed],
    ensures
        state_after(outcomes) == Transaction::RolledBack,
{
    lemma_open_means_all_succeeded(outcomes);
}

/// The action that follows a failed step is the rollback, whichever step it
/// is; no write and no commit follows it.
pub proof fn lemma_failure_rolls_back(step: ApplyStep)
    ensures
        spec_after(Transaction::Writing(step), false) == (
            Transaction::RolledBack,
            StoreAction::Rollback,
        ),
        spec_after(Transaction::RolledBack, true).1 == StoreAction::Nothing,
        spec_after(Transaction::RolledBack, false).1 == StoreAction::Nothing,
{
}

} // verus!
