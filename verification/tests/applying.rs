use buildops40::db::models::import::{
    ChecklistItemDraft, ConceptTagDraft, DayPlanDraft, DependencyDraft, GeneratedPlan,
    ModuleDraft, ProgramDraft, QuizQuestionDraft,
};
use buildops40::error::AppError;
use buildops40::services::import_applier::{
    default_focus_blocks, find_day, find_tag, indices_in_range, prepare_import, tag_links,
    ApplyStep, ProgramWrite, StoreAction, Transaction,
};
use buildops40::services::import_job::JobStatus;

fn day(module_index: usize, day_number: i64, minutes: i64) -> DayPlanDraft {
    DayPlanDraft {
        module_index,
        day_number,
        title: format!("Day {}", day_number),
        syntax_targets: "syntax".to_string(),
        implementation_brief: "brief".to_string(),
        files_to_create: "files".to_string(),
        success_criteria: "criteria".to_string(),
        stretch_challenge: "stretch".to_string(),
        notes: "notes".to_string(),
        estimated_minutes: minutes,
        memory_rebuild_minutes: 60,
        min_minutes: minutes * 3 / 4,
        recommended_minutes: minutes,
        deep_minutes: minutes * 3 / 2,
        complexity_level: 2,
    }
}

fn tag(name: &str, domain: &str) -> ConceptTagDraft {
    ConceptTagDraft { name: name.to_string(), domain: domain.to_string() }
}

fn dependency(day_index: usize, depends_on_day_number: i64) -> DependencyDraft {
    DependencyDraft {
        day_index,
        depends_on_day_number,
        dependency_type: "prerequisite".to_string(),
        minimum_score: 70,
    }
}

fn plan() -> GeneratedPlan {
    GeneratedPlan {
        program: ProgramDraft {
            title: "Program".to_string(),
            description: "About".to_string(),
            estimated_total_days: 3,
        },
        modules: vec![
            ModuleDraft {
                title: "One".to_string(),
                description: "First".to_string(),
                order_index: 0,
                color: "#EC4899".to_string(),
            },
            ModuleDraft {
                title: "Two".to_string(),
                description: "Second".to_string(),
                order_index: 1,
                color: "#6366F1".to_string(),
            },
        ],
        day_plans: vec![day(0, 1, 90), day(1, 2, 100), day(1, 2, 45)],
        checklist_items: vec![
            ChecklistItemDraft {
                day_index: 0,
                label: "a".to_string(),
                is_required: true,
                order_index: 0,
            },
            ChecklistItemDraft {
                day_index: 2,
                label: "b".to_string(),
                is_required: false,
                order_index: 0,
            },
        ],
        quiz_questions: vec![QuizQuestionDraft {
            day_index: 1,
            question_text: "q".to_string(),
            question_type: "multiple_choice".to_string(),
            correct_answer: "x".to_string(),
            options: vec!["x".to_string(), "y".to_string()],
            points: 5,
            time_limit_seconds: 60,
        }],
        concept_tags: vec![tag("grid", "css"), tag("async", "rust"), tag("grid", "layout")],
        tag_assignments: vec![
            (0, "grid".to_string()),
            (1, "async".to_string()),
            (2, "unknown".to_string()),
            (2, "grid".to_string()),
        ],
        dependencies: vec![dependency(1, 1), dependency(2, 2), dependency(2, 99)],
        validation_warnings: vec![],
    }
}

#[test]
fn default_focus_blocks_split_the_minutes() {
    let blocks = default_focus_blocks(90);
    let got: Vec<(&str, i64)> =
        blocks.iter().map(|b| (b.session_type.as_str(), b.minutes)).collect();
    assert_eq!(got, vec![("learn", 30), ("build", 45), ("review", 15)]);
    let blocks = default_focus_blocks(100);
    let got: Vec<i64> = blocks.iter().map(|b| b.minutes).collect();
    assert_eq!(got, vec![33, 50, 16]);
    let blocks = default_focus_blocks(-7);
    let got: Vec<i64> = blocks.iter().map(|b| b.minutes).collect();
    assert_eq!(got, vec![-2, -3, -1]);
}

#[test]
fn find_day_finds_the_first_day_of_a_number() {
    let days = plan().day_plans;
    assert_eq!(find_day(&days, 1), Some(0));
    assert_eq!(find_day(&days, 2), Some(1));
    assert_eq!(find_day(&days, 3), None);
    assert_eq!(find_day(&vec![], 1), None);
}

#[test]
fn find_tag_finds_the_last_tag_of_a_name() {
    let tags = plan().concept_tags;
    assert_eq!(find_tag(&tags, &"grid".to_string()), Some(2));
    assert_eq!(find_tag(&tags, &"async".to_string()), Some(1));
    assert_eq!(find_tag(&tags, &"Grid".to_string()), None);
}

#[test]
fn prepare_import_inserts_a_new_program() {
    let writes = prepare_import(&plan(), None).ok().unwrap();
    match &writes.program {
        ProgramWrite::Insert { id, title, description, target_days } => {
            assert_eq!(id.len(), 36);
            assert_eq!(title, "Program");
            assert_eq!(description, "About");
            assert_eq!(*target_days, 3);
        },
        _ => panic!("a new program is inserted"),
    }
}

#[test]
fn prepare_import_updates_a_given_program() {
    let writes = prepare_import(&plan(), Some("p-1".to_string())).ok().unwrap();
    match &writes.program {
        ProgramWrite::Update { id, title, description } => {
            assert_eq!(id, "p-1");
            assert_eq!(title, "Program");
            assert_eq!(description, "About");
        },
        _ => panic!("the given program is updated"),
    }
    assert!(writes.modules.iter().all(|m| m.program_id == "p-1"));
    assert!(writes.day_plans.iter().all(|d| d.program_id == "p-1"));
}

#[test]
fn prepare_import_links_rows_to_their_parents() {
    let writes = prepare_import(&plan(), None).ok().unwrap();
    let program_id = writes.program.id().clone();
    assert_eq!(writes.modules.len(), 2);
    assert_eq!(writes.modules[0].title, "One");
    assert_eq!(writes.modules[1].order_index, 1);
    assert_eq!(writes.modules[1].color, "#6366F1");
    assert!(writes.modules.iter().all(|m| m.program_id == program_id));

    assert_eq!(writes.day_plans.len(), 3);
    assert_eq!(writes.day_plans[0].module_id, writes.modules[0].id);
    assert_eq!(writes.day_plans[1].module_id, writes.modules[1].id);
    assert_eq!(writes.day_plans[2].module_id, writes.modules[1].id);
    for d in &writes.day_plans {
        assert_eq!(d.status, "published");
        assert_eq!(d.version, 1);
        assert_eq!(d.program_id, program_id);
    }
    assert_eq!(writes.day_plans[1].title, "Day 2");
    assert_eq!(writes.day_plans[1].estimated_minutes, 100);
    assert_eq!(writes.day_plans[1].min_minutes, 75);
    assert_eq!(writes.day_plans[1].deep_minutes, 150);
    let blocks: Vec<(&str, i64)> = writes.day_plans[1]
        .focus_blocks
        .iter()
        .map(|b| (b.session_type.as_str(), b.minutes))
        .collect();
    assert_eq!(blocks, vec![("learn", 33), ("build", 50), ("review", 16)]);

    assert_eq!(writes.checklist_items.len(), 2);
    assert_eq!(writes.checklist_items[0].day_plan_id, writes.day_plans[0].id);
    assert_eq!(writes.checklist_items[1].day_plan_id, writes.day_plans[2].id);
    assert_eq!(writes.checklist_items[1].label, "b");
    assert!(!writes.checklist_items[1].is_required);

    assert_eq!(writes.quiz_questions.len(), 1);
    assert_eq!(writes.quiz_questions[0].day_plan_id, writes.day_plans[1].id);
    assert_eq!(writes.quiz_questions[0].options, vec!["x", "y"]);
    assert_eq!(writes.quiz_questions[0].order_index, 0);

    assert_eq!(writes.tags.len(), 3);
    assert_eq!(writes.tags[1].name, "async");
    assert_eq!(writes.tags[1].domain, "rust");
    assert_eq!(writes.tags[1].color, "#6366F1");
}

#[test]
fn prepare_import_resolves_dependencies_to_the_first_day_of_a_number() {
    let writes = prepare_import(&plan(), None).ok().unwrap();
    assert_eq!(writes.dependencies.len(), 2);
    assert_eq!(writes.dependencies[0].day_plan_id, writes.day_plans[1].id);
    assert_eq!(writes.dependencies[0].depends_on_day_plan_id, writes.day_plans[0].id);
    assert_eq!(writes.dependencies[1].day_plan_id, writes.day_plans[2].id);
    assert_eq!(writes.dependencies[1].depends_on_day_plan_id, writes.day_plans[1].id);
    assert_eq!(writes.dependencies[1].dependency_type, "prerequisite");
    assert_eq!(writes.dependencies[1].minimum_score, 70);
}

#[test]
fn prepare_import_gives_every_row_its_own_identifier() {
    let writes = prepare_import(&plan(), None).ok().unwrap();
    let mut ids: Vec<String> = vec![writes.program.id().clone()];
    ids.extend(writes.modules.iter().map(|r| r.id.clone()));
    ids.extend(writes.day_plans.iter().map(|r| r.id.clone()));
    ids.extend(writes.checklist_items.iter().map(|r| r.id.clone()));
    ids.extend(writes.quiz_questions.iter().map(|r| r.id.clone()));
    ids.extend(writes.tags.iter().map(|r| r.new_id.clone()));
    ids.extend(writes.dependencies.iter().map(|r| r.id.clone()));
    let count = ids.len();
    ids.sort();
    ids.dedup();
    assert_eq!(ids.len(), count);
    assert!(ids.iter().all(|id| id.len() == 36));
}

#[test]
fn prepare_import_rejects_a_plan_with_a_dangling_reference() {
    let mut bad = plan();
    bad.day_plans[1].module_index = 2;
    assert!(!indices_in_range(&bad));
    assert!(matches!(prepare_import(&bad, None), Err(AppError::Validation(_))));
    let mut bad = plan();
    bad.checklist_items[0].day_index = 3;
    assert!(matches!(prepare_import(&bad, None), Err(AppError::Validation(_))));
    let mut bad = plan();
    bad.dependencies[2].day_index = 7;
    assert!(matches!(prepare_import(&bad, None), Err(AppError::Validation(_))));
    assert!(indices_in_range(&plan()));
}

#[test]
fn tag_links_join_days_and_tags() {
    let day_ids = vec!["d0".to_string(), "d1".to_string(), "d2".to_string()];
    let tag_ids = vec!["t0".to_string(), "t1".to_string(), "t2".to_string()];
    let links = tag_links(&plan(), &day_ids, &tag_ids).ok().unwrap();
    let got: Vec<(&str, &str)> =
        links.iter().map(|l| (l.day_plan_id.as_str(), l.tag_id.as_str())).collect();
    assert_eq!(got, vec![("d0", "t2"), ("d1", "t1"), ("d2", "t2")]);
}

#[test]
fn tag_links_reject_identifiers_that_do_not_match_the_plan() {
    let day_ids = vec!["d0".to_string(), "d1".to_string()];
    let tag_ids = vec!["t0".to_string(), "t1".to_string(), "t2".to_string()];
    assert!(matches!(tag_links(&plan(), &day_ids, &tag_ids), Err(AppError::Validation(_))));
    let day_ids = vec!["d0".to_string(), "d1".to_string(), "d2".to_string()];
    assert!(matches!(tag_links(&plan(), &day_ids, &vec![]), Err(AppError::Validation(_))));
    let mut bad = plan();
    bad.tag_assignments.push((3, "grid".to_string()));
    assert!(matches!(tag_links(&bad, &day_ids, &tag_ids), Err(AppError::Validation(_))));
}

#[test]
fn a_transaction_commits_after_every_step_succeeded() {
    let (mut state, first) = Transaction::begin();
    let mut actions = vec![first];
    for _ in 0..10 {
        let (next, action) = state.after(true);
        state = next;
        actions.push(action);
    }
    assert_eq!(
        actions,
        vec![
            StoreAction::Write(ApplyStep::Program),
            StoreAction::Write(ApplyStep::Modules),
            StoreAction::Write(ApplyStep::DayPlans),
            StoreAction::Write(ApplyStep::ChecklistItems),
            StoreAction::Write(ApplyStep::QuizQuestions),
            StoreAction::Write(ApplyStep::ConceptTags),
            StoreAction::Write(ApplyStep::TagAssignments),
            StoreAction::Write(ApplyStep::Dependencies),
            StoreAction::Commit,
            StoreAction::ReadBack,
            StoreAction::Nothing,
        ]
    );
    assert_eq!(state, Transaction::Committed);
}

#[test]
fn a_failure_at_the_last_insert_rolls_the_transaction_back() {
    let (mut state, _) = Transaction::begin();
    for _ in 0..7 {
        state = state.after(true).0;
    }
    assert_eq!(state, Transaction::Writing(ApplyStep::Dependencies));
    let (state, action) = state.after(false);
    assert_eq!(action, StoreAction::Rollback);
    assert_eq!(state, Transaction::RolledBack);
    assert_eq!(state.after(true), (Transaction::RolledBack, StoreAction::Nothing));
}

#[test]
fn a_failure_at_any_step_or_at_the_commit_rolls_back() {
    for failing in 0..9 {
        let (mut state, _) = Transaction::begin();
        let mut actions = Vec::new();
        for step in 0..12 {
            let (next, action) = state.after(step != failing);
            state = next;
            actions.push(action);
        }
        assert_eq!(state, Transaction::RolledBack);
        assert_eq!(actions[failing], StoreAction::Rollback);
        assert!(!actions.contains(&StoreAction::ReadBack));
        assert!(actions[failing + 1..].iter().all(|a| *a == StoreAction::Nothing));
        assert_eq!(actions.contains(&StoreAction::Commit), failing == 8);
    }
}

#[test]
fn job_status_names_round_trip() {
    for status in [
        JobStatus::Pending,
        JobStatus::Extracting,
        JobStatus::Analyzing,
        JobStatus::Reviewing,
        JobStatus::Applying,
        JobStatus::Completed,
        JobStatus::Failed,
        JobStatus::Cancelled,
    ] {
        assert_eq!(JobStatus::parse(status.name()), Some(status));
    }
    assert_eq!(JobStatus::Pending.name(), "pending");
    assert_eq!(JobStatus::Cancelled.name(), "cancelled");
    assert_eq!(JobStatus::parse("done"), None);
    assert_eq!(JobStatus::parse("Pending"), None);
}

#[test]
fn job_status_moves_forward_only() {
    assert!(matches!(
        JobStatus::Pending.move_to(JobStatus::Extracting),
        Ok(JobStatus::Extracting)
    ));
    assert!(matches!(
        JobStatus::Reviewing.move_to(JobStatus::Applying),
        Ok(JobStatus::Applying)
    ));
    assert!(matches!(
        JobStatus::Applying.move_to(JobStatus::Completed),
        Ok(JobStatus::Completed)
    ));
    assert!(matches!(
        JobStatus::Analyzing.move_to(JobStatus::Extracting),
        Err(AppError::Conflict(_))
    ));
    assert!(matches!(JobStatus::Pending.move_to(JobStatus::Pending), Err(AppError::Conflict(_))));
}

#[test]
fn job_status_can_be_cancelled_until_it_has_ended() {
    for live in [
        JobStatus::Pending,
        JobStatus::Extracting,
        JobStatus::Analyzing,
        JobStatus::Reviewing,
        JobStatus::Applying,
    ] {
        assert!(!live.is_terminal());
        assert!(matches!(live.move_to(JobStatus::Cancelled), Ok(JobStatus::Cancelled)));
        assert!(matches!(live.move_to(JobStatus::Failed), Ok(JobStatus::Failed)));
    }
    for ended in [JobStatus::Completed, JobStatus::Failed, JobStatus::Cancelled] {
        assert!(ended.is_terminal());
        for to in [JobStatus::Applying, JobStatus::Completed, JobStatus::Cancelled] {
            match ended.move_to(to) {
                Err(AppError::Conflict(m)) => {
                    assert_eq!(
                        m,
                        format!("Job cannot move from {} to {}", ended.name(), to.name())
                    )
                },
                _ => panic!("a job that has ended does not move"),
            }
        }
    }
}
