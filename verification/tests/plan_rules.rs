use std::collections::HashMap;

use buildops40::db::models::import::{
    AiAnalysisResponse, AiChecklistItem, AiConceptTag, AiDayResponse, AiDependency,
    AiModuleResponse, AiQuizQuestion, DependencyDraft,
};
use buildops40::services::plan_generator::{
    calculate_complexity, clamp_minutes, complexity_score, generate_plan,
    mentions_advanced_concept, normalize_tag_name, validate_color, validate_dependencies,
    validate_dependency_type, validate_question_type,
};

fn day(day_number: i64, title: &str) -> AiDayResponse {
    AiDayResponse {
        day_number,
        title: title.to_string(),
        syntax_targets: "let x = 1;".to_string(),
        implementation_brief: "Build a counter".to_string(),
        files_to_create: "main.rs".to_string(),
        success_criteria: "It counts".to_string(),
        stretch_challenge: "Count down".to_string(),
        notes: "None".to_string(),
        estimated_minutes: 90,
        memory_rebuild_minutes: 60,
        checklist_items: vec![
            AiChecklistItem { label: "Write it".to_string(), is_required: true },
            AiChecklistItem { label: "Test it".to_string(), is_required: false },
        ],
        quiz_questions: vec![AiQuizQuestion {
            question_text: "What is x?".to_string(),
            question_type: "short_answer".to_string(),
            correct_answer: "1".to_string(),
            options: vec![],
            points: 5,
            time_limit_seconds: 60,
        }],
        concept_tags: vec![],
        dependencies: vec![],
    }
}

fn module(title: &str, color: &str, days: Vec<AiDayResponse>) -> AiModuleResponse {
    AiModuleResponse {
        title: title.to_string(),
        description: "About ".to_string() + title,
        order_index: 0,
        color: color.to_string(),
        days,
    }
}

fn response(modules: Vec<AiModuleResponse>) -> AiAnalysisResponse {
    AiAnalysisResponse {
        program_title: "Program".to_string(),
        program_description: "A program".to_string(),
        estimated_total_days: 40,
        modules,
    }
}

fn tag(name: &str, domain: &str) -> AiConceptTag {
    AiConceptTag { name: name.to_string(), domain: domain.to_string() }
}

#[test]
fn clamp_minutes_keeps_values_in_range() {
    let mut warnings = Vec::new();
    for m in [45, 46, 90, 179, 180] {
        assert_eq!(clamp_minutes(m, &mut warnings), m);
    }
    assert!(warnings.is_empty());
}

#[test]
fn clamp_minutes_raises_low_values_and_warns() {
    let mut warnings = Vec::new();
    assert_eq!(clamp_minutes(10, &mut warnings), 45);
    assert_eq!(clamp_minutes(44, &mut warnings), 45);
    assert_eq!(clamp_minutes(-3, &mut warnings), 45);
    assert_eq!(
        warnings,
        vec![
            "Minutes 10 too low, clamping to 45",
            "Minutes 44 too low, clamping to 45",
            "Minutes -3 too low, clamping to 45",
        ]
    );
}

#[test]
fn clamp_minutes_lowers_high_values_and_warns() {
    let mut warnings = vec!["before".to_string()];
    assert_eq!(clamp_minutes(181, &mut warnings), 180);
    assert_eq!(clamp_minutes(i64::MAX, &mut warnings), 180);
    assert_eq!(
        warnings,
        vec![
            "before".to_string(),
            "Minutes 181 too high, clamping to 180".to_string(),
            format!("Minutes {} too high, clamping to 180", i64::MAX),
        ]
    );
}

#[test]
fn clamp_minutes_is_idempotent_and_in_range() {
    for m in [i64::MIN, -1, 0, 14, 15, 44, 45, 100, 180, 181, 10_000, i64::MAX] {
        let mut first = Vec::new();
        let once = clamp_minutes(m, &mut first);
        assert!((45..=180).contains(&once));
        let mut second = Vec::new();
        assert_eq!(clamp_minutes(once, &mut second), once);
        assert!(second.is_empty());
    }
}

#[test]
fn validate_color_keeps_palette_colors_and_replaces_others() {
    for c in [
        "#6366F1", "#EC4899", "#F59E0B", "#22C55E", "#3B82F6", "#A855F7", "#EF4444", "#14B8A6",
    ] {
        assert_eq!(validate_color(c), c);
    }
    for c in ["", "#000000", "#6366f1", "red", " #6366F1"] {
        assert_eq!(validate_color(c), "#6366F1");
    }
}

#[test]
fn validate_question_type_allows_four_kinds() {
    for t in ["short_answer", "multiple_choice", "code_prompt", "reflection"] {
        assert_eq!(validate_question_type(t), t);
    }
    for t in ["", "essay", "Reflection", "short answer"] {
        assert_eq!(validate_question_type(t), "short_answer");
    }
}

#[test]
fn validate_dependency_type_allows_two_kinds() {
    assert_eq!(validate_dependency_type("prerequisite"), "prerequisite");
    assert_eq!(validate_dependency_type("recommended"), "recommended");
    assert_eq!(validate_dependency_type("related"), "prerequisite");
    assert_eq!(validate_dependency_type(""), "prerequisite");
}

#[test]
fn normalize_tag_name_trims_and_lowers() {
    assert_eq!(normalize_tag_name("  Async/Await \n"), "async/await");
    assert_eq!(normalize_tag_name("$state Rune"), "$state rune");
    assert_eq!(normalize_tag_name("   "), "");
    assert_eq!(normalize_tag_name("Grid Template"), "grid template");
}

#[test]
fn normalize_tag_name_is_idempotent() {
    for name in ["  CSS Grid ", "async", "\tMiXeD Case\t", "", "ÉCOLE  ", " Σίσυφος "] {
        let once = normalize_tag_name(name);
        assert_eq!(normalize_tag_name(&once), once);
    }
}

#[test]
fn complexity_score_adds_one_for_each_mark_up_to_five() {
    assert_eq!(complexity_score(45, false, false), 1);
    assert_eq!(complexity_score(90, false, false), 1);
    assert_eq!(complexity_score(91, false, false), 2);
    assert_eq!(complexity_score(120, false, false), 2);
    assert_eq!(complexity_score(121, false, false), 3);
    assert_eq!(complexity_score(121, true, false), 4);
    assert_eq!(complexity_score(121, true, true), 5);
    assert_eq!(complexity_score(60, true, true), 3);
}

#[test]
fn mentions_advanced_concept_knows_the_keywords() {
    let lowered = |s: &str| s.chars().collect::<Vec<char>>();
    for k in [
        "async",
        "await",
        "closure",
        "generic",
        "trait",
        "interface",
        "algorithm",
        "architecture",
        "state management",
        "optimization",
    ] {
        assert!(mentions_advanced_concept(&lowered(&format!("about {} today", k))));
    }
    assert!(!mentions_advanced_concept(&lowered("loops and variables")));
    assert!(!mentions_advanced_concept(&lowered("Async")));
}

#[test]
fn calculate_complexity_scores_texts_and_minutes() {
    assert_eq!(calculate_complexity("let x", "print it", 60), 1);
    assert_eq!(calculate_complexity("ASYNC fn", "print it", 60), 2);
    assert_eq!(calculate_complexity("let x", "a Trait object", 100), 3);
    assert_eq!(calculate_complexity("state", "management", 60), 2);
    let long_syntax = "x".repeat(501);
    assert_eq!(calculate_complexity(&long_syntax, "", 60), 2);
    assert_eq!(calculate_complexity(&"x".repeat(500), "", 60), 1);
    assert_eq!(calculate_complexity("", &"y".repeat(1001), 60), 2);
    assert_eq!(calculate_complexity("", &"y".repeat(1000), 60), 1);
    assert_eq!(calculate_complexity(&long_syntax, "closure", 150), 5);
}

#[test]
fn calculate_complexity_counts_characters_not_bytes() {
    let syntax = "é".repeat(300);
    assert_eq!(calculate_complexity(&syntax, "", 60), 1);
}

#[test]
fn validate_dependencies_flags_missing_and_forward_targets() {
    let deps = vec![
        DependencyDraft {
            day_index: 2,
            depends_on_day_number: 1,
            dependency_type: "prerequisite".to_string(),
            minimum_score: 70,
        },
        DependencyDraft {
            day_index: 1,
            depends_on_day_number: 99,
            dependency_type: "prerequisite".to_string(),
            minimum_score: 70,
        },
        DependencyDraft {
            day_index: 0,
            depends_on_day_number: 3,
            dependency_type: "recommended".to_string(),
            minimum_score: 70,
        },
        DependencyDraft {
            day_index: 1,
            depends_on_day_number: 2,
            dependency_type: "recommended".to_string(),
            minimum_score: 70,
        },
    ];
    let mut day_map = HashMap::new();
    day_map.insert(1i64, 0usize);
    day_map.insert(2i64, 1usize);
    day_map.insert(3i64, 2usize);
    let mut warnings = Vec::new();
    validate_dependencies(&deps, &day_map, &mut warnings);
    assert_eq!(
        warnings,
        vec![
            "Dependency references non-existent day 99",
            "Circular or forward dependency detected: day at index 0 depends on day 3",
            "Circular or forward dependency detected: day at index 1 depends on day 2",
        ]
    );
}

#[test]
fn validate_dependencies_accepts_earlier_targets() {
    let deps = vec![DependencyDraft {
        day_index: 5,
        depends_on_day_number: 10,
        dependency_type: "prerequisite".to_string(),
        minimum_score: 0,
    }];
    let mut day_map = HashMap::new();
    day_map.insert(10i64, 4usize);
    let mut warnings = Vec::new();
    validate_dependencies(&deps, &day_map, &mut warnings);
    assert!(warnings.is_empty());
}

#[test]
fn generate_plan_flattens_modules_and_days() {
    let input = response(vec![
        module("Basics", "#EC4899", vec![day(1, "Variables"), day(2, "Loops")]),
        module("More", "purple", vec![day(3, "Traits")]),
    ]);
    let plan = generate_plan(input).ok().unwrap();
    assert_eq!(plan.program.title, "Program");
    assert_eq!(plan.program.description, "A program");
    assert_eq!(plan.program.estimated_total_days, 40);
    assert_eq!(plan.modules.len(), 2);
    assert_eq!(plan.modules[0].title, "Basics");
    assert_eq!(plan.modules[0].color, "#EC4899");
    assert_eq!(plan.modules[1].color, "#6366F1");
    assert_eq!(plan.day_plans.len(), 3);
    let indices: Vec<usize> = plan.day_plans.iter().map(|d| d.module_index).collect();
    assert_eq!(indices, vec![0, 0, 1]);
    let numbers: Vec<i64> = plan.day_plans.iter().map(|d| d.day_number).collect();
    assert_eq!(numbers, vec![1, 2, 3]);
    assert_eq!(plan.day_plans[2].title, "Traits");
    assert_eq!(plan.checklist_items.len(), 6);
    let item_days: Vec<usize> = plan.checklist_items.iter().map(|c| c.day_index).collect();
    assert_eq!(item_days, vec![0, 0, 1, 1, 2, 2]);
    let orders: Vec<i64> = plan.checklist_items.iter().map(|c| c.order_index).collect();
    assert_eq!(orders, vec![0, 1, 0, 1, 0, 1]);
    assert_eq!(plan.quiz_questions.len(), 3);
    assert!(plan.validation_warnings.is_empty());
}

#[test]
fn generate_plan_derives_minutes_and_complexity() {
    let mut d = day(1, "Day");
    d.estimated_minutes = 130;
    d.memory_rebuild_minutes = 500;
    d.syntax_targets = "async closures".to_string();
    let plan = generate_plan(response(vec![module("M", "#EC4899", vec![d])])).ok().unwrap();
    let got = &plan.day_plans[0];
    assert_eq!(got.estimated_minutes, 130);
    assert_eq!(got.memory_rebuild_minutes, 180);
    assert_eq!(got.min_minutes, 97);
    assert_eq!(got.recommended_minutes, 130);
    assert_eq!(got.deep_minutes, 195);
    assert_eq!(got.complexity_level, 4);
    assert_eq!(plan.validation_warnings, vec!["Minutes 500 too high, clamping to 180"]);
}

#[test]
fn generate_plan_minutes_follow_the_clamped_estimate() {
    let mut d = day(1, "Day");
    d.estimated_minutes = 20;
    let plan = generate_plan(response(vec![module("M", "#EC4899", vec![d])])).ok().unwrap();
    let got = &plan.day_plans[0];
    assert_eq!(got.estimated_minutes, 45);
    assert_eq!(got.min_minutes, 33);
    assert_eq!(got.deep_minutes, 67);
    assert_eq!(got.complexity_level, 1);
    assert_eq!(plan.validation_warnings, vec!["Minutes 20 too low, clamping to 45"]);
}

#[test]
fn generate_plan_gives_a_day_without_checklist_the_default_item() {
    let mut empty = day(7, "Empty");
    empty.checklist_items = vec![];
    let input = response(vec![module("M", "#EC4899", vec![day(6, "Full"), empty])]);
    let plan = generate_plan(input).ok().unwrap();
    let for_day: Vec<_> = plan.checklist_items.iter().filter(|c| c.day_index == 1).collect();
    assert_eq!(for_day.len(), 1);
    assert_eq!(for_day[0].label, "Complete the implementation");
    assert!(for_day[0].is_required);
    assert_eq!(for_day[0].order_index, 0);
    assert_eq!(plan.validation_warnings, vec!["Day 7 has no checklist items, adding default"]);
}

#[test]
fn generate_plan_gives_a_day_without_questions_a_reflection() {
    let mut empty = day(3, "Closures");
    empty.quiz_questions = vec![];
    let plan = generate_plan(response(vec![module("M", "#EC4899", vec![empty])])).ok().unwrap();
    assert_eq!(plan.quiz_questions.len(), 1);
    let q = &plan.quiz_questions[0];
    assert_eq!(q.day_index, 0);
    assert_eq!(q.question_text, "What did you learn in Closures?");
    assert_eq!(q.question_type, "reflection");
    assert_eq!(q.correct_answer, "");
    assert!(q.options.is_empty());
    assert_eq!(q.points, 10);
    assert_eq!(q.time_limit_seconds, 300);
    assert_eq!(plan.validation_warnings, vec!["Day 3 has no quiz questions, adding default"]);
}

#[test]
fn generate_plan_coerces_questions() {
    let mut d = day(1, "Day");
    d.quiz_questions = vec![
        AiQuizQuestion {
            question_text: "Pick one".to_string(),
            question_type: "multiple_choice".to_string(),
            correct_answer: "b".to_string(),
            options: vec!["a".to_string(), "b".to_string()],
            points: 0,
            time_limit_seconds: 10,
        },
        AiQuizQuestion {
            question_text: "Explain".to_string(),
            question_type: "essay".to_string(),
            correct_answer: String::new(),
            options: vec![],
            points: -4,
            time_limit_seconds: 30,
        },
    ];
    let plan = generate_plan(response(vec![module("M", "#EC4899", vec![d])])).ok().unwrap();
    assert_eq!(plan.quiz_questions[0].question_type, "multiple_choice");
    assert_eq!(plan.quiz_questions[0].options, vec!["a", "b"]);
    assert_eq!(plan.quiz_questions[0].points, 1);
    assert_eq!(plan.quiz_questions[0].time_limit_seconds, 30);
    assert_eq!(plan.quiz_questions[1].question_type, "short_answer");
    assert_eq!(plan.quiz_questions[1].points, 1);
    assert_eq!(plan.quiz_questions[1].time_limit_seconds, 30);
}

#[test]
fn generate_plan_merges_tags_that_differ_by_case_and_space() {
    let mut first = day(1, "One");
    first.concept_tags = vec![tag("Async/Await", "rust"), tag("  async/await ", "rust")];
    let mut second = day(2, "Two");
    second.concept_tags =
        vec![tag("ASYNC/AWAIT", "rust"), tag("async/await", "javascript"), tag("Grid", "css")];
    let plan =
        generate_plan(response(vec![module("M", "#EC4899", vec![first, second])])).ok().unwrap();
    let tags: Vec<(String, String)> =
        plan.concept_tags.iter().map(|t| (t.name.clone(), t.domain.clone())).collect();
    assert_eq!(
        tags,
        vec![
            ("async/await".to_string(), "rust".to_string()),
            ("async/await".to_string(), "javascript".to_string()),
            ("grid".to_string(), "css".to_string()),
        ]
    );
    assert_eq!(
        plan.tag_assignments,
        vec![
            (0, "async/await".to_string()),
            (0, "async/await".to_string()),
            (1, "async/await".to_string()),
            (1, "async/await".to_string()),
            (1, "grid".to_string()),
        ]
    );
}

#[test]
fn generate_plan_coerces_and_flags_dependencies() {
    let mut first = day(1, "One");
    first.dependencies = vec![AiDependency {
        depends_on_day_number: 2,
        dependency_type: "blocks".to_string(),
        minimum_score: 150,
    }];
    let mut second = day(2, "Two");
    second.dependencies = vec![
        AiDependency {
            depends_on_day_number: 1,
            dependency_type: "recommended".to_string(),
            minimum_score: -5,
        },
        AiDependency {
            depends_on_day_number: 2,
            dependency_type: "prerequisite".to_string(),
            minimum_score: 70,
        },
        AiDependency {
            depends_on_day_number: 9,
            dependency_type: "prerequisite".to_string(),
            minimum_score: 70,
        },
    ];
    let plan =
        generate_plan(response(vec![module("M", "#EC4899", vec![first, second])])).ok().unwrap();
    assert_eq!(plan.dependencies.len(), 4);
    assert_eq!(plan.dependencies[0].day_index, 0);
    assert_eq!(plan.dependencies[0].dependency_type, "prerequisite");
    assert_eq!(plan.dependencies[0].minimum_score, 100);
    assert_eq!(plan.dependencies[1].day_index, 1);
    assert_eq!(plan.dependencies[1].dependency_type, "recommended");
    assert_eq!(plan.dependencies[1].minimum_score, 0);
    assert_eq!(
        plan.validation_warnings,
        vec![
            "Circular or forward dependency detected: day at index 0 depends on day 2",
            "Circular or forward dependency detected: day at index 1 depends on day 2",
            "Dependency references non-existent day 9",
        ]
    );
}

#[test]
fn generate_plan_orders_warnings_by_day_then_dependencies() {
    let mut first = day(1, "One");
    first.estimated_minutes = 5;
    first.memory_rebuild_minutes = 999;
    first.checklist_items = vec![];
    first.quiz_questions = vec![];
    first.dependencies = vec![AiDependency {
        depends_on_day_number: 4,
        dependency_type: "prerequisite".to_string(),
        minimum_score: 70,
    }];
    let mut second = day(2, "Two");
    second.checklist_items = vec![];
    let plan =
        generate_plan(response(vec![module("M", "#EC4899", vec![first, second])])).ok().unwrap();
    assert_eq!(
        plan.validation_warnings,
        vec![
            "Minutes 5 too low, clamping to 45",
            "Minutes 999 too high, clamping to 180",
            "Day 1 has no checklist items, adding default",
            "Day 1 has no quiz questions, adding default",
            "Day 2 has no checklist items, adding default",
            "Dependency references non-existent day 4",
        ]
    );
}

#[test]
fn generate_plan_resolves_a_repeated_day_number_to_the_later_day() {
    let mut third = day(1, "Again");
    third.dependencies = vec![AiDependency {
        depends_on_day_number: 1,
        dependency_type: "prerequisite".to_string(),
        minimum_score: 70,
    }];
    let input = response(vec![module("M", "#EC4899", vec![day(1, "One"), day(2, "Two"), third])]);
    let plan = generate_plan(input).ok().unwrap();
    assert_eq!(
        plan.validation_warnings,
        vec!["Circular or forward dependency detected: day at index 2 depends on day 1"]
    );
}

#[test]
fn generate_plan_of_nothing_is_empty() {
    let plan = generate_plan(response(vec![])).ok().unwrap();
    assert!(plan.modules.is_empty());
    assert!(plan.day_plans.is_empty());
    assert!(plan.checklist_items.is_empty());
    assert!(plan.quiz_questions.is_empty());
    assert!(plan.concept_tags.is_empty());
    assert!(plan.tag_assignments.is_empty());
    assert!(plan.dependencies.is_empty());
    assert!(plan.validation_warnings.is_empty());
}
