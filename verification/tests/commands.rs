use buildops40::commands::attempts::{attempt_status, total_score};
use buildops40::commands::day_plans::generate_default_focus_blocks;
use buildops40::commands::days::{
    dependency_met, reaches_day, version_after_edit, would_close_cycle,
};
use buildops40::commands::intelligence::{
    calculate_interval, map_score_to_quality, next_repetition_count, update_streak_counts,
};
use buildops40::commands::time_planning::{get_session_description, parse_break_pattern};
use buildops40::error::AppError;

fn blocks(complexity: i32) -> Vec<(String, i32)> {
    generate_default_focus_blocks(complexity)
        .into_iter()
        .map(|b| (b.session_type, b.minutes))
        .collect()
}

fn expected(pairs: &[(&str, i32)]) -> Vec<(String, i32)> {
    pairs.iter().map(|(k, m)| (k.to_string(), *m)).collect()
}

#[test]
fn default_focus_blocks_grow_with_complexity() {
    let easy = expected(&[("learn", 20), ("build", 60), ("quiz", 10)]);
    assert_eq!(blocks(1), easy);
    assert_eq!(blocks(2), easy);
    assert_eq!(
        blocks(3),
        expected(&[("learn", 30), ("build", 90), ("rebuild", 20), ("quiz", 10)])
    );
    let hard =
        expected(&[("learn", 30), ("build", 120), ("debug", 30), ("rebuild", 30), ("quiz", 20)]);
    assert_eq!(blocks(4), hard);
    assert_eq!(blocks(5), hard);
    let other = expected(&[("learn", 30), ("build", 90), ("quiz", 10)]);
    assert_eq!(blocks(0), other);
    assert_eq!(blocks(6), other);
    assert_eq!(blocks(-1), other);
}

#[test]
fn map_score_to_quality_goes_by_bands() {
    let cases = [
        (0, 0),
        (49, 0),
        (50, 1),
        (59, 1),
        (60, 2),
        (69, 2),
        (70, 3),
        (79, 3),
        (80, 4),
        (89, 4),
        (90, 5),
        (100, 5),
        (1000, 5),
        (-1, 5),
        (i32::MIN, 5),
    ];
    for (score, quality) in cases {
        assert_eq!(map_score_to_quality(score), quality, "score {}", score);
    }
}

#[test]
fn calculate_interval_follows_the_schedule() {
    assert_eq!(calculate_interval(10, 5, 2), 1);
    assert_eq!(calculate_interval(10, 0, 5), 1);
    assert_eq!(calculate_interval(10, 1, 3), 6);
    assert_eq!(calculate_interval(6, 2, 4), 15);
    assert_eq!(calculate_interval(7, 2, 4), 17);
    assert_eq!(calculate_interval(1, 9, 3), 2);
    assert_eq!(calculate_interval(0, 2, 3), 0);
}

#[test]
fn calculate_interval_stretches_as_floating_point_does() {
    for interval in [
        i32::MIN,
        i32::MIN + 1,
        -858993460,
        -858993459,
        -7,
        -3,
        -1,
        0,
        1,
        3,
        858993458,
        858993459,
        858993460,
        i32::MAX - 1,
        i32::MAX,
    ] {
        let want = (interval as f64 * 2.5) as i32;
        assert_eq!(calculate_interval(interval, 2, 3), want, "interval {}", interval);
    }
}

#[test]
fn get_session_description_knows_six_kinds() {
    assert_eq!(get_session_description("learn"), "Review concepts and documentation");
    assert_eq!(get_session_description("build"), "Implement core features");
    assert_eq!(get_session_description("debug"), "Debug and fix issues");
    assert_eq!(get_session_description("rebuild"), "Memory rebuild from scratch");
    assert_eq!(get_session_description("quiz"), "Quiz and reflection");
    assert_eq!(get_session_description("review"), "Review and refactor");
    assert_eq!(get_session_description("nap"), "Work session");
    assert_eq!(get_session_description(""), "Work session");
}

#[test]
fn parse_break_pattern_reads_two_numbers() {
    assert_eq!(parse_break_pattern("50/10"), (50, 10));
    assert_eq!(parse_break_pattern("25/5"), (25, 5));
    assert_eq!(parse_break_pattern("90/-3"), (90, -3));
    assert_eq!(parse_break_pattern("x/5"), (50, 5));
    assert_eq!(parse_break_pattern("45/"), (45, 10));
    assert_eq!(parse_break_pattern("/"), (50, 10));
    assert_eq!(parse_break_pattern(" 25/5"), (50, 5));
}

#[test]
fn parse_break_pattern_falls_back_without_exactly_one_slash() {
    assert_eq!(parse_break_pattern(""), (50, 10));
    assert_eq!(parse_break_pattern("25"), (50, 10));
    assert_eq!(parse_break_pattern("1/2/3"), (50, 10));
    assert_eq!(parse_break_pattern("//"), (50, 10));
}

#[test]
fn error_messages_name_the_kind() {
    let detail = || "what happened".to_string();
    assert_eq!(AppError::Validation(detail()).message(), "Validation error: what happened");
    assert_eq!(
        AppError::ExternalService(detail()).message(),
        "External service error: what happened"
    );
    assert_eq!(AppError::Io(detail()).message(), "File system error: what happened");
    assert_eq!(AppError::Serialization(detail()).message(), "Serialization error: what happened");
    assert_eq!(AppError::NotFound(detail()).message(), "Not found: what happened");
    assert_eq!(AppError::Conflict(detail()).message(), "Conflict: what happened");
    assert_eq!(AppError::Internal(detail()).message(), "Internal error: what happened");
}

#[test]
fn attempt_status_goes_by_total_and_memory_rebuild() {
    assert_eq!(total_score(30, 20, 15, 15, 20), 100);
    assert_eq!(total_score(i32::MAX, i32::MAX, i32::MAX, i32::MAX, i32::MAX), 5 * i32::MAX as i64);
    assert_eq!(attempt_status(100, false), "blocked");
    assert_eq!(attempt_status(69, true), "blocked");
    assert_eq!(attempt_status(70, true), "passed");
    assert_eq!(attempt_status(94, true), "passed");
    assert_eq!(attempt_status(95, true), "mastery");
    assert_eq!(attempt_status(-5, true), "blocked");
}

#[test]
fn dependency_met_checks_prerequisites_only() {
    assert!(dependency_met("prerequisite", Some(70), 70));
    assert!(!dependency_met("prerequisite", Some(69), 70));
    assert!(!dependency_met("prerequisite", None, 0));
    assert!(dependency_met("recommended", None, 70));
    assert!(dependency_met("related", Some(0), 70));
}

#[test]
fn version_after_edit_counts_changes_of_published_days() {
    assert_eq!(version_after_edit(1, "published", true), 2);
    assert_eq!(version_after_edit(1, "published", false), 1);
    assert_eq!(version_after_edit(1, "draft", true), 1);
    assert_eq!(version_after_edit(i32::MAX, "published", true), i32::MAX);
}

#[test]
fn repetitions_and_streaks_count_up_and_reset() {
    assert_eq!(next_repetition_count(4, 3), 5);
    assert_eq!(next_repetition_count(4, 2), 0);
    assert_eq!(next_repetition_count(i32::MAX, 5), i32::MAX);
    assert_eq!(update_streak_counts(5, 9, 0), (5, 9));
    assert_eq!(update_streak_counts(5, 9, 1), (6, 9));
    assert_eq!(update_streak_counts(9, 9, 1), (10, 10));
    assert_eq!(update_streak_counts(5, 9, 2), (1, 9));
    assert_eq!(update_streak_counts(5, 9, -1), (1, 9));
    assert_eq!(update_streak_counts(0, 0, 30), (1, 1));
    assert_eq!(update_streak_counts(i32::MAX, 3, 1), (i32::MAX, i32::MAX));
}

#[test]
fn reaches_day_follows_dependencies_through_other_days() {
    let deps = vec![vec![1], vec![2, 4], vec![], vec![0], vec![2, 9]];
    assert!(reaches_day(&deps, 0, 1));
    assert!(reaches_day(&deps, 0, 2));
    assert!(reaches_day(&deps, 0, 4));
    assert!(reaches_day(&deps, 3, 2));
    assert!(reaches_day(&deps, 2, 2));
    assert!(!reaches_day(&deps, 2, 0));
    assert!(!reaches_day(&deps, 0, 3));
    assert!(!reaches_day(&deps, 1, 0));
    assert!(!reaches_day(&deps, 4, 9));
    assert!(!reaches_day(&deps, 9, 9));
    assert!(!reaches_day(&Vec::new(), 0, 0));
}

#[test]
fn reaches_day_ends_on_a_cycle() {
    let deps = vec![vec![1], vec![2], vec![0], vec![]];
    for from in 0..3 {
        for to in 0..3 {
            assert!(reaches_day(&deps, from, to));
        }
        assert!(!reaches_day(&deps, from, 3));
    }
}

#[test]
fn would_close_cycle_looks_from_the_target_back() {
    let deps = vec![vec![], vec![0], vec![1]];
    assert!(would_close_cycle(&deps, 0, 2));
    assert!(would_close_cycle(&deps, 0, 1));
    assert!(would_close_cycle(&deps, 1, 1));
    assert!(!would_close_cycle(&deps, 2, 0));
    assert!(!would_close_cycle(&deps, 2, 1));
}
