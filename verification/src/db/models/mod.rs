pub mod artifact;
pub mod badge;
pub mod bug_log;
pub mod capacity;
pub mod checklist;
pub mod concept_tag;
pub mod day_attempt;
pub mod day_plan;
pub mod dependency;
pub mod exercise;
pub mod import;
pub mod module;
pub mod program;
pub mod quiz;
pub mod session;
pub mod skill_score;
pub mod spaced_repetition;
pub mod streak;
