//! Programs.

use vstd::prelude::*;

verus! {

#[derive(Debug, Clone)]
pub struct Program {
    pub id: String,
    pub title: String,
    pub description: String,
    pub target_days: i32,
    pub status: String,
    pub created_at: String,
    pub updated_at: String,
}

#[derive(Debug, Clone)]
pub struct ProgramSummary {
    pub id: String,
    pub title: String,
    pub description: String,
    pub target_days: i32,
    pub status: String,
    pub created_at: String,
    pub updated_at: String,
    pub days_count: i32,
    pub completed_days: i32,
    pub latest_score: Option<i32>,
}

#[derive(Debug, Clone)]
pub struct CreateProgramInput {
    pub title: String,
    pub description: String,
    pub target_days: i32,
}

#[derive(Debug, Clone)]
pub struct UpdateProgramInput {
    pub title: Option<String>,
    pub description: Option<String>,
    pub status: Option<String>,
}

} // verus!
