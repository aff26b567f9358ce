//! Skill scores by domain.

use vstd::prelude::*;

verus! {

#[derive(Debug, Clone)]
pub struct SkillScore {
    pub id: String,
    pub program_id: String,
    pub domain: String,
    pub score: i32,
    pub total_attempts: i32,
    pub last_updated: String,
    pub created_at: String,
}

#[derive(Debug, Clone)]
pub struct SkillRadarData {
    pub domain: String,
    pub score: i32,
    pub max_score: i32,
}

} // verus!
