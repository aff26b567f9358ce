//! Badges earned in a program.

use vstd::prelude::*;

verus! {

#[derive(Debug, Clone)]
pub struct Badge {
    pub id: String,
    pub program_id: String,
    pub badge_type: String,
    pub title: String,
    pub description: String,
    pub icon: String,
    pub earned_at: String,
    pub metadata: String,
}

} // verus!
