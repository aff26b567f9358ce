//! Concept tags and their assignment to days.

use vstd::prelude::*;

verus! {

#[derive(Debug, Clone)]
pub struct ConceptTag {
    pub id: String,
    pub name: String,
    pub domain: String,
    pub color: String,
    pub created_at: String,
}

#[derive(Debug, Clone)]
pub struct CreateConceptTagInput {
    pub name: String,
    pub domain: String,
    pub color: String,
}

#[derive(Debug, Clone)]
pub struct DayPlanTag {
    pub day_plan_id: String,
    pub concept_tag_id: String,
    pub created_at: String,
}

} // verus!
