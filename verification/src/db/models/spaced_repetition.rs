//! Reviews that are due.

use vstd::prelude::*;

verus! {

#[derive(Debug, Clone)]
pub struct RecordReviewInput {
    pub day_plan_id: String,
    pub concept_tag_id: String,
    pub score: i32,
}

#[derive(Debug, Clone)]
pub struct DueReview {
    pub id: String,
    pub day_plan_id: String,
    pub day_title: String,
    pub day_number: i32,
    pub concept_tag_id: String,
    pub concept_name: String,
    pub next_review_date: String,
    pub interval_days: i32,
}

} // verus!
