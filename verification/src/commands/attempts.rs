//! How an attempt at a day is scored.

use vstd::prelude::*;

verus! {

/// The total of the five part scores.
pub fn total_score(
    implementation: i32,
    code_quality: i32,
    accessibility: i32,
    performance: i32,
    quiz: i32,
) -> (r: i64)
    ensures
        r == implementation + code_quality + accessibility + performance + quiz,
{
    implementation as i64 + code_quality as i64 + accessibility as i64 + performance as i64
        + quiz as i64
}

/// The status of a submitted attempt: blocked where the memory rebuild was not
/// passed or the total is below 70, mastery from 95 on, passed between.
pub open spec fn spec_attempt_status(total: i64, memory_rebuild_passed: bool) -> Seq<char> {
    if !memory_rebuild_passed || total < 70 {
        "blocked"@
    } else if total >= 95 {
        "mastery"@
    } else {
        "passed"@
    }
}

/// The status of a submitted attempt with the given total.
pub fn attempt_status(total: i64, memory_rebuild_passed: bool) -> (r: &'static str)
    ensures
        r@ == spec_attempt_status(total, memory_rebuild_passed),
{
    if !memory_rebuild_passed {
        "blocked"
    } else if total < 70 {
        "blocked"
    } else if total >= 95 {
        "mastery"
    } else {
        "passed"
    }
}

} // verus!
