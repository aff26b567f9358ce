//! The default session schedule of a day.

use vstd::prelude::*;
use vstd::string::StringExecFns;
use crate::db::models::day_plan::FocusBlock;

verus! {

/// The kinds and minutes of `blocks`.
pub open spec fn focus_block_views(blocks: Seq<FocusBlock>) -> Seq<(Seq<char>, i32)> {
    blocks.map_values(|b: FocusBlock| (b.session_type@, b.minutes))
}

/// The default schedule for a day of the given complexity.
pub open spec fn spec_default_focus_blocks(complexity: i32) -> Seq<(Seq<char>, i32)> {
    if complexity == 1 || complexity == 2 {
        seq![("learn"@, 20i32), ("build"@, 60i32), ("quiz"@, 10i32)]
    } else if complexity == 3 {
        seq![("learn"@, 30i32), ("build"@, 90i32), ("rebuild"@, 20i32), ("quiz"@, 10i32)]
    } else if complexity == 4 || complexity == 5 {
        seq![
            ("learn"@, 30i32),
            ("build"@, 120i32),
            ("debug"@, 30i32),
            ("rebuild"@, 30i32),
            ("quiz"@, 20i32),
        ]
    } else {
        seq![("learn"@, 30i32), ("build"@, 90i32), ("quiz"@, 10i32)]
    }
}

/// A block of the given kind and length.
fn block(session_type: &str, minutes: i32) -> (r: FocusBlock)
    ensures
        r.session_type@ == session_type@,
        r.minutes == minutes,
{
    FocusBlock { session_type: String::from_str(session_type), minutes }
}

/// The default session schedule for a day of the given complexity: the more
/// complex the day, the more blocks and the longer the build.
pub fn generate_default_focus_blocks(complexity: i32) -> (r: Vec<FocusBlock>)
    ensures
        focus_block_views(r@) == spec_default_focus_blocks(complexity),
{
    let mut r: Vec<FocusBlock> = Vec::new();
    if complexity == 1 || complexity == 2 {
        r.push(block("learn", 20));
        r.push(block("build", 60));
        r.push(block("quiz", 10));
    } else if complexity == 3 {
        r.push(block("learn", 30));
        r.push(block("build", 90));
        r.push(block("rebuild", 20));
        r.push(block("quiz", 10));
    } else if complexity == 4 || complexity == 5 {
        r.push(block("learn", 30));
        r.push(block("build", 120));
        r.push(block("debug", 30));
        r.push(block("rebuild", 30));
        r.push(block("quiz", 20));
    } else {
        r.push(block("learn", 30));
        r.push(block("build", 90));
        r.push(block("quiz", 10));
    }
    assert(focus_block_views(r@) =~= spec_default_focus_blocks(complexity));
    r
}

} // verus!
