//! The scheduling rules of spaced repetition and of streaks.

use vstd::prelude::*;

verus! {

/// The recall quality, 0 to 5, for a score.
pub open spec fn spec_map_score_to_quality(score: i32) -> i32 {
    if 0 <= score <= 49 {
        0
    } else if 50 <= score <= 59 {
        1
    } else if 60 <= score <= 69 {
        2
    } else if 70 <= score <= 79 {
        3
    } else if 80 <= score <= 89 {
        4
    } else {
        5
    }
}

/// Maps a score to a recall quality from 0 to 5. A score outside 0 to 89,
/// a negative one included, has quality 5.
pub fn map_score_to_quality(score: i32) -> (r: i32)
    ensures
        r == spec_map_score_to_quality(score),
        0 <= r <= 5,
{
    if 0 <= score && score <= 49 {
        0
    } else if 50 <= score && score <= 59 {
        1
    } else if 60 <= score && score <= 69 {
        2
    } else if 70 <= score && score <= 79 {
        3
    } else if 80 <= score && score <= 89 {
        4
    } else {
        5
    }
}

/// Two and a half times `interval`, rounded towards zero, kept within `i32`.
pub open spec fn spec_stretch(interval: i32) -> i32 {
    let scaled = if interval >= 0 {
        interval * 5 / 2
    } else {
        -((-interval) * 5 / 2)
    };
    if scaled > i32::MAX {
        i32::MAX
    } else if scaled < i32::MIN {
        i32::MIN
    } else {
        scaled as i32
    }
}

/// The days until the next review: 1 after a recall of quality below 3 and
/// for the first repetition, 6 for the second, and after that two and a half
/// times the interval before.
pub open spec fn spec_calculate_interval(current_interval: i32, repetition_count: i32, quality: i32) -> i32 {
    if quality < 3 {
        1
    } else if repetition_count == 0 {
        1
    } else if repetition_count == 1 {
        6
    } else {
        spec_stretch(current_interval)
    }
}

/// The days until the next review.
pub fn calculate_interval(current_interval: i32, repetition_count: i32, quality: i32) -> (r: i32)
    ensures
        r == spec_calculate_interval(current_interval, repetition_count, quality),
{
    if quality < 3 {
        1
    } else if repetition_count == 0 {
        1
    } else if repetition_count == 1 {
        6
    } else {
        let wide: i64 = current_interval as i64;
        let scaled: i64 = wide * 5 / 2;
        if scaled > i32::MAX as i64 {
            i32::MAX
        } else if scaled < i32::MIN as i64 {
            i32::MIN
        } else {
            scaled as i32
        }
    }
}

/// The number of repetitions after a review: one more after a recall of
/// quality 3 or better, none after a worse one. The count stays at the
/// greatest value once it is reached.
pub fn next_repetition_count(repetition_count: i32, quality: i32) -> (r: i32)
    ensures
        r == if quality < 3 {
            0
        } else if repetition_count < i32::MAX {
            repetition_count + 1
        } else {
            repetition_count as int
        },
{
    if quality < 3 {
        0
    } else if repetition_count < i32::MAX {
        repetition_count + 1
    } else {
        repetition_count
    }
}

/// The streak after activity `days_since_last` days after the last one: the
/// same on the same day, one more on the next day, and 1 after a gap. The
/// streak stays at the greatest value once it is reached.
pub open spec fn spec_next_streak(current_streak: i32, days_since_last: i64) -> i32 {
    if days_since_last == 0 {
        current_streak
    } else if days_since_last == 1 {
        if current_streak < i32::MAX {
            (current_streak + 1) as i32
        } else {
            current_streak
        }
    } else {
        1
    }
}

/// The current and the longest streak after activity `days_since_last` days
/// after the last one.
pub fn update_streak_counts(current_streak: i32, longest_streak: i32, days_since_last: i64) -> (r: (
    i32,
    i32,
))
    ensures
        r.0 == spec_next_streak(current_streak, days_since_last),
        r.1 == if r.0 > longest_streak {
            r.0
        } else {
            longest_streak
        },
{
    let next = if days_since_last == 0 {
        current_streak
    } else if days_since_last == 1 {
        if current_streak < i32::MAX {
            current_streak + 1
        } else {
            current_streak
        }
    } else {
        1
    };
    let longest = if next > longest_streak {
        next
    } else {
        longest_streak
    };
    (next, longest)
}

} // verus!
