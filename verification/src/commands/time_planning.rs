//! The wording of planned sessions.

use vstd::prelude::*;
use vstd::string::StringExecFns;
use crate::text::{chars_of, parse_i32, spec_parse_i32, str_eq};

verus! {

/// What a session of the given kind is for.
pub open spec fn spec_session_description(session_type: Seq<char>) -> Seq<char> {
    if session_type == "learn"@ {
        "Review concepts and documentation"@
    } else if session_type == "build"@ {
        "Implement core features"@
    } else if session_type == "debug"@ {
        "Debug and fix issues"@
    } else if session_type == "rebuild"@ {
        "Memory rebuild from scratch"@
    } else if session_type == "quiz"@ {
        "Quiz and reflection"@
    } else if session_type == "review"@ {
        "Review and refactor"@
    } else {
        "Work session"@
    }
}

/// Says in a few words what a session of the given kind is for.
pub fn get_session_description(session_type: &str) -> (r: String)
    ensures
        r@ == spec_session_description(session_type@),
{
    if str_eq(session_type, "learn") {
        String::from_str("Review concepts and documentation")
    } else if str_eq(session_type, "build") {
        String::from_str("Implement core features")
    } else if str_eq(session_type, "debug") {
        String::from_str("Debug and fix issues")
    } else if str_eq(session_type, "rebuild") {
        String::from_str("Memory rebuild from scratch")
    } else if str_eq(session_type, "quiz") {
        String::from_str("Quiz and reflection")
    } else if str_eq(session_type, "review") {
        String::from_str("Review and refactor")
    } else {
        String::from_str("Work session")
    }
}

/// The position of the first occurrence of `c` in `s`, or `s.len()` where
/// there is none.
pub open spec fn first_index_of(s: Seq<char>, c: char) -> int
    decreases s.len(),
{
    if s.len() == 0 || s[0] == c {
        0
    } else {
        1 + first_index_of(s.drop_first(), c)
    }
}

/// `s` holds `c`.
pub open spec fn holds(s: Seq<char>, c: char) -> bool {
    exists|i: int| 0 <= i < s.len() && s[i] == c
}

/// `parsed`, or `default` where there is none.
pub open spec fn value_or(parsed: Option<i32>, default: i32) -> i32 {
    match parsed {
        Some(v) => v,
        None => default,
    }
}

/// The minutes of work and of break that a pattern such as `50/10` asks for:
/// where the pattern has exactly one slash, the number before it, or 50 where
/// that is no number, and the number after it, or 10; else 50 and 10.
pub open spec fn spec_parse_break_pattern(pattern: Seq<char>) -> (i32, i32) {
    let at = first_index_of(pattern, '/');
    if 0 <= at < pattern.len() && !holds(pattern.skip(at + 1), '/') {
        (
            value_or(spec_parse_i32(pattern.take(at)), 50),
            value_or(spec_parse_i32(pattern.skip(at + 1)), 10),
        )
    } else {
        (50, 10)
    }
}

/// `first_index_of` is the least position that holds `c`.
pub proof fn lemma_first_index_of(s: Seq<char>, c: char, k: int)
    requires
        0 <= k <= s.len(),
        forall|i: int| 0 <= i < k ==> s[i] != c,
        k < s.len() ==> s[k] == c,
    ensures
        first_index_of(s, c) == k,
    decreases k,
{
    if k > 0 {
        lemma_first_index_of(s.drop_first(), c, k - 1);
    }
}

/// Reads a break pattern: the minutes of work and of break, 50 and 10 where
/// the pattern does not give them.
pub fn parse_break_pattern(pattern: &str) -> (r: (i32, i32))
    ensures
        r == spec_parse_break_pattern(pattern@),
{
    let p = chars_of(pattern);
    let mut at: usize = 0;
    while at < p.len() && p[at] != '/'
        invariant
            at <= p.len(),
            forall|i: int| 0 <= i < at ==> p@[i] != '/',
        decreases p.len() - at,
    {
        at += 1;
    }
    proof {
        lemma_first_index_of(p@, '/', at as int);
    }
    if at == p.len() {
        return (50, 10);
    }
    let mut work: Vec<char> = Vec::new();
    let mut i: usize = 0;
    while i < at
        invariant
            i <= at < p.len(),
            work@ == p@.take(i as int),
        decreases at - i,
    {
        work.push(p[i]);
        assert(work@ =~= p@.take(i + 1));
        i += 1;
    }
    let mut rest: Vec<char> = Vec::new();
    i = at + 1;
    let ghost tail = p@.skip(at + 1);
    while i < p.len()
        invariant
            at < i <= p.len(),
            p@ == pattern@,
            first_index_of(p@, '/') == at,
            tail == p@.skip(at + 1),
            rest@ == tail.take(i - at - 1),
            forall|k: int| 0 <= k < i - at - 1 ==> tail[k] != '/',
        decreases p.len() - i,
    {
        if p[i] == '/' {
            assert(tail[i - at - 1] == '/');
            return (50, 10);
        }
        rest.push(p[i]);
        assert(rest@ =~= tail.take(i - at));
        i += 1;
    }
    assert(tail.take(tail.len() as int) == tail);
    let work_minutes = match parse_i32(&work) {
        Some(v) => v,
        None => 50,
    };
    let break_minutes = match parse_i32(&rest) {
        Some(v) => v,
        None => 10,
    };
    (work_minutes, break_minutes)
}

} // verus!
