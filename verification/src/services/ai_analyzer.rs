//! The decisions of the analysis stage: what is sent to the generative
//! service, how its answer is cleaned up, and when a request is tried again.

use vstd::prelude::*;
use vstd::arithmetic::power2::{
    lemma2_to64, lemma2_to64_rest, lemma_pow2_pos, lemma_pow2_strictly_increases, lemma_pow2_unfold,
    pow2,
};
use vstd::string::StringExecFns;
use crate::db::models::import::AiAnalysisResponse;
use crate::text::{
    chars_of, decimal_i64, decimal_usize, ends_with_str, spec_decimal, spec_ends_with,
    spec_starts_with, spec_trim, starts_with_str, string_of_range, string_views, trim, trim_bounds,
};

verus! {

/// The credentials of the generative service and the model to ask.
#[derive(Debug, Clone)]
pub struct AiConfig {
    pub api_key: String,
    pub model: String,
}

/// Where completion requests are sent.
pub const ANTHROPIC_API_URL: &'static str = "https://api.anthropic.com/v1/messages";

/// The version of the service's protocol.
pub const ANTHROPIC_VERSION: &'static str = "2023-06-01";

/// The token ceiling of an answer.
pub const MAX_TOKENS: usize = 8192;

/// The decoding temperature, in tenths.
pub const TEMPERATURE_TENTHS: u32 = 3;

/// The number of times a request is tried at most.
pub const MAX_RETRIES: u32 = 3;

/// The number of seconds a request may take.
pub const REQUEST_TIMEOUT_SECONDS: u64 = 300;

/// The system instructions of every request: the role, the JSON schema of
/// the answer, and the rules for its content.
pub const SYSTEM_PROMPT: &'static str = "You are a curriculum architect. Given educational content, you produce a structured learning plan as JSON.\n\
    \n\
    Analyze the provided content and generate a complete learning program with the following structure:\n\
    \n\
    {\n  \
    \"program_title\": \"string\",\n  \
    \"program_description\": \"string\",\n  \
    \"estimated_total_days\": number,\n  \
    \"modules\": [\n    \
    {\n      \
    \"title\": \"string\",\n      \
    \"description\": \"string\",\n      \
    \"order_index\": number,\n      \
    \"color\": \"hex string\",\n      \
    \"days\": [\n        \
    {\n          \
    \"day_number\": number,\n          \
    \"title\": \"string — specific and actionable\",\n          \
    \"syntax_targets\": \"markdown — exact syntax/concepts to master\",\n          \
    \"implementation_brief\": \"markdown — what to build, specific deliverables\",\n          \
    \"files_to_create\": \"markdown — list of files the learner should create\",\n          \
    \"success_criteria\": \"markdown — measurable criteria for completion\",\n          \
    \"stretch_challenge\": \"markdown — optional advanced extension\",\n          \
    \"notes\": \"markdown — tips, gotchas, references\",\n          \
    \"estimated_minutes\": number,\n          \
    \"memory_rebuild_minutes\": number,\n          \
    \"checklist_items\": [\n            \
    { \"label\": \"string — specific task\", \"is_required\": boolean }\n          \
    ],\n          \
    \"quiz_questions\": [\n            \
    {\n              \
    \"question_text\": \"string\",\n              \
    \"question_type\": \"short_answer | multiple_choice | code_prompt | reflection\",\n              \
    \"correct_answer\": \"string\",\n              \
    \"options\": [\"string\"] | [],\n              \
    \"points\": number,\n              \
    \"time_limit_seconds\": number\n            \
    }\n          \
    ],\n          \
    \"concept_tags\": [\n            \
    { \"name\": \"string\", \"domain\": \"string\" }\n          \
    ],\n          \
    \"dependencies\": [\n            \
    { \"depends_on_day_number\": number, \"type\": \"prerequisite | recommended\", \"minimum_score\": number }\n          \
    ]\n        \
    }\n      \
    ]\n    \
    }\n  \
    ]\n\
    }\n\
    \n\
    Rules:\n\
    - Each day should take 45-120 minutes for a focused learner.\n\
    - Day titles must be specific (not \"Learn CSS\" but \"CSS Grid Layout + Template Areas\").\n\
    - Syntax targets must include exact code patterns the learner should memorize.\n\
    - Implementation briefs must describe a concrete build output, not vague exercises.\n\
    - Every day gets 3-8 checklist items that are individually verifiable.\n\
    - Every day gets 2-5 quiz questions covering the day's core concepts.\n\
    - Concept tags use granular names (not \"CSS\" but \"$state rune\", \"grid-template-columns\", \"async/await\").\n\
    - Dependencies should be set when a day requires knowledge from an earlier day.\n\
    - Group days into logical modules (5-10 days each).\n\
    - Assign module colors from this palette: #6366F1, #EC4899, #F59E0B, #22C55E, #3B82F6, #A855F7, #EF4444, #14B8A6.\n\
    - Stretch challenges should be genuinely harder, not just \"do more of the same\".\n\
    - Quiz questions should test understanding, not just recall.\n\
    - Respond with ONLY the JSON object. No markdown fences, no preamble.";

/// The system instructions of every request.
pub fn get_system_prompt() -> (r: String)
    ensures
        r@ == SYSTEM_PROMPT@,
{
    String::from_str(SYSTEM_PROMPT)
}

/// The text before the content in the request for one chunk.
pub open spec fn analysis_request_lead() -> Seq<char> {
    "Analyze this curriculum content and generate a structured learning plan:\n\n"@
}

/// The user message that asks for the analysis of `content`.
pub fn analysis_request(content: &str) -> (r: String)
    ensures
        r@ == analysis_request_lead() + content@,
{
    let mut r = String::from_str(
        "Analyze this curriculum content and generate a structured learning plan:\n\n",
    );
    r.append(content);
    r
}

/// `t` without the fence that opens with `opening` and closes with three
/// backticks, trimmed; `t` itself where it does not close with three
/// backticks after the opening.
pub open spec fn without_fence(t: Seq<char>, opening: Seq<char>) -> Seq<char> {
    let rest = t.skip(opening.len() as int);
    if spec_ends_with(rest, "```"@) {
        spec_trim(rest.take(rest.len() - 3))
    } else {
        t
    }
}

/// The JSON text of an answer: the answer trimmed, and where it is fenced by
/// three backticks, with or without the tag `json`, what stands inside the
/// fence, trimmed.
pub open spec fn spec_strip_code_fences(text: Seq<char>) -> Seq<char> {
    let t = spec_trim(text);
    if spec_starts_with(t, "```json"@) {
        without_fence(t, "```json"@)
    } else if spec_starts_with(t, "```"@) {
        without_fence(t, "```"@)
    } else {
        t
    }
}

/// The part of `t` after its first `opening` characters, without the closing
/// fence and trimmed; `t` where the rest does not end with the closing fence.
fn strip_fence(t: &Vec<char>, opening: usize) -> (r: String)
    requires
        opening <= t.len(),
    ensures
        r@ == without_fence(t@, t@.take(opening as int)),
{
    proof {
        reveal_strlit("```");
    }
    let mut rest: Vec<char> = Vec::new();
    let mut i: usize = opening;
    while i < t.len()
        invariant
            opening <= i <= t.len(),
            rest@ == t@.subrange(opening as int, i as int),
        decreases t.len() - i,
    {
        rest.push(t[i]);
        i += 1;
    }
    assert(rest@ == t@.skip(opening as int));
    if ends_with_str(&rest, "```") {
        let mut inner: Vec<char> = Vec::new();
        let mut k: usize = 0;
        let n = rest.len() - 3;
        while k < n
            invariant
                k <= n,
                n + 3 == rest.len(),
                inner@ == rest@.take(k as int),
            decreases n - k,
        {
            inner.push(rest[k]);
            assert(inner@ =~= rest@.take(k + 1));
            k += 1;
        }
        let (from, to) = trim_bounds(&inner);
        string_of_range(&inner, from, to)
    } else {
        let r = string_of_range(t, 0, t.len());
        assert(t@.subrange(0, t@.len() as int) == t@);
        r
    }
}

/// Takes the JSON text out of an answer of the service, which may be fenced
/// by three backticks with or without a language tag.
pub fn strip_code_fences(response_text: &str) -> (r: String)
    ensures
        r@ == spec_strip_code_fences(response_text@),
{
    let t = trim(&chars_of(response_text));
    proof {
        reveal_strlit("```json");
        reveal_strlit("```");
    }
    if starts_with_str(&t, "```json") {
        assert(t@.take(7) == "```json"@);
        strip_fence(&t, 7)
    } else if starts_with_str(&t, "```") {
        assert(t@.take(3) == "```"@);
        strip_fence(&t, 3)
    } else {
        let r = string_of_range(&t, 0, t.len());
        assert(t@.subrange(0, t@.len() as int) == t@);
        r
    }
}

/// The line that sums up the analysis of the chunk with the given number,
/// counted from 1.
pub open spec fn spec_chunk_summary(number: usize, result: AiAnalysisResponse) -> Seq<char> {
    "Chunk "@ + spec_decimal(number as int) + ": "@ + result.program_title@ + " ("@ + spec_decimal(
        result.estimated_total_days as int,
    ) + "  days, "@ + spec_decimal(result.modules@.len() as int) + " modules)"@
}

/// Sums up the analysis of one chunk in a line.
pub fn chunk_summary(number: usize, result: &AiAnalysisResponse) -> (r: String)
    ensures
        r@ == spec_chunk_summary(number, *result),
{
    let mut r = String::from_str("Chunk ");
    r.append(decimal_usize(number).as_str());
    r.append(": ");
    r.append(result.program_title.as_str());
    r.append(" (");
    r.append(decimal_i64(result.estimated_total_days).as_str());
    r.append("  days, ");
    r.append(decimal_usize(result.modules.len()).as_str());
    r.append(" modules)");
    r
}

/// The lines with a line feed between them.
pub open spec fn join_with_newlines(lines: Seq<Seq<char>>) -> Seq<char>
    decreases lines.len(),
{
    if lines.len() == 0 {
        Seq::empty()
    } else if lines.len() == 1 {
        lines[0]
    } else {
        join_with_newlines(lines.drop_last()) + "\n"@ + lines.last()
    }
}

/// The instruction that opens a merge request.
pub open spec fn merge_instruction() -> Seq<char> {
    "Given these separately analyzed curriculum sections, produce a unified program. \
        Deduplicate overlapping content, ensure day numbering is sequential, \
        resolve cross-chunk dependencies, and ensure logical module grouping.\n\nSummaries:\n"@
}

/// The user message of a merge request: the instruction, the summaries line
/// by line, and the serialized partial results.
pub open spec fn spec_merge_prompt(summaries: Seq<Seq<char>>, full_results: Seq<char>) -> Seq<char> {
    merge_instruction() + join_with_newlines(summaries) + "\n\nFull results:\n"@ + full_results
}

/// Builds the user message that asks the service to merge the analyses of
/// several chunks into one program.
pub fn merge_prompt(summaries: &Vec<String>, full_results: &str) -> (r: String)
    ensures
        r@ == spec_merge_prompt(string_views(summaries@), full_results@),
{
    let mut r = String::from_str(
        "Given these separately analyzed curriculum sections, produce a unified program. \
        Deduplicate overlapping content, ensure day numbering is sequential, \
        resolve cross-chunk dependencies, and ensure logical module grouping.\n\nSummaries:\n",
    );
    let ghost lead = r@;
    let ghost all = string_views(summaries@);
    let mut i: usize = 0;
    assert(all.take(0) =~= Seq::<Seq<char>>::empty());
    assert(lead + Seq::<char>::empty() =~= lead);
    while i < summaries.len()
        invariant
            i <= summaries.len(),
            all == string_views(summaries@),
            lead == merge_instruction(),
            r@ == lead + join_with_newlines(all.take(i as int)),
        decreases summaries.len() - i,
    {
        proof {
            assert(all.take(i + 1).drop_last() == all.take(i as int));
            assert(all.take(i + 1).last() == summaries@[i as int]@);
            if i == 0 {
                assert(all.take(1)[0] == summaries@[0]@);
            }
        }
        if i > 0 {
            r.append("\n");
        }
        r.append(summaries[i].as_str());
        assert(r@ =~= lead + join_with_newlines(all.take(i + 1)));
        i += 1;
    }
    assert(all.take(summaries@.len() as int) == all);
    r.append("\n\nFull results:\n");
    r.append(full_results);
    r
}

/// The seconds to wait after the failed attempt number `attempt`, counted from
/// 1: two to the power `attempt`, and `u64::MAX` from 64 on.
pub open spec fn spec_backoff_seconds(attempt: u32) -> u64 {
    if attempt < 64 {
        pow2(attempt as nat) as u64
    } else {
        u64::MAX
    }
}

/// Two to a power below 64 fits in 64 bits.
pub proof fn lemma_pow2_bound(n: nat)
    requires
        n < 64,
    ensures
        0 < pow2(n) <= 0x8000_0000_0000_0000,
{
    lemma_pow2_pos(n);
    lemma2_to64_rest();
    if n < 63 {
        lemma_pow2_strictly_increases(n, 63);
    }
}

/// The exponential backoff: the seconds to wait after the failed attempt
/// number `attempt`.
pub fn backoff_seconds(attempt: u32) -> (r: u64)
    ensures
        r == spec_backoff_seconds(attempt),
{
    if attempt >= 64 {
        return u64::MAX;
    }
    let mut r: u64 = 1;
    let mut i: u32 = 0;
    proof {
        lemma2_to64();
    }
    while i < attempt
        invariant
            i <= attempt < 64,
            r == pow2(i as nat),
        decreases attempt - i,
    {
        proof {
            lemma_pow2_bound((i + 1) as nat);
            lemma_pow2_unfold((i + 1) as nat);
        }
        r = r * 2;
        i += 1;
    }
    r
}

/// What became of a request: it was answered with an analysis that decodes,
/// or it failed in transport or in decoding.
#[derive(Debug, Clone, Copy, PartialEq, Eq, Structural)]
pub enum RequestOutcome {
    Answered,
    Failed,
}

/// Where the analysis of a chunked document stands.
#[derive(Debug, Clone, Copy, PartialEq, Eq, Structural)]
pub enum Phase {
    /// The chunk at this position is being analyzed.
    Analyzing { chunk: usize },
    /// The partial results are being merged.
    Merging,
    /// The answer to the last request is the analysis.
    Finished,
    /// A request failed for good; there is no analysis.
    Aborted,
}

/// What is to be done next.
#[derive(Debug, Clone, Copy, PartialEq, Eq, Structural)]
pub enum Directive {
    /// Send the request for the chunk at this position.
    AnalyzeChunk { chunk: usize },
    /// Send the merge request over the partial results.
    Merge,
    /// Wait this many seconds, then send the last request once more.
    Retry { delay_seconds: u64 },
    /// Take the last answer as the analysis.
    Finish,
    /// Fail the stage with an `ExternalService` error.
    Abort,
}

/// The progress of the analysis of one document.
#[derive(Debug, Clone, Copy, PartialEq, Eq, Structural)]
pub struct Orchestration {
    /// The number of chunks of the document.
    pub chunk_count: usize,
    /// The number of times a request is tried at most.
    pub max_attempts: u32,
    pub phase: Phase,
    /// The failed attempts of the current request.
    pub failures: u32,
}

/// The state a request is sent from next, and what is to be done, after the
/// current request had the given outcome.
pub open spec fn spec_advance(o: Orchestration, outcome: RequestOutcome) -> (Orchestration, Directive) {
    match o.phase {
        Phase::Finished => (o, Directive::Finish),
        Phase::Aborted => (o, Directive::Abort),
        _ => match outcome {
            RequestOutcome::Failed => if o.failures + 1 < o.max_attempts {
                (
                    Orchestration { failures: (o.failures + 1) as u32, ..o },
                    Directive::Retry {
                        delay_seconds: spec_backoff_seconds((o.failures + 1) as u32),
                    },
                )
            } else {
                (Orchestration { phase: Phase::Aborted, ..o }, Directive::Abort)
            },
            RequestOutcome::Answered => match o.phase {
                Phase::Analyzing { chunk } => if o.chunk_count == 1 {
                    (Orchestration { phase: Phase::Finished, failures: 0, ..o }, Directive::Finish)
                } else if chunk + 1 < o.chunk_count {
                    (
                        Orchestration {
                            phase: Phase::Analyzing { chunk: (chunk + 1) as usize },
                            failures: 0,
                            ..o
                        },
                        Directive::AnalyzeChunk { chunk: (chunk + 1) as usize },
                    )
                } else {
                    (Orchestration { phase: Phase::Merging, failures: 0, ..o }, Directive::Merge)
                },
                _ => (Orchestration { phase: Phase::Finished, failures: 0, ..o }, Directive::Finish),
            },
        },
    }
}

/// The state from which the first request is sent, and that request: the
/// first chunk, or the merge where there is no chunk.
pub open spec fn spec_begin(chunk_count: usize, max_attempts: u32) -> (Orchestration, Directive) {
    if chunk_count == 0 {
        (
            Orchestration { chunk_count, max_attempts, phase: Phase::Merging, failures: 0 },
            Directive::Merge,
        )
    } else {
        (
            Orchestration {
                chunk_count,
                max_attempts,
                phase: Phase::Analyzing { chunk: 0 },
                failures: 0,
            },
            Directive::AnalyzeChunk { chunk: 0 },
        )
    }
}

impl Orchestration {
    /// The state is one that `begin` and `advance` lead to.
    pub open spec fn well_formed(self) -> bool {
        &&& self.phase matches Phase::Analyzing { chunk } ==> chunk < self.chunk_count
        &&& (self.phase is Analyzing || self.phase is Merging) ==> self.failures < self.max_attempts
            || self.failures == 0
    }

    /// Begins the analysis of a document of `chunk_count` chunks, each request
    /// tried `max_attempts` times at most.
    pub fn begin(chunk_count: usize, max_attempts: u32) -> (r: (Orchestration, Directive))
        ensures
            r == spec_begin(chunk_count, max_attempts),
            r.0.well_formed(),
    {
        if chunk_count == 0 {
            (
                Orchestration { chunk_count, max_attempts, phase: Phase::Merging, failures: 0 },
                Directive::Merge,
            )
        } else {
            (
                Orchestration {
                    chunk_count,
                    max_attempts,
                    phase: Phase::Analyzing { chunk: 0 },
                    failures: 0,
                },
                Directive::AnalyzeChunk { chunk: 0 },
            )
        }
    }

    /// Takes in the outcome of the current request and says what to do next.
    ///
    /// A failed request is sent again after an exponentially growing delay
    /// until it has failed `max_attempts` times; then the analysis is aborted.
    /// Chunks are analyzed one after the other, in order; a document of one
    /// chunk is finished with the answer for that chunk, any other with the
    /// answer to the merge request that follows the last chunk.
    pub fn advance(&mut self, outcome: RequestOutcome) -> (d: Directive)
        ensures
            (*final(self), d) == spec_advance(*old(self), outcome),
            old(self).well_formed() ==> final(self).well_formed(),
    {
        match self.phase {
            Phase::Finished => Directive::Finish,
            Phase::Aborted => Directive::Abort,
            Phase::Merging => match outcome {
                RequestOutcome::Failed => self.failed(),
                RequestOutcome::Answered => {
                    self.phase = Phase::Finished;
                    self.failures = 0;
                    Directive::Finish
                },
            },
            Phase::Analyzing { chunk } => match outcome {
                RequestOutcome::Failed => self.failed(),
                RequestOutcome::Answered => {
                    self.failures = 0;
                    if self.chunk_count == 1 {
                        self.phase = Phase::Finished;
                        Directive::Finish
                    } else if chunk < usize::MAX && chunk + 1 < self.chunk_count {
                        self.phase = Phase::Analyzing { chunk: chunk + 1 };
                        Directive::AnalyzeChunk { chunk: chunk + 1 }
                    } else {
                        self.phase = Phase::Merging;
                        Directive::Merge
                    }
                },
            },
        }
    }

    /// Gives the analysis up between two requests, as when the job was
    /// cancelled: an analysis that is not finished is aborted.
    pub fn cancel(&mut self) -> (d: Directive)
        ensures
            old(self).phase is Finished ==> *final(self) == *old(self) && d is Finish,
            !(old(self).phase is Finished) ==> *final(self) == (Orchestration {
                phase: Phase::Aborted,
                ..*old(self)
            }) && d is Abort,
            old(self).well_formed() ==> final(self).well_formed(),
    {
        match self.phase {
            Phase::Finished => Directive::Finish,
            _ => {
                self.phase = Phase::Aborted;
                Directive::Abort
            },
        }
    }

    /// Records a failure of the current request.
    fn failed(&mut self) -> (d: Directive)
        requires
            old(self).phase is Analyzing || old(self).phase is Merging,
        ensures
            (*final(self), d) == spec_advance(*old(self), RequestOutcome::Failed),
            old(self).well_formed() ==> final(self).well_formed(),
    {
        if self.failures < u32::MAX && self.failures + 1 < self.max_attempts {
            self.failures = self.failures + 1;
            Directive::Retry { delay_seconds: backoff_seconds(self.failures) }
        } else {
            self.phase = Phase::Aborted;
            Directive::Abort
        }
    }
}

/// The requests that may still be sent from the state `o`: a measure that
/// every step lowers, so that the analysis comes to an end.
pub open spec fn requests_left(o: Orchestration) -> int {
    let per_request = if o.max_attempts == 0 {
        1int
    } else {
        o.max_attempts as int
    };
    match o.phase {
        Phase::Analyzing { chunk } => (o.chunk_count - chunk + 1) * per_request - o.failures,
        Phase::Merging => per_request - o.failures,
        Phase::Finished => 0,
        Phase::Aborted => 0,
    }
}

/// Every step on the way lowers the number of requests that may still be
/// sent: the analysis ends after at most `max_attempts` requests for each
/// chunk and for the merge.
pub proof fn lemma_advance_terminates(o: Orchestration, outcome: RequestOutcome)
    requires
        o.well_formed(),
        o.phase is Analyzing || o.phase is Merging,
    ensures
        0 <= requests_left(spec_advance(o, outcome).0) < requests_left(o),
{
    let per_request = if o.max_attempts == 0 {
        1int
    } else {
        o.max_attempts as int
    };
    match o.phase {
        Phase::Analyzing { chunk } => {
            assert((o.chunk_count - chunk + 1) * per_request == (o.chunk_count - chunk)
                * per_request + per_request) by (nonlinear_arith);
            assert((o.chunk_count - chunk) * per_request >= per_request) by (nonlinear_arith)
                requires
                    o.chunk_count - chunk >= 1,
                    per_request >= 1,
            ;
            if chunk + 1 < o.chunk_count {
                assert((o.chunk_count - (chunk + 1) + 1) * per_request == (o.chunk_count - chunk)
                    * per_request) by (nonlinear_arith);
            }
        },
        _ => {},
    }
}

/// There is no partial success: once a request has failed for good the
/// analysis stays aborted, whatever comes after, and a finished analysis stays
/// finished.
pub proof fn lemma_end_is_final(o: Orchestration, outcome: RequestOutcome)
    ensures
        o.phase is Aborted ==> spec_advance(o, outcome) == (o, Directive::Abort),
        o.phase is Finished ==> spec_advance(o, outcome) == (o, Directive::Finish),
{
}

/// A request is given up exactly when it has failed `max_attempts` times, and
/// the analysis is then aborted whatever chunks were answered before.
pub proof fn lemma_abort_exactly_at_ceiling(o: Orchestration, outcome: RequestOutcome)
    requires
        o.phase is Analyzing || o.phase is Merging,
    ensures
        spec_advance(o, outcome).0.phase is Aborted <==> (outcome is Failed && o.failures + 1
            >= o.max_attempts),
        spec_advance(o, outcome).1 is Abort <==> spec_advance(o, outcome).0.phase is Aborted,
{
}

/// Chunks are analyzed in order: an answered chunk is followed by the next
/// chunk, by the merge after the last one, or, where the document is a single
/// chunk, by the end.
pub proof fn lemma_chunks_in_order(o: Orchestration, chunk: usize)
    requires
        o.well_formed(),
        o.phase == (Phase::Analyzing { chunk }),
    ensures
        ({
            let next = spec_advance(o, RequestOutcome::Answered);
            if o.chunk_count == 1 {
                next.1 is Finish
            } else if chunk + 1 < o.chunk_count {
                next.1 == (Directive::AnalyzeChunk { chunk: (chunk + 1) as usize })
            } else {
                next.1 is Merge
            }
        }),
{
}

} // verus!
