use buildops40::db::models::import::{AiAnalysisResponse, AiModuleResponse};
use buildops40::services::ai_analyzer::{
    analysis_request, backoff_seconds, chunk_summary, get_system_prompt, merge_prompt,
    strip_code_fences, Directive, Orchestration, Phase, RequestOutcome, MAX_RETRIES, MAX_TOKENS,
    SYSTEM_PROMPT, TEMPERATURE_TENTHS,
};

fn run(chunk_count: usize, outcomes: &[RequestOutcome]) -> (Orchestration, Vec<Directive>) {
    let (mut state, first) = Orchestration::begin(chunk_count, MAX_RETRIES);
    let mut directives = vec![first];
    for outcome in outcomes {
        directives.push(state.advance(*outcome));
    }
    (state, directives)
}

#[test]
fn strip_code_fences_leaves_plain_json() {
    assert_eq!(strip_code_fences("{\"a\": 1}"), "{\"a\": 1}");
    assert_eq!(strip_code_fences("  \n{\"a\": 1}\n  "), "{\"a\": 1}");
    assert_eq!(strip_code_fences(""), "");
}

#[test]
fn strip_code_fences_takes_json_out_of_a_tagged_fence() {
    assert_eq!(strip_code_fences("```json\n{\"a\": 1}\n```"), "{\"a\": 1}");
    assert_eq!(strip_code_fences("\n```json{\"a\": 1}```\n"), "{\"a\": 1}");
    assert_eq!(strip_code_fences("```json\n\n```"), "");
}

#[test]
fn strip_code_fences_takes_json_out_of_a_bare_fence() {
    assert_eq!(strip_code_fences("```\n{\"a\": 1}\n```"), "{\"a\": 1}");
    assert_eq!(strip_code_fences("```js\n{}\n```"), "js\n{}");
    assert_eq!(strip_code_fences("``````"), "");
}

#[test]
fn strip_code_fences_leaves_an_unclosed_fence() {
    assert_eq!(strip_code_fences("```json\n{\"a\": 1}"), "```json\n{\"a\": 1}");
    assert_eq!(strip_code_fences(" ```\n{} "), "```\n{}");
    assert_eq!(strip_code_fences("```"), "```");
    assert_eq!(strip_code_fences("```json"), "```json");
    assert_eq!(strip_code_fences("```json``"), "```json``");
}

#[test]
fn analysis_request_leads_with_the_instruction() {
    assert_eq!(
        analysis_request("CONTENT"),
        "Analyze this curriculum content and generate a structured learning plan:\n\nCONTENT"
    );
}

#[test]
fn system_prompt_defines_the_schema() {
    let prompt = get_system_prompt();
    assert_eq!(prompt, SYSTEM_PROMPT);
    assert!(prompt.starts_with("You are a curriculum architect."));
    for field in [
        "\"program_title\"",
        "\"modules\"",
        "\"days\"",
        "\"checklist_items\"",
        "\"quiz_questions\"",
        "\"concept_tags\"",
        "\"dependencies\"",
        "\"depends_on_day_number\"",
    ] {
        assert!(prompt.contains(field), "{}", field);
    }
    assert!(prompt.ends_with("Respond with ONLY the JSON object. No markdown fences, no preamble."));
    assert_eq!(MAX_TOKENS, 8192);
    assert_eq!(TEMPERATURE_TENTHS, 3);
}

#[test]
fn chunk_summary_sums_up_a_result() {
    let result = AiAnalysisResponse {
        program_title: "Rust in 40 days".to_string(),
        program_description: String::new(),
        estimated_total_days: 40,
        modules: vec![
            AiModuleResponse {
                title: "A".to_string(),
                description: String::new(),
                order_index: 0,
                color: String::new(),
                days: vec![],
            },
            AiModuleResponse {
                title: "B".to_string(),
                description: String::new(),
                order_index: 1,
                color: String::new(),
                days: vec![],
            },
        ],
    };
    assert_eq!(chunk_summary(3, &result), "Chunk 3: Rust in 40 days (40  days, 2 modules)");
}

#[test]
fn merge_prompt_lists_summaries_and_results() {
    let summaries = vec!["Chunk 1: A".to_string(), "Chunk 2: B".to_string()];
    assert_eq!(
        merge_prompt(&summaries, "[{}]"),
        "Given these separately analyzed curriculum sections, produce a unified program. \
         Deduplicate overlapping content, ensure day numbering is sequential, \
         resolve cross-chunk dependencies, and ensure logical module grouping.\n\n\
         Summaries:\nChunk 1: A\nChunk 2: B\n\nFull results:\n[{}]"
    );
    assert!(merge_prompt(&vec![], "x").ends_with("Summaries:\n\n\nFull results:\nx"));
}

#[test]
fn backoff_seconds_doubles_with_each_attempt() {
    assert_eq!(backoff_seconds(0), 1);
    assert_eq!(backoff_seconds(1), 2);
    assert_eq!(backoff_seconds(2), 4);
    assert_eq!(backoff_seconds(3), 8);
    assert_eq!(backoff_seconds(10), 1024);
    assert_eq!(backoff_seconds(63), 1u64 << 63);
    assert_eq!(backoff_seconds(64), u64::MAX);
    assert_eq!(backoff_seconds(u32::MAX), u64::MAX);
}

#[test]
fn a_single_chunk_is_finished_with_its_answer() {
    let (state, directives) = run(1, &[RequestOutcome::Answered]);
    assert_eq!(directives, vec![Directive::AnalyzeChunk { chunk: 0 }, Directive::Finish]);
    assert_eq!(state.phase, Phase::Finished);
}

#[test]
fn several_chunks_are_analyzed_in_order_and_then_merged() {
    let answered = [RequestOutcome::Answered; 4];
    let (state, directives) = run(3, &answered);
    assert_eq!(
        directives,
        vec![
            Directive::AnalyzeChunk { chunk: 0 },
            Directive::AnalyzeChunk { chunk: 1 },
            Directive::AnalyzeChunk { chunk: 2 },
            Directive::Merge,
            Directive::Finish,
        ]
    );
    assert_eq!(state.phase, Phase::Finished);
}

#[test]
fn a_failed_request_is_retried_with_growing_delay() {
    let (state, directives) = run(
        2,
        &[
            RequestOutcome::Failed,
            RequestOutcome::Failed,
            RequestOutcome::Answered,
            RequestOutcome::Failed,
            RequestOutcome::Answered,
            RequestOutcome::Answered,
        ],
    );
    assert_eq!(
        directives,
        vec![
            Directive::AnalyzeChunk { chunk: 0 },
            Directive::Retry { delay_seconds: 2 },
            Directive::Retry { delay_seconds: 4 },
            Directive::AnalyzeChunk { chunk: 1 },
            Directive::Retry { delay_seconds: 2 },
            Directive::Merge,
            Directive::Finish,
        ]
    );
    assert_eq!(state.phase, Phase::Finished);
}

#[test]
fn three_failures_of_one_request_abort_the_analysis() {
    let (state, directives) = run(
        3,
        &[
            RequestOutcome::Answered,
            RequestOutcome::Failed,
            RequestOutcome::Failed,
            RequestOutcome::Failed,
            RequestOutcome::Answered,
        ],
    );
    assert_eq!(
        directives,
        vec![
            Directive::AnalyzeChunk { chunk: 0 },
            Directive::AnalyzeChunk { chunk: 1 },
            Directive::Retry { delay_seconds: 2 },
            Directive::Retry { delay_seconds: 4 },
            Directive::Abort,
            Directive::Abort,
        ]
    );
    assert_eq!(state.phase, Phase::Aborted);
}

#[test]
fn a_failed_merge_aborts_the_analysis() {
    let (state, directives) = run(
        2,
        &[
            RequestOutcome::Answered,
            RequestOutcome::Answered,
            RequestOutcome::Failed,
            RequestOutcome::Failed,
            RequestOutcome::Failed,
        ],
    );
    assert_eq!(directives.last(), Some(&Directive::Abort));
    assert_eq!(state.phase, Phase::Aborted);
}

#[test]
fn a_document_without_chunks_goes_straight_to_the_merge() {
    let (state, directives) = run(0, &[RequestOutcome::Answered]);
    assert_eq!(directives, vec![Directive::Merge, Directive::Finish]);
    assert_eq!(state.phase, Phase::Finished);
}

#[test]
fn a_cancelled_analysis_is_aborted() {
    let (mut state, _) = Orchestration::begin(3, MAX_RETRIES);
    assert_eq!(state.advance(RequestOutcome::Answered), Directive::AnalyzeChunk { chunk: 1 });
    assert_eq!(state.cancel(), Directive::Abort);
    assert_eq!(state.phase, Phase::Aborted);
    assert_eq!(state.advance(RequestOutcome::Answered), Directive::Abort);
    let (mut done, _) = Orchestration::begin(1, MAX_RETRIES);
    done.advance(RequestOutcome::Answered);
    assert_eq!(done.cancel(), Directive::Finish);
    assert_eq!(done.phase, Phase::Finished);
}
