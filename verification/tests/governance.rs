use phi::features::governance::loop_guard::reasoning::ReasoningMemory;
use phi::features::governance::auto_compact::{AutoCompactPolicy, CompactDecision};
use phi::features::governance::loop_guard::similarity::{ngram_windows, normalize, NgramFingerprint};
use phi::features::governance::loop_guard::{
    DeltaBinding, LoopDetection, LoopGuardIntervention, LoopGuardPolicy, RejectionCarry,
};
use phi::features::governance::model_retry::{ModelRetryPolicy, RetryIntervention};
use phi::features::governance::step_budget::StepBudgetPolicy;
use phi::features::governance::tool_limits::ToolRuntimePolicy;
use phi::executor::limits::ToolOutputLimits;
use phi::text::approx_token_count;

#[test]
fn uses_eighty_percent_of_context_window() {
    assert_eq!(AutoCompactPolicy::new(100).threshold_tokens, 80);
    assert_eq!(AutoCompactPolicy::new(100).precheck_threshold_tokens(), 60);
}

#[test]
fn rough_precheck_leaves_obviously_small_histories_alone() {
    let policy = AutoCompactPolicy::with_threshold(100);
    assert!(approx_token_count("hello") < policy.precheck_threshold_tokens());
}

#[test]
fn auto_compact_measures_then_compacts_large_clean_requests() {
    let policy = AutoCompactPolicy::new(100);
    assert!(policy.first_look(true, false, None, 59, 0) == CompactDecision::Pass);
    assert!(policy.first_look(true, false, None, 50, 10) == CompactDecision::Measure);
    assert!(policy.first_look(true, true, None, 500, 0) == CompactDecision::Pass);
    assert!(policy.first_look(true, false, Some(1), 500, 0) == CompactDecision::Pass);
    assert!(policy.first_look(false, false, None, 500, 0) == CompactDecision::Pass);
    assert!(policy.after_measure(79, 0) == CompactDecision::Pass);
    assert!(policy.after_measure(70, 10) == CompactDecision::Compact);
}

#[test]
fn fingerprint_caches_normalized_character_count() {
    let fingerprint = NgramFingerprint::new("  A  123  B  ", 4);

    assert_eq!(fingerprint.normalized_char_count(), "a <num> b".len());
}

#[test]
fn normalization_ignores_whitespace_case_and_number_changes() {
    let left = NgramFingerprint::new("Check FILE 123, then inspect result 456.", 4);
    let right = NgramFingerprint::new("check   file 999, then inspect result 1000.", 4);

    assert_eq!(normalize("Check FILE 123, then inspect result 456."), normalize("check   file 999, then inspect result 1000."));
    assert_eq!(left.intersection_count(&right), left.ngram_count());
    assert_eq!(left.ngram_count(), right.ngram_count());
}

#[test]
fn short_text_has_no_ngrams() {
    assert_eq!(NgramFingerprint::new("abc", 4).ngram_count(), 0);
    assert_eq!(NgramFingerprint::new("abcdef", 0).ngram_count(), 0);
}

#[test]
fn step_budget_ends_the_turn_at_the_limit() {
    let policy = StepBudgetPolicy::new(2);
    assert!(policy.ends_turn(true, 2));
    assert!(!policy.ends_turn(true, 1));
    assert!(!policy.ends_turn(false, 5));
    assert_eq!(policy.turn_end_detail(), "max steps reached: 2");
}

#[test]
fn tool_runtime_limits_replace_the_default_for_named_tools() {
    let policy = ToolRuntimePolicy::builder()
        .tool_limits("bash_job".to_string(), ToolOutputLimits::new(10_000))
        .build();
    let mut limits = ToolOutputLimits::new(1_000);
    policy.apply_to("bash_job", &mut limits);
    assert!(limits == ToolOutputLimits::new(10_000));
    let mut other = ToolOutputLimits::new(1_000);
    policy.apply_to("job_close", &mut other);
    assert!(other == ToolOutputLimits::new(1_000));
}

#[test]
fn model_retry_counts_attempts_until_the_budget_is_spent() {
    let policy = ModelRetryPolicy::new(2);
    let first = policy.retry_state(None, true, true);
    assert!(matches!(policy.intervention(&first), RetryIntervention::Retry { next_attempt: 1 }));
    let second = policy.retry_state(Some(1), true, true);
    assert!(matches!(policy.intervention(&second), RetryIntervention::Retry { next_attempt: 2 }));
    let third = policy.retry_state(Some(2), true, true);
    assert!(matches!(policy.intervention(&third), RetryIntervention::Exhausted));
    let clean = policy.retry_state(Some(2), false, true);
    assert!(matches!(policy.intervention(&clean), RetryIntervention::Pass));
}

#[test]
fn loop_guard_counts_rejections_until_the_budget_is_spent() {
    let policy = LoopGuardPolicy::new(4, 3);
    let probe = policy.probe(Some(1), true, true);
    assert!(matches!(policy.intervention(&probe), LoopGuardIntervention::Retry { rejected_attempts: 2 }));
    let probe = policy.probe(Some(3), true, true);
    assert!(matches!(policy.intervention(&probe), LoopGuardIntervention::Exhausted));
    assert_eq!(
        policy.exhausted_warning(),
        "loop guard budget exhausted after 3 rejections; resuming with a clean completion request"
    );
    assert!(matches!(LoopGuardPolicy::carry(true, DeltaBinding::Missing, Some(2), true), RejectionCarry::Bind(2)));
    assert!(matches!(LoopGuardPolicy::carry(true, DeltaBinding::Missing, Some(2), false), RejectionCarry::Unbind));
    assert!(matches!(LoopGuardPolicy::carry(true, DeltaBinding::Value, Some(2), false), RejectionCarry::Keep));
    let detection = LoopDetection { detector: "reasoning".to_string(), detail: "same again".to_string() };
    assert_eq!(LoopGuardPolicy::rejection_detail(&detection), "loop detected by reasoning: same again");
}

use phi::error::PhiAgentRuntimeError;
use phi::features::governance::loop_guard::is_loop_guard_failed_step;
use phi::features::governance::loop_guard::reasoning::reasoning_text;
use phi::features::governance::model_retry::is_model_retry_failed_step;

#[test]
fn provider_failures_are_retryable() {
    let request: PhiAgentRuntimeError<String> = PhiAgentRuntimeError::provider_request("down".to_string());
    let response: PhiAgentRuntimeError<String> = PhiAgentRuntimeError::provider_response("bad".to_string());
    let session: PhiAgentRuntimeError<String> = PhiAgentRuntimeError::session("empty".to_string());
    assert!(is_model_retry_failed_step(Some(&request)));
    assert!(is_model_retry_failed_step(Some(&response)));
    assert!(!is_model_retry_failed_step(Some(&session)));
    assert!(!is_model_retry_failed_step::<String>(None));
}

#[test]
fn only_rejected_candidates_are_loop_guard_failures() {
    let rejected: PhiAgentRuntimeError<String> =
        PhiAgentRuntimeError::model_candidate_rejected("loop detected by x: y".to_string());
    let request: PhiAgentRuntimeError<String> = PhiAgentRuntimeError::provider_request("down".to_string());
    assert!(is_loop_guard_failed_step(Some(&rejected)));
    assert!(!is_loop_guard_failed_step(Some(&request)));
    assert!(!is_loop_guard_failed_step::<String>(None));
}

#[test]
fn reasoning_text_joins_the_non_empty_blocks() {
    let texts = vec![Some("first".to_string()), None, Some(String::new()), Some("second".to_string())];
    assert_eq!(reasoning_text(&texts), Some("first\nsecond".to_string()));
}

#[test]
fn reasoning_text_of_empty_blocks_is_none() {
    assert_eq!(reasoning_text(&vec![None, Some(String::new())]), None);
    assert_eq!(reasoning_text(&Vec::new()), None);
}

#[test]
fn ngram_windows_slide_one_character_at_a_time() {
    let chars: Vec<char> = "abcd".chars().collect();
    let windows = ngram_windows(&chars, 3);
    assert_eq!(windows, vec![vec!['a', 'b', 'c'], vec!['b', 'c', 'd']]);
    assert!(ngram_windows(&chars, 5).is_empty());
    assert!(ngram_windows(&chars, 0).is_empty());
}

#[test]
fn fingerprint_keeps_each_distinct_hash_once() {
    let fingerprint = NgramFingerprint::from_hashes(9, &vec![5, 5, 7, 5, 9]);
    assert_eq!(fingerprint.ngrams, std::collections::HashSet::from([5, 7, 9]));
    assert_eq!(fingerprint.normalized_char_count(), 9);
}

#[test]
fn fingerprint_of_distinct_windows_tells_them_apart() {
    let fingerprint = NgramFingerprint::new("abcdefgh", 4);
    assert_eq!(fingerprint.ngram_count(), 5);
    let repeated = NgramFingerprint::new("abababab", 2);
    assert_eq!(repeated.ngram_count(), 2);
}

#[test]
fn reasoning_memory_keeps_the_last_window_of_long_reasonings() {
    let mut memory = ReasoningMemory::new(4, 5);
    assert!(memory.start_initialization());
    assert!(!memory.start_initialization());
    for text in ["first reasoning", "tiny", "second reasoning", "third reasoning"] {
        memory.remember(NgramFingerprint::new(text, 4), 2);
    }
    let counts: Vec<usize> = memory.committed.iter().map(|f| f.normalized_char_count()).collect();
    assert_eq!(counts, vec!["second reasoning".len(), "third reasoning".len()]);

    let judged = memory.candidate(Some(NgramFingerprint::new("third reasoning", 4))).unwrap();
    memory.reject(judged);
    assert_eq!(memory.rejected.len(), 1);
    assert!(memory.candidate(Some(NgramFingerprint::new("tiny", 4))).is_none());
    assert!(memory.rejected.is_empty());
    let judged = memory.candidate(Some(NgramFingerprint::new("again reasoning", 4))).unwrap();
    memory.reject(judged);
    memory.commit(None, 2);
    assert!(memory.rejected.is_empty());
    assert_eq!(memory.committed.len(), 2);
}
