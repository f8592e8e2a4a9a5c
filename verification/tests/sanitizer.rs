use phi::executor::sanitizer::{format_truncated_text, maybe_truncate_text, truncate_middle_text};
use phi::text::approx_token_count;

#[test]
fn sanitizer_middle_truncation_keeps_head_and_tail() {
    let text = "0123456789abcdefghijklmnopqrstuvwxyz";
    let truncated = truncate_middle_text(text, 32);
    assert!(truncated.contains("[truncated: omitted "));
    let (head, tail) = truncated
        .split_once(" bytes]\n\n")
        .expect("truncated text should contain a middle marker");
    let head = head
        .split_once("[truncated:")
        .map(|(prefix, _)| prefix)
        .expect("truncated text should contain a marker prefix");
    assert!(!head.is_empty(), "head preview should be preserved");
    assert!(!tail.is_empty(), "tail preview should be preserved");
    assert!(text.starts_with(head.trim_end()), "head should come from original prefix");
    assert!(text.ends_with(tail.trim_start()), "tail should come from original suffix");
}

#[test]
fn sanitizer_formatted_truncation_reports_original_shape() {
    let text = "line1\nline2\nline3\nline4\nline5";
    let formatted = format_truncated_text(text, 4);
    assert!(formatted.contains("[truncated: omitted "));
    assert!(formatted.contains(" of "));
    assert!(formatted.contains(" bytes]"));
}

#[test]
fn sanitizer_maybe_truncate_leaves_small_text_unchanged() {
    let text = "short output";
    assert_eq!(maybe_truncate_text(text, 32), text);
}

#[test]
fn sanitizer_truncation_uses_assigned_token_budget_after_notice_reserve() {
    let text = "0123456789".repeat(100);
    let truncated = format_truncated_text(&text, 64);

    assert!(truncated.contains("[truncated: omitted "));
    assert!(truncated.len() > 48, "preview should not be capped by a tiny byte limit");
    assert!(approx_token_count(&truncated) <= 64, "truncated output should fit assigned token budget");
}

use phi::executor::limits::ToolOutputLimits;
use phi::executor::sanitizer::{sanitize_json_string_leaves, sanitize_tool_call_output};
use phi::executor::tool_call::ToolCallOutput;
use serde_json::Value;

fn object(entries: Vec<(&str, Value)>) -> Value {
    let mut map = serde_json::Map::new();
    for (key, value) in entries {
        map.insert(key.to_string(), value);
    }
    Value::Object(map)
}

#[test]
fn sanitizes_json_string_leaves_without_destroying_structure() {
    let value = object(vec![
        ("stdout", Value::String("a".repeat(400))),
        ("stderr", Value::String("b".repeat(200))),
        ("nested", object(vec![("message", Value::String("short".to_string()))])),
    ]);

    let sanitized = sanitize_json_string_leaves(value, 64);

    assert!(sanitized["stdout"]
        .as_str()
        .expect("stdout should stay a string")
        .contains("[truncated: omitted "));
    assert!(sanitized["stderr"]
        .as_str()
        .expect("stderr should stay a string")
        .contains("[truncated: omitted "));
    assert_eq!(sanitized["nested"]["message"], Value::String("short".to_string()));
}

#[test]
fn sanitizes_tool_call_output_value() {
    let output = ToolCallOutput::new(object(vec![
        ("error", Value::String("x".repeat(400))),
        ("stdout", Value::String("y".repeat(400))),
    ]));

    let sanitized = sanitize_tool_call_output(output, ToolOutputLimits::new(64));

    assert!(sanitized.as_value()["error"]
        .as_str()
        .expect("error should remain a string")
        .contains("[truncated: omitted "));
    assert!(sanitized.as_value()["stdout"]
        .as_str()
        .expect("stdout should stay a string")
        .contains("[truncated: omitted "));
}

#[test]
fn sanitizer_keeps_values_whose_leaves_fit() {
    let value = object(vec![
        ("stdout", Value::String("a".repeat(40))),
        ("count", Value::from(3)),
    ]);
    let sanitized = sanitize_json_string_leaves(value.clone(), 64);
    assert_eq!(sanitized, value);
}

#[test]
fn sanitizer_shares_budget_smallest_leaf_first() {
    // 8 tokens and 100 tokens against a budget of 20: the small leaf keeps
    // its 8, the large one gets the remaining 12.
    let value = object(vec![
        ("big", Value::String("b".repeat(400))),
        ("small", Value::String("s".repeat(32))),
    ]);
    let sanitized = sanitize_json_string_leaves(value, 20);
    assert_eq!(sanitized["small"], Value::String("s".repeat(32)));
    let big = sanitized["big"].as_str().expect("big stays a string");
    assert!(big.contains("[truncated: omitted "));
    assert!(approx_token_count(big) <= 12);
}

#[test]
fn sanitizer_zero_budget_empties_every_leaf() {
    let value = Value::Array(vec![Value::String("abc".to_string()), Value::from(7)]);
    let sanitized = sanitize_json_string_leaves(value, 0);
    assert_eq!(sanitized, Value::Array(vec![Value::String(String::new()), Value::from(7)]));
}

#[test]
fn sanitizing_keeps_the_structure_of_the_value() {
    let value = object(vec![
        ("list", Value::Array(vec![Value::String("c".repeat(300)), Value::from(4), Value::Null])),
        ("flag", Value::Bool(true)),
        ("text", Value::String("d".repeat(500))),
    ]);
    let sanitized = sanitize_json_string_leaves(value.clone(), 30);
    assert_ne!(sanitized, value);
    assert_eq!(
        phi::executor::truncation::value_without_string_contents(&sanitized),
        phi::executor::truncation::value_without_string_contents(&value)
    );
}

#[test]
fn middle_truncation_keeps_longest_whole_characters_at_both_ends() {
    let truncated = truncate_middle_text("ééééé", 5);
    assert_eq!(truncated, "é\n\n[truncated: omitted 6 of 10 bytes]\n\né");
}
