use phi::executor::truncation::{format_truncated_text, maybe_truncate_text, truncate_middle_text};
use phi::text::approx_token_count;

#[test]
fn truncation_middle_truncation_keeps_head_and_tail() {
    let text = "0123456789abcdefghijklmnopqrstuvwxyz";
    let truncated = truncate_middle_text(text, 32);
    assert!(truncated.contains("[truncated: omitted "));
    let (head, tail) = truncated
        .split_once(" bytes]\n\n")
        .expect("truncated text should contain a middle marker");
    let head = head
        .split_once("[truncated:")
        .map(|(prefix, _)| prefix)
        .expect("truncated text should contain a marker prefix");
    assert!(!head.is_empty(), "head preview should be preserved");
    assert!(!tail.is_empty(), "tail preview should be preserved");
    assert!(text.starts_with(head.trim_end()), "head should come from original prefix");
    assert!(text.ends_with(tail.trim_start()), "tail should come from original suffix");
}

#[test]
fn truncation_formatted_truncation_reports_original_shape() {
    let text = "line1\nline2\nline3\nline4\nline5";
    let formatted = format_truncated_text(text, 4);
    assert!(formatted.contains("[truncated: omitted "));
    assert!(formatted.contains(" of "));
    assert!(formatted.contains(" bytes]"));
}

#[test]
fn truncation_maybe_truncate_leaves_small_text_unchanged() {
    let text = "short output";
    assert_eq!(maybe_truncate_text(text, 32), text);
}

#[test]
fn truncation_truncation_uses_assigned_token_budget_after_notice_reserve() {
    let text = "0123456789".repeat(100);
    let truncated = format_truncated_text(&text, 64);

    assert!(truncated.contains("[truncated: omitted "));
    assert!(truncated.len() > 48, "preview should not be capped by a tiny byte limit");
    assert!(approx_token_count(&truncated) <= 64, "truncated output should fit assigned token budget");
}

use phi::executor::limits::ToolOutputLimits;
use phi::executor::tool_call::ToolCallOutput;
use phi::executor::truncation::{
    serialized_token_count, truncate_tool_output, truncate_tool_output_value, truncated_container_string,
    truncated_value, value_without_string_contents,
};
use serde_json::Value;

fn object(entries: Vec<(&str, Value)>) -> Value {
    let mut map = serde_json::Map::new();
    for (key, value) in entries {
        map.insert(key.to_string(), value);
    }
    Value::Object(map)
}

fn numbers(range: std::ops::Range<i64>) -> Value {
    Value::Array(range.map(Value::from).collect())
}

#[test]
fn truncates_string_leaves_without_destroying_structure() {
    let value = object(vec![
        ("stdout", Value::String("a".repeat(400))),
        ("stderr", Value::String("b".repeat(200))),
        ("nested", object(vec![("message", Value::String("short".to_string()))])),
    ]);

    let truncated = truncate_tool_output_value(value, 64);

    assert!(truncated["stdout"]
        .as_str()
        .expect("stdout should stay a string")
        .contains("[truncated: omitted "));
    assert!(truncated["stderr"]
        .as_str()
        .expect("stderr should stay a string")
        .contains("[truncated: omitted "));
    assert_eq!(truncated["nested"]["message"], Value::String("short".to_string()));
}

#[test]
fn truncates_tool_call_output_value() {
    let output = ToolCallOutput::new(object(vec![
        ("error", Value::String("x".repeat(400))),
        ("stdout", Value::String("y".repeat(400))),
    ]));

    let truncated = truncate_tool_output(output, ToolOutputLimits::new(64));

    assert!(truncated.as_value()["error"]
        .as_str()
        .expect("error should remain a string")
        .contains("[truncated: omitted "));
    assert!(truncated.as_value()["stdout"]
        .as_str()
        .expect("stdout should stay a string")
        .contains("[truncated: omitted "));
}

#[test]
fn compacts_large_arrays_with_a_visible_notice() {
    let value = numbers(0..200);

    let truncated = truncate_tool_output_value(value, 40);
    let serialized = serde_json::to_string(&truncated).expect("truncated value should be JSON");

    assert!(truncated.as_str().is_some_and(|text| text.contains("[array truncated:")));
    assert!(serialized.contains("[truncated:"));
    assert!(
        serialized_token_count(&truncated) <= 40,
        "array result should fit the configured serialized budget"
    );
}

#[test]
fn compacts_object_fields_with_a_visible_notice() {
    let value = object(vec![
        ("first", Value::from(1)),
        ("second", Value::from(2)),
        ("third", Value::from(3)),
        ("fourth", Value::from(4)),
        ("fifth", Value::from(5)),
        ("sixth", Value::from(6)),
        ("seventh", Value::from(7)),
        ("eighth", Value::from(8)),
    ]);

    let truncated = truncate_tool_output_value(value, 20);
    let serialized = serde_json::to_string(&truncated).expect("truncated value should be JSON");

    assert!(truncated.as_str().is_some_and(|text| text.contains("[object truncated:")));
    assert!(serialized.contains("object truncated"));
    assert!(serialized_token_count(&truncated) <= 20);
}

#[test]
fn compacts_nested_containers_until_the_serialized_result_fits() {
    let value = object(vec![
        ("groups", Value::Array(vec![numbers(0..100), numbers(100..200)])),
        (
            "metadata",
            object(vec![
                ("one", Value::from(1)),
                ("two", Value::from(2)),
                ("three", Value::from(3)),
                ("four", Value::from(4)),
            ]),
        ),
    ]);

    let truncated = truncate_tool_output_value(value, 40);
    let serialized = serde_json::to_string(&truncated).expect("truncated value should be JSON");

    assert!(serialized.contains("[truncated:") || serialized.contains("__truncated__"));
    assert!(
        serialized_token_count(&truncated) <= 40,
        "nested result should fit the configured serialized budget"
    );
}

#[test]
fn truncation_keeps_output_within_budget_unchanged() {
    let value = object(vec![("ok", Value::Bool(true))]);
    assert_eq!(truncate_tool_output_value(value.clone(), 64), value);
}

#[test]
fn truncation_keeps_scalars_over_budget() {
    let value = Value::from(123456789012345_i64);
    assert_eq!(truncate_tool_output_value(value.clone(), 1), value);
}

#[test]
fn truncation_of_a_string_value_keeps_only_the_notice_at_zero_budget() {
    let value = Value::String("z".repeat(100));
    let truncated = truncate_tool_output_value(value, 0);
    assert_eq!(truncated, Value::String("\n\n[truncated: omitted 100 of 100 bytes]\n\n".to_string()));
}

#[test]
fn serialized_token_count_counts_compact_bytes() {
    // `{"a":1}` is 7 bytes: two tokens.
    let value = object(vec![("a", Value::from(1))]);
    assert_eq!(serialized_token_count(&value), 2);
}

#[test]
fn value_without_string_contents_keeps_the_shape() {
    let value = object(vec![
        ("text", Value::String("hello".to_string())),
        ("items", Value::Array(vec![Value::String("x".to_string()), Value::from(2)])),
    ]);
    let expected = object(vec![
        ("text", Value::String(String::new())),
        ("items", Value::Array(vec![Value::String(String::new()), Value::from(2)])),
    ]);
    assert_eq!(value_without_string_contents(&value), expected);
}

#[test]
fn container_string_is_the_notice_when_nothing_more_fits() {
    let value = numbers(0..50);
    let tokens = serialized_token_count(&value);
    let replacement = truncated_container_string(&value, 1);
    assert_eq!(replacement, Value::String(format!("[array truncated: original {tokens} tokens]")));
}

#[test]
fn container_string_keeps_the_whole_text_when_it_fits() {
    let value = numbers(0..3);
    let replacement = truncated_container_string(&value, 100);
    assert_eq!(replacement, Value::String("[array truncated: original 2 tokens]\n[0,1,2]".to_string()));
}

#[test]
fn truncated_value_reports_the_original_size() {
    let value = truncated_value("too big", 77);
    assert_eq!(
        value,
        object(vec![("__truncated__", Value::String("too big; original result was about 77 tokens".to_string()))])
    );
}

#[test]
fn formatted_text_fits_a_budget_that_covers_the_notice() {
    let text = "x".repeat(5000);
    for budget in [60, 100, 500] {
        let formatted = format_truncated_text(&text, budget);
        assert!(approx_token_count(&formatted) <= budget);
    }
}
