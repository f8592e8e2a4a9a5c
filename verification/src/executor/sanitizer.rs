//! Sanitizing of tool output to a token budget; a budget of zero leaves an
//! empty text.
use vstd::prelude::*;
use vstd::string::StringSliceAdditionalSpecFns;

use serde_json::Value;

use crate::executor::json::{collect_string_leaves, json_contents, leaf_estimates, string_leaves, JsonModel, JsonPathSegment};
use crate::executor::json::blank_model;
use crate::executor::leaf_budget::{
    apply_leaf_budget, apply_shares, leaves_fit, shares, shares_keep_structure, sort_leaves, sorted_by_tokens, total_tokens,
};
use crate::executor::limits::ToolOutputLimits;
use crate::executor::tool_call::ToolCallOutput;
use crate::text::{
    approx_token_count, budget_body_bytes, ceil_boundary, floor_boundary, lemma_ceil_boundary, lemma_floor_boundary, budget_body_size, chars_of, lemma_marker_bounds, lemma_middle_truncated_len,
    marker_chars, middle_truncate, middle_truncated, notice_reserve_tokens, sat_mul, tokens_for_bytes, utf8_len,
};

verus! {

/// What a text of UTF-8 bytes `b` becomes when it must fit `token_budget` tokens.
pub open spec fn budget_truncated(b: Seq<u8>, token_budget: nat) -> Seq<char> {
    if token_budget == 0 {
        Seq::empty()
    } else {
        middle_truncated(b, budget_body_bytes(b.len(), token_budget))
    }
}

/// The text itself when its estimate fits the budget, its budget truncation otherwise.
pub open spec fn formatted_truncated(b: Seq<u8>, token_budget: nat) -> Seq<char> {
    if tokens_for_bytes(b.len()) <= token_budget {
        chars_of(b)
    } else {
        budget_truncated(b, token_budget)
    }
}

pub fn truncate_text_to_token_budget(text: &str, token_budget: usize) -> (truncated: String)
    ensures
        truncated@ == budget_truncated(text.spec_bytes(), token_budget as nat),
{
    let len = text.as_bytes().len();
    if token_budget == 0 {
        return String::new();
    }
    let body = budget_body_size(len, token_budget);
    middle_truncate(text, body)
}

pub fn format_truncated_text(text: &str, token_budget: usize) -> (formatted: String)
    ensures
        formatted@ == formatted_truncated(text.spec_bytes(), token_budget as nat),
{
    broadcast use vstd::utf8::encode_utf8_decode_utf8;
    if approx_token_count(text) <= token_budget {
        return text.to_owned();
    }
    truncate_text_to_token_budget(text, token_budget)
}

pub fn maybe_truncate_text(text: &str, threshold_tokens: usize) -> (formatted: String)
    ensures
        formatted@ == formatted_truncated(text.spec_bytes(), threshold_tokens as nat),
{
    broadcast use vstd::utf8::encode_utf8_decode_utf8;
    if approx_token_count(text) <= threshold_tokens {
        return text.to_owned();
    }
    format_truncated_text(text, threshold_tokens)
}

pub fn truncate_middle_text(text: &str, body_bytes: usize) -> (truncated: String)
    ensures
        truncated@ == middle_truncated(text.spec_bytes(), body_bytes as nat),
{
    middle_truncate(text, body_bytes)
}

/// Middle truncation of a text longer than a positive body budget keeps the
/// longest prefix that ends on a char boundary within half the budget, and the
/// longest suffix that starts on a char boundary within the rest, with a
/// marker between them that counts the bytes left out.
pub proof fn middle_truncation_keeps_longest_ends(b: Seq<u8>, body_bytes: nat)
    requires
        vstd::utf8::valid_utf8(b),
        0 < body_bytes < b.len(),
    ensures
        exists|end: int, start: int|
            #![trigger vstd::utf8::is_char_boundary(b, end), vstd::utf8::is_char_boundary(b, start)]
            {
                &&& 0 <= end <= body_bytes / 2
                &&& vstd::utf8::is_char_boundary(b, end)
                &&& forall|j: int| end < j <= body_bytes / 2 ==> !vstd::utf8::is_char_boundary(b, j)
                &&& b.len() - (body_bytes - body_bytes / 2) <= start <= b.len()
                &&& vstd::utf8::is_char_boundary(b, start)
                &&& forall|j: int|
                    b.len() - (body_bytes - body_bytes / 2) <= j < start ==> !vstd::utf8::is_char_boundary(b, j)
                &&& middle_truncated(b, body_bytes) == chars_of(b.subrange(0, end)) + marker_chars(
                    (start - end) as nat,
                    b.len(),
                ) + chars_of(b.subrange(start, b.len() as int))
            },
{
    let head = body_bytes / 2;
    let from = b.len() - (body_bytes - head);
    lemma_floor_boundary(b, head as int);
    lemma_ceil_boundary(b, from);
    let end = floor_boundary(b, head as int);
    let start = ceil_boundary(b, from);
    assert(vstd::utf8::is_char_boundary(b, end) && vstd::utf8::is_char_boundary(b, start));
}

/// A value whose string leaves together fit `budget` tokens is kept;
/// otherwise the budget is shared among the leaves, smallest first, and each
/// leaf over its share is cut to it (a share of zero empties it).
pub open spec fn sanitized_model(m: JsonModel, budget: nat) -> JsonModel {
    let leaves = leaf_estimates(string_leaves(m, Seq::empty()));
    if total_tokens(leaves) <= budget {
        m
    } else {
        let sorted = sorted_by_tokens(leaves);
        apply_shares(m, sorted, shares(sorted, budget), false)
    }
}

pub fn sanitize_json_string_leaves(value: Value, total_token_budget: usize) -> (sanitized: Value)
    ensures
        json_contents(sanitized) == sanitized_model(json_contents(value), total_token_budget as nat),
{
    let mut leaves = Vec::new();
    let mut path: Vec<JsonPathSegment> = Vec::new();
    proof {
        assert(crate::executor::json::path_view(path@) =~= Seq::empty());
        assert(crate::executor::json::leaf_views(leaves@) =~= Seq::empty());
    }
    collect_string_leaves(&value, &mut path, &mut leaves);
    proof {
        assert(crate::executor::json::leaf_views(leaves@) =~= leaf_estimates(string_leaves(json_contents(value), Seq::empty())));
    }
    if leaves_fit(&leaves, total_token_budget) {
        return value;
    }
    let sorted = sort_leaves(leaves);
    let mut sanitized = value;
    apply_leaf_budget(&mut sanitized, &sorted, total_token_budget, false);
    sanitized
}

pub fn sanitize_tool_call_output(output: ToolCallOutput, limits: ToolOutputLimits) -> (sanitized: ToolCallOutput)
    ensures
        json_contents(sanitized.0) == sanitized_model(json_contents(output.0), limits.output_threshold_tokens as nat),
{
    ToolCallOutput::new(sanitize_json_string_leaves(output.into_value(), limits.output_threshold_tokens))
}

/// Sanitizing keeps the structure of a value: its arrays, objects, keys and
/// scalars stay as they were, and only the texts of strings change.
pub proof fn sanitizing_keeps_structure(m: JsonModel, budget: nat)
    ensures
        blank_model(sanitized_model(m, budget)) == blank_model(m),
{
    let leaves = leaf_estimates(string_leaves(m, Seq::empty()));
    if total_tokens(leaves) > budget {
        let sorted = sorted_by_tokens(leaves);
        shares_keep_structure(m, sorted, shares(sorted, budget), false);
    }
}

/// A text cut to a token budget that covers the notice reserve fits the
/// budget.
pub proof fn budget_truncation_fits(b: Seq<u8>, budget: nat)
    requires
        vstd::utf8::valid_utf8(b),
        b.len() <= usize::MAX,
        budget <= usize::MAX,
        notice_reserve_tokens(b.len()) <= budget,
    ensures
        tokens_for_bytes(utf8_len(budget_truncated(b, budget))) <= budget,
{
    let n = b.len();
    lemma_marker_bounds(n, n);
    let notice = tokens_for_bytes(utf8_len(marker_chars(n, n)));
    assert(sat_mul(notice, 3) == notice * 3);
    let reserve = notice_reserve_tokens(n);
    assert(reserve >= notice);
    assert(budget > 0);
    let left = (budget - reserve) as nat;
    let body = budget_body_bytes(n, budget);
    assert(body <= 4 * left);
    assert(body == 4 * left || body == usize::MAX);
    lemma_middle_truncated_len(b, body);
}

/// A text formatted to a token budget fits the budget whenever the text
/// already does or the budget covers the notice reserve.
pub proof fn formatted_truncation_fits(b: Seq<u8>, budget: nat)
    requires
        vstd::utf8::valid_utf8(b),
        b.len() <= usize::MAX,
        budget <= usize::MAX,
        tokens_for_bytes(b.len()) <= budget || notice_reserve_tokens(b.len()) <= budget,
    ensures
        tokens_for_bytes(utf8_len(formatted_truncated(b, budget))) <= budget,
{
    if tokens_for_bytes(b.len()) <= budget {
        vstd::utf8::decode_utf8_encode_utf8(b);
    } else {
        budget_truncation_fits(b, budget);
    }
}

} // verus!
