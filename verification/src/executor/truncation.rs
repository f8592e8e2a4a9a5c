//! Truncation of tool output to a token budget; a budget of zero leaves only
//! the truncation notice.
use vstd::prelude::*;
use vstd::string::StringSliceAdditionalSpecFns;

use serde_json::Value;

use crate::executor::containers::{
    collect_container_paths, container_count, container_paths, deepest_first, is_container, lemma_replace_count,
    paths_view, sort_deepest_first,
};
use crate::executor::json::{
    blank_model, blank_strings, clone_path, collect_string_leaves, compact_json_text, json_as_str, json_contents, json_kind,
    json_single_entry_object, json_string, json_text, leaf_estimates, leaf_views, model_at, model_replace, path_view,
    replace_at_path, string_leaves, value_at_path, JsonKind, JsonModel, JsonPathSegment, PathStep,
};
use crate::executor::leaf_budget::{apply_leaf_budget, apply_shares, shares, shares_keep_structure, sort_leaves, sorted_by_tokens};
use crate::executor::limits::ToolOutputLimits;
use crate::executor::tool_call::{clone_json, ToolCallOutput};
use crate::text::{
    approx_token_count, budget_body_bytes, budget_body_size, chars_of, decimal_chars, lemma_marker_bounds,
    lemma_middle_truncated_len, marker_chars, middle_truncate, middle_truncated, notice_reserve_tokens, push_decimal,
    sat_mul, sat_sub, tokens_for_bytes, truncation_marker, utf8_len,
};

verus! {

/// What a text of UTF-8 bytes `b` becomes when it must fit `token_budget` tokens.
pub open spec fn budget_truncated(b: Seq<u8>, token_budget: nat) -> Seq<char> {
    if token_budget == 0 {
        marker_chars(b.len(), b.len())
    } else {
        middle_truncated(b, budget_body_bytes(b.len(), token_budget))
    }
}

/// The text itself when its estimate fits the budget, its budget truncation otherwise.
pub open spec fn formatted_truncated(b: Seq<u8>, token_budget: nat) -> Seq<char> {
    if tokens_for_bytes(b.len()) <= token_budget {
        chars_of(b)
    } else {
        budget_truncated(b, token_budget)
    }
}

pub fn truncate_text_to_token_budget(text: &str, token_budget: usize) -> (truncated: String)
    ensures
        truncated@ == budget_truncated(text.spec_bytes(), token_budget as nat),
{
    let len = text.as_bytes().len();
    if token_budget == 0 {
        return truncation_marker(len, len);
    }
    let body = budget_body_size(len, token_budget);
    middle_truncate(text, body)
}

pub fn format_truncated_text(text: &str, token_budget: usize) -> (formatted: String)
    ensures
        formatted@ == formatted_truncated(text.spec_bytes(), token_budget as nat),
{
    broadcast use vstd::utf8::encode_utf8_decode_utf8;
    if approx_token_count(text) <= token_budget {
        return text.to_owned();
    }
    truncate_text_to_token_budget(text, token_budget)
}

pub fn maybe_truncate_text(text: &str, threshold_tokens: usize) -> (formatted: String)
    ensures
        formatted@ == formatted_truncated(text.spec_bytes(), threshold_tokens as nat),
{
    broadcast use vstd::utf8::encode_utf8_decode_utf8;
    if approx_token_count(text) <= threshold_tokens {
        return text.to_owned();
    }
    format_truncated_text(text, threshold_tokens)
}

pub fn truncate_middle_text(text: &str, body_bytes: usize) -> (truncated: String)
    ensures
        truncated@ == middle_truncated(text.spec_bytes(), body_bytes as nat),
{
    middle_truncate(text, body_bytes)
}

/// Tokens of the compact serialization of `m`.
pub open spec fn serialized_tokens(m: JsonModel) -> nat {
    tokens_for_bytes(utf8_len(compact_json_text(m)))
}

pub fn serialized_token_count(value: &Value) -> (count: usize)
    ensures
        count == serialized_tokens(json_contents(*value)),
{
    let text = json_text(value);
    approx_token_count(text.as_str())
}

/// A copy of `value` with every string emptied.
pub fn value_without_string_contents(value: &Value) -> (shape: Value)
    ensures
        json_contents(shape) == blank_model(json_contents(*value)),
{
    let mut shape = clone_json(value);
    blank_strings(&mut shape);
    shape
}

/// The string leaves share what the budget leaves after the value's
/// structure, smallest first; each leaf over its share is cut to it, keeping
/// at least the truncation notice.
pub open spec fn conservative_model(m: JsonModel, budget: nat) -> JsonModel {
    let leaves = leaf_estimates(string_leaves(m, Seq::empty()));
    if leaves.len() == 0 {
        m
    } else {
        let sorted = sorted_by_tokens(leaves);
        apply_shares(m, sorted, shares(sorted, sat_sub(budget, serialized_tokens(blank_model(m)))), true)
    }
}

pub fn conservatively_truncate_strings(value: Value, total_token_budget: usize) -> (truncated: Value)
    ensures
        json_contents(truncated) == conservative_model(json_contents(value), total_token_budget as nat),
{
    let mut leaves = Vec::new();
    let mut path: Vec<JsonPathSegment> = Vec::new();
    proof {
        assert(path_view(path@) =~= Seq::empty());
        assert(leaf_views(leaves@) =~= Seq::empty());
    }
    collect_string_leaves(&value, &mut path, &mut leaves);
    proof {
        assert(leaf_views(leaves@) =~= leaf_estimates(string_leaves(json_contents(value), Seq::empty())));
    }
    if leaves.len() == 0 {
        return value;
    }
    let structure_only = value_without_string_contents(&value);
    let structure_tokens = serialized_token_count(&structure_only);
    let remaining_budget = total_token_budget.saturating_sub(structure_tokens);
    let sorted = sort_leaves(leaves);
    let mut truncated = value;
    apply_leaf_budget(&mut truncated, &sorted, remaining_budget, true);
    truncated
}

/// Cutting the string leaves of a container keeps its structure: only the
/// texts of strings change.
pub proof fn conservative_truncation_keeps_structure(m: JsonModel, budget: nat)
    ensures
        blank_model(conservative_model(m, budget)) == blank_model(m),
{
    let leaves = leaf_estimates(string_leaves(m, Seq::empty()));
    if leaves.len() > 0 {
        let sorted = sorted_by_tokens(leaves);
        shares_keep_structure(m, sorted, shares(sorted, sat_sub(budget, serialized_tokens(blank_model(m)))), true);
    }
}

/// "array" for an array, "object" otherwise.
pub open spec fn kind_word(m: JsonModel) -> Seq<char> {
    if m is Array {
        "array"@
    } else {
        "object"@
    }
}

/// The notice that stands for a container of `tokens` tokens.
pub open spec fn container_notice(kind: Seq<char>, tokens: nat) -> Seq<char> {
    "["@ + kind + " truncated: original "@ + decimal_chars(tokens) + " tokens]"@
}

/// What is kept of the serialized text `s` with a body of `body_bytes`: all of
/// it, nothing, or its middle truncation.
pub open spec fn candidate_body(s: Seq<char>, body_bytes: nat) -> Seq<char> {
    if body_bytes >= utf8_len(s) {
        s
    } else if body_bytes == 0 {
        Seq::empty()
    } else {
        middle_truncated(vstd::utf8::encode_utf8(s), body_bytes)
    }
}

/// The notice, followed on its own line by the body where there is one.
pub open spec fn candidate_text(notice: Seq<char>, s: Seq<char>, body_bytes: nat) -> Seq<char> {
    let body = candidate_body(s, body_bytes);
    if body.len() == 0 {
        notice
    } else {
        notice + "\n"@ + body
    }
}

pub open spec fn candidate_fits(notice: Seq<char>, s: Seq<char>, body_bytes: nat, target: nat) -> bool {
    serialized_tokens(JsonModel::Str(candidate_text(notice, s, body_bytes))) <= target
}

/// Binary search between `low`, taken to fit, and `high`, taken not to.
pub open spec fn boundary_search(notice: Seq<char>, s: Seq<char>, target: nat, low: nat, high: nat) -> nat
    decreases high - low,
{
    if low + 1 < high {
        let middle = low + (high - low) / 2;
        if candidate_fits(notice, s, middle as nat, target) {
            boundary_search(notice, s, target, middle as nat, high)
        } else {
            boundary_search(notice, s, target, low, middle as nat)
        }
    } else {
        low
    }
}

/// The string that replaces the container `m` under `target` tokens: its
/// notice, and as much of its serialization as a binary search finds to fit.
pub open spec fn container_text(m: JsonModel, target: nat) -> Seq<char> {
    let s = compact_json_text(m);
    let n = utf8_len(s);
    let notice = container_notice(kind_word(m), tokens_for_bytes(n));
    if !candidate_fits(notice, s, 0, target) {
        notice
    } else {
        let high = if n < usize::MAX { n + 1 } else { n };
        candidate_text(notice, s, boundary_search(notice, s, target, 0, high))
    }
}

pub open spec fn container_replacement(m: JsonModel, target: nat) -> JsonModel {
    JsonModel::Str(container_text(m, target))
}

fn container_notice_text(kind: &str, tokens: usize) -> (notice: String)
    ensures
        notice@ == container_notice(kind@, tokens as nat),
{
    let mut notice = String::new();
    notice.append("[");
    notice.append(kind);
    notice.append(" truncated: original ");
    push_decimal(&mut notice, tokens as u64);
    notice.append(" tokens]");
    proof {
        assert(notice@ =~= container_notice(kind@, tokens as nat));
    }
    notice
}

fn container_candidate(notice: &str, serialized: &str, body_bytes: usize) -> (text: String)
    ensures
        text@ == candidate_text(notice@, serialized@, body_bytes as nat),
{
    let body = if body_bytes >= serialized.as_bytes().len() {
        serialized.to_owned()
    } else if body_bytes == 0 {
        String::new()
    } else {
        middle_truncate(serialized, body_bytes)
    };
    assert(body@ == candidate_body(serialized@, body_bytes as nat));
    if body.as_str().is_empty() {
        notice.to_owned()
    } else {
        let mut text = notice.to_owned();
        text.append("\n");
        text.append(body.as_str());
        assert(text@ =~= notice@ + "\n"@ + body@);
        text
    }
}

fn candidate_fits_budget(notice: &str, serialized: &str, body_bytes: usize, target: usize) -> (fits: bool)
    ensures
        fits == candidate_fits(notice@, serialized@, body_bytes as nat, target as nat),
{
    let candidate = json_string(container_candidate(notice, serialized, body_bytes));
    serialized_token_count(&candidate) <= target
}

pub fn truncated_container_string(value: &Value, target_tokens: usize) -> (replacement: Value)
    ensures
        json_contents(replacement) == container_replacement(json_contents(*value), target_tokens as nat),
{
    let kind = if json_kind(value) == JsonKind::Array {
        "array"
    } else {
        "object"
    };
    let serialized = json_text(value);
    let original_tokens = approx_token_count(serialized.as_str());
    let notice = container_notice_text(kind, original_tokens);
    let ghost s = serialized@;
    let ghost m = json_contents(*value);
    proof {
        assert(kind@ == kind_word(m));
        assert(notice@ == container_notice(kind_word(m), tokens_for_bytes(utf8_len(s))));
    }
    if !candidate_fits_budget(notice.as_str(), serialized.as_str(), 0, target_tokens) {
        return json_string(notice);
    }
    let len = serialized.as_str().as_bytes().len();
    let high0 = if len < usize::MAX {
        len + 1
    } else {
        len
    };
    let mut low: usize = 0;
    let mut high: usize = high0;
    while low + 1 < high
        invariant
            low < high,
            s == serialized@,
            boundary_search(notice@, s, target_tokens as nat, low as nat, high as nat) == boundary_search(
                notice@,
                s,
                target_tokens as nat,
                0,
                high0 as nat,
            ),
        decreases high - low,
    {
        let middle = low + (high - low) / 2;
        let fits = candidate_fits_budget(notice.as_str(), serialized.as_str(), middle, target_tokens);
        proof {
            assert(middle == low + (high - low) / 2);
            assert(boundary_search(notice@, s, target_tokens as nat, low as nat, high as nat) == if fits {
                boundary_search(notice@, s, target_tokens as nat, middle as nat, high as nat)
            } else {
                boundary_search(notice@, s, target_tokens as nat, low as nat, middle as nat)
            });
        }
        if fits {
            low = middle;
        } else {
            high = middle;
        }
    }
    proof {
        assert(boundary_search(notice@, s, target_tokens as nat, low as nat, high as nat) == low);
        assert(high0 == (if utf8_len(s) < usize::MAX { utf8_len(s) + 1 } else { utf8_len(s) }));
    }
    json_string(container_candidate(notice.as_str(), serialized.as_str(), low))
}

/// The message that stands for a result too large to shrink further.
pub open spec fn too_large_value(message: Seq<char>, tokens: nat) -> JsonModel {
    JsonModel::Object(
        seq![("__truncated__"@, JsonModel::Str(message + "; original result was about "@ + decimal_chars(tokens) + " tokens"@))],
    )
}

pub fn truncated_value(message: &str, original_tokens: usize) -> (value: Value)
    ensures
        json_contents(value) == too_large_value(message@, original_tokens as nat),
{
    let mut text = message.to_owned();
    text.append("; original result was about ");
    push_decimal(&mut text, original_tokens as u64);
    text.append(" tokens");
    proof {
        assert(text@ =~= message@ + "; original result was about "@ + decimal_chars(original_tokens as nat) + " tokens"@);
    }
    json_single_entry_object("__truncated__".to_owned(), text)
}

/// Where in `paths`, from `start` on, the first path to an array or object
/// whose replacement has fewer tokens than it stands; -1 when there is none.
pub open spec fn first_shrinking(m: JsonModel, paths: Seq<Seq<PathStep>>, target: nat, start: nat) -> int
    decreases paths.len() - start,
{
    if start >= paths.len() {
        -1
    } else {
        match model_at(m, paths[start as int]) {
            Some(x) => if is_container(x) && serialized_tokens(container_replacement(x, target)) < serialized_tokens(x) {
                start as int
            } else {
                first_shrinking(m, paths, target, start + 1)
            },
            None => first_shrinking(m, paths, target, start + 1),
        }
    }
}

pub proof fn lemma_first_shrinking(m: JsonModel, paths: Seq<Seq<PathStep>>, target: nat, start: nat)
    ensures
        first_shrinking(m, paths, target, start) == -1 || ({
            let k = first_shrinking(m, paths, target, start);
            &&& start <= k < paths.len()
            &&& model_at(m, paths[k]) is Some
            &&& is_container(model_at(m, paths[k])->Some_0)
        }),
    decreases paths.len() - start,
{
    if start < paths.len() {
        lemma_first_shrinking(m, paths, target, start + 1);
    }
}

/// The note that ends a truncation that could shrink nothing further.
pub open spec fn no_further_compression() -> Seq<char> {
    "result too large; no further compression is worthwhile"@
}

/// Over budget, the deepest container (first in document order among equals)
/// whose replacement string is smaller is replaced, and again, until the value
/// fits; when no container shrinks, a container is replaced by its own
/// string, a string is kept, and anything else becomes a short notice.
#[verifier::opaque]
pub open spec fn aggressive_model(m: JsonModel, target: nat) -> JsonModel
    decreases container_count(m),
{
    if serialized_tokens(m) <= target {
        m
    } else {
        let paths = deepest_first(container_paths(m, Seq::empty()));
        let k = first_shrinking(m, paths, target, 0);
        if k >= 0 {
            proof {
                lemma_first_shrinking(m, paths, target, 0);
                lemma_replace_count(m, paths[k], container_replacement(model_at(m, paths[k])->Some_0, target));
            }
            aggressive_model(model_replace(m, paths[k], container_replacement(model_at(m, paths[k])->Some_0, target)), target)
        } else {
            fallback_model(m, target)
        }
    }
}

/// What an over-budget value becomes when no container inside it shrinks: a
/// container its own replacement string, a string itself, anything else a
/// short notice.
pub open spec fn fallback_model(m: JsonModel, target: nat) -> JsonModel {
    if is_container(m) {
        container_replacement(m, target)
    } else if m is Str {
        m
    } else {
        too_large_value(no_further_compression(), serialized_tokens(m))
    }
}

/// One round of the aggressive truncation: where a container shrinks, the
/// result is that of the value with it replaced, which holds fewer
/// containers.
proof fn lemma_aggressive_round(m: JsonModel, target: nat)
    requires
        serialized_tokens(m) > target,
    ensures
        ({
            let paths = deepest_first(container_paths(m, Seq::empty()));
            let k = first_shrinking(m, paths, target, 0);
            if k >= 0 {
                let x = model_at(m, paths[k])->Some_0;
                let next = model_replace(m, paths[k], container_replacement(x, target));
                &&& k < paths.len()
                &&& model_at(m, paths[k]) is Some
                &&& container_count(next) < container_count(m)
                &&& aggressive_model(m, target) == aggressive_model(next, target)
            } else {
                aggressive_model(m, target) == fallback_model(m, target)
            }
        }),
{
    reveal(aggressive_model);
    let paths = deepest_first(container_paths(m, Seq::empty()));
    let k = first_shrinking(m, paths, target, 0);
    lemma_first_shrinking(m, paths, target, 0);
    if k >= 0 {
        let x = model_at(m, paths[k])->Some_0;
        lemma_replace_count(m, paths[k], container_replacement(x, target));
    }
}

/// The first of `paths` whose container shrinks when replaced, with its
/// replacement.
fn first_shrinking_container(value: &Value, paths: &Vec<Vec<JsonPathSegment>>, target: usize) -> (found: Option<(usize, Value)>)
    ensures
        match found {
            Some((k, replacement)) => k == first_shrinking(json_contents(*value), paths_view(paths@), target as nat, 0)
                && k < paths@.len() && json_contents(replacement) == container_replacement(
                model_at(json_contents(*value), paths_view(paths@)[k as int])->Some_0,
                target as nat,
            ),
            None => first_shrinking(json_contents(*value), paths_view(paths@), target as nat, 0) == -1,
        },
{
    let ghost m = json_contents(*value);
    let ghost views = paths_view(paths@);
    let mut i: usize = 0;
    while i < paths.len()
        invariant
            m == json_contents(*value),
            views == paths_view(paths@),
            i <= paths@.len(),
            first_shrinking(m, views, target as nat, 0) == first_shrinking(m, views, target as nat, i as nat),
        decreases paths.len() - i,
    {
        proof {
            assert(views[i as int] == path_view(paths@[i as int]@));
            assert(path_view(paths@[i as int]@).skip(0) =~= views[i as int]);
        }
        match value_at_path(value, &paths[i], 0) {
            Some(container) => {
                let kind = json_kind(container);
                if kind == JsonKind::Array || kind == JsonKind::Object {
                    let original_tokens = serialized_token_count(container);
                    let replacement = truncated_container_string(container, target);
                    if serialized_token_count(&replacement) < original_tokens {
                        return Some((i, replacement));
                    }
                }
                proof {
                    assert(first_shrinking(m, views, target as nat, i as nat) == first_shrinking(
                        m,
                        views,
                        target as nat,
                        (i + 1) as nat,
                    ));
                }
            },
            None => {},
        }
        i += 1;
    }
    None
}

/// What an over-budget value becomes when no container inside it shrinks.
fn truncation_fallback(value: Value, total_token_budget: usize, current_tokens: usize) -> (truncated: Value)
    requires
        current_tokens == serialized_tokens(json_contents(value)),
    ensures
        json_contents(truncated) == fallback_model(json_contents(value), total_token_budget as nat),
{
    let kind = json_kind(&value);
    if kind == JsonKind::Array || kind == JsonKind::Object {
        return truncated_container_string(&value, total_token_budget);
    }
    if kind == JsonKind::Str {
        return value;
    }
    truncated_value("result too large; no further compression is worthwhile", current_tokens)
}

/// The path to the container that the next round of the aggressive
/// truncation replaces, with its replacement; `None` when no container
/// shrinks.
fn shrinking_container(value: &Value, target: usize) -> (found: Option<(Vec<JsonPathSegment>, Value)>)
    ensures
        ({
            let m = json_contents(*value);
            let paths = deepest_first(container_paths(m, Seq::empty()));
            let k = first_shrinking(m, paths, target as nat, 0);
            match found {
                Some((path, replacement)) => {
                    &&& k >= 0
                    &&& path_view(path@) == paths[k]
                    &&& json_contents(replacement) == container_replacement(model_at(m, paths[k])->Some_0, target as nat)
                },
                None => k == -1,
            }
        }),
{
    let mut paths = Vec::new();
    let mut path: Vec<JsonPathSegment> = Vec::new();
    proof {
        assert(path_view(path@) =~= Seq::empty());
        assert(paths_view(paths@) =~= Seq::empty());
    }
    collect_container_paths(value, &mut path, &mut paths);
    proof {
        assert(paths_view(paths@) =~= container_paths(json_contents(*value), Seq::empty()));
    }
    let sorted = sort_deepest_first(paths);
    match first_shrinking_container(value, &sorted, target) {
        Some((k, replacement)) => {
            let found = clone_path(&sorted[k]);
            proof {
                assert(paths_view(sorted@)[k as int] == path_view(sorted@[k as int]@));
            }
            Some((found, replacement))
        },
        None => None,
    }
}

pub fn aggressively_truncate_containers(value: Value, total_token_budget: usize) -> (truncated: Value)
    ensures
        json_contents(truncated) == aggressive_model(json_contents(value), total_token_budget as nat),
{
    let mut current = value;
    loop
        invariant
            aggressive_model(json_contents(current), total_token_budget as nat) == aggressive_model(
                json_contents(value),
                total_token_budget as nat,
            ),
        decreases container_count(json_contents(current)),
    {
        let ghost m = json_contents(current);
        let current_tokens = serialized_token_count(&current);
        if current_tokens <= total_token_budget {
            proof {
                reveal(aggressive_model);
            }
            return current;
        }
        proof {
            lemma_aggressive_round(m, total_token_budget as nat);
        }
        match shrinking_container(&current, total_token_budget) {
            Some((path, replacement)) => {
                proof {
                    assert(path_view(path@).skip(0) =~= path_view(path@));
                }
                replace_at_path(&mut current, &path, 0, replacement);
            },
            None => {
                return truncation_fallback(current, total_token_budget, current_tokens);
            },
        }
    }
}

/// What a tool's output becomes under a budget of `budget` tokens.
pub open spec fn truncated_output_model(m: JsonModel, budget: nat) -> JsonModel {
    if serialized_tokens(m) <= budget {
        m
    } else {
        match m {
            JsonModel::Str(text) => JsonModel::Str(budget_truncated(vstd::utf8::encode_utf8(text), budget)),
            JsonModel::Array(_) | JsonModel::Object(_) => {
                let conservative = conservative_model(m, budget);
                if serialized_tokens(conservative) <= budget {
                    conservative
                } else {
                    aggressive_model(conservative, budget)
                }
            },
            _ => m,
        }
    }
}

pub fn truncate_tool_output_value(value: Value, total_token_budget: usize) -> (truncated: Value)
    ensures
        json_contents(truncated) == truncated_output_model(json_contents(value), total_token_budget as nat),
{
    let original_tokens = serialized_token_count(&value);
    if original_tokens <= total_token_budget {
        return value;
    }
    match json_kind(&value) {
        JsonKind::Str => {
            let text = json_as_str(&value).unwrap();
            json_string(truncate_text_to_token_budget(text, total_token_budget))
        },
        JsonKind::Array | JsonKind::Object => {
            let conservative = conservatively_truncate_strings(value, total_token_budget);
            if serialized_token_count(&conservative) <= total_token_budget {
                conservative
            } else {
                aggressively_truncate_containers(conservative, total_token_budget)
            }
        },
        _ => value,
    }
}

pub fn truncate_tool_output(output: ToolCallOutput, limits: ToolOutputLimits) -> (truncated: ToolCallOutput)
    ensures
        json_contents(truncated.0) == truncated_output_model(json_contents(output.0), limits.output_threshold_tokens as nat),
{
    ToolCallOutput::new(truncate_tool_output_value(output.into_value(), limits.output_threshold_tokens))
}

/// A text cut to a token budget that covers the notice reserve fits the
/// budget.
pub proof fn budget_truncation_fits(b: Seq<u8>, budget: nat)
    requires
        vstd::utf8::valid_utf8(b),
        b.len() <= usize::MAX,
        budget <= usize::MAX,
        notice_reserve_tokens(b.len()) <= budget,
    ensures
        tokens_for_bytes(utf8_len(budget_truncated(b, budget))) <= budget,
{
    let n = b.len();
    lemma_marker_bounds(n, n);
    let notice = tokens_for_bytes(utf8_len(marker_chars(n, n)));
    assert(sat_mul(notice, 3) == notice * 3);
    let reserve = notice_reserve_tokens(n);
    assert(reserve >= notice);
    assert(budget > 0);
    let left = (budget - reserve) as nat;
    let body = budget_body_bytes(n, budget);
    assert(body <= 4 * left);
    assert(body == 4 * left || body == usize::MAX);
    lemma_middle_truncated_len(b, body);
}

/// A text formatted to a token budget fits the budget whenever the text
/// already does or the budget covers the notice reserve.
pub proof fn formatted_truncation_fits(b: Seq<u8>, budget: nat)
    requires
        vstd::utf8::valid_utf8(b),
        b.len() <= usize::MAX,
        budget <= usize::MAX,
        tokens_for_bytes(b.len()) <= budget || notice_reserve_tokens(b.len()) <= budget,
    ensures
        tokens_for_bytes(utf8_len(formatted_truncated(b, budget))) <= budget,
{
    if tokens_for_bytes(b.len()) <= budget {
        vstd::utf8::decode_utf8_encode_utf8(b);
    } else {
        budget_truncation_fits(b, budget);
    }
}

} // verus!
