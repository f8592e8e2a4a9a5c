//! Sharing a token budget among the string leaves of a JSON value: the
//! smallest leaves are served first, each gets at most an even share of what
//! is left, and a leaf over its share is truncated to it.
use vstd::prelude::*;
use vstd::string::StringSliceAdditionalSpecFns;

use serde_json::Value;

use crate::executor::json::{
    blank_model, lemma_blank_replace, leaf_views, json_as_str, json_string, json_contents, model_at, model_replace, path_view, replace_at_path, value_at_path,
    JsonModel, PathStep, StringLeaf,
};
use crate::executor::{sanitizer, truncation};
use crate::text::sat_sub;

verus! {

/// A leaf as the specification sees it: its path and its token estimate.
pub type LeafView = (Seq<PathStep>, nat);

/// `leaf` put after every leaf of `sorted` with as many tokens or fewer, and
/// before the rest.
pub open spec fn insert_by_tokens(sorted: Seq<LeafView>, leaf: LeafView) -> Seq<LeafView>
    decreases sorted.len(),
{
    if sorted.len() == 0 {
        seq![leaf]
    } else if leaf.1 < sorted.last().1 {
        insert_by_tokens(sorted.drop_last(), leaf).push(sorted.last())
    } else {
        sorted.push(leaf)
    }
}

/// The leaves ordered by token estimate, ties kept in their order.
pub open spec fn sorted_by_tokens(leaves: Seq<LeafView>) -> Seq<LeafView>
    decreases leaves.len(),
{
    if leaves.len() == 0 {
        Seq::empty()
    } else {
        insert_by_tokens(sorted_by_tokens(leaves.drop_last()), leaves.last())
    }
}

/// The tokens of all the leaves together.
pub open spec fn total_tokens(leaves: Seq<LeafView>) -> nat
    decreases leaves.len(),
{
    if leaves.len() == 0 {
        0
    } else {
        total_tokens(leaves.drop_last()) + leaves.last().1
    }
}

/// The tokens assigned to each leaf in turn: an even share of the budget
/// left for the leaves left, but no more than the leaf has.
pub open spec fn shares(leaves: Seq<LeafView>, budget: nat) -> Seq<nat>
    decreases leaves.len(),
{
    if leaves.len() == 0 {
        Seq::empty()
    } else {
        let share = budget / leaves.len();
        let assigned = if share < leaves[0].1 { share } else { leaves[0].1 };
        seq![assigned] + shares(leaves.drop_first(), sat_sub(budget, assigned))
    }
}

/// Whether the leaves come in ascending order of their token estimates.
pub open spec fn ascending(leaves: Seq<LeafView>) -> bool {
    forall|i: int, j: int| 0 <= i < j < leaves.len() ==> (#[trigger] leaves[i]).1 <= (#[trigger] leaves[j]).1
}

/// The sum of token assignments.
pub open spec fn assigned_total(assigned: Seq<nat>) -> nat
    decreases assigned.len(),
{
    if assigned.len() == 0 {
        0
    } else {
        assigned[0] + assigned_total(assigned.drop_first())
    }
}

/// The tokens of the leaves are the first leaf's and those of the rest.
proof fn lemma_total_front(leaves: Seq<LeafView>)
    requires
        leaves.len() > 0,
    ensures
        total_tokens(leaves) == leaves[0].1 + total_tokens(leaves.drop_first()),
    decreases leaves.len(),
{
    if leaves.len() == 1 {
        assert(leaves.drop_first() =~= Seq::<LeafView>::empty());
        assert(leaves.drop_last() =~= Seq::<LeafView>::empty());
    } else {
        lemma_total_front(leaves.drop_last());
        assert(leaves.drop_last().drop_first() =~= leaves.drop_first().drop_last());
        assert(leaves.drop_first().last() == leaves.last());
    }
}

/// Leaves of at least `low` tokens each have at least `low` tokens per leaf.
proof fn lemma_total_at_least(leaves: Seq<LeafView>, low: nat)
    requires
        forall|i: int| 0 <= i < leaves.len() ==> low <= (#[trigger] leaves[i]).1,
    ensures
        total_tokens(leaves) >= leaves.len() * low,
    decreases leaves.len(),
{
    if leaves.len() > 0 {
        let init = leaves.drop_last();
        assert forall|i: int| 0 <= i < init.len() implies low <= (#[trigger] init[i]).1 by {
            assert(init[i] == leaves[i]);
        }
        lemma_total_at_least(init, low);
        let n = leaves.len();
        assert((n - 1) * low + low == n * low) by (nonlinear_arith);
    }
}

/// The budget shared among leaves in ascending order of tokens: each leaf is
/// assigned no more than it has, and what a leaf leaves unused goes on to the
/// later ones, so that the assignments add up to the whole budget, or to all
/// the tokens where the budget is larger.
pub proof fn shares_use_the_budget(leaves: Seq<LeafView>, budget: nat)
    requires
        ascending(leaves),
    ensures
        shares(leaves, budget).len() == leaves.len(),
        forall|i: int| 0 <= i < leaves.len() ==> #[trigger] shares(leaves, budget)[i] <= leaves[i].1,
        assigned_total(shares(leaves, budget)) == if budget <= total_tokens(leaves) {
            budget
        } else {
            total_tokens(leaves)
        },
    decreases leaves.len(),
{
    if leaves.len() > 0 {
        let n = leaves.len();
        let t0 = leaves[0].1;
        let share = budget / n;
        let assigned = if share < t0 { share } else { t0 };
        let rest = leaves.drop_first();
        assert(share <= budget) by {
            vstd::arithmetic::div_mod::lemma_div_is_ordered_by_denominator(budget as int, 1, n as int);
        }
        let left = sat_sub(budget, assigned);
        assert(left == budget - assigned);
        assert(ascending(rest)) by {
            assert forall|i: int, j: int| 0 <= i < j < rest.len() implies (#[trigger] rest[i]).1 <= (#[trigger] rest[j]).1 by {
                assert(rest[i] == leaves[i + 1] && rest[j] == leaves[j + 1]);
            }
        }
        shares_use_the_budget(rest, left);
        let all = shares(leaves, budget);
        assert(all == seq![assigned] + shares(rest, left));
        assert(all.drop_first() =~= shares(rest, left));
        assert forall|i: int| 0 <= i < leaves.len() implies #[trigger] shares(leaves, budget)[i] <= leaves[i].1 by {
            if i > 0 {
                assert(all[i] == shares(rest, left)[i - 1]);
                assert(rest[i - 1] == leaves[i]);
            }
        }
        lemma_total_front(leaves);
        if share < t0 {
            assert forall|i: int| 0 <= i < rest.len() implies t0 <= (#[trigger] rest[i]).1 by {
                assert(rest[i] == leaves[i + 1]);
                assert(leaves[0].1 <= leaves[i + 1].1);
            }
            lemma_total_at_least(rest, t0);
            let rem = budget % n;
            assert(budget == n * share + rem && rem < n) by {
                vstd::arithmetic::div_mod::lemma_fundamental_div_mod(budget as int, n as int);
            }
            assert(budget - share <= (n - 1) * (share + 1)) by (nonlinear_arith)
                requires
                    budget == n * share + rem,
                    rem < n,
                    n >= 1,
            ;
            assert((n - 1) * (share + 1) <= (n - 1) * t0) by (nonlinear_arith)
                requires
                    share + 1 <= t0,
                    n >= 1,
            ;
            assert(n * (share + 1) > budget) by (nonlinear_arith)
                requires
                    budget == n * share + rem,
                    rem < n,
            ;
            assert((n - 1) * t0 + t0 >= n * (share + 1)) by (nonlinear_arith)
                requires
                    share + 1 <= t0,
                    n >= 1,
            ;
        }
    }
}

/// Inserting a leaf into ascending leaves keeps them ascending, adds its
/// tokens to the total, and keeps every estimate within a common bound.
proof fn lemma_insert_by_tokens(sorted: Seq<LeafView>, leaf: LeafView, bound: nat)
    requires
        ascending(sorted),
    ensures
        ascending(insert_by_tokens(sorted, leaf)),
        insert_by_tokens(sorted, leaf).len() == sorted.len() + 1,
        total_tokens(insert_by_tokens(sorted, leaf)) == total_tokens(sorted) + leaf.1,
        (forall|i: int| 0 <= i < sorted.len() ==> (#[trigger] sorted[i]).1 <= bound) && leaf.1 <= bound ==> forall|i: int|
            0 <= i < insert_by_tokens(sorted, leaf).len() ==> (#[trigger] insert_by_tokens(sorted, leaf)[i]).1 <= bound,
    decreases sorted.len(),
{
    if sorted.len() == 0 {
        assert(seq![leaf].drop_last() =~= Seq::<LeafView>::empty());
        assert(total_tokens(seq![leaf]) == total_tokens(Seq::<LeafView>::empty()) + leaf.1);
    } else if leaf.1 < sorted.last().1 {
        let init = sorted.drop_last();
        let last = sorted.last();
        assert(ascending(init)) by {
            assert forall|i: int, j: int| 0 <= i < j < init.len() implies (#[trigger] init[i]).1 <= (#[trigger] init[j]).1 by {
                assert(init[i] == sorted[i] && init[j] == sorted[j]);
            }
        }
        lemma_insert_by_tokens(init, leaf, last.1);
        assert forall|i: int| 0 <= i < init.len() implies (#[trigger] init[i]).1 <= last.1 by {
            assert(init[i] == sorted[i]);
        }
        if (forall|i: int| 0 <= i < sorted.len() ==> (#[trigger] sorted[i]).1 <= bound) && leaf.1 <= bound {
            assert forall|i: int| 0 <= i < init.len() implies (#[trigger] init[i]).1 <= bound by {
                assert(init[i] == sorted[i]);
            }
            lemma_insert_by_tokens(init, leaf, bound);
            assert(last == sorted[sorted.len() - 1]);
        }
        let inserted = insert_by_tokens(init, leaf);
        assert(insert_by_tokens(sorted, leaf) == inserted.push(last));
        assert(inserted.push(last).drop_last() =~= inserted);
        assert(total_tokens(inserted.push(last)) == total_tokens(inserted) + last.1);
        assert(total_tokens(sorted) == total_tokens(init) + last.1);
    } else {
        assert(sorted.push(leaf).drop_last() =~= sorted);
        assert(sorted.last() == sorted[sorted.len() - 1]);
        assert(total_tokens(sorted.push(leaf)) == total_tokens(sorted) + leaf.1);
    }
}

/// Sorting leaves by tokens gives them in ascending order, with the same
/// tokens in all.
pub proof fn sorted_leaves_ascend(leaves: Seq<LeafView>)
    ensures
        ascending(sorted_by_tokens(leaves)),
        sorted_by_tokens(leaves).len() == leaves.len(),
        total_tokens(sorted_by_tokens(leaves)) == total_tokens(leaves),
    decreases leaves.len(),
{
    if leaves.len() > 0 {
        sorted_leaves_ascend(leaves.drop_last());
        lemma_insert_by_tokens(sorted_by_tokens(leaves.drop_last()), leaves.last(), 0);
    }
}

/// The budget shared among leaves sorted by tokens: no leaf is assigned more
/// than it has, and the assignments add up to the budget, or to all the
/// leaves' tokens where the budget is larger.
pub proof fn sorted_shares_use_the_budget(leaves: Seq<LeafView>, budget: nat)
    ensures
        forall|i: int|
            0 <= i < leaves.len() ==> #[trigger] shares(sorted_by_tokens(leaves), budget)[i] <= sorted_by_tokens(leaves)[i].1,
        assigned_total(shares(sorted_by_tokens(leaves), budget)) == if budget <= total_tokens(leaves) {
            budget
        } else {
            total_tokens(leaves)
        },
{
    sorted_leaves_ascend(leaves);
    shares_use_the_budget(sorted_by_tokens(leaves), budget);
}

/// What a leaf's text becomes under a budget: with `keep_notice`, a budget of
/// zero leaves the truncation notice, else nothing.
pub open spec fn leaf_truncated(text: Seq<char>, budget: nat, keep_notice: bool) -> Seq<char> {
    if keep_notice {
        truncation::budget_truncated(vstd::utf8::encode_utf8(text), budget)
    } else {
        sanitizer::budget_truncated(vstd::utf8::encode_utf8(text), budget)
    }
}

/// The value once each leaf in turn whose assignment is below its estimate
/// is truncated to it (where its path still leads to a string).
pub open spec fn apply_shares(m: JsonModel, leaves: Seq<LeafView>, assigned: Seq<nat>, keep_notice: bool) -> JsonModel
    decreases leaves.len(),
{
    if leaves.len() == 0 || assigned.len() == 0 {
        m
    } else {
        let leaf = leaves[0];
        let next = if assigned[0] < leaf.1 {
            match model_at(m, leaf.0) {
                Some(JsonModel::Str(text)) => model_replace(m, leaf.0, JsonModel::Str(leaf_truncated(text, assigned[0], keep_notice))),
                _ => m,
            }
        } else {
            m
        };
        apply_shares(next, leaves.drop_first(), assigned.drop_first(), keep_notice)
    }
}


/// Truncating leaves to their shares keeps the shape of the value: only the
/// texts of strings change.
pub proof fn shares_keep_structure(m: JsonModel, leaves: Seq<LeafView>, assigned: Seq<nat>, keep_notice: bool)
    ensures
        blank_model(apply_shares(m, leaves, assigned, keep_notice)) == blank_model(m),
    decreases leaves.len(),
{
    if leaves.len() > 0 && assigned.len() > 0 {
        let leaf = leaves[0];
        let next = if assigned[0] < leaf.1 {
            match model_at(m, leaf.0) {
                Some(JsonModel::Str(text)) => model_replace(
                    m,
                    leaf.0,
                    JsonModel::Str(leaf_truncated(text, assigned[0], keep_notice)),
                ),
                _ => m,
            }
        } else {
            m
        };
        if assigned[0] < leaf.1 {
            if let Some(JsonModel::Str(text)) = model_at(m, leaf.0) {
                lemma_blank_replace(m, leaf.0, JsonModel::Str(leaf_truncated(text, assigned[0], keep_notice)));
            }
        }
        shares_keep_structure(next, leaves.drop_first(), assigned.drop_first(), keep_notice);
    }
}

proof fn lemma_insert_position(sorted: Seq<LeafView>, leaf: LeafView, p: int)
    requires
        0 <= p <= sorted.len(),
        forall|j: int| p <= j < sorted.len() ==> leaf.1 < #[trigger] sorted[j].1,
        p == 0 || !(leaf.1 < sorted[p - 1].1),
    ensures
        insert_by_tokens(sorted, leaf) == sorted.take(p).push(leaf) + sorted.skip(p),
    decreases sorted.len(),
{
    if sorted.len() == 0 {
        assert(sorted.take(p).push(leaf) + sorted.skip(p) =~= seq![leaf]);
    } else if p == sorted.len() {
        assert(sorted.take(p).push(leaf) + sorted.skip(p) =~= sorted.push(leaf));
    } else {
        let init = sorted.drop_last();
        assert forall|j: int| p <= j < init.len() implies leaf.1 < #[trigger] init[j].1 by {
            assert(init[j] == sorted[j]);
        }
        lemma_insert_position(init, leaf, p);
        assert(init.take(p).push(leaf) + init.skip(p) + seq![sorted.last()] =~= sorted.take(p).push(leaf) + sorted.skip(p));
    }
}

/// The leaves sorted by token estimate, ties in their order.
pub fn sort_leaves(leaves: Vec<StringLeaf>) -> (sorted: Vec<StringLeaf>)
    ensures
        leaf_views(sorted@) == sorted_by_tokens(leaf_views(leaves@)),
{
    let ghost all = leaf_views(leaves@);
    let mut sorted: Vec<StringLeaf> = Vec::new();
    let mut rest = leaves;
    let ghost n = all.len();
    while rest.len() > 0
        invariant
            n == all.len(),
            rest@.len() <= n,
            leaf_views(rest@) == all.skip(n - rest@.len()),
            leaf_views(sorted@) == sorted_by_tokens(all.take(n - rest@.len())),
        decreases rest.len(),
    {
        let ghost done = (n - rest@.len()) as int;
        let ghost old_rest = rest@;
        let leaf = rest.remove(0);
        proof {
            assert(leaf == old_rest[0]);
            assert(leaf_views(old_rest)[0] == all.skip(done)[0]);
            assert(leaf_views(old_rest)[0] == (path_view(leaf.path@), leaf.tokens as nat));
            assert(rest@ =~= old_rest.drop_first());
            assert forall|j: int| 0 <= j < leaf_views(rest@).len() implies #[trigger] leaf_views(rest@)[j] == all.skip(done + 1)[j] by {
                assert(leaf_views(rest@)[j] == leaf_views(old_rest)[j + 1]);
                assert(leaf_views(old_rest)[j + 1] == all.skip(done)[j + 1]);
            }
            assert(leaf_views(rest@) =~= all.skip(done + 1));
            assert((path_view(leaf.path@), leaf.tokens as nat) == all[done]);
            assert(all.take(done + 1).drop_last() =~= all.take(done));
        }
        let mut p = sorted.len();
        while p > 0 && leaf.tokens < sorted[p - 1].tokens
            invariant
                p <= sorted@.len(),
                forall|j: int| p <= j < sorted@.len() ==> leaf.tokens < #[trigger] sorted@[j].tokens,
            decreases p,
        {
            p -= 1;
        }
        let ghost before = leaf_views(sorted@);
        let ghost sorted_before = sorted@;
        let ghost leaf_view = (path_view(leaf.path@), leaf.tokens as nat);
        proof {
            if p > 0 {
                assert(!(leaf_view.1 < before[p - 1].1));
            }
        }
        sorted.insert(p, leaf);
        proof {
            assert forall|j: int| p <= j < before.len() implies leaf_view.1 < #[trigger] before[j].1 by {
                assert(before[j].1 == sorted_before[j].tokens as nat);
            }
            lemma_insert_position(before, leaf_view, p as int);
            assert(leaf_views(sorted@) =~= before.take(p as int).push(leaf_view) + before.skip(p as int));
        }
    }
    assert(all.take(n as int) =~= all);
    sorted
}

/// Whether the leaves together have no more tokens than `budget`.
pub fn leaves_fit(leaves: &Vec<StringLeaf>, budget: usize) -> (fit: bool)
    ensures
        fit == (total_tokens(leaf_views(leaves@)) <= budget),
{
    let ghost views = leaf_views(leaves@);
    let mut sum: usize = 0;
    let mut i: usize = 0;
    while i < leaves.len()
        invariant
            views == leaf_views(leaves@),
            i <= leaves@.len(),
            sum == total_tokens(views.take(i as int)),
        decreases leaves.len() - i,
    {
        proof {
            assert(views.take(i + 1).drop_last() =~= views.take(i as int));
            assert(views.take(i + 1).last() == views[i as int]);
        }
        match sum.checked_add(leaves[i].tokens) {
            Some(next) => {
                sum = next;
            },
            None => {
                proof {
                    lemma_total_tokens_prefix(views, i + 1, views.len() as int);
                    assert(views.take(views.len() as int) =~= views);
                }
                return false;
            },
        }
        i += 1;
    }
    assert(views.take(i as int) =~= views);
    sum <= budget
}

/// A longer prefix has no fewer tokens.
proof fn lemma_total_tokens_prefix(views: Seq<LeafView>, i: int, j: int)
    requires
        0 <= i <= j <= views.len(),
    ensures
        total_tokens(views.take(i)) <= total_tokens(views.take(j)),
    decreases j - i,
{
    if i < j {
        lemma_total_tokens_prefix(views, i, j - 1);
        assert(views.take(j).drop_last() =~= views.take(j - 1));
    }
}

/// The truncation of one leaf's text to its assignment.
fn truncate_leaf_text(text: &str, budget: usize, keep_notice: bool) -> (truncated: String)
    ensures
        truncated@ == leaf_truncated(text@, budget as nat, keep_notice),
{
    if keep_notice {
        truncation::truncate_text_to_token_budget(text, budget)
    } else {
        sanitizer::truncate_text_to_token_budget(text, budget)
    }
}

/// Shares `budget` among `sorted`, in order, and truncates each leaf that is
/// over its share.
pub fn apply_leaf_budget(value: &mut Value, sorted: &Vec<StringLeaf>, budget: usize, keep_notice: bool)
    ensures
        json_contents(*final(value)) == apply_shares(
            json_contents(*old(value)),
            leaf_views(sorted@),
            shares(leaf_views(sorted@), budget as nat),
            keep_notice,
        ),
{
    let ghost views = leaf_views(sorted@);
    let ghost target = apply_shares(json_contents(*value), views, shares(views, budget as nat), keep_notice);
    let mut remaining: usize = budget;
    let mut i: usize = 0;
    assert(views.skip(0) =~= views);
    while i < sorted.len()
        invariant
            views == leaf_views(sorted@),
            i <= sorted@.len(),
            apply_shares(json_contents(*value), views.skip(i as int), shares(views.skip(i as int), remaining as nat), keep_notice)
                == target,
        decreases sorted.len() - i,
    {
        let ghost rest = views.skip(i as int);
        let ghost current = json_contents(*value);
        let leaf = &sorted[i];
        let left = sorted.len() - i;
        let share = remaining / left;
        let assigned = if share < leaf.tokens { share } else { leaf.tokens };
        proof {
            assert(rest[0] == (path_view(leaf.path@), leaf.tokens as nat));
            assert(rest.len() == left);
            assert(shares(rest, remaining as nat) == seq![assigned as nat] + shares(rest.drop_first(), sat_sub(
                remaining as nat,
                assigned as nat,
            )));
            assert(rest.drop_first() =~= views.skip(i + 1));
            assert(path_view(leaf.path@).skip(0) =~= path_view(leaf.path@));
        }
        if assigned < leaf.tokens {
            let replacement = match value_at_path(value, &leaf.path, 0) {
                Some(found) => match json_as_str(found) {
                    Some(text) => Some(truncate_leaf_text(text, assigned, keep_notice)),
                    None => None,
                },
                None => None,
            };
            match replacement {
                Some(replacement) => {
                    replace_at_path(value, &leaf.path, 0, json_string(replacement));
                },
                None => {},
            }
        }
        remaining = if remaining >= assigned { remaining - assigned } else { 0 };
        i += 1;
        proof {
            let shared = shares(rest, (remaining + assigned) as nat);
            assert(shared.drop_first() == shares(rest.drop_first(), remaining as nat));
        }
    }
    proof {
        assert(views.skip(i as int) =~= Seq::<LeafView>::empty());
    }
}

} // verus!
