//! The arrays and objects inside a JSON value: how many there are, the paths
//! that lead to them, and those paths deepest first.
use vstd::prelude::*;

use serde_json::Value;

use crate::executor::json::{
    clone_path, json_array_item, json_array_len, json_contents, json_kind, json_object_entry, json_object_len,
    model_at, model_child, model_put, model_replace, path_view, JsonKind, JsonModel, JsonPathSegment, PathStep,
    first_key_index, lemma_first_key_index_bound,
};

verus! {

pub open spec fn is_container(m: JsonModel) -> bool {
    m is Array || m is Object
}

/// How many arrays and objects `m` holds, itself included.
pub open spec fn container_count(m: JsonModel) -> nat
    decreases m, 0nat,
{
    match m {
        JsonModel::Array(items) => 1 + items_count(items, 0),
        JsonModel::Object(entries) => 1 + entries_count(entries, 0),
        _ => 0,
    }
}

pub open spec fn items_count(items: Seq<JsonModel>, start: nat) -> nat
    decreases items, (items.len() - start) as nat,
{
    if start >= items.len() {
        0
    } else {
        container_count(items[start as int]) + items_count(items, start + 1)
    }
}

pub open spec fn entries_count(entries: Seq<(Seq<char>, JsonModel)>, start: nat) -> nat
    decreases entries, (entries.len() - start) as nat,
{
    if start >= entries.len() {
        0
    } else {
        container_count(entries[start as int].1) + entries_count(entries, start + 1)
    }
}

proof fn lemma_items_count_update(items: Seq<JsonModel>, start: nat, i: int, c: JsonModel)
    requires
        0 <= i < items.len(),
    ensures
        items_count(items.update(i, c), start) + (if start <= i { container_count(items[i]) } else { 0 }) == items_count(
            items,
            start,
        ) + (if start <= i { container_count(c) } else { 0 }),
    decreases items.len() - start,
{
    let updated = items.update(i, c);
    if start < items.len() {
        lemma_items_count_update(items, start + 1, i, c);
        assert(items_count(updated, start) == container_count(updated[start as int]) + items_count(updated, start + 1));
    }
}

proof fn lemma_entries_count_update(entries: Seq<(Seq<char>, JsonModel)>, start: nat, i: int, c: JsonModel)
    requires
        0 <= i < entries.len(),
    ensures
        entries_count(entries.update(i, (entries[i].0, c)), start) + (if start <= i {
            container_count(entries[i].1)
        } else {
            0
        }) == entries_count(entries, start) + (if start <= i { container_count(c) } else { 0 }),
    decreases entries.len() - start,
{
    let updated = entries.update(i, (entries[i].0, c));
    if start < entries.len() {
        lemma_entries_count_update(entries, start + 1, i, c);
        assert(entries_count(updated, start) == container_count(updated[start as int].1) + entries_count(
            updated,
            start + 1,
        ));
    }
}

/// Putting `c` in place of a child changes the count by the difference.
proof fn lemma_put_count(m: JsonModel, step: PathStep, c: JsonModel)
    requires
        model_child(m, step) is Some,
    ensures
        container_count(model_put(m, step, c)) + container_count(model_child(m, step)->Some_0) == container_count(m)
            + container_count(c),
{
    match (m, step) {
        (JsonModel::Object(entries), PathStep::Key(key)) => {
            let i = first_key_index(entries, key);
            lemma_first_key_index_bound(entries, key);
            lemma_entries_count_update(entries, 0, i, c);
        },
        (JsonModel::Array(items), PathStep::Index(i)) => {
            lemma_items_count_update(items, 0, i as int, c);
        },
        _ => {},
    }
}

/// Replacing the value at a path changes the count by the difference.
pub proof fn lemma_replace_count(m: JsonModel, path: Seq<PathStep>, new: JsonModel)
    requires
        model_at(m, path) is Some,
    ensures
        container_count(model_replace(m, path, new)) + container_count(model_at(m, path)->Some_0) == container_count(m)
            + container_count(new),
    decreases path.len(),
{
    if path.len() > 0 {
        let child = model_child(m, path[0])->Some_0;
        lemma_replace_count(child, path.skip(1), new);
        lemma_put_count(m, path[0], model_replace(child, path.skip(1), new));
    }
}

/// The paths (after `prefix`) to the arrays and objects of `m`, each before
/// those inside it, in document order.
pub open spec fn container_paths(m: JsonModel, prefix: Seq<PathStep>) -> Seq<Seq<PathStep>>
    decreases m, 0nat,
{
    match m {
        JsonModel::Array(items) => seq![prefix] + item_paths(items, 0, prefix),
        JsonModel::Object(entries) => seq![prefix] + entry_paths(entries, 0, prefix),
        _ => Seq::empty(),
    }
}

pub open spec fn item_paths(items: Seq<JsonModel>, start: nat, prefix: Seq<PathStep>) -> Seq<Seq<PathStep>>
    decreases items, (items.len() - start) as nat,
{
    if start >= items.len() {
        Seq::empty()
    } else {
        container_paths(items[start as int], prefix.push(PathStep::Index(start))) + item_paths(items, start + 1, prefix)
    }
}

pub open spec fn entry_paths(entries: Seq<(Seq<char>, JsonModel)>, start: nat, prefix: Seq<PathStep>) -> Seq<
    Seq<PathStep>,
>
    decreases entries, (entries.len() - start) as nat,
{
    if start >= entries.len() {
        Seq::empty()
    } else {
        container_paths(entries[start as int].1, prefix.push(PathStep::Key(entries[start as int].0))) + entry_paths(
            entries,
            start + 1,
            prefix,
        )
    }
}

/// The steps of each path.
pub open spec fn paths_view(paths: Seq<Vec<JsonPathSegment>>) -> Seq<Seq<PathStep>> {
    paths.map_values(|path: Vec<JsonPathSegment>| path_view(path@))
}

/// Appends the paths to the arrays and objects of `value`, found under
/// `path`, to `paths`; `path` is left as it was.
pub fn collect_container_paths(value: &Value, path: &mut Vec<JsonPathSegment>, paths: &mut Vec<Vec<JsonPathSegment>>)
    ensures
        path_view(final(path)@) == path_view(old(path)@),
        paths_view(final(paths)@) == paths_view(old(paths)@) + container_paths(
            json_contents(*value),
            path_view(old(path)@),
        ),
    decreases json_contents(*value),
{
    let ghost prefix = path_view(path@);
    match json_kind(value) {
        JsonKind::Array => {
            let ghost items = json_contents(*value)->Array_0;
            paths.push(clone_path(path));
            let ghost start = paths_view(paths@);
            proof {
                assert(start == paths_view(old(paths)@) + seq![prefix]);
            }
            let len = json_array_len(value);
            let mut i: usize = 0;
            while i < len
                invariant
                    json_contents(*value) == JsonModel::Array(items),
                    len == items.len(),
                    i <= len,
                    path_view(path@) == prefix,
                    paths_view(paths@) + item_paths(items, i as nat, prefix) == start + item_paths(items, 0, prefix),
                decreases len - i,
            {
                let ghost before = paths_view(paths@);
                let item = json_array_item(value, i);
                path.push(JsonPathSegment::Index(i));
                proof {
                    assert(path_view(path@) =~= prefix.push(PathStep::Index(i as nat)));
                    assert(decreases_to!(json_contents(*value) => items));
                }
                collect_container_paths(item, path, paths);
                let ghost pushed = path@;
                path.pop();
                proof {
                    assert(path@ =~= pushed.drop_last());
                    assert(path_view(path@) =~= path_view(pushed).drop_last());
                    assert(path_view(path@) =~= prefix);
                    assert(item_paths(items, i as nat, prefix) == container_paths(
                        items[i as int],
                        prefix.push(PathStep::Index(i as nat)),
                    ) + item_paths(items, (i + 1) as nat, prefix));
                    assert(paths_view(paths@) + item_paths(items, (i + 1) as nat, prefix) =~= before + item_paths(
                        items,
                        i as nat,
                        prefix,
                    ));
                }
                i += 1;
            }
            proof {
                assert(item_paths(items, len as nat, prefix) =~= Seq::empty());
                assert(paths_view(paths@) =~= paths_view(old(paths)@) + container_paths(json_contents(*value), prefix));
            }
        },
        JsonKind::Object => {
            let ghost entries = json_contents(*value)->Object_0;
            paths.push(clone_path(path));
            let ghost start = paths_view(paths@);
            proof {
                assert(start == paths_view(old(paths)@) + seq![prefix]);
            }
            let len = json_object_len(value);
            let mut i: usize = 0;
            while i < len
                invariant
                    json_contents(*value) == JsonModel::Object(entries),
                    len == entries.len(),
                    i <= len,
                    path_view(path@) == prefix,
                    paths_view(paths@) + entry_paths(entries, i as nat, prefix) == start + entry_paths(
                        entries,
                        0,
                        prefix,
                    ),
                decreases len - i,
            {
                let ghost before = paths_view(paths@);
                let (key, child) = json_object_entry(value, i);
                path.push(JsonPathSegment::Key(key.clone()));
                proof {
                    assert(path_view(path@) =~= prefix.push(PathStep::Key(entries[i as int].0)));
                    assert(decreases_to!(json_contents(*value) => entries));
                }
                collect_container_paths(child, path, paths);
                let ghost pushed = path@;
                path.pop();
                proof {
                    assert(path@ =~= pushed.drop_last());
                    assert(path_view(path@) =~= path_view(pushed).drop_last());
                    assert(path_view(path@) =~= prefix);
                    let step = PathStep::Key(entries[i as int].0);
                    assert(entry_paths(entries, i as nat, prefix) == container_paths(entries[i as int].1, prefix.push(step))
                        + entry_paths(entries, (i + 1) as nat, prefix));
                    assert(paths_view(paths@) + entry_paths(entries, (i + 1) as nat, prefix) =~= before
                        + entry_paths(entries, i as nat, prefix));
                }
                i += 1;
            }
            proof {
                assert(entry_paths(entries, len as nat, prefix) =~= Seq::empty());
                assert(paths_view(paths@) =~= paths_view(old(paths)@) + container_paths(json_contents(*value), prefix));
            }
        },
        _ => {
            proof {
                assert(container_paths(json_contents(*value), prefix) =~= Seq::empty());
                assert(paths_view(paths@) =~= paths_view(old(paths)@) + container_paths(json_contents(*value), prefix));
            }
        },
    }
}

/// `path` put after every path of `sorted` at least as deep, and before the
/// shallower rest.
pub open spec fn insert_by_depth(sorted: Seq<Seq<PathStep>>, path: Seq<PathStep>) -> Seq<Seq<PathStep>>
    decreases sorted.len(),
{
    if sorted.len() == 0 {
        seq![path]
    } else if path.len() > sorted.last().len() {
        insert_by_depth(sorted.drop_last(), path).push(sorted.last())
    } else {
        sorted.push(path)
    }
}

/// The paths, deepest first, paths of one depth kept in their order.
pub open spec fn deepest_first(paths: Seq<Seq<PathStep>>) -> Seq<Seq<PathStep>>
    decreases paths.len(),
{
    if paths.len() == 0 {
        Seq::empty()
    } else {
        insert_by_depth(deepest_first(paths.drop_last()), paths.last())
    }
}

proof fn lemma_depth_position(sorted: Seq<Seq<PathStep>>, path: Seq<PathStep>, p: int)
    requires
        0 <= p <= sorted.len(),
        forall|j: int| p <= j < sorted.len() ==> path.len() > (#[trigger] sorted[j]).len(),
        p == 0 || !(path.len() > sorted[p - 1].len()),
    ensures
        insert_by_depth(sorted, path) == sorted.take(p).push(path) + sorted.skip(p),
    decreases sorted.len(),
{
    if sorted.len() == 0 {
        assert(sorted.take(p).push(path) + sorted.skip(p) =~= seq![path]);
    } else if p == sorted.len() {
        assert(sorted.take(p).push(path) + sorted.skip(p) =~= sorted.push(path));
    } else {
        let init = sorted.drop_last();
        assert forall|j: int| p <= j < init.len() implies path.len() > (#[trigger] init[j]).len() by {
            assert(init[j] == sorted[j]);
        }
        lemma_depth_position(init, path, p);
        assert(init.take(p).push(path) + init.skip(p) + seq![sorted.last()] =~= sorted.take(p).push(path) + sorted.skip(p));
    }
}

/// The paths sorted deepest first, paths of one depth in their order.
pub fn sort_deepest_first(paths: Vec<Vec<JsonPathSegment>>) -> (sorted: Vec<Vec<JsonPathSegment>>)
    ensures
        paths_view(sorted@) == deepest_first(paths_view(paths@)),
{
    let ghost all = paths_view(paths@);
    let mut sorted: Vec<Vec<JsonPathSegment>> = Vec::new();
    let mut rest = paths;
    let ghost n = all.len();
    while rest.len() > 0
        invariant
            n == all.len(),
            rest@.len() <= n,
            paths_view(rest@) == all.skip(n - rest@.len()),
            paths_view(sorted@) == deepest_first(all.take(n - rest@.len())),
        decreases rest.len(),
    {
        let ghost done = (n - rest@.len()) as int;
        let ghost old_rest = rest@;
        let path = rest.remove(0);
        proof {
            assert(path == old_rest[0]);
            assert(paths_view(old_rest)[0] == all.skip(done)[0]);
            assert(rest@ =~= old_rest.drop_first());
            assert forall|j: int| 0 <= j < paths_view(rest@).len() implies #[trigger] paths_view(rest@)[j] == all.skip(
                done + 1,
            )[j] by {
                assert(paths_view(rest@)[j] == paths_view(old_rest)[j + 1]);
                assert(paths_view(old_rest)[j + 1] == all.skip(done)[j + 1]);
            }
            assert(paths_view(rest@) =~= all.skip(done + 1));
            assert(path_view(path@) == all[done]);
            assert(all.take(done + 1).drop_last() =~= all.take(done));
        }
        let mut p = sorted.len();
        while p > 0 && path.len() > sorted[p - 1].len()
            invariant
                p <= sorted@.len(),
                forall|j: int| p <= j < sorted@.len() ==> path@.len() > (#[trigger] sorted@[j])@.len(),
            decreases p,
        {
            p -= 1;
        }
        let ghost before = paths_view(sorted@);
        let ghost sorted_before = sorted@;
        let ghost path_steps = path_view(path@);
        proof {
            if p > 0 {
                assert(before[p - 1].len() == sorted_before[p - 1]@.len());
                assert(!(path_steps.len() > before[p - 1].len()));
            }
        }
        sorted.insert(p, path);
        proof {
            assert forall|j: int| p <= j < before.len() implies path_steps.len() > (#[trigger] before[j]).len() by {
                assert(before[j].len() == sorted_before[j]@.len());
            }
            lemma_depth_position(before, path_steps, p as int);
            assert(paths_view(sorted@) =~= before.take(p as int).push(path_steps) + before.skip(p as int));
        }
    }
    assert(all.take(n as int) =~= all);
    sorted
}

} // verus!
