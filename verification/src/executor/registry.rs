//! The names under which an executor registers its tools, in registration order.
use vstd::prelude::*;

use indexmap::IndexMap;

use crate::executor::tool_call::ToolCallRequest;
use crate::text::{is_blank, is_blank_str};

verus! {

#[verifier::external_type_specification]
#[verifier::external_body]
#[verifier::reject_recursive_types(K)]
#[verifier::reject_recursive_types(V)]
#[verifier::reject_recursive_types(S)]
pub struct ExIndexMap<K, V, S>(IndexMap<K, V, S>);

/// The entries of a map from tool names to positions, in the map's order.
pub uninterp spec fn name_index_entries(map: IndexMap<String, usize>) -> Seq<(Seq<char>, usize)>;

pub open spec fn entry_keys(entries: Seq<(Seq<char>, usize)>) -> Seq<Seq<char>> {
    entries.map_values(|entry: (Seq<char>, usize)| entry.0)
}

/// `IndexMap::new`: a map with no entries.
#[verifier::external_body]
fn new_name_index() -> (map: IndexMap<String, usize>)
    ensures
        name_index_entries(map) == Seq::<(Seq<char>, usize)>::empty(),
{
    IndexMap::new()
}

/// `IndexMap::get_index_of`: the position of the entry whose key is `key`.
#[verifier::external_body]
fn name_index_position(map: &IndexMap<String, usize>, key: &str) -> (position: Option<usize>)
    ensures
        match position {
            Some(i) => i < name_index_entries(*map).len() && name_index_entries(*map)[i as int].0 == key@,
            None => !entry_keys(name_index_entries(*map)).contains(key@),
        },
{
    map.get_index_of(key)
}

/// `IndexMap::insert` of a key the map does not hold: the entry goes last.
#[verifier::external_body]
fn name_index_insert_new(map: &mut IndexMap<String, usize>, key: String, value: usize)
    requires
        !entry_keys(name_index_entries(*old(map))).contains(key@),
    ensures
        name_index_entries(*final(map)) == name_index_entries(*old(map)).push((key@, value)),
{
    map.insert(key, value);
}

/// Why an executor refuses its tools.
pub enum PhiExecutorBuildError {
    EmptyToolName,
    DuplicateToolName { name: String },
}

impl PhiExecutorBuildError {
    pub fn message(&self) -> (message: String)
        ensures
            message@ == match self {
                PhiExecutorBuildError::EmptyToolName => "tool name cannot be empty"@,
                PhiExecutorBuildError::DuplicateToolName { name } => "tool "@ + name@ + " is already registered on this executor"@,
            },
    {
        match self {
            PhiExecutorBuildError::EmptyToolName => "tool name cannot be empty".to_owned(),
            PhiExecutorBuildError::DuplicateToolName { name } => {
                let mut message = "tool ".to_owned();
                message.append(name.as_str());
                message.append(" is already registered on this executor");
                message
            },
        }
    }
}

/// The characters of each name.
pub open spec fn name_views(names: Seq<String>) -> Seq<Seq<char>> {
    names.map_values(|n: String| n@)
}

/// Whether tool name `i` of `names` is refused: blank, or registered before.
pub open spec fn name_refused(names: Seq<Seq<char>>, i: int) -> bool {
    is_blank(names[i]) || names.take(i).contains(names[i])
}

/// Whether the first `n` tool names are all accepted.
pub open spec fn names_accepted(names: Seq<Seq<char>>, n: int) -> bool {
    forall|i: int| 0 <= i < n ==> !#[trigger] name_refused(names, i)
}

/// The entries a registry of `names` holds: each name with its position.
pub open spec fn registered_entries(names: Seq<Seq<char>>) -> Seq<(Seq<char>, usize)> {
    Seq::new(names.len(), |i: int| (names[i], i as usize))
}

/// Tool names mapped to the position of their tool in registration order.
pub struct ToolRegistry {
    names: IndexMap<String, usize>,
}

impl View for ToolRegistry {
    type V = Seq<Seq<char>>;

    closed spec fn view(&self) -> Seq<Seq<char>> {
        entry_keys(name_index_entries(self.names))
    }
}

impl ToolRegistry {
    #[verifier::type_invariant]
    spec fn positions_match(self) -> bool {
        name_index_entries(self.names) == registered_entries(self@)
    }

    /// Registers `names` in order. The first name that is blank, or that was
    /// registered before, is refused, and nothing is registered.
    pub fn from_names(names: &Vec<String>) -> (registry: Result<Self, PhiExecutorBuildError>)
        ensures
            match registry {
                Ok(registry) => names_accepted(name_views(names@), names@.len() as int)
                    && registry@ == name_views(names@),
                Err(error) => exists|k: int|
                    0 <= k < names@.len() && names_accepted(name_views(names@), k) && #[trigger] name_refused(
                        name_views(names@),
                        k,
                    ) && match error {
                        PhiExecutorBuildError::EmptyToolName => is_blank(names@[k]@),
                        PhiExecutorBuildError::DuplicateToolName { name } => !is_blank(names@[k]@) && name@ == names@[k]@,
                    },
            },
    {
        let ghost keys = name_views(names@);
        let mut map = new_name_index();
        let mut i: usize = 0;
        while i < names.len()
            invariant
                i <= names@.len(),
                keys == name_views(names@),
                names_accepted(keys, i as int),
                name_index_entries(map) == registered_entries(keys.take(i as int)),
            decreases names.len() - i,
        {
            let name = &names[i];
            let ghost done = keys.take(i as int);
            assert(entry_keys(name_index_entries(map)) =~= done);
            if is_blank_str(name.as_str()) {
                assert(name_refused(keys, i as int));
                return Err(PhiExecutorBuildError::EmptyToolName);
            }
            if name_index_position(&map, name.as_str()).is_some() {
                assert(done.contains(keys[i as int]));
                assert(name_refused(keys, i as int));
                return Err(PhiExecutorBuildError::DuplicateToolName { name: name.clone() });
            }
            assert(!name_refused(keys, i as int));
            name_index_insert_new(&mut map, name.clone(), i);
            assert(registered_entries(keys.take(i as int)).push((keys[i as int], i)) =~= registered_entries(keys.take(i + 1)));
            i += 1;
        }
        assert(keys.take(i as int) =~= keys);
        assert(entry_keys(registered_entries(keys)) =~= keys);
        let registry = ToolRegistry { names: map };
        assert(registry@ =~= keys);
        Ok(registry)
    }

    /// The position of the tool registered under `name`.
    pub fn position(&self, name: &str) -> (position: Option<usize>)
        ensures
            match position {
                Some(i) => i < self@.len() && self@[i as int] == name@,
                None => !self@.contains(name@),
            },
    {
        name_index_position(&self.names, name)
    }
}

/// Why a tool call could not be answered.
#[allow(inconsistent_fields)]
pub enum PhiToolExecutionError {
    NotFound { detail: String, request: ToolCallRequest },
    Failed { detail: serde_json::Value, request: ToolCallRequest },
}

impl ToolRegistry {
    /// The position of the tool that `request` names, or the refusal of a
    /// request for a tool that is not registered.
    pub fn dispatch(&self, request: ToolCallRequest) -> (routed: Result<(usize, ToolCallRequest), PhiToolExecutionError>)
        ensures
            match routed {
                Ok((i, routed_request)) => i < self@.len() && self@[i as int] == request.name@ && routed_request == request,
                Err(PhiToolExecutionError::NotFound { detail, request: refused }) => !self@.contains(request.name@)
                    && detail@ == "assistant requested unknown tool: "@ + request.name@ && refused == request,
                Err(PhiToolExecutionError::Failed { .. }) => false,
            },
    {
        match self.position(request.name.as_str()) {
            Some(i) => Ok((i, request)),
            None => {
                let mut detail = "assistant requested unknown tool: ".to_owned();
                detail.append(request.name.as_str());
                Err(PhiToolExecutionError::NotFound { detail, request })
            },
        }
    }
}

} // verus!
