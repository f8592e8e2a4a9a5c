//! Output limits per tool, with a default for the tools that have none.
use vstd::prelude::*;

use crate::executor::limits::ToolOutputLimits;
use crate::text::string_equals;

verus! {

/// The limits of the first entry named `name`.
pub open spec fn limits_lookup(entries: Seq<(String, ToolOutputLimits)>, name: Seq<char>) -> Option<ToolOutputLimits>
    decreases entries.len(),
{
    if entries.len() == 0 {
        None
    } else if entries[0].0@ == name {
        Some(entries[0].1)
    } else {
        limits_lookup(entries.drop_first(), name)
    }
}

proof fn lemma_lookup_update(entries: Seq<(String, ToolOutputLimits)>, i: int, entry: (String, ToolOutputLimits), name: Seq<char>)
    requires
        0 <= i < entries.len(),
        entries[i].0@ == entry.0@,
        forall|j: int| 0 <= j < i ==> entries[j].0@ != entry.0@,
    ensures
        limits_lookup(entries.update(i, entry), name) == (if name == entry.0@ {
            Some(entry.1)
        } else {
            limits_lookup(entries, name)
        }),
    decreases entries.len(),
{
    if i > 0 {
        assert(entries.update(i, entry).drop_first() =~= entries.drop_first().update(i - 1, entry));
        lemma_lookup_update(entries.drop_first(), i - 1, entry, name);
    } else {
        assert(entries.update(0, entry).drop_first() =~= entries.drop_first());
    }
}

proof fn lemma_lookup_push(entries: Seq<(String, ToolOutputLimits)>, entry: (String, ToolOutputLimits), name: Seq<char>)
    ensures
        limits_lookup(entries.push(entry), name) == (match limits_lookup(entries, name) {
            Some(l) => Some(l),
            None => if entry.0@ == name { Some(entry.1) } else { None },
        }),
    decreases entries.len(),
{
    if entries.len() > 0 {
        assert(entries.push(entry).drop_first() =~= entries.drop_first().push(entry));
        lemma_lookup_push(entries.drop_first(), entry, name);
    } else {
        assert(entries.push(entry).drop_first() =~= Seq::<(String, ToolOutputLimits)>::empty());
        assert(limits_lookup(Seq::<(String, ToolOutputLimits)>::empty(), name) is None);
        assert(entries.push(entry)[0] == entry);
    }
}

proof fn lemma_lookup_absent(entries: Seq<(String, ToolOutputLimits)>, name: Seq<char>)
    requires
        forall|j: int| 0 <= j < entries.len() ==> entries[j].0@ != name,
    ensures
        limits_lookup(entries, name) is None,
    decreases entries.len(),
{
    if entries.len() > 0 {
        lemma_lookup_absent(entries.drop_first(), name);
    }
}

proof fn lemma_lookup_found(entries: Seq<(String, ToolOutputLimits)>, i: int)
    requires
        0 <= i < entries.len(),
        forall|j: int| 0 <= j < i ==> entries[j].0@ != entries[i].0@,
    ensures
        limits_lookup(entries, entries[i].0@) == Some(entries[i].1),
    decreases entries.len(),
{
    if i > 0 {
        lemma_lookup_found(entries.drop_first(), i - 1);
    }
}

pub struct ToolRuntimePolicy {
    pub default_limits: Option<ToolOutputLimits>,
    pub tool_limits: Vec<(String, ToolOutputLimits)>,
}

pub struct ToolRuntimePolicyBuilder {
    pub default_limits: Option<ToolOutputLimits>,
    pub tool_limits: Vec<(String, ToolOutputLimits)>,
}

impl ToolRuntimePolicy {
    pub fn builder() -> (builder: ToolRuntimePolicyBuilder)
        ensures
            builder.default_limits is None,
            builder.tool_limits@.len() == 0,
    {
        ToolRuntimePolicyBuilder { default_limits: None, tool_limits: Vec::new() }
    }

    pub open spec fn spec_limits_for(&self, name: Seq<char>) -> Option<ToolOutputLimits> {
        match limits_lookup(self.tool_limits@, name) {
            Some(limits) => Some(limits),
            None => self.default_limits,
        }
    }

    /// The limits for a call of the tool `name`: its own, else the default.
    pub fn limits_for(&self, name: &str) -> (limits: Option<ToolOutputLimits>)
        ensures
            limits == self.spec_limits_for(name@),
    {
        let mut i: usize = 0;
        assert(self.tool_limits@.skip(0) =~= self.tool_limits@);
        while i < self.tool_limits.len()
            invariant
                i <= self.tool_limits@.len(),
                limits_lookup(self.tool_limits@, name@) == limits_lookup(self.tool_limits@.skip(i as int), name@),
            decreases self.tool_limits.len() - i,
        {
            assert(self.tool_limits@.skip(i as int).drop_first() =~= self.tool_limits@.skip(i + 1));
            if string_equals(&self.tool_limits[i].0, name) {
                return Some(self.tool_limits[i].1);
            }
            i += 1;
        }
        self.default_limits
    }

    /// The limits a tool call runs with: the configured ones, where there are
    /// any, replace the current ones.
    pub fn apply_to(&self, name: &str, limits: &mut ToolOutputLimits)
        ensures
            *final(limits) == (match self.spec_limits_for(name@) {
                Some(configured) => configured,
                None => *old(limits),
            }),
    {
        if let Some(configured) = self.limits_for(name) {
            *limits = configured;
        }
    }
}

impl ToolRuntimePolicyBuilder {
    pub fn default_limits(self, limits: ToolOutputLimits) -> (builder: Self)
        ensures
            builder.default_limits == Some(limits),
            builder.tool_limits == self.tool_limits,
    {
        ToolRuntimePolicyBuilder { default_limits: Some(limits), tool_limits: self.tool_limits }
    }

    /// Limits for the tool `tool_name`; a later call for the same tool replaces them.
    pub fn tool_limits(self, tool_name: String, limits: ToolOutputLimits) -> (builder: Self)
        ensures
            builder.default_limits == self.default_limits,
            limits_lookup(builder.tool_limits@, tool_name@) == Some(limits),
            forall|name: Seq<char>| name != tool_name@ ==> #[trigger] limits_lookup(builder.tool_limits@, name)
                == limits_lookup(self.tool_limits@, name),
    {
        let ToolRuntimePolicyBuilder { default_limits, mut tool_limits } = self;
        let ghost before = tool_limits@;
        let mut i: usize = 0;
        while i < tool_limits.len()
            invariant
                tool_limits@ == before,
                before == self.tool_limits@,
                default_limits == self.default_limits,
                i <= before.len(),
                forall|j: int| 0 <= j < i ==> before[j].0@ != tool_name@,
            decreases tool_limits.len() - i,
        {
            if tool_limits[i].0 == tool_name {
                proof {
                    assert forall|name: Seq<char>| #![auto] true implies limits_lookup(before.update(i as int, (tool_name, limits)), name)
                        == (if name == tool_name@ { Some(limits) } else { limits_lookup(before, name) }) by {
                        lemma_lookup_update(before, i as int, (tool_name, limits), name);
                    }
                }
                tool_limits.set(i, (tool_name, limits));
                return ToolRuntimePolicyBuilder { default_limits, tool_limits };
            }
            i += 1;
        }
        proof {
            lemma_lookup_absent(before, tool_name@);
            assert forall|name: Seq<char>| #![auto] true implies limits_lookup(before.push((tool_name, limits)), name)
                == (if name == tool_name@ { Some(limits) } else { limits_lookup(before, name) }) by {
                lemma_lookup_push(before, (tool_name, limits), name);
                if name != tool_name@ {
                } else {
                    lemma_lookup_absent(before, name);
                }
            }
        }
        tool_limits.push((tool_name, limits));
        ToolRuntimePolicyBuilder { default_limits, tool_limits }
    }

    pub fn build(self) -> (policy: ToolRuntimePolicy)
        ensures
            policy.default_limits == self.default_limits,
            policy.tool_limits == self.tool_limits,
    {
        ToolRuntimePolicy { default_limits: self.default_limits, tool_limits: self.tool_limits }
    }
}

} // verus!
