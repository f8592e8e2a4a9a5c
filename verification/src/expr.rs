//! Step expressions: a session is a chain of frames, each holding one step and
//! the delta (new history and variable effects) that the step committed on top
//! of its parent frame. Rolling back is moving to the parent frame.
use vstd::prelude::*;

use crate::text::string_equals;

verus! {

/// What a frame did to one variable.
pub enum PhiVariableEffect<V> {
    Store { value: V },
    Remove,
}

/// Variable effects of one frame, at most one per variable name.
pub struct PhiVariableEffects<V> {
    entries: Vec<(String, PhiVariableEffect<V>)>,
}

/// The map that a list of entries with distinct keys stands for.
pub open spec fn effects_map<V>(entries: Seq<(String, PhiVariableEffect<V>)>) -> Map<Seq<char>, PhiVariableEffect<V>>
    decreases entries.len(),
{
    if entries.len() == 0 {
        Map::empty()
    } else {
        effects_map(entries.drop_last()).insert(entries.last().0@, entries.last().1)
    }
}

proof fn lemma_effects_map_domain<V>(entries: Seq<(String, PhiVariableEffect<V>)>, key: Seq<char>)
    ensures
        effects_map(entries).dom().contains(key) <==> (exists|i: int| 0 <= i < entries.len() && #[trigger] entries[i].0@ == key),
    decreases entries.len(),
{
    if entries.len() > 0 {
        let init = entries.drop_last();
        lemma_effects_map_domain(init, key);
        if effects_map(entries).dom().contains(key) && entries.last().0@ != key {
            let i = choose|i: int| 0 <= i < init.len() && #[trigger] init[i].0@ == key;
            assert(entries[i].0@ == key);
        }
        if exists|i: int| 0 <= i < entries.len() && #[trigger] entries[i].0@ == key {
            let i = choose|i: int| 0 <= i < entries.len() && #[trigger] entries[i].0@ == key;
            if i < entries.len() - 1 {
                assert(init[i].0@ == key);
            }
        }
    }
}

/// With distinct keys, the map sends the key of entry `i` to that entry's effect.
proof fn lemma_effects_map_entry<V>(entries: Seq<(String, PhiVariableEffect<V>)>, i: int)
    requires
        0 <= i < entries.len(),
        distinct_keys(entries),
    ensures
        effects_map(entries).dom().contains(entries[i].0@),
        effects_map(entries)[entries[i].0@] == entries[i].1,
    decreases entries.len(),
{
    let init = entries.drop_last();
    if i < entries.len() - 1 {
        assert(init[i] == entries[i]);
        assert forall|j: int, k: int| 0 <= j < k < init.len() implies #[trigger] init[j].0@ != #[trigger] init[k].0@ by {
            assert(init[j] == entries[j] && init[k] == entries[k]);
        }
        lemma_effects_map_entry(init, i);
        assert(entries.last().0@ != entries[i].0@);
    }
}

pub open spec fn distinct_keys<V>(entries: Seq<(String, PhiVariableEffect<V>)>) -> bool {
    forall|i: int, j: int| 0 <= i < j < entries.len() ==> #[trigger] entries[i].0@ != #[trigger] entries[j].0@
}

impl<V> View for PhiVariableEffects<V> {
    type V = Map<Seq<char>, PhiVariableEffect<V>>;

    closed spec fn view(&self) -> Map<Seq<char>, PhiVariableEffect<V>> {
        effects_map(self.entries@)
    }
}

impl<V> PhiVariableEffects<V> {
    #[verifier::type_invariant]
    spec fn keys_are_distinct(self) -> bool {
        distinct_keys(self.entries@)
    }

    pub fn new() -> (effects: Self)
        ensures
            effects@ == Map::<Seq<char>, PhiVariableEffect<V>>::empty(),
    {
        PhiVariableEffects { entries: Vec::new() }
    }

    pub fn is_empty(&self) -> (empty: bool)
        ensures
            empty == (self@.dom() == Set::<Seq<char>>::empty()),
    {
        proof {
            use_type_invariant(self);
        }
        if self.entries.len() == 0 {
            assert(self@ =~= Map::empty());
            true
        } else {
            let ghost key = self.entries@[self.entries@.len() - 1].0@;
            proof {
                lemma_effects_map_domain(self.entries@, key);
            }
            assert(self@.dom().contains(key));
            false
        }
    }

    /// Index of the entry for `name`, if there is one.
    fn position(&self, name: &str) -> (index: Option<usize>)
        ensures
            match index {
                Some(i) => i < self.entries@.len() && self.entries@[i as int].0@ == name@ && self@.dom().contains(name@),
                None => !self@.dom().contains(name@),
            },
    {
        let mut i: usize = 0;
        while i < self.entries.len()
            invariant
                i <= self.entries@.len(),
                forall|k: int| 0 <= k < i ==> #[trigger] self.entries@[k].0@ != name@,
            decreases self.entries.len() - i,
        {
            if string_equals(&self.entries[i].0, name) {
                proof {
                    lemma_effects_map_domain(self.entries@, name@);
                    assert(self.entries@[i as int].0@ == name@);
                }
                return Some(i);
            }
            i += 1;
        }
        proof {
            lemma_effects_map_domain(self.entries@, name@);
        }
        None
    }

    /// The effect recorded for `name`.
    pub fn get(&self, name: &str) -> (effect: Option<&PhiVariableEffect<V>>)
        ensures
            match effect {
                Some(e) => self@.dom().contains(name@) && self@[name@] == *e,
                None => !self@.dom().contains(name@),
            },
    {
        proof {
            use_type_invariant(self);
        }
        match self.position(name) {
            Some(i) => {
                proof {
                    lemma_effects_map_entry(self.entries@, i as int);
                }
                Some(&self.entries[i].1)
            },
            None => None,
        }
    }

    pub fn contains(&self, name: &str) -> (affected: bool)
        ensures
            affected == self@.dom().contains(name@),
    {
        self.position(name).is_some()
    }

    /// Records `effect` for `name`, replacing an earlier effect for it.
    pub fn set(&mut self, name: String, effect: PhiVariableEffect<V>)
        ensures
            final(self)@ == old(self)@.insert(name@, effect),
    {
        proof {
            use_type_invariant(&*self);
        }
        let ghost before = self.entries@;
        match self.position(name.as_str()) {
            Some(i) => {
                let mut entries = Vec::new();
                std::mem::swap(&mut entries, &mut self.entries);
                entries.set(i, (name, effect));
                proof {
                    assert forall|j: int, k: int| 0 <= j < k < entries@.len() implies #[trigger] entries@[j].0@
                        != #[trigger] entries@[k].0@ by {
                        if j != i && k != i {
                            assert(before[j] == entries@[j] && before[k] == entries@[k]);
                        }
                        if j == i {
                            assert(before[j].0@ == entries@[j].0@);
                        }
                        if k == i {
                            assert(before[k].0@ == entries@[k].0@);
                        }
                    }
                    assert forall|key: Seq<char>| #[trigger] effects_map(entries@).dom().contains(key) <==> effects_map(
                        before,
                    ).insert(name@, effect).dom().contains(key) by {
                        lemma_effects_map_domain(entries@, key);
                        lemma_effects_map_domain(before, key);
                        if exists|j: int| 0 <= j < entries@.len() && #[trigger] entries@[j].0@ == key {
                            let j = choose|j: int| 0 <= j < entries@.len() && #[trigger] entries@[j].0@ == key;
                            assert(before[j].0@ == key);
                        }
                        if exists|j: int| 0 <= j < before.len() && #[trigger] before[j].0@ == key {
                            let j = choose|j: int| 0 <= j < before.len() && #[trigger] before[j].0@ == key;
                            assert(entries@[j].0@ == key);
                        }
                    }
                    assert forall|key: Seq<char>| #[trigger] effects_map(entries@).dom().contains(key) implies effects_map(
                        entries@,
                    )[key] == effects_map(before).insert(name@, effect)[key] by {
                        lemma_effects_map_domain(entries@, key);
                        let j = choose|j: int| 0 <= j < entries@.len() && #[trigger] entries@[j].0@ == key;
                        lemma_effects_map_entry(entries@, j);
                        if j != i {
                            lemma_effects_map_entry(before, j);
                            assert(before[j] == entries@[j]);
                        }
                    }
                    assert(effects_map(entries@) =~= effects_map(before).insert(name@, effect));
                }
                self.entries = entries;
            },
            None => {
                proof {
                    lemma_effects_map_domain(before, name@);
                }
                let mut entries = Vec::new();
                std::mem::swap(&mut entries, &mut self.entries);
                entries.push((name, effect));
                proof {
                    assert(entries@.drop_last() =~= before);
                    assert forall|j: int, k: int| 0 <= j < k < entries@.len() implies #[trigger] entries@[j].0@
                        != #[trigger] entries@[k].0@ by {
                        if k == entries@.len() - 1 {
                            assert(before[j] == entries@[j]);
                            assert(entries@[k].0@ == name@);
                            assert(before[j].0@ != name@);
                        } else {
                            assert(before[j] == entries@[j] && before[k] == entries@[k]);
                            assert(before[j].0@ != before[k].0@);
                        }
                    }
                }
                self.entries = entries;
            },
        }
    }

    /// Applies `next` on top of `self`: an effect of `next` replaces one of
    /// `self` for the same name.
    pub fn followed_by(&mut self, next: Self)
        ensures
            final(self)@ == old(self)@.union_prefer_right(next@),
    {
        proof {
            use_type_invariant(&next);
        }
        let PhiVariableEffects { entries } = next;
        let ghost all = entries@;
        let ghost start = self@;
        let mut rest = entries;
        let ghost n = all.len();
        while rest.len() > 0
            invariant
                n == all.len(),
                rest@.len() <= n,
                rest@ == all.skip(n - rest@.len()),
                self@ == start.union_prefer_right(effects_map(all.take(n - rest@.len()))),
            decreases rest.len(),
        {
            let ghost done = (n - rest@.len()) as int;
            let (name, effect) = rest.remove(0);
            proof {
                assert(all[done] == (name, effect));
                assert(all.take(done + 1).drop_last() =~= all.take(done));
                assert(start.union_prefer_right(effects_map(all.take(done))).insert(name@, effect) =~= start.union_prefer_right(
                    effects_map(all.take(done + 1)),
                ));
                assert(rest@ =~= all.skip(done + 1));
            }
            self.set(name, effect);
        }
        assert(all.take(n as int) =~= all);
    }
}

/// What a frame's delta says of one variable.
pub enum DeltaLookup<'a, V> {
    Missing,
    Removed,
    Stored(&'a V),
}

/// The history and the variable effects that one step committed.
pub struct PhiExprDelta<M, V> {
    pub history: Vec<M>,
    pub effects: PhiVariableEffects<V>,
}

impl<M, V> PhiExprDelta<M, V> {
    pub fn new() -> (delta: Self)
        ensures
            delta.history@ == Seq::<M>::empty(),
            delta.effects@ == Map::<Seq<char>, PhiVariableEffect<V>>::empty(),
    {
        PhiExprDelta { history: Vec::new(), effects: PhiVariableEffects::new() }
    }

    /// A delta that only appends `messages`.
    pub fn from_messages(messages: Vec<M>) -> (delta: Self)
        ensures
            delta.history@ == messages@,
            delta.effects@ == Map::<Seq<char>, PhiVariableEffect<V>>::empty(),
    {
        PhiExprDelta { history: messages, effects: PhiVariableEffects::new() }
    }

    pub fn is_empty(&self) -> (empty: bool)
        ensures
            empty == (self.history@.len() == 0 && self.effects@.dom() == Set::<Seq<char>>::empty()),
    {
        self.history.len() == 0 && self.effects.is_empty()
    }

    pub fn push_message(&mut self, message: M)
        ensures
            final(self).history@ == old(self).history@.push(message),
            final(self).effects@ == old(self).effects@,
    {
        self.history.push(message);
    }

    /// Composes deltas in evaluation order: the history of `next` follows that
    /// of `self`, and effects in `next` take precedence.
    pub fn followed_by(self, next: Self) -> (composed: Self)
        ensures
            composed.history@ == self.history@ + next.history@,
            composed.effects@ == self.effects@.union_prefer_right(next.effects@),
    {
        let PhiExprDelta { mut history, mut effects } = self;
        let PhiExprDelta { history: mut next_history, effects: next_effects } = next;
        history.append(&mut next_history);
        effects.followed_by(next_effects);
        PhiExprDelta { history, effects }
    }

    pub fn store(&mut self, name: String, value: V)
        ensures
            final(self).history@ == old(self).history@,
            final(self).effects@ == old(self).effects@.insert(name@, PhiVariableEffect::Store { value }),
    {
        self.effects.set(name, PhiVariableEffect::Store { value });
    }

    pub fn remove(&mut self, name: String)
        ensures
            final(self).history@ == old(self).history@,
            final(self).effects@ == old(self).effects@.insert(name@, PhiVariableEffect::Remove),
    {
        self.effects.set(name, PhiVariableEffect::Remove);
    }

    pub fn affects(&self, name: &str) -> (affected: bool)
        ensures
            affected == self.effects@.dom().contains(name@),
    {
        self.effects.contains(name)
    }

    pub fn lookup(&self, name: &str) -> (found: DeltaLookup<'_, V>)
        ensures
            match found {
                DeltaLookup::Missing => !self.effects@.dom().contains(name@),
                DeltaLookup::Removed => self.effects@.dom().contains(name@) && self.effects@[name@] is Remove,
                DeltaLookup::Stored(value) => self.effects@.dom().contains(name@)
                    && self.effects@[name@] == (PhiVariableEffect::Store { value: *value }),
            },
    {
        match self.effects.get(name) {
            None => DeltaLookup::Missing,
            Some(PhiVariableEffect::Remove) => DeltaLookup::Removed,
            Some(PhiVariableEffect::Store { value }) => DeltaLookup::Stored(value),
        }
    }
}

/// One frame of a session: the step it is at, what that step committed, and
/// the frame it was taken from.
pub struct PhiStepExpr<S, M, V> {
    pub step: S,
    pub delta: PhiExprDelta<M, V>,
    pub expr: Option<Box<PhiStepExpr<S, M, V>>>,
}

/// Whether `predicate`, called on `step`, can answer `true`.
pub open spec fn answers_true<S, F: Fn(&S) -> bool>(predicate: F, step: S) -> bool {
    predicate.ensures((&step,), true)
}

/// A predicate that can be called on every step and always gives one answer.
pub open spec fn is_step_predicate<S, F: Fn(&S) -> bool>(predicate: F) -> bool {
    &&& forall|step: &S| #[trigger] predicate.requires((step,))
    &&& forall|step: &S, a: bool, b: bool| #[trigger] predicate.ensures((step,), a) && #[trigger] predicate.ensures((step,), b) ==> a == b
}

impl<S, M, V> PhiStepExpr<S, M, V> {
    /// Number of frames from this one to the root.
    pub open spec fn depth(self) -> nat
        decreases self,
    {
        match self.expr {
            Some(parent) => 1 + parent.depth(),
            None => 1,
        }
    }

    /// The frames above this one, nearest first.
    pub open spec fn ancestors(self) -> Seq<PhiStepExpr<S, M, V>>
        decreases self,
    {
        match self.expr {
            Some(parent) => seq![*parent] + parent.ancestors(),
            None => Seq::empty(),
        }
    }

    /// The value of variable `name` as this frame sees it: the nearest frame
    /// with an effect on it decides.
    pub open spec fn lookup_spec(self, name: Seq<char>) -> Option<V>
        decreases self,
    {
        if self.delta.effects@.dom().contains(name) {
            match self.delta.effects@[name] {
                PhiVariableEffect::Store { value } => Some(value),
                PhiVariableEffect::Remove => None,
            }
        } else {
            match self.expr {
                Some(parent) => parent.lookup_spec(name),
                None => None,
            }
        }
    }

    /// The messages this frame takes over from its ancestors: none when its
    /// step is a history barrier, else all that its parent sees.
    pub open spec fn inherited_history(self, barrier: spec_fn(S) -> bool) -> Seq<M>
        decreases self, 0nat,
    {
        if barrier(self.step) {
            Seq::empty()
        } else {
            match self.expr {
                Some(parent) => parent.history_spec(barrier),
                None => Seq::empty(),
            }
        }
    }

    /// The messages this frame sees: those of its ancestors, back to the
    /// nearest frame whose step is a history barrier, then its own.
    pub open spec fn history_spec(self, barrier: spec_fn(S) -> bool) -> Seq<M>
        decreases self, 1nat,
    {
        self.inherited_history(barrier) + self.delta.history@
    }

    /// The frame that a step taken from `self` gets.
    pub open spec fn next_frame(self, step: S, delta: PhiExprDelta<M, V>) -> Self {
        PhiStepExpr { step, delta, expr: Some(Box::new(self)) }
    }

    /// `self` with its step and delta replaced, under the same parent.
    pub open spec fn replaced(self, step: S, delta: PhiExprDelta<M, V>) -> Self {
        PhiStepExpr { step, delta, expr: self.expr }
    }

    /// The frame a rollback from `self` leaves.
    pub open spec fn rolled_back(self) -> Self {
        match self.expr {
            Some(parent) => *parent,
            None => self,
        }
    }

    /// A root frame.
    pub fn new(step: S, delta: PhiExprDelta<M, V>) -> (expr: Self)
        ensures
            expr.step == step,
            expr.delta == delta,
            expr.expr is None,
    {
        PhiStepExpr { step, delta, expr: None }
    }

    /// A frame taken from `expr`.
    pub fn branch(expr: Self, step: S, delta: PhiExprDelta<M, V>) -> (next: Self)
        ensures
            next == expr.next_frame(step, delta),
    {
        PhiStepExpr { step, delta, expr: Some(Box::new(expr)) }
    }

    /// The frame that a newly created step gets: a child of this one.
    pub fn create_next_step(self, step: S, delta: PhiExprDelta<M, V>) -> (next: Self)
        ensures
            next == self.next_frame(step, delta),
    {
        Self::branch(self, step, delta)
    }

    /// This frame with its step and delta replaced; its parent stays.
    pub fn replace_base_step_with_delta(self, step: S, delta: PhiExprDelta<M, V>) -> (next: Self)
        ensures
            next == self.replaced(step, delta),
    {
        PhiStepExpr { step, delta, expr: self.expr }
    }

    /// This frame with its step replaced and `current_delta` composed after
    /// its own delta; its parent stays.
    pub fn replace_base_step(self, step: S, current_delta: PhiExprDelta<M, V>) -> (next: Self)
        ensures
            next.step == step,
            next.delta.history@ == self.delta.history@ + current_delta.history@,
            next.delta.effects@ == self.delta.effects@.union_prefer_right(current_delta.effects@),
            next.expr == self.expr,
    {
        let PhiStepExpr { step: _, delta, expr } = self;
        let delta = delta.followed_by(current_delta);
        PhiStepExpr { step, delta, expr }
    }

    /// The frame a rollback leaves: the parent, or this frame if it is the root.
    pub fn rollback(self) -> (back: Self)
        ensures
            back == self.rolled_back(),
    {
        match self.expr {
            Some(parent) => *parent,
            None => PhiStepExpr { step: self.step, delta: self.delta, expr: None },
        }
    }

    pub fn step(&self) -> (step: &S)
        ensures
            *step == self.step,
    {
        &self.step
    }

    pub fn delta(&self) -> (delta: &PhiExprDelta<M, V>)
        ensures
            *delta == self.delta,
    {
        &self.delta
    }

    /// The parent frame.
    pub fn expr(&self) -> (parent: Option<&Self>)
        ensures
            match self.expr {
                Some(p) => parent == Some(&*p),
                None => parent is None,
            },
    {
        match &self.expr {
            Some(parent) => Some(&**parent),
            None => None,
        }
    }

    pub fn into_expr(self) -> (parent: Option<Box<Self>>)
        ensures
            parent == self.expr,
    {
        self.expr
    }

    /// This frame with `value` stored under `name` in its own delta.
    pub fn store(self, name: String, value: V) -> (next: Self)
        ensures
            next.step == self.step,
            next.expr == self.expr,
            next.delta.history@ == self.delta.history@,
            next.delta.effects@ == self.delta.effects@.insert(name@, PhiVariableEffect::Store { value }),
    {
        let PhiStepExpr { step, mut delta, expr } = self;
        delta.store(name, value);
        PhiStepExpr { step, delta, expr }
    }

    /// This frame with `name` removed in its own delta.
    pub fn remove(self, name: String) -> (next: Self)
        ensures
            next.step == self.step,
            next.expr == self.expr,
            next.delta.history@ == self.delta.history@,
            next.delta.effects@ == self.delta.effects@.insert(name@, PhiVariableEffect::Remove),
    {
        let PhiStepExpr { step, mut delta, expr } = self;
        delta.remove(name);
        PhiStepExpr { step, delta, expr }
    }

    /// The value of variable `name` as this frame sees it.
    pub fn lookup(&self, name: &str) -> (found: Option<&V>)
        ensures
            match found {
                Some(value) => self.lookup_spec(name@) == Some(*value),
                None => self.lookup_spec(name@) is None,
            },
        decreases self,
    {
        match self.delta.lookup(name) {
            DeltaLookup::Stored(value) => Some(value),
            DeltaLookup::Removed => None,
            DeltaLookup::Missing => match &self.expr {
                Some(parent) => parent.lookup(name),
                None => None,
            },
        }
    }

    /// The nearest ancestor whose step satisfies `predicate`.
    pub fn find_ancestor<F: Fn(&S) -> bool>(&self, predicate: &F) -> (found: Option<&Self>)
        requires
            is_step_predicate(*predicate),
        ensures
            match found {
                Some(ancestor) => exists|i: int|
                    0 <= i < self.ancestors().len() && self.ancestors()[i] == *ancestor && answers_true(*predicate, ancestor.step)
                        && forall|j: int| 0 <= j < i ==> !answers_true(*predicate, #[trigger] self.ancestors()[j].step),
                None => forall|j: int| 0 <= j < self.ancestors().len() ==> !answers_true(*predicate, #[trigger] self.ancestors()[j].step),
            },
        decreases self,
    {
        match &self.expr {
            None => None,
            Some(parent) => {
                let hit = predicate(&parent.step);
                if hit {
                    assert(self.ancestors()[0] == **parent);
                    Some(&**parent)
                } else {
                    let found = parent.find_ancestor(predicate);
                    proof {
                        let anc = self.ancestors();
                        assert(anc =~= seq![**parent] + parent.ancestors());
                        assert(!answers_true(*predicate, anc[0].step));
                        match found {
                            Some(ancestor) => {
                                let i = choose|i: int|
                                    0 <= i < parent.ancestors().len() && parent.ancestors()[i] == *ancestor
                                        && answers_true(*predicate, ancestor.step) && forall|j: int|
                                        0 <= j < i ==> !answers_true(*predicate, #[trigger] parent.ancestors()[j].step);
                                assert(anc[i + 1] == *ancestor);
                                assert forall|j: int| 0 <= j < i + 1 implies !answers_true(*predicate, #[trigger] anc[j].step) by {
                                    if j > 0 {
                                        assert(anc[j] == parent.ancestors()[j - 1]);
                                    }
                                }
                            },
                            None => {
                                assert forall|j: int| 0 <= j < anc.len() implies !answers_true(*predicate, #[trigger] anc[j].step) by {
                                    if j > 0 {
                                        assert(anc[j] == parent.ancestors()[j - 1]);
                                    }
                                }
                            },
                        }
                    }
                    found
                }
            },
        }
    }

    /// The messages this frame sees, taken apart from the frames.
    pub fn into_history<F: Fn(&S) -> bool>(self, is_barrier: &F) -> (messages: Vec<M>)
        requires
            is_step_predicate(*is_barrier),
        ensures
            messages@ == self.history_spec(|step: S| answers_true(*is_barrier, step)),
        decreases self,
    {
        let PhiStepExpr { step, delta, expr } = self;
        let barrier = is_barrier(&step);
        let mut messages = if barrier {
            Vec::new()
        } else {
            match expr {
                Some(parent) => (*parent).into_history(is_barrier),
                None => Vec::new(),
            }
        };
        let PhiExprDelta { history: mut own, effects: _ } = delta;
        messages.append(&mut own);
        messages
    }
}

impl<S, M: Clone, V> PhiStepExpr<S, M, V> {
    /// Copies of the messages this frame sees; each is a clone of the message
    /// at the same place in `history_spec`.
    pub fn history<F: Fn(&S) -> bool>(&self, is_barrier: &F) -> (messages: Vec<M>)
        requires
            is_step_predicate(*is_barrier),
        ensures
            messages@.len() == self.history_spec(|step: S| answers_true(*is_barrier, step)).len(),
            forall|i: int|
                0 <= i < messages@.len() ==> cloned(
                    self.history_spec(|step: S| answers_true(*is_barrier, step))[i],
                    #[trigger] messages@[i],
                ),
        decreases self,
    {
        let ghost spec_barrier = |step: S| answers_true(*is_barrier, step);
        let barrier = is_barrier(&self.step);
        let ghost inherited = self.inherited_history(spec_barrier);
        let mut messages = if barrier {
            Vec::new()
        } else {
            match &self.expr {
                Some(parent) => parent.history(is_barrier),
                None => Vec::new(),
            }
        };
        let ghost start = messages@.len();
        assert(start == inherited.len());
        let mut i: usize = 0;
        while i < self.delta.history.len()
            invariant
                i <= self.delta.history@.len(),
                start == inherited.len(),
                messages@.len() == start + i,
                forall|k: int| 0 <= k < start ==> cloned(inherited[k], #[trigger] messages@[k]),
                forall|k: int| 0 <= k < i ==> cloned(self.delta.history@[k], #[trigger] messages@[start + k]),
            decreases self.delta.history.len() - i,
        {
            let copy = self.delta.history[i].clone();
            messages.push(copy);
            i += 1;
        }
        proof {
            let full = self.history_spec(spec_barrier);
            assert(full == inherited + self.delta.history@);
            assert forall|k: int| 0 <= k < messages@.len() implies cloned(full[k], #[trigger] messages@[k]) by {
                if k >= start {
                    assert(messages@[k] == messages@[start + (k - start)]);
                }
            }
        }
        messages
    }
}

/// A frame's own effect on a variable decides what the frame sees of it,
/// whatever its ancestors hold; a frame without one sees what its parent sees.
pub proof fn lookup_prefers_current_frame<S, M, V>(expr: PhiStepExpr<S, M, V>, name: Seq<char>)
    ensures
        expr.delta.effects@.dom().contains(name) ==> expr.lookup_spec(name) == match expr.delta.effects@[name] {
            PhiVariableEffect::Store { value } => Some(value),
            PhiVariableEffect::Remove => None,
        },
        !expr.delta.effects@.dom().contains(name) ==> expr.lookup_spec(name) == match expr.expr {
            Some(parent) => parent.lookup_spec(name),
            None => None,
        },
{
}

/// A value stored in a frame is what a lookup of it gives back, and storing
/// changes what the frame sees of no other variable.
pub proof fn store_round_trips<S, M, V>(expr: PhiStepExpr<S, M, V>, stored: PhiStepExpr<S, M, V>, name: Seq<char>, value: V)
    requires
        stored.expr == expr.expr,
        stored.delta.effects@ == expr.delta.effects@.insert(name, PhiVariableEffect::Store { value }),
    ensures
        stored.lookup_spec(name) == Some(value),
        forall|other: Seq<char>| other != name ==> #[trigger] stored.lookup_spec(other) == expr.lookup_spec(other),
{
    assert forall|other: Seq<char>| other != name implies #[trigger] stored.lookup_spec(other) == expr.lookup_spec(other) by {
        assert(stored.delta.effects@.dom().contains(other) == expr.delta.effects@.dom().contains(other));
    }
}

/// Removing a variable in a frame hides every value its ancestors stored for
/// it, and changes what the frame sees of no other variable.
pub proof fn remove_hides_ancestors<S, M, V>(expr: PhiStepExpr<S, M, V>, removed: PhiStepExpr<S, M, V>, name: Seq<char>)
    requires
        removed.expr == expr.expr,
        removed.delta.effects@ == expr.delta.effects@.insert(name, PhiVariableEffect::Remove),
    ensures
        removed.lookup_spec(name) is None,
        forall|other: Seq<char>| other != name ==> #[trigger] removed.lookup_spec(other) == expr.lookup_spec(other),
{
    assert forall|other: Seq<char>| other != name implies #[trigger] removed.lookup_spec(other) == expr.lookup_spec(other) by {
        assert(removed.delta.effects@.dom().contains(other) == expr.delta.effects@.dom().contains(other));
    }
}

/// Composing two deltas keeps the history of the first, then that of the
/// second; for each variable the second's effect wins where it has one.
pub proof fn composed_delta_prefers_later_effects<M, V>(
    first: PhiExprDelta<M, V>,
    second: PhiExprDelta<M, V>,
    composed: PhiExprDelta<M, V>,
    name: Seq<char>,
)
    requires
        composed.history@ == first.history@ + second.history@,
        composed.effects@ == first.effects@.union_prefer_right(second.effects@),
    ensures
        composed.history@.take(first.history@.len() as int) == first.history@,
        composed.history@.skip(first.history@.len() as int) == second.history@,
        second.effects@.dom().contains(name) ==> composed.effects@.dom().contains(name) && composed.effects@[name]
            == second.effects@[name],
        !second.effects@.dom().contains(name) ==> (composed.effects@.dom().contains(name) == first.effects@.dom().contains(
            name,
        )) && (first.effects@.dom().contains(name) ==> composed.effects@[name] == first.effects@[name]),
{
    assert(composed.history@.take(first.history@.len() as int) =~= first.history@);
    assert(composed.history@.skip(first.history@.len() as int) =~= second.history@);
}

/// Rolling back a frame that a step created returns the frame it was created
/// from, with everything that frame saw.
pub proof fn rollback_undoes_next_step<S, M, V>(base: PhiStepExpr<S, M, V>, step: S, delta: PhiExprDelta<M, V>)
    ensures
        base.next_frame(step, delta).rolled_back() == base,
        base.next_frame(step, delta).ancestors() == seq![base] + base.ancestors(),
{
}

/// Replacing a frame's step keeps its place in the session: its ancestors, and
/// so where a rollback leads, stay the same.
pub proof fn replace_keeps_ancestors<S, M, V>(expr: PhiStepExpr<S, M, V>, step: S, delta: PhiExprDelta<M, V>)
    requires
        expr.expr is Some,
    ensures
        expr.replaced(step, delta).ancestors() == expr.ancestors(),
        expr.replaced(step, delta).rolled_back() == expr.rolled_back(),
{
}

/// A new frame sees the history of the frame it was taken from, unless its step
/// is a barrier, followed by what it committed; for variables it does not touch
/// it sees what that frame saw.
pub proof fn next_step_extends_history<S, M, V>(
    base: PhiStepExpr<S, M, V>,
    step: S,
    delta: PhiExprDelta<M, V>,
    barrier: spec_fn(S) -> bool,
    name: Seq<char>,
)
    ensures
        base.next_frame(step, delta).history_spec(barrier) == if barrier(step) {
            delta.history@
        } else {
            base.history_spec(barrier) + delta.history@
        },
        !delta.effects@.dom().contains(name) ==> base.next_frame(step, delta).lookup_spec(name) == base.lookup_spec(name),
{
    let next = base.next_frame(step, delta);
    assert(next.history_spec(barrier) == next.inherited_history(barrier) + delta.history@);
    if barrier(step) {
        assert(Seq::<M>::empty() + delta.history@ =~= delta.history@);
    }
}

} // verus!
