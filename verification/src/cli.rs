//! The messages given on the command line, kept in the order of their
//! arguments whatever option gave them.
use vstd::prelude::*;

verus! {

/// `entry` put into `sorted` (ordered by position): after the entries at
/// smaller positions, in place of one at its own position.
pub open spec fn sorted_insert<M>(sorted: Seq<(usize, M)>, entry: (usize, M)) -> Seq<(usize, M)>
    decreases sorted.len(),
{
    if sorted.len() == 0 {
        seq![entry]
    } else if entry.0 > sorted.last().0 {
        sorted.push(entry)
    } else if entry.0 == sorted.last().0 {
        sorted.drop_last().push(entry)
    } else {
        sorted_insert(sorted.drop_last(), entry).push(sorted.last())
    }
}

/// The entries ordered by position, the last given at a position kept.
pub open spec fn by_position<M>(entries: Seq<(usize, M)>) -> Seq<(usize, M)>
    decreases entries.len(),
{
    if entries.len() == 0 {
        Seq::empty()
    } else {
        sorted_insert(by_position(entries.drop_last()), entries.last())
    }
}

/// Each position with the message last given there.
pub open spec fn position_map<M>(entries: Seq<(usize, M)>) -> Map<usize, M>
    decreases entries.len(),
{
    if entries.len() == 0 {
        Map::empty()
    } else {
        position_map(entries.drop_last()).insert(entries.last().0, entries.last().1)
    }
}

pub open spec fn strictly_ordered<M>(sorted: Seq<(usize, M)>) -> bool {
    forall|i: int, j: int| 0 <= i < j < sorted.len() ==> (#[trigger] sorted[i]).0 < (#[trigger] sorted[j]).0
}

pub open spec fn messages_of<M>(sorted: Seq<(usize, M)>) -> Seq<M> {
    sorted.map_values(|entry: (usize, M)| entry.1)
}

proof fn lemma_sorted_insert<M>(sorted: Seq<(usize, M)>, entry: (usize, M))
    requires
        strictly_ordered(sorted),
    ensures
        strictly_ordered(sorted_insert(sorted, entry)),
        position_map(sorted_insert(sorted, entry)) == position_map(sorted).insert(entry.0, entry.1),
        forall|i: int|
            0 <= i < sorted_insert(sorted, entry).len() ==> (#[trigger] sorted_insert(sorted, entry)[i]).0 == entry.0
                || exists|j: int| 0 <= j < sorted.len() && sorted[j].0 == sorted_insert(sorted, entry)[i].0,
    decreases sorted.len(),
{
    let result = sorted_insert(sorted, entry);
    if sorted.len() == 0 {
        assert(position_map(result) == position_map(Seq::<(usize, M)>::empty()).insert(entry.0, entry.1)) by {
            assert(result.drop_last() =~= Seq::<(usize, M)>::empty());
        }
    } else if entry.0 > sorted.last().0 {
        assert(result.drop_last() =~= sorted);
        assert forall|i: int| 0 <= i < result.len() implies (#[trigger] result[i]).0 == entry.0 || exists|j: int|
            0 <= j < sorted.len() && sorted[j].0 == result[i].0 by {
            if i < sorted.len() {
                assert(result[i] == sorted[i]);
            }
        }
    } else if entry.0 == sorted.last().0 {
        let init = sorted.drop_last();
        assert(result.drop_last() =~= init);
        assert(sorted.drop_last() =~= init);
        assert(position_map(result) =~= position_map(sorted).insert(entry.0, entry.1));
        assert forall|i: int| 0 <= i < result.len() implies (#[trigger] result[i]).0 == entry.0 || exists|j: int|
            0 <= j < sorted.len() && sorted[j].0 == result[i].0 by {
            if i < init.len() {
                assert(result[i] == sorted[i]);
            }
        }
        assert forall|i: int, j: int| 0 <= i < j < result.len() implies (#[trigger] result[i]).0 < (#[trigger] result[j]).0 by {
            if j < init.len() {
                assert(result[i] == sorted[i] && result[j] == sorted[j]);
            } else {
                assert(result[i] == sorted[i]);
                assert(sorted[i].0 < sorted[sorted.len() - 1].0);
            }
        }
    } else {
        let init = sorted.drop_last();
        let last = sorted.last();
        assert(strictly_ordered(init)) by {
            assert forall|i: int, j: int| 0 <= i < j < init.len() implies (#[trigger] init[i]).0 < (#[trigger] init[j]).0 by {
                assert(init[i] == sorted[i] && init[j] == sorted[j]);
            }
        }
        lemma_sorted_insert(init, entry);
        let inner = sorted_insert(init, entry);
        assert(result.drop_last() =~= inner);
        assert(result.last() == last);
        assert(position_map(result) =~= position_map(sorted).insert(entry.0, entry.1)) by {
            assert(sorted.drop_last() =~= init);
            assert(position_map(result) == position_map(inner).insert(last.0, last.1));
            assert(position_map(sorted) == position_map(init).insert(last.0, last.1));
        }
        assert forall|i: int| 0 <= i < result.len() implies (#[trigger] result[i]).0 == entry.0 || exists|j: int|
            0 <= j < sorted.len() && sorted[j].0 == result[i].0 by {
            if i < inner.len() {
                assert(result[i] == inner[i]);
                if inner[i].0 != entry.0 {
                    let j = choose|j: int| 0 <= j < init.len() && init[j].0 == inner[i].0;
                    assert(sorted[j] == init[j]);
                }
            } else {
                assert(sorted[sorted.len() - 1] == last);
            }
        }
        assert forall|i: int, j: int| 0 <= i < j < result.len() implies (#[trigger] result[i]).0 < (#[trigger] result[j]).0 by {
            if j < inner.len() {
                assert(result[i] == inner[i] && result[j] == inner[j]);
            } else {
                assert(result[i] == inner[i]);
                if inner[i].0 != entry.0 {
                    let k = choose|k: int| 0 <= k < init.len() && init[k].0 == inner[i].0;
                    assert(init[k] == sorted[k]);
                    assert(sorted[k].0 < sorted[sorted.len() - 1].0);
                }
            }
        }
    }
}

/// The messages of the command line are ordered by argument position, with
/// one message per position: the one given last there.
pub proof fn by_position_orders_and_keeps_last<M>(entries: Seq<(usize, M)>)
    ensures
        strictly_ordered(by_position(entries)),
        position_map(by_position(entries)) == position_map(entries),
    decreases entries.len(),
{
    if entries.len() > 0 {
        by_position_orders_and_keeps_last(entries.drop_last());
        lemma_sorted_insert(by_position(entries.drop_last()), entries.last());
    }
}

/// Messages given on the command line.
pub struct MessageArgs<M> {
    pub messages: Vec<M>,
}

impl<M> MessageArgs<M> {
    /// From the messages with the positions of their arguments: the messages
    /// in order of position, the last given at a position kept.
    pub fn parse(entries: Vec<(usize, M)>) -> (args: Self)
        ensures
            args.messages@ == messages_of(by_position(entries@)),
    {
        let ghost all = entries@;
        let ghost n = all.len();
        let mut sorted: Vec<(usize, M)> = Vec::new();
        let mut rest = entries;
        while rest.len() > 0
            invariant
                n == all.len(),
                rest@.len() <= n,
                rest@ == all.skip(n - rest@.len()),
                sorted@ == by_position(all.take(n - rest@.len())),
                strictly_ordered(sorted@),
            decreases rest.len(),
        {
            let ghost done = (n - rest@.len()) as int;
            let ghost before = sorted@;
            let entry = rest.remove(0);
            proof {
                assert(entry == all[done]);
                assert(rest@ =~= all.skip(done + 1));
                assert(all.take(done + 1).drop_last() =~= all.take(done));
                lemma_sorted_insert(before, entry);
            }
            let mut p = sorted.len();
            while p > 0 && sorted[p - 1].0 > entry.0
                invariant
                    p <= sorted@.len(),
                    forall|j: int| p <= j < sorted@.len() ==> entry.0 < (#[trigger] sorted@[j]).0,
                decreases p,
            {
                p -= 1;
            }
            proof {
                lemma_insert_at(before, entry, p as int);
            }
            if p > 0 && sorted[p - 1].0 == entry.0 {
                sorted.set(p - 1, entry);
            } else {
                sorted.insert(p, entry);
            }
            proof {
                assert(sorted@ == sorted_insert(before, all[done]));
            }
        }
        assert(all.take(n as int) =~= all);
        let mut messages: Vec<M> = Vec::new();
        let ghost ordered = sorted@;
        let ghost m = ordered.len();
        while sorted.len() > 0
            invariant
                m == ordered.len(),
                sorted@.len() <= m,
                sorted@ == ordered.skip(m - sorted@.len()),
                messages@ == messages_of(ordered.take(m - sorted@.len())),
            decreases sorted.len(),
        {
            let ghost done = (m - sorted@.len()) as int;
            let entry = sorted.remove(0);
            messages.push(entry.1);
            proof {
                assert(entry == ordered[done]);
                assert(sorted@ =~= ordered.skip(done + 1));
                assert(messages@ =~= messages_of(ordered.take(done + 1)));
            }
        }
        assert(ordered.take(m as int) =~= ordered);
        MessageArgs { messages }
    }

    /// Adds the messages of `other` after these.
    pub fn extend_from(&mut self, other: Self)
        ensures
            final(self).messages@ == old(self).messages@ + other.messages@,
    {
        let mut other = other;
        self.messages.append(&mut other.messages);
    }

    pub fn messages(&self) -> (messages: &Vec<M>)
        ensures
            messages@ == self.messages@,
    {
        &self.messages
    }
}

/// Where `sorted_insert` puts an entry, given the first position from which
/// every key is greater.
proof fn lemma_insert_at<M>(sorted: Seq<(usize, M)>, entry: (usize, M), p: int)
    requires
        strictly_ordered(sorted),
        0 <= p <= sorted.len(),
        forall|j: int| p <= j < sorted.len() ==> entry.0 < (#[trigger] sorted[j]).0,
        p == 0 || sorted[p - 1].0 <= entry.0,
    ensures
        sorted_insert(sorted, entry) == if p > 0 && sorted[p - 1].0 == entry.0 {
            sorted.update(p - 1, entry)
        } else {
            sorted.insert(p, entry)
        },
    decreases sorted.len(),
{
    if sorted.len() == 0 {
        assert(sorted.insert(p, entry) =~= seq![entry]);
    } else if p == sorted.len() {
        if sorted[p - 1].0 == entry.0 {
            assert(sorted.drop_last().push(entry) =~= sorted.update(p - 1, entry));
        } else {
            assert(sorted.push(entry) =~= sorted.insert(p, entry));
        }
    } else {
        let init = sorted.drop_last();
        assert(strictly_ordered(init)) by {
            assert forall|i: int, j: int| 0 <= i < j < init.len() implies (#[trigger] init[i]).0 < (#[trigger] init[j]).0 by {
                assert(init[i] == sorted[i] && init[j] == sorted[j]);
            }
        }
        assert forall|j: int| p <= j < init.len() implies entry.0 < (#[trigger] init[j]).0 by {
            assert(init[j] == sorted[j]);
        }
        if p > 0 {
            assert(init[p - 1] == sorted[p - 1]);
        }
        lemma_insert_at(init, entry, p);
        if p > 0 && sorted[p - 1].0 == entry.0 {
            assert(init.update(p - 1, entry).push(sorted.last()) =~= sorted.update(p - 1, entry));
        } else {
            assert(init.insert(p, entry).push(sorted.last()) =~= sorted.insert(p, entry));
        }
    }
}

} // verus!
