//! The presence registry: which connections are online right now.

use std::collections::HashSet;
use vstd::prelude::*;
use vstd::std_specs::hash::*;
use vstd::std_specs::iter::IteratorSpec;

verus! {

broadcast use vstd::std_specs::hash::group_hash_axioms;

/// The set of connection identifiers that are currently joined. One entry per
/// connection, not per user: a user with two connections is listed twice,
/// under two identifiers.
pub struct PresenceRegistry {
    online: HashSet<u128>,
}

impl View for PresenceRegistry {
    type V = Set<u128>;

    closed spec fn view(&self) -> Set<u128> {
        self.online@
    }
}

impl PresenceRegistry {
    pub fn new() -> (r: Self)
        ensures
            r@ == Set::<u128>::empty(),
    {
        PresenceRegistry { online: HashSet::new() }
    }

    /// Records that `id` is online. Returns whether it was absent before.
    pub fn join(&mut self, id: u128) -> (fresh: bool)
        ensures
            final(self)@ == old(self)@.insert(id),
            fresh == !old(self)@.contains(id),
    {
        self.online.insert(id)
    }

    /// Records that `id` is gone. Returns whether it was present before; an
    /// identifier that is not present is left alone.
    pub fn leave(&mut self, id: u128) -> (present: bool)
        ensures
            final(self)@ == old(self)@.remove(id),
            present == old(self)@.contains(id),
    {
        self.online.remove(&id)
    }

    pub fn contains(&self, id: u128) -> (b: bool)
        ensures
            b == self@.contains(id),
    {
        self.online.contains(&id)
    }

    pub fn len(&self) -> (n: usize)
        ensures
            n == self@.len(),
    {
        self.online.len()
    }

    /// A registry never holds more than finitely many identifiers.
    pub proof fn lemma_finite(&self)
        ensures
            self@.finite(),
    {
        let keys = spec_hash_keys_iter(&self.online).remaining().unref();
        assert(keys.to_set() == self@);
        vstd::seq_lib::seq_to_set_is_finite(keys);
    }

    pub fn is_empty(&self) -> (b: bool)
        ensures
            b == (self@ == Set::<u128>::empty()),
    {
        let b = self.online.is_empty();
        proof {
            if b {
                assert(self@ =~= Set::<u128>::empty());
            }
        }
        b
    }

    /// A copy of the registry as it stands at this moment: every identifier
    /// that is online, each once. Later joins and leaves do not change it.
    pub fn snapshot(&self) -> (ids: Vec<u128>)
        ensures
            ids@.to_set() == self@,
            ids@.no_duplicates(),
            ids@.len() == self@.len(),
    {
        let mut ids: Vec<u128> = Vec::new();
        for id in it: self.online.iter()
            invariant
                it.seq() == spec_hash_keys_iter(&self.online).remaining(),
                ids@ == it.seq().take(it.index() as int).unref(),
        {
            ids.push(*id);
        }
        proof {
            let keys = spec_hash_keys_iter(&self.online).remaining();
            assert(keys.take(keys.len() as int) =~= keys);
            assert(ids@.len() == keys.len());
            assert(ids@.no_duplicates()) by {
                assert forall|i: int, j: int| 0 <= i < ids@.len() && 0 <= j < ids@.len() && i != j
                    implies ids@[i] != ids@[j] by {
                    assert(*keys[i] == ids@[i]);
                    assert(*keys[j] == ids@[j]);
                    assert(keys[i] != keys[j]);
                }
            }
        }
        ids
    }
}

/// The registry after the connections of `ids` have joined `start`, one after
/// the other.
pub open spec fn after_joins(start: Set<u128>, ids: Seq<u128>) -> Set<u128>
    decreases ids.len(),
{
    if ids.len() == 0 {
        start
    } else {
        after_joins(start, ids.drop_last()).insert(ids.last())
    }
}

/// The registry after the connections of `ids` have left `start`, one after
/// the other.
pub open spec fn after_leaves(start: Set<u128>, ids: Seq<u128>) -> Set<u128>
    decreases ids.len(),
{
    if ids.len() == 0 {
        start
    } else {
        after_leaves(start, ids.drop_last()).remove(ids.last())
    }
}

/// Joining adds exactly the identifiers that joined, in whatever order the
/// joins were served.
pub proof fn lemma_after_joins(start: Set<u128>, ids: Seq<u128>)
    ensures
        after_joins(start, ids) == start.union(ids.to_set()),
    decreases ids.len(),
{
    if ids.len() == 0 {
        assert(ids.to_set() =~= Set::<u128>::empty());
        assert(start.union(ids.to_set()) =~= start);
    } else {
        lemma_after_joins(start, ids.drop_last());
        assert(ids.to_set() =~= ids.drop_last().to_set().insert(ids.last())) by {
            assert forall|x: u128| ids.to_set().contains(x) implies ids.drop_last().to_set().insert(
                ids.last(),
            ).contains(x) by {
                let i = choose|i: int| 0 <= i < ids.len() && ids[i] == x;
                if i < ids.len() - 1 {
                    assert(ids.drop_last()[i] == x);
                }
            }
            assert forall|x: u128|
                ids.drop_last().to_set().insert(ids.last()).contains(x) implies ids.to_set().contains(
                x,
            ) by {
                if x == ids.last() {
                    assert(ids[ids.len() - 1] == x);
                } else {
                    let i = choose|i: int| 0 <= i < ids.drop_last().len() && ids.drop_last()[i] == x;
                    assert(ids[i] == x);
                }
            }
        }
        assert(after_joins(start, ids) =~= start.union(ids.to_set()));
    }
}

/// Leaving removes exactly the identifiers that left.
pub proof fn lemma_after_leaves(start: Set<u128>, ids: Seq<u128>)
    ensures
        after_leaves(start, ids) == start.difference(ids.to_set()),
    decreases ids.len(),
{
    if ids.len() == 0 {
        assert(ids.to_set() =~= Set::<u128>::empty());
        assert(start.difference(ids.to_set()) =~= start);
    } else {
        lemma_after_leaves(start, ids.drop_last());
        assert forall|x: u128| ids.to_set().contains(x) <==> (ids.drop_last().to_set().contains(x)
            || x == ids.last()) by {
            if ids.to_set().contains(x) {
                let i = choose|i: int| 0 <= i < ids.len() && ids[i] == x;
                if i < ids.len() - 1 {
                    assert(ids.drop_last()[i] == x);
                }
            }
            if ids.drop_last().to_set().contains(x) {
                let i = choose|i: int| 0 <= i < ids.drop_last().len() && ids.drop_last()[i] == x;
                assert(ids[i] == x);
            }
            if x == ids.last() {
                assert(ids[ids.len() - 1] == x);
            }
        }
        assert(after_leaves(start, ids) =~= start.difference(ids.to_set()));
    }
}

/// When `joins.len()` connections with distinct identifiers join an empty
/// registry, in any order, the registry holds exactly that many identifiers:
/// theirs. When all of them have left again, in any order, it is empty.
pub proof fn lemma_joins_then_leaves(joins: Seq<u128>, leaves: Seq<u128>)
    requires
        joins.no_duplicates(),
        leaves.to_set() == joins.to_set(),
    ensures
        after_joins(Set::empty(), joins) == joins.to_set(),
        after_joins(Set::empty(), joins).finite(),
        after_joins(Set::empty(), joins).len() == joins.len(),
        after_leaves(after_joins(Set::empty(), joins), leaves) == Set::<u128>::empty(),
{
    lemma_after_joins(Set::empty(), joins);
    assert(Set::<u128>::empty().union(joins.to_set()) =~= joins.to_set());
    vstd::seq_lib::seq_to_set_is_finite(joins);
    joins.unique_seq_to_set();
    lemma_after_leaves(joins.to_set(), leaves);
    assert(joins.to_set().difference(leaves.to_set()) =~= Set::<u128>::empty());
}

} // verus!
