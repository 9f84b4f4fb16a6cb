//! The relay listener: what follows from a bind and from each accept, and
//! under which identifier a connection is served.

use std::collections::HashSet;
use vstd::prelude::*;
use vstd::std_specs::hash::*;
use vstd::std_specs::iter::IteratorSpec;
use crate::connection::{Connection, ConnectionView, Phase};
use crate::presence::{after_joins, lemma_joins_then_leaves};

verus! {

broadcast use vstd::std_specs::hash::group_hash_axioms;

/// Draws a connection identifier with `uuid::Uuid::new_v4`. Trusted only to
/// return: the identifier is random, so nothing is said of it.
#[verifier::external_body]
fn fresh_connection_id() -> u128 {
    uuid::Uuid::new_v4().as_u128()
}

/// Where the listener stands.
#[derive(Debug, Clone, Copy, PartialEq, Eq, Structural)]
pub enum ListenerPhase {
    /// The address is not bound yet.
    Binding,
    /// Bound; connections are accepted one after the other.
    Listening,
    /// The address could not be bound. This is final.
    Failed,
}

/// The listener: where it stands, and the identifiers under which it serves
/// connections.
pub struct Listener {
    phase: ListenerPhase,
    issued: HashSet<u128>,
}

/// The mathematical value of a `Listener`.
pub struct ListenerView {
    pub phase: ListenerPhase,
    /// The identifiers that are in use: handed out and not released.
    pub issued: Set<u128>,
}

impl View for Listener {
    type V = ListenerView;

    closed spec fn view(&self) -> ListenerView {
        ListenerView { phase: self.phase, issued: self.issued@ }
    }
}

/// The phase that follows the answer to a bind.
pub open spec fn after_bind(phase: ListenerPhase, bound: bool) -> ListenerPhase {
    if phase == ListenerPhase::Binding {
        if bound {
            ListenerPhase::Listening
        } else {
            ListenerPhase::Failed
        }
    } else {
        phase
    }
}

/// The connection that is served under `id` for a socket that has just been
/// accepted.
pub open spec fn accepted_as(id: u128) -> ConnectionView {
    ConnectionView { id, phase: Phase::Connecting, user: None, cursor: None, channel: None }
}

/// The smallest number from `from` on that is not in `issued`.
pub open spec fn first_free(issued: Set<u128>, from: u128) -> u128
    decreases u128::MAX - from,
{
    if !issued.contains(from) || from == u128::MAX {
        from
    } else {
        first_free(issued, (from + 1) as u128)
    }
}

/// The identifier under which a socket is served for which `drawn` was
/// drawn: `drawn` itself, unless a connection in use has it; then the
/// smallest number that none has.
pub open spec fn identifier_for(issued: Set<u128>, drawn: u128) -> u128 {
    if issued.contains(drawn) {
        first_free(issued, 0)
    } else {
        drawn
    }
}

/// Everything between `from` and the first free number is in use.
pub proof fn lemma_below_first_free(issued: Set<u128>, from: u128)
    ensures
        from <= first_free(issued, from),
        forall|j: u128| from <= j < first_free(issued, from) ==> issued.contains(j),
        issued.contains(first_free(issued, from)) ==> first_free(issued, from) == u128::MAX,
    decreases u128::MAX - from,
{
    if issued.contains(from) && from != u128::MAX {
        lemma_below_first_free(issued, (from + 1) as u128);
    }
}

/// A set that holds every number below `count` has at least `count`
/// members.
pub proof fn lemma_prefix_fits(issued: Set<u128>, count: nat)
    requires
        issued.finite(),
        count <= u128::MAX,
        forall|j: u128| j < count ==> issued.contains(j),
    ensures
        count <= issued.len(),
    decreases count,
{
    if count > 0 {
        let last = (count - 1) as u128;
        assert(issued.contains(last));
        lemma_prefix_fits(issued.remove(last), (count - 1) as nat);
    }
}

/// Among finitely many identifiers in use, fewer than there are numbers,
/// the first free number is free indeed, and no larger than their count.
pub proof fn lemma_first_free_is_free(issued: Set<u128>)
    requires
        issued.finite(),
        issued.len() < u128::MAX,
    ensures
        !issued.contains(first_free(issued, 0)),
        first_free(issued, 0) <= issued.len(),
        forall|drawn: u128| !issued.contains(#[trigger] identifier_for(issued, drawn)),
{
    lemma_below_first_free(issued, 0);
    lemma_prefix_fits(issued, first_free(issued, 0) as nat);
}

impl ListenerView {
    /// Whether a socket is served: the accept gave one, and the listener
    /// listens.
    pub open spec fn takes(self, accepted: bool) -> bool {
        accepted && self.phase == ListenerPhase::Listening
    }

    /// The listener after the answer to an accept, `drawn` being the
    /// identifier that was drawn for the socket.
    pub open spec fn after_receive(self, accepted: bool, drawn: u128) -> ListenerView {
        if self.takes(accepted) {
            ListenerView { issued: self.issued.insert(identifier_for(self.issued, drawn)), ..self }
        } else {
            self
        }
    }
}

impl Listener {
    pub fn new() -> (l: Listener)
        ensures
            l@ == (ListenerView { phase: ListenerPhase::Binding, issued: Set::empty() }),
    {
        Listener { phase: ListenerPhase::Binding, issued: HashSet::new() }
    }

    pub fn phase(&self) -> (phase: ListenerPhase)
        ensures
            phase == self@.phase,
    {
        self.phase
    }

    /// The identifiers in use are finitely many, and fewer than there are
    /// numbers.
    pub proof fn lemma_issued_fit(&self)
        ensures
            self@.issued.finite(),
            self@.issued.len() <= usize::MAX,
    {
        let keys = spec_hash_keys_iter(&self.issued).remaining().unref();
        assert(keys.to_set() == self@.issued);
        vstd::seq_lib::seq_to_set_is_finite(keys);
        assert(spec_hash_set_len(&self.issued) == self@.issued.len());
    }

    /// The bind has been answered. A failure is fatal: the listener never
    /// accepts. Returns whether the listener is to go on.
    pub fn on_bind(&mut self, bound: bool) -> (listening: bool)
        ensures
            final(self)@ == (ListenerView {
                phase: after_bind(old(self)@.phase, bound),
                ..old(self)@
            }),
            listening == (final(self)@.phase == ListenerPhase::Listening),
    {
        if self.phase == ListenerPhase::Binding {
            self.phase = if bound {
                ListenerPhase::Listening
            } else {
                ListenerPhase::Failed
            };
        }
        self.phase == ListenerPhase::Listening
    }

    /// The smallest number that no connection in use has for its identifier.
    fn smallest_free(&self) -> (free: u128)
        ensures
            free == first_free(self@.issued, 0),
            !self@.issued.contains(free),
    {
        proof {
            self.lemma_issued_fit();
            lemma_first_free_is_free(self@.issued);
        }
        let mut candidate: u128 = 0;
        while self.issued.contains(&candidate)
            invariant
                candidate <= first_free(self@.issued, 0) <= usize::MAX,
                first_free(self@.issued, 0) == first_free(self@.issued, candidate),
                !self@.issued.contains(first_free(self@.issued, 0)),
            decreases first_free(self@.issued, 0) - candidate,
        {
            candidate = candidate + 1;
        }
        candidate
    }

    /// An accept has been answered, and `drawn` has been drawn for the
    /// socket. Returns the connection to serve: there is one whenever the
    /// accept gave a socket and the listener listens. It is served under
    /// `drawn`, or, where a connection in use has that identifier, under the
    /// smallest number that none has. A failed accept gives no connection,
    /// and the listener goes on accepting as before.
    pub fn receive(&mut self, accepted: bool, drawn: u128) -> (c: Option<Connection>)
        ensures
            final(self)@ == old(self)@.after_receive(accepted, drawn),
            c is Some == old(self)@.takes(accepted),
            c matches Some(connection) ==> connection.wf() && connection@ == accepted_as(
                identifier_for(old(self)@.issued, drawn),
            ),
    {
        if accepted && self.phase == ListenerPhase::Listening {
            let id = if self.issued.contains(&drawn) {
                self.smallest_free()
            } else {
                drawn
            };
            self.issued.insert(id);
            Some(Connection::accept(id))
        } else {
            proof {
                assert(self@ == old(self)@);
            }
            None
        }
    }

    /// An accept has been answered. As `receive`, for an identifier that is
    /// drawn here: there is a connection to serve whenever the accept gave a
    /// socket and the listener listens, and its identifier is one that no
    /// other connection in use has.
    pub fn on_accept(&mut self, accepted: bool) -> (c: Option<Connection>)
        ensures
            c is Some == old(self)@.takes(accepted),
            match c {
                Some(connection) => {
                    &&& connection.wf()
                    &&& connection@ == accepted_as(connection@.id)
                    &&& !old(self)@.issued.contains(connection@.id)
                    &&& final(self)@ == old(self)@.after_receive(accepted, connection@.id)
                },
                None => final(self)@ == old(self)@,
            },
    {
        if accepted && self.phase == ListenerPhase::Listening {
            proof {
                self.lemma_issued_fit();
                lemma_first_free_is_free(self@.issued);
            }
            self.receive(accepted, fresh_connection_id())
        } else {
            None
        }
    }

    /// The connection under `id` is closed for good: its identifier is free
    /// again.
    pub fn release(&mut self, id: u128)
        ensures
            final(self)@ == (ListenerView { issued: old(self)@.issued.remove(id), ..old(self)@ }),
    {
        self.issued.remove(&id);
    }
}

/// The listener after a run of accepts that all gave a socket, `draws` being
/// the identifiers that were drawn for them, in their order.
pub open spec fn after_draws(start: ListenerView, draws: Seq<u128>) -> ListenerView
    decreases draws.len(),
{
    if draws.len() == 0 {
        start
    } else {
        after_draws(start, draws.drop_last()).after_receive(true, draws.last())
    }
}

/// The identifiers under which the connections of that run are served, in
/// their order.
pub open spec fn handed_out(start: ListenerView, draws: Seq<u128>) -> Seq<u128>
    decreases draws.len(),
{
    if draws.len() == 0 {
        Seq::empty()
    } else {
        handed_out(start, draws.drop_last()).push(
            identifier_for(after_draws(start, draws.drop_last()).issued, draws.last()),
        )
    }
}

/// Whatever is drawn, a listener that listens serves every accepted socket,
/// and the connections that it serves have identifiers that differ from each
/// other and from those that were in use before. So when all of them have
/// joined an empty registry, the registry holds as many entries as there are
/// connections.
pub proof fn lemma_handed_out_are_distinct(start: ListenerView, draws: Seq<u128>)
    requires
        start.phase == ListenerPhase::Listening,
        start.issued.finite(),
        start.issued.len() + draws.len() < u128::MAX,
    ensures
        handed_out(start, draws).len() == draws.len(),
        handed_out(start, draws).no_duplicates(),
        forall|i: int|
            0 <= i < handed_out(start, draws).len() ==> !start.issued.contains(
                #[trigger] handed_out(start, draws)[i],
            ),
        after_draws(start, draws).phase == start.phase,
        after_draws(start, draws).issued == start.issued.union(handed_out(start, draws).to_set()),
        after_draws(start, draws).issued.finite(),
        after_draws(start, draws).issued.len() == start.issued.len() + draws.len(),
        after_joins(Set::empty(), handed_out(start, draws)).len() == draws.len(),
    decreases draws.len(),
{
    let handed = handed_out(start, draws);
    if draws.len() == 0 {
        assert(handed.to_set() =~= Set::<u128>::empty());
        assert(start.issued.union(handed.to_set()) =~= start.issued);
    } else {
        let earlier = handed_out(start, draws.drop_last());
        let before = after_draws(start, draws.drop_last());
        lemma_handed_out_are_distinct(start, draws.drop_last());
        lemma_first_free_is_free(before.issued);
        let id = identifier_for(before.issued, draws.last());
        assert(!before.issued.contains(id));
        assert(handed == earlier.push(id));
        assert forall|k: int| 0 <= k < earlier.len() implies earlier[k] != id by {
            assert(earlier.to_set().contains(earlier[k]));
        }
        assert forall|i: int, j: int|
            0 <= i < handed.len() && 0 <= j < handed.len() && i != j implies handed[i]
            != handed[j] by {
            if i < earlier.len() && j < earlier.len() {
                assert(earlier[i] != earlier[j]);
            }
        }
        assert(handed.to_set() =~= earlier.to_set().insert(id)) by {
            assert forall|x: u128| handed.to_set().contains(x) implies earlier.to_set().insert(
                id,
            ).contains(x) by {
                let k = choose|k: int| 0 <= k < handed.len() && handed[k] == x;
                if k < earlier.len() {
                    assert(earlier[k] == x);
                }
            }
            assert forall|x: u128|
                earlier.to_set().insert(id).contains(x) implies handed.to_set().contains(x) by {
                if x == id {
                    assert(handed[earlier.len() as int] == x);
                } else {
                    let k = choose|k: int| 0 <= k < earlier.len() && earlier[k] == x;
                    assert(handed[k] == x);
                }
            }
        }
        assert(after_draws(start, draws).issued =~= start.issued.union(handed.to_set()));
    }
    lemma_joins_then_leaves(handed, handed);
}

} // verus!
