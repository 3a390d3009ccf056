use vstd::prelude::*;

use crate::admission::{closing, decision, GatePolicy, RejectReason};
use crate::connection_state::{lowered, tally, ConnectionsView};

verus! {

/// Something that happens to the registry: a connection attempt of a peer, or the
/// closing of one of its connections.
pub enum Event {
    Attempt(Seq<u8>),
    Closed(Seq<u8>),
}

/// The registry after one event: an admitted attempt is counted, a refused one leaves
/// the registry as it was.
pub open spec fn step(g: GatePolicy, v: ConnectionsView, e: Event) -> ConnectionsView {
    match e {
        Event::Attempt(p) => match decision(g, v, p) {
            Ok(w) => w,
            Err(_) => v,
        },
        Event::Closed(p) => closing(g, v, p),
    }
}

/// The registry after the events of `es`, in order.
pub open spec fn run(g: GatePolicy, v: ConnectionsView, es: Seq<Event>) -> ConnectionsView
    decreases es.len(),
{
    if es.len() == 0 {
        v
    } else {
        step(g, run(g, v, es.drop_last()), es.last())
    }
}

/// Whether the regular peers stay within the policy's limits: at most `max_peers`
/// distinct peers, each with at most `max_per_peer` connections.
pub open spec fn within_limits(g: GatePolicy, v: ConnectionsView) -> bool {
    &&& v.peers <= g.max_peers
    &&& forall|q: Seq<u8>| #[trigger] v.regular.contains_key(q) ==> v.regular[q] <= g.max_per_peer
}

/// Whether every listed count is at least one.
pub open spec fn counts_positive(v: ConnectionsView) -> bool {
    &&& forall|q: Seq<u8>| #[trigger] v.reserved.contains_key(q) ==> v.reserved[q] > 0
    &&& forall|q: Seq<u8>| #[trigger] v.regular.contains_key(q) ==> v.regular[q] > 0
}

/// How many of `n` successive attempts of `p` are admitted, starting from `v`.
pub open spec fn admissions(g: GatePolicy, v: ConnectionsView, p: Seq<u8>, n: nat) -> nat
    decreases n,
{
    if n == 0 {
        0
    } else {
        match decision(g, v, p) {
            Ok(w) => 1 + admissions(g, w, p, (n - 1) as nat),
            Err(_) => admissions(g, v, p, (n - 1) as nat),
        }
    }
}

/// In reserved-nodes-only mode an attempt is admitted exactly when the peer is
/// reserved, a refused one is refused as not reserved, and no attempt changes the
/// registry.
pub proof fn reserved_only_admission(g: GatePolicy, v: ConnectionsView, p: Seq<u8>)
    requires
        g.reserved_only,
    ensures
        decision(g, v, p) is Ok <==> g.reserved.contains(p),
        decision(g, v, p) matches Ok(w) ==> w == v,
        !g.reserved.contains(p) ==> decision(g, v, p) == Err::<ConnectionsView, RejectReason>(
            RejectReason::NotReserved,
        ),
{
}

/// One event never takes the regular peers past the policy's limits.
pub proof fn step_within_limits(g: GatePolicy, v: ConnectionsView, e: Event)
    requires
        within_limits(g, v),
    ensures
        within_limits(g, step(g, v, e)),
{
    let w = step(g, v, e);
    match e {
        Event::Attempt(p) => {
            assert forall|q: Seq<u8>| #[trigger] w.regular.contains_key(q) implies w.regular[q] <= g.max_per_peer by {
                if q != p {
                    assert(v.regular.contains_key(q));
                }
            }
        },
        Event::Closed(p) => {
            assert forall|q: Seq<u8>| #[trigger] w.regular.contains_key(q) implies w.regular[q] <= g.max_per_peer by {
                assert(v.regular.contains_key(q));
            }
        },
    }
}

/// Under any sequence of attempts and closings, the number of distinct regular peers
/// never exceeds `max_peers`, nor the connections of one regular peer `max_per_peer`.
pub proof fn run_within_limits(g: GatePolicy, v: ConnectionsView, es: Seq<Event>)
    requires
        within_limits(g, v),
    ensures
        within_limits(g, run(g, v, es)),
    decreases es.len(),
{
    if es.len() > 0 {
        run_within_limits(g, v, es.drop_last());
        step_within_limits(g, run(g, v, es.drop_last()), es.last());
    }
}

/// One event keeps every listed count at one or more: a peer whose last connection
/// closes loses its entry, and closing a peer without connections changes nothing.
pub proof fn step_counts_positive(g: GatePolicy, v: ConnectionsView, e: Event)
    requires
        counts_positive(v),
    ensures
        counts_positive(step(g, v, e)),
        e matches Event::Closed(p) ==> (tally(v.reserved, p) == 0 && tally(v.regular, p) == 0
            ==> step(g, v, e) == v),
{
    let w = step(g, v, e);
    assert forall|q: Seq<u8>| #[trigger] w.reserved.contains_key(q) implies w.reserved[q] > 0 by {
        if v.reserved.contains_key(q) {
        }
    }
    assert forall|q: Seq<u8>| #[trigger] w.regular.contains_key(q) implies w.regular[q] > 0 by {
        if v.regular.contains_key(q) {
        }
    }
    if let Event::Closed(p) = e {
        if tally(v.reserved, p) == 0 && tally(v.regular, p) == 0 {
            assert(lowered(v.reserved, p) == v.reserved);
            assert(lowered(v.regular, p) == v.regular);
        }
    }
}

/// Under any sequence of attempts and closings, every count stays at one or more for
/// the peers that are listed, and at zero for the others: none goes below zero.
pub proof fn run_counts_positive(g: GatePolicy, v: ConnectionsView, es: Seq<Event>)
    requires
        counts_positive(v),
    ensures
        counts_positive(run(g, v, es)),
    decreases es.len(),
{
    if es.len() > 0 {
        run_counts_positive(g, v, es.drop_last());
        step_counts_positive(g, run(g, v, es.drop_last()), es.last());
    }
}

proof fn admissions_from_count(g: GatePolicy, v: ConnectionsView, p: Seq<u8>, n: nat)
    requires
        !g.reserved_only,
        !g.reserved.contains(p),
        tally(v.regular, p) <= g.max_per_peer,
        tally(v.regular, p) > 0 || v.peers < g.max_peers,
    ensures
        admissions(g, v, p, n) == if n <= g.max_per_peer - tally(v.regular, p) {
            n as int
        } else {
            g.max_per_peer - tally(v.regular, p)
        },
    decreases n,
{
    if n > 0 {
        match decision(g, v, p) {
            Ok(w) => {
                assert(tally(w.regular, p) == tally(v.regular, p) + 1);
                admissions_from_count(g, w, p, (n - 1) as nat);
            },
            Err(_) => {
                assert(tally(v.regular, p) == g.max_per_peer);
                admissions_from_count(g, v, p, (n - 1) as nat);
            },
        }
    }
}

/// `n` attempts of one regular peer that has no connection yet, while a distinct-peer
/// slot is free, admit exactly `min(n, max_per_peer)` of them and refuse the others.
/// The check and the count are one step on the registry, so any interleaving of
/// concurrent attempts is such a sequence.
pub proof fn same_peer_admissions(g: GatePolicy, v: ConnectionsView, p: Seq<u8>, n: nat)
    requires
        !g.reserved_only,
        !g.reserved.contains(p),
        tally(v.regular, p) == 0,
        v.peers < g.max_peers,
    ensures
        admissions(g, v, p, n) == if n <= g.max_per_peer {
            n
        } else {
            g.max_per_peer
        },
{
    admissions_from_count(g, v, p, n);
}

} // verus!
