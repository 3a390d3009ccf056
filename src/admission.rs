use vstd::prelude::*;

use crate::connection_state::{lowered, tally, ConnectionState, ConnectionsView};
use crate::peer::{PeerIdentity, ReservedPeers};

verus! {

/// Why the admission gate turned a peer away.
#[derive(Clone, Copy, Debug, PartialEq, Eq, Structural)]
pub enum RejectReason {
    /// Only reserved peers are admitted, and this one is not reserved.
    NotReserved,
    /// A new regular peer arrived while the distinct-peer limit was reached.
    PeerCapacityExceeded,
    /// The peer already holds as many connections as one peer may.
    PerPeerCapacityExceeded,
}

/// Which side opened a connection.
#[derive(Clone, Copy, Debug, PartialEq, Eq, Structural)]
pub enum ConnectionDirection {
    Inbound,
    Outbound,
}

/// What an admission gate decides by: its mode, the reserved identities and the limits.
pub struct GatePolicy {
    pub reserved_only: bool,
    pub reserved: Set<Seq<u8>>,
    pub max_peers: nat,
    pub max_per_peer: nat,
}

/// The admission decision for `p` on the registry `v`: the registry after admission,
/// or the reason for refusal (the registry then stays as it was).
pub open spec fn decision(g: GatePolicy, v: ConnectionsView, p: Seq<u8>) -> Result<
    ConnectionsView,
    RejectReason,
> {
    if g.reserved_only {
        if g.reserved.contains(p) {
            Ok(v)
        } else {
            Err(RejectReason::NotReserved)
        }
    } else if g.reserved.contains(p) {
        Ok(ConnectionsView { reserved: v.reserved.insert(p, tally(v.reserved, p) + 1), ..v })
    } else if tally(v.regular, p) == 0 && v.peers >= g.max_peers {
        Err(RejectReason::PeerCapacityExceeded)
    } else if tally(v.regular, p) >= g.max_per_peer {
        Err(RejectReason::PerPeerCapacityExceeded)
    } else {
        Ok(
            ConnectionsView {
                regular: v.regular.insert(p, tally(v.regular, p) + 1),
                peers: if tally(v.regular, p) == 0 {
                    v.peers + 1
                } else {
                    v.peers
                },
                ..v
            },
        )
    }
}

/// The registry after a connection of `p` has closed.
pub open spec fn closing(g: GatePolicy, v: ConnectionsView, p: Seq<u8>) -> ConnectionsView {
    if g.reserved_only {
        v
    } else if g.reserved.contains(p) {
        ConnectionsView { reserved: lowered(v.reserved, p), ..v }
    } else {
        ConnectionsView {
            regular: lowered(v.regular, p),
            peers: if tally(v.regular, p) == 1 && v.peers > 0 {
                (v.peers - 1) as nat
            } else {
                v.peers
            },
            ..v
        }
    }
}

/// The policy that decides whether an authenticated peer may open a data channel.
pub enum AdmissionGate {
    /// Admits the reserved peers and no one else; keeps no counts.
    ReservedOnly { reserved: ReservedPeers },
    /// Admits reserved peers always, and regular peers within the two limits.
    CapacityTracked { reserved: ReservedPeers, max_peers_connected: u32, max_connections_per_peer: u32 },
}

impl View for AdmissionGate {
    type V = GatePolicy;

    open spec fn view(&self) -> GatePolicy {
        match self {
            AdmissionGate::ReservedOnly { reserved } => GatePolicy {
                reserved_only: true,
                reserved: reserved@,
                max_peers: 0,
                max_per_peer: 0,
            },
            AdmissionGate::CapacityTracked { reserved, max_peers_connected, max_connections_per_peer } => GatePolicy {
                reserved_only: false,
                reserved: reserved@,
                max_peers: *max_peers_connected as nat,
                max_per_peer: *max_connections_per_peer as nat,
            },
        }
    }
}

impl AdmissionGate {
    /// The admission policy for a node that runs in reserved-nodes-only mode or not.
    pub fn for_mode(
        reserved_nodes_only_mode: bool,
        reserved: ReservedPeers,
        max_peers_connected: u32,
        max_connections_per_peer: u32,
    ) -> (r: Self)
        ensures
            r@.reserved_only == reserved_nodes_only_mode,
            r@.reserved == reserved@,
            !reserved_nodes_only_mode ==> r@.max_peers == max_peers_connected as nat
                && r@.max_per_peer == max_connections_per_peer as nat,
    {
        if reserved_nodes_only_mode {
            AdmissionGate::ReservedOnly { reserved }
        } else {
            AdmissionGate::CapacityTracked { reserved, max_peers_connected, max_connections_per_peer }
        }
    }

    /// Decides on a newly authenticated connection of `peer`, and records it in `state`
    /// when it is admitted. The check and the count are one step on `state`.
    pub fn decide(
        &self,
        state: &mut ConnectionState,
        peer: &PeerIdentity,
        direction: ConnectionDirection,
    ) -> (r: Result<(), RejectReason>)
        requires
            old(state).wf(),
            tally(old(state)@.reserved, peer@) < u32::MAX,
        ensures
            final(state).wf(),
            match decision(self@, old(state)@, peer@) {
                Ok(w) => r is Ok && final(state)@ == w,
                Err(e) => r == Err::<(), RejectReason>(e) && final(state)@ == old(state)@,
            },
    {
        let _ = direction;
        match self {
            AdmissionGate::ReservedOnly { reserved } => {
                if reserved.contains(peer) {
                    Ok(())
                } else {
                    Err(RejectReason::NotReserved)
                }
            },
            AdmissionGate::CapacityTracked { reserved, max_peers_connected, max_connections_per_peer } => {
                if reserved.contains(peer) {
                    state.add_reserved(peer);
                    return Ok(());
                }
                let count = state.regular_connections(peer);
                if count == 0 && state.connected_peers() >= *max_peers_connected as usize {
                    Err(RejectReason::PeerCapacityExceeded)
                } else if count >= *max_connections_per_peer {
                    Err(RejectReason::PerPeerCapacityExceeded)
                } else {
                    state.add_regular(peer);
                    Ok(())
                }
            },
        }
    }

    /// Records in `state` that a connection of `peer` has closed. A count never drops
    /// below zero: closing a peer without connections changes nothing.
    pub fn on_closed(&self, state: &mut ConnectionState, peer: &PeerIdentity)
        requires
            old(state).wf(),
        ensures
            final(state).wf(),
            final(state)@ == closing(self@, old(state)@, peer@),
    {
        match self {
            AdmissionGate::ReservedOnly { .. } => {},
            AdmissionGate::CapacityTracked { reserved, .. } => {
                if reserved.contains(peer) {
                    state.remove_reserved(peer);
                } else {
                    state.remove_regular(peer);
                }
            },
        }
    }
}

} // verus!
