use vstd::prelude::*;

use crate::admission::{closing, decision, AdmissionGate, ConnectionDirection, RejectReason};
use crate::checksum::Checksum;
use crate::connection_state::{tally, ConnectionState};
use crate::peer::PeerIdentity;

verus! {

/// Why a connection attempt failed. Each failure ends that connection only.
#[derive(Clone, Copy, Debug, PartialEq, Eq, Structural)]
pub enum ConnectionError {
    /// The encrypted channel could not be authenticated.
    CryptoHandshake,
    /// The peer belongs to another network: its checksum differs from ours.
    NetworkMismatch,
    /// The admission gate turned the peer away.
    AdmissionRejected(RejectReason),
    /// The setup did not finish in time.
    TransportTimeout,
}

/// The network-compatibility step: the exchange succeeds exactly when the peer sent
/// our own checksum.
pub fn check_network(local: &Checksum, remote: &Checksum) -> (r: Result<(), ConnectionError>)
    ensures
        r is Ok <==> local@ == remote@,
        r is Err ==> r == Err::<(), ConnectionError>(ConnectionError::NetworkMismatch),
{
    if local.matches(remote) {
        Ok(())
    } else {
        Err(ConnectionError::NetworkMismatch)
    }
}

/// The steps that follow authentication of `peer`: the checksum comparison, then the
/// admission decision. A peer of another network is refused before any count moves.
pub fn accept_authenticated(
    local: &Checksum,
    remote: &Checksum,
    gate: &AdmissionGate,
    state: &mut ConnectionState,
    peer: &PeerIdentity,
    direction: ConnectionDirection,
) -> (r: Result<(), ConnectionError>)
    requires
        old(state).wf(),
        tally(old(state)@.reserved, peer@) < u32::MAX,
    ensures
        final(state).wf(),
        local@ != remote@ ==> r == Err::<(), ConnectionError>(ConnectionError::NetworkMismatch)
            && final(state)@ == old(state)@,
        local@ == remote@ ==> match decision(gate@, old(state)@, peer@) {
            Ok(w) => r is Ok && final(state)@ == w,
            Err(e) => r == Err::<(), ConnectionError>(ConnectionError::AdmissionRejected(e))
                && final(state)@ == old(state)@,
        },
{
    check_network(local, remote)?;
    match gate.decide(state, peer, direction) {
        Ok(()) => Ok(()),
        Err(e) => Err(ConnectionError::AdmissionRejected(e)),
    }
}

/// The end of a setup that ran out of time. Where the peer had already been admitted,
/// its connection is taken back out of the registry, so that no count is left behind.
pub fn abandon_setup(
    gate: &AdmissionGate,
    state: &mut ConnectionState,
    peer: &PeerIdentity,
    admitted: bool,
) -> (r: ConnectionError)
    requires
        old(state).wf(),
    ensures
        final(state).wf(),
        r == ConnectionError::TransportTimeout,
        admitted ==> final(state)@ == closing(gate@, old(state)@, peer@),
        !admitted ==> final(state)@ == old(state)@,
{
    if admitted {
        gate.on_closed(state, peer);
    }
    ConnectionError::TransportTimeout
}

} // verus!
