use fuel_p2p_transport::admission::{AdmissionGate, ConnectionDirection, RejectReason};
use fuel_p2p_transport::checksum::Checksum;
use fuel_p2p_transport::config::{
    peer_ids_set_from, Config, ConfigError, GenesisRoots, NotInitialized, MAX_HEADERS_PER_REQUEST,
    MAX_RESPONSE_SIZE,
};
use fuel_p2p_transport::connection_state::ConnectionState;
use fuel_p2p_transport::handshake::{abandon_setup, accept_authenticated, check_network, ConnectionError};
use fuel_p2p_transport::peer::{bytes_equal, PeerIdentity, ReservedPeers};

use fuel_core_chain_config::GenesisCommitment;
use fuel_core_types::fuel_types::Bytes32;

fn peer(n: u8) -> PeerIdentity {
    PeerIdentity::from_bytes(vec![0, 4, n, n, n, n])
}

fn reserved(ids: &[u8]) -> ReservedPeers {
    let mut set = ReservedPeers::new();
    for n in ids {
        set.insert(peer(*n));
    }
    set
}

fn genesis(seed: u8) -> GenesisRoots {
    GenesisRoots {
        chain_config_hash: [seed; 32],
        coins_root: [1; 32],
        contracts_root: [2; 32],
        messages_root: [3; 32],
        transactions_root: [4; 32],
    }
}

fn fuel_root(g: &GenesisRoots) -> [u8; 32] {
    let genesis = fuel_core_types::blockchain::consensus::Genesis {
        chain_config_hash: Bytes32::new(g.chain_config_hash),
        coins_root: Bytes32::new(g.coins_root),
        contracts_root: Bytes32::new(g.contracts_root),
        messages_root: Bytes32::new(g.messages_root),
        transactions_root: Bytes32::new(g.transactions_root),
    };
    genesis.root().unwrap()
}

const PEER_ADDRESS: &str = "/ip4/127.0.0.1/tcp/4001/p2p/QmcgpsyWgH8Y8ajJz1Cu72KnS5uo2Aa2LpzU7kinSupNKC";
const PEER_TEXT: &str = "QmcgpsyWgH8Y8ajJz1Cu72KnS5uo2Aa2LpzU7kinSupNKC";

#[test]
fn default_config_has_documented_values() {
    let c = Config::<NotInitialized>::default("testnet");
    assert_eq!(c.network_name, "testnet");
    assert_eq!(c.checksum.to_bytes(), [0u8; 32]);
    assert_eq!(c.max_peers_connected, 50);
    assert_eq!(c.max_connections_per_peer, 3);
    assert_eq!(c.max_block_size, MAX_RESPONSE_SIZE);
    assert_eq!(c.max_block_size, 18 * 1024 * 1024);
    assert_eq!(c.max_headers_per_request, MAX_HEADERS_PER_REQUEST);
    assert_eq!(c.random_walk_ms, Some(500));
    assert_eq!(c.heartbeat_max_time_since_last_ms, 40_000);
    assert!(!c.reserved_nodes_only_mode);
}

#[test]
fn init_computes_genesis_checksum() {
    let g = genesis(9);
    let c = Config::<NotInitialized>::default("testnet").init(&g).unwrap();
    assert_eq!(c.checksum.to_bytes(), fuel_root(&g));
    assert_ne!(c.checksum.to_bytes(), [0u8; 32]);
    assert_eq!(c.network_name, "testnet");
    assert_eq!(c.max_connections_per_peer, 3);
}

#[test]
fn default_initialized_uses_zero_genesis() {
    let c = Config::default_initialized("net");
    let expected = fuel_core_types::blockchain::consensus::Genesis::default().root().unwrap();
    assert_eq!(c.checksum.to_bytes(), expected);
}

#[test]
fn same_genesis_connects_and_is_admitted() {
    let x = Config::<NotInitialized>::default("net").init(&genesis(7)).unwrap();
    let y = Config::<NotInitialized>::default("net").init(&genesis(7)).unwrap();
    assert!(x.checksum.matches(&y.checksum));
    let gate = x.admission_gate().unwrap();
    let mut state = ConnectionState::new();
    let r = accept_authenticated(&x.checksum, &y.checksum, &gate, &mut state, &peer(1), ConnectionDirection::Inbound);
    assert_eq!(r, Ok(()));
    assert_eq!(state.regular_connections(&peer(1)), 1);
    assert_eq!(state.connected_peers(), 1);
}

#[test]
fn different_genesis_fails_at_checksum() {
    let x = Config::<NotInitialized>::default("net").init(&genesis(1)).unwrap();
    let y = Config::<NotInitialized>::default("net").init(&genesis(2)).unwrap();
    assert!(!x.checksum.matches(&y.checksum));
    assert_eq!(check_network(&x.checksum, &y.checksum), Err(ConnectionError::NetworkMismatch));
    let gate = x.admission_gate().unwrap();
    let mut state = ConnectionState::new();
    let r = accept_authenticated(&x.checksum, &y.checksum, &gate, &mut state, &peer(1), ConnectionDirection::Outbound);
    assert_eq!(r, Err(ConnectionError::NetworkMismatch));
    assert_eq!(state.regular_connections(&peer(1)), 0);
    assert_eq!(state.connected_peers(), 0);
}

#[test]
fn reserved_only_rejects_others_and_admits_reserved() {
    let gate = AdmissionGate::for_mode(true, reserved(&[7]), 0, 0);
    let mut state = ConnectionState::new();
    let c = Checksum::from_bytes([5; 32]);
    let r = accept_authenticated(&c, &c, &gate, &mut state, &peer(1), ConnectionDirection::Inbound);
    assert_eq!(r, Err(ConnectionError::AdmissionRejected(RejectReason::NotReserved)));
    assert_eq!(gate.decide(&mut state, &peer(7), ConnectionDirection::Inbound), Ok(()));
    assert_eq!(gate.decide(&mut state, &peer(7), ConnectionDirection::Inbound), Ok(()));
    assert_eq!(state.regular_connections(&peer(1)), 0);
    assert_eq!(state.connected_peers(), 0);
}

#[test]
fn reserved_peer_bypasses_saturated_capacity() {
    let gate = AdmissionGate::for_mode(false, reserved(&[7]), 1, 1);
    let mut state = ConnectionState::new();
    assert_eq!(gate.decide(&mut state, &peer(1), ConnectionDirection::Inbound), Ok(()));
    assert_eq!(
        gate.decide(&mut state, &peer(2), ConnectionDirection::Inbound),
        Err(RejectReason::PeerCapacityExceeded)
    );
    for _ in 0..4 {
        assert_eq!(gate.decide(&mut state, &peer(7), ConnectionDirection::Inbound), Ok(()));
    }
    assert_eq!(state.reserved_connections(&peer(7)), 4);
    assert_eq!(state.connected_peers(), 1);
}

#[test]
fn same_peer_attempts_admit_up_to_limit() {
    let gate = AdmissionGate::for_mode(false, ReservedPeers::new(), 10, 3);
    let mut state = ConnectionState::new();
    let mut admitted = 0;
    let mut rejected = 0;
    for _ in 0..5 {
        match gate.decide(&mut state, &peer(4), ConnectionDirection::Inbound) {
            Ok(()) => admitted += 1,
            Err(e) => {
                assert_eq!(e, RejectReason::PerPeerCapacityExceeded);
                rejected += 1;
            }
        }
    }
    assert_eq!(admitted, 3);
    assert_eq!(rejected, 2);
    assert_eq!(state.regular_connections(&peer(4)), 3);
    assert_eq!(state.connected_peers(), 1);
}

#[test]
fn distinct_peer_limit_is_kept() {
    let gate = AdmissionGate::for_mode(false, ReservedPeers::new(), 2, 3);
    let mut state = ConnectionState::new();
    assert_eq!(gate.decide(&mut state, &peer(1), ConnectionDirection::Inbound), Ok(()));
    assert_eq!(gate.decide(&mut state, &peer(2), ConnectionDirection::Outbound), Ok(()));
    assert_eq!(
        gate.decide(&mut state, &peer(3), ConnectionDirection::Inbound),
        Err(RejectReason::PeerCapacityExceeded)
    );
    assert_eq!(gate.decide(&mut state, &peer(1), ConnectionDirection::Inbound), Ok(()));
    assert_eq!(state.connected_peers(), 2);
    gate.on_closed(&mut state, &peer(2));
    assert_eq!(state.connected_peers(), 1);
    assert_eq!(gate.decide(&mut state, &peer(3), ConnectionDirection::Inbound), Ok(()));
    assert_eq!(state.connected_peers(), 2);
}

#[test]
fn closing_never_goes_below_zero() {
    let gate = AdmissionGate::for_mode(false, reserved(&[9]), 5, 5);
    let mut state = ConnectionState::new();
    gate.on_closed(&mut state, &peer(1));
    gate.on_closed(&mut state, &peer(9));
    assert_eq!(state.regular_connections(&peer(1)), 0);
    assert_eq!(state.reserved_connections(&peer(9)), 0);
    assert_eq!(gate.decide(&mut state, &peer(1), ConnectionDirection::Inbound), Ok(()));
    gate.on_closed(&mut state, &peer(1));
    gate.on_closed(&mut state, &peer(1));
    assert_eq!(state.regular_connections(&peer(1)), 0);
    assert_eq!(state.connected_peers(), 0);
}

#[test]
fn timeout_after_admission_releases_the_count() {
    let gate = AdmissionGate::for_mode(false, ReservedPeers::new(), 5, 5);
    let mut state = ConnectionState::new();
    assert_eq!(gate.decide(&mut state, &peer(1), ConnectionDirection::Inbound), Ok(()));
    assert_eq!(abandon_setup(&gate, &mut state, &peer(1), true), ConnectionError::TransportTimeout);
    assert_eq!(state.regular_connections(&peer(1)), 0);
    assert_eq!(state.connected_peers(), 0);
}

#[test]
fn peer_ids_come_from_addresses() {
    let expected = PEER_TEXT.parse::<libp2p::PeerId>().unwrap().to_bytes();
    let set = peer_ids_set_from(&vec![PEER_ADDRESS.to_string(), PEER_ADDRESS.to_string()]).unwrap();
    assert!(set.contains(&PeerIdentity::from_bytes(expected)));
    assert!(!set.contains(&peer(1)));
}

#[test]
fn address_without_peer_id_is_a_config_error() {
    let r = peer_ids_set_from(&vec![PEER_ADDRESS.to_string(), "/ip4/127.0.0.1/tcp/4001".to_string()]);
    assert!(matches!(r, Err(ConfigError::MissingPeerId(1))));
    let r = peer_ids_set_from(&vec!["not an address".to_string()]);
    assert!(matches!(r, Err(ConfigError::MissingPeerId(0))));
    let mut c = Config::default_initialized("net");
    c.reserved_nodes = vec!["/ip4/10.0.0.1/tcp/30333".to_string()];
    assert!(matches!(c.admission_gate(), Err(ConfigError::MissingPeerId(0))));
    c.bootstrap_nodes = vec![PEER_ADDRESS.to_string()];
    assert!(c.bootstrap_peers().is_ok());
}

#[test]
fn reserved_addresses_select_gate() {
    let mut c = Config::default_initialized("net");
    c.reserved_nodes = vec![PEER_ADDRESS.to_string()];
    c.reserved_nodes_only_mode = true;
    let gate = c.admission_gate().unwrap();
    let r = PEER_TEXT.parse::<libp2p::PeerId>().unwrap().to_bytes();
    let mut state = ConnectionState::new();
    assert_eq!(gate.decide(&mut state, &PeerIdentity::from_bytes(r), ConnectionDirection::Inbound), Ok(()));
    assert_eq!(
        gate.decide(&mut state, &peer(2), ConnectionDirection::Inbound),
        Err(RejectReason::NotReserved)
    );
}

#[test]
fn byte_comparison_and_identity_copies() {
    assert!(bytes_equal(&[1, 2, 3], &[1, 2, 3]));
    assert!(!bytes_equal(&[1, 2, 3], &[1, 2, 4]));
    assert!(!bytes_equal(&[1, 2], &[1, 2, 3]));
    let p = peer(8);
    assert!(p.duplicate().same_as(&p));
    assert_eq!(p.duplicate().as_bytes(), p.as_bytes());
    assert!(!p.same_as(&peer(9)));
}
