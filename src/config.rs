use vstd::prelude::*;

use fuel_core_chain_config::GenesisCommitment;
use fuel_core_types::fuel_types::Bytes32;

use crate::admission::AdmissionGate;
use crate::checksum::Checksum;
use crate::peer::{PeerIdentity, ReservedPeers};

verus! {

#[verifier::external_type_specification]
#[verifier::external_body]
pub struct ExAnyhowError(anyhow::Error);

/// Timeout of inbound and outbound requests, and keep-alive of idle connections.
pub const REQ_RES_TIMEOUT_MS: u64 = 20_000;

/// Maximum response size from the p2p network. An ingress in front of the node must
/// allow request bodies of the same size.
pub const MAX_RESPONSE_SIZE: usize = 18 * 1024 * 1024;

/// Maximum number of headers per request.
pub const MAX_HEADERS_PER_REQUEST: u32 = 100;

/// Bound on the whole setup of a connection: encryption, checksum exchange, admission
/// and multiplexer negotiation.
pub const TRANSPORT_TIMEOUT_MS: u64 = 20_000;

/// Why a configuration could not be made ready.
#[derive(Clone, Copy, Debug, PartialEq, Eq, Structural)]
pub enum ConfigError {
    /// The genesis commitment could not be computed.
    GenesisCommitment,
    /// The address at this position of the list carries no peer identity.
    MissingPeerId(usize),
}

/// The peer identity that ends the multiaddress written as `text` (its `/p2p/...`
/// component), if the text parses and ends so.
pub uninterp spec fn address_peer_id(text: Seq<char>) -> Option<Seq<u8>>;

/// The commitment of a genesis definition to its five roots.
pub uninterp spec fn genesis_commitment(
    chain_config_hash: Seq<u8>,
    coins_root: Seq<u8>,
    contracts_root: Seq<u8>,
    messages_root: Seq<u8>,
    transactions_root: Seq<u8>,
) -> Seq<u8>;

/// Relies on `Multiaddr::from_str` to parse the text and on `PeerId::to_bytes` to encode
/// the identity of its last component when that is `/p2p/...`; the outcome depends on
/// the text alone.
#[verifier::external_body]
fn address_peer_id_bytes(text: &str) -> (r: Option<Vec<u8>>)
    ensures
        match r {
            Some(b) => address_peer_id(text@) == Some(b@),
            None => address_peer_id(text@) is None,
        },
{
    let address: libp2p::Multiaddr = text.parse().ok()?;
    match address.iter().last() {
        Some(libp2p::multiaddr::Protocol::P2p(peer)) => Some(peer.to_bytes()),
        _ => None,
    }
}

/// Relies on `GenesisCommitment::root` for `Genesis`, which hashes the five roots in
/// order and always returns `Ok`.
#[verifier::external_body]
fn genesis_root(genesis: &GenesisRoots) -> (r: Result<[u8; 32], anyhow::Error>)
    ensures
        r is Ok,
        r matches Ok(h) ==> h@ == genesis_commitment(
            genesis.chain_config_hash@,
            genesis.coins_root@,
            genesis.contracts_root@,
            genesis.messages_root@,
            genesis.transactions_root@,
        ),
{
    let g = fuel_core_types::blockchain::consensus::Genesis {
        chain_config_hash: Bytes32::new(genesis.chain_config_hash),
        coins_root: Bytes32::new(genesis.coins_root),
        contracts_root: Bytes32::new(genesis.contracts_root),
        messages_root: Bytes32::new(genesis.messages_root),
        transactions_root: Bytes32::new(genesis.transactions_root),
    };
    g.root()
}

/// Thirty-two zero bytes.
pub open spec fn zero_root() -> Seq<u8> {
    Seq::new(32, |i: int| 0u8)
}

/// A genesis definition, by the roots that the chain commits to.
#[derive(Clone, Copy, Debug)]
pub struct GenesisRoots {
    pub chain_config_hash: [u8; 32],
    pub coins_root: [u8; 32],
    pub contracts_root: [u8; 32],
    pub messages_root: [u8; 32],
    pub transactions_root: [u8; 32],
}

impl GenesisRoots {
    /// The genesis definition whose roots are all zero.
    pub fn zeroed() -> (r: Self)
        ensures
            r.chain_config_hash@ == zero_root(),
            r.coins_root@ == zero_root(),
            r.contracts_root@ == zero_root(),
            r.messages_root@ == zero_root(),
            r.transactions_root@ == zero_root(),
    {
        let r = GenesisRoots {
            chain_config_hash: [0u8; 32],
            coins_root: [0u8; 32],
            contracts_root: [0u8; 32],
            messages_root: [0u8; 32],
            transactions_root: [0u8; 32],
        };
        proof {
            assert(r.chain_config_hash@ =~= zero_root());
            assert(r.coins_root@ =~= zero_root());
            assert(r.contracts_root@ =~= zero_root());
            assert(r.messages_root@ =~= zero_root());
            assert(r.transactions_root@ =~= zero_root());
        }
        r
    }
}

/// The checksum that a genesis definition gives.
pub open spec fn checksum_of(g: GenesisRoots) -> Seq<u8> {
    genesis_commitment(
        g.chain_config_hash@,
        g.coins_root@,
        g.contracts_root@,
        g.messages_root@,
        g.transactions_root@,
    )
}

/// The identities that the addresses of `a` before position `n` carry.
pub open spec fn peer_ids_upto(a: Seq<String>, n: int) -> Set<Seq<u8>> {
    Set::new(|p: Seq<u8>| exists|j: int| 0 <= j < n && address_peer_id((#[trigger] a[j])@) == Some(p))
}

/// Whether every address of `a` carries a peer identity.
pub open spec fn all_carry_peer_ids(a: Seq<String>) -> bool {
    forall|j: int| 0 <= j < a.len() ==> (address_peer_id((#[trigger] a[j])@) is Some)
}

/// The set of peer identities that the addresses carry. Fails, naming the first, where
/// an address carries none.
pub fn peer_ids_set_from(addresses: &Vec<String>) -> (r: Result<ReservedPeers, ConfigError>)
    ensures
        match r {
            Ok(set) => all_carry_peer_ids(addresses@) && set@ == peer_ids_upto(
                addresses@,
                addresses@.len() as int,
            ),
            Err(e) => exists|i: usize|
                e == ConfigError::MissingPeerId(i) && i < addresses@.len() && (address_peer_id(
                    addresses@[i as int]@,
                ) is None) && forall|j: int| 0 <= j < i ==> (address_peer_id(
                    (#[trigger] addresses@[j])@,
                ) is Some),
        },
{
    let mut set = ReservedPeers::new();
    let mut i: usize = 0;
    proof {
        assert(set@ =~= peer_ids_upto(addresses@, 0));
    }
    while i < addresses.len()
        invariant
            0 <= i <= addresses@.len(),
            forall|j: int| 0 <= j < i ==> (address_peer_id((#[trigger] addresses@[j])@) is Some),
            set@ == peer_ids_upto(addresses@, i as int),
        decreases addresses@.len() - i,
    {
        match address_peer_id_bytes(addresses[i].as_str()) {
            Some(bytes) => {
                let ghost b = bytes@;
                set.insert(PeerIdentity::from_bytes(bytes));
                proof {
                    let a = addresses@;
                    assert forall|p: Seq<u8>| #[trigger] set@.contains(p) == peer_ids_upto(a, i + 1).contains(p) by {
                        if peer_ids_upto(a, i as int).contains(p) {
                            let j = choose|j: int| 0 <= j < i && address_peer_id((#[trigger] a[j])@) == Some(p);
                            assert(0 <= j < i + 1 && address_peer_id(a[j]@) == Some(p));
                        }
                        if p == b {
                            assert(address_peer_id(a[i as int]@) == Some(p));
                        }
                        if peer_ids_upto(a, i + 1).contains(p) {
                            let j = choose|j: int| 0 <= j < i + 1 && address_peer_id((#[trigger] a[j])@) == Some(p);
                            if j < i {
                                assert(peer_ids_upto(a, i as int).contains(p));
                            }
                        }
                    }
                    assert(set@ =~= peer_ids_upto(a, i + 1));
                }
            },
            None => {
                return Err(ConfigError::MissingPeerId(i));
            },
        }
        i = i + 1;
    }
    Ok(set)
}

/// The lifecycle phase of a configuration that has been made ready by `init`. Only
/// `init` can make a value of it.
#[derive(Clone, Copy, Debug)]
pub struct Initialized(());

/// The lifecycle phase of a configuration as its author wrote it, without a checksum.
#[derive(Clone, Copy, Debug)]
pub struct NotInitialized;

/// The parameters of the network layer. Only a `Config<Initialized>` holds the
/// checksum of a genesis definition and can build a transport.
pub struct Config<State = Initialized> {
    /// Name of the network.
    pub network_name: String,
    /// The network-identity checksum, computed from the genesis definition.
    pub checksum: Checksum,
    /// IPv4 address to listen on.
    pub address: [u8; 4],
    /// Address at which other nodes can reach this one, if any.
    pub public_address: Option<String>,
    /// TCP port to listen on.
    pub tcp_port: u16,
    /// Maximum size of a block in bytes.
    pub max_block_size: usize,
    pub max_headers_per_request: u32,
    pub bootstrap_nodes: Vec<String>,
    pub enable_mdns: bool,
    pub allow_private_addresses: bool,
    pub random_walk_ms: Option<u64>,
    pub connection_idle_timeout_ms: Option<u64>,
    /// Priority nodes that the node keeps connections to.
    pub reserved_nodes: Vec<String>,
    /// Whether only the reserved nodes may connect.
    pub reserved_nodes_only_mode: bool,
    /// Maximum number of distinct regular peers connected.
    pub max_peers_connected: u32,
    /// Maximum number of connections of one peer.
    pub max_connections_per_peer: u32,
    pub identify_interval_ms: Option<u64>,
    pub info_interval_ms: Option<u64>,
    /// Timeout of inbound and outbound requests.
    pub set_request_timeout_ms: u64,
    /// Keep-alive timeout of idle connections.
    pub set_connection_keep_alive_ms: u64,
    pub heartbeat_check_interval_ms: u64,
    pub heartbeat_max_avg_interval_ms: u64,
    pub heartbeat_max_time_since_last_ms: u64,
    /// Whether metrics are collected.
    pub metrics: bool,
    /// The lifecycle phase.
    pub state: State,
}

impl Config<NotInitialized> {
    /// A configuration with the default limits and timeouts, not yet initialized.
    pub fn default(network_name: &str) -> (r: Self)
        ensures
            r.network_name@ == network_name@,
            r.checksum@ == zero_root(),
            r.address@ == seq![0u8, 0u8, 0u8, 0u8],
            r.public_address is None,
            r.tcp_port == 0,
            r.max_block_size == MAX_RESPONSE_SIZE,
            r.max_headers_per_request == MAX_HEADERS_PER_REQUEST,
            r.bootstrap_nodes@.len() == 0,
            !r.enable_mdns,
            r.allow_private_addresses,
            r.random_walk_ms == Some(500u64),
            r.connection_idle_timeout_ms == Some(120_000u64),
            r.reserved_nodes@.len() == 0,
            !r.reserved_nodes_only_mode,
            r.max_peers_connected == 50,
            r.max_connections_per_peer == 3,
            r.identify_interval_ms == Some(5_000u64),
            r.info_interval_ms == Some(3_000u64),
            r.set_request_timeout_ms == REQ_RES_TIMEOUT_MS,
            r.set_connection_keep_alive_ms == REQ_RES_TIMEOUT_MS,
            r.heartbeat_check_interval_ms == 10_000,
            r.heartbeat_max_avg_interval_ms == 20_000,
            r.heartbeat_max_time_since_last_ms == 40_000,
            !r.metrics,
    {
        let address: [u8; 4] = [0u8; 4];
        proof {
            assert(address@ =~= seq![0u8, 0u8, 0u8, 0u8]);
        }
        Config {
            network_name: network_name.to_owned(),
            checksum: Checksum::zeroed(),
            address,
            public_address: None,
            tcp_port: 0,
            max_block_size: MAX_RESPONSE_SIZE,
            max_headers_per_request: MAX_HEADERS_PER_REQUEST,
            bootstrap_nodes: Vec::new(),
            enable_mdns: false,
            allow_private_addresses: true,
            random_walk_ms: Some(500),
            connection_idle_timeout_ms: Some(120_000),
            reserved_nodes: Vec::new(),
            reserved_nodes_only_mode: false,
            max_peers_connected: 50,
            max_connections_per_peer: 3,
            identify_interval_ms: Some(5_000),
            info_interval_ms: Some(3_000),
            set_request_timeout_ms: REQ_RES_TIMEOUT_MS,
            set_connection_keep_alive_ms: REQ_RES_TIMEOUT_MS,
            heartbeat_check_interval_ms: 10_000,
            heartbeat_max_avg_interval_ms: 20_000,
            heartbeat_max_time_since_last_ms: 40_000,
            metrics: false,
            state: NotInitialized,
        }
    }

    /// Makes the configuration ready: computes the checksum of `genesis` and keeps every
    /// other parameter as it is.
    pub fn init(self, genesis: &GenesisRoots) -> (r: Result<Config<Initialized>, ConfigError>)
        ensures
            r matches Ok(c) && c.checksum@ == checksum_of(*genesis) && same_parameters(c, self),
    {
        match genesis_root(genesis) {
            Ok(root) => Ok(
                Config {
                    network_name: self.network_name,
                    checksum: Checksum::from_bytes(root),
                    address: self.address,
                    public_address: self.public_address,
                    tcp_port: self.tcp_port,
                    max_block_size: self.max_block_size,
                    max_headers_per_request: self.max_headers_per_request,
                    bootstrap_nodes: self.bootstrap_nodes,
                    enable_mdns: self.enable_mdns,
                    allow_private_addresses: self.allow_private_addresses,
                    random_walk_ms: self.random_walk_ms,
                    connection_idle_timeout_ms: self.connection_idle_timeout_ms,
                    reserved_nodes: self.reserved_nodes,
                    reserved_nodes_only_mode: self.reserved_nodes_only_mode,
                    max_peers_connected: self.max_peers_connected,
                    max_connections_per_peer: self.max_connections_per_peer,
                    identify_interval_ms: self.identify_interval_ms,
                    info_interval_ms: self.info_interval_ms,
                    set_request_timeout_ms: self.set_request_timeout_ms,
                    set_connection_keep_alive_ms: self.set_connection_keep_alive_ms,
                    heartbeat_check_interval_ms: self.heartbeat_check_interval_ms,
                    heartbeat_max_avg_interval_ms: self.heartbeat_max_avg_interval_ms,
                    heartbeat_max_time_since_last_ms: self.heartbeat_max_time_since_last_ms,
                    metrics: self.metrics,
                    state: Initialized(()),
                },
            ),
            Err(_) => Err(ConfigError::GenesisCommitment),
        }
    }
}

/// Whether two configurations agree on every parameter but the checksum and the phase.
pub open spec fn same_parameters<A, B>(c: Config<A>, d: Config<B>) -> bool {
    &&& c.network_name@ == d.network_name@
    &&& c.address@ == d.address@
    &&& c.public_address == d.public_address
    &&& c.tcp_port == d.tcp_port
    &&& c.max_block_size == d.max_block_size
    &&& c.max_headers_per_request == d.max_headers_per_request
    &&& c.bootstrap_nodes@ == d.bootstrap_nodes@
    &&& c.enable_mdns == d.enable_mdns
    &&& c.allow_private_addresses == d.allow_private_addresses
    &&& c.random_walk_ms == d.random_walk_ms
    &&& c.connection_idle_timeout_ms == d.connection_idle_timeout_ms
    &&& c.reserved_nodes@ == d.reserved_nodes@
    &&& c.reserved_nodes_only_mode == d.reserved_nodes_only_mode
    &&& c.max_peers_connected == d.max_peers_connected
    &&& c.max_connections_per_peer == d.max_connections_per_peer
    &&& c.identify_interval_ms == d.identify_interval_ms
    &&& c.info_interval_ms == d.info_interval_ms
    &&& c.set_request_timeout_ms == d.set_request_timeout_ms
    &&& c.set_connection_keep_alive_ms == d.set_connection_keep_alive_ms
    &&& c.heartbeat_check_interval_ms == d.heartbeat_check_interval_ms
    &&& c.heartbeat_max_avg_interval_ms == d.heartbeat_max_avg_interval_ms
    &&& c.heartbeat_max_time_since_last_ms == d.heartbeat_max_time_since_last_ms
    &&& c.metrics == d.metrics
}

impl Config<Initialized> {
    /// The default configuration, initialized from the genesis definition whose roots are
    /// all zero.
    pub fn default_initialized(network_name: &str) -> (r: Self)
        ensures
            r.network_name@ == network_name@,
            r.checksum@ == genesis_commitment(
                zero_root(),
                zero_root(),
                zero_root(),
                zero_root(),
                zero_root(),
            ),
            r.max_peers_connected == 50,
            r.max_connections_per_peer == 3,
            !r.reserved_nodes_only_mode,
            r.reserved_nodes@.len() == 0,
            r.bootstrap_nodes@.len() == 0,
    {
        let genesis = GenesisRoots::zeroed();
        Config::<NotInitialized>::default(network_name).init(&genesis).unwrap()
    }

    /// The admission gate that the configuration selects: reserved peers only, or
    /// capacity tracking with the configured limits. Fails where a reserved address
    /// carries no peer identity.
    pub fn admission_gate(&self) -> (r: Result<AdmissionGate, ConfigError>)
        ensures
            match r {
                Ok(g) => all_carry_peer_ids(self.reserved_nodes@) && g@.reserved_only
                    == self.reserved_nodes_only_mode && g@.reserved == peer_ids_upto(
                    self.reserved_nodes@,
                    self.reserved_nodes@.len() as int,
                ) && (!self.reserved_nodes_only_mode ==> g@.max_peers
                    == self.max_peers_connected as nat && g@.max_per_peer
                    == self.max_connections_per_peer as nat),
                Err(e) => !all_carry_peer_ids(self.reserved_nodes@) && e is MissingPeerId,
            },
    {
        let reserved = peer_ids_set_from(&self.reserved_nodes)?;
        Ok(
            AdmissionGate::for_mode(
                self.reserved_nodes_only_mode,
                reserved,
                self.max_peers_connected,
                self.max_connections_per_peer,
            ),
        )
    }

    /// Checks that every bootstrap address carries a peer identity, and gives their set.
    pub fn bootstrap_peers(&self) -> (r: Result<ReservedPeers, ConfigError>)
        ensures
            match r {
                Ok(set) => all_carry_peer_ids(self.bootstrap_nodes@) && set@ == peer_ids_upto(
                    self.bootstrap_nodes@,
                    self.bootstrap_nodes@.len() as int,
                ),
                Err(e) => !all_carry_peer_ids(self.bootstrap_nodes@) && e is MissingPeerId,
            },
    {
        peer_ids_set_from(&self.bootstrap_nodes)
    }
}

} // verus!
