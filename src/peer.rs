use vstd::prelude::*;

verus! {

/// Identity of a peer: the byte encoding of the identifier bound to its public key.
pub struct PeerIdentity {
    bytes: Vec<u8>,
}

impl View for PeerIdentity {
    type V = Seq<u8>;

    closed spec fn view(&self) -> Seq<u8> {
        self.bytes@
    }
}

/// Compares two byte strings element by element.
pub fn bytes_equal(a: &[u8], b: &[u8]) -> (r: bool)
    ensures
        r == (a@ == b@),
{
    if a.len() != b.len() {
        return false;
    }
    let mut i: usize = 0;
    while i < a.len()
        invariant
            a@.len() == b@.len(),
            0 <= i <= a@.len(),
            forall|j: int| 0 <= j < i ==> a@[j] == b@[j],
        decreases a@.len() - i,
    {
        if a[i] != b[i] {
            return false;
        }
        i = i + 1;
    }
    proof {
        assert(a@ =~= b@);
    }
    true
}

/// Copies a byte string.
pub fn copy_bytes(a: &[u8]) -> (r: Vec<u8>)
    ensures
        r@ == a@,
{
    let mut r: Vec<u8> = Vec::new();
    let mut i: usize = 0;
    while i < a.len()
        invariant
            0 <= i <= a@.len(),
            r@ == a@.subrange(0, i as int),
        decreases a@.len() - i,
    {
        r.push(a[i]);
        i = i + 1;
        proof {
            assert(r@ =~= a@.subrange(0, i as int));
        }
    }
    proof {
        assert(a@ =~= a@.subrange(0, a@.len() as int));
    }
    r
}

impl PeerIdentity {
    /// Wraps the byte encoding of an identity.
    pub fn from_bytes(bytes: Vec<u8>) -> (r: Self)
        ensures
            r@ == bytes@,
    {
        PeerIdentity { bytes }
    }

    /// The byte encoding of the identity.
    pub fn as_bytes(&self) -> (r: &[u8])
        ensures
            r@ == self@,
    {
        self.bytes.as_slice()
    }

    /// Whether two identities are the same.
    pub fn same_as(&self, other: &PeerIdentity) -> (r: bool)
        ensures
            r == (self@ == other@),
    {
        bytes_equal(self.bytes.as_slice(), other.bytes.as_slice())
    }

    /// A second, independent value of the same identity.
    pub fn duplicate(&self) -> (r: PeerIdentity)
        ensures
            r@ == self@,
    {
        PeerIdentity { bytes: copy_bytes(self.bytes.as_slice()) }
    }
}

/// The reserved peers: identities that are configured for prioritized or exclusive
/// connectivity. Each identity is held once.
pub struct ReservedPeers {
    peers: Vec<PeerIdentity>,
}

impl View for ReservedPeers {
    type V = Set<Seq<u8>>;

    closed spec fn view(&self) -> Set<Seq<u8>> {
        Set::new(|p: Seq<u8>| exists|i: int| 0 <= i < self.peers@.len() && (#[trigger] self.peers@[i])@ == p)
    }
}

impl ReservedPeers {
    /// The empty set of reserved peers.
    pub fn new() -> (r: Self)
        ensures
            r@ == Set::<Seq<u8>>::empty(),
    {
        let r = ReservedPeers { peers: Vec::new() };
        proof {
            assert(r@ =~= Set::<Seq<u8>>::empty());
        }
        r
    }

    /// Whether `peer` is reserved.
    pub fn contains(&self, peer: &PeerIdentity) -> (r: bool)
        ensures
            r == self@.contains(peer@),
    {
        let mut i: usize = 0;
        while i < self.peers.len()
            invariant
                0 <= i <= self.peers@.len(),
                forall|j: int| 0 <= j < i ==> (#[trigger] self.peers@[j])@ != peer@,
            decreases self.peers@.len() - i,
        {
            if self.peers[i].same_as(peer) {
                proof {
                    assert(self.peers@[i as int]@ == peer@);
                }
                return true;
            }
            i = i + 1;
        }
        false
    }

    /// Adds `peer` to the set.
    pub fn insert(&mut self, peer: PeerIdentity)
        ensures
            final(self)@ == old(self)@.insert(peer@),
    {
        if self.contains(&peer) {
            proof {
                assert(self@ =~= old(self)@.insert(peer@));
            }
        } else {
            let ghost p = peer@;
            self.peers.push(peer);
            proof {
                assert forall|q: Seq<u8>| #[trigger] self@.contains(q) == old(self)@.insert(p).contains(q) by {
                    if old(self)@.contains(q) {
                        let j = choose|j: int| 0 <= j < old(self).peers@.len() && (#[trigger] old(self).peers@[j])@ == q;
                        assert(self.peers@[j] == old(self).peers@[j]);
                    }
                    if q == p {
                        assert(self.peers@[old(self).peers@.len() as int]@ == p);
                    }
                    if self@.contains(q) {
                        let j = choose|j: int| 0 <= j < self.peers@.len() && (#[trigger] self.peers@[j])@ == q;
                        if j < old(self).peers@.len() {
                            assert(old(self).peers@[j] == self.peers@[j]);
                        }
                    }
                }
                assert(self@ =~= old(self)@.insert(p));
            }
        }
    }
}

} // verus!
