use vstd::prelude::*;

use crate::peer::PeerIdentity;

verus! {

/// What a connection registry holds: the active-connection count of each peer that has
/// one, kept apart for reserved and for regular peers, and the number of distinct
/// regular peers that are connected.
pub struct ConnectionsView {
    pub reserved: Map<Seq<u8>, nat>,
    pub regular: Map<Seq<u8>, nat>,
    pub peers: nat,
}

/// The count that `m` gives `p`: zero where `p` has no entry.
pub open spec fn tally(m: Map<Seq<u8>, nat>, p: Seq<u8>) -> nat {
    if m.contains_key(p) {
        m[p]
    } else {
        0
    }
}

/// Active-connection counts of a set of peers, as parallel lists.
/// Each listed peer is listed once and has at least one connection.
pub struct PeerCounts {
    ids: Vec<PeerIdentity>,
    counts: Vec<u32>,
}

impl PeerCounts {
    pub closed spec fn has(&self, p: Seq<u8>) -> bool {
        exists|i: int| 0 <= i < self.ids@.len() && (#[trigger] self.ids@[i])@ == p
    }

    pub closed spec fn at(&self, p: Seq<u8>) -> nat {
        if self.has(p) {
            self.counts@[choose|i: int| 0 <= i < self.ids@.len() && (#[trigger] self.ids@[i])@ == p] as nat
        } else {
            0
        }
    }

    pub closed spec fn wf(&self) -> bool {
        &&& self.ids@.len() == self.counts@.len()
        &&& forall|i: int| 0 <= i < self.counts@.len() ==> (#[trigger] self.counts@[i]) > 0
        &&& forall|i: int, j: int|
            0 <= i < self.ids@.len() && 0 <= j < self.ids@.len() && i != j ==> (#[trigger] self.ids@[i])@
                != (#[trigger] self.ids@[j])@
    }

    pub closed spec fn map(&self) -> Map<Seq<u8>, nat> {
        Map::new(|q: Seq<u8>| self.has(q), |q: Seq<u8>| self.at(q))
    }

    pub closed spec fn size(&self) -> nat {
        self.ids@.len()
    }

    proof fn lemma_at(&self, k: int)
        requires
            self.wf(),
            0 <= k < self.ids@.len(),
        ensures
            self.has(self.ids@[k]@),
            self.at(self.ids@[k]@) == self.counts@[k] as nat,
    {
        let p = self.ids@[k]@;
        assert(self.has(p));
        let i = choose|i: int| 0 <= i < self.ids@.len() && (#[trigger] self.ids@[i])@ == p;
        assert(i == k);
    }

    fn empty() -> (r: Self)
        ensures
            r.wf(),
            r.map() == Map::<Seq<u8>, nat>::empty(),
            r.size() == 0,
    {
        let r = PeerCounts { ids: Vec::new(), counts: Vec::new() };
        proof {
            assert(r.map() =~= Map::<Seq<u8>, nat>::empty());
        }
        r
    }

    fn find(&self, p: &PeerIdentity) -> (r: Option<usize>)
        requires
            self.wf(),
        ensures
            match r {
                Some(k) => k < self.ids@.len() && self.ids@[k as int]@ == p@,
                None => !self.has(p@),
            },
    {
        let mut i: usize = 0;
        while i < self.ids.len()
            invariant
                self.wf(),
                0 <= i <= self.ids@.len(),
                forall|j: int| 0 <= j < i ==> (#[trigger] self.ids@[j])@ != p@,
            decreases self.ids@.len() - i,
        {
            if self.ids[i].same_as(p) {
                return Some(i);
            }
            i = i + 1;
        }
        None
    }

    fn count(&self, p: &PeerIdentity) -> (r: u32)
        requires
            self.wf(),
        ensures
            r as nat == tally(self.map(), p@),
    {
        match self.find(p) {
            Some(k) => {
                proof {
                    self.lemma_at(k as int);
                }
                self.counts[k]
            },
            None => 0,
        }
    }

    fn add_one(&mut self, p: &PeerIdentity)
        requires
            old(self).wf(),
            tally(old(self).map(), p@) < u32::MAX,
        ensures
            final(self).wf(),
            final(self).map() == old(self).map().insert(p@, tally(old(self).map(), p@) + 1),
            final(self).size() == old(self).size() + (if tally(old(self).map(), p@) == 0 {
                1int
            } else {
                0int
            }),
    {
        let ghost pre = *old(self);
        match self.find(p) {
            Some(k) => {
                proof {
                    pre.lemma_at(k as int);
                }
                let c = self.counts[k];
                self.counts.set(k, c + 1);
                proof {
                    assert(self.ids@ == pre.ids@);
                    assert forall|q: Seq<u8>| #[trigger] self.has(q) == (pre.has(q) || q == p@) by {
                        if pre.has(q) {
                            let j = choose|j: int| 0 <= j < pre.ids@.len() && (#[trigger] pre.ids@[j])@ == q;
                            assert(self.ids@[j]@ == q);
                        }
                        if q == p@ {
                            assert(self.ids@[k as int]@ == q);
                        }
                    }
                    assert forall|q: Seq<u8>| self.has(q) implies #[trigger] self.at(q) == (if q == p@ {
                        c as nat + 1
                    } else {
                        pre.at(q)
                    }) by {
                        let j = choose|j: int| 0 <= j < self.ids@.len() && (#[trigger] self.ids@[j])@ == q;
                        self.lemma_at(j);
                        pre.lemma_at(j);
                    }
                    assert(self.map() =~= pre.map().insert(p@, tally(pre.map(), p@) + 1));
                }
            },
            None => {
                let id = p.duplicate();
                self.ids.push(id);
                self.counts.push(1);
                proof {
                    let n = pre.ids@.len() as int;
                    assert(self.ids@[n]@ == p@);
                    assert forall|i: int, j: int|
                        0 <= i < self.ids@.len() && 0 <= j < self.ids@.len() && i != j implies (#[trigger] self.ids@[i])@
                            != (#[trigger] self.ids@[j])@ by {
                        if i < n && j < n {
                            assert(self.ids@[i] == pre.ids@[i]);
                            assert(self.ids@[j] == pre.ids@[j]);
                        } else if i < n {
                            assert(self.ids@[i] == pre.ids@[i]);
                        } else {
                            assert(self.ids@[j] == pre.ids@[j]);
                        }
                    }
                    assert forall|i: int| 0 <= i < self.counts@.len() implies (#[trigger] self.counts@[i]) > 0 by {
                        if i < n {
                            assert(self.counts@[i] == pre.counts@[i]);
                        }
                    }
                    assert forall|q: Seq<u8>| #[trigger] self.has(q) == (pre.has(q) || q == p@) by {
                        if pre.has(q) {
                            let j = choose|j: int| 0 <= j < pre.ids@.len() && (#[trigger] pre.ids@[j])@ == q;
                            assert(self.ids@[j]@ == q);
                        }
                        if self.has(q) {
                            let j = choose|j: int| 0 <= j < self.ids@.len() && (#[trigger] self.ids@[j])@ == q;
                            if j < n {
                                assert(pre.ids@[j] == self.ids@[j]);
                            }
                        }
                    }
                    assert forall|q: Seq<u8>| self.has(q) implies #[trigger] self.at(q) == (if q == p@ {
                        1nat
                    } else {
                        pre.at(q)
                    }) by {
                        let j = choose|j: int| 0 <= j < self.ids@.len() && (#[trigger] self.ids@[j])@ == q;
                        self.lemma_at(j);
                        if j < n {
                            assert(pre.ids@[j] == self.ids@[j]);
                            assert(pre.counts@[j] == self.counts@[j]);
                            pre.lemma_at(j);
                        }
                    }
                    assert(self.map() =~= pre.map().insert(p@, tally(pre.map(), p@) + 1));
                }
            },
        }
    }

    fn take_one(&mut self, p: &PeerIdentity)
        requires
            old(self).wf(),
        ensures
            final(self).wf(),
            tally(old(self).map(), p@) == 0 ==> *final(self) == *old(self),
            tally(old(self).map(), p@) == 1 ==> final(self).map() == old(self).map().remove(p@)
                && final(self).size() + 1 == old(self).size(),
            tally(old(self).map(), p@) > 1 ==> final(self).map() == old(self).map().insert(
                p@,
                (tally(old(self).map(), p@) - 1) as nat,
            ) && final(self).size() == old(self).size(),
    {
        let ghost pre = *old(self);
        match self.find(p) {
            Some(k) => {
                proof {
                    pre.lemma_at(k as int);
                }
                let c = self.counts[k];
                if c > 1 {
                    self.counts.set(k, c - 1);
                    proof {
                        assert(self.ids@ == pre.ids@);
                        assert forall|q: Seq<u8>| #[trigger] self.has(q) == pre.has(q) by {
                            if pre.has(q) {
                                let j = choose|j: int| 0 <= j < pre.ids@.len() && (#[trigger] pre.ids@[j])@ == q;
                                assert(self.ids@[j]@ == q);
                            }
                        }
                        assert forall|q: Seq<u8>| self.has(q) implies #[trigger] self.at(q) == (if q == p@ {
                            (c - 1) as nat
                        } else {
                            pre.at(q)
                        }) by {
                            let j = choose|j: int| 0 <= j < self.ids@.len() && (#[trigger] self.ids@[j])@ == q;
                            self.lemma_at(j);
                            pre.lemma_at(j);
                        }
                        assert(self.map() =~= pre.map().insert(p@, (tally(pre.map(), p@) - 1) as nat));
                    }
                } else {
                    let _ = self.ids.remove(k);
                    let _ = self.counts.remove(k);
                    proof {
                        let ki = k as int;
                        assert forall|i: int, j: int|
                            0 <= i < self.ids@.len() && 0 <= j < self.ids@.len() && i != j implies (#[trigger] self.ids@[i])@
                                != (#[trigger] self.ids@[j])@ by {
                            let i0 = if i < ki { i } else { i + 1 };
                            let j0 = if j < ki { j } else { j + 1 };
                            assert(self.ids@[i] == pre.ids@[i0]);
                            assert(self.ids@[j] == pre.ids@[j0]);
                        }
                        assert forall|i: int| 0 <= i < self.counts@.len() implies (#[trigger] self.counts@[i]) > 0 by {
                            let i0 = if i < ki { i } else { i + 1 };
                            assert(self.counts@[i] == pre.counts@[i0]);
                        }
                        assert forall|q: Seq<u8>| #[trigger] self.has(q) == (pre.has(q) && q != p@) by {
                            if pre.has(q) && q != p@ {
                                let j = choose|j: int| 0 <= j < pre.ids@.len() && (#[trigger] pre.ids@[j])@ == q;
                                assert(j != ki);
                                let j1 = if j < ki { j } else { j - 1 };
                                assert(self.ids@[j1] == pre.ids@[j]);
                            }
                            if self.has(q) {
                                let j = choose|j: int| 0 <= j < self.ids@.len() && (#[trigger] self.ids@[j])@ == q;
                                let j0 = if j < ki { j } else { j + 1 };
                                assert(self.ids@[j] == pre.ids@[j0]);
                                assert(j0 != ki);
                            }
                        }
                        assert forall|q: Seq<u8>| self.has(q) implies #[trigger] self.at(q) == pre.at(q) by {
                            let j = choose|j: int| 0 <= j < self.ids@.len() && (#[trigger] self.ids@[j])@ == q;
                            let j0 = if j < ki { j } else { j + 1 };
                            assert(self.ids@[j] == pre.ids@[j0]);
                            assert(self.counts@[j] == pre.counts@[j0]);
                            self.lemma_at(j);
                            pre.lemma_at(j0);
                        }
                        assert(self.map() =~= pre.map().remove(p@));
                    }
                }
            },
            None => {
            },
        }
    }
}

/// The shared registry of active connections per peer identity.
pub struct ConnectionState {
    reserved: PeerCounts,
    regular: PeerCounts,
}

impl View for ConnectionState {
    type V = ConnectionsView;

    closed spec fn view(&self) -> ConnectionsView {
        ConnectionsView {
            reserved: self.reserved.map(),
            regular: self.regular.map(),
            peers: self.regular.size(),
        }
    }
}

impl ConnectionState {
    /// The registry's internal consistency: each peer is listed once per kind, with
    /// at least one connection.
    pub closed spec fn wf(&self) -> bool {
        self.reserved.wf() && self.regular.wf()
    }

    /// A registry with no connections.
    pub fn new() -> (r: Self)
        ensures
            r.wf(),
            r@.reserved == Map::<Seq<u8>, nat>::empty(),
            r@.regular == Map::<Seq<u8>, nat>::empty(),
            r@.peers == 0,
    {
        ConnectionState { reserved: PeerCounts::empty(), regular: PeerCounts::empty() }
    }

    /// The number of active connections of `peer` as a reserved peer.
    pub fn reserved_connections(&self, peer: &PeerIdentity) -> (r: u32)
        requires
            self.wf(),
        ensures
            r as nat == tally(self@.reserved, peer@),
    {
        self.reserved.count(peer)
    }

    /// The number of active connections of `peer` as a regular peer.
    pub fn regular_connections(&self, peer: &PeerIdentity) -> (r: u32)
        requires
            self.wf(),
        ensures
            r as nat == tally(self@.regular, peer@),
    {
        self.regular.count(peer)
    }

    /// The number of distinct regular peers with an active connection.
    pub fn connected_peers(&self) -> (r: usize)
        ensures
            r as nat == self@.peers,
    {
        self.regular.ids.len()
    }

    pub(crate) fn add_reserved(&mut self, peer: &PeerIdentity)
        requires
            old(self).wf(),
            tally(old(self)@.reserved, peer@) < u32::MAX,
        ensures
            final(self).wf(),
            final(self)@ == (ConnectionsView {
                reserved: old(self)@.reserved.insert(peer@, tally(old(self)@.reserved, peer@) + 1),
                ..old(self)@
            }),
    {
        self.reserved.add_one(peer);
    }

    pub(crate) fn add_regular(&mut self, peer: &PeerIdentity)
        requires
            old(self).wf(),
            tally(old(self)@.regular, peer@) < u32::MAX,
        ensures
            final(self).wf(),
            final(self)@ == (ConnectionsView {
                regular: old(self)@.regular.insert(peer@, tally(old(self)@.regular, peer@) + 1),
                peers: if tally(old(self)@.regular, peer@) == 0 {
                    old(self)@.peers + 1
                } else {
                    old(self)@.peers
                },
                ..old(self)@
            }),
    {
        self.regular.add_one(peer);
    }

    pub(crate) fn remove_reserved(&mut self, peer: &PeerIdentity)
        requires
            old(self).wf(),
        ensures
            final(self).wf(),
            final(self)@ == (ConnectionsView { reserved: lowered(old(self)@.reserved, peer@), ..old(self)@ }),
    {
        self.reserved.take_one(peer);
        proof {
            assert(self@.reserved =~= lowered(old(self)@.reserved, peer@));
        }
    }

    pub(crate) fn remove_regular(&mut self, peer: &PeerIdentity)
        requires
            old(self).wf(),
        ensures
            final(self).wf(),
            final(self)@ == (ConnectionsView {
                regular: lowered(old(self)@.regular, peer@),
                peers: if tally(old(self)@.regular, peer@) == 1 && old(self)@.peers > 0 {
                    (old(self)@.peers - 1) as nat
                } else {
                    old(self)@.peers
                },
                ..old(self)@
            }),
    {
        self.regular.take_one(peer);
        proof {
            assert(self@.regular =~= lowered(old(self)@.regular, peer@));
        }
    }
}

/// `m` with one connection of `p` taken away; a peer without connections is left as it
/// is, and a peer whose last connection closes loses its entry.
pub open spec fn lowered(m: Map<Seq<u8>, nat>, p: Seq<u8>) -> Map<Seq<u8>, nat> {
    if tally(m, p) == 0 {
        m
    } else if tally(m, p) == 1 {
        m.remove(p)
    } else {
        m.insert(p, (tally(m, p) - 1) as nat)
    }
}

} // verus!
