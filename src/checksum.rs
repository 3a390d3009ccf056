use vstd::prelude::*;

use crate::peer::bytes_equal;

verus! {

/// The network-identity checksum: 32 bytes derived from a chain's genesis definition.
#[derive(Clone, Copy, Debug)]
pub struct Checksum {
    bytes: [u8; 32],
}

impl View for Checksum {
    type V = Seq<u8>;

    closed spec fn view(&self) -> Seq<u8> {
        self.bytes@
    }
}

impl Checksum {
    pub fn from_bytes(bytes: [u8; 32]) -> (r: Self)
        ensures
            r@ == bytes@,
    {
        Checksum { bytes }
    }

    /// The placeholder of a configuration that has not been initialized: all zeros.
    pub fn zeroed() -> (r: Self)
        ensures
            r@ == Seq::new(32, |i: int| 0u8),
    {
        let r = Checksum { bytes: [0u8; 32] };
        proof {
            assert(r@ =~= Seq::new(32, |i: int| 0u8));
        }
        r
    }

    pub fn to_bytes(&self) -> (r: [u8; 32])
        ensures
            r@ == self@,
    {
        self.bytes
    }

    /// Byte-exact comparison with the checksum that a peer sent.
    pub fn matches(&self, other: &Checksum) -> (r: bool)
        ensures
            r == (self@ == other@),
    {
        bytes_equal(self.bytes.as_slice(), other.bytes.as_slice())
    }
}

} // verus!
