//! The identity of a caller, as authenticated before the call reaches the pool.

use vstd::prelude::*;

verus! {

/// A 32-byte public key that names an account holder.
#[derive(Clone, Copy, Debug, PartialEq, Eq)]
pub struct Identity {
    pub bytes: [u8; 32],
}

impl View for Identity {
    type V = Seq<u8>;

    open spec fn view(&self) -> Seq<u8> {
        self.bytes@
    }
}

impl Identity {
    /// Wraps the bytes of a public key.
    pub fn new(bytes: [u8; 32]) -> (identity: Identity)
        ensures
            identity.bytes == bytes,
            identity@ == bytes@,
    {
        Identity { bytes }
    }

    /// Tells whether two identities are the same key, byte for byte.
    pub fn same_as(&self, other: &Identity) -> (same: bool)
        ensures
            same == (self@ == other@),
    {
        let mut index: usize = 0;
        while index < 32
            invariant
                index <= 32,
                forall|i: int| 0 <= i < index ==> self.bytes@[i] == other.bytes@[i],
            decreases 32 - index,
        {
            if self.bytes[index] != other.bytes[index] {
                return false;
            }
            index = index + 1;
        }
        assert(self@ =~= other@);
        true
    }
}

} // verus!
