use vstd::prelude::*;
use crate::error::GrinzaError;

verus! {

/// A 32-byte identity: a signer, an owner, or the item a poll is about.
#[derive(Clone, Copy, Debug, PartialEq, Eq)]
pub struct Key {
    pub bytes: [u8; 32],
}

impl View for Key {
    type V = Seq<u8>;

    open spec fn view(&self) -> Seq<u8> {
        self.bytes@
    }
}

impl Key {
    /// The key with the given bytes.
    pub fn new(bytes: [u8; 32]) -> (r: Key)
        ensures
            r.bytes == bytes,
            r@ == bytes@,
    {
        Key { bytes }
    }

    /// Whether the two keys are bit-equal.
    pub fn same(&self, other: &Key) -> (r: bool)
        ensures
            r == (self@ == other@),
    {
        let mut i: usize = 0;
        while i < 32
            invariant
                i <= 32,
                self@.len() == 32,
                other@.len() == 32,
                forall|j: int| 0 <= j < i ==> self@[j] == other@[j],
            decreases 32 - i,
        {
            if self.bytes[i] != other.bytes[i] {
                return false;
            }
            i = i + 1;
        }
        assert(self@ =~= other@);
        true
    }
}

/// Succeeds exactly when the claimed identity is bit-equal to the required
/// one; otherwise the operation is not authorized.
pub fn authorize(claimed: &Key, required: &Key) -> (r: Result<(), GrinzaError>)
    ensures
        r == (if claimed@ == required@ {
            Ok::<(), GrinzaError>(())
        } else {
            Err(GrinzaError::Unauthorized)
        }),
{
    if claimed.same(required) {
        Ok(())
    } else {
        Err(GrinzaError::Unauthorized)
    }
}

} // verus!
