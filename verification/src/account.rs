//! The handler's model of an account: a byte buffer with a recorded
//! authority and a mutability flag, supplied by the host environment and
//! held only for the duration of one call.

use vstd::prelude::*;

verus! {

/// The abstract value of an account handle: authority, mutability flag and
/// buffer contents as plain sequences of bytes.
#[verifier::ext_equal]
pub ghost struct AccountView {
    pub authority: Seq<u8>,
    pub is_writable: bool,
    pub data: Seq<u8>,
}

/// A storage slot owned by exactly one authority. The handler reads the
/// authority and the buffer, and, when the transition is authorized,
/// overwrites the buffer in place; it never retains the handle past the
/// call.
pub struct AccountHandle {
    /// Identifier of the authority recorded as this account's owner.
    pub authority: Vec<u8>,
    /// Whether the handler is permitted to mutate the buffer.
    pub is_writable: bool,
    /// The account's current buffer contents.
    pub data: Vec<u8>,
}

impl View for AccountHandle {
    type V = AccountView;

    open spec fn view(&self) -> AccountView {
        AccountView {
            authority: self.authority@,
            is_writable: self.is_writable,
            data: self.data@,
        }
    }
}

/// Byte-for-byte equality of two identifier buffers.
pub fn bytes_eq(x: &Vec<u8>, y: &Vec<u8>) -> (r: bool)
    ensures
        r <==> x@ == y@,
{
    if x.len() != y.len() {
        return false;
    }
    let mut i: usize = 0;
    while i < x.len()
        invariant
            i <= x.len(),
            x@.len() == y@.len(),
            forall|j: int| 0 <= j < i ==> x@[j] == y@[j],
        decreases x.len() - i,
    {
        if x[i] != y[i] {
            return false;
        }
        i += 1;
    }
    proof {
        assert(x@ =~= y@);
    }
    true
}

} // verus!
