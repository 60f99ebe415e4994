//! The record stored in an account and carried in an instruction payload,
//! together with its fixed binary layout.
//!
//! A record is three unsigned 32-bit integers `a`, `b`, `res`, laid out as
//! twelve consecutive little-endian bytes with no padding and no version tag.
//! The same layout is the wire format of the payload and the storage format
//! of the account buffer, so encoding and decoding must round-trip exactly.

use vstd::prelude::*;
use vstd::bytes::{
    lemma_auto_spec_u32_to_from_le_bytes, spec_u32_from_le_bytes, spec_u32_to_le_bytes,
    u32_from_le_bytes, u32_to_le_bytes,
};
use vstd::slice::slice_subrange;

verus! {

/// Size in bytes of an encoded record: three 32-bit integers.
pub const RECORD_SIZE: usize = 12;

/// The persisted and transmitted state: two inputs and a derived field.
///
/// After every successful transition, `res` equals `a + b` reduced modulo
/// 2^32: overflow wraps and is not an error.
#[derive(Clone, Copy, Debug, PartialEq, Eq, Structural)]
pub struct GreetingAccount {
    pub a: u32,
    pub b: u32,
    pub res: u32,
}

/// `a + b` reduced modulo 2^32.
pub open spec fn sum_wrapped(a: u32, b: u32) -> u32 {
    ((a + b) % 0x1_0000_0000) as u32
}

impl GreetingAccount {
    /// The derived value of this record's inputs: `a + b`, wrapping on
    /// overflow.
    pub fn total(&self) -> (r: u32)
        ensures
            r == sum_wrapped(self.a, self.b),
    {
        self.a.wrapping_add(self.b)
    }
}

/// The twelve bytes that encode a record: `a`, `b`, `res`, each as four
/// little-endian bytes.
pub open spec fn record_bytes(r: GreetingAccount) -> Seq<u8> {
    spec_u32_to_le_bytes(r.a) + spec_u32_to_le_bytes(r.b) + spec_u32_to_le_bytes(r.res)
}

/// The record that twelve bytes decode to.
pub open spec fn record_of_bytes(bytes: Seq<u8>) -> GreetingAccount
    recommends
        bytes.len() == RECORD_SIZE,
{
    GreetingAccount {
        a: spec_u32_from_le_bytes(bytes.subrange(0, 4)),
        b: spec_u32_from_le_bytes(bytes.subrange(4, 8)),
        res: spec_u32_from_le_bytes(bytes.subrange(8, 12)),
    }
}

/// Encode a record into its twelve-byte wire form.
pub fn encode(r: &GreetingAccount) -> (v: Vec<u8>)
    ensures
        v@ == record_bytes(*r),
        v@.len() == RECORD_SIZE,
{
    let mut v = u32_to_le_bytes(r.a);
    let mut tail_b = u32_to_le_bytes(r.b);
    let mut tail_res = u32_to_le_bytes(r.res);
    v.append(&mut tail_b);
    v.append(&mut tail_res);
    proof {
        assert(v@ =~= record_bytes(*r));
    }
    v
}

/// Decode a record from a byte buffer. Succeeds exactly when the buffer is
/// twelve bytes long; anything shorter or longer is malformed.
pub fn decode(bytes: &[u8]) -> (r: Option<GreetingAccount>)
    ensures
        r is Some <==> bytes@.len() == RECORD_SIZE,
        bytes@.len() == RECORD_SIZE ==> r == Some(record_of_bytes(bytes@)),
{
    if bytes.len() != RECORD_SIZE {
        return None;
    }
    let a = u32_from_le_bytes(slice_subrange(bytes, 0, 4));
    let b = u32_from_le_bytes(slice_subrange(bytes, 4, 8));
    let res = u32_from_le_bytes(slice_subrange(bytes, 8, 12));
    Some(GreetingAccount { a, b, res })
}

/// Round-trip law: decoding the encoding of any record yields that record
/// back, so the twelve-byte layout loses no information.
pub proof fn lemma_record_round_trip(r: GreetingAccount)
    ensures
        record_bytes(r).len() == RECORD_SIZE,
        record_of_bytes(record_bytes(r)) == r,
{
    lemma_auto_spec_u32_to_from_le_bytes();
    assert(record_bytes(r).subrange(0, 4) =~= spec_u32_to_le_bytes(r.a));
    assert(record_bytes(r).subrange(4, 8) =~= spec_u32_to_le_bytes(r.b));
    assert(record_bytes(r).subrange(8, 12) =~= spec_u32_to_le_bytes(r.res));
}

} // verus!
