//! The state-transition handler: one decode-validate-compute-encode cycle
//! against the first supplied account.
//!
//! The whole transition is modelled by the spec function [`spec_handle`];
//! the executable [`handle`] is proved to return and mutate exactly what the
//! model says, and the laws below are proved of the model itself.

use vstd::prelude::*;

use crate::account::{bytes_eq, AccountHandle, AccountView};
use crate::record::{
    decode, encode, lemma_record_round_trip, record_bytes, record_of_bytes, sum_wrapped,
    GreetingAccount, RECORD_SIZE,
};

verus! {

/// Why a transition was refused. Every failure is terminal for the
/// invocation and leaves every account buffer untouched.
#[derive(Clone, Copy, Debug, PartialEq, Eq, Structural)]
pub enum TransitionError {
    /// The supplied account sequence is empty.
    MissingAccount,
    /// The instruction payload is not a well-formed twelve-byte record.
    DecodePayload,
    /// The first account's buffer is not a well-formed twelve-byte record.
    DecodeAccountState,
    /// The first account's recorded authority is not the executing
    /// authority.
    WrongOwner,
}

/// The record stored by a successful transition: the incoming inputs with
/// the derived field recomputed from them, never accumulated from prior
/// state.
pub open spec fn updated_record(incoming: GreetingAccount) -> GreetingAccount {
    GreetingAccount {
        a: incoming.a,
        b: incoming.b,
        res: sum_wrapped(incoming.a, incoming.b),
    }
}

/// The views of a sequence of account handles.
pub open spec fn views_of(s: Seq<AccountHandle>) -> Seq<AccountView> {
    s.map_values(|a: AccountHandle| a@)
}

/// The complete functional model of one transition: the result, and the
/// account sequence as it stands after the call.
pub open spec fn spec_handle(
    authority_id: Seq<u8>,
    accounts: Seq<AccountView>,
    payload: Seq<u8>,
) -> (Result<(), TransitionError>, Seq<AccountView>) {
    if accounts.len() == 0 {
        (Err(TransitionError::MissingAccount), accounts)
    } else if payload.len() != RECORD_SIZE {
        (Err(TransitionError::DecodePayload), accounts)
    } else if accounts[0].authority != authority_id {
        (Err(TransitionError::WrongOwner), accounts)
    } else if accounts[0].data.len() != RECORD_SIZE {
        (Err(TransitionError::DecodeAccountState), accounts)
    } else {
        let stored = updated_record(record_of_bytes(payload));
        let first = (AccountView {
            authority: accounts[0].authority,
            is_writable: accounts[0].is_writable,
            data: record_bytes(stored),
        });
        (Ok(()), accounts.update(0, first))
    }
}

/// Perform one transition against the first account: decode the incoming
/// record from `payload`, require the first account's recorded authority to
/// equal `authority_id`, decode the account's current record, and overwrite
/// the account buffer with the incoming inputs and their recomputed derived
/// field. On any failure nothing is mutated and the error says which check
/// refused the transition.
pub fn handle(
    authority_id: &Vec<u8>,
    accounts: &mut Vec<AccountHandle>,
    payload: &Vec<u8>,
) -> (r: Result<(), TransitionError>)
    ensures
        r == spec_handle(authority_id@, views_of(old(accounts)@), payload@).0,
        views_of(final(accounts)@) == spec_handle(
            authority_id@,
            views_of(old(accounts)@),
            payload@,
        ).1,
{
    if accounts.len() == 0 {
        return Err(TransitionError::MissingAccount);
    }
    let incoming = match decode(payload.as_slice()) {
        None => {
            return Err(TransitionError::DecodePayload);
        },
        Some(rec) => rec,
    };
    if !bytes_eq(&accounts[0].authority, authority_id) {
        return Err(TransitionError::WrongOwner);
    }
    let mut updated = match decode(accounts[0].data.as_slice()) {
        None => {
            return Err(TransitionError::DecodeAccountState);
        },
        Some(rec) => rec,
    };
    updated.a = incoming.a;
    updated.b = incoming.b;
    updated.res = updated.total();
    let encoded = encode(&updated);
    let mut first = accounts.remove(0);
    first.data = encoded;
    accounts.insert(0, first);
    proof {
        assert(views_of(accounts@) =~~= spec_handle(
            authority_id@,
            views_of(old(accounts)@),
            payload@,
        ).1);
    }
    Ok(())
}

/// On any failure the account sequence is unchanged: a rejected transition
/// leaves every buffer byte-identical.
pub proof fn lemma_no_mutation_on_error(
    authority_id: Seq<u8>,
    accounts: Seq<AccountView>,
    payload: Seq<u8>,
)
    requires
        spec_handle(authority_id, accounts, payload).0 is Err,
    ensures
        spec_handle(authority_id, accounts, payload).1 == accounts,
{
}

/// Empty-account rejection: with no account supplied, the transition
/// returns `MissingAccount` and mutates nothing.
pub proof fn lemma_missing_account(
    authority_id: Seq<u8>,
    accounts: Seq<AccountView>,
    payload: Seq<u8>,
)
    requires
        accounts.len() == 0,
    ensures
        spec_handle(authority_id, accounts, payload).0 == Err::<(), TransitionError>(
            TransitionError::MissingAccount,
        ),
        spec_handle(authority_id, accounts, payload).1 == accounts,
{
}

/// Authorization gate: when the first account's recorded authority differs
/// from the executing authority, no account is changed, and for a
/// well-formed payload the result is exactly `WrongOwner`. (A malformed
/// payload is refused one step earlier, as `DecodePayload`, likewise
/// without mutation.)
pub proof fn lemma_authorization_gate(
    authority_id: Seq<u8>,
    accounts: Seq<AccountView>,
    payload: Seq<u8>,
)
    requires
        accounts.len() > 0,
        accounts[0].authority != authority_id,
    ensures
        spec_handle(authority_id, accounts, payload).1 == accounts,
        payload.len() == RECORD_SIZE ==> spec_handle(authority_id, accounts, payload).0
            == Err::<(), TransitionError>(TransitionError::WrongOwner),
{
}

/// Derived-field correctness: after a successful transition the first
/// account's buffer decodes to the incoming inputs, and the stored derived
/// field equals their sum reduced modulo 2^32.
pub proof fn lemma_derived_field(
    authority_id: Seq<u8>,
    accounts: Seq<AccountView>,
    payload: Seq<u8>,
)
    requires
        spec_handle(authority_id, accounts, payload).0 is Ok,
    ensures
        ({
            let stored = record_of_bytes(spec_handle(authority_id, accounts, payload).1[0].data);
            let incoming = record_of_bytes(payload);
            &&& stored.a == incoming.a
            &&& stored.b == incoming.b
            &&& stored.res == (incoming.a + incoming.b) % 0x1_0000_0000
        }),
{
    lemma_record_round_trip(updated_record(record_of_bytes(payload)));
}

/// Idempotent re-application: a successful transition, applied again with
/// the same payload, succeeds and leaves the accounts exactly as after the
/// first application. The derived field is recomputed from the payload's
/// inputs, never accumulated across calls.
pub proof fn lemma_reapply_idempotent(
    authority_id: Seq<u8>,
    accounts: Seq<AccountView>,
    payload: Seq<u8>,
)
    requires
        spec_handle(authority_id, accounts, payload).0 is Ok,
    ensures
        ({
            let once = spec_handle(authority_id, accounts, payload).1;
            &&& spec_handle(authority_id, once, payload).0 == Ok::<(), TransitionError>(())
            &&& spec_handle(authority_id, once, payload).1 == once
        }),
{
    let once = spec_handle(authority_id, accounts, payload).1;
    lemma_record_round_trip(updated_record(record_of_bytes(payload)));
    assert(once[0].data.len() == RECORD_SIZE);
    assert(spec_handle(authority_id, once, payload).1 =~~= once);
}

} // verus!
