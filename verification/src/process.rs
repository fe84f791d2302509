use vstd::prelude::*;
use vstd::slice::{slice_index_get, slice_subrange};
use crate::address::{derive_address, spec_derived_for};
use crate::errors::VoteError;
use crate::instruction::{spec_payload_name, spec_payload_ok, VoteInstructionData};
use crate::record::{
    lemma_record_round_trip, spec_decode_ok, spec_record_bytes, spec_record_name,
    spec_record_votes, VoteAccountData, MAX_NAME_LEN, RECORD_SIZE,
};

verus! {

/// The balance a freshly created record slot is funded with.
pub const CREATION_LAMPORTS: u64 = 500_000_000;

/// The discriminator byte that selects the vote operation.
pub const VOTE_DISCRIMINATOR: u8 = 1;

/// What the operation reads of one account handle: its address, whether it
/// is a verified signer, its balance and its stored bytes.
#[derive(Clone, Debug)]
pub struct AccountView {
    pub key: [u8; 32],
    pub is_signer: bool,
    pub lamports: u64,
    pub data: Vec<u8>,
}

/// Which of the two storage paths the operation takes on success.
#[derive(Clone, Copy, Debug, PartialEq, Eq, Structural)]
pub enum VoteDecision {
    Create,
    Update,
}

/// The storage effect a successful vote asks the host runtime to perform:
/// either create the record slot (funded and sized as stated, authorized by
/// the derivation bump) and write the fresh record, or overwrite the
/// existing slot with the re-encoded record.
#[derive(Clone, Debug)]
pub enum VoteEffect {
    Create { lamports: u64, space: u64, bump: u8, record: Vec<u8> },
    Update { record: Vec<u8> },
}

/// A payload's leading byte selects the vote operation.
pub open spec fn spec_disc_ok(payload: Seq<u8>) -> bool {
    payload.len() >= 1 && payload[0] == 1
}

/// The payload with its discriminator byte stripped.
pub open spec fn spec_rest(payload: Seq<u8>) -> Seq<u8> {
    payload.subrange(1, payload.len() as int)
}

/// The vote counter after one more vote; it wraps at the type's maximum,
/// as the unchecked increment it models does.
pub open spec fn spec_wrap_inc(votes: u64) -> u64 {
    if votes == u64::MAX {
        0u64
    } else {
        (votes + 1) as u64
    }
}

/// The whole operation's outcome — which storage path runs, or which error
/// aborts it — from the payload, the account list and the derived address.
/// The checks run in this order: discriminator, account count, signer,
/// payload shape, name size, derivation, address binding, then the
/// create-or-update decision on the slot's current state.
pub open spec fn spec_vote_outcome(
    payload: Seq<u8>,
    accounts: Seq<AccountView>,
    derived: Option<(Seq<u8>, u8)>,
) -> Result<VoteDecision, VoteError> {
    if !spec_disc_ok(payload) {
        Err(VoteError::MalformedInstruction)
    } else if accounts.len() != 3 {
        Err(VoteError::MissingAccounts)
    } else if !accounts[0].is_signer {
        Err(VoteError::UnauthorizedCaller)
    } else if !spec_payload_ok(spec_rest(payload)) {
        Err(VoteError::MalformedInstruction)
    } else if spec_payload_name(spec_rest(payload)).len() > 54 {
        Err(VoteError::MalformedInstruction)
    } else {
        match derived {
            None => Err(VoteError::DerivationFailed),
            Some((key, _bump)) => {
                if key != accounts[1].key@ {
                    Err(VoteError::AddressMismatch)
                } else if accounts[1].data@.len() == 0 && accounts[1].lamports == 0 {
                    Ok(VoteDecision::Create)
                } else if accounts[1].data@.len() != 64 {
                    Err(VoteError::MalformedAccountData)
                } else if !spec_decode_ok(accounts[1].data@) {
                    Err(VoteError::MalformedAccountData)
                } else {
                    Ok(VoteDecision::Update)
                }
            },
        }
    }
}

/// The derived pair as the spec model sees it.
pub open spec fn spec_view_derived(derived: Option<([u8; 32], u8)>) -> Option<(Seq<u8>, u8)> {
    match derived {
        None => None,
        Some(p) => Some((p.0@, p.1)),
    }
}

/// What a vote's result must look like, given the outcome the spec model
/// assigns to its inputs: errors are passed through; a creation writes the
/// fresh one-vote record; an update rewrites the stored record with its
/// counter incremented, the name untouched.
pub open spec fn spec_vote_post(
    r: Result<VoteEffect, VoteError>,
    payload: Seq<u8>,
    accounts: Seq<AccountView>,
    derived: Option<(Seq<u8>, u8)>,
) -> bool {
    let outcome = spec_vote_outcome(payload, accounts, derived);
    &&& (r is Err <==> outcome is Err)
    &&& (r matches Err(e) ==> outcome == Err::<VoteDecision, VoteError>(e))
    &&& (outcome == Ok::<VoteDecision, VoteError>(VoteDecision::Create) ==> match r {
        Ok(VoteEffect::Create { lamports, space, bump, record }) => {
            &&& lamports == 500_000_000u64
            &&& space == 64u64
            &&& (derived matches Some(p) && bump == p.1)
            &&& record@ == spec_record_bytes(spec_payload_name(spec_rest(payload)), 1)
        },
        _ => false,
    })
    &&& (outcome == Ok::<VoteDecision, VoteError>(VoteDecision::Update) ==> match r {
        Ok(VoteEffect::Update { record }) => record@ == spec_record_bytes(
            spec_record_name(accounts[1].data@),
            spec_wrap_inc(spec_record_votes(accounts[1].data@)),
        ),
        _ => false,
    })
}

/// Run the vote operation against an already-derived record address. Takes
/// the operation from the address check on: binds the slot to the derived
/// address, then creates the record (first vote) or increments it in place.
pub fn process_with_address(
    payload: &[u8],
    accounts: &[AccountView],
    derived: Option<([u8; 32], u8)>,
) -> (r: Result<VoteEffect, VoteError>)
    ensures
        spec_vote_post(r, payload@, accounts@, spec_view_derived(derived)),
{
    if payload.len() < 1 || *slice_index_get(payload, 0) != VOTE_DISCRIMINATOR {
        return Err(VoteError::MalformedInstruction);
    }
    if accounts.len() != 3 {
        return Err(VoteError::MissingAccounts);
    }
    let caller = slice_index_get(accounts, 0);
    if !caller.is_signer {
        return Err(VoteError::UnauthorizedCaller);
    }
    let rest = slice_subrange(payload, 1, payload.len());
    let ix = match VoteInstructionData::parse(rest) {
        Ok(ix) => ix,
        Err(e) => {
            return Err(e);
        },
    };
    if ix.name.len() > MAX_NAME_LEN {
        return Err(VoteError::MalformedInstruction);
    }
    match derived {
        None => Err(VoteError::DerivationFailed),
        Some((key, bump)) => {
            let slot = slice_index_get(accounts, 1);
            if !bytes32_eq(&key, &slot.key) {
                return Err(VoteError::AddressMismatch);
            }
            if slot.data.len() == 0 && slot.lamports == 0 {
                let record = VoteAccountData { name: ix.name, votes: 1 }.encode();
                Ok(VoteEffect::Create {
                    lamports: CREATION_LAMPORTS,
                    space: RECORD_SIZE as u64,
                    bump,
                    record,
                })
            } else if slot.data.len() != RECORD_SIZE {
                Err(VoteError::MalformedAccountData)
            } else {
                let mut rec = match VoteAccountData::decode(slot.data.as_slice()) {
                    Ok(rec) => rec,
                    Err(e) => {
                        return Err(e);
                    },
                };
                rec.votes = if rec.votes == u64::MAX {
                    0
                } else {
                    rec.votes + 1
                };
                let record = rec.encode();
                Ok(VoteEffect::Update { record })
            }
        },
    }
}

/// Run the whole vote operation: decode the payload, derive the record
/// address from the subject name, and take the create-or-update path.
pub fn process(payload: &[u8], accounts: &[AccountView]) -> (r: Result<VoteEffect, VoteError>)
    ensures
        spec_vote_post(
            r,
            payload@,
            accounts@,
            spec_derived_for(spec_payload_name(spec_rest(payload@))),
        ),
{
    let derived: Option<([u8; 32], u8)> = if payload.len() >= 1 {
        let rest = slice_subrange(payload, 1, payload.len());
        match VoteInstructionData::parse(rest) {
            Ok(ix) => derive_address(ix.name.as_slice()),
            Err(_) => None,
        }
    } else {
        None
    };
    process_with_address(payload, accounts, derived)
}

/// Law: a malformed payload — empty, or led by a discriminator that selects
/// no operation — is rejected with `MalformedInstruction`, whatever the
/// accounts and the derivation hold. An error carries no storage effect, so
/// nothing is created or mutated.
pub proof fn lemma_malformed_payload_rejected(
    payload: Seq<u8>,
    accounts: Seq<AccountView>,
    derived: Option<(Seq<u8>, u8)>,
)
    requires
        !spec_disc_ok(payload),
    ensures
        spec_vote_outcome(payload, accounts, derived) == Err::<VoteDecision, VoteError>(
            VoteError::MalformedInstruction,
        ),
{
}

/// Law: a caller that is not a verified signer is rejected with
/// `UnauthorizedCaller` before the payload is even parsed, so no storage is
/// created or mutated on its behalf.
pub proof fn lemma_unauthorized_caller_rejected(
    payload: Seq<u8>,
    accounts: Seq<AccountView>,
    derived: Option<(Seq<u8>, u8)>,
)
    requires
        spec_disc_ok(payload),
        accounts.len() == 3,
        !accounts[0].is_signer,
    ensures
        spec_vote_outcome(payload, accounts, derived) == Err::<VoteDecision, VoteError>(
            VoteError::UnauthorizedCaller,
        ),
{
}

/// Law: a record slot whose address is not the one derived from the subject
/// name is rejected with `AddressMismatch`; the slot's bytes are never read,
/// let alone written.
pub proof fn lemma_address_binding(
    payload: Seq<u8>,
    accounts: Seq<AccountView>,
    derived: (Seq<u8>, u8),
)
    requires
        spec_disc_ok(payload),
        accounts.len() == 3,
        accounts[0].is_signer,
        spec_payload_ok(spec_rest(payload)),
        spec_payload_name(spec_rest(payload)).len() <= 54,
        derived.0 != accounts[1].key@,
    ensures
        spec_vote_outcome(payload, accounts, Some(derived)) == Err::<VoteDecision, VoteError>(
            VoteError::AddressMismatch,
        ),
{
}

/// Law: the first vote for a name creates its record. On a slot that has
/// never been initialized — no balance, no storage — the outcome is the
/// creation path, and the 64 bytes it writes decode back to that very name
/// with a vote count of one.
pub proof fn lemma_first_vote_creates(
    payload: Seq<u8>,
    accounts: Seq<AccountView>,
    derived: (Seq<u8>, u8),
)
    requires
        spec_disc_ok(payload),
        accounts.len() == 3,
        accounts[0].is_signer,
        spec_payload_ok(spec_rest(payload)),
        spec_payload_name(spec_rest(payload)).len() <= 54,
        derived.0 == accounts[1].key@,
        accounts[1].data@.len() == 0,
        accounts[1].lamports == 0,
    ensures
        spec_vote_outcome(payload, accounts, Some(derived)) == Ok::<VoteDecision, VoteError>(
            VoteDecision::Create,
        ),
        ({
            let record = spec_record_bytes(spec_payload_name(spec_rest(payload)), 1);
            &&& spec_decode_ok(record)
            &&& spec_record_name(record) == spec_payload_name(spec_rest(payload))
            &&& spec_record_votes(record) == 1
        }),
{
    lemma_record_round_trip(spec_payload_name(spec_rest(payload)), 1);
}

/// Law: a second vote on the same name counts it twice. On a slot holding
/// the record that the first vote wrote, the outcome is the update path, and
/// the bytes it writes back decode to the unchanged name and two votes.
pub proof fn lemma_second_vote_updates(
    payload: Seq<u8>,
    accounts: Seq<AccountView>,
    derived: (Seq<u8>, u8),
)
    requires
        spec_disc_ok(payload),
        accounts.len() == 3,
        accounts[0].is_signer,
        spec_payload_ok(spec_rest(payload)),
        spec_payload_name(spec_rest(payload)).len() <= 54,
        derived.0 == accounts[1].key@,
        accounts[1].data@ == spec_record_bytes(spec_payload_name(spec_rest(payload)), 1),
    ensures
        spec_vote_outcome(payload, accounts, Some(derived)) == Ok::<VoteDecision, VoteError>(
            VoteDecision::Update,
        ),
        ({
            let name = spec_payload_name(spec_rest(payload));
            let rewritten = spec_record_bytes(
                spec_record_name(accounts[1].data@),
                spec_wrap_inc(spec_record_votes(accounts[1].data@)),
            );
            &&& rewritten == spec_record_bytes(name, 2)
            &&& spec_record_name(rewritten) == name
            &&& spec_record_votes(rewritten) == 2
        }),
{
    let name = spec_payload_name(spec_rest(payload));
    lemma_record_round_trip(name, 1);
    lemma_record_round_trip(name, 2);
}

/// Compare two 32-byte addresses.
fn bytes32_eq(a: &[u8; 32], b: &[u8; 32]) -> (r: bool)
    ensures
        r <==> a@ == b@,
{
    let mut i: usize = 0;
    while i < 32
        invariant
            i <= 32,
            forall|k: int| 0 <= k < i ==> a@[k] == b@[k],
        decreases 32 - i,
    {
        if a[i] != b[i] {
            return false;
        }
        i += 1;
    }
    proof {
        assert(a@ =~= b@);
    }
    true
}

} // verus!
