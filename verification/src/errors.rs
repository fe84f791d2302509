use vstd::prelude::*;

verus! {

/// Every way the vote operation can fail. Failures abort the whole
/// operation; no storage effect is produced alongside an error.
#[derive(Clone, Copy, Debug, PartialEq, Eq, Structural)]
pub enum VoteError {
    /// The instruction payload is empty, carries an unknown discriminator,
    /// or holds a truncated, oversized or non-UTF-8 subject name.
    MalformedInstruction,
    /// The operation was not handed exactly the required three accounts.
    MissingAccounts,
    /// The caller account is not a verified signer.
    UnauthorizedCaller,
    /// The supplied record slot is not at the address derived from the name.
    AddressMismatch,
    /// The record slot's existing storage does not decode as a vote record.
    MalformedAccountData,
    /// The bump search of the address derivation found no usable address.
    DerivationFailed,
}

} // verus!
