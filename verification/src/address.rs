use vstd::prelude::*;

verus! {

/// This program's own identity, which doubles as the domain-separation
/// constant of the record address derivation.
pub const ID: [u8; 32] = [
    0x0f, 0x1e, 0x6b, 0x14, 0x21, 0xc0, 0x4a, 0x07, 0x04, 0x31, 0x26, 0x5c, 0x19, 0xc5, 0xbb, 0xee,
    0x19, 0x92, 0xba, 0xe8, 0xaf, 0xd1, 0xcd, 0x07, 0x8e, 0xf8, 0xaf, 0x70, 0x47, 0xdc, 0x11, 0xf7,
];

/// The address and bump that the ledger's program-address derivation yields
/// for the given seeds and program identity, or `None` when its bump search
/// finds no usable address. The derivation is a fixed hash computation, so
/// its result depends on these arguments alone.
pub uninterp spec fn spec_derive(name: Seq<u8>, domain: Seq<u8>, program_id: Seq<u8>) -> Option<
    (Seq<u8>, u8),
>;

/// Relies on `solana_address::Address::try_find_program_address` (pinocchio's
/// address type): a deterministic bump search over SHA-256 of the seeds, the
/// bump and the program id, returning the first off-curve address; `None`
/// when the search is exhausted or a seed is over the seed-length limit.
#[verifier::external_body]
fn find_record_address(name: &[u8], domain: &[u8; 32], program_id: &[u8; 32]) -> (r: Option<
    ([u8; 32], u8),
>)
    ensures
        r is Some <==> spec_derive(name@, domain@, program_id@) is Some,
        r matches Some(p) ==> spec_derive(name@, domain@, program_id@) == Some((p.0@, p.1)),
{
    let pid = solana_address::Address::new_from_array(*program_id);
    solana_address::Address::try_find_program_address(&[name, domain], &pid)
        .map(|(addr, bump)| (addr.to_bytes(), bump))
}

/// The derived record address for a subject name under this program's
/// identity and domain constant.
pub open spec fn spec_derived_for(name: Seq<u8>) -> Option<(Seq<u8>, u8)> {
    spec_derive(name, ID@, ID@)
}

/// Compute the record address and bump for a subject name.
pub fn derive_address(name: &[u8]) -> (r: Option<([u8; 32], u8)>)
    ensures
        r is Some <==> spec_derived_for(name@) is Some,
        r matches Some(p) ==> spec_derived_for(name@) == Some((p.0@, p.1)),
{
    find_record_address(name, &ID, &ID)
}

/// Law: address derivation is deterministic. Two derivations from the same
/// name yield the same address and the same bump; `derive_address` promises
/// that its result equals this one spec-level value, so any two calls agree.
pub proof fn lemma_derive_deterministic(name: Seq<u8>)
    ensures
        spec_derived_for(name) == spec_derived_for(name),
{
}

} // verus!
