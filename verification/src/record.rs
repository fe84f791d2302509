use vstd::prelude::*;
use vstd::bytes::{
    lemma_auto_spec_u64_to_from_le_bytes, spec_u64_from_le_bytes, spec_u64_to_le_bytes,
    u64_from_le_bytes, u64_to_le_bytes,
};
use vstd::slice::{slice_subrange, slice_to_vec};
use vstd::utf8::valid_utf8;
use crate::errors::VoteError;

verus! {

/// Total size in bytes of a vote record's storage slot.
pub const RECORD_SIZE: usize = 64;

/// Longest subject name that fits a record: one length byte, the name, one
/// gap byte and the eight vote-count bytes must fit in `RECORD_SIZE`.
pub const MAX_NAME_LEN: usize = 54;

/// One persistent vote record: a subject name (stored as its UTF-8 bytes)
/// and how many votes it has received.
#[derive(Clone, Debug)]
pub struct VoteAccountData {
    pub name: Vec<u8>,
    pub votes: u64,
}

/// Relies on `core::str::from_utf8`: it returns `Ok` exactly when the bytes
/// are a valid UTF-8 encoding, which vstd states as `valid_utf8`.
#[verifier::external_body]
pub(crate) fn utf8_is_valid(bytes: &[u8]) -> (r: bool)
    ensures
        r == valid_utf8(bytes@),
{
    core::str::from_utf8(bytes).is_ok()
}

/// The declared name length: the record's leading byte.
pub open spec fn spec_name_len(data: Seq<u8>) -> int
    recommends
        data.len() >= 1,
{
    data[0] as int
}

/// The name bytes stored right after the length byte.
pub open spec fn spec_record_name(data: Seq<u8>) -> Seq<u8>
    recommends
        data.len() >= 1,
        1 + spec_name_len(data) <= data.len(),
{
    data.subrange(1, 1 + spec_name_len(data))
}

/// The vote count, stored little-endian in the eight bytes that follow the
/// name and one gap byte.
pub open spec fn spec_record_votes(data: Seq<u8>) -> u64
    recommends
        data.len() >= 1,
        10 + spec_name_len(data) <= data.len(),
{
    spec_u64_from_le_bytes(data.subrange(2 + spec_name_len(data), 10 + spec_name_len(data)))
}

/// When a byte buffer decodes as a vote record: the declared name length
/// leaves room for the vote count, and the name bytes are valid UTF-8.
pub open spec fn spec_decode_ok(data: Seq<u8>) -> bool {
    &&& data.len() >= 1
    &&& 10 + spec_name_len(data) <= data.len()
    &&& valid_utf8(spec_record_name(data))
}

/// The 64-byte encoding of a record: length byte, name bytes, one zero gap
/// byte, the vote count little-endian, and zero padding to the end.
pub open spec fn spec_record_bytes(name: Seq<u8>, votes: u64) -> Seq<u8>
    recommends
        name.len() <= 54,
{
    Seq::new(
        64,
        |i: int|
            if i == 0 {
                name.len() as u8
            } else if 1 <= i < 1 + name.len() {
                name[i - 1]
            } else if 2 + name.len() <= i < 10 + name.len() {
                spec_u64_to_le_bytes(votes)[i - 2 - name.len()]
            } else {
                0u8
            },
    )
}

impl VoteAccountData {
    /// Serialize the record into its fixed 64-byte layout.
    pub fn encode(&self) -> (out: Vec<u8>)
        requires
            self.name@.len() <= 54,
        ensures
            out@ == spec_record_bytes(self.name@, self.votes),
            out@.len() == 64,
    {
        let name_len: usize = self.name.len();
        let mut out: Vec<u8> = Vec::new();
        out.push(name_len as u8);
        let mut i: usize = 0;
        while i < name_len
            invariant
                i <= name_len,
                name_len == self.name@.len() <= 54,
                out@.len() == 1 + i,
                out@[0] == name_len as u8,
                forall|k: int| 0 <= k < i ==> out@[1 + k] == self.name@[k],
            decreases name_len - i,
        {
            out.push(self.name[i]);
            i += 1;
        }
        out.push(0u8);
        let votes_bytes: Vec<u8> = u64_to_le_bytes(self.votes);
        let mut j: usize = 0;
        while j < 8
            invariant
                j <= 8,
                name_len == self.name@.len() <= 54,
                votes_bytes@ == spec_u64_to_le_bytes(self.votes),
                votes_bytes@.len() == 8,
                out@.len() == 2 + name_len + j,
                out@[0] == name_len as u8,
                forall|k: int| 0 <= k < name_len ==> out@[1 + k] == self.name@[k],
                out@[1 + name_len as int] == 0u8,
                forall|k: int| 0 <= k < j ==> out@[2 + name_len + k] == votes_bytes@[k],
            decreases 8 - j,
        {
            out.push(votes_bytes[j]);
            j += 1;
        }
        while out.len() < 64
            invariant
                name_len == self.name@.len() <= 54,
                votes_bytes@ == spec_u64_to_le_bytes(self.votes),
                10 + name_len <= out@.len() <= 64,
                out@[0] == name_len as u8,
                forall|k: int| 0 <= k < name_len ==> out@[1 + k] == self.name@[k],
                out@[1 + name_len as int] == 0u8,
                forall|k: int| 0 <= k < 8 ==> out@[2 + name_len + k] == votes_bytes@[k],
                forall|k: int| 10 + name_len <= k < out@.len() ==> out@[k] == 0u8,
            decreases 64 - out@.len(),
        {
            out.push(0u8);
        }
        proof {
            let target = spec_record_bytes(self.name@, self.votes);
            assert forall|k: int| 0 <= k < 64 implies out@[k] == target[k] by {
                if k == 0 {
                } else if 1 <= k < 1 + name_len {
                    assert(out@[k] == self.name@[k - 1]);
                } else if 2 + name_len <= k < 10 + name_len {
                    assert(out@[k] == votes_bytes@[k - 2 - name_len]);
                } else {
                    assert(out@[k] == 0u8);
                }
            }
            assert(out@ =~= target);
        }
        out
    }

    /// Deserialize a record from a raw byte buffer. Fails when the buffer is
    /// empty, the declared name length pushes the vote count out of bounds,
    /// or the name bytes are not valid UTF-8.
    pub fn decode(data: &[u8]) -> (r: Result<VoteAccountData, VoteError>)
        ensures
            r is Ok <==> spec_decode_ok(data@),
            r matches Ok(rec) ==> {
                &&& rec.name@ == spec_record_name(data@)
                &&& rec.votes == spec_record_votes(data@)
                &&& rec.name@.len() + 10 <= data@.len()
            },
            r matches Err(e) ==> e == VoteError::MalformedAccountData,
    {
        if data.len() < 1 {
            return Err(VoteError::MalformedAccountData);
        }
        let name_len: usize = data[0] as usize;
        if data.len() < 10 + name_len {
            return Err(VoteError::MalformedAccountData);
        }
        let name_bytes: &[u8] = slice_subrange(data, 1, 1 + name_len);
        if !utf8_is_valid(name_bytes) {
            return Err(VoteError::MalformedAccountData);
        }
        let name: Vec<u8> = slice_to_vec(name_bytes);
        let votes_bytes: &[u8] = slice_subrange(data, 2 + name_len, 10 + name_len);
        let votes: u64 = u64_from_le_bytes(votes_bytes);
        Ok(VoteAccountData { name, votes })
    }
}

/// Law: encoding and decoding round-trip. Any record whose name fits the
/// fixed layout encodes to 64 bytes that decode back to the same name and
/// vote count; the encoding is decodable exactly when the name is UTF-8.
pub proof fn lemma_record_round_trip(name: Seq<u8>, votes: u64)
    requires
        name.len() <= 54,
    ensures
        spec_record_bytes(name, votes).len() == 64,
        spec_decode_ok(spec_record_bytes(name, votes)) == valid_utf8(name),
        spec_record_name(spec_record_bytes(name, votes)) == name,
        spec_record_votes(spec_record_bytes(name, votes)) == votes,
{
    lemma_auto_spec_u64_to_from_le_bytes();
    let data = spec_record_bytes(name, votes);
    assert(spec_u64_to_le_bytes(votes).len() == 8);
    assert(spec_name_len(data) == name.len());
    assert(spec_record_name(data) =~= name);
    assert(data.subrange(2 + name.len() as int, 10 + name.len() as int) =~= spec_u64_to_le_bytes(
        votes,
    ));
    assert(spec_record_votes(data) == spec_u64_from_le_bytes(spec_u64_to_le_bytes(votes)));
}

} // verus!
