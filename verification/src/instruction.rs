use vstd::prelude::*;
use vstd::slice::{slice_subrange, slice_to_vec};
use vstd::utf8::valid_utf8;
use crate::errors::VoteError;
use crate::record::utf8_is_valid;

verus! {

/// The decoded vote request: the subject name, as its UTF-8 bytes.
#[derive(Clone, Debug)]
pub struct VoteInstructionData {
    pub name: Vec<u8>,
}

/// The name carried by an instruction payload (after the discriminator has
/// been stripped): one length byte, then that many name bytes.
pub open spec fn spec_payload_name(data: Seq<u8>) -> Seq<u8>
    recommends
        data.len() >= 1,
        1 + (data[0] as int) <= data.len(),
{
    data.subrange(1, 1 + (data[0] as int))
}

/// When a stripped payload parses: it holds a length byte, the declared
/// number of name bytes, and those bytes are valid UTF-8.
pub open spec fn spec_payload_ok(data: Seq<u8>) -> bool {
    &&& data.len() >= 1
    &&& 1 + (data[0] as int) <= data.len()
    &&& valid_utf8(spec_payload_name(data))
}

impl VoteInstructionData {
    /// Parse the payload that follows the discriminator byte. Fails when the
    /// payload is empty, the name is truncated, or it is not valid UTF-8.
    pub fn parse(data: &[u8]) -> (r: Result<VoteInstructionData, VoteError>)
        ensures
            r is Ok <==> spec_payload_ok(data@),
            r matches Ok(ix) ==> ix.name@ == spec_payload_name(data@),
            r matches Err(e) ==> e == VoteError::MalformedInstruction,
    {
        if data.len() < 1 {
            return Err(VoteError::MalformedInstruction);
        }
        let name_len: usize = data[0] as usize;
        if data.len() < 1 + name_len {
            return Err(VoteError::MalformedInstruction);
        }
        let name_bytes: &[u8] = slice_subrange(data, 1, 1 + name_len);
        if !utf8_is_valid(name_bytes) {
            return Err(VoteError::MalformedInstruction);
        }
        Ok(VoteInstructionData { name: slice_to_vec(name_bytes) })
    }
}

} // verus!
