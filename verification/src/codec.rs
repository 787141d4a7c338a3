//! The length-prefixed binary wire protocol.
//!
//! One request/response exchange moves variable-length byte blocks framed
//! as an 8-byte little-endian length followed by the bytes themselves, and
//! a single command byte telling a polling worker what to do next.

use vstd::bytes::*;
use vstd::prelude::*;
use vstd::slice::slice_subrange;

verus! {

/// The command byte a coordinator sends to a freshly connected worker:
/// `Wait` (wire value 0) means reconnect later, `Execute` (1) means a task
/// follows, `Terminate` (2) means shut down.
#[derive(Clone, Copy, Debug, PartialEq, Eq, Structural)]
pub enum HostCommand {
    Wait,
    Execute,
    Terminate,
}

impl HostCommand {
    /// The wire value of this command.
    pub open spec fn spec_byte(self) -> u8 {
        match self {
            HostCommand::Wait => 0,
            HostCommand::Execute => 1,
            HostCommand::Terminate => 2,
        }
    }

    /// Encode the command as its single wire byte.
    pub fn as_byte(self) -> (r: u8)
        ensures
            r == self.spec_byte(),
    {
        match self {
            HostCommand::Wait => 0,
            HostCommand::Execute => 1,
            HostCommand::Terminate => 2,
        }
    }

    /// What decoding a command byte yields: the three wire values map to
    /// their commands, every other byte is a recoverable error.
    pub open spec fn spec_from_byte(v: u8) -> Result<HostCommand, ()> {
        if v == 0 {
            Ok(HostCommand::Wait)
        } else if v == 1 {
            Ok(HostCommand::Execute)
        } else if v == 2 {
            Ok(HostCommand::Terminate)
        } else {
            Err(())
        }
    }

    /// Decode a command byte; an out-of-range byte is an error, never a
    /// crash.
    pub fn try_from(v: u8) -> (r: Result<HostCommand, ()>)
        ensures
            r == HostCommand::spec_from_byte(v),
    {
        if v == 0 {
            Ok(HostCommand::Wait)
        } else if v == 1 {
            Ok(HostCommand::Execute)
        } else if v == 2 {
            Ok(HostCommand::Terminate)
        } else {
            Err(())
        }
    }
}

/// Encoding and decoding a command byte invert each other: every command
/// decodes back to itself, and every byte that decodes at all re-encodes
/// to the same byte.
pub proof fn lemma_command_byte_round_trip()
    ensures
        forall|c: HostCommand| HostCommand::spec_from_byte(c.spec_byte()) == Ok::<
            HostCommand,
            (),
        >(c),
        forall|v: u8, c: HostCommand|
            HostCommand::spec_from_byte(v) == Ok::<HostCommand, ()>(c) ==> c.spec_byte() == v,
{
}

/// A length-prefixed block: the 8-byte little-endian length of the data,
/// then the data itself.
pub open spec fn spec_frame(data: Seq<u8>) -> Seq<u8>
    recommends
        data.len() <= u64::MAX,
{
    spec_u64_to_le_bytes(data.len() as u64) + data
}

/// What decoding a complete buffer as one frame yields: the payload when
/// the buffer is exactly one well-formed frame, nothing otherwise.
pub open spec fn spec_decode_frame(buf: Seq<u8>) -> Option<Seq<u8>> {
    if buf.len() >= 8 && spec_u64_from_le_bytes(buf.subrange(0, 8)) == buf.len() - 8 {
        Some(buf.skip(8))
    } else {
        None
    }
}

/// Encoding a block and decoding the result returns the original bytes.
pub proof fn lemma_frame_round_trip(data: Seq<u8>)
    requires
        data.len() <= u64::MAX,
    ensures
        spec_frame(data).len() == data.len() + 8,
        spec_decode_frame(spec_frame(data)) == Some(data),
{
    lemma_auto_spec_u64_to_from_le_bytes();
    let framed = spec_frame(data);
    assert(framed.subrange(0, 8) =~= spec_u64_to_le_bytes(data.len() as u64));
    assert(framed.skip(8) =~= data);
}

/// Encode a block for the wire: 8-byte little-endian length, then the
/// bytes.
pub fn encode_frame(data: &Vec<u8>) -> (r: Vec<u8>)
    requires
        data@.len() <= u64::MAX,
    ensures
        r@ == spec_frame(data@),
{
    let mut r = u64_to_le_bytes(data.len() as u64);
    let mut i: usize = 0;
    while i < data.len()
        invariant
            i <= data@.len(),
            data@.len() <= u64::MAX,
            r@ == spec_u64_to_le_bytes(data@.len() as u64) + data@.subrange(0, i as int),
        decreases data@.len() - i,
    {
        r.push(data[i]);
        i = i + 1;
        proof {
            assert(data@.subrange(0, i as int) =~= data@.subrange(0, i - 1).push(data@[i - 1]));
        }
    }
    proof {
        assert(data@.subrange(0, data@.len() as int) =~= data@);
    }
    r
}

/// Decode a buffer holding exactly one length-prefixed block; anything
/// else — a short buffer, or a length prefix that does not match the rest
/// — is rejected.
pub fn decode_frame(buf: &Vec<u8>) -> (r: Option<Vec<u8>>)
    ensures
        r is Some <==> spec_decode_frame(buf@) is Some,
        r matches Some(d) ==> spec_decode_frame(buf@) == Some(d@),
{
    if buf.len() < 8 {
        return None;
    }
    let prefix = slice_subrange(buf.as_slice(), 0, 8);
    let announced = u64_from_le_bytes(prefix);
    if announced != (buf.len() - 8) as u64 {
        return None;
    }
    let mut payload: Vec<u8> = Vec::new();
    let mut i: usize = 8;
    while i < buf.len()
        invariant
            8 <= i <= buf@.len(),
            payload@ == buf@.subrange(8, i as int),
        decreases buf@.len() - i,
    {
        payload.push(buf[i]);
        i = i + 1;
        proof {
            assert(buf@.subrange(8, i as int) =~= buf@.subrange(8, i - 1).push(buf@[i - 1]));
        }
    }
    proof {
        assert(buf@.subrange(8, buf@.len() as int) =~= buf@.skip(8));
    }
    Some(payload)
}

/// Encode a dispatch request: the program source as one frame, then the
/// payload as another, exactly as the coordinator writes them onto a
/// connection.
pub fn encode_request(program: &Vec<u8>, data: &Vec<u8>) -> (r: Vec<u8>)
    requires
        program@.len() <= u64::MAX,
        data@.len() <= u64::MAX,
    ensures
        r@ == spec_frame(program@) + spec_frame(data@),
{
    let mut r = encode_frame(program);
    let mut tail = encode_frame(data);
    r.append(&mut tail);
    r
}

/// Read the announced length out of the 8-byte prefix of a frame, for a
/// reader that must know how many payload bytes follow.
pub fn frame_length(prefix: &Vec<u8>) -> (r: u64)
    requires
        prefix@.len() == 8,
    ensures
        r == spec_u64_from_le_bytes(prefix@),
{
    let p = slice_subrange(prefix.as_slice(), 0, 8);
    proof {
        assert(p@ =~= prefix@);
    }
    u64_from_le_bytes(p)
}

} // verus!
