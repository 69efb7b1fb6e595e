use vstd::prelude::*;

use crate::error::VpnError;
use crate::wire::{be32_bytes, be32_value, push_be32, read_be32};

verus! {

/// The largest frame body that a reader accepts.
pub const MAX_FRAME_LEN: usize = 65535;

/// Bytes of the length prefix of a frame.
pub const PREFIX_LEN: usize = 4;

/// Reads a frame's length prefix (big-endian); a length over 65 535 is a
/// protocol error.
pub fn frame_length(prefix: [u8; 4]) -> (r: Result<usize, VpnError>)
    ensures
        be32_value(prefix@) > MAX_FRAME_LEN ==> r is Err && r->Err_0.is_protocol(
            "Packet too large"@,
        ),
        be32_value(prefix@) <= MAX_FRAME_LEN ==> r is Ok && r->Ok_0 == be32_value(prefix@),
        r is Ok ==> r->Ok_0 <= MAX_FRAME_LEN,
{
    let len = read_be32(&prefix, 0);
    assert(prefix@.subrange(0, 4) =~= prefix@);
    if len as usize > MAX_FRAME_LEN {
        Err(VpnError::protocol("Packet too large"))
    } else {
        Ok(len as usize)
    }
}

/// A frame on the wire: the body's length as a big-endian word, then the
/// body.
pub fn encode_frame(body: &[u8]) -> (r: Vec<u8>)
    requires
        body@.len() <= u32::MAX,
    ensures
        r@ == be32_bytes(body@.len() as u32) + body@,
{
    let mut r: Vec<u8> = Vec::new();
    push_be32(&mut r, body.len() as u32);
    let ghost head = r@;
    let mut i: usize = 0;
    while i < body.len()
        invariant
            i <= body@.len(),
            r@ == head + body@.subrange(0, i as int),
        decreases body.len() - i,
    {
        r.push(body[i]);
        i = i + 1;
    }
    assert(body@.subrange(0, body@.len() as int) =~= body@);
    r
}

/// The prefix of every frame that the writer makes reads back as the body's
/// length, so a body of at most 65 535 bytes passes the reader's check.
pub proof fn lemma_frame_prefix(body: Seq<u8>)
    requires
        body.len() <= u32::MAX,
    ensures
        be32_value((be32_bytes(body.len() as u32) + body).subrange(0, 4)) == body.len(),
{
    let f = be32_bytes(body.len() as u32) + body;
    assert(f.subrange(0, 4) =~= be32_bytes(body.len() as u32));
    crate::wire::lemma_be32_round_trip(body.len() as u32);
}

} // verus!
