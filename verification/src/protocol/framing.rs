//! Length-prefixed framing: a frame is the payload's length as four
//! big-endian bytes, followed by the payload.

use vstd::prelude::*;
use crate::protocol::bytes::{
    be32_bytes, be32_value, extend_bytes, lemma_be32_bytes_of_value, lemma_be32_roundtrip, u32_from_be,
    u32_to_be,
};

verus! {

/// The largest payload a frame may carry.
pub const MAX_MESSAGE_SIZE: usize = 1024 * 1024;

/// The size of a frame's length prefix.
pub const HEADER_SIZE: usize = 4;

/// The frame that carries `message`.
pub open spec fn spec_frame(message: Seq<u8>) -> Seq<u8> {
    be32_bytes(message.len()) + message
}

/// What `encode_message` answers for `message`.
pub open spec fn spec_encode_message(message: Seq<u8>) -> Result<Seq<u8>, &'static str> {
    if message.len() > MAX_MESSAGE_SIZE {
        Err("message exceeds maximum size")
    } else {
        Ok(spec_frame(message))
    }
}

/// The payload length that a frame's header announces.
pub open spec fn spec_header_length(frame: Seq<u8>) -> nat
    recommends
        frame.len() >= HEADER_SIZE,
{
    be32_value(frame[0], frame[1], frame[2], frame[3])
}

/// What `decode_message` answers for `frame`.
pub open spec fn spec_decode_message(frame: Seq<u8>) -> Result<Seq<u8>, &'static str> {
    if frame.len() < HEADER_SIZE {
        Err("frame is smaller than header")
    } else if spec_header_length(frame) > MAX_MESSAGE_SIZE {
        Err("message exceeds maximum size")
    } else if frame.len() != HEADER_SIZE + spec_header_length(frame) {
        Err("frame length does not match payload length")
    } else {
        Ok(frame.skip(HEADER_SIZE as int))
    }
}

/// What `decode_frame_header` answers for a received header.
pub open spec fn spec_decode_frame_header(header: Seq<u8>) -> Result<usize, &'static str>
    recommends
        header.len() == HEADER_SIZE,
{
    if spec_header_length(header) > MAX_MESSAGE_SIZE {
        Err("message exceeds maximum size")
    } else {
        Ok(spec_header_length(header) as usize)
    }
}

/// The mathematical value of a byte-vector result.
pub open spec fn bytes_result_view(r: Result<Vec<u8>, &'static str>) -> Result<Seq<u8>, &'static str> {
    match r {
        Ok(v) => Ok(v@),
        Err(e) => Err(e),
    }
}

/// Encodes a message as `[4-byte big-endian length][payload]`.
pub fn encode_message(message: &[u8]) -> (r: Result<Vec<u8>, &'static str>)
    ensures
        bytes_result_view(r) == spec_encode_message(message@),
{
    if message.len() > MAX_MESSAGE_SIZE {
        return Err("message exceeds maximum size");
    }
    let length = message.len() as u32;
    let header = u32_to_be(length);
    let mut frame: Vec<u8> = Vec::with_capacity(HEADER_SIZE + message.len());
    extend_bytes(&mut frame, &header);
    extend_bytes(&mut frame, message);
    assert(frame@ =~= spec_frame(message@));
    Ok(frame)
}

/// Decodes one complete frame.
pub fn decode_message(frame: &[u8]) -> (r: Result<Vec<u8>, &'static str>)
    ensures
        bytes_result_view(r) == spec_decode_message(frame@),
{
    if frame.len() < HEADER_SIZE {
        return Err("frame is smaller than header");
    }
    let length = u32_from_be(frame[0], frame[1], frame[2], frame[3]) as usize;
    if length > MAX_MESSAGE_SIZE {
        return Err("message exceeds maximum size");
    }
    if frame.len() != HEADER_SIZE + length {
        return Err("frame length does not match payload length");
    }
    let mut payload: Vec<u8> = Vec::with_capacity(length);
    extend_bytes(&mut payload, &frame[HEADER_SIZE..frame.len()]);
    assert(payload@ =~= frame@.skip(HEADER_SIZE as int));
    Ok(payload)
}

/// Reads the payload length from a received frame header, rejecting lengths
/// above `MAX_MESSAGE_SIZE`.
pub fn decode_frame_header(header: [u8; 4]) -> (r: Result<usize, &'static str>)
    ensures
        r == spec_decode_frame_header(header@),
{
    let length = u32_from_be(header[0], header[1], header[2], header[3]) as usize;
    if length > MAX_MESSAGE_SIZE {
        return Err("message exceeds maximum size");
    }
    Ok(length)
}

/// Decoding the frame of a message that fits gives the message back.
pub proof fn lemma_decode_encode(message: Seq<u8>)
    requires
        message.len() <= MAX_MESSAGE_SIZE,
    ensures
        spec_encode_message(message) == Ok::<Seq<u8>, &'static str>(spec_frame(message)),
        spec_decode_message(spec_frame(message)) == Ok::<Seq<u8>, &'static str>(message),
{
    let f = spec_frame(message);
    lemma_be32_roundtrip(message.len());
    assert(f[0] == be32_bytes(message.len())[0]);
    assert(f[1] == be32_bytes(message.len())[1]);
    assert(f[2] == be32_bytes(message.len())[2]);
    assert(f[3] == be32_bytes(message.len())[3]);
    assert(f.skip(HEADER_SIZE as int) =~= message);
}

/// A frame that decodes is exactly the frame of what it decodes to.
pub proof fn lemma_encode_decode(frame: Seq<u8>)
    requires
        spec_decode_message(frame) is Ok,
    ensures
        spec_encode_message(spec_decode_message(frame)->Ok_0) == Ok::<Seq<u8>, &'static str>(frame),
{
    let m = frame.skip(HEADER_SIZE as int);
    lemma_be32_bytes_of_value(frame[0], frame[1], frame[2], frame[3]);
    assert(spec_frame(m) =~= frame);
}

/// The header of the frame of a message announces the message's length.
pub proof fn lemma_frame_header_length(message: Seq<u8>)
    requires
        message.len() <= MAX_MESSAGE_SIZE,
    ensures
        spec_decode_frame_header(spec_frame(message).take(HEADER_SIZE as int))
            == Ok::<usize, &'static str>(message.len() as usize),
{
    let f = spec_frame(message);
    lemma_be32_roundtrip(message.len());
    assert(f.take(4)[0] == be32_bytes(message.len())[0]);
    assert(f.take(4)[1] == be32_bytes(message.len())[1]);
    assert(f.take(4)[2] == be32_bytes(message.len())[2]);
    assert(f.take(4)[3] == be32_bytes(message.len())[3]);
}

/// A frame is four header bytes holding the message's length in big-endian
/// order, followed by the message unchanged; only messages above
/// `MAX_MESSAGE_SIZE` are refused.
pub proof fn lemma_frame_layout(message: Seq<u8>)
    ensures
        spec_encode_message(message) is Err <==> message.len() > MAX_MESSAGE_SIZE,
        spec_encode_message(message) matches Ok(f) ==> {
            &&& f.len() == 4 + message.len()
            &&& f[0] * 0x1000000 + f[1] * 0x10000 + f[2] * 0x100 + f[3] == message.len()
            &&& f.skip(4) == message
        },
{
    if message.len() <= MAX_MESSAGE_SIZE {
        let f = spec_frame(message);
        lemma_be32_roundtrip(message.len());
        assert(f[0] == be32_bytes(message.len())[0]);
        assert(f[1] == be32_bytes(message.len())[1]);
        assert(f[2] == be32_bytes(message.len())[2]);
        assert(f[3] == be32_bytes(message.len())[3]);
        assert(f.skip(4) =~= message);
    }
}

/// A frame decodes exactly when its header announces at most
/// `MAX_MESSAGE_SIZE` bytes and exactly that many bytes follow the header;
/// what it decodes to is those bytes, unchanged.
pub proof fn lemma_unframe_layout(frame: Seq<u8>)
    ensures
        spec_decode_message(frame) is Ok <==> (frame.len() >= 4 && frame[0] * 0x1000000 + frame[1] * 0x10000
            + frame[2] * 0x100 + frame[3] <= MAX_MESSAGE_SIZE && frame.len() == 4 + frame[0] * 0x1000000
            + frame[1] * 0x10000 + frame[2] * 0x100 + frame[3]),
        spec_decode_message(frame) matches Ok(p) ==> p == frame.skip(4) && p.len() == frame[0] * 0x1000000
            + frame[1] * 0x10000 + frame[2] * 0x100 + frame[3],
{
}
} // verus!
