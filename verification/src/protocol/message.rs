//! Protocol messages and their wire representation:
//! `[type: 1 byte][channel name length: 2 bytes, big-endian][channel name: UTF-8][payload]`.

use vstd::prelude::*;
use vstd::utf8::{decode_utf8, encode_utf8, valid_utf8};
use crate::protocol::bytes::{
    be16_bytes, be16_value, extend_bytes, lemma_be16_bytes_of_value, lemma_be16_roundtrip,
};

verus! {

broadcast use vstd::utf8::encode_utf8_valid_utf8, vstd::utf8::encode_utf8_decode_utf8;

/// The longest channel name, in UTF-8 bytes, that a message may carry.
pub const MAX_CHANNEL_NAME_SIZE: usize = 256;

/// The largest payload that a message may carry.
pub const MAX_PAYLOAD_SIZE: usize = 1024 * 1024;

/// What a message asks of the relay.
#[derive(Debug, Clone, Copy, PartialEq, Eq, Structural)]
pub enum MessageType {
    Publish,
    Subscribe,
    Unsubscribe,
    Data,
}

/// The byte that stands for a message type on the wire.
pub open spec fn spec_type_byte(t: MessageType) -> u8 {
    match t {
        MessageType::Publish => 1,
        MessageType::Subscribe => 2,
        MessageType::Unsubscribe => 3,
        MessageType::Data => 4,
    }
}

/// The message type that a byte stands for, if any.
pub open spec fn spec_type_of_byte(b: u8) -> Option<MessageType> {
    if b == 1 {
        Some(MessageType::Publish)
    } else if b == 2 {
        Some(MessageType::Subscribe)
    } else if b == 3 {
        Some(MessageType::Unsubscribe)
    } else if b == 4 {
        Some(MessageType::Data)
    } else {
        None
    }
}

/// What `MessageType::try_from` answers for a byte.
pub open spec fn spec_message_type_try_from(b: u8) -> Result<MessageType, &'static str> {
    match spec_type_of_byte(b) {
        Some(t) => Ok(t),
        None => Err("unknown message type"),
    }
}

impl MessageType {
    /// The byte that stands for this type on the wire.
    pub fn as_byte(self) -> (b: u8)
        ensures
            b == spec_type_byte(self),
    {
        match self {
            MessageType::Publish => 1,
            MessageType::Subscribe => 2,
            MessageType::Unsubscribe => 3,
            MessageType::Data => 4,
        }
    }
}

impl TryFrom<u8> for MessageType {
    type Error = &'static str;

    fn try_from(value: u8) -> (r: Result<Self, Self::Error>)
        ensures
            r == spec_message_type_try_from(value),
    {
        match value {
            1 => Ok(MessageType::Publish),
            2 => Ok(MessageType::Subscribe),
            3 => Ok(MessageType::Unsubscribe),
            4 => Ok(MessageType::Data),
            _ => Err("unknown message type"),
        }
    }
}

impl vstd::std_specs::convert::TryFromSpecImpl<u8> for MessageType {
    open spec fn obeys_try_from_spec() -> bool {
        true
    }

    open spec fn try_from_spec(v: u8) -> Result<Self, Self::Error> {
        spec_message_type_try_from(v)
    }
}

/// A protocol message.
#[derive(Debug, Clone, PartialEq, Eq)]
pub struct Message {
    pub message_type: MessageType,
    pub channel_name: String,
    pub payload: Vec<u8>,
}

/// The mathematical value of a message.
pub struct MessageView {
    pub message_type: MessageType,
    pub channel_name: Seq<char>,
    pub payload: Seq<u8>,
}

impl View for Message {
    type V = MessageView;

    open spec fn view(&self) -> MessageView {
        MessageView {
            message_type: self.message_type,
            channel_name: self.channel_name@,
            payload: self.payload@,
        }
    }
}

/// The bytes that carry a message on the wire.
pub open spec fn spec_message_bytes(m: MessageView) -> Seq<u8> {
    let name = encode_utf8(m.channel_name);
    seq![spec_type_byte(m.message_type)] + be16_bytes(name.len()) + name + m.payload
}

/// What `Message::encode` answers for a message.
pub open spec fn spec_encode(m: MessageView) -> Result<Seq<u8>, &'static str> {
    if encode_utf8(m.channel_name).len() > MAX_CHANNEL_NAME_SIZE {
        Err("channel name exceeds maximum size")
    } else if m.payload.len() > MAX_PAYLOAD_SIZE {
        Err("payload exceeds maximum size")
    } else {
        Ok(spec_message_bytes(m))
    }
}

/// The channel-name length that an encoded message announces.
pub open spec fn spec_channel_len(bytes: Seq<u8>) -> int
    recommends
        bytes.len() >= 3,
{
    be16_value(bytes[1], bytes[2]) as int
}

/// What `Message::decode` answers for a byte sequence.
pub open spec fn spec_decode(bytes: Seq<u8>) -> Result<MessageView, &'static str> {
    if bytes.len() < 3 {
        Err("message is too short")
    } else if spec_type_of_byte(bytes[0]) is None {
        Err("unknown message type")
    } else if spec_channel_len(bytes) > MAX_CHANNEL_NAME_SIZE {
        Err("channel name exceeds maximum size")
    } else if bytes.len() < 3 + spec_channel_len(bytes) {
        Err("message contains incomplete channel name")
    } else if !valid_utf8(bytes.subrange(3, 3 + spec_channel_len(bytes))) {
        Err("channel name is not valid UTF-8")
    } else if bytes.len() - (3 + spec_channel_len(bytes)) > MAX_PAYLOAD_SIZE {
        Err("payload exceeds maximum size")
    } else {
        Ok(
            MessageView {
                message_type: spec_type_of_byte(bytes[0])->Some_0,
                channel_name: decode_utf8(bytes.subrange(3, 3 + spec_channel_len(bytes))),
                payload: bytes.skip(3 + spec_channel_len(bytes)),
            },
        )
    }
}

/// The mathematical value of a decoding result.
pub open spec fn message_result_view(r: Result<Message, &'static str>) -> Result<MessageView, &'static str> {
    match r {
        Ok(m) => Ok(m@),
        Err(e) => Err(e),
    }
}

/// `String::from_utf8`, answering `None` where std answers an error.
/// As std documents it, the call succeeds exactly when the bytes are valid
/// UTF-8, and the string then holds the characters that the bytes encode.
#[verifier::external_body]
fn string_from_utf8(bytes: Vec<u8>) -> (r: Option<String>)
    ensures
        r is Some <==> valid_utf8(bytes@),
        r matches Some(s) ==> s@ == decode_utf8(bytes@),
{
    String::from_utf8(bytes).ok()
}

impl Message {
    /// Encodes the message in its wire representation.
    pub fn encode(&self) -> (r: Result<Vec<u8>, &'static str>)
        ensures
            crate::protocol::framing::bytes_result_view(r) == spec_encode(self@),
    {
        let channel = self.channel_name.as_str().as_bytes();
        if channel.len() > MAX_CHANNEL_NAME_SIZE {
            return Err("channel name exceeds maximum size");
        }
        if self.payload.len() > MAX_PAYLOAD_SIZE {
            return Err("payload exceeds maximum size");
        }
        let channel_len = channel.len() as u16;
        let mut encoded: Vec<u8> = Vec::with_capacity(1 + 2 + channel.len() + self.payload.len());
        encoded.push(self.message_type.as_byte());
        encoded.push((channel_len >> 8) as u8);
        encoded.push((channel_len & 0xff) as u8);
        assert((channel_len >> 8) as u8 == (channel_len / 0x100 % 0x100) as u8) by (bit_vector);
        assert((channel_len & 0xff) as u8 == (channel_len % 0x100) as u8) by (bit_vector);
        extend_bytes(&mut encoded, channel);
        extend_bytes(&mut encoded, self.payload.as_slice());
        assert(encoded@ =~= spec_message_bytes(self@));
        Ok(encoded)
    }

    /// Decodes a message from its wire representation.
    pub fn decode(bytes: &[u8]) -> (r: Result<Self, &'static str>)
        ensures
            message_result_view(r) == spec_decode(bytes@),
    {
        if bytes.len() < 3 {
            return Err("message is too short");
        }
        let message_type = MessageType::try_from(bytes[0])?;
        let channel_len: usize = (bytes[1] as usize) * 0x100 + (bytes[2] as usize);
        if channel_len > MAX_CHANNEL_NAME_SIZE {
            return Err("channel name exceeds maximum size");
        }
        let channel_start: usize = 3;
        let channel_end = channel_start + channel_len;
        if bytes.len() < channel_end {
            return Err("message contains incomplete channel name");
        }
        let mut name_bytes: Vec<u8> = Vec::with_capacity(channel_len);
        extend_bytes(&mut name_bytes, &bytes[channel_start..channel_end]);
        let channel_name = match string_from_utf8(name_bytes) {
            Some(name) => name,
            None => return Err("channel name is not valid UTF-8"),
        };
        let mut payload: Vec<u8> = Vec::new();
        extend_bytes(&mut payload, &bytes[channel_end..bytes.len()]);
        if payload.len() > MAX_PAYLOAD_SIZE {
            return Err("payload exceeds maximum size");
        }
        let message = Message { message_type, channel_name, payload };
        assert(message@.payload =~= bytes@.skip(3 + spec_channel_len(bytes@)));
        Ok(message)
    }
}

/// Decoding the encoding of a message gives the message back.
pub proof fn lemma_decode_encode(m: MessageView)
    requires
        spec_encode(m) is Ok,
    ensures
        spec_decode(spec_message_bytes(m)) == Ok::<MessageView, &'static str>(m),
{
    let name = encode_utf8(m.channel_name);
    let b = spec_message_bytes(m);
    lemma_be16_roundtrip(name.len());
    assert(b[1] == be16_bytes(name.len())[0]);
    assert(b[2] == be16_bytes(name.len())[1]);
    assert(b.subrange(3, 3 + name.len() as int) =~= name);
    assert(b.skip(3 + name.len() as int) =~= m.payload);
    let t = spec_type_byte(m.message_type);
    assert(b[0] == t);
    assert(spec_type_of_byte(t) == Some(m.message_type));
}

/// A byte sequence that decodes is exactly the encoding of what it decodes to.
pub proof fn lemma_encode_decode(bytes: Seq<u8>)
    requires
        spec_decode(bytes) is Ok,
    ensures
        spec_encode(spec_decode(bytes)->Ok_0) == Ok::<Seq<u8>, &'static str>(bytes),
{
    let m = spec_decode(bytes)->Ok_0;
    let cl = spec_channel_len(bytes);
    let name_bytes = bytes.subrange(3, 3 + cl);
    vstd::utf8::decode_utf8_encode_utf8(name_bytes);
    lemma_be16_bytes_of_value(bytes[1], bytes[2]);
    assert(spec_type_byte(m.message_type) == bytes[0]);
    assert(spec_message_bytes(m) =~= bytes);
}

/// An encoded message is its type byte, the channel name's UTF-8 length in
/// two big-endian bytes, the name's UTF-8 bytes, and then the payload
/// unchanged.
pub proof fn lemma_message_layout(m: MessageView)
    ensures
        spec_encode(m) matches Ok(b) ==> {
            let name = encode_utf8(m.channel_name);
            &&& b.len() == 3 + name.len() + m.payload.len()
            &&& spec_type_of_byte(b[0]) == Some(m.message_type)
            &&& b[1] * 0x100 + b[2] == name.len()
            &&& b.subrange(3, 3 + name.len() as int) == name
            &&& b.skip(3 + name.len() as int) == m.payload
        },
{
    if spec_encode(m) is Ok {
        let name = encode_utf8(m.channel_name);
        let b = spec_message_bytes(m);
        lemma_be16_roundtrip(name.len());
        assert(b[1] == be16_bytes(name.len())[0]);
        assert(b[2] == be16_bytes(name.len())[1]);
        assert(b.subrange(3, 3 + name.len() as int) =~= name);
        assert(b.skip(3 + name.len() as int) =~= m.payload);
        assert(b[0] == spec_type_byte(m.message_type));
    }
}

/// A decoded message's type is the first byte's, its channel name is what
/// the announced number of name bytes encode, and its payload is every
/// byte after the name, unchanged.
pub proof fn lemma_decoded_layout(bytes: Seq<u8>)
    ensures
        spec_decode(bytes) matches Ok(v) ==> {
            let cl = bytes[1] * 0x100 + bytes[2];
            &&& bytes.len() >= 3 + cl
            &&& spec_type_of_byte(bytes[0]) == Some(v.message_type)
            &&& encode_utf8(v.channel_name) == bytes.subrange(3, 3 + cl)
            &&& v.payload == bytes.skip(3 + cl)
        },
{
    if spec_decode(bytes) is Ok {
        let cl = spec_channel_len(bytes);
        vstd::utf8::decode_utf8_encode_utf8(bytes.subrange(3, 3 + cl));
    }
}
} // verus!
