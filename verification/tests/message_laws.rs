use moq_rs::protocol::message::{Message, MessageType, MAX_CHANNEL_NAME_SIZE, MAX_PAYLOAD_SIZE};

fn message(message_type: MessageType, channel_name: &str, payload: &[u8]) -> Message {
    Message {
        message_type,
        channel_name: channel_name.to_string(),
        payload: payload.to_vec(),
    }
}

#[test]
fn wire_format_is_exact() {
    let encoded = message(MessageType::Data, "ab", b"xyz").encode().unwrap();
    assert_eq!(encoded, vec![4, 0, 2, b'a', b'b', b'x', b'y', b'z']);
    let encoded = message(MessageType::Unsubscribe, "", b"").encode().unwrap();
    assert_eq!(encoded, vec![3, 0, 0]);
}

#[test]
fn type_bytes() {
    assert_eq!(MessageType::Publish.as_byte(), 1);
    assert_eq!(MessageType::Subscribe.as_byte(), 2);
    assert_eq!(MessageType::Unsubscribe.as_byte(), 3);
    assert_eq!(MessageType::Data.as_byte(), 4);
    assert_eq!(MessageType::try_from(1u8), Ok(MessageType::Publish));
    assert_eq!(MessageType::try_from(4u8), Ok(MessageType::Data));
    assert_eq!(MessageType::try_from(0u8), Err("unknown message type"));
    assert_eq!(MessageType::try_from(5u8), Err("unknown message type"));
}

#[test]
fn unicode_channel_name_round_trips() {
    let m = message(MessageType::Subscribe, "jeu-é-🎮", b"");
    let encoded = m.encode().unwrap();
    assert_eq!(encoded[2] as usize, "jeu-é-🎮".len());
    assert_eq!(Message::decode(&encoded).unwrap(), m);
}

#[test]
fn decoded_bytes_encode_back() {
    let bytes = vec![2u8, 0, 1, b'q', 1, 2, 3];
    let m = Message::decode(&bytes).unwrap();
    assert_eq!(m.message_type, MessageType::Subscribe);
    assert_eq!(m.channel_name, "q");
    assert_eq!(m.payload, vec![1, 2, 3]);
    assert_eq!(m.encode().unwrap(), bytes);
}

#[test]
fn encode_limits() {
    let longest = "a".repeat(MAX_CHANNEL_NAME_SIZE);
    assert!(message(MessageType::Publish, &longest, b"").encode().is_ok());
    let too_long = "a".repeat(MAX_CHANNEL_NAME_SIZE + 1);
    assert_eq!(
        message(MessageType::Publish, &too_long, b"").encode(),
        Err("channel name exceeds maximum size")
    );
    // 129 two-byte characters: 258 bytes, though only 129 characters.
    let wide = "é".repeat(129);
    assert_eq!(
        message(MessageType::Publish, &wide, b"").encode(),
        Err("channel name exceeds maximum size")
    );
    let payload = vec![0u8; MAX_PAYLOAD_SIZE + 1];
    assert_eq!(
        message(MessageType::Data, "c", &payload).encode(),
        Err("payload exceeds maximum size")
    );
    let payload = vec![0u8; MAX_PAYLOAD_SIZE];
    let m = message(MessageType::Data, "c", &payload);
    assert_eq!(Message::decode(&m.encode().unwrap()).unwrap(), m);
}

#[test]
fn decode_errors() {
    assert_eq!(Message::decode(&[1, 0]), Err("message is too short"));
    assert_eq!(Message::decode(&[0, 0, 0]), Err("unknown message type"));
    assert_eq!(
        Message::decode(&[1, 1, 1]),
        Err("channel name exceeds maximum size")
    );
    assert_eq!(
        Message::decode(&[1, 0, 3, b'a', b'b']),
        Err("message contains incomplete channel name")
    );
    assert_eq!(
        Message::decode(&[1, 0, 2, 0xc3, 0x28]),
        Err("channel name is not valid UTF-8")
    );
    let mut bytes = vec![4u8, 0, 1, b'c'];
    bytes.extend(vec![0u8; MAX_PAYLOAD_SIZE + 1]);
    assert_eq!(Message::decode(&bytes), Err("payload exceeds maximum size"));
}
