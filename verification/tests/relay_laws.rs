use moq_rs::protocol::message::{Message, MessageType};
use moq_rs::relay::{Relay, RelayError};
use tokio::sync::mpsc;

fn message(message_type: MessageType, channel_name: &str, payload: &[u8]) -> Message {
    Message {
        message_type,
        channel_name: channel_name.to_string(),
        payload: payload.to_vec(),
    }
}

#[test]
fn data_reaches_every_subscriber_once() {
    let mut relay = Relay::new();
    let (publisher_tx, _) = mpsc::channel(4);
    let (tx_a, mut rx_a) = mpsc::channel(4);
    let (tx_b, mut rx_b) = mpsc::channel(4);
    let publisher = relay.connect(publisher_tx);
    let a = relay.connect(tx_a);
    let b = relay.connect(tx_b);
    relay.handle_message(a, &message(MessageType::Subscribe, "g", &[])).unwrap();
    relay.handle_message(b, &message(MessageType::Subscribe, "g", &[])).unwrap();
    relay.handle_message(publisher, &message(MessageType::Publish, "g", &[])).unwrap();

    let data = message(MessageType::Data, "g", b"frame-1");
    let recipients = relay.handle_message(publisher, &data).unwrap();
    assert_eq!(recipients.len(), 2);
    for recipient in &recipients {
        recipient.try_send(data.clone()).unwrap();
    }
    assert_eq!(rx_a.try_recv().ok(), Some(data.clone()));
    assert_eq!(rx_b.try_recv().ok(), Some(data));
    assert!(rx_a.try_recv().is_err());
    assert!(rx_b.try_recv().is_err());
}

#[test]
fn sender_is_handed_out_while_connected() {
    let mut relay = Relay::default();
    let (tx, mut rx) = mpsc::channel(1);
    let client = relay.connect(tx);
    let handle = relay.sender(client).unwrap();
    handle.try_send(message(MessageType::Data, "g", b"x")).unwrap();
    assert_eq!(rx.try_recv().unwrap().payload, b"x");
    relay.disconnect(client);
    assert!(relay.sender(client).is_none());
    assert_eq!(
        relay.handle_message(client, &message(MessageType::Subscribe, "g", &[])).err(),
        Some(RelayError::UnknownClient)
    );
}

#[test]
fn second_publisher_refused() {
    let mut relay = Relay::new();
    let (tx_1, _) = mpsc::channel(1);
    let (tx_2, _) = mpsc::channel(1);
    let first = relay.connect(tx_1);
    let second = relay.connect(tx_2);
    assert!(relay.handle_message(first, &message(MessageType::Publish, "g", &[])).unwrap().is_empty());
    assert_eq!(
        relay.handle_message(second, &message(MessageType::Publish, "g", &[])).err(),
        Some(RelayError::PublisherAlreadyExists)
    );
    assert!(relay.handle_message(first, &message(MessageType::Data, "g", b"x")).is_ok());
    assert_eq!(
        relay.handle_message(second, &message(MessageType::Data, "g", b"x")).err(),
        Some(RelayError::NotPublisher)
    );
}

#[test]
fn data_on_unknown_channel_refused() {
    let mut relay = Relay::new();
    let (tx, _) = mpsc::channel(1);
    let client = relay.connect(tx);
    assert_eq!(
        relay.handle_message(client, &message(MessageType::Data, "nowhere", b"x")).err(),
        Some(RelayError::NotPublisher)
    );
}

#[test]
fn unsubscribed_client_gets_no_data() {
    let mut relay = Relay::new();
    let (publisher_tx, _) = mpsc::channel(1);
    let (tx, _) = mpsc::channel(1);
    let publisher = relay.connect(publisher_tx);
    let client = relay.connect(tx);
    relay.handle_message(publisher, &message(MessageType::Publish, "g", &[])).unwrap();
    relay.handle_message(client, &message(MessageType::Subscribe, "g", &[])).unwrap();
    relay.handle_message(client, &message(MessageType::Unsubscribe, "g", &[])).unwrap();
    assert!(relay.handle_message(publisher, &message(MessageType::Data, "g", b"x")).unwrap().is_empty());
}

#[test]
fn error_descriptions() {
    assert_eq!(RelayError::UnknownClient.as_str(), "client is not connected");
    assert_eq!(
        RelayError::PublisherAlreadyExists.as_str(),
        "channel already has a publisher"
    );
    assert_eq!(RelayError::NotPublisher.as_str(), "client is not the channel publisher");
}
