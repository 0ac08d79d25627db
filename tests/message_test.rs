use chrono::Utc;
use quietdrop::encryption::generate_keypair;
use quietdrop::message::{encode_frame, frame_length, Message, MessageType, Timestamp};

#[test]
fn test_message_creation_and_encryption() {
    let (sender_public_key, sender_secret_key) = generate_keypair();
    let (receiver_public_key, _receiver_secret_key) = generate_keypair();

    let mut message = Message {
        timestamp: Timestamp::now().expect("clock after 1970"),
        message_type: MessageType::Text,
        sender: "Alice".to_owned(),
        recipient: "Bob".to_owned(),
        content: vec![],
        public_key: sender_public_key.clone(),
    };

    let original_content = "Hello, this is a test message";

    message.encrypt_content(original_content, &receiver_public_key, &sender_secret_key);

    assert!(
        !message.content.is_empty(),
        "Encrypted content should not be empty"
    );

    assert_ne!(
        message.content,
        original_content.as_bytes().to_vec(),
        "Encrypted content should differ from original"
    );
}

#[test]
fn test_client_message_construction() {
    let (client_public_key, client_secret_key) = generate_keypair();
    let (server_public_key, _) = generate_keypair();

    let mut msg = Message {
        timestamp: Timestamp::now().expect("clock after 1970"),
        message_type: MessageType::Text,
        sender: "TestClient".to_owned(),
        recipient: "TestRecipient".to_owned(),
        content: vec![],
        public_key: client_public_key,
    };

    let test_message = "Hello, server!";
    msg.encrypt_content(test_message, &server_public_key, &client_secret_key);

    assert_eq!(msg.sender, "TestClient");
    assert_eq!(msg.recipient, "TestRecipient");
    assert!(!msg.content.is_empty());

    match msg.message_type {
        MessageType::Text => {}
        _ => panic!("Expected Text message type"),
    }

    let now = Utc::now().timestamp_millis();
    let diff = now - msg.timestamp.millis;
    assert!(diff < 60_000, "Timestamp should be recent");
}

#[test]
fn message_types_are_distinct() {
    assert!(matches!(MessageType::Text, MessageType::Text));
    assert!(matches!(MessageType::File, MessageType::File));
    assert!(!matches!(MessageType::Text, MessageType::File));
    assert_ne!(MessageType::Text, MessageType::File);
}

#[test]
fn frame_is_big_endian_length_then_payload() {
    let frame = encode_frame(&[1, 2, 3]).expect("small payload");
    assert_eq!(frame, vec![0, 0, 0, 3, 1, 2, 3]);
    let big = vec![7u8; 300];
    let frame = encode_frame(&big).expect("small payload");
    assert_eq!(&frame[..4], &[0, 0, 1, 44]);
    assert_eq!(frame_length(&frame[..4]), Some(300));
}

#[test]
fn frame_length_takes_any_four_byte_header() {
    assert_eq!(encode_frame(&[]), Some(vec![0, 0, 0, 0]));
    let big = vec![0u8; 2 * 1_048_576 + 5];
    let frame = encode_frame(&big).expect("fits in four bytes");
    assert_eq!(&frame[..4], &[0, 32, 0, 5]);
    assert_eq!(frame.len(), 4 + big.len());
    assert_eq!(frame_length(&frame[..4]), Some(2 * 1_048_576 + 5));
    assert_eq!(frame_length(&[0, 0, 0, 0]), Some(0));
    assert_eq!(frame_length(&[255, 255, 255, 255]), Some(u32::MAX));
    assert_eq!(frame_length(&[0, 0, 1]), None);
    assert_eq!(frame_length(&[0, 0, 0, 1, 0]), None);
}

#[test]
fn timestamp_now_is_after_the_epoch() {
    let t = Timestamp::now().expect("clock after 1970");
    assert!(t.millis > 1_600_000_000_000);
}
