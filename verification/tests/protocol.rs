use mini_tor::error::TorError;
use mini_tor::protocol::{Message, MessageCommand, CELL_SIZE, MAX_PAYLOAD_SIZE};
use std::io::{Cursor, Read, Write};

#[test]
fn test_message_command_conversion() {
    assert_eq!(
        MessageCommand::from_u8(0x01).unwrap(),
        MessageCommand::Create
    );
    assert_eq!(MessageCommand::from_u8(0x12).unwrap(), MessageCommand::Data);
    assert!(MessageCommand::from_u8(0xFF).is_err());
}

#[test]
fn every_command_byte_converts_both_ways() {
    let mut known = 0;
    for value in 0..=255u8 {
        match MessageCommand::from_u8(value) {
            Ok(command) => {
                known += 1;
                assert_eq!(command.to_u8(), value);
            }
            Err(e) => assert_eq!(e, format!("Unknown message command: 0x{:02x}", value)),
        }
    }
    assert_eq!(known, 10);
    assert_eq!(MessageCommand::Begin.to_string(), "BEGIN");
    assert_eq!(MessageCommand::Padding.to_string(), "PADDING");
}

#[test]
fn test_message_serialization() {
    let msg = Message::new(12345, 678, MessageCommand::Data, vec![1, 2, 3, 4, 5]);

    let bytes = msg.to_bytes();
    assert_eq!(bytes.len(), CELL_SIZE);

    let msg2 = Message::from_bytes(&bytes).unwrap();

    assert_eq!(msg.circuit_id, msg2.circuit_id);
    assert_eq!(msg.stream_id, msg2.stream_id);
    assert_eq!(msg.command, msg2.command);
    assert_eq!(msg.data, msg2.data);
}

#[test]
fn test_message_wire_format() {
    let msg = Message::circuit(100, MessageCommand::Create, vec![0xAA, 0xBB]);

    let bytes = msg.to_bytes();

    assert_eq!(bytes.len(), CELL_SIZE);
    assert_eq!(
        u32::from_be_bytes([bytes[0], bytes[1], bytes[2], bytes[3]]),
        510
    );
    assert_eq!(
        u32::from_be_bytes([bytes[4], bytes[5], bytes[6], bytes[7]]),
        100
    );
    assert_eq!(u16::from_be_bytes([bytes[8], bytes[9]]), 0);
    assert_eq!(bytes[10], MessageCommand::Create.to_u8());
    assert_eq!(u16::from_be_bytes([bytes[11], bytes[12]]), 2);
    assert_eq!(bytes[13], 0);
    assert_eq!(bytes[14], 0);
    assert_eq!(bytes[15], 0);
    assert_eq!(bytes[16], 0);
    assert_eq!(bytes[17], 0xAA);
    assert_eq!(bytes[18], 0xBB);
    for &b in &bytes[19..CELL_SIZE] {
        assert_eq!(b, 0, "Padding byte should be zero");
    }
}

#[test]
fn test_message_read_write() {
    let msg = Message::stream(999, 42, MessageCommand::Begin, b"example.com:80".to_vec());

    let mut buffer = Vec::new();
    buffer.write_all(&msg.to_bytes()).unwrap();

    assert_eq!(buffer.len(), CELL_SIZE);

    let mut cursor = Cursor::new(buffer);
    let mut cell = [0u8; CELL_SIZE];
    cursor.read_exact(&mut cell).unwrap();
    let msg2 = Message::from_bytes(&cell).unwrap();

    assert_eq!(msg.circuit_id, msg2.circuit_id);
    assert_eq!(msg.stream_id, msg2.stream_id);
    assert_eq!(msg.command, msg2.command);
    assert_eq!(msg.data, msg2.data);
}

#[test]
fn test_incomplete_cell() {
    let bytes = vec![0u8; 100];
    assert!(Message::from_bytes(&bytes).is_err());
    assert_eq!(
        Message::from_bytes(&bytes).unwrap_err(),
        "Cell too short: 100 bytes (expected 514)"
    );
}

#[test]
fn test_message_size_always_cell_size() {
    let msg = Message::new(1, 2, MessageCommand::Data, vec![0; 100]);
    assert_eq!(msg.size(), CELL_SIZE);
}

#[test]
fn test_empty_data_roundtrip() {
    let msg = Message::destroy(42);
    let bytes = msg.to_bytes();
    assert_eq!(bytes.len(), CELL_SIZE);

    let msg2 = Message::from_bytes(&bytes).unwrap();
    assert_eq!(msg2.circuit_id, 42);
    assert_eq!(msg2.command, MessageCommand::Destroy);
    assert!(msg2.data.is_empty());
}

#[test]
fn test_max_payload_roundtrip() {
    let data = vec![0xAB; MAX_PAYLOAD_SIZE];
    let msg = Message::data(1, 1, data.clone());
    let bytes = msg.to_bytes();
    assert_eq!(bytes.len(), CELL_SIZE);

    let msg2 = Message::from_bytes(&bytes).unwrap();
    assert_eq!(msg2.data, data);
}

#[test]
fn oversized_data_is_cut_at_the_limit() {
    let data: Vec<u8> = (0..600u32).map(|i| i as u8).collect();
    let msg = Message::data(1, 1, data.clone());
    let bytes = msg.to_bytes();
    assert_eq!(bytes.len(), CELL_SIZE);
    assert_eq!(
        Message::from_bytes(&bytes).unwrap().data,
        data[..MAX_PAYLOAD_SIZE]
    );
}

#[test]
fn test_data_ending_in_zero_preserved() {
    let mut data = vec![0x42; 32];
    data[31] = 0x00;
    data[30] = 0x00;

    let msg = Message::create(1, data.clone());
    let bytes = msg.to_bytes();
    let msg2 = Message::from_bytes(&bytes).unwrap();

    assert_eq!(msg2.data.len(), 32);
    assert_eq!(msg2.data, data);
}

#[test]
fn test_payload_len_field_accuracy() {
    let data = vec![0xFF; 100];
    let msg = Message::data(5, 10, data);
    let bytes = msg.to_bytes();

    let payload_len = u16::from_be_bytes([bytes[11], bytes[12]]);
    assert_eq!(payload_len, 100);
}

#[test]
fn test_invalid_length_field() {
    let mut cell = vec![0u8; CELL_SIZE];
    cell[0..4].copy_from_slice(&100u32.to_be_bytes());
    cell[10] = MessageCommand::Data.to_u8();

    let result = Message::from_bytes(&cell);
    assert!(result.is_err());
    assert!(result.unwrap_err().contains("Invalid cell length field"));
    assert_eq!(
        Message::from_bytes(&cell).unwrap_err(),
        "Invalid cell length field: 100 (expected 510)"
    );
}

#[test]
fn test_payload_len_exceeds_max() {
    let mut cell = vec![0u8; CELL_SIZE];
    cell[0..4].copy_from_slice(&510u32.to_be_bytes());
    cell[10] = MessageCommand::Data.to_u8();
    cell[11..13].copy_from_slice(&((MAX_PAYLOAD_SIZE + 1) as u16).to_be_bytes());

    let result = Message::from_bytes(&cell);
    assert!(result.is_err());
    assert!(result.unwrap_err().contains("exceeds maximum"));
    assert_eq!(
        Message::from_bytes(&cell).unwrap_err(),
        "Payload length 498 exceeds maximum 497"
    );
}

#[test]
fn unknown_command_in_a_cell_is_refused() {
    let mut cell = Message::padding(1).to_bytes();
    cell[10] = 0x7f;
    assert_eq!(
        Message::from_bytes(&cell).unwrap_err(),
        "Unknown message command: 0x7f"
    );
}

#[test]
fn digest_and_trailing_bytes() {
    let mut msg = Message::end(8, 9, b"bye".to_vec());
    msg.digest = [1, 2, 3, 4];
    let mut bytes = msg.to_bytes();
    bytes.extend([9, 9, 9]);
    let msg2 = Message::from_bytes(&bytes).unwrap();
    assert_eq!(msg2.digest, [1, 2, 3, 4]);
    assert_eq!(msg2.data, b"bye");
    assert_eq!(msg.clone().data, msg.data);
}

#[test]
fn test_write_to_stream_rejects_oversized_payload() {
    let data = vec![0xAB; MAX_PAYLOAD_SIZE + 1];
    let msg = Message::data(1, 1, data);

    let result = msg.to_cell();

    assert!(result.is_err());
    let err = result.unwrap_err();
    let expected_size = MAX_PAYLOAD_SIZE + 1;
    assert_eq!(
        err.to_string(),
        "Payload too large: 498 bytes (max 497)"
    );
    assert!(matches!(
        err,
        TorError::PayloadTooLarge { size, max }
            if size == expected_size && max == MAX_PAYLOAD_SIZE
    ));
}

#[test]
fn test_write_to_stream_async_roundtrip() {
    let msg = Message::data(7, 3, b"hello world".to_vec());

    let buf = msg.to_cell().unwrap();
    assert_eq!(buf.len(), CELL_SIZE);

    let msg2 = Message::from_bytes(&buf).unwrap();

    assert_eq!(msg.circuit_id, msg2.circuit_id);
    assert_eq!(msg.stream_id, msg2.stream_id);
    assert_eq!(msg.command, msg2.command);
    assert_eq!(msg.data, msg2.data);
}

#[test]
fn error_messages() {
    assert_eq!(
        TorError::DigestMismatch {
            circuit_id: 7,
            stream_id: 12
        }
        .to_string(),
        "Digest mismatch on circuit 7 stream 12"
    );
    assert_eq!(
        TorError::HandshakeAuthFailed.to_string(),
        "ntor handshake AUTH verification failed \u{2014} possible MITM"
    );
    assert_eq!(
        TorError::CertificateFingerprintMismatch {
            expected: "aa".to_string(),
            got: "bb".to_string()
        }
        .to_string(),
        "Certificate fingerprint mismatch: expected aa, got bb"
    );
    assert_eq!(
        TorError::ExitPolicy("port 25".to_string()).to_string(),
        "Exit policy violation: port 25"
    );
}
