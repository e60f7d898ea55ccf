use opcua_server::encoding::UAString;
use opcua_server::message_reader::{Message, MessageReader};
use opcua_server::message_writer::MessageWriter;
use opcua_server::status_code::StatusCode;
use opcua_server::tcp_types::{
    AcknowledgeMessage, ErrorMessage, HelloMessage, MessageHeader, MessageIsFinalType, MessageType,
};

fn sample_hello() -> HelloMessage {
    HelloMessage {
        protocol_version: 0,
        receive_buffer_size: 65536,
        send_buffer_size: 65536,
        max_message_size: 65536,
        max_chunk_count: 5,
        endpoint_url: UAString::from_bytes(b"opc.tcp://h:4855".to_vec()),
    }
}

fn frame(code: &[u8; 4], size: u32, body_len: usize) -> Vec<u8> {
    let mut bytes = code.to_vec();
    bytes.extend_from_slice(&size.to_le_bytes());
    bytes.resize(8 + body_len, 0);
    bytes
}

#[test]
fn header_encodes_to_eight_bytes() {
    let header = MessageHeader {
        message_type: MessageType::Message,
        is_final: MessageIsFinalType::Intermediate,
        message_size: 0x0102_0304,
    };
    let mut wire = Vec::new();
    header.encode(&mut wire);
    assert_eq!(wire, vec![b'M', b'S', b'G', b'C', 4, 3, 2, 1]);
    assert_eq!(MessageHeader::decode(&wire, 0), Ok(header));
}

#[test]
fn header_decode_reports_what_is_wrong() {
    assert_eq!(
        MessageHeader::decode(b"XYZF\x08\x00\x00\x00", 0),
        Err(StatusCode::BadTcpMessageTypeInvalid)
    );
    assert_eq!(
        MessageHeader::decode(b"MSGX\x08\x00\x00\x00", 0),
        Err(StatusCode::BadDecodingError)
    );
    assert_eq!(
        MessageHeader::decode(b"MSGF\x07\x00\x00\x00", 0),
        Err(StatusCode::BadDecodingError)
    );
    assert_eq!(MessageHeader::decode(b"MSGF\x08\x00\x00", 0), Err(StatusCode::BadDecodingError));
    assert_eq!(
        MessageHeader::decode(b"ERRA\x08\x00\x00\x00", 0),
        Ok(MessageHeader {
            message_type: MessageType::Error,
            is_final: MessageIsFinalType::FinalError,
            message_size: 8,
        })
    );
}

#[test]
fn hello_round_trip_through_the_reader() {
    let hello = sample_hello();
    let mut wire = Vec::new();
    assert_eq!(hello.encode(&mut wire), Ok(48));
    let mut reader = MessageReader::new(65536, 65536);
    let messages = reader.store_bytes(&wire).unwrap();
    assert_eq!(messages, vec![Message::Hello(hello)]);
    assert!(reader.buffer.is_empty());
}

#[test]
fn hello_with_null_url_round_trips() {
    let mut hello = sample_hello();
    hello.endpoint_url = UAString::null();
    let mut wire = Vec::new();
    assert_eq!(hello.encode(&mut wire), Ok(32));
    assert_eq!(&wire[28..32], &(-1i32).to_le_bytes());
    assert_eq!(HelloMessage::decode(&wire, 8), Ok((hello, 32)));
}

#[test]
fn acknowledge_round_trip() {
    let ack = AcknowledgeMessage {
        protocol_version: 0,
        receive_buffer_size: 8192,
        send_buffer_size: 16384,
        max_message_size: 1 << 20,
        max_chunk_count: 7,
    };
    let mut wire = Vec::new();
    assert_eq!(ack.encode(&mut wire), 28);
    assert_eq!(ack.byte_len(), 28);
    assert_eq!(AcknowledgeMessage::decode(&wire, 8), Ok(ack));
    assert_eq!(AcknowledgeMessage::decode(&wire[..27], 8), Err(StatusCode::BadDecodingError));
    let mut reader = MessageReader::new(65536, 65536);
    assert_eq!(reader.store_bytes(&wire), Ok(vec![Message::Acknowledge(ack)]));
}

#[test]
fn error_message_round_trip() {
    let error = ErrorMessage::from_status_code(
        StatusCode::BadTimeout,
        UAString::from_bytes(b"too late".to_vec()),
    );
    assert_eq!(error.error, 0x800A_0000);
    let mut wire = Vec::new();
    assert_eq!(error.encode(&mut wire), Ok(24));
    assert_eq!(&wire[0..4], b"ERRF");
    assert_eq!(&wire[8..12], &0x800A_0000u32.to_le_bytes());
    let mut reader = MessageReader::new(65536, 65536);
    assert_eq!(reader.store_bytes(&wire), Ok(vec![Message::Error(error)]));
}

#[test]
fn reader_waits_for_the_whole_message() {
    let mut wire = Vec::new();
    sample_hello().encode(&mut wire).unwrap();
    let mut reader = MessageReader::new(65536, 65536);
    assert_eq!(reader.store_bytes(&wire[..5]), Ok(vec![]));
    assert_eq!(reader.buffer.len(), 5);
    assert_eq!(reader.store_bytes(&wire[5..47]), Ok(vec![]));
    assert_eq!(reader.buffer.len(), 47);
    assert_eq!(reader.store_bytes(&wire[47..]), Ok(vec![Message::Hello(sample_hello())]));
    assert!(reader.buffer.is_empty());
}

#[test]
fn reader_hands_out_messages_in_order_and_keeps_the_rest() {
    let mut wire = Vec::new();
    sample_hello().encode(&mut wire).unwrap();
    let first_chunk = frame(b"MSGF", 30, 22);
    let second_chunk = frame(b"CLOF", 40, 32);
    wire.extend_from_slice(&first_chunk);
    wire.extend_from_slice(&second_chunk[..10]);
    let mut reader = MessageReader::new(65536, 65536);
    let messages = reader.store_bytes(&wire).unwrap();
    assert_eq!(messages.len(), 2);
    assert_eq!(messages[0], Message::Hello(sample_hello()));
    match &messages[1] {
        Message::MessageChunk(chunk) => assert_eq!(chunk.data, first_chunk),
        other => panic!("expected a chunk, got {:?}", other),
    }
    assert_eq!(reader.buffer, second_chunk[..10].to_vec());
    let messages = reader.store_bytes(&second_chunk[10..]).unwrap();
    match &messages[..] {
        [Message::MessageChunk(chunk)] => assert_eq!(chunk.data, second_chunk),
        other => panic!("expected one chunk, got {:?}", other),
    }
}

#[test]
fn message_larger_than_the_maximum_is_too_large() {
    let mut reader = MessageReader::new(65536, 8192);
    let header_only = frame(b"MSGF", 8193, 0);
    assert_eq!(reader.store_bytes(&header_only), Err(StatusCode::BadTcpMessageTooLarge));
    assert!(reader.buffer.is_empty());
    let mut reader = MessageReader::new(65536, 8192);
    assert_eq!(reader.store_bytes(&frame(b"MSGF", 8192, 0)), Ok(vec![]));
    assert_eq!(reader.buffer.len(), 8);
}

#[test]
fn message_larger_than_the_receive_buffer_is_too_large() {
    let mut reader = MessageReader::new(100, 65536);
    assert_eq!(reader.store_bytes(&frame(b"OPNF", 101, 0)), Err(StatusCode::BadTcpMessageTooLarge));
}

#[test]
fn unknown_message_type_is_invalid() {
    let mut reader = MessageReader::new(65536, 65536);
    assert_eq!(
        reader.store_bytes(&frame(b"ABCF", 8, 0)),
        Err(StatusCode::BadTcpMessageTypeInvalid)
    );
}

#[test]
fn malformed_messages_are_decoding_errors() {
    let mut reader = MessageReader::new(65536, 65536);
    assert_eq!(reader.store_bytes(&frame(b"MSGF", 3, 0)), Err(StatusCode::BadDecodingError));
    let mut reader = MessageReader::new(65536, 65536);
    assert_eq!(reader.store_bytes(&frame(b"HELF", 20, 12)), Err(StatusCode::BadDecodingError));
    let mut reader = MessageReader::new(65536, 65536);
    assert_eq!(reader.store_bytes(&frame(b"ACKF", 27, 19)), Err(StatusCode::BadDecodingError));
    let mut reader = MessageReader::new(65536, 65536);
    assert_eq!(reader.store_bytes(&frame(b"ERRF", 10, 2)), Err(StatusCode::BadDecodingError));
}

#[test]
fn an_error_discards_earlier_messages_of_the_same_read() {
    let mut wire = Vec::new();
    sample_hello().encode(&mut wire).unwrap();
    wire.extend_from_slice(&frame(b"???F", 8, 0));
    let mut reader = MessageReader::new(65536, 65536);
    assert_eq!(reader.store_bytes(&wire), Err(StatusCode::BadTcpMessageTypeInvalid));
    assert!(reader.buffer.is_empty());
}

#[test]
fn writer_puts_acks_and_errors_on_the_wire_as_they_are() {
    let ack = AcknowledgeMessage {
        protocol_version: 0,
        receive_buffer_size: 65536,
        send_buffer_size: 65536,
        max_message_size: 65536,
        max_chunk_count: 5,
    };
    let mut writer = MessageWriter::new(65536);
    assert_eq!(writer.write_ack(&ack), 28);
    let error = ErrorMessage::from_status_code(StatusCode::BadTimeout, UAString::null());
    assert_eq!(writer.write_error(&error), Ok(16));
    assert_eq!(writer.last_sent_sequence_number, 0);
    let bytes = writer.bytes_to_write();
    assert_eq!(bytes.len(), 44);
    assert_eq!(&bytes[0..4], b"ACKF");
    assert_eq!(&bytes[28..32], b"ERRF");
    assert_eq!(&bytes[36..40], &0x800A_0000u32.to_le_bytes());
    assert_eq!(&bytes[40..44], &(-1i32).to_le_bytes());
    assert!(writer.bytes_to_write().is_empty());
}

#[test]
fn endpoint_url_validity() {
    let mut hello = sample_hello();
    assert!(hello.is_endpoint_url_valid());
    hello.endpoint_url = UAString::null();
    assert!(!hello.is_endpoint_url_valid());
    hello.endpoint_url = UAString::from_bytes(b"http://h:4855".to_vec());
    assert!(!hello.is_endpoint_url_valid());
    hello.endpoint_url = UAString::from_bytes(b"opc.tcp:/".to_vec());
    assert!(!hello.is_endpoint_url_valid());
    hello.endpoint_url = UAString::from_bytes(b"opc.tcp://".to_vec());
    assert!(hello.is_endpoint_url_valid());
    let mut long = b"opc.tcp://".to_vec();
    long.resize(4096, b'a');
    hello.endpoint_url = UAString::from_bytes(long.clone());
    assert!(hello.is_endpoint_url_valid());
    long.push(b'a');
    hello.endpoint_url = UAString::from_bytes(long);
    assert!(!hello.is_endpoint_url_valid());
}

#[test]
fn buffer_size_validity() {
    let mut hello = sample_hello();
    hello.receive_buffer_size = 8192;
    hello.send_buffer_size = 8192;
    assert!(hello.is_valid_buffer_sizes());
    hello.receive_buffer_size = 8191;
    assert!(!hello.is_valid_buffer_sizes());
    hello.receive_buffer_size = 8192;
    hello.send_buffer_size = 8191;
    assert!(!hello.is_valid_buffer_sizes());
}
