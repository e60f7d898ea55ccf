use opcua_server::encoding::UAString;
use opcua_server::message_reader::{Message, MessageReader};
use opcua_server::message_writer::MessageWriter;
use opcua_server::session::Session;
use opcua_server::state::{ServerConfig, ServerState};
use opcua_server::status_code::StatusCode;
use opcua_server::supported_message::SupportedMessage;
use opcua_server::tcp_transport::{IpAddress, SocketAddress, TcpTransport, TransportState};
use opcua_server::tcp_types::{AcknowledgeMessage, HelloMessage};

fn hello(version: u32, receive: u32, send: u32, url: &str) -> HelloMessage {
    HelloMessage {
        protocol_version: version,
        receive_buffer_size: receive,
        send_buffer_size: send,
        max_message_size: 65536,
        max_chunk_count: 5,
        endpoint_url: UAString::from_bytes(url.as_bytes().to_vec()),
    }
}

fn waiting_transport() -> TcpTransport {
    let mut transport = TcpTransport::new(ServerState::new(ServerConfig::new()), Session::new());
    transport.run_at(SocketAddress { ip: IpAddress::V4(0x7f00_0001), port: 50000 }, 1_000);
    transport
}

#[test]
fn handshake_happy_path() {
    let mut transport = waiting_transport();
    assert_eq!(transport.state(), TransportState::WaitingHello);

    let mut wire = Vec::new();
    let size = hello(0, 65536, 65536, "opc.tcp://h:4855").encode(&mut wire).unwrap();
    assert_eq!(size, 32 + "opc.tcp://h:4855".len());
    assert_eq!(&wire[0..4], b"HELF");
    assert_eq!(&wire[4..8], &(size as u32).to_le_bytes());

    let mut reader = MessageReader::new(65536, 65536);
    let mut messages = transport.receive(&mut reader, &wire);
    assert_eq!(messages.len(), 1);
    let mut sender = Vec::new();
    let request = transport.dispatch(messages.remove(0), 1_001, &mut sender);
    assert!(request.is_none());
    assert_eq!(transport.state(), TransportState::ProcessMessages);
    assert_eq!(sender.len(), 1);

    let (request_id, response) = sender.remove(0);
    assert_eq!(request_id, 0);
    let expected = AcknowledgeMessage {
        protocol_version: 0,
        receive_buffer_size: 65536,
        send_buffer_size: 65536,
        max_message_size: 65536,
        max_chunk_count: 5,
    };
    match &response {
        SupportedMessage::AcknowledgeMessage(ack) => assert_eq!(*ack, expected),
        other => panic!("expected an ACK, got {:?}", other),
    }

    assert!(transport.accept_outbound(&response));
    let mut writer = MessageWriter::new(65536);
    transport.write_outbound(request_id, response, &mut writer);
    let bytes = writer.bytes_to_write();
    assert_eq!(bytes.len(), 28);
    assert_eq!(&bytes[0..4], b"ACKF");
    assert_eq!(&bytes[4..8], &28u32.to_le_bytes());
    assert_eq!(&bytes[8..12], &0u32.to_le_bytes());
    assert_eq!(&bytes[12..16], &65536u32.to_le_bytes());
    assert_eq!(&bytes[16..20], &65536u32.to_le_bytes());
    assert_eq!(&bytes[20..24], &65536u32.to_le_bytes());
    assert_eq!(&bytes[24..28], &5u32.to_le_bytes());
    assert!(transport.write_completed(true));
}

#[test]
fn hello_with_protocol_version_one_is_unsupported() {
    let mut transport = waiting_transport();
    let mut sender = Vec::new();
    let result = transport.process_hello(hello(1, 65536, 65536, "opc.tcp://h:4855"), &mut sender);
    assert_eq!(result, Err(StatusCode::BadProtocolVersionUnsupported));
    assert!(sender.is_empty());
    assert_eq!(transport.state(), TransportState::WaitingHello);

    let request = transport.dispatch(
        Message::Hello(hello(1, 65536, 65536, "opc.tcp://h:4855")),
        1_001,
        &mut sender,
    );
    assert!(request.is_none());
    assert_eq!(
        transport.state(),
        TransportState::Finished(StatusCode::BadProtocolVersionUnsupported)
    );
    assert!(transport.is_session_terminated());
}

#[test]
fn hello_with_small_receive_buffer_is_a_communication_error() {
    let mut transport = waiting_transport();
    let mut sender = Vec::new();
    let result = transport.process_hello(hello(0, 8191, 65536, "opc.tcp://h:4855"), &mut sender);
    assert_eq!(result, Err(StatusCode::BadCommunicationError));
    let result = transport.process_hello(hello(0, 8192, 8192, "opc.tcp://h:4855"), &mut sender);
    assert_eq!(result, Ok(()));
}
