use opcua_server::chunker::Chunker;
use opcua_server::encoding::UAString;
use opcua_server::message_handler::MessageHandler;
use opcua_server::message_chunk::{
    MessageChunk, MessageChunkType, SecurityHeader, SymmetricSecurityHeader,
};
use opcua_server::message_reader::{Message, MessageReader};
use opcua_server::message_writer::MessageWriter;
use opcua_server::secure_channel::SecureChannel;
use opcua_server::session::{PublishRequestEntry, PublishResponseEntry, Session};
use opcua_server::state::{ServerConfig, ServerState};
use opcua_server::status_code::StatusCode;
use opcua_server::supported_message::{
    CloseSecureChannelRequest, MessageSecurityMode, OpenSecureChannelRequest, RequestHeader,
    ResponseHeader, SecurityTokenRequestType, ServiceFault, ServiceMessage, SupportedMessage,
};
use opcua_server::tcp_transport::{
    is_intermediate_chunk, IpAddress, SocketAddress, SubscriptionEvent, TcpTransport,
    TransportState,
};
use opcua_server::tcp_types::{ErrorMessage, HelloMessage, MessageIsFinalType};

const READ_REQUEST: u32 = 631;
const READ_RESPONSE: u32 = 634;
const PUBLISH_RESPONSE: u32 = 829;

fn address() -> SocketAddress {
    SocketAddress { ip: IpAddress::V4(0x7f00_0001), port: 50000 }
}

fn new_transport() -> TcpTransport {
    TcpTransport::new(ServerState::new(ServerConfig::new()), Session::new())
}

fn hello() -> HelloMessage {
    HelloMessage {
        protocol_version: 0,
        receive_buffer_size: 65536,
        send_buffer_size: 65536,
        max_message_size: 65536,
        max_chunk_count: 5,
        endpoint_url: UAString::from_bytes(b"opc.tcp://h:4855".to_vec()),
    }
}

fn header(handle: u32) -> RequestHeader {
    RequestHeader { timestamp: 0, request_handle: handle, return_diagnostics: 0, timeout_hint: 0 }
}

fn open_request() -> SupportedMessage {
    SupportedMessage::OpenSecureChannelRequest(OpenSecureChannelRequest {
        request_header: header(1),
        client_protocol_version: 0,
        request_type: SecurityTokenRequestType::Issue,
        security_mode: MessageSecurityMode::NoSecurity,
        client_nonce: UAString::null(),
        requested_lifetime: 60_000,
    })
}

fn service(type_id: u32, body: &[u8]) -> SupportedMessage {
    SupportedMessage::Service(ServiceMessage { type_id, body: body.to_vec() })
}

fn one_chunk(
    sequence_number: u32,
    request_id: u32,
    message: &SupportedMessage,
    channel: &SecureChannel,
) -> Message {
    let mut chunks = Chunker::encode(sequence_number, request_id, message, channel, 0).unwrap();
    assert_eq!(chunks.len(), 1);
    Message::MessageChunk(chunks.remove(0))
}

/// A transport behind HELLO and OPN, and the channel as the client knows it.
fn connected() -> (TcpTransport, SecureChannel, Vec<(u32, SupportedMessage)>) {
    let mut transport = new_transport();
    transport.run_at(address(), 0);
    let mut sender = Vec::new();
    assert!(transport.dispatch(Message::Hello(hello()), 1, &mut sender).is_none());
    let opn = one_chunk(1, 100, &open_request(), &SecureChannel::new());
    assert!(transport.dispatch(opn, 2, &mut sender).is_none());
    assert_eq!(transport.state(), TransportState::ProcessMessages);
    assert_eq!(sender.len(), 2);
    let client = transport.secure_channel;
    sender.clear();
    (transport, client, sender)
}

#[test]
fn a_new_transport_waits_for_its_run() {
    let mut transport = new_transport();
    assert_eq!(transport.state(), TransportState::New);
    assert_eq!(transport.client_address(), None);
    assert!(!transport.is_finished());
    assert!(!transport.has_received_hello());
    assert!(!transport.is_session_terminated());
    assert!(!transport.is_server_abort());
    assert!(!transport.session().terminated());
    transport.run_at(address(), 77);
    assert_eq!(transport.state(), TransportState::WaitingHello);
    assert_eq!(transport.client_address(), Some(address()));
    assert_eq!(transport.session_start_time, 77);
    // Running again takes nothing back.
    let mut sender = Vec::new();
    transport.dispatch(Message::Hello(hello()), 78, &mut sender);
    transport.run_at(SocketAddress { ip: IpAddress::V6(1), port: 1 }, 99);
    assert_eq!(transport.state(), TransportState::ProcessMessages);
    assert_eq!(transport.client_address(), Some(address()));
    assert_eq!(transport.session_start_time, 77);
}

#[test]
fn run_reads_the_clock() {
    let mut transport = new_transport();
    transport.run(address());
    assert_eq!(transport.state(), TransportState::WaitingHello);
    // Later than the first of January 2020, in milliseconds.
    assert!(transport.session_start_time > 1_577_836_800_000);
    // The HELLO has five seconds, and they have only begun.
    transport.hello_timeout_tick();
    assert_eq!(transport.state(), TransportState::WaitingHello);
    transport.session_start_time -= 5_001;
    transport.hello_timeout_tick();
    assert_eq!(transport.state(), TransportState::Finished(StatusCode::BadTimeout));
}

#[test]
fn a_message_to_a_transport_that_never_ran_is_unexpected() {
    let mut transport = new_transport();
    let mut sender = Vec::new();
    assert!(transport.dispatch(Message::Hello(hello()), 1, &mut sender).is_none());
    assert_eq!(transport.state(), TransportState::Finished(StatusCode::BadUnexpectedError));
    assert!(sender.is_empty());
}

#[test]
fn hello_timeout() {
    let mut transport = new_transport();
    transport.run_at(address(), 10_000);
    assert!(!transport.hello_timer_stops());
    transport.check_hello_timeout(14_999);
    transport.check_hello_timeout(15_000);
    assert_eq!(transport.state(), TransportState::WaitingHello);
    transport.check_hello_timeout(15_001);
    assert_eq!(transport.state(), TransportState::Finished(StatusCode::BadTimeout));
    assert!(transport.is_session_terminated());
    assert!(transport.hello_timer_stops());
    assert_eq!(
        transport.final_error(),
        Some(ErrorMessage { error: 0x800A_0000, reason: UAString::null() })
    );
}

#[test]
fn no_hello_timeout_once_the_hello_is_there() {
    let mut transport = new_transport();
    transport.run_at(address(), 10_000);
    let mut sender = Vec::new();
    transport.dispatch(Message::Hello(hello()), 10_001, &mut sender);
    assert!(transport.hello_timer_stops());
    transport.check_hello_timeout(1_000_000);
    assert_eq!(transport.state(), TransportState::ProcessMessages);
    assert_eq!(transport.final_error(), None);
}

#[test]
fn unknown_first_message() {
    let mut transport = new_transport();
    transport.run_at(address(), 0);
    let mut sender = Vec::new();
    let msg = one_chunk(1, 1, &service(READ_REQUEST, &[1, 2, 3]), &SecureChannel::new());
    assert!(transport.dispatch(msg, 1, &mut sender).is_none());
    assert_eq!(transport.state(), TransportState::Finished(StatusCode::BadCommunicationError));
    assert!(sender.is_empty());
    assert_eq!(transport.last_received_sequence_number, 0);
    assert!(!transport.secure_channel.is_open());
}

#[test]
fn a_second_hello_is_a_communication_error() {
    let (mut transport, _, mut sender) = connected();
    assert!(transport.dispatch(Message::Hello(hello()), 5, &mut sender).is_none());
    assert_eq!(transport.state(), TransportState::Finished(StatusCode::BadCommunicationError));
    assert!(sender.is_empty());
}

#[test]
fn a_hello_with_a_bad_url_ends_the_connection() {
    let mut transport = new_transport();
    transport.run_at(address(), 0);
    let mut sender = Vec::new();
    let mut bad = hello();
    bad.endpoint_url = UAString::from_bytes(b"http://h".to_vec());
    transport.dispatch(Message::Hello(bad), 1, &mut sender);
    assert_eq!(transport.state(), TransportState::Finished(StatusCode::BadTcpEndpointUrlInvalid));
    assert!(sender.is_empty());
}

#[test]
fn opn_then_clo() {
    let mut transport = new_transport();
    transport.run_at(address(), 0);
    let mut sender = Vec::new();
    let mut writer = MessageWriter::new(65536);
    transport.dispatch(Message::Hello(hello()), 1, &mut sender);
    let (request_id, ack) = sender.remove(0);
    assert!(transport.accept_outbound(&ack));
    transport.write_outbound(request_id, ack, &mut writer);
    assert_eq!(writer.bytes_to_write().len(), 28);
    assert!(transport.write_completed(true));

    let opn = one_chunk(1, 100, &open_request(), &SecureChannel::new());
    assert!(transport.dispatch(opn, 2, &mut sender).is_none());
    assert!(transport.read_completed());
    assert_eq!(transport.secure_channel.secure_channel_id, 1);
    assert_eq!(transport.secure_channel.token_id, 1);
    assert_eq!(transport.last_received_sequence_number, 1);
    let (request_id, response) = sender.remove(0);
    assert_eq!(request_id, 100);
    match &response {
        SupportedMessage::OpenSecureChannelResponse(response) => {
            assert_eq!(response.security_token.channel_id, 1);
            assert_eq!(response.security_token.token_id, 1);
            assert_eq!(response.response_header.request_handle, 1);
        }
        other => panic!("expected an open response, got {:?}", other),
    }
    assert!(transport.accept_outbound(&response));
    transport.write_outbound(request_id, response.clone(), &mut writer);
    let bytes = writer.bytes_to_write();
    assert_eq!(&bytes[0..4], b"OPNF");
    let sent = vec![MessageChunk { data: bytes }];
    assert_eq!(Chunker::decode(&sent, None), Ok(response));
    assert_eq!(sent[0].chunk_info().unwrap().sequence_header.sequence_number, 1);
    assert!(transport.write_completed(true));

    let client = transport.secure_channel;
    let close = SupportedMessage::CloseSecureChannelRequest(CloseSecureChannelRequest {
        request_header: header(9),
    });
    let clo = one_chunk(2, 101, &close, &client);
    assert!(transport.dispatch(clo, 3, &mut sender).is_none());
    // The connection stays up until the answer is on the wire.
    assert!(transport.read_completed());
    let (request_id, response) = sender.remove(0);
    assert_eq!(request_id, 101);
    assert_eq!(
        response,
        SupportedMessage::ServiceFault(ServiceFault {
            response_header: ResponseHeader {
                timestamp: 116_444_736_000_030_000,
                request_handle: 9,
                service_result: StatusCode::BadSecureChannelClosed,
            },
        })
    );
    assert!(transport.accept_outbound(&response));
    transport.write_outbound(request_id, response, &mut writer);
    let bytes = writer.bytes_to_write();
    assert_eq!(&bytes[0..4], b"MSGF");
    let info = MessageChunk { data: bytes }.chunk_info().unwrap();
    assert_eq!(info.sequence_header.sequence_number, 2);
    assert_eq!(info.sequence_header.request_id, 101);
    assert!(!transport.write_completed(true));
    assert_eq!(transport.state(), TransportState::Finished(StatusCode::BadConnectionClosed));
    assert!(transport.is_session_terminated());
    assert!(!transport.read_completed());
}

#[test]
fn a_request_goes_to_the_handler_and_its_answer_to_the_write_channel() {
    let (mut transport, client, mut sender) = connected();
    let request = service(READ_REQUEST, &[1, 2, 3]);
    let handed = transport.dispatch(one_chunk(2, 7, &request, &client), 3, &mut sender);
    assert_eq!(handed, Some((7, request)));
    assert!(sender.is_empty());
    assert_eq!(transport.last_received_sequence_number, 2);
    let response = service(READ_RESPONSE, &[4, 5]);
    transport.handled(7, Ok(Some(response.clone())), &mut sender);
    assert_eq!(sender, vec![(7, response)]);
    assert_eq!(transport.state(), TransportState::ProcessMessages);
}

#[test]
fn a_handler_that_keeps_the_request_sends_nothing() {
    let (mut transport, _, mut sender) = connected();
    transport.handled(7, Ok(None), &mut sender);
    assert!(sender.is_empty());
    assert_eq!(transport.state(), TransportState::ProcessMessages);
}

#[test]
fn a_handler_that_fails_ends_the_connection() {
    let (mut transport, _, mut sender) = connected();
    transport.handled(7, Err(StatusCode::Good), &mut sender);
    assert_eq!(transport.state(), TransportState::ProcessMessages);
    transport.handled(7, Err(StatusCode::BadServiceUnsupported), &mut sender);
    assert_eq!(transport.state(), TransportState::Finished(StatusCode::BadServiceUnsupported));
    assert!(sender.is_empty());
    // A finished transport sends no answers.
    transport.handled(8, Ok(Some(service(READ_RESPONSE, &[]))), &mut sender);
    assert!(sender.is_empty());
}

#[test]
fn sequence_number_attack() {
    let (mut transport, client, mut sender) = connected();
    assert_eq!(transport.last_received_sequence_number, 1);
    let request = service(READ_REQUEST, &[1]);
    let handed = transport.dispatch(one_chunk(3, 7, &request, &client), 3, &mut sender);
    assert!(handed.is_none());
    assert_eq!(transport.state(), TransportState::Finished(StatusCode::BadSequenceNumberInvalid));
    assert!(sender.is_empty());
    assert_eq!(transport.last_received_sequence_number, 1);
}

#[test]
fn accepted_chunks_carry_consecutive_sequence_numbers() {
    let (mut transport, client, mut sender) = connected();
    transport.last_received_sequence_number = u32::MAX - 1;
    for sequence_number in [u32::MAX, 0, 1, 2] {
        let request = service(READ_REQUEST, &[1]);
        let chunk = match one_chunk(sequence_number, 7, &request, &client) {
            Message::MessageChunk(chunk) => chunk,
            other => panic!("expected a chunk, got {:?}", other),
        };
        let handed = transport.process_chunk(chunk, 3, &mut sender).unwrap();
        assert_eq!(handed, Some((7, request)));
        assert_eq!(transport.last_received_sequence_number, sequence_number);
    }
    // A repeated chunk is out of sequence and changes nothing.
    let chunk = match one_chunk(2, 7, &service(READ_REQUEST, &[1]), &client) {
        Message::MessageChunk(chunk) => chunk,
        other => panic!("expected a chunk, got {:?}", other),
    };
    let before = transport.secure_channel;
    assert_eq!(
        transport.process_chunk(chunk, 3, &mut sender),
        Err(StatusCode::BadSequenceNumberInvalid)
    );
    assert_eq!(transport.last_received_sequence_number, 2);
    assert_eq!(transport.secure_channel, before);
    assert_eq!(transport.state(), TransportState::ProcessMessages);
}

#[test]
fn a_chunk_of_another_channel_ends_the_connection() {
    let (mut transport, mut client, mut sender) = connected();
    client.secure_channel_id = 2;
    transport.dispatch(one_chunk(2, 7, &service(READ_REQUEST, &[1]), &client), 3, &mut sender);
    assert_eq!(transport.state(), TransportState::Finished(StatusCode::BadSecureChannelIdInvalid));
}

#[test]
fn a_chunk_under_an_unknown_token_ends_the_connection() {
    let (mut transport, mut client, mut sender) = connected();
    client.token_id = 2;
    transport.dispatch(one_chunk(2, 7, &service(READ_REQUEST, &[1]), &client), 3, &mut sender);
    assert_eq!(transport.state(), TransportState::Finished(StatusCode::BadSecurityChecksFailed));
}

#[test]
fn an_abandoned_chunk_is_dropped() {
    let (mut transport, client, mut sender) = connected();
    let security_header = SecurityHeader::Symmetric(SymmetricSecurityHeader { token_id: 1 });
    let chunk = MessageChunk::new(
        50,
        7,
        MessageChunkType::Message,
        MessageIsFinalType::FinalError,
        client.secure_channel_id,
        &security_header,
        &[1, 2, 3],
    )
    .unwrap();
    assert_eq!(transport.process_chunk(chunk, 3, &mut sender), Ok(None));
    assert_eq!(transport.last_received_sequence_number, 1);
    assert!(sender.is_empty());
    assert_eq!(transport.state(), TransportState::ProcessMessages);
}

#[test]
fn an_intermediate_chunk_is_told_apart() {
    let channel = SecureChannel::new();
    let chunks = Chunker::encode(2, 7, &service(READ_REQUEST, &[0; 40]), &channel, 40).unwrap();
    assert_eq!(chunks.len(), 3);
    assert!(is_intermediate_chunk(&Message::MessageChunk(chunks[0].clone())));
    assert!(is_intermediate_chunk(&Message::MessageChunk(chunks[1].clone())));
    assert!(!is_intermediate_chunk(&Message::MessageChunk(chunks[2].clone())));
    assert!(!is_intermediate_chunk(&Message::Hello(hello())));
    assert!(!is_intermediate_chunk(&Message::MessageChunk(MessageChunk { data: vec![1, 2] })));
}

#[test]
fn a_broken_chunk_ends_the_connection_with_a_decoding_error() {
    let (mut transport, _, mut sender) = connected();
    let chunk = Message::MessageChunk(MessageChunk { data: b"MSGF\x0c\x00\x00\x00abcd".to_vec() });
    transport.dispatch(chunk, 3, &mut sender);
    assert_eq!(transport.state(), TransportState::Finished(StatusCode::BadDecodingError));
}

#[test]
fn an_open_request_under_another_policy_is_rejected() {
    let mut transport = new_transport();
    transport.run_at(address(), 0);
    let mut sender = Vec::new();
    transport.dispatch(Message::Hello(hello()), 1, &mut sender);
    sender.clear();
    let mut request = match open_request() {
        SupportedMessage::OpenSecureChannelRequest(request) => request,
        other => panic!("expected an open request, got {:?}", other),
    };
    request.security_mode = MessageSecurityMode::Sign;
    let opn = one_chunk(
        1,
        100,
        &SupportedMessage::OpenSecureChannelRequest(request),
        &SecureChannel::new(),
    );
    transport.dispatch(opn, 2, &mut sender);
    assert_eq!(transport.state(), TransportState::Finished(StatusCode::BadSecurityModeRejected));
    assert!(sender.is_empty());
    assert!(!transport.secure_channel.is_open());
    assert_eq!(transport.secure_channel_service.last_token_id, 0);
    assert_eq!(transport.last_received_sequence_number, 0);
}

#[test]
fn finish_is_idempotent() {
    let mut transport = new_transport();
    transport.finish(StatusCode::BadTimeout);
    assert_eq!(transport.state(), TransportState::Finished(StatusCode::BadTimeout));
    assert!(transport.is_finished());
    assert!(transport.is_session_terminated());
    transport.finish(StatusCode::BadCommunicationError);
    assert_eq!(transport.state(), TransportState::Finished(StatusCode::BadTimeout));
    transport.finish_if_bad(StatusCode::BadDecodingError);
    assert_eq!(transport.state(), TransportState::Finished(StatusCode::BadTimeout));
}

#[test]
fn a_finished_transport_is_silent() {
    let (mut transport, client, mut sender) = connected();
    let mut reader = MessageReader::new(65536, 65536);
    let mut writer = MessageWriter::new(65536);
    transport.finish(StatusCode::BadTimeout);

    let request = service(READ_REQUEST, &[1]);
    assert!(transport.dispatch(one_chunk(2, 7, &request, &client), 3, &mut sender).is_none());
    assert!(sender.is_empty());
    assert_eq!(transport.last_received_sequence_number, 1);

    let mut wire = Vec::new();
    hello().encode(&mut wire).unwrap();
    assert!(transport.receive(&mut reader, &wire).is_empty());
    assert!(reader.buffer.is_empty());

    let response = service(READ_RESPONSE, &[4, 5]);
    assert!(!transport.accept_outbound(&response));
    transport.write_outbound(7, response.clone(), &mut writer);
    assert!(writer.buffer.is_empty());
    assert_eq!(writer.last_sent_sequence_number, 0);
    assert!(!transport.write_completed(true));
    assert!(!transport.read_completed());

    transport.session.subscriptions.enqueue_publish_response(PublishResponseEntry {
        request_id: 1,
        response: response.clone(),
    });
    assert!(!transport.begin_subscription_tick(5));
    assert_eq!(transport.end_subscription_tick(), None);
    let event = SubscriptionEvent::PublishResponses(vec![PublishResponseEntry {
        request_id: 1,
        response,
    }]);
    transport.receive_subscription_event(event, &mut sender);
    assert!(sender.is_empty());
    assert_eq!(transport.state(), TransportState::Finished(StatusCode::BadTimeout));
}

#[test]
fn the_write_loop_ends_the_connection_on_invalid_messages_and_abort() {
    let (mut transport, _, _) = connected();
    assert!(!transport.accept_outbound(&SupportedMessage::Invalid(3)));
    assert_eq!(transport.state(), TransportState::Finished(StatusCode::BadCommunicationError));

    let (mut transport, _, _) = connected();
    transport.server_state.abort();
    assert!(transport.is_server_abort());
    assert!(!transport.accept_outbound(&service(READ_RESPONSE, &[])));
    assert_eq!(transport.state(), TransportState::Finished(StatusCode::BadCommunicationError));

    let (mut transport, _, _) = connected();
    assert!(transport.accept_outbound(&service(READ_RESPONSE, &[])));
    assert!(!transport.write_completed(false));
    assert_eq!(transport.state(), TransportState::Finished(StatusCode::BadCommunicationError));

    // A message that the framer cannot write.
    let (mut transport, _, _) = connected();
    let mut writer = MessageWriter::new(65536);
    writer.last_sent_sequence_number = u32::MAX;
    transport.write_outbound(1, service(READ_RESPONSE, &[]), &mut writer);
    assert_eq!(transport.state(), TransportState::Finished(StatusCode::BadCommunicationError));
    assert!(writer.buffer.is_empty());
}

#[test]
fn the_read_loop_ends_the_connection_on_abort_and_bad_frames() {
    let mut reader = MessageReader::new(65536, 8192);
    let (mut transport, _, _) = connected();
    transport.server_state.abort();
    let mut wire = Vec::new();
    hello().encode(&mut wire).unwrap();
    assert!(transport.receive(&mut reader, &wire).is_empty());
    assert_eq!(transport.state(), TransportState::Finished(StatusCode::BadCommunicationError));
    assert!(reader.buffer.is_empty());

    let (mut transport, _, _) = connected();
    let mut too_large = b"MSGF".to_vec();
    too_large.extend_from_slice(&8193u32.to_le_bytes());
    assert!(transport.receive(&mut reader, &too_large).is_empty());
    assert_eq!(transport.state(), TransportState::Finished(StatusCode::BadTcpMessageTooLarge));
    assert_eq!(
        transport.final_error(),
        Some(ErrorMessage { error: 0x8080_0000, reason: UAString::null() })
    );

    let (mut transport, _, _) = connected();
    transport.read_failed();
    assert_eq!(transport.state(), TransportState::Finished(StatusCode::BadCommunicationError));

    let (mut transport, _, _) = connected();
    transport.session.terminate_session = true;
    assert!(!transport.read_completed());
    assert_eq!(transport.state(), TransportState::Finished(StatusCode::BadConnectionClosed));
}

#[test]
fn publish_interleaving() {
    let (mut transport, client, mut sender) = connected();
    let mut writer = MessageWriter::new(65536);
    writer.last_sent_sequence_number = 1;
    let publish = |n: u8| service(PUBLISH_RESPONSE, &[n]);

    // The first publish response is due.
    transport.session.subscriptions.enqueue_publish_response(PublishResponseEntry {
        request_id: 20,
        response: publish(1),
    });
    assert!(transport.begin_subscription_tick(2_000));
    let event = transport.end_subscription_tick().unwrap();
    transport.receive_subscription_event(event, &mut sender);
    // A read request arrives between two publishes.
    let request = service(READ_REQUEST, &[1]);
    let handed = transport.dispatch(one_chunk(2, 21, &request, &client), 2_500, &mut sender);
    let (request_id, request) = handed.unwrap();
    transport.handled(request_id, Ok(Some(service(READ_RESPONSE, &[request.is_invalid() as u8]))), &mut sender);
    // The second publish response is due.
    assert!(transport.begin_subscription_tick(4_000));
    assert_eq!(transport.end_subscription_tick(), None);
    transport.session.subscriptions.enqueue_publish_response(PublishResponseEntry {
        request_id: 22,
        response: publish(2),
    });
    let event = transport.end_subscription_tick().unwrap();
    transport.receive_subscription_event(event, &mut sender);

    let order: Vec<u32> = sender.iter().map(|entry| entry.0).collect();
    assert_eq!(order, vec![20, 21, 22]);
    let mut wire = Vec::new();
    for (request_id, response) in sender.drain(..) {
        assert!(transport.accept_outbound(&response));
        transport.write_outbound(request_id, response, &mut writer);
        wire.extend_from_slice(&writer.bytes_to_write());
        assert!(transport.write_completed(true));
    }
    let mut reader = MessageReader::new(65536, 65536);
    let frames = reader.store_bytes(&wire).unwrap();
    let mut seen = Vec::new();
    for frame in frames {
        match frame {
            Message::MessageChunk(chunk) => {
                let info = chunk.chunk_info().unwrap();
                let message = Chunker::decode(&vec![chunk], None).unwrap();
                let type_id = match message {
                    SupportedMessage::Service(message) => message.type_id,
                    other => panic!("expected a service message, got {:?}", other),
                };
                seen.push((
                    type_id,
                    info.sequence_header.request_id,
                    info.sequence_header.sequence_number,
                ));
            }
            other => panic!("expected a chunk, got {:?}", other),
        }
    }
    assert_eq!(
        seen,
        vec![(PUBLISH_RESPONSE, 20, 2), (READ_RESPONSE, 21, 3), (PUBLISH_RESPONSE, 22, 4)]
    );
}

#[test]
fn the_subscription_pump_keeps_the_order_of_an_event() {
    let (mut transport, _, mut sender) = connected();
    sender.push((1, service(READ_RESPONSE, &[])));
    for n in 0..4u8 {
        transport.session.subscriptions.enqueue_publish_response(PublishResponseEntry {
            request_id: 30 + n as u32,
            response: service(PUBLISH_RESPONSE, &[n]),
        });
    }
    let event = transport.end_subscription_tick().unwrap();
    assert!(transport.session.subscriptions.publish_responses.is_empty());
    transport.receive_subscription_event(event, &mut sender);
    let order: Vec<u32> = sender.iter().map(|entry| entry.0).collect();
    assert_eq!(order, vec![1, 30, 31, 32, 33]);
    assert_eq!(sender[4].1, service(PUBLISH_RESPONSE, &[3]));
}

#[test]
fn a_subscription_tick_answers_stale_publish_requests() {
    let (mut transport, _, mut sender) = connected();
    for (request_id, expires_at) in [(40u32, 100i64), (41, 300), (42, 200), (43, 199)] {
        transport.session.hold_publish_request(PublishRequestEntry {
            request_id,
            request_handle: request_id + 1000,
            expires_at,
        });
    }
    assert!(transport.begin_subscription_tick(200));
    let left: Vec<u32> =
        transport.session.publish_request_queue.iter().map(|entry| entry.request_id).collect();
    assert_eq!(left, vec![41, 42]);
    let event = transport.end_subscription_tick().unwrap();
    transport.receive_subscription_event(event, &mut sender);
    let fault = |handle: u32| {
        SupportedMessage::ServiceFault(ServiceFault {
            response_header: ResponseHeader {
                timestamp: 116_444_736_002_000_000,
                request_handle: handle,
                service_result: StatusCode::BadTimeout,
            },
        })
    };
    assert_eq!(sender, vec![(40, fault(1040)), (43, fault(1043))]);
}

/// Answers read requests with their body turned round, keeps publish
/// requests, and fails on everything else.
struct Handler {
    seen: Vec<u32>,
}

impl MessageHandler for Handler {
    fn handle_message(
        &mut self,
        session: &mut Session,
        request_id: u32,
        request: SupportedMessage,
    ) -> Result<Option<SupportedMessage>, StatusCode> {
        self.seen.push(request_id);
        match request {
            SupportedMessage::Service(message) if message.type_id == READ_REQUEST => {
                let mut body = message.body;
                body.reverse();
                Ok(Some(service(READ_RESPONSE, &body)))
            }
            SupportedMessage::Service(message) if message.type_id == 826 => {
                session.hold_publish_request(PublishRequestEntry {
                    request_id,
                    request_handle: 1,
                    expires_at: 10_000,
                });
                Ok(None)
            }
            _ => Err(StatusCode::BadServiceUnsupported),
        }
    }
}

#[test]
fn the_messages_of_one_read_are_handled_in_order() {
    let mut transport = new_transport();
    transport.run_at(address(), 0);
    let mut handler = Handler { seen: Vec::new() };
    let mut sender = Vec::new();
    let mut client = SecureChannel::new();
    client.secure_channel_id = 1;
    client.token_id = 1;
    let messages = vec![
        Message::Hello(hello()),
        one_chunk(1, 100, &open_request(), &SecureChannel::new()),
        one_chunk(2, 101, &service(READ_REQUEST, &[1, 2, 3]), &client),
        one_chunk(3, 102, &service(826, &[]), &client),
        one_chunk(4, 103, &service(READ_REQUEST, &[4, 5]), &client),
    ];
    let stopped = transport.process_messages(messages, 5, &mut handler, &mut sender);
    assert_eq!(stopped, None);
    assert_eq!(transport.state(), TransportState::ProcessMessages);
    assert_eq!(handler.seen, vec![101, 102, 103]);
    let order: Vec<u32> = sender.iter().map(|entry| entry.0).collect();
    assert_eq!(order, vec![0, 100, 101, 103]);
    assert_eq!(sender[2].1, service(READ_RESPONSE, &[3, 2, 1]));
    assert_eq!(sender[3].1, service(READ_RESPONSE, &[5, 4]));
    assert_eq!(transport.session.publish_request_queue.len(), 1);
    assert_eq!(transport.last_received_sequence_number, 4);
}

#[test]
fn nothing_is_handled_behind_an_error() {
    let (mut transport, client, mut sender) = connected();
    let mut handler = Handler { seen: Vec::new() };
    let messages = vec![
        one_chunk(2, 101, &service(READ_REQUEST, &[1]), &client),
        one_chunk(3, 102, &service(999, &[]), &client),
        one_chunk(4, 103, &service(READ_REQUEST, &[2]), &client),
    ];
    let stopped = transport.process_messages(messages, 5, &mut handler, &mut sender);
    assert_eq!(stopped, None);
    assert_eq!(transport.state(), TransportState::Finished(StatusCode::BadServiceUnsupported));
    assert_eq!(handler.seen, vec![101, 102]);
    assert_eq!(sender, vec![(101, service(READ_RESPONSE, &[1]))]);
    assert_eq!(transport.last_received_sequence_number, 3);
}

#[test]
fn an_intermediate_chunk_stops_the_processing() {
    let (mut transport, client, mut sender) = connected();
    let mut handler = Handler { seen: Vec::new() };
    let mut parts =
        Chunker::encode(3, 102, &service(READ_REQUEST, &[0; 40]), &client, 40).unwrap();
    let first = Message::MessageChunk(parts.remove(0));
    let messages = vec![
        one_chunk(2, 101, &service(READ_REQUEST, &[1]), &client),
        first.clone(),
        one_chunk(4, 103, &service(READ_REQUEST, &[2]), &client),
    ];
    let stopped = transport.process_messages(messages, 5, &mut handler, &mut sender);
    assert_eq!(stopped, Some(first.clone()));
    assert_eq!(handler.seen, vec![101]);
    assert_eq!(sender.len(), 1);
    assert_eq!(transport.state(), TransportState::ProcessMessages);

    // Before the HELLO such a chunk is a message like any other that is no HELLO.
    let mut transport = new_transport();
    transport.run_at(address(), 0);
    let stopped = transport.process_messages(vec![first], 5, &mut handler, &mut sender);
    assert_eq!(stopped, None);
    assert_eq!(transport.state(), TransportState::Finished(StatusCode::BadCommunicationError));
}
