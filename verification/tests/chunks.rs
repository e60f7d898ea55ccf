use opcua_server::chunker::Chunker;
use opcua_server::encoding::UAString;
use opcua_server::message_chunk::{
    MessageChunk, MessageChunkType, SecurityHeader, SymmetricSecurityHeader,
};
use opcua_server::message_writer::MessageWriter;
use opcua_server::secure_channel::{none_policy_uri, SecureChannel};
use opcua_server::status_code::StatusCode;
use opcua_server::supported_message::{
    ChannelSecurityToken, CloseSecureChannelRequest, CloseSecureChannelResponse,
    MessageSecurityMode, OpenSecureChannelRequest, OpenSecureChannelResponse, RequestHeader,
    ResponseHeader, SecurityTokenRequestType, ServiceFault, ServiceMessage, SupportedMessage,
};
use opcua_server::tcp_types::{AcknowledgeMessage, MessageIsFinalType};

fn open_channel(channel_id: u32, token_id: u32) -> SecureChannel {
    let mut channel = SecureChannel::new();
    channel.secure_channel_id = channel_id;
    channel.token_id = token_id;
    channel
}

fn request_header() -> RequestHeader {
    RequestHeader { timestamp: 131_000_000_000_000_000, request_handle: 77, return_diagnostics: 3, timeout_hint: 5000 }
}

fn response_header(result: StatusCode) -> ResponseHeader {
    ResponseHeader { timestamp: -5, request_handle: 78, service_result: result }
}

fn service(type_id: u32, len: usize) -> SupportedMessage {
    SupportedMessage::Service(ServiceMessage {
        type_id,
        body: (0..len).map(|i| (i * 7 % 251) as u8).collect(),
    })
}

fn all_messages() -> Vec<SupportedMessage> {
    vec![
        SupportedMessage::OpenSecureChannelRequest(OpenSecureChannelRequest {
            request_header: request_header(),
            client_protocol_version: 0,
            request_type: SecurityTokenRequestType::Renew,
            security_mode: MessageSecurityMode::SignAndEncrypt,
            client_nonce: UAString::from_bytes(vec![1, 2, 3]),
            requested_lifetime: 60_000,
        }),
        SupportedMessage::OpenSecureChannelResponse(OpenSecureChannelResponse {
            response_header: response_header(StatusCode::Good),
            server_protocol_version: 0,
            security_token: ChannelSecurityToken {
                channel_id: 4,
                token_id: 9,
                created_at: 131_000_000_000_000_001,
                revised_lifetime: 30_000,
            },
            server_nonce: UAString::null(),
        }),
        SupportedMessage::CloseSecureChannelRequest(CloseSecureChannelRequest {
            request_header: request_header(),
        }),
        SupportedMessage::CloseSecureChannelResponse(CloseSecureChannelResponse {
            response_header: response_header(StatusCode::Good),
        }),
        SupportedMessage::ServiceFault(ServiceFault {
            response_header: response_header(StatusCode::BadServiceUnsupported),
        }),
        service(631, 20),
        service(200, 0),
        service(70_000, 5),
    ]
}

#[test]
fn decode_inverts_encode_for_every_kind_of_message() {
    let channel = open_channel(4, 9);
    for max_chunk_size in [0u32, 8192, 100, 80] {
        for message in all_messages() {
            let chunks = Chunker::encode(10, 3, &message, &channel, max_chunk_size).unwrap();
            assert_eq!(Chunker::decode(&chunks, None), Ok(message));
        }
    }
}

#[test]
fn a_service_body_is_cut_into_chunks_that_fit() {
    let channel = open_channel(4, 9);
    let message = service(631, 20);
    // Four bytes of node id and twenty of body behind 24 bytes of headers.
    let chunks = Chunker::encode(10, 3, &message, &channel, 32).unwrap();
    assert_eq!(chunks.len(), 3);
    for (i, chunk) in chunks.iter().enumerate() {
        let info = chunk.chunk_info().unwrap();
        assert_eq!(chunk.data.len(), 32);
        assert_eq!(info.message_header.message_size, 32);
        assert_eq!(info.message_header.message_type, MessageChunkType::Message);
        assert_eq!(info.message_header.secure_channel_id, 4);
        assert_eq!(
            info.security_header,
            SecurityHeader::Symmetric(SymmetricSecurityHeader { token_id: 9 })
        );
        assert_eq!(info.sequence_header.sequence_number, 10 + i as u32);
        assert_eq!(info.sequence_header.request_id, 3);
        assert_eq!(info.body_offset, 24);
        assert_eq!(info.body_length, 8);
        let expected = if i == 2 { MessageIsFinalType::Final } else { MessageIsFinalType::Intermediate };
        assert_eq!(info.message_header.is_final, expected);
    }
    assert_eq!(&chunks[0].data[0..4], b"MSGC");
    assert_eq!(&chunks[2].data[0..4], b"MSGF");
    assert_eq!(&chunks[0].data[24..28], &[1, 0, 0x77, 0x02]);
    assert_eq!(Chunker::validate_chunks(10, &channel, &chunks), Ok(13));
    assert_eq!(Chunker::decode(&chunks, None), Ok(message));
}

#[test]
fn an_open_request_travels_in_an_opn_chunk_under_the_policy_none() {
    let channel = SecureChannel::new();
    let message = all_messages().remove(0);
    let chunks = Chunker::encode(1, 1, &message, &channel, 0).unwrap();
    assert_eq!(chunks.len(), 1);
    assert_eq!(&chunks[0].data[0..4], b"OPNF");
    let info = chunks[0].chunk_info().unwrap();
    match &info.security_header {
        SecurityHeader::Asymmetric(header) => {
            assert_eq!(
                header.security_policy_uri,
                UAString::from_bytes(b"http://opcfoundation.org/UA/SecurityPolicy#None".to_vec())
            );
            assert!(header.sender_certificate.is_null());
            assert!(header.receiver_certificate_thumbprint.is_null());
        }
        other => panic!("expected an asymmetric header, got {:?}", other),
    }
    assert_eq!(info.body_offset, 79);
    assert_eq!(none_policy_uri(), b"http://opcfoundation.org/UA/SecurityPolicy#None".to_vec());
}

#[test]
fn messages_that_cannot_be_written_are_encoding_errors() {
    let channel = open_channel(4, 9);
    let ack = SupportedMessage::AcknowledgeMessage(AcknowledgeMessage {
        protocol_version: 0,
        receive_buffer_size: 1,
        send_buffer_size: 1,
        max_message_size: 1,
        max_chunk_count: 1,
    });
    assert_eq!(Chunker::encode(1, 1, &ack, &channel, 0), Err(StatusCode::BadEncodingError));
    assert_eq!(
        Chunker::encode(1, 1, &SupportedMessage::Invalid(5), &channel, 0),
        Err(StatusCode::BadEncodingError)
    );
    // An undecoded message may not pass itself off as a channel service.
    assert_eq!(
        Chunker::encode(1, 1, &service(446, 3), &channel, 0),
        Err(StatusCode::BadEncodingError)
    );
    // No room for a body behind 24 bytes of headers.
    assert_eq!(
        Chunker::encode(1, 1, &service(631, 3), &channel, 24),
        Err(StatusCode::BadEncodingError)
    );
    assert!(Chunker::encode(1, 1, &service(631, 3), &channel, 25).is_ok());
}

#[test]
fn sequence_numbers_that_run_out_are_refused() {
    let channel = open_channel(4, 9);
    let message = service(631, 20);
    assert_eq!(Chunker::encode(u32::MAX - 2, 1, &message, &channel, 32).unwrap().len(), 3);
    assert_eq!(
        Chunker::encode(u32::MAX - 1, 1, &message, &channel, 32),
        Err(StatusCode::BadSequenceNumberInvalid)
    );
    assert_eq!(Chunker::encode(u32::MAX, 1, &message, &channel, 0).unwrap().len(), 1);
}

#[test]
fn decode_reports_malformed_and_unsupported_bodies() {
    let channel = open_channel(4, 9);
    let header = SecurityHeader::Symmetric(SymmetricSecurityHeader { token_id: 9 });
    let chunk_with = |body: &[u8]| {
        vec![MessageChunk::new(
            1,
            1,
            MessageChunkType::Message,
            MessageIsFinalType::Final,
            channel.secure_channel_id,
            &header,
            body,
        )
        .unwrap()]
    };
    assert_eq!(Chunker::decode(&chunk_with(&[]), None), Err(StatusCode::BadDecodingError));
    assert_eq!(Chunker::decode(&chunk_with(&[9, 0]), None), Err(StatusCode::BadDecodingError));
    assert_eq!(Chunker::decode(&chunk_with(&[1, 0, 5]), None), Err(StatusCode::BadDecodingError));
    // The open request is cut short.
    assert_eq!(
        Chunker::decode(&chunk_with(&[1, 0, 0xBE, 0x01, 0, 0]), None),
        Err(StatusCode::BadDecodingError)
    );
    // A node id in another namespace, or a string node id, names no service.
    assert_eq!(
        Chunker::decode(&chunk_with(&[1, 2, 0x77, 0x02]), None),
        Err(StatusCode::BadServiceUnsupported)
    );
    assert_eq!(
        Chunker::decode(&chunk_with(&[3, 0, 0, 1, 0, 0, 0, b'x']), None),
        Err(StatusCode::BadServiceUnsupported)
    );
    // With known service ids, others are unsupported.
    let known = vec![631u32, 826];
    assert_eq!(
        Chunker::decode(&chunk_with(&[1, 0, 0x77, 0x02, 42]), Some(&known)),
        Ok(SupportedMessage::Service(ServiceMessage { type_id: 631, body: vec![42] }))
    );
    assert_eq!(
        Chunker::decode(&chunk_with(&[1, 0, 0x78, 0x02, 42]), Some(&known)),
        Err(StatusCode::BadServiceUnsupported)
    );
    assert_eq!(
        Chunker::decode(&chunk_with(&[1, 0, 0x78, 0x02, 42]), None),
        Ok(SupportedMessage::Service(ServiceMessage { type_id: 632, body: vec![42] }))
    );
    // The three numeric forms of a node id name the same service.
    assert_eq!(
        Chunker::decode(&chunk_with(&[0, 200]), None),
        Ok(SupportedMessage::Service(ServiceMessage { type_id: 200, body: vec![] }))
    );
    assert_eq!(
        Chunker::decode(&chunk_with(&[2, 0, 0, 200, 0, 0, 0]), None),
        Ok(SupportedMessage::Service(ServiceMessage { type_id: 200, body: vec![] }))
    );
}

#[test]
fn a_request_header_with_token_and_additional_header_is_read() {
    let channel = open_channel(4, 9);
    let header = SecurityHeader::Symmetric(SymmetricSecurityHeader { token_id: 9 });
    let mut body = vec![1u8, 0, 0xC4, 0x01]; // CloseSecureChannelRequest, 452
    body.extend_from_slice(&[5, 1, 0, 3, 0, 0, 0, 7, 8, 9]); // opaque token of three bytes
    body.extend_from_slice(&123i64.to_le_bytes());
    body.extend_from_slice(&77u32.to_le_bytes());
    body.extend_from_slice(&0u32.to_le_bytes());
    body.extend_from_slice(&2i32.to_le_bytes());
    body.extend_from_slice(b"id");
    body.extend_from_slice(&1000u32.to_le_bytes());
    body.extend_from_slice(&[0, 0, 1, 1, 0, 0, 0, 0xFF]); // extension object with a body
    let chunk = MessageChunk::new(
        1,
        1,
        MessageChunkType::CloseSecureChannel,
        MessageIsFinalType::Final,
        channel.secure_channel_id,
        &header,
        &body,
    )
    .unwrap();
    assert_eq!(
        Chunker::decode(&vec![chunk], None),
        Ok(SupportedMessage::CloseSecureChannelRequest(CloseSecureChannelRequest {
            request_header: RequestHeader {
                timestamp: 123,
                request_handle: 77,
                return_diagnostics: 0,
                timeout_hint: 1000,
            },
        }))
    );
}

#[test]
fn validate_checks_sequence_channel_and_token() {
    let channel = open_channel(4, 9);
    let message = service(631, 20);
    let chunks = Chunker::encode(10, 3, &message, &channel, 32).unwrap();
    assert_eq!(Chunker::validate_chunks(10, &channel, &chunks), Ok(13));
    assert_eq!(Chunker::validate_chunks(10, &channel, &vec![]), Ok(10));
    assert_eq!(
        Chunker::validate_chunks(9, &channel, &chunks),
        Err(StatusCode::BadSequenceNumberInvalid)
    );
    assert_eq!(
        Chunker::validate_chunks(11, &channel, &chunks),
        Err(StatusCode::BadSequenceNumberInvalid)
    );
    // A gap inside the group.
    let gap = vec![chunks[0].clone(), chunks[2].clone()];
    assert_eq!(
        Chunker::validate_chunks(10, &channel, &gap),
        Err(StatusCode::BadSequenceNumberInvalid)
    );
    // Another channel.
    assert_eq!(
        Chunker::validate_chunks(10, &open_channel(5, 9), &chunks),
        Err(StatusCode::BadSecureChannelIdInvalid)
    );
    // A token the channel does not know.
    assert_eq!(
        Chunker::validate_chunks(10, &open_channel(4, 8), &chunks),
        Err(StatusCode::BadSecurityChecksFailed)
    );
    // No channel is open: a symmetric header cannot be accepted.
    assert_eq!(
        Chunker::validate_chunks(10, &SecureChannel::new(), &chunks),
        Err(StatusCode::BadSecurityChecksFailed)
    );
    // The previous token is accepted while it is kept.
    let mut renewed = open_channel(4, 10);
    renewed.previous_token_id = Some(9);
    assert_eq!(Chunker::validate_chunks(10, &renewed, &chunks), Ok(13));
    // Chunks of two requests do not make a group.
    let other = Chunker::encode(11, 4, &message, &channel, 32).unwrap();
    let mixed = vec![chunks[0].clone(), other[0].clone()];
    assert_eq!(
        Chunker::validate_chunks(10, &channel, &mixed),
        Err(StatusCode::BadSecurityChecksFailed)
    );
    // A chunk that is cut short does not decode.
    let mut cut = chunks[0].clone();
    cut.data.truncate(20);
    assert_eq!(
        Chunker::validate_chunks(10, &channel, &vec![cut]),
        Err(StatusCode::BadDecodingError)
    );
}

#[test]
fn sequence_numbers_wrap_around_when_received() {
    let channel = open_channel(4, 9);
    let header = SecurityHeader::Symmetric(SymmetricSecurityHeader { token_id: 9 });
    let chunk = |sequence_number: u32| {
        MessageChunk::new(
            sequence_number,
            1,
            MessageChunkType::Message,
            MessageIsFinalType::Final,
            4,
            &header,
            &[0, 200],
        )
        .unwrap()
    };
    let chunks = vec![chunk(u32::MAX - 1), chunk(u32::MAX), chunk(0), chunk(1)];
    assert_eq!(Chunker::validate_chunks(u32::MAX - 1, &channel, &chunks), Ok(2));
    assert_eq!(Chunker::validate_chunks(u32::MAX, &channel, &vec![chunk(u32::MAX)]), Ok(0));
}

#[test]
fn chunk_info_rejects_a_size_that_is_not_the_length() {
    let header = SecurityHeader::Symmetric(SymmetricSecurityHeader { token_id: 9 });
    let mut chunk = MessageChunk::new(
        1,
        2,
        MessageChunkType::Message,
        MessageIsFinalType::Final,
        4,
        &header,
        &[1, 2, 3],
    )
    .unwrap();
    assert_eq!(chunk.data.len(), 27);
    assert_eq!(chunk.message_header().unwrap().message_size, 27);
    assert!(chunk.chunk_info().is_ok());
    chunk.data.push(0);
    assert_eq!(chunk.chunk_info(), Err(StatusCode::BadDecodingError));
    let hello = MessageChunk { data: b"HELF\x0c\x00\x00\x00\x00\x00\x00\x00".to_vec() };
    assert_eq!(hello.message_header(), Err(StatusCode::BadDecodingError));
}

#[test]
fn the_writer_numbers_chunks_without_gaps_across_messages() {
    let channel = open_channel(4, 9);
    let mut writer = MessageWriter::new(32);
    let mut seen = Vec::new();
    for request_id in [7u32, 8, 9] {
        let written = writer.write(request_id, service(631, 20), &channel).unwrap();
        assert_eq!(written, 96);
        let bytes = writer.bytes_to_write();
        assert_eq!(bytes.len(), 96);
        for frame in bytes.chunks(32) {
            let info = MessageChunk { data: frame.to_vec() }.chunk_info().unwrap();
            assert_eq!(info.sequence_header.request_id, request_id);
            seen.push(info.sequence_header.sequence_number);
        }
    }
    assert_eq!(seen, (1..=9).collect::<Vec<u32>>());
    assert_eq!(writer.last_sent_sequence_number, 9);
}

#[test]
fn the_writer_refuses_without_changing_anything() {
    let channel = open_channel(4, 9);
    let mut writer = MessageWriter::new(32);
    writer.last_sent_sequence_number = u32::MAX;
    assert_eq!(
        writer.write(1, service(631, 20), &channel),
        Err(StatusCode::BadSequenceNumberInvalid)
    );
    writer.last_sent_sequence_number = u32::MAX - 2;
    assert_eq!(
        writer.write(1, service(631, 20), &channel),
        Err(StatusCode::BadSequenceNumberInvalid)
    );
    assert_eq!(writer.write(1, SupportedMessage::Invalid(1), &channel), Err(StatusCode::BadEncodingError));
    assert_eq!(writer.last_sent_sequence_number, u32::MAX - 2);
    assert!(writer.buffer.is_empty());
    assert_eq!(writer.write(1, service(631, 4), &channel), Ok(32));
    assert_eq!(writer.last_sent_sequence_number, u32::MAX - 1);
}
