use opcua_server::clock::date_time;
use opcua_server::encoding::UAString;
use opcua_server::identity::AnonymousIdentityToken;
use opcua_server::session::{PublishResponseEntry, Session, Subscriptions};
use opcua_server::state::{ServerConfig, ServerState};
use opcua_server::status_code::StatusCode;
use opcua_server::supported_message::{ServiceMessage, SupportedMessage};

#[test]
fn anonymous_identity_token_round_trip() {
    let token = AnonymousIdentityToken { policy_id: UAString::from_bytes(b"anonymous".to_vec()) };
    assert_eq!(token.byte_len(), 13);
    let mut stream = vec![0xAAu8];
    assert_eq!(token.encode(&mut stream), Ok(13));
    assert_eq!(&stream[1..5], &9i32.to_le_bytes());
    assert_eq!(&stream[5..], b"anonymous");
    assert_eq!(AnonymousIdentityToken::decode(&stream, 1), Ok((token.clone(), 14)));
    assert_eq!(token.clone(), token);
}

#[test]
fn anonymous_identity_token_with_null_policy() {
    let token = AnonymousIdentityToken { policy_id: UAString::null() };
    assert_eq!(token.byte_len(), 4);
    let mut stream = Vec::new();
    assert_eq!(token.encode(&mut stream), Ok(4));
    assert_eq!(stream, vec![0xFF, 0xFF, 0xFF, 0xFF]);
    assert_eq!(AnonymousIdentityToken::decode(&stream, 0), Ok((token, 4)));
}

#[test]
fn anonymous_identity_token_decode_errors() {
    assert_eq!(AnonymousIdentityToken::decode(&[1, 0, 0], 0), Err(StatusCode::BadDecodingError));
    assert_eq!(
        AnonymousIdentityToken::decode(&[2, 0, 0, 0, b'a'], 0),
        Err(StatusCode::BadDecodingError)
    );
    assert_eq!(
        AnonymousIdentityToken::decode(&[0xFE, 0xFF, 0xFF, 0xFF], 0),
        Err(StatusCode::BadDecodingError)
    );
    assert_eq!(AnonymousIdentityToken::decode(&[0, 0, 0, 0], 5), Err(StatusCode::BadDecodingError));
}

#[test]
fn strings_null_and_empty_are_different() {
    let empty = UAString::from_bytes(Vec::new());
    let null = UAString::null();
    assert!(null.is_null());
    assert!(!empty.is_null());
    assert!(!empty.same(&null));
    assert!(empty.same(&UAString::from_bytes(Vec::new())));
    assert!(!UAString::from_bytes(vec![1]).same(&UAString::from_bytes(vec![2])));
    let mut stream = Vec::new();
    assert_eq!(empty.encode(&mut stream), Ok(4));
    assert_eq!(stream, vec![0, 0, 0, 0]);
    assert_eq!(UAString::decode(&stream, 0), Ok((empty, 4)));
    assert_eq!(null.byte_len(), 4);
}

#[test]
fn status_codes_have_their_wire_values() {
    let all = [
        (StatusCode::Good, 0x0000_0000u32),
        (StatusCode::BadUnexpectedError, 0x8001_0000),
        (StatusCode::BadCommunicationError, 0x8005_0000),
        (StatusCode::BadEncodingError, 0x8006_0000),
        (StatusCode::BadDecodingError, 0x8007_0000),
        (StatusCode::BadTimeout, 0x800A_0000),
        (StatusCode::BadServiceUnsupported, 0x800B_0000),
        (StatusCode::BadSecurityChecksFailed, 0x8013_0000),
        (StatusCode::BadIdentityTokenRejected, 0x8021_0000),
        (StatusCode::BadSecureChannelIdInvalid, 0x8022_0000),
        (StatusCode::BadSecurityModeRejected, 0x8054_0000),
        (StatusCode::BadSecurityPolicyRejected, 0x8055_0000),
        (StatusCode::BadTcpMessageTypeInvalid, 0x807E_0000),
        (StatusCode::BadTcpMessageTooLarge, 0x8080_0000),
        (StatusCode::BadTcpEndpointUrlInvalid, 0x8083_0000),
        (StatusCode::BadSecureChannelClosed, 0x8086_0000),
        (StatusCode::BadSequenceNumberInvalid, 0x8088_0000),
        (StatusCode::BadConnectionClosed, 0x80AE_0000),
        (StatusCode::BadProtocolVersionUnsupported, 0x80BE_0000),
    ];
    for (code, bits) in all {
        assert_eq!(code.bits(), bits);
        assert_eq!(StatusCode::from_bits(bits), Some(code));
        assert_eq!(code.is_bad(), bits != 0);
        assert_eq!(code.is_good(), bits == 0);
    }
    assert_eq!(StatusCode::from_bits(0x8002_0000), None);
    assert_eq!(StatusCode::from_bits(1), None);
}

#[test]
fn date_time_counts_from_1601_in_tenths_of_microseconds() {
    assert_eq!(date_time(0), 116_444_736_000_000_000);
    assert_eq!(date_time(1), 116_444_736_000_010_000);
    assert_eq!(date_time(-11_644_473_600_000), 0);
    assert_eq!(date_time(1_000_000_000_555), 126_444_736_005_550_000);
    assert_eq!(date_time(i64::MAX), i64::MAX);
    assert_eq!(date_time(i64::MIN), i64::MIN);
}

#[test]
fn server_configuration_defaults() {
    let config = ServerConfig::new();
    assert_eq!(config.tcp_config.hello_timeout, 5);
    assert_eq!(config.receive_buffer_size, 65536);
    assert_eq!(config.send_buffer_size, 65536);
    assert_eq!(config.max_message_size, 65536);
    assert_eq!(config.max_chunk_count, 5);
    let mut state = ServerState::new(config);
    assert!(!state.is_abort());
    state.abort();
    assert!(state.is_abort());
    assert_eq!(state.config, config);
}

#[test]
fn session_termination_is_for_good() {
    let mut session = Session::new();
    assert!(!session.terminated());
    session.set_terminated();
    assert!(session.terminated());
    session.set_terminated();
    assert!(session.terminated());
}

#[test]
fn publish_responses_are_taken_all_at_once() {
    let mut subscriptions = Subscriptions::new();
    assert_eq!(subscriptions.take_publish_responses(), None);
    let entry = |n: u32| PublishResponseEntry {
        request_id: n,
        response: SupportedMessage::Service(ServiceMessage { type_id: 829, body: vec![n as u8] }),
    };
    subscriptions.enqueue_publish_response(entry(1));
    subscriptions.enqueue_publish_response(entry(2));
    assert_eq!(subscriptions.take_publish_responses(), Some(vec![entry(1), entry(2)]));
    assert_eq!(subscriptions.take_publish_responses(), None);
}
