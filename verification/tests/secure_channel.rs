use opcua_server::encoding::UAString;
use opcua_server::message_chunk::{
    AsymmetricSecurityHeader, MessageChunkType, SecurityHeader, SymmetricSecurityHeader,
};
use opcua_server::chunker::Chunker;
use opcua_server::secure_channel::{is_none_policy, SecureChannel};
use opcua_server::secure_channel_service::SecureChannelService;
use opcua_server::status_code::StatusCode;
use opcua_server::supported_message::{
    ChannelSecurityToken, CloseSecureChannelRequest, MessageSecurityMode,
    OpenSecureChannelRequest, OpenSecureChannelResponse, RequestHeader, ResponseHeader,
    SecurityTokenRequestType, ServiceFault, SupportedMessage,
};

const NONE_URI: &[u8] = b"http://opcfoundation.org/UA/SecurityPolicy#None";
const BASIC256_URI: &[u8] = b"http://opcfoundation.org/UA/SecurityPolicy#Basic256";

fn asymmetric(uri: Option<&[u8]>) -> SecurityHeader {
    SecurityHeader::Asymmetric(AsymmetricSecurityHeader {
        security_policy_uri: match uri {
            Some(uri) => UAString::from_bytes(uri.to_vec()),
            None => UAString::null(),
        },
        sender_certificate: UAString::null(),
        receiver_certificate_thumbprint: UAString::null(),
    })
}

fn open_request(
    request_type: SecurityTokenRequestType,
    security_mode: MessageSecurityMode,
    requested_lifetime: u32,
) -> SupportedMessage {
    SupportedMessage::OpenSecureChannelRequest(OpenSecureChannelRequest {
        request_header: RequestHeader {
            timestamp: 0,
            request_handle: 11,
            return_diagnostics: 0,
            timeout_hint: 0,
        },
        client_protocol_version: 0,
        request_type,
        security_mode,
        client_nonce: UAString::null(),
        requested_lifetime,
    })
}

fn issue() -> SupportedMessage {
    open_request(SecurityTokenRequestType::Issue, MessageSecurityMode::NoSecurity, 60_000)
}

fn renew() -> SupportedMessage {
    open_request(SecurityTokenRequestType::Renew, MessageSecurityMode::NoSecurity, 7_200_000)
}

#[test]
fn issue_gives_channel_one_and_token_one() {
    let mut service = SecureChannelService::new(3_600_000);
    let mut channel = SecureChannel::new();
    // 1970-01-01T00:00:01Z
    let response = service
        .open_secure_channel(&mut channel, &asymmetric(Some(NONE_URI)), 0, &issue(), 1_000)
        .unwrap();
    let stamp = 116_444_736_010_000_000i64;
    assert_eq!(
        response,
        SupportedMessage::OpenSecureChannelResponse(OpenSecureChannelResponse {
            response_header: ResponseHeader {
                timestamp: stamp,
                request_handle: 11,
                service_result: StatusCode::Good,
            },
            server_protocol_version: 0,
            security_token: ChannelSecurityToken {
                channel_id: 1,
                token_id: 1,
                created_at: stamp,
                revised_lifetime: 60_000,
            },
            server_nonce: UAString::null(),
        })
    );
    assert_eq!(
        channel,
        SecureChannel {
            security_mode: MessageSecurityMode::NoSecurity,
            secure_channel_id: 1,
            token_id: 1,
            token_created_at: 1_000,
            token_lifetime: 60_000,
            previous_token_id: None,
        }
    );
    assert_eq!(service.last_secure_channel_id, 1);
    assert_eq!(service.last_token_id, 1);
    assert!(channel.is_open());
}

#[test]
fn renew_keeps_the_channel_and_the_previous_token_until_the_new_one_is_used() {
    let mut service = SecureChannelService::new(3_600_000);
    let mut channel = SecureChannel::new();
    service
        .open_secure_channel(&mut channel, &asymmetric(None), 0, &issue(), 1_000)
        .unwrap();
    let response = service
        .open_secure_channel(&mut channel, &asymmetric(Some(NONE_URI)), 0, &renew(), 2_000)
        .unwrap();
    match response {
        SupportedMessage::OpenSecureChannelResponse(response) => {
            assert_eq!(response.security_token.channel_id, 1);
            assert_eq!(response.security_token.token_id, 2);
            // The lifetime is cut down to what the server grants.
            assert_eq!(response.security_token.revised_lifetime, 3_600_000);
        }
        other => panic!("expected an open response, got {:?}", other),
    }
    assert_eq!(channel.secure_channel_id, 1);
    assert_eq!(channel.token_id, 2);
    assert_eq!(channel.previous_token_id, Some(1));
    assert_eq!(channel.token_created_at, 2_000);
    assert_eq!(service.last_secure_channel_id, 1);

    let old = SecurityHeader::Symmetric(SymmetricSecurityHeader { token_id: 1 });
    let new = SecurityHeader::Symmetric(SymmetricSecurityHeader { token_id: 2 });
    let unknown = SecurityHeader::Symmetric(SymmetricSecurityHeader { token_id: 3 });
    assert_eq!(channel.verify_header(&old), Ok(()));
    assert_eq!(channel.verify_header(&new), Ok(()));
    assert_eq!(channel.verify_header(&unknown), Err(StatusCode::BadSecurityChecksFailed));

    // A chunk under the old token changes nothing, the first under the new one
    // drops the old.
    let message = SupportedMessage::CloseSecureChannelRequest(CloseSecureChannelRequest {
        request_header: RequestHeader {
            timestamp: 0,
            request_handle: 1,
            return_diagnostics: 0,
            timeout_hint: 0,
        },
    });
    let mut client = channel;
    client.token_id = 1;
    let under_old = Chunker::encode(5, 1, &message, &client, 0).unwrap();
    let cleartext = channel.verify_and_remove_security(&under_old[0].data).unwrap();
    assert_eq!(cleartext, under_old[0]);
    assert_eq!(channel.previous_token_id, Some(1));
    client.token_id = 2;
    let under_new = Chunker::encode(6, 2, &message, &client, 0).unwrap();
    assert_eq!(channel.verify_and_remove_security(&under_new[0].data).unwrap(), under_new[0]);
    assert_eq!(channel.previous_token_id, None);
    assert_eq!(channel.verify_header(&old), Err(StatusCode::BadSecurityChecksFailed));
    assert_eq!(channel.verify_header(&new), Ok(()));
}

#[test]
fn a_second_issue_opens_a_new_channel() {
    let mut service = SecureChannelService::new(3_600_000);
    let mut channel = SecureChannel::new();
    service.open_secure_channel(&mut channel, &asymmetric(None), 0, &issue(), 1).unwrap();
    service.open_secure_channel(&mut channel, &asymmetric(None), 0, &issue(), 2).unwrap();
    assert_eq!(channel.secure_channel_id, 2);
    assert_eq!(channel.token_id, 2);
    assert_eq!(channel.previous_token_id, None);
}

#[test]
fn open_refuses_with_the_status_that_fits() {
    let fresh = || (SecureChannelService::new(3_600_000), SecureChannel::new());

    let (mut service, mut channel) = fresh();
    assert_eq!(
        service.open_secure_channel(&mut channel, &asymmetric(Some(BASIC256_URI)), 0, &issue(), 1),
        Err(StatusCode::BadSecurityPolicyRejected)
    );
    for mode in [
        MessageSecurityMode::Invalid,
        MessageSecurityMode::Sign,
        MessageSecurityMode::SignAndEncrypt,
    ] {
        let request = open_request(SecurityTokenRequestType::Issue, mode, 1);
        assert_eq!(
            service.open_secure_channel(&mut channel, &asymmetric(None), 0, &request, 1),
            Err(StatusCode::BadSecurityModeRejected)
        );
    }
    // A renewal without an open channel.
    assert_eq!(
        service.open_secure_channel(&mut channel, &asymmetric(None), 0, &renew(), 1),
        Err(StatusCode::BadSecurityChecksFailed)
    );
    // An OPN chunk under a symmetric header.
    let symmetric = SecurityHeader::Symmetric(SymmetricSecurityHeader { token_id: 0 });
    assert_eq!(
        service.open_secure_channel(&mut channel, &symmetric, 0, &issue(), 1),
        Err(StatusCode::BadSecurityChecksFailed)
    );
    // Another protocol version than the HELLO named.
    assert_eq!(
        service.open_secure_channel(&mut channel, &asymmetric(None), 1, &issue(), 1),
        Err(StatusCode::BadProtocolVersionUnsupported)
    );
    // Not an open request at all.
    assert_eq!(
        service.open_secure_channel(
            &mut channel,
            &asymmetric(None),
            0,
            &SupportedMessage::Invalid(1),
            1
        ),
        Err(StatusCode::BadUnexpectedError)
    );
    // Nothing was touched by the refusals.
    assert_eq!(service, SecureChannelService::new(3_600_000));
    assert_eq!(channel, SecureChannel::new());

    // The ids are used up.
    service.last_token_id = u32::MAX;
    assert_eq!(
        service.open_secure_channel(&mut channel, &asymmetric(None), 0, &issue(), 1),
        Err(StatusCode::BadUnexpectedError)
    );
    service.last_token_id = 5;
    service.last_secure_channel_id = u32::MAX;
    assert_eq!(
        service.open_secure_channel(&mut channel, &asymmetric(None), 0, &issue(), 1),
        Err(StatusCode::BadUnexpectedError)
    );
}

#[test]
fn close_answers_with_a_fault_that_says_closed() {
    let service = SecureChannelService::new(3_600_000);
    let request = SupportedMessage::CloseSecureChannelRequest(CloseSecureChannelRequest {
        request_header: RequestHeader {
            timestamp: 0,
            request_handle: 42,
            return_diagnostics: 0,
            timeout_hint: 0,
        },
    });
    assert_eq!(
        service.close_secure_channel(&request, 0),
        Ok(SupportedMessage::ServiceFault(ServiceFault {
            response_header: ResponseHeader {
                timestamp: 116_444_736_000_000_000,
                request_handle: 42,
                service_result: StatusCode::BadSecureChannelClosed,
            },
        }))
    );
    assert_eq!(service.close_secure_channel(&issue(), 0), Err(StatusCode::BadUnexpectedError));
}

#[test]
fn the_channel_speaks_the_policy_none_only() {
    assert!(is_none_policy(&UAString::null()));
    assert!(is_none_policy(&UAString::from_bytes(NONE_URI.to_vec())));
    assert!(!is_none_policy(&UAString::from_bytes(BASIC256_URI.to_vec())));
    assert!(!is_none_policy(&UAString::from_bytes(Vec::new())));
    let channel = SecureChannel::new();
    assert_eq!(channel.verify_header(&asymmetric(Some(NONE_URI))), Ok(()));
    assert_eq!(
        channel.verify_header(&asymmetric(Some(BASIC256_URI))),
        Err(StatusCode::BadSecurityChecksFailed)
    );
    match channel.make_security_header(MessageChunkType::Message) {
        SecurityHeader::Symmetric(header) => assert_eq!(header.token_id, 0),
        other => panic!("expected a symmetric header, got {:?}", other),
    }
}

#[test]
fn removing_security_refuses_other_policies_and_broken_frames() {
    let mut channel = SecureChannel::new();
    let request = issue();
    let chunks = Chunker::encode(1, 1, &request, &channel, 0).unwrap();
    assert_eq!(channel.verify_and_remove_security(&chunks[0].data), Ok(chunks[0].clone()));
    assert_eq!(
        channel.verify_and_remove_security(&chunks[0].data[..30]),
        Err(StatusCode::BadDecodingError)
    );
    // The same frame under another policy: replace the URI, and fix the size.
    let mut frame = chunks[0].data.clone();
    let at = 16;
    assert_eq!(&frame[at..at + NONE_URI.len()], NONE_URI);
    frame.splice(at..at + NONE_URI.len(), BASIC256_URI.iter().copied());
    let size = frame.len() as u32;
    frame[4..8].copy_from_slice(&size.to_le_bytes());
    frame[12..16].copy_from_slice(&(BASIC256_URI.len() as i32).to_le_bytes());
    assert_eq!(
        channel.verify_and_remove_security(&frame),
        Err(StatusCode::BadSecurityPolicyRejected)
    );
    let mut out = vec![9u8];
    assert_eq!(channel.apply_security(&chunks[0], &mut out), Ok(chunks[0].data.len()));
    assert_eq!(&out[1..], &chunks[0].data[..]);
}
