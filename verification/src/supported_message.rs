//! The messages that travel inside chunks. The messages that open and close the
//! secure channel are decoded field by field; every other service message is
//! carried as its service id and its undecoded body, for the message handler.
//!
//! Of a request header the transport keeps the timestamp, the handle, the
//! diagnostics mask and the timeout hint. It passes over the authentication
//! token, the audit entry and the additional header when it reads, and writes
//! them as null. A response header is written without diagnostics, string table
//! or additional header, and is read only in that form.

use crate::encoding::{
    copy_range, has_at, lemma_has_at_concat, lemma_i32_bytes_len, lemma_i64_bytes_len,
    lemma_read_i32_written, lemma_read_i64_written, lemma_read_string_written,
    lemma_read_u32_written, lemma_read_u8_written, lemma_string_bytes_len, lemma_u32_bytes_len,
    read_i32, read_i64, read_u32, spec_i32_bytes, spec_i64_bytes, spec_read_i32, spec_read_i64,
    spec_read_string, spec_read_u32, spec_string_bytes, spec_string_encodable, spec_string_len,
    spec_u32_bytes, append_bytes, write_i32, write_i64, write_u32, write_u8, ByteString,
    UAString,
};
use crate::node_id::{
    lemma_read_type_id_written, lemma_skip_null_extension_object, lemma_skip_null_node_id,
    lemma_type_id_bytes_len, read_type_id, skip_extension_object, skip_node_id, skip_string,
    spec_null_extension_object_bytes, spec_null_node_id_bytes, spec_read_type_id,
    spec_skip_extension_object, spec_skip_node_id, spec_skip_string, spec_type_id_bytes,
    write_type_id,
};
use crate::status_code::StatusCode;
use crate::tcp_types::AcknowledgeMessage;
use vstd::prelude::*;

verus! {

/// The service id of an OpenSecureChannel request.
pub const OPEN_SECURE_CHANNEL_REQUEST_ID: u32 = 446;

/// The service id of an OpenSecureChannel response.
pub const OPEN_SECURE_CHANNEL_RESPONSE_ID: u32 = 449;

/// The service id of a CloseSecureChannel request.
pub const CLOSE_SECURE_CHANNEL_REQUEST_ID: u32 = 452;

/// The service id of a CloseSecureChannel response.
pub const CLOSE_SECURE_CHANNEL_RESPONSE_ID: u32 = 455;

/// The service id of a service fault.
pub const SERVICE_FAULT_ID: u32 = 397;

/// True for the five service ids whose messages the transport decodes itself.
pub open spec fn spec_is_channel_service(id: u32) -> bool {
    id == OPEN_SECURE_CHANNEL_REQUEST_ID || id == OPEN_SECURE_CHANNEL_RESPONSE_ID || id
        == CLOSE_SECURE_CHANNEL_REQUEST_ID || id == CLOSE_SECURE_CHANNEL_RESPONSE_ID || id
        == SERVICE_FAULT_ID
}

/// What a request header tells the transport.
#[derive(Clone, Copy, Debug, PartialEq, Eq, Structural)]
pub struct RequestHeader {
    pub timestamp: i64,
    pub request_handle: u32,
    pub return_diagnostics: u32,
    pub timeout_hint: u32,
}

/// What a response header tells the peer.
#[derive(Clone, Copy, Debug, PartialEq, Eq, Structural)]
pub struct ResponseHeader {
    pub timestamp: i64,
    pub request_handle: u32,
    pub service_result: StatusCode,
}

/// Whether an OpenSecureChannel request asks for a first token or for a new one.
#[derive(Clone, Copy, Debug, PartialEq, Eq, Structural)]
pub enum SecurityTokenRequestType {
    Issue,
    Renew,
}

/// How the messages of a channel are protected.
#[derive(Clone, Copy, Debug, PartialEq, Eq, Structural)]
pub enum MessageSecurityMode {
    Invalid,
    /// Messages are neither signed nor encrypted.
    NoSecurity,
    Sign,
    SignAndEncrypt,
}

/// The token that a secure channel hands to the client.
#[derive(Clone, Copy, Debug, PartialEq, Eq, Structural)]
pub struct ChannelSecurityToken {
    pub channel_id: u32,
    pub token_id: u32,
    pub created_at: i64,
    pub revised_lifetime: u32,
}

/// Asks the server to open the secure channel or to renew its token.
#[derive(Debug, Clone, PartialEq, Eq)]
pub struct OpenSecureChannelRequest {
    pub request_header: RequestHeader,
    pub client_protocol_version: u32,
    pub request_type: SecurityTokenRequestType,
    pub security_mode: MessageSecurityMode,
    pub client_nonce: ByteString,
    pub requested_lifetime: u32,
}

/// An OpenSecureChannel request as a mathematical value.
pub struct OpenSecureChannelRequestView {
    pub request_header: RequestHeader,
    pub client_protocol_version: u32,
    pub request_type: SecurityTokenRequestType,
    pub security_mode: MessageSecurityMode,
    pub client_nonce: Option<Seq<u8>>,
    pub requested_lifetime: u32,
}

impl View for OpenSecureChannelRequest {
    type V = OpenSecureChannelRequestView;

    open spec fn view(&self) -> OpenSecureChannelRequestView {
        OpenSecureChannelRequestView {
            request_header: self.request_header,
            client_protocol_version: self.client_protocol_version,
            request_type: self.request_type,
            security_mode: self.security_mode,
            client_nonce: self.client_nonce@,
            requested_lifetime: self.requested_lifetime,
        }
    }
}

/// Tells the client the token of its secure channel.
#[derive(Debug, Clone, PartialEq, Eq)]
pub struct OpenSecureChannelResponse {
    pub response_header: ResponseHeader,
    pub server_protocol_version: u32,
    pub security_token: ChannelSecurityToken,
    pub server_nonce: ByteString,
}

/// An OpenSecureChannel response as a mathematical value.
pub struct OpenSecureChannelResponseView {
    pub response_header: ResponseHeader,
    pub server_protocol_version: u32,
    pub security_token: ChannelSecurityToken,
    pub server_nonce: Option<Seq<u8>>,
}

impl View for OpenSecureChannelResponse {
    type V = OpenSecureChannelResponseView;

    open spec fn view(&self) -> OpenSecureChannelResponseView {
        OpenSecureChannelResponseView {
            response_header: self.response_header,
            server_protocol_version: self.server_protocol_version,
            security_token: self.security_token,
            server_nonce: self.server_nonce@,
        }
    }
}

/// Asks the server to close the secure channel.
#[derive(Clone, Copy, Debug, PartialEq, Eq, Structural)]
pub struct CloseSecureChannelRequest {
    pub request_header: RequestHeader,
}

/// Confirms that the secure channel is closed.
#[derive(Clone, Copy, Debug, PartialEq, Eq, Structural)]
pub struct CloseSecureChannelResponse {
    pub response_header: ResponseHeader,
}

/// The answer to a request that failed as a whole.
#[derive(Clone, Copy, Debug, PartialEq, Eq, Structural)]
pub struct ServiceFault {
    pub response_header: ResponseHeader,
}

/// A service message that the transport does not look into.
#[derive(Debug, Clone, PartialEq, Eq)]
pub struct ServiceMessage {
    /// The numeric id, in namespace 0, of the node that names the service.
    pub type_id: u32,
    /// What follows the id, undecoded.
    pub body: Vec<u8>,
}

/// A message that a chunk group carries, or that the write loop is handed.
#[derive(Debug, Clone, PartialEq, Eq)]
pub enum SupportedMessage {
    /// What the handler answers when it cannot make a message of a service id.
    Invalid(u32),
    AcknowledgeMessage(AcknowledgeMessage),
    OpenSecureChannelRequest(OpenSecureChannelRequest),
    OpenSecureChannelResponse(OpenSecureChannelResponse),
    CloseSecureChannelRequest(CloseSecureChannelRequest),
    CloseSecureChannelResponse(CloseSecureChannelResponse),
    ServiceFault(ServiceFault),
    Service(ServiceMessage),
}

/// A message as a mathematical value.
pub enum SupportedMessageView {
    Invalid(u32),
    AcknowledgeMessage(AcknowledgeMessage),
    OpenSecureChannelRequest(OpenSecureChannelRequestView),
    OpenSecureChannelResponse(OpenSecureChannelResponseView),
    CloseSecureChannelRequest(CloseSecureChannelRequest),
    CloseSecureChannelResponse(CloseSecureChannelResponse),
    ServiceFault(ServiceFault),
    Service { type_id: u32, body: Seq<u8> },
}

impl View for SupportedMessage {
    type V = SupportedMessageView;

    open spec fn view(&self) -> SupportedMessageView {
        match self {
            SupportedMessage::Invalid(id) => SupportedMessageView::Invalid(*id),
            SupportedMessage::AcknowledgeMessage(m) => SupportedMessageView::AcknowledgeMessage(*m),
            SupportedMessage::OpenSecureChannelRequest(m) =>
                SupportedMessageView::OpenSecureChannelRequest(m@),
            SupportedMessage::OpenSecureChannelResponse(m) =>
                SupportedMessageView::OpenSecureChannelResponse(m@),
            SupportedMessage::CloseSecureChannelRequest(m) =>
                SupportedMessageView::CloseSecureChannelRequest(*m),
            SupportedMessage::CloseSecureChannelResponse(m) =>
                SupportedMessageView::CloseSecureChannelResponse(*m),
            SupportedMessage::ServiceFault(m) => SupportedMessageView::ServiceFault(*m),
            SupportedMessage::Service(m) => SupportedMessageView::Service {
                type_id: m.type_id,
                body: m.body@,
            },
        }
    }
}

impl SecurityTokenRequestType {
    /// The number that stands for the request type on the wire.
    pub open spec fn spec_code(self) -> u32 {
        match self {
            SecurityTokenRequestType::Issue => 0u32,
            SecurityTokenRequestType::Renew => 1u32,
        }
    }

    /// The request type that a number stands for, if any.
    pub open spec fn spec_from_code(code: u32) -> Option<SecurityTokenRequestType> {
        if code == 0 {
            Some(SecurityTokenRequestType::Issue)
        } else if code == 1 {
            Some(SecurityTokenRequestType::Renew)
        } else {
            None
        }
    }

    fn code(self) -> (r: u32)
        ensures
            r == self.spec_code(),
    {
        match self {
            SecurityTokenRequestType::Issue => 0,
            SecurityTokenRequestType::Renew => 1,
        }
    }

    fn from_code(code: u32) -> (r: Option<SecurityTokenRequestType>)
        ensures
            r == Self::spec_from_code(code),
    {
        if code == 0 {
            Some(SecurityTokenRequestType::Issue)
        } else if code == 1 {
            Some(SecurityTokenRequestType::Renew)
        } else {
            None
        }
    }
}

impl MessageSecurityMode {
    /// The number that stands for the mode on the wire.
    pub open spec fn spec_code(self) -> u32 {
        match self {
            MessageSecurityMode::Invalid => 0u32,
            MessageSecurityMode::NoSecurity => 1u32,
            MessageSecurityMode::Sign => 2u32,
            MessageSecurityMode::SignAndEncrypt => 3u32,
        }
    }

    /// A number that names no mode reads as `Invalid`.
    pub open spec fn spec_from_code(code: u32) -> MessageSecurityMode {
        if code == 1 {
            MessageSecurityMode::NoSecurity
        } else if code == 2 {
            MessageSecurityMode::Sign
        } else if code == 3 {
            MessageSecurityMode::SignAndEncrypt
        } else {
            MessageSecurityMode::Invalid
        }
    }

    fn code(self) -> (r: u32)
        ensures
            r == self.spec_code(),
    {
        match self {
            MessageSecurityMode::Invalid => 0,
            MessageSecurityMode::NoSecurity => 1,
            MessageSecurityMode::Sign => 2,
            MessageSecurityMode::SignAndEncrypt => 3,
        }
    }

    fn from_code(code: u32) -> (r: MessageSecurityMode)
        ensures
            r == Self::spec_from_code(code),
    {
        if code == 1 {
            MessageSecurityMode::NoSecurity
        } else if code == 2 {
            MessageSecurityMode::Sign
        } else if code == 3 {
            MessageSecurityMode::SignAndEncrypt
        } else {
            MessageSecurityMode::Invalid
        }
    }
}

/// The 29 bytes of a request header.
pub open spec fn spec_request_header_bytes(h: RequestHeader) -> Seq<u8> {
    spec_null_node_id_bytes() + spec_i64_bytes(h.timestamp) + spec_u32_bytes(h.request_handle)
        + spec_u32_bytes(h.return_diagnostics) + spec_string_bytes(None) + spec_u32_bytes(
        h.timeout_hint,
    ) + spec_null_extension_object_bytes()
}

/// The request header that stands at `pos`, with the position behind it.
pub open spec fn spec_read_request_header(s: Seq<u8>, pos: int) -> Option<(RequestHeader, int)> {
    match spec_skip_node_id(s, pos) {
        None => None,
        Some(at_timestamp) => if at_timestamp + 16 > s.len() {
            None
        } else {
            match spec_skip_string(s, at_timestamp + 16) {
                None => None,
                Some(at_timeout) => match spec_read_u32(s, at_timeout) {
                    None => None,
                    Some(timeout_hint) => match spec_skip_extension_object(s, at_timeout + 4) {
                        None => None,
                        Some(behind) => Some(
                            (
                                RequestHeader {
                                    timestamp: spec_read_i64(s, at_timestamp)->Some_0,
                                    request_handle: spec_read_u32(s, at_timestamp + 8)->Some_0,
                                    return_diagnostics: spec_read_u32(s, at_timestamp + 12)->Some_0,
                                    timeout_hint,
                                },
                                behind,
                            ),
                        ),
                    },
                },
            }
        },
    }
}

/// The 24 bytes of a response header.
pub open spec fn spec_response_header_bytes(h: ResponseHeader) -> Seq<u8> {
    spec_i64_bytes(h.timestamp) + spec_u32_bytes(h.request_handle) + spec_u32_bytes(
        h.service_result.spec_bits(),
    ) + seq![0u8] + spec_i32_bytes(-1i32) + spec_null_extension_object_bytes()
}

/// The response header that stands at `pos`, with the position behind it. The
/// status must be one the transport knows, and there must be no diagnostics and
/// no string table.
pub open spec fn spec_read_response_header(s: Seq<u8>, pos: int) -> Option<(ResponseHeader, int)> {
    if !(0 <= pos && pos + 21 <= s.len()) {
        None
    } else {
        match StatusCode::spec_from_bits(spec_read_u32(s, pos + 12)->Some_0) {
            None => None,
            Some(service_result) => if s[pos + 16] != 0 || spec_read_i32(s, pos + 17)->Some_0
                > 0 {
                None
            } else {
                match spec_skip_extension_object(s, pos + 21) {
                    None => None,
                    Some(p) => Some(
                        (
                            ResponseHeader {
                                timestamp: spec_read_i64(s, pos)->Some_0,
                                request_handle: spec_read_u32(s, pos + 8)->Some_0,
                                service_result,
                            },
                            p,
                        ),
                    ),
                }
            },
        }
    }
}

impl OpenSecureChannelRequestView {
    /// The fields of the request on the wire.
    pub open spec fn bytes(self) -> Seq<u8> {
        spec_request_header_bytes(self.request_header) + spec_u32_bytes(
            self.client_protocol_version,
        ) + spec_u32_bytes(self.request_type.spec_code()) + spec_u32_bytes(
            self.security_mode.spec_code(),
        ) + spec_string_bytes(self.client_nonce) + spec_u32_bytes(self.requested_lifetime)
    }
}

impl OpenSecureChannelResponseView {
    /// The fields of the response on the wire.
    pub open spec fn bytes(self) -> Seq<u8> {
        spec_response_header_bytes(self.response_header) + spec_u32_bytes(
            self.server_protocol_version,
        ) + spec_u32_bytes(self.security_token.channel_id) + spec_u32_bytes(
            self.security_token.token_id,
        ) + spec_i64_bytes(self.security_token.created_at) + spec_u32_bytes(
            self.security_token.revised_lifetime,
        ) + spec_string_bytes(self.server_nonce)
    }
}

/// The OpenSecureChannel request that stands at `pos`.
pub open spec fn spec_read_open_request(s: Seq<u8>, pos: int) -> Option<
    OpenSecureChannelRequestView,
> {
    match spec_read_request_header(s, pos) {
        None => None,
        Some((request_header, p)) => if p + 12 > s.len() {
            None
        } else {
            match SecurityTokenRequestType::spec_from_code(spec_read_u32(s, p + 4)->Some_0) {
                None => None,
                Some(request_type) => match spec_read_string(s, p + 12) {
                    None => None,
                    Some((client_nonce, at_timeout)) => match spec_read_u32(s, at_timeout) {
                        None => None,
                        Some(requested_lifetime) => Some(
                            OpenSecureChannelRequestView {
                                request_header,
                                client_protocol_version: spec_read_u32(s, p)->Some_0,
                                request_type,
                                security_mode: MessageSecurityMode::spec_from_code(
                                    spec_read_u32(s, p + 8)->Some_0,
                                ),
                                client_nonce,
                                requested_lifetime,
                            },
                        ),
                    },
                },
            }
        },
    }
}

/// The OpenSecureChannel response that stands at `pos`.
pub open spec fn spec_read_open_response(s: Seq<u8>, pos: int) -> Option<
    OpenSecureChannelResponseView,
> {
    match spec_read_response_header(s, pos) {
        None => None,
        Some((response_header, p)) => if p + 24 > s.len() {
            None
        } else {
            match spec_read_string(s, p + 24) {
                None => None,
                Some((server_nonce, _)) => Some(
                    OpenSecureChannelResponseView {
                        response_header,
                        server_protocol_version: spec_read_u32(s, p)->Some_0,
                        security_token: ChannelSecurityToken {
                            channel_id: spec_read_u32(s, p + 4)->Some_0,
                            token_id: spec_read_u32(s, p + 8)->Some_0,
                            created_at: spec_read_i64(s, p + 12)->Some_0,
                            revised_lifetime: spec_read_u32(s, p + 20)->Some_0,
                        },
                        server_nonce,
                    },
                ),
            }
        },
    }
}

impl SupportedMessageView {
    /// The id of the service the message belongs to; none for the two kinds
    /// that no chunk carries.
    pub open spec fn type_id(self) -> Option<u32> {
        match self {
            SupportedMessageView::Invalid(_) => None,
            SupportedMessageView::AcknowledgeMessage(_) => None,
            SupportedMessageView::OpenSecureChannelRequest(_) => Some(
                OPEN_SECURE_CHANNEL_REQUEST_ID,
            ),
            SupportedMessageView::OpenSecureChannelResponse(_) => Some(
                OPEN_SECURE_CHANNEL_RESPONSE_ID,
            ),
            SupportedMessageView::CloseSecureChannelRequest(_) => Some(
                CLOSE_SECURE_CHANNEL_REQUEST_ID,
            ),
            SupportedMessageView::CloseSecureChannelResponse(_) => Some(
                CLOSE_SECURE_CHANNEL_RESPONSE_ID,
            ),
            SupportedMessageView::ServiceFault(_) => Some(SERVICE_FAULT_ID),
            SupportedMessageView::Service { type_id, body } => Some(type_id),
        }
    }

    /// A message can be written into chunks unless it is `Invalid` or an ACK,
    /// carries a nonce too long for its length prefix, or claims, undecoded, one
    /// of the service ids that the transport decodes itself.
    pub open spec fn encodable(self) -> bool {
        match self {
            SupportedMessageView::Invalid(_) => false,
            SupportedMessageView::AcknowledgeMessage(_) => false,
            SupportedMessageView::OpenSecureChannelRequest(m) => spec_string_encodable(
                m.client_nonce,
            ),
            SupportedMessageView::OpenSecureChannelResponse(m) => spec_string_encodable(
                m.server_nonce,
            ),
            SupportedMessageView::Service { type_id, body } => !spec_is_channel_service(type_id),
            _ => true,
        }
    }

    /// What follows the service id in the body of the message.
    pub open spec fn payload(self) -> Seq<u8> {
        match self {
            SupportedMessageView::OpenSecureChannelRequest(m) => m.bytes(),
            SupportedMessageView::OpenSecureChannelResponse(m) => m.bytes(),
            SupportedMessageView::CloseSecureChannelRequest(m) => spec_request_header_bytes(
                m.request_header,
            ),
            SupportedMessageView::CloseSecureChannelResponse(m) => spec_response_header_bytes(
                m.response_header,
            ),
            SupportedMessageView::ServiceFault(m) => spec_response_header_bytes(m.response_header),
            SupportedMessageView::Service { type_id, body } => body,
            _ => Seq::empty(),
        }
    }

    /// The body of the message: the node id of its service, then its payload.
    pub open spec fn body(self) -> Seq<u8> {
        match self.type_id() {
            Some(id) => spec_type_id_bytes(id) + self.payload(),
            None => Seq::empty(),
        }
    }
}

/// The message that a body holds. A body that is cut short or malformed cannot
/// be decoded; a service id that is no numeric id of namespace 0, or that is
/// missing from the known ids where such are given, is unsupported. The five
/// channel services are always known.
pub open spec fn spec_decode_body(s: Seq<u8>, known: Option<Seq<u32>>) -> Result<
    SupportedMessageView,
    StatusCode,
> {
    match spec_read_type_id(s, 0) {
        Err(e) => Err(e),
        Ok((id, p)) => if id == OPEN_SECURE_CHANNEL_REQUEST_ID {
            match spec_read_open_request(s, p) {
                Some(m) => Ok(SupportedMessageView::OpenSecureChannelRequest(m)),
                None => Err(StatusCode::BadDecodingError),
            }
        } else if id == OPEN_SECURE_CHANNEL_RESPONSE_ID {
            match spec_read_open_response(s, p) {
                Some(m) => Ok(SupportedMessageView::OpenSecureChannelResponse(m)),
                None => Err(StatusCode::BadDecodingError),
            }
        } else if id == CLOSE_SECURE_CHANNEL_REQUEST_ID {
            match spec_read_request_header(s, p) {
                Some((request_header, _)) => Ok(
                    SupportedMessageView::CloseSecureChannelRequest(
                        CloseSecureChannelRequest { request_header },
                    ),
                ),
                None => Err(StatusCode::BadDecodingError),
            }
        } else if id == CLOSE_SECURE_CHANNEL_RESPONSE_ID {
            match spec_read_response_header(s, p) {
                Some((response_header, _)) => Ok(
                    SupportedMessageView::CloseSecureChannelResponse(
                        CloseSecureChannelResponse { response_header },
                    ),
                ),
                None => Err(StatusCode::BadDecodingError),
            }
        } else if id == SERVICE_FAULT_ID {
            match spec_read_response_header(s, p) {
                Some((response_header, _)) => Ok(
                    SupportedMessageView::ServiceFault(ServiceFault { response_header }),
                ),
                None => Err(StatusCode::BadDecodingError),
            }
        } else if known is Some && !known->Some_0.contains(id) {
            Err(StatusCode::BadServiceUnsupported)
        } else {
            Ok(SupportedMessageView::Service { type_id: id, body: s.subrange(p, s.len() as int) })
        },
    }
}

/// A request header takes 29 bytes.
pub proof fn lemma_request_header_bytes_len(h: RequestHeader)
    ensures
        spec_request_header_bytes(h).len() == 29,
{
    lemma_i64_bytes_len(h.timestamp);
    lemma_u32_bytes_len(h.request_handle);
    lemma_u32_bytes_len(h.return_diagnostics);
    lemma_u32_bytes_len(h.timeout_hint);
    lemma_string_bytes_len(None);
}

/// A response header takes 24 bytes.
pub proof fn lemma_response_header_bytes_len(h: ResponseHeader)
    ensures
        spec_response_header_bytes(h).len() == 24,
{
    lemma_i64_bytes_len(h.timestamp);
    lemma_u32_bytes_len(h.request_handle);
    lemma_u32_bytes_len(h.service_result.spec_bits());
    lemma_i32_bytes_len(-1i32);
}

/// A request header reads back from where it was written.
pub proof fn lemma_read_request_header_written(s: Seq<u8>, pos: int, h: RequestHeader)
    requires
        has_at(s, pos, spec_request_header_bytes(h)),
    ensures
        spec_read_request_header(s, pos) == Some((h, pos + 29)),
{
    let a = spec_null_node_id_bytes();
    let b = spec_i64_bytes(h.timestamp);
    let c = spec_u32_bytes(h.request_handle);
    let d = spec_u32_bytes(h.return_diagnostics);
    let e = spec_string_bytes(None);
    let f = spec_u32_bytes(h.timeout_hint);
    let g = spec_null_extension_object_bytes();
    lemma_i64_bytes_len(h.timestamp);
    lemma_u32_bytes_len(h.request_handle);
    lemma_u32_bytes_len(h.return_diagnostics);
    lemma_u32_bytes_len(h.timeout_hint);
    lemma_string_bytes_len(None);
    lemma_has_at_concat(s, pos, a + b + c + d + e + f, g);
    lemma_has_at_concat(s, pos, a + b + c + d + e, f);
    lemma_has_at_concat(s, pos, a + b + c + d, e);
    lemma_has_at_concat(s, pos, a + b + c, d);
    lemma_has_at_concat(s, pos, a + b, c);
    lemma_has_at_concat(s, pos, a, b);
    lemma_skip_null_node_id(s, pos);
    lemma_read_i64_written(s, pos + 2, h.timestamp);
    lemma_read_u32_written(s, pos + 10, h.request_handle);
    lemma_read_u32_written(s, pos + 14, h.return_diagnostics);
    lemma_read_string_written(s, pos + 18, None);
    lemma_read_u32_written(s, pos + 22, h.timeout_hint);
    lemma_skip_null_extension_object(s, pos + 26);
}

/// A response header reads back from where it was written.
pub proof fn lemma_read_response_header_written(s: Seq<u8>, pos: int, h: ResponseHeader)
    requires
        has_at(s, pos, spec_response_header_bytes(h)),
    ensures
        spec_read_response_header(s, pos) == Some((h, pos + 24)),
{
    let a = spec_i64_bytes(h.timestamp);
    let b = spec_u32_bytes(h.request_handle);
    let c = spec_u32_bytes(h.service_result.spec_bits());
    let d = seq![0u8];
    let e = spec_i32_bytes(-1i32);
    let f = spec_null_extension_object_bytes();
    lemma_i64_bytes_len(h.timestamp);
    lemma_u32_bytes_len(h.request_handle);
    lemma_u32_bytes_len(h.service_result.spec_bits());
    lemma_i32_bytes_len(-1i32);
    lemma_has_at_concat(s, pos, a + b + c + d + e, f);
    lemma_has_at_concat(s, pos, a + b + c + d, e);
    lemma_has_at_concat(s, pos, a + b + c, d);
    lemma_has_at_concat(s, pos, a + b, c);
    lemma_has_at_concat(s, pos, a, b);
    lemma_read_i64_written(s, pos, h.timestamp);
    lemma_read_u32_written(s, pos + 8, h.request_handle);
    lemma_read_u32_written(s, pos + 12, h.service_result.spec_bits());
    lemma_read_u8_written(s, pos + 16, 0u8);
    lemma_read_i32_written(s, pos + 17, -1i32);
    lemma_skip_null_extension_object(s, pos + 21);
    h.service_result.lemma_bits_round_trip();
}

/// An OpenSecureChannel request reads back from where it was written.
pub proof fn lemma_read_open_request_written(
    s: Seq<u8>,
    pos: int,
    m: OpenSecureChannelRequestView,
)
    requires
        spec_string_encodable(m.client_nonce),
        has_at(s, pos, m.bytes()),
    ensures
        spec_read_open_request(s, pos) == Some(m),
{
    let a = spec_request_header_bytes(m.request_header);
    let b = spec_u32_bytes(m.client_protocol_version);
    let c = spec_u32_bytes(m.request_type.spec_code());
    let d = spec_u32_bytes(m.security_mode.spec_code());
    let e = spec_string_bytes(m.client_nonce);
    let f = spec_u32_bytes(m.requested_lifetime);
    lemma_request_header_bytes_len(m.request_header);
    lemma_u32_bytes_len(m.client_protocol_version);
    lemma_u32_bytes_len(m.request_type.spec_code());
    lemma_u32_bytes_len(m.security_mode.spec_code());
    lemma_u32_bytes_len(m.requested_lifetime);
    lemma_string_bytes_len(m.client_nonce);
    lemma_has_at_concat(s, pos, a + b + c + d + e, f);
    lemma_has_at_concat(s, pos, a + b + c + d, e);
    lemma_has_at_concat(s, pos, a + b + c, d);
    lemma_has_at_concat(s, pos, a + b, c);
    lemma_has_at_concat(s, pos, a, b);
    lemma_read_request_header_written(s, pos, m.request_header);
    lemma_read_u32_written(s, pos + 29, m.client_protocol_version);
    lemma_read_u32_written(s, pos + 33, m.request_type.spec_code());
    lemma_read_u32_written(s, pos + 37, m.security_mode.spec_code());
    lemma_read_string_written(s, pos + 41, m.client_nonce);
    lemma_read_u32_written(s, pos + 41 + spec_string_len(m.client_nonce), m.requested_lifetime);
}

/// An OpenSecureChannel response reads back from where it was written.
pub proof fn lemma_read_open_response_written(
    s: Seq<u8>,
    pos: int,
    m: OpenSecureChannelResponseView,
)
    requires
        spec_string_encodable(m.server_nonce),
        has_at(s, pos, m.bytes()),
    ensures
        spec_read_open_response(s, pos) == Some(m),
{
    let a = spec_response_header_bytes(m.response_header);
    let b = spec_u32_bytes(m.server_protocol_version);
    let c = spec_u32_bytes(m.security_token.channel_id);
    let d = spec_u32_bytes(m.security_token.token_id);
    let e = spec_i64_bytes(m.security_token.created_at);
    let f = spec_u32_bytes(m.security_token.revised_lifetime);
    let g = spec_string_bytes(m.server_nonce);
    lemma_response_header_bytes_len(m.response_header);
    lemma_u32_bytes_len(m.server_protocol_version);
    lemma_u32_bytes_len(m.security_token.channel_id);
    lemma_u32_bytes_len(m.security_token.token_id);
    lemma_i64_bytes_len(m.security_token.created_at);
    lemma_u32_bytes_len(m.security_token.revised_lifetime);
    lemma_string_bytes_len(m.server_nonce);
    lemma_has_at_concat(s, pos, a + b + c + d + e + f, g);
    lemma_has_at_concat(s, pos, a + b + c + d + e, f);
    lemma_has_at_concat(s, pos, a + b + c + d, e);
    lemma_has_at_concat(s, pos, a + b + c, d);
    lemma_has_at_concat(s, pos, a + b, c);
    lemma_has_at_concat(s, pos, a, b);
    lemma_read_response_header_written(s, pos, m.response_header);
    lemma_read_u32_written(s, pos + 24, m.server_protocol_version);
    lemma_read_u32_written(s, pos + 28, m.security_token.channel_id);
    lemma_read_u32_written(s, pos + 32, m.security_token.token_id);
    lemma_read_i64_written(s, pos + 36, m.security_token.created_at);
    lemma_read_u32_written(s, pos + 44, m.security_token.revised_lifetime);
    lemma_read_string_written(s, pos + 48, m.server_nonce);
}

/// Decoding the body of a message that can be written gives the message back,
/// whatever service ids are known, as long as those of an undecoded service
/// message are among them.
pub proof fn lemma_decode_body_of_encoded(m: SupportedMessageView, known: Option<Seq<u32>>)
    requires
        m.encodable(),
        (m matches SupportedMessageView::Service { type_id, body } && known is Some)
            ==> known->Some_0.contains(m.type_id()->Some_0),
    ensures
        spec_decode_body(m.body(), known) == Ok::<SupportedMessageView, StatusCode>(m),
{
    let id = m.type_id()->Some_0;
    let s = m.body();
    let t = spec_type_id_bytes(id);
    lemma_type_id_bytes_len(id);
    assert(s.subrange(0, s.len() as int) =~= s);
    lemma_has_at_concat(s, 0, t, m.payload());
    lemma_read_type_id_written(s, 0, id);
    let p = t.len() as int;
    match m {
        SupportedMessageView::OpenSecureChannelRequest(x) => {
            lemma_read_open_request_written(s, p, x);
        },
        SupportedMessageView::OpenSecureChannelResponse(x) => {
            lemma_read_open_response_written(s, p, x);
        },
        SupportedMessageView::CloseSecureChannelRequest(x) => {
            lemma_read_request_header_written(s, p, x.request_header);
        },
        SupportedMessageView::CloseSecureChannelResponse(x) => {
            lemma_read_response_header_written(s, p, x.response_header);
        },
        SupportedMessageView::ServiceFault(x) => {
            lemma_read_response_header_written(s, p, x.response_header);
        },
        SupportedMessageView::Service { type_id, body } => {
            assert(s.subrange(p, s.len() as int) =~= body);
        },
        _ => {},
    }
}

impl RequestHeader {
    /// Appends the header, with a null token, no audit entry and no additional header.
    pub fn encode(&self, stream: &mut Vec<u8>)
        ensures
            final(stream)@ == old(stream)@ + spec_request_header_bytes(*self),
    {
        write_u8(stream, 0);
        write_u8(stream, 0);
        write_i64(stream, self.timestamp);
        write_u32(stream, self.request_handle);
        write_u32(stream, self.return_diagnostics);
        write_i32(stream, -1);
        write_u32(stream, self.timeout_hint);
        write_u8(stream, 0);
        write_u8(stream, 0);
        write_u8(stream, 0);
        assert(stream@ =~= old(stream)@ + spec_request_header_bytes(*self));
    }

    /// Reads the header that starts at `pos` and returns it with the position
    /// behind it; `None` if the input is cut short or malformed.
    pub fn decode(stream: &[u8], pos: usize) -> (r: Option<(RequestHeader, usize)>)
        ensures
            match spec_read_request_header(stream@, pos as int) {
                Some((h, next)) => r == Some((h, next as usize)) && next <= stream@.len(),
                None => r is None,
            },
    {
        let total = stream.len();
        let at_timestamp = match skip_node_id(stream, pos) {
            Some(p) => p,
            None => {
                return None;
            },
        };
        if total - at_timestamp < 16 {
            return None;
        }
        let timestamp = read_i64(stream, at_timestamp).unwrap();
        let request_handle = read_u32(stream, at_timestamp + 8).unwrap();
        let return_diagnostics = read_u32(stream, at_timestamp + 12).unwrap();
        let at_timeout = match skip_string(stream, at_timestamp + 16) {
            Some(p) => p,
            None => {
                return None;
            },
        };
        let timeout_hint = match read_u32(stream, at_timeout) {
            Some(v) => v,
            None => {
                return None;
            },
        };
        match skip_extension_object(stream, at_timeout + 4) {
            Some(behind) => Some(
                (RequestHeader { timestamp, request_handle, return_diagnostics, timeout_hint }, behind),
            ),
            None => None,
        }
    }
}

impl ResponseHeader {
    /// The header of the answer to `request`, made at `timestamp` with the given result.
    pub fn new(request: &RequestHeader, timestamp: i64, service_result: StatusCode) -> (r:
        ResponseHeader)
        ensures
            r == (ResponseHeader {
                timestamp,
                request_handle: request.request_handle,
                service_result,
            }),
    {
        ResponseHeader { timestamp, request_handle: request.request_handle, service_result }
    }

    /// Appends the header, without diagnostics, string table or additional header.
    pub fn encode(&self, stream: &mut Vec<u8>)
        ensures
            final(stream)@ == old(stream)@ + spec_response_header_bytes(*self),
    {
        write_i64(stream, self.timestamp);
        write_u32(stream, self.request_handle);
        write_u32(stream, self.service_result.bits());
        write_u8(stream, 0);
        write_i32(stream, -1);
        write_u8(stream, 0);
        write_u8(stream, 0);
        write_u8(stream, 0);
        assert(stream@ =~= old(stream)@ + spec_response_header_bytes(*self));
    }

    /// Reads the header that starts at `pos` and returns it with the position
    /// behind it; `None` if the input is cut short, malformed, or in a form that
    /// is not read.
    pub fn decode(stream: &[u8], pos: usize) -> (r: Option<(ResponseHeader, usize)>)
        ensures
            match spec_read_response_header(stream@, pos as int) {
                Some((h, next)) => r == Some((h, next as usize)) && next <= stream@.len(),
                None => r is None,
            },
    {
        let total = stream.len();
        if pos > total || total - pos < 21 {
            return None;
        }
        let timestamp = read_i64(stream, pos).unwrap();
        let request_handle = read_u32(stream, pos + 8).unwrap();
        let service_result = match StatusCode::from_bits(read_u32(stream, pos + 12).unwrap()) {
            Some(v) => v,
            None => {
                return None;
            },
        };
        if stream[pos + 16] != 0 || read_i32(stream, pos + 17).unwrap() > 0 {
            return None;
        }
        match skip_extension_object(stream, pos + 21) {
            Some(p) => Some((ResponseHeader { timestamp, request_handle, service_result }, p)),
            None => None,
        }
    }
}

impl OpenSecureChannelRequest {
    fn encode(&self, stream: &mut Vec<u8>)
        requires
            spec_string_encodable(self@.client_nonce),
        ensures
            final(stream)@ == old(stream)@ + self@.bytes(),
    {
        self.request_header.encode(stream);
        write_u32(stream, self.client_protocol_version);
        write_u32(stream, self.request_type.code());
        write_u32(stream, self.security_mode.code());
        let _ = self.client_nonce.encode(stream);
        write_u32(stream, self.requested_lifetime);
        assert(stream@ =~= old(stream)@ + self@.bytes());
    }

    fn decode(stream: &[u8], pos: usize) -> (r: Option<OpenSecureChannelRequest>)
        ensures
            match spec_read_open_request(stream@, pos as int) {
                Some(v) => r matches Some(m) && m@ == v,
                None => r is None,
            },
    {
        let total = stream.len();
        let (request_header, p) = match RequestHeader::decode(stream, pos) {
            Some(v) => v,
            None => {
                return None;
            },
        };
        if total - p < 12 {
            return None;
        }
        let client_protocol_version = read_u32(stream, p).unwrap();
        let request_type = match SecurityTokenRequestType::from_code(
            read_u32(stream, p + 4).unwrap(),
        ) {
            Some(v) => v,
            None => {
                return None;
            },
        };
        let security_mode = MessageSecurityMode::from_code(read_u32(stream, p + 8).unwrap());
        let (client_nonce, at_timeout) = match UAString::decode(stream, p + 12) {
            Ok(v) => v,
            Err(_) => {
                return None;
            },
        };
        match read_u32(stream, at_timeout) {
            Some(requested_lifetime) => Some(
                OpenSecureChannelRequest {
                    request_header,
                    client_protocol_version,
                    request_type,
                    security_mode,
                    client_nonce,
                    requested_lifetime,
                },
            ),
            None => None,
        }
    }
}

impl OpenSecureChannelResponse {
    fn encode(&self, stream: &mut Vec<u8>)
        requires
            spec_string_encodable(self@.server_nonce),
        ensures
            final(stream)@ == old(stream)@ + self@.bytes(),
    {
        self.response_header.encode(stream);
        write_u32(stream, self.server_protocol_version);
        write_u32(stream, self.security_token.channel_id);
        write_u32(stream, self.security_token.token_id);
        write_i64(stream, self.security_token.created_at);
        write_u32(stream, self.security_token.revised_lifetime);
        let _ = self.server_nonce.encode(stream);
        assert(stream@ =~= old(stream)@ + self@.bytes());
    }

    fn decode(stream: &[u8], pos: usize) -> (r: Option<OpenSecureChannelResponse>)
        ensures
            match spec_read_open_response(stream@, pos as int) {
                Some(v) => r matches Some(m) && m@ == v,
                None => r is None,
            },
    {
        let total = stream.len();
        let (response_header, p) = match ResponseHeader::decode(stream, pos) {
            Some(v) => v,
            None => {
                return None;
            },
        };
        if total - p < 24 {
            return None;
        }
        let server_protocol_version = read_u32(stream, p).unwrap();
        let security_token = ChannelSecurityToken {
            channel_id: read_u32(stream, p + 4).unwrap(),
            token_id: read_u32(stream, p + 8).unwrap(),
            created_at: read_i64(stream, p + 12).unwrap(),
            revised_lifetime: read_u32(stream, p + 20).unwrap(),
        };
        match UAString::decode(stream, p + 24) {
            Ok((server_nonce, _)) => Some(
                OpenSecureChannelResponse {
                    response_header,
                    server_protocol_version,
                    security_token,
                    server_nonce,
                },
            ),
            Err(_) => None,
        }
    }
}

/// True when `id` is one of `ids`.
pub fn contains_id(ids: &Vec<u32>, id: u32) -> (r: bool)
    ensures
        r == ids@.contains(id),
{
    let mut i: usize = 0;
    while i < ids.len()
        invariant
            i <= ids.len(),
            forall|j: int| 0 <= j < i ==> ids@[j] != id,
        decreases ids.len() - i,
    {
        if ids[i] == id {
            return true;
        }
        i = i + 1;
    }
    false
}

impl SupportedMessage {
    /// True for the five services that open, close or fault the channel.
    pub fn is_channel_service(id: u32) -> (r: bool)
        ensures
            r == spec_is_channel_service(id),
    {
        id == OPEN_SECURE_CHANNEL_REQUEST_ID || id == OPEN_SECURE_CHANNEL_RESPONSE_ID || id
            == CLOSE_SECURE_CHANNEL_REQUEST_ID || id == CLOSE_SECURE_CHANNEL_RESPONSE_ID || id
            == SERVICE_FAULT_ID
    }

    /// True when the message is `Invalid`.
    pub fn is_invalid(&self) -> (r: bool)
        ensures
            r == (self@ is Invalid),
    {
        match self {
            SupportedMessage::Invalid(_) => true,
            _ => false,
        }
    }

    /// True when the message can be written into chunks.
    pub fn is_encodable(&self) -> (r: bool)
        ensures
            r == self@.encodable(),
    {
        match self {
            SupportedMessage::Invalid(_) => false,
            SupportedMessage::AcknowledgeMessage(_) => false,
            SupportedMessage::OpenSecureChannelRequest(m) => match &m.client_nonce.value {
                Some(v) => v.len() <= 0x7fff_ffff,
                None => true,
            },
            SupportedMessage::OpenSecureChannelResponse(m) => match &m.server_nonce.value {
                Some(v) => v.len() <= 0x7fff_ffff,
                None => true,
            },
            SupportedMessage::Service(m) => !Self::is_channel_service(m.type_id),
            _ => true,
        }
    }

    /// The body of the message: the node id of its service, then its fields.
    /// A message that cannot be written is refused.
    pub fn encode_body(&self) -> (r: Result<Vec<u8>, StatusCode>)
        ensures
            self@.encodable() ==> (r matches Ok(body) && body@ == self@.body()),
            !self@.encodable() ==> (r matches Err(e) && e == StatusCode::BadEncodingError),
    {
        if !self.is_encodable() {
            return Err(StatusCode::BadEncodingError);
        }
        let mut out: Vec<u8> = Vec::new();
        match self {
            SupportedMessage::OpenSecureChannelRequest(m) => {
                write_type_id(&mut out, OPEN_SECURE_CHANNEL_REQUEST_ID);
                m.encode(&mut out);
            },
            SupportedMessage::OpenSecureChannelResponse(m) => {
                write_type_id(&mut out, OPEN_SECURE_CHANNEL_RESPONSE_ID);
                m.encode(&mut out);
            },
            SupportedMessage::CloseSecureChannelRequest(m) => {
                write_type_id(&mut out, CLOSE_SECURE_CHANNEL_REQUEST_ID);
                m.request_header.encode(&mut out);
            },
            SupportedMessage::CloseSecureChannelResponse(m) => {
                write_type_id(&mut out, CLOSE_SECURE_CHANNEL_RESPONSE_ID);
                m.response_header.encode(&mut out);
            },
            SupportedMessage::ServiceFault(m) => {
                write_type_id(&mut out, SERVICE_FAULT_ID);
                m.response_header.encode(&mut out);
            },
            SupportedMessage::Service(m) => {
                write_type_id(&mut out, m.type_id);
                append_bytes(&mut out, m.body.as_slice());
            },
            _ => {},
        }
        assert(out@ =~= self@.body());
        Ok(out)
    }

    /// The message that `body` holds.
    pub fn decode_body(body: &[u8], known: Option<&Vec<u32>>) -> (r: Result<
        SupportedMessage,
        StatusCode,
    >)
        ensures
            match spec_decode_body(
                body@,
                match known {
                    Some(ids) => Some(ids@),
                    None => None,
                },
            ) {
                Ok(v) => r matches Ok(m) && m@ == v,
                Err(e) => r matches Err(x) && x == e,
            },
    {
        let (id, p) = match read_type_id(body, 0) {
            Ok(v) => v,
            Err(e) => {
                return Err(e);
            },
        };
        if id == OPEN_SECURE_CHANNEL_REQUEST_ID {
            match OpenSecureChannelRequest::decode(body, p) {
                Some(m) => Ok(SupportedMessage::OpenSecureChannelRequest(m)),
                None => Err(StatusCode::BadDecodingError),
            }
        } else if id == OPEN_SECURE_CHANNEL_RESPONSE_ID {
            match OpenSecureChannelResponse::decode(body, p) {
                Some(m) => Ok(SupportedMessage::OpenSecureChannelResponse(m)),
                None => Err(StatusCode::BadDecodingError),
            }
        } else if id == CLOSE_SECURE_CHANNEL_REQUEST_ID {
            match RequestHeader::decode(body, p) {
                Some((request_header, _)) => Ok(
                    SupportedMessage::CloseSecureChannelRequest(
                        CloseSecureChannelRequest { request_header },
                    ),
                ),
                None => Err(StatusCode::BadDecodingError),
            }
        } else if id == CLOSE_SECURE_CHANNEL_RESPONSE_ID {
            match ResponseHeader::decode(body, p) {
                Some((response_header, _)) => Ok(
                    SupportedMessage::CloseSecureChannelResponse(
                        CloseSecureChannelResponse { response_header },
                    ),
                ),
                None => Err(StatusCode::BadDecodingError),
            }
        } else if id == SERVICE_FAULT_ID {
            match ResponseHeader::decode(body, p) {
                Some((response_header, _)) => Ok(
                    SupportedMessage::ServiceFault(ServiceFault { response_header }),
                ),
                None => Err(StatusCode::BadDecodingError),
            }
        } else {
            let supported = match known {
                Some(ids) => contains_id(ids, id),
                None => true,
            };
            if !supported {
                Err(StatusCode::BadServiceUnsupported)
            } else {
                Ok(
                    SupportedMessage::Service(
                        ServiceMessage { type_id: id, body: copy_range(body, p, body.len()) },
                    ),
                )
            }
        }
    }

    /// The fault that answers the request with the given handle.
    pub fn service_fault_for_handle(
        request_handle: u32,
        timestamp: i64,
        service_result: StatusCode,
    ) -> (r: SupportedMessage)
        ensures
            r@ == SupportedMessageView::ServiceFault(
                ServiceFault {
                    response_header: ResponseHeader { timestamp, request_handle, service_result },
                },
            ),
    {
        SupportedMessage::ServiceFault(
            ServiceFault {
                response_header: ResponseHeader { timestamp, request_handle, service_result },
            },
        )
    }

    /// The fault that answers `request` with `service_result`.
    pub fn service_fault(request: &RequestHeader, timestamp: i64, service_result: StatusCode) -> (r:
        SupportedMessage)
        ensures
            r@ == SupportedMessageView::ServiceFault(
                ServiceFault {
                    response_header: ResponseHeader {
                        timestamp,
                        request_handle: request.request_handle,
                        service_result,
                    },
                },
            ),
    {
        SupportedMessage::ServiceFault(
            ServiceFault { response_header: ResponseHeader::new(request, timestamp, service_result) },
        )
    }
}

} // verus!
