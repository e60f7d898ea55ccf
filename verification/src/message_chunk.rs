//! A chunk of a secure channel: the frame of an OPN, MSG or CLO message with its
//! channel id, security header, sequence header and body.

use crate::encoding::{
    append_bytes, has_at, lemma_has_at_concat, lemma_read_string_written,
    lemma_read_u32_written, lemma_string_bytes_len, lemma_u32_bytes_len, read_u32,
    spec_read_string, spec_read_u32, spec_string_bytes, spec_string_encodable, spec_string_len,
    spec_u32_bytes, write_u32, ByteString, UAString,
};
use crate::status_code::StatusCode;
use crate::tcp_types::{
    lemma_read_header_written, spec_header_bytes, spec_read_header, MessageHeader,
    MessageIsFinalType, MessageType,
};
use vstd::prelude::*;

verus! {

/// The kind of message a chunk belongs to.
#[derive(Clone, Copy, Debug, PartialEq, Eq, Structural)]
pub enum MessageChunkType {
    /// `MSG`: a service request or response.
    Message,
    /// `OPN`: opens or renews the secure channel.
    OpenSecureChannel,
    /// `CLO`: closes the secure channel.
    CloseSecureChannel,
}

impl MessageChunkType {
    /// The message type under which a chunk of this kind is framed.
    pub open spec fn spec_message_type(self) -> MessageType {
        match self {
            MessageChunkType::Message => MessageType::Message,
            MessageChunkType::OpenSecureChannel => MessageType::OpenSecureChannel,
            MessageChunkType::CloseSecureChannel => MessageType::CloseSecureChannel,
        }
    }

    /// The kind of chunk that a message type frames; none for HEL, ACK and ERR.
    pub open spec fn spec_of(message_type: MessageType) -> Option<MessageChunkType> {
        match message_type {
            MessageType::Message => Some(MessageChunkType::Message),
            MessageType::OpenSecureChannel => Some(MessageChunkType::OpenSecureChannel),
            MessageType::CloseSecureChannel => Some(MessageChunkType::CloseSecureChannel),
            _ => None,
        }
    }

    /// The message type under which a chunk of this kind is framed.
    #[verifier::when_used_as_spec(spec_message_type)]
    pub fn message_type(self) -> (r: MessageType)
        ensures
            r == self.spec_message_type(),
    {
        match self {
            MessageChunkType::Message => MessageType::Message,
            MessageChunkType::OpenSecureChannel => MessageType::OpenSecureChannel,
            MessageChunkType::CloseSecureChannel => MessageType::CloseSecureChannel,
        }
    }

    /// The kind of chunk that a message type frames; none for HEL, ACK and ERR.
    pub fn of(message_type: MessageType) -> (r: Option<MessageChunkType>)
        ensures
            r == Self::spec_of(message_type),
    {
        match message_type {
            MessageType::Message => Some(MessageChunkType::Message),
            MessageType::OpenSecureChannel => Some(MessageChunkType::OpenSecureChannel),
            MessageType::CloseSecureChannel => Some(MessageChunkType::CloseSecureChannel),
            _ => None,
        }
    }

    /// True for OPN.
    pub open spec fn spec_is_open_secure_channel(self) -> bool {
        self == MessageChunkType::OpenSecureChannel
    }

    /// True for OPN.
    #[verifier::when_used_as_spec(spec_is_open_secure_channel)]
    pub fn is_open_secure_channel(self) -> (r: bool)
        ensures
            r == self.spec_is_open_secure_channel(),
    {
        match self {
            MessageChunkType::OpenSecureChannel => true,
            _ => false,
        }
    }
}

/// The first twelve bytes of a chunk: the frame header and the channel id.
#[derive(Clone, Copy, Debug, PartialEq, Eq, Structural)]
pub struct MessageChunkHeader {
    pub message_type: MessageChunkType,
    pub is_final: MessageIsFinalType,
    pub message_size: u32,
    pub secure_channel_id: u32,
}

/// The security header of an OPN chunk.
#[derive(Debug, Clone, PartialEq, Eq)]
pub struct AsymmetricSecurityHeader {
    pub security_policy_uri: UAString,
    pub sender_certificate: ByteString,
    pub receiver_certificate_thumbprint: ByteString,
}

/// The security header of a MSG or CLO chunk.
#[derive(Clone, Copy, Debug, PartialEq, Eq, Structural)]
pub struct SymmetricSecurityHeader {
    pub token_id: u32,
}

/// The security header of a chunk.
#[derive(Debug, Clone, PartialEq, Eq)]
pub enum SecurityHeader {
    Asymmetric(AsymmetricSecurityHeader),
    Symmetric(SymmetricSecurityHeader),
}

/// A security header as a mathematical value.
pub enum SecurityHeaderView {
    Asymmetric {
        security_policy_uri: Option<Seq<u8>>,
        sender_certificate: Option<Seq<u8>>,
        receiver_certificate_thumbprint: Option<Seq<u8>>,
    },
    Symmetric { token_id: u32 },
}

impl View for SecurityHeader {
    type V = SecurityHeaderView;

    open spec fn view(&self) -> SecurityHeaderView {
        match self {
            SecurityHeader::Asymmetric(h) => SecurityHeaderView::Asymmetric {
                security_policy_uri: h.security_policy_uri@,
                sender_certificate: h.sender_certificate@,
                receiver_certificate_thumbprint: h.receiver_certificate_thumbprint@,
            },
            SecurityHeader::Symmetric(h) => SecurityHeaderView::Symmetric { token_id: h.token_id },
        }
    }
}

/// The numbers that order the chunks of a channel and tie them to a request.
#[derive(Clone, Copy, Debug, PartialEq, Eq, Structural)]
pub struct SequenceHeader {
    pub sequence_number: u32,
    pub request_id: u32,
}

/// What the headers of a chunk say, and where its body lies.
#[derive(Debug, Clone, PartialEq, Eq)]
pub struct ChunkInfo {
    pub message_header: MessageChunkHeader,
    pub security_header: SecurityHeader,
    pub sequence_header: SequenceHeader,
    /// Where the body starts in the chunk's data.
    pub body_offset: usize,
    /// How many bytes the body has.
    pub body_length: usize,
}

/// The headers of a chunk as a mathematical value.
pub struct ChunkInfoView {
    pub message_header: MessageChunkHeader,
    pub security_header: SecurityHeaderView,
    pub sequence_header: SequenceHeader,
    pub body_offset: int,
    pub body_length: int,
}

impl View for ChunkInfo {
    type V = ChunkInfoView;

    open spec fn view(&self) -> ChunkInfoView {
        ChunkInfoView {
            message_header: self.message_header,
            security_header: self.security_header@,
            sequence_header: self.sequence_header,
            body_offset: self.body_offset as int,
            body_length: self.body_length as int,
        }
    }
}

/// One chunk as it travels: the whole frame, header included.
#[derive(Debug, Clone, PartialEq, Eq)]
pub struct MessageChunk {
    pub data: Vec<u8>,
}

impl View for MessageChunk {
    type V = Seq<u8>;

    open spec fn view(&self) -> Seq<u8> {
        self.data@
    }
}

impl SecurityHeaderView {
    /// A header can be written when each of its strings can.
    pub open spec fn encodable(self) -> bool {
        match self {
            SecurityHeaderView::Asymmetric {
                security_policy_uri,
                sender_certificate,
                receiver_certificate_thumbprint,
            } => spec_string_encodable(security_policy_uri) && spec_string_encodable(
                sender_certificate,
            ) && spec_string_encodable(receiver_certificate_thumbprint),
            SecurityHeaderView::Symmetric { token_id } => true,
        }
    }

    /// The number of bytes the header takes on the wire.
    pub open spec fn byte_len(self) -> nat {
        match self {
            SecurityHeaderView::Asymmetric {
                security_policy_uri,
                sender_certificate,
                receiver_certificate_thumbprint,
            } => spec_string_len(security_policy_uri) + spec_string_len(sender_certificate)
                + spec_string_len(receiver_certificate_thumbprint),
            SecurityHeaderView::Symmetric { token_id } => 4,
        }
    }

    /// The header on the wire.
    pub open spec fn bytes(self) -> Seq<u8> {
        match self {
            SecurityHeaderView::Asymmetric {
                security_policy_uri,
                sender_certificate,
                receiver_certificate_thumbprint,
            } => spec_string_bytes(security_policy_uri) + spec_string_bytes(sender_certificate)
                + spec_string_bytes(receiver_certificate_thumbprint),
            SecurityHeaderView::Symmetric { token_id } => spec_u32_bytes(token_id),
        }
    }

    /// The header that an OPN chunk carries is asymmetric, that of any other chunk symmetric.
    pub open spec fn fits(self, message_type: MessageChunkType) -> bool {
        (self is Asymmetric) == (message_type == MessageChunkType::OpenSecureChannel)
    }
}

/// The security header at `pos`: three strings in an OPN chunk, else a token id.
pub open spec fn spec_read_security_header(s: Seq<u8>, pos: int, asymmetric: bool) -> Option<
    (SecurityHeaderView, int),
> {
    if asymmetric {
        match spec_read_string(s, pos) {
            None => None,
            Some((security_policy_uri, at_certificate)) => match spec_read_string(s, at_certificate) {
                None => None,
                Some((sender_certificate, at_thumbprint)) => match spec_read_string(s, at_thumbprint) {
                    None => None,
                    Some((receiver_certificate_thumbprint, behind)) => Some(
                        (
                            SecurityHeaderView::Asymmetric {
                                security_policy_uri,
                                sender_certificate,
                                receiver_certificate_thumbprint,
                            },
                            behind,
                        ),
                    ),
                },
            },
        }
    } else {
        match spec_read_u32(s, pos) {
            None => None,
            Some(token_id) => Some((SecurityHeaderView::Symmetric { token_id }, pos + 4)),
        }
    }
}

/// The first twelve bytes of a chunk, read as its header. The frame header must be
/// well formed and name a chunk type.
pub open spec fn spec_chunk_header(data: Seq<u8>) -> Result<MessageChunkHeader, StatusCode> {
    match spec_read_header(data, 0) {
        Err(e) => Err(e),
        Ok(h) => match MessageChunkType::spec_of(h.message_type) {
            None => Err(StatusCode::BadDecodingError),
            Some(message_type) => match spec_read_u32(data, 8) {
                None => Err(StatusCode::BadDecodingError),
                Some(secure_channel_id) => Ok(
                    MessageChunkHeader {
                        message_type,
                        is_final: h.is_final,
                        message_size: h.message_size,
                        secure_channel_id,
                    },
                ),
            },
        },
    }
}

/// All headers of a chunk. The declared size must be the length of the data, and
/// the security and sequence headers must lie inside it; what follows them is the body.
#[verifier::opaque]
pub open spec fn spec_chunk_info(data: Seq<u8>) -> Result<ChunkInfoView, StatusCode> {
    match spec_chunk_header(data) {
        Err(e) => Err(e),
        Ok(message_header) => if message_header.message_size != data.len() {
            Err(StatusCode::BadDecodingError)
        } else {
            match spec_read_security_header(
                data,
                12,
                message_header.message_type == MessageChunkType::OpenSecureChannel,
            ) {
                None => Err(StatusCode::BadDecodingError),
                Some((security_header, p)) => if p + 8 > data.len() {
                    Err(StatusCode::BadDecodingError)
                } else {
                    Ok(
                        ChunkInfoView {
                            message_header,
                            security_header,
                            sequence_header: SequenceHeader {
                                sequence_number: spec_read_u32(data, p)->Some_0,
                                request_id: spec_read_u32(data, p + 4)->Some_0,
                            },
                            body_offset: p + 8,
                            body_length: data.len() - (p + 8),
                        },
                    )
                },
            }
        },
    }
}

/// The headers of a chunk agree with its first twelve bytes, and its body lies
/// inside its data.
pub proof fn lemma_chunk_info_header(data: Seq<u8>)
    ensures
        spec_chunk_info(data) matches Ok(info) ==> {
            &&& spec_chunk_header(data) == Ok::<MessageChunkHeader, StatusCode>(
                info.message_header,
            )
            &&& info.security_header.fits(info.message_header.message_type)
            &&& 20 <= info.body_offset
            &&& 0 <= info.body_length
            &&& info.body_offset + info.body_length == data.len()
        },
        spec_chunk_header(data) matches Err(e) ==> spec_chunk_info(data) == Err::<
            ChunkInfoView,
            StatusCode,
        >(e),
{
    reveal(spec_chunk_info);
}

/// The body of a chunk with the given headers.
pub open spec fn spec_chunk_body(data: Seq<u8>, info: ChunkInfoView) -> Seq<u8> {
    data.subrange(info.body_offset, info.body_offset + info.body_length)
}

/// The number of bytes that stand before the body of a chunk with this security header.
pub open spec fn spec_chunk_overhead(security_header: SecurityHeaderView) -> nat {
    20 + security_header.byte_len()
}

/// The size of a chunk with this security header and a body of `body_len` bytes.
pub open spec fn spec_chunk_size(security_header: SecurityHeaderView, body_len: nat) -> nat {
    spec_chunk_overhead(security_header) + body_len
}

/// The bytes of a chunk built from its parts.
pub open spec fn spec_chunk_bytes(
    message_type: MessageChunkType,
    is_final: MessageIsFinalType,
    secure_channel_id: u32,
    security_header: SecurityHeaderView,
    sequence_header: SequenceHeader,
    body: Seq<u8>,
) -> Seq<u8> {
    spec_header_bytes(
        MessageHeader {
            message_type: message_type.spec_message_type(),
            is_final,
            message_size: spec_chunk_size(security_header, body.len()) as u32,
        },
    ) + spec_u32_bytes(secure_channel_id) + security_header.bytes() + spec_u32_bytes(
        sequence_header.sequence_number,
    ) + spec_u32_bytes(sequence_header.request_id) + body
}

/// A security header takes as many bytes as were counted for it.
pub proof fn lemma_security_header_bytes_len(h: SecurityHeaderView)
    ensures
        h.bytes().len() == h.byte_len(),
{
    match h {
        SecurityHeaderView::Asymmetric {
            security_policy_uri,
            sender_certificate,
            receiver_certificate_thumbprint,
        } => {
            lemma_string_bytes_len(security_policy_uri);
            lemma_string_bytes_len(sender_certificate);
            lemma_string_bytes_len(receiver_certificate_thumbprint);
        },
        SecurityHeaderView::Symmetric { token_id } => {
            lemma_u32_bytes_len(token_id);
        },
    }
}

/// A security header that can be written reads back from where it was written.
pub proof fn lemma_read_security_header_written(s: Seq<u8>, pos: int, h: SecurityHeaderView)
    requires
        h.encodable(),
        has_at(s, pos, h.bytes()),
    ensures
        spec_read_security_header(s, pos, h is Asymmetric) == Some((h, pos + h.byte_len())),
{
    match h {
        SecurityHeaderView::Asymmetric {
            security_policy_uri,
            sender_certificate,
            receiver_certificate_thumbprint,
        } => {
            let a = spec_string_bytes(security_policy_uri);
            let b = spec_string_bytes(sender_certificate);
            let c = spec_string_bytes(receiver_certificate_thumbprint);
            lemma_string_bytes_len(security_policy_uri);
            lemma_string_bytes_len(sender_certificate);
            lemma_string_bytes_len(receiver_certificate_thumbprint);
            lemma_has_at_concat(s, pos, a + b, c);
            lemma_has_at_concat(s, pos, a, b);
            lemma_read_string_written(s, pos, security_policy_uri);
            lemma_read_string_written(s, pos + a.len(), sender_certificate);
            lemma_read_string_written(s, pos + a.len() + b.len(), receiver_certificate_thumbprint);
        },
        SecurityHeaderView::Symmetric { token_id } => {
            lemma_read_u32_written(s, pos, token_id);
        },
    }
}

/// A chunk built from its parts has the size that was computed for it, and its
/// headers and body read back as they were given.
pub proof fn lemma_chunk_info_of_bytes(
    message_type: MessageChunkType,
    is_final: MessageIsFinalType,
    secure_channel_id: u32,
    security_header: SecurityHeaderView,
    sequence_header: SequenceHeader,
    body: Seq<u8>,
)
    requires
        security_header.encodable(),
        security_header.fits(message_type),
        spec_chunk_size(security_header, body.len()) <= u32::MAX,
    ensures
        ({
            let data = spec_chunk_bytes(
                message_type,
                is_final,
                secure_channel_id,
                security_header,
                sequence_header,
                body,
            );
            let info = ChunkInfoView {
                message_header: MessageChunkHeader {
                    message_type,
                    is_final,
                    message_size: spec_chunk_size(security_header, body.len()) as u32,
                    secure_channel_id,
                },
                security_header,
                sequence_header,
                body_offset: spec_chunk_overhead(security_header) as int,
                body_length: body.len() as int,
            };
            &&& data.len() == spec_chunk_size(security_header, body.len())
            &&& spec_chunk_info(data) == Ok::<ChunkInfoView, StatusCode>(info)
            &&& spec_chunk_body(data, info) == body
        }),
{
    reveal(spec_chunk_info);
    let size = spec_chunk_size(security_header, body.len()) as u32;
    let header = MessageHeader {
        message_type: message_type.spec_message_type(),
        is_final,
        message_size: size,
    };
    let hb = spec_header_bytes(header);
    let cb = spec_u32_bytes(secure_channel_id);
    let sb = security_header.bytes();
    let qb = spec_u32_bytes(sequence_header.sequence_number);
    let rb = spec_u32_bytes(sequence_header.request_id);
    let data = hb + cb + sb + qb + rb + body;
    lemma_u32_bytes_len(size);
    lemma_u32_bytes_len(secure_channel_id);
    lemma_u32_bytes_len(sequence_header.sequence_number);
    lemma_u32_bytes_len(sequence_header.request_id);
    lemma_security_header_bytes_len(security_header);
    assert(data.subrange(0, data.len() as int) =~= data);
    lemma_has_at_concat(data, 0, hb + cb + sb + qb + rb, body);
    lemma_has_at_concat(data, 0, hb + cb + sb + qb, rb);
    lemma_has_at_concat(data, 0, hb + cb + sb, qb);
    lemma_has_at_concat(data, 0, hb + cb, sb);
    lemma_has_at_concat(data, 0, hb, cb);
    lemma_read_header_written(data, 0, header);
    lemma_read_u32_written(data, 8, secure_channel_id);
    lemma_read_security_header_written(data, 12, security_header);
    let p: int = 12 + security_header.byte_len() as int;
    lemma_read_u32_written(data, p, sequence_header.sequence_number);
    lemma_read_u32_written(data, p + 4, sequence_header.request_id);
}

impl SecurityHeader {
    /// True when both headers say the same.
    pub fn same(&self, other: &SecurityHeader) -> (r: bool)
        ensures
            r == (self@ == other@),
    {
        match (self, other) {
            (SecurityHeader::Asymmetric(a), SecurityHeader::Asymmetric(b)) => {
                a.security_policy_uri.same(&b.security_policy_uri) && a.sender_certificate.same(
                    &b.sender_certificate,
                ) && a.receiver_certificate_thumbprint.same(&b.receiver_certificate_thumbprint)
            },
            (SecurityHeader::Symmetric(a), SecurityHeader::Symmetric(b)) => a.token_id
                == b.token_id,
            _ => false,
        }
    }

    /// The size of the header on the wire, if each of its strings can be written.
    pub fn byte_len(&self) -> (r: Option<u64>)
        ensures
            self@.encodable() ==> r == Some(self@.byte_len() as u64),
            !self@.encodable() ==> r is None,
    {
        match self {
            SecurityHeader::Asymmetric(h) => {
                let a: usize = match &h.security_policy_uri.value {
                    Some(v) => v.len(),
                    None => 0,
                };
                let b: usize = match &h.sender_certificate.value {
                    Some(v) => v.len(),
                    None => 0,
                };
                let c: usize = match &h.receiver_certificate_thumbprint.value {
                    Some(v) => v.len(),
                    None => 0,
                };
                if a > 0x7fff_ffff || b > 0x7fff_ffff || c > 0x7fff_ffff {
                    None
                } else {
                    Some(12 + a as u64 + b as u64 + c as u64)
                }
            },
            SecurityHeader::Symmetric(_) => Some(4),
        }
    }

    /// Appends the header to `stream`.
    pub fn encode(&self, stream: &mut Vec<u8>)
        requires
            self@.encodable(),
        ensures
            final(stream)@ == old(stream)@ + self@.bytes(),
    {
        match self {
            SecurityHeader::Asymmetric(h) => {
                let _ = h.security_policy_uri.encode(stream);
                let _ = h.sender_certificate.encode(stream);
                let _ = h.receiver_certificate_thumbprint.encode(stream);
                assert(stream@ =~= old(stream)@ + self@.bytes());
            },
            SecurityHeader::Symmetric(h) => {
                write_u32(stream, h.token_id);
            },
        }
    }

    /// Reads the security header that starts at `pos` and returns it with the
    /// position behind it.
    pub fn decode(stream: &[u8], pos: usize, asymmetric: bool) -> (r: Result<
        (SecurityHeader, usize),
        StatusCode,
    >)
        ensures
            match spec_read_security_header(stream@, pos as int, asymmetric) {
                Some((v, next)) => r matches Ok((x, n)) && x@ == v && n == next,
                None => r == Err::<(SecurityHeader, usize), StatusCode>(
                    StatusCode::BadDecodingError,
                ),
            },
    {
        if asymmetric {
            let (security_policy_uri, at_certificate) = match UAString::decode(stream, pos) {
                Ok(v) => v,
                Err(e) => {
                    return Err(e);
                },
            };
            let (sender_certificate, at_thumbprint) = match UAString::decode(stream, at_certificate) {
                Ok(v) => v,
                Err(e) => {
                    return Err(e);
                },
            };
            let (receiver_certificate_thumbprint, behind) = match UAString::decode(
                stream,
                at_thumbprint,
            ) {
                Ok(v) => v,
                Err(e) => {
                    return Err(e);
                },
            };
            Ok(
                (
                    SecurityHeader::Asymmetric(
                        AsymmetricSecurityHeader {
                            security_policy_uri,
                            sender_certificate,
                            receiver_certificate_thumbprint,
                        },
                    ),
                    behind,
                ),
            )
        } else {
            match read_u32(stream, pos) {
                None => Err(StatusCode::BadDecodingError),
                Some(token_id) => {
                    let total = stream.len();
                    Ok((SecurityHeader::Symmetric(SymmetricSecurityHeader { token_id }), pos + 4))
                },
            }
        }
    }
}

impl MessageChunk {
    /// Builds a chunk from its parts. Refused, with `BadEncodingError`, when a string
    /// of the security header cannot be written or the chunk would be larger than a
    /// frame can declare.
    pub fn new(
        sequence_number: u32,
        request_id: u32,
        message_type: MessageChunkType,
        is_final: MessageIsFinalType,
        secure_channel_id: u32,
        security_header: &SecurityHeader,
        body: &[u8],
    ) -> (r: Result<MessageChunk, StatusCode>)
        ensures
            (security_header@.encodable() && spec_chunk_size(security_header@, body@.len())
                <= u32::MAX) ==> (r matches Ok(chunk) && chunk@ == spec_chunk_bytes(
                message_type,
                is_final,
                secure_channel_id,
                security_header@,
                SequenceHeader { sequence_number, request_id },
                body@,
            )),
            !(security_header@.encodable() && spec_chunk_size(security_header@, body@.len())
                <= u32::MAX) ==> (r matches Err(e) && e == StatusCode::BadEncodingError),
    {
        let security_len = match security_header.byte_len() {
            Some(n) => n,
            None => {
                return Err(StatusCode::BadEncodingError);
            },
        };
        if body.len() > 0xffff_ffff {
            return Err(StatusCode::BadEncodingError);
        }
        let size: u64 = 20 + security_len + body.len() as u64;
        if size > 0xffff_ffff {
            return Err(StatusCode::BadEncodingError);
        }
        proof {
            lemma_security_header_bytes_len(security_header@);
        }
        let mut data: Vec<u8> = Vec::new();
        MessageHeader {
            message_type: message_type.message_type(),
            is_final,
            message_size: size as u32,
        }.encode(&mut data);
        write_u32(&mut data, secure_channel_id);
        security_header.encode(&mut data);
        write_u32(&mut data, sequence_number);
        write_u32(&mut data, request_id);
        append_bytes(&mut data, body);
        assert(data@ =~= spec_chunk_bytes(
            message_type,
            is_final,
            secure_channel_id,
            security_header@,
            SequenceHeader { sequence_number, request_id },
            body@,
        ));
        Ok(MessageChunk { data })
    }

    /// The frame header and channel id of the chunk.
    pub fn message_header(&self) -> (r: Result<MessageChunkHeader, StatusCode>)
        ensures
            r == spec_chunk_header(self@),
    {
        chunk_header(self.data.as_slice())
    }

    /// All headers of the chunk, and where its body lies.
    pub fn chunk_info(&self) -> (r: Result<ChunkInfo, StatusCode>)
        ensures
            match spec_chunk_info(self@) {
                Ok(v) => r matches Ok(info) && info@ == v,
                Err(e) => r matches Err(x) && x == e,
            },
    {
        chunk_info(self.data.as_slice())
    }
}

/// The frame header and channel id that start `data`.
pub fn chunk_header(data: &[u8]) -> (r: Result<MessageChunkHeader, StatusCode>)
    ensures
        r == spec_chunk_header(data@),
{
    match MessageHeader::decode(data, 0) {
        Err(e) => Err(e),
        Ok(h) => match MessageChunkType::of(h.message_type) {
            None => Err(StatusCode::BadDecodingError),
            Some(message_type) => match read_u32(data, 8) {
                None => Err(StatusCode::BadDecodingError),
                Some(secure_channel_id) => Ok(
                    MessageChunkHeader {
                        message_type,
                        is_final: h.is_final,
                        message_size: h.message_size,
                        secure_channel_id,
                    },
                ),
            },
        },
    }
}

/// All headers of the chunk whose frame is `data`.
pub fn chunk_info(data: &[u8]) -> (r: Result<ChunkInfo, StatusCode>)
    ensures
        match spec_chunk_info(data@) {
            Ok(v) => r matches Ok(info) && info@ == v,
            Err(e) => r matches Err(x) && x == e,
        },
{
    proof {
        reveal(spec_chunk_info);
    }
    let message_header = match chunk_header(data) {
        Ok(h) => h,
        Err(e) => {
            return Err(e);
        },
    };
    let total = data.len();
    if message_header.message_size as u64 != total as u64 {
        return Err(StatusCode::BadDecodingError);
    }
    let asymmetric = message_header.message_type.is_open_secure_channel();
    let (security_header, p) = match SecurityHeader::decode(data, 12, asymmetric) {
        Ok(v) => v,
        Err(e) => {
            return Err(e);
        },
    };
    if p > total || total - p < 8 {
        return Err(StatusCode::BadDecodingError);
    }
    let sequence_number = read_u32(data, p).unwrap();
    let request_id = read_u32(data, p + 4).unwrap();
    Ok(
        ChunkInfo {
            message_header,
            security_header,
            sequence_header: SequenceHeader { sequence_number, request_id },
            body_offset: p + 8,
            body_length: total - (p + 8),
        },
    )
}

} // verus!
