//! The messages of the OPC UA TCP handshake and the eight-byte header that
//! starts every frame.

use crate::encoding::{
    has_at, lemma_has_at_concat, lemma_read_string_written, lemma_read_u32_written,
    lemma_string_bytes_len, lemma_u32_bytes_len, read_u32, spec_read_string, spec_read_u32,
    spec_string_bytes, spec_string_encodable, spec_string_len, spec_u32_bytes, write_u32,
    write_u8, UAString,
};
use crate::status_code::StatusCode;
use vstd::prelude::*;

verus! {

/// The smallest receive or send buffer a peer may announce.
pub const MIN_BUFFER_SIZE: u32 = 8192;

/// The longest endpoint URL a HELLO may carry, in bytes.
pub const MAX_ENDPOINT_URL_LEN: usize = 4096;

/// The size of an ACK message on the wire, header included.
pub const ACKNOWLEDGE_MESSAGE_LEN: u32 = 28;

/// What a frame carries, as its three-letter code says.
#[derive(Clone, Copy, Debug, PartialEq, Eq, Structural)]
pub enum MessageType {
    /// `HEL`
    Hello,
    /// `ACK`
    Acknowledge,
    /// `ERR`
    Error,
    /// `OPN`
    OpenSecureChannel,
    /// `MSG`
    Message,
    /// `CLO`
    CloseSecureChannel,
}

/// The fourth byte of a header: whether more chunks of the message follow.
#[derive(Clone, Copy, Debug, PartialEq, Eq, Structural)]
pub enum MessageIsFinalType {
    /// `C`: another chunk follows.
    Intermediate,
    /// `F`: the last chunk.
    Final,
    /// `A`: the last chunk, and the message is abandoned.
    FinalError,
}

/// The header of a frame.
#[derive(Clone, Copy, Debug, PartialEq, Eq, Structural)]
pub struct MessageHeader {
    pub message_type: MessageType,
    pub is_final: MessageIsFinalType,
    /// The size of the whole frame, header included.
    pub message_size: u32,
}

impl MessageType {
    /// The three ASCII letters of the type.
    pub open spec fn spec_code(self) -> Seq<u8> {
        match self {
            MessageType::Hello => seq![72u8, 69u8, 76u8],
            MessageType::Acknowledge => seq![65u8, 67u8, 75u8],
            MessageType::Error => seq![69u8, 82u8, 82u8],
            MessageType::OpenSecureChannel => seq![79u8, 80u8, 78u8],
            MessageType::Message => seq![77u8, 83u8, 71u8],
            MessageType::CloseSecureChannel => seq![67u8, 76u8, 79u8],
        }
    }

    /// The type that three letters name, if any.
    pub open spec fn spec_from_code(a: u8, b: u8, c: u8) -> Option<MessageType> {
        if a == 72 && b == 69 && c == 76 {
            Some(MessageType::Hello)
        } else if a == 65 && b == 67 && c == 75 {
            Some(MessageType::Acknowledge)
        } else if a == 69 && b == 82 && c == 82 {
            Some(MessageType::Error)
        } else if a == 79 && b == 80 && c == 78 {
            Some(MessageType::OpenSecureChannel)
        } else if a == 77 && b == 83 && c == 71 {
            Some(MessageType::Message)
        } else if a == 67 && b == 76 && c == 79 {
            Some(MessageType::CloseSecureChannel)
        } else {
            None
        }
    }

    fn from_code(a: u8, b: u8, c: u8) -> (r: Option<MessageType>)
        ensures
            r == Self::spec_from_code(a, b, c),
    {
        if a == 72 && b == 69 && c == 76 {
            Some(MessageType::Hello)
        } else if a == 65 && b == 67 && c == 75 {
            Some(MessageType::Acknowledge)
        } else if a == 69 && b == 82 && c == 82 {
            Some(MessageType::Error)
        } else if a == 79 && b == 80 && c == 78 {
            Some(MessageType::OpenSecureChannel)
        } else if a == 77 && b == 83 && c == 71 {
            Some(MessageType::Message)
        } else if a == 67 && b == 76 && c == 79 {
            Some(MessageType::CloseSecureChannel)
        } else {
            None
        }
    }

    fn write_code(self, out: &mut Vec<u8>)
        ensures
            final(out)@ == old(out)@ + self.spec_code(),
    {
        let (a, b, c): (u8, u8, u8) = match self {
            MessageType::Hello => (72, 69, 76),
            MessageType::Acknowledge => (65, 67, 75),
            MessageType::Error => (69, 82, 82),
            MessageType::OpenSecureChannel => (79, 80, 78),
            MessageType::Message => (77, 83, 71),
            MessageType::CloseSecureChannel => (67, 76, 79),
        };
        out.push(a);
        out.push(b);
        out.push(c);
        assert(out@ =~= old(out)@ + self.spec_code());
    }
}

impl MessageIsFinalType {
    /// The ASCII letter of the marker.
    pub open spec fn spec_code(self) -> u8 {
        match self {
            MessageIsFinalType::Intermediate => 67u8,
            MessageIsFinalType::Final => 70u8,
            MessageIsFinalType::FinalError => 65u8,
        }
    }

    /// The marker that a letter names, if any.
    pub open spec fn spec_from_code(c: u8) -> Option<MessageIsFinalType> {
        if c == 67 {
            Some(MessageIsFinalType::Intermediate)
        } else if c == 70 {
            Some(MessageIsFinalType::Final)
        } else if c == 65 {
            Some(MessageIsFinalType::FinalError)
        } else {
            None
        }
    }

    fn code(self) -> (r: u8)
        ensures
            r == self.spec_code(),
    {
        match self {
            MessageIsFinalType::Intermediate => 67,
            MessageIsFinalType::Final => 70,
            MessageIsFinalType::FinalError => 65,
        }
    }

    fn from_code(c: u8) -> (r: Option<MessageIsFinalType>)
        ensures
            r == Self::spec_from_code(c),
    {
        if c == 67 {
            Some(MessageIsFinalType::Intermediate)
        } else if c == 70 {
            Some(MessageIsFinalType::Final)
        } else if c == 65 {
            Some(MessageIsFinalType::FinalError)
        } else {
            None
        }
    }
}

/// The eight bytes of a header.
pub open spec fn spec_header_bytes(h: MessageHeader) -> Seq<u8> {
    h.message_type.spec_code() + seq![h.is_final.spec_code()] + spec_u32_bytes(h.message_size)
}

/// The header that stands at `pos`. Needs eight bytes: with fewer, or with a final
/// marker that is none of `F`, `C`, `A`, or with a size below eight, the header is
/// malformed; letters that name no message type are reported as such.
pub open spec fn spec_read_header(s: Seq<u8>, pos: int) -> Result<MessageHeader, StatusCode> {
    if !(0 <= pos && pos + 8 <= s.len()) {
        Err(StatusCode::BadDecodingError)
    } else {
        match MessageType::spec_from_code(s[pos], s[pos + 1], s[pos + 2]) {
            None => Err(StatusCode::BadTcpMessageTypeInvalid),
            Some(message_type) => match MessageIsFinalType::spec_from_code(s[pos + 3]) {
                None => Err(StatusCode::BadDecodingError),
                Some(is_final) => {
                    let message_size = spec_read_u32(s, pos + 4)->Some_0;
                    if message_size < 8 {
                        Err(StatusCode::BadDecodingError)
                    } else {
                        Ok(MessageHeader { message_type, is_final, message_size })
                    }
                },
            },
        }
    }
}

/// A header whose size covers itself reads back from where it was written.
pub proof fn lemma_read_header_written(s: Seq<u8>, pos: int, h: MessageHeader)
    requires
        h.message_size >= 8,
        has_at(s, pos, spec_header_bytes(h)),
    ensures
        spec_header_bytes(h).len() == 8,
        spec_read_header(s, pos) == Ok::<MessageHeader, StatusCode>(h),
{
    let code = h.message_type.spec_code();
    let fin = seq![h.is_final.spec_code()];
    lemma_u32_bytes_len(h.message_size);
    lemma_has_at_concat(s, pos, code + fin, spec_u32_bytes(h.message_size));
    lemma_has_at_concat(s, pos, code, fin);
    lemma_read_u32_written(s, pos + 4, h.message_size);
    assert(s.subrange(pos, pos + 3)[0] == code[0]);
    assert(s.subrange(pos, pos + 3)[1] == code[1]);
    assert(s.subrange(pos, pos + 3)[2] == code[2]);
    assert(s.subrange(pos + 3, pos + 4)[0] == fin[0]);
}

impl MessageHeader {
    /// The header of a message that is complete in one frame.
    pub fn new(message_type: MessageType, message_size: u32) -> (r: MessageHeader)
        ensures
            r == (MessageHeader { message_type, is_final: MessageIsFinalType::Final, message_size }),
    {
        MessageHeader { message_type, is_final: MessageIsFinalType::Final, message_size }
    }

    /// Appends the eight bytes of the header.
    pub fn encode(&self, stream: &mut Vec<u8>)
        ensures
            final(stream)@ == old(stream)@ + spec_header_bytes(*self),
    {
        self.message_type.write_code(stream);
        write_u8(stream, self.is_final.code());
        write_u32(stream, self.message_size);
        assert(stream@ =~= old(stream)@ + spec_header_bytes(*self));
    }

    /// Reads the header that starts at `pos`.
    pub fn decode(stream: &[u8], pos: usize) -> (r: Result<MessageHeader, StatusCode>)
        ensures
            r == spec_read_header(stream@, pos as int),
    {
        let total = stream.len();
        if pos > total || total - pos < 8 {
            return Err(StatusCode::BadDecodingError);
        }
        match MessageType::from_code(stream[pos], stream[pos + 1], stream[pos + 2]) {
            None => Err(StatusCode::BadTcpMessageTypeInvalid),
            Some(message_type) => match MessageIsFinalType::from_code(stream[pos + 3]) {
                None => Err(StatusCode::BadDecodingError),
                Some(is_final) => {
                    match read_u32(stream, pos + 4) {
                        None => Err(StatusCode::BadDecodingError),
                        Some(message_size) => {
                            if message_size < 8 {
                                Err(StatusCode::BadDecodingError)
                            } else {
                                Ok(MessageHeader { message_type, is_final, message_size })
                            }
                        },
                    }
                },
            },
        }
    }
}

/// The first message of a client: the limits it asks for and the endpoint it wants.
#[derive(Debug, Clone, PartialEq, Eq)]
pub struct HelloMessage {
    pub protocol_version: u32,
    pub receive_buffer_size: u32,
    pub send_buffer_size: u32,
    pub max_message_size: u32,
    pub max_chunk_count: u32,
    pub endpoint_url: UAString,
}

/// A HELLO as a mathematical value.
pub struct HelloMessageView {
    pub protocol_version: u32,
    pub receive_buffer_size: u32,
    pub send_buffer_size: u32,
    pub max_message_size: u32,
    pub max_chunk_count: u32,
    pub endpoint_url: Option<Seq<u8>>,
}

impl View for HelloMessage {
    type V = HelloMessageView;

    open spec fn view(&self) -> HelloMessageView {
        HelloMessageView {
            protocol_version: self.protocol_version,
            receive_buffer_size: self.receive_buffer_size,
            send_buffer_size: self.send_buffer_size,
            max_message_size: self.max_message_size,
            max_chunk_count: self.max_chunk_count,
            endpoint_url: self.endpoint_url@,
        }
    }
}

/// The server's answer to a HELLO: the limits of the connection.
#[derive(Clone, Copy, Debug, PartialEq, Eq, Structural)]
pub struct AcknowledgeMessage {
    pub protocol_version: u32,
    pub receive_buffer_size: u32,
    pub send_buffer_size: u32,
    pub max_message_size: u32,
    pub max_chunk_count: u32,
}

/// The five 32-bit limits that HELLO and ACK share.
pub open spec fn spec_limits_bytes(
    protocol_version: u32,
    receive_buffer_size: u32,
    send_buffer_size: u32,
    max_message_size: u32,
    max_chunk_count: u32,
) -> Seq<u8> {
    spec_u32_bytes(protocol_version) + spec_u32_bytes(receive_buffer_size) + spec_u32_bytes(
        send_buffer_size,
    ) + spec_u32_bytes(max_message_size) + spec_u32_bytes(max_chunk_count)
}

/// The bytes `opc.tcp://`.
pub open spec fn spec_opc_tcp_scheme() -> Seq<u8> {
    seq![111u8, 112u8, 99u8, 46u8, 116u8, 99u8, 112u8, 58u8, 47u8, 47u8]
}

impl HelloMessageView {
    /// The size of the message on the wire, header included.
    pub open spec fn byte_len(self) -> nat {
        28 + spec_string_len(self.endpoint_url)
    }

    /// The whole message on the wire.
    pub open spec fn bytes(self) -> Seq<u8> {
        spec_header_bytes(
            MessageHeader {
                message_type: MessageType::Hello,
                is_final: MessageIsFinalType::Final,
                message_size: self.byte_len() as u32,
            },
        ) + spec_limits_bytes(
            self.protocol_version,
            self.receive_buffer_size,
            self.send_buffer_size,
            self.max_message_size,
            self.max_chunk_count,
        ) + spec_string_bytes(self.endpoint_url)
    }

    /// The endpoint URL is present, at most 4096 bytes long, and begins with `opc.tcp://`.
    pub open spec fn endpoint_url_valid(self) -> bool {
        &&& self.endpoint_url matches Some(url)
        &&& url.len() <= MAX_ENDPOINT_URL_LEN
        &&& url.len() >= 10
        &&& url.subrange(0, 10) == spec_opc_tcp_scheme()
    }

    /// Both buffers are at least the protocol's minimum of 8192 bytes.
    pub open spec fn valid_buffer_sizes(self) -> bool {
        self.receive_buffer_size >= MIN_BUFFER_SIZE && self.send_buffer_size >= MIN_BUFFER_SIZE
    }
}

/// The fields of a HELLO that stand at `pos`, behind the header, with the position
/// behind them.
pub open spec fn spec_read_hello(s: Seq<u8>, pos: int) -> Option<(HelloMessageView, int)> {
    if !(0 <= pos && pos + 20 <= s.len()) {
        None
    } else {
        match spec_read_string(s, pos + 20) {
            None => None,
            Some((endpoint_url, next)) => Some(
                (
                    HelloMessageView {
                        protocol_version: spec_read_u32(s, pos)->Some_0,
                        receive_buffer_size: spec_read_u32(s, pos + 4)->Some_0,
                        send_buffer_size: spec_read_u32(s, pos + 8)->Some_0,
                        max_message_size: spec_read_u32(s, pos + 12)->Some_0,
                        max_chunk_count: spec_read_u32(s, pos + 16)->Some_0,
                        endpoint_url,
                    },
                    next,
                ),
            ),
        }
    }
}

/// The fields of an ACK that stand at `pos`, behind the header.
pub open spec fn spec_read_acknowledge(s: Seq<u8>, pos: int) -> Option<AcknowledgeMessage> {
    if !(0 <= pos && pos + 20 <= s.len()) {
        None
    } else {
        Some(
            AcknowledgeMessage {
                protocol_version: spec_read_u32(s, pos)->Some_0,
                receive_buffer_size: spec_read_u32(s, pos + 4)->Some_0,
                send_buffer_size: spec_read_u32(s, pos + 8)->Some_0,
                max_message_size: spec_read_u32(s, pos + 12)->Some_0,
                max_chunk_count: spec_read_u32(s, pos + 16)->Some_0,
            },
        )
    }
}

/// Five limits read back from where they were written.
pub proof fn lemma_read_limits_written(
    s: Seq<u8>,
    pos: int,
    a: u32,
    b: u32,
    c: u32,
    d: u32,
    e: u32,
)
    requires
        has_at(s, pos, spec_limits_bytes(a, b, c, d, e)),
    ensures
        spec_limits_bytes(a, b, c, d, e).len() == 20,
        spec_read_u32(s, pos) == Some(a),
        spec_read_u32(s, pos + 4) == Some(b),
        spec_read_u32(s, pos + 8) == Some(c),
        spec_read_u32(s, pos + 12) == Some(d),
        spec_read_u32(s, pos + 16) == Some(e),
{
    let ba = spec_u32_bytes(a);
    let bb = spec_u32_bytes(b);
    let bc = spec_u32_bytes(c);
    let bd = spec_u32_bytes(d);
    let be = spec_u32_bytes(e);
    lemma_u32_bytes_len(a);
    lemma_u32_bytes_len(b);
    lemma_u32_bytes_len(c);
    lemma_u32_bytes_len(d);
    lemma_u32_bytes_len(e);
    lemma_has_at_concat(s, pos, ba + bb + bc + bd, be);
    lemma_has_at_concat(s, pos, ba + bb + bc, bd);
    lemma_has_at_concat(s, pos, ba + bb, bc);
    lemma_has_at_concat(s, pos, ba, bb);
    lemma_read_u32_written(s, pos, a);
    lemma_read_u32_written(s, pos + 4, b);
    lemma_read_u32_written(s, pos + 8, c);
    lemma_read_u32_written(s, pos + 12, d);
    lemma_read_u32_written(s, pos + 16, e);
}

/// A HELLO whose URL can be written reads back from where it was written: first
/// its header, then its fields.
pub proof fn lemma_read_hello_written(s: Seq<u8>, pos: int, h: HelloMessageView)
    requires
        spec_string_encodable(h.endpoint_url),
        has_at(s, pos, h.bytes()),
    ensures
        h.bytes().len() == h.byte_len(),
        spec_read_header(s, pos) == Ok::<MessageHeader, StatusCode>(
            MessageHeader {
                message_type: MessageType::Hello,
                is_final: MessageIsFinalType::Final,
                message_size: h.byte_len() as u32,
            },
        ),
        spec_read_hello(s, pos + 8) == Some((h, pos + h.byte_len())),
{
    let header = MessageHeader {
        message_type: MessageType::Hello,
        is_final: MessageIsFinalType::Final,
        message_size: h.byte_len() as u32,
    };
    let hb = spec_header_bytes(header);
    let lb = spec_limits_bytes(
        h.protocol_version,
        h.receive_buffer_size,
        h.send_buffer_size,
        h.max_message_size,
        h.max_chunk_count,
    );
    let ub = spec_string_bytes(h.endpoint_url);
    lemma_u32_bytes_len(header.message_size);
    lemma_string_bytes_len(h.endpoint_url);
    lemma_has_at_concat(s, pos, hb + lb, ub);
    lemma_has_at_concat(s, pos, hb, lb);
    lemma_read_header_written(s, pos, header);
    lemma_read_limits_written(
        s,
        pos + 8,
        h.protocol_version,
        h.receive_buffer_size,
        h.send_buffer_size,
        h.max_message_size,
        h.max_chunk_count,
    );
    lemma_read_string_written(s, pos + 28, h.endpoint_url);
}

impl HelloMessage {
    /// True when the endpoint URL is present, at most 4096 bytes long, and begins
    /// with `opc.tcp://`.
    pub fn is_endpoint_url_valid(&self) -> (r: bool)
        ensures
            r == self@.endpoint_url_valid(),
    {
        match &self.endpoint_url.value {
            None => false,
            Some(url) => {
                if url.len() > MAX_ENDPOINT_URL_LEN || url.len() < 10 {
                    false
                } else {
                    let r = url[0] == 111 && url[1] == 112 && url[2] == 99 && url[3] == 46
                        && url[4] == 116 && url[5] == 99 && url[6] == 112 && url[7] == 58
                        && url[8] == 47 && url[9] == 47;
                    proof {
                        let head = url@.subrange(0, 10);
                        let scheme = spec_opc_tcp_scheme();
                        if r {
                            assert(head =~= scheme);
                        } else {
                            assert(head[0] == url@[0] && head[1] == url@[1] && head[2] == url@[2]
                                && head[3] == url@[3] && head[4] == url@[4] && head[5] == url@[5]
                                && head[6] == url@[6] && head[7] == url@[7] && head[8] == url@[8]
                                && head[9] == url@[9]);
                        }
                    }
                    r
                }
            },
        }
    }

    /// True when both buffers are at least 8192 bytes.
    pub fn is_valid_buffer_sizes(&self) -> (r: bool)
        ensures
            r == self@.valid_buffer_sizes(),
    {
        self.receive_buffer_size >= MIN_BUFFER_SIZE && self.send_buffer_size >= MIN_BUFFER_SIZE
    }

    /// Appends the whole message, header first, and returns its size. A URL too
    /// long to be written is refused and nothing is written.
    pub fn encode(&self, stream: &mut Vec<u8>) -> (r: Result<usize, StatusCode>)
        ensures
            spec_string_encodable(self@.endpoint_url) ==> r == Ok::<usize, StatusCode>(
                self@.byte_len() as usize,
            ) && final(stream)@ == old(stream)@ + self@.bytes(),
            !spec_string_encodable(self@.endpoint_url) ==> r == Err::<usize, StatusCode>(
                StatusCode::BadEncodingError,
            ) && final(stream)@ == old(stream)@,
    {
        let url_len: usize = match &self.endpoint_url.value {
            Some(url) => url.len(),
            None => 0,
        };
        if url_len > 0x7fff_ffff {
            return Err(StatusCode::BadEncodingError);
        }
        let size: u32 = 32 + url_len as u32;
        MessageHeader::new(MessageType::Hello, size).encode(stream);
        write_u32(stream, self.protocol_version);
        write_u32(stream, self.receive_buffer_size);
        write_u32(stream, self.send_buffer_size);
        write_u32(stream, self.max_message_size);
        write_u32(stream, self.max_chunk_count);
        let _ = self.endpoint_url.encode(stream);
        assert(stream@ =~= old(stream)@ + self@.bytes());
        Ok(32 + url_len)
    }

    /// Reads the fields of a HELLO that start at `pos`, behind the header, and
    /// returns them with the position behind them.
    pub fn decode(stream: &[u8], pos: usize) -> (r: Result<(HelloMessage, usize), StatusCode>)
        ensures
            match spec_read_hello(stream@, pos as int) {
                Some((v, next)) => r matches Ok((x, n)) && x@ == v && n == next,
                None => r == Err::<(HelloMessage, usize), StatusCode>(
                    StatusCode::BadDecodingError,
                ),
            },
    {
        let total = stream.len();
        if pos > total || total - pos < 20 {
            return Err(StatusCode::BadDecodingError);
        }
        let protocol_version = read_u32(stream, pos).unwrap();
        let receive_buffer_size = read_u32(stream, pos + 4).unwrap();
        let send_buffer_size = read_u32(stream, pos + 8).unwrap();
        let max_message_size = read_u32(stream, pos + 12).unwrap();
        let max_chunk_count = read_u32(stream, pos + 16).unwrap();
        match UAString::decode(stream, pos + 20) {
            Err(e) => Err(e),
            Ok((endpoint_url, next)) => Ok(
                (
                    HelloMessage {
                        protocol_version,
                        receive_buffer_size,
                        send_buffer_size,
                        max_message_size,
                        max_chunk_count,
                        endpoint_url,
                    },
                    next,
                ),
            ),
        }
    }
}

impl AcknowledgeMessage {
    /// The whole message on the wire.
    pub open spec fn bytes(self) -> Seq<u8> {
        spec_header_bytes(
            MessageHeader {
                message_type: MessageType::Acknowledge,
                is_final: MessageIsFinalType::Final,
                message_size: ACKNOWLEDGE_MESSAGE_LEN,
            },
        ) + spec_limits_bytes(
            self.protocol_version,
            self.receive_buffer_size,
            self.send_buffer_size,
            self.max_message_size,
            self.max_chunk_count,
        )
    }

    /// The size of the message on the wire, header included.
    pub fn byte_len(&self) -> (r: usize)
        ensures
            r == ACKNOWLEDGE_MESSAGE_LEN,
    {
        28
    }

    /// Appends the whole message, header first, and returns its size.
    pub fn encode(&self, stream: &mut Vec<u8>) -> (r: usize)
        ensures
            r == ACKNOWLEDGE_MESSAGE_LEN,
            final(stream)@ == old(stream)@ + self.bytes(),
    {
        MessageHeader::new(MessageType::Acknowledge, ACKNOWLEDGE_MESSAGE_LEN).encode(stream);
        write_u32(stream, self.protocol_version);
        write_u32(stream, self.receive_buffer_size);
        write_u32(stream, self.send_buffer_size);
        write_u32(stream, self.max_message_size);
        write_u32(stream, self.max_chunk_count);
        assert(stream@ =~= old(stream)@ + self.bytes());
        28
    }

    /// Reads the fields of an ACK that start at `pos`, behind the header.
    pub fn decode(stream: &[u8], pos: usize) -> (r: Result<AcknowledgeMessage, StatusCode>)
        ensures
            match spec_read_acknowledge(stream@, pos as int) {
                Some(v) => r == Ok::<AcknowledgeMessage, StatusCode>(v),
                None => r == Err::<AcknowledgeMessage, StatusCode>(StatusCode::BadDecodingError),
            },
    {
        let total = stream.len();
        if pos > total || total - pos < 20 {
            return Err(StatusCode::BadDecodingError);
        }
        Ok(
            AcknowledgeMessage {
                protocol_version: read_u32(stream, pos).unwrap(),
                receive_buffer_size: read_u32(stream, pos + 4).unwrap(),
                send_buffer_size: read_u32(stream, pos + 8).unwrap(),
                max_message_size: read_u32(stream, pos + 12).unwrap(),
                max_chunk_count: read_u32(stream, pos + 16).unwrap(),
            },
        )
    }

    /// An ACK reads back from where it was written: first its header, then its fields.
    pub proof fn lemma_read_written(self, s: Seq<u8>, pos: int)
        requires
            has_at(s, pos, self.bytes()),
        ensures
            self.bytes().len() == ACKNOWLEDGE_MESSAGE_LEN,
            spec_read_header(s, pos) == Ok::<MessageHeader, StatusCode>(
                MessageHeader {
                    message_type: MessageType::Acknowledge,
                    is_final: MessageIsFinalType::Final,
                    message_size: ACKNOWLEDGE_MESSAGE_LEN,
                },
            ),
            spec_read_acknowledge(s, pos + 8) == Some(self),
    {
        let header = MessageHeader {
            message_type: MessageType::Acknowledge,
            is_final: MessageIsFinalType::Final,
            message_size: ACKNOWLEDGE_MESSAGE_LEN,
        };
        lemma_u32_bytes_len(header.message_size);
        lemma_has_at_concat(
            s,
            pos,
            spec_header_bytes(header),
            spec_limits_bytes(
                self.protocol_version,
                self.receive_buffer_size,
                self.send_buffer_size,
                self.max_message_size,
                self.max_chunk_count,
            ),
        );
        lemma_read_header_written(s, pos, header);
        lemma_read_limits_written(
            s,
            pos + 8,
            self.protocol_version,
            self.receive_buffer_size,
            self.send_buffer_size,
            self.max_message_size,
            self.max_chunk_count,
        );
    }
}

/// What a peer sends before it gives up a connection: a status and a reason.
#[derive(Debug, Clone, PartialEq, Eq)]
pub struct ErrorMessage {
    /// The status code as its 32-bit wire value.
    pub error: u32,
    pub reason: UAString,
}

/// An ERR message as a mathematical value.
pub struct ErrorMessageView {
    pub error: u32,
    pub reason: Option<Seq<u8>>,
}

impl View for ErrorMessage {
    type V = ErrorMessageView;

    open spec fn view(&self) -> ErrorMessageView {
        ErrorMessageView { error: self.error, reason: self.reason@ }
    }
}

impl ErrorMessageView {
    /// The size of the message on the wire, header included.
    pub open spec fn byte_len(self) -> nat {
        12 + spec_string_len(self.reason)
    }

    /// The whole message on the wire.
    pub open spec fn bytes(self) -> Seq<u8> {
        spec_header_bytes(
            MessageHeader {
                message_type: MessageType::Error,
                is_final: MessageIsFinalType::Final,
                message_size: self.byte_len() as u32,
            },
        ) + spec_u32_bytes(self.error) + spec_string_bytes(self.reason)
    }
}

/// The fields of an ERR message that stand at `pos`, behind the header.
pub open spec fn spec_read_error(s: Seq<u8>, pos: int) -> Option<(ErrorMessageView, int)> {
    match spec_read_u32(s, pos) {
        None => None,
        Some(error) => match spec_read_string(s, pos + 4) {
            None => None,
            Some((reason, next)) => Some((ErrorMessageView { error, reason }, next)),
        },
    }
}

/// An ERR message whose reason can be written reads back from where it was written.
pub proof fn lemma_read_error_written(s: Seq<u8>, pos: int, e: ErrorMessageView)
    requires
        spec_string_encodable(e.reason),
        has_at(s, pos, e.bytes()),
    ensures
        e.bytes().len() == e.byte_len(),
        spec_read_header(s, pos) == Ok::<MessageHeader, StatusCode>(
            MessageHeader {
                message_type: MessageType::Error,
                is_final: MessageIsFinalType::Final,
                message_size: e.byte_len() as u32,
            },
        ),
        spec_read_error(s, pos + 8) == Some((e, pos + e.byte_len())),
{
    let header = MessageHeader {
        message_type: MessageType::Error,
        is_final: MessageIsFinalType::Final,
        message_size: e.byte_len() as u32,
    };
    lemma_u32_bytes_len(header.message_size);
    lemma_u32_bytes_len(e.error);
    lemma_string_bytes_len(e.reason);
    lemma_has_at_concat(
        s,
        pos,
        spec_header_bytes(header) + spec_u32_bytes(e.error),
        spec_string_bytes(e.reason),
    );
    lemma_has_at_concat(s, pos, spec_header_bytes(header), spec_u32_bytes(e.error));
    lemma_read_header_written(s, pos, header);
    lemma_read_u32_written(s, pos + 8, e.error);
    lemma_read_string_written(s, pos + 12, e.reason);
}

impl ErrorMessage {
    /// The message that reports `status` with the given reason.
    pub fn from_status_code(status: StatusCode, reason: UAString) -> (r: ErrorMessage)
        ensures
            r@ == (ErrorMessageView { error: status.spec_bits(), reason: reason@ }),
    {
        ErrorMessage { error: status.bits(), reason }
    }

    /// Appends the whole message, header first, and returns its size. A reason too
    /// long to be written is refused and nothing is written.
    pub fn encode(&self, stream: &mut Vec<u8>) -> (r: Result<usize, StatusCode>)
        ensures
            spec_string_encodable(self@.reason) ==> r == Ok::<usize, StatusCode>(
                self@.byte_len() as usize,
            ) && final(stream)@ == old(stream)@ + self@.bytes(),
            !spec_string_encodable(self@.reason) ==> r == Err::<usize, StatusCode>(
                StatusCode::BadEncodingError,
            ) && final(stream)@ == old(stream)@,
    {
        let reason_len: usize = match &self.reason.value {
            Some(reason) => reason.len(),
            None => 0,
        };
        if reason_len > 0x7fff_ffff {
            return Err(StatusCode::BadEncodingError);
        }
        let size: u32 = 16 + reason_len as u32;
        MessageHeader::new(MessageType::Error, size).encode(stream);
        write_u32(stream, self.error);
        let _ = self.reason.encode(stream);
        assert(stream@ =~= old(stream)@ + self@.bytes());
        Ok(16 + reason_len)
    }

    /// Reads the fields of an ERR message that start at `pos`, behind the header.
    pub fn decode(stream: &[u8], pos: usize) -> (r: Result<(ErrorMessage, usize), StatusCode>)
        ensures
            match spec_read_error(stream@, pos as int) {
                Some((v, next)) => r matches Ok((x, n)) && x@ == v && n == next,
                None => r == Err::<(ErrorMessage, usize), StatusCode>(
                    StatusCode::BadDecodingError,
                ),
            },
    {
        match read_u32(stream, pos) {
            None => Err(StatusCode::BadDecodingError),
            Some(error) => {
                let total = stream.len();
                match UAString::decode(stream, pos + 4) {
                    Err(e) => Err(e),
                    Ok((reason, next)) => Ok((ErrorMessage { error, reason }, next)),
                }
            },
        }
    }
}

} // verus!
