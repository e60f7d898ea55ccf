//! The receiving half of the framer: it collects the bytes that arrive and
//! hands out every message that is complete.

use crate::encoding::{append_bytes, copy_range};
use crate::message_chunk::MessageChunk;
use crate::status_code::StatusCode;
use crate::tcp_types::{
    spec_read_acknowledge, spec_read_error, spec_read_header, spec_read_hello,
    AcknowledgeMessage, ErrorMessage, ErrorMessageView, HelloMessage, HelloMessageView,
    MessageHeader, MessageType,
};
use vstd::prelude::*;
use vstd::slice::slice_subrange;

verus! {

/// One framed message.
#[derive(Debug, Clone, PartialEq, Eq)]
pub enum Message {
    Hello(HelloMessage),
    Acknowledge(AcknowledgeMessage),
    Error(ErrorMessage),
    MessageChunk(MessageChunk),
}

/// A framed message as a mathematical value; a chunk is its frame.
pub enum MessageView {
    Hello(HelloMessageView),
    Acknowledge(AcknowledgeMessage),
    Error(ErrorMessageView),
    MessageChunk(Seq<u8>),
}

impl View for Message {
    type V = MessageView;

    open spec fn view(&self) -> MessageView {
        match self {
            Message::Hello(m) => MessageView::Hello(m@),
            Message::Acknowledge(m) => MessageView::Acknowledge(*m),
            Message::Error(m) => MessageView::Error(m@),
            Message::MessageChunk(m) => MessageView::MessageChunk(m@),
        }
    }
}

/// The messages of a vector as mathematical values.
pub open spec fn message_views(messages: Seq<Message>) -> Seq<MessageView> {
    messages.map_values(|m: Message| m@)
}

/// The message that a complete frame with the given header holds. The fields of
/// a HELLO, an ACK or an ERR must lie inside the frame; a chunk is kept as it is.
pub open spec fn spec_frame_message(frame: Seq<u8>, header: MessageHeader) -> Result<
    MessageView,
    StatusCode,
> {
    match header.message_type {
        MessageType::Hello => match spec_read_hello(frame, 8) {
            Some((m, _)) => Ok(MessageView::Hello(m)),
            None => Err(StatusCode::BadDecodingError),
        },
        MessageType::Acknowledge => match spec_read_acknowledge(frame, 8) {
            Some(m) => Ok(MessageView::Acknowledge(m)),
            None => Err(StatusCode::BadDecodingError),
        },
        MessageType::Error => match spec_read_error(frame, 8) {
            Some((m, _)) => Ok(MessageView::Error(m)),
            None => Err(StatusCode::BadDecodingError),
        },
        _ => Ok(MessageView::MessageChunk(frame)),
    }
}

/// What can be taken out of the buffered bytes: the complete messages in the
/// order of their arrival, and the bytes that stay behind.
///
/// As long as eight bytes are there, they are read as a header. A malformed
/// header or message ends the extraction with its error, and so does a header
/// that announces more than `limit` bytes, with `BadTcpMessageTooLarge`. A
/// message of which not all announced bytes have arrived stays in the buffer.
pub open spec fn spec_extract(buffer: Seq<u8>, limit: nat) -> Result<
    (Seq<MessageView>, Seq<u8>),
    StatusCode,
>
    decreases buffer.len(),
{
    if buffer.len() < 8 {
        Ok((Seq::empty(), buffer))
    } else {
        match spec_read_header(buffer, 0) {
            Err(e) => Err(e),
            Ok(header) => if header.message_size > limit {
                Err(StatusCode::BadTcpMessageTooLarge)
            } else if buffer.len() < header.message_size {
                Ok((Seq::empty(), buffer))
            } else {
                match spec_frame_message(buffer.subrange(0, header.message_size as int), header) {
                    Err(e) => Err(e),
                    Ok(message) => match spec_extract(
                        buffer.subrange(header.message_size as int, buffer.len() as int),
                        limit,
                    ) {
                        Err(e) => Err(e),
                        Ok((messages, rest)) => Ok((seq![message] + messages, rest)),
                    },
                }
            },
        }
    }
}

/// An extraction that goes on behind messages that were taken out already.
pub open spec fn spec_extract_after(
    taken: Seq<MessageView>,
    buffer: Seq<u8>,
    limit: nat,
) -> Result<(Seq<MessageView>, Seq<u8>), StatusCode> {
    match spec_extract(buffer, limit) {
        Err(e) => Err(e),
        Ok((messages, rest)) => Ok((taken + messages, rest)),
    }
}

/// What stays in the buffer after an extraction is less than a header, or less
/// than the largest message allowed.
pub proof fn lemma_extract_leaves_little(buffer: Seq<u8>, limit: nat)
    ensures
        spec_extract(buffer, limit) matches Ok((messages, rest)) ==> rest.len() < 8 || rest.len()
            < limit,
    decreases buffer.len(),
{
    if buffer.len() >= 8 {
        match spec_read_header(buffer, 0) {
            Err(e) => {},
            Ok(header) => {
                if header.message_size <= limit && buffer.len() >= header.message_size {
                    lemma_extract_leaves_little(
                        buffer.subrange(header.message_size as int, buffer.len() as int),
                        limit,
                    );
                }
            },
        }
    }
}

/// A first header that announces more than the limit makes the extraction fail
/// with `BadTcpMessageTooLarge`, however many of the announced bytes have arrived.
pub proof fn lemma_oversize_is_refused(buffer: Seq<u8>, limit: nat)
    requires
        spec_read_header(buffer, 0) matches Ok(header) && header.message_size > limit,
    ensures
        spec_extract(buffer, limit) == Err::<(Seq<MessageView>, Seq<u8>), StatusCode>(
            StatusCode::BadTcpMessageTooLarge,
        ),
{
}

/// Reads the message that the complete frame `frame` holds.
pub fn decode_frame(frame: &[u8], header: &MessageHeader) -> (r: Result<Message, StatusCode>)
    ensures
        match spec_frame_message(frame@, *header) {
            Ok(v) => r matches Ok(m) && m@ == v,
            Err(e) => r matches Err(x) && x == e,
        },
{
    match header.message_type {
        MessageType::Hello => match HelloMessage::decode(frame, 8) {
            Ok((m, _)) => Ok(Message::Hello(m)),
            Err(e) => Err(e),
        },
        MessageType::Acknowledge => match AcknowledgeMessage::decode(frame, 8) {
            Ok(m) => Ok(Message::Acknowledge(m)),
            Err(e) => Err(e),
        },
        MessageType::Error => match ErrorMessage::decode(frame, 8) {
            Ok((m, _)) => Ok(Message::Error(m)),
            Err(e) => Err(e),
        },
        _ => {
            let data = copy_range(frame, 0, frame.len());
            assert(data@ =~= frame@);
            Ok(Message::MessageChunk(MessageChunk { data }))
        },
    }
}

/// The receive buffer of a connection.
#[derive(Debug)]
pub struct MessageReader {
    /// The bytes that have arrived and belong to no complete message yet.
    pub buffer: Vec<u8>,
    /// The size of the receive buffer.
    pub receive_buffer_size: usize,
    /// The size of the largest message that is accepted.
    pub max_message_size: usize,
}

impl MessageReader {
    /// The largest message the reader assembles: a message must be within the
    /// maximum message size and fit the receive buffer.
    pub open spec fn limit(self) -> nat {
        if self.max_message_size <= self.receive_buffer_size {
            self.max_message_size as nat
        } else {
            self.receive_buffer_size as nat
        }
    }

    /// An empty reader with the given limits.
    pub fn new(receive_buffer_size: usize, max_message_size: usize) -> (r: MessageReader)
        ensures
            r.buffer@ == Seq::<u8>::empty(),
            r.receive_buffer_size == receive_buffer_size,
            r.max_message_size == max_message_size,
    {
        MessageReader { buffer: Vec::new(), receive_buffer_size, max_message_size }
    }

    /// Takes in the bytes that arrived and returns every message that is now
    /// complete. After an error the buffer is empty: the stream cannot be
    /// read any further.
    #[verifier::loop_isolation(false)]
    pub fn store_bytes(&mut self, bytes: &[u8]) -> (r: Result<Vec<Message>, StatusCode>)
        ensures
            final(self).receive_buffer_size == old(self).receive_buffer_size,
            final(self).max_message_size == old(self).max_message_size,
            match spec_extract(old(self).buffer@ + bytes@, old(self).limit()) {
                Ok((messages, rest)) => r matches Ok(v) && message_views(v@) == messages
                    && final(self).buffer@ == rest && (rest.len() < 8 || rest.len() < old(
                    self,
                ).limit()),
                Err(e) => r matches Err(x) && x == e && final(self).buffer@ == Seq::<u8>::empty(),
            },
    {
        let limit = if self.max_message_size <= self.receive_buffer_size {
            self.max_message_size
        } else {
            self.receive_buffer_size
        };
        append_bytes(&mut self.buffer, bytes);
        let ghost all = self.buffer@;
        proof {
            lemma_extract_leaves_little(all, limit as nat);
        }
        let total = self.buffer.len();
        let mut messages: Vec<Message> = Vec::new();
        let mut pos: usize = 0;
        assert(message_views(messages@) =~= Seq::<MessageView>::empty());
        assert(all.subrange(0, all.len() as int) =~= all);
        assert(Seq::<MessageView>::empty() + spec_extract(all, limit as nat)->Ok_0.0
            =~= spec_extract(all, limit as nat)->Ok_0.0);
        loop
            invariant
                pos <= total,
                total == self.buffer.len(),
                self.buffer@ == all,
                self.receive_buffer_size == old(self).receive_buffer_size,
                self.max_message_size == old(self).max_message_size,
                spec_extract(all, limit as nat) == spec_extract_after(
                    message_views(messages@),
                    all.subrange(pos as int, total as int),
                    limit as nat,
                ),
            decreases total - pos,
        {
            let ghost suffix = all.subrange(pos as int, total as int);
            if total - pos < 8 {
                assert(message_views(messages@) + Seq::<MessageView>::empty() =~= message_views(
                    messages@,
                ));
                break ;
            }
            let rest = slice_subrange(self.buffer.as_slice(), pos, total);
            let header = match MessageHeader::decode(rest, 0) {
                Ok(header) => header,
                Err(e) => {
                    self.buffer = Vec::new();
                    return Err(e);
                },
            };
            let size = header.message_size as usize;
            if size > limit {
                self.buffer = Vec::new();
                return Err(StatusCode::BadTcpMessageTooLarge);
            }
            if total - pos < size {
                assert(message_views(messages@) + Seq::<MessageView>::empty() =~= message_views(
                    messages@,
                ));
                break ;
            }
            let frame = slice_subrange(rest, 0, size);
            let message = match decode_frame(frame, &header) {
                Ok(message) => message,
                Err(e) => {
                    self.buffer = Vec::new();
                    return Err(e);
                },
            };
            let ghost before = message_views(messages@);
            messages.push(message);
            proof {
                assert(message_views(messages@) =~= before + seq![message@]);
                assert(all.subrange(pos + size, total as int) =~= suffix.subrange(
                    size as int,
                    suffix.len() as int,
                ));
                match spec_extract(all.subrange(pos + size, total as int), limit as nat) {
                    Ok((more, left)) => {
                        assert(before + (seq![message@] + more) =~= (before + seq![message@])
                            + more);
                    },
                    Err(e) => {},
                }
            }
            pos = pos + size;
        }
        let rest = copy_range(self.buffer.as_slice(), pos, total);
        self.buffer = rest;
        Ok(messages)
    }
}

} // verus!
