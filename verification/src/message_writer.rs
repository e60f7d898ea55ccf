//! The sending half of the framer: it turns messages into bytes for the socket
//! and numbers the chunks it sends.

use crate::chunker::{
    chunk_views, lemma_fragment_headers, lemma_fragments_carry_body, spec_chunk_limit,
    spec_chunk_type_of, spec_encode, Chunker,
};
use crate::encoding::spec_string_encodable;
use crate::message_chunk::{spec_chunk_info, spec_chunk_overhead};
use crate::secure_channel::SecureChannel;
use crate::status_code::StatusCode;
use crate::supported_message::{SupportedMessage, SupportedMessageView};
use crate::tcp_types::{AcknowledgeMessage, ErrorMessage, ACKNOWLEDGE_MESSAGE_LEN};
use vstd::prelude::*;

verus! {

/// The first `n` of a run of frames, one behind the other.
pub open spec fn spec_joined_prefix(frames: Seq<Seq<u8>>, n: nat) -> Seq<u8>
    decreases n,
{
    if n == 0 {
        Seq::empty()
    } else {
        spec_joined_prefix(frames, (n - 1) as nat) + frames[n - 1]
    }
}

/// A run of frames, one behind the other.
pub open spec fn spec_joined(frames: Seq<Seq<u8>>) -> Seq<u8> {
    spec_joined_prefix(frames, frames.len())
}

/// The chunks that a writer sends for a message when the chunk it sent last had
/// the sequence number `last`: those of the message, numbered from `last + 1`
/// on and no larger than the send buffer. When the numbers are used up, the
/// message is refused with `BadSequenceNumberInvalid`.
pub open spec fn spec_write_chunks(
    last: u32,
    send_buffer_size: u32,
    request_id: u32,
    message: SupportedMessageView,
    channel: SecureChannel,
) -> Result<Seq<Seq<u8>>, StatusCode> {
    if last == u32::MAX {
        Err(StatusCode::BadSequenceNumberInvalid)
    } else {
        spec_encode((last + 1) as u32, request_id, message, channel, send_buffer_size)
    }
}

/// The chunks of one message go out under the sequence numbers that follow the
/// last one sent, each larger by one than the one before, and the writer
/// remembers the last of them.
pub proof fn lemma_written_sequence_numbers(
    last: u32,
    send_buffer_size: u32,
    request_id: u32,
    message: SupportedMessageView,
    channel: SecureChannel,
    i: int,
)
    requires
        spec_write_chunks(last, send_buffer_size, request_id, message, channel) matches Ok(
            chunks,
        ) && 0 <= i < chunks.len(),
    ensures
        spec_write_chunks(last, send_buffer_size, request_id, message, channel) matches Ok(
            chunks,
        ) && last + chunks.len() <= u32::MAX && (spec_chunk_info(chunks[i]) matches Ok(info)
            && info.sequence_header.sequence_number == last + 1 + i
            && info.sequence_header.request_id == request_id),
{
    let message_type = spec_chunk_type_of(message);
    let header = channel.header_for(message_type);
    let max_body = (spec_chunk_limit(send_buffer_size) - spec_chunk_overhead(header)) as nat;
    lemma_fragments_carry_body(
        message_type,
        channel.secure_channel_id,
        header,
        last + 1,
        request_id,
        message.body(),
        max_body,
    );
    lemma_fragment_headers(
        message_type,
        channel.secure_channel_id,
        header,
        last + 1,
        request_id,
        message.body(),
        max_body,
        i,
    );
}

/// Sequence numbers grow strictly over the life of a writer: every chunk of a
/// later message carries a larger number than every chunk of an earlier one,
/// whoever asked for the messages to be sent.
pub proof fn lemma_sequence_numbers_grow(
    last: u32,
    send_buffer_size: u32,
    first_request_id: u32,
    first: SupportedMessageView,
    first_channel: SecureChannel,
    second_request_id: u32,
    second: SupportedMessageView,
    second_channel: SecureChannel,
    i: int,
    j: int,
)
    requires
        spec_write_chunks(last, send_buffer_size, first_request_id, first, first_channel)
            matches Ok(a) && 0 <= i < a.len() && (spec_write_chunks(
            (last + a.len()) as u32,
            send_buffer_size,
            second_request_id,
            second,
            second_channel,
        ) matches Ok(b) && 0 <= j < b.len()),
    ensures
        ({
            let a = spec_write_chunks(
                last,
                send_buffer_size,
                first_request_id,
                first,
                first_channel,
            )->Ok_0;
            let b = spec_write_chunks(
                (last + a.len()) as u32,
                send_buffer_size,
                second_request_id,
                second,
                second_channel,
            )->Ok_0;
            &&& spec_chunk_info(a[i]) is Ok
            &&& spec_chunk_info(b[j]) is Ok
            &&& spec_chunk_info(a[i])->Ok_0.sequence_header.sequence_number < spec_chunk_info(
                b[j],
            )->Ok_0.sequence_header.sequence_number
        }),
{
    let a = spec_write_chunks(last, send_buffer_size, first_request_id, first, first_channel)->Ok_0;
    lemma_written_sequence_numbers(
        last,
        send_buffer_size,
        first_request_id,
        first,
        first_channel,
        i,
    );
    lemma_written_sequence_numbers(
        (last + a.len()) as u32,
        send_buffer_size,
        second_request_id,
        second,
        second_channel,
        j,
    );
}

/// The send buffer of a connection and the counter of its chunks.
#[derive(Debug)]
pub struct MessageWriter {
    /// The bytes that wait to be written to the socket.
    pub buffer: Vec<u8>,
    /// The sequence number of the chunk sent last; 0 before the first.
    pub last_sent_sequence_number: u32,
    /// The size of the largest chunk that is sent; 0 for no limit.
    pub send_buffer_size: u32,
}

impl MessageWriter {
    /// An empty writer that has sent no chunk yet.
    pub fn new(send_buffer_size: u32) -> (r: MessageWriter)
        ensures
            r.buffer@ == Seq::<u8>::empty(),
            r.last_sent_sequence_number == 0,
            r.send_buffer_size == send_buffer_size,
    {
        MessageWriter { buffer: Vec::new(), last_sent_sequence_number: 0, send_buffer_size }
    }

    /// Puts an ACK into the send buffer, as it is, and returns its size.
    pub fn write_ack(&mut self, ack: &AcknowledgeMessage) -> (r: usize)
        ensures
            r == ACKNOWLEDGE_MESSAGE_LEN,
            final(self).buffer@ == old(self).buffer@ + ack.bytes(),
            final(self).last_sent_sequence_number == old(self).last_sent_sequence_number,
            final(self).send_buffer_size == old(self).send_buffer_size,
    {
        ack.encode(&mut self.buffer)
    }

    /// Puts an ERR message into the send buffer, as it is, and returns its
    /// size. A reason too long to be written is refused.
    pub fn write_error(&mut self, error: &ErrorMessage) -> (r: Result<usize, StatusCode>)
        ensures
            final(self).last_sent_sequence_number == old(self).last_sent_sequence_number,
            final(self).send_buffer_size == old(self).send_buffer_size,
            spec_string_encodable(error@.reason) ==> r == Ok::<usize, StatusCode>(
                error@.byte_len() as usize,
            ) && final(self).buffer@ == old(self).buffer@ + error@.bytes(),
            !spec_string_encodable(error@.reason) ==> r == Err::<usize, StatusCode>(
                StatusCode::BadEncodingError,
            ) && final(self).buffer@ == old(self).buffer@,
    {
        error.encode(&mut self.buffer)
    }

    /// Writes a message into chunks, secures each on `secure_channel` and puts
    /// them into the send buffer. Returns the number of bytes added. A message
    /// that is refused leaves the writer as it was.
    pub fn write(
        &mut self,
        request_id: u32,
        message: SupportedMessage,
        secure_channel: &SecureChannel,
    ) -> (r: Result<usize, StatusCode>)
        ensures
            final(self).send_buffer_size == old(self).send_buffer_size,
            match spec_write_chunks(
                old(self).last_sent_sequence_number,
                old(self).send_buffer_size,
                request_id,
                message@,
                *secure_channel,
            ) {
                Ok(chunks) => r == Ok::<usize, StatusCode>(spec_joined(chunks).len() as usize)
                    && final(self).buffer@ == old(self).buffer@ + spec_joined(chunks)
                    && final(self).last_sent_sequence_number == old(
                    self,
                ).last_sent_sequence_number + chunks.len(),
                Err(e) => r == Err::<usize, StatusCode>(e) && final(self).buffer@ == old(
                    self,
                ).buffer@ && final(self).last_sent_sequence_number == old(
                    self,
                ).last_sent_sequence_number,
            },
    {
        if self.last_sent_sequence_number == u32::MAX {
            return Err(StatusCode::BadSequenceNumberInvalid);
        }
        let first = self.last_sent_sequence_number + 1;
        let chunks = match Chunker::encode(
            first,
            request_id,
            &message,
            secure_channel,
            self.send_buffer_size,
        ) {
            Ok(chunks) => chunks,
            Err(e) => {
                return Err(e);
            },
        };
        let ghost views = chunk_views(chunks@);
        proof {
            let message_type = spec_chunk_type_of(message@);
            let header = secure_channel.header_for(message_type);
            lemma_fragments_carry_body(
                message_type,
                secure_channel.secure_channel_id,
                header,
                first as int,
                request_id,
                message@.body(),
                (spec_chunk_limit(self.send_buffer_size) - spec_chunk_overhead(header)) as nat,
            );
        }
        let start = self.buffer.len();
        let mut i: usize = 0;
        while i < chunks.len()
            invariant
                i <= chunks.len(),
                views == chunk_views(chunks@),
                views.len() == chunks.len(),
                start == old(self).buffer@.len(),
                self.buffer@ == old(self).buffer@ + spec_joined_prefix(views, i as nat),
                self.last_sent_sequence_number == old(self).last_sent_sequence_number,
                self.send_buffer_size == old(self).send_buffer_size,
            decreases chunks.len() - i,
        {
            assert(views[i as int] == chunks@[i as int]@);
            let ghost before = self.buffer@;
            let _ = secure_channel.apply_security(&chunks[i], &mut self.buffer);
            assert(self.buffer@ =~= old(self).buffer@ + spec_joined_prefix(
                views,
                (i + 1) as nat,
            ));
            i = i + 1;
        }
        self.last_sent_sequence_number = self.last_sent_sequence_number + chunks.len() as u32;
        Ok(self.buffer.len() - start)
    }

    /// Hands out the bytes that wait to be written and empties the send buffer.
    pub fn bytes_to_write(&mut self) -> (r: Vec<u8>)
        ensures
            r@ == old(self).buffer@,
            final(self).buffer@ == Seq::<u8>::empty(),
            final(self).last_sent_sequence_number == old(self).last_sent_sequence_number,
            final(self).send_buffer_size == old(self).send_buffer_size,
    {
        let mut bytes: Vec<u8> = Vec::new();
        bytes.append(&mut self.buffer);
        assert(bytes@ =~= old(self).buffer@);
        bytes
    }
}

} // verus!
