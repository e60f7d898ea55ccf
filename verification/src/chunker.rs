//! Turning a message into the chunks that carry it and back, and checking the
//! chunks of a group against the channel and against each other.

use crate::encoding::append_range;
use crate::message_chunk::{
    lemma_chunk_info_header, lemma_chunk_info_of_bytes, spec_chunk_body, spec_chunk_bytes,
    spec_chunk_info, spec_chunk_overhead, MessageChunk, MessageChunkType, SecurityHeaderView,
    SequenceHeader,
};
use crate::secure_channel::SecureChannel;
use crate::status_code::StatusCode;
use crate::supported_message::{
    lemma_decode_body_of_encoded, spec_decode_body, SupportedMessage, SupportedMessageView,
};
use crate::tcp_types::MessageIsFinalType;
use vstd::prelude::*;
use vstd::slice::slice_subrange;

verus! {

/// The sequence number that stands `n` places behind `start`, counting modulo 2^32.
pub open spec fn spec_sequence_after(start: u32, n: nat) -> u32 {
    ((start + n) % 0x1_0000_0000) as u32
}

/// The frames of a group of chunks.
pub open spec fn chunk_views(chunks: Seq<MessageChunk>) -> Seq<Seq<u8>> {
    chunks.map_values(|c: MessageChunk| c@)
}

/// The kind of chunk that carries a message: OPN for the messages that open the
/// channel, CLO for those that close it, MSG for all others.
pub open spec fn spec_chunk_type_of(m: SupportedMessageView) -> MessageChunkType {
    match m {
        SupportedMessageView::OpenSecureChannelRequest(_) => MessageChunkType::OpenSecureChannel,
        SupportedMessageView::OpenSecureChannelResponse(_) => MessageChunkType::OpenSecureChannel,
        SupportedMessageView::CloseSecureChannelRequest(_) => MessageChunkType::CloseSecureChannel,
        SupportedMessageView::CloseSecureChannelResponse(_) =>
            MessageChunkType::CloseSecureChannel,
        _ => MessageChunkType::Message,
    }
}

/// What is asked of chunk `i` of a group that was expected to start at sequence
/// number `start`. Its headers must decode; it must belong to the channel, if
/// one is open; it must carry the sequence number that is its turn; it must
/// share request id and security header with the first chunk; and the channel
/// must accept its security header.
pub open spec fn spec_check_chunk(
    channel: SecureChannel,
    start: u32,
    chunks: Seq<Seq<u8>>,
    i: int,
) -> Result<(), StatusCode> {
    match spec_chunk_info(chunks[i]) {
        Err(e) => Err(e),
        Ok(info) => {
            let first = spec_chunk_info(chunks[0]);
            if channel.secure_channel_id != 0 && info.message_header.secure_channel_id
                != channel.secure_channel_id {
                Err(StatusCode::BadSecureChannelIdInvalid)
            } else if info.sequence_header.sequence_number != spec_sequence_after(
                start,
                i as nat,
            ) {
                Err(StatusCode::BadSequenceNumberInvalid)
            } else if !(first matches Ok(f) && f.sequence_header.request_id
                == info.sequence_header.request_id && f.security_header
                == info.security_header) {
                Err(StatusCode::BadSecurityChecksFailed)
            } else if !channel.accepts(info.security_header) {
                Err(StatusCode::BadSecurityChecksFailed)
            } else {
                Ok(())
            }
        },
    }
}

/// The first `n` chunks of a group, checked in order: the first complaint counts.
pub open spec fn spec_validate_prefix(
    channel: SecureChannel,
    start: u32,
    chunks: Seq<Seq<u8>>,
    n: nat,
) -> Result<(), StatusCode>
    decreases n,
{
    if n == 0 {
        Ok(())
    } else {
        match spec_validate_prefix(channel, start, chunks, (n - 1) as nat) {
            Err(e) => Err(e),
            Ok(_) => spec_check_chunk(channel, start, chunks, n - 1),
        }
    }
}

/// A whole group checked: the sequence number expected next, or the first complaint.
pub open spec fn spec_validate(channel: SecureChannel, start: u32, chunks: Seq<Seq<u8>>) -> Result<
    u32,
    StatusCode,
> {
    match spec_validate_prefix(channel, start, chunks, chunks.len()) {
        Err(e) => Err(e),
        Ok(_) => Ok(spec_sequence_after(start, chunks.len())),
    }
}

/// The bodies of the first `n` chunks, one behind the other; the complaint of
/// the first chunk whose headers do not decode.
pub open spec fn spec_bodies_prefix(chunks: Seq<Seq<u8>>, n: nat) -> Result<Seq<u8>, StatusCode>
    decreases n,
{
    if n == 0 {
        Ok(Seq::empty())
    } else {
        match spec_bodies_prefix(chunks, (n - 1) as nat) {
            Err(e) => Err(e),
            Ok(bodies) => match spec_chunk_info(chunks[n - 1]) {
                Err(e) => Err(e),
                Ok(info) => Ok(bodies + spec_chunk_body(chunks[n - 1], info)),
            },
        }
    }
}

/// The message that a group of chunks carries.
pub open spec fn spec_decode(chunks: Seq<Seq<u8>>, known: Option<Seq<u32>>) -> Result<
    SupportedMessageView,
    StatusCode,
> {
    match spec_bodies_prefix(chunks, chunks.len()) {
        Err(e) => Err(e),
        Ok(body) => spec_decode_body(body, known),
    }
}

/// The largest chunk that may be built: `max_chunk_size`, where 0 stands for the
/// largest size a frame can declare.
pub open spec fn spec_chunk_limit(max_chunk_size: u32) -> nat {
    if max_chunk_size == 0 {
        u32::MAX as nat
    } else {
        max_chunk_size as nat
    }
}

/// How many chunks a body takes when no chunk holds more than `max_body` bytes of it.
pub open spec fn spec_chunk_count(body_len: nat, max_body: nat) -> nat
    decreases body_len,
{
    if max_body == 0 || body_len <= max_body {
        1
    } else {
        1 + spec_chunk_count((body_len - max_body) as nat, max_body)
    }
}

/// A body cut into chunks of at most `max_body` bytes each: all but the last are
/// intermediate, the last is final, and their sequence numbers count up from
/// `sequence_number`.
pub open spec fn spec_fragments(
    message_type: MessageChunkType,
    secure_channel_id: u32,
    security_header: SecurityHeaderView,
    sequence_number: int,
    request_id: u32,
    body: Seq<u8>,
    max_body: nat,
) -> Seq<Seq<u8>>
    decreases body.len(),
{
    if max_body == 0 || body.len() <= max_body {
        seq![
            spec_chunk_bytes(
                message_type,
                MessageIsFinalType::Final,
                secure_channel_id,
                security_header,
                SequenceHeader { sequence_number: sequence_number as u32, request_id },
                body,
            ),
        ]
    } else {
        seq![
            spec_chunk_bytes(
                message_type,
                MessageIsFinalType::Intermediate,
                secure_channel_id,
                security_header,
                SequenceHeader { sequence_number: sequence_number as u32, request_id },
                body.subrange(0, max_body as int),
            ),
        ] + spec_fragments(
            message_type,
            secure_channel_id,
            security_header,
            sequence_number + 1,
            request_id,
            body.subrange(max_body as int, body.len() as int),
            max_body,
        )
    }
}

/// The chunks that carry a message on a channel. Refused with
/// `BadEncodingError` when the message cannot be written or a chunk of the
/// given size has no room for a body, and with `BadSequenceNumberInvalid` when
/// the sequence numbers of the channel would run out.
pub open spec fn spec_encode(
    sequence_number: u32,
    request_id: u32,
    message: SupportedMessageView,
    channel: SecureChannel,
    max_chunk_size: u32,
) -> Result<Seq<Seq<u8>>, StatusCode> {
    let message_type = spec_chunk_type_of(message);
    let header = channel.header_for(message_type);
    let overhead = spec_chunk_overhead(header);
    let limit = spec_chunk_limit(max_chunk_size);
    if !message.encodable() || limit <= overhead {
        Err(StatusCode::BadEncodingError)
    } else {
        let max_body = (limit - overhead) as nat;
        if sequence_number + spec_chunk_count(message.body().len(), max_body) - 1 > u32::MAX {
            Err(StatusCode::BadSequenceNumberInvalid)
        } else {
            Ok(
                spec_fragments(
                    message_type,
                    channel.secure_channel_id,
                    header,
                    sequence_number as int,
                    request_id,
                    message.body(),
                    max_body,
                ),
            )
        }
    }
}

/// Counting one further is counting modulo 2^32.
pub proof fn lemma_sequence_after_step(start: u32, n: nat)
    ensures
        spec_sequence_after(start, n + 1) == if spec_sequence_after(start, n) == u32::MAX {
            0u32
        } else {
            (spec_sequence_after(start, n) + 1) as u32
        },
        spec_sequence_after(start, 0) == start,
        spec_sequence_after(spec_sequence_after(start, n), 1) == spec_sequence_after(start, n + 1),
{
}

/// The number before the one that stands `n` places behind the successor of
/// `last` stands `n` places behind `last`.
pub proof fn lemma_sequence_before(last: u32, n: nat)
    ensures
        ({
            let next = spec_sequence_after(spec_sequence_after(last, 1), n);
            spec_sequence_after(last, n) == if next == 0 {
                u32::MAX
            } else {
                (next - 1) as u32
            }
        }),
        spec_sequence_after(last, 1) == if last == u32::MAX {
            0u32
        } else {
            (last + 1) as u32
        },
{
    let m = 0x1_0000_0000int;
    let a = (last + 1) % m;
    let x = (last + n) % m;
    assert((a + n) % m == (last + 1 + n) % m) by {
        vstd::arithmetic::div_mod::lemma_add_mod_noop(last + 1, n as int, m);
        vstd::arithmetic::div_mod::lemma_mod_twice((last + 1) as int, m);
        vstd::arithmetic::div_mod::lemma_add_mod_noop(a, n as int, m);
        vstd::arithmetic::div_mod::lemma_mod_twice(a, m);
    }
    assert((last + n + 1) % m == if x == m - 1 {
        0
    } else {
        x + 1
    }) by {
        vstd::arithmetic::div_mod::lemma_add_mod_noop(last + n, 1, m);
        vstd::arithmetic::div_mod::lemma_small_mod(1, m as nat);
        if x == m - 1 {
            vstd::arithmetic::div_mod::lemma_mod_self_0(m);
        } else {
            vstd::arithmetic::div_mod::lemma_small_mod((x + 1) as nat, m as nat);
        }
    }
}

/// In a prefix that passed, every chunk passed.
pub proof fn lemma_validate_prefix_each(
    channel: SecureChannel,
    start: u32,
    chunks: Seq<Seq<u8>>,
    n: nat,
    i: int,
)
    requires
        spec_validate_prefix(channel, start, chunks, n) is Ok,
        0 <= i < n,
    ensures
        spec_check_chunk(channel, start, chunks, i) is Ok,
    decreases n,
{
    if i < n - 1 {
        lemma_validate_prefix_each(channel, start, chunks, (n - 1) as nat, i);
    }
}

/// In a group that passed, each chunk carries the sequence number that follows
/// that of the chunk before it, counting modulo 2^32, and the first carries the
/// number the group was expected to start with.
pub proof fn lemma_validated_chunks_are_consecutive(
    channel: SecureChannel,
    start: u32,
    chunks: Seq<Seq<u8>>,
    i: int,
)
    requires
        spec_validate(channel, start, chunks) is Ok,
        0 <= i < chunks.len(),
    ensures
        spec_chunk_info(chunks[i]) is Ok,
        spec_chunk_info(chunks[0]) is Ok,
        spec_chunk_info(chunks[0])->Ok_0.sequence_header.sequence_number == start,
        i > 0 ==> spec_chunk_info(chunks[i - 1]) is Ok && spec_chunk_info(
            chunks[i],
        )->Ok_0.sequence_header.sequence_number == spec_sequence_after(
            spec_chunk_info(chunks[i - 1])->Ok_0.sequence_header.sequence_number,
            1,
        ),
{
    lemma_validate_prefix_each(channel, start, chunks, chunks.len(), i);
    lemma_validate_prefix_each(channel, start, chunks, chunks.len(), 0);
    lemma_sequence_after_step(start, 0);
    if i > 0 {
        lemma_validate_prefix_each(channel, start, chunks, chunks.len(), i - 1);
        lemma_sequence_after_step(start, (i - 1) as nat);
    }
}

/// A group whose first chunk carries another sequence number than expected is
/// refused, and with `BadSequenceNumberInvalid` when the chunk is otherwise in
/// order for its channel.
pub proof fn lemma_out_of_sequence_is_refused(
    channel: SecureChannel,
    start: u32,
    chunks: Seq<Seq<u8>>,
)
    requires
        chunks.len() > 0,
        spec_chunk_info(chunks[0]) matches Ok(info) && info.sequence_header.sequence_number
            != start,
    ensures
        spec_validate(channel, start, chunks) is Err,
        spec_chunk_info(chunks[0]) matches Ok(info) && (channel.secure_channel_id == 0
            || info.message_header.secure_channel_id == channel.secure_channel_id)
            ==> spec_validate(channel, start, chunks) == Err::<u32, StatusCode>(
            StatusCode::BadSequenceNumberInvalid,
        ),
{
    lemma_sequence_after_step(start, 0);
    assert(spec_validate_prefix(channel, start, chunks, 0) is Ok);
    assert(spec_validate_prefix(channel, start, chunks, 1) == spec_check_chunk(
        channel,
        start,
        chunks,
        0,
    ));
    lemma_validate_prefix_error_stays(channel, start, chunks, 1, chunks.len());
}

/// A complaint about a prefix is the complaint about every longer prefix.
pub proof fn lemma_validate_prefix_error_stays(
    channel: SecureChannel,
    start: u32,
    chunks: Seq<Seq<u8>>,
    n: nat,
    m: nat,
)
    requires
        n <= m,
        spec_validate_prefix(channel, start, chunks, n) is Err,
    ensures
        spec_validate_prefix(channel, start, chunks, m) == spec_validate_prefix(
            channel,
            start,
            chunks,
            n,
        ),
    decreases m,
{
    if n < m {
        lemma_validate_prefix_error_stays(channel, start, chunks, n, (m - 1) as nat);
    }
}

/// The bodies of a group that starts with one chunk are that chunk's body and
/// then the bodies of the rest.
pub proof fn lemma_bodies_of_cons(head: Seq<u8>, rest: Seq<Seq<u8>>, n: nat)
    requires
        n <= rest.len(),
        spec_chunk_info(head) is Ok,
    ensures
        spec_bodies_prefix(seq![head] + rest, n + 1) == match spec_bodies_prefix(rest, n) {
            Err(e) => Err::<Seq<u8>, StatusCode>(e),
            Ok(bodies) => Ok(spec_chunk_body(head, spec_chunk_info(head)->Ok_0) + bodies),
        },
    decreases n,
{
    let all = seq![head] + rest;
    let head_body = spec_chunk_body(head, spec_chunk_info(head)->Ok_0);
    if n == 0 {
        assert(spec_bodies_prefix(all, 0) == Ok::<Seq<u8>, StatusCode>(Seq::empty()));
        assert(all[0] == head);
        assert(Seq::<u8>::empty() + head_body =~= head_body + Seq::<u8>::empty());
    } else {
        lemma_bodies_of_cons(head, rest, (n - 1) as nat);
        assert(all[n as int] == rest[n - 1]);
        match spec_bodies_prefix(rest, (n - 1) as nat) {
            Err(e) => {},
            Ok(bodies) => match spec_chunk_info(rest[n - 1]) {
                Err(e) => {},
                Ok(info) => {
                    let b = spec_chunk_body(rest[n - 1], info);
                    assert((head_body + bodies) + b =~= head_body + (bodies + b));
                },
            },
        }
    }
}

/// The chunks cut from a body are as many as were counted, and their bodies put
/// together are the body again.
pub proof fn lemma_fragments_carry_body(
    message_type: MessageChunkType,
    secure_channel_id: u32,
    security_header: SecurityHeaderView,
    sequence_number: int,
    request_id: u32,
    body: Seq<u8>,
    max_body: nat,
)
    requires
        security_header.encodable(),
        security_header.fits(message_type),
        max_body > 0,
        spec_chunk_overhead(security_header) + max_body <= u32::MAX,
    ensures
        ({
            let chunks = spec_fragments(
                message_type,
                secure_channel_id,
                security_header,
                sequence_number,
                request_id,
                body,
                max_body,
            );
            &&& chunks.len() == spec_chunk_count(body.len(), max_body)
            &&& spec_bodies_prefix(chunks, chunks.len()) == Ok::<Seq<u8>, StatusCode>(body)
        }),
    decreases body.len(),
{
    let chunks = spec_fragments(
        message_type,
        secure_channel_id,
        security_header,
        sequence_number,
        request_id,
        body,
        max_body,
    );
    let header = SequenceHeader { sequence_number: sequence_number as u32, request_id };
    if body.len() <= max_body {
        let only = spec_chunk_bytes(
            message_type,
            MessageIsFinalType::Final,
            secure_channel_id,
            security_header,
            header,
            body,
        );
        assert(chunks == seq![only]);
        lemma_chunk_info_of_bytes(
            message_type,
            MessageIsFinalType::Final,
            secure_channel_id,
            security_header,
            header,
            body,
        );
        assert(chunks[0] == only);
        assert(spec_bodies_prefix(chunks, 0) == Ok::<Seq<u8>, StatusCode>(Seq::empty()));
        assert(Seq::<u8>::empty() + body =~= body);
        assert(spec_bodies_prefix(chunks, 1) == Ok::<Seq<u8>, StatusCode>(body));
    } else {
        let head_body = body.subrange(0, max_body as int);
        let tail_body = body.subrange(max_body as int, body.len() as int);
        let head = spec_chunk_bytes(
            message_type,
            MessageIsFinalType::Intermediate,
            secure_channel_id,
            security_header,
            header,
            head_body,
        );
        let rest = spec_fragments(
            message_type,
            secure_channel_id,
            security_header,
            sequence_number + 1,
            request_id,
            tail_body,
            max_body,
        );
        assert(chunks == seq![head] + rest);
        lemma_chunk_info_of_bytes(
            message_type,
            MessageIsFinalType::Intermediate,
            secure_channel_id,
            security_header,
            header,
            head_body,
        );
        lemma_fragments_carry_body(
            message_type,
            secure_channel_id,
            security_header,
            sequence_number + 1,
            request_id,
            tail_body,
            max_body,
        );
        lemma_bodies_of_cons(head, rest, rest.len());
        assert(head_body + tail_body =~= body);
        assert(chunks.len() == rest.len() + 1);
    }
}

/// Chunk `i` of the chunks cut from a body carries the sequence number `i`
/// places behind the first and the request id of the group; it is final if it
/// is the last and intermediate if not.
pub proof fn lemma_fragment_headers(
    message_type: MessageChunkType,
    secure_channel_id: u32,
    security_header: SecurityHeaderView,
    sequence_number: int,
    request_id: u32,
    body: Seq<u8>,
    max_body: nat,
    i: int,
)
    requires
        security_header.encodable(),
        security_header.fits(message_type),
        max_body > 0,
        spec_chunk_overhead(security_header) + max_body <= u32::MAX,
        0 <= sequence_number,
        sequence_number + spec_chunk_count(body.len(), max_body) - 1 <= u32::MAX,
        0 <= i < spec_chunk_count(body.len(), max_body),
    ensures
        ({
            let chunks = spec_fragments(
                message_type,
                secure_channel_id,
                security_header,
                sequence_number,
                request_id,
                body,
                max_body,
            );
            &&& chunks.len() == spec_chunk_count(body.len(), max_body)
            &&& spec_chunk_info(chunks[i]) matches Ok(info)
            &&& info.sequence_header.sequence_number == sequence_number + i
            &&& info.sequence_header.request_id == request_id
            &&& info.message_header.message_type == message_type
            &&& info.message_header.secure_channel_id == secure_channel_id
            &&& info.security_header == security_header
            &&& info.message_header.is_final == if i == chunks.len() - 1 {
                MessageIsFinalType::Final
            } else {
                MessageIsFinalType::Intermediate
            }
        }),
    decreases body.len(),
{
    let chunks = spec_fragments(
        message_type,
        secure_channel_id,
        security_header,
        sequence_number,
        request_id,
        body,
        max_body,
    );
    lemma_fragments_carry_body(
        message_type,
        secure_channel_id,
        security_header,
        sequence_number,
        request_id,
        body,
        max_body,
    );
    let header = SequenceHeader { sequence_number: sequence_number as u32, request_id };
    if body.len() <= max_body {
        let only = spec_chunk_bytes(
            message_type,
            MessageIsFinalType::Final,
            secure_channel_id,
            security_header,
            header,
            body,
        );
        assert(chunks == seq![only]);
        assert(chunks[0] == only);
        lemma_chunk_info_of_bytes(
            message_type,
            MessageIsFinalType::Final,
            secure_channel_id,
            security_header,
            header,
            body,
        );
    } else {
        let head_body = body.subrange(0, max_body as int);
        let tail_body = body.subrange(max_body as int, body.len() as int);
        let head = spec_chunk_bytes(
            message_type,
            MessageIsFinalType::Intermediate,
            secure_channel_id,
            security_header,
            header,
            head_body,
        );
        let rest = spec_fragments(
            message_type,
            secure_channel_id,
            security_header,
            sequence_number + 1,
            request_id,
            tail_body,
            max_body,
        );
        assert(chunks == seq![head] + rest);
        lemma_chunk_count_positive(tail_body.len(), max_body);
        if i == 0 {
            assert(chunks[0] == head);
            lemma_chunk_info_of_bytes(
                message_type,
                MessageIsFinalType::Intermediate,
                secure_channel_id,
                security_header,
                header,
                head_body,
            );
        } else {
            assert(chunks[i] == rest[i - 1]);
            lemma_fragment_headers(
                message_type,
                secure_channel_id,
                security_header,
                sequence_number + 1,
                request_id,
                tail_body,
                max_body,
                i - 1,
            );
        }
    }
}

/// A body takes at least one chunk.
pub proof fn lemma_chunk_count_positive(body_len: nat, max_body: nat)
    ensures
        spec_chunk_count(body_len, max_body) >= 1,
{
}

/// Decoding the chunks that carry a message gives the message back: on every
/// channel, for every request id, first sequence number and chunk size with
/// which the message can be written at all, and whatever service ids are known,
/// as long as that of an undecoded service message is among them.
pub proof fn lemma_decode_inverts_encode(
    sequence_number: u32,
    request_id: u32,
    message: SupportedMessageView,
    channel: SecureChannel,
    max_chunk_size: u32,
    known: Option<Seq<u32>>,
)
    requires
        (message matches SupportedMessageView::Service { type_id, body } && known is Some)
            ==> known->Some_0.contains(message.type_id()->Some_0),
    ensures
        spec_encode(sequence_number, request_id, message, channel, max_chunk_size) matches Ok(
            chunks,
        ) ==> spec_decode(chunks, known) == Ok::<SupportedMessageView, StatusCode>(message),
{
    let message_type = spec_chunk_type_of(message);
    let header = channel.header_for(message_type);
    if spec_encode(sequence_number, request_id, message, channel, max_chunk_size) is Ok {
        let max_body = (spec_chunk_limit(max_chunk_size) - spec_chunk_overhead(header)) as nat;
        lemma_fragments_carry_body(
            message_type,
            channel.secure_channel_id,
            header,
            sequence_number as int,
            request_id,
            message.body(),
            max_body,
        );
        lemma_decode_body_of_encoded(message, known);
    }
}

/// The functions that turn messages into chunks and chunks into messages.
pub struct Chunker;

impl Chunker {
    /// Checks a group of chunks that is expected to start at sequence number
    /// `expected_seq_start`, and returns the sequence number expected after it.
    pub fn validate_chunks(
        expected_seq_start: u32,
        secure_channel: &SecureChannel,
        chunks: &Vec<MessageChunk>,
    ) -> (r: Result<u32, StatusCode>)
        ensures
            r == spec_validate(*secure_channel, expected_seq_start, chunk_views(chunks@)),
    {
        let ghost views = chunk_views(chunks@);
        let mut expected: u32 = expected_seq_start;
        let mut i: usize = 0;
        proof {
            lemma_sequence_after_step(expected_seq_start, 0);
        }
        while i < chunks.len()
            invariant
                i <= chunks.len(),
                views == chunk_views(chunks@),
                views.len() == chunks.len(),
                spec_validate_prefix(*secure_channel, expected_seq_start, views, i as nat) is Ok,
                expected == spec_sequence_after(expected_seq_start, i as nat),
            decreases chunks.len() - i,
        {
            assert(views[i as int] == chunks@[i as int]@);
            assert(views[0] == chunks@[0]@);
            let ghost check = spec_check_chunk(
                *secure_channel,
                expected_seq_start,
                views,
                i as int,
            );
            proof {
                if check is Err {
                    assert(spec_validate_prefix(
                        *secure_channel,
                        expected_seq_start,
                        views,
                        (i + 1) as nat,
                    ) == check);
                    lemma_validate_prefix_error_stays(
                        *secure_channel,
                        expected_seq_start,
                        views,
                        (i + 1) as nat,
                        views.len(),
                    );
                }
            }
            let info = match chunks[i].chunk_info() {
                Ok(info) => info,
                Err(e) => {
                    return Err(e);
                },
            };
            let channel_id = secure_channel.secure_channel_id();
            if channel_id != 0 && info.message_header.secure_channel_id != channel_id {
                return Err(StatusCode::BadSecureChannelIdInvalid);
            }
            if info.sequence_header.sequence_number != expected {
                return Err(StatusCode::BadSequenceNumberInvalid);
            }
            let same_group = match chunks[0].chunk_info() {
                Ok(first) => first.sequence_header.request_id == info.sequence_header.request_id
                    && first.security_header.same(&info.security_header),
                Err(_) => false,
            };
            if !same_group {
                return Err(StatusCode::BadSecurityChecksFailed);
            }
            match secure_channel.verify_header(&info.security_header) {
                Ok(_) => {},
                Err(e) => {
                    return Err(e);
                },
            }
            proof {
                lemma_sequence_after_step(expected_seq_start, i as nat);
            }
            expected = if expected == u32::MAX {
                0
            } else {
                expected + 1
            };
            i = i + 1;
        }
        Ok(expected)
    }

    /// The kind of chunk that carries `message`.
    pub fn chunk_type_of(message: &SupportedMessage) -> (r: MessageChunkType)
        ensures
            r == spec_chunk_type_of(message@),
    {
        match message {
            SupportedMessage::OpenSecureChannelRequest(_) => MessageChunkType::OpenSecureChannel,
            SupportedMessage::OpenSecureChannelResponse(_) => MessageChunkType::OpenSecureChannel,
            SupportedMessage::CloseSecureChannelRequest(_) => MessageChunkType::CloseSecureChannel,
            SupportedMessage::CloseSecureChannelResponse(_) =>
                MessageChunkType::CloseSecureChannel,
            _ => MessageChunkType::Message,
        }
    }

    /// Writes `message` into chunks of at most `max_chunk_size` bytes (0: as
    /// large as a frame can be), numbered from `sequence_number` on.
    #[verifier::loop_isolation(false)]
    pub fn encode(
        sequence_number: u32,
        request_id: u32,
        message: &SupportedMessage,
        secure_channel: &SecureChannel,
        max_chunk_size: u32,
    ) -> (r: Result<Vec<MessageChunk>, StatusCode>)
        ensures
            match spec_encode(
                sequence_number,
                request_id,
                message@,
                *secure_channel,
                max_chunk_size,
            ) {
                Ok(views) => r matches Ok(chunks) && chunk_views(chunks@) == views,
                Err(e) => r matches Err(x) && x == e,
            },
    {
        let message_type = Self::chunk_type_of(message);
        let header = secure_channel.make_security_header(message_type);
        let overhead: u64 = 20 + header.byte_len().unwrap();
        let limit: u64 = if max_chunk_size == 0 {
            0xffff_ffff
        } else {
            max_chunk_size as u64
        };
        let body = match message.encode_body() {
            Ok(body) => body,
            Err(e) => {
                return Err(e);
            },
        };
        if limit <= overhead {
            return Err(StatusCode::BadEncodingError);
        }
        let max_body: usize = (limit - overhead) as usize;
        let channel_id = secure_channel.secure_channel_id();
        let ghost total = spec_fragments(
            message_type,
            channel_id,
            header@,
            sequence_number as int,
            request_id,
            body@,
            max_body as nat,
        );
        let ghost count = spec_chunk_count(body@.len(), max_body as nat);
        let mut chunks: Vec<MessageChunk> = Vec::new();
        let mut pos: usize = 0;
        let mut sequence: u32 = sequence_number;
        assert(chunk_views(chunks@) =~= Seq::<Seq<u8>>::empty());
        assert(body@.subrange(0, body@.len() as int) =~= body@);
        loop
            invariant
                pos <= body.len(),
                max_body > 0,
                max_body == limit - overhead,
                limit <= u32::MAX,
                overhead == spec_chunk_overhead(header@),
                header@.encodable(),
                header@.fits(message_type),
                sequence == sequence_number + chunks.len(),
                count == chunks.len() + spec_chunk_count(
                    (body.len() - pos) as nat,
                    max_body as nat,
                ),
                total == chunk_views(chunks@) + spec_fragments(
                    message_type,
                    channel_id,
                    header@,
                    sequence as int,
                    request_id,
                    body@.subrange(pos as int, body@.len() as int),
                    max_body as nat,
                ),
            decreases body.len() - pos,
        {
            let remaining = body.len() - pos;
            let ghost rest = body@.subrange(pos as int, body@.len() as int);
            if remaining <= max_body {
                let piece = slice_subrange(body.as_slice(), pos, body.len());
                let chunk = match MessageChunk::new(
                    sequence,
                    request_id,
                    message_type,
                    MessageIsFinalType::Final,
                    channel_id,
                    &header,
                    piece,
                ) {
                    Ok(chunk) => chunk,
                    Err(e) => {
                        return Err(e);
                    },
                };
                let ghost before = chunk_views(chunks@);
                chunks.push(chunk);
                assert(chunk_views(chunks@) =~= before + seq![chunk@]);
                return Ok(chunks);
            }
            if sequence == u32::MAX {
                proof {
                    lemma_chunk_count_positive((remaining - max_body) as nat, max_body as nat);
                }
                return Err(StatusCode::BadSequenceNumberInvalid);
            }
            let piece = slice_subrange(body.as_slice(), pos, pos + max_body);
            assert(piece@ == rest.subrange(0, max_body as int));
            assert(body@.subrange(pos + max_body, body@.len() as int) == rest.subrange(
                max_body as int,
                rest.len() as int,
            ));
            let chunk = match MessageChunk::new(
                sequence,
                request_id,
                message_type,
                MessageIsFinalType::Intermediate,
                channel_id,
                &header,
                piece,
            ) {
                Ok(chunk) => chunk,
                Err(e) => {
                    return Err(e);
                },
            };
            let ghost before = chunk_views(chunks@);
            chunks.push(chunk);
            assert(chunk_views(chunks@) =~= before + seq![chunk@]);
            let ghost tail = spec_fragments(
                message_type,
                channel_id,
                header@,
                sequence + 1,
                request_id,
                rest.subrange(max_body as int, rest.len() as int),
                max_body as nat,
            );
            assert((before + seq![chunk@]) + tail =~= before + (seq![chunk@] + tail));
            pos = pos + max_body;
            sequence = sequence + 1;
        }
    }

    /// Puts the bodies of a group of chunks together and decodes the message
    /// they carry. Where `known` gives service ids, a message of another
    /// service, the channel's own aside, is refused as unsupported.
    pub fn decode(chunks: &Vec<MessageChunk>, known: Option<&Vec<u32>>) -> (r: Result<
        SupportedMessage,
        StatusCode,
    >)
        ensures
            match spec_decode(
                chunk_views(chunks@),
                match known {
                    Some(ids) => Some(ids@),
                    None => None,
                },
            ) {
                Ok(v) => r matches Ok(m) && m@ == v,
                Err(e) => r matches Err(x) && x == e,
            },
    {
        let ghost views = chunk_views(chunks@);
        let mut body: Vec<u8> = Vec::new();
        let mut i: usize = 0;
        while i < chunks.len()
            invariant
                i <= chunks.len(),
                views == chunk_views(chunks@),
                views.len() == chunks.len(),
                spec_bodies_prefix(views, i as nat) == Ok::<Seq<u8>, StatusCode>(body@),
            decreases chunks.len() - i,
        {
            assert(views[i as int] == chunks@[i as int]@);
            let info = match chunks[i].chunk_info() {
                Ok(info) => info,
                Err(e) => {
                    proof {
                        lemma_bodies_prefix_error_stays(views, (i + 1) as nat, views.len());
                    }
                    return Err(e);
                },
            };
            proof {
                lemma_chunk_info_header(views[i as int]);
            }
            append_range(
                &mut body,
                chunks[i].data.as_slice(),
                info.body_offset,
                chunks[i].data.len(),
            );
            i = i + 1;
        }
        SupportedMessage::decode_body(body.as_slice(), known)
    }
}

/// A complaint about the bodies of a prefix is the complaint about every longer prefix.
pub proof fn lemma_bodies_prefix_error_stays(chunks: Seq<Seq<u8>>, n: nat, m: nat)
    requires
        n <= m,
        spec_bodies_prefix(chunks, n) is Err,
    ensures
        spec_bodies_prefix(chunks, m) == spec_bodies_prefix(chunks, n),
    decreases m,
{
    if n < m {
        lemma_bodies_prefix_error_stays(chunks, n, (m - 1) as nat);
    }
}

} // verus!
