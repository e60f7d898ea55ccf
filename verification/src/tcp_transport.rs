//! The transport of one connection: its state machine and the decisions of the
//! tasks that serve it.
//!
//! A connection is served by a read loop, a write loop, a timer that waits for
//! the HELLO and a pump for the responses of subscriptions. What each of them
//! decides is a method of [`TcpTransport`]; reading and writing the socket,
//! waiting, and asking the message handler are left to the caller, which hands
//! in what happened and is told what to do.
//!
//! Times are moments in milliseconds since the Unix epoch.

use crate::chunker::{
    chunk_views, lemma_sequence_before, spec_decode, spec_sequence_after, spec_validate,
    Chunker,
};
use crate::clock::utc_now_millis;
use crate::message_chunk::{
    lemma_chunk_info_header, spec_chunk_header, spec_chunk_info, MessageChunk,
    MessageChunkType, SecurityHeaderView,
};
use crate::message_handler::MessageHandler;
use crate::message_reader::{message_views, spec_extract, Message, MessageReader, MessageView};
use crate::message_writer::{spec_joined, spec_joined_prefix, spec_write_chunks, MessageWriter};
use crate::secure_channel::SecureChannel;
use crate::secure_channel_service::{SecureChannelService, SERVER_PROTOCOL_VERSION};
use crate::session::{response_views, spec_expired, spec_fresh, PublishResponseEntry, Session};
use crate::state::ServerState;
use crate::status_code::StatusCode;
use crate::supported_message::{ServiceFault, SupportedMessage, SupportedMessageView};
use crate::encoding::UAString;
use crate::tcp_types::{
    AcknowledgeMessage, ErrorMessage, ErrorMessageView, HelloMessage, HelloMessageView,
    MessageIsFinalType,
};
use vstd::prelude::*;

verus! {

/// Where a connection stands.
#[derive(Clone, Copy, Debug, PartialEq, Eq, Structural)]
pub enum TransportState {
    /// Accepted, nothing received yet.
    New,
    /// The peer is known; its HELLO is awaited.
    WaitingHello,
    /// The handshake is done; chunks flow.
    ProcessMessages,
    /// The connection has ended, with the status that ended it.
    Finished(StatusCode),
}

impl TransportState {
    /// How far a connection has come: every step of a connection leaves this
    /// as it is or raises it.
    pub open spec fn rank(self) -> nat {
        match self {
            TransportState::New => 0,
            TransportState::WaitingHello => 1,
            TransportState::ProcessMessages => 2,
            TransportState::Finished(_) => 3,
        }
    }
}

/// An internet address, version 4 or 6, as a number.
#[derive(Clone, Copy, Debug, PartialEq, Eq, Structural)]
pub enum IpAddress {
    V4(u32),
    V6(u128),
}

/// The address of a peer.
#[derive(Clone, Copy, Debug, PartialEq, Eq, Structural)]
pub struct SocketAddress {
    pub ip: IpAddress,
    pub port: u16,
}

/// What the pump of subscriptions hands from its monitor to its receiver.
#[derive(Debug, Clone, PartialEq, Eq)]
pub enum SubscriptionEvent {
    PublishResponses(Vec<PublishResponseEntry>),
}

/// What handling something that was received leads to, beside the new state of
/// the transport.
pub enum ReadEffect {
    /// Nothing is sent and nothing is asked.
    Nothing,
    /// A response is put on the write channel, under the id of its request.
    Enqueued(u32, SupportedMessageView),
    /// A request is to be handed to the message handler, under its request id.
    Request(u32, SupportedMessageView),
}

/// The entries of a write channel as mathematical values.
pub open spec fn entry_views(entries: Seq<(u32, SupportedMessage)>) -> Seq<
    (u32, SupportedMessageView),
> {
    entries.map_values(|e: (u32, SupportedMessage)| (e.0, e.1@))
}

/// The write channel after an effect: an enqueued response is its new last entry.
pub open spec fn spec_enqueue(
    queue: Seq<(u32, SupportedMessageView)>,
    effect: ReadEffect,
) -> Seq<(u32, SupportedMessageView)> {
    match effect {
        ReadEffect::Enqueued(request_id, response) => queue.push((request_id, response)),
        _ => queue,
    }
}

/// What a HELLO must meet: a valid endpoint URL, else
/// `BadTcpEndpointUrlInvalid`; buffers of the minimum size, else
/// `BadCommunicationError`; and a protocol version that the server speaks,
/// else `BadProtocolVersionUnsupported`.
pub open spec fn spec_check_hello(hello: HelloMessageView) -> Result<(), StatusCode> {
    if !hello.endpoint_url_valid() {
        Err(StatusCode::BadTcpEndpointUrlInvalid)
    } else if !hello.valid_buffer_sizes() {
        Err(StatusCode::BadCommunicationError)
    } else if hello.protocol_version > SERVER_PROTOCOL_VERSION {
        Err(StatusCode::BadProtocolVersionUnsupported)
    } else {
        Ok(())
    }
}

/// The answer that ends a secure channel: once it is written, the connection ends.
pub open spec fn spec_is_close_acknowledgement(message: SupportedMessageView) -> bool {
    message matches SupportedMessageView::ServiceFault(fault)
        && fault.response_header.service_result == StatusCode::BadSecureChannelClosed
}

/// This is the thing that handles input and output for the open connection
/// associated with the session.
#[derive(Debug)]
pub struct TcpTransport {
    /// What the connection knows of its server.
    pub server_state: ServerState,
    /// The session of the connection.
    pub session: Session,
    /// The secure channel of the connection.
    pub secure_channel: SecureChannel,
    /// Where the connection stands.
    pub transport_state: TransportState,
    /// The address of the client, once the connection runs.
    pub client_address: Option<SocketAddress>,
    /// Opens and closes the secure channel.
    pub secure_channel_service: SecureChannelService,
    /// The protocol version that the client named in its HELLO.
    pub client_protocol_version: u32,
    /// The sequence number of the chunk that was accepted last; 0 before the first.
    pub last_received_sequence_number: u32,
    /// When the connection started to run.
    pub session_start_time: i64,
}

impl TcpTransport {
    /// The channel keeps its tokens in order, and a connection that has
    /// finished has ended its session.
    pub open spec fn wf(self) -> bool {
        &&& self.secure_channel.wf()
        &&& self.transport_state is Finished ==> self.session.terminated
    }

    /// True once the connection has ended.
    pub open spec fn spec_is_finished(self) -> bool {
        self.transport_state is Finished
    }

    /// True once the HELLO of the client has been accepted, and ever after.
    pub open spec fn spec_has_received_hello(self) -> bool {
        self.transport_state is ProcessMessages || self.transport_state is Finished
    }

    /// Ending the connection with `status_code`: the first end counts, and with
    /// it the session ends.
    pub open spec fn spec_finish(self, status_code: StatusCode) -> TcpTransport {
        if self.spec_is_finished() {
            self
        } else {
            TcpTransport {
                transport_state: TransportState::Finished(status_code),
                session: Session { terminated: true, ..self.session },
                ..self
            }
        }
    }

    /// Ending the connection if `status_code` is bad.
    pub open spec fn spec_finish_if_bad(self, status_code: StatusCode) -> TcpTransport {
        if status_code.spec_is_bad() {
            self.spec_finish(status_code)
        } else {
            self
        }
    }

    /// The ACK of this server: its own limits and its protocol version.
    pub open spec fn spec_acknowledge(self) -> AcknowledgeMessage {
        AcknowledgeMessage {
            protocol_version: SERVER_PROTOCOL_VERSION,
            receive_buffer_size: self.server_state.config.receive_buffer_size,
            send_buffer_size: self.server_state.config.send_buffer_size,
            max_message_size: self.server_state.config.max_message_size,
            max_chunk_count: self.server_state.config.max_chunk_count,
        }
    }

    /// The transport after a HELLO that passed: it notes the version of the
    /// client and goes on to process messages.
    pub open spec fn spec_after_hello(self, hello: HelloMessageView) -> TcpTransport {
        TcpTransport {
            transport_state: TransportState::ProcessMessages,
            client_protocol_version: hello.protocol_version,
            ..self
        }
    }

    /// Checking a group of chunks and decoding its message: the chunks must
    /// start with the sequence number that follows the last one accepted. Gives
    /// the sequence number of the last chunk of the group, and the message.
    pub open spec fn spec_turn_chunks(self, chunks: Seq<Seq<u8>>) -> Result<
        (u32, SupportedMessageView),
        StatusCode,
    > {
        match spec_validate(
            self.secure_channel,
            spec_sequence_after(self.last_received_sequence_number, 1),
            chunks,
        ) {
            Err(e) => Err(e),
            Ok(_) => match spec_decode(chunks, None) {
                Err(e) => Err(e),
                Ok(message) => Ok(
                    (
                        spec_sequence_after(self.last_received_sequence_number, chunks.len()),
                        message,
                    ),
                ),
            },
        }
    }

    /// What the request of an accepted chunk leads to, at the moment `now`: an
    /// OPN chunk opens or renews the channel and a CLO chunk closes it, and the
    /// response is put on the write channel under the request id of the
    /// chunk; the request of a MSG chunk is for the message handler. The
    /// channel service may refuse the request.
    pub open spec fn spec_serve(
        self,
        message_type: MessageChunkType,
        security_header: SecurityHeaderView,
        request_id: u32,
        request: SupportedMessageView,
        now: i64,
    ) -> Result<(TcpTransport, ReadEffect), StatusCode> {
        match message_type {
            MessageChunkType::OpenSecureChannel => match self.secure_channel_service.spec_open(
                self.secure_channel,
                security_header,
                self.client_protocol_version,
                request,
                now,
            ) {
                Err(e) => Err(e),
                Ok(outcome) => Ok(
                    (
                        TcpTransport {
                            secure_channel_service: outcome.service,
                            secure_channel: outcome.channel,
                            ..self
                        },
                        ReadEffect::Enqueued(
                            request_id,
                            SupportedMessageView::OpenSecureChannelResponse(outcome.response),
                        ),
                    ),
                ),
            },
            MessageChunkType::CloseSecureChannel => match SecureChannelService::spec_close(
                request,
                now,
            ) {
                Err(e) => Err(e),
                Ok(response) => Ok((self, ReadEffect::Enqueued(request_id, response))),
            },
            MessageChunkType::Message => Ok((self, ReadEffect::Request(request_id, request))),
        }
    }

    /// What a chunk does to the transport, at the moment `now`.
    ///
    /// A chunk whose header does not decode is refused. A chunk that is marked
    /// as abandoned is dropped. Any other chunk has its security removed, is
    /// checked as a group of one and decoded, each of which may refuse it;
    /// then its request is served: see [`TcpTransport::spec_serve`].
    pub open spec fn spec_process_chunk(self, data: Seq<u8>, now: i64) -> Result<
        (TcpTransport, ReadEffect),
        StatusCode,
    > {
        match spec_chunk_header(data) {
            Err(e) => Err(e),
            Ok(header) => if header.is_final == MessageIsFinalType::FinalError {
                Ok((self, ReadEffect::Nothing))
            } else {
                match self.secure_channel.spec_verify(data) {
                    Err(e) => Err(e),
                    Ok(channel) => {
                        let verified = TcpTransport { secure_channel: channel, ..self };
                        let info = spec_chunk_info(data)->Ok_0;
                        match verified.spec_turn_chunks(seq![data]) {
                            Err(e) => Err(e),
                            Ok((last, request)) => (TcpTransport {
                                last_received_sequence_number: last,
                                ..verified
                            }).spec_serve(
                                header.message_type,
                                info.security_header,
                                info.sequence_header.request_id,
                                request,
                                now,
                            ),
                        }
                    },
                }
            },
        }
    }

    /// What a received message does to the transport, at the moment `now`.
    ///
    /// While the HELLO is awaited, a HELLO that passes its checks is
    /// acknowledged, under the request id 0, and the transport goes on to
    /// process messages; while messages are processed, a chunk is processed.
    /// A HELLO or a chunk that is refused ends the connection with the status
    /// of the refusal, any other message ends it with
    /// `BadCommunicationError`, and a message to a transport that never ran
    /// ends it with `BadUnexpectedError`. A finished transport ignores
    /// everything.
    pub open spec fn spec_dispatch(self, message: MessageView, now: i64) -> (
        TcpTransport,
        ReadEffect,
    ) {
        match self.transport_state {
            TransportState::WaitingHello => match message {
                MessageView::Hello(hello) => match spec_check_hello(hello) {
                    Ok(_) => (
                        self.spec_after_hello(hello),
                        ReadEffect::Enqueued(
                            0,
                            SupportedMessageView::AcknowledgeMessage(self.spec_acknowledge()),
                        ),
                    ),
                    Err(e) => (self.spec_finish_if_bad(e), ReadEffect::Nothing),
                },
                _ => (self.spec_finish(StatusCode::BadCommunicationError), ReadEffect::Nothing),
            },
            TransportState::ProcessMessages => match message {
                MessageView::MessageChunk(data) => match self.spec_process_chunk(data, now) {
                    Ok((transport, effect)) => (transport, effect),
                    Err(e) => (self.spec_finish_if_bad(e), ReadEffect::Nothing),
                },
                _ => (self.spec_finish(StatusCode::BadCommunicationError), ReadEffect::Nothing),
            },
            TransportState::Finished(_) => (self, ReadEffect::Nothing),
            TransportState::New => (
                self.spec_finish(StatusCode::BadUnexpectedError),
                ReadEffect::Nothing,
            ),
        }
    }

    /// What the answer of the message handler does to the transport: an error
    /// ends the connection, a response is put on the write channel under the id
    /// of its request, and no response means that the handler keeps the request.
    /// A finished transport sends nothing.
    pub open spec fn spec_handled(
        self,
        request_id: u32,
        result: Result<Option<SupportedMessageView>, StatusCode>,
    ) -> (TcpTransport, ReadEffect) {
        if self.spec_is_finished() {
            (self, ReadEffect::Nothing)
        } else {
            match result {
                Err(e) => (self.spec_finish_if_bad(e), ReadEffect::Nothing),
                Ok(None) => (self, ReadEffect::Nothing),
                Ok(Some(response)) => (self, ReadEffect::Enqueued(request_id, response)),
            }
        }
    }

    /// The transport after a pass of the read loop: a session that asked for
    /// its end is given it, with `BadConnectionClosed`.
    pub open spec fn spec_after_read(self) -> TcpTransport {
        if self.session.terminate_session {
            self.spec_finish(StatusCode::BadConnectionClosed)
        } else {
            self
        }
    }

    /// The transport after the write loop looked at the next entry of the write
    /// channel: an `Invalid` message or a server that shuts down ends the
    /// connection with `BadCommunicationError`.
    pub open spec fn spec_after_accept(self, response: SupportedMessageView) -> TcpTransport {
        if response is Invalid || self.server_state.abort {
            self.spec_finish(StatusCode::BadCommunicationError)
        } else {
            self
        }
    }

    /// Whether the write loop sends the entry it looked at: not if the entry or
    /// the server ended the connection, and not if it had ended before.
    pub open spec fn spec_accepts(self, response: SupportedMessageView) -> bool {
        !(response is Invalid) && !self.server_state.abort && !self.spec_is_finished()
    }

    /// The frames that an entry of the write channel becomes in the send buffer:
    /// an ACK is one frame, as it is; any other message is written into chunks
    /// on the secure channel, numbered behind the last chunk that was sent.
    pub open spec fn spec_outbound_frames(
        self,
        request_id: u32,
        response: SupportedMessageView,
        send_buffer: MessageWriter,
    ) -> Result<Seq<Seq<u8>>, StatusCode> {
        match response {
            SupportedMessageView::AcknowledgeMessage(ack) => Ok(seq![ack.bytes()]),
            _ => spec_write_chunks(
                send_buffer.last_sent_sequence_number,
                send_buffer.send_buffer_size,
                request_id,
                response,
                self.secure_channel,
            ),
        }
    }

    /// The transport after an entry of the write channel went into the send
    /// buffer: the answer that closes the secure channel asks the session to end.
    pub open spec fn spec_after_outbound(self, response: SupportedMessageView) -> TcpTransport {
        if spec_is_close_acknowledgement(response) {
            TcpTransport { session: Session { terminate_session: true, ..self.session }, ..self }
        } else {
            self
        }
    }

    /// The transport after a write to the socket: a failed write ends the
    /// connection with `BadCommunicationError`, and a session that asked for
    /// its end is given it, with `BadConnectionClosed`.
    pub open spec fn spec_after_write(self, written: bool) -> TcpTransport {
        let checked = if written {
            self
        } else {
            self.spec_finish(StatusCode::BadCommunicationError)
        };
        checked.spec_after_read()
    }

    /// The transport after a tick of the timer that waits for the HELLO: if the
    /// HELLO is still awaited at `now` and more than the timeout has passed
    /// since the connection started, the connection ends with `BadTimeout`.
    pub open spec fn spec_check_hello_timeout(self, now: i64) -> TcpTransport {
        if self.transport_state == TransportState::WaitingHello && now - self.session_start_time
            > self.server_state.config.tcp_config.hello_timeout * 1000 {
            self.spec_finish(StatusCode::BadTimeout)
        } else {
            self
        }
    }

    /// The transport when it starts to run at `now` for the client at
    /// `client_address`: a new transport awaits the HELLO; any other stays as it is.
    pub open spec fn spec_run(self, client_address: SocketAddress, now: i64) -> TcpTransport {
        if self.transport_state == TransportState::New {
            TcpTransport {
                client_address: Some(client_address),
                transport_state: TransportState::WaitingHello,
                session_start_time: now,
                ..self
            }
        } else {
            self
        }
    }

    /// The transport of a connection that was accepted and has not run yet:
    /// its channel is not open, and no channel or token id was given out.
    pub open spec fn spec_new(server_state: ServerState, session: Session) -> TcpTransport {
        TcpTransport {
            server_state,
            session,
            secure_channel: SecureChannel {
                security_mode: crate::supported_message::MessageSecurityMode::NoSecurity,
                secure_channel_id: 0,
                token_id: 0,
                token_created_at: 0,
                token_lifetime: 0,
                previous_token_id: None,
            },
            transport_state: TransportState::New,
            client_address: None,
            secure_channel_service: SecureChannelService {
                last_secure_channel_id: 0,
                last_token_id: 0,
                max_token_lifetime: server_state.config.max_token_lifetime,
            },
            client_protocol_version: 0,
            last_received_sequence_number: 0,
            session_start_time: 0,
        }
    }

    /// A transport for a connection that was accepted and has not run yet.
    pub fn new(server_state: ServerState, session: Session) -> (r: TcpTransport)
        ensures
            r == Self::spec_new(server_state, session),
            r.wf(),
    {
        let secure_channel_service = SecureChannelService::new(
            server_state.config.max_token_lifetime,
        );
        TcpTransport {
            server_state,
            session,
            secure_channel: SecureChannel::new(),
            transport_state: TransportState::New,
            client_address: None,
            secure_channel_service,
            client_protocol_version: 0,
            last_received_sequence_number: 0,
            session_start_time: 0,
        }
    }

    /// Where the connection stands.
    pub fn state(&self) -> (r: TransportState)
        ensures
            r == self.transport_state,
    {
        self.transport_state
    }

    /// The session of the connection.
    pub fn session(&self) -> (r: &Session)
        ensures
            *r == self.session,
    {
        &self.session
    }

    /// The address of the client, once the connection runs.
    pub fn client_address(&self) -> (r: Option<SocketAddress>)
        ensures
            r == self.client_address,
    {
        self.client_address
    }

    /// True once the connection has ended.
    pub fn is_finished(&self) -> (r: bool)
        ensures
            r == self.spec_is_finished(),
    {
        match self.transport_state {
            TransportState::Finished(_) => true,
            _ => false,
        }
    }

    /// True once the HELLO of the client has been accepted.
    pub fn has_received_hello(&self) -> (r: bool)
        ensures
            r == self.spec_has_received_hello(),
    {
        match self.transport_state {
            TransportState::New => false,
            TransportState::WaitingHello => false,
            _ => true,
        }
    }

    /// Terminates the connection and the session. Only the first call counts.
    pub fn finish(&mut self, status_code: StatusCode)
        ensures
            *final(self) == old(self).spec_finish(status_code),
            old(self).wf() ==> final(self).wf(),
            final(self).spec_is_finished(),
    {
        if !self.is_finished() {
            self.transport_state = TransportState::Finished(status_code);
            self.session.set_terminated();
        }
    }

    /// The ERR message that tells the peer why the connection has ended: the
    /// status that ended it, without a reason text. There is none while the
    /// connection lasts, or if it ended with a status that is not bad.
    pub fn final_error(&self) -> (r: Option<ErrorMessage>)
        ensures
            match self.transport_state {
                TransportState::Finished(status_code) if status_code.spec_is_bad() => r matches Some(
                    error,
                ) && error@ == (ErrorMessageView { error: status_code.spec_bits(), reason: None }),
                _ => r is None,
            },
    {
        match self.transport_state {
            TransportState::Finished(status_code) => {
                if status_code.is_bad() {
                    Some(ErrorMessage::from_status_code(status_code, UAString::null()))
                } else {
                    None
                }
            },
            _ => None,
        }
    }

    /// Test if the connection is terminated
    pub fn is_session_terminated(&self) -> (r: bool)
        ensures
            r == self.session.terminated,
    {
        self.session.terminated()
    }

    /// Test if the connection should abort
    pub fn is_server_abort(&self) -> (r: bool)
        ensures
            r == self.server_state.abort,
    {
        self.server_state.is_abort()
    }

    /// Starts the connection for the client at `client_address`, at the moment `now`.
    pub fn run_at(&mut self, client_address: SocketAddress, now: i64)
        ensures
            *final(self) == old(self).spec_run(client_address, now),
            old(self).wf() ==> final(self).wf(),
    {
        match self.transport_state {
            TransportState::New => {
                self.client_address = Some(client_address);
                self.transport_state = TransportState::WaitingHello;
                self.session_start_time = now;
            },
            _ => {},
        }
    }

    /// Starts the connection for the client at `client_address`, now. The
    /// moment is read from the clock, so all that is known of it is that the
    /// transport has started at some moment.
    pub fn run(&mut self, client_address: SocketAddress)
        ensures
            exists|now: i64| *final(self) == #[trigger] old(self).spec_run(client_address, now),
            old(self).wf() ==> final(self).wf(),
    {
        let now = utc_now_millis();
        self.run_at(client_address, now);
    }

    /// Checks the HELLO of the client and, if it passes, acknowledges it on the
    /// write channel and goes on to process messages. A HELLO that is refused
    /// changes nothing.
    pub fn process_hello(
        &mut self,
        hello: HelloMessage,
        sender: &mut Vec<(u32, SupportedMessage)>,
    ) -> (r: Result<(), StatusCode>)
        ensures
            old(self).wf() ==> final(self).wf(),
            match spec_check_hello(hello@) {
                Ok(_) => r is Ok && *final(self) == old(self).spec_after_hello(hello@)
                    && entry_views(final(sender)@) == entry_views(old(sender)@).push(
                    (0, SupportedMessageView::AcknowledgeMessage(old(self).spec_acknowledge())),
                ),
                Err(e) => {
                    &&& r == Err::<(), StatusCode>(e)
                    &&& *final(self) == *old(self)
                    &&& final(sender)@ == old(sender)@
                },
            },
    {
        if !hello.is_endpoint_url_valid() {
            return Err(StatusCode::BadTcpEndpointUrlInvalid);
        }
        if !hello.is_valid_buffer_sizes() {
            return Err(StatusCode::BadCommunicationError);
        }
        if hello.protocol_version > SERVER_PROTOCOL_VERSION {
            return Err(StatusCode::BadProtocolVersionUnsupported);
        }
        let client_protocol_version = hello.protocol_version;
        let acknowledge = AcknowledgeMessage {
            protocol_version: SERVER_PROTOCOL_VERSION,
            receive_buffer_size: self.server_state.config.receive_buffer_size,
            send_buffer_size: self.server_state.config.send_buffer_size,
            max_message_size: self.server_state.config.max_message_size,
            max_chunk_count: self.server_state.config.max_chunk_count,
        };
        self.transport_state = TransportState::ProcessMessages;
        self.client_protocol_version = client_protocol_version;
        sender.push((0, SupportedMessage::AcknowledgeMessage(acknowledge)));
        assert(entry_views(sender@) =~= entry_views(old(sender)@).push(
            (0, SupportedMessageView::AcknowledgeMessage(acknowledge)),
        ));
        Ok(())
    }

    /// Checks a group of chunks against the channel and the last sequence
    /// number, decodes the message it carries and notes the sequence number
    /// that was reached. A group that is refused changes nothing.
    pub fn turn_received_chunks_into_message(&mut self, chunks: &Vec<MessageChunk>) -> (r: Result<
        SupportedMessage,
        StatusCode,
    >)
        ensures
            match old(self).spec_turn_chunks(chunk_views(chunks@)) {
                Ok((last, message)) => r matches Ok(m) && m@ == message && *final(self) == (
                    TcpTransport { last_received_sequence_number: last, ..*old(self) }),
                Err(e) => r matches Err(x) && x == e && *final(self) == *old(self),
            },
    {
        let expected = if self.last_received_sequence_number == u32::MAX {
            0
        } else {
            self.last_received_sequence_number + 1
        };
        proof {
            lemma_sequence_before(self.last_received_sequence_number, chunks@.len());
        }
        let next = match Chunker::validate_chunks(expected, &self.secure_channel, chunks) {
            Ok(next) => next,
            Err(e) => {
                return Err(e);
            },
        };
        let message = match Chunker::decode(chunks, None) {
            Ok(message) => message,
            Err(e) => {
                return Err(e);
            },
        };
        self.last_received_sequence_number = if next == 0 {
            u32::MAX
        } else {
            next - 1
        };
        Ok(message)
    }
}


/// True when the message is a chunk that says another chunk of its message
/// follows. The transport does not assemble such messages.
pub fn is_intermediate_chunk(message: &Message) -> (r: bool)
    ensures
        r == spec_is_intermediate_chunk(message@),
{
    match message {
        Message::MessageChunk(chunk) => match chunk.message_header() {
            Ok(header) => match header.is_final {
                MessageIsFinalType::Intermediate => true,
                _ => false,
            },
            Err(_) => false,
        },
        _ => false,
    }
}

/// A chunk whose header decodes and says that another chunk follows.
pub open spec fn spec_is_intermediate_chunk(message: MessageView) -> bool {
    message matches MessageView::MessageChunk(data) && (spec_chunk_header(data) matches Ok(header)
        && header.is_final == MessageIsFinalType::Intermediate)
}

impl TcpTransport {
    /// Processes one chunk at the moment `now`: see
    /// [`TcpTransport::spec_process_chunk`]. Returns the request that is to be
    /// handed to the message handler, with its request id, if the chunk
    /// carried one. A chunk that is refused changes nothing.
    ///
    /// A chunk that says that another chunk follows is not accepted here: the
    /// transport does not assemble messages from several chunks.
    pub fn process_chunk(
        &mut self,
        chunk: MessageChunk,
        now: i64,
        sender: &mut Vec<(u32, SupportedMessage)>,
    ) -> (r: Result<Option<(u32, SupportedMessage)>, StatusCode>)
        requires
            !spec_is_intermediate_chunk(MessageView::MessageChunk(chunk@)),
        ensures
            old(self).wf() ==> final(self).wf(),
            match old(self).spec_process_chunk(chunk@, now) {
                Ok((transport, effect)) => *final(self) == transport && entry_views(
                    final(sender)@,
                ) == spec_enqueue(entry_views(old(sender)@), effect) && (match effect {
                    ReadEffect::Request(request_id, request) => r matches Ok(Some(handed))
                        && handed.0 == request_id && handed.1@ == request,
                    _ => r matches Ok(None),
                }),
                Err(e) => {
                    &&& r matches Err(x) && x == e
                    &&& *final(self) == *old(self)
                    &&& final(sender)@ == old(sender)@
                },
            },
    {
        let message_header = match chunk.message_header() {
            Ok(message_header) => message_header,
            Err(e) => {
                return Err(e);
            },
        };
        match message_header.is_final {
            MessageIsFinalType::FinalError => {
                return Ok(None);
            },
            _ => {},
        }
        let saved_channel = self.secure_channel;
        let saved_service = self.secure_channel_service;
        let saved_sequence_number = self.last_received_sequence_number;
        // Decrypt / verify chunk if necessary
        let chunk = match self.secure_channel.verify_and_remove_security(chunk.data.as_slice()) {
            Ok(chunk) => chunk,
            Err(e) => {
                return Err(e);
            },
        };
        let chunk_info = match chunk.chunk_info() {
            Ok(chunk_info) => chunk_info,
            Err(e) => {
                self.secure_channel = saved_channel;
                return Err(e);
            },
        };
        proof {
            lemma_chunk_info_header(chunk@);
        }
        let request_id = chunk_info.sequence_header.request_id;
        let in_chunks = vec![chunk];
        assert(chunk_views(in_chunks@) =~= seq![chunk@]);
        let request = match self.turn_received_chunks_into_message(&in_chunks) {
            Ok(request) => request,
            Err(e) => {
                self.secure_channel = saved_channel;
                return Err(e);
            },
        };
        // Handle the request, and then send the response back to the caller
        let response = match message_header.message_type {
            MessageChunkType::OpenSecureChannel => {
                let mut service = self.secure_channel_service;
                let mut channel = self.secure_channel;
                match service.open_secure_channel(
                    &mut channel,
                    &chunk_info.security_header,
                    self.client_protocol_version,
                    &request,
                    now,
                ) {
                    Ok(response) => {
                        self.secure_channel_service = service;
                        self.secure_channel = channel;
                        response
                    },
                    Err(e) => {
                        self.secure_channel = saved_channel;
                        self.last_received_sequence_number = saved_sequence_number;
                        return Err(e);
                    },
                }
            },
            MessageChunkType::CloseSecureChannel => {
                match self.secure_channel_service.close_secure_channel(&request, now) {
                    Ok(response) => response,
                    Err(e) => {
                        self.secure_channel = saved_channel;
                        self.last_received_sequence_number = saved_sequence_number;
                        return Err(e);
                    },
                }
            },
            MessageChunkType::Message => {
                return Ok(Some((request_id, request)));
            },
        };
        // Send the response for transmission
        let ghost before = entry_views(sender@);
        sender.push((request_id, response));
        assert(entry_views(sender@) =~= before.push((request_id, response@)));
        Ok(None)
    }

    /// Handles one received message at the moment `now`: see
    /// [`TcpTransport::spec_dispatch`]. Returns the request that is to be
    /// handed to the message handler, with its request id, if there is one.
    ///
    /// While messages are processed, a chunk that says that another chunk
    /// follows is not accepted here.
    pub fn dispatch(
        &mut self,
        message: Message,
        now: i64,
        sender: &mut Vec<(u32, SupportedMessage)>,
    ) -> (r: Option<(u32, SupportedMessage)>)
        requires
            old(self).transport_state == TransportState::ProcessMessages
                ==> !spec_is_intermediate_chunk(message@),
        ensures
            old(self).wf() ==> final(self).wf(),
            *final(self) == old(self).spec_dispatch(message@, now).0,
            entry_views(final(sender)@) == spec_enqueue(
                entry_views(old(sender)@),
                old(self).spec_dispatch(message@, now).1,
            ),
            match old(self).spec_dispatch(message@, now).1 {
                ReadEffect::Request(request_id, request) => r matches Some(handed) && handed.0
                    == request_id && handed.1@ == request,
                _ => r is None,
            },
    {
        match self.transport_state {
            TransportState::WaitingHello => {
                match message {
                    Message::Hello(hello) => {
                        match self.process_hello(hello, sender) {
                            Ok(_) => {},
                            Err(e) => {
                                self.finish_if_bad(e);
                            },
                        }
                    },
                    _ => {
                        self.finish(StatusCode::BadCommunicationError);
                    },
                }
                None
            },
            TransportState::ProcessMessages => {
                match message {
                    Message::MessageChunk(chunk) => {
                        match self.process_chunk(chunk, now, sender) {
                            Ok(request) => request,
                            Err(e) => {
                                self.finish_if_bad(e);
                                None
                            },
                        }
                    },
                    _ => {
                        self.finish(StatusCode::BadCommunicationError);
                        None
                    },
                }
            },
            TransportState::Finished(_) => None,
            TransportState::New => {
                self.finish(StatusCode::BadUnexpectedError);
                None
            },
        }
    }

    /// Ends the connection if `status_code` is bad.
    pub fn finish_if_bad(&mut self, status_code: StatusCode)
        ensures
            *final(self) == old(self).spec_finish_if_bad(status_code),
            old(self).wf() ==> final(self).wf(),
    {
        if status_code.is_bad() {
            self.finish(status_code);
        }
    }

    /// Takes the answer of the message handler to the request with the given
    /// id: see [`TcpTransport::spec_handled`].
    pub fn handled(
        &mut self,
        request_id: u32,
        result: Result<Option<SupportedMessage>, StatusCode>,
        sender: &mut Vec<(u32, SupportedMessage)>,
    )
        ensures
            old(self).wf() ==> final(self).wf(),
            *final(self) == old(self).spec_handled(request_id, answer_view(result)).0,
            entry_views(final(sender)@) == spec_enqueue(
                entry_views(old(sender)@),
                old(self).spec_handled(request_id, answer_view(result)).1,
            ),
    {
        if self.is_finished() {
            return ;
        }
        match result {
            Err(e) => {
                self.finish_if_bad(e);
            },
            Ok(None) => {},
            Ok(Some(response)) => {
                let ghost before = entry_views(sender@);
                sender.push((request_id, response));
                assert(entry_views(sender@) =~= before.push((request_id, response@)));
            },
        }
    }

    /// Handles one message of a read: see [`TcpTransport::spec_process_message`].
    /// Returns what the message handler did, if it was asked.
    fn process_message<H: MessageHandler>(
        &mut self,
        message: Message,
        now: i64,
        message_handler: &mut H,
        sender: &mut Vec<(u32, SupportedMessage)>,
    ) -> (asked: Ghost<Option<HandlerOutcome>>)
        requires
            old(self).transport_state == TransportState::ProcessMessages
                ==> !spec_is_intermediate_chunk(message@),
        ensures
            old(self).wf() ==> final(self).wf(),
            final(self).transport_state.rank() >= old(self).transport_state.rank(),
            entry_views(old(sender)@).is_prefix_of(entry_views(final(sender)@)),
            final(sender)@.len() <= old(sender)@.len() + 1,
            old(self).spec_is_finished() ==> *final(self) == *old(self) && entry_views(
                final(sender)@,
            ) == entry_views(old(sender)@),
            asked@ matches Some(outcome) ==> ({
                let (transport, effect, was_asked) = old(self).spec_process_message(
                    message@,
                    now,
                    outcome,
                );
                &&& was_asked
                &&& transport == *final(self)
                &&& entry_views(final(sender)@) == spec_enqueue(entry_views(old(sender)@), effect)
            }),
            asked@ is None ==> forall|outcome: HandlerOutcome|
                ({
                    let (transport, effect, was_asked) = #[trigger] old(
                        self,
                    ).spec_process_message(message@, now, outcome);
                    &&& !was_asked
                    &&& transport == *final(self)
                    &&& entry_views(final(sender)@) == spec_enqueue(
                        entry_views(old(sender)@),
                        effect,
                    )
                }),
    {
        proof {
            reveal(TcpTransport::spec_process_message);
            self.lemma_steps_are_monotonic(TransportStep::Dispatch(message@, now));
            assert(entry_views(sender@).len() == sender@.len());
        }
        let handed = self.dispatch(message, now, sender);
        assert(entry_views(sender@).len() == sender@.len());
        match handed {
            Some((request_id, request)) => {
                assert(sender@.len() == old(sender)@.len());
                // Handle the request, and then send the response back to the caller
                let result = message_handler.handle_message(
                    &mut self.session,
                    request_id,
                    request,
                );
                let ghost outcome = HandlerOutcome {
                    session: self.session,
                    answer: answer_view(result),
                };
                self.handled(request_id, result, sender);
                assert(entry_views(sender@).len() == sender@.len());
                Ghost(Some(outcome))
            },
            None => Ghost(None),
        }
    }

    /// Handles the messages of one read, in their order, at the moment `now`:
    /// each is dispatched, and a request that a chunk carried is handed to
    /// `message_handler` and its answer taken. See
    /// [`TcpTransport::spec_process_messages`].
    ///
    /// The transport does not assemble messages from several chunks: when it is
    /// to process a chunk that says that another follows, it stops and returns
    /// that chunk, and the messages behind it stay unhandled. Otherwise it
    /// returns `None`.
    ///
    /// What the handler does is not known here, so the outcome is stated for
    /// whatever it does: there are outcomes of the handler, one for each request
    /// it was asked, with which the transport, the write channel and the result
    /// are what the messages make of them. Where no message carries a request
    /// for the handler, that is one outcome only. Whatever the handler
    /// answers, the connection is not taken back, what waits on the write
    /// channel stays there in its place, and no message puts more than one
    /// response behind it. A finished transport handles nothing, and asks
    /// nothing of the handler.
    pub fn process_messages<H: MessageHandler>(
        &mut self,
        messages: Vec<Message>,
        now: i64,
        message_handler: &mut H,
        sender: &mut Vec<(u32, SupportedMessage)>,
    ) -> (r: Option<Message>)
        ensures
            exists|outcomes: Seq<HandlerOutcome>| #[trigger]
                old(self).spec_processed(
                    entry_views(old(sender)@),
                    message_views(messages@),
                    now,
                    outcomes,
                    *final(self),
                    entry_views(final(sender)@),
                    optional_message_view(r),
                ),
            old(self).wf() ==> final(self).wf(),
            final(self).transport_state.rank() >= old(self).transport_state.rank(),
            entry_views(old(sender)@).is_prefix_of(entry_views(final(sender)@)),
            final(sender)@.len() <= old(sender)@.len() + messages@.len(),
            old(self).spec_is_finished() ==> *final(self) == *old(self) && entry_views(
                final(sender)@,
            ) == entry_views(old(sender)@) && r is None,
            r matches Some(message) ==> spec_is_intermediate_chunk(message@)
                && final(self).transport_state == TransportState::ProcessMessages,
    {
        let ghost start = *self;
        let ghost queue = entry_views(sender@);
        let ghost views = message_views(messages@);
        let ghost mut outcomes = Seq::<HandlerOutcome>::empty();
        let ghost mut handled: nat = 0;
        let mut pending = messages;
        assert(message_views(pending@) =~= views.skip(0));
        while pending.len() > 0
            invariant
                old(self).wf() ==> self.wf(),
                self.transport_state.rank() >= old(self).transport_state.rank(),
                entry_views(old(sender)@).is_prefix_of(entry_views(sender@)),
                sender@.len() + pending@.len() <= old(sender)@.len() + messages@.len(),
                old(self).spec_is_finished() ==> *self == *old(self) && entry_views(sender@)
                    == entry_views(old(sender)@),
                start == *old(self),
                queue == entry_views(old(sender)@),
                views == message_views(messages@),
                handled + pending@.len() == views.len(),
                message_views(pending@) == views.skip(handled as int),
                start.spec_process_messages(queue, views, now, outcomes, handled) == (
                ReadProgress {
                    transport: *self,
                    queue: entry_views(sender@),
                    asked: outcomes.len(),
                    stopped: None,
                }),
            decreases pending.len(),
        {
            let ghost waiting = pending@;
            let message = pending.remove(0);
            proof {
                assert(message_views(waiting)[0] == waiting[0]@);
                assert(message_views(waiting)[0] == views[handled as int]);
                assert(message_views(pending@) =~= message_views(waiting).skip(1));
                assert(message_views(waiting).skip(1) =~= views.skip(handled as int + 1));
            }
            if self.transport_state == TransportState::ProcessMessages && is_intermediate_chunk(
                &message,
            ) {
                proof {
                    start.lemma_stopped_stays(
                        queue,
                        views,
                        now,
                        outcomes,
                        handled + 1,
                        views.len(),
                    );
                    assert(start.spec_processed(
                        queue,
                        views,
                        now,
                        outcomes,
                        *self,
                        entry_views(sender@),
                        optional_message_view(Some(message)),
                    ));
                }
                return Some(message);
            }
            let ghost asked = outcomes.len();
            let outcome = self.process_message(message, now, message_handler, sender);
            proof {
                match outcome@ {
                    Some(o) => {
                        start.lemma_unasked_outcomes_do_not_count(
                            queue,
                            views,
                            now,
                            outcomes,
                            outcomes.push(o),
                            handled,
                        );
                        outcomes = outcomes.push(o);
                        assert(outcomes[asked as int] == o);
                    },
                    None => {},
                }
                handled = handled + 1;
            }
        }
        proof {
            assert(start.spec_processed(
                queue,
                views,
                now,
                outcomes,
                *self,
                entry_views(sender@),
                optional_message_view(None),
            ));
        }
        None
    }

    /// Takes in the bytes that were read from the socket and returns the
    /// messages that are complete, for [`TcpTransport::dispatch`].
    ///
    /// A finished transport takes in nothing. A server that shuts down ends the
    /// connection with `BadCommunicationError`, and bytes that the framer
    /// refuses end it with the status of the refusal; in both cases no message
    /// is returned.
    pub fn receive(&mut self, receive_buffer: &mut MessageReader, bytes: &[u8]) -> (r: Vec<
        Message,
    >)
        ensures
            old(self).wf() ==> final(self).wf(),
            final(receive_buffer).receive_buffer_size == old(receive_buffer).receive_buffer_size,
            final(receive_buffer).max_message_size == old(receive_buffer).max_message_size,
            old(self).spec_is_finished() ==> {
                &&& *final(self) == *old(self)
                &&& *final(receive_buffer) == *old(receive_buffer)
                &&& r@.len() == 0
            },
            !old(self).spec_is_finished() && old(self).server_state.abort ==> {
                &&& *final(self) == old(self).spec_finish(StatusCode::BadCommunicationError)
                &&& *final(receive_buffer) == *old(receive_buffer)
                &&& r@.len() == 0
            },
            !old(self).spec_is_finished() && !old(self).server_state.abort ==> (match spec_extract(
                old(receive_buffer).buffer@ + bytes@,
                old(receive_buffer).limit(),
            ) {
                Ok((messages, rest)) => {
                    &&& *final(self) == *old(self)
                    &&& message_views(r@) == messages
                    &&& final(receive_buffer).buffer@ == rest
                },
                Err(e) => {
                    &&& *final(self) == old(self).spec_finish_if_bad(e)
                    &&& r@.len() == 0
                    &&& final(receive_buffer).buffer@ == Seq::<u8>::empty()
                },
            }),
    {
        if self.is_finished() {
            return Vec::new();
        }
        if self.is_server_abort() {
            self.finish(StatusCode::BadCommunicationError);
            return Vec::new();
        }
        match receive_buffer.store_bytes(bytes) {
            Ok(messages) => messages,
            Err(e) => {
                self.finish_if_bad(e);
                Vec::new()
            },
        }
    }

    /// Ends a pass of the read loop: see [`TcpTransport::spec_after_read`].
    /// Returns true if the loop is to go on.
    pub fn read_completed(&mut self) -> (r: bool)
        ensures
            old(self).wf() ==> final(self).wf(),
            *final(self) == old(self).spec_after_read(),
            r == !final(self).spec_is_finished(),
    {
        if self.session.terminate_session {
            self.finish(StatusCode::BadConnectionClosed);
        }
        !self.is_finished()
    }

    /// Takes note that reading the socket failed: the connection ends with
    /// `BadCommunicationError`.
    pub fn read_failed(&mut self)
        ensures
            old(self).wf() ==> final(self).wf(),
            *final(self) == old(self).spec_finish(StatusCode::BadCommunicationError),
    {
        self.finish(StatusCode::BadCommunicationError);
    }

    /// Looks at the next entry of the write channel: see
    /// [`TcpTransport::spec_after_accept`]. Returns true if the entry is to be
    /// sent; if not, the write loop ends.
    pub fn accept_outbound(&mut self, response: &SupportedMessage) -> (r: bool)
        ensures
            old(self).wf() ==> final(self).wf(),
            *final(self) == old(self).spec_after_accept(response@),
            r == old(self).spec_accepts(response@),
            r ==> !final(self).spec_is_finished(),
    {
        if response.is_invalid() {
            self.finish(StatusCode::BadCommunicationError);
            false
        } else if self.is_server_abort() {
            self.finish(StatusCode::BadCommunicationError);
            false
        } else if self.is_finished() {
            false
        } else {
            true
        }
    }

    /// Writes an entry of the write channel into the send buffer: an ACK as it
    /// is, any other message as chunks on the secure channel. A message that
    /// the framer refuses ends the connection with `BadCommunicationError`.
    /// Writing the answer that closes the secure channel asks the session to
    /// end. A finished transport writes nothing.
    pub fn write_outbound(
        &mut self,
        request_id: u32,
        response: SupportedMessage,
        send_buffer: &mut MessageWriter,
    )
        ensures
            old(self).wf() ==> final(self).wf(),
            final(send_buffer).send_buffer_size == old(send_buffer).send_buffer_size,
            old(self).spec_is_finished() ==> {
                &&& *final(self) == *old(self)
                &&& *final(send_buffer) == *old(send_buffer)
            },
            !old(self).spec_is_finished() ==> (match old(self).spec_outbound_frames(
                request_id,
                response@,
                *old(send_buffer),
            ) {
                Ok(frames) => {
                    &&& final(send_buffer).buffer@ == old(send_buffer).buffer@ + spec_joined(
                        frames,
                    )
                    &&& final(send_buffer).last_sent_sequence_number == old(
                        send_buffer,
                    ).last_sent_sequence_number + (if response@ is AcknowledgeMessage {
                        0
                    } else {
                        frames.len() as int
                    })
                    &&& *final(self) == old(self).spec_after_outbound(response@)
                },
                Err(e) => {
                    &&& final(send_buffer).buffer@ == old(send_buffer).buffer@
                    &&& final(send_buffer).last_sent_sequence_number == old(
                        send_buffer,
                    ).last_sent_sequence_number
                    &&& *final(self) == old(self).spec_finish(StatusCode::BadCommunicationError)
                },
            }),
    {
        if self.is_finished() {
            return ;
        }
        match response {
            SupportedMessage::AcknowledgeMessage(ack) => {
                let _ = send_buffer.write_ack(&ack);
                proof {
                    let frames = seq![ack.bytes()];
                    assert(spec_joined_prefix(frames, 0) == Seq::<u8>::empty());
                    assert(spec_joined(frames) =~= ack.bytes());
                }
            },
            msg => {
                let closing = match &msg {
                    SupportedMessage::ServiceFault(fault) => match fault.response_header.service_result {
                        StatusCode::BadSecureChannelClosed => true,
                        _ => false,
                    },
                    _ => false,
                };
                match send_buffer.write(request_id, msg, &self.secure_channel) {
                    Ok(_) => {
                        if closing {
                            self.session.terminate_session = true;
                        }
                    },
                    Err(_) => {
                        self.finish(StatusCode::BadCommunicationError);
                    },
                }
            },
        }
    }

    /// Takes note of how the write to the socket went: see
    /// [`TcpTransport::spec_after_write`]. Returns true if the write loop is to
    /// go on.
    pub fn write_completed(&mut self, written: bool) -> (r: bool)
        ensures
            old(self).wf() ==> final(self).wf(),
            *final(self) == old(self).spec_after_write(written),
            r == !final(self).spec_is_finished(),
    {
        if !written {
            self.finish(StatusCode::BadCommunicationError);
        }
        self.read_completed()
    }

    /// True when the timer that waits for the HELLO has nothing left to do: the
    /// HELLO was received or the connection has ended.
    pub fn hello_timer_stops(&self) -> (r: bool)
        ensures
            r == (self.spec_has_received_hello() || self.spec_is_finished()),
    {
        self.has_received_hello() || self.is_finished()
    }

    /// A tick of the timer that waits for the HELLO, at the moment `now`: see
    /// [`TcpTransport::spec_check_hello_timeout`].
    pub fn check_hello_timeout(&mut self, now: i64)
        ensures
            old(self).wf() ==> final(self).wf(),
            *final(self) == old(self).spec_check_hello_timeout(now),
    {
        match self.transport_state {
            TransportState::WaitingHello => {
                let elapsed: i128 = now as i128 - self.session_start_time as i128;
                let timeout: i128 = self.server_state.config.tcp_config.hello_timeout as i128
                    * 1000;
                if elapsed > timeout {
                    self.finish(StatusCode::BadTimeout);
                }
            },
            _ => {},
        }
    }

    /// A tick of the timer that waits for the HELLO, now. The moment is read
    /// from the clock, so all that is known is that the timeout was checked at
    /// some moment.
    pub fn hello_timeout_tick(&mut self)
        ensures
            old(self).wf() ==> final(self).wf(),
            exists|now: i64| *final(self) == #[trigger] old(self).spec_check_hello_timeout(now),
    {
        let now = utc_now_millis();
        self.check_hello_timeout(now);
    }

    /// The first half of a tick of the subscription monitor, at the moment
    /// `now`: publish requests that went stale are answered with a timeout.
    /// Returns false, and does nothing, once the connection has ended: the
    /// monitor then stops.
    pub fn begin_subscription_tick(&mut self, now: i64) -> (r: bool)
        ensures
            old(self).wf() ==> final(self).wf(),
            r == !old(self).spec_is_finished(),
            !r ==> *final(self) == *old(self),
            r ==> {
                let before = old(self).session;
                let after = final(self).session;
                &&& *final(self) == (TcpTransport { session: after, ..*old(self) })
                &&& after.terminated == before.terminated
                &&& after.terminate_session == before.terminate_session
                &&& after.publish_request_queue@ == spec_fresh(before.publish_request_queue@, now)
                &&& response_views(after.subscriptions.publish_responses@) == response_views(
                    before.subscriptions.publish_responses@,
                ) + spec_expired(before.publish_request_queue@, now)
            },
    {
        if self.is_finished() {
            return false;
        }
        self.session.expire_stale_publish_requests(now);
        true
    }

    /// The second half of a tick of the subscription monitor, after the
    /// subscriptions were given their turn: all responses that wait are taken
    /// out of the session, oldest first, as one event for the receiver. There
    /// is no event if nothing waits or the connection has ended.
    pub fn end_subscription_tick(&mut self) -> (r: Option<SubscriptionEvent>)
        ensures
            old(self).wf() ==> final(self).wf(),
            old(self).spec_is_finished() ==> r is None && *final(self) == *old(self),
            !old(self).spec_is_finished() ==> {
                let before = old(self).session;
                let after = final(self).session;
                let waiting = before.subscriptions.publish_responses@;
                &&& *final(self) == (TcpTransport { session: after, ..*old(self) })
                &&& after == (Session { subscriptions: after.subscriptions, ..before })
                &&& after.subscriptions.publish_responses@ == Seq::<PublishResponseEntry>::empty()
                &&& waiting.len() == 0 ==> r is None
                &&& waiting.len() > 0 ==> (r matches Some(
                    SubscriptionEvent::PublishResponses(taken),
                ) && taken@ == waiting)
            },
    {
        if self.is_finished() {
            return None;
        }
        match self.session.subscriptions.take_publish_responses() {
            Some(publish_responses) => Some(SubscriptionEvent::PublishResponses(publish_responses)),
            None => None,
        }
    }

    /// The receiver of the subscription pump: puts the responses of an event on
    /// the write channel, in their order, behind what waits there. Once the
    /// connection has ended the event is dropped.
    pub fn receive_subscription_event(
        &self,
        subscription_event: SubscriptionEvent,
        sender: &mut Vec<(u32, SupportedMessage)>,
    )
        ensures
            self.spec_is_finished() ==> final(sender)@ == old(sender)@,
            !self.spec_is_finished() ==> (match subscription_event {
                SubscriptionEvent::PublishResponses(publish_responses) => entry_views(
                    final(sender)@,
                ) == entry_views(old(sender)@) + response_views(publish_responses@),
            }),
    {
        if self.is_finished() {
            return ;
        }
        match subscription_event {
            SubscriptionEvent::PublishResponses(publish_responses) => {
                let ghost responses = response_views(publish_responses@);
                let ghost waiting = entry_views(sender@);
                let mut pending = publish_responses;
                while pending.len() > 0
                    invariant
                        entry_views(sender@) + response_views(pending@) == waiting + responses,
                    decreases pending.len(),
                {
                    let ghost sent = entry_views(sender@);
                    let ghost left = response_views(pending@);
                    let entry = pending.remove(0);
                    // Messages will be sent by the writing task
                    sender.push((entry.request_id, entry.response));
                    assert(entry_views(sender@) =~= sent.push(entry@));
                    assert(response_views(pending@) =~= left.skip(1));
                    assert(left[0] == entry@);
                    assert(sent.push(entry@) + left.skip(1) =~= sent + left);
                }
                assert(entry_views(sender@) + response_views(pending@) =~= entry_views(sender@));
            },
        }
    }
}

/// What the message handler did with one request: how it left the session,
/// and what it answered.
pub struct HandlerOutcome {
    pub session: Session,
    pub answer: Result<Option<SupportedMessageView>, StatusCode>,
}

/// How far the messages of one read have been handled.
pub struct ReadProgress {
    /// The transport as it stands.
    pub transport: TcpTransport,
    /// The write channel as it stands.
    pub queue: Seq<(u32, SupportedMessageView)>,
    /// How many requests were handed to the message handler.
    pub asked: nat,
    /// Where, among the messages, the chunk stands at which the handling
    /// stopped because another chunk of its message follows.
    pub stopped: Option<int>,
}

/// The answer of the message handler as a mathematical value.
pub open spec fn answer_view(result: Result<Option<SupportedMessage>, StatusCode>) -> Result<
    Option<SupportedMessageView>,
    StatusCode,
> {
    match result {
        Ok(Some(response)) => Ok(Some(response@)),
        Ok(None) => Ok(None),
        Err(e) => Err(e),
    }
}

/// A message as a mathematical value, if there is one.
pub open spec fn optional_message_view(message: Option<Message>) -> Option<MessageView> {
    match message {
        Some(m) => Some(m@),
        None => None,
    }
}

/// One step of a connection, as far as it moves the state of the transport.
pub enum TransportStep {
    /// The connection starts to run.
    Run(SocketAddress, i64),
    /// A message was received.
    Dispatch(MessageView, i64),
    /// The message handler answered a request.
    Handled(u32, Result<Option<SupportedMessageView>, StatusCode>),
    /// A pass of the read loop ended.
    ReadCompleted,
    /// The write loop looked at an entry of the write channel.
    Accept(SupportedMessageView),
    /// A write to the socket ended, well or not.
    WriteCompleted(bool),
    /// The timer that waits for the HELLO ticked.
    HelloTimeout(i64),
    /// Someone ended the connection.
    Finish(StatusCode),
}

impl TcpTransport {
    /// What one message of a read does to the transport and the write channel,
    /// where `outcome` is what the message handler does if the message carries
    /// a request for it: the message is dispatched; a request is handed to the
    /// handler, which may change the session, and its answer is taken. Tells
    /// also whether the handler was asked.
    #[verifier::opaque]
    pub open spec fn spec_process_message(
        self,
        message: MessageView,
        now: i64,
        outcome: HandlerOutcome,
    ) -> (TcpTransport, ReadEffect, bool) {
        let (dispatched, effect) = self.spec_dispatch(message, now);
        match effect {
            ReadEffect::Request(request_id, request) => {
                let asked = TcpTransport { session: outcome.session, ..dispatched };
                let (answered, enqueued) = asked.spec_handled(request_id, outcome.answer);
                (answered, enqueued, true)
            },
            _ => (dispatched, effect, false),
        }
    }

    /// The first `n` messages of a read handled in their order, beginning with
    /// the write channel `queue`; `outcomes` are the outcomes of the requests
    /// that are handed to the message handler, in the order of the requests.
    ///
    /// When a chunk that says that another follows is to be processed, the
    /// handling stops there, and the messages behind it stay unhandled.
    pub open spec fn spec_process_messages(
        self,
        queue: Seq<(u32, SupportedMessageView)>,
        messages: Seq<MessageView>,
        now: i64,
        outcomes: Seq<HandlerOutcome>,
        n: nat,
    ) -> ReadProgress
        decreases n,
    {
        if n == 0 {
            ReadProgress { transport: self, queue, asked: 0, stopped: None }
        } else {
            let before = self.spec_process_messages(queue, messages, now, outcomes, (n - 1) as nat);
            let message = messages[n - 1];
            if before.stopped is Some {
                before
            } else if before.transport.transport_state == TransportState::ProcessMessages
                && spec_is_intermediate_chunk(message) {
                ReadProgress { stopped: Some(n - 1), ..before }
            } else {
                let (transport, effect, asked) = before.transport.spec_process_message(
                    message,
                    now,
                    outcomes[before.asked as int],
                );
                ReadProgress {
                    transport,
                    queue: spec_enqueue(before.queue, effect),
                    asked: if asked {
                        before.asked + 1
                    } else {
                        before.asked
                    },
                    stopped: None,
                }
            }
        }
    }

    /// True when handling all of `messages` with the given outcomes of the
    /// handler leads to the transport `after` and the write channel
    /// `queue_after`, asks the handler exactly as often as there are outcomes,
    /// and stops at the message `stopped_at`, if it stops.
    pub open spec fn spec_processed(
        self,
        queue: Seq<(u32, SupportedMessageView)>,
        messages: Seq<MessageView>,
        now: i64,
        outcomes: Seq<HandlerOutcome>,
        after: TcpTransport,
        queue_after: Seq<(u32, SupportedMessageView)>,
        stopped_at: Option<MessageView>,
    ) -> bool {
        let progress = self.spec_process_messages(queue, messages, now, outcomes, messages.len());
        &&& outcomes.len() == progress.asked
        &&& after == progress.transport
        &&& queue_after == progress.queue
        &&& stopped_at == match progress.stopped {
            Some(k) => Some(messages[k]),
            None => None,
        }
    }

    /// Only the outcomes of the requests that are handed to the handler count:
    /// two runs of outcomes that agree on those lead to the same.
    pub proof fn lemma_unasked_outcomes_do_not_count(
        self,
        queue: Seq<(u32, SupportedMessageView)>,
        messages: Seq<MessageView>,
        now: i64,
        outcomes: Seq<HandlerOutcome>,
        others: Seq<HandlerOutcome>,
        n: nat,
    )
        requires
            forall|i: int|
                0 <= i < self.spec_process_messages(queue, messages, now, outcomes, n).asked
                    ==> outcomes[i] == others[i],
        ensures
            self.spec_process_messages(queue, messages, now, others, n)
                == self.spec_process_messages(queue, messages, now, outcomes, n),
        decreases n,
    {
        reveal(TcpTransport::spec_process_message);
        if n > 0 {
            self.lemma_unasked_outcomes_do_not_count(
                queue,
                messages,
                now,
                outcomes,
                others,
                (n - 1) as nat,
            );
        }
    }

    /// Where the handling has stopped it stays: the messages behind the chunk
    /// at which it stopped change nothing.
    pub proof fn lemma_stopped_stays(
        self,
        queue: Seq<(u32, SupportedMessageView)>,
        messages: Seq<MessageView>,
        now: i64,
        outcomes: Seq<HandlerOutcome>,
        n: nat,
        m: nat,
    )
        requires
            n <= m,
            self.spec_process_messages(queue, messages, now, outcomes, n).stopped is Some,
        ensures
            self.spec_process_messages(queue, messages, now, outcomes, m)
                == self.spec_process_messages(queue, messages, now, outcomes, n),
        decreases m,
    {
        if n < m {
            self.lemma_stopped_stays(queue, messages, now, outcomes, n, (m - 1) as nat);
        }
    }

    /// Messages that carry no request for the handler are handled in one way
    /// only: where the handler is never asked, the outcome of a read is what
    /// dispatching its messages one after the other gives, whatever the
    /// handler would have done.
    pub proof fn lemma_without_requests_nothing_is_open(
        self,
        queue: Seq<(u32, SupportedMessageView)>,
        messages: Seq<MessageView>,
        now: i64,
        outcomes: Seq<HandlerOutcome>,
    )
        requires
            self.spec_process_messages(
                queue,
                messages,
                now,
                Seq::<HandlerOutcome>::empty(),
                messages.len(),
            ).asked == 0,
        ensures
            self.spec_process_messages(queue, messages, now, outcomes, messages.len())
                == self.spec_process_messages(
                queue,
                messages,
                now,
                Seq::<HandlerOutcome>::empty(),
                messages.len(),
            ),
    {
        self.lemma_unasked_outcomes_do_not_count(
            queue,
            messages,
            now,
            Seq::<HandlerOutcome>::empty(),
            outcomes,
            messages.len(),
        );
    }

    /// The transport after a step.
    pub open spec fn spec_step(self, step: TransportStep) -> TcpTransport {
        match step {
            TransportStep::Run(client_address, now) => self.spec_run(client_address, now),
            TransportStep::Dispatch(message, now) => self.spec_dispatch(message, now).0,
            TransportStep::Handled(request_id, result) => self.spec_handled(request_id, result).0,
            TransportStep::ReadCompleted => self.spec_after_read(),
            TransportStep::Accept(response) => self.spec_after_accept(response),
            TransportStep::WriteCompleted(written) => self.spec_after_write(written),
            TransportStep::HelloTimeout(now) => self.spec_check_hello_timeout(now),
            TransportStep::Finish(status_code) => self.spec_finish(status_code),
        }
    }

    /// Ending a connection twice is ending it once: the status of the first end
    /// stays, and nothing else changes either.
    pub proof fn lemma_finish_is_idempotent(self, first: StatusCode, second: StatusCode)
        ensures
            self.spec_finish(first).spec_finish(second) == self.spec_finish(first),
            !self.spec_is_finished() ==> self.spec_finish(first).transport_state
                == TransportState::Finished(first),
            self.wf() ==> self.spec_finish(first).wf() && self.spec_finish(
                first,
            ).session.terminated,
    {
    }

    /// No step takes a connection back: its state keeps its rank or rises, all
    /// the way to `Finished`, and a well-formed transport stays well formed.
    pub proof fn lemma_steps_are_monotonic(self, step: TransportStep)
        ensures
            self.spec_step(step).transport_state.rank() >= self.transport_state.rank(),
            self.session.terminated ==> self.spec_step(step).session.terminated,
    {
    }

    /// A finished transport is at rest: no step changes it, nothing that is
    /// received or answered is put on the write channel or handed to the
    /// handler, and the write loop accepts nothing more for the wire.
    pub proof fn lemma_finished_is_silent(self, step: TransportStep)
        requires
            self.spec_is_finished(),
        ensures
            self.spec_step(step) == self,
            step matches TransportStep::Dispatch(message, now) ==> self.spec_dispatch(
                message,
                now,
            ).1 is Nothing,
            step matches TransportStep::Handled(request_id, result) ==> self.spec_handled(
                request_id,
                result,
            ).1 is Nothing,
            step matches TransportStep::Accept(response) ==> !self.spec_accepts(response),
    {
    }

    /// Once messages are processed, no HELLO is accepted again: a second HELLO
    /// ends the connection with `BadCommunicationError`, and no ACK is sent.
    pub proof fn lemma_second_hello_is_refused(self, hello: HelloMessageView, now: i64)
        requires
            self.transport_state == TransportState::ProcessMessages,
        ensures
            self.spec_dispatch(MessageView::Hello(hello), now) == (
                self.spec_finish(StatusCode::BadCommunicationError),
                ReadEffect::Nothing,
            ),
            self.spec_dispatch(MessageView::Hello(hello), now).0.transport_state
                == TransportState::Finished(StatusCode::BadCommunicationError),
    {
    }

    /// Before the HELLO, anything but a HELLO ends the connection with
    /// `BadCommunicationError`, undecoded.
    pub proof fn lemma_message_before_hello_is_refused(self, message: MessageView, now: i64)
        requires
            self.transport_state == TransportState::WaitingHello,
            !(message is Hello),
        ensures
            self.spec_dispatch(message, now) == (
                self.spec_finish(StatusCode::BadCommunicationError),
                ReadEffect::Nothing,
            ),
    {
    }

    /// A chunk that is accepted carries the sequence number that follows the
    /// one accepted before it, counting modulo 2^32, and becomes the one
    /// accepted last.
    pub proof fn lemma_accepted_chunk_is_next(self, data: Seq<u8>, now: i64)
        requires
            self.spec_process_chunk(data, now) is Ok,
            spec_chunk_header(data) matches Ok(header) && header.is_final
                != MessageIsFinalType::FinalError,
        ensures
            spec_chunk_info(data) matches Ok(info) && info.sequence_header.sequence_number
                == spec_sequence_after(self.last_received_sequence_number, 1)
                && self.spec_process_chunk(data, now)->Ok_0.0.last_received_sequence_number
                == info.sequence_header.sequence_number,
    {
        let channel = self.secure_channel.spec_verify(data)->Ok_0;
        let start = spec_sequence_after(self.last_received_sequence_number, 1);
        crate::chunker::lemma_validated_chunks_are_consecutive(channel, start, seq![data], 0);
    }

    /// Of two chunks that are accepted one after the other, the second carries
    /// the sequence number of the first plus one, modulo 2^32, whatever else
    /// happened to the transport in between, as long as it did not touch the
    /// number accepted last.
    pub proof fn lemma_accepted_chunks_are_consecutive(
        self,
        first: Seq<u8>,
        first_now: i64,
        later: TcpTransport,
        second: Seq<u8>,
        second_now: i64,
    )
        requires
            self.spec_process_chunk(first, first_now) matches Ok((after, effect))
                && later.last_received_sequence_number == after.last_received_sequence_number,
            spec_chunk_header(first) matches Ok(header) && header.is_final
                != MessageIsFinalType::FinalError,
            later.spec_process_chunk(second, second_now) is Ok,
            spec_chunk_header(second) matches Ok(header) && header.is_final
                != MessageIsFinalType::FinalError,
        ensures
            spec_chunk_info(first) is Ok,
            spec_chunk_info(second) is Ok,
            spec_chunk_info(second)->Ok_0.sequence_header.sequence_number == spec_sequence_after(
                spec_chunk_info(first)->Ok_0.sequence_header.sequence_number,
                1,
            ),
    {
        self.lemma_accepted_chunk_is_next(first, first_now);
        later.lemma_accepted_chunk_is_next(second, second_now);
    }

    /// A chunk that belongs to the channel but carries another sequence number
    /// than the one that follows the last ends the connection with
    /// `BadSequenceNumberInvalid`, and nothing is answered.
    pub proof fn lemma_out_of_sequence_ends_connection(self, data: Seq<u8>, now: i64)
        requires
            self.transport_state == TransportState::ProcessMessages,
            spec_chunk_header(data) matches Ok(header) && header.is_final
                != MessageIsFinalType::FinalError,
            self.secure_channel.spec_verify(data) matches Ok(channel) && (spec_chunk_info(
                data,
            ) matches Ok(info) && (channel.secure_channel_id == 0
                || info.message_header.secure_channel_id == channel.secure_channel_id)
                && info.sequence_header.sequence_number != spec_sequence_after(
                self.last_received_sequence_number,
                1,
            )),
        ensures
            self.spec_dispatch(MessageView::MessageChunk(data), now) == (
                self.spec_finish(StatusCode::BadSequenceNumberInvalid),
                ReadEffect::Nothing,
            ),
    {
        let channel = self.secure_channel.spec_verify(data)->Ok_0;
        let start = spec_sequence_after(self.last_received_sequence_number, 1);
        let chunks = seq![data];
        assert(chunks[0] == data);
        crate::chunker::lemma_out_of_sequence_is_refused(channel, start, chunks);
    }

    /// The read path puts at most one response on the write channel for a
    /// chunk, and puts it there under the request id of the chunk: either at
    /// once, for a chunk that opens or closes the channel, or when the handler
    /// has answered the request that the chunk carried.
    pub proof fn lemma_one_response_per_request(
        self,
        data: Seq<u8>,
        now: i64,
        later: TcpTransport,
        answer: Result<Option<SupportedMessageView>, StatusCode>,
        queue: Seq<(u32, SupportedMessageView)>,
    )
        requires
            self.spec_process_chunk(data, now) is Ok,
        ensures
            ({
                let effect = self.spec_process_chunk(data, now)->Ok_0.1;
                let request_id = spec_chunk_info(data)->Ok_0.sequence_header.request_id;
                match effect {
                    ReadEffect::Nothing => spec_enqueue(queue, effect) == queue,
                    ReadEffect::Enqueued(id, response) => id == request_id && spec_enqueue(
                        queue,
                        effect,
                    ) == queue.push((request_id, response)),
                    ReadEffect::Request(id, request) => {
                        let handled = later.spec_handled(id, answer).1;
                        &&& id == request_id
                        &&& spec_enqueue(queue, effect) == queue
                        &&& !(handled is Request)
                        &&& handled matches ReadEffect::Enqueued(handled_id, response)
                            ==> handled_id == request_id && answer == Ok::<
                            Option<SupportedMessageView>,
                            StatusCode,
                        >(Some(response))
                    },
                }
            }),
    {
    }
}

} // verus!
