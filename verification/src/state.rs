//! What a connection is told about its server: the configuration it starts
//! from and whether the server is shutting down.

use vstd::prelude::*;

verus! {

/// The default size of the receive buffer, the send buffer and the largest message.
pub const DEFAULT_BUFFER_SIZE: u32 = 65536;

/// The settings of the TCP transport.
#[derive(Clone, Copy, Debug, PartialEq, Eq, Structural)]
pub struct TcpConfig {
    /// How long, in seconds, a connection may wait for the HELLO of its client.
    pub hello_timeout: u32,
}

/// The limits that the server announces in its ACK and keeps to itself.
#[derive(Clone, Copy, Debug, PartialEq, Eq, Structural)]
pub struct ServerConfig {
    pub tcp_config: TcpConfig,
    pub receive_buffer_size: u32,
    pub send_buffer_size: u32,
    pub max_message_size: u32,
    pub max_chunk_count: u32,
    /// The longest lifetime, in milliseconds, granted to a channel token.
    pub max_token_lifetime: u32,
}

/// The server as a connection sees it.
#[derive(Clone, Copy, Debug, PartialEq, Eq, Structural)]
pub struct ServerState {
    /// Set when the server shuts down: every connection then gives up.
    pub abort: bool,
    pub config: ServerConfig,
}

impl ServerConfig {
    /// Buffers and messages of 64 KiB, five chunks to a message, five seconds
    /// for the HELLO, and tokens that live an hour at most.
    pub fn new() -> (r: ServerConfig)
        ensures
            r == (ServerConfig {
                tcp_config: TcpConfig { hello_timeout: 5 },
                receive_buffer_size: DEFAULT_BUFFER_SIZE,
                send_buffer_size: DEFAULT_BUFFER_SIZE,
                max_message_size: DEFAULT_BUFFER_SIZE,
                max_chunk_count: 5,
                max_token_lifetime: 3_600_000,
            }),
    {
        ServerConfig {
            tcp_config: TcpConfig { hello_timeout: 5 },
            receive_buffer_size: DEFAULT_BUFFER_SIZE,
            send_buffer_size: DEFAULT_BUFFER_SIZE,
            max_message_size: DEFAULT_BUFFER_SIZE,
            max_chunk_count: 5,
            max_token_lifetime: 3_600_000,
        }
    }
}

impl ServerState {
    /// A server that runs, with the given configuration.
    pub fn new(config: ServerConfig) -> (r: ServerState)
        ensures
            r == (ServerState { abort: false, config }),
    {
        ServerState { abort: false, config }
    }

    /// True when the server shuts down.
    pub open spec fn spec_is_abort(&self) -> bool {
        self.abort
    }

    /// True when the server shuts down.
    #[verifier::when_used_as_spec(spec_is_abort)]
    pub fn is_abort(&self) -> (r: bool)
        ensures
            r == self.abort,
    {
        self.abort
    }

    /// Tells every connection that sees this state to give up.
    pub fn abort(&mut self)
        ensures
            *final(self) == (ServerState { abort: true, ..*old(self) }),
    {
        self.abort = true;
    }
}

} // verus!
