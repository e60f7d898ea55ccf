//! Server side of the OPC UA TCP transport: framing, chunk validation,
//! secure channel bookkeeping and the per-connection state machine.

pub mod chunker;
pub mod clock;
pub mod encoding;
pub mod identity;
pub mod message_chunk;
pub mod message_handler;
pub mod message_reader;
pub mod message_writer;
pub mod node_id;
pub mod secure_channel;
pub mod secure_channel_service;
pub mod session;
pub mod state;
pub mod status_code;
pub mod supported_message;
pub mod tcp_transport;
pub mod tcp_types;
