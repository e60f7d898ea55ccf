//! What the transport asks of the services behind it.

use crate::session::Session;
use crate::status_code::StatusCode;
use crate::supported_message::SupportedMessage;
use vstd::prelude::*;

verus! {

/// Answers the service requests that arrive on a connection.
///
/// The transport makes no assumption about the answers: what it does with an
/// answer is decided for every answer there can be.
pub trait MessageHandler {
    /// Handles the request that arrived under `request_id`. `Ok(None)` means that
    /// the handler keeps the request and will answer it through the
    /// subscriptions of the session, as it does with a publish request that
    /// has to wait for data. An error ends the connection.
    fn handle_message(
        &mut self,
        session: &mut Session,
        request_id: u32,
        request: SupportedMessage,
    ) -> Result<Option<SupportedMessage>, StatusCode>;
}

} // verus!
