//! The service that opens, renews and closes the secure channel: it hands out
//! channel and token ids and writes what was agreed into the channel.

use crate::clock::{date_time, spec_date_time};
use crate::encoding::UAString;
use crate::message_chunk::{SecurityHeader, SecurityHeaderView};
use crate::secure_channel::{is_none_policy, spec_is_none_policy, SecureChannel};
use crate::status_code::StatusCode;
use crate::supported_message::{
    ChannelSecurityToken, MessageSecurityMode, OpenSecureChannelResponse,
    OpenSecureChannelResponseView, ResponseHeader, SecurityTokenRequestType, ServiceFault,
    SupportedMessage, SupportedMessageView,
};
use vstd::prelude::*;

verus! {

/// The protocol version this server speaks.
pub const SERVER_PROTOCOL_VERSION: u32 = 0;

/// Hands out the ids of channels and tokens. Both counters only grow, so no id
/// is given twice.
#[derive(Clone, Copy, Debug, PartialEq, Eq, Structural)]
pub struct SecureChannelService {
    /// The id of the channel opened last; 0 before the first.
    pub last_secure_channel_id: u32,
    /// The id of the token issued last; 0 before the first.
    pub last_token_id: u32,
    /// The longest lifetime, in milliseconds, that a token is granted.
    pub max_token_lifetime: u32,
}

/// What opening or renewing a channel leaves behind.
pub struct OpenOutcome {
    pub service: SecureChannelService,
    pub channel: SecureChannel,
    pub response: OpenSecureChannelResponseView,
}

impl SecureChannelService {
    /// The lifetime granted for a requested one: the smaller of the request and
    /// the server's limit.
    pub open spec fn revised_lifetime(self, requested: u32) -> u32 {
        if requested < self.max_token_lifetime {
            requested
        } else {
            self.max_token_lifetime
        }
    }

    /// Opening or renewing a channel, as a function of everything it depends on.
    ///
    /// Refused with
    /// - `BadUnexpectedError` when the message is no OpenSecureChannel request, or
    ///   the ids are used up;
    /// - `BadSecurityChecksFailed` when the chunk came under a symmetric header,
    ///   or a renewal is asked of a channel that is not open;
    /// - `BadSecurityPolicyRejected` when the header names a policy other than `None`;
    /// - `BadProtocolVersionUnsupported` when the request names another protocol
    ///   version than the HELLO did;
    /// - `BadSecurityModeRejected` when the request asks for signing or encryption,
    ///   or for no valid mode.
    ///
    /// Otherwise a token with the next token id is issued at `now`, a moment in
    /// milliseconds since the Unix epoch, for a new channel with the next
    /// channel id on `Issue`, for the open channel on `Renew`; a renewal keeps
    /// the previous token beside the new one.
    pub open spec fn spec_open(
        self,
        channel: SecureChannel,
        security_header: SecurityHeaderView,
        client_protocol_version: u32,
        request: SupportedMessageView,
        now: i64,
    ) -> Result<OpenOutcome, StatusCode> {
        if !(request is OpenSecureChannelRequest) {
            Err(StatusCode::BadUnexpectedError)
        } else if !(security_header is Asymmetric) {
            Err(StatusCode::BadSecurityChecksFailed)
        } else if !spec_is_none_policy(security_header->security_policy_uri) {
            Err(StatusCode::BadSecurityPolicyRejected)
        } else {
            let req = request->OpenSecureChannelRequest_0;
            let renew = req.request_type == SecurityTokenRequestType::Renew;
            if req.client_protocol_version != client_protocol_version {
                Err(StatusCode::BadProtocolVersionUnsupported)
            } else if req.security_mode != MessageSecurityMode::NoSecurity {
                Err(StatusCode::BadSecurityModeRejected)
            } else if renew && !channel.spec_is_open() {
                Err(StatusCode::BadSecurityChecksFailed)
            } else if self.last_token_id == u32::MAX || (!renew && self.last_secure_channel_id
                == u32::MAX) {
                Err(StatusCode::BadUnexpectedError)
            } else {
                let channel_id = if renew {
                    channel.secure_channel_id
                } else {
                    (self.last_secure_channel_id + 1) as u32
                };
                let token_id = (self.last_token_id + 1) as u32;
                let lifetime = self.revised_lifetime(req.requested_lifetime);
                Ok(
                    OpenOutcome {
                        service: SecureChannelService {
                            last_secure_channel_id: if renew {
                                self.last_secure_channel_id
                            } else {
                                channel_id
                            },
                            last_token_id: token_id,
                            max_token_lifetime: self.max_token_lifetime,
                        },
                        channel: SecureChannel {
                            security_mode: MessageSecurityMode::NoSecurity,
                            secure_channel_id: channel_id,
                            token_id,
                            token_created_at: now,
                            token_lifetime: lifetime,
                            previous_token_id: if renew && channel.token_id != token_id {
                                Some(channel.token_id)
                            } else {
                                None
                            },
                        },
                        response: OpenSecureChannelResponseView {
                            response_header: ResponseHeader {
                                timestamp: spec_date_time(now),
                                request_handle: req.request_header.request_handle,
                                service_result: StatusCode::Good,
                            },
                            server_protocol_version: SERVER_PROTOCOL_VERSION,
                            security_token: ChannelSecurityToken {
                                channel_id,
                                token_id,
                                created_at: spec_date_time(now),
                                revised_lifetime: lifetime,
                            },
                            server_nonce: None,
                        },
                    },
                )
            }
        }
    }

    /// The answer to a request to close the channel: a fault that says the
    /// channel is closed. Anything but a CloseSecureChannel request is refused
    /// with `BadUnexpectedError`.
    pub open spec fn spec_close(request: SupportedMessageView, now: i64) -> Result<
        SupportedMessageView,
        StatusCode,
    > {
        match request {
            SupportedMessageView::CloseSecureChannelRequest(req) => Ok(
                SupportedMessageView::ServiceFault(
                    ServiceFault {
                        response_header: ResponseHeader {
                            timestamp: spec_date_time(now),
                            request_handle: req.request_header.request_handle,
                            service_result: StatusCode::BadSecureChannelClosed,
                        },
                    },
                ),
            ),
            _ => Err(StatusCode::BadUnexpectedError),
        }
    }

    /// A service that has given out no id yet.
    pub fn new(max_token_lifetime: u32) -> (r: SecureChannelService)
        ensures
            r == (SecureChannelService {
                last_secure_channel_id: 0,
                last_token_id: 0,
                max_token_lifetime,
            }),
    {
        SecureChannelService { last_secure_channel_id: 0, last_token_id: 0, max_token_lifetime }
    }

    /// Opens or renews `channel` as `request` asks, at the time `now`.
    pub fn open_secure_channel(
        &mut self,
        channel: &mut SecureChannel,
        security_header: &SecurityHeader,
        client_protocol_version: u32,
        request: &SupportedMessage,
        now: i64,
    ) -> (r: Result<SupportedMessage, StatusCode>)
        ensures
            old(channel).wf() ==> final(channel).wf(),
            match old(self).spec_open(
                *old(channel),
                security_header@,
                client_protocol_version,
                request@,
                now,
            ) {
                Ok(outcome) => r matches Ok(response) && response@
                    == SupportedMessageView::OpenSecureChannelResponse(outcome.response)
                    && *final(self) == outcome.service && *final(channel) == outcome.channel,
                Err(e) => r matches Err(x) && x == e && *final(self) == *old(self)
                    && *final(channel) == *old(channel),
            },
    {
        let req = match request {
            SupportedMessage::OpenSecureChannelRequest(req) => req,
            _ => {
                return Err(StatusCode::BadUnexpectedError);
            },
        };
        let header = match security_header {
            SecurityHeader::Asymmetric(header) => header,
            _ => {
                return Err(StatusCode::BadSecurityChecksFailed);
            },
        };
        if !is_none_policy(&header.security_policy_uri) {
            return Err(StatusCode::BadSecurityPolicyRejected);
        }
        if req.client_protocol_version != client_protocol_version {
            return Err(StatusCode::BadProtocolVersionUnsupported);
        }
        match req.security_mode {
            MessageSecurityMode::NoSecurity => {},
            _ => {
                return Err(StatusCode::BadSecurityModeRejected);
            },
        }
        let renew = match req.request_type {
            SecurityTokenRequestType::Renew => true,
            SecurityTokenRequestType::Issue => false,
        };
        if renew && !channel.is_open() {
            return Err(StatusCode::BadSecurityChecksFailed);
        }
        if self.last_token_id == u32::MAX || (!renew && self.last_secure_channel_id == u32::MAX) {
            return Err(StatusCode::BadUnexpectedError);
        }
        let channel_id = if renew {
            channel.secure_channel_id
        } else {
            self.last_secure_channel_id = self.last_secure_channel_id + 1;
            self.last_secure_channel_id
        };
        self.last_token_id = self.last_token_id + 1;
        let token_id = self.last_token_id;
        let lifetime = if req.requested_lifetime < self.max_token_lifetime {
            req.requested_lifetime
        } else {
            self.max_token_lifetime
        };
        let previous_token_id = if renew && channel.token_id != token_id {
            Some(channel.token_id)
        } else {
            None
        };
        *channel = SecureChannel {
            security_mode: MessageSecurityMode::NoSecurity,
            secure_channel_id: channel_id,
            token_id,
            token_created_at: now,
            token_lifetime: lifetime,
            previous_token_id,
        };
        Ok(
            SupportedMessage::OpenSecureChannelResponse(
                OpenSecureChannelResponse {
                    response_header: ResponseHeader::new(
                        &req.request_header,
                        date_time(now),
                        StatusCode::Good,
                    ),
                    server_protocol_version: SERVER_PROTOCOL_VERSION,
                    security_token: ChannelSecurityToken {
                        channel_id,
                        token_id,
                        created_at: date_time(now),
                        revised_lifetime: lifetime,
                    },
                    server_nonce: UAString::null(),
                },
            ),
        )
    }

    /// Answers a request to close the channel, at the time `now`.
    pub fn close_secure_channel(&self, request: &SupportedMessage, now: i64) -> (r: Result<
        SupportedMessage,
        StatusCode,
    >)
        ensures
            match Self::spec_close(request@, now) {
                Ok(response) => r matches Ok(x) && x@ == response,
                Err(e) => r matches Err(x) && x == e,
            },
    {
        match request {
            SupportedMessage::CloseSecureChannelRequest(req) => Ok(
                SupportedMessage::service_fault(
                    &req.request_header,
                    date_time(now),
                    StatusCode::BadSecureChannelClosed,
                ),
            ),
            _ => Err(StatusCode::BadUnexpectedError),
        }
    }

    /// Every token that is issued has a larger id than any issued before, and
    /// every channel that is opened a larger id than any opened before.
    pub proof fn lemma_ids_are_fresh(
        self,
        channel: SecureChannel,
        security_header: SecurityHeaderView,
        client_protocol_version: u32,
        request: SupportedMessageView,
        now: i64,
    )
        ensures
            self.spec_open(channel, security_header, client_protocol_version, request, now)
                matches Ok(outcome) ==> {
                &&& outcome.response.security_token.token_id > self.last_token_id
                &&& outcome.service.last_token_id == outcome.response.security_token.token_id
                &&& outcome.service.last_secure_channel_id >= self.last_secure_channel_id
                &&& request->OpenSecureChannelRequest_0.request_type
                    == SecurityTokenRequestType::Issue
                    ==> outcome.response.security_token.channel_id
                    > self.last_secure_channel_id
                &&& outcome.response.security_token.revised_lifetime
                    <= request->OpenSecureChannelRequest_0.requested_lifetime
                &&& outcome.response.security_token.revised_lifetime <= self.max_token_lifetime
            },
    {
    }
}

} // verus!
