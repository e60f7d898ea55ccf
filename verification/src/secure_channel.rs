//! The state of a secure channel and what it does to chunks.
//!
//! The channel speaks the security policy `None`: chunks are neither signed nor
//! encrypted, so securing a chunk and removing its security leave its bytes as
//! they are. What remains is bookkeeping: which channel and which tokens are
//! current, and which security headers the channel accepts.

use crate::encoding::{append_bytes, bytes_equal, copy_range, UAString};
use crate::message_chunk::{
    chunk_info, spec_chunk_info, AsymmetricSecurityHeader, MessageChunk, MessageChunkType,
    SecurityHeader, SecurityHeaderView, SymmetricSecurityHeader,
};
use crate::status_code::StatusCode;
use crate::supported_message::MessageSecurityMode;
use vstd::prelude::*;

verus! {

/// The URI of the security policy `None`,
/// `http://opcfoundation.org/UA/SecurityPolicy#None`, as bytes.
pub open spec fn spec_none_policy_uri() -> Seq<u8> {
    seq![
        104u8, 116u8, 116u8, 112u8, 58u8, 47u8, 47u8, 111u8, 112u8, 99u8, 102u8, 111u8, 117u8,
        110u8, 100u8, 97u8, 116u8, 105u8, 111u8, 110u8, 46u8, 111u8, 114u8, 103u8, 47u8, 85u8,
        65u8, 47u8, 83u8, 101u8, 99u8, 117u8, 114u8, 105u8, 116u8, 121u8, 80u8, 111u8, 108u8,
        105u8, 99u8, 121u8, 35u8, 78u8, 111u8, 110u8, 101u8,
    ]
}

/// A policy URI names the policy `None` when it is absent or spells its URI.
pub open spec fn spec_is_none_policy(uri: Option<Seq<u8>>) -> bool {
    uri matches Some(u) ==> u == spec_none_policy_uri()
}

/// The URI of the security policy `None`.
pub fn none_policy_uri() -> (r: Vec<u8>)
    ensures
        r@ == spec_none_policy_uri(),
{
    let r: Vec<u8> = vec![
        104u8, 116u8, 116u8, 112u8, 58u8, 47u8, 47u8, 111u8, 112u8, 99u8, 102u8, 111u8, 117u8,
        110u8, 100u8, 97u8, 116u8, 105u8, 111u8, 110u8, 46u8, 111u8, 114u8, 103u8, 47u8, 85u8,
        65u8, 47u8, 83u8, 101u8, 99u8, 117u8, 114u8, 105u8, 116u8, 121u8, 80u8, 111u8, 108u8,
        105u8, 99u8, 121u8, 35u8, 78u8, 111u8, 110u8, 101u8,
    ];
    assert(r@ =~= spec_none_policy_uri());
    r
}

/// True when `uri` is absent or spells the URI of the policy `None`.
pub fn is_none_policy(uri: &UAString) -> (r: bool)
    ensures
        r == spec_is_none_policy(uri@),
{
    match &uri.value {
        None => true,
        Some(u) => {
            let none = none_policy_uri();
            bytes_equal(u.as_slice(), none.as_slice())
        },
    }
}

/// One secure channel. A channel id of 0 means that no channel is open.
#[derive(Clone, Copy, Debug, PartialEq, Eq)]
pub struct SecureChannel {
    pub security_mode: MessageSecurityMode,
    pub secure_channel_id: u32,
    /// The token that is current.
    pub token_id: u32,
    pub token_created_at: i64,
    pub token_lifetime: u32,
    /// The token that was current before the last renewal, kept until a chunk
    /// arrives under the new token.
    pub previous_token_id: Option<u32>,
}

impl SecureChannel {
    /// At most one token is active beside a predecessor that awaits its
    /// replacement: without an open channel there is no predecessor, and the
    /// predecessor is never the current token.
    pub open spec fn wf(self) -> bool {
        self.previous_token_id matches Some(p) ==> self.secure_channel_id != 0 && p
            != self.token_id
    }

    /// A channel is open once it has an id.
    pub open spec fn spec_is_open(self) -> bool {
        self.secure_channel_id != 0
    }

    /// The channel accepts an asymmetric header that names the policy `None`,
    /// and, once it is open, a symmetric header that names the current token or
    /// the predecessor it still keeps.
    pub open spec fn accepts(self, header: SecurityHeaderView) -> bool {
        match header {
            SecurityHeaderView::Asymmetric {
                security_policy_uri,
                sender_certificate,
                receiver_certificate_thumbprint,
            } => spec_is_none_policy(security_policy_uri),
            SecurityHeaderView::Symmetric { token_id } => self.spec_is_open() && (token_id
                == self.token_id || self.previous_token_id == Some(token_id)),
        }
    }

    /// The channel after a chunk arrived under `token_id`: the first chunk under
    /// the current token ends the life of its predecessor.
    pub open spec fn after_use(self, token_id: u32) -> SecureChannel {
        if token_id == self.token_id {
            SecureChannel { previous_token_id: None, ..self }
        } else {
            self
        }
    }

    /// The security header that the channel puts on a chunk of the given kind.
    pub open spec fn header_for(self, message_type: MessageChunkType) -> SecurityHeaderView {
        if message_type == MessageChunkType::OpenSecureChannel {
            SecurityHeaderView::Asymmetric {
                security_policy_uri: Some(spec_none_policy_uri()),
                sender_certificate: None,
                receiver_certificate_thumbprint: None,
            }
        } else {
            SecurityHeaderView::Symmetric { token_id: self.token_id }
        }
    }

    /// What removing the security of the frame `src` gives: the headers must
    /// decode, and an OPN frame must name the policy `None`.
    pub open spec fn spec_verify(self, src: Seq<u8>) -> Result<SecureChannel, StatusCode> {
        match spec_chunk_info(src) {
            Err(e) => Err(e),
            Ok(info) => match info.security_header {
                SecurityHeaderView::Asymmetric {
                    security_policy_uri,
                    sender_certificate,
                    receiver_certificate_thumbprint,
                } => if spec_is_none_policy(security_policy_uri) {
                    Ok(self)
                } else {
                    Err(StatusCode::BadSecurityPolicyRejected)
                },
                SecurityHeaderView::Symmetric { token_id } => Ok(self.after_use(token_id)),
            },
        }
    }

    /// A channel that is not open.
    pub fn new() -> (r: SecureChannel)
        ensures
            r.wf(),
            !r.spec_is_open(),
            r == (SecureChannel {
                security_mode: MessageSecurityMode::NoSecurity,
                secure_channel_id: 0,
                token_id: 0,
                token_created_at: 0,
                token_lifetime: 0,
                previous_token_id: None,
            }),
    {
        SecureChannel {
            security_mode: MessageSecurityMode::NoSecurity,
            secure_channel_id: 0,
            token_id: 0,
            token_created_at: 0,
            token_lifetime: 0,
            previous_token_id: None,
        }
    }

    /// True once the channel has an id.
    pub fn is_open(&self) -> (r: bool)
        ensures
            r == self.spec_is_open(),
    {
        self.secure_channel_id != 0
    }

    /// The id of the channel; 0 while it is not open.
    pub fn secure_channel_id(&self) -> (r: u32)
        ensures
            r == self.secure_channel_id,
    {
        self.secure_channel_id
    }

    /// Checks a security header against the channel.
    pub fn verify_header(&self, security_header: &SecurityHeader) -> (r: Result<(), StatusCode>)
        ensures
            self.accepts(security_header@) ==> r is Ok,
            !self.accepts(security_header@) ==> r == Err::<(), StatusCode>(
                StatusCode::BadSecurityChecksFailed,
            ),
    {
        let accepted = match security_header {
            SecurityHeader::Asymmetric(h) => is_none_policy(&h.security_policy_uri),
            SecurityHeader::Symmetric(h) => {
                let is_previous = match self.previous_token_id {
                    Some(previous) => previous == h.token_id,
                    None => false,
                };
                self.secure_channel_id != 0 && (h.token_id == self.token_id || is_previous)
            },
        };
        if accepted {
            Ok(())
        } else {
            Err(StatusCode::BadSecurityChecksFailed)
        }
    }

    /// Takes the security off a frame and returns the chunk in the clear. Under
    /// the policy `None` the bytes stay as they are; the channel notes the first
    /// use of a renewed token.
    pub fn verify_and_remove_security(&mut self, src: &[u8]) -> (r: Result<
        MessageChunk,
        StatusCode,
    >)
        ensures
            old(self).wf() ==> final(self).wf(),
            match old(self).spec_verify(src@) {
                Ok(channel) => r matches Ok(chunk) && chunk@ == src@ && *final(self) == channel,
                Err(e) => r matches Err(x) && x == e && *final(self) == *old(self),
            },
    {
        let info = match chunk_info(src) {
            Ok(info) => info,
            Err(e) => {
                return Err(e);
            },
        };
        match &info.security_header {
            SecurityHeader::Asymmetric(h) => {
                if !is_none_policy(&h.security_policy_uri) {
                    return Err(StatusCode::BadSecurityPolicyRejected);
                }
            },
            SecurityHeader::Symmetric(h) => {
                if h.token_id == self.token_id {
                    self.previous_token_id = None;
                }
            },
        }
        let data = copy_range(src, 0, src.len());
        assert(data@ =~= src@);
        Ok(MessageChunk { data })
    }

    /// Secures a chunk and appends the result to `out`; returns the number of
    /// bytes appended. Under the policy `None` these are the chunk's own bytes.
    pub fn apply_security(&self, chunk: &MessageChunk, out: &mut Vec<u8>) -> (r: Result<
        usize,
        StatusCode,
    >)
        ensures
            r == Ok::<usize, StatusCode>(chunk@.len() as usize),
            final(out)@ == old(out)@ + chunk@,
    {
        append_bytes(out, chunk.data.as_slice());
        Ok(chunk.data.len())
    }

    /// The security header for an outgoing chunk of the given kind.
    pub fn make_security_header(&self, message_type: MessageChunkType) -> (r: SecurityHeader)
        ensures
            r@ == self.header_for(message_type),
            r@.encodable(),
            r@.fits(message_type),
    {
        if message_type.is_open_secure_channel() {
            SecurityHeader::Asymmetric(
                AsymmetricSecurityHeader {
                    security_policy_uri: UAString::from_bytes(none_policy_uri()),
                    sender_certificate: UAString::null(),
                    receiver_certificate_thumbprint: UAString::null(),
                },
            )
        } else {
            SecurityHeader::Symmetric(SymmetricSecurityHeader { token_id: self.token_id })
        }
    }
}

} // verus!
