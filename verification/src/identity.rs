//! The identity tokens by which a user presents itself to a session.

use crate::encoding::{
    has_at, lemma_read_string_written, spec_read_string, spec_string_bytes,
    spec_string_encodable, spec_string_len, UAString,
};
use crate::status_code::StatusCode;
use vstd::prelude::*;

verus! {

/// A token representing an anonymous user.
#[derive(Debug, Clone, PartialEq, Eq)]
pub struct AnonymousIdentityToken {
    pub policy_id: UAString,
}

impl View for AnonymousIdentityToken {
    type V = Option<Seq<u8>>;

    /// The token is its policy id.
    open spec fn view(&self) -> Option<Seq<u8>> {
        self.policy_id@
    }
}

impl AnonymousIdentityToken {
    /// The number of bytes the token takes on the wire.
    pub fn byte_len(&self) -> (size: usize)
        requires
            spec_string_len(self@) <= usize::MAX,
        ensures
            size == spec_string_len(self@),
    {
        let mut size: usize = 0;
        size += self.policy_id.byte_len();
        size
    }

    /// Appends the token to `stream` and returns the number of bytes written. A
    /// policy id too long for its length prefix is refused and nothing is written.
    pub fn encode(&self, stream: &mut Vec<u8>) -> (r: Result<usize, StatusCode>)
        ensures
            spec_string_encodable(self@) ==> r == Ok::<usize, StatusCode>(
                spec_string_len(self@) as usize,
            ) && final(stream)@ == old(stream)@ + spec_string_bytes(self@),
            !spec_string_encodable(self@) ==> r == Err::<usize, StatusCode>(
                StatusCode::BadEncodingError,
            ) && final(stream)@ == old(stream)@,
    {
        let mut size: usize = 0;
        match self.policy_id.encode(stream) {
            Ok(n) => {
                size += n;
            },
            Err(e) => {
                return Err(e);
            },
        }
        Ok(size)
    }

    /// Reads the token that starts at `pos` and returns it with the position behind it.
    pub fn decode(stream: &[u8], pos: usize) -> (r: Result<
        (AnonymousIdentityToken, usize),
        StatusCode,
    >)
        ensures
            match spec_read_string(stream@, pos as int) {
                Some((v, next)) => r matches Ok((token, n)) && token@ == v && n == next,
                None => r matches Err(e) && e == StatusCode::BadDecodingError,
            },
    {
        match UAString::decode(stream, pos) {
            Ok((policy_id, next)) => Ok((AnonymousIdentityToken { policy_id }, next)),
            Err(e) => Err(e),
        }
    }

    /// A token that can be written reads back from where it was written.
    pub proof fn lemma_decode_inverts_encode(token: Option<Seq<u8>>, s: Seq<u8>, pos: int)
        requires
            spec_string_encodable(token),
            has_at(s, pos, spec_string_bytes(token)),
        ensures
            spec_read_string(s, pos) == Some((token, pos + spec_string_len(token))),
    {
        lemma_read_string_written(s, pos, token);
    }
}

} // verus!
