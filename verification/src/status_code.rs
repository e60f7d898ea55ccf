//! The status codes with which the transport ends a connection or answers a request.

use vstd::prelude::*;

verus! {

/// An OPC UA status code, restricted to the codes the transport produces or inspects.
#[derive(Clone, Copy, Debug, PartialEq, Eq, Structural)]
pub enum StatusCode {
    Good,
    BadUnexpectedError,
    BadCommunicationError,
    BadEncodingError,
    BadDecodingError,
    BadTimeout,
    BadServiceUnsupported,
    BadSecurityChecksFailed,
    BadIdentityTokenRejected,
    BadSecureChannelIdInvalid,
    BadSecurityModeRejected,
    BadSecurityPolicyRejected,
    BadTcpMessageTypeInvalid,
    BadTcpMessageTooLarge,
    BadTcpEndpointUrlInvalid,
    BadSecureChannelClosed,
    BadSequenceNumberInvalid,
    BadConnectionClosed,
    BadProtocolVersionUnsupported,
}

impl StatusCode {
    /// The 32-bit value that stands for the code on the wire.
    pub open spec fn spec_bits(self) -> u32 {
        match self {
            StatusCode::Good => 0x0000_0000u32,
            StatusCode::BadUnexpectedError => 0x8001_0000u32,
            StatusCode::BadCommunicationError => 0x8005_0000u32,
            StatusCode::BadEncodingError => 0x8006_0000u32,
            StatusCode::BadDecodingError => 0x8007_0000u32,
            StatusCode::BadTimeout => 0x800A_0000u32,
            StatusCode::BadServiceUnsupported => 0x800B_0000u32,
            StatusCode::BadSecurityChecksFailed => 0x8013_0000u32,
            StatusCode::BadIdentityTokenRejected => 0x8021_0000u32,
            StatusCode::BadSecureChannelIdInvalid => 0x8022_0000u32,
            StatusCode::BadSecurityModeRejected => 0x8054_0000u32,
            StatusCode::BadSecurityPolicyRejected => 0x8055_0000u32,
            StatusCode::BadTcpMessageTypeInvalid => 0x807E_0000u32,
            StatusCode::BadTcpMessageTooLarge => 0x8080_0000u32,
            StatusCode::BadTcpEndpointUrlInvalid => 0x8083_0000u32,
            StatusCode::BadSecureChannelClosed => 0x8086_0000u32,
            StatusCode::BadSequenceNumberInvalid => 0x8088_0000u32,
            StatusCode::BadConnectionClosed => 0x80AE_0000u32,
            StatusCode::BadProtocolVersionUnsupported => 0x80BE_0000u32,
        }
    }

    /// The code that a 32-bit wire value stands for, if it is one the transport knows.
    pub open spec fn spec_from_bits(bits: u32) -> Option<StatusCode> {
        if bits == 0x0000_0000u32 {
            Some(StatusCode::Good)
        } else if bits == 0x8001_0000u32 {
            Some(StatusCode::BadUnexpectedError)
        } else if bits == 0x8005_0000u32 {
            Some(StatusCode::BadCommunicationError)
        } else if bits == 0x8006_0000u32 {
            Some(StatusCode::BadEncodingError)
        } else if bits == 0x8007_0000u32 {
            Some(StatusCode::BadDecodingError)
        } else if bits == 0x800A_0000u32 {
            Some(StatusCode::BadTimeout)
        } else if bits == 0x800B_0000u32 {
            Some(StatusCode::BadServiceUnsupported)
        } else if bits == 0x8013_0000u32 {
            Some(StatusCode::BadSecurityChecksFailed)
        } else if bits == 0x8021_0000u32 {
            Some(StatusCode::BadIdentityTokenRejected)
        } else if bits == 0x8022_0000u32 {
            Some(StatusCode::BadSecureChannelIdInvalid)
        } else if bits == 0x8054_0000u32 {
            Some(StatusCode::BadSecurityModeRejected)
        } else if bits == 0x8055_0000u32 {
            Some(StatusCode::BadSecurityPolicyRejected)
        } else if bits == 0x807E_0000u32 {
            Some(StatusCode::BadTcpMessageTypeInvalid)
        } else if bits == 0x8080_0000u32 {
            Some(StatusCode::BadTcpMessageTooLarge)
        } else if bits == 0x8083_0000u32 {
            Some(StatusCode::BadTcpEndpointUrlInvalid)
        } else if bits == 0x8086_0000u32 {
            Some(StatusCode::BadSecureChannelClosed)
        } else if bits == 0x8088_0000u32 {
            Some(StatusCode::BadSequenceNumberInvalid)
        } else if bits == 0x80AE_0000u32 {
            Some(StatusCode::BadConnectionClosed)
        } else if bits == 0x80BE_0000u32 {
            Some(StatusCode::BadProtocolVersionUnsupported)
        } else {
            None
        }
    }

    /// A code is bad when it is anything but `Good`.
    pub open spec fn spec_is_bad(self) -> bool {
        self != StatusCode::Good
    }

    /// The 32-bit value that stands for the code on the wire.
    #[verifier::when_used_as_spec(spec_bits)]
    pub fn bits(self) -> (r: u32)
        ensures
            r == self.spec_bits(),
    {
        match self {
            StatusCode::Good => 0x0000_0000u32,
            StatusCode::BadUnexpectedError => 0x8001_0000u32,
            StatusCode::BadCommunicationError => 0x8005_0000u32,
            StatusCode::BadEncodingError => 0x8006_0000u32,
            StatusCode::BadDecodingError => 0x8007_0000u32,
            StatusCode::BadTimeout => 0x800A_0000u32,
            StatusCode::BadServiceUnsupported => 0x800B_0000u32,
            StatusCode::BadSecurityChecksFailed => 0x8013_0000u32,
            StatusCode::BadIdentityTokenRejected => 0x8021_0000u32,
            StatusCode::BadSecureChannelIdInvalid => 0x8022_0000u32,
            StatusCode::BadSecurityModeRejected => 0x8054_0000u32,
            StatusCode::BadSecurityPolicyRejected => 0x8055_0000u32,
            StatusCode::BadTcpMessageTypeInvalid => 0x807E_0000u32,
            StatusCode::BadTcpMessageTooLarge => 0x8080_0000u32,
            StatusCode::BadTcpEndpointUrlInvalid => 0x8083_0000u32,
            StatusCode::BadSecureChannelClosed => 0x8086_0000u32,
            StatusCode::BadSequenceNumberInvalid => 0x8088_0000u32,
            StatusCode::BadConnectionClosed => 0x80AE_0000u32,
            StatusCode::BadProtocolVersionUnsupported => 0x80BE_0000u32,
        }
    }

    /// Reads a wire value back; `None` for a value the transport does not know.
    pub fn from_bits(bits: u32) -> (r: Option<StatusCode>)
        ensures
            r == Self::spec_from_bits(bits),
    {
        if bits == 0x0000_0000u32 {
            Some(StatusCode::Good)
        } else if bits == 0x8001_0000u32 {
            Some(StatusCode::BadUnexpectedError)
        } else if bits == 0x8005_0000u32 {
            Some(StatusCode::BadCommunicationError)
        } else if bits == 0x8006_0000u32 {
            Some(StatusCode::BadEncodingError)
        } else if bits == 0x8007_0000u32 {
            Some(StatusCode::BadDecodingError)
        } else if bits == 0x800A_0000u32 {
            Some(StatusCode::BadTimeout)
        } else if bits == 0x800B_0000u32 {
            Some(StatusCode::BadServiceUnsupported)
        } else if bits == 0x8013_0000u32 {
            Some(StatusCode::BadSecurityChecksFailed)
        } else if bits == 0x8021_0000u32 {
            Some(StatusCode::BadIdentityTokenRejected)
        } else if bits == 0x8022_0000u32 {
            Some(StatusCode::BadSecureChannelIdInvalid)
        } else if bits == 0x8054_0000u32 {
            Some(StatusCode::BadSecurityModeRejected)
        } else if bits == 0x8055_0000u32 {
            Some(StatusCode::BadSecurityPolicyRejected)
        } else if bits == 0x807E_0000u32 {
            Some(StatusCode::BadTcpMessageTypeInvalid)
        } else if bits == 0x8080_0000u32 {
            Some(StatusCode::BadTcpMessageTooLarge)
        } else if bits == 0x8083_0000u32 {
            Some(StatusCode::BadTcpEndpointUrlInvalid)
        } else if bits == 0x8086_0000u32 {
            Some(StatusCode::BadSecureChannelClosed)
        } else if bits == 0x8088_0000u32 {
            Some(StatusCode::BadSequenceNumberInvalid)
        } else if bits == 0x80AE_0000u32 {
            Some(StatusCode::BadConnectionClosed)
        } else if bits == 0x80BE_0000u32 {
            Some(StatusCode::BadProtocolVersionUnsupported)
        } else {
            None
        }
    }

    /// True for every code but `Good`.
    #[verifier::when_used_as_spec(spec_is_bad)]
    pub fn is_bad(self) -> (r: bool)
        ensures
            r == self.spec_is_bad(),
    {
        !self.is_good()
    }

    /// True for `Good`.
    pub fn is_good(self) -> (r: bool)
        ensures
            r == (self == StatusCode::Good),
    {
        match self {
            StatusCode::Good => true,
            _ => false,
        }
    }

    /// Reading back the wire value of a code gives the code.
    pub proof fn lemma_bits_round_trip(self)
        ensures
            Self::spec_from_bits(self.spec_bits()) == Some(self),
    {
    }
}

} // verus!
