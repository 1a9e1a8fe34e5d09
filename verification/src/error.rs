//! Errors of the protocol layers.

use crate::text::dec_text;
use crate::text::push_dec;
use vstd::prelude::*;
use vstd::string::*;

verus! {

/// What can go wrong between two nodes.
#[derive(Debug)]
pub enum TorError {
    Io(String),
    Serialization(String),
    Protocol(String),
    Crypto(String),
    InvalidNodeType(String),
    Circuit(String),
    Stream(String),
    Directory(String),
    ExitPolicy(String),
    Timeout(String),
    InvalidAddress(String),
    PayloadTooLarge { size: usize, max: usize },
    DigestMismatch { circuit_id: u32, stream_id: u16 },
    HandshakeAuthFailed,
    TlsHandshake(String),
    CertificateFingerprintMismatch { expected: String, got: String },
}

impl TorError {
    /// The message shown for the error.
    pub open spec fn text(&self) -> Seq<char> {
        match self {
            TorError::Io(m) => "IO error: "@ + m@,
            TorError::Serialization(m) => "Serialization error: "@ + m@,
            TorError::Protocol(m) => "Protocol error: "@ + m@,
            TorError::Crypto(m) => "Crypto error: "@ + m@,
            TorError::InvalidNodeType(m) => "Invalid node type: "@ + m@,
            TorError::Circuit(m) => "Circuit error: "@ + m@,
            TorError::Stream(m) => "Stream error: "@ + m@,
            TorError::Directory(m) => "Directory error: "@ + m@,
            TorError::ExitPolicy(m) => "Exit policy violation: "@ + m@,
            TorError::Timeout(m) => "Timeout: "@ + m@,
            TorError::InvalidAddress(m) => "Invalid address: "@ + m@,
            TorError::PayloadTooLarge { size, max } => "Payload too large: "@ + dec_text(
                *size as nat,
            ) + " bytes (max "@ + dec_text(*max as nat) + ")"@,
            TorError::DigestMismatch { circuit_id, stream_id } => "Digest mismatch on circuit "@
                + dec_text(*circuit_id as nat) + " stream "@ + dec_text(*stream_id as nat),
            TorError::HandshakeAuthFailed =>
                "ntor handshake AUTH verification failed \u{2014} possible MITM"@,
            TorError::TlsHandshake(m) => "TLS handshake failed: "@ + m@,
            TorError::CertificateFingerprintMismatch { expected, got } =>
                "Certificate fingerprint mismatch: expected "@ + expected@ + ", got "@ + got@,
        }
    }

    /// The message shown for the error.
    pub fn to_string(&self) -> (s: String)
        ensures
            s@ == self.text(),
    {
        match self {
            TorError::Io(m) => prefixed("IO error: ", m),
            TorError::Serialization(m) => prefixed("Serialization error: ", m),
            TorError::Protocol(m) => prefixed("Protocol error: ", m),
            TorError::Crypto(m) => prefixed("Crypto error: ", m),
            TorError::InvalidNodeType(m) => prefixed("Invalid node type: ", m),
            TorError::Circuit(m) => prefixed("Circuit error: ", m),
            TorError::Stream(m) => prefixed("Stream error: ", m),
            TorError::Directory(m) => prefixed("Directory error: ", m),
            TorError::ExitPolicy(m) => prefixed("Exit policy violation: ", m),
            TorError::Timeout(m) => prefixed("Timeout: ", m),
            TorError::InvalidAddress(m) => prefixed("Invalid address: ", m),
            TorError::PayloadTooLarge { size, max } => {
                let mut s = "Payload too large: ".to_owned();
                push_dec(&mut s, *size as u64);
                s.append(" bytes (max ");
                push_dec(&mut s, *max as u64);
                s.append(")");
                s
            },
            TorError::DigestMismatch { circuit_id, stream_id } => {
                let mut s = "Digest mismatch on circuit ".to_owned();
                push_dec(&mut s, *circuit_id as u64);
                s.append(" stream ");
                push_dec(&mut s, *stream_id as u64);
                s
            },
            TorError::HandshakeAuthFailed => {
                "ntor handshake AUTH verification failed \u{2014} possible MITM".to_owned()
            },
            TorError::TlsHandshake(m) => prefixed("TLS handshake failed: ", m),
            TorError::CertificateFingerprintMismatch { expected, got } => {
                let mut s = "Certificate fingerprint mismatch: expected ".to_owned();
                s.append(expected.as_str());
                s.append(", got ");
                s.append(got.as_str());
                s
            },
        }
    }
}

/// `prefix` followed by `rest`.
pub fn prefixed(prefix: &str, rest: &str) -> (s: String)
    ensures
        s@ == prefix@ + rest@,
{
    let mut s = prefix.to_owned();
    s.append(rest);
    s
}

}
