//! The long-term key pair of a relay node.

use crate::crypto::is_key_pair;
use crate::crypto::public_of;
use crate::crypto::random_secret;
use crate::crypto::raw_dh_static;
use crate::crypto::sha256;
use crate::crypto::sha256_hash;
use crate::crypto::x25519_shared;
use crate::crypto::SessionKey;
use crate::ntor::ntor_server;
use crate::ntor::server_outcome;
use crate::types::PublicKey;
use vstd::prelude::*;

verus! {

/// The X25519 key pair of a relay node.
#[derive(Debug)]
pub struct KeyPair {
    pub public: PublicKey,
    secret_bytes: [u8; 32],
}

impl KeyPair {
    /// The secret half.
    pub closed spec fn secret_part(&self) -> Seq<u8> {
        self.secret_bytes@
    }

    /// The public half.
    pub closed spec fn public_part(&self) -> Seq<u8> {
        self.public@
    }

    /// The two halves belong together.
    pub open spec fn wf(&self) -> bool {
        is_key_pair(self.secret_part(), self.public_part())
    }

    /// A random key pair.
    pub fn generate() -> (r: Self)
        ensures
            r.wf(),
    {
        Self::from_secret_bytes(random_secret())
    }

    /// The key pair of a secret key.
    pub fn from_secret_bytes(bytes: [u8; 32]) -> (r: Self)
        ensures
            r.wf(),
            r.secret_part() == bytes@,
    {
        let public = PublicKey { bytes: public_of(&bytes) };
        Self { public, secret_bytes: bytes }
    }

    /// The public half, which may be shared.
    pub fn public_key(&self) -> (r: &PublicKey)
        ensures
            r@ == self.public_part(),
    {
        &self.public
    }

    /// The SHA-256 hash of the secret shared with the owner of `their_public`.
    pub fn diffie_hellman(&self, their_public: &[u8; 32]) -> (r: [u8; 32])
        ensures
            r@ == sha256_hash(x25519_shared(self.secret_part(), their_public@)),
    {
        let shared = raw_dh_static(&self.secret_bytes, their_public);
        sha256(shared.as_slice())
    }

    /// The relay's side of the ntor handshake: its ephemeral public key, the authentication tag
    /// and the session key.
    pub fn ntor_server_handshake(&self, client_ephemeral_pub: &[u8; 32]) -> (r: (
        [u8; 32],
        [u8; 32],
        SessionKey,
    ))
        ensures
            exists|y: Seq<u8>|
                is_key_pair(y, r.0@) && (r.0@, r.1@, r.2@) == #[trigger] server_outcome(
                    y,
                    self.secret_part(),
                    self.public_part(),
                    client_ephemeral_pub@,
                ),
    {
        let r = ntor_server(&self.secret_bytes, &self.public.bytes, client_ephemeral_pub);
        proof {
            let y = choose|y: Seq<u8>|
                is_key_pair(y, r.0@) && (r.0@, r.1@, r.2@) == #[trigger] server_outcome(
                    y,
                    self.secret_bytes@,
                    self.public.bytes@,
                    client_ephemeral_pub@,
                );
            assert(server_outcome(
                y,
                self.secret_part(),
                self.public_part(),
                client_ephemeral_pub@,
            ) == (r.0@, r.1@, r.2@));
        }
        r
    }
}

impl Clone for KeyPair {
    fn clone(&self) -> (r: Self)
        ensures
            r.secret_part() == self.secret_part(),
            r.public_part() == self.public_part(),
    {
        Self { public: self.public, secret_bytes: self.secret_bytes }
    }
}

}
