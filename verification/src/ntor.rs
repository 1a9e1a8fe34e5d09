//! The ntor handshake: a client and a relay agree on a session key, and the client learns that
//! the relay knows the secret half of its published key.

use crate::bytes::array16_at;
use crate::bytes::push_bytes;
use crate::bytes::same_bytes;
use crate::crypto::hmac_sha256;
use crate::crypto::hmac_sha256_tag;
use crate::crypto::is_key_pair;
use crate::crypto::public_of;
use crate::crypto::random_secret;
use crate::crypto::raw_dh_static;
use crate::crypto::x25519_public;
use crate::crypto::x25519_shared;
use crate::crypto::SessionKey;
use crate::crypto::SessionKeyView;
use crate::error::TorError;
use crate::types::PublicKey;
use vstd::prelude::*;
use vstd::utf8::*;

verus! {

/// The name of the protocol, as bytes.
pub open spec fn protoid() -> Seq<u8> {
    encode_utf8("ntor-curve25519-sha256-1"@)
}

/// The name of the protocol followed by a purpose.
pub open spec fn tweak(purpose: Seq<char>) -> Seq<u8> {
    protoid() + encode_utf8(purpose)
}

fn tweak_bytes(purpose: &str) -> (r: Vec<u8>)
    ensures
        r@ == tweak(purpose@),
{
    let mut r: Vec<u8> = Vec::new();
    push_bytes(&mut r, "ntor-curve25519-sha256-1".as_bytes());
    push_bytes(&mut r, purpose.as_bytes());
    proof {
        assert(r@ =~= tweak(purpose@));
    }
    r
}

fn t_key() -> (r: Vec<u8>)
    ensures
        r@ == tweak(":key_extract"@),
{
    tweak_bytes(":key_extract")
}

fn t_verify() -> (r: Vec<u8>)
    ensures
        r@ == tweak(":verify"@),
{
    tweak_bytes(":verify")
}

fn t_mac() -> (r: Vec<u8>)
    ensures
        r@ == tweak(":mac"@),
{
    tweak_bytes(":mac")
}

fn m_expand() -> (r: Vec<u8>)
    ensures
        r@ == tweak(":key_expand"@),
{
    tweak_bytes(":key_expand")
}

/// What both sides feed into the key derivation: the two shared secrets, the relay's public key,
/// the client's and the relay's ephemeral public keys, and the name of the protocol.
pub open spec fn secret_input(
    exp1: Seq<u8>,
    exp2: Seq<u8>,
    server_static_pub: Seq<u8>,
    client_pub: Seq<u8>,
    server_pub: Seq<u8>,
) -> Seq<u8> {
    exp1 + exp2 + server_static_pub + client_pub + server_pub + protoid()
}

/// What the authentication tag covers.
pub open spec fn auth_input(
    verify: Seq<u8>,
    server_static_pub: Seq<u8>,
    server_pub: Seq<u8>,
    client_pub: Seq<u8>,
) -> Seq<u8> {
    verify + server_static_pub + server_pub + client_pub + protoid() + encode_utf8("Server"@)
}

/// The authentication tag of a handshake with this secret input.
pub open spec fn auth_tag(
    input: Seq<u8>,
    server_static_pub: Seq<u8>,
    server_pub: Seq<u8>,
    client_pub: Seq<u8>,
) -> Seq<u8> {
    hmac_sha256_tag(
        tweak(":mac"@),
        auth_input(
            hmac_sha256_tag(tweak(":verify"@), input),
            server_static_pub,
            server_pub,
            client_pub,
        ),
    )
}

/// The session key that a key seed expands to.
pub open spec fn expanded(key_seed: Seq<u8>) -> SessionKeyView {
    SessionKeyView::split(hmac_sha256_tag(tweak(":key_expand"@), key_seed))
}

/// The session key of a handshake with this secret input.
pub open spec fn session_key(input: Seq<u8>) -> SessionKeyView {
    expanded(hmac_sha256_tag(tweak(":key_extract"@), input))
}

/// The secret input as the relay computes it.
pub open spec fn server_input(
    server_secret: Seq<u8>,
    static_secret: Seq<u8>,
    static_pub: Seq<u8>,
    client_pub: Seq<u8>,
) -> Seq<u8> {
    secret_input(
        x25519_shared(server_secret, client_pub),
        x25519_shared(static_secret, client_pub),
        static_pub,
        client_pub,
        x25519_public(server_secret),
    )
}

/// The secret input as the client computes it.
pub open spec fn client_input(
    client_secret: Seq<u8>,
    client_pub: Seq<u8>,
    static_pub: Seq<u8>,
    server_pub: Seq<u8>,
) -> Seq<u8> {
    secret_input(
        x25519_shared(client_secret, server_pub),
        x25519_shared(client_secret, static_pub),
        static_pub,
        client_pub,
        server_pub,
    )
}

/// What the relay answers: its ephemeral public key, the authentication tag, and the session key
/// that it keeps.
pub open spec fn server_outcome(
    server_secret: Seq<u8>,
    static_secret: Seq<u8>,
    static_pub: Seq<u8>,
    client_pub: Seq<u8>,
) -> (Seq<u8>, Seq<u8>, SessionKeyView) {
    let input = server_input(server_secret, static_secret, static_pub, client_pub);
    let server_pub = x25519_public(server_secret);
    (server_pub, auth_tag(input, static_pub, server_pub, client_pub), session_key(input))
}

/// What the client makes of the answer: the session key, if the tag is right.
pub open spec fn client_outcome(
    client_secret: Seq<u8>,
    client_pub: Seq<u8>,
    static_pub: Seq<u8>,
    server_pub: Seq<u8>,
    auth: Seq<u8>,
) -> Option<SessionKeyView> {
    let input = client_input(client_secret, client_pub, static_pub, server_pub);
    if auth == auth_tag(input, static_pub, server_pub, client_pub) {
        Some(session_key(input))
    } else {
        None
    }
}

/// Builds the secret input.
fn build_secret_input(
    exp1: &[u8; 32],
    exp2: &[u8; 32],
    server_static_pub: &[u8; 32],
    client_ephemeral_pub: &[u8; 32],
    server_ephemeral_pub: &[u8; 32],
) -> (r: Vec<u8>)
    ensures
        r@ == secret_input(
            exp1@,
            exp2@,
            server_static_pub@,
            client_ephemeral_pub@,
            server_ephemeral_pub@,
        ),
{
    let mut r: Vec<u8> = Vec::new();
    push_bytes(&mut r, exp1.as_slice());
    push_bytes(&mut r, exp2.as_slice());
    push_bytes(&mut r, server_static_pub.as_slice());
    push_bytes(&mut r, client_ephemeral_pub.as_slice());
    push_bytes(&mut r, server_ephemeral_pub.as_slice());
    push_bytes(&mut r, "ntor-curve25519-sha256-1".as_bytes());
    proof {
        assert(r@ =~= secret_input(
            exp1@,
            exp2@,
            server_static_pub@,
            client_ephemeral_pub@,
            server_ephemeral_pub@,
        ));
    }
    r
}

/// Computes the authentication tag.
fn build_auth(
    input: &[u8],
    server_static_pub: &[u8; 32],
    server_ephemeral_pub: &[u8; 32],
    client_ephemeral_pub: &[u8; 32],
) -> (r: [u8; 32])
    ensures
        r@ == auth_tag(
            input@,
            server_static_pub@,
            server_ephemeral_pub@,
            client_ephemeral_pub@,
        ),
{
    let verify = hmac_sha256(t_verify().as_slice(), input);
    let mut covered: Vec<u8> = Vec::new();
    push_bytes(&mut covered, verify.as_slice());
    push_bytes(&mut covered, server_static_pub.as_slice());
    push_bytes(&mut covered, server_ephemeral_pub.as_slice());
    push_bytes(&mut covered, client_ephemeral_pub.as_slice());
    push_bytes(&mut covered, "ntor-curve25519-sha256-1".as_bytes());
    push_bytes(&mut covered, "Server".as_bytes());
    proof {
        assert(covered@ =~= auth_input(
            verify@,
            server_static_pub@,
            server_ephemeral_pub@,
            client_ephemeral_pub@,
        ));
    }
    hmac_sha256(t_mac().as_slice(), covered.as_slice())
}

/// Expands a key seed to a session key.
fn expand_key_seed(key_seed: &[u8; 32]) -> (r: SessionKey)
    ensures
        r@ == expanded(key_seed@),
{
    let material = hmac_sha256(m_expand().as_slice(), key_seed.as_slice());
    SessionKey::new(array16_at(material.as_slice(), 0), array16_at(material.as_slice(), 16))
}

/// The relay's side of the handshake, with the given ephemeral secret.
pub fn ntor_server_with(
    server_ephemeral_secret: &[u8; 32],
    static_secret: &[u8; 32],
    static_public: &[u8; 32],
    client_ephemeral_pub: &[u8; 32],
) -> (r: ([u8; 32], [u8; 32], SessionKey))
    ensures
        (r.0@, r.1@, r.2@) == server_outcome(
            server_ephemeral_secret@,
            static_secret@,
            static_public@,
            client_ephemeral_pub@,
        ),
        is_key_pair(server_ephemeral_secret@, r.0@),
{
    let server_pub = public_of(server_ephemeral_secret);
    let exp1 = raw_dh_static(server_ephemeral_secret, client_ephemeral_pub);
    let exp2 = raw_dh_static(static_secret, client_ephemeral_pub);
    let input = build_secret_input(
        &exp1,
        &exp2,
        static_public,
        client_ephemeral_pub,
        &server_pub,
    );
    let key_seed = hmac_sha256(t_key().as_slice(), input.as_slice());
    let auth = build_auth(input.as_slice(), static_public, &server_pub, client_ephemeral_pub);
    (server_pub, auth, expand_key_seed(&key_seed))
}

/// The relay's side of the handshake: its ephemeral public key, the authentication tag and the
/// session key, from a random ephemeral secret.
pub fn ntor_server(
    static_secret: &[u8; 32],
    static_public: &[u8; 32],
    client_ephemeral_pub: &[u8; 32],
) -> (r: ([u8; 32], [u8; 32], SessionKey))
    ensures
        exists|y: Seq<u8>|
            is_key_pair(y, r.0@) && (r.0@, r.1@, r.2@) == #[trigger] server_outcome(
                y,
                static_secret@,
                static_public@,
                client_ephemeral_pub@,
            ),
{
    let secret = random_secret();
    ntor_server_with(&secret, static_secret, static_public, client_ephemeral_pub)
}

/// The client's side of the handshake: the session key, if the relay's tag is right.
pub fn ntor_client_finish_raw(
    client_ephemeral_secret_bytes: &[u8; 32],
    client_ephemeral_pub: &[u8; 32],
    server_static_pub: &[u8; 32],
    server_ephemeral_pub: &[u8; 32],
    auth: &[u8; 32],
) -> (r: Result<SessionKey, TorError>)
    ensures
        match r {
            Ok(key) => client_outcome(
                client_ephemeral_secret_bytes@,
                client_ephemeral_pub@,
                server_static_pub@,
                server_ephemeral_pub@,
                auth@,
            ) == Some(key@),
            Err(e) => e is HandshakeAuthFailed && client_outcome(
                client_ephemeral_secret_bytes@,
                client_ephemeral_pub@,
                server_static_pub@,
                server_ephemeral_pub@,
                auth@,
            ) is None,
        },
{
    let exp1 = raw_dh_static(client_ephemeral_secret_bytes, server_ephemeral_pub);
    let exp2 = raw_dh_static(client_ephemeral_secret_bytes, server_static_pub);
    let input = build_secret_input(
        &exp1,
        &exp2,
        server_static_pub,
        client_ephemeral_pub,
        server_ephemeral_pub,
    );
    let key_seed = hmac_sha256(t_key().as_slice(), input.as_slice());
    let expected = build_auth(
        input.as_slice(),
        server_static_pub,
        server_ephemeral_pub,
        client_ephemeral_pub,
    );
    if !same_bytes(auth.as_slice(), expected.as_slice()) {
        return Err(TorError::HandshakeAuthFailed);
    }
    Ok(expand_key_seed(&key_seed))
}

/// A key exchange between a client and a relay.
pub trait NtorHandshaker {
    /// The relay's side: its ephemeral public key, the authentication tag and the session key.
    fn server_handshake(
        &self,
        static_secret: &[u8; 32],
        static_public: &[u8; 32],
        client_ephemeral_pub: &[u8; 32],
    ) -> ([u8; 32], [u8; 32], SessionKey);

    /// The client's side: the session key, if the relay's answer holds.
    fn client_handshake(
        &self,
        client_ephemeral_secret_bytes: &[u8; 32],
        client_ephemeral_pub: &[u8; 32],
        server_static_pub: &[u8; 32],
        server_ephemeral_pub: &[u8; 32],
        auth: &[u8; 32],
    ) -> Result<SessionKey, TorError>;
}

/// The ntor handshake.
pub struct TorNtorHandshaker;

impl NtorHandshaker for TorNtorHandshaker {
    fn server_handshake(
        &self,
        static_secret: &[u8; 32],
        static_public: &[u8; 32],
        client_ephemeral_pub: &[u8; 32],
    ) -> (r: ([u8; 32], [u8; 32], SessionKey))
        ensures
            exists|y: Seq<u8>|
                is_key_pair(y, r.0@) && (r.0@, r.1@, r.2@) == #[trigger] server_outcome(
                    y,
                    static_secret@,
                    static_public@,
                    client_ephemeral_pub@,
                ),
    {
        ntor_server(static_secret, static_public, client_ephemeral_pub)
    }

    fn client_handshake(
        &self,
        client_ephemeral_secret_bytes: &[u8; 32],
        client_ephemeral_pub: &[u8; 32],
        server_static_pub: &[u8; 32],
        server_ephemeral_pub: &[u8; 32],
        auth: &[u8; 32],
    ) -> (r: Result<SessionKey, TorError>)
        ensures
            match r {
                Ok(key) => client_outcome(
                    client_ephemeral_secret_bytes@,
                    client_ephemeral_pub@,
                    server_static_pub@,
                    server_ephemeral_pub@,
                    auth@,
                ) == Some(key@),
                Err(e) => e is HandshakeAuthFailed && client_outcome(
                    client_ephemeral_secret_bytes@,
                    client_ephemeral_pub@,
                    server_static_pub@,
                    server_ephemeral_pub@,
                    auth@,
                ) is None,
            },
    {
        ntor_client_finish_raw(
            client_ephemeral_secret_bytes,
            client_ephemeral_pub,
            server_static_pub,
            server_ephemeral_pub,
            auth,
        )
    }
}

/// The client's key pair for one handshake.
pub struct NtorEphemeralKeyPair {
    pub public: PublicKey,
    secret_bytes: [u8; 32],
}

impl NtorEphemeralKeyPair {
    /// The secret half.
    pub closed spec fn secret_key(&self) -> Seq<u8> {
        self.secret_bytes@
    }

    /// The public half.
    pub closed spec fn public_key(&self) -> Seq<u8> {
        self.public@
    }

    /// The two halves belong together.
    pub open spec fn wf(&self) -> bool {
        is_key_pair(self.secret_key(), self.public_key())
    }

    /// The key pair of a secret key.
    pub fn from_secret(secret_bytes: [u8; 32]) -> (r: Self)
        ensures
            r.wf(),
            r.secret_key() == secret_bytes@,
    {
        let public = PublicKey { bytes: public_of(&secret_bytes) };
        Self { public, secret_bytes }
    }

    /// A random key pair.
    pub fn generate() -> (r: Self)
        ensures
            r.wf(),
    {
        Self::from_secret(random_secret())
    }

    /// The public half.
    pub fn public_bytes(&self) -> (r: &[u8; 32])
        ensures
            r@ == self.public_key(),
    {
        &self.public.bytes
    }

    /// The secret half.
    pub fn secret_bytes(&self) -> (r: &[u8; 32])
        ensures
            r@ == self.secret_key(),
    {
        &self.secret_bytes
    }
}

/// Client and relay agree: whatever secrets they drew, the client accepts the relay's answer and
/// both hold the same session key.
pub proof fn ntor_sides_agree(
    client_secret: Seq<u8>,
    client_pub: Seq<u8>,
    static_secret: Seq<u8>,
    static_pub: Seq<u8>,
    server_secret: Seq<u8>,
    server_pub: Seq<u8>,
)
    requires
        is_key_pair(client_secret, client_pub),
        is_key_pair(static_secret, static_pub),
        is_key_pair(server_secret, server_pub),
    ensures
        ({
            let (sent_pub, auth, key) = server_outcome(
                server_secret,
                static_secret,
                static_pub,
                client_pub,
            );
            &&& sent_pub == server_pub
            &&& client_outcome(client_secret, client_pub, static_pub, server_pub, auth) == Some(key)
        }),
{
    assert(x25519_shared(client_secret, server_pub) == x25519_shared(
        server_secret,
        x25519_public(client_secret),
    ));
    assert(x25519_shared(client_secret, static_pub) == x25519_shared(
        static_secret,
        x25519_public(client_secret),
    ));
}

/// The client accepts one tag and no other.
pub proof fn ntor_client_accepts_one_tag(
    client_secret: Seq<u8>,
    client_pub: Seq<u8>,
    static_pub: Seq<u8>,
    server_pub: Seq<u8>,
    auth: Seq<u8>,
    tampered: Seq<u8>,
)
    requires
        client_outcome(client_secret, client_pub, static_pub, server_pub, auth) is Some,
        tampered != auth,
    ensures
        client_outcome(client_secret, client_pub, static_pub, server_pub, tampered) is None,
{
}

/// The key derivation takes in every part of the exchange, and so does what the authentication tag
/// covers: where any of the shared secrets or public keys differs, so does the input.
pub proof fn inputs_cover_the_whole_exchange(
    exp1: Seq<u8>,
    exp2: Seq<u8>,
    static_pub: Seq<u8>,
    client_pub: Seq<u8>,
    server_pub: Seq<u8>,
    other_exp1: Seq<u8>,
    other_exp2: Seq<u8>,
    other_static_pub: Seq<u8>,
    other_client_pub: Seq<u8>,
    other_server_pub: Seq<u8>,
)
    requires
        exp1.len() == 32 && other_exp1.len() == 32,
        exp2.len() == 32 && other_exp2.len() == 32,
        static_pub.len() == 32 && other_static_pub.len() == 32,
        client_pub.len() == 32 && other_client_pub.len() == 32,
        server_pub.len() == 32 && other_server_pub.len() == 32,
    ensures
        secret_input(exp1, exp2, static_pub, client_pub, server_pub) == secret_input(
            other_exp1,
            other_exp2,
            other_static_pub,
            other_client_pub,
            other_server_pub,
        ) ==> exp1 == other_exp1 && exp2 == other_exp2 && static_pub == other_static_pub
            && client_pub == other_client_pub && server_pub == other_server_pub,
        auth_input(exp1, static_pub, server_pub, client_pub) == auth_input(
            other_exp1,
            other_static_pub,
            other_server_pub,
            other_client_pub,
        ) ==> exp1 == other_exp1 && static_pub == other_static_pub && client_pub
            == other_client_pub && server_pub == other_server_pub,
{
    let a = secret_input(exp1, exp2, static_pub, client_pub, server_pub);
    let b = secret_input(
        other_exp1,
        other_exp2,
        other_static_pub,
        other_client_pub,
        other_server_pub,
    );
    assert(a.subrange(0, 32) =~= exp1 && b.subrange(0, 32) =~= other_exp1);
    assert(a.subrange(32, 64) =~= exp2 && b.subrange(32, 64) =~= other_exp2);
    assert(a.subrange(64, 96) =~= static_pub && b.subrange(64, 96) =~= other_static_pub);
    assert(a.subrange(96, 128) =~= client_pub && b.subrange(96, 128) =~= other_client_pub);
    assert(a.subrange(128, 160) =~= server_pub && b.subrange(128, 160) =~= other_server_pub);
    let c = auth_input(exp1, static_pub, server_pub, client_pub);
    let d = auth_input(other_exp1, other_static_pub, other_server_pub, other_client_pub);
    assert(c.subrange(0, 32) =~= exp1 && d.subrange(0, 32) =~= other_exp1);
    assert(c.subrange(32, 64) =~= static_pub && d.subrange(32, 64) =~= other_static_pub);
    assert(c.subrange(64, 96) =~= server_pub && d.subrange(64, 96) =~= other_server_pub);
    assert(c.subrange(96, 128) =~= client_pub && d.subrange(96, 128) =~= other_client_pub);
}

/// The exchange step by step, as the handshake defines it. With `B` the relay's public key, `X` and
/// `Y` the ephemeral public keys of client and relay, and `P` the name of the protocol: both sides
/// hash the two shared secrets, `B`, `X`, `Y` and `P` three times over, under a name of its own each
/// time. One hash is the seed of the session key, which is expanded under yet another name and cut in
/// half. The other goes in front of `B`, `Y`, `X`, `P` and the word for the relay's role into the tag.
pub proof fn the_exchange_step_by_step(
    server_secret: Seq<u8>,
    static_secret: Seq<u8>,
    static_pub: Seq<u8>,
    client_secret: Seq<u8>,
    client_pub: Seq<u8>,
    auth: Seq<u8>,
)
    ensures
        ({
            let p = encode_utf8("ntor-curve25519-sha256-1"@);
            let server_pub = x25519_public(server_secret);
            let secrets = x25519_shared(server_secret, client_pub) + x25519_shared(
                static_secret,
                client_pub,
            ) + static_pub + client_pub + server_pub + p;
            let seed = hmac_sha256_tag(p + encode_utf8(":key_extract"@), secrets);
            let verify = hmac_sha256_tag(p + encode_utf8(":verify"@), secrets);
            let keys = hmac_sha256_tag(p + encode_utf8(":key_expand"@), seed);
            let tag = hmac_sha256_tag(
                p + encode_utf8(":mac"@),
                verify + static_pub + server_pub + client_pub + p + encode_utf8("Server"@),
            );
            server_outcome(server_secret, static_secret, static_pub, client_pub) == (
                server_pub,
                tag,
                SessionKeyView { forward: keys.subrange(0, 16), backward: keys.subrange(16, 32) },
            )
        }),
        ({
            let p = encode_utf8("ntor-curve25519-sha256-1"@);
            let server_pub = x25519_public(server_secret);
            let secrets = x25519_shared(client_secret, server_pub) + x25519_shared(
                client_secret,
                static_pub,
            ) + static_pub + client_pub + server_pub + p;
            let seed = hmac_sha256_tag(p + encode_utf8(":key_extract"@), secrets);
            let verify = hmac_sha256_tag(p + encode_utf8(":verify"@), secrets);
            let keys = hmac_sha256_tag(p + encode_utf8(":key_expand"@), seed);
            let tag = hmac_sha256_tag(
                p + encode_utf8(":mac"@),
                verify + static_pub + server_pub + client_pub + p + encode_utf8("Server"@),
            );
            client_outcome(client_secret, client_pub, static_pub, server_pub, auth) == if auth
                == tag {
                Some(
                    SessionKeyView {
                        forward: keys.subrange(0, 16),
                        backward: keys.subrange(16, 32),
                    },
                )
            } else {
                None
            }
        }),
{
}

}
