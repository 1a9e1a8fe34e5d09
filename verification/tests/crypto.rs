use hmac::Mac;
use mini_tor::crypto::{
    aes_decrypt, aes_encrypt, aes_encrypt_with, derive_session_key, sha256, CipherPair,
    EphemeralKeyPair, RunningDigest, SessionKey, StatefulCipher,
};
use mini_tor::error::TorError;
use mini_tor::ntor::{
    ntor_client_finish_raw, ntor_server, ntor_server_with, NtorEphemeralKeyPair, NtorHandshaker,
    TorNtorHandshaker,
};
use rand::TryRngCore;
use sha2::Digest;
use tor_llcrypto::pk::curve25519::{PublicKey as X25519PublicKey, StaticSecret};

fn from_hex(text: &str) -> Vec<u8> {
    (0..text.len() / 2)
        .map(|i| u8::from_str_radix(&text[2 * i..2 * i + 2], 16).unwrap())
        .collect()
}

fn array32(text: &str) -> [u8; 32] {
    from_hex(text).try_into().unwrap()
}

fn array16(text: &str) -> [u8; 16] {
    from_hex(text).try_into().unwrap()
}

/// A relay's static key pair, as the X25519 crate draws it.
fn relay_identity() -> ([u8; 32], [u8; 32]) {
    let secret = StaticSecret::random_from_rng(rand::rngs::OsRng.unwrap_err());
    let public = X25519PublicKey::from(&secret);
    (secret.to_bytes(), public.to_bytes())
}

#[test]
fn test_session_key_creation() {
    let forward = [1u8; 16];
    let backward = [2u8; 16];

    let key = SessionKey::new(forward, backward);

    assert_eq!(key.forward, forward);
    assert_eq!(key.backward, backward);
}

#[test]
fn test_session_key_from_shared() {
    let shared = [0xAB; 32];
    let key = SessionKey::from_shared(&shared);

    assert_eq!(&key.forward, &shared[0..16]);
    assert_eq!(&key.backward, &shared[16..32]);
}

#[test]
fn test_session_key_to_from_bytes() {
    let key = SessionKey::new([1u8; 16], [2u8; 16]);
    let bytes = key.to_bytes();
    let key2 = SessionKey::from_bytes(&bytes);

    assert_eq!(key, key2);
}

#[test]
fn test_session_key_zero() {
    let key = SessionKey::zero();
    assert_eq!(key.forward, [0u8; 16]);
    assert_eq!(key.backward, [0u8; 16]);
}

#[test]
fn test_session_key_default() {
    let key = SessionKey::default();
    assert_eq!(key, SessionKey::zero());
}

#[test]
fn session_key_halves_keep_their_order() {
    let mut bytes = [0u8; 32];
    for (i, b) in bytes.iter_mut().enumerate() {
        *b = i as u8;
    }
    let key = SessionKey::from_bytes(&bytes);
    assert_eq!(key.forward[0], 0);
    assert_eq!(key.forward[15], 15);
    assert_eq!(key.backward[0], 16);
    assert_eq!(key.backward[15], 31);
    assert_eq!(key.to_bytes(), bytes);
}

#[test]
fn test_aes_encrypt_decrypt() {
    let key = [
        0x2b, 0x7e, 0x15, 0x16, 0x28, 0xae, 0xd2, 0xa6, 0xab, 0xf7, 0x15, 0x88, 0x09, 0xcf, 0x4f,
        0x3c,
    ];
    let plaintext = b"Hello, World!";

    let ciphertext = aes_encrypt(plaintext, &key);
    assert_ne!(ciphertext, plaintext);

    let decrypted = aes_decrypt(&ciphertext, &key).unwrap();
    assert_eq!(decrypted, plaintext);
}

#[test]
fn test_aes_ctr_symmetry() {
    let key = [42u8; 16];
    let data = b"This is a test message for AES-128 CTR mode";

    let encrypted = aes_encrypt(data, &key);
    let decrypted = aes_decrypt(&encrypted, &key).unwrap();

    assert_eq!(&decrypted, data);
}

#[test]
fn aes_ctr_known_answer() {
    let key = array16("2b7e151628aed2a6abf7158809cf4f3c");
    let iv = array16("f0f1f2f3f4f5f6f7f8f9fafbfcfdfeff");
    let plain = from_hex("6bc1bee22e409f96e93d7e117393172aae2d8a571e03ac9c9eb76fac45af8e51");
    let sealed = aes_encrypt_with(&plain, &key, &iv);
    assert_eq!(&sealed[..16], &iv);
    assert_eq!(
        &sealed[16..],
        &from_hex("874d6191b620e3261bef6864990db6ce9806f66b7970fdff8617187bb9fffdff")[..]
    );
    assert_eq!(aes_decrypt(&sealed, &key).unwrap(), plain);
}

#[test]
fn aes_decrypt_refuses_short_data() {
    let key = [7u8; 16];
    assert_eq!(
        aes_decrypt(&[0u8; 15], &key).unwrap_err(),
        "Invalid ciphertext: length 15 is too short (min 16)"
    );
    assert_eq!(aes_decrypt(&[0u8; 16], &key).unwrap(), Vec::<u8>::new());
}

#[test]
fn aes_encrypt_draws_a_new_block_each_time() {
    let key = [3u8; 16];
    let first = aes_encrypt(b"same text", &key);
    let second = aes_encrypt(b"same text", &key);
    assert_eq!(first.len(), 25);
    assert_ne!(first[..16], second[..16]);
}

#[test]
fn test_derive_session_key() {
    let shared_secret = [0xAB; 32];
    let session_key = derive_session_key(&shared_secret);

    assert_eq!(
        session_key.forward,
        SessionKey::from_shared(&shared_secret).forward
    );
    assert_eq!(
        session_key.backward,
        SessionKey::from_shared(&shared_secret).backward
    );
}

#[test]
fn test_sha256() {
    let data = b"test data";
    let hash1 = sha256(data);
    let hash2 = sha256(data);

    assert_eq!(hash1, hash2);

    let hash3 = sha256(b"different data");
    assert_ne!(hash1, hash3);
}

#[test]
fn sha256_known_answer() {
    assert_eq!(
        sha256(b"abc"),
        array32("ba7816bf8f01cfea414140de5dae2223b00361a396177a9cb410ff61f20015ad")
    );
    assert_eq!(
        sha256(b""),
        array32("e3b0c44298fc1c149afbf4c8996fb92427ae41e4649b934ca495991b7852b855")
    );
}

#[test]
fn test_cipher_pair_roundtrip() {
    let key = SessionKey::new([0xAA; 16], [0xBB; 16]);
    let mut encryptor = CipherPair::new(&key);
    let mut decryptor = CipherPair::new(&key);

    let plaintext = b"Hello stateful AES-CTR!";
    let mut buf = plaintext.to_vec();

    encryptor.apply_forward(&mut buf);
    assert_ne!(buf, plaintext);

    decryptor.apply_forward(&mut buf);
    assert_eq!(buf, plaintext);
}

#[test]
fn test_cipher_pair_stateful_continuity() {
    let key = SessionKey::new([0x42; 16], [0x99; 16]);
    let mut cipher = CipherPair::new(&key);

    let mut buf1 = vec![0u8; 16];
    let mut buf2 = vec![0u8; 16];

    cipher.apply_forward(&mut buf1);
    cipher.apply_forward(&mut buf2);

    assert_ne!(buf1, buf2);
}

#[test]
fn test_cipher_pair_zero_overhead() {
    let key = SessionKey::new([1u8; 16], [2u8; 16]);
    let mut cipher = CipherPair::new(&key);

    let data = b"exact same size";
    let mut buf = data.to_vec();
    let original_len = buf.len();

    cipher.apply_forward(&mut buf);

    assert_eq!(buf.len(), original_len);
}

#[test]
fn test_cipher_pair_backward_direction() {
    let key = SessionKey::new([0xAA; 16], [0xBB; 16]);
    let mut encryptor = CipherPair::new(&key);
    let mut decryptor = CipherPair::new(&key);

    let plaintext = b"backward direction test";
    let mut buf = plaintext.to_vec();

    encryptor.apply_backward(&mut buf);
    assert_ne!(buf, plaintext);

    decryptor.apply_backward(&mut buf);
    assert_eq!(buf, plaintext);
}

#[test]
fn cipher_pair_pieces_join_to_the_whole() {
    let key = SessionKey::new([0x11; 16], [0x22; 16]);
    let data: Vec<u8> = (0..100u8).collect();

    let mut whole = data.clone();
    CipherPair::new(&key).apply_forward(&mut whole);

    let mut cipher = CipherPair::new(&key);
    let mut pieces = Vec::new();
    for piece in data.chunks(7) {
        let mut buf = piece.to_vec();
        StatefulCipher::apply_forward(&mut cipher, &mut buf);
        pieces.extend(buf);
    }
    assert_eq!(whole, pieces);

    let mut sealed = vec![0u8; 16];
    sealed.extend(&data);
    assert_eq!(aes_decrypt(&sealed, &[0x11; 16]).unwrap(), whole);
}

#[test]
fn cipher_pair_directions_have_their_own_keys() {
    let key = SessionKey::new([0x11; 16], [0x22; 16]);
    let mut cipher = CipherPair::new(&key);
    let mut forward = vec![0u8; 40];
    let mut backward = vec![0u8; 40];
    cipher.apply_forward(&mut forward);
    StatefulCipher::apply_backward(&mut cipher, &mut backward);
    assert_ne!(forward, backward);

    let mut sealed = vec![0u8; 16];
    sealed.extend(vec![0u8; 40]);
    assert_eq!(aes_decrypt(&sealed, &[0x22; 16]).unwrap(), backward);
    assert!(cipher.has_room(1 << 40));
}

#[test]
fn test_running_digest_update_returns_4_bytes() {
    let mut digest = RunningDigest::new();
    let tag = digest.update(1, 0x12, b"hello");
    assert_eq!(tag.len(), 4);
    assert_ne!(tag, [0u8; 4]);
}

#[test]
fn running_digest_covers_stream_command_and_data() {
    let mut digest = RunningDigest::new();
    let first = digest.update(0x0102, 0x12, b"hello");
    let mut fed = vec![0x01, 0x02, 0x12];
    fed.extend(b"hello");
    assert_eq!(first, sha256(&fed)[..4]);

    let second = digest.update(3, 0x13, b"");
    fed.extend([0x00, 0x03, 0x13]);
    assert_eq!(second, sha256(&fed)[..4]);
}

#[test]
fn test_running_digest_verify_matches() {
    let mut sender = RunningDigest::new();
    let mut receiver = RunningDigest::new();

    let tag = sender.update(1, 0x12, b"hello");
    assert!(receiver.verify(1, 0x12, b"hello", tag));
}

#[test]
fn test_running_digest_verify_rejects_tampered() {
    let mut sender = RunningDigest::new();
    let mut receiver = RunningDigest::new();

    let tag = sender.update(1, 0x12, b"hello");
    assert!(!receiver.verify(1, 0x12, b"tampered", tag));
}

#[test]
fn test_running_digest_is_stateful() {
    let mut digest = RunningDigest::new();

    let tag1 = digest.update(1, 0x12, b"first");
    let tag2 = digest.update(1, 0x12, b"first");

    assert_ne!(tag1, tag2);
}

#[test]
fn test_running_digest_multi_cell_sync() {
    let mut sender = RunningDigest::new();
    let mut receiver = RunningDigest::new();

    let tag1 = sender.update(1, 0x12, b"cell one");
    assert!(receiver.verify(1, 0x12, b"cell one", tag1));

    let tag2 = sender.update(1, 0x12, b"cell two");
    assert!(receiver.verify(1, 0x12, b"cell two", tag2));

    let tag3 = sender.update(2, 0x13, b"");
    assert!(receiver.verify(2, 0x13, b"", tag3));
}

#[test]
fn test_running_digest_default() {
    let mut d1 = RunningDigest::new();
    let mut d2 = RunningDigest::default();
    let t1 = d1.update(1, 0x12, b"test");
    let t2 = d2.update(1, 0x12, b"test");
    assert_eq!(t1, t2);
}

#[test]
fn test_ntor_server_client_roundtrip() {
    let (relay_secret_bytes, relay_public_bytes) = relay_identity();

    let client_eph = NtorEphemeralKeyPair::generate();
    let client_pub = client_eph.public.bytes;

    let (server_eph_pub, auth, server_key) =
        ntor_server(&relay_secret_bytes, &relay_public_bytes, &client_pub);

    let client_key = ntor_client_finish_raw(
        client_eph.secret_bytes(),
        &client_pub,
        &relay_public_bytes,
        &server_eph_pub,
        &auth,
    )
    .unwrap();

    assert_eq!(server_key, client_key);
}

#[test]
fn test_ntor_client_rejects_tampered_auth() {
    let (relay_secret_bytes, relay_public_bytes) = relay_identity();

    let client_eph = NtorEphemeralKeyPair::generate();
    let client_pub = client_eph.public.bytes;

    let (server_eph_pub, mut auth, _) =
        ntor_server(&relay_secret_bytes, &relay_public_bytes, &client_pub);

    auth[0] ^= 0xFF;

    let result = ntor_client_finish_raw(
        client_eph.secret_bytes(),
        &client_pub,
        &relay_public_bytes,
        &server_eph_pub,
        &auth,
    );

    assert!(result.is_err());
    assert!(matches!(result, Err(TorError::HandshakeAuthFailed)));
}

#[test]
fn test_ntor_client_rejects_wrong_static_key() {
    let (relay_secret_bytes, relay_public_bytes) = relay_identity();

    let client_eph = NtorEphemeralKeyPair::generate();
    let client_pub = client_eph.public.bytes;

    let (server_eph_pub, auth, _) =
        ntor_server(&relay_secret_bytes, &relay_public_bytes, &client_pub);

    let (_, fake_relay_public_bytes) = relay_identity();

    let result = ntor_client_finish_raw(
        client_eph.secret_bytes(),
        &client_pub,
        &fake_relay_public_bytes,
        &server_eph_pub,
        &auth,
    );

    assert!(result.is_err());
}

#[test]
fn test_ntor_different_sessions_different_keys() {
    let (relay_secret_bytes, relay_public_bytes) = relay_identity();

    let client_eph1 = NtorEphemeralKeyPair::generate();
    let client_eph2 = NtorEphemeralKeyPair::generate();

    let (_, _, key1) = ntor_server(
        &relay_secret_bytes,
        &relay_public_bytes,
        &client_eph1.public.bytes,
    );
    let (_, _, key2) = ntor_server(
        &relay_secret_bytes,
        &relay_public_bytes,
        &client_eph2.public.bytes,
    );

    assert_ne!(key1, key2);
}

fn hmac_tag(key: &[u8], data: &[u8]) -> Vec<u8> {
    let mut mac = <hmac::Hmac<sha2::Sha256> as Mac>::new_from_slice(key).unwrap();
    mac.update(data);
    mac.finalize().into_bytes().to_vec()
}

#[test]
fn ntor_outcome_follows_the_formula() {
    let client = [0x77u8; 32];
    let relay = [0x42u8; 32];
    let server = [0x17u8; 32];
    let public = |secret: [u8; 32]| X25519PublicKey::from(&StaticSecret::from(secret)).to_bytes();
    let shared = |secret: [u8; 32], public: [u8; 32]| {
        *StaticSecret::from(secret)
            .diffie_hellman(&X25519PublicKey::from(public))
            .as_bytes()
    };
    let protoid = b"ntor-curve25519-sha256-1".to_vec();
    let tweak = |purpose: &[u8]| [protoid.clone(), purpose.to_vec()].concat();

    let mut input = Vec::new();
    input.extend(shared(server, public(client)));
    input.extend(shared(relay, public(client)));
    input.extend(public(relay));
    input.extend(public(client));
    input.extend(public(server));
    input.extend(&protoid);
    let mut covered = hmac_tag(&tweak(b":verify"), &input);
    covered.extend(public(relay));
    covered.extend(public(server));
    covered.extend(public(client));
    covered.extend(&protoid);
    covered.extend(b"Server");
    let auth = hmac_tag(&tweak(b":mac"), &covered);
    let seed = hmac_tag(&tweak(b":key_extract"), &input);
    let material = hmac_tag(&tweak(b":key_expand"), &seed);

    let (server_pub, tag, key) =
        ntor_server_with(&server, &relay, &public(relay), &public(client));
    assert_eq!(server_pub, public(server));
    assert_eq!(tag.to_vec(), auth);
    assert_eq!(key.to_bytes().to_vec(), material);

    let finished = TorNtorHandshaker
        .client_handshake(&client, &public(client), &public(relay), &server_pub, &tag)
        .unwrap();
    assert_eq!(finished, key);
}

#[test]
fn x25519_known_answer() {
    let secret = array32("a546e36bf0527c9d3b16154b82465edd62144c0ac1fc5a18506a2244ba449ac4");
    let point = array32("e6db6867583030db3594c1a424b15f7c726624ec26b3353b10a903a6d0ab1c4c");
    let output = array32("c3da55379de9c6908e94ea4df28d084f32eccf03491c71f754b4075577a28552");
    assert_eq!(
        EphemeralKeyPair::from_secret(secret).diffie_hellman(&point),
        <[u8; 32]>::from(sha2::Sha256::digest(output))
    );
}

#[test]
fn ephemeral_pairs_reach_the_same_secret() {
    let a = EphemeralKeyPair::generate();
    let b = EphemeralKeyPair::generate();
    let a_public = a.public.bytes;
    let b_public = b.public.bytes;
    assert_eq!(a.diffie_hellman(&b_public), b.diffie_hellman(&a_public));
}
