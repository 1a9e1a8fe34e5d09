use mini_tor::client::builder::{CircuitBuilder, Handshake, Hop};
use mini_tor::client::circuit::{Circuit, CircuitState};
use mini_tor::client::directory::{DirectoryClient, MockDirectory};
use mini_tor::client::metrics::{ports_display, CircuitInfo, ClientMetrics, EventKind};
use mini_tor::client::onion::OnionKeys;
use mini_tor::client::pool::{backoff_secs, CircuitPool};
use mini_tor::client::stream::{
    needs_replacement, refuse_command, send_pieces, BridgeInput, ClientStream, SocksCommand,
    SocksReply, Waited, CONNECTED_TIMEOUT_SECS, SOCKS5_READ_BUF_SIZE,
};
use mini_tor::client::view::{
    build_header, circuit_row, collect_event_lines, count_ready, format_event,
};
use mini_tor::crypto::{CipherPair, RunningDigest, SessionKey};
use mini_tor::display::Tint;
use mini_tor::metrics::{Direction, Elapsed, TuiEvent};
use mini_tor::net::{IpAddr, SocketAddr};
use mini_tor::ntor::{ntor_server, NtorEphemeralKeyPair};
use mini_tor::protocol::{Message, MessageCommand};
use mini_tor::relay::keypair::KeyPair;
use mini_tor::types::{NodeDescriptor, NodeType, PublicKey};

fn at(secs: u64) -> Elapsed {
    Elapsed::from_secs(secs)
}

// ---- layers ----

fn make_test_keys(keys: &[SessionKey]) -> OnionKeys {
    let ciphers = keys.iter().map(CipherPair::new).collect();
    OnionKeys::new(keys.to_vec(), ciphers)
}

fn three_hop_keys() -> OnionKeys {
    make_test_keys(&[
        SessionKey::new([1u8; 16], [4u8; 16]),
        SessionKey::new([2u8; 16], [5u8; 16]),
        SessionKey::new([3u8; 16], [6u8; 16]),
    ])
}

#[test]
fn crypto_engine_test_onion_encrypt_decrypt_roundtrip() {
    // Simulate what the relays do in the forward direction.
    let entry_key = SessionKey::new([1u8; 16], [1u8; 16]);
    let middle_key = SessionKey::new([2u8; 16], [2u8; 16]);
    let exit_key = SessionKey::new([3u8; 16], [3u8; 16]);

    let mut client = make_test_keys(&[entry_key.clone(), middle_key.clone(), exit_key.clone()]);

    // Simulate relay cipher pairs (same keys, fresh state)
    let mut entry_relay = CipherPair::new(&entry_key);
    let mut middle_relay = CipherPair::new(&middle_key);
    let mut exit_relay = CipherPair::new(&exit_key);

    let plaintext = b"Hello, onion routing!";

    // Client encrypts forward: exit.fwd -> middle.fwd -> entry.fwd
    let mut data = plaintext.to_vec();
    client.onion_encrypt(&mut data);

    // Each relay peels its layer (apply_forward with same keystream)
    entry_relay.apply_forward(&mut data);
    middle_relay.apply_forward(&mut data);
    exit_relay.apply_forward(&mut data);

    assert_eq!(data, plaintext);
}

#[test]
fn crypto_engine_test_onion_encryption_changes_data() {
    let mut keys = three_hop_keys();
    let plaintext = b"Secret message";

    let mut data = plaintext.to_vec();
    keys.onion_encrypt(&mut data);

    assert_ne!(data, plaintext.as_slice());
    assert_eq!(data.len(), plaintext.len());
}

#[test]
fn crypto_engine_test_onion_layer_order_matters() {
    let mut keys = three_hop_keys();
    let plaintext = b"Order matters";

    let mut data = plaintext.to_vec();
    keys.onion_encrypt(&mut data);

    // Decrypting with wrong key order should NOT recover plaintext
    let mut wrong_cipher = CipherPair::new(&keys.session_keys[2]);
    let mut wrong_data = data.clone();
    wrong_cipher.apply_backward(&mut wrong_data);
    assert_ne!(wrong_data, plaintext.as_slice());
}

#[test]
fn crypto_engine_test_different_keys_produce_different_ciphertext() {
    let mut keys1 = make_test_keys(&[
        SessionKey::new([1u8; 16], [4u8; 16]),
        SessionKey::new([2u8; 16], [5u8; 16]),
        SessionKey::new([3u8; 16], [6u8; 16]),
    ]);
    let mut keys2 = make_test_keys(&[
        SessionKey::new([10u8; 16], [40u8; 16]),
        SessionKey::new([20u8; 16], [50u8; 16]),
        SessionKey::new([30u8; 16], [60u8; 16]),
    ]);
    let plaintext = b"Same plaintext";

    let mut data1 = plaintext.to_vec();
    keys1.onion_encrypt(&mut data1);
    let mut data2 = plaintext.to_vec();
    keys2.onion_encrypt(&mut data2);

    assert_ne!(data1, data2);
}

#[test]
fn crypto_engine_test_empty_payload_encrypt_decrypt() {
    let entry_key = SessionKey::new([1u8; 16], [1u8; 16]);
    let middle_key = SessionKey::new([2u8; 16], [2u8; 16]);
    let exit_key = SessionKey::new([3u8; 16], [3u8; 16]);

    let mut client = make_test_keys(&[entry_key.clone(), middle_key.clone(), exit_key.clone()]);

    let mut entry_relay = CipherPair::new(&entry_key);
    let mut middle_relay = CipherPair::new(&middle_key);
    let mut exit_relay = CipherPair::new(&exit_key);

    let mut data: Vec<u8> = vec![];
    client.onion_encrypt(&mut data);

    entry_relay.apply_forward(&mut data);
    middle_relay.apply_forward(&mut data);
    exit_relay.apply_forward(&mut data);

    assert!(data.is_empty());
}

#[test]
fn crypto_engine_test_simulated_relay_backward_path() {
    let entry_key = SessionKey::new([1u8; 16], [4u8; 16]);
    let middle_key = SessionKey::new([2u8; 16], [5u8; 16]);
    let exit_key = SessionKey::new([3u8; 16], [6u8; 16]);

    let mut client = make_test_keys(&[entry_key.clone(), middle_key.clone(), exit_key.clone()]);

    let mut exit_relay = CipherPair::new(&exit_key);
    let mut middle_relay = CipherPair::new(&middle_key);
    let mut entry_relay = CipherPair::new(&entry_key);

    let plaintext = b"response from destination";
    let mut data = plaintext.to_vec();

    // Relays add backward layers: exit first, then middle, then entry
    exit_relay.apply_backward(&mut data);
    middle_relay.apply_backward(&mut data);
    entry_relay.apply_backward(&mut data);

    // Client peels all layers
    client.onion_decrypt(&mut data);
    assert_eq!(data, plaintext);
}

#[test]
fn crypto_engine_test_large_payload_64kb() {
    let entry_key = SessionKey::new([1u8; 16], [1u8; 16]);
    let middle_key = SessionKey::new([2u8; 16], [2u8; 16]);
    let exit_key = SessionKey::new([3u8; 16], [3u8; 16]);

    let mut client = make_test_keys(&[entry_key.clone(), middle_key.clone(), exit_key.clone()]);
    let mut entry_relay = CipherPair::new(&entry_key);
    let mut middle_relay = CipherPair::new(&middle_key);
    let mut exit_relay = CipherPair::new(&exit_key);

    let plaintext: Vec<u8> = (0..65536).map(|i| (i % 256) as u8).collect();

    let mut data = plaintext.clone();
    client.onion_encrypt(&mut data);

    entry_relay.apply_forward(&mut data);
    middle_relay.apply_forward(&mut data);
    exit_relay.apply_forward(&mut data);

    assert_eq!(data, plaintext);
}

#[test]
fn crypto_engine_test_corrupted_ciphertext() {
    let entry_key = SessionKey::new([1u8; 16], [1u8; 16]);
    let middle_key = SessionKey::new([2u8; 16], [2u8; 16]);
    let exit_key = SessionKey::new([3u8; 16], [3u8; 16]);

    let mut client = make_test_keys(&[entry_key, middle_key, exit_key]);
    let plaintext = b"sensitive data here";

    let mut data = plaintext.to_vec();
    client.onion_encrypt(&mut data);

    let last_idx = data.len() - 1;
    data[last_idx] ^= 0xFF;

    assert_ne!(
        data,
        plaintext.as_slice(),
        "encrypted+corrupted should differ from plaintext"
    );
}

#[test]
fn test_4_hop_encrypt_decrypt_roundtrip() {
    // 4-hop circuit: entry → middle1 → middle2 → exit
    let entry_key = SessionKey::new([1u8; 16], [1u8; 16]);
    let mid1_key = SessionKey::new([2u8; 16], [2u8; 16]);
    let mid2_key = SessionKey::new([3u8; 16], [3u8; 16]);
    let exit_key = SessionKey::new([4u8; 16], [4u8; 16]);

    let mut client = make_test_keys(&[
        entry_key.clone(),
        mid1_key.clone(),
        mid2_key.clone(),
        exit_key.clone(),
    ]);

    let mut entry_relay = CipherPair::new(&entry_key);
    let mut mid1_relay = CipherPair::new(&mid1_key);
    let mut mid2_relay = CipherPair::new(&mid2_key);
    let mut exit_relay = CipherPair::new(&exit_key);

    let plaintext = b"4-hop onion test";
    let mut data = plaintext.to_vec();

    // Client encrypts: exit.fwd → mid2.fwd → mid1.fwd → entry.fwd
    client.onion_encrypt(&mut data);

    // Relays peel layers in order
    entry_relay.apply_forward(&mut data);
    mid1_relay.apply_forward(&mut data);
    mid2_relay.apply_forward(&mut data);
    exit_relay.apply_forward(&mut data);

    assert_eq!(data, plaintext);
}

#[test]
fn test_4_hop_backward_path() {
    let entry_key = SessionKey::new([1u8; 16], [4u8; 16]);
    let mid1_key = SessionKey::new([2u8; 16], [5u8; 16]);
    let mid2_key = SessionKey::new([3u8; 16], [6u8; 16]);
    let exit_key = SessionKey::new([4u8; 16], [7u8; 16]);

    let mut client = make_test_keys(&[
        entry_key.clone(),
        mid1_key.clone(),
        mid2_key.clone(),
        exit_key.clone(),
    ]);

    let mut exit_relay = CipherPair::new(&exit_key);
    let mut mid2_relay = CipherPair::new(&mid2_key);
    let mut mid1_relay = CipherPair::new(&mid1_key);
    let mut entry_relay = CipherPair::new(&entry_key);

    let plaintext = b"4-hop response";
    let mut data = plaintext.to_vec();

    // Relays add backward layers: exit first, then mid2, mid1, entry
    exit_relay.apply_backward(&mut data);
    mid2_relay.apply_backward(&mut data);
    mid1_relay.apply_backward(&mut data);
    entry_relay.apply_backward(&mut data);

    client.onion_decrypt(&mut data);
    assert_eq!(data, plaintext);
}

#[test]
fn keys_of_three_parts() {
    let keys = [
        SessionKey::new([1u8; 16], [4u8; 16]),
        SessionKey::new([2u8; 16], [5u8; 16]),
        SessionKey::new([3u8; 16], [6u8; 16]),
    ];
    let mut parts = OnionKeys::from_parts(
        keys[0],
        keys[1],
        keys[2],
        CipherPair::new(&keys[0]),
        CipherPair::new(&keys[1]),
        CipherPair::new(&keys[2]),
    );
    let mut whole = three_hop_keys();
    let mut a = b"same".to_vec();
    let mut b = b"same".to_vec();
    parts.onion_encrypt(&mut a);
    whole.onion_encrypt(&mut b);
    assert_eq!(a, b);
}

// ---- circuits ----

fn circuit(id: u32) -> Circuit {
    Circuit::new(id, three_hop_keys(), None)
}

/// The far side of a circuit: what its relays and the exit do.
struct FarSide {
    relays: Vec<CipherPair>,
    forward: RunningDigest,
    backward: RunningDigest,
}

impl FarSide {
    fn new() -> Self {
        let keys = three_hop_keys();
        FarSide {
            relays: keys.session_keys.iter().map(CipherPair::new).collect(),
            forward: RunningDigest::new(),
            backward: RunningDigest::new(),
        }
    }

    fn open(&mut self, msg: &Message) -> Vec<u8> {
        let mut data = msg.data.clone();
        for relay in self.relays.iter_mut() {
            relay.apply_forward(&mut data);
        }
        assert!(self
            .forward
            .verify(msg.stream_id, msg.command.to_u8(), &data, msg.digest));
        data
    }

    fn seal(&mut self, mut msg: Message) -> Message {
        msg.digest = self
            .backward
            .update(msg.stream_id, msg.command.to_u8(), &msg.data);
        for relay in self.relays.iter_mut().rev() {
            relay.apply_backward(&mut msg.data);
        }
        msg
    }
}

#[test]
fn test_circuit_state_transitions() {
    assert_ne!(CircuitState::Building, CircuitState::Ready);
    assert_ne!(CircuitState::Ready, CircuitState::Closing);
    assert_ne!(CircuitState::Closing, CircuitState::Closed);
    let mut c = circuit(1);
    assert_eq!(c.state, CircuitState::Ready);
    c.receive(Message::destroy(1));
    assert_eq!(c.state, CircuitState::Closed);
}

#[test]
fn test_stream_id_allocation_skips_zero() {
    let mut c = circuit(1);
    let id1 = c.allocate_stream_id();
    let id2 = c.allocate_stream_id();
    let id3 = c.allocate_stream_id();
    assert_eq!(id1, 1);
    assert_eq!(id2, 2);
    assert_eq!(id3, 3);
    c.next_stream_id = u16::MAX;
    assert_eq!(c.allocate_stream_id(), u16::MAX);
    assert_eq!(c.allocate_stream_id(), 1);
}

#[test]
fn cells_go_both_ways() {
    let mut c = circuit(7);
    let mut far = FarSide::new();
    c.register_stream(1);
    for text in [b"first".as_slice(), b"second"] {
        let cell = c.send_message(1, MessageCommand::Data, text);
        assert_eq!((cell.circuit_id, cell.stream_id), (7, 1));
        assert_eq!(far.open(&cell), text);
        let step = c.receive(far.seal(Message::data(7, 1, text.to_vec())));
        assert!(!step.stop);
        assert_eq!(step.deliver.unwrap().data, text);
        assert!(matches!(
            step.event,
            Some(EventKind::StreamData { circuit_id: 7, direction: Direction::Backward, .. })
        ));
    }
    // Nobody waits for this one.
    let step = c.receive(far.seal(Message::data(7, 9, b"x".to_vec())));
    assert!(step.deliver.is_none() && !step.stop);
    c.unregister_stream(1);
    assert_eq!(c.active_stream_count(), 0);
    assert!(c.has_room(1_000_000));
}

#[test]
fn a_wrong_digest_closes_the_circuit() {
    let mut c = circuit(7);
    let mut far = FarSide::new();
    c.register_stream(1);
    let mut cell = far.seal(Message::data(7, 1, b"x".to_vec()));
    cell.data[0] ^= 1;
    let step = c.receive(cell);
    assert!(step.stop && step.deliver.is_none());
    assert!(matches!(step.event, Some(EventKind::CircuitClosed { circuit_id: 7 })));
    assert_eq!(c.state, CircuitState::Closed);
    assert_eq!(c.active_stream_count(), 0);
    assert!(c.keepalive().is_none());
    assert!(circuit(3).disconnected().stop);
    let padding = circuit(3).keepalive().unwrap();
    assert_eq!(padding.command, MessageCommand::Padding);
    assert_eq!(padding.circuit_id, 3);
}

// ---- the pool ----

#[test]
fn test_circuit_id_allocation_monotonic() {
    let mut pool = CircuitPool::new(3, 3, 3);
    let id1 = pool.allocate_circuit_id();
    let id2 = pool.allocate_circuit_id();
    let id3 = pool.allocate_circuit_id();
    assert_eq!(id1, 1);
    assert_eq!(id2, 2);
    assert_eq!(id3, 3);
}

#[test]
fn test_pool_size_configuration() {
    let pool = CircuitPool::new(5, 3, 3);
    assert_eq!(pool.pool_size(), 5);
    assert_eq!(pool.circuit_count(), 0);
}

#[test]
fn test_rebuild_failure_increments_counter() {
    let mut pool = CircuitPool::new(3, 3, 3);
    let failed_id = 42;
    assert!(pool.replacement_failed(failed_id).is_none());
    assert_eq!(pool.rebuild_failures(failed_id), 1);
    assert!(!pool.is_abandoned(failed_id));
}

#[test]
fn test_rebuild_failure_abandoned_after_max() {
    let mut pool = CircuitPool::new(3, 3, 2);
    let failed_id = 7;
    assert!(pool.replacement_failed(failed_id).is_none());
    let event = pool.replacement_failed(failed_id);
    assert!(matches!(event, Some(EventKind::Error { .. })));
    assert!(pool.is_abandoned(failed_id));
    assert!(!pool.is_abandoned(8));
}

#[test]
fn test_rebuild_success_resets_counter() {
    let mut pool = CircuitPool::new(3, 3, 3);
    let failed_id = 5;
    pool.replacement_failed(failed_id);
    assert_eq!(pool.rebuild_failures(failed_id), 1);
    let event = pool.replaced(failed_id, 6);
    assert!(matches!(event, EventKind::CircuitReplaced { old_id: 5, new_id: 6 }));
    assert_eq!(pool.rebuild_failures(failed_id), 0);
    assert!(!pool.is_abandoned(failed_id));
}

#[test]
fn the_least_busy_circuit_is_chosen() {
    let mut pool = CircuitPool::new(3, 4, 3);
    assert_eq!(pool.select_circuit(), None);
    for id in 1..=3 {
        let event = pool.add_circuit(Circuit::new(id, three_hop_keys(), Some(":1".to_string())));
        assert!(matches!(event, EventKind::CircuitBuilt { .. }));
    }
    pool.get_circuit_mut(1).unwrap().register_stream(1);
    pool.get_circuit_mut(2).unwrap().register_stream(1);
    assert_eq!(pool.select_circuit(), Some(3));
    pool.get_circuit_mut(3).unwrap().disconnected();
    pool.get_circuit_mut(1).unwrap().unregister_stream(1);
    assert_eq!(pool.select_circuit(), Some(1));
    assert_eq!(pool.closed_circuits(), [3]);
    let mut ids = pool.circuit_ids();
    ids.sort();
    assert_eq!(ids, [1, 2, 3]);
    pool.remove_circuit(3);
    assert!(pool.get_circuit(3).is_none());
    assert_eq!(pool.circuit_count(), 2);
    assert_eq!(
        pool.path_complaint(),
        "Failed to get a 4-hop path from the directory service (requires: 1 entry + 2 middle + 1 \
         exit relay node(s) registered)"
    );
}

#[test]
fn failures_make_the_pool_wait() {
    let waits: Vec<u64> = (0..7).map(backoff_secs).collect();
    assert_eq!(waits, [5, 10, 20, 40, 60, 60, 60]);
    assert_eq!(backoff_secs(usize::MAX), 60);
    let mut pool = CircuitPool::new(3, 3, 9);
    pool.replacement_failed(1);
    assert_eq!(pool.replacement_delay(1, at(0)), at(10));
    assert_eq!(pool.replacement_delay(1, at(4)), at(6));
    assert_eq!(pool.replacement_delay(1, at(40)), at(0));
    assert_eq!(pool.replacement_delay(2, at(0)), at(5));
}

// ---- building a circuit ----

/// A relay in the middle of a handshake.
struct Relay {
    keypair: KeyPair,
    secret: [u8; 32],
    cipher: Option<CipherPair>,
}

impl Relay {
    fn new(seed: u8) -> Self {
        let secret = [seed; 32];
        Relay {
            keypair: KeyPair::from_secret_bytes(secret),
            secret,
            cipher: None,
        }
    }

    /// The relay's answer to a client's public key.
    fn answer(&mut self, client: &[u8]) -> Vec<u8> {
        let mut client_pub = [0u8; 32];
        client_pub.copy_from_slice(&client[0..32]);
        let (server_pub, auth, key) =
            ntor_server(&self.secret, &self.keypair.public.bytes, &client_pub);
        self.cipher = Some(CipherPair::new(&key));
        [server_pub, auth].concat()
    }
}

fn hop_to(relay: &Relay, port: u16) -> Hop {
    let mut node = NodeDescriptor::new(
        "n".to_string(),
        NodeType::Middle,
        SocketAddr::new(IpAddr::v4(127, 0, 0, 1), port),
        relay.keypair.public,
        1_000_000,
        None,
    );
    node.tls_cert_fingerprint = format!("fingerprint-{}", port);
    Hop::of(&node, format!("127.0.0.1:{}", port))
}

/// Carries a request along the relays that are part of the circuit, and the answer back.
fn carry(relays: &mut [Relay], done: usize, request: Message) -> Message {
    if done == 0 {
        assert_eq!(request.command, MessageCommand::Create);
        let data = relays[0].answer(&request.data);
        return Message::created(request.circuit_id, data);
    }
    assert_eq!(request.command, MessageCommand::Extend);
    let mut payload = request.data.clone();
    for relay in relays[..done].iter_mut() {
        relay.cipher.as_mut().unwrap().apply_forward(&mut payload);
    }
    let null = payload.iter().position(|&b| b == 0).unwrap();
    let address = std::str::from_utf8(&payload[..null]).unwrap();
    assert_eq!(address, format!("127.0.0.1:{}", 9001 + done));
    let key_start = null + 1;
    let fingerprint = std::str::from_utf8(&payload[key_start + 33..]).unwrap();
    assert_eq!(fingerprint, format!("fingerprint-{}", 9001 + done));
    let client = payload[key_start..key_start + 32].to_vec();
    let mut data = relays[done].answer(&client);
    for relay in relays[..done].iter_mut().rev() {
        relay.cipher.as_mut().unwrap().apply_backward(&mut data);
    }
    Message::extended(request.circuit_id, data)
}

fn start(relays: &[Relay], circuit_id: u32) -> Handshake {
    let path = relays
        .iter()
        .enumerate()
        .map(|(i, r)| hop_to(r, 9001 + i as u16))
        .collect();
    CircuitBuilder::build(circuit_id, path).unwrap()
}

#[test]
fn test_full_telescopic_handshake() {
    for hops in 3..=5u8 {
        let mut relays: Vec<Relay> = (1..=hops).map(Relay::new).collect();
        let mut handshake = start(&relays, 42);
        while !handshake.is_complete() {
            let done = handshake.hops_done();
            assert_eq!(handshake.target().port, 9001 + done as u16);
            let request = handshake.request();
            let answer = carry(&mut relays, done, request);
            handshake.answer(Some(answer)).unwrap();
        }
        let mut built = handshake.finish();
        assert_eq!(built.circuit_id, 42);
        assert_eq!(built.state, CircuitState::Ready);
        assert_eq!(built.onion_keys.session_keys.len(), hops as usize);
        for key in &built.onion_keys.session_keys {
            assert_ne!(key.forward, [0u8; 16]);
        }
        assert!(built.path_display.as_deref().unwrap().contains(":9001"));
        // The first cell reaches the exit, although the handshake has used the ciphers.
        let cell = built.send_message(1, MessageCommand::Data, b"hello");
        let mut data = cell.data.clone();
        for relay in relays.iter_mut() {
            relay.cipher.as_mut().unwrap().apply_forward(&mut data);
        }
        assert_eq!(data, b"hello");
    }
}

#[test]
fn test_build_rejects_wrong_path_length() {
    let path = vec![hop_to(&Relay::new(1), 1)];
    match CircuitBuilder::build(1, path) {
        Err(err) => assert!(
            err.contains("at least 3 nodes"),
            "Expected path length error, got: {err}",
        ),
        Ok(_) => panic!("Expected error for wrong path length, but build succeeded"),
    }
}

#[test]
fn test_build_fails_on_unreachable_entry() {
    let relays: Vec<Relay> = (1..=3).map(Relay::new).collect();
    let mut handshake = start(&relays, 1);
    handshake.request();
    assert!(handshake.answer(None).is_err());
}

#[test]
fn wrong_answers_end_the_handshake() {
    let mut relays: Vec<Relay> = (1..=3).map(Relay::new).collect();
    // Another command.
    let mut handshake = start(&relays, 1);
    handshake.request();
    assert!(handshake.answer(Some(Message::destroy(1))).is_err());
    // A tag that is not the relay's.
    let mut handshake = start(&relays, 1);
    let request = handshake.request();
    let mut answer = carry(&mut relays, 0, request);
    answer.data[40] ^= 1;
    assert!(handshake.answer(Some(answer)).is_err());
    // Too short.
    let mut handshake = start(&relays, 1);
    handshake.request();
    assert!(handshake.answer(Some(Message::created(1, vec![0; 63]))).is_err());
    // A relay with another key than the directory said.
    let mut handshake = start(&relays, 1);
    let request = handshake.request();
    let mut other = [Relay::new(9)];
    let answer = carry(&mut other, 0, request);
    assert!(handshake.answer(Some(answer)).is_err());
    assert_eq!(handshake.hops_done(), 0);
}

#[test]
fn requests_carry_the_given_key() {
    let relays: Vec<Relay> = (1..=3).map(Relay::new).collect();
    let mut handshake = start(&relays, 1);
    let ephemeral = NtorEphemeralKeyPair::from_secret([5u8; 32]);
    let public = ephemeral.public.bytes;
    let request = handshake.request_with(ephemeral);
    assert_eq!(request.command, MessageCommand::Create);
    assert_eq!(request.data, public);
}

// ---- streams ----

#[test]
fn test_connected_timeout_is_reasonable() {
    assert!(CONNECTED_TIMEOUT_SECS >= 10);
    assert!(CONNECTED_TIMEOUT_SECS <= 120);
}

#[test]
fn test_socks5_buffer_size() {
    assert!(SOCKS5_READ_BUF_SIZE >= 1024);
    assert!(SOCKS5_READ_BUF_SIZE <= 65536);
}

#[test]
fn streams_bridge_a_connection() {
    let mut c = circuit(7);
    let mut far = FarSide::new();
    let (stream, begin) = ClientStream::open(&mut c, "example.com:80");
    assert_eq!(begin.command, MessageCommand::Begin);
    assert_eq!(far.open(&begin), b"example.com:80\0");
    assert_eq!(c.active_stream_count(), 1);
    assert!(matches!(
        stream.begun("example.com:80".to_string()),
        EventKind::StreamBegin { circuit_id: 7, stream_id: 1, .. }
    ));
    let connected = stream.connected(Waited::Got(Message::connected(7, 1)));
    assert!(matches!(connected, Ok(EventKind::StreamConnected { stream_id: 1, .. })));

    let sent = vec![9u8; 1100];
    let output = stream.handle(&mut c, BridgeInput::FromClient(sent.clone()));
    assert!(!output.stop);
    let mut arrived = Vec::new();
    for cell in &output.cells {
        assert!(cell.to_cell().is_ok());
        arrived.extend(far.open(cell));
    }
    assert_eq!(arrived, sent);
    assert!(matches!(output.event, Some(EventKind::StreamData { bytes: 1100, .. })));

    let output = stream.handle(&mut c, BridgeInput::FromCircuit(Message::data(7, 1, vec![1, 2])));
    assert_eq!(output.write.unwrap(), [1, 2]);
    assert!(stream.handle(&mut c, BridgeInput::FromClient(vec![])).stop);
    assert!(stream.handle(&mut c, BridgeInput::ClientFailed).stop);
    assert!(stream.handle(&mut c, BridgeInput::CircuitClosed).stop);
    assert!(stream.handle(&mut c, BridgeInput::FromCircuit(Message::end(7, 1, vec![]))).stop);

    let end = stream.close(&mut c);
    assert_eq!(end.command, MessageCommand::End);
    assert!(far.open(&end).is_empty());
    assert_eq!(c.active_stream_count(), 0);
    assert!(matches!(stream.ended(), EventKind::StreamEnd { circuit_id: 7, stream_id: 1 }));
}

#[test]
fn streams_that_do_not_open() {
    let mut c = circuit(7);
    let (stream, _) = ClientStream::open(&mut c, "h:1");
    let refusal = stream.connected(Waited::Got(Message::end(7, 1, vec![]))).unwrap_err();
    assert_eq!(refusal.reply, Some(SocksReply::GeneralFailure));
    assert_eq!(refusal.error, "Expected CONNECTED for stream 1, got END");
    let refusal = stream.connected(Waited::Closed).unwrap_err();
    assert_eq!(refusal.reply, None);
    assert_eq!(refusal.error, "Circuit closed before CONNECTED received for stream 1");
    let refusal = stream.connected(Waited::TimedOut).unwrap_err();
    assert_eq!(refusal.error, "Timed out waiting for CONNECTED on stream 1 (30s)");
    assert!(refuse_command(SocksCommand::Connect).is_none());
    let (reply, complaint) = refuse_command(SocksCommand::Bind).unwrap();
    assert_eq!(reply, SocksReply::CommandNotSupported);
    assert_eq!(complaint, "Unsupported SOCKS5 command: Bind");
    let (_, complaint) = refuse_command(SocksCommand::UdpAssociate).unwrap();
    assert_eq!(complaint, "Unsupported SOCKS5 command: UdpAssociate");
    assert!(needs_replacement(true, CircuitState::Closed));
    assert!(!needs_replacement(true, CircuitState::Ready));
    assert!(!needs_replacement(false, CircuitState::Closed));
    assert!(send_pieces(&mut c, 1, &[]).is_empty());
}

// ---- the directory ----

fn make_node(id: &str, node_type: NodeType) -> NodeDescriptor {
    NodeDescriptor::new(
        id.to_string(),
        node_type,
        SocketAddr::new(IpAddr::v4(127, 0, 0, 1), 9001),
        PublicKey::new([0u8; 32]),
        1_000_000,
        None,
    )
}

fn three_nodes() -> Vec<NodeDescriptor> {
    vec![
        make_node("entry-1", NodeType::Entry),
        make_node("middle-1", NodeType::Middle),
        make_node("exit-1", NodeType::Exit),
    ]
}

#[test]
fn test_cache_initially_invalid() {
    let client = DirectoryClient::new();
    assert!(!client.is_cache_valid(at(0)));
}

#[test]
fn directory_client_integration_test_get_random_path_success() {
    let client = DirectoryClient::new();
    let result = client.get_random_path(Ok(three_nodes()), 3).unwrap();
    assert_eq!(result.len(), 3);
    assert_eq!(result[0].node_id, "entry-1");
    assert_eq!(result[0].node_type, NodeType::Entry);
    assert_eq!(result[1].node_id, "middle-1");
    assert_eq!(result[1].node_type, NodeType::Middle);
    assert_eq!(result[2].node_id, "exit-1");
    assert_eq!(result[2].node_type, NodeType::Exit);
}

#[test]
fn test_get_random_path_server_error_503() {
    let client = DirectoryClient::new();
    let answer = Err("directory returned an error: 503".to_string());
    let result = client.get_random_path(answer, 3);
    assert!(result.is_err());
    let err_msg = result.unwrap_err();
    assert!(
        err_msg.contains("error"),
        "Error message should indicate server error: {}",
        err_msg
    );
}

#[test]
fn test_get_random_path_wrong_count() {
    let client = DirectoryClient::new();
    let mut nodes = three_nodes();
    nodes.pop();
    let result = client.get_random_path(Ok(nodes), 3);
    assert!(result.is_err());
    let err_msg = result.unwrap_err();
    assert!(
        err_msg.contains("Expected 3 nodes"),
        "Should report wrong count: {}",
        err_msg
    );
    assert_eq!(err_msg, "Expected 3 nodes from directory, got 2");
}

#[test]
fn test_get_all_nodes_success() {
    let mut client = DirectoryClient::new();
    let result = client.get_all_nodes(at(1), Ok(three_nodes())).unwrap();
    assert_eq!(result.len(), 3);
    assert_eq!(result[0].node_id, "entry-1");
}

#[test]
fn test_get_all_nodes_caching() {
    let mut client = DirectoryClient::new();
    assert!(client.known_nodes(at(0)).is_none());
    let answer = Ok(vec![make_node("entry-1", NodeType::Entry)]);
    let result1 = client.get_all_nodes(at(1), answer).unwrap();
    assert_eq!(result1.len(), 1);
    assert!(client.is_cache_valid(at(1)));
    let result2 = client.known_nodes(at(2)).unwrap();
    assert_eq!(result2.len(), 1);
    assert!(client.is_cache_valid(Elapsed { secs: 300, nanos: 999_999_999 }));
    assert!(!client.is_cache_valid(at(301)));
    assert!(client.known_nodes(at(301)).is_none());
}

#[test]
fn test_get_all_nodes_server_error() {
    let mut client = DirectoryClient::new();
    let result = client.get_all_nodes(at(1), Err("500".to_string()));
    assert!(result.is_err());
    assert!(
        !client.is_cache_valid(at(1)),
        "Cache should remain invalid after error"
    );
}

#[test]
fn paths_made_beforehand_come_in_order() {
    let mut directory = MockDirectory::new(vec![three_nodes(), vec![]]);
    assert_eq!(directory.get_random_path(3).unwrap()[2].node_id, "exit-1");
    assert_eq!(
        directory.get_random_path(3).unwrap_err(),
        "MockDirectory: expected 3 nodes, got 0"
    );
    assert_eq!(
        directory.get_random_path(3).unwrap_err(),
        "MockDirectory: no paths remaining"
    );
}

// ---- figures and the dashboard ----

#[test]
fn clients_count_what_happens() {
    let mut m = ClientMetrics::new(at(0));
    m.count_connection();
    let data = |direction, bytes| EventKind::StreamData {
        circuit_id: 1,
        stream_id: 2,
        bytes,
        direction,
    };
    m.record(at(1), data(Direction::Forward, 10));
    m.record(at(2), data(Direction::Backward, 20));
    m.record(at(3), EventKind::Error { message: "m".to_string() });
    assert_eq!(m.get_connections(), 1);
    assert_eq!(m.get_bytes_sent(), 10);
    assert_eq!(m.get_bytes_received(), 20);
    assert_eq!(m.uptime(at(9)), at(9));
    let lines = collect_event_lines(&m);
    assert_eq!(lines.len(), 3);
    assert_eq!(lines[2].detail.text, "m");
    let info = CircuitInfo {
        circuit_id: 1,
        entry_addr: SocketAddr::new(IpAddr::v4(1, 0, 0, 1), 9001),
        middle_addr: SocketAddr::new(IpAddr::v4(1, 0, 0, 2), 9002),
        exit_addr: SocketAddr::new(IpAddr::v4(1, 0, 0, 3), 9003),
        created_at: at(0),
    };
    assert_eq!(info.path_display(), ports_display(&[9001, 9002, 9003]));
}

#[test]
fn the_client_dashboard() {
    let mut c = circuit(42);
    c.register_stream(1);
    let row = circuit_row(&c, Some(at(5)));
    assert_eq!(row.circuit_id, "00042");
    assert_eq!(row.state, "Ready");
    assert_eq!(row.state_tint, Tint::Green);
    assert_eq!(row.streams, "1");
    assert_eq!(row.age, "5s");
    assert_eq!(row.path, "unknown");
    c.disconnected();
    let rows = [row, circuit_row(&c, None)];
    assert_eq!(rows[1].age, "");
    assert_eq!(count_ready(&rows), 1);
    let m = ClientMetrics::new(at(0));
    assert_eq!(
        build_header(&m, "127.0.0.1:1080", &rows, at(3700)),
        " TOR CLIENT  |  SOCKS5: 127.0.0.1:1080  |  Up: 1h1m  |  Pool: 1/2 ready  |  Conns: 0  |  \
         ↑ 0 B  |  ↓ 0 B"
    );
    let line = format_event(&TuiEvent {
        elapsed: at(1),
        kind: EventKind::CircuitClosed { circuit_id: 4 },
    });
    assert_eq!(line.time.text, " +0:00:01 ");
    assert!(line.detail.text.contains('4'));
}
