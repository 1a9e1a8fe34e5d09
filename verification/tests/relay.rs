use mini_tor::crypto::{
    aes_decrypt, aes_encrypt, derive_session_key, CipherPair, EphemeralKeyPair, RunningDigest,
    SessionKey,
};
use mini_tor::display::Tint;
use mini_tor::metrics::{Direction, Elapsed, TuiEvent};
use mini_tor::ntor::{NtorEphemeralKeyPair, NtorHandshaker, TorNtorHandshaker};
use mini_tor::protocol::{Message, MessageCommand};
use mini_tor::relay::circuit::{Action, CircuitContext, CircuitState, NextHop};
use mini_tor::relay::entry::EntryCircuitHandler;
use mini_tor::relay::exit::{ExitCircuitHandler, StreamInput};
use mini_tor::relay::handler::{
    accept_create, returned_cell, should_spawn_reader, CircuitHandler, CircuitRegistry, Step,
};
use mini_tor::relay::keypair::KeyPair;
use mini_tor::relay::metrics::{format_event_string, EventKind, RelayMetrics};
use mini_tor::relay::middle::MiddleCircuitHandler;
use mini_tor::relay::view::{
    build_header_spans, build_help, build_stats, circuit_row, circuits_title, collect_event_lines,
    format_event, matches_event, relay_log_title, relay_title, FilterMode, TuiState,
};
use mini_tor::types::NodeType;

fn at(secs: u64) -> Elapsed {
    Elapsed::from_secs(secs)
}

fn array32(data: &[u8]) -> [u8; 32] {
    let mut a = [0u8; 32];
    a.copy_from_slice(&data[0..32]);
    a
}

fn reply(r: Result<Action, String>) -> Message {
    match r.unwrap() {
        Action::Reply(m) => m,
        other => panic!("{:?}", other),
    }
}

/// The client's key after a relay answered.
fn client_key(ephemeral: EphemeralKeyPair, created: &Message) -> SessionKey {
    derive_session_key(&ephemeral.diffie_hellman(&array32(&created.data)))
}

// ---- key pairs ----

#[test]
fn test_ntor_handshake_exchange() {
    let relay_kp = KeyPair::generate();
    let client_kp = NtorEphemeralKeyPair::generate();
    let client_pub = client_kp.public.bytes;
    let (server_eph_pub, auth, relay_key) = relay_kp.ntor_server_handshake(&client_pub);
    let client_key = TorNtorHandshaker
        .client_handshake(
            client_kp.secret_bytes(),
            &client_pub,
            &relay_kp.public.bytes,
            &server_eph_pub,
            &auth,
        )
        .unwrap();
    assert_eq!(relay_key, client_key);
}

#[test]
fn test_ntor_ephemeral_keypair_generation() {
    let e1 = NtorEphemeralKeyPair::generate();
    let e2 = NtorEphemeralKeyPair::generate();
    assert_ne!(e1.public.bytes, e2.public.bytes);
}

#[test]
fn keypair_test_public_key_deterministic_from_secret() {
    let secret_bytes = [99u8; 32];
    let k1 = KeyPair::from_secret_bytes(secret_bytes);
    let k2 = KeyPair::from_secret_bytes(secret_bytes);
    assert_eq!(k1.public.bytes, k2.public.bytes);
    assert_eq!(k1.public_key().bytes, k1.clone().public.bytes);
    assert_ne!(k1.public.bytes, secret_bytes);
}

#[test]
fn test_diffie_hellman_exchange() {
    let relay_kp = KeyPair::generate();
    let client_kp = EphemeralKeyPair::generate();
    let client_public = client_kp.public.bytes;
    let relay_shared = relay_kp.diffie_hellman(&client_public);
    let client_shared = client_kp.diffie_hellman(&relay_kp.public.bytes);
    assert_eq!(relay_shared, client_shared);
}

#[test]
fn test_ephemeral_keypair_generation() {
    let e1 = EphemeralKeyPair::generate();
    let e2 = EphemeralKeyPair::generate();
    assert_ne!(e1.public.bytes, e2.public.bytes);
}

// ---- contexts and the registry ----

#[test]
fn test_circuit_context_new() {
    let ctx = CircuitContext::new(42);
    assert_eq!(ctx.circuit_id, 42);
    assert_eq!(ctx.state, CircuitState::Initializing);
    assert!(ctx.session_key.is_none());
    assert!(ctx.cipher_pair.is_none());
}

#[test]
fn test_circuit_context_activate() {
    let mut ctx = CircuitContext::new(1);
    let key = SessionKey::new([1u8; 16], [2u8; 16]);
    ctx.activate(key.clone());

    assert_eq!(ctx.state, CircuitState::Active);
    assert_eq!(ctx.session_key.unwrap(), key);
    assert!(ctx.cipher_pair.is_some());
}

#[test]
fn test_circuit_context_close() {
    let mut ctx = CircuitContext::new(1);
    ctx.activate(SessionKey::new([1u8; 16], [2u8; 16]));
    ctx.close();

    assert_eq!(ctx.state, CircuitState::Closed);
    assert!(ctx.session_key.is_none());
    assert!(ctx.cipher_pair.is_none());
}

#[test]
fn test_circuit_registry_new_empty() {
    let reg = CircuitRegistry::new();
    assert_eq!(reg.circuit_count(), 0);
}

#[test]
fn test_circuit_registry_allocate_id() {
    let mut reg = CircuitRegistry::new();
    assert_eq!(reg.allocate_circuit_id(), 1);
    assert_eq!(reg.allocate_circuit_id(), 2);
    assert_eq!(reg.allocate_circuit_id(), 3);
}

#[test]
fn test_circuit_registry_default() {
    let reg = CircuitRegistry::default();
    assert_eq!(reg.circuit_count(), 0);
}

#[test]
fn readers_are_handed_out_once() {
    let mut hop = NextHop::new();
    assert!(hop.take_read());
    assert!(!hop.take_read());
}

// ---- entry relays ----

/// An entry relay with an established circuit, and the client's key.
fn entry(circuit_id: u32) -> (EntryCircuitHandler, SessionKey) {
    let mut handler = EntryCircuitHandler::new(circuit_id, KeyPair::generate());
    let ephemeral = EphemeralKeyPair::generate();
    let create = Message::create(circuit_id, ephemeral.public.bytes.to_vec());
    let created = reply(handler.handle_create(&create));
    (handler, client_key(ephemeral, &created))
}

#[test]
fn test_entry_create_handshake() {
    let mut handler = EntryCircuitHandler::new(1, KeyPair::generate());
    let ephemeral = EphemeralKeyPair::generate();
    let create_msg = Message::create(1, ephemeral.public.bytes.to_vec());

    let response = reply(handler.handle_create(&create_msg));

    assert_eq!(response.command, MessageCommand::Created);
    assert_eq!(response.circuit_id, 1);
    assert_eq!(response.data.len(), 32);
    assert_eq!(handler.state(), CircuitState::Active);
    assert!(handler.session_key().is_some());
    let key = client_key(ephemeral, &response);
    assert_eq!(key, *handler.session_key().unwrap());
}

#[test]
fn test_entry_create_too_short() {
    let mut handler = EntryCircuitHandler::new(1, KeyPair::generate());
    let create_msg = Message::create(1, vec![0u8; 16]);
    let result = handler.handle_create(&create_msg);
    assert!(result.is_err());
    assert!(result.unwrap_err().contains("too short"));
    assert_eq!(handler.state(), CircuitState::Initializing);
}

#[test]
fn test_entry_backward_relay_encrypts() {
    let (handler, key) = entry(1);
    let plaintext = b"Hello from exit node";
    let backward_msg = Message::data(1, 5, plaintext.to_vec());

    let response = handler.handle_backward_relay(&backward_msg).unwrap();

    assert_eq!(response.command, MessageCommand::Data);
    assert_eq!(response.circuit_id, 1);
    assert_eq!(response.stream_id, 5);
    let decrypted = aes_decrypt(&response.data, &key.backward).unwrap();
    assert_eq!(decrypted, plaintext);
}

#[test]
fn test_entry_backward_relay_no_session_key() {
    let handler = EntryCircuitHandler::new(1, KeyPair::generate());
    let msg = Message::data(1, 1, b"test".to_vec());
    let result = handler.handle_backward_relay(&msg);
    assert!(result.is_err());
    assert!(result.unwrap_err().contains("No session key"));
}

#[test]
fn test_entry_destroy_closes_circuit() {
    let (mut handler, _) = entry(1);
    assert_eq!(handler.state(), CircuitState::Active);
    let result = handler.handle_message(Message::destroy(1)).unwrap();
    assert!(matches!(result, Action::Closed));
    assert_eq!(handler.state(), CircuitState::Closed);
    assert!(handler.session_key().is_none());
}

fn extend_payload(address: &str, key: &[u8; 32]) -> Vec<u8> {
    let mut payload = address.as_bytes().to_vec();
    payload.push(0);
    payload.extend_from_slice(key);
    payload
}

#[test]
fn test_entry_extend_to_middle_over_tcp() {
    let middle_public = KeyPair::generate().public_key().bytes;
    let (mut handler, entry_key) = entry(42);
    let plain = extend_payload("127.0.0.1:9002", &middle_public);
    let extend_msg = Message::extend(42, aes_encrypt(&plain, &entry_key.forward));

    let (address, payload) = match handler.handle_message(extend_msg).unwrap() {
        Action::Extend { address, payload } => (address, payload),
        other => panic!("{:?}", other),
    };
    assert_eq!(address, "127.0.0.1:9002");
    let msg = handler.create_for(&payload);
    assert_eq!(msg.command, MessageCommand::Create);
    assert_eq!(msg.data, middle_public);

    let created = Message::created(msg.circuit_id, middle_public.to_vec());
    let (response, event) = handler
        .finish_extend(Some(created), address)
        .unwrap();
    assert_eq!(response.command, MessageCommand::Extended);
    assert_eq!(response.circuit_id, 42);
    let decrypted = aes_decrypt(&response.data, &entry_key.backward).unwrap();
    assert_eq!(decrypted.len(), 32);
    assert_eq!(&decrypted[..], &middle_public);
    assert!(matches!(event, EventKind::CircuitExtended { circuit_id: 42, .. }));
    assert!(handler.take_reader());
    assert!(!handler.take_reader());
}

#[test]
fn entries_refuse_what_makes_no_sense() {
    let handler = EntryCircuitHandler::new(1, KeyPair::generate());
    let extend = Message::extend(1, vec![0; 40]);
    assert_eq!(
        handler.handle_extend(&extend).unwrap_err(),
        "Circuit not yet established"
    );
    let (mut handler, key) = entry(1);
    let sealed = aes_encrypt(b"127.0.0.1:9002\0short", &key.forward);
    assert_eq!(
        handler.handle_message(Message::extend(1, sealed)).unwrap_err(),
        "EXTEND payload too short"
    );
    // The address is text.
    let mut payload = vec![0xff, 0xfe, 0];
    payload.extend_from_slice(&[7u8; 32]);
    let sealed = aes_encrypt(&payload, &key.forward);
    let complaint = handler.handle_message(Message::extend(1, sealed)).unwrap_err();
    assert!(complaint.contains("invalid utf-8"), "{}", complaint);
    // There is nowhere to pass a cell on to.
    let sealed = aes_encrypt(b"data", &key.forward);
    let action = handler.handle_message(Message::data(1, 1, sealed)).unwrap();
    assert!(matches!(action, Action::Nothing));
    assert!(handler.handle_message(Message::data(1, 1, vec![1])).is_err());
    assert_eq!(
        handler.finish_extend(None, String::new()).unwrap_err(),
        "Next hop closed connection waiting for CREATED"
    );
    let wrong = Message::destroy(1);
    assert_eq!(
        handler.finish_extend(Some(wrong), String::new()).unwrap_err(),
        "Expected CREATED from next hop, got Destroy"
    );
    let created = Message::created(1, vec![1; 32]);
    handler.finish_extend(Some(created), "h:1".to_string()).unwrap();
    let sealed = aes_encrypt(b"data", &key.forward);
    match handler.handle_message(Message::data(1, 7, sealed)).unwrap() {
        Action::Forward(m) => {
            assert_eq!(m.data, b"data");
            assert_eq!((m.circuit_id, m.stream_id), (1, 7));
        }
        other => panic!("{:?}", other),
    }
}

// ---- middle relays ----

fn middle(circuit_id: u32) -> (MiddleCircuitHandler, SessionKey) {
    let mut handler = MiddleCircuitHandler::new(circuit_id, KeyPair::generate());
    let ephemeral = EphemeralKeyPair::generate();
    let create = Message::create(circuit_id, ephemeral.public.bytes.to_vec());
    let created = reply(handler.handle_create(&create));
    (handler, client_key(ephemeral, &created))
}

#[test]
fn test_middle_create_handshake() {
    let mut handler = MiddleCircuitHandler::new(10, KeyPair::generate());
    let ephemeral = EphemeralKeyPair::generate();
    let create_msg = Message::create(10, ephemeral.public.bytes.to_vec());

    let response = reply(handler.handle_create(&create_msg));

    assert_eq!(response.command, MessageCommand::Created);
    assert_eq!(response.circuit_id, 10);
    assert_eq!(response.data.len(), 32);
    assert_eq!(handler.state(), CircuitState::Active);
    let key = client_key(ephemeral, &response);
    assert_eq!(key, *handler.session_key().unwrap());
}

#[test]
fn test_middle_create_too_short() {
    let mut handler = MiddleCircuitHandler::new(10, KeyPair::generate());
    let create_msg = Message::create(10, vec![0u8; 10]);
    assert!(handler.handle_create(&create_msg).is_err());
}

#[test]
fn test_middle_backward_relay_encrypts() {
    let (mut handler, session_key) = middle(10);
    let plaintext = b"response from exit";
    let backward_msg = Message::data(10, 3, plaintext.to_vec());
    assert!(handler.has_room(backward_msg.data.len()));

    let response = handler.handle_backward_relay(backward_msg).unwrap();

    assert_eq!(response.command, MessageCommand::Data);
    assert_eq!(response.stream_id, 3);
    let mut client_cipher = CipherPair::new(&session_key);
    let mut decrypted = response.data.clone();
    client_cipher.apply_backward(&mut decrypted);
    assert_eq!(decrypted, plaintext);
}

#[test]
fn test_middle_backward_relay_no_session() {
    let mut handler = MiddleCircuitHandler::new(10, KeyPair::generate());
    let msg = Message::data(10, 1, b"test".to_vec());
    assert!(handler.handle_backward_relay(msg).is_err());
}

#[test]
fn test_middle_destroy_closes_circuit() {
    let (mut handler, _) = middle(10);
    assert_eq!(handler.state(), CircuitState::Active);
    let result = handler.handle_message(Message::destroy(10)).unwrap();
    assert!(matches!(result, Action::Closed));
    assert_eq!(handler.state(), CircuitState::Closed);
}

#[test]
fn test_middle_extend_to_exit_over_tcp() {
    let exit_public = KeyPair::generate().public_key().bytes;
    let (mut handler, middle_key) = middle(20);
    let client_ephemeral = EphemeralKeyPair::generate().public.bytes;
    let mut client_cipher = CipherPair::new(&middle_key);
    let mut encrypted = extend_payload("127.0.0.1:9003", &client_ephemeral);
    client_cipher.apply_forward(&mut encrypted);

    let (address, payload) = match handler.handle_message(Message::extend(20, encrypted)).unwrap() {
        Action::Extend { address, payload } => (address, payload),
        other => panic!("{:?}", other),
    };
    assert_eq!(address, "127.0.0.1:9003");
    let msg = handler.create_for(&payload).unwrap();
    assert_eq!(msg.command, MessageCommand::Create);
    assert_eq!(msg.data, client_ephemeral);

    let created = Message::created(msg.circuit_id, exit_public.to_vec());
    let (response, _) = handler.finish_extend(Some(created), address).unwrap();
    assert_eq!(response.command, MessageCommand::Extended);
    assert_eq!(response.circuit_id, 20);
    let mut decrypted = response.data.clone();
    client_cipher.apply_backward(&mut decrypted);
    assert_eq!(decrypted.len(), 32);
    assert_eq!(&decrypted[..], &exit_public);
}

#[test]
fn middles_refuse_what_makes_no_sense() {
    let (mut handler, key) = middle(1);
    let mut cipher = CipherPair::new(&key);
    let mut short = b"127.0.0.1:9002\0tooshort".to_vec();
    cipher.apply_forward(&mut short);
    match handler.handle_message(Message::extend(1, short)).unwrap() {
        Action::Extend { payload, .. } => assert_eq!(
            handler.create_for(&payload).unwrap_err(),
            "EXTEND message missing public key"
        ),
        other => panic!("{:?}", other),
    }
    let mut data = b"data".to_vec();
    cipher.apply_forward(&mut data);
    // The layer comes off although there is nowhere to pass the cell on to.
    let action = handler.handle_message(Message::data(1, 1, data)).unwrap();
    assert!(matches!(action, Action::Nothing));
    handler
        .finish_extend(Some(Message::created(1, vec![1; 32])), "h:1".to_string())
        .unwrap();
    let mut data = b"more".to_vec();
    cipher.apply_forward(&mut data);
    match handler.handle_message(Message::data(1, 1, data)).unwrap() {
        Action::Forward(m) => assert_eq!(m.data, b"more"),
        other => panic!("{:?}", other),
    }
}

// ---- exit relays ----

struct ExitClient {
    cipher: CipherPair,
    forward: RunningDigest,
    backward: RunningDigest,
}

impl ExitClient {
    fn seal(&mut self, mut msg: Message) -> Message {
        msg.digest = self
            .forward
            .update(msg.stream_id, msg.command.to_u8(), &msg.data);
        self.cipher.apply_forward(&mut msg.data);
        msg
    }

    fn open(&mut self, msg: &Message) -> Vec<u8> {
        let mut data = msg.data.clone();
        self.cipher.apply_backward(&mut data);
        assert!(self
            .backward
            .verify(msg.stream_id, msg.command.to_u8(), &data, msg.digest));
        data
    }
}

fn exit(circuit_id: u32) -> (ExitCircuitHandler, ExitClient) {
    let mut handler = ExitCircuitHandler::new(circuit_id, KeyPair::generate());
    let ephemeral = EphemeralKeyPair::generate();
    let create = Message::create(circuit_id, ephemeral.public.bytes.to_vec());
    let created = reply(handler.handle_create(&create));
    let client = ExitClient {
        cipher: CipherPair::new(&client_key(ephemeral, &created)),
        forward: RunningDigest::new(),
        backward: RunningDigest::new(),
    };
    (handler, client)
}

#[test]
fn test_exit_create_handshake() {
    let mut handler = ExitCircuitHandler::new(100, KeyPair::generate());
    let ephemeral = EphemeralKeyPair::generate();
    let create_msg = Message::create(100, ephemeral.public.bytes.to_vec());

    let response = reply(handler.handle_create(&create_msg));

    assert_eq!(response.command, MessageCommand::Created);
    assert_eq!(response.circuit_id, 100);
    assert_eq!(response.data.len(), 32);
    assert_eq!(handler.state(), CircuitState::Active);
    let key = client_key(ephemeral, &response);
    assert_eq!(key, *handler.session_key().unwrap());
}

#[test]
fn test_exit_create_too_short() {
    let mut handler = ExitCircuitHandler::new(100, KeyPair::generate());
    let create_msg = Message::create(100, vec![0u8; 5]);
    assert!(handler.handle_create(&create_msg).is_err());
}

#[test]
fn test_exit_data_unknown_stream_returns_end() {
    let (mut handler, mut client) = exit(100);
    let data_msg = client.seal(Message::data(100, 99, b"hello".to_vec()));

    let response = reply(handler.handle_message(data_msg));

    assert_eq!(response.command, MessageCommand::End);
    assert_eq!(response.stream_id, 99);
    let decrypted = client.open(&response);
    assert!(String::from_utf8_lossy(&decrypted).contains("Stream not found"));
}

#[test]
fn test_exit_end_unknown_stream() {
    let (mut handler, mut client) = exit(100);
    let end_msg = client.seal(Message::end(100, 55, vec![]));
    let response = match handler.handle_message(end_msg).unwrap() {
        Action::Reply(m) => m,
        Action::CloseStream { reply, .. } => reply,
        other => panic!("{:?}", other),
    };
    assert_eq!(response.command, MessageCommand::End);
    assert_eq!(response.stream_id, 55);
}

#[test]
fn test_exit_destroy_clears_streams() {
    let (mut handler, _) = exit(100);
    assert_eq!(handler.state(), CircuitState::Active);
    assert!(handler.has_crypto());
    let result = handler.handle_message(Message::destroy(100)).unwrap();
    assert!(matches!(result, Action::Closed));
    assert_eq!(handler.state(), CircuitState::Closed);
    assert!(!handler.has_crypto());
}

#[test]
fn test_exit_begin_connects_to_destination() {
    let (mut handler, mut client) = exit(100);
    let begin_msg = client.seal(Message::begin(100, 1, b"127.0.0.1:8000\0".to_vec()));
    match handler.handle_message(begin_msg).unwrap() {
        Action::Connect { stream_id, destination } => {
            assert_eq!(stream_id, 1);
            assert_eq!(destination, "127.0.0.1:8000");
        }
        other => panic!("{:?}", other),
    }
    let connected = handler.connected(1).unwrap();
    assert_eq!(connected.command, MessageCommand::Connected);
    assert_eq!(connected.circuit_id, 100);
    assert_eq!(connected.stream_id, 1);
    assert!(client.open(&connected).is_empty());
    handler.open_stream(1, "127.0.0.1:8000".to_string());

    // Data goes both ways.
    let data_msg = client.seal(Message::data(100, 1, b"GET /".to_vec()));
    match handler.handle_message(data_msg).unwrap() {
        Action::Deliver { stream_id, data } => {
            assert_eq!(stream_id, 1);
            assert_eq!(data, b"GET /");
        }
        other => panic!("{:?}", other),
    }
    let answer = vec![7u8; 1200];
    let output = handler.handle_stream(1, StreamInput::Read(answer.clone()));
    assert!(!output.stop);
    let mut received = Vec::new();
    for cell in &output.cells {
        assert_eq!(cell.command, MessageCommand::Data);
        assert!(cell.to_cell().is_ok());
        received.extend(client.open(cell));
    }
    assert_eq!(received, answer);
    assert!(matches!(
        output.event,
        Some(EventKind::StreamData { bytes: 1200, direction: Direction::Backward, .. })
    ));

    // The destination closes.
    let output = handler.handle_stream(1, StreamInput::Read(vec![]));
    assert!(output.stop);
    assert_eq!(output.cells.len(), 1);
    assert_eq!(output.cells[0].command, MessageCommand::End);
    client.open(&output.cells[0]);
}

#[test]
fn test_exit_begin_unreachable_destination() {
    let (mut handler, mut client) = exit(100);
    let begin_msg = client.seal(Message::begin(100, 2, b"127.0.0.1:1\0".to_vec()));
    assert!(matches!(
        handler.handle_message(begin_msg).unwrap(),
        Action::Connect { stream_id: 2, .. }
    ));
    let response = handler
        .connect_failed(2, "Connection refused (os error 111)")
        .unwrap();
    assert_eq!(response.command, MessageCommand::End);
    assert_eq!(response.stream_id, 2);
    let reason = client.open(&response);
    assert_eq!(
        String::from_utf8_lossy(&reason),
        "Connection failed: Connection refused (os error 111)"
    );
}

#[test]
fn exits_refuse_a_wrong_digest() {
    let (mut handler, mut client) = exit(3);
    let mut msg = client.seal(Message::data(3, 1, b"hello".to_vec()));
    msg.digest[0] ^= 1;
    assert!(handler.handle_message(msg).is_err());
    let (mut handler, mut client) = exit(3);
    let mut msg = client.seal(Message::data(3, 1, b"hello".to_vec()));
    msg.data[2] ^= 1;
    assert!(handler.handle_message(msg).is_err());
}

#[test]
fn destinations_are_text() {
    let (mut handler, mut client) = exit(3);
    let msg = client.seal(Message::begin(3, 1, vec![0x61, 0x80, 0]));
    let complaint = handler.handle_message(msg).unwrap_err();
    assert!(
        complaint.contains("invalid utf-8 sequence of 1 bytes from index 1"),
        "{}",
        complaint
    );
}

#[test]
fn ended_streams_are_gone() {
    let (mut handler, mut client) = exit(3);
    handler.open_stream(9, "h:1".to_string());
    let msg = client.seal(Message::end(3, 9, vec![]));
    match handler.handle_message(msg).unwrap() {
        Action::CloseStream { stream_id, reply } => {
            assert_eq!(stream_id, 9);
            assert_eq!(reply.command, MessageCommand::End);
            client.open(&reply);
        }
        other => panic!("{:?}", other),
    }
    let msg = client.seal(Message::data(3, 9, b"late".to_vec()));
    let end = reply(handler.handle_message(msg));
    assert_eq!(end.command, MessageCommand::End);
    // A destination that cannot be written to ends its stream.
    handler.open_stream(4, "h:1".to_string());
    client.open(&end);
    let closed = handler.destination_closed(4).unwrap();
    assert_eq!(String::from_utf8_lossy(&client.open(&closed)), "Destination closed");
    assert!(matches!(
        handler.delivered(4, 12),
        EventKind::StreamData { circuit_id: 3, stream_id: 4, bytes: 12, direction: Direction::Forward }
    ));
    assert!(matches!(
        handler.stream_closed(4),
        EventKind::StreamClosed { circuit_id: 3, stream_id: 4 }
    ));
}

#[test]
fn destinations_that_fail_end_the_stream() {
    let (mut handler, _) = exit(3);
    let output = handler.handle_stream(1, StreamInput::ReadFailed("reset".to_string()));
    assert!(output.stop);
    let output = handler.handle_stream(1, StreamInput::NoMoreOutgoing);
    assert!(output.stop);
    let output = handler.handle_stream(1, StreamInput::Outgoing(b"x".to_vec()));
    assert_eq!(output.deliver.unwrap(), b"x");
    assert!(!output.stop);
}

// ---- the circuits of a node ----

#[test]
fn messages_reach_their_circuit_alone() {
    let keypair = KeyPair::generate();
    let mut reg = CircuitRegistry::new();
    for id in [5u32, 6] {
        let ephemeral = EphemeralKeyPair::generate();
        let create = Message::create(id, ephemeral.public.bytes.to_vec());
        match reg.handle_step(NodeType::Middle, &keypair, create) {
            Step::Create { handler, reply } => {
                assert_eq!(reply.command, MessageCommand::Created);
                reg.add_circuit(id, handler);
            }
            _ => panic!("another step"),
        }
    }
    assert_eq!(reg.circuit_count(), 2);
    match reg.handle_step(NodeType::Middle, &keypair, Message::destroy(5)) {
        Step::Act { action, spawn_reader } => {
            assert!(matches!(action, Action::Closed));
            assert!(!spawn_reader);
        }
        _ => panic!("another step"),
    }
    let mut summaries = reg.circuit_summaries();
    summaries.sort_by_key(|s| s.0);
    assert_eq!(summaries, [(5, CircuitState::Closed), (6, CircuitState::Active)]);
    assert!(reg.get_circuit(6).unwrap().session_key().is_some());
    assert!(reg.get_circuit(7).is_none());
    assert!(reg.handle_message(Message::data(7, 1, vec![])).is_err());
    assert!(reg.handle_backward_message(Message::data(7, 1, vec![])).is_err());
    let back = reg.handle_backward_message(Message::data(6, 2, b"x".to_vec())).unwrap();
    assert_eq!(back.stream_id, 2);
    assert_ne!(back.data, b"x");
    reg.get_circuit_mut(6).unwrap().close();
    assert!(reg.remove_circuit(6).is_some());
    assert!(reg.remove_circuit(6).is_none());
    assert_eq!(reg.circuit_count(), 1);
    match reg.handle_step(NodeType::Exit, &keypair, Message::data(9, 1, vec![])) {
        Step::HangUp(_) => {}
        _ => panic!("another step"),
    }
}

#[test]
fn circuits_of_every_type_are_accepted() {
    let keypair = KeyPair::generate();
    for node_type in [NodeType::Entry, NodeType::Middle, NodeType::Exit] {
        let ephemeral = EphemeralKeyPair::generate();
        let create = Message::create(8, ephemeral.public.bytes.to_vec());
        let (handler, reply) = accept_create(node_type, &keypair, create).unwrap();
        assert_eq!(handler.state(), CircuitState::Active);
        assert_eq!(handler.circuit_id(), 8);
        assert_eq!(client_key(ephemeral, &reply), *handler.session_key().unwrap());
        assert!(handler.has_room(4096));
        match (node_type, &handler) {
            (NodeType::Entry, CircuitHandler::Entry(_)) => {}
            (NodeType::Middle, CircuitHandler::Middle(_)) => {}
            (NodeType::Exit, CircuitHandler::Exit(_)) => {}
            _ => panic!("wrong handler"),
        }
    }
    let create = Message::create(8, vec![1; 31]);
    assert!(accept_create(NodeType::Exit, &keypair, create).is_err());
    assert!(should_spawn_reader(MessageCommand::Extended));
    assert!(should_spawn_reader(MessageCommand::Extend));
    assert!(!should_spawn_reader(MessageCommand::Data));
}

// ---- figures and the dashboard ----

#[test]
fn relays_count_what_happens() {
    let mut m = RelayMetrics::new(at(10));
    m.record(at(11), EventKind::ConnectionAccepted { peer: "p".to_string() });
    m.record(at(12), EventKind::CircuitCreated { circuit_id: 1 });
    m.record(
        at(13),
        EventKind::StreamData {
            circuit_id: 1,
            stream_id: 2,
            bytes: 100,
            direction: Direction::Forward,
        },
    );
    m.record(at(14), returned_cell(1, MessageCommand::Data, 30));
    m.record(
        at(15),
        EventKind::StreamOpened { circuit_id: 1, stream_id: 2, destination: "d".to_string() },
    );
    m.record(at(16), EventKind::CircuitDestroyed { circuit_id: 1 });
    m.connections_accepted += 1;
    assert_eq!(m.get_connections(), 1);
    assert_eq!(m.get_circuits_created(), 0);
    assert_eq!(m.get_circuits_destroyed(), 0);
    assert_eq!(m.get_bytes_forwarded(), 100);
    assert_eq!(m.get_bytes_received(), 30);
    assert_eq!(m.get_streams_opened(), 1);
    assert_eq!(m.uptime(at(20)), at(10));
    let snapshot = m.event_snapshot();
    assert_eq!(snapshot.len(), 6);
    assert_eq!(snapshot[5], "[+0:00:01] ← ACCEPT    from p");
    assert_eq!(snapshot[0], "[+0:00:06] ✗ DESTROY   cid=1");
}

#[test]
fn relay_events_in_plain_text() {
    let cases = [
        (EventKind::ConnectionClosed { peer: "p".to_string() }, "— CLOSED    conn from p"),
        (EventKind::CircuitCreated { circuit_id: 7 }, "⚙ CREATE    cid=7"),
        (
            EventKind::CircuitExtended { circuit_id: 7, next_hop: "h:1".to_string() },
            "→ EXTEND    cid=7 → h:1",
        ),
        (
            EventKind::RelayForward { circuit_id: 7, command: MessageCommand::Data, bytes: 2048 },
            "→ RELAY→   cid=7 DATA [2.0 KB]",
        ),
        (
            EventKind::RelayBackward { circuit_id: 7, command: MessageCommand::End, bytes: 5 },
            "← RELAY←   cid=7 END [5 B]",
        ),
        (
            EventKind::StreamOpened { circuit_id: 7, stream_id: 8, destination: "d".to_string() },
            "→ STREAM    cid=7 sid=8 → d",
        ),
        (EventKind::StreamClosed { circuit_id: 7, stream_id: 8 }, "— END       cid=7 sid=8"),
        (
            EventKind::StreamData {
                circuit_id: 7,
                stream_id: 8,
                bytes: 9,
                direction: Direction::Forward,
            },
            "↔ DATA      cid=7 sid=8 [9 B]",
        ),
        (EventKind::Error { message: "m".to_string() }, "✗ ERROR     m"),
    ];
    for (kind, text) in cases {
        assert_eq!(format_event_string(&kind), text);
    }
}

#[test]
fn the_relay_dashboard() {
    let mut m = RelayMetrics::new(at(0));
    m.record(at(1), EventKind::CircuitCreated { circuit_id: 1 });
    m.record(at(2), EventKind::Error { message: "bad".to_string() });
    m.record(at(3), EventKind::StreamClosed { circuit_id: 1, stream_id: 2 });
    assert_eq!(collect_event_lines(&m, FilterMode::All).len(), 3);
    let circuits = collect_event_lines(&m, FilterMode::Circuits);
    assert_eq!(circuits.len(), 1);
    assert_eq!(circuits[0].time.text, " +0:00:01 ");
    assert_eq!(collect_event_lines(&m, FilterMode::Streams).len(), 1);
    let errors = collect_event_lines(&m, FilterMode::Errors);
    assert_eq!(errors[0].detail.text, "bad");
    assert!(matches_event(&EventKind::CircuitCreated { circuit_id: 1 }, FilterMode::Circuits));
    assert!(!matches_event(&EventKind::CircuitCreated { circuit_id: 1 }, FilterMode::Errors));
    let line = format_event(&TuiEvent {
        elapsed: at(1),
        kind: EventKind::CircuitDestroyed { circuit_id: 4 },
    });
    assert_eq!(line.label.tint, Tint::Red);
    let mut state = TuiState::new();
    assert!(!state.press('p', false));
    assert!(!state.press('3', false));
    assert_eq!(state.filter, FilterMode::Streams);
    assert_eq!(relay_log_title(5, state), " Activity Log (5) [PAUSED] [Streams] ");
    assert!(state.press('c', true));
    assert!(!state.press('c', false));
    assert_eq!(relay_log_title(0, TuiState::new()), " Activity Log (0) ");
    let header = build_header_spans(&m, NodeType::Exit, "h:1", 1, at(61));
    let text: String = header.iter().map(|s| s.text.as_str()).collect();
    assert_eq!(
        text,
        " EXIT  h:1  │ Up 1m1s │ Conns 0 │ Circuits 1 active / 0 total / 0 destroyed │ ↑ 0 B ↓ 0 B │ Streams 0"
    );
    assert_eq!(build_header_spans(&m, NodeType::Entry, "h:1", 1, at(61)).len(), header.len() - 1);
    let rows = build_stats(&m, NodeType::Middle, at(61));
    assert_eq!(rows[0].left, "1m1s                ");
    assert_eq!(rows[1].right_label, " ↑ Forward   ");
    assert_eq!(build_stats(&m, NodeType::Exit, at(61))[1].right_label, " Streams     ");
    let (id, badge) = circuit_row(42, CircuitState::Active);
    assert_eq!(id, "00042");
    assert_eq!(badge.text, "Active");
    assert_eq!(badge.tint, Tint::Green);
}

#[test]
fn the_help_line_names_the_keys() {
    let spans = build_help(NodeType::Middle, FilterMode::Errors);
    let text: String = spans.iter().map(|s| s.text.as_str()).collect();
    assert_eq!(
        text,
        " p Pause  1 All  2 Circuits  3 Streams  4 Errors  q Quit   Filter: Errors"
    );
    assert_eq!(spans[0].tint, Tint::Yellow);
    assert!(spans[0].bold);
    assert_eq!(spans[1].tint, Tint::DarkGray);
    assert!(!spans[1].bold);
    assert_eq!(build_help(NodeType::Exit, FilterMode::All)[2].tint, Tint::Red);
    assert_eq!(relay_title(NodeType::Exit), " Exit Relay ");
    assert_eq!(circuits_title(3), " Circuits (3) ");
}
