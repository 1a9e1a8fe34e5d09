//! The middle relay of a circuit, which knows neither the client nor the destination.

use crate::bytes::before_zero;
use crate::bytes::find_zero;
use crate::bytes::slice_vec;
use crate::bytes::text_ends_at_zero;
use crate::crypto::cipher_pairs_undo_each_other;
use crate::crypto::is_key_pair;
use crate::crypto::sha256_hash;
use crate::crypto::x25519_shared;
use crate::crypto::CipherView;
use crate::crypto::SessionKey;
use crate::crypto::SessionKeyView;
use crate::protocol::CircuitId;
use crate::protocol::Message;
use crate::protocol::MessageCommand;
use crate::protocol::MessageView;
use crate::relay::circuit::created_keys_agree;
use crate::relay::circuit::is_action;
use crate::relay::circuit::is_message;
use crate::relay::circuit::opt_message;
use crate::relay::circuit::Action;
use crate::relay::circuit::ActionView;
use crate::relay::circuit::CircuitContext;
use crate::relay::circuit::CircuitState;
use crate::relay::circuit::NextHop;
use crate::relay::circuit::RelayView;
use crate::relay::keypair::KeyPair;
use crate::relay::metrics::EventContent;
use crate::relay::metrics::EventKind;
use crate::text::utf8_complaint;
use crate::text::utf8_text;
use vstd::prelude::*;
use vstd::string::*;
use vstd::utf8::decode_utf8;
use vstd::utf8::encode_utf8;
use vstd::utf8::valid_utf8;

verus! {

/// The middle relay of a circuit.
pub struct MiddleCircuitHandler {
    context: CircuitContext,
    keypair: KeyPair,
    next_hop: Option<NextHop>,
}

impl View for MiddleCircuitHandler {
    type V = RelayView;

    closed spec fn view(&self) -> RelayView {
        RelayView {
            context: self.context@,
            secret: self.keypair.secret_part(),
            public: self.keypair.public_part(),
            next_hop: self.next_hop,
        }
    }
}

/// The request in the payload of an `extend` message: the address in front of the first zero, and
/// what follows that zero.
pub open spec fn extend_request(payload: Seq<u8>) -> Result<ActionView, Seq<char>> {
    let n = before_zero(payload);
    let address = payload.subrange(0, n as int);
    if n == payload.len() {
        Err("No null terminator in EXTEND address"@)
    } else if !valid_utf8(address) {
        Err(utf8_complaint(address))
    } else {
        Ok(
            ActionView::Extend {
                address: decode_utf8(address),
                payload: payload.subrange(n as int + 1, payload.len() as int),
            },
        )
    }
}

impl RelayView {
    /// A middle relay after an `extend` message: it takes off its layer and connects to the relay
    /// named inside.
    pub open spec fn after_extend(self, msg: MessageView) -> (
        RelayView,
        Result<ActionView, Seq<char>>,
    ) {
        match self.context.cipher {
            None => (self, Err("No cipher pair established for EXTEND"@)),
            Some(c) => (
                self.with_context(self.context.with_cipher(c.forwarded(msg.data.len()))),
                extend_request(c.forward(msg.data)),
            ),
        }
    }

    /// A middle relay after a cell from the client: it takes off its layer and passes the cell on.
    pub open spec fn after_relay(self, msg: MessageView) -> (
        RelayView,
        Result<ActionView, Seq<char>>,
    ) {
        match self.context.cipher {
            None => (self, Err("No cipher pair established"@)),
            Some(c) => (
                self.with_context(self.context.with_cipher(c.forwarded(msg.data.len()))),
                Ok(
                    match self.next_hop {
                        Some(_) => ActionView::Forward(
                            MessageView { data: c.forward(msg.data), ..msg },
                        ),
                        None => ActionView::Nothing,
                    },
                ),
            ),
        }
    }

    /// A middle relay after a cell from the exit: it puts on its layer and passes the cell back.
    pub open spec fn after_backward(self, msg: MessageView) -> (
        RelayView,
        Result<MessageView, Seq<char>>,
    ) {
        match self.context.cipher {
            None => (self, Err("No cipher pair established"@)),
            Some(c) => (
                self.with_context(self.context.with_cipher(c.returned(msg.data.len()))),
                Ok(MessageView { data: c.backward(msg.data), ..msg }),
            ),
        }
    }

    /// A middle relay after a message from the side of the client.
    pub open spec fn after_message(self, msg: MessageView) -> (
        RelayView,
        Result<ActionView, Seq<char>>,
    ) {
        match msg.command {
            MessageCommand::Create => self.after_create(msg),
            MessageCommand::Extend => self.after_extend(msg),
            MessageCommand::Extended => (
                self,
                if msg.data.len() < 32 {
                    Err("EXTENDED message too short"@)
                } else {
                    Ok(ActionView::Reply(msg))
                },
            ),
            MessageCommand::Data | MessageCommand::Begin | MessageCommand::End
            | MessageCommand::Connected => self.after_relay(msg),
            MessageCommand::Destroy => (self.closed(), Ok(ActionView::Closed)),
            MessageCommand::Padding | MessageCommand::Created => (
                self,
                Err("Unexpected command: "@ + msg.command.debug_text()),
            ),
        }
    }

    /// The `create` message that a middle relay sends to the next relay.
    pub open spec fn create_for(self, payload: Seq<u8>) -> Result<MessageView, Seq<char>> {
        if payload.len() < 32 {
            Err("EXTEND message missing public key"@)
        } else {
            Ok(
                MessageView::plain(
                    self.context.circuit_id,
                    0,
                    MessageCommand::Create,
                    payload.subrange(0, 32),
                ),
            )
        }
    }

    /// A middle relay after the answer of the next relay, and the `extended` message for the
    /// client.
    pub open spec fn after_answer(self, answer: Option<MessageView>) -> (
        RelayView,
        Result<MessageView, Seq<char>>,
    ) {
        match answer {
            None => (self, Err("Connection closed waiting for CREATED"@)),
            Some(m) => if m.command != MessageCommand::Created {
                (self, Err("Expected CREATED, got "@ + m.command.debug_text()))
            } else if m.data.len() < 32 {
                (self, Err("CREATED response too short"@))
            } else {
                let connected = RelayView { next_hop: Some(NextHop { read: true }), ..self };
                match self.context.cipher {
                    None => (connected, Err("No cipher pair established"@)),
                    Some(c) => (
                        connected.with_context(
                            self.context.with_cipher(c.returned(m.data.len())),
                        ),
                        Ok(
                            MessageView::plain(
                                self.context.circuit_id,
                                0,
                                MessageCommand::Extended,
                                c.backward(m.data),
                            ),
                        ),
                    ),
                }
            },
        }
    }
}

/// Reads the request in the payload of an `extend` message.
fn read_request(payload: &[u8]) -> (r: Result<Action, String>)
    ensures
        is_action(r, extend_request(payload@)),
{
    broadcast use vstd::utf8::encode_utf8_decode_utf8;

    let n = find_zero(payload);
    if n == payload.len() {
        return Err("No null terminator in EXTEND address".to_owned());
    }
    let bytes = slice_vec(payload, 0, n);
    match utf8_text(bytes.as_slice()) {
        Ok(address) => Ok(
            Action::Extend { address, payload: slice_vec(payload, n + 1, payload.len()) },
        ),
        Err(e) => Err(e),
    }
}

impl MiddleCircuitHandler {
    /// A middle relay on a new circuit.
    pub fn new(circuit_id: CircuitId, keypair: KeyPair) -> (r: Self)
        ensures
            r@ == RelayView::fresh(circuit_id, keypair.secret_part(), keypair.public_part()),
    {
        Self { context: CircuitContext::new(circuit_id), keypair, next_hop: None }
    }

    /// Answers a `create` message.
    pub fn handle_create(&mut self, msg: &Message) -> (r: Result<Action, String>)
        ensures
            final(self)@ == old(self)@.after_create(msg@).0,
            is_action(r, old(self)@.after_create(msg@).1),
    {
        match self.context.answer_create(&self.keypair, msg) {
            Ok(m) => Ok(Action::Reply(m)),
            Err(e) => Err(e),
        }
    }

    /// Takes the relay's layer off an `extend` message and reads whom to connect to.
    pub fn handle_extend(&mut self, msg: &Message) -> (r: Result<Action, String>)
        requires
            old(self)@.has_room(msg@.data.len()),
        ensures
            final(self)@ == old(self)@.after_extend(msg@).0,
            is_action(r, old(self)@.after_extend(msg@).1),
    {
        match &mut self.context.cipher_pair {
            None => Err("No cipher pair established for EXTEND".to_owned()),
            Some(cipher) => {
                let plain = cipher.forward_vec(msg.data.as_slice());
                read_request(plain.as_slice())
            },
        }
    }

    /// The `create` message for the next relay.
    pub fn create_for(&self, payload: &[u8]) -> (r: Result<Message, String>)
        ensures
            is_message(r, self@.create_for(payload@)),
    {
        if payload.len() < 32 {
            return Err("EXTEND message missing public key".to_owned());
        }
        Ok(Message::create(self.context.circuit_id, slice_vec(payload, 0, 32)))
    }

    /// Takes the answer of the next relay, which stands at `next_hop`: its public key goes back
    /// to the client under the relay's layer.
    pub fn finish_extend(&mut self, answer: Option<Message>, next_hop: String) -> (r: Result<
        (Message, EventKind),
        String,
    >)
        requires
            answer matches Some(m) ==> old(self)@.has_room(m@.data.len()),
        ensures
            final(self)@ == old(self)@.after_answer(opt_message(answer)).0,
            match r {
                Ok((m, event)) => {
                    &&& is_message(Ok(m), old(self)@.after_answer(opt_message(answer)).1)
                    &&& event@ == (EventContent::CircuitExtended {
                        circuit_id: old(self)@.context.circuit_id,
                        next_hop: next_hop@,
                    })
                },
                Err(e) => is_message(Err(e), old(self)@.after_answer(opt_message(answer)).1),
            },
    {
        let m = match answer {
            None => {
                return Err("Connection closed waiting for CREATED".to_owned());
            },
            Some(m) => m,
        };
        if m.command != MessageCommand::Created {
            return Err(m.command.complaint("Expected CREATED, got "));
        }
        if m.data.len() < 32 {
            return Err("CREATED response too short".to_owned());
        }
        self.next_hop = Some(NextHop::new());
        let circuit_id = self.context.circuit_id;
        match &mut self.context.cipher_pair {
            None => Err("No cipher pair established".to_owned()),
            Some(cipher) => {
                let data = cipher.backward_vec(m.data.as_slice());
                Ok(
                    (
                        Message::extended(circuit_id, data),
                        EventKind::CircuitExtended { circuit_id, next_hop },
                    ),
                )
            },
        }
    }

    /// Takes the relay's layer off a cell from the client, for the next relay.
    pub fn handle_relay(&mut self, msg: Message) -> (r: Result<Action, String>)
        requires
            old(self)@.has_room(msg@.data.len()),
        ensures
            final(self)@ == old(self)@.after_relay(msg@).0,
            is_action(r, old(self)@.after_relay(msg@).1),
    {
        match &mut self.context.cipher_pair {
            None => Err("No cipher pair established".to_owned()),
            Some(cipher) => {
                let data = cipher.forward_vec(msg.data.as_slice());
                if self.next_hop.is_some() {
                    Ok(Action::Forward(Message { data, ..msg }))
                } else {
                    Ok(Action::Nothing)
                }
            },
        }
    }

    /// Puts the relay's layer on a cell from the exit, for the client.
    pub fn handle_backward_relay(&mut self, msg: Message) -> (r: Result<Message, String>)
        requires
            old(self)@.has_room(msg@.data.len()),
        ensures
            final(self)@ == old(self)@.after_backward(msg@).0,
            is_message(r, old(self)@.after_backward(msg@).1),
    {
        match &mut self.context.cipher_pair {
            None => Err("No cipher pair established".to_owned()),
            Some(cipher) => {
                let data = cipher.backward_vec(msg.data.as_slice());
                Ok(Message { data, ..msg })
            },
        }
    }

    /// Takes a message from the side of the client.
    pub fn handle_message(&mut self, msg: Message) -> (r: Result<Action, String>)
        requires
            old(self)@.has_room(msg@.data.len()),
        ensures
            final(self)@ == old(self)@.after_message(msg@).0,
            is_action(r, old(self)@.after_message(msg@).1),
    {
        match msg.command {
            MessageCommand::Create => self.handle_create(&msg),
            MessageCommand::Extend => self.handle_extend(&msg),
            MessageCommand::Extended => {
                if msg.data.len() < 32 {
                    Err("EXTENDED message too short".to_owned())
                } else {
                    Ok(Action::Reply(msg))
                }
            },
            MessageCommand::Data | MessageCommand::Begin | MessageCommand::End
            | MessageCommand::Connected => self.handle_relay(msg),
            MessageCommand::Destroy => {
                self.close();
                Ok(Action::Closed)
            },
            MessageCommand::Padding | MessageCommand::Created => Err(
                msg.command.complaint("Unexpected command: "),
            ),
        }
    }

    /// The number of the circuit.
    pub fn circuit_id(&self) -> (r: CircuitId)
        ensures
            r == self@.context.circuit_id,
    {
        self.context.circuit_id
    }

    /// The state of the circuit.
    pub fn state(&self) -> (r: CircuitState)
        ensures
            r == self@.context.state,
    {
        self.context.state
    }

    /// The session key, if there is one.
    pub fn session_key(&self) -> (r: Option<&SessionKey>)
        ensures
            match r {
                Some(key) => self@.context.session_key == Some(key@),
                None => self@.context.session_key is None,
            },
    {
        self.context.session_key.as_ref()
    }

    /// Whether `n` more bytes can be counted in both directions.
    pub fn has_room(&self, n: usize) -> (r: bool)
        ensures
            r == self@.has_room(n as nat),
    {
        match &self.context.cipher_pair {
            Some(cipher) => cipher.has_room(n),
            None => true,
        }
    }

    /// Drops the keys and the connection.
    pub fn close(&mut self)
        ensures
            final(self)@ == old(self)@.closed(),
    {
        self.context.close();
        self.next_hop = None;
    }

    /// Hands out the reading side of the connection to the next relay, if there is one and nobody
    /// reads from it yet.
    pub fn take_reader(&mut self) -> (r: bool)
        ensures
            r == (old(self)@.next_hop == Some(NextHop { read: true })),
            final(self)@ == (RelayView {
                next_hop: match old(self)@.next_hop {
                    Some(_) => Some(NextHop { read: false }),
                    None => None,
                },
                ..old(self)@
            }),
    {
        match &mut self.next_hop {
            Some(hop) => hop.take_read(),
            None => false,
        }
    }
}

/// A middle relay whose cipher is in step with the client's takes off exactly the layer that the
/// client put on, passes the digest on untouched, and stays in step.
pub proof fn middle_takes_off_one_layer(
    relay: RelayView,
    client: CipherView,
    inner: Seq<u8>,
    msg: MessageView,
)
    requires
        relay.context.cipher == Some(client),
        relay.next_hop is Some,
        msg.data == client.forward(inner),
        msg.command == MessageCommand::Data || msg.command == MessageCommand::Begin || msg.command
            == MessageCommand::End || msg.command == MessageCommand::Connected,
    ensures
        relay.after_message(msg).1 == Ok::<ActionView, Seq<char>>(
            ActionView::Forward(MessageView { data: inner, ..msg }),
        ),
        relay.after_message(msg).0.context.cipher == Some(client.forwarded(inner.len())),
{
    cipher_pairs_undo_each_other(client, inner);
}

/// A middle relay whose cipher is in step with the client's puts on exactly the layer that the
/// client takes off, passes the digest on untouched, and stays in step.
pub proof fn middle_puts_on_one_layer(relay: RelayView, client: CipherView, msg: MessageView)
    requires
        relay.context.cipher == Some(client),
    ensures
        ({
            let (after, sent) = relay.after_backward(msg);
            &&& sent is Ok
            &&& client.backward(sent->Ok_0.data) == msg.data
            &&& sent->Ok_0.digest == msg.digest
            &&& after.context.cipher == Some(client.returned(sent->Ok_0.data.len()))
        }),
{
    cipher_pairs_undo_each_other(client, msg.data);
}

/// A middle relay reads the address and the key that a client wrote into an `extend` message.
pub proof fn extend_request_reads_back(address: Seq<char>, key: Seq<u8>)
    requires
        !address.contains('\0'),
    ensures
        extend_request(encode_utf8(address) + seq![0u8] + key) == Ok::<ActionView, Seq<char>>(
            ActionView::Extend { address, payload: key },
        ),
{
    text_ends_at_zero(address, key);
}

/// A relay that was told to destroy the circuit has no keys left and refuses every cell, until
/// the circuit is created anew.
pub proof fn destroyed_circuits_refuse_cells(
    relay: RelayView,
    destroy: MessageView,
    msg: MessageView,
)
    requires
        destroy.command == MessageCommand::Destroy,
    ensures
        ({
            let after = relay.after_message(destroy).0;
            &&& after.context.session_key is None
            &&& after.context.cipher is None
            &&& after.next_hop is None
            &&& after.after_backward(msg).1 is Err
            &&& after.after_relay(msg).1 is Err
            &&& after.after_extend(msg).1 is Err
        }),
{
}

/// A middle relay extends the circuit to the relay that the client names, with the key that the
/// client sends for it: the request comes out as the client put it in, and the `create` message for
/// the next relay holds that key and nothing else.
pub proof fn middle_extends_where_the_client_asked(
    relay: RelayView,
    client: CipherView,
    address: Seq<char>,
    key: Seq<u8>,
    msg: MessageView,
)
    requires
        relay.context.cipher == Some(client),
        !address.contains('\0'),
        key.len() == 32,
        msg.command == MessageCommand::Extend,
        msg.data == client.forward(encode_utf8(address) + seq![0u8] + key),
    ensures
        ({
            let (after, outcome) = relay.after_message(msg);
            &&& outcome == Ok::<ActionView, Seq<char>>(
                ActionView::Extend { address, payload: key },
            )
            &&& after.context.cipher == Some(client.forwarded(msg.data.len()))
            &&& after.next_hop == relay.next_hop
            &&& relay.create_for(key) is Ok
            &&& relay.create_for(key)->Ok_0.circuit_id == relay.context.circuit_id
            &&& relay.create_for(key)->Ok_0.command == MessageCommand::Create
            &&& relay.create_for(key)->Ok_0.data == key
        }),
{
    let inner = encode_utf8(address) + seq![0u8] + key;
    cipher_pairs_undo_each_other(client, inner);
    extend_request_reads_back(address, key);
    assert(key.subrange(0, 32) =~= key);
}

/// When the next relay answers, the client gets the whole of the answer under the relay's layer,
/// and the relay has its connection. When the answer is missing, of another kind or too short, the
/// relay has no connection that it did not have before, and nothing goes back.
pub proof fn middle_hands_back_the_answer(
    relay: RelayView,
    client: CipherView,
    answer: MessageView,
)
    requires
        relay.context.cipher == Some(client),
    ensures
        ({
            let (after, sent) = relay.after_answer(Some(answer));
            let good = answer.command == MessageCommand::Created && answer.data.len() >= 32;
            &&& good ==> {
                &&& sent is Ok
                &&& sent->Ok_0.circuit_id == relay.context.circuit_id
                &&& sent->Ok_0.command == MessageCommand::Extended
                &&& client.backward(sent->Ok_0.data) == answer.data
                &&& after.context.cipher == Some(client.returned(answer.data.len()))
                &&& after.next_hop == Some(NextHop { read: true })
            }
            &&& !good ==> sent is Err && after == relay
        }),
        relay.after_answer(None).1 is Err && relay.after_answer(None).0 == relay,
{
    cipher_pairs_undo_each_other(client, answer.data);
}

/// A cell passes a middle relay with its circuit, its stream and its command as they are, in both
/// directions; without a next relay, it goes nowhere.
pub proof fn middle_passes_cells_on(relay: RelayView, client: CipherView, msg: MessageView)
    requires
        relay.context.cipher == Some(client),
        msg.command == MessageCommand::Data || msg.command == MessageCommand::Begin || msg.command
            == MessageCommand::End || msg.command == MessageCommand::Connected,
    ensures
        ({
            let (after, outcome) = relay.after_message(msg);
            &&& outcome is Ok
            &&& after.next_hop == relay.next_hop
            &&& relay.next_hop is None ==> outcome->Ok_0 is Nothing
            &&& relay.next_hop is Some ==> {
                &&& outcome->Ok_0 is Forward
                &&& outcome->Ok_0->Forward_0.circuit_id == msg.circuit_id
                &&& outcome->Ok_0->Forward_0.stream_id == msg.stream_id
                &&& outcome->Ok_0->Forward_0.command == msg.command
                &&& outcome->Ok_0->Forward_0.digest == msg.digest
                &&& outcome->Ok_0->Forward_0.data.len() == msg.data.len()
                &&& client.forward(outcome->Ok_0->Forward_0.data) == msg.data
            }
        }),
        ({
            let (after, sent) = relay.after_backward(msg);
            &&& sent is Ok
            &&& sent->Ok_0.circuit_id == msg.circuit_id
            &&& sent->Ok_0.stream_id == msg.stream_id
            &&& sent->Ok_0.command == msg.command
            &&& sent->Ok_0.digest == msg.digest
            &&& sent->Ok_0.data.len() == msg.data.len()
            &&& client.backward(sent->Ok_0.data) == msg.data
            &&& after.next_hop == relay.next_hop
        }),
{
    cipher_pairs_undo_each_other(client, msg.data);
}

/// A `create` message with a public key gives a relay the session key of the exchange and fresh
/// ciphers; one that is too short changes nothing and is refused.
pub proof fn created_relays_hold_the_key(
    relay: RelayView,
    client_secret: Seq<u8>,
    client_public: Seq<u8>,
    msg: MessageView,
)
    requires
        is_key_pair(relay.secret, relay.public),
        is_key_pair(client_secret, client_public),
        msg.command == MessageCommand::Create,
    ensures
        ({
            let (after, outcome) = relay.after_message(msg);
            let secret = sha256_hash(x25519_shared(client_secret, relay.public));
            let key = SessionKeyView {
                forward: secret.subrange(0, 16),
                backward: secret.subrange(16, 32),
            };
            &&& msg.data.len() >= 32 && msg.data.subrange(0, 32) == client_public ==> {
                &&& outcome == Ok::<ActionView, Seq<char>>(
                    ActionView::Reply(
                        MessageView {
                            circuit_id: relay.context.circuit_id,
                            stream_id: 0,
                            command: MessageCommand::Created,
                            data: relay.public,
                            digest: seq![0, 0, 0, 0],
                        },
                    ),
                )
                &&& after.context.state == CircuitState::Active
                &&& after.context.session_key == Some(key)
                &&& after.context.cipher == Some(
                    CipherView { key, forward_pos: 0, backward_pos: 0 },
                )
            }
            &&& msg.data.len() < 32 ==> outcome is Err && after == relay
        }),
{
    if msg.data.len() >= 32 && msg.data.subrange(0, 32) == client_public {
        created_keys_agree(
            relay.context,
            relay.secret,
            relay.public,
            client_secret,
            client_public,
            msg,
        );
    }
}

/// A middle relay passes an `extended` message from further along on to the client as it is, if it
/// holds a key; commands that a client never sends to it are refused, and change nothing.
pub proof fn middle_refuses_what_is_not_for_it(relay: RelayView, msg: MessageView)
    ensures
        msg.command == MessageCommand::Extended && msg.data.len() >= 32 ==> relay.after_message(
            msg,
        ) == (relay, Ok::<ActionView, Seq<char>>(ActionView::Reply(msg))),
        msg.command == MessageCommand::Extended && msg.data.len() < 32 ==> relay.after_message(
            msg,
        ).1 is Err && relay.after_message(msg).0 == relay,
        msg.command == MessageCommand::Padding || msg.command == MessageCommand::Created
            ==> relay.after_message(msg).1 is Err && relay.after_message(msg).0 == relay,
{
}

}
