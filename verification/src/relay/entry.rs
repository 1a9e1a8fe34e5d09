//! The entry relay of a circuit, which knows the client but not the destination.

use crate::bytes::before_zero;
use crate::bytes::find_zero;
use crate::bytes::slice_vec;
use crate::bytes::text_ends_at_zero;
use crate::crypto::aes_decrypt;
use crate::crypto::aes_encrypt;
use crate::crypto::aes_opened;
use crate::crypto::aes_opens_what_it_sealed;
use crate::crypto::aes_sealed;
use crate::crypto::SessionKey;
use crate::crypto::SessionKeyView;
use crate::protocol::CircuitId;
use crate::protocol::Message;
use crate::protocol::MessageCommand;
use crate::protocol::MessageView;
use crate::relay::circuit::is_action;
use crate::relay::circuit::opt_message;
use crate::relay::circuit::Action;
use crate::relay::circuit::ActionView;
use crate::relay::circuit::CircuitContext;
use crate::relay::circuit::CircuitState;
use crate::relay::circuit::NextHop;
use crate::relay::circuit::RelayView;
use crate::relay::keypair::KeyPair;
use crate::relay::metrics::EventContent;
use crate::relay::metrics::EventKind;
use crate::text::utf8_complaint;
use crate::text::utf8_text;
use vstd::prelude::*;
use vstd::string::*;
use vstd::utf8::decode_utf8;
use vstd::utf8::encode_utf8;
use vstd::utf8::valid_utf8;

verus! {

/// The entry relay of a circuit.
pub struct EntryCircuitHandler {
    context: CircuitContext,
    keypair: KeyPair,
    next_hop: Option<NextHop>,
}

impl View for EntryCircuitHandler {
    type V = RelayView;

    closed spec fn view(&self) -> RelayView {
        RelayView {
            context: self.context@,
            secret: self.keypair.secret_part(),
            public: self.keypair.public_part(),
            next_hop: self.next_hop,
        }
    }
}

/// Where the address in the payload of an `extend` message ends: at the first zero, or, without
/// one, 32 bytes before the end.
pub open spec fn address_end(payload: Seq<u8>) -> int {
    if before_zero(payload) < payload.len() {
        before_zero(payload) as int
    } else {
        payload.len() - 32
    }
}

/// The request in the payload of an `extend` message: the address, and what follows the byte
/// after it.
pub open spec fn entry_request(payload: Seq<u8>) -> Result<ActionView, Seq<char>> {
    let end = address_end(payload);
    let address = payload.subrange(0, end);
    if payload.len() < 32 {
        Err("EXTEND payload too short"@)
    } else if !valid_utf8(address) {
        Err(utf8_complaint(address))
    } else {
        Ok(
            ActionView::Extend {
                address: decode_utf8(address),
                payload: payload.subrange(end + 1, payload.len() as int),
            },
        )
    }
}

impl RelayView {
    /// What an entry relay does on an `extend` message that is meant for it: it opens the payload
    /// and connects to the relay named inside.
    pub open spec fn entry_extend(self, msg: MessageView) -> Result<ActionView, Seq<char>> {
        match self.context.session_key {
            None => Err("Circuit not yet established"@),
            Some(key) => match aes_opened(msg.data, key.forward) {
                Err(e) => Err(e),
                Ok(payload) => entry_request(payload),
            },
        }
    }

    /// What an entry relay does with a cell from the client: it opens the payload and passes the
    /// cell on, without a digest.
    pub open spec fn entry_relay(self, msg: MessageView) -> Result<ActionView, Seq<char>> {
        match self.context.session_key {
            None => Err("Circuit not yet established"@),
            Some(key) => match aes_opened(msg.data, key.forward) {
                Err(e) => Err(e),
                Ok(data) => Ok(
                    match self.next_hop {
                        Some(_) => ActionView::Forward(
                            MessageView::plain(msg.circuit_id, msg.stream_id, msg.command, data),
                        ),
                        None => ActionView::Nothing,
                    },
                ),
            },
        }
    }

    /// An entry relay after a message from the client. The first `extend` message is meant for
    /// it; later ones go on to the next relay.
    pub open spec fn entry_message(self, msg: MessageView) -> (
        RelayView,
        Result<ActionView, Seq<char>>,
    ) {
        match msg.command {
            MessageCommand::Create => self.after_create(msg),
            MessageCommand::Extend => (
                self,
                if self.next_hop is Some {
                    self.entry_relay(msg)
                } else {
                    self.entry_extend(msg)
                },
            ),
            MessageCommand::Data | MessageCommand::Begin | MessageCommand::End
            | MessageCommand::Connected => (self, self.entry_relay(msg)),
            MessageCommand::Destroy => (self.closed(), Ok(ActionView::Closed)),
            MessageCommand::Padding | MessageCommand::Created | MessageCommand::Extended => (
                self,
                Err("Unexpected command: "@ + msg.command.debug_text()),
            ),
        }
    }

    /// Why an entry relay cannot use the answer of the next relay, if it cannot.
    pub open spec fn entry_complaint(self, answer: Option<MessageView>) -> Option<Seq<char>> {
        match answer {
            None => Some("Next hop closed connection waiting for CREATED"@),
            Some(m) => if m.command != MessageCommand::Created {
                Some("Expected CREATED from next hop, got "@ + m.command.debug_text())
            } else if self.context.session_key is None {
                Some("Circuit not yet established"@)
            } else {
                None
            },
        }
    }

    /// Whether `sent` holds `data` sealed under the backward half of the session key, with some
    /// initial block.
    pub open spec fn entry_seals(self, data: Seq<u8>, sent: Seq<u8>) -> bool {
        &&& self.context.session_key is Some
        &&& sent.len() == 16 + data.len()
        &&& sent == aes_sealed(data, self.context.session_key->0.backward, sent.take(16))
        &&& aes_opened(sent, self.context.session_key->0.backward) == Ok::<Seq<u8>, Seq<char>>(
            data,
        )
    }
}

/// Reads the request in the payload of an `extend` message.
fn read_request(payload: &[u8]) -> (r: Result<Action, String>)
    ensures
        is_action(r, entry_request(payload@)),
{
    broadcast use vstd::utf8::encode_utf8_decode_utf8;

    if payload.len() < 32 {
        return Err("EXTEND payload too short".to_owned());
    }
    let zero = find_zero(payload);
    let end = if zero < payload.len() {
        zero
    } else {
        payload.len() - 32
    };
    let bytes = slice_vec(payload, 0, end);
    match utf8_text(bytes.as_slice()) {
        Ok(address) => Ok(
            Action::Extend { address, payload: slice_vec(payload, end + 1, payload.len()) },
        ),
        Err(e) => Err(e),
    }
}

impl EntryCircuitHandler {
    /// An entry relay on a new circuit.
    pub fn new(circuit_id: CircuitId, keypair: KeyPair) -> (r: Self)
        ensures
            r@ == RelayView::fresh(circuit_id, keypair.secret_part(), keypair.public_part()),
    {
        Self { context: CircuitContext::new(circuit_id), keypair, next_hop: None }
    }

    /// Answers a `create` message.
    pub fn handle_create(&mut self, msg: &Message) -> (r: Result<Action, String>)
        ensures
            final(self)@ == old(self)@.after_create(msg@).0,
            is_action(r, old(self)@.after_create(msg@).1),
    {
        match self.context.answer_create(&self.keypair, msg) {
            Ok(m) => Ok(Action::Reply(m)),
            Err(e) => Err(e),
        }
    }

    /// Opens the payload of an `extend` message and reads whom to connect to.
    pub fn handle_extend(&self, msg: &Message) -> (r: Result<Action, String>)
        ensures
            is_action(r, self@.entry_extend(msg@)),
    {
        match &self.context.session_key {
            None => Err("Circuit not yet established".to_owned()),
            Some(key) => match aes_decrypt(msg.data.as_slice(), &key.forward) {
                Err(e) => Err(e),
                Ok(payload) => read_request(payload.as_slice()),
            },
        }
    }

    /// The `create` message for the next relay.
    pub fn create_for(&self, payload: &[u8]) -> (r: Message)
        ensures
            r@ == MessageView::plain(
                self@.context.circuit_id,
                0,
                MessageCommand::Create,
                payload@,
            ),
    {
        let data = slice_vec(payload, 0, payload.len());
        proof {
            assert(data@ =~= payload@);
        }
        Message::create(self.context.circuit_id, data)
    }

    /// Takes the answer of the next relay, which stands at `next_hop`: its data goes back to the
    /// client, sealed.
    pub fn finish_extend(&mut self, answer: Option<Message>, next_hop: String) -> (r: Result<
        (Message, EventKind),
        String,
    >)
        ensures
            match r {
                Ok((m, event)) => {
                    &&& old(self)@.entry_complaint(opt_message(answer)) is None
                    &&& final(self)@ == (RelayView {
                        next_hop: Some(NextHop { read: true }),
                        ..old(self)@
                    })
                    &&& m@ == MessageView::plain(
                        old(self)@.context.circuit_id,
                        0,
                        MessageCommand::Extended,
                        m@.data,
                    )
                    &&& old(self)@.entry_seals(answer->0@.data, m@.data)
                    &&& event@ == (EventContent::CircuitExtended {
                        circuit_id: old(self)@.context.circuit_id,
                        next_hop: next_hop@,
                    })
                },
                Err(e) => {
                    &&& old(self)@.entry_complaint(opt_message(answer)) == Some(e@)
                    &&& final(self)@ == old(self)@
                },
            },
    {
        let m = match answer {
            None => {
                return Err("Next hop closed connection waiting for CREATED".to_owned());
            },
            Some(m) => m,
        };
        if m.command != MessageCommand::Created {
            return Err(m.command.complaint("Expected CREATED from next hop, got "));
        }
        let circuit_id = self.context.circuit_id;
        match &self.context.session_key {
            None => Err("Circuit not yet established".to_owned()),
            Some(key) => {
                let data = aes_encrypt(m.data.as_slice(), &key.backward);
                self.next_hop = Some(NextHop::new());
                Ok(
                    (
                        Message::extended(circuit_id, data),
                        EventKind::CircuitExtended { circuit_id, next_hop },
                    ),
                )
            },
        }
    }

    /// Opens the payload of a cell from the client, for the next relay.
    pub fn handle_relay(&self, msg: &Message) -> (r: Result<Action, String>)
        ensures
            is_action(r, self@.entry_relay(msg@)),
    {
        match &self.context.session_key {
            None => Err("Circuit not yet established".to_owned()),
            Some(key) => match aes_decrypt(msg.data.as_slice(), &key.forward) {
                Err(e) => Err(e),
                Ok(data) => if self.next_hop.is_some() {
                    Ok(
                        Action::Forward(
                            Message::new(msg.circuit_id, msg.stream_id, msg.command, data),
                        ),
                    )
                } else {
                    Ok(Action::Nothing)
                },
            },
        }
    }

    /// Seals the payload of a cell from the next relay, for the client.
    pub fn handle_backward_relay(&self, msg: &Message) -> (r: Result<Message, String>)
        ensures
            match r {
                Ok(m) => {
                    &&& m@ == MessageView::plain(
                        msg@.circuit_id,
                        msg@.stream_id,
                        msg@.command,
                        m@.data,
                    )
                    &&& self@.entry_seals(msg@.data, m@.data)
                },
                Err(e) => {
                    &&& self@.context.session_key is None
                    &&& e@ == "No session key established"@
                },
            },
    {
        match &self.context.session_key {
            None => Err("No session key established".to_owned()),
            Some(key) => {
                let data = aes_encrypt(msg.data.as_slice(), &key.backward);
                Ok(Message::new(msg.circuit_id, msg.stream_id, msg.command, data))
            },
        }
    }

    /// Takes a message from the client.
    pub fn handle_message(&mut self, msg: Message) -> (r: Result<Action, String>)
        ensures
            final(self)@ == old(self)@.entry_message(msg@).0,
            is_action(r, old(self)@.entry_message(msg@).1),
    {
        match msg.command {
            MessageCommand::Create => self.handle_create(&msg),
            MessageCommand::Extend => {
                if self.next_hop.is_some() {
                    self.handle_relay(&msg)
                } else {
                    self.handle_extend(&msg)
                }
            },
            MessageCommand::Data | MessageCommand::Begin | MessageCommand::End
            | MessageCommand::Connected => self.handle_relay(&msg),
            MessageCommand::Destroy => {
                self.close();
                Ok(Action::Closed)
            },
            MessageCommand::Padding | MessageCommand::Created | MessageCommand::Extended => Err(
                msg.command.complaint("Unexpected command: "),
            ),
        }
    }

    /// The number of the circuit.
    pub fn circuit_id(&self) -> (r: CircuitId)
        ensures
            r == self@.context.circuit_id,
    {
        self.context.circuit_id
    }

    /// The state of the circuit.
    pub fn state(&self) -> (r: CircuitState)
        ensures
            r == self@.context.state,
    {
        self.context.state
    }

    /// The session key, if there is one.
    pub fn session_key(&self) -> (r: Option<&SessionKey>)
        ensures
            match r {
                Some(key) => self@.context.session_key == Some(key@),
                None => self@.context.session_key is None,
            },
    {
        self.context.session_key.as_ref()
    }

    /// Drops the keys and the connection.
    pub fn close(&mut self)
        ensures
            final(self)@ == old(self)@.closed(),
    {
        self.context.close();
        self.next_hop = None;
    }

    /// Hands out the reading side of the connection to the next relay, if there is one and nobody
    /// reads from it yet.
    pub fn take_reader(&mut self) -> (r: bool)
        ensures
            r == (old(self)@.next_hop == Some(NextHop { read: true })),
            final(self)@ == (RelayView {
                next_hop: match old(self)@.next_hop {
                    Some(_) => Some(NextHop { read: false }),
                    None => None,
                },
                ..old(self)@
            }),
    {
        match &mut self.next_hop {
            Some(hop) => hop.take_read(),
            None => false,
        }
    }
}

/// An entry relay passes on exactly what the client sealed for it.
pub proof fn entry_opens_what_the_client_sealed(
    relay: RelayView,
    key: SessionKeyView,
    iv: Seq<u8>,
    inner: Seq<u8>,
    msg: MessageView,
)
    requires
        relay.context.session_key == Some(key),
        relay.next_hop is Some,
        iv.len() == 16,
        msg.data == aes_sealed(inner, key.forward, iv),
        msg.command == MessageCommand::Extend || msg.command == MessageCommand::Data || msg.command
            == MessageCommand::Begin || msg.command == MessageCommand::End || msg.command
            == MessageCommand::Connected,
    ensures
        relay.entry_message(msg) == (
            relay,
            Ok::<ActionView, Seq<char>>(
                ActionView::Forward(
                    MessageView::plain(msg.circuit_id, msg.stream_id, msg.command, inner),
                ),
            ),
        ),
{
    aes_opens_what_it_sealed(inner, key.forward, iv);
}

/// An entry relay reads the address and the key that a client wrote into the first `extend`
/// message.
pub proof fn entry_request_reads_back(address: Seq<char>, key: Seq<u8>)
    requires
        !address.contains('\0'),
        encode_utf8(address).len() + 1 + key.len() >= 32,
    ensures
        entry_request(encode_utf8(address) + seq![0u8] + key) == Ok::<ActionView, Seq<char>>(
            ActionView::Extend { address, payload: key },
        ),
{
    text_ends_at_zero(address, key);
}

/// An entry relay extends the circuit to the relay that the client names, with the key that the
/// client sends for it, as long as it has no next relay.
pub proof fn entry_extends_where_the_client_asked(
    relay: RelayView,
    key: SessionKeyView,
    iv: Seq<u8>,
    address: Seq<char>,
    public: Seq<u8>,
    msg: MessageView,
)
    requires
        relay.context.session_key == Some(key),
        relay.next_hop is None,
        iv.len() == 16,
        !address.contains('\0'),
        public.len() >= 32,
        msg.command == MessageCommand::Extend,
        msg.data == aes_sealed(encode_utf8(address) + seq![0u8] + public, key.forward, iv),
    ensures
        relay.entry_message(msg) == (
            relay,
            Ok::<ActionView, Seq<char>>(ActionView::Extend { address, payload: public }),
        ),
{
    aes_opens_what_it_sealed(encode_utf8(address) + seq![0u8] + public, key.forward, iv);
    entry_request_reads_back(address, public);
}

/// An entry relay can use an answer of the next relay exactly if there is one, it is a `created`
/// message, and the circuit has a session key. Without a session key, no cell passes either.
pub proof fn entry_needs_a_key_and_an_answer(
    relay: RelayView,
    answer: Option<MessageView>,
    msg: MessageView,
)
    ensures
        relay.entry_complaint(answer) is None <==> answer is Some && answer->0.command
            == MessageCommand::Created && relay.context.session_key is Some,
        relay.context.session_key is None && (msg.command == MessageCommand::Extend || msg.command
            == MessageCommand::Data || msg.command == MessageCommand::Begin || msg.command
            == MessageCommand::End || msg.command == MessageCommand::Connected)
            ==> relay.entry_message(msg).1 is Err && relay.entry_message(msg).0 == relay,
{
}

/// What an entry relay seals for the client opens to what came in, and to nothing else.
pub proof fn entry_seals_what_came_in(relay: RelayView, data: Seq<u8>, sent: Seq<u8>)
    requires
        relay.entry_seals(data, sent),
    ensures
        relay.context.session_key is Some,
        sent.len() == data.len() + 16,
        aes_opened(sent, relay.context.session_key->0.backward) is Ok,
        aes_opened(sent, relay.context.session_key->0.backward)->Ok_0 == data,
{
}

/// After a `destroy` message an entry relay has no keys and no connection, and refuses every cell
/// until the circuit is created anew.
pub proof fn destroyed_entries_refuse_cells(
    relay: RelayView,
    destroy: MessageView,
    msg: MessageView,
)
    requires
        destroy.command == MessageCommand::Destroy,
        msg.command != MessageCommand::Create,
        msg.command != MessageCommand::Destroy,
    ensures
        ({
            let (after, outcome) = relay.entry_message(destroy);
            &&& outcome == Ok::<ActionView, Seq<char>>(ActionView::Closed)
            &&& after.context.session_key is None
            &&& after.context.cipher is None
            &&& after.context.state == CircuitState::Closed
            &&& after.next_hop is None
            &&& after.entry_message(msg).1 is Err
        }),
{
}

/// Commands that a client never sends to an entry relay are refused, and change nothing.
pub proof fn entry_refuses_what_is_not_for_it(relay: RelayView, msg: MessageView)
    requires
        msg.command == MessageCommand::Padding || msg.command == MessageCommand::Created
            || msg.command == MessageCommand::Extended,
    ensures
        relay.entry_message(msg).1 is Err,
        relay.entry_message(msg).0 == relay,
{
}

}
