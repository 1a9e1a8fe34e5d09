//! What every kind of relay keeps of a circuit, and what it is asked to do next.

use crate::bytes::array32_at;
use crate::bytes::slice_vec;
use crate::crypto::derive_session_key;
use crate::crypto::is_key_pair;
use crate::crypto::sha256_hash;
use crate::crypto::x25519_public;
use crate::crypto::x25519_shared;
use crate::crypto::CipherPair;
use crate::crypto::CipherView;
use crate::crypto::SessionKey;
use crate::crypto::SessionKeyView;
use crate::protocol::CircuitId;
use crate::protocol::Message;
use crate::protocol::MessageCommand;
use crate::protocol::MessageView;
use crate::protocol::StreamId;
use crate::relay::keypair::KeyPair;
use vstd::prelude::*;
use vstd::string::*;

verus! {

/// The life of a circuit.
#[derive(Debug, Clone, Copy, PartialEq, Eq, Structural)]
pub enum CircuitState {
    Initializing,
    Active,
    Closing,
    Closed,
}

/// What every kind of relay keeps of a circuit.
pub struct CircuitContext {
    pub circuit_id: CircuitId,
    pub state: CircuitState,
    pub session_key: Option<SessionKey>,
    pub cipher_pair: Option<CipherPair>,
}

/// What every kind of relay keeps of a circuit.
#[verifier::ext_equal]
pub struct ContextView {
    pub circuit_id: CircuitId,
    pub state: CircuitState,
    pub session_key: Option<SessionKeyView>,
    pub cipher: Option<CipherView>,
}

/// The view of an optional session key.
pub open spec fn opt_key(key: Option<SessionKey>) -> Option<SessionKeyView> {
    match key {
        Some(k) => Some(k@),
        None => None,
    }
}

/// The view of an optional cipher pair.
pub open spec fn opt_cipher(cipher: Option<CipherPair>) -> Option<CipherView> {
    match cipher {
        Some(c) => Some(c@),
        None => None,
    }
}

impl View for CircuitContext {
    type V = ContextView;

    open spec fn view(&self) -> ContextView {
        ContextView {
            circuit_id: self.circuit_id,
            state: self.state,
            session_key: opt_key(self.session_key),
            cipher: opt_cipher(self.cipher_pair),
        }
    }
}

/// The session key that a relay with this secret key derives from a `create` message.
pub open spec fn created_key(secret: Seq<u8>, create: MessageView) -> SessionKeyView {
    SessionKeyView::split(sha256_hash(x25519_shared(secret, create.data.subrange(0, 32))))
}

impl ContextView {
    /// A circuit without keys.
    pub open spec fn fresh(circuit_id: CircuitId) -> ContextView {
        ContextView {
            circuit_id,
            state: CircuitState::Initializing,
            session_key: None,
            cipher: None,
        }
    }

    /// The circuit with this session key, of which nothing has been used.
    pub open spec fn activated(self, key: SessionKeyView) -> ContextView {
        ContextView {
            circuit_id: self.circuit_id,
            state: CircuitState::Active,
            session_key: Some(key),
            cipher: Some(CipherView::fresh(key)),
        }
    }

    /// The circuit without its keys.
    pub open spec fn closed(self) -> ContextView {
        ContextView {
            circuit_id: self.circuit_id,
            state: CircuitState::Closed,
            session_key: None,
            cipher: None,
        }
    }

    /// The circuit with another cipher.
    pub open spec fn with_cipher(self, cipher: CipherView) -> ContextView {
        ContextView { cipher: Some(cipher), ..self }
    }

    /// The circuit after a `create` message, and the answer to it.
    pub open spec fn after_create(self, secret: Seq<u8>, public: Seq<u8>, msg: MessageView) -> (
        ContextView,
        Result<MessageView, Seq<char>>,
    ) {
        if msg.data.len() < 32 {
            (self, Err("CREATE message too short"@))
        } else {
            (
                self.activated(created_key(secret, msg)),
                Ok(MessageView::plain(self.circuit_id, 0, MessageCommand::Created, public)),
            )
        }
    }
}

impl CircuitContext {
    /// A circuit without keys.
    pub fn new(circuit_id: CircuitId) -> (r: Self)
        ensures
            r@ == ContextView::fresh(circuit_id),
    {
        Self {
            circuit_id,
            state: CircuitState::Initializing,
            session_key: None,
            cipher_pair: None,
        }
    }

    /// Takes on a session key.
    pub fn activate(&mut self, session_key: SessionKey)
        ensures
            final(self)@ == old(self)@.activated(session_key@),
            final(self).session_key == Some(session_key),
    {
        self.cipher_pair = Some(CipherPair::new(&session_key));
        self.session_key = Some(session_key);
        self.state = CircuitState::Active;
    }

    /// Drops the keys.
    pub fn close(&mut self)
        ensures
            final(self)@ == old(self)@.closed(),
    {
        self.state = CircuitState::Closed;
        self.session_key = None;
        self.cipher_pair = None;
    }

    /// Answers a `create` message with the relay's public key, and takes on the session key of
    /// the exchange.
    pub fn answer_create(&mut self, keypair: &KeyPair, msg: &Message) -> (r: Result<
        Message,
        String,
    >)
        ensures
            ({
                let (after, reply) = old(self)@.after_create(
                    keypair.secret_part(),
                    keypair.public_part(),
                    msg@,
                );
                &&& final(self)@ == after
                &&& is_message(r, reply)
            }),
    {
        if msg.data.len() < 32 {
            return Err("CREATE message too short".to_owned());
        }
        let client_public = array32_at(msg.data.as_slice(), 0);
        let shared_secret = keypair.diffie_hellman(&client_public);
        let session_key = derive_session_key(&shared_secret);
        self.activate(session_key);
        let public = keypair.public_key();
        let bytes = slice_vec(public.bytes.as_slice(), 0, 32);
        proof {
            assert(bytes@ =~= keypair.public_part());
        }
        Ok(Message::created(self.circuit_id, bytes))
    }
}

/// A client that sends its public key in a `create` message reaches the session key of the relay
/// that answers it.
pub proof fn created_keys_agree(
    context: ContextView,
    secret: Seq<u8>,
    public: Seq<u8>,
    client_secret: Seq<u8>,
    client_public: Seq<u8>,
    msg: MessageView,
)
    requires
        is_key_pair(secret, public),
        is_key_pair(client_secret, client_public),
        msg.data.len() >= 32,
        msg.data.subrange(0, 32) == client_public,
    ensures
        context.after_create(secret, public, msg).0.session_key == Some(
            SessionKeyView::split(sha256_hash(x25519_shared(client_secret, public))),
        ),
{
    assert(x25519_shared(client_secret, public) == x25519_shared(
        secret,
        x25519_public(client_secret),
    ));
}

/// What the connection to the next relay is needed for: cells go out on it, and one reader takes
/// those that come in.
#[derive(Debug, Clone, Copy, PartialEq, Eq, Structural)]
pub struct NextHop {
    /// Whether nobody reads from the connection yet.
    pub read: bool,
}

impl NextHop {
    /// A connection that nobody reads from.
    pub fn new() -> (r: Self)
        ensures
            r.read,
    {
        Self { read: true }
    }

    /// Hands out the reading side, once.
    pub fn take_read(&mut self) -> (r: bool)
        ensures
            r == old(self).read,
            !final(self).read,
    {
        let r = self.read;
        self.read = false;
        r
    }
}

/// What is to be done after a message.
#[derive(Debug)]
pub enum Action {
    /// Nothing.
    Nothing,
    /// Send a message to where the message came from.
    Reply(Message),
    /// Send a message to the next relay.
    Forward(Message),
    /// Connect to the relay at this address and open a circuit with it.
    Extend { address: String, payload: Vec<u8> },
    /// Connect a stream to its destination.
    Connect { stream_id: StreamId, destination: String },
    /// Pass data on to the destination of a stream.
    Deliver { stream_id: StreamId, data: Vec<u8> },
    /// Drop the connection to the destination of a stream, and send a message back.
    CloseStream { stream_id: StreamId, reply: Message },
    /// Drop the connections of the circuit.
    Closed,
}

/// What is to be done after a message.
#[verifier::ext_equal]
pub enum ActionView {
    Nothing,
    Reply(MessageView),
    Forward(MessageView),
    Extend { address: Seq<char>, payload: Seq<u8> },
    Connect { stream_id: StreamId, destination: Seq<char> },
    Deliver { stream_id: StreamId, data: Seq<u8> },
    CloseStream { stream_id: StreamId, reply: MessageView },
    Closed,
}

impl View for Action {
    type V = ActionView;

    open spec fn view(&self) -> ActionView {
        match *self {
            Action::Nothing => ActionView::Nothing,
            Action::Reply(m) => ActionView::Reply(m@),
            Action::Forward(m) => ActionView::Forward(m@),
            Action::Extend { address, payload } => {
                ActionView::Extend { address: address@, payload: payload@ }
            },
            Action::Connect { stream_id, destination } => {
                ActionView::Connect { stream_id, destination: destination@ }
            },
            Action::Deliver { stream_id, data } => ActionView::Deliver { stream_id, data: data@ },
            Action::CloseStream { stream_id, reply } => {
                ActionView::CloseStream { stream_id, reply: reply@ }
            },
            Action::Closed => ActionView::Closed,
        }
    }
}

/// Whether `r` is the outcome `expected`.
pub open spec fn is_action(
    r: Result<Action, String>,
    expected: Result<ActionView, Seq<char>>,
) -> bool {
    match r {
        Ok(a) => expected == Ok::<ActionView, Seq<char>>(a@),
        Err(e) => expected == Err::<ActionView, Seq<char>>(e@),
    }
}

/// Whether `r` is the message or the complaint `expected`.
pub open spec fn is_message(
    r: Result<Message, String>,
    expected: Result<MessageView, Seq<char>>,
) -> bool {
    match r {
        Ok(m) => expected == Ok::<MessageView, Seq<char>>(m@),
        Err(e) => expected == Err::<MessageView, Seq<char>>(e@),
    }
}

/// The state of a relay that passes cells on.
#[verifier::ext_equal]
pub struct RelayView {
    pub context: ContextView,
    pub secret: Seq<u8>,
    pub public: Seq<u8>,
    pub next_hop: Option<NextHop>,
}

impl RelayView {
    /// A relay with this key pair on a circuit without keys.
    pub open spec fn fresh(circuit_id: CircuitId, secret: Seq<u8>, public: Seq<u8>) -> RelayView {
        RelayView { context: ContextView::fresh(circuit_id), secret, public, next_hop: None }
    }

    /// The relay with another context.
    pub open spec fn with_context(self, context: ContextView) -> RelayView {
        RelayView { context, ..self }
    }

    /// The relay without keys and without a connection.
    pub open spec fn closed(self) -> RelayView {
        RelayView { context: self.context.closed(), next_hop: None, ..self }
    }

    /// The relay after a `create` message, and the answer.
    pub open spec fn after_create(self, msg: MessageView) -> (
        RelayView,
        Result<ActionView, Seq<char>>,
    ) {
        let (context, reply) = self.context.after_create(self.secret, self.public, msg);
        (
            self.with_context(context),
            match reply {
                Ok(m) => Ok(ActionView::Reply(m)),
                Err(e) => Err(e),
            },
        )
    }

    /// Whether `n` more bytes can be counted in both directions.
    pub open spec fn has_room(self, n: nat) -> bool {
        match self.context.cipher {
            Some(c) => c.forward_room(n) && c.backward_room(n),
            None => true,
        }
    }
}

/// The view of an optional message.
pub open spec fn opt_message(m: Option<Message>) -> Option<MessageView> {
    match m {
        Some(m) => Some(m@),
        None => None,
    }
}

}
