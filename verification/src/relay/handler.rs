//! The circuits of a relay node.

use crate::crypto::aes_opened;
use crate::crypto::is_key_pair;
use crate::crypto::sha256_hash;
use crate::crypto::x25519_shared;
use crate::crypto::CipherView;
use crate::crypto::SessionKey;
use crate::crypto::SessionKeyView;
use crate::protocol::CircuitId;
use crate::protocol::Message;
use crate::protocol::MessageCommand;
use crate::protocol::MessageView;
use crate::protocol::StreamId;
use crate::relay::circuit::created_keys_agree;
use crate::relay::circuit::is_action;
use crate::relay::circuit::Action;
use crate::relay::circuit::ActionView;
use crate::relay::circuit::CircuitState;
use crate::relay::circuit::ContextView;
use crate::relay::circuit::NextHop;
use crate::relay::circuit::RelayView;
use crate::relay::entry::EntryCircuitHandler;
use crate::relay::exit::client_data_is_delivered;
use crate::relay::exit::CryptoView;
use crate::relay::exit::ExitCircuitHandler;
use crate::relay::exit::ExitView;
use crate::relay::keypair::KeyPair;
use crate::relay::metrics::EventContent;
use crate::relay::metrics::EventKind;
use crate::relay::middle::middle_passes_cells_on;
use crate::relay::middle::middle_takes_off_one_layer;
use crate::relay::middle::MiddleCircuitHandler;
use crate::text::dec_text;
use crate::text::push_dec;
use crate::types::NodeType;
use std::collections::hash_map::Entry;
use std::collections::HashMap;
use vstd::prelude::*;
use vstd::std_specs::iter::IteratorSpec;
use vstd::string::*;

verus! {

/// One circuit of a relay node, by the part that the node plays in it.
pub enum CircuitHandler {
    Entry(EntryCircuitHandler),
    Middle(MiddleCircuitHandler),
    Exit(ExitCircuitHandler),
}

/// The state of a circuit.
#[verifier::ext_equal]
pub enum HandlerView {
    Entry(RelayView),
    Middle(RelayView),
    Exit(ExitView),
}

impl View for CircuitHandler {
    type V = HandlerView;

    open spec fn view(&self) -> HandlerView {
        match *self {
            CircuitHandler::Entry(h) => HandlerView::Entry(h@),
            CircuitHandler::Middle(h) => HandlerView::Middle(h@),
            CircuitHandler::Exit(h) => HandlerView::Exit(h@),
        }
    }
}

impl HandlerView {
    /// A relay of this kind on a circuit without keys.
    pub open spec fn fresh(
        node_type: NodeType,
        circuit_id: CircuitId,
        secret: Seq<u8>,
        public: Seq<u8>,
    ) -> HandlerView {
        match node_type {
            NodeType::Entry => HandlerView::Entry(RelayView::fresh(circuit_id, secret, public)),
            NodeType::Middle => HandlerView::Middle(RelayView::fresh(circuit_id, secret, public)),
            NodeType::Exit => HandlerView::Exit(ExitView::fresh(circuit_id, secret, public)),
        }
    }

    /// What every kind of relay keeps of the circuit.
    pub open spec fn context(self) -> ContextView {
        match self {
            HandlerView::Entry(v) => v.context,
            HandlerView::Middle(v) => v.context,
            HandlerView::Exit(v) => v.context,
        }
    }

    /// The circuit after a message from the side of the client.
    pub open spec fn after_message(self, msg: MessageView) -> (
        HandlerView,
        Result<ActionView, Seq<char>>,
    ) {
        match self {
            HandlerView::Entry(v) => (
                HandlerView::Entry(v.entry_message(msg).0),
                v.entry_message(msg).1,
            ),
            HandlerView::Middle(v) => (
                HandlerView::Middle(v.after_message(msg).0),
                v.after_message(msg).1,
            ),
            HandlerView::Exit(v) => (
                HandlerView::Exit(v.after_message(msg).0),
                v.after_message(msg).1,
            ),
        }
    }

    /// Whether `after` and `r` may come of a message from the side of the exit. An entry relay
    /// seals its data with a random initial block; a middle relay puts its layer on; an exit
    /// relay hands the message back.
    pub open spec fn may_return(
        self,
        msg: MessageView,
        after: HandlerView,
        r: Result<MessageView, Seq<char>>,
    ) -> bool {
        match self {
            HandlerView::Entry(v) => {
                &&& after == self
                &&& match r {
                    Ok(m) => {
                        &&& m == MessageView::plain(
                            msg.circuit_id,
                            msg.stream_id,
                            msg.command,
                            m.data,
                        )
                        &&& v.entry_seals(msg.data, m.data)
                    },
                    Err(e) => {
                        &&& v.context.session_key is None
                        &&& e == "No session key established"@
                    },
                }
            },
            HandlerView::Middle(v) => {
                &&& after == HandlerView::Middle(v.after_backward(msg).0)
                &&& r == v.after_backward(msg).1
            },
            HandlerView::Exit(v) => after == self && r == Ok::<MessageView, Seq<char>>(msg),
        }
    }

    /// Whether the circuit can count the bytes of a message, and of the answer to it.
    pub open spec fn has_room(self, n: nat) -> bool {
        match self {
            HandlerView::Entry(v) => true,
            HandlerView::Middle(v) => v.has_room(n),
            HandlerView::Exit(v) => v.forward_room(n) && v.backward_room(n),
        }
    }

    /// The circuit without keys and connections.
    pub open spec fn closed(self) -> HandlerView {
        match self {
            HandlerView::Entry(v) => HandlerView::Entry(v.closed()),
            HandlerView::Middle(v) => HandlerView::Middle(v.closed()),
            HandlerView::Exit(v) => HandlerView::Exit(v.closed()),
        }
    }

    /// The connection to the next relay.
    pub open spec fn next_hop(self) -> Option<NextHop> {
        match self {
            HandlerView::Entry(v) => v.next_hop,
            HandlerView::Middle(v) => v.next_hop,
            HandlerView::Exit(v) => None,
        }
    }

    /// The circuit once somebody reads from the connection to the next relay.
    pub open spec fn with_reader(self) -> HandlerView {
        let read = match self.next_hop() {
            Some(_) => Some(NextHop { read: false }),
            None => None,
        };
        match self {
            HandlerView::Entry(v) => HandlerView::Entry(RelayView { next_hop: read, ..v }),
            HandlerView::Middle(v) => HandlerView::Middle(RelayView { next_hop: read, ..v }),
            HandlerView::Exit(v) => self,
        }
    }
}

/// The view of a result that holds a message.
pub open spec fn message_result(r: Result<Message, String>) -> Result<MessageView, Seq<char>> {
    match r {
        Ok(m) => Ok(m@),
        Err(e) => Err(e@),
    }
}

impl CircuitHandler {
    /// A relay of this kind on a new circuit.
    pub fn new(node_type: NodeType, circuit_id: CircuitId, keypair: KeyPair) -> (r: Self)
        ensures
            r@ == HandlerView::fresh(
                node_type,
                circuit_id,
                keypair.secret_part(),
                keypair.public_part(),
            ),
    {
        match node_type {
            NodeType::Entry => CircuitHandler::Entry(EntryCircuitHandler::new(circuit_id, keypair)),
            NodeType::Middle => CircuitHandler::Middle(
                MiddleCircuitHandler::new(circuit_id, keypair),
            ),
            NodeType::Exit => CircuitHandler::Exit(ExitCircuitHandler::new(circuit_id, keypair)),
        }
    }

    /// Takes a message from the side of the client.
    pub fn handle_message(&mut self, msg: Message) -> (r: Result<Action, String>)
        requires
            old(self)@.has_room(msg@.data.len()),
            old(self)@.has_room(16),
        ensures
            final(self)@ == old(self)@.after_message(msg@).0,
            is_action(r, old(self)@.after_message(msg@).1),
    {
        match self {
            CircuitHandler::Entry(handler) => handler.handle_message(msg),
            CircuitHandler::Middle(handler) => handler.handle_message(msg),
            CircuitHandler::Exit(handler) => handler.handle_message(msg),
        }
    }

    /// Takes a message from the side of the exit.
    pub fn handle_backward_relay(&mut self, msg: Message) -> (r: Result<Message, String>)
        requires
            old(self)@.has_room(msg@.data.len()),
        ensures
            old(self)@.may_return(msg@, final(self)@, message_result(r)),
    {
        match self {
            CircuitHandler::Entry(handler) => handler.handle_backward_relay(&msg),
            CircuitHandler::Middle(handler) => handler.handle_backward_relay(msg),
            CircuitHandler::Exit(_) => Ok(msg),
        }
    }

    /// The number of the circuit.
    pub fn circuit_id(&self) -> (r: CircuitId)
        ensures
            r == self@.context().circuit_id,
    {
        match self {
            CircuitHandler::Entry(handler) => handler.circuit_id(),
            CircuitHandler::Middle(handler) => handler.circuit_id(),
            CircuitHandler::Exit(handler) => handler.circuit_id(),
        }
    }

    /// The state of the circuit.
    pub fn state(&self) -> (r: CircuitState)
        ensures
            r == self@.context().state,
    {
        match self {
            CircuitHandler::Entry(handler) => handler.state(),
            CircuitHandler::Middle(handler) => handler.state(),
            CircuitHandler::Exit(handler) => handler.state(),
        }
    }

    /// The session key, if there is one.
    pub fn session_key(&self) -> (r: Option<&SessionKey>)
        ensures
            match r {
                Some(key) => self@.context().session_key == Some(key@),
                None => self@.context().session_key is None,
            },
    {
        match self {
            CircuitHandler::Entry(handler) => handler.session_key(),
            CircuitHandler::Middle(handler) => handler.session_key(),
            CircuitHandler::Exit(handler) => handler.session_key(),
        }
    }

    /// Drops the keys and connections.
    pub fn close(&mut self)
        ensures
            final(self)@ == old(self)@.closed(),
    {
        match self {
            CircuitHandler::Entry(handler) => handler.close(),
            CircuitHandler::Middle(handler) => handler.close(),
            CircuitHandler::Exit(handler) => handler.close(),
        }
    }

    /// Whether `n` more bytes can be counted in both directions.
    pub fn has_room(&self, n: usize) -> (r: bool)
        ensures
            r == self@.has_room(n as nat),
    {
        match self {
            CircuitHandler::Entry(_) => true,
            CircuitHandler::Middle(handler) => handler.has_room(n),
            CircuitHandler::Exit(handler) => handler.has_room(n),
        }
    }

    /// Hands out the reading side of the connection to the next relay, if there is one and nobody
    /// reads from it yet.
    pub fn take_reader(&mut self) -> (r: bool)
        ensures
            r == (old(self)@.next_hop() == Some(NextHop { read: true })),
            final(self)@ == old(self)@.with_reader(),
    {
        match self {
            CircuitHandler::Entry(handler) => handler.take_reader(),
            CircuitHandler::Middle(handler) => handler.take_reader(),
            CircuitHandler::Exit(_) => false,
        }
    }
}

/// The circuits of a relay node, by their numbers.
pub struct CircuitRegistry {
    circuits: HashMap<CircuitId, CircuitHandler>,
    next_circuit_id: CircuitId,
}

/// The circuits of a relay node, and the next number to give out.
#[verifier::ext_equal]
pub struct RegistryView {
    pub circuits: Map<CircuitId, HandlerView>,
    pub next_circuit_id: CircuitId,
}

/// The states of some circuits.
pub open spec fn handlers(m: Map<CircuitId, CircuitHandler>) -> Map<CircuitId, HandlerView> {
    m.map_values(|h: CircuitHandler| h@)
}

impl View for CircuitRegistry {
    type V = RegistryView;

    closed spec fn view(&self) -> RegistryView {
        RegistryView {
            circuits: handlers(self.circuits@),
            next_circuit_id: self.next_circuit_id,
        }
    }
}

impl RegistryView {
    /// The registry with another state of a circuit.
    pub open spec fn with_circuit(self, circuit_id: CircuitId, circuit: HandlerView) -> RegistryView {
        RegistryView { circuits: self.circuits.insert(circuit_id, circuit), ..self }
    }

    /// The registry without a circuit.
    pub open spec fn without_circuit(self, circuit_id: CircuitId) -> RegistryView {
        RegistryView { circuits: self.circuits.remove(circuit_id), ..self }
    }

    /// The registry after it has given out the number of a new circuit.
    pub open spec fn after_allocating(self) -> RegistryView {
        RegistryView { next_circuit_id: self.next_circuit_id.wrapping_add(1), ..self }
    }

    /// The registry after a message from the side of the client: it goes to its circuit. A
    /// `create` message for an unknown circuit is let pass; any other is refused.
    pub open spec fn after_message(self, msg: MessageView) -> (
        RegistryView,
        Result<ActionView, Seq<char>>,
    ) {
        let id = msg.circuit_id;
        if self.circuits.contains_key(id) {
            let (after, action) = self.circuits[id].after_message(msg);
            (self.with_circuit(id, after), action)
        } else if msg.command == MessageCommand::Create {
            (self, Ok(ActionView::Nothing))
        } else {
            (self, Err("Circuit "@ + dec_text(id as nat) + " not found"@))
        }
    }

    /// Whether a message fits its circuit.
    pub open spec fn has_room(self, circuit_id: CircuitId, n: nat) -> bool {
        self.circuits.contains_key(circuit_id) ==> self.circuits[circuit_id].has_room(n)
    }
}

/// Whether a message of this kind may have set up the connection to the next relay, so that
/// somebody has to read from it.
pub fn should_spawn_reader(command: MessageCommand) -> (r: bool)
    ensures
        r == (command == MessageCommand::Extended || command == MessageCommand::Extend),
{
    command == MessageCommand::Extended || command == MessageCommand::Extend
}

impl CircuitRegistry {
    /// No circuits.
    pub fn new() -> (r: Self)
        ensures
            r@ == (RegistryView { circuits: Map::empty(), next_circuit_id: 1 }),
    {
        let r = Self { circuits: HashMap::new(), next_circuit_id: 1 };
        proof {
            assert(handlers(r.circuits@) =~= Map::empty());
        }
        r
    }

    /// Gives out the next number. The numbers start over after the largest one.
    pub fn allocate_circuit_id(&mut self) -> (id: CircuitId)
        ensures
            id == old(self)@.next_circuit_id,
            final(self)@ == (RegistryView {
                next_circuit_id: old(self)@.next_circuit_id.wrapping_add(1),
                ..old(self)@
            }),
            final(self)@ == old(self)@.after_allocating(),
    {
        let id = self.next_circuit_id;
        self.next_circuit_id = self.next_circuit_id.wrapping_add(1);
        id
    }

    /// Adds a circuit, in place of the one with the same number.
    pub fn add_circuit(&mut self, circuit_id: CircuitId, handler: CircuitHandler)
        ensures
            final(self)@ == old(self)@.with_circuit(circuit_id, handler@),
    {
        broadcast use vstd::std_specs::hash::group_hash_axioms;

        let ghost before = self.circuits@;
        self.circuits.insert(circuit_id, handler);
        proof {
            assert(handlers(self.circuits@) =~= handlers(before).insert(circuit_id, handler@));
        }
    }

    /// The circuit with this number.
    pub fn get_circuit(&self, circuit_id: CircuitId) -> (r: Option<&CircuitHandler>)
        ensures
            match r {
                Some(h) => {
                    &&& self@.circuits.contains_key(circuit_id)
                    &&& h@ == self@.circuits[circuit_id]
                },
                None => !self@.circuits.contains_key(circuit_id),
            },
    {
        broadcast use vstd::std_specs::hash::group_hash_axioms;

        self.circuits.get(&circuit_id)
    }

    /// The circuit with this number, to be changed.
    pub fn get_circuit_mut(&mut self, circuit_id: CircuitId) -> (r: Option<&mut CircuitHandler>)
        ensures
            match r {
                Some(h) => {
                    &&& old(self)@.circuits.contains_key(circuit_id)
                    &&& h@ == old(self)@.circuits[circuit_id]
                    &&& final(self)@ == old(self)@.with_circuit(circuit_id, final(h)@)
                },
                None => {
                    &&& !old(self)@.circuits.contains_key(circuit_id)
                    &&& final(self)@ == old(self)@
                },
            },
    {
        broadcast use vstd::std_specs::hash::group_hash_axioms;

        match self.circuits.entry(circuit_id) {
            Entry::Occupied(entry) => Some(entry.into_mut()),
            Entry::Vacant(_) => None,
        }
    }

    /// Removes a circuit.
    pub fn remove_circuit(&mut self, circuit_id: CircuitId) -> (r: Option<CircuitHandler>)
        ensures
            final(self)@ == (RegistryView {
                circuits: old(self)@.circuits.remove(circuit_id),
                ..old(self)@
            }),
            final(self)@ == old(self)@.without_circuit(circuit_id),
            match r {
                Some(h) => {
                    &&& old(self)@.circuits.contains_key(circuit_id)
                    &&& h@ == old(self)@.circuits[circuit_id]
                },
                None => !old(self)@.circuits.contains_key(circuit_id),
            },
    {
        broadcast use vstd::std_specs::hash::group_hash_axioms;

        let ghost before = self.circuits@;
        let r = self.circuits.remove(&circuit_id);
        proof {
            assert(handlers(self.circuits@) =~= handlers(before).remove(circuit_id));
        }
        r
    }

    /// The number of circuits.
    pub fn circuit_count(&self) -> (n: usize)
        ensures
            n == self@.circuits.len(),
    {
        broadcast use vstd::std_specs::hash::group_hash_axioms;

        proof {
            assert(handlers(self.circuits@).dom() =~= self.circuits@.dom());
        }
        self.circuits.len()
    }

    /// Takes a message from the side of the client.
    pub fn handle_message(&mut self, msg: Message) -> (r: Result<Action, String>)
        requires
            old(self)@.has_room(msg@.circuit_id, msg@.data.len()),
            old(self)@.has_room(msg@.circuit_id, 16),
        ensures
            final(self)@ == old(self)@.after_message(msg@).0,
            is_action(r, old(self)@.after_message(msg@).1),
    {
        let circuit_id = msg.circuit_id;
        let command = msg.command;
        match self.get_circuit_mut(circuit_id) {
            Some(handler) => handler.handle_message(msg),
            None => if command == MessageCommand::Create {
                Ok(Action::Nothing)
            } else {
                let mut e = "Circuit ".to_owned();
                push_dec(&mut e, circuit_id as u64);
                e.append(" not found");
                Err(e)
            },
        }
    }

    /// Takes a message from the side of the exit.
    pub fn handle_backward_message(&mut self, msg: Message) -> (r: Result<Message, String>)
        requires
            old(self)@.has_room(msg@.circuit_id, msg@.data.len()),
        ensures
            if old(self)@.circuits.contains_key(msg@.circuit_id) {
                &&& final(self)@ == old(self)@.with_circuit(
                    msg@.circuit_id,
                    final(self)@.circuits[msg@.circuit_id],
                )
                &&& old(self)@.circuits[msg@.circuit_id].may_return(
                    msg@,
                    final(self)@.circuits[msg@.circuit_id],
                    message_result(r),
                )
            } else {
                &&& final(self)@ == old(self)@
                &&& message_result(r) == Err::<MessageView, Seq<char>>(
                    "Circuit "@ + dec_text(msg@.circuit_id as nat)
                        + " not found for backward message"@,
                )
            },
    {
        let circuit_id = msg.circuit_id;
        match self.get_circuit_mut(circuit_id) {
            Some(handler) => handler.handle_backward_relay(msg),
            None => {
                let mut e = "Circuit ".to_owned();
                push_dec(&mut e, circuit_id as u64);
                e.append(" not found for backward message");
                Err(e)
            },
        }
    }

    /// The numbers and states of the circuits, in any order.
    pub fn circuit_summaries(&self) -> (r: Vec<(CircuitId, CircuitState)>)
        ensures
            forall|id: CircuitId, state: CircuitState|
                #[trigger] r@.contains((id, state)) <==> self@.circuits.contains_key(id)
                    && self@.circuits[id].context().state == state,
            forall|i: int, j: int|
                0 <= i < j < r@.len() ==> (#[trigger] r@[i]).0 != (#[trigger] r@[j]).0,
    {
        broadcast use vstd::std_specs::hash::group_hash_axioms;

        let ghost all = vstd::std_specs::hash::spec_hash_map_iter(&self.circuits).remaining();
        let mut r: Vec<(CircuitId, CircuitState)> = Vec::new();
        for (id, handler) in it: self.circuits.iter()
            invariant
                it.seq() == all,
                r@.len() == it.index(),
                forall|j: int|
                    0 <= j < it.index() ==> r@[j] == (*all[j].0, all[j].1@.context().state),
        {
            r.push((*id, handler.state()));
        }
        proof {
            assert(r@.len() == all.len());
            assert forall|id: CircuitId, state: CircuitState|
                #[trigger] r@.contains((id, state)) <==> self@.circuits.contains_key(id)
                    && self@.circuits[id].context().state == state by {
                if r@.contains((id, state)) {
                    let j = choose|j: int| 0 <= j < r@.len() && r@[j] == (id, state);
                    assert(self.circuits@.contains_key(*all[j].0));
                }
                if self@.circuits.contains_key(id) && self@.circuits[id].context().state == state {
                    assert(self.circuits@.contains_key(id));
                    assert(all.contains((&id, &self.circuits@[id])));
                    let j = choose|j: int|
                        0 <= j < all.len() && all[j] == (&id, &self.circuits@[id]);
                    assert(r@[j] == (id, state));
                }
            }
            assert forall|i: int, j: int| 0 <= i < j < r@.len() implies (#[trigger] r@[i]).0 != (
            #[trigger] r@[j]).0 by {
                assert(self.circuits@[*all[i].0] == *all[i].1);
                assert(self.circuits@[*all[j].0] == *all[j].1);
                if r@[i].0 == r@[j].0 {
                    assert(all[i] == all[j]);
                }
            }
        }
        r
    }
}

impl Default for CircuitRegistry {
    fn default() -> (r: Self)
        ensures
            r@ == (RegistryView { circuits: Map::empty(), next_circuit_id: 1 }),
    {
        Self::new()
    }
}

/// A new circuit for a `create` message, and the answer, if the message is in order. The circuit
/// is to be added once the answer is sent.
pub fn accept_create(node_type: NodeType, keypair: &KeyPair, msg: Message) -> (r: Result<
    (CircuitHandler, Message),
    String,
>)
    requires
        msg@.command == MessageCommand::Create,
    ensures
        ({
            let fresh = HandlerView::fresh(
                node_type,
                msg@.circuit_id,
                keypair.secret_part(),
                keypair.public_part(),
            );
            match r {
                Ok((handler, reply)) => {
                    &&& handler@ == fresh.after_message(msg@).0
                    &&& fresh.after_message(msg@).1 == Ok::<ActionView, Seq<char>>(
                        ActionView::Reply(reply@),
                    )
                },
                Err(e) => fresh.after_message(msg@).1 == Err::<ActionView, Seq<char>>(e@),
            }
        }),
{
    let mut handler = CircuitHandler::new(node_type, msg.circuit_id, keypair.clone());
    match handler.handle_message(msg) {
        Ok(Action::Reply(reply)) => Ok((handler, reply)),
        Ok(_) => Err("CREATE message too short".to_owned()),
        Err(e) => Err(e),
    }
}

/// Notes that a cell went back to the side of the client. The cell counts with the data that it
/// had when it came in.
pub fn returned_cell(circuit_id: CircuitId, command: MessageCommand, bytes: usize) -> (event:
    EventKind)
    ensures
        event@ == (EventContent::RelayBackward { circuit_id, command, bytes }),
{
    EventKind::RelayBackward { circuit_id, command, bytes }
}

/// What a connection is to do about a message from the side of the client.
pub enum Step {
    /// Send the answer, then add the circuit.
    Create { handler: CircuitHandler, reply: Message },
    /// Act on the message, then, if asked to, see that somebody reads from the next relay.
    Act { action: Action, spawn_reader: bool },
    /// Close the connection for this reason.
    HangUp(String),
}

/// What a connection is to do about a message from the side of the client.
#[verifier::ext_equal]
pub enum StepView {
    Create { handler: HandlerView, reply: MessageView },
    Act { action: ActionView, spawn_reader: bool },
    HangUp(Seq<char>),
}

impl View for Step {
    type V = StepView;

    open spec fn view(&self) -> StepView {
        match *self {
            Step::Create { handler, reply } => StepView::Create {
                handler: handler@,
                reply: reply@,
            },
            Step::Act { action, spawn_reader } => StepView::Act { action: action@, spawn_reader },
            Step::HangUp(reason) => StepView::HangUp(reason@),
        }
    }
}

impl RegistryView {
    /// The registry of a node of this kind after a message from the side of the client, and what
    /// the connection is to do about it. A `create` message always starts a new circuit.
    pub open spec fn after_step(
        self,
        node_type: NodeType,
        secret: Seq<u8>,
        public: Seq<u8>,
        msg: MessageView,
    ) -> (RegistryView, StepView) {
        if msg.command == MessageCommand::Create {
            let (handler, action) = HandlerView::fresh(
                node_type,
                msg.circuit_id,
                secret,
                public,
            ).after_message(msg);
            (
                self,
                match action {
                    Ok(ActionView::Reply(reply)) => StepView::Create { handler, reply },
                    Ok(_) => StepView::HangUp(Seq::empty()),
                    Err(e) => StepView::HangUp(e),
                },
            )
        } else {
            let (after, action) = self.after_message(msg);
            (
                after,
                match action {
                    Ok(action) => StepView::Act {
                        action,
                        spawn_reader: msg.command == MessageCommand::Extended || msg.command
                            == MessageCommand::Extend,
                    },
                    Err(e) => StepView::HangUp(e),
                },
            )
        }
    }
}

impl CircuitRegistry {
    /// Decides what the connection is to do about a message from the side of the client.
    pub fn handle_step(&mut self, node_type: NodeType, keypair: &KeyPair, msg: Message) -> (r: Step)
        requires
            old(self)@.has_room(msg@.circuit_id, msg@.data.len()),
            old(self)@.has_room(msg@.circuit_id, 16),
        ensures
            (final(self)@, r@) == old(self)@.after_step(
                node_type,
                keypair.secret_part(),
                keypair.public_part(),
                msg@,
            ),
    {
        let command = msg.command;
        if command == MessageCommand::Create {
            match accept_create(node_type, keypair, msg) {
                Ok((handler, reply)) => Step::Create { handler, reply },
                Err(e) => Step::HangUp(e),
            }
        } else {
            match self.handle_message(msg) {
                Ok(action) => Step::Act { action, spawn_reader: should_spawn_reader(command) },
                Err(e) => Step::HangUp(e),
            }
        }
    }
}

/// A message changes no circuit but its own.
pub proof fn messages_touch_one_circuit(
    registry: RegistryView,
    node_type: NodeType,
    secret: Seq<u8>,
    public: Seq<u8>,
    msg: MessageView,
    other: CircuitId,
)
    requires
        other != msg.circuit_id,
    ensures
        ({
            let after = registry.after_step(node_type, secret, public, msg).0;
            &&& after.circuits.contains_key(other) == registry.circuits.contains_key(other)
            &&& registry.circuits.contains_key(other) ==> after.circuits[other]
                == registry.circuits[other]
        }),
{
}

/// A `create` message with a public key makes a circuit that is active and whose answer carries
/// the public key of the node.
pub proof fn created_circuits_are_active(
    registry: RegistryView,
    node_type: NodeType,
    secret: Seq<u8>,
    public: Seq<u8>,
    msg: MessageView,
)
    requires
        msg.command == MessageCommand::Create,
        msg.data.len() >= 32,
    ensures
        ({
            let (after, step) = registry.after_step(node_type, secret, public, msg);
            &&& after == registry
            &&& step is Create
            &&& step->Create_handler.context().state == CircuitState::Active
            &&& step->Create_handler.context().circuit_id == msg.circuit_id
            &&& step->Create_reply == MessageView::plain(
                msg.circuit_id,
                0,
                MessageCommand::Created,
                public,
            )
        }),
{
}

/// A node plays its own part in the circuits that it creates, and shares with the client that asked
/// for it the key of the exchange.
pub proof fn created_circuits_play_the_part_of_the_node(
    registry: RegistryView,
    node_type: NodeType,
    secret: Seq<u8>,
    public: Seq<u8>,
    client_secret: Seq<u8>,
    client_public: Seq<u8>,
    msg: MessageView,
)
    requires
        is_key_pair(secret, public),
        is_key_pair(client_secret, client_public),
        msg.command == MessageCommand::Create,
        msg.data.len() >= 32,
        msg.data.subrange(0, 32) == client_public,
    ensures
        ({
            let step = registry.after_step(node_type, secret, public, msg).1;
            let hash = sha256_hash(x25519_shared(client_secret, public));
            let key = SessionKeyView {
                forward: hash.subrange(0, 16),
                backward: hash.subrange(16, 32),
            };
            let unused = CipherView { key, forward_pos: 0, backward_pos: 0 };
            &&& step is Create
            &&& step->Create_handler.context().session_key == Some(key)
            &&& node_type == NodeType::Entry ==> step->Create_handler is Entry
            &&& node_type == NodeType::Middle ==> {
                &&& step->Create_handler is Middle
                &&& step->Create_handler->Middle_0.context.cipher == Some(unused)
                &&& step->Create_handler->Middle_0.next_hop is None
            }
            &&& node_type == NodeType::Exit ==> {
                &&& step->Create_handler is Exit
                &&& step->Create_handler->Exit_0.crypto is Some
                &&& step->Create_handler->Exit_0.crypto->0.cipher == unused
                &&& step->Create_handler->Exit_0.crypto->0.forward == Seq::<u8>::empty()
                &&& step->Create_handler->Exit_0.crypto->0.backward == Seq::<u8>::empty()
                &&& step->Create_handler->Exit_0.streams == Map::<StreamId, Seq<char>>::empty()
            }
        }),
{
    created_keys_agree(
        ContextView::fresh(msg.circuit_id),
        secret,
        public,
        client_secret,
        client_public,
        msg,
    );
}

/// A connection hangs up on a `create` message without a public key and on a message for a circuit
/// that the node does not have, and no circuit changes.
pub proof fn strangers_are_hung_up_on(
    registry: RegistryView,
    node_type: NodeType,
    secret: Seq<u8>,
    public: Seq<u8>,
    msg: MessageView,
)
    requires
        msg.command == MessageCommand::Create ==> msg.data.len() < 32,
        msg.command != MessageCommand::Create ==> !registry.circuits.contains_key(msg.circuit_id),
    ensures
        registry.after_step(node_type, secret, public, msg).1 is HangUp,
        registry.after_step(node_type, secret, public, msg).0 == registry,
{
}

/// What a client sends on an open stream of a circuit goes to the destination of that stream
/// through the exit node that has the circuit, every byte of it.
pub proof fn exit_nodes_deliver_client_data(
    registry: RegistryView,
    node_type: NodeType,
    secret: Seq<u8>,
    public: Seq<u8>,
    exit: ExitView,
    c: CryptoView,
    circuit_id: CircuitId,
    stream_id: StreamId,
    data: Seq<u8>,
)
    requires
        registry.circuits.contains_key(circuit_id),
        registry.circuits[circuit_id] == HandlerView::Exit(exit),
        exit.crypto == Some(c),
        exit.streams.contains_key(stream_id),
    ensures
        ({
            let cell = c.client_cell(circuit_id, stream_id, MessageCommand::Data, data);
            let (after, step) = registry.after_step(node_type, secret, public, cell);
            &&& step is Act
            &&& step->Act_action == ActionView::Deliver { stream_id, data }
            &&& !step->Act_spawn_reader
            &&& after.circuits.contains_key(circuit_id)
            &&& after.circuits[circuit_id] is Exit
            &&& after.circuits[circuit_id]->Exit_0.crypto == Some(
                c.after_client_cell(stream_id, MessageCommand::Data, data),
            )
            &&& after.circuits[circuit_id]->Exit_0.streams == exit.streams
        }),
{
    client_data_is_delivered(exit, c, circuit_id, stream_id, data);
}

/// A middle node passes on what the client wrapped for the next one, and hands back what the next
/// one sent under its own layer.
pub proof fn middle_nodes_pass_cells_on(
    registry: RegistryView,
    node_type: NodeType,
    secret: Seq<u8>,
    public: Seq<u8>,
    relay: RelayView,
    client: CipherView,
    inner: Seq<u8>,
    msg: MessageView,
    after: HandlerView,
    r: Result<MessageView, Seq<char>>,
)
    requires
        registry.circuits.contains_key(msg.circuit_id),
        registry.circuits[msg.circuit_id] == HandlerView::Middle(relay),
        relay.context.cipher == Some(client),
        relay.next_hop is Some,
        msg.command == MessageCommand::Data || msg.command == MessageCommand::Begin || msg.command
            == MessageCommand::End || msg.command == MessageCommand::Connected,
    ensures
        msg.data == client.forward(inner) ==> ({
            let step = registry.after_step(node_type, secret, public, msg).1;
            &&& step is Act
            &&& step->Act_action is Forward
            &&& step->Act_action->Forward_0.circuit_id == msg.circuit_id
            &&& step->Act_action->Forward_0.stream_id == msg.stream_id
            &&& step->Act_action->Forward_0.command == msg.command
            &&& step->Act_action->Forward_0.digest == msg.digest
            &&& step->Act_action->Forward_0.data == inner
        }),
        HandlerView::Middle(relay).may_return(msg, after, r) ==> {
            &&& r is Ok
            &&& r->Ok_0.circuit_id == msg.circuit_id
            &&& r->Ok_0.stream_id == msg.stream_id
            &&& r->Ok_0.command == msg.command
            &&& r->Ok_0.digest == msg.digest
            &&& client.backward(r->Ok_0.data) == msg.data
        },
{
    if msg.data == client.forward(inner) {
        middle_takes_off_one_layer(relay, client, inner, msg);
    }
    middle_passes_cells_on(relay, client, msg);
}

/// The connection to the next relay has one reader: whoever asks first gets the reading side, and
/// from then on nobody does. Asking changes nothing else, and makes no connection.
pub proof fn the_next_relay_has_one_reader(circuit: HandlerView)
    ensures
        circuit.with_reader().next_hop() is Some <==> circuit.next_hop() is Some,
        circuit.with_reader().next_hop() is Some ==> !circuit.with_reader().next_hop()->0.read,
        circuit.with_reader().with_reader() == circuit.with_reader(),
        circuit.with_reader().context() == circuit.context(),
{
}

/// A closed circuit has no keys, no connection and no streams, whatever part the node played in it.
pub proof fn closed_circuits_hold_nothing(circuit: HandlerView)
    ensures
        circuit.closed().context().state == CircuitState::Closed,
        circuit.closed().context().session_key is None,
        circuit.closed().context().cipher is None,
        circuit.closed().context().circuit_id == circuit.context().circuit_id,
        circuit.closed().next_hop() is None,
        circuit.closed() is Exit ==> circuit.closed()->Exit_0.streams == Map::<
            StreamId,
            Seq<char>,
        >::empty() && circuit.closed()->Exit_0.crypto is None,
{
}

/// A circuit that is added is there under its number, one that is removed is not, and no other circuit
/// is touched; a message for a removed circuit is hung up on. Numbers that are given out one after the
/// other differ.
pub proof fn circuits_come_and_go_one_by_one(
    registry: RegistryView,
    id: CircuitId,
    circuit: HandlerView,
    other: CircuitId,
    node_type: NodeType,
    secret: Seq<u8>,
    public: Seq<u8>,
    msg: MessageView,
)
    requires
        other != id,
        msg.circuit_id == id,
        msg.command != MessageCommand::Create,
    ensures
        registry.with_circuit(id, circuit).circuits.contains_key(id),
        registry.with_circuit(id, circuit).circuits[id] == circuit,
        registry.with_circuit(id, circuit).circuits.contains_key(other)
            == registry.circuits.contains_key(other),
        registry.circuits.contains_key(other) ==> registry.with_circuit(
            id,
            circuit,
        ).circuits[other] == registry.circuits[other],
        !registry.without_circuit(id).circuits.contains_key(id),
        registry.without_circuit(id).circuits.contains_key(other)
            == registry.circuits.contains_key(other),
        registry.circuits.contains_key(other) ==> registry.without_circuit(id).circuits[other]
            == registry.circuits[other],
        registry.without_circuit(id).after_step(node_type, secret, public, msg).1 is HangUp,
        registry.after_allocating().next_circuit_id != registry.next_circuit_id,
        registry.after_allocating().circuits == registry.circuits,
{
}

/// After a message to which the node answers in some way, somebody has to read from the next relay
/// exactly if the message may have extended the circuit.
pub proof fn readers_follow_an_extension(
    registry: RegistryView,
    node_type: NodeType,
    secret: Seq<u8>,
    public: Seq<u8>,
    msg: MessageView,
)
    ensures
        registry.after_step(node_type, secret, public, msg).1 is Act ==> (registry.after_step(
            node_type,
            secret,
            public,
            msg,
        ).1->Act_spawn_reader <==> msg.command == MessageCommand::Extend || msg.command
            == MessageCommand::Extended),
        registry.after_step(node_type, secret, public, msg).1 is Create ==> msg.command
            == MessageCommand::Create,
{
}

/// A message goes to the circuit that it names, and what comes of it is what that circuit makes of it.
/// Where the node has no such circuit nothing changes: a `create` message is let pass and any other is
/// refused.
pub proof fn messages_reach_their_circuit(registry: RegistryView, msg: MessageView)
    ensures
        ({
            let (after, outcome) = registry.after_message(msg);
            let id = msg.circuit_id;
            &&& registry.circuits.contains_key(id) ==> {
                &&& outcome == registry.circuits[id].after_message(msg).1
                &&& after.circuits.contains_key(id)
                &&& after.circuits[id] == registry.circuits[id].after_message(msg).0
            }
            &&& !registry.circuits.contains_key(id) ==> {
                &&& after == registry
                &&& msg.command == MessageCommand::Create ==> outcome == Ok::<
                    ActionView,
                    Seq<char>,
                >(ActionView::Nothing)
                &&& msg.command != MessageCommand::Create ==> outcome is Err
            }
            &&& after.next_circuit_id == registry.next_circuit_id
        }),
{
}

/// What comes back through a node goes on to the client on the same circuit and stream and with the
/// same command. An entry node seals all of its data under the session key, and has to have one; an
/// exit node hands the message back as it is.
pub proof fn messages_go_back_to_the_client(
    relay: RelayView,
    exit: ExitView,
    msg: MessageView,
    after: HandlerView,
    r: Result<MessageView, Seq<char>>,
)
    ensures
        HandlerView::Entry(relay).may_return(msg, after, r) ==> {
            &&& after == HandlerView::Entry(relay)
            &&& r is Ok <==> relay.context.session_key is Some
            &&& r is Ok ==> {
                &&& r->Ok_0.circuit_id == msg.circuit_id
                &&& r->Ok_0.stream_id == msg.stream_id
                &&& r->Ok_0.command == msg.command
                &&& aes_opened(r->Ok_0.data, relay.context.session_key->0.backward) == Ok::<
                    Seq<u8>,
                    Seq<char>,
                >(msg.data)
            }
        },
        HandlerView::Exit(exit).may_return(msg, after, r) ==> after == HandlerView::Exit(exit) && r
            == Ok::<MessageView, Seq<char>>(msg),
{
}

}
