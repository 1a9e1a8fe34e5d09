//! A circuit as the client sees it: the cells it sends, and those it takes in.

use crate::bytes::slice_vec;
use crate::client::metrics::EventContent;
use crate::client::metrics::EventKind;
use crate::client::onion::all_backward_room;
use crate::client::onion::all_forward_room;
use crate::client::onion::all_forwarded;
use crate::client::onion::all_returned;
use crate::client::onion::ciphers_of;
use crate::client::onion::layers_keep_the_length;
use crate::client::onion::relayed_backward;
use crate::client::onion::relayed_forward;
use crate::client::onion::relays_take_off_their_layers;
use crate::client::onion::returned_data_arrives;
use crate::client::onion::unwrapped;
use crate::client::onion::wrapped;
use crate::client::onion::OnionKeys;
use crate::client::onion::OnionView;
use crate::crypto::digest_input;
use crate::crypto::digest_tag;
use crate::metrics::Direction;
use crate::protocol::CircuitId;
use crate::protocol::Message;
use crate::protocol::MessageCommand;
use crate::protocol::MessageView;
use crate::protocol::StreamId;
use crate::relay::exit::exit_opens_what_the_client_sent;
use crate::relay::exit::CryptoView;
use crate::text::opt_text;
use std::collections::HashSet;
use vstd::prelude::*;

verus! {

/// The life of a circuit.
#[derive(Debug, Clone, Copy, PartialEq, Eq, Structural)]
pub enum CircuitState {
    Building,
    Ready,
    Closing,
    Closed,
}

/// A circuit of the client.
pub struct Circuit {
    pub circuit_id: CircuitId,
    pub state: CircuitState,
    pub onion_keys: OnionKeys,
    /// The streams that wait for cells.
    pub streams: HashSet<StreamId>,
    /// The number of the next stream.
    pub next_stream_id: StreamId,
    pub path_display: Option<String>,
}

/// The state of a circuit of the client.
#[verifier::ext_equal]
pub struct CircuitView {
    pub circuit_id: CircuitId,
    pub state: CircuitState,
    pub onion: OnionView,
    pub streams: Set<StreamId>,
    pub next_stream_id: StreamId,
    pub path_display: Option<Seq<char>>,
}

impl View for Circuit {
    type V = CircuitView;

    open spec fn view(&self) -> CircuitView {
        CircuitView {
            circuit_id: self.circuit_id,
            state: self.state,
            onion: self.onion_keys@,
            streams: self.streams@,
            next_stream_id: self.next_stream_id,
            path_display: opt_text(self.path_display),
        }
    }
}

/// The stream number after `id`. Number 0 is left out: it stands for the circuit itself.
pub open spec fn next_id(id: StreamId) -> StreamId {
    if id == u16::MAX {
        1
    } else {
        (id + 1) as StreamId
    }
}

/// What the reader of a circuit is to do.
#[derive(Debug)]
pub struct ReaderStep {
    /// The message to hand to its stream.
    pub deliver: Option<Message>,
    /// What to note.
    pub event: Option<EventKind>,
    /// Whether the circuit is over.
    pub stop: bool,
}

/// What the reader of a circuit is to do.
#[verifier::ext_equal]
pub struct ReaderStepView {
    pub deliver: Option<MessageView>,
    pub event: Option<EventContent>,
    pub stop: bool,
}

impl View for ReaderStep {
    type V = ReaderStepView;

    open spec fn view(&self) -> ReaderStepView {
        ReaderStepView {
            deliver: match self.deliver {
                Some(m) => Some(m@),
                None => None,
            },
            event: match self.event {
                Some(e) => Some(e@),
                None => None,
            },
            stop: self.stop,
        }
    }
}

impl CircuitView {
    /// The number of the next stream is not 0.
    pub open spec fn wf(self) -> bool {
        self.next_stream_id != 0
    }

    /// A circuit whose handshakes are done.
    pub open spec fn ready(
        circuit_id: CircuitId,
        onion: OnionView,
        path_display: Option<Seq<char>>,
    ) -> CircuitView {
        CircuitView {
            circuit_id,
            state: CircuitState::Ready,
            onion,
            streams: Set::empty(),
            next_stream_id: 1,
            path_display,
        }
    }

    /// A cell that goes out: its digest takes in the data, and the data gets a layer for each
    /// hop.
    pub open spec fn sealed(
        self,
        stream_id: StreamId,
        command: MessageCommand,
        data: Seq<u8>,
    ) -> MessageView {
        MessageView {
            circuit_id: self.circuit_id,
            stream_id,
            command,
            data: wrapped(self.onion.ciphers, data),
            digest: digest_tag(
                self.onion.forward + digest_input(stream_id, command.code(), data),
            ),
        }
    }

    /// The circuit after a cell that goes out.
    pub open spec fn after_sealing(
        self,
        stream_id: StreamId,
        command: MessageCommand,
        data: Seq<u8>,
    ) -> CircuitView {
        CircuitView {
            onion: OnionView {
                ciphers: all_forwarded(self.onion.ciphers, data.len()),
                forward: self.onion.forward + digest_input(stream_id, command.code(), data),
                ..self.onion
            },
            ..self
        }
    }

    /// The circuit after it has given out the number of a new stream.
    pub open spec fn after_allocating(self) -> CircuitView {
        CircuitView { next_stream_id: next_id(self.next_stream_id), ..self }
    }

    /// The circuit with one more stream that waits for cells.
    pub open spec fn with_stream(self, stream_id: StreamId) -> CircuitView {
        CircuitView { streams: self.streams.insert(stream_id), ..self }
    }

    /// The circuit without a stream that waited for cells.
    pub open spec fn without_stream(self, stream_id: StreamId) -> CircuitView {
        CircuitView { streams: self.streams.remove(stream_id), ..self }
    }

    /// The data of a cell that comes in.
    pub open spec fn opened(self, msg: MessageView) -> Seq<u8> {
        unwrapped(self.onion.ciphers, msg.data)
    }

    /// The keys after a cell that comes in.
    pub open spec fn onion_after(self, msg: MessageView) -> OnionView {
        OnionView {
            ciphers: all_returned(self.onion.ciphers, msg.data.len()),
            backward: self.onion.backward + digest_input(
                msg.stream_id,
                msg.command.code(),
                self.opened(msg),
            ),
            ..self.onion
        }
    }

    /// Whether a cell that comes in carries the tag of the running digest after it.
    pub open spec fn accepts(self, msg: MessageView) -> bool {
        msg.digest == digest_tag(self.onion_after(msg).backward)
    }

    /// The cell that keeps the connection busy, if one is due.
    pub open spec fn keepalive_cell(self) -> Option<MessageView> {
        if self.state == CircuitState::Ready {
            Some(MessageView::plain(self.circuit_id, 0, MessageCommand::Padding, seq![]))
        } else {
            None
        }
    }

    /// The circuit once it is over: no stream waits for cells any more.
    pub open spec fn closed(self) -> CircuitView {
        CircuitView { state: CircuitState::Closed, streams: Set::empty(), ..self }
    }

    /// What is to be done when the circuit is over.
    pub open spec fn over(self) -> ReaderStepView {
        ReaderStepView {
            deliver: None,
            event: Some(EventContent::CircuitClosed { circuit_id: self.circuit_id }),
            stop: true,
        }
    }

    /// The circuit after a cell that comes in, and what the reader is to do. A `destroy` cell and
    /// a cell with a wrong digest end the circuit; any other goes to its stream.
    pub open spec fn after_cell(self, msg: MessageView) -> (CircuitView, ReaderStepView) {
        if msg.command == MessageCommand::Destroy {
            (self.closed(), self.over())
        } else if !self.accepts(msg) {
            (CircuitView { onion: self.onion_after(msg), ..self.closed() }, self.over())
        } else {
            (
                CircuitView { onion: self.onion_after(msg), ..self },
                ReaderStepView {
                    deliver: if self.streams.contains(msg.stream_id) {
                        Some(
                            MessageView::plain(
                                msg.circuit_id,
                                msg.stream_id,
                                msg.command,
                                self.opened(msg),
                            ),
                        )
                    } else {
                        None
                    },
                    event: if msg.command == MessageCommand::Data {
                        Some(
                            EventContent::StreamData {
                                circuit_id: self.circuit_id,
                                stream_id: msg.stream_id,
                                bytes: msg.data.len() as usize,
                                direction: Direction::Backward,
                            },
                        )
                    } else {
                        None
                    },
                    stop: false,
                },
            )
        }
    }

    /// Whether every hop can count `n` more bytes in both directions.
    pub open spec fn has_room(self, n: nat) -> bool {
        all_forward_room(self.onion.ciphers, n) && all_backward_room(self.onion.ciphers, n)
    }
}

impl Circuit {
    /// A circuit whose handshakes are done.
    pub fn new(circuit_id: CircuitId, onion_keys: OnionKeys, path_display: Option<String>) -> (r:
        Self)
        ensures
            r@ == CircuitView::ready(circuit_id, onion_keys@, opt_text(path_display)),
            r@.wf(),
    {
        Self {
            circuit_id,
            state: CircuitState::Ready,
            onion_keys,
            streams: HashSet::new(),
            next_stream_id: 1,
            path_display,
        }
    }

    /// The number of streams that wait for cells.
    pub fn active_stream_count(&self) -> (n: usize)
        ensures
            n == self@.streams.len(),
    {
        broadcast use vstd::std_specs::hash::group_hash_axioms;

        self.streams.len()
    }

    /// Gives out the number of a new stream.
    pub fn allocate_stream_id(&mut self) -> (id: StreamId)
        ensures
            id == old(self)@.next_stream_id,
            final(self)@ == (CircuitView {
                next_stream_id: next_id(old(self)@.next_stream_id),
                ..old(self)@
            }),
            final(self)@ == old(self)@.after_allocating(),
            final(self)@.wf(),
    {
        let id = self.next_stream_id;
        self.next_stream_id = self.next_stream_id.wrapping_add(1);
        if self.next_stream_id == 0 {
            self.next_stream_id = 1;
        }
        id
    }

    /// Lets a stream wait for cells.
    pub fn register_stream(&mut self, stream_id: StreamId)
        ensures
            final(self)@ == (CircuitView {
                streams: old(self)@.streams.insert(stream_id),
                ..old(self)@
            }),
            final(self)@ == old(self)@.with_stream(stream_id),
    {
        broadcast use vstd::std_specs::hash::group_hash_axioms;

        self.streams.insert(stream_id);
    }

    /// Lets a stream wait no more.
    pub fn unregister_stream(&mut self, stream_id: StreamId)
        ensures
            final(self)@ == (CircuitView {
                streams: old(self)@.streams.remove(stream_id),
                ..old(self)@
            }),
            final(self)@ == old(self)@.without_stream(stream_id),
    {
        broadcast use vstd::std_specs::hash::group_hash_axioms;

        self.streams.remove(&stream_id);
    }

    /// Makes a cell that goes out.
    pub fn send_message(&mut self, stream_id: StreamId, command: MessageCommand, data: &[u8]) -> (r:
        Message)
        requires
            all_forward_room(old(self)@.onion.ciphers, data@.len()),
        ensures
            r@ == old(self)@.sealed(stream_id, command, data@),
            final(self)@ == old(self)@.after_sealing(stream_id, command, data@),
    {
        let digest = self.onion_keys.forward_digest.update(stream_id, command.to_u8(), data);
        let mut wrapped_data = slice_vec(data, 0, data.len());
        proof {
            assert(wrapped_data@ =~= data@);
        }
        self.onion_keys.onion_encrypt(wrapped_data.as_mut_slice());
        let r = Message {
            circuit_id: self.circuit_id,
            stream_id,
            command,
            data: wrapped_data,
            digest,
        };
        r
    }

    /// Takes a cell that comes in.
    pub fn receive(&mut self, msg: Message) -> (r: ReaderStep)
        requires
            all_backward_room(old(self)@.onion.ciphers, msg@.data.len()),
        ensures
            (final(self)@, r@) == old(self)@.after_cell(msg@),
    {
        broadcast use vstd::std_specs::hash::group_hash_axioms;

        if msg.command == MessageCommand::Destroy {
            return self.disconnected();
        }
        let circuit_id = self.circuit_id;
        let mut data = slice_vec(msg.data.as_slice(), 0, msg.data.len());
        proof {
            assert(data@ =~= msg.data@);
        }
        self.onion_keys.onion_decrypt(data.as_mut_slice());
        if !self.onion_keys.backward_digest.verify(
            msg.stream_id,
            msg.command.to_u8(),
            data.as_slice(),
            msg.digest,
        ) {
            return self.disconnected();
        }
        let event = if msg.command == MessageCommand::Data {
            Some(
                EventKind::StreamData {
                    circuit_id,
                    stream_id: msg.stream_id,
                    bytes: data.len(),
                    direction: Direction::Backward,
                },
            )
        } else {
            None
        };
        let deliver = if self.streams.contains(&msg.stream_id) {
            Some(Message::new(msg.circuit_id, msg.stream_id, msg.command, data))
        } else {
            None
        };
        ReaderStep { deliver, event, stop: false }
    }

    /// Ends the circuit, because the connection to the entry relay is gone.
    pub fn disconnected(&mut self) -> (r: ReaderStep)
        ensures
            final(self)@ == old(self)@.closed(),
            r@ == old(self)@.over(),
    {
        self.state = CircuitState::Closed;
        self.streams.clear();
        ReaderStep {
            deliver: None,
            event: Some(EventKind::CircuitClosed { circuit_id: self.circuit_id }),
            stop: true,
        }
    }

    /// The padding cell that keeps the connection busy, if the circuit is ready.
    pub fn keepalive(&self) -> (r: Option<Message>)
        ensures
            match r {
                Some(m) => {
                    &&& self@.state == CircuitState::Ready
                    &&& m@ == MessageView::plain(
                        self@.circuit_id,
                        0,
                        MessageCommand::Padding,
                        seq![],
                    )
                },
                None => self@.state != CircuitState::Ready,
            },
            match r {
                Some(m) => self@.keepalive_cell() == Some(m@),
                None => self@.keepalive_cell() is None,
            },
    {
        if self.state == CircuitState::Ready {
            Some(Message::padding(self.circuit_id))
        } else {
            None
        }
    }

    /// Whether every hop can count `n` more bytes in both directions.
    pub fn has_room(&self, n: usize) -> (r: bool)
        ensures
            r == self@.has_room(n as nat),
    {
        let ciphers = &self.onion_keys.ciphers;
        let mut i: usize = 0;
        while i < ciphers.len()
            invariant
                i <= ciphers@.len(),
                ciphers_of(ciphers@) == self@.onion.ciphers,
                forall|j: int|
                    0 <= j < i ==> (#[trigger] ciphers@[j])@.forward_room(n as nat)
                        && ciphers@[j]@.backward_room(n as nat),
            decreases ciphers@.len() - i,
        {
            if !ciphers[i].has_room(n) {
                proof {
                    assert(self@.onion.ciphers[i as int] == ciphers@[i as int]@);
                }
                return false;
            }
            i += 1;
        }
        proof {
            assert forall|j: int| 0 <= j < self@.onion.ciphers.len() implies (
            #[trigger] self@.onion.ciphers[j]).forward_room(n as nat)
                && self@.onion.ciphers[j].backward_room(n as nat) by {
                assert(self@.onion.ciphers[j] == ciphers@[j]@);
            }
        }
        true
    }
}

/// The numbers that a circuit gives out to streams are never 0, and two in a row differ.
pub proof fn stream_ids_are_usable(circuit: CircuitView)
    requires
        circuit.wf(),
    ensures
        circuit.next_stream_id != 0,
        next_id(circuit.next_stream_id) != 0,
        next_id(circuit.next_stream_id) != circuit.next_stream_id,
{
}

/// The ciphers and digests that the exit relay shares with the client, when it is in step.
pub open spec fn exit_side(circuit: CircuitView) -> CryptoView {
    CryptoView {
        cipher: circuit.onion.ciphers.last(),
        forward: circuit.onion.forward,
        backward: circuit.onion.backward,
    }
}

/// What the client sends arrives: when the relays before the exit have each taken off their
/// layer, the exit relay accepts the cell, reads the data, and stays in step with the client.
pub proof fn cells_reach_the_exit(
    circuit: CircuitView,
    stream_id: StreamId,
    command: MessageCommand,
    data: Seq<u8>,
)
    requires
        circuit.onion.ciphers.len() > 0,
    ensures
        ({
            let cell = circuit.sealed(stream_id, command, data);
            let at_exit = MessageView {
                data: relayed_forward(circuit.onion.ciphers.drop_last(), cell.data),
                ..cell
            };
            let exit = exit_side(circuit);
            &&& exit.accepts(at_exit)
            &&& exit.opened(at_exit) == data
            &&& exit.after_opening(at_exit) == exit_side(
                circuit.after_sealing(stream_id, command, data),
            )
        }),
{
    let ciphers = circuit.onion.ciphers;
    let cell = circuit.sealed(stream_id, command, data);
    let n = ciphers.len() - 1;
    relays_take_off_their_layers(ciphers, data, n);
    assert(ciphers.take(n) =~= ciphers.drop_last());
    assert(ciphers.skip(n) =~= seq![ciphers.last()]);
    reveal_with_fuel(wrapped, 2);
    assert(wrapped(ciphers.skip(n), data) == ciphers.last().forward(data));
    let at_exit = MessageView { data: relayed_forward(ciphers.drop_last(), cell.data), ..cell };
    let exit = exit_side(circuit);
    assert(at_exit =~= exit.client_cell(circuit.circuit_id, stream_id, command, data));
    exit_opens_what_the_client_sent(exit, circuit.circuit_id, stream_id, command, data);
    assert(all_forwarded(ciphers, data.len()).last() == ciphers.last().forwarded(data.len()));
}

/// What the exit relay sends arrives: when the relays before it have each put on their layer, the
/// client accepts the cell, hands the data to its stream, and stays in step with the exit relay.
pub proof fn cells_reach_the_client(
    circuit: CircuitView,
    stream_id: StreamId,
    command: MessageCommand,
    data: Seq<u8>,
)
    requires
        circuit.onion.ciphers.len() > 0,
        circuit.streams.contains(stream_id),
        command != MessageCommand::Destroy,
    ensures
        ({
            let exit = exit_side(circuit);
            let cell = exit.sealed(circuit.circuit_id, stream_id, command, data);
            let at_client = MessageView {
                data: relayed_backward(circuit.onion.ciphers.drop_last(), cell.data),
                ..cell
            };
            let (after, step) = circuit.after_cell(at_client);
            &&& step.deliver == Some(
                MessageView::plain(circuit.circuit_id, stream_id, command, data),
            )
            &&& !step.stop
            &&& exit_side(after) == exit.after_sealing(stream_id, command, data)
        }),
{
    let ciphers = circuit.onion.ciphers;
    let exit = exit_side(circuit);
    let cell = exit.sealed(circuit.circuit_id, stream_id, command, data);
    let at_client = MessageView { data: relayed_backward(ciphers.drop_last(), cell.data), ..cell };
    assert(at_client.data == relayed_backward(ciphers, data));
    returned_data_arrives(ciphers, data);
    layers_keep_the_length(ciphers, data);
    assert(circuit.opened(at_client) == data);
    assert(all_returned(ciphers, data.len()).last() == ciphers.last().returned(data.len()));
}

/// A circuit that is over stays closed whatever comes in, and hands nothing to any stream.
pub proof fn closed_circuits_stay_closed(circuit: CircuitView, msg: MessageView)
    ensures
        circuit.closed().after_cell(msg).0.state == CircuitState::Closed,
        circuit.closed().after_cell(msg).1.deliver is None,
{
}

/// A cell whose tag is not that of the running digest ends the circuit: it is handed to no stream,
/// no stream waits any more, and the reader stops. So does a `destroy` cell. Any other cell leaves
/// the circuit open, and is handed to its stream if that stream waits for cells.
pub proof fn forged_cells_end_the_circuit(circuit: CircuitView, msg: MessageView)
    ensures
        ({
            let (after, step) = circuit.after_cell(msg);
            let data = unwrapped(circuit.onion.ciphers, msg.data);
            let tag = digest_tag(
                circuit.onion.backward + digest_input(msg.stream_id, msg.command.code(), data),
            );
            &&& msg.command == MessageCommand::Destroy || msg.digest != tag ==> {
                &&& step.deliver is None
                &&& step.stop
                &&& step.event == Some(
                    EventContent::CircuitClosed { circuit_id: circuit.circuit_id },
                )
                &&& after.state == CircuitState::Closed
                &&& after.streams == Set::<StreamId>::empty()
            }
            &&& msg.command != MessageCommand::Destroy && msg.digest == tag ==> {
                &&& !step.stop
                &&& after.state == circuit.state
                &&& after.streams == circuit.streams
                &&& circuit.streams.contains(msg.stream_id) ==> {
                    &&& step.deliver is Some
                    &&& step.deliver->0.circuit_id == msg.circuit_id
                    &&& step.deliver->0.stream_id == msg.stream_id
                    &&& step.deliver->0.command == msg.command
                    &&& step.deliver->0.data == data
                }
                &&& !circuit.streams.contains(msg.stream_id) ==> step.deliver is None
                &&& msg.command == MessageCommand::Data ==> step.event == Some(
                    EventContent::StreamData {
                        circuit_id: circuit.circuit_id,
                        stream_id: msg.stream_id,
                        bytes: msg.data.len() as usize,
                        direction: Direction::Backward,
                    },
                )
                &&& msg.command != MessageCommand::Data ==> step.event is None
            }
        }),
{
}

/// The number that is given out after `k` others.
pub open spec fn later_id(id: StreamId, k: nat) -> StreamId
    decreases k,
{
    if k == 0 {
        id
    } else {
        next_id(later_id(id, (k - 1) as nat))
    }
}

/// The numbers of streams go round: each of the numbers from 1 on comes once in 65535, so that a
/// number comes again only after all others.
pub proof fn stream_ids_go_round(id: StreamId, k: nat)
    requires
        id != 0,
    ensures
        later_id(id, k) == (id - 1 + k) % 65535 + 1,
        0 < k < 65535 ==> later_id(id, k) != id,
        later_id(id, 65535) == id,
    decreases k,
{
    later_id_is(id, k);
    later_id_is(id, 65535);
}

proof fn later_id_is(id: StreamId, k: nat)
    requires
        id != 0,
    ensures
        later_id(id, k) == (id - 1 + k) % 65535 + 1,
    decreases k,
{
    if k > 0 {
        later_id_is(id, (k - 1) as nat);
    }
}

/// A stream waits for cells from when it is registered until it is taken out, and no other stream is
/// touched by that. A number that is given out is not the next one to be given out.
pub proof fn streams_wait_while_registered(
    circuit: CircuitView,
    stream_id: StreamId,
    other: StreamId,
)
    ensures
        circuit.with_stream(stream_id).streams.contains(stream_id),
        !circuit.without_stream(stream_id).streams.contains(stream_id),
        other != stream_id ==> circuit.with_stream(stream_id).streams.contains(other)
            == circuit.streams.contains(other),
        other != stream_id ==> circuit.without_stream(stream_id).streams.contains(other)
            == circuit.streams.contains(other),
        !circuit.streams.contains(stream_id) ==> circuit.with_stream(stream_id).without_stream(
            stream_id,
        ) == circuit,
        circuit.after_allocating().streams == circuit.streams,
        circuit.after_allocating().next_stream_id != circuit.next_stream_id,
        circuit.after_allocating().next_stream_id != 0,
{
    if !circuit.streams.contains(stream_id) {
        assert(circuit.with_stream(stream_id).without_stream(stream_id).streams
            =~= circuit.streams);
    }
}

/// A ready circuit keeps its connection busy with padding that says nothing, on its own number and on
/// no stream; a circuit in any other state sends none.
pub proof fn ready_circuits_are_kept_alive(circuit: CircuitView)
    ensures
        circuit.keepalive_cell() is Some <==> circuit.state == CircuitState::Ready,
        circuit.keepalive_cell() matches Some(m) ==> {
            &&& m.circuit_id == circuit.circuit_id
            &&& m.stream_id == 0
            &&& m.command == MessageCommand::Padding
            &&& m.data.len() == 0
        },
        circuit.closed().keepalive_cell() is None,
{
}

}
