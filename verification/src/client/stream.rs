//! A stream: what passes between a local connection and its destination through a circuit.

use crate::bytes::push_bytes;
use crate::bytes::slice_vec;
use crate::client::circuit::cells_reach_the_client;
use crate::client::circuit::cells_reach_the_exit;
use crate::client::circuit::exit_side;
use crate::client::circuit::next_id;
use crate::client::circuit::Circuit;
use crate::client::circuit::CircuitState;
use crate::client::circuit::CircuitView;
use crate::client::metrics::EventContent;
use crate::client::metrics::EventKind;
use crate::client::onion::all_forward_room;
use crate::client::onion::all_forwarded;
use crate::client::onion::all_returned;
use crate::client::onion::layers_keep_the_length;
use crate::client::onion::relayed_backward;
use crate::client::onion::relayed_forward;
use crate::crypto::CipherView;
use crate::crypto::cipher_room_for_nothing;
use crate::metrics::Direction;
use crate::protocol::joined;
use crate::protocol::pieces;
use crate::protocol::pieces_hold_the_data;
use crate::protocol::pieces_join_in_order;
use crate::protocol::CircuitId;
use crate::protocol::Message;
use crate::protocol::MessageCommand;
use crate::protocol::MessageView;
use crate::protocol::StreamId;
use crate::protocol::MAX_PAYLOAD_SIZE;
use crate::relay::exit::destination_in;
use crate::relay::exit::destination_reads_back;
use crate::relay::circuit::ActionView;
use crate::relay::exit::messages;
use crate::relay::exit::ExitView;
use crate::relay::exit::StreamInputView;
use crate::text::dec_text;
use crate::text::push_dec;
use vstd::prelude::*;
use vstd::string::*;
use vstd::utf8::encode_utf8;

verus! {

/// The size of the buffer into which data from the local connection is read.
pub const SOCKS5_READ_BUF_SIZE: usize = 4096;

/// How long the exit relay may take to connect, in seconds.
pub const CONNECTED_TIMEOUT_SECS: u64 = 30;

/// What a request over SOCKS asks for.
#[derive(Debug, Clone, Copy, PartialEq, Eq, Structural)]
pub enum SocksCommand {
    Connect,
    Bind,
    UdpAssociate,
}

/// The answers to a request over SOCKS that the client gives.
#[derive(Debug, Clone, Copy, PartialEq, Eq, Structural)]
pub enum SocksReply {
    Succeeded,
    GeneralFailure,
    CommandNotSupported,
}

/// What to answer at once, and what to complain of, if a request over SOCKS is not served.
pub fn refuse_command(command: SocksCommand) -> (r: Option<(SocksReply, String)>)
    ensures
        match r {
            Some((reply, complaint)) => {
                &&& command != SocksCommand::Connect
                &&& reply == SocksReply::CommandNotSupported
                &&& complaint@ == "Unsupported SOCKS5 command: "@ + (if command
                    == SocksCommand::Bind {
                    "Bind"@
                } else {
                    "UdpAssociate"@
                })
            },
            None => command == SocksCommand::Connect,
        },
        r is None <==> served(command),
{
    let mut complaint = "Unsupported SOCKS5 command: ".to_owned();
    match command {
        SocksCommand::Connect => None,
        SocksCommand::Bind => {
            complaint.append("Bind");
            Some((SocksReply::CommandNotSupported, complaint))
        },
        SocksCommand::UdpAssociate => {
            complaint.append("UdpAssociate");
            Some((SocksReply::CommandNotSupported, complaint))
        },
    }
}

/// Whether a stream is open after what came of the wait for the exit relay to connect.
pub open spec fn is_open_after(waited: Waited) -> bool {
    match waited {
        Waited::Got(m) => m.command == MessageCommand::Connected,
        Waited::Closed => false,
        Waited::TimedOut => false,
    }
}

/// Whether a request over SOCKS is served.
pub open spec fn served(command: SocksCommand) -> bool {
    command == SocksCommand::Connect
}

/// Whether the circuit of a stream is to be replaced.
pub open spec fn is_to_be_replaced(stream_failed: bool, state: CircuitState) -> bool {
    stream_failed && state == CircuitState::Closed
}

/// Whether the circuit of a stream is to be replaced: when the stream failed and the circuit is
/// closed.
pub fn needs_replacement(stream_failed: bool, state: CircuitState) -> (r: bool)
    ensures
        r == (stream_failed && state == CircuitState::Closed),
        r == is_to_be_replaced(stream_failed, state),
{
    stream_failed && state == CircuitState::Closed
}

/// The payload of a `begin` message: the destination and a zero.
pub open spec fn begin_payload(destination: Seq<char>) -> Seq<u8> {
    encode_utf8(destination) + seq![0u8]
}

/// Writes the payload of a `begin` message.
fn write_begin(destination: &str) -> (r: Vec<u8>)
    ensures
        r@ == begin_payload(destination@),
{
    let mut r: Vec<u8> = Vec::new();
    push_bytes(&mut r, destination.as_bytes());
    r.push(0);
    proof {
        assert(r@ =~= begin_payload(destination@));
    }
    r
}

/// What came of the wait for the exit relay to connect.
#[derive(Debug)]
pub enum Waited {
    Got(Message),
    Closed,
    TimedOut,
}

/// Why a stream could not be opened, and what the local connection is told, if anything.
#[derive(Debug)]
pub struct Refusal {
    pub reply: Option<SocksReply>,
    pub error: String,
}

/// What can happen to an open stream.
#[derive(Debug)]
pub enum BridgeInput {
    /// The local connection sent some bytes. None at all means that it was closed.
    FromClient(Vec<u8>),
    /// Reading from the local connection failed.
    ClientFailed,
    /// A message came for the stream.
    FromCircuit(Message),
    /// The circuit is over.
    CircuitClosed,
}

/// What can happen to an open stream.
pub enum BridgeInputView {
    FromClient(Seq<u8>),
    ClientFailed,
    FromCircuit(MessageView),
    CircuitClosed,
}

impl View for BridgeInput {
    type V = BridgeInputView;

    open spec fn view(&self) -> BridgeInputView {
        match *self {
            BridgeInput::FromClient(data) => BridgeInputView::FromClient(data@),
            BridgeInput::ClientFailed => BridgeInputView::ClientFailed,
            BridgeInput::FromCircuit(m) => BridgeInputView::FromCircuit(m@),
            BridgeInput::CircuitClosed => BridgeInputView::CircuitClosed,
        }
    }
}

impl BridgeInputView {
    /// How many bytes go out because of it.
    pub open spec fn size(self) -> nat {
        match self {
            BridgeInputView::FromClient(data) => data.len(),
            _ => 0,
        }
    }
}

/// What is to be done about an open stream.
#[derive(Debug)]
pub struct BridgeOutput {
    /// The cells to send.
    pub cells: Vec<Message>,
    /// The data to write to the local connection.
    pub write: Option<Vec<u8>>,
    /// What to note once the cells are sent.
    pub event: Option<EventKind>,
    /// Whether the stream is over.
    pub stop: bool,
}

/// What is to be done about an open stream.
#[verifier::ext_equal]
pub struct BridgeOutputView {
    pub cells: Seq<MessageView>,
    pub write: Option<Seq<u8>>,
    pub event: Option<EventContent>,
    pub stop: bool,
}

impl View for BridgeOutput {
    type V = BridgeOutputView;

    open spec fn view(&self) -> BridgeOutputView {
        BridgeOutputView {
            cells: messages(self.cells@),
            write: match self.write {
                Some(d) => Some(d@),
                None => None,
            },
            event: match self.event {
                Some(e) => Some(e@),
                None => None,
            },
            stop: self.stop,
        }
    }
}

impl CircuitView {
    /// The circuit after the pieces of data that go out, one cell for each.
    pub open spec fn after_pieces(self, stream_id: StreamId, parts: Seq<Seq<u8>>) -> CircuitView
        decreases parts.len(),
    {
        if parts.len() == 0 {
            self
        } else {
            self.after_pieces(stream_id, parts.drop_last()).after_sealing(
                stream_id,
                MessageCommand::Data,
                parts.last(),
            )
        }
    }

    /// The cells of the pieces of data that go out.
    pub open spec fn sealed_pieces(self, stream_id: StreamId, parts: Seq<Seq<u8>>) -> Seq<
        MessageView,
    >
        decreases parts.len(),
    {
        if parts.len() == 0 {
            Seq::empty()
        } else {
            self.sealed_pieces(stream_id, parts.drop_last()).push(
                self.after_pieces(stream_id, parts.drop_last()).sealed(
                    stream_id,
                    MessageCommand::Data,
                    parts.last(),
                ),
            )
        }
    }

    /// The circuit after a stream to a destination was opened on it, the stream, and the cell that
    /// asks the exit relay to connect.
    pub open spec fn after_opening(self, destination: Seq<char>) -> (
        CircuitView,
        ClientStream,
        MessageView,
    ) {
        let id = self.next_stream_id;
        let waiting = CircuitView {
            next_stream_id: next_id(id),
            streams: self.streams.insert(id),
            ..self
        };
        let payload = begin_payload(destination);
        (
            waiting.after_sealing(id, MessageCommand::Begin, payload),
            ClientStream { circuit_id: self.circuit_id, stream_id: id },
            waiting.sealed(id, MessageCommand::Begin, payload),
        )
    }

    /// The circuit after one of its streams was ended, and the cell that tells the exit relay.
    pub open spec fn after_ending(self, stream: ClientStream) -> (CircuitView, MessageView) {
        let after = self.after_sealing(stream.stream_id, MessageCommand::End, Seq::empty());
        (
            CircuitView { streams: after.streams.remove(stream.stream_id), ..after },
            self.sealed(stream.stream_id, MessageCommand::End, Seq::empty()),
        )
    }

    /// The circuit after something happened to one of its streams, and what is to be done about
    /// it. What the local connection sends goes out in `data` cells; `data` messages are written
    /// to it; an `end` message ends the stream, and any other message is passed over.
    pub open spec fn after_input(self, stream: ClientStream, input: BridgeInputView) -> (
        CircuitView,
        BridgeOutputView,
    ) {
        let nothing = BridgeOutputView {
            cells: Seq::empty(),
            write: None,
            event: None,
            stop: false,
        };
        match input {
            BridgeInputView::FromClient(data) => if data.len() == 0 {
                (self, BridgeOutputView { stop: true, ..nothing })
            } else {
                (
                    self.after_pieces(stream.stream_id, pieces(data)),
                    BridgeOutputView {
                        cells: self.sealed_pieces(stream.stream_id, pieces(data)),
                        event: Some(
                            EventContent::StreamData {
                                circuit_id: stream.circuit_id,
                                stream_id: stream.stream_id,
                                bytes: data.len() as usize,
                                direction: Direction::Forward,
                            },
                        ),
                        ..nothing
                    },
                )
            },
            BridgeInputView::FromCircuit(m) => (
                self,
                if m.command == MessageCommand::Data {
                    BridgeOutputView { write: Some(m.data), ..nothing }
                } else if m.command == MessageCommand::End {
                    BridgeOutputView { stop: true, ..nothing }
                } else {
                    nothing
                },
            ),
            BridgeInputView::ClientFailed | BridgeInputView::CircuitClosed => (
                self,
                BridgeOutputView { stop: true, ..nothing },
            ),
        }
    }
}

/// A stream of a circuit.
#[derive(Debug, Clone, Copy, PartialEq, Eq, Structural)]
pub struct ClientStream {
    pub circuit_id: CircuitId,
    pub stream_id: StreamId,
}

/// Cuts data into pieces and makes a `data` cell of each.
pub fn send_pieces(circuit: &mut Circuit, stream_id: StreamId, data: &[u8]) -> (r: Vec<Message>)
    requires
        all_forward_room(old(circuit)@.onion.ciphers, data@.len()),
    ensures
        final(circuit)@ == old(circuit)@.after_pieces(stream_id, pieces(data@)),
        messages(r@) == old(circuit)@.sealed_pieces(stream_id, pieces(data@)),
{
    let ghost start = circuit@;
    let ghost mut done: Seq<Seq<u8>> = Seq::empty();
    let mut cells: Vec<Message> = Vec::new();
    let mut i: usize = 0;
    proof {
        assert(data@.skip(0) =~= data@);
        assert(done + pieces(data@) =~= pieces(data@));
        assert(messages(cells@) =~= Seq::<MessageView>::empty());
    }
    while i < data.len()
        invariant
            i <= data.len(),
            pieces(data@) == done + pieces(data@.skip(i as int)),
            all_forward_room(start.onion.ciphers, data@.len()),
            circuit@ == start.after_pieces(stream_id, done),
            circuit@.onion.ciphers.len() == start.onion.ciphers.len(),
            forall|j: int|
                0 <= j < start.onion.ciphers.len() ==> (
                #[trigger] circuit@.onion.ciphers[j]).forward_pos
                    == start.onion.ciphers[j].forward_pos + i,
            messages(cells@) == start.sealed_pieces(stream_id, done),
        decreases data.len() - i,
    {
        let end = if data.len() - i <= MAX_PAYLOAD_SIZE {
            data.len()
        } else {
            i + MAX_PAYLOAD_SIZE
        };
        let piece = slice_vec(data, i, end);
        proof {
            assert forall|j: int| 0 <= j < circuit@.onion.ciphers.len() implies (
            #[trigger] circuit@.onion.ciphers[j]).forward_room(piece@.len()) by {
                assert(start.onion.ciphers[j].forward_room(data@.len()));
            }
        }
        let ghost held = circuit@.onion.ciphers;
        let cell = circuit.send_message(stream_id, MessageCommand::Data, piece.as_slice());
        let ghost before = cells@;
        cells.push(cell);
        proof {
            let rest = data@.skip(i as int);
            let more = done.push(piece@);
            if rest.len() <= MAX_PAYLOAD_SIZE {
                assert(piece@ =~= rest);
                assert(pieces(data@.skip(end as int)) =~= Seq::<Seq<u8>>::empty());
            } else {
                assert(piece@ =~= rest.take(MAX_PAYLOAD_SIZE as int));
                assert(rest.skip(MAX_PAYLOAD_SIZE as int) =~= data@.skip(end as int));
            }
            assert(pieces(data@) =~= more + pieces(data@.skip(end as int)));
            assert(more.drop_last() =~= done);
            assert(messages(cells@) =~= messages(before).push(cell@));
            assert forall|j: int| 0 <= j < start.onion.ciphers.len() implies (
            #[trigger] circuit@.onion.ciphers[j]).forward_pos == start.onion.ciphers[j].forward_pos
                + end by {
                assert(held[j].forward_pos == start.onion.ciphers[j].forward_pos + i);
            }
            done = more;
        }
        i = end;
    }
    proof {
        assert(pieces(data@.skip(i as int)) =~= Seq::<Seq<u8>>::empty());
        assert(done =~= pieces(data@));
    }
    cells
}

impl ClientStream {
    /// Opens a stream on a circuit: it gets a number and waits for cells, and the exit relay is
    /// asked to connect.
    pub fn open(circuit: &mut Circuit, destination: &str) -> (r: (Self, Message))
        requires
            all_forward_room(
                old(circuit)@.onion.ciphers,
                begin_payload(destination@).len(),
            ),
        ensures
            ({
                let id = old(circuit)@.next_stream_id;
                let waiting = CircuitView {
                    next_stream_id: next_id(id),
                    streams: old(circuit)@.streams.insert(id),
                    ..old(circuit)@
                };
                let payload = begin_payload(destination@);
                &&& r.0 == (ClientStream {
                    circuit_id: old(circuit)@.circuit_id,
                    stream_id: id,
                })
                &&& r.1@ == waiting.sealed(id, MessageCommand::Begin, payload)
                &&& final(circuit)@ == waiting.after_sealing(id, MessageCommand::Begin, payload)
            }),
            (final(circuit)@, r.0, r.1@) == old(circuit)@.after_opening(destination@),
    {
        let stream_id = circuit.allocate_stream_id();
        circuit.register_stream(stream_id);
        let circuit_id = circuit.circuit_id;
        let payload = write_begin(destination);
        let m = circuit.send_message(stream_id, MessageCommand::Begin, payload.as_slice());
        (ClientStream { circuit_id, stream_id }, m)
    }

    /// Notes that the exit relay was asked to connect.
    pub fn begun(&self, destination: String) -> (event: EventKind)
        ensures
            event@ == (EventContent::StreamBegin {
                circuit_id: self.circuit_id,
                stream_id: self.stream_id,
                destination: destination@,
            }),
    {
        EventKind::StreamBegin {
            circuit_id: self.circuit_id,
            stream_id: self.stream_id,
            destination,
        }
    }

    /// Takes what came of the wait for the exit relay to connect: the stream is open if and only
    /// if a `connected` message came first.
    pub fn connected(&self, waited: Waited) -> (r: Result<EventKind, Refusal>)
        ensures
            r is Ok <==> is_open_after(waited),
            match r {
                Ok(event) => {
                    &&& waited is Got
                    &&& waited->Got_0@.command == MessageCommand::Connected
                    &&& event@ == (EventContent::StreamConnected {
                        circuit_id: self.circuit_id,
                        stream_id: self.stream_id,
                    })
                },
                Err(refusal) => match waited {
                    Waited::Got(m) => {
                        &&& m@.command != MessageCommand::Connected
                        &&& refusal.reply == Some(SocksReply::GeneralFailure)
                        &&& refusal.error@ == "Expected CONNECTED for stream "@ + dec_text(
                            self.stream_id as nat,
                        ) + ", got "@ + m@.command.text()
                    },
                    Waited::Closed => {
                        &&& refusal.reply is None
                        &&& refusal.error@
                            == "Circuit closed before CONNECTED received for stream "@ + dec_text(
                            self.stream_id as nat,
                        )
                    },
                    Waited::TimedOut => {
                        &&& refusal.reply is None
                        &&& refusal.error@ == "Timed out waiting for CONNECTED on stream "@
                            + dec_text(self.stream_id as nat) + " ("@ + dec_text(
                            CONNECTED_TIMEOUT_SECS as nat,
                        ) + "s)"@
                    },
                },
            },
    {
        match waited {
            Waited::Got(m) => {
                if m.command == MessageCommand::Connected {
                    return Ok(
                        EventKind::StreamConnected {
                            circuit_id: self.circuit_id,
                            stream_id: self.stream_id,
                        },
                    );
                }
                let mut error = "Expected CONNECTED for stream ".to_owned();
                push_dec(&mut error, self.stream_id as u64);
                error.append(", got ");
                error.append(m.command.to_string().as_str());
                Err(Refusal { reply: Some(SocksReply::GeneralFailure), error })
            },
            Waited::Closed => {
                let mut error = "Circuit closed before CONNECTED received for stream ".to_owned();
                push_dec(&mut error, self.stream_id as u64);
                Err(Refusal { reply: None, error })
            },
            Waited::TimedOut => {
                let mut error = "Timed out waiting for CONNECTED on stream ".to_owned();
                push_dec(&mut error, self.stream_id as u64);
                error.append(" (");
                push_dec(&mut error, CONNECTED_TIMEOUT_SECS);
                error.append("s)");
                Err(Refusal { reply: None, error })
            },
        }
    }

    /// Takes what happened to the open stream.
    pub fn handle(&self, circuit: &mut Circuit, input: BridgeInput) -> (r: BridgeOutput)
        requires
            all_forward_room(old(circuit)@.onion.ciphers, input@.size()),
        ensures
            (final(circuit)@, r@) == old(circuit)@.after_input(*self, input@),
    {
        let no_cells: Vec<Message> = Vec::new();
        proof {
            assert(messages(no_cells@) =~= Seq::<MessageView>::empty());
        }
        match input {
            BridgeInput::FromClient(data) => {
                if data.len() == 0 {
                    return BridgeOutput { cells: no_cells, write: None, event: None, stop: true };
                }
                let cells = send_pieces(circuit, self.stream_id, data.as_slice());
                BridgeOutput {
                    cells,
                    write: None,
                    event: Some(
                        EventKind::StreamData {
                            circuit_id: self.circuit_id,
                            stream_id: self.stream_id,
                            bytes: data.len(),
                            direction: Direction::Forward,
                        },
                    ),
                    stop: false,
                }
            },
            BridgeInput::FromCircuit(m) => {
                if m.command == MessageCommand::Data {
                    BridgeOutput {
                        cells: no_cells,
                        write: Some(m.data),
                        event: None,
                        stop: false,
                    }
                } else {
                    BridgeOutput {
                        cells: no_cells,
                        write: None,
                        event: None,
                        stop: m.command == MessageCommand::End,
                    }
                }
            },
            BridgeInput::ClientFailed | BridgeInput::CircuitClosed => {
                BridgeOutput { cells: no_cells, write: None, event: None, stop: true }
            },
        }
    }

    /// Ends the stream: the exit relay is told, and the stream waits for cells no more.
    pub fn close(&self, circuit: &mut Circuit) -> (r: Message)
        ensures
            r@ == old(circuit)@.sealed(self.stream_id, MessageCommand::End, Seq::empty()),
            ({
                let after = old(circuit)@.after_sealing(
                    self.stream_id,
                    MessageCommand::End,
                    Seq::empty(),
                );
                final(circuit)@ == (CircuitView {
                    streams: after.streams.remove(self.stream_id),
                    ..after
                })
            }),
            (final(circuit)@, r@) == old(circuit)@.after_ending(*self),
    {
        proof {
            assert forall|j: int| 0 <= j < circuit@.onion.ciphers.len() implies (
            #[trigger] circuit@.onion.ciphers[j]).forward_room(0) by {
                cipher_room_for_nothing(circuit.onion_keys.ciphers@[j]);
            }
        }
        let data: Vec<u8> = Vec::new();
        let m = circuit.send_message(self.stream_id, MessageCommand::End, data.as_slice());
        circuit.unregister_stream(self.stream_id);
        m
    }

    /// Notes that the stream has ended.
    pub fn ended(&self) -> (event: EventKind)
        ensures
            event@ == (EventContent::StreamEnd {
                circuit_id: self.circuit_id,
                stream_id: self.stream_id,
            }),
    {
        EventKind::StreamEnd { circuit_id: self.circuit_id, stream_id: self.stream_id }
    }
}

/// The exit relay reads the destination that a stream asks for.
pub proof fn destinations_arrive(destination: Seq<char>)
    requires
        destination.len() > 0 ==> destination.last() != '\0',
    ensures
        destination_in(begin_payload(destination)) == Ok::<Seq<char>, Seq<char>>(destination),
{
    destination_reads_back(destination);
}

/// The cells of some pieces reach the exit relay one after the other.
proof fn pieces_reach_the_exit(circuit: CircuitView, stream_id: StreamId, parts: Seq<Seq<u8>>)
    requires
        circuit.onion.ciphers.len() > 0,
    ensures
        circuit.after_pieces(stream_id, parts).onion.ciphers.len() == circuit.onion.ciphers.len(),
        circuit.sealed_pieces(stream_id, parts).len() == parts.len(),
        forall|i: int|
            0 <= i < parts.len() ==> {
                let sender = circuit.after_pieces(stream_id, parts.take(i));
                let cell = #[trigger] circuit.sealed_pieces(stream_id, parts)[i];
                let at_exit = MessageView {
                    data: relayed_forward(sender.onion.ciphers.drop_last(), cell.data),
                    ..cell
                };
                &&& exit_side(sender).accepts(at_exit)
                &&& exit_side(sender).opened(at_exit) == parts[i]
            },
    decreases parts.len(),
{
    if parts.len() > 0 {
        let front = parts.drop_last();
        pieces_reach_the_exit(circuit, stream_id, front);
        let cells = circuit.sealed_pieces(stream_id, parts);
        let front_cells = circuit.sealed_pieces(stream_id, front);
        assert forall|i: int| 0 <= i < parts.len() implies {
            let sender = circuit.after_pieces(stream_id, parts.take(i));
            let cell = #[trigger] cells[i];
            let at_exit = MessageView {
                data: relayed_forward(sender.onion.ciphers.drop_last(), cell.data),
                ..cell
            };
            &&& exit_side(sender).accepts(at_exit)
            &&& exit_side(sender).opened(at_exit) == parts[i]
        } by {
            if i < front.len() {
                assert(cells[i] == front_cells[i]);
                assert(parts.take(i) =~= front.take(i));
            } else {
                assert(parts.take(i) =~= front);
                cells_reach_the_exit(
                    circuit.after_pieces(stream_id, front),
                    stream_id,
                    MessageCommand::Data,
                    parts.last(),
                );
            }
        }
    }
}

/// What the local connection sends reaches the exit relay: an exit relay in step with the client
/// accepts the cells that are made of it, reads one piece of the data from each, and the pieces
/// make up the data.
pub proof fn sent_data_reaches_the_exit(
    circuit: CircuitView,
    stream_id: StreamId,
    data: Seq<u8>,
)
    requires
        circuit.onion.ciphers.len() > 0,
    ensures
        ({
            let cells = circuit.sealed_pieces(stream_id, pieces(data));
            &&& cells.len() == pieces(data).len()
            &&& joined(pieces(data)) == data
            &&& forall|i: int|
                0 <= i < cells.len() ==> {
                    let sender = circuit.after_pieces(stream_id, pieces(data).take(i));
                    let at_exit = MessageView {
                        data: relayed_forward(
                            sender.onion.ciphers.drop_last(),
                            (#[trigger] cells[i]).data,
                        ),
                        ..cells[i]
                    };
                    &&& exit_side(sender).accepts(at_exit)
                    &&& exit_side(sender).opened(at_exit) == pieces(data)[i]
                }
        }),
{
    pieces_hold_the_data(data);
    pieces_reach_the_exit(circuit, stream_id, pieces(data));
}

/// What an open stream does with what the circuit hands to it. The data of a `data` message is
/// written to the local connection, every byte of it, and the stream goes on. An `end` message ends
/// the stream and nothing is written; any other message is passed over. No cell goes out for any of
/// them, and the circuit stays as it is.
pub proof fn received_data_is_written(circuit: CircuitView, stream: ClientStream, m: MessageView)
    ensures
        ({
            let (after, out) = circuit.after_input(stream, BridgeInputView::FromCircuit(m));
            &&& after == circuit
            &&& out.cells.len() == 0
            &&& m.command == MessageCommand::Data ==> out.write == Some(m.data) && !out.stop
            &&& m.command == MessageCommand::End ==> out.write is None && out.stop
            &&& m.command != MessageCommand::Data && m.command != MessageCommand::End
                ==> out.write is None && !out.stop
        }),
{
}

/// A stream is over, and nothing is sent or written for it, when the local connection is closed or
/// fails and when the circuit is over.
pub proof fn streams_end_with_their_connections(circuit: CircuitView, stream: ClientStream)
    ensures
        ({
            let (after, out) = circuit.after_input(
                stream,
                BridgeInputView::FromClient(Seq::empty()),
            );
            after == circuit && out.stop && out.cells.len() == 0 && out.write is None
        }),
        ({
            let (after, out) = circuit.after_input(stream, BridgeInputView::ClientFailed);
            after == circuit && out.stop && out.cells.len() == 0 && out.write is None
        }),
        ({
            let (after, out) = circuit.after_input(stream, BridgeInputView::CircuitClosed);
            after == circuit && out.stop && out.cells.len() == 0 && out.write is None
        }),
{
}

/// A stream that is opened gets the next free number and waits for cells, and an exit relay in step
/// with the client is told by its cell to connect to the destination that was asked for. When the
/// stream is closed again, an exit relay in step drops it, and it waits for cells no more.
pub proof fn opened_streams_are_connected(
    circuit: CircuitView,
    exit: ExitView,
    destination: Seq<char>,
)
    requires
        circuit.onion.ciphers.len() > 0,
        exit.crypto == Some(exit_side(circuit)),
        destination.len() > 0 ==> destination.last() != '\0',
    ensures
        ({
            let (after, stream, cell) = circuit.after_opening(destination);
            let at_exit = MessageView {
                data: relayed_forward(circuit.onion.ciphers.drop_last(), cell.data),
                ..cell
            };
            let (told, outcome) = exit.after_message(at_exit);
            &&& stream.stream_id == circuit.next_stream_id
            &&& stream.circuit_id == circuit.circuit_id
            &&& cell.circuit_id == circuit.circuit_id
            &&& after.streams == circuit.streams.insert(stream.stream_id)
            &&& after.next_stream_id != stream.stream_id
            &&& after.next_stream_id != 0
            &&& after.state == circuit.state
            &&& outcome == Ok::<ActionView, Seq<char>>(
                ActionView::Connect { stream_id: stream.stream_id, destination },
            )
            &&& told.streams == exit.streams
            &&& told.crypto == Some(exit_side(after))
        }),
        forall|stream: ClientStream|
            ({
                let (after, cell) = #[trigger] circuit.after_ending(stream);
                let at_exit = MessageView {
                    data: relayed_forward(circuit.onion.ciphers.drop_last(), cell.data),
                    ..cell
                };
                let (told, outcome) = exit.after_message(at_exit);
                &&& after.streams == circuit.streams.remove(stream.stream_id)
                &&& outcome is Ok
                &&& outcome->Ok_0 is CloseStream
                &&& outcome->Ok_0->CloseStream_stream_id == stream.stream_id
                &&& told.streams == exit.streams.remove(stream.stream_id)
            }),
{
    let id = circuit.next_stream_id;
    let waiting = CircuitView {
        next_stream_id: next_id(id),
        streams: circuit.streams.insert(id),
        ..circuit
    };
    let payload = begin_payload(destination);
    cells_reach_the_exit(waiting, id, MessageCommand::Begin, payload);
    assert(exit_side(waiting) == exit_side(circuit));
    destinations_arrive(destination);
    assert forall|stream: ClientStream|
        ({
            let (after, cell) = #[trigger] circuit.after_ending(stream);
            let at_exit = MessageView {
                data: relayed_forward(circuit.onion.ciphers.drop_last(), cell.data),
                ..cell
            };
            let (told, outcome) = exit.after_message(at_exit);
            &&& after.streams == circuit.streams.remove(stream.stream_id)
            &&& outcome is Ok
            &&& outcome->Ok_0 is CloseStream
            &&& outcome->Ok_0->CloseStream_stream_id == stream.stream_id
            &&& told.streams == exit.streams.remove(stream.stream_id)
        }) by {
        cells_reach_the_exit(circuit, stream.stream_id, MessageCommand::End, Seq::empty());
    }
}

/// The exit relay, the ciphers of the relays before it, and the bytes that have gone to the
/// destination of a stream, after some cells have come through these relays one after the other.
pub open spec fn carried_out(
    exit: ExitView,
    relays: Seq<CipherView>,
    stream_id: StreamId,
    cells: Seq<MessageView>,
) -> (ExitView, Seq<CipherView>, Seq<u8>)
    decreases cells.len(),
{
    if cells.len() == 0 {
        (exit, relays, Seq::empty())
    } else {
        let (before, passed, bytes) = carried_out(exit, relays, stream_id, cells.drop_last());
        let cell = cells.last();
        let (after, outcome) = before.after_message(
            MessageView { data: relayed_forward(passed, cell.data), ..cell },
        );
        (
            after,
            all_forwarded(passed, cell.data.len()),
            match outcome {
                Ok(ActionView::Deliver { stream_id: to, data }) => if to == stream_id {
                    bytes + data
                } else {
                    bytes
                },
                _ => bytes,
            },
        )
    }
}

/// The circuit, the ciphers of the relays before the exit, and the bytes that have been written to
/// the local connection of a stream, after some cells of the exit relay have come back through
/// these relays one after the other.
pub open spec fn brought_back(
    circuit: CircuitView,
    relays: Seq<CipherView>,
    stream: ClientStream,
    cells: Seq<MessageView>,
) -> (CircuitView, Seq<CipherView>, Seq<u8>)
    decreases cells.len(),
{
    if cells.len() == 0 {
        (circuit, relays, Seq::empty())
    } else {
        let (before, passed, bytes) = brought_back(circuit, relays, stream, cells.drop_last());
        let cell = cells.last();
        let (after, step) = before.after_cell(
            MessageView { data: relayed_backward(passed, cell.data), ..cell },
        );
        let still = all_returned(passed, cell.data.len());
        match step.deliver {
            Some(m) => if m.stream_id == stream.stream_id {
                let (done, out) = after.after_input(stream, BridgeInputView::FromCircuit(m));
                (
                    done,
                    still,
                    match out.write {
                        Some(data) => bytes + data,
                        None => bytes,
                    },
                )
            } else {
                (after, still, bytes)
            },
            None => (after, still, bytes),
        }
    }
}

proof fn pieces_are_carried_out(
    circuit: CircuitView,
    exit: ExitView,
    stream_id: StreamId,
    parts: Seq<Seq<u8>>,
)
    requires
        circuit.onion.ciphers.len() > 0,
        exit.crypto == Some(exit_side(circuit)),
        exit.streams.contains_key(stream_id),
    ensures
        ({
            let sent = circuit.after_pieces(stream_id, parts);
            &&& sent.onion.ciphers.len() == circuit.onion.ciphers.len()
            &&& carried_out(
                exit,
                circuit.onion.ciphers.drop_last(),
                stream_id,
                circuit.sealed_pieces(stream_id, parts),
            ) == (
                exit.with_crypto(exit_side(sent)),
                sent.onion.ciphers.drop_last(),
                joined(parts),
            )
        }),
    decreases parts.len(),
{
    let relays = circuit.onion.ciphers.drop_last();
    if parts.len() > 0 {
        let front = parts.drop_last();
        pieces_are_carried_out(circuit, exit, stream_id, front);
        let sender = circuit.after_pieces(stream_id, front);
        let cells = circuit.sealed_pieces(stream_id, parts);
        assert(cells.drop_last() =~= circuit.sealed_pieces(stream_id, front));
        cells_reach_the_exit(sender, stream_id, MessageCommand::Data, parts.last());
        layers_keep_the_length(sender.onion.ciphers, parts.last());
        let sent = circuit.after_pieces(stream_id, parts);
        assert(all_forwarded(sender.onion.ciphers.drop_last(), parts.last().len())
            =~= sent.onion.ciphers.drop_last());
        pieces_join_in_order(front, parts.last());
        assert(front.push(parts.last()) =~= parts);
    } else {
        assert(exit =~= exit.with_crypto(exit_side(circuit)));
    }
}

proof fn pieces_are_brought_back(
    circuit: CircuitView,
    stream: ClientStream,
    parts: Seq<Seq<u8>>,
)
    requires
        circuit.onion.ciphers.len() > 0,
        circuit.streams.contains(stream.stream_id),
    ensures
        ({
            let exit = exit_side(circuit);
            let (after, passed, bytes) = brought_back(
                circuit,
                circuit.onion.ciphers.drop_last(),
                stream,
                exit.sealed_pieces(circuit.circuit_id, stream.stream_id, parts),
            );
            &&& after.onion.ciphers.len() == circuit.onion.ciphers.len()
            &&& exit_side(after) == exit.after_pieces(stream.stream_id, parts)
            &&& passed == after.onion.ciphers.drop_last()
            &&& after.streams == circuit.streams
            &&& after.state == circuit.state
            &&& after.circuit_id == circuit.circuit_id
            &&& bytes == joined(parts)
        }),
    decreases parts.len(),
{
    let relays = circuit.onion.ciphers.drop_last();
    let exit = exit_side(circuit);
    if parts.len() > 0 {
        let front = parts.drop_last();
        pieces_are_brought_back(circuit, stream, front);
        let cells = exit.sealed_pieces(circuit.circuit_id, stream.stream_id, parts);
        let front_cells = exit.sealed_pieces(circuit.circuit_id, stream.stream_id, front);
        assert(cells.drop_last() =~= front_cells);
        let (before, passed, bytes) = brought_back(circuit, relays, stream, front_cells);
        cells_reach_the_client(before, stream.stream_id, MessageCommand::Data, parts.last());
        let cell = exit_side(before).sealed(
            circuit.circuit_id,
            stream.stream_id,
            MessageCommand::Data,
            parts.last(),
        );
        assert(cells.last() == cell);
        let arrived = MessageView { data: relayed_backward(passed, cell.data), ..cell };
        layers_keep_the_length(passed, cell.data);
        let (after, step) = before.after_cell(arrived);
        assert(after.onion.ciphers == all_returned(before.onion.ciphers, cell.data.len()));
        assert(all_returned(passed, cell.data.len()) =~= after.onion.ciphers.drop_last());
        pieces_join_in_order(front, parts.last());
        assert(front.push(parts.last()) =~= parts);
    }
}

/// What goes in at one end comes out at the other. The cells that a stream makes of what its local
/// connection sends, passed through the relays of the circuit to an exit relay in step with the
/// client, bring to the destination exactly what the local connection sent.
pub proof fn sent_data_arrives_at_the_destination(
    circuit: CircuitView,
    exit: ExitView,
    stream: ClientStream,
    data: Seq<u8>,
)
    requires
        circuit.onion.ciphers.len() > 0,
        exit.crypto == Some(exit_side(circuit)),
        exit.streams.contains_key(stream.stream_id),
    ensures
        ({
            let (sender, out) = circuit.after_input(stream, BridgeInputView::FromClient(data));
            let (receiver, relays, bytes) = carried_out(
                exit,
                circuit.onion.ciphers.drop_last(),
                stream.stream_id,
                out.cells,
            );
            &&& bytes == data
            &&& receiver.crypto == Some(exit_side(sender))
            &&& receiver.streams == exit.streams
            &&& relays == sender.onion.ciphers.drop_last()
            &&& sender.streams == circuit.streams
            &&& sender.state == circuit.state
            &&& out.write is None
            &&& out.stop == (data.len() == 0)
            &&& data.len() > 0 ==> out.event == Some(
                EventContent::StreamData {
                    circuit_id: stream.circuit_id,
                    stream_id: stream.stream_id,
                    bytes: data.len() as usize,
                    direction: Direction::Forward,
                },
            )
            &&& data.len() == 0 ==> out.event is None
        }),
{
    pieces_hold_the_data(data);
    pieces_are_carried_out(circuit, exit, stream.stream_id, pieces(data));
    sending_keeps_the_streams(circuit, stream.stream_id, pieces(data));
    if data.len() == 0 {
        assert(exit =~= exit.with_crypto(exit_side(circuit)));
    }
}

proof fn sending_keeps_the_streams(circuit: CircuitView, stream_id: StreamId, parts: Seq<Seq<u8>>)
    ensures
        circuit.after_pieces(stream_id, parts).streams == circuit.streams,
        circuit.after_pieces(stream_id, parts).state == circuit.state,
    decreases parts.len(),
{
    if parts.len() > 0 {
        sending_keeps_the_streams(circuit, stream_id, parts.drop_last());
    }
}

/// What comes back is written as it was sent. The cells that an exit relay in step with the client
/// makes of what a destination sends, passed back through the relays of the circuit, have exactly
/// that data written to the local connection of the stream, and the circuit goes on.
pub proof fn returned_data_arrives_at_the_client(
    circuit: CircuitView,
    exit: ExitView,
    stream: ClientStream,
    data: Seq<u8>,
)
    requires
        circuit.onion.ciphers.len() > 0,
        circuit.streams.contains(stream.stream_id),
        exit.crypto == Some(exit_side(circuit)),
        exit.context.circuit_id == circuit.circuit_id,
        data.len() > 0,
    ensures
        ({
            let (sender, out) = exit.after_input(stream.stream_id, StreamInputView::Read(data));
            let (receiver, relays, bytes) = brought_back(
                circuit,
                circuit.onion.ciphers.drop_last(),
                stream,
                out.cells,
            );
            &&& bytes == data
            &&& sender.crypto == Some(exit_side(receiver))
            &&& relays == receiver.onion.ciphers.drop_last()
            &&& receiver.streams == circuit.streams
            &&& receiver.state == circuit.state
        }),
{
    pieces_hold_the_data(data);
    pieces_are_brought_back(circuit, stream, pieces(data));
}

/// Requests to connect are served and no others. A circuit is replaced where a stream failed because
/// the circuit is closed: not while it is in use, and not because of a stream that went well.
pub proof fn circuits_are_replaced_when_closed(
    command: SocksCommand,
    stream_failed: bool,
    state: CircuitState,
)
    ensures
        served(SocksCommand::Connect),
        !served(SocksCommand::Bind),
        !served(SocksCommand::UdpAssociate),
        is_to_be_replaced(true, CircuitState::Closed),
        !stream_failed ==> !is_to_be_replaced(stream_failed, state),
        state != CircuitState::Closed ==> !is_to_be_replaced(stream_failed, state),
{
}

/// A stream is open only after the exit relay has said that it is connected: not after any other
/// message, and not when the circuit closed or no message came in time.
pub proof fn streams_open_when_connected(waited: Waited)
    ensures
        is_open_after(waited) <==> waited is Got && waited->Got_0@.command
            == MessageCommand::Connected,
        waited is Closed ==> !is_open_after(waited),
        waited is TimedOut ==> !is_open_after(waited),
{
}

}
