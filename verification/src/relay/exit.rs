//! The exit relay of a circuit, which connects to destinations on behalf of the client.

use crate::bytes::slice_vec;
use crate::crypto::cipher_pairs_undo_each_other;
use crate::crypto::cipher_room_for_nothing;
use crate::crypto::digest_input;
use crate::crypto::digest_tag;
use crate::crypto::CipherPair;
use crate::crypto::CipherView;
use crate::crypto::RunningDigest;
use crate::crypto::SessionKey;
use crate::error::prefixed;
use crate::metrics::Direction;
use crate::protocol::joined;
use crate::protocol::pieces;
use crate::protocol::pieces_hold_the_data;
use crate::protocol::CircuitId;
use crate::protocol::Message;
use crate::protocol::MessageCommand;
use crate::protocol::MessageView;
use crate::protocol::StreamId;
use crate::protocol::MAX_PAYLOAD_SIZE;
use crate::relay::circuit::is_action;
use crate::relay::circuit::Action;
use crate::relay::circuit::ActionView;
use crate::relay::circuit::CircuitContext;
use crate::relay::circuit::CircuitState;
use crate::relay::circuit::ContextView;
use crate::relay::keypair::KeyPair;
use crate::relay::metrics::EventContent;
use crate::relay::metrics::EventKind;
use crate::text::trim_end_char;
use crate::text::utf8_complaint;
use crate::text::utf8_in_pieces;
use crate::text::utf8_text;
use crate::text::without_end;
use std::collections::HashMap;
use vstd::prelude::*;
use vstd::string::*;
use vstd::utf8::decode_utf8;
use vstd::utf8::encode_utf8;
use vstd::utf8::valid_utf8;

verus! {

/// The ciphers and the running digests that the exit relay shares with the client.
pub struct ExitCryptoState {
    pub cipher: CipherPair,
    pub forward_digest: RunningDigest,
    pub backward_digest: RunningDigest,
}

/// The state of the ciphers, and what each running digest has taken in.
#[verifier::ext_equal]
pub struct CryptoView {
    pub cipher: CipherView,
    pub forward: Seq<u8>,
    pub backward: Seq<u8>,
}

impl View for ExitCryptoState {
    type V = CryptoView;

    open spec fn view(&self) -> CryptoView {
        CryptoView {
            cipher: self.cipher@,
            forward: self.forward_digest@,
            backward: self.backward_digest@,
        }
    }
}

impl CryptoView {
    /// Nothing used and nothing taken in.
    pub open spec fn fresh(cipher: CipherView) -> CryptoView {
        CryptoView { cipher, forward: Seq::empty(), backward: Seq::empty() }
    }

    /// The data of a cell that comes in.
    pub open spec fn opened(self, msg: MessageView) -> Seq<u8> {
        self.cipher.forward(msg.data)
    }

    /// The state after a cell that comes in.
    pub open spec fn after_opening(self, msg: MessageView) -> CryptoView {
        CryptoView {
            cipher: self.cipher.forwarded(msg.data.len()),
            forward: self.forward + digest_input(
                msg.stream_id,
                msg.command.code(),
                self.opened(msg),
            ),
            backward: self.backward,
        }
    }

    /// Whether a cell that comes in carries the tag of the running digest after it.
    pub open spec fn accepts(self, msg: MessageView) -> bool {
        msg.digest == digest_tag(self.after_opening(msg).forward)
    }

    /// The state after a cell that goes out.
    pub open spec fn after_sealing(
        self,
        stream_id: StreamId,
        command: MessageCommand,
        data: Seq<u8>,
    ) -> CryptoView {
        CryptoView {
            cipher: self.cipher.returned(data.len()),
            forward: self.forward,
            backward: self.backward + digest_input(stream_id, command.code(), data),
        }
    }

    /// A cell that goes out.
    pub open spec fn sealed(
        self,
        circuit_id: CircuitId,
        stream_id: StreamId,
        command: MessageCommand,
        data: Seq<u8>,
    ) -> MessageView {
        MessageView {
            circuit_id,
            stream_id,
            command,
            data: self.cipher.backward(data),
            digest: digest_tag(self.after_sealing(stream_id, command, data).backward),
        }
    }

    /// The state after the pieces of data that go out, one cell for each.
    pub open spec fn after_pieces(self, stream_id: StreamId, pieces: Seq<Seq<u8>>) -> CryptoView
        decreases pieces.len(),
    {
        if pieces.len() == 0 {
            self
        } else {
            self.after_pieces(stream_id, pieces.drop_last()).after_sealing(
                stream_id,
                MessageCommand::Data,
                pieces.last(),
            )
        }
    }

    /// The cells of the pieces of data that go out.
    pub open spec fn sealed_pieces(
        self,
        circuit_id: CircuitId,
        stream_id: StreamId,
        pieces: Seq<Seq<u8>>,
    ) -> Seq<MessageView>
        decreases pieces.len(),
    {
        if pieces.len() == 0 {
            Seq::empty()
        } else {
            self.sealed_pieces(circuit_id, stream_id, pieces.drop_last()).push(
                self.after_pieces(stream_id, pieces.drop_last()).sealed(
                    circuit_id,
                    stream_id,
                    MessageCommand::Data,
                    pieces.last(),
                ),
            )
        }
    }
}

impl ExitCryptoState {
    /// Takes off the layer of a cell and checks its digest. The running digest takes in the cell
    /// either way.
    pub fn open(&mut self, msg: &Message) -> (r: Option<Vec<u8>>)
        requires
            old(self)@.cipher.forward_room(msg@.data.len()),
        ensures
            final(self)@ == old(self)@.after_opening(msg@),
            match r {
                Some(data) => old(self)@.accepts(msg@) && data@ == old(self)@.opened(msg@),
                None => !old(self)@.accepts(msg@),
            },
    {
        let data = self.cipher.forward_vec(msg.data.as_slice());
        if self.forward_digest.verify(
            msg.stream_id,
            msg.command.to_u8(),
            data.as_slice(),
            msg.digest,
        ) {
            Some(data)
        } else {
            None
        }
    }

    /// Makes a cell that goes out: the running digest takes in its data, and the data gets the
    /// layer of the exit relay.
    pub fn seal(
        &mut self,
        circuit_id: CircuitId,
        stream_id: StreamId,
        command: MessageCommand,
        data: &[u8],
    ) -> (r: Message)
        requires
            old(self)@.cipher.backward_room(data@.len()),
        ensures
            final(self)@ == old(self)@.after_sealing(stream_id, command, data@),
            r@ == old(self)@.sealed(circuit_id, stream_id, command, data@),
    {
        let digest = self.backward_digest.update(stream_id, command.to_u8(), data);
        let sealed = self.cipher.backward_vec(data);
        let r = Message { circuit_id, stream_id, command, data: sealed, digest };
        r
    }
}

/// The texts of a map of strings.
pub open spec fn map_texts(m: Map<StreamId, String>) -> Map<StreamId, Seq<char>> {
    m.map_values(|s: String| s@)
}

/// The views of a sequence of messages.
pub open spec fn messages(v: Seq<Message>) -> Seq<MessageView> {
    Seq::new(v.len(), |i: int| v[i]@)
}

/// The exit relay of a circuit.
pub struct ExitCircuitHandler {
    context: CircuitContext,
    keypair: KeyPair,
    streams: HashMap<StreamId, String>,
    shared_state: Option<ExitCryptoState>,
}

/// The state of an exit relay: its circuit, its key pair, the destination of each open stream, and
/// the ciphers and digests that it shares with the client.
#[verifier::ext_equal]
pub struct ExitView {
    pub context: ContextView,
    pub secret: Seq<u8>,
    pub public: Seq<u8>,
    pub streams: Map<StreamId, Seq<char>>,
    pub crypto: Option<CryptoView>,
}

impl View for ExitCircuitHandler {
    type V = ExitView;

    closed spec fn view(&self) -> ExitView {
        ExitView {
            context: self.context@,
            secret: self.keypair.secret_part(),
            public: self.keypair.public_part(),
            streams: map_texts(self.streams@),
            crypto: match self.shared_state {
                Some(c) => Some(c@),
                None => None,
            },
        }
    }
}

/// The destination in the payload of a `begin` message: its text without the zeros at the end.
pub open spec fn destination_in(payload: Seq<u8>) -> Result<Seq<char>, Seq<char>> {
    if valid_utf8(payload) {
        Ok(without_end(decode_utf8(payload), '\0'))
    } else {
        Err("Invalid UTF-8 in destination: "@ + utf8_complaint(payload))
    }
}

impl ExitView {
    /// An exit relay with this key pair on a circuit without keys.
    pub open spec fn fresh(circuit_id: CircuitId, secret: Seq<u8>, public: Seq<u8>) -> ExitView {
        ExitView {
            context: ContextView::fresh(circuit_id),
            secret,
            public,
            streams: Map::empty(),
            crypto: None,
        }
    }

    /// The relay without keys and without streams.
    pub open spec fn closed(self) -> ExitView {
        ExitView {
            context: self.context.closed(),
            streams: Map::empty(),
            crypto: None,
            ..self
        }
    }

    /// The relay with other ciphers and digests.
    pub open spec fn with_crypto(self, crypto: CryptoView) -> ExitView {
        ExitView { crypto: Some(crypto), ..self }
    }

    /// The relay after a `create` message, and the answer. The ciphers stand beside the digests,
    /// not in the circuit's context.
    pub open spec fn after_create(self, msg: MessageView) -> (
        ExitView,
        Result<ActionView, Seq<char>>,
    ) {
        let (context, reply) = self.context.after_create(self.secret, self.public, msg);
        match reply {
            Ok(m) => (
                ExitView {
                    context: ContextView { cipher: None, ..context },
                    crypto: Some(CryptoView::fresh(context.cipher->0)),
                    ..self
                },
                Ok(ActionView::Reply(m)),
            ),
            Err(e) => (self, Err(e)),
        }
    }

    /// The relay after a cell has come in, and the data of the cell or the complaint.
    pub open spec fn after_opening(self, msg: MessageView, complaint: Seq<char>) -> (
        ExitView,
        Result<Seq<u8>, Seq<char>>,
    ) {
        match self.crypto {
            None => (self, Err("No crypto state established"@)),
            Some(c) => (
                self.with_crypto(c.after_opening(msg)),
                if c.accepts(msg) {
                    Ok(c.opened(msg))
                } else {
                    Err(complaint)
                },
            ),
        }
    }

    /// The relay after a `begin` message, and where to connect to.
    pub open spec fn after_begin(self, msg: MessageView) -> (
        ExitView,
        Result<ActionView, Seq<char>>,
    ) {
        let (after, opened) = self.after_opening(msg, "Digest mismatch on BEGIN"@);
        (
            after,
            match opened {
                Err(e) => Err(e),
                Ok(payload) => match destination_in(payload) {
                    Err(e) => Err(e),
                    Ok(destination) => Ok(
                        ActionView::Connect { stream_id: msg.stream_id, destination },
                    ),
                },
            },
        )
    }

    /// The relay after a cell has gone out, and the cell.
    pub open spec fn after_sealing(
        self,
        stream_id: StreamId,
        command: MessageCommand,
        data: Seq<u8>,
    ) -> (ExitView, MessageView) {
        let c = self.crypto->0;
        (
            self.with_crypto(c.after_sealing(stream_id, command, data)),
            c.sealed(self.context.circuit_id, stream_id, command, data),
        )
    }

    /// The relay after a `data` message, and what to do with the data: it goes to the destination
    /// of the stream, or the client learns that there is no such stream.
    pub open spec fn after_data(self, msg: MessageView) -> (
        ExitView,
        Result<ActionView, Seq<char>>,
    ) {
        let (after, opened) = self.after_opening(msg, "Digest mismatch on DATA"@);
        match opened {
            Err(e) => (after, Err(e)),
            Ok(data) => if self.streams.contains_key(msg.stream_id) {
                (after, Ok(ActionView::Deliver { stream_id: msg.stream_id, data }))
            } else {
                let (answered, reply) = after.after_sealing(
                    msg.stream_id,
                    MessageCommand::End,
                    encode_utf8("Stream not found"@),
                );
                (answered, Ok(ActionView::Reply(reply)))
            },
        }
    }

    /// The relay after the destination of a stream answered, and the cell that tells the client.
    pub open spec fn after_connected(self, stream_id: StreamId) -> (ExitView, MessageView) {
        self.after_sealing(stream_id, MessageCommand::Connected, Seq::empty())
    }

    /// The relay once a stream to a destination is open.
    pub open spec fn with_stream(self, stream_id: StreamId, destination: Seq<char>) -> ExitView {
        ExitView { streams: self.streams.insert(stream_id, destination), ..self }
    }

    /// The relay after the destination of a stream could not be reached, and the cell that tells
    /// the client.
    pub open spec fn after_failed_connect(self, stream_id: StreamId, reason: Seq<char>) -> (
        ExitView,
        MessageView,
    ) {
        self.after_sealing(
            stream_id,
            MessageCommand::End,
            encode_utf8("Connection failed: "@ + reason),
        )
    }

    /// The relay after the destination of a stream took no more data, and the cell that tells the
    /// client.
    pub open spec fn after_destination_closed(self, stream_id: StreamId) -> (ExitView, MessageView) {
        self.after_sealing(stream_id, MessageCommand::End, encode_utf8("Destination closed"@))
    }

    /// The relay after an `end` message, and the answer. The stream is gone.
    pub open spec fn after_end(self, msg: MessageView) -> (
        ExitView,
        Result<ActionView, Seq<char>>,
    ) {
        let (after, opened) = self.after_opening(msg, "Digest mismatch on END"@);
        match opened {
            Err(e) => (after, Err(e)),
            Ok(_) => {
                let (answered, reply) = after.after_sealing(
                    msg.stream_id,
                    MessageCommand::End,
                    Seq::empty(),
                );
                (
                    ExitView { streams: self.streams.remove(msg.stream_id), ..answered },
                    Ok(ActionView::CloseStream { stream_id: msg.stream_id, reply }),
                )
            },
        }
    }

    /// The relay after a message from the side of the client.
    pub open spec fn after_message(self, msg: MessageView) -> (
        ExitView,
        Result<ActionView, Seq<char>>,
    ) {
        match msg.command {
            MessageCommand::Create => self.after_create(msg),
            MessageCommand::Begin => self.after_begin(msg),
            MessageCommand::Data => self.after_data(msg),
            MessageCommand::End => self.after_end(msg),
            MessageCommand::Destroy => (self.closed(), Ok(ActionView::Closed)),
            MessageCommand::Padding | MessageCommand::Created | MessageCommand::Extend
            | MessageCommand::Extended | MessageCommand::Connected => (
                self,
                Err("Unexpected command: "@ + msg.command.debug_text()),
            ),
        }
    }

    /// Whether `n` more bytes can be counted in the forward direction.
    pub open spec fn forward_room(self, n: nat) -> bool {
        match self.crypto {
            Some(c) => c.cipher.forward_room(n),
            None => true,
        }
    }

    /// Whether `n` more bytes can be counted in the backward direction.
    pub open spec fn backward_room(self, n: nat) -> bool {
        match self.crypto {
            Some(c) => c.cipher.backward_room(n),
            None => true,
        }
    }
}

/// The size of the buffer into which data from a destination is read.
pub const STREAM_BUFFER_SIZE: usize = 4096;

/// What can happen to a stream.
#[derive(Debug)]
pub enum StreamInput {
    /// The destination sent some bytes. None at all means that it closed the connection.
    Read(Vec<u8>),
    /// Reading from the destination failed.
    ReadFailed(String),
    /// There is data for the destination.
    Outgoing(Vec<u8>),
    /// There will be no more data for the destination.
    NoMoreOutgoing,
}

/// What can happen to a stream.
pub enum StreamInputView {
    Read(Seq<u8>),
    ReadFailed(Seq<char>),
    Outgoing(Seq<u8>),
    NoMoreOutgoing,
}

impl View for StreamInput {
    type V = StreamInputView;

    open spec fn view(&self) -> StreamInputView {
        match *self {
            StreamInput::Read(data) => StreamInputView::Read(data@),
            StreamInput::ReadFailed(reason) => StreamInputView::ReadFailed(reason@),
            StreamInput::Outgoing(data) => StreamInputView::Outgoing(data@),
            StreamInput::NoMoreOutgoing => StreamInputView::NoMoreOutgoing,
        }
    }
}

/// What is to be done about a stream.
#[derive(Debug)]
pub struct StreamOutput {
    /// The cells to send to the client.
    pub cells: Vec<Message>,
    /// The data to write to the destination.
    pub deliver: Option<Vec<u8>>,
    /// What to note once the cells are sent.
    pub event: Option<EventKind>,
    /// Whether the stream is over.
    pub stop: bool,
}

/// What is to be done about a stream.
#[verifier::ext_equal]
pub struct StreamOutputView {
    pub cells: Seq<MessageView>,
    pub deliver: Option<Seq<u8>>,
    pub event: Option<EventContent>,
    pub stop: bool,
}

impl View for StreamOutput {
    type V = StreamOutputView;

    open spec fn view(&self) -> StreamOutputView {
        StreamOutputView {
            cells: messages(self.cells@),
            deliver: match self.deliver {
                Some(d) => Some(d@),
                None => None,
            },
            event: match self.event {
                Some(e) => Some(e@),
                None => None,
            },
            stop: self.stop,
        }
    }
}

impl ExitView {
    /// The relay after something happened to a stream, and what is to be done about it. What the
    /// destination sends goes to the client in `data` cells; when it closes the connection or
    /// cannot be read from, the client gets an `end` cell.
    pub open spec fn after_input(self, stream_id: StreamId, input: StreamInputView) -> (
        ExitView,
        StreamOutputView,
    ) {
        let circuit_id = self.context.circuit_id;
        let nothing = StreamOutputView {
            cells: Seq::empty(),
            deliver: None,
            event: None,
            stop: true,
        };
        match self.crypto {
            None => (self, nothing),
            Some(c) => match input {
                StreamInputView::Read(data) => if data.len() == 0 {
                    let (after, end) = self.after_sealing(stream_id, MessageCommand::End, data);
                    (
                        after,
                        StreamOutputView {
                            cells: seq![end],
                            event: Some(EventContent::StreamClosed { circuit_id, stream_id }),
                            ..nothing
                        },
                    )
                } else {
                    (
                        self.with_crypto(c.after_pieces(stream_id, pieces(data))),
                        StreamOutputView {
                            cells: c.sealed_pieces(circuit_id, stream_id, pieces(data)),
                            event: Some(
                                EventContent::StreamData {
                                    circuit_id,
                                    stream_id,
                                    bytes: data.len() as usize,
                                    direction: Direction::Backward,
                                },
                            ),
                            stop: false,
                            ..nothing
                        },
                    )
                },
                StreamInputView::ReadFailed(reason) => {
                    let (after, end) = self.after_sealing(
                        stream_id,
                        MessageCommand::End,
                        encode_utf8("Read error: "@ + reason),
                    );
                    (after, StreamOutputView { cells: seq![end], ..nothing })
                },
                StreamInputView::Outgoing(data) => (
                    self,
                    StreamOutputView { deliver: Some(data), stop: false, ..nothing },
                ),
                StreamInputView::NoMoreOutgoing => (self, nothing),
            },
        }
    }
}

impl StreamInputView {
    /// How many bytes may go out because of it.
    pub open spec fn size(self) -> nat {
        match self {
            StreamInputView::Read(data) => data.len(),
            StreamInputView::ReadFailed(reason) => encode_utf8("Read error: "@ + reason).len(),
            StreamInputView::Outgoing(_) => 0,
            StreamInputView::NoMoreOutgoing => 0,
        }
    }
}

impl ExitCryptoState {
    /// Cuts data into pieces and makes a `data` cell of each.
    pub fn seal_pieces(&mut self, circuit_id: CircuitId, stream_id: StreamId, data: &[u8]) -> (r:
        Vec<Message>)
        requires
            old(self)@.cipher.backward_room(data@.len()),
        ensures
            final(self)@ == old(self)@.after_pieces(stream_id, pieces(data@)),
            messages(r@) == old(self)@.sealed_pieces(circuit_id, stream_id, pieces(data@)),
    {
        let ghost start = self@;
        let ghost mut done: Seq<Seq<u8>> = Seq::empty();
        let mut cells: Vec<Message> = Vec::new();
        let mut i: usize = 0;
        proof {
            assert(data@.skip(0) =~= data@);
            assert(done + pieces(data@) =~= pieces(data@));
            assert(messages(cells@) =~= Seq::<MessageView>::empty());
        }
        while i < data.len()
            invariant
                i <= data.len(),
                pieces(data@) == done + pieces(data@.skip(i as int)),
                start.cipher.backward_room(data@.len()),
                self@ == start.after_pieces(stream_id, done),
                self@.cipher.backward_pos == start.cipher.backward_pos + i,
                messages(cells@) == start.sealed_pieces(circuit_id, stream_id, done),
            decreases data.len() - i,
        {
            let end = if data.len() - i <= MAX_PAYLOAD_SIZE {
                data.len()
            } else {
                i + MAX_PAYLOAD_SIZE
            };
            let piece = slice_vec(data, i, end);
            let cell = self.seal(circuit_id, stream_id, MessageCommand::Data, piece.as_slice());
            let ghost before = cells@;
            cells.push(cell);
            proof {
                let rest = data@.skip(i as int);
                let more = done.push(piece@);
                if rest.len() <= MAX_PAYLOAD_SIZE {
                    assert(piece@ =~= rest);
                    assert(pieces(data@.skip(end as int)) =~= Seq::<Seq<u8>>::empty());
                } else {
                    assert(piece@ =~= rest.take(MAX_PAYLOAD_SIZE as int));
                    assert(rest.skip(MAX_PAYLOAD_SIZE as int) =~= data@.skip(end as int));
                }
                assert(pieces(data@) =~= more + pieces(data@.skip(end as int)));
                assert(more.drop_last() =~= done);
                assert(messages(cells@) =~= messages(before).push(cell@));
                done = more;
            }
            i = end;
        }
        proof {
            assert(pieces(data@.skip(i as int)) =~= Seq::<Seq<u8>>::empty());
            assert(done =~= pieces(data@));
        }
        cells
    }
}

/// Reads the destination in the payload of a `begin` message.
fn read_destination(payload: &[u8]) -> (r: Result<String, String>)
    ensures
        match r {
            Ok(d) => destination_in(payload@) == Ok::<Seq<char>, Seq<char>>(d@),
            Err(e) => destination_in(payload@) == Err::<Seq<char>, Seq<char>>(e@),
        },
{
    broadcast use vstd::utf8::encode_utf8_decode_utf8;

    match utf8_text(payload) {
        Ok(text) => Ok(trim_end_char(text.as_str(), '\0')),
        Err(e) => Err(prefixed("Invalid UTF-8 in destination: ", e.as_str())),
    }
}

impl ExitCircuitHandler {
    /// An exit relay on a new circuit.
    pub fn new(circuit_id: CircuitId, keypair: KeyPair) -> (r: Self)
        ensures
            r@ == ExitView::fresh(circuit_id, keypair.secret_part(), keypair.public_part()),
    {
        let r = Self {
            context: CircuitContext::new(circuit_id),
            keypair,
            streams: HashMap::new(),
            shared_state: None,
        };
        proof {
            assert(map_texts(r.streams@) =~= Map::empty());
        }
        r
    }

    /// Answers a `create` message.
    pub fn handle_create(&mut self, msg: &Message) -> (r: Result<Action, String>)
        ensures
            final(self)@ == old(self)@.after_create(msg@).0,
            is_action(r, old(self)@.after_create(msg@).1),
    {
        match self.context.answer_create(&self.keypair, msg) {
            Ok(m) => {
                if let Some(cipher) = self.context.cipher_pair.take() {
                    self.shared_state = Some(
                        ExitCryptoState {
                            cipher,
                            forward_digest: RunningDigest::new(),
                            backward_digest: RunningDigest::new(),
                        },
                    );
                }
                Ok(Action::Reply(m))
            },
            Err(e) => Err(e),
        }
    }

    /// Takes off the layer of a cell and checks its digest.
    fn open(&mut self, msg: &Message, complaint: &str) -> (r: Result<Vec<u8>, String>)
        requires
            old(self)@.forward_room(msg@.data.len()),
        ensures
            final(self)@ == old(self)@.after_opening(msg@, complaint@).0,
            match r {
                Ok(data) => old(self)@.after_opening(msg@, complaint@).1 == Ok::<
                    Seq<u8>,
                    Seq<char>,
                >(data@),
                Err(e) => old(self)@.after_opening(msg@, complaint@).1 == Err::<
                    Seq<u8>,
                    Seq<char>,
                >(e@),
            },
    {
        match &mut self.shared_state {
            None => Err("No crypto state established".to_owned()),
            Some(state) => match state.open(msg) {
                Some(data) => Ok(data),
                None => Err(complaint.to_owned()),
            },
        }
    }

    /// Makes a cell that goes out, if the circuit has keys.
    fn seal(&mut self, stream_id: StreamId, command: MessageCommand, data: &[u8]) -> (r: Option<
        Message,
    >)
        requires
            old(self)@.backward_room(data@.len()),
        ensures
            match r {
                Some(m) => {
                    &&& old(self)@.crypto is Some
                    &&& (final(self)@, m@) == old(self)@.after_sealing(stream_id, command, data@)
                },
                None => old(self)@.crypto is None && final(self)@ == old(self)@,
            },
    {
        let circuit_id = self.context.circuit_id;
        match &mut self.shared_state {
            None => None,
            Some(state) => Some(state.seal(circuit_id, stream_id, command, data)),
        }
    }

    /// Takes a `begin` message: the destination to connect the stream to.
    pub fn handle_begin(&mut self, msg: &Message) -> (r: Result<Action, String>)
        requires
            old(self)@.forward_room(msg@.data.len()),
        ensures
            final(self)@ == old(self)@.after_begin(msg@).0,
            is_action(r, old(self)@.after_begin(msg@).1),
    {
        match self.open(msg, "Digest mismatch on BEGIN") {
            Err(e) => Err(e),
            Ok(payload) => match read_destination(payload.as_slice()) {
                Err(e) => Err(e),
                Ok(destination) => Ok(Action::Connect { stream_id: msg.stream_id, destination }),
            },
        }
    }

    /// The `connected` cell for a stream whose destination answered, if the circuit has keys.
    pub fn connected(&mut self, stream_id: StreamId) -> (r: Option<Message>)
        ensures
            match r {
                Some(m) => {
                    &&& old(self)@.crypto is Some
                    &&& (final(self)@, m@) == old(self)@.after_sealing(
                        stream_id,
                        MessageCommand::Connected,
                        Seq::empty(),
                    )
                },
                None => old(self)@.crypto is None && final(self)@ == old(self)@,
            },
            r matches Some(m) ==> (final(self)@, m@) == old(self)@.after_connected(stream_id),
    {
        proof {
            if self.shared_state is Some {
                cipher_room_for_nothing(self.shared_state->0.cipher);
            }
        }
        let data: Vec<u8> = Vec::new();
        self.seal(stream_id, MessageCommand::Connected, data.as_slice())
    }

    /// Opens a stream to a destination, once its `connected` cell is sent.
    pub fn open_stream(&mut self, stream_id: StreamId, destination: String) -> (event: EventKind)
        ensures
            final(self)@ == (ExitView {
                streams: old(self)@.streams.insert(stream_id, destination@),
                ..old(self)@
            }),
            final(self)@ == old(self)@.with_stream(stream_id, destination@),
            event@ == (EventContent::StreamOpened {
                circuit_id: old(self)@.context.circuit_id,
                stream_id,
                destination: destination@,
            }),
    {
        broadcast use vstd::std_specs::hash::group_hash_axioms;

        let text = destination.clone();
        let ghost before = self.streams@;
        self.streams.insert(stream_id, text);
        proof {
            assert(map_texts(self.streams@) =~= map_texts(before).insert(stream_id, text@));
        }
        EventKind::StreamOpened { circuit_id: self.context.circuit_id, stream_id, destination }
    }

    /// The `end` cell for a stream whose destination could not be reached, if the circuit has
    /// keys.
    pub fn connect_failed(&mut self, stream_id: StreamId, reason: &str) -> (r: Option<Message>)
        requires
            old(self)@.backward_room(encode_utf8("Connection failed: "@ + reason@).len()),
        ensures
            match r {
                Some(m) => {
                    &&& old(self)@.crypto is Some
                    &&& (final(self)@, m@) == old(self)@.after_sealing(
                        stream_id,
                        MessageCommand::End,
                        encode_utf8("Connection failed: "@ + reason@),
                    )
                },
                None => old(self)@.crypto is None && final(self)@ == old(self)@,
            },
            r matches Some(m) ==> (final(self)@, m@) == old(self)@.after_failed_connect(stream_id, reason@),
    {
        let text = prefixed("Connection failed: ", reason);
        self.seal(stream_id, MessageCommand::End, text.as_str().as_bytes())
    }

    /// Takes a `data` message.
    pub fn handle_data(&mut self, msg: &Message) -> (r: Result<Action, String>)
        requires
            old(self)@.forward_room(msg@.data.len()),
            old(self)@.backward_room(16),
        ensures
            final(self)@ == old(self)@.after_data(msg@).0,
            is_action(r, old(self)@.after_data(msg@).1),
    {
        broadcast use vstd::std_specs::hash::group_hash_axioms;

        match self.open(msg, "Digest mismatch on DATA") {
            Err(e) => Err(e),
            Ok(data) => {
                if self.streams.contains_key(&msg.stream_id) {
                    return Ok(Action::Deliver { stream_id: msg.stream_id, data });
                }
                let text = "Stream not found";
                proof {
                    reveal_strlit("Stream not found");
                    vstd::utf8::is_ascii_chars_encode_utf8(text@);
                }
                match self.seal(msg.stream_id, MessageCommand::End, text.as_bytes()) {
                    Some(reply) => Ok(Action::Reply(reply)),
                    None => Ok(Action::Nothing),
                }
            },
        }
    }

    /// Notes that data of a stream was passed on to its destination.
    pub fn delivered(&self, stream_id: StreamId, bytes: usize) -> (event: EventKind)
        ensures
            event@ == (EventContent::StreamData {
                circuit_id: self@.context.circuit_id,
                stream_id,
                bytes,
                direction: Direction::Forward,
            }),
    {
        EventKind::StreamData {
            circuit_id: self.context.circuit_id,
            stream_id,
            bytes,
            direction: Direction::Forward,
        }
    }

    /// The `end` cell for a stream whose destination takes no more data, if the circuit has keys.
    pub fn destination_closed(&mut self, stream_id: StreamId) -> (r: Option<Message>)
        requires
            old(self)@.backward_room(18),
        ensures
            match r {
                Some(m) => {
                    &&& old(self)@.crypto is Some
                    &&& (final(self)@, m@) == old(self)@.after_sealing(
                        stream_id,
                        MessageCommand::End,
                        encode_utf8("Destination closed"@),
                    )
                },
                None => old(self)@.crypto is None && final(self)@ == old(self)@,
            },
            r matches Some(m) ==> (final(self)@, m@) == old(self)@.after_destination_closed(stream_id),
    {
        let text = "Destination closed";
        proof {
            reveal_strlit("Destination closed");
            vstd::utf8::is_ascii_chars_encode_utf8(text@);
        }
        self.seal(stream_id, MessageCommand::End, text.as_bytes())
    }

    /// Takes an `end` message. The running digest takes in the cell though its data goes nowhere:
    /// it has to stay in step with the client's.
    pub fn handle_end(&mut self, msg: &Message) -> (r: Result<Action, String>)
        requires
            old(self)@.forward_room(msg@.data.len()),
        ensures
            final(self)@ == old(self)@.after_end(msg@).0,
            is_action(r, old(self)@.after_end(msg@).1),
    {
        broadcast use vstd::std_specs::hash::group_hash_axioms;

        match self.open(msg, "Digest mismatch on END") {
            Err(e) => Err(e),
            Ok(_) => {
                let ghost before = self.streams@;
                self.streams.remove(&msg.stream_id);
                proof {
                    assert(map_texts(self.streams@) =~= map_texts(before).remove(msg.stream_id));
                }
                proof {
                    if self.shared_state is Some {
                        cipher_room_for_nothing(self.shared_state->0.cipher);
                    }
                }
                let data: Vec<u8> = Vec::new();
                match self.seal(msg.stream_id, MessageCommand::End, data.as_slice()) {
                    Some(reply) => Ok(Action::CloseStream { stream_id: msg.stream_id, reply }),
                    None => Ok(Action::Nothing),
                }
            },
        }
    }

    /// Notes that a stream was closed.
    pub fn stream_closed(&self, stream_id: StreamId) -> (event: EventKind)
        ensures
            event@ == (EventContent::StreamClosed {
                circuit_id: self@.context.circuit_id,
                stream_id,
            }),
    {
        EventKind::StreamClosed { circuit_id: self.context.circuit_id, stream_id }
    }

    /// Takes a message from the side of the client.
    pub fn handle_message(&mut self, msg: Message) -> (r: Result<Action, String>)
        requires
            old(self)@.forward_room(msg@.data.len()),
            old(self)@.backward_room(16),
        ensures
            final(self)@ == old(self)@.after_message(msg@).0,
            is_action(r, old(self)@.after_message(msg@).1),
    {
        match msg.command {
            MessageCommand::Create => self.handle_create(&msg),
            MessageCommand::Begin => self.handle_begin(&msg),
            MessageCommand::Data => self.handle_data(&msg),
            MessageCommand::End => self.handle_end(&msg),
            MessageCommand::Destroy => {
                self.close();
                Ok(Action::Closed)
            },
            MessageCommand::Padding | MessageCommand::Created | MessageCommand::Extend
            | MessageCommand::Extended | MessageCommand::Connected => Err(
                msg.command.complaint("Unexpected command: "),
            ),
        }
    }

    /// Takes what happened to a stream.
    pub fn handle_stream(&mut self, stream_id: StreamId, input: StreamInput) -> (r: StreamOutput)
        requires
            old(self)@.backward_room(input@.size()),
        ensures
            (final(self)@, r@) == old(self)@.after_input(stream_id, input@),
    {
        let circuit_id = self.context.circuit_id;
        let mut cells: Vec<Message> = Vec::new();
        proof {
            assert(messages(cells@) =~= Seq::<MessageView>::empty());
        }
        if self.shared_state.is_none() {
            return StreamOutput { cells, deliver: None, event: None, stop: true };
        }
        match input {
            StreamInput::Read(data) => {
                if data.len() == 0 {
                    if let Some(end) = self.seal(stream_id, MessageCommand::End, data.as_slice()) {
                        cells.push(end);
                        proof {
                            assert(messages(cells@) =~= seq![end@]);
                        }
                    }
                    StreamOutput {
                        cells,
                        deliver: None,
                        event: Some(EventKind::StreamClosed { circuit_id, stream_id }),
                        stop: true,
                    }
                } else {
                    if let Some(state) = &mut self.shared_state {
                        cells = state.seal_pieces(circuit_id, stream_id, data.as_slice());
                    }
                    StreamOutput {
                        cells,
                        deliver: None,
                        event: Some(
                            EventKind::StreamData {
                                circuit_id,
                                stream_id,
                                bytes: data.len(),
                                direction: Direction::Backward,
                            },
                        ),
                        stop: false,
                    }
                }
            },
            StreamInput::ReadFailed(reason) => {
                let text = prefixed("Read error: ", reason.as_str());
                if let Some(end) = self.seal(
                    stream_id,
                    MessageCommand::End,
                    text.as_str().as_bytes(),
                ) {
                    cells.push(end);
                    proof {
                        assert(messages(cells@) =~= seq![end@]);
                    }
                }
                StreamOutput { cells, deliver: None, event: None, stop: true }
            },
            StreamInput::Outgoing(data) => StreamOutput {
                cells,
                deliver: Some(data),
                event: None,
                stop: false,
            },
            StreamInput::NoMoreOutgoing => StreamOutput {
                cells,
                deliver: None,
                event: None,
                stop: true,
            },
        }
    }

    /// The number of the circuit.
    pub fn circuit_id(&self) -> (r: CircuitId)
        ensures
            r == self@.context.circuit_id,
    {
        self.context.circuit_id
    }

    /// The state of the circuit.
    pub fn state(&self) -> (r: CircuitState)
        ensures
            r == self@.context.state,
    {
        self.context.state
    }

    /// The session key, if there is one.
    pub fn session_key(&self) -> (r: Option<&SessionKey>)
        ensures
            match r {
                Some(key) => self@.context.session_key == Some(key@),
                None => self@.context.session_key is None,
            },
    {
        self.context.session_key.as_ref()
    }

    /// Whether the circuit has ciphers and digests.
    pub fn has_crypto(&self) -> (r: bool)
        ensures
            r == (self@.crypto is Some),
    {
        self.shared_state.is_some()
    }

    /// Whether `n` more bytes can be counted in both directions.
    pub fn has_room(&self, n: usize) -> (r: bool)
        ensures
            r == (self@.forward_room(n as nat) && self@.backward_room(n as nat)),
    {
        match &self.shared_state {
            Some(state) => state.cipher.has_room(n),
            None => true,
        }
    }

    /// Drops the keys and all streams.
    pub fn close(&mut self)
        ensures
            final(self)@ == old(self)@.closed(),
    {
        self.context.close();
        self.streams.clear();
        self.shared_state = None;
        proof {
            assert(map_texts(self.streams@) =~= Map::empty());
        }
    }
}

impl CryptoView {
    /// The cell in which a client with the same ciphers and digests sends data to the exit relay,
    /// as it arrives there.
    pub open spec fn client_cell(
        self,
        circuit_id: CircuitId,
        stream_id: StreamId,
        command: MessageCommand,
        data: Seq<u8>,
    ) -> MessageView {
        MessageView {
            circuit_id,
            stream_id,
            command,
            data: self.cipher.forward(data),
            digest: digest_tag(self.forward + digest_input(stream_id, command.code(), data)),
        }
    }

    /// The state of the client after it has sent the cell.
    pub open spec fn after_client_cell(
        self,
        stream_id: StreamId,
        command: MessageCommand,
        data: Seq<u8>,
    ) -> CryptoView {
        CryptoView {
            cipher: self.cipher.forwarded(data.len()),
            forward: self.forward + digest_input(stream_id, command.code(), data),
            backward: self.backward,
        }
    }
}

/// The exit relay accepts what a client in step with it sent, reads the data, and is in step with
/// the client again, whatever the command.
pub proof fn exit_opens_what_the_client_sent(
    c: CryptoView,
    circuit_id: CircuitId,
    stream_id: StreamId,
    command: MessageCommand,
    data: Seq<u8>,
)
    ensures
        c.accepts(c.client_cell(circuit_id, stream_id, command, data)),
        c.opened(c.client_cell(circuit_id, stream_id, command, data)) == data,
        c.after_opening(c.client_cell(circuit_id, stream_id, command, data))
            == c.after_client_cell(stream_id, command, data),
{
    cipher_pairs_undo_each_other(c.cipher, data);
}

/// A client in step with the exit relay reads the data of the cells that come back, and finds the
/// tag of its own running digest on them.
pub proof fn client_opens_what_the_exit_sealed(
    c: CryptoView,
    circuit_id: CircuitId,
    stream_id: StreamId,
    command: MessageCommand,
    data: Seq<u8>,
)
    ensures
        c.cipher.backward(c.sealed(circuit_id, stream_id, command, data).data) == data,
        c.sealed(circuit_id, stream_id, command, data).digest == digest_tag(
            c.backward + digest_input(stream_id, command.code(), data),
        ),
{
    cipher_pairs_undo_each_other(c.cipher, data);
}

/// An `end` message keeps exit relay and client in step, whatever reason it gives: the exit relay
/// drops the stream, answers with an empty `end` cell that the client accepts, and reads the next
/// cell of the client, whatever that is.
pub proof fn end_keeps_the_digests_in_step(
    exit: ExitView,
    c: CryptoView,
    end: MessageView,
    stream_id: StreamId,
    reason: Seq<u8>,
    next_stream: StreamId,
    next_command: MessageCommand,
    next_data: Seq<u8>,
)
    requires
        exit.crypto == Some(c),
        end == c.client_cell(exit.context.circuit_id, stream_id, MessageCommand::End, reason),
    ensures
        ({
            let client = c.after_client_cell(stream_id, MessageCommand::End, reason);
            let after = exit.after_message(end).0;
            let next = client.client_cell(
                exit.context.circuit_id,
                next_stream,
                next_command,
                next_data,
            );
            let reply = c.sealed(
                exit.context.circuit_id,
                stream_id,
                MessageCommand::End,
                Seq::empty(),
            );
            &&& exit.after_message(end).1 == Ok::<ActionView, Seq<char>>(
                ActionView::CloseStream { stream_id, reply },
            )
            &&& c.cipher.backward(reply.data) == Seq::<u8>::empty()
            &&& reply.digest == digest_tag(
                c.backward + digest_input(stream_id, MessageCommand::End.code(), Seq::empty()),
            )
            &&& after.crypto is Some
            &&& after.crypto->0.forward == client.forward
            &&& after.crypto->0.accepts(next)
            &&& after.crypto->0.opened(next) == next_data
            &&& after.streams == exit.streams.remove(stream_id)
        }),
{
    exit_opens_what_the_client_sent(
        c,
        exit.context.circuit_id,
        stream_id,
        MessageCommand::End,
        reason,
    );
    let client = c.after_client_cell(stream_id, MessageCommand::End, reason);
    exit_opens_what_the_client_sent(
        client,
        exit.context.circuit_id,
        next_stream,
        next_command,
        next_data,
    );
    client_opens_what_the_exit_sealed(
        c,
        exit.context.circuit_id,
        stream_id,
        MessageCommand::End,
        Seq::empty(),
    );
}

/// The exit relay reads the destination that a client wrote into a `begin` message.
pub proof fn destination_reads_back(destination: Seq<char>)
    requires
        destination.len() > 0 ==> destination.last() != '\0',
    ensures
        destination_in(encode_utf8(destination) + seq![0u8]) == Ok::<Seq<char>, Seq<char>>(
            destination,
        ),
{
    let ended = destination.push('\0');
    assert(ended =~= destination + seq!['\0']);
    utf8_in_pieces(destination, seq!['\0']);
    vstd::utf8::is_ascii_chars_encode_utf8(seq!['\0']);
    assert(encode_utf8(seq!['\0']) =~= seq![0u8]);
    vstd::utf8::encode_utf8_valid_utf8(ended);
    vstd::utf8::encode_utf8_decode_utf8(ended);
    assert(ended.drop_last() =~= destination);
    reveal_with_fuel(without_end, 2);
}

/// What a destination sends reaches the client: the cells that the exit relay makes of it hold,
/// one after the other, the pieces of the data, and these make up the data.
pub proof fn streamed_data_reaches_the_client(
    c: CryptoView,
    circuit_id: CircuitId,
    stream_id: StreamId,
    data: Seq<u8>,
)
    ensures
        ({
            let cells = c.sealed_pieces(circuit_id, stream_id, pieces(data));
            &&& cells.len() == pieces(data).len()
            &&& joined(pieces(data)) == data
            &&& forall|i: int|
                0 <= i < cells.len() ==> c.after_pieces(
                    stream_id,
                    pieces(data).take(i),
                ).cipher.backward((#[trigger] cells[i]).data) == pieces(data)[i]
        }),
{
    pieces_hold_the_data(data);
    cells_hold_the_pieces(c, circuit_id, stream_id, pieces(data));
}

/// The cells of some pieces hold them one after the other.
proof fn cells_hold_the_pieces(
    c: CryptoView,
    circuit_id: CircuitId,
    stream_id: StreamId,
    parts: Seq<Seq<u8>>,
)
    ensures
        ({
            let cells = c.sealed_pieces(circuit_id, stream_id, parts);
            &&& cells.len() == parts.len()
            &&& forall|i: int|
                0 <= i < cells.len() ==> c.after_pieces(
                    stream_id,
                    parts.take(i),
                ).cipher.backward((#[trigger] cells[i]).data) == parts[i]
        }),
    decreases parts.len(),
{
    if parts.len() > 0 {
        let front = parts.drop_last();
        cells_hold_the_pieces(c, circuit_id, stream_id, front);
        let cells = c.sealed_pieces(circuit_id, stream_id, parts);
        let front_cells = c.sealed_pieces(circuit_id, stream_id, front);
        assert forall|i: int| 0 <= i < cells.len() implies c.after_pieces(
            stream_id,
            parts.take(i),
        ).cipher.backward((#[trigger] cells[i]).data) == parts[i] by {
            if i < front.len() {
                assert(cells[i] == front_cells[i]);
                assert(parts.take(i) =~= front.take(i));
            } else {
                assert(parts.take(i) =~= front);
                client_opens_what_the_exit_sealed(
                    c.after_pieces(stream_id, front),
                    circuit_id,
                    stream_id,
                    MessageCommand::Data,
                    parts.last(),
                );
            }
        }
    }
}

/// What a client sends on an open stream goes to the destination of that stream, every byte of it
/// and nothing else. On a stream that is not open, nothing goes to any destination, and the client
/// gets an `end` cell that gives the reason. Either way the relay is in step with the client
/// afterwards, and its streams are what they were.
pub proof fn client_data_is_delivered(
    exit: ExitView,
    c: CryptoView,
    circuit_id: CircuitId,
    stream_id: StreamId,
    data: Seq<u8>,
)
    requires
        exit.crypto == Some(c),
    ensures
        ({
            let cell = c.client_cell(circuit_id, stream_id, MessageCommand::Data, data);
            let (after, outcome) = exit.after_message(cell);
            let client = c.after_client_cell(stream_id, MessageCommand::Data, data);
            let notice = encode_utf8("Stream not found"@);
            &&& outcome is Ok
            &&& after.streams == exit.streams
            &&& after.context == exit.context
            &&& after.crypto is Some
            &&& exit.streams.contains_key(stream_id) ==> {
                &&& outcome->Ok_0 == ActionView::Deliver { stream_id, data }
                &&& after.crypto == Some(client)
            }
            &&& !exit.streams.contains_key(stream_id) ==> {
                &&& outcome->Ok_0 is Reply
                &&& outcome->Ok_0->Reply_0.circuit_id == exit.context.circuit_id
                &&& outcome->Ok_0->Reply_0.stream_id == stream_id
                &&& outcome->Ok_0->Reply_0.command == MessageCommand::End
                &&& client.cipher.backward(outcome->Ok_0->Reply_0.data) == notice
                &&& outcome->Ok_0->Reply_0.digest == digest_tag(
                    client.backward + digest_input(
                        stream_id,
                        MessageCommand::End.code(),
                        notice,
                    ),
                )
                &&& after.crypto == Some(
                    client.after_sealing(stream_id, MessageCommand::End, notice),
                )
            }
        }),
{
    exit_opens_what_the_client_sent(c, circuit_id, stream_id, MessageCommand::Data, data);
    let client = c.after_client_cell(stream_id, MessageCommand::Data, data);
    client_opens_what_the_exit_sealed(
        client,
        exit.context.circuit_id,
        stream_id,
        MessageCommand::End,
        encode_utf8("Stream not found"@),
    );
}

/// A client that asks for a destination has the relay connect to that destination, under the
/// number that the client gave the stream. The stream is not open before the destination answers.
pub proof fn client_is_connected_where_it_asked(
    exit: ExitView,
    c: CryptoView,
    circuit_id: CircuitId,
    stream_id: StreamId,
    destination: Seq<char>,
)
    requires
        exit.crypto == Some(c),
        destination.len() > 0 ==> destination.last() != '\0',
    ensures
        ({
            let payload = encode_utf8(destination) + seq![0u8];
            let cell = c.client_cell(circuit_id, stream_id, MessageCommand::Begin, payload);
            let (after, outcome) = exit.after_message(cell);
            &&& outcome == Ok::<ActionView, Seq<char>>(
                ActionView::Connect { stream_id, destination },
            )
            &&& after.streams == exit.streams
            &&& after.context == exit.context
            &&& after.crypto == Some(
                c.after_client_cell(stream_id, MessageCommand::Begin, payload),
            )
        }),
{
    let payload = encode_utf8(destination) + seq![0u8];
    exit_opens_what_the_client_sent(c, circuit_id, stream_id, MessageCommand::Begin, payload);
    destination_reads_back(destination);
}

/// A cell whose tag is not the one that a client in step with the relay puts on it is refused: it
/// connects nothing, delivers nothing, closes no stream and is not answered.
pub proof fn forged_cells_are_refused(exit: ExitView, c: CryptoView, cell: MessageView)
    requires
        exit.crypto == Some(c),
        cell.command == MessageCommand::Begin || cell.command == MessageCommand::Data
            || cell.command == MessageCommand::End,
        cell.digest != c.client_cell(
            cell.circuit_id,
            cell.stream_id,
            cell.command,
            c.cipher.forward(cell.data),
        ).digest,
    ensures
        exit.after_message(cell).1 is Err,
        exit.after_message(cell).0.streams == exit.streams,
        exit.after_message(cell).0.context == exit.context,
{
}

/// Without keys the relay takes no cell of a stream, and after a `destroy` message it has neither
/// keys nor streams.
pub proof fn no_keys_no_streams(exit: ExitView, cell: MessageView, last: MessageView)
    requires
        cell.command == MessageCommand::Begin || cell.command == MessageCommand::Data
            || cell.command == MessageCommand::End,
        last.command == MessageCommand::Destroy,
    ensures
        exit.crypto is None ==> exit.after_message(cell).1 is Err && exit.after_message(cell).0
            == exit,
        ({
            let (over, outcome) = exit.after_message(last);
            &&& outcome == Ok::<ActionView, Seq<char>>(ActionView::Closed)
            &&& over.crypto is None
            &&& over.context.session_key is None
            &&& over.context.state == CircuitState::Closed
            &&& over.streams == Map::<StreamId, Seq<char>>::empty()
            &&& over.after_message(cell).1 is Err
        }),
{
}

/// What happens between a stream and its destination. What there is for the destination is handed
/// to it, every byte of it, and the stream goes on. When the destination has closed the connection
/// or cannot be read from, the client gets one `end` cell, with the reason if there is one, and
/// the stream is over; it is over too when nothing more will come for the destination.
pub proof fn streams_carry_what_comes(
    exit: ExitView,
    c: CryptoView,
    stream_id: StreamId,
    data: Seq<u8>,
    reason: Seq<char>,
)
    requires
        exit.crypto == Some(c),
    ensures
        ({
            let (after, out) = exit.after_input(stream_id, StreamInputView::Outgoing(data));
            &&& after == exit
            &&& out.deliver == Some(data)
            &&& out.cells.len() == 0
            &&& !out.stop
        }),
        ({
            let (after, out) = exit.after_input(stream_id, StreamInputView::Read(Seq::empty()));
            &&& out.stop
            &&& out.deliver is None
            &&& out.cells.len() == 1
            &&& out.cells[0].circuit_id == exit.context.circuit_id
            &&& out.cells[0].stream_id == stream_id
            &&& out.cells[0].command == MessageCommand::End
            &&& c.cipher.backward(out.cells[0].data) == Seq::<u8>::empty()
            &&& after.streams == exit.streams
        }),
        ({
            let (after, out) = exit.after_input(stream_id, StreamInputView::ReadFailed(reason));
            &&& out.stop
            &&& out.deliver is None
            &&& out.cells.len() == 1
            &&& out.cells[0].circuit_id == exit.context.circuit_id
            &&& out.cells[0].stream_id == stream_id
            &&& out.cells[0].command == MessageCommand::End
            &&& c.cipher.backward(out.cells[0].data) == encode_utf8("Read error: "@ + reason)
            &&& after.streams == exit.streams
        }),
        ({
            let (after, out) = exit.after_input(stream_id, StreamInputView::NoMoreOutgoing);
            &&& after == exit
            &&& out.stop
            &&& out.deliver is None
            &&& out.cells.len() == 0
        }),
        data.len() > 0 ==> ({
            let (after, out) = exit.after_input(stream_id, StreamInputView::Read(data));
            &&& !out.stop
            &&& out.deliver is None
            &&& out.cells.len() > 0
            &&& out.event == Some(
                EventContent::StreamData {
                    circuit_id: exit.context.circuit_id,
                    stream_id,
                    bytes: data.len() as usize,
                    direction: Direction::Backward,
                },
            )
            &&& forall|i: int|
                0 <= i < out.cells.len() ==> {
                    &&& (#[trigger] out.cells[i]).circuit_id == exit.context.circuit_id
                    &&& out.cells[i].stream_id == stream_id
                    &&& out.cells[i].command == MessageCommand::Data
                    &&& out.cells[i].data.len() <= MAX_PAYLOAD_SIZE
                }
            &&& after.streams == exit.streams
        }),
{
    let circuit_id = exit.context.circuit_id;
    client_opens_what_the_exit_sealed(
        c,
        circuit_id,
        stream_id,
        MessageCommand::End,
        Seq::empty(),
    );
    client_opens_what_the_exit_sealed(
        c,
        circuit_id,
        stream_id,
        MessageCommand::End,
        encode_utf8("Read error: "@ + reason),
    );
    if data.len() > 0 {
        pieces_hold_the_data(data);
        cells_of_the_stream(c, circuit_id, stream_id, pieces(data));
    }
}

proof fn cells_of_the_stream(
    c: CryptoView,
    circuit_id: CircuitId,
    stream_id: StreamId,
    parts: Seq<Seq<u8>>,
)
    ensures
        ({
            let cells = c.sealed_pieces(circuit_id, stream_id, parts);
            &&& cells.len() == parts.len()
            &&& forall|i: int|
                0 <= i < cells.len() ==> {
                    &&& (#[trigger] cells[i]).circuit_id == circuit_id
                    &&& cells[i].stream_id == stream_id
                    &&& cells[i].command == MessageCommand::Data
                    &&& cells[i].data.len() == parts[i].len()
                }
        }),
    decreases parts.len(),
{
    if parts.len() > 0 {
        cells_of_the_stream(c, circuit_id, stream_id, parts.drop_last());
    }
}

/// The client learns what became of its stream: a cell that says that the destination answered, or an
/// `end` cell with the reason why it could not be reached or takes no more. Each of these is on the
/// stream in question, is what a client in step expects next, and opens no stream by itself.
pub proof fn clients_learn_what_became_of_their_stream(
    exit: ExitView,
    c: CryptoView,
    stream_id: StreamId,
    reason: Seq<char>,
)
    requires
        exit.crypto == Some(c),
    ensures
        ({
            let (after, cell) = exit.after_connected(stream_id);
            &&& cell.circuit_id == exit.context.circuit_id
            &&& cell.stream_id == stream_id
            &&& cell.command == MessageCommand::Connected
            &&& c.cipher.backward(cell.data) == Seq::<u8>::empty()
            &&& cell.digest == digest_tag(
                c.backward + digest_input(
                    stream_id,
                    MessageCommand::Connected.code(),
                    Seq::empty(),
                ),
            )
            &&& after.streams == exit.streams
        }),
        ({
            let (after, cell) = exit.after_failed_connect(stream_id, reason);
            let text = encode_utf8("Connection failed: "@ + reason);
            &&& cell.circuit_id == exit.context.circuit_id
            &&& cell.stream_id == stream_id
            &&& cell.command == MessageCommand::End
            &&& c.cipher.backward(cell.data) == text
            &&& cell.digest == digest_tag(
                c.backward + digest_input(stream_id, MessageCommand::End.code(), text),
            )
            &&& after.streams == exit.streams
        }),
        ({
            let (after, cell) = exit.after_destination_closed(stream_id);
            let text = encode_utf8("Destination closed"@);
            &&& cell.circuit_id == exit.context.circuit_id
            &&& cell.stream_id == stream_id
            &&& cell.command == MessageCommand::End
            &&& c.cipher.backward(cell.data) == text
            &&& cell.digest == digest_tag(
                c.backward + digest_input(stream_id, MessageCommand::End.code(), text),
            )
            &&& after.streams == exit.streams
        }),
{
    let id = exit.context.circuit_id;
    client_opens_what_the_exit_sealed(c, id, stream_id, MessageCommand::Connected, Seq::empty());
    client_opens_what_the_exit_sealed(
        c,
        id,
        stream_id,
        MessageCommand::End,
        encode_utf8("Connection failed: "@ + reason),
    );
    client_opens_what_the_exit_sealed(
        c,
        id,
        stream_id,
        MessageCommand::End,
        encode_utf8("Destination closed"@),
    );
}

/// The life of a stream at the exit relay, seen from a client in step with it: it asks for a
/// destination and is connected there; once the stream is open its data goes there, every byte of
/// it; once it has ended the stream, the stream is gone. Other streams are not touched.
pub proof fn streams_live_from_begin_to_end(
    exit: ExitView,
    c: CryptoView,
    circuit_id: CircuitId,
    stream_id: StreamId,
    destination: Seq<char>,
    data: Seq<u8>,
    other: StreamId,
)
    requires
        exit.crypto == Some(c),
        destination.len() > 0 ==> destination.last() != '\0',
        other != stream_id,
    ensures
        ({
            let payload = encode_utf8(destination) + seq![0u8];
            let (asked, connect) = exit.after_message(
                c.client_cell(circuit_id, stream_id, MessageCommand::Begin, payload),
            );
            let c1 = c.after_client_cell(stream_id, MessageCommand::Begin, payload);
            let open = asked.with_stream(stream_id, destination);
            let (sent, deliver) = open.after_message(
                c1.client_cell(circuit_id, stream_id, MessageCommand::Data, data),
            );
            let c2 = c1.after_client_cell(stream_id, MessageCommand::Data, data);
            let (ended, close) = sent.after_message(
                c2.client_cell(circuit_id, stream_id, MessageCommand::End, Seq::empty()),
            );
            &&& connect == Ok::<ActionView, Seq<char>>(
                ActionView::Connect { stream_id, destination },
            )
            &&& open.streams.contains_key(stream_id)
            &&& open.streams[stream_id] == destination
            &&& deliver == Ok::<ActionView, Seq<char>>(ActionView::Deliver { stream_id, data })
            &&& close is Ok
            &&& close->Ok_0 is CloseStream
            &&& close->Ok_0->CloseStream_stream_id == stream_id
            &&& !ended.streams.contains_key(stream_id)
            &&& ended.streams.contains_key(other) == exit.streams.contains_key(other)
            &&& exit.streams.contains_key(other) ==> ended.streams[other] == exit.streams[other]
        }),
{
    let payload = encode_utf8(destination) + seq![0u8];
    let c1 = c.after_client_cell(stream_id, MessageCommand::Begin, payload);
    let c2 = c1.after_client_cell(stream_id, MessageCommand::Data, data);
    client_is_connected_where_it_asked(exit, c, circuit_id, stream_id, destination);
    let asked = exit.after_message(
        c.client_cell(circuit_id, stream_id, MessageCommand::Begin, payload),
    ).0;
    let open = asked.with_stream(stream_id, destination);
    client_data_is_delivered(open, c1, circuit_id, stream_id, data);
    exit_opens_what_the_client_sent(
        c2,
        circuit_id,
        stream_id,
        MessageCommand::End,
        Seq::empty(),
    );
}

/// Commands that a client never sends to an exit relay are refused, and change nothing.
pub proof fn exit_refuses_what_is_not_for_it(exit: ExitView, msg: MessageView)
    requires
        msg.command == MessageCommand::Padding || msg.command == MessageCommand::Created
            || msg.command == MessageCommand::Extend || msg.command == MessageCommand::Extended
            || msg.command == MessageCommand::Connected,
    ensures
        exit.after_message(msg).1 is Err,
        exit.after_message(msg).0 == exit,
{
}

}
