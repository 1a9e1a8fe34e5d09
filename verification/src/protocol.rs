//! The wire protocol: messages and the fixed-size cells that carry them.

use crate::bytes::array4_at;
use crate::bytes::be16_at;
use crate::bytes::be32_at;
use crate::bytes::be_bytes;
use crate::bytes::be_bytes_len;
use crate::bytes::be_value;
use crate::bytes::be_value_of_bytes;
use crate::bytes::push_be;
use crate::bytes::push_bytes;
use crate::bytes::slice_vec;
use crate::bytes::zeros;
use crate::error::prefixed;
use crate::error::TorError;
use crate::text::dec_text;
use crate::text::hex2_text;
use crate::text::push_dec;
use crate::text::push_hex2;
use vstd::prelude::*;
use vstd::string::*;

verus! {

/// The number of a circuit on one connection.
pub type CircuitId = u32;

/// The number of a stream within a circuit. Stream 0 is the circuit itself.
pub type StreamId = u16;

/// The size of every cell.
pub const CELL_SIZE: usize = 514;

/// The size of the header: length field, circuit, stream and command.
pub const HEADER_SIZE: usize = 11;

/// The size of the payload-length field.
pub const PAYLOAD_LEN_SIZE: usize = 2;

/// The size of the digest field.
pub const DIGEST_SIZE: usize = 4;

/// The most data that one cell carries.
pub const MAX_PAYLOAD_SIZE: usize = 497;

/// What a message asks for or reports.
#[derive(Debug, Clone, Copy, PartialEq, Eq, Structural)]
pub enum MessageCommand {
    Padding,
    Create,
    Created,
    Extend,
    Extended,
    Destroy,
    Begin,
    Connected,
    Data,
    End,
}

impl MessageCommand {
    /// The command byte on the wire.
    pub open spec fn code(self) -> u8 {
        match self {
            MessageCommand::Padding => 0x00,
            MessageCommand::Create => 0x01,
            MessageCommand::Created => 0x02,
            MessageCommand::Extend => 0x03,
            MessageCommand::Extended => 0x04,
            MessageCommand::Destroy => 0x05,
            MessageCommand::Begin => 0x10,
            MessageCommand::Connected => 0x11,
            MessageCommand::Data => 0x12,
            MessageCommand::End => 0x13,
        }
    }

    /// The complaint about a byte that is no command.
    pub open spec fn unknown_text(value: u8) -> Seq<char> {
        "Unknown message command: 0x"@ + hex2_text(value)
    }

    /// The command with this byte. A byte that belongs to no command is refused.
    pub fn from_u8(value: u8) -> (r: Result<Self, String>)
        ensures
            match r {
                Ok(c) => c.code() == value,
                Err(e) => {
                    &&& forall|c: MessageCommand| c.code() != value
                    &&& e@ == MessageCommand::unknown_text(value)
                },
            },
    {
        match value {
            0x00 => Ok(MessageCommand::Padding),
            0x01 => Ok(MessageCommand::Create),
            0x02 => Ok(MessageCommand::Created),
            0x03 => Ok(MessageCommand::Extend),
            0x04 => Ok(MessageCommand::Extended),
            0x05 => Ok(MessageCommand::Destroy),
            0x10 => Ok(MessageCommand::Begin),
            0x11 => Ok(MessageCommand::Connected),
            0x12 => Ok(MessageCommand::Data),
            0x13 => Ok(MessageCommand::End),
            _ => {
                let mut e = "Unknown message command: 0x".to_owned();
                push_hex2(&mut e, value);
                Err(e)
            },
        }
    }

    /// The command byte on the wire.
    pub fn to_u8(self) -> (r: u8)
        ensures
            r == self.code(),
    {
        match self {
            MessageCommand::Padding => 0x00,
            MessageCommand::Create => 0x01,
            MessageCommand::Created => 0x02,
            MessageCommand::Extend => 0x03,
            MessageCommand::Extended => 0x04,
            MessageCommand::Destroy => 0x05,
            MessageCommand::Begin => 0x10,
            MessageCommand::Connected => 0x11,
            MessageCommand::Data => 0x12,
            MessageCommand::End => 0x13,
        }
    }

    /// The name of the command.
    pub open spec fn text(self) -> Seq<char> {
        match self {
            MessageCommand::Padding => "PADDING"@,
            MessageCommand::Create => "CREATE"@,
            MessageCommand::Created => "CREATED"@,
            MessageCommand::Extend => "EXTEND"@,
            MessageCommand::Extended => "EXTENDED"@,
            MessageCommand::Destroy => "DESTROY"@,
            MessageCommand::Begin => "BEGIN"@,
            MessageCommand::Connected => "CONNECTED"@,
            MessageCommand::Data => "DATA"@,
            MessageCommand::End => "END"@,
        }
    }

    /// The name of the command.
    pub fn to_string(&self) -> (s: String)
        ensures
            s@ == self.text(),
    {
        match self {
            MessageCommand::Padding => "PADDING".to_owned(),
            MessageCommand::Create => "CREATE".to_owned(),
            MessageCommand::Created => "CREATED".to_owned(),
            MessageCommand::Extend => "EXTEND".to_owned(),
            MessageCommand::Extended => "EXTENDED".to_owned(),
            MessageCommand::Destroy => "DESTROY".to_owned(),
            MessageCommand::Begin => "BEGIN".to_owned(),
            MessageCommand::Connected => "CONNECTED".to_owned(),
            MessageCommand::Data => "DATA".to_owned(),
            MessageCommand::End => "END".to_owned(),
        }
    }
}

impl MessageCommand {
    /// The name of the command as complaints show it.
    pub open spec fn debug_text(self) -> Seq<char> {
        match self {
            MessageCommand::Padding => "Padding"@,
            MessageCommand::Create => "Create"@,
            MessageCommand::Created => "Created"@,
            MessageCommand::Extend => "Extend"@,
            MessageCommand::Extended => "Extended"@,
            MessageCommand::Destroy => "Destroy"@,
            MessageCommand::Begin => "Begin"@,
            MessageCommand::Connected => "Connected"@,
            MessageCommand::Data => "Data"@,
            MessageCommand::End => "End"@,
        }
    }

    /// `prefix` followed by the name of the command as complaints show it.
    pub fn complaint(self, prefix: &str) -> (s: String)
        ensures
            s@ == prefix@ + self.debug_text(),
    {
        match self {
            MessageCommand::Padding => prefixed(prefix, "Padding"),
            MessageCommand::Create => prefixed(prefix, "Create"),
            MessageCommand::Created => prefixed(prefix, "Created"),
            MessageCommand::Extend => prefixed(prefix, "Extend"),
            MessageCommand::Extended => prefixed(prefix, "Extended"),
            MessageCommand::Destroy => prefixed(prefix, "Destroy"),
            MessageCommand::Begin => prefixed(prefix, "Begin"),
            MessageCommand::Connected => prefixed(prefix, "Connected"),
            MessageCommand::Data => prefixed(prefix, "Data"),
            MessageCommand::End => prefixed(prefix, "End"),
        }
    }
}

/// No two commands share a byte.
pub proof fn command_codes_are_distinct(a: MessageCommand, b: MessageCommand)
    requires
        a.code() == b.code(),
    ensures
        a == b,
{
}

/// A message between two nodes of a circuit.
#[derive(Debug)]
pub struct Message {
    pub circuit_id: CircuitId,
    pub stream_id: StreamId,
    pub command: MessageCommand,
    pub data: Vec<u8>,
    pub digest: [u8; 4],
}

/// The contents of a message.
#[verifier::ext_equal]
pub struct MessageView {
    pub circuit_id: CircuitId,
    pub stream_id: StreamId,
    pub command: MessageCommand,
    pub data: Seq<u8>,
    pub digest: Seq<u8>,
}

impl View for Message {
    type V = MessageView;

    open spec fn view(&self) -> MessageView {
        MessageView {
            circuit_id: self.circuit_id,
            stream_id: self.stream_id,
            command: self.command,
            data: self.data@,
            digest: self.digest@,
        }
    }
}

/// Four zero bytes.
pub open spec fn no_digest() -> Seq<u8> {
    seq![0, 0, 0, 0]
}

impl MessageView {
    /// A message without a digest.
    pub open spec fn plain(
        circuit_id: CircuitId,
        stream_id: StreamId,
        command: MessageCommand,
        data: Seq<u8>,
    ) -> MessageView {
        MessageView { circuit_id, stream_id, command, data, digest: no_digest() }
    }

    /// The data that a cell carries of the message: its first `MAX_PAYLOAD_SIZE` bytes.
    pub open spec fn carried(self) -> Seq<u8> {
        if self.data.len() <= MAX_PAYLOAD_SIZE {
            self.data
        } else {
            self.data.take(MAX_PAYLOAD_SIZE as int)
        }
    }

    /// The cell of the message: the length of what follows the length field, the circuit, the
    /// stream, the command, the length of the data, the digest, the data, and zeros.
    pub open spec fn cell(self) -> Seq<u8> {
        let data = self.carried();
        be_bytes(510, 4) + be_bytes(self.circuit_id as nat, 4) + be_bytes(self.stream_id as nat, 2)
            + seq![self.command.code()] + be_bytes(data.len(), 2) + self.digest + data + zeros(
            (MAX_PAYLOAD_SIZE - data.len()) as nat,
        )
    }

    /// The message that a cell carries, or why it carries none.
    pub open spec fn parsed(cell: Seq<u8>) -> Result<MessageView, Seq<char>> {
        let length = be_value(cell.subrange(0, 4));
        let payload_len = be_value(cell.subrange(11, 13));
        if cell.len() < CELL_SIZE {
            Err(
                "Cell too short: "@ + dec_text(cell.len()) + " bytes (expected "@ + dec_text(
                    CELL_SIZE as nat,
                ) + ")"@,
            )
        } else if length != CELL_SIZE - 4 {
            Err(
                "Invalid cell length field: "@ + dec_text(length) + " (expected "@ + dec_text(
                    (CELL_SIZE - 4) as nat,
                ) + ")"@,
            )
        } else if !(exists|c: MessageCommand| c.code() == cell[10]) {
            Err(MessageCommand::unknown_text(cell[10]))
        } else if payload_len > MAX_PAYLOAD_SIZE {
            Err(
                "Payload length "@ + dec_text(payload_len) + " exceeds maximum "@ + dec_text(
                    MAX_PAYLOAD_SIZE as nat,
                ),
            )
        } else {
            Ok(
                MessageView {
                    circuit_id: be_value(cell.subrange(4, 8)) as u32,
                    stream_id: be_value(cell.subrange(8, 10)) as u16,
                    command: choose|c: MessageCommand| c.code() == cell[10],
                    data: cell.subrange(17, 17 + payload_len as int),
                    digest: cell.subrange(13, 17),
                },
            )
        }
    }
}

impl Message {
    /// A message with an empty digest.
    pub fn new(
        circuit_id: CircuitId,
        stream_id: StreamId,
        command: MessageCommand,
        data: Vec<u8>,
    ) -> (r: Self)
        ensures
            r@ == MessageView::plain(circuit_id, stream_id, command, data@),
    {
        let r = Self { circuit_id, stream_id, command, data, digest: [0u8, 0u8, 0u8, 0u8] };
        proof {
            assert(r.digest@ =~= no_digest());
        }
        r
    }

    /// A message about the circuit itself, on stream 0.
    pub fn circuit(circuit_id: CircuitId, command: MessageCommand, data: Vec<u8>) -> (r: Self)
        ensures
            r@ == MessageView::plain(circuit_id, 0, command, data@),
    {
        Self::new(circuit_id, 0, command, data)
    }

    /// A message on a stream of the circuit.
    pub fn stream(
        circuit_id: CircuitId,
        stream_id: StreamId,
        command: MessageCommand,
        data: Vec<u8>,
    ) -> (r: Self)
        ensures
            r@ == MessageView::plain(circuit_id, stream_id, command, data@),
    {
        Self::new(circuit_id, stream_id, command, data)
    }

    /// Asks the next node to open a circuit with this public key.
    pub fn create(circuit_id: CircuitId, public_key: Vec<u8>) -> (r: Self)
        ensures
            r@ == MessageView::plain(circuit_id, 0, MessageCommand::Create, public_key@),
    {
        Self::circuit(circuit_id, MessageCommand::Create, public_key)
    }

    /// Answers a `create`.
    pub fn created(circuit_id: CircuitId, public_key: Vec<u8>) -> (r: Self)
        ensures
            r@ == MessageView::plain(circuit_id, 0, MessageCommand::Created, public_key@),
    {
        Self::circuit(circuit_id, MessageCommand::Created, public_key)
    }

    /// Asks the end of the circuit to extend it by one node.
    pub fn extend(circuit_id: CircuitId, encrypted_payload: Vec<u8>) -> (r: Self)
        ensures
            r@ == MessageView::plain(circuit_id, 0, MessageCommand::Extend, encrypted_payload@),
    {
        Self::circuit(circuit_id, MessageCommand::Extend, encrypted_payload)
    }

    /// Answers an `extend`.
    pub fn extended(circuit_id: CircuitId, response_data: Vec<u8>) -> (r: Self)
        ensures
            r@ == MessageView::plain(circuit_id, 0, MessageCommand::Extended, response_data@),
    {
        Self::circuit(circuit_id, MessageCommand::Extended, response_data)
    }

    /// Closes the circuit.
    pub fn destroy(circuit_id: CircuitId) -> (r: Self)
        ensures
            r@ == MessageView::plain(circuit_id, 0, MessageCommand::Destroy, seq![]),
    {
        Self::circuit(circuit_id, MessageCommand::Destroy, Vec::new())
    }

    /// Keeps the connection busy.
    pub fn padding(circuit_id: CircuitId) -> (r: Self)
        ensures
            r@ == MessageView::plain(circuit_id, 0, MessageCommand::Padding, seq![]),
    {
        Self::circuit(circuit_id, MessageCommand::Padding, Vec::new())
    }

    /// Asks the exit node to connect to a destination.
    pub fn begin(circuit_id: CircuitId, stream_id: StreamId, destination: Vec<u8>) -> (r: Self)
        ensures
            r@ == MessageView::plain(circuit_id, stream_id, MessageCommand::Begin, destination@),
    {
        Self::stream(circuit_id, stream_id, MessageCommand::Begin, destination)
    }

    /// Reports that the exit node has connected.
    pub fn connected(circuit_id: CircuitId, stream_id: StreamId) -> (r: Self)
        ensures
            r@ == MessageView::plain(circuit_id, stream_id, MessageCommand::Connected, seq![]),
    {
        Self::stream(circuit_id, stream_id, MessageCommand::Connected, Vec::new())
    }

    /// Carries data of a stream.
    pub fn data(circuit_id: CircuitId, stream_id: StreamId, payload: Vec<u8>) -> (r: Self)
        ensures
            r@ == MessageView::plain(circuit_id, stream_id, MessageCommand::Data, payload@),
    {
        Self::stream(circuit_id, stream_id, MessageCommand::Data, payload)
    }

    /// Ends a stream.
    pub fn end(circuit_id: CircuitId, stream_id: StreamId, reason: Vec<u8>) -> (r: Self)
        ensures
            r@ == MessageView::plain(circuit_id, stream_id, MessageCommand::End, reason@),
    {
        Self::stream(circuit_id, stream_id, MessageCommand::End, reason)
    }

    /// Writes the message into a cell. Data beyond `MAX_PAYLOAD_SIZE` bytes is left out.
    pub fn to_bytes(&self) -> (cell: Vec<u8>)
        ensures
            cell@ == self@.cell(),
            cell@.len() == CELL_SIZE,
    {
        let mut cell: Vec<u8> = Vec::new();
        push_be(&mut cell, 510, 4);
        push_be(&mut cell, self.circuit_id as u128, 4);
        push_be(&mut cell, self.stream_id as u128, 2);
        cell.push(self.command.to_u8());
        let data_len = if self.data.len() < MAX_PAYLOAD_SIZE {
            self.data.len()
        } else {
            MAX_PAYLOAD_SIZE
        };
        push_be(&mut cell, data_len as u128, 2);
        push_bytes(&mut cell, self.digest.as_slice());
        let carried = slice_vec(self.data.as_slice(), 0, data_len);
        push_bytes(&mut cell, carried.as_slice());
        let ghost filled = cell@;
        proof {
            assert(carried@ =~= self@.carried());
            be_bytes_len(510, 4);
            be_bytes_len(self.circuit_id as nat, 4);
            be_bytes_len(self.stream_id as nat, 2);
            be_bytes_len(data_len as nat, 2);
            assert(filled.len() == 17 + data_len);
            assert(filled + zeros(0) =~= filled);
        }
        let mut i: usize = data_len;
        while i < MAX_PAYLOAD_SIZE
            invariant
                data_len <= i <= MAX_PAYLOAD_SIZE,
                cell@ == filled + zeros((i - data_len) as nat),
            decreases MAX_PAYLOAD_SIZE - i,
        {
            cell.push(0u8);
            proof {
                assert(zeros((i + 1 - data_len) as nat) =~= zeros((i - data_len) as nat).push(0));
                assert(filled + zeros((i + 1 - data_len) as nat) =~= (filled + zeros(
                    (i - data_len) as nat,
                )).push(0));
            }
            i += 1;
        }
        proof {
            assert(cell@ =~= self@.cell());
        }
        cell
    }

    /// Reads the message out of a cell. What follows the cell is not looked at.
    pub fn from_bytes(bytes: &[u8]) -> (r: Result<Self, String>)
        ensures
            match r {
                Ok(m) => MessageView::parsed(bytes@) == Ok::<MessageView, Seq<char>>(m@),
                Err(e) => MessageView::parsed(bytes@) == Err::<MessageView, Seq<char>>(e@),
            },
    {
        if bytes.len() < CELL_SIZE {
            let mut e = "Cell too short: ".to_owned();
            push_dec(&mut e, bytes.len() as u64);
            e.append(" bytes (expected ");
            push_dec(&mut e, CELL_SIZE as u64);
            e.append(")");
            return Err(e);
        }
        let length = be32_at(bytes, 0);
        if length != 510 {
            let mut e = "Invalid cell length field: ".to_owned();
            push_dec(&mut e, length as u64);
            e.append(" (expected ");
            push_dec(&mut e, 510);
            e.append(")");
            return Err(e);
        }
        let circuit_id = be32_at(bytes, 4);
        let stream_id = be16_at(bytes, 8);
        let command = match MessageCommand::from_u8(bytes[10]) {
            Ok(c) => c,
            Err(e) => {
                return Err(e);
            },
        };
        let payload_len = be16_at(bytes, 11) as usize;
        if payload_len > MAX_PAYLOAD_SIZE {
            let mut e = "Payload length ".to_owned();
            push_dec(&mut e, payload_len as u64);
            e.append(" exceeds maximum ");
            push_dec(&mut e, MAX_PAYLOAD_SIZE as u64);
            return Err(e);
        }
        let digest = array4_at(bytes, 13);
        let data = slice_vec(bytes, 17, 17 + payload_len);
        Ok(Self { circuit_id, stream_id, command, data, digest })
    }

    /// The cell to send for the message. A message whose data would not fit is refused.
    pub fn to_cell(&self) -> (r: Result<Vec<u8>, TorError>)
        ensures
            match r {
                Ok(cell) => self.data@.len() <= MAX_PAYLOAD_SIZE && cell@ == self@.cell(),
                Err(e) => self.data@.len() > MAX_PAYLOAD_SIZE && e == (TorError::PayloadTooLarge {
                    size: self.data@.len() as usize,
                    max: MAX_PAYLOAD_SIZE,
                }),
            },
    {
        if self.data.len() > MAX_PAYLOAD_SIZE {
            return Err(
                TorError::PayloadTooLarge { size: self.data.len(), max: MAX_PAYLOAD_SIZE },
            );
        }
        Ok(self.to_bytes())
    }

    /// The size of the message on the wire.
    pub fn size(&self) -> (r: usize)
        ensures
            r == CELL_SIZE,
            r == self@.cell().len(),
    {
        proof {
            cell_layout(self@);
        }
        CELL_SIZE
    }
}

impl Clone for Message {
    fn clone(&self) -> (r: Self)
        ensures
            r@ == self@,
    {
        let r = Self {
            circuit_id: self.circuit_id,
            stream_id: self.stream_id,
            command: self.command,
            data: self.data.clone(),
            digest: self.digest,
        };
        proof {
            assert(r.data@ =~= self.data@);
        }
        r
    }
}

/// Where the fields of a cell stand. Every cell has the same size.
pub proof fn cell_layout(m: MessageView)
    requires
        m.digest.len() == DIGEST_SIZE,
    ensures
        m.cell().len() == CELL_SIZE,
        m.cell().subrange(0, 4) == be_bytes(510, 4),
        m.cell().subrange(4, 8) == be_bytes(m.circuit_id as nat, 4),
        m.cell().subrange(8, 10) == be_bytes(m.stream_id as nat, 2),
        m.cell()[10] == m.command.code(),
        m.cell().subrange(11, 13) == be_bytes(m.carried().len(), 2),
        m.cell().subrange(13, 17) == m.digest,
        m.cell().subrange(17, 17 + m.carried().len() as int) == m.carried(),
        forall|i: int| 17 + m.carried().len() <= i < CELL_SIZE ==> m.cell()[i] == 0,
{
    be_bytes_len(510, 4);
    be_bytes_len(m.circuit_id as nat, 4);
    be_bytes_len(m.stream_id as nat, 2);
    be_bytes_len(m.carried().len(), 2);
    let c = m.cell();
    assert(c.subrange(0, 4) =~= be_bytes(510, 4));
    assert(c.subrange(4, 8) =~= be_bytes(m.circuit_id as nat, 4));
    assert(c.subrange(8, 10) =~= be_bytes(m.stream_id as nat, 2));
    assert(c.subrange(11, 13) =~= be_bytes(m.carried().len(), 2));
    assert(c.subrange(13, 17) =~= m.digest);
    assert(c.subrange(17, 17 + m.carried().len() as int) =~= m.carried());
}

/// A cell reads back as the message that was written into it, with the data that fits, whatever
/// follows the cell.
pub proof fn cell_reads_back(m: MessageView, rest: Seq<u8>)
    requires
        m.digest.len() == DIGEST_SIZE,
    ensures
        MessageView::parsed(m.cell() + rest) == Ok::<MessageView, Seq<char>>(
            MessageView { data: m.carried(), ..m },
        ),
        m.data.len() <= MAX_PAYLOAD_SIZE ==> MessageView::parsed(m.cell() + rest) == Ok::<
            MessageView,
            Seq<char>,
        >(m),
{
    cell_layout(m);
    be_value_of_bytes(510, 4);
    be_value_of_bytes(m.circuit_id as nat, 4);
    be_value_of_bytes(m.stream_id as nat, 2);
    be_value_of_bytes(m.carried().len(), 2);
    let c = m.cell() + rest;
    assert(c.subrange(0, 4) =~= m.cell().subrange(0, 4));
    assert(c.subrange(4, 8) =~= m.cell().subrange(4, 8));
    assert(c.subrange(8, 10) =~= m.cell().subrange(8, 10));
    assert(c.subrange(11, 13) =~= m.cell().subrange(11, 13));
    assert(c.subrange(13, 17) =~= m.cell().subrange(13, 17));
    assert(c.subrange(17, 17 + m.carried().len() as int) =~= m.cell().subrange(17, 17 + m.carried().len() as int));
    assert(c[10] == m.command.code());
    let found = choose|x: MessageCommand| x.code() == c[10];
    assert(found.code() == m.command.code());
    command_codes_are_distinct(found, m.command);
}

/// Two messages whose data fits in a cell are the same if their cells are.
pub proof fn cells_tell_messages_apart(a: MessageView, b: MessageView)
    requires
        a.digest.len() == DIGEST_SIZE,
        b.digest.len() == DIGEST_SIZE,
        a.data.len() <= MAX_PAYLOAD_SIZE,
        b.data.len() <= MAX_PAYLOAD_SIZE,
        a.cell() == b.cell(),
    ensures
        a == b,
{
    cell_reads_back(a, seq![]);
    cell_reads_back(b, seq![]);
}

/// `data` cut into pieces of `MAX_PAYLOAD_SIZE` bytes, the last of which may be shorter.
pub open spec fn pieces(data: Seq<u8>) -> Seq<Seq<u8>>
    decreases data.len(),
{
    if data.len() == 0 {
        Seq::empty()
    } else if data.len() <= MAX_PAYLOAD_SIZE {
        seq![data]
    } else {
        seq![data.take(MAX_PAYLOAD_SIZE as int)] + pieces(data.skip(MAX_PAYLOAD_SIZE as int))
    }
}

/// The pieces put together again.
pub open spec fn joined(pieces: Seq<Seq<u8>>) -> Seq<u8>
    decreases pieces.len(),
{
    if pieces.len() == 0 {
        Seq::empty()
    } else {
        pieces[0] + joined(pieces.skip(1))
    }
}

/// The pieces of data are the data again when put together, none is empty, and each fits into a
/// cell.
pub proof fn pieces_hold_the_data(data: Seq<u8>)
    ensures
        joined(pieces(data)) == data,
        forall|i: int|
            0 <= i < pieces(data).len() ==> 0 < (#[trigger] pieces(data)[i]).len()
                <= MAX_PAYLOAD_SIZE,
    decreases data.len(),
{
    reveal_with_fuel(joined, 2);
    if data.len() > 0 && data.len() <= MAX_PAYLOAD_SIZE {
        assert(pieces(data).skip(1) =~= Seq::<Seq<u8>>::empty());
        assert(joined(pieces(data)) =~= data);
    } else if data.len() > 0 {
        let rest = data.skip(MAX_PAYLOAD_SIZE as int);
        pieces_hold_the_data(rest);
        assert(pieces(data).skip(1) =~= pieces(rest));
        assert(joined(pieces(data)) =~= data);
        assert forall|i: int| 0 <= i < pieces(data).len() implies 0 < (#[trigger] pieces(
            data,
        )[i]).len() <= MAX_PAYLOAD_SIZE by {
            if i > 0 {
                assert(pieces(data)[i] == pieces(rest)[i - 1]);
            }
        }
    }
}

/// Pieces may be put together one after the other: a further piece goes behind what the others make
/// up.
pub proof fn pieces_join_in_order(front: Seq<Seq<u8>>, last: Seq<u8>)
    ensures
        joined(front.push(last)) == joined(front) + last,
    decreases front.len(),
{
    let all = front.push(last);
    reveal_with_fuel(joined, 2);
    if front.len() > 0 {
        pieces_join_in_order(front.skip(1), last);
        assert(all.skip(1) =~= front.skip(1).push(last));
        assert(joined(all) =~= joined(front) + last);
    } else {
        assert(all.skip(1) =~= Seq::<Seq<u8>>::empty());
        assert(joined(all) =~= joined(front) + last);
    }
}

/// Every piece but the last is as large as a cell allows, so that no fewer cells would do.
pub proof fn pieces_fill_their_cells(data: Seq<u8>)
    ensures
        forall|i: int|
            0 <= i < pieces(data).len() - 1 ==> (#[trigger] pieces(data)[i]).len()
                == MAX_PAYLOAD_SIZE,
        data.len() <= pieces(data).len() * MAX_PAYLOAD_SIZE,
        pieces(data).len() * MAX_PAYLOAD_SIZE < data.len() + MAX_PAYLOAD_SIZE,
    decreases data.len(),
{
    if data.len() > MAX_PAYLOAD_SIZE {
        let rest = data.skip(MAX_PAYLOAD_SIZE as int);
        pieces_fill_their_cells(rest);
        assert forall|i: int| 0 <= i < pieces(data).len() - 1 implies (
        #[trigger] pieces(data)[i]).len() == MAX_PAYLOAD_SIZE by {
            if i > 0 {
                assert(pieces(data)[i] == pieces(rest)[i - 1]);
            }
        }
    }
}

/// A cell has room for 497 bytes of data, and what fits into it is carried whole.
pub proof fn cells_carry_what_fits(m: MessageView)
    requires
        m.digest.len() == DIGEST_SIZE,
    ensures
        m.cell().len() == 514,
        m.data.len() <= 497 ==> m.carried() == m.data,
        m.data.len() > 497 ==> m.carried().len() == 497 && m.carried() == m.data.take(497),
{
    cell_layout(m);
}

/// A cell that is too short, whose length field is not that of a cell, whose command byte stands for
/// no command, or that claims more data than fits is refused; every other one is read, and its data
/// is what stands behind its head, as long as the cell says.
pub proof fn malformed_cells_are_refused(cell: Seq<u8>)
    ensures
        cell.len() < 514 ==> MessageView::parsed(cell) is Err,
        cell.len() >= 514 && be_value(cell.subrange(0, 4)) != 510 ==> MessageView::parsed(
            cell,
        ) is Err,
        cell.len() >= 514 && (forall|c: MessageCommand| c.code() != cell[10])
            ==> MessageView::parsed(cell) is Err,
        cell.len() >= 514 && be_value(cell.subrange(11, 13)) > 497 ==> MessageView::parsed(
            cell,
        ) is Err,
        MessageView::parsed(cell) is Ok ==> ({
            let m = MessageView::parsed(cell)->Ok_0;
            &&& m.command.code() == cell[10]
            &&& m.data.len() == be_value(cell.subrange(11, 13))
            &&& forall|i: int| 0 <= i < m.data.len() ==> #[trigger] m.data[i] == cell[17 + i]
            &&& m.digest == cell.subrange(13, 17)
        }),
        cell.len() >= 514 && be_value(cell.subrange(0, 4)) == 510 && be_value(
            cell.subrange(11, 13),
        ) <= 497 && (exists|c: MessageCommand| c.code() == cell[10]) ==> MessageView::parsed(
            cell,
        ) is Ok,
{
}

}
