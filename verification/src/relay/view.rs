//! The dashboard of a relay node.

use crate::display::quits;
use crate::display::show_time;
use crate::display::spans_of;
use crate::display::time_span;
use crate::display::EventLine;
use crate::display::EventLineView;
use crate::display::Span;
use crate::display::SpanView;
use crate::display::Tint;
use crate::metrics::duration_text;
use crate::metrics::format_bytes;
use crate::metrics::format_duration;
use crate::metrics::scaled_text;
use crate::metrics::Direction;
use crate::metrics::Elapsed;
use crate::metrics::TuiEvent;
use crate::protocol::CircuitId;
use crate::relay::circuit::CircuitState;
use crate::relay::metrics::cell_text;
use crate::relay::metrics::cid_text;
use crate::relay::metrics::push_cell;
use crate::relay::metrics::push_cid;
use crate::relay::metrics::push_sid;
use crate::relay::metrics::sid_text;
use crate::relay::metrics::EventContent;
use crate::relay::metrics::EventKind;
use crate::relay::metrics::RelayMetrics;
use crate::text::align_left;
use crate::text::counted;
use crate::text::dec;
use crate::text::dec_text;
use crate::text::framed;
use crate::text::left_aligned;
use crate::text::pad_zeros;
use crate::text::parsed_number;
use crate::text::push_dec;
use crate::text::zero_padded;
use crate::types::NodeType;
use vstd::prelude::*;
use vstd::string::*;

verus! {

/// Which events are shown.
#[derive(Debug, Clone, Copy, PartialEq, Eq, Structural)]
pub enum FilterMode {
    All,
    Circuits,
    Streams,
    Errors,
}

impl FilterMode {
    /// The name of the mode.
    pub open spec fn text(self) -> Seq<char> {
        match self {
            FilterMode::All => "All"@,
            FilterMode::Circuits => "Circuits"@,
            FilterMode::Streams => "Streams"@,
            FilterMode::Errors => "Errors"@,
        }
    }

    /// The name of the mode.
    pub fn to_string(&self) -> (s: String)
        ensures
            s@ == self.text(),
    {
        match self {
            FilterMode::All => "All".to_owned(),
            FilterMode::Circuits => "Circuits".to_owned(),
            FilterMode::Streams => "Streams".to_owned(),
            FilterMode::Errors => "Errors".to_owned(),
        }
    }
}

/// What the user has set.
#[derive(Debug, Clone, Copy, PartialEq, Eq, Structural)]
pub struct TuiState {
    pub paused: bool,
    pub filter: FilterMode,
}

impl TuiState {
    /// Nothing set.
    pub fn new() -> (r: Self)
        ensures
            r == (TuiState { paused: false, filter: FilterMode::All }),
    {
        TuiState { paused: false, filter: FilterMode::All }
    }

    /// What is set after a key.
    pub open spec fn after_key(self, key: char) -> TuiState {
        if key == 'p' || key == 'P' {
            TuiState { paused: !self.paused, ..self }
        } else if key == '1' {
            TuiState { filter: FilterMode::All, ..self }
        } else if key == '2' {
            TuiState { filter: FilterMode::Circuits, ..self }
        } else if key == '3' {
            TuiState { filter: FilterMode::Streams, ..self }
        } else if key == '4' {
            TuiState { filter: FilterMode::Errors, ..self }
        } else {
            self
        }
    }

    /// Takes a key, and tells whether it ends the dashboard.
    pub fn press(&mut self, key: char, control: bool) -> (quit: bool)
        ensures
            quit == (key == 'q' || key == 'Q' || (key == 'c' && control)),
            *final(self) == old(self).after_key(key),
    {
        if quits(key, control) {
            return true;
        }
        if key == 'p' || key == 'P' {
            self.paused = !self.paused;
        } else if key == '1' {
            self.filter = FilterMode::All;
        } else if key == '2' {
            self.filter = FilterMode::Circuits;
        } else if key == '3' {
            self.filter = FilterMode::Streams;
        } else if key == '4' {
            self.filter = FilterMode::Errors;
        }
        false
    }
}

impl EventContent {
    /// Whether the event is shown in this mode.
    pub open spec fn shown_in(self, filter: FilterMode) -> bool {
        match filter {
            FilterMode::All => true,
            FilterMode::Circuits => self is CircuitCreated || self is CircuitExtended
                || self is CircuitDestroyed,
            FilterMode::Streams => self is StreamOpened || self is StreamClosed
                || self is StreamData,
            FilterMode::Errors => self is Error,
        }
    }

    /// The label of the event in the activity log.
    pub open spec fn label(self) -> SpanView {
        match self {
            EventContent::ConnectionAccepted { .. } => {
                SpanView::strong("\u{2190} ACCEPT   "@, Tint::Blue)
            },
            EventContent::ConnectionClosed { .. } => {
                SpanView::tinted("\u{2014} CLOSED   "@, Tint::DarkGray)
            },
            EventContent::CircuitCreated { .. } => {
                SpanView::strong("\u{2699} CREATE   "@, Tint::Cyan)
            },
            EventContent::CircuitExtended { .. } => {
                SpanView::strong("\u{2192} EXTEND   "@, Tint::Green)
            },
            EventContent::CircuitDestroyed { .. } => {
                SpanView::strong("\u{2717} DESTROY  "@, Tint::Red)
            },
            EventContent::RelayForward { .. } => {
                SpanView::tinted("\u{2192} RELAY\u{2192}  "@, Tint::White)
            },
            EventContent::RelayBackward { .. } => {
                SpanView::tinted("\u{2190} RELAY\u{2190}  "@, Tint::Gray)
            },
            EventContent::StreamOpened { .. } => {
                SpanView::strong("\u{2192} STREAM   "@, Tint::Yellow)
            },
            EventContent::StreamClosed { .. } => {
                SpanView::tinted("\u{2014} END      "@, Tint::DarkGray)
            },
            EventContent::StreamData { direction: Direction::Forward, .. } => {
                SpanView::tinted("\u{2192} DATA\u{2192}   "@, Tint::White)
            },
            EventContent::StreamData { direction: Direction::Backward, .. } => {
                SpanView::tinted("\u{2190} DATA\u{2190}   "@, Tint::Gray)
            },
            EventContent::Error { .. } => SpanView::strong("\u{2717} ERROR    "@, Tint::Red),
        }
    }

    /// The details of the event in the activity log.
    pub open spec fn detail(self) -> SpanView {
        match self {
            EventContent::ConnectionAccepted { peer } => SpanView::plain("from "@ + peer),
            EventContent::ConnectionClosed { peer } => SpanView::plain("conn from "@ + peer),
            EventContent::CircuitCreated { circuit_id } => {
                SpanView::plain(cid_text(circuit_id) + " handshake complete"@)
            },
            EventContent::CircuitExtended { circuit_id, next_hop } => {
                SpanView::plain(cid_text(circuit_id) + " \u{2192} "@ + next_hop)
            },
            EventContent::CircuitDestroyed { circuit_id } => SpanView::plain(cid_text(circuit_id)),
            EventContent::RelayForward { circuit_id, command, bytes } => {
                SpanView::plain(cid_text(circuit_id) + " "@ + cell_text(command, bytes))
            },
            EventContent::RelayBackward { circuit_id, command, bytes } => {
                SpanView::plain(cid_text(circuit_id) + " "@ + cell_text(command, bytes))
            },
            EventContent::StreamOpened { circuit_id, stream_id, destination } => {
                SpanView::plain(sid_text(circuit_id, stream_id) + " \u{2192} "@ + destination)
            },
            EventContent::StreamClosed { circuit_id, stream_id } => {
                SpanView::plain(sid_text(circuit_id, stream_id))
            },
            EventContent::StreamData { circuit_id, stream_id, bytes, direction } => {
                SpanView::plain(
                    sid_text(circuit_id, stream_id) + " ["@ + scaled_text(
                        bytes as u64,
                        Seq::empty(),
                    ) + " "@ + direction.text() + "]"@,
                )
            },
            EventContent::Error { message } => SpanView::tinted(message, Tint::Red),
        }
    }
}

/// The line of the activity log for an event.
pub open spec fn event_line(event: TuiEvent<EventKind>) -> EventLineView {
    EventLineView {
        time: time_span(event.elapsed),
        label: event.kind@.label(),
        detail: event.kind@.detail(),
    }
}

/// The lines of the activity log for those of the events that are shown.
pub open spec fn event_lines(events: Seq<TuiEvent<EventKind>>, filter: FilterMode) -> Seq<
    EventLineView,
>
    decreases events.len(),
{
    if events.len() == 0 {
        Seq::empty()
    } else {
        let front = event_lines(events.drop_last(), filter);
        if events.last().kind@.shown_in(filter) {
            front.push(event_line(events.last()))
        } else {
            front
        }
    }
}

/// The views of a sequence of lines.
pub open spec fn lines_of(v: Seq<EventLine>) -> Seq<EventLineView> {
    Seq::new(v.len(), |i: int| v[i]@)
}

/// Whether an event is shown in this mode.
pub fn matches_event(kind: &EventKind, filter: FilterMode) -> (r: bool)
    ensures
        r == kind@.shown_in(filter),
{
    match filter {
        FilterMode::All => true,
        FilterMode::Circuits => match kind {
            EventKind::CircuitCreated { .. } | EventKind::CircuitExtended { .. }
            | EventKind::CircuitDestroyed { .. } => true,
            _ => false,
        },
        FilterMode::Streams => match kind {
            EventKind::StreamOpened { .. } | EventKind::StreamClosed { .. }
            | EventKind::StreamData { .. } => true,
            _ => false,
        },
        FilterMode::Errors => match kind {
            EventKind::Error { .. } => true,
            _ => false,
        },
    }
}

/// The label of an event in the activity log.
fn show_label(kind: &EventKind) -> (r: Span)
    ensures
        r@ == kind@.label(),
{
    match kind {
        EventKind::ConnectionAccepted { .. } => {
            Span::strong("\u{2190} ACCEPT   ".to_owned(), Tint::Blue)
        },
        EventKind::ConnectionClosed { .. } => {
            Span::tinted("\u{2014} CLOSED   ".to_owned(), Tint::DarkGray)
        },
        EventKind::CircuitCreated { .. } => {
            Span::strong("\u{2699} CREATE   ".to_owned(), Tint::Cyan)
        },
        EventKind::CircuitExtended { .. } => {
            Span::strong("\u{2192} EXTEND   ".to_owned(), Tint::Green)
        },
        EventKind::CircuitDestroyed { .. } => {
            Span::strong("\u{2717} DESTROY  ".to_owned(), Tint::Red)
        },
        EventKind::RelayForward { .. } => {
            Span::tinted("\u{2192} RELAY\u{2192}  ".to_owned(), Tint::White)
        },
        EventKind::RelayBackward { .. } => {
            Span::tinted("\u{2190} RELAY\u{2190}  ".to_owned(), Tint::Gray)
        },
        EventKind::StreamOpened { .. } => {
            Span::strong("\u{2192} STREAM   ".to_owned(), Tint::Yellow)
        },
        EventKind::StreamClosed { .. } => {
            Span::tinted("\u{2014} END      ".to_owned(), Tint::DarkGray)
        },
        EventKind::StreamData { direction, .. } => match direction {
            Direction::Forward => {
                Span::tinted("\u{2192} DATA\u{2192}   ".to_owned(), Tint::White)
            },
            Direction::Backward => {
                Span::tinted("\u{2190} DATA\u{2190}   ".to_owned(), Tint::Gray)
            },
        },
        EventKind::Error { .. } => Span::strong("\u{2717} ERROR    ".to_owned(), Tint::Red),
    }
}

/// The details of an event in the activity log.
fn show_detail(kind: &EventKind) -> (r: Span)
    ensures
        r@ == kind@.detail(),
{
    let mut s = String::new();
    match kind {
        EventKind::ConnectionAccepted { peer } => {
            s.append("from ");
            s.append(peer.as_str());
        },
        EventKind::ConnectionClosed { peer } => {
            s.append("conn from ");
            s.append(peer.as_str());
        },
        EventKind::CircuitCreated { circuit_id } => {
            push_cid(&mut s, *circuit_id);
            s.append(" handshake complete");
        },
        EventKind::CircuitExtended { circuit_id, next_hop } => {
            push_cid(&mut s, *circuit_id);
            s.append(" \u{2192} ");
            s.append(next_hop.as_str());
        },
        EventKind::CircuitDestroyed { circuit_id } => {
            push_cid(&mut s, *circuit_id);
        },
        EventKind::RelayForward { circuit_id, command, bytes } => {
            push_cid(&mut s, *circuit_id);
            s.append(" ");
            push_cell(&mut s, *command, *bytes);
        },
        EventKind::RelayBackward { circuit_id, command, bytes } => {
            push_cid(&mut s, *circuit_id);
            s.append(" ");
            push_cell(&mut s, *command, *bytes);
        },
        EventKind::StreamOpened { circuit_id, stream_id, destination } => {
            push_sid(&mut s, *circuit_id, *stream_id);
            s.append(" \u{2192} ");
            s.append(destination.as_str());
        },
        EventKind::StreamClosed { circuit_id, stream_id } => {
            push_sid(&mut s, *circuit_id, *stream_id);
        },
        EventKind::StreamData { circuit_id, stream_id, bytes, direction } => {
            push_sid(&mut s, *circuit_id, *stream_id);
            s.append(" [");
            s.append(format_bytes(*bytes as u64).as_str());
            s.append(" ");
            s.append(direction.to_string().as_str());
            s.append("]");
        },
        EventKind::Error { message } => {
            return Span::tinted(message.clone(), Tint::Red);
        },
    }
    proof {
        assert(s@ =~= kind@.detail().text);
    }
    Span::plain(s)
}

/// The line of the activity log for an event.
pub fn format_event(event: &TuiEvent<EventKind>) -> (r: EventLine)
    ensures
        r@ == event_line(*event),
{
    EventLine {
        time: show_time(event.elapsed),
        label: show_label(&event.kind),
        detail: show_detail(&event.kind),
    }
}

/// The lines of the activity log, oldest first.
pub fn collect_event_lines(metrics: &RelayMetrics, filter: FilterMode) -> (r: Vec<EventLine>)
    ensures
        lines_of(r@) == event_lines(metrics.events@, filter),
{
    let n = metrics.events.len();
    let mut r: Vec<EventLine> = Vec::new();
    let mut i: usize = 0;
    proof {
        assert(lines_of(r@) =~= Seq::<EventLineView>::empty());
    }
    while i < n
        invariant
            n == metrics.events@.len(),
            i <= n,
            lines_of(r@) == event_lines(metrics.events@.take(i as int), filter),
        decreases n - i,
    {
        let event = metrics.events.get(i);
        let ghost before = r@;
        proof {
            assert(metrics.events@.take(i as int + 1).drop_last() =~= metrics.events@.take(
                i as int,
            ));
        }
        if matches_event(&event.kind, filter) {
            r.push(format_event(event));
            proof {
                assert(lines_of(r@) =~= lines_of(before).push(r@.last()@));
            }
        }
        i += 1;
    }
    proof {
        assert(metrics.events@.take(i as int) =~= metrics.events@);
    }
    r
}

/// The name and the colour of a kind of relay.
pub open spec fn type_badge(node_type: NodeType) -> (Seq<char>, Tint) {
    match node_type {
        NodeType::Entry => ("ENTRY"@, Tint::Green),
        NodeType::Middle => ("MIDDLE"@, Tint::Yellow),
        NodeType::Exit => ("EXIT"@, Tint::Red),
    }
}

/// The colour of a kind of relay.
pub fn type_tint(node_type: NodeType) -> (r: Tint)
    ensures
        r == type_badge(node_type).1,
{
    match node_type {
        NodeType::Entry => Tint::Green,
        NodeType::Middle => Tint::Yellow,
        NodeType::Exit => Tint::Red,
    }
}

/// The header of the dashboard: the kind of relay, its address, how long it runs, and the
/// counters. An exit relay also shows its streams.
pub open spec fn header_spans(
    metrics: RelayMetrics,
    node_type: NodeType,
    bind_addr: Seq<char>,
    circuit_count: usize,
    uptime: Elapsed,
) -> Seq<SpanView> {
    let (name, tint) = type_badge(node_type);
    let spans = seq![
        SpanView { text: " "@ + name + " "@, tint: Tint::Black, background: tint, bold: true },
        SpanView::strong(" "@ + bind_addr + " "@, Tint::Plain),
        SpanView::plain(" \u{2502} Up "@ + duration_text(uptime.secs) + " "@),
        SpanView::plain("\u{2502} Conns "@ + dec_text(metrics.connections_accepted as nat) + " "@),
        SpanView::plain(
            "\u{2502} Circuits "@ + dec_text(circuit_count as nat) + " active / "@ + dec_text(
                metrics.circuits_created as nat,
            ) + " total / "@ + dec_text(metrics.circuits_destroyed as nat) + " destroyed "@,
        ),
        SpanView::plain(
            "\u{2502} \u{2191} "@ + scaled_text(metrics.bytes_forwarded, Seq::empty())
                + " \u{2193} "@ + scaled_text(metrics.bytes_received, Seq::empty()),
        ),
    ];
    if node_type == NodeType::Exit {
        spans.push(
            SpanView::plain(" \u{2502} Streams "@ + dec_text(metrics.streams_opened as nat)),
        )
    } else {
        spans
    }
}

/// The badge with the kind of relay.
fn show_badge(node_type: NodeType) -> (r: Span)
    ensures
        r@ == (SpanView {
            text: " "@ + type_badge(node_type).0 + " "@,
            tint: Tint::Black,
            background: type_badge(node_type).1,
            bold: true,
        }),
{
    let text = match node_type {
        NodeType::Entry => framed(" ", "ENTRY", " "),
        NodeType::Middle => framed(" ", "MIDDLE", " "),
        NodeType::Exit => framed(" ", "EXIT", " "),
    };
    Span { text, tint: Tint::Black, background: type_tint(node_type), bold: true }
}

/// The header of the dashboard.
pub fn build_header_spans(
    metrics: &RelayMetrics,
    node_type: NodeType,
    bind_addr: &str,
    circuit_count: usize,
    uptime: Elapsed,
) -> (r: Vec<Span>)
    ensures
        spans_of(r@) == header_spans(*metrics, node_type, bind_addr@, circuit_count, uptime),
{
    let mut r: Vec<Span> = Vec::new();
    r.push(show_badge(node_type));
    r.push(Span::strong(framed(" ", bind_addr, " "), Tint::Plain));
    r.push(
        Span::plain(framed(" \u{2502} Up ", format_duration(uptime).as_str(), " ")),
    );
    r.push(Span::plain(counted("\u{2502} Conns ", metrics.connections_accepted, " ")));
    let mut circuits = counted("\u{2502} Circuits ", circuit_count as u64, " active / ");
    push_dec(&mut circuits, metrics.circuits_created);
    circuits.append(" total / ");
    push_dec(&mut circuits, metrics.circuits_destroyed);
    circuits.append(" destroyed ");
    r.push(Span::plain(circuits));
    let mut traffic = framed(
        "\u{2502} \u{2191} ",
        format_bytes(metrics.bytes_forwarded).as_str(),
        " \u{2193} ",
    );
    traffic.append(format_bytes(metrics.bytes_received).as_str());
    r.push(Span::plain(traffic));
    if node_type == NodeType::Exit {
        let mut streams = " \u{2502} Streams ".to_owned();
        push_dec(&mut streams, metrics.streams_opened);
        r.push(Span::plain(streams));
    }
    proof {
        assert(spans_of(r@) =~= header_spans(
            *metrics,
            node_type,
            bind_addr@,
            circuit_count,
            uptime,
        ));
    }
    r
}

/// A row of the statistics: two figures with their labels.
#[derive(Debug)]
pub struct StatsRow {
    pub left_label: String,
    pub left: String,
    pub right_label: String,
    pub right: String,
}

/// A row of the statistics.
#[verifier::ext_equal]
pub struct StatsRowView {
    pub left_label: Seq<char>,
    pub left: Seq<char>,
    pub right_label: Seq<char>,
    pub right: Seq<char>,
}

impl View for StatsRow {
    type V = StatsRowView;

    open spec fn view(&self) -> StatsRowView {
        StatsRowView {
            left_label: self.left_label@,
            left: self.left@,
            right_label: self.right_label@,
            right: self.right@,
        }
    }
}

/// The views of a sequence of rows.
pub open spec fn stats_of(v: Seq<StatsRow>) -> Seq<StatsRowView> {
    Seq::new(v.len(), |i: int| v[i]@)
}

/// The statistics. An exit relay shows its streams and what it forwarded; the others show what
/// they forwarded and what came back.
pub open spec fn stats_rows(metrics: RelayMetrics, node_type: NodeType, uptime: Elapsed) -> Seq<
    StatsRowView,
> {
    let forward = (
        " \u{2191} Forward   "@,
        scaled_text(metrics.bytes_forwarded, Seq::empty()),
    );
    let received = (
        " \u{2193} Received  "@,
        scaled_text(metrics.bytes_received, Seq::empty()),
    );
    let streams = (" Streams     "@, dec_text(metrics.streams_opened as nat));
    let (second, third) = if node_type == NodeType::Exit {
        (streams, forward)
    } else {
        (forward, received)
    };
    seq![
        StatsRowView {
            left_label: " Uptime    "@,
            left: left_aligned(duration_text(uptime.secs), 20),
            right_label: " Connections "@,
            right: dec_text(metrics.connections_accepted as nat),
        },
        StatsRowView {
            left_label: " Created   "@,
            left: left_aligned(dec_text(metrics.circuits_created as nat), 20),
            right_label: second.0,
            right: second.1,
        },
        StatsRowView {
            left_label: " Destroyed "@,
            left: left_aligned(dec_text(metrics.circuits_destroyed as nat), 20),
            right_label: third.0,
            right: third.1,
        },
    ]
}

/// The statistics.
pub fn build_stats(metrics: &RelayMetrics, node_type: NodeType, uptime: Elapsed) -> (r: Vec<
    StatsRow,
>)
    ensures
        stats_of(r@) == stats_rows(*metrics, node_type, uptime),
{
    let exit = node_type == NodeType::Exit;
    let mut r: Vec<StatsRow> = Vec::new();
    r.push(
        StatsRow {
            left_label: " Uptime    ".to_owned(),
            left: align_left(format_duration(uptime).as_str(), 20),
            right_label: " Connections ".to_owned(),
            right: dec(metrics.connections_accepted),
        },
    );
    r.push(
        StatsRow {
            left_label: " Created   ".to_owned(),
            left: align_left(dec(metrics.circuits_created).as_str(), 20),
            right_label: if exit {
                " Streams     ".to_owned()
            } else {
                " \u{2191} Forward   ".to_owned()
            },
            right: if exit {
                dec(metrics.streams_opened)
            } else {
                format_bytes(metrics.bytes_forwarded)
            },
        },
    );
    r.push(
        StatsRow {
            left_label: " Destroyed ".to_owned(),
            left: align_left(dec(metrics.circuits_destroyed).as_str(), 20),
            right_label: if exit {
                " \u{2191} Forward   ".to_owned()
            } else {
                " \u{2193} Received  ".to_owned()
            },
            right: if exit {
                format_bytes(metrics.bytes_forwarded)
            } else {
                format_bytes(metrics.bytes_received)
            },
        },
    );
    proof {
        assert(stats_of(r@) =~= stats_rows(*metrics, node_type, uptime));
    }
    r
}

/// The name and the colour of a circuit's state.
pub open spec fn state_badge(state: CircuitState) -> (Seq<char>, Tint) {
    match state {
        CircuitState::Initializing => ("Init"@, Tint::Yellow),
        CircuitState::Active => ("Active"@, Tint::Green),
        CircuitState::Closing => ("Closing"@, Tint::Magenta),
        CircuitState::Closed => ("Closed"@, Tint::Red),
    }
}

/// The row of a circuit: its number with five digits, and its state.
pub fn circuit_row(circuit_id: CircuitId, state: CircuitState) -> (r: (String, Span))
    ensures
        r.0@ == zero_padded(circuit_id as nat, 5),
        r.1@ == SpanView::tinted(state_badge(state).0, state_badge(state).1),
{
    let badge = match state {
        CircuitState::Initializing => Span::tinted("Init".to_owned(), Tint::Yellow),
        CircuitState::Active => Span::tinted("Active".to_owned(), Tint::Green),
        CircuitState::Closing => Span::tinted("Closing".to_owned(), Tint::Magenta),
        CircuitState::Closed => Span::tinted("Closed".to_owned(), Tint::Red),
    };
    (pad_zeros(circuit_id as u64, 5), badge)
}

/// The title of the activity log, with what the user has set.
pub fn relay_log_title(total: usize, state: TuiState) -> (s: String)
    ensures
        s@ == " Activity Log ("@ + dec_text(total as nat) + ") "@ + (if state.paused {
            "[PAUSED] "@
        } else {
            Seq::empty()
        }) + (if state.filter == FilterMode::All {
            Seq::empty()
        } else {
            "["@ + state.filter.text() + "] "@
        }),
{
    let mut s = counted(" Activity Log (", total as u64, ") ");
    if state.paused {
        s.append("[PAUSED] ");
    }
    if state.filter != FilterMode::All {
        s.append(framed("[", state.filter.to_string().as_str(), "] ").as_str());
    }
    proof {
        assert(s@ =~= " Activity Log ("@ + dec_text(total as nat) + ") "@ + (if state.paused {
            "[PAUSED] "@
        } else {
            Seq::empty()
        }) + (if state.filter == FilterMode::All {
            Seq::empty()
        } else {
            "["@ + state.filter.text() + "] "@
        }));
    }
    s
}

/// The title of the dashboard of a relay of this kind.
pub fn relay_title(node_type: NodeType) -> (s: String)
    ensures
        s@ == (match node_type {
            NodeType::Entry => " Entry Relay "@,
            NodeType::Middle => " Middle Relay "@,
            NodeType::Exit => " Exit Relay "@,
        }),
{
    match node_type {
        NodeType::Entry => " Entry Relay ".to_owned(),
        NodeType::Middle => " Middle Relay ".to_owned(),
        NodeType::Exit => " Exit Relay ".to_owned(),
    }
}

/// The title of the table of circuits.
pub fn circuits_title(count: usize) -> (s: String)
    ensures
        s@ == " Circuits ("@ + dec_text(count as nat) + ") "@,
{
    counted(" Circuits (", count as u64, ") ")
}

/// A key of the help line, and what it does.
pub open spec fn help_entry(key: Seq<char>, what: Seq<char>, tint: Tint) -> Seq<SpanView> {
    seq![SpanView::strong(key, tint), SpanView::tinted(what, Tint::DarkGray)]
}

/// The help line: the keys in the colour of the relay, and the filter that is set.
pub open spec fn help_spans(node_type: NodeType, filter: FilterMode) -> Seq<SpanView> {
    let tint = type_badge(node_type).1;
    help_entry(" p"@, " Pause "@, tint) + help_entry(" 1"@, " All "@, tint) + help_entry(
        " 2"@,
        " Circuits "@,
        tint,
    ) + help_entry(" 3"@, " Streams "@, tint) + help_entry(" 4"@, " Errors "@, tint) + help_entry(
        " q"@,
        " Quit "@,
        tint,
    ) + seq![
        SpanView::plain("  "@),
        SpanView::tinted("Filter: "@ + filter.text(), Tint::DarkGray),
    ]
}

/// Adds a key to the help line.
fn push_help(spans: &mut Vec<Span>, key: &str, what: &str, tint: Tint)
    ensures
        spans_of(final(spans)@) == spans_of(old(spans)@) + help_entry(key@, what@, tint),
{
    let ghost before = spans@;
    spans.push(Span::strong(key.to_owned(), tint));
    spans.push(Span::tinted(what.to_owned(), Tint::DarkGray));
    proof {
        assert(spans_of(spans@) =~= spans_of(before) + help_entry(key@, what@, tint));
    }
}

/// The help line.
pub fn build_help(node_type: NodeType, filter: FilterMode) -> (r: Vec<Span>)
    ensures
        spans_of(r@) == help_spans(node_type, filter),
{
    let tint = type_tint(node_type);
    let mut r: Vec<Span> = Vec::new();
    push_help(&mut r, " p", " Pause ", tint);
    push_help(&mut r, " 1", " All ", tint);
    push_help(&mut r, " 2", " Circuits ", tint);
    push_help(&mut r, " 3", " Streams ", tint);
    push_help(&mut r, " 4", " Errors ", tint);
    push_help(&mut r, " q", " Quit ", tint);
    r.push(Span::plain("  ".to_owned()));
    let mut text = "Filter: ".to_owned();
    text.append(filter.to_string().as_str());
    r.push(Span::tinted(text, Tint::DarkGray));
    proof {
        assert(spans_of(r@) =~= help_spans(node_type, filter));
    }
    r
}

/// What is shown is what the filter lets through: no event is shown in one of the narrower modes
/// that would not be shown in the widest, and no two of the narrower modes show the same event.
pub proof fn filters_part_the_events(event: EventContent, a: FilterMode, b: FilterMode)
    ensures
        event.shown_in(FilterMode::All),
        a != b && a != FilterMode::All && b != FilterMode::All ==> !(event.shown_in(a)
            && event.shown_in(b)),
{
}

/// Each of the narrower modes shows the events of its kind, all of them and no others.
pub proof fn filters_show_their_kind(event: EventContent)
    ensures
        event.shown_in(FilterMode::Circuits) <==> event is CircuitCreated
            || event is CircuitExtended || event is CircuitDestroyed,
        event.shown_in(FilterMode::Streams) <==> event is StreamOpened || event is StreamClosed
            || event is StreamData,
        event.shown_in(FilterMode::Errors) <==> event is Error,
{
}

/// The log shows its lines in the order of the events: the lines of two runs of events are those of
/// the first and then those of the second, and one event has one line, or none if it is not shown.
pub proof fn lines_follow_the_events(
    a: Seq<TuiEvent<EventKind>>,
    b: Seq<TuiEvent<EventKind>>,
    event: TuiEvent<EventKind>,
    filter: FilterMode,
)
    ensures
        event_lines(a + b, filter) == event_lines(a, filter) + event_lines(b, filter),
        event_lines(seq![event], filter) == (if event.kind@.shown_in(filter) {
            seq![event_line(event)]
        } else {
            Seq::empty()
        }),
        event_lines(a, FilterMode::All).len() == a.len(),
{
    lines_of_two_runs(a, b, filter);
    line_of_one_event(event, filter);
    all_events_have_a_line(a);
}

proof fn lines_of_two_runs(
    a: Seq<TuiEvent<EventKind>>,
    b: Seq<TuiEvent<EventKind>>,
    filter: FilterMode,
)
    ensures
        event_lines(a + b, filter) == event_lines(a, filter) + event_lines(b, filter),
    decreases b.len(),
{
    if b.len() > 0 {
        let front = b.drop_last();
        lines_of_two_runs(a, front, filter);
        assert((a + b).drop_last() =~= a + front);
        let before = event_lines(a, filter);
        let lines = event_lines(front, filter);
        assert((before + lines).push(event_line(b.last())) =~= before + lines.push(
            event_line(b.last()),
        ));
    } else {
        assert(a + b =~= a);
        assert(event_lines(a, filter) + Seq::<EventLineView>::empty() =~= event_lines(a, filter));
    }
}

proof fn line_of_one_event(event: TuiEvent<EventKind>, filter: FilterMode)
    ensures
        event_lines(seq![event], filter) == (if event.kind@.shown_in(filter) {
            seq![event_line(event)]
        } else {
            Seq::empty()
        }),
{
    let none = Seq::<TuiEvent<EventKind>>::empty();
    assert(seq![event].drop_last() =~= none);
    assert(event_lines(none, filter) == Seq::<EventLineView>::empty());
    assert(Seq::<EventLineView>::empty().push(event_line(event)) =~= seq![event_line(event)]);
}

proof fn all_events_have_a_line(events: Seq<TuiEvent<EventKind>>)
    ensures
        event_lines(events, FilterMode::All).len() == events.len(),
    decreases events.len(),
{
    if events.len() > 0 {
        all_events_have_a_line(events.drop_last());
    }
}

/// A key sets what it is for: the pause key turns the pause on and off and leaves the filter, the
/// keys of the filters set the filter and leave the pause, and any other key changes nothing.
pub proof fn keys_set_what_they_are_for(state: TuiState, key: char)
    ensures
        ({
            let after = state.after_key(key);
            &&& (key == 'p' || key == 'P') ==> after.paused == !state.paused && after.filter
                == state.filter && after.after_key(key) == state
            &&& key != 'p' && key != 'P' ==> after.paused == state.paused
            &&& key == '1' ==> after.filter == FilterMode::All
            &&& key == '2' ==> after.filter == FilterMode::Circuits
            &&& key == '3' ==> after.filter == FilterMode::Streams
            &&& key == '4' ==> after.filter == FilterMode::Errors
            &&& key != '1' && key != '2' && key != '3' && key != '4' ==> after.filter
                == state.filter
        }),
{
}

/// The statistics show the counters, each in its place: an exit relay shows its streams and what it
/// forwarded, any other relay what it forwarded and what came back.
pub proof fn statistics_show_the_counters(
    metrics: RelayMetrics,
    node_type: NodeType,
    uptime: Elapsed,
)
    ensures
        ({
            let rows = stats_rows(metrics, node_type, uptime);
            let most = u64::MAX as nat;
            &&& rows.len() == 3
            &&& parsed_number(rows[0].right, most) == Some(metrics.connections_accepted as nat)
            &&& rows[0].left.take(duration_text(uptime.secs).len() as int) == duration_text(
                uptime.secs,
            )
            &&& rows[1].left.take(dec_text(metrics.circuits_created as nat).len() as int)
                == dec_text(metrics.circuits_created as nat)
            &&& rows[2].left.take(dec_text(metrics.circuits_destroyed as nat).len() as int)
                == dec_text(metrics.circuits_destroyed as nat)
            &&& node_type == NodeType::Exit ==> {
                &&& parsed_number(rows[1].right, most) == Some(metrics.streams_opened as nat)
                &&& rows[2].right == scaled_text(metrics.bytes_forwarded, Seq::empty())
            }
            &&& node_type != NodeType::Exit ==> {
                &&& rows[1].right == scaled_text(metrics.bytes_forwarded, Seq::empty())
                &&& rows[2].right == scaled_text(metrics.bytes_received, Seq::empty())
            }
        }),
{
    crate::text::numerals_read_back(metrics.connections_accepted as nat, u64::MAX as nat);
    crate::text::numerals_read_back(metrics.streams_opened as nat, u64::MAX as nat);
    crate::text::padding_keeps_the_text(duration_text(uptime.secs), 0, 20);
    crate::text::padding_keeps_the_text(dec_text(metrics.circuits_created as nat), 0, 20);
    crate::text::padding_keeps_the_text(dec_text(metrics.circuits_destroyed as nat), 0, 20);
}

}
