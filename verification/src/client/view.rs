//! The dashboard of a client.

use crate::client::circuit::Circuit;
use crate::client::circuit::CircuitState;
use crate::client::circuit::CircuitView;
use crate::client::metrics::ClientMetrics;
use crate::client::metrics::EventContent;
use crate::client::metrics::EventKind;
use crate::display::show_time;
use crate::display::time_span;
use crate::display::EventLine;
use crate::display::EventLineView;
use crate::display::Span;
use crate::display::SpanView;
use crate::display::Tint;
use crate::metrics::duration_text;
use crate::metrics::format_bytes;
use crate::metrics::format_duration;
use crate::metrics::scaled_text;
use crate::metrics::Direction;
use crate::metrics::Elapsed;
use crate::metrics::TuiEvent;
use crate::relay::metrics::cid_text;
use crate::relay::metrics::push_cid;
use crate::relay::metrics::push_sid;
use crate::relay::metrics::sid_text;
use crate::relay::view::lines_of;
use crate::text::dec;
use crate::text::dec_text;
use crate::text::pad_zeros;
use crate::text::push_dec;
use crate::text::same;
use crate::text::zero_padded;
use vstd::prelude::*;
use vstd::string::*;

verus! {

impl EventContent {
    /// The label of the event in the activity log.
    pub open spec fn label(self) -> SpanView {
        match self {
            EventContent::CircuitBuilt { .. } => {
                SpanView::strong("\u{2699} CIRCUIT  "@, Tint::Cyan)
            },
            EventContent::CircuitReplaced { .. } => {
                SpanView::strong("\u{2699} REPLACE  "@, Tint::Yellow)
            },
            EventContent::CircuitClosed { .. } => {
                SpanView::strong("\u{2717} CLOSED   "@, Tint::Red)
            },
            EventContent::Socks5Accept { .. } => {
                SpanView::strong("\u{2190} SOCKS5   "@, Tint::Blue)
            },
            EventContent::StreamBegin { .. } => {
                SpanView::strong("\u{2192} BEGIN    "@, Tint::Yellow)
            },
            EventContent::StreamConnected { .. } => {
                SpanView::strong("\u{2190} CONNECT  "@, Tint::Green)
            },
            EventContent::StreamData { direction: Direction::Forward, .. } => {
                SpanView::tinted("\u{2192} DATA\u{2192}   "@, Tint::White)
            },
            EventContent::StreamData { direction: Direction::Backward, .. } => {
                SpanView::tinted("\u{2190} DATA\u{2190}   "@, Tint::Gray)
            },
            EventContent::StreamEnd { .. } => {
                SpanView::tinted("\u{2014} END      "@, Tint::DarkGray)
            },
            EventContent::Error { .. } => SpanView::strong("\u{2717} ERROR    "@, Tint::Red),
        }
    }

    /// The details of the event in the activity log.
    pub open spec fn detail(self) -> SpanView {
        match self {
            EventContent::CircuitBuilt { circuit_id, path } => {
                SpanView::plain("Built "@ + cid_text(circuit_id) + " ["@ + path + "]"@)
            },
            EventContent::CircuitReplaced { old_id, new_id } => {
                SpanView::plain(cid_text(old_id) + " \u{2192} "@ + cid_text(new_id))
            },
            EventContent::CircuitClosed { circuit_id } => SpanView::plain(cid_text(circuit_id)),
            EventContent::Socks5Accept { addr, destination } => {
                SpanView::plain(addr + " \u{2192} "@ + destination)
            },
            EventContent::StreamBegin { circuit_id, stream_id, destination } => {
                SpanView::plain(sid_text(circuit_id, stream_id) + " \u{2192} "@ + destination)
            },
            EventContent::StreamConnected { circuit_id, stream_id } => {
                SpanView::plain(sid_text(circuit_id, stream_id))
            },
            EventContent::StreamData { circuit_id, stream_id, bytes, direction } => {
                SpanView::plain(
                    sid_text(circuit_id, stream_id) + " ["@ + scaled_text(
                        bytes as u64,
                        Seq::empty(),
                    ) + " "@ + direction.text() + "]"@,
                )
            },
            EventContent::StreamEnd { circuit_id, stream_id } => {
                SpanView::plain(sid_text(circuit_id, stream_id))
            },
            EventContent::Error { message } => SpanView::tinted(message, Tint::Red),
        }
    }
}

/// The line of the activity log for an event.
pub open spec fn event_line(event: TuiEvent<EventKind>) -> EventLineView {
    EventLineView {
        time: time_span(event.elapsed),
        label: event.kind@.label(),
        detail: event.kind@.detail(),
    }
}

/// The label of an event in the activity log.
fn show_label(kind: &EventKind) -> (r: Span)
    ensures
        r@ == kind@.label(),
{
    match kind {
        EventKind::CircuitBuilt { .. } => {
            Span::strong("\u{2699} CIRCUIT  ".to_owned(), Tint::Cyan)
        },
        EventKind::CircuitReplaced { .. } => {
            Span::strong("\u{2699} REPLACE  ".to_owned(), Tint::Yellow)
        },
        EventKind::CircuitClosed { .. } => {
            Span::strong("\u{2717} CLOSED   ".to_owned(), Tint::Red)
        },
        EventKind::Socks5Accept { .. } => {
            Span::strong("\u{2190} SOCKS5   ".to_owned(), Tint::Blue)
        },
        EventKind::StreamBegin { .. } => {
            Span::strong("\u{2192} BEGIN    ".to_owned(), Tint::Yellow)
        },
        EventKind::StreamConnected { .. } => {
            Span::strong("\u{2190} CONNECT  ".to_owned(), Tint::Green)
        },
        EventKind::StreamData { direction, .. } => match direction {
            Direction::Forward => {
                Span::tinted("\u{2192} DATA\u{2192}   ".to_owned(), Tint::White)
            },
            Direction::Backward => {
                Span::tinted("\u{2190} DATA\u{2190}   ".to_owned(), Tint::Gray)
            },
        },
        EventKind::StreamEnd { .. } => {
            Span::tinted("\u{2014} END      ".to_owned(), Tint::DarkGray)
        },
        EventKind::Error { .. } => Span::strong("\u{2717} ERROR    ".to_owned(), Tint::Red),
    }
}

/// The details of an event in the activity log.
fn show_detail(kind: &EventKind) -> (r: Span)
    ensures
        r@ == kind@.detail(),
{
    let mut s = String::new();
    match kind {
        EventKind::CircuitBuilt { circuit_id, path } => {
            s.append("Built ");
            push_cid(&mut s, *circuit_id);
            s.append(" [");
            s.append(path.as_str());
            s.append("]");
        },
        EventKind::CircuitReplaced { old_id, new_id } => {
            push_cid(&mut s, *old_id);
            s.append(" \u{2192} ");
            push_cid(&mut s, *new_id);
        },
        EventKind::CircuitClosed { circuit_id } => {
            push_cid(&mut s, *circuit_id);
        },
        EventKind::Socks5Accept { addr, destination } => {
            s.append(addr.as_str());
            s.append(" \u{2192} ");
            s.append(destination.as_str());
        },
        EventKind::StreamBegin { circuit_id, stream_id, destination } => {
            push_sid(&mut s, *circuit_id, *stream_id);
            s.append(" \u{2192} ");
            s.append(destination.as_str());
        },
        EventKind::StreamConnected { circuit_id, stream_id } => {
            push_sid(&mut s, *circuit_id, *stream_id);
        },
        EventKind::StreamData { circuit_id, stream_id, bytes, direction } => {
            push_sid(&mut s, *circuit_id, *stream_id);
            s.append(" [");
            s.append(format_bytes(*bytes as u64).as_str());
            s.append(" ");
            s.append(direction.to_string().as_str());
            s.append("]");
        },
        EventKind::StreamEnd { circuit_id, stream_id } => {
            push_sid(&mut s, *circuit_id, *stream_id);
        },
        EventKind::Error { message } => {
            return Span::tinted(message.clone(), Tint::Red);
        },
    }
    proof {
        assert(s@ =~= kind@.detail().text);
    }
    Span::plain(s)
}

/// The line of the activity log for an event.
pub fn format_event(event: &TuiEvent<EventKind>) -> (r: EventLine)
    ensures
        r@ == event_line(*event),
{
    EventLine {
        time: show_time(event.elapsed),
        label: show_label(&event.kind),
        detail: show_detail(&event.kind),
    }
}

/// The lines of the activity log, oldest first.
pub fn collect_event_lines(metrics: &ClientMetrics) -> (r: Vec<EventLine>)
    ensures
        lines_of(r@) == metrics.events@.map_values(|e: TuiEvent<EventKind>| event_line(e)),
{
    let n = metrics.events.len();
    let mut r: Vec<EventLine> = Vec::new();
    while r.len() < n
        invariant
            n == metrics.events@.len(),
            r@.len() <= n,
            forall|i: int| 0 <= i < r@.len() ==> (#[trigger] r@[i])@ == event_line(
                metrics.events@[i],
            ),
        decreases n - r@.len(),
    {
        r.push(format_event(metrics.events.get(r.len())));
    }
    proof {
        assert(lines_of(r@) =~= metrics.events@.map_values(
            |e: TuiEvent<EventKind>| event_line(e),
        ));
    }
    r
}

/// The row of a circuit.
#[derive(Debug)]
pub struct CircuitRow {
    pub circuit_id: String,
    pub state: String,
    pub state_tint: Tint,
    pub streams: String,
    pub age: String,
    pub path: String,
}

/// The row of a circuit.
#[verifier::ext_equal]
pub struct CircuitRowView {
    pub circuit_id: Seq<char>,
    pub state: Seq<char>,
    pub state_tint: Tint,
    pub streams: Seq<char>,
    pub age: Seq<char>,
    pub path: Seq<char>,
}

impl View for CircuitRow {
    type V = CircuitRowView;

    open spec fn view(&self) -> CircuitRowView {
        CircuitRowView {
            circuit_id: self.circuit_id@,
            state: self.state@,
            state_tint: self.state_tint,
            streams: self.streams@,
            age: self.age@,
            path: self.path@,
        }
    }
}

/// The name and the colour of a circuit's state.
pub open spec fn state_badge(state: CircuitState) -> (Seq<char>, Tint) {
    match state {
        CircuitState::Building => ("Building"@, Tint::Yellow),
        CircuitState::Ready => ("Ready"@, Tint::Green),
        CircuitState::Closing => ("Closing"@, Tint::Magenta),
        CircuitState::Closed => ("Closed"@, Tint::Red),
    }
}

/// The row of a circuit of this age, if the age is known.
pub open spec fn row_of(circuit: CircuitView, age: Option<Elapsed>) -> CircuitRowView {
    CircuitRowView {
        circuit_id: zero_padded(circuit.circuit_id as nat, 5),
        state: state_badge(circuit.state).0,
        state_tint: state_badge(circuit.state).1,
        streams: dec_text(circuit.streams.len()),
        age: match age {
            Some(a) => dec_text(a.secs as nat) + "s"@,
            None => Seq::empty(),
        },
        path: match circuit.path_display {
            Some(p) => p,
            None => "unknown"@,
        },
    }
}

/// The row of a circuit of this age, if the age is known.
pub fn circuit_row(circuit: &Circuit, age: Option<Elapsed>) -> (r: CircuitRow)
    ensures
        r@ == row_of(circuit@, age),
{
    let (state, state_tint) = match circuit.state {
        CircuitState::Building => ("Building".to_owned(), Tint::Yellow),
        CircuitState::Ready => ("Ready".to_owned(), Tint::Green),
        CircuitState::Closing => ("Closing".to_owned(), Tint::Magenta),
        CircuitState::Closed => ("Closed".to_owned(), Tint::Red),
    };
    let age = match age {
        Some(a) => {
            let mut s = dec(a.secs);
            s.append("s");
            s
        },
        None => String::new(),
    };
    let path = match &circuit.path_display {
        Some(p) => p.clone(),
        None => "unknown".to_owned(),
    };
    CircuitRow {
        circuit_id: pad_zeros(circuit.circuit_id as u64, 5),
        state,
        state_tint,
        streams: dec(circuit.active_stream_count() as u64),
        age,
        path,
    }
}

/// The views of a sequence of rows.
pub open spec fn rows_of(v: Seq<CircuitRow>) -> Seq<CircuitRowView> {
    Seq::new(v.len(), |i: int| v[i]@)
}

/// How many of the rows are those of ready circuits.
pub open spec fn ready_count(rows: Seq<CircuitRowView>) -> nat
    decreases rows.len(),
{
    if rows.len() == 0 {
        0
    } else {
        ready_count(rows.drop_last()) + (if rows.last().state == "Ready"@ {
            1nat
        } else {
            0nat
        })
    }
}

/// How many of the rows are those of ready circuits.
pub fn count_ready(rows: &[CircuitRow]) -> (n: usize)
    ensures
        n == ready_count(rows_of(rows@)),
        n <= rows@.len(),
{
    let ghost all = rows_of(rows@);
    let mut n: usize = 0;
    let mut i: usize = 0;
    while i < rows.len()
        invariant
            all == rows_of(rows@),
            i <= rows.len(),
            n <= i,
            n == ready_count(all.take(i as int)),
        decreases rows.len() - i,
    {
        proof {
            assert(all.take(i as int + 1).drop_last() =~= all.take(i as int));
        }
        if same(rows[i].state.as_str(), "Ready") {
            n += 1;
        }
        i += 1;
    }
    proof {
        assert(all.take(i as int) =~= all);
    }
    n
}

/// The header of the dashboard: the address of the proxy, how long the client runs, how many of
/// its circuits are ready, and the counters.
pub fn build_header(metrics: &ClientMetrics, socks_addr: &str, rows: &[CircuitRow], uptime: Elapsed) -> (s:
    String)
    ensures
        s@ == " TOR CLIENT  |  SOCKS5: "@ + socks_addr@ + "  |  Up: "@ + duration_text(uptime.secs)
            + "  |  Pool: "@ + dec_text(ready_count(rows_of(rows@))) + "/"@ + dec_text(rows@.len())
            + " ready  |  Conns: "@ + dec_text(metrics.connections_accepted as nat)
            + "  |  \u{2191} "@ + scaled_text(metrics.bytes_sent, Seq::empty())
            + "  |  \u{2193} "@ + scaled_text(metrics.bytes_received, Seq::empty()),
{
    let mut s = " TOR CLIENT  |  SOCKS5: ".to_owned();
    s.append(socks_addr);
    s.append("  |  Up: ");
    s.append(format_duration(uptime).as_str());
    s.append("  |  Pool: ");
    push_dec(&mut s, count_ready(rows) as u64);
    s.append("/");
    push_dec(&mut s, rows.len() as u64);
    s.append(" ready  |  Conns: ");
    push_dec(&mut s, metrics.connections_accepted);
    s.append("  |  \u{2191} ");
    s.append(format_bytes(metrics.bytes_sent).as_str());
    s.append("  |  \u{2193} ");
    s.append(format_bytes(metrics.bytes_received).as_str());
    s
}

/// The rows count as ready exactly the circuits that are: the count over two tables is the sum of
/// their counts, and a row counts if its circuit is ready.
pub proof fn ready_circuits_are_counted(
    a: Seq<CircuitRowView>,
    b: Seq<CircuitRowView>,
    circuit: CircuitView,
    age: Option<Elapsed>,
)
    ensures
        ready_count(a + b) == ready_count(a) + ready_count(b),
        ready_count(seq![row_of(circuit, age)]) == (if circuit.state == CircuitState::Ready {
            1nat
        } else {
            0
        }),
        ready_count(a) <= a.len(),
    decreases a.len() + b.len(),
{
    reveal_with_fuel(ready_count, 2);
    let row = seq![row_of(circuit, age)];
    assert(row.drop_last() =~= Seq::<CircuitRowView>::empty());
    reveal_strlit("Ready");
    reveal_strlit("Building");
    reveal_strlit("Closing");
    reveal_strlit("Closed");
    assert("Ready"@.len() == 5 && "Building"@.len() == 8 && "Closing"@.len() == 7
        && "Closed"@.len() == 6);
    if b.len() > 0 {
        ready_circuits_are_counted(a, b.drop_last(), circuit, age);
        assert((a + b).drop_last() =~= a + b.drop_last());
    } else {
        assert(a + b =~= a);
        if a.len() > 0 {
            ready_circuits_are_counted(a.drop_last(), b, circuit, age);
        }
    }
}

}
