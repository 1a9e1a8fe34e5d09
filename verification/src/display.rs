//! What the dashboards in the terminal are made of.

use crate::metrics::clock_text;
use crate::metrics::push_clock;
use crate::metrics::Elapsed;
use crate::text::dec_text;
use crate::text::push_dec;
use vstd::prelude::*;
use vstd::string::*;

verus! {

/// A colour of the terminal, or none.
#[derive(Debug, Clone, Copy, PartialEq, Eq, Structural)]
pub enum Tint {
    Plain,
    Black,
    Red,
    Green,
    Yellow,
    Blue,
    Magenta,
    Cyan,
    Gray,
    DarkGray,
    White,
}

/// A piece of text in one style.
#[derive(Debug)]
pub struct Span {
    pub text: String,
    pub tint: Tint,
    pub background: Tint,
    pub bold: bool,
}

/// A piece of text in one style.
#[verifier::ext_equal]
pub struct SpanView {
    pub text: Seq<char>,
    pub tint: Tint,
    pub background: Tint,
    pub bold: bool,
}

impl View for Span {
    type V = SpanView;

    open spec fn view(&self) -> SpanView {
        SpanView {
            text: self.text@,
            tint: self.tint,
            background: self.background,
            bold: self.bold,
        }
    }
}

impl SpanView {
    /// Text in no style.
    pub open spec fn plain(text: Seq<char>) -> SpanView {
        SpanView { text, tint: Tint::Plain, background: Tint::Plain, bold: false }
    }

    /// Text in a colour.
    pub open spec fn tinted(text: Seq<char>, tint: Tint) -> SpanView {
        SpanView { text, tint, background: Tint::Plain, bold: false }
    }

    /// Bold text in a colour.
    pub open spec fn strong(text: Seq<char>, tint: Tint) -> SpanView {
        SpanView { text, tint, background: Tint::Plain, bold: true }
    }
}

impl Span {
    /// Text in no style.
    pub fn plain(text: String) -> (r: Self)
        ensures
            r@ == SpanView::plain(text@),
    {
        Self { text, tint: Tint::Plain, background: Tint::Plain, bold: false }
    }

    /// Text in a colour.
    pub fn tinted(text: String, tint: Tint) -> (r: Self)
        ensures
            r@ == SpanView::tinted(text@, tint),
    {
        Self { text, tint, background: Tint::Plain, bold: false }
    }

    /// Bold text in a colour.
    pub fn strong(text: String, tint: Tint) -> (r: Self)
        ensures
            r@ == SpanView::strong(text@, tint),
    {
        Self { text, tint, background: Tint::Plain, bold: true }
    }
}

/// The views of a sequence of spans.
pub open spec fn spans_of(v: Seq<Span>) -> Seq<SpanView> {
    Seq::new(v.len(), |i: int| v[i]@)
}

/// A line of the activity log.
#[derive(Debug)]
pub struct EventLine {
    pub time: Span,
    pub label: Span,
    pub detail: Span,
}

/// A line of the activity log.
#[verifier::ext_equal]
pub struct EventLineView {
    pub time: SpanView,
    pub label: SpanView,
    pub detail: SpanView,
}

impl View for EventLine {
    type V = EventLineView;

    open spec fn view(&self) -> EventLineView {
        EventLineView { time: self.time@, label: self.label@, detail: self.detail@ }
    }
}

/// The time of an event as the activity log shows it.
pub open spec fn time_span(elapsed: Elapsed) -> SpanView {
    SpanView::tinted(" +"@ + clock_text(elapsed.secs) + " "@, Tint::DarkGray)
}

/// The time of an event as the activity log shows it.
pub fn show_time(elapsed: Elapsed) -> (r: Span)
    ensures
        r@ == time_span(elapsed),
{
    let mut text = " +".to_owned();
    push_clock(&mut text, elapsed.secs);
    text.append(" ");
    Span::tinted(text, Tint::DarkGray)
}

/// The first of `total` lines that is shown in a box of this height, of which the frame takes two
/// lines.
pub open spec fn first_shown(total: int, height: int) -> int {
    let room = if height >= 2 {
        height - 2
    } else {
        0
    };
    if total > room {
        total - room
    } else {
        0
    }
}

/// The first of `total` lines that is shown in a box of this height, of which the frame takes two
/// lines: the last lines are shown.
pub fn first_visible(total: usize, height: u16) -> (skip: usize)
    ensures
        skip == (if height >= 2 && total > height - 2 {
            total - (height - 2)
        } else if height < 2 {
            total as int
        } else {
            0
        }),
        skip == first_shown(total as int, height as int),
{
    let visible: usize = if height >= 2 {
        (height - 2) as usize
    } else {
        0
    };
    if total > visible {
        total - visible
    } else {
        0
    }
}

/// Whether a key ends the dashboard: `q`, or `c` with the control key.
pub fn quits(key: char, control: bool) -> (r: bool)
    ensures
        r == (key == 'q' || key == 'Q' || (key == 'c' && control)),
{
    key == 'q' || key == 'Q' || (key == 'c' && control)
}

/// The title of the activity log.
pub fn log_title(total: usize) -> (s: String)
    ensures
        s@ == " Activity Log ("@ + dec_text(total as nat) + " events) "@,
{
    let mut s = " Activity Log (".to_owned();
    push_dec(&mut s, total as u64);
    s.append(" events) ");
    s
}

/// A box shows the last lines, and as many as fit between its frame: all of them if they fit, and
/// otherwise as many as there is room for.
pub proof fn boxes_show_the_last_lines(total: nat, height: nat)
    ensures
        0 <= first_shown(total as int, height as int) <= total,
        height >= 2 && total <= height - 2 ==> first_shown(total as int, height as int) == 0,
        height >= 2 && total >= height - 2 ==> total - first_shown(total as int, height as int)
            == height - 2,
        height < 2 ==> first_shown(total as int, height as int) == total,
{
}

}
