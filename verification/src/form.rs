//! The setup forms: how their rows read and which keys they know.

use crate::display::spans_of;
use crate::display::Span;
use crate::display::SpanView;
use crate::display::Tint;
use crate::text::align_left;
use crate::text::begins_with;
use crate::text::left_aligned;
use crate::text::opt_text;
use vstd::prelude::*;
use vstd::string::*;

verus! {

/// A key on the keyboard.
#[derive(Debug, Clone, Copy, PartialEq, Eq, Structural)]
pub enum FormKey {
    Escape,
    Up,
    Down,
    Left,
    Right,
    Backspace,
    Enter,
    Char(char),
    Other,
}

/// Whether a directory's URL is one that the form takes.
pub open spec fn is_url(url: Seq<char>) -> bool {
    "http://"@.is_prefix_of(url) || "https://"@.is_prefix_of(url)
}

/// Whether a directory's URL is one that the form takes.
pub fn check_url(url: &str) -> (r: bool)
    ensures
        r == is_url(url@),
{
    begins_with(url, "http://") || begins_with(url, "https://")
}

/// A piece of a row in front of its value.
pub open spec fn heading(text: Seq<char>, focused: bool) -> SpanView {
    if focused {
        SpanView::strong(text, Tint::Plain)
    } else {
        SpanView::plain(text)
    }
}

/// The mark in front of a row.
pub open spec fn mark(focused: bool) -> Seq<char> {
    if focused {
        "\u{25b6} "@
    } else {
        "  "@
    }
}

/// The row of a field that text is typed into.
pub open spec fn text_row(
    label: Seq<char>,
    width: nat,
    value: Seq<char>,
    focused: bool,
) -> Seq<SpanView> {
    seq![
        heading(mark(focused), focused),
        heading(left_aligned(label, width), focused),
        if focused {
            SpanView::tinted(value, Tint::Yellow)
        } else {
            SpanView::plain(value)
        },
        SpanView::tinted(
            if focused {
                "\u{2588}"@
            } else {
                ""@
            },
            Tint::Yellow,
        ),
    ]
}

/// The row of a field with a choice of values.
pub open spec fn choice_row(
    label: Seq<char>,
    width: nat,
    value: Seq<char>,
    focused: bool,
) -> Seq<SpanView> {
    seq![
        heading(mark(focused), focused),
        heading(left_aligned(label, width), focused),
        if focused {
            SpanView::strong(value, Tint::Cyan)
        } else {
            SpanView::plain(value)
        },
    ]
}

fn show_heading(text: String, focused: bool) -> (r: Span)
    ensures
        r@ == heading(text@, focused),
{
    if focused {
        Span::strong(text, Tint::Plain)
    } else {
        Span::plain(text)
    }
}

fn show_mark(focused: bool) -> (r: Span)
    ensures
        r@ == heading(mark(focused), focused),
{
    if focused {
        show_heading("\u{25b6} ".to_owned(), focused)
    } else {
        show_heading("  ".to_owned(), focused)
    }
}

/// The row of a field that text is typed into.
pub fn show_text_row(label: &str, width: usize, value: String, focused: bool) -> (r: Vec<Span>)
    ensures
        spans_of(r@) == text_row(label@, width as nat, value@, focused),
{
    let mut r: Vec<Span> = Vec::new();
    r.push(show_mark(focused));
    r.push(show_heading(align_left(label, width), focused));
    if focused {
        r.push(Span::tinted(value, Tint::Yellow));
        r.push(Span::tinted("\u{2588}".to_owned(), Tint::Yellow));
    } else {
        r.push(Span::plain(value));
        r.push(Span::tinted("".to_owned(), Tint::Yellow));
    }
    proof {
        assert(spans_of(r@) =~= text_row(label@, width as nat, value@, focused));
    }
    r
}

/// The row of a field with a choice of values.
pub fn show_choice_row(label: &str, width: usize, value: String, focused: bool) -> (r: Vec<Span>)
    ensures
        spans_of(r@) == choice_row(label@, width as nat, value@, focused),
{
    let mut r: Vec<Span> = Vec::new();
    r.push(show_mark(focused));
    r.push(show_heading(align_left(label, width), focused));
    if focused {
        r.push(Span::strong(value, Tint::Cyan));
    } else {
        r.push(Span::plain(value));
    }
    proof {
        assert(spans_of(r@) =~= choice_row(label@, width as nat, value@, focused));
    }
    r
}

/// The line below the form: what is wrong with it, or that nothing is.
pub open spec fn status_line(error: Option<Seq<char>>) -> Seq<SpanView> {
    match error {
        Some(text) => seq![
            SpanView::strong("\u{2717} "@, Tint::Red),
            SpanView::tinted(text, Tint::Red),
        ],
        None => seq![
            SpanView::strong("\u{2713} "@, Tint::Green),
            SpanView::tinted("Ready"@, Tint::Green),
        ],
    }
}

/// The line below the form: what is wrong with it, or that nothing is.
pub fn show_status(error: &Option<String>) -> (r: Vec<Span>)
    ensures
        spans_of(r@) == status_line(opt_text(*error)),
{
    let mut r: Vec<Span> = Vec::new();
    match error {
        Some(text) => {
            r.push(Span::strong("\u{2717} ".to_owned(), Tint::Red));
            r.push(Span::tinted(text.clone(), Tint::Red));
        },
        None => {
            r.push(Span::strong("\u{2713} ".to_owned(), Tint::Green));
            r.push(Span::tinted("Ready".to_owned(), Tint::Green));
        },
    }
    proof {
        assert(spans_of(r@) =~= status_line(opt_text(*error)));
    }
    r
}

}
