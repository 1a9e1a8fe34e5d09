//! Event buffers and the formatting of figures for display.

use crate::text::dec2_text;
use crate::text::dec_text;
use crate::text::digit_char;
use crate::text::push_dec;
use crate::text::push_dec2;
use std::collections::VecDeque;
use vstd::arithmetic::div_mod::lemma_fundamental_div_mod_converse;
use vstd::prelude::*;
use vstd::string::*;

verus! {

/// A span of time, or a reading of a monotonic clock.
#[derive(Debug, Clone, Copy, PartialEq, Eq, Structural)]
pub struct Elapsed {
    pub secs: u64,
    /// Nanoseconds beyond the whole seconds, below one billion.
    pub nanos: u32,
}

impl Elapsed {
    /// The nanoseconds stay below one second.
    pub open spec fn wf(self) -> bool {
        self.nanos < 1_000_000_000
    }

    /// The whole span in nanoseconds.
    pub open spec fn total(self) -> int {
        self.secs * 1_000_000_000 + self.nanos
    }

    /// Whether this is the time from `start` to `now`, or no time if `start` is later.
    pub open spec fn runs(self, start: Elapsed, now: Elapsed) -> bool {
        &&& self.wf()
        &&& self.total() == (if now.total() >= start.total() {
            now.total() - start.total()
        } else {
            0
        })
    }

    /// A span of whole seconds.
    pub fn from_secs(secs: u64) -> (r: Elapsed)
        ensures
            r == (Elapsed { secs, nanos: 0 }),
            r.wf(),
    {
        Elapsed { secs, nanos: 0 }
    }

    /// Whether this reading comes before the other one.
    pub fn earlier_than(&self, other: Elapsed) -> (r: bool)
        requires
            self.wf(),
            other.wf(),
        ensures
            r == (self.total() < other.total()),
    {
        self.secs < other.secs || (self.secs == other.secs && self.nanos < other.nanos)
    }

    /// The time from `start` to this reading, or none if `start` is later.
    pub fn since(&self, start: Elapsed) -> (r: Elapsed)
        requires
            self.wf(),
            start.wf(),
        ensures
            r.runs(start, *self),
    {
        if self.secs < start.secs || (self.secs == start.secs && self.nanos < start.nanos) {
            Elapsed { secs: 0, nanos: 0 }
        } else if self.nanos >= start.nanos {
            Elapsed { secs: self.secs - start.secs, nanos: self.nanos - start.nanos }
        } else {
            Elapsed {
                secs: self.secs - start.secs - 1,
                nanos: self.nanos + (1_000_000_000 - start.nanos),
            }
        }
    }
}

/// An event and the time at which it happened.
#[derive(Debug)]
pub struct TuiEvent<E> {
    pub elapsed: Elapsed,
    pub kind: E,
}

/// A buffer of the latest events, never more than its capacity. When it is full, the oldest event
/// makes room for a new one; where the capacity is zero, nothing is kept.
pub struct EventBuffer<E> {
    events: VecDeque<TuiEvent<E>>,
    capacity: usize,
    start: Elapsed,
}

/// The events after one more: at capacity the oldest leaves. Where the capacity is zero, nothing is
/// kept.
pub open spec fn pushed<A>(events: Seq<A>, capacity: nat, event: A) -> Seq<A> {
    if capacity == 0 {
        events
    } else if events.len() >= capacity {
        events.skip(1).push(event)
    } else {
        events.push(event)
    }
}

impl<E> View for EventBuffer<E> {
    type V = Seq<TuiEvent<E>>;

    closed spec fn view(&self) -> Seq<TuiEvent<E>> {
        self.events@
    }
}

impl<E> EventBuffer<E> {
    /// The most events that the buffer holds.
    pub closed spec fn capacity(&self) -> nat {
        self.capacity as nat
    }

    /// The clock reading that event times are counted from.
    pub closed spec fn started(&self) -> Elapsed {
        self.start
    }

    /// The clock reading is a valid one, and the buffer holds no more events than it may.
    pub open spec fn wf(&self) -> bool {
        &&& self.started().wf()
        &&& self@.len() <= self.capacity()
    }

    /// An empty buffer, made when the clock shows `now`.
    pub fn new(capacity: usize, now: Elapsed) -> (r: Self)
        requires
            now.wf(),
        ensures
            r.wf(),
            r@ == Seq::<TuiEvent<E>>::empty(),
            r.capacity() == capacity,
            r.started() == now,
    {
        Self { events: VecDeque::new(), capacity, start: now }
    }

    /// Adds an event that happens when the clock shows `now`. At capacity the oldest one leaves.
    /// Where the capacity is zero, nothing is kept.
    pub fn push(&mut self, now: Elapsed, kind: E)
        requires
            old(self).wf(),
            now.wf(),
        ensures
            final(self).wf(),
            final(self).capacity() == old(self).capacity(),
            final(self).started() == old(self).started(),
            final(self)@ == pushed(old(self)@, old(self).capacity(), final(self)@.last()),
            old(self).capacity() > 0 ==> {
                &&& final(self)@.len() > 0
                &&& final(self)@.last().kind == kind
                &&& final(self)@.last().elapsed.runs(old(self).started(), now)
            },
    {
        if self.capacity == 0 {
            return;
        }
        let elapsed = now.since(self.start);
        let ghost before = self.events@;
        if self.events.len() >= self.capacity {
            let _oldest = self.events.pop_front();
        }
        let event = TuiEvent { elapsed, kind };
        self.events.push_back(event);
        proof {
            assert(self.events@.last() == event);
            assert(self.events@ =~= pushed(before, self.capacity as nat, event));
        }
    }

    /// Maps the events, oldest first.
    pub fn snapshot<F, T>(&self, map_fn: F) -> (r: Vec<T>) where F: Fn(&TuiEvent<E>) -> T
        requires
            forall|i: int|
                0 <= i < self@.len() ==> call_requires(map_fn, (&#[trigger] self@[i],)),
        ensures
            r@.len() == self@.len(),
            forall|i: int|
                0 <= i < self@.len() ==> call_ensures(map_fn, (&self@[i],), #[trigger] r@[i]),
    {
        let mut r: Vec<T> = Vec::new();
        let mut i: usize = 0;
        while i < self.events.len()
            invariant
                i <= self.events@.len(),
                r@.len() == i,
                forall|j: int|
                    0 <= j < self@.len() ==> call_requires(map_fn, (&#[trigger] self@[j],)),
                forall|j: int| 0 <= j < i ==> call_ensures(map_fn, (&self@[j],), #[trigger] r@[j]),
            decreases self.events@.len() - i,
        {
            proof {
                assert(self@[i as int] == self.events@[i as int]);
            }
            let mapped = map_fn(&self.events[i]);
            r.push(mapped);
            i += 1;
        }
        r
    }

    /// The event number `i`, oldest first.
    pub fn get(&self, i: usize) -> (r: &TuiEvent<E>)
        requires
            i < self@.len(),
        ensures
            *r == self@[i as int],
    {
        &self.events[i]
    }

    /// The number of events held.
    pub fn len(&self) -> (r: usize)
        ensures
            r == self@.len(),
    {
        self.events.len()
    }

    /// Whether the buffer holds no event.
    pub fn is_empty(&self) -> (r: bool)
        ensures
            r == (self@.len() == 0),
    {
        self.events.len() == 0
    }

    /// The clock reading that event times are counted from.
    pub fn start_time(&self) -> (r: Elapsed)
        ensures
            r == self.started(),
    {
        self.start
    }
}

/// The latest `most` events, newest first.
pub open spec fn newest_first<A>(events: Seq<A>, most: nat) -> Seq<A> {
    Seq::new(
        if events.len() < most {
            events.len()
        } else {
            most
        },
        |i: int| events[events.len() - 1 - i],
    )
}

/// The contents of a buffer after a sequence of events, from the empty buffer on.
pub open spec fn buffered<A>(capacity: nat, events: Seq<A>) -> Seq<A>
    decreases events.len(),
{
    if events.len() == 0 {
        Seq::empty()
    } else {
        pushed(buffered(capacity, events.drop_last()), capacity, events.last())
    }
}

/// A buffer holds the newest events, in the order in which they came, and never more than its
/// capacity.
pub proof fn buffer_keeps_the_newest<A>(capacity: nat, events: Seq<A>)
    ensures
        buffered(capacity, events) == (if events.len() <= capacity {
            events
        } else {
            events.skip(events.len() - capacity)
        }),
    decreases events.len(),
{
    if events.len() > 0 {
        buffer_keeps_the_newest(capacity, events.drop_last());
        let result = buffered(capacity, events);
        if events.len() <= capacity {
            assert(result =~= events);
        } else {
            assert(result =~= events.skip(events.len() - capacity));
        }
    } else {
        assert(buffered(capacity, events) =~= events);
    }
}

/// The way that data flows through a circuit.
#[derive(Debug, Clone, Copy, PartialEq, Eq, Structural)]
pub enum Direction {
    Forward,
    Backward,
}

impl Direction {
    /// The short name of the direction.
    pub open spec fn text(self) -> Seq<char> {
        match self {
            Direction::Forward => "fwd"@,
            Direction::Backward => "bwd"@,
        }
    }

    /// The short name of the direction.
    pub fn to_string(&self) -> (s: String)
        ensures
            s@ == self.text(),
    {
        match self {
            Direction::Forward => "fwd".to_owned(),
            Direction::Backward => "bwd".to_owned(),
        }
    }
}

pub const KB: u64 = 1024;

pub const MB: u64 = 1048576;

pub const GB: u64 = 1073741824;

/// The integer nearest to `n / d`; of two that are equally near, the even one.
pub open spec fn round_half_even(n: nat, d: nat) -> nat {
    let q = n / d;
    let r = n % d;
    if 2 * r > d || (2 * r == d && q % 2 == 1) {
        q + 1
    } else {
        q
    }
}

/// The distance between neighbouring double-precision numbers around `n`, where it is at least
/// one.
pub open spec fn double_step(n: nat) -> nat
    decreases n,
{
    if n < 9007199254740992 {
        1
    } else {
        2 * double_step(n / 2)
    }
}

/// The double-precision number nearest to `n`.
pub open spec fn as_double(n: nat) -> nat {
    round_half_even(n, double_step(n)) * double_step(n)
}

/// `n / unit`, rounded to one decimal.
pub open spec fn one_decimal(n: nat, unit: nat) -> Seq<char> {
    let tenths = round_half_even(as_double(n) * 10, unit);
    dec_text(tenths / 10) + "."@ + seq![digit_char(tenths % 10)]
}

/// A number of bytes in the largest unit that it reaches, with one decimal, before `suffix`.
pub open spec fn scaled_text(bytes: u64, suffix: Seq<char>) -> Seq<char> {
    if bytes >= GB {
        one_decimal(bytes as nat, GB as nat) + " GB"@ + suffix
    } else if bytes >= MB {
        one_decimal(bytes as nat, MB as nat) + " MB"@ + suffix
    } else if bytes >= KB {
        one_decimal(bytes as nat, KB as nat) + " KB"@ + suffix
    } else {
        dec_text(bytes as nat) + " B"@ + suffix
    }
}

fn double_step_of(n: u64) -> (r: u64)
    ensures
        r == double_step(n as nat),
        r >= 1,
        r == 1 || r * 4503599627370496 <= n,
    decreases n,
{
    if n < 9007199254740992 {
        1
    } else {
        2 * double_step_of(n / 2)
    }
}

fn round_half_even_of(n: u128, d: u128) -> (r: u128)
    requires
        0 < d <= 1073741824,
        n < 200000000000000000000000,
    ensures
        r == round_half_even(n as nat, d as nat),
        r <= n + 1,
{
    let q = n / d;
    let rest = n % d;
    proof {
        assert(n / d <= n) by (nonlinear_arith)
            requires
                0 < d,
        ;
    }
    if 2 * rest > d || (2 * rest == d && q % 2 == 1) {
        q + 1
    } else {
        q
    }
}

fn push_one_decimal(s: &mut String, n: u64, unit: u64)
    requires
        1024 <= unit <= 1073741824,
    ensures
        final(s)@ == old(s)@ + one_decimal(n as nat, unit as nat),
{
    let ghost before = s@;
    let step = double_step_of(n);
    proof {
        assert(step <= 4096);
    }
    let count = round_half_even_of(n as u128, step as u128);
    proof {
        double_is_near(n as nat, step as nat);
    }
    let double = count * step as u128;
    let tenths = round_half_even_of(double * 10, unit as u128);
    proof {
        tenths_fit(double as nat * 10, unit as nat);
    }
    push_dec(s, (tenths / 10) as u64);
    s.append(".");
    push_dec(s, (tenths % 10) as u64);
    proof {
        assert(s@ =~= before + one_decimal(n as nat, unit as nat));
    }
}

/// Rounding to a multiple of `step` moves a number by less than `step`.
proof fn double_is_near(n: nat, step: nat)
    requires
        1 <= step <= 4096,
        n <= u64::MAX,
    ensures
        round_half_even(n, step) * step <= n + step,
{
    let q = n / step;
    assert(q * step <= n) by (nonlinear_arith)
        requires
            q == n / step,
            step >= 1,
    ;
    assert((q + 1) * step == q * step + step) by (nonlinear_arith);
}

proof fn tenths_fit(n: nat, unit: nat)
    requires
        n <= 10 * (u64::MAX + 4096),
        unit >= 1024,
    ensures
        round_half_even(n, unit) / 10 <= u64::MAX,
{
    let q = n / unit;
    assert(q <= n / 1024) by (nonlinear_arith)
        requires
            q == n / unit,
            unit >= 1024,
    ;
}

/// Appends a number of bytes in the largest unit that it reaches, and a suffix.
pub fn push_scaled(s: &mut String, bytes: u64, suffix: &str)
    ensures
        final(s)@ == old(s)@ + scaled_text(bytes, suffix@),
{
    let ghost before = s@;
    if bytes >= GB {
        push_one_decimal(s, bytes, GB);
        s.append(" GB");
    } else if bytes >= MB {
        push_one_decimal(s, bytes, MB);
        s.append(" MB");
    } else if bytes >= KB {
        push_one_decimal(s, bytes, KB);
        s.append(" KB");
    } else {
        push_dec(s, bytes);
        s.append(" B");
    }
    s.append(suffix);
    proof {
        assert(s@ =~= before + scaled_text(bytes, suffix@));
    }
}

/// A number of bytes for display, such as `1.5 KB`.
pub fn format_bytes(bytes: u64) -> (s: String)
    ensures
        s@ == scaled_text(bytes, Seq::empty()),
{
    let mut s = String::new();
    push_scaled(&mut s, bytes, "");
    proof {
        reveal_strlit("");
        assert(""@ =~= Seq::<char>::empty());
        assert(s@ =~= scaled_text(bytes, Seq::empty()));
    }
    s
}

/// A duration in compact form: seconds, minutes and seconds, or hours and minutes.
pub open spec fn duration_text(secs: u64) -> Seq<char> {
    if secs < 60 {
        dec_text(secs as nat) + "s"@
    } else if secs < 3600 {
        dec_text((secs / 60) as nat) + "m"@ + dec_text((secs % 60) as nat) + "s"@
    } else {
        dec_text((secs / 3600) as nat) + "h"@ + dec_text((secs % 3600 / 60) as nat) + "m"@
    }
}

/// Formats a duration in compact form, such as `2m30s`.
pub fn format_duration(d: Elapsed) -> (s: String)
    ensures
        s@ == duration_text(d.secs),
{
    let secs = d.secs;
    let mut s = String::new();
    if secs < 60 {
        push_dec(&mut s, secs);
        s.append("s");
    } else if secs < 3600 {
        push_dec(&mut s, secs / 60);
        s.append("m");
        push_dec(&mut s, secs % 60);
        s.append("s");
    } else {
        push_dec(&mut s, secs / 3600);
        s.append("h");
        push_dec(&mut s, secs % 3600 / 60);
        s.append("m");
    }
    proof {
        assert(s@ =~= duration_text(secs));
    }
    s
}

/// Hours, minutes and seconds, the last two with two digits.
pub open spec fn clock_text(secs: u64) -> Seq<char> {
    dec_text((secs / 3600) as nat) + ":"@ + dec2_text((secs % 3600 / 60) as nat) + ":"@
        + dec2_text((secs % 60) as nat)
}

/// Appends hours, minutes and seconds.
pub fn push_clock(s: &mut String, secs: u64)
    ensures
        final(s)@ == old(s)@ + clock_text(secs),
{
    let ghost before = s@;
    push_dec(s, secs / 3600);
    s.append(":");
    push_dec2(s, secs % 3600 / 60);
    s.append(":");
    push_dec2(s, secs % 60);
    proof {
        assert(s@ =~= before + clock_text(secs));
    }
}

/// Formats a duration as an offset, such as `+0:01:23`.
pub fn format_timestamp(d: Elapsed) -> (s: String)
    ensures
        s@ == "+"@ + clock_text(d.secs),
{
    let mut s = "+".to_owned();
    push_clock(&mut s, d.secs);
    s
}

/// A time span and its start add up to the reading at its end; where the start is later, no time has
/// gone by. There is one such span.
pub proof fn spans_add_up(span: Elapsed, other: Elapsed, start: Elapsed, now: Elapsed)
    requires
        span.runs(start, now),
        other.runs(start, now),
    ensures
        span == other,
        now.secs * 1_000_000_000 + now.nanos >= start.secs * 1_000_000_000 + start.nanos ==> (
        start.secs + span.secs) * 1_000_000_000 + start.nanos + span.nanos == now.secs
            * 1_000_000_000 + now.nanos,
        now.secs * 1_000_000_000 + now.nanos <= start.secs * 1_000_000_000 + start.nanos
            ==> span.secs == 0 && span.nanos == 0,
        span.nanos < 1_000_000_000,
{
}

/// One more event makes room for itself by dropping the oldest one at most: it stands last, what
/// stays keeps its order, and the buffer never holds more than it may.
pub proof fn one_more_event<A>(events: Seq<A>, capacity: nat, event: A)
    requires
        events.len() <= capacity,
    ensures
        ({
            let after = pushed(events, capacity, event);
            &&& after.len() <= capacity
            &&& capacity > 0 ==> after.last() == event && after.len() > 0
            &&& events.len() < capacity ==> after.drop_last() == events
            &&& 0 < events.len() == capacity ==> after.drop_last() == events.skip(1)
            &&& capacity == 0 ==> after.len() == 0
        }),
{
    let after = pushed(events, capacity, event);
    if events.len() < capacity {
        assert(after.drop_last() =~= events);
    } else if capacity > 0 {
        assert(after.drop_last() =~= events.skip(1));
    }
}

/// A clock shows the hours, the minutes and the seconds that make up the time.
pub proof fn clocks_show_the_time(hours: u64, minutes: u64, seconds: u64)
    requires
        minutes < 60,
        seconds < 60,
        hours * 3600 + minutes * 60 + seconds <= u64::MAX,
    ensures
        ({
            let secs = (hours * 3600 + minutes * 60 + seconds) as u64;
            &&& clock_text(secs) == dec_text(hours as nat) + ":"@ + dec2_text(minutes as nat)
                + ":"@ + dec2_text(seconds as nat)
            &&& hours > 0 ==> duration_text(secs) == dec_text(hours as nat) + "h"@ + dec_text(
                minutes as nat,
            ) + "m"@
            &&& hours == 0 && minutes > 0 ==> duration_text(secs) == dec_text(minutes as nat)
                + "m"@ + dec_text(seconds as nat) + "s"@
            &&& hours == 0 && minutes == 0 ==> duration_text(secs) == dec_text(seconds as nat)
                + "s"@
        }),
{
    parts_of_the_time(hours, minutes, seconds);
}

/// The hours, the minutes and the seconds are what divides the time.
pub proof fn parts_of_the_time(hours: u64, minutes: u64, seconds: u64)
    requires
        minutes < 60,
        seconds < 60,
        hours * 3600 + minutes * 60 + seconds <= u64::MAX,
    ensures
        ({
            let secs = (hours * 3600 + minutes * 60 + seconds) as u64;
            &&& secs / 3600 == hours
            &&& secs % 3600 / 60 == minutes
            &&& secs % 60 == seconds
            &&& secs / 60 == hours * 60 + minutes
        }),
{
    let secs = hours * 3600 + minutes * 60 + seconds;
    lemma_fundamental_div_mod_converse(
        secs,
        3600,
        hours as int,
        minutes * 60 + seconds,
    );
    lemma_fundamental_div_mod_converse(
        minutes * 60 + seconds,
        60,
        minutes as int,
        seconds as int,
    );
    lemma_fundamental_div_mod_converse(secs, 60, hours * 60 + minutes, seconds as int);
}

/// A number of bytes is shown in the largest unit that it reaches, and rounded to the nearest tenth
/// of it; below one kilobyte it is shown as it is.
pub proof fn sizes_are_shown_to_the_nearest_tenth(bytes: u64, suffix: Seq<char>)
    requires
        bytes < 9007199254740992,
    ensures
        bytes < 1024 ==> scaled_text(bytes, suffix) == dec_text(bytes as nat) + " B"@ + suffix,
        1024 <= bytes < 1048576 ==> exists|tenths: nat|
            {
                &&& #[trigger] near(tenths, bytes, 1024)
                &&& scaled_text(bytes, suffix) == dec_text(tenths / 10) + "."@ + seq![
                    digit_char(tenths % 10),
                ] + " KB"@ + suffix
            },
        1048576 <= bytes < 1073741824 ==> exists|tenths: nat|
            {
                &&& #[trigger] near(tenths, bytes, 1048576)
                &&& scaled_text(bytes, suffix) == dec_text(tenths / 10) + "."@ + seq![
                    digit_char(tenths % 10),
                ] + " MB"@ + suffix
            },
        1073741824 <= bytes ==> exists|tenths: nat|
            {
                &&& #[trigger] near(tenths, bytes, 1073741824)
                &&& scaled_text(bytes, suffix) == dec_text(tenths / 10) + "."@ + seq![
                    digit_char(tenths % 10),
                ] + " GB"@ + suffix
            },
{
    let n = bytes as nat;
    assert(as_double(n) == n) by {
        assert(double_step(n) == 1);
        assert(round_half_even(n, 1) == n);
    }
    rounding_is_near(n * 10, 1024);
    rounding_is_near(n * 10, 1048576);
    rounding_is_near(n * 10, 1073741824);
    let kb = round_half_even(n * 10, 1024);
    let mb = round_half_even(n * 10, 1048576);
    let gb = round_half_even(n * 10, 1073741824);
    assert(near(kb, bytes, 1024));
    assert(near(mb, bytes, 1048576));
    assert(near(gb, bytes, 1073741824));
}

/// Whether a number of tenths of a unit is as near as can be to a number of bytes.
pub open spec fn near(tenths: nat, bytes: u64, unit: nat) -> bool {
    -(unit as int) <= 2 * (tenths * unit - bytes * 10) <= unit
}

proof fn rounding_is_near(n: nat, d: nat)
    requires
        d > 0,
    ensures
        -(d as int) <= 2 * (round_half_even(n, d) * d - n) <= d,
{
    let q = n / d;
    let r = n % d;
    assert(n == q * d + r && 0 <= r < d) by (nonlinear_arith)
        requires
            q == n / d,
            r == n % d,
            d > 0,
    ;
    assert((q + 1) * d == q * d + d) by (nonlinear_arith);
}

/// The latest events start with the newest one and go back in time without a gap: one more event
/// comes in front of the others.
pub proof fn the_newest_event_comes_first<A>(events: Seq<A>, event: A, most: nat)
    requires
        most > 0,
    ensures
        newest_first(events.push(event), most)[0] == event,
        newest_first(events, most).len() <= most,
        events.len() <= most ==> newest_first(events, most).len() == events.len(),
        newest_first(events.push(event), most).skip(1) == newest_first(events, (most - 1) as nat),
{
    assert(newest_first(events.push(event), most).skip(1) =~= newest_first(
        events,
        (most - 1) as nat,
    ));
}

}
