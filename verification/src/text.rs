//! Text building blocks: decimal and hexadecimal numerals, ASCII case folding,
//! and conversions between strings and vectors of characters.

use vstd::prelude::*;
use vstd::string::*;
use vstd::utf8::encode_utf8;
use vstd::utf8::valid_utf8;

verus! {

/// `String::push` appends the given character to the end of the string.
pub assume_specification[ String::push ](s: &mut String, c: char)
    ensures
        final(s)@ == old(s)@.push(c),
;

/// The message of the error that `core::str::from_utf8` gives for bytes that are not UTF-8.
pub uninterp spec fn utf8_complaint(bytes: Seq<u8>) -> Seq<char>;

/// `core::str::from_utf8` gives the text whose UTF-8 encoding the bytes are, if there is one, and
/// otherwise an error. The error's message depends on the bytes alone.
#[verifier::external_body]
pub(crate) fn utf8_text(bytes: &[u8]) -> (r: Result<String, String>)
    ensures
        match r {
            Ok(text) => valid_utf8(bytes@) && encode_utf8(text@) == bytes@,
            Err(complaint) => !valid_utf8(bytes@) && complaint@ == utf8_complaint(bytes@),
        },
{
    match core::str::from_utf8(bytes) {
        Ok(text) => Ok(text.to_owned()),
        Err(error) => Err(error.to_string()),
    }
}

/// The character of a decimal digit.
pub open spec fn digit_char(d: nat) -> char {
    (48 + d) as char
}

/// The decimal numeral of `n`, without leading zeros.
pub open spec fn dec_text(n: nat) -> Seq<char>
    decreases n,
{
    if n < 10 {
        seq![digit_char(n)]
    } else {
        dec_text(n / 10).push(digit_char(n % 10))
    }
}

/// The decimal numeral of `n`, padded with a zero to two digits.
pub open spec fn dec2_text(n: nat) -> Seq<char> {
    if n < 10 {
        seq!['0'] + dec_text(n)
    } else {
        dec_text(n)
    }
}

/// The lower-case character of a hexadecimal digit.
pub open spec fn hex_char(d: nat) -> char {
    if d < 10 {
        (48 + d) as char
    } else {
        (87 + d) as char
    }
}

/// The two lower-case hexadecimal digits of a byte.
pub open spec fn hex2_text(b: u8) -> Seq<char> {
    seq![hex_char((b / 16) as nat), hex_char((b % 16) as nat)]
}

/// The value of a hexadecimal digit, in either case, as it stands in a byte string.
pub open spec fn hex_value(b: u8) -> Option<nat> {
    if 48 <= b <= 57 {
        Some((b - 48) as nat)
    } else if 65 <= b <= 70 {
        Some((b - 55) as nat)
    } else if 97 <= b <= 102 {
        Some((b - 87) as nat)
    } else {
        None
    }
}

/// Folds the ASCII letter `c` to lower case; other characters stay.
pub open spec fn ascii_lower_char(c: char) -> char {
    if 'A' <= c && c <= 'Z' {
        ((c as u32) + 32) as char
    } else {
        c
    }
}

/// Folds the ASCII letters of `s` to lower case.
pub open spec fn ascii_lower(s: Seq<char>) -> Seq<char> {
    Seq::new(s.len(), |i: int| ascii_lower_char(s[i]))
}

fn digit(d: u8) -> (c: char)
    requires
        d < 10,
    ensures
        c == digit_char(d as nat),
{
    (48 + d) as char
}

fn hex_digit(d: u8) -> (c: char)
    requires
        d < 16,
    ensures
        c == hex_char(d as nat),
{
    if d < 10 {
        (48 + d) as char
    } else {
        (87 + d) as char
    }
}

/// Appends the decimal numeral of `n`.
pub fn push_dec(s: &mut String, n: u64)
    ensures
        final(s)@ == old(s)@ + dec_text(n as nat),
    decreases n,
{
    if n >= 10 {
        push_dec(s, n / 10);
    }
    s.push(digit((n % 10) as u8));
}

/// Appends the decimal numeral of `n`, padded with a zero to two digits.
pub fn push_dec2(s: &mut String, n: u64)
    ensures
        final(s)@ == old(s)@ + dec2_text(n as nat),
{
    let ghost before = s@;
    if n < 10 {
        s.push('0');
    }
    push_dec(s, n);
    proof {
        if n < 10 {
            assert(before.push('0') + dec_text(n as nat) =~= before + (seq!['0'] + dec_text(n as nat)));
        }
    }
}

/// Appends the two lower-case hexadecimal digits of `b`.
pub fn push_hex2(s: &mut String, b: u8)
    ensures
        final(s)@ == old(s)@ + hex2_text(b),
{
    s.push(hex_digit(b / 16));
    s.push(hex_digit(b % 16));
}

/// The decimal numeral of `n`.
pub fn dec(n: u64) -> (s: String)
    ensures
        s@ == dec_text(n as nat),
{
    let mut s = String::new();
    push_dec(&mut s, n);
    proof {
        assert(Seq::<char>::empty() + dec_text(n as nat) =~= dec_text(n as nat));
    }
    s
}

/// The value of the hexadecimal digit `b`, if it is one.
pub fn hex_value_of(b: u8) -> (v: Option<u8>)
    ensures
        match v {
            Some(d) => hex_value(b) == Some(d as nat) && d < 16,
            None => hex_value(b) is None,
        },
{
    if 48 <= b && b <= 57 {
        Some(b - 48)
    } else if 65 <= b && b <= 70 {
        Some(b - 55)
    } else if 97 <= b && b <= 102 {
        Some(b - 87)
    } else {
        None
    }
}

/// The characters of `s`.
pub fn chars_of(s: &str) -> (r: Vec<char>)
    ensures
        r@ == s@,
{
    let mut v: Vec<char> = Vec::new();
    for c in it: s.chars()
        invariant
            v@ == it.seq().take(it.index() as int),
    {
        v.push(c);
    }
    v
}

/// The string of the characters `v`.
pub fn from_chars(v: &[char]) -> (s: String)
    ensures
        s@ == v@,
{
    let mut s = String::new();
    let mut i: usize = 0;
    while i < v.len()
        invariant
            i <= v.len(),
            s@ == v@.take(i as int),
        decreases v.len() - i,
    {
        s.push(v[i]);
        proof {
            assert(v@.take(i as int + 1) =~= v@.take(i as int).push(v@[i as int]));
        }
        i += 1;
    }
    proof {
        assert(v@.take(i as int) =~= v@);
    }
    s
}

/// Whether two strings hold the same characters.
pub fn same(a: &str, b: &str) -> (r: bool)
    ensures
        r == (a@ == b@),
{
    a.to_owned() == b.to_owned()
}

/// `s` with its ASCII letters folded to lower case.
pub fn to_ascii_lower(s: &str) -> (r: String)
    ensures
        r@ == ascii_lower(s@),
{
    let chars = chars_of(s);
    let mut r = String::new();
    let mut i: usize = 0;
    while i < chars.len()
        invariant
            chars@ == s@,
            i <= chars.len(),
            r@ == ascii_lower(s@).take(i as int),
        decreases chars.len() - i,
    {
        let c = chars[i];
        let lower = if 'A' <= c && c <= 'Z' {
            (c as u8 + 32) as char
        } else {
            c
        };
        r.push(lower);
        proof {
            assert(ascii_lower(s@).take(i as int + 1) =~= ascii_lower(s@).take(i as int).push(
                ascii_lower_char(s@[i as int]),
            ));
        }
        i += 1;
    }
    proof {
        assert(ascii_lower(s@).take(i as int) =~= ascii_lower(s@));
    }
    r
}

/// The texts of a sequence of strings.
pub open spec fn texts(v: Seq<String>) -> Seq<Seq<char>> {
    Seq::new(v.len(), |i: int| v[i]@)
}

/// The text of an optional string.
pub open spec fn opt_text(s: Option<String>) -> Option<Seq<char>> {
    match s {
        Some(t) => Some(t@),
        None => None,
    }
}

/// Copies a vector of strings.
pub fn clone_strings(v: &Vec<String>) -> (r: Vec<String>)
    ensures
        texts(r@) == texts(v@),
{
    let mut r: Vec<String> = Vec::new();
    let mut i: usize = 0;
    while i < v.len()
        invariant
            i <= v.len(),
            r@.len() == i,
            forall|j: int| 0 <= j < i ==> r@[j]@ == v@[j]@,
        decreases v.len() - i,
    {
        r.push(v[i].clone());
        i += 1;
    }
    proof {
        assert(texts(r@) =~= texts(v@));
    }
    r
}

/// Copies an optional string.
pub fn clone_opt_string(s: &Option<String>) -> (r: Option<String>)
    ensures
        opt_text(r) == opt_text(*s),
{
    match s {
        Some(t) => Some(t.clone()),
        None => None,
    }
}

/// Two hexadecimal digits written for a byte read back as that byte.
pub proof fn hex2_reads_back(b: u8)
    ensures
        hex_char((b / 16) as nat) as int <= 127,
        hex_char((b % 16) as nat) as int <= 127,
        hex_value(hex_char((b / 16) as nat) as u8) == Some((b / 16) as nat),
        hex_value(hex_char((b % 16) as nat) as u8) == Some((b % 16) as nat),
{
}

/// `s` without the characters `c` at its end.
pub open spec fn without_end(s: Seq<char>, c: char) -> Seq<char>
    decreases s.len(),
{
    if s.len() > 0 && s.last() == c {
        without_end(s.drop_last(), c)
    } else {
        s
    }
}

/// `s` without the characters `c` at its end.
pub fn trim_end_char(s: &str, c: char) -> (r: String)
    ensures
        r@ == without_end(s@, c),
{
    let mut chars = chars_of(s);
    while chars.len() > 0 && chars[chars.len() - 1] == c
        invariant
            without_end(chars@, c) == without_end(s@, c),
        decreases chars@.len(),
    {
        chars.pop();
    }
    from_chars(chars.as_slice())
}

/// The encoding of two texts one after the other is that of the first followed by that of the
/// second.
pub proof fn utf8_in_pieces(a: Seq<char>, b: Seq<char>)
    ensures
        encode_utf8(a + b) == encode_utf8(a) + encode_utf8(b),
    decreases a.len(),
{
    if a.len() == 0 {
        assert(a + b =~= b);
        assert(encode_utf8(a) + encode_utf8(b) =~= encode_utf8(b));
    } else {
        utf8_in_pieces(a.drop_first(), b);
        assert((a + b).drop_first() =~= a.drop_first() + b);
        assert(encode_utf8(a + b) =~= encode_utf8(a) + encode_utf8(b));
    }
}

/// Whether `c` is a decimal digit.
pub open spec fn is_digit(c: char) -> bool {
    '0' <= c && c <= '9'
}

/// The number that a sequence of decimal digits stands for.
pub open spec fn digits_value(s: Seq<char>) -> nat
    decreases s.len(),
{
    if s.len() == 0 {
        0
    } else {
        digits_value(s.drop_last()) * 10 + (s.last() as nat - 48) as nat
    }
}

/// `s` without a plus sign in front, if more follows it.
pub open spec fn without_plus(s: Seq<char>) -> Seq<char> {
    if s.len() > 1 && s[0] == '+' {
        s.skip(1)
    } else {
        s
    }
}

/// The number that `s` stands for: decimal digits, with a plus sign in front or without, for a
/// number up to `max`.
pub open spec fn parsed_number(s: Seq<char>, max: nat) -> Option<nat> {
    let digits = without_plus(s);
    if digits.len() > 0 && (forall|i: int|
        0 <= i < digits.len() ==> is_digit(#[trigger] digits[i])) && digits_value(digits) <= max {
        Some(digits_value(digits))
    } else {
        None
    }
}

/// More digits never make the number smaller.
proof fn digits_value_grows(s: Seq<char>, i: int)
    requires
        0 <= i <= s.len(),
        forall|j: int| 0 <= j < s.len() ==> is_digit(#[trigger] s[j]),
    ensures
        digits_value(s.take(i)) <= digits_value(s),
    decreases s.len() - i,
{
    if i == s.len() {
        assert(s.take(i) =~= s);
    } else {
        digits_value_grows(s, i + 1);
        assert(s.take(i + 1).drop_last() =~= s.take(i));
        assert(is_digit(s[i]));
    }
}

/// Reads a decimal number up to `max`.
pub fn parse_number(s: &str, max: u64) -> (r: Option<u64>)
    ensures
        match r {
            Some(n) => parsed_number(s@, max as nat) == Some(n as nat),
            None => parsed_number(s@, max as nat) is None,
        },
{
    let chars = chars_of(s);
    let start: usize = if chars.len() > 1 && chars[0] == '+' {
        1
    } else {
        0
    };
    let ghost digits = without_plus(s@);
    proof {
        assert(digits =~= s@.skip(start as int));
    }
    if chars.len() == start {
        return None;
    }
    let mut n: u64 = 0;
    let mut i: usize = start;
    while i < chars.len()
        invariant
            chars@ == s@,
            digits == s@.skip(start as int),
            digits == without_plus(s@),
            start <= i <= chars.len(),
            start < chars.len(),
            n <= max,
            n == digits_value(digits.take(i - start)),
            forall|j: int| 0 <= j < i - start ==> is_digit(#[trigger] digits[j]),
        decreases chars.len() - i,
    {
        let c = chars[i];
        proof {
            assert(digits[i - start] == c);
        }
        if !('0' <= c && c <= '9') {
            return None;
        }
        let d: u64 = c as u64 - 48;
        proof {
            let k = i - start;
            assert(digits.take(k + 1).drop_last() =~= digits.take(k));
            assert(digits_value(digits.take(k + 1)) == n * 10 + d);
            if n * 10 + d > max {
                if forall|j: int| 0 <= j < digits.len() ==> is_digit(#[trigger] digits[j]) {
                    digits_value_grows(digits, k + 1);
                }
            }
        }
        if n > (u64::MAX - d) / 10 || n * 10 + d > max {
            return None;
        }
        n = n * 10 + d;
        i += 1;
    }
    proof {
        assert(digits.take(i - start) =~= digits);
    }
    Some(n)
}

/// Whether `s` starts with `prefix`.
pub fn begins_with(s: &str, prefix: &str) -> (r: bool)
    ensures
        r == prefix@.is_prefix_of(s@),
{
    let a = chars_of(s);
    let b = chars_of(prefix);
    if b.len() > a.len() {
        return false;
    }
    let mut i: usize = 0;
    while i < b.len()
        invariant
            a@ == s@,
            b@ == prefix@,
            b.len() <= a.len(),
            i <= b.len(),
            forall|j: int| 0 <= j < i ==> a@[j] == b@[j],
        decreases b.len() - i,
    {
        if a[i] != b[i] {
            proof {
                assert(s@.subrange(0, prefix@.len() as int)[i as int] == a@[i as int]);
            }
            return false;
        }
        i += 1;
    }
    proof {
        assert(prefix@ =~= s@.subrange(0, prefix@.len() as int));
    }
    true
}

/// `s` without its last character, if it has one.
pub open spec fn without_last(s: Seq<char>) -> Seq<char> {
    if s.len() > 0 {
        s.drop_last()
    } else {
        s
    }
}

/// `s` without its last character, if it has one.
pub fn pop_last(s: &str) -> (r: String)
    ensures
        r@ == without_last(s@),
{
    let mut chars = chars_of(s);
    chars.pop();
    from_chars(chars.as_slice())
}

/// `n` times the character `c`.
pub open spec fn repeated(c: char, n: nat) -> Seq<char> {
    Seq::new(n, |i: int| c)
}

/// Appends the character `c` `n` times.
pub fn push_repeated(s: &mut String, c: char, n: usize)
    ensures
        final(s)@ == old(s)@ + repeated(c, n as nat),
{
    let ghost before = s@;
    let mut i: usize = 0;
    proof {
        assert(before + repeated(c, 0) =~= before);
    }
    while i < n
        invariant
            i <= n,
            s@ == before + repeated(c, i as nat),
        decreases n - i,
    {
        s.push(c);
        i += 1;
        proof {
            assert(s@ =~= before + repeated(c, i as nat));
        }
    }
}

/// `s` with blanks after it, up to `width` characters.
pub open spec fn left_aligned(s: Seq<char>, width: nat) -> Seq<char> {
    if s.len() >= width {
        s
    } else {
        s + repeated(' ', (width - s.len()) as nat)
    }
}

/// `s` with blanks after it, up to `width` characters.
pub fn align_left(s: &str, width: usize) -> (r: String)
    ensures
        r@ == left_aligned(s@, width as nat),
{
    let n = chars_of(s).len();
    let mut r = s.to_owned();
    if n < width {
        push_repeated(&mut r, ' ', width - n);
    }
    r
}

/// The decimal numeral of `n`, with zeros in front up to `width` digits.
pub open spec fn zero_padded(n: nat, width: nat) -> Seq<char> {
    let digits = dec_text(n);
    if digits.len() >= width {
        digits
    } else {
        repeated('0', (width - digits.len()) as nat) + digits
    }
}

/// The decimal numeral of `n`, with zeros in front up to `width` digits.
pub fn pad_zeros(n: u64, width: usize) -> (r: String)
    ensures
        r@ == zero_padded(n as nat, width as nat),
{
    let digits = dec(n);
    let count = chars_of(digits.as_str()).len();
    let mut r = String::new();
    if count < width {
        push_repeated(&mut r, '0', width - count);
    }
    r.append(digits.as_str());
    proof {
        assert(r@ =~= zero_padded(n as nat, width as nat));
    }
    r
}

/// The number that a decimal numeral stands for is the one it was written for.
pub proof fn numerals_read_back(n: nat, max: nat)
    requires
        n <= max,
    ensures
        parsed_number(dec_text(n), max) == Some(n),
{
    numeral_digits(n);
    assert(dec_text(n)[0] != '+');
}

/// A decimal numeral is made of digits, and they stand for the number.
proof fn numeral_digits(n: nat)
    ensures
        dec_text(n).len() > 0,
        forall|i: int| 0 <= i < dec_text(n).len() ==> is_digit(#[trigger] dec_text(n)[i]),
        digits_value(dec_text(n)) == n,
    decreases n,
{
    if n < 10 {
        assert(dec_text(n).drop_last() =~= Seq::<char>::empty());
        reveal_with_fuel(digits_value, 2);
    } else {
        numeral_digits(n / 10);
        assert(dec_text(n).drop_last() =~= dec_text(n / 10));
    }
}

/// `before`, a number, and `after`.
pub fn counted(before: &str, n: u64, after: &str) -> (s: String)
    ensures
        s@ == before@ + dec_text(n as nat) + after@,
{
    let mut s = before.to_owned();
    push_dec(&mut s, n);
    s.append(after);
    s
}

/// `before`, some text, and `after`.
pub fn framed(before: &str, text: &str, after: &str) -> (s: String)
    ensures
        s@ == before@ + text@ + after@,
{
    let mut s = before.to_owned();
    s.append(text);
    s.append(after);
    s
}

/// A number behind a text.
pub fn numbered(before: &str, n: u64) -> (s: String)
    ensures
        s@ == before@ + dec_text(n as nat),
{
    let mut s = before.to_owned();
    push_dec(&mut s, n);
    s
}

/// `s` without the characters `c` at its start.
pub open spec fn without_start(s: Seq<char>, c: char) -> Seq<char>
    decreases s.len(),
{
    if s.len() > 0 && s[0] == c {
        without_start(s.skip(1), c)
    } else {
        s
    }
}

/// `s` without the characters `c` at its start.
pub fn trim_start_char(s: &str, c: char) -> (r: String)
    ensures
        r@ == without_start(s@, c),
{
    let chars = chars_of(s);
    let mut i: usize = 0;
    proof {
        assert(s@.skip(0) =~= s@);
    }
    while i < chars.len() && chars[i] == c
        invariant
            chars@ == s@,
            i <= chars.len(),
            without_start(s@.skip(i as int), c) == without_start(s@, c),
        decreases chars.len() - i,
    {
        proof {
            assert(s@.skip(i as int).skip(1) =~= s@.skip(i as int + 1));
        }
        i += 1;
    }
    chars_from(&chars, i, chars.len())
}

/// The characters of `v` from `start` to `end`.
pub fn chars_from(v: &Vec<char>, start: usize, end: usize) -> (r: String)
    requires
        start <= end <= v@.len(),
    ensures
        r@ == v@.subrange(start as int, end as int),
{
    let mut r = String::new();
    let mut i: usize = start;
    while i < end
        invariant
            start <= i <= end <= v@.len(),
            r@ == v@.subrange(start as int, i as int),
        decreases end - i,
    {
        r.push(v[i]);
        proof {
            assert(v@.subrange(start as int, i as int + 1) =~= v@.subrange(
                start as int,
                i as int,
            ).push(v@[i as int]));
        }
        i += 1;
    }
    r
}

/// What follows the last `c` in `s`, or all of `s` if there is none.
pub open spec fn after_last(s: Seq<char>, c: char) -> Seq<char>
    decreases s.len(),
{
    if s.len() == 0 || s.last() == c {
        Seq::empty()
    } else {
        after_last(s.drop_last(), c).push(s.last())
    }
}

/// What follows the last `c` in `s`, or all of `s` if there is none.
pub fn after_last_char(s: &str, c: char) -> (r: String)
    ensures
        r@ == after_last(s@, c),
{
    let chars = chars_of(s);
    let mut i: usize = chars.len();
    proof {
        assert(s@.take(i as int) =~= s@);
        assert(after_last(s@, c) + s@.skip(i as int) =~= after_last(s@, c));
    }
    while i > 0 && chars[i - 1] != c
        invariant
            chars@ == s@,
            i <= chars.len(),
            after_last(s@, c) == after_last(s@.take(i as int), c) + s@.skip(i as int),
        decreases i,
    {
        proof {
            let front = s@.take(i as int);
            assert(front.drop_last() =~= s@.take(i as int - 1));
            assert(after_last(s@, c) =~= after_last(s@.take(i as int - 1), c) + s@.skip(
                i as int - 1,
            ));
        }
        i -= 1;
    }
    proof {
        assert(after_last(s@, c) =~= s@.skip(i as int));
    }
    chars_from(&chars, i, chars.len())
}

/// A text stands for a number exactly if it is made of digits, at least one, with nothing but a plus
/// sign in front of them, and the number is not too large; the number is then the one that the
/// digits stand for.
pub proof fn only_digits_make_a_number(s: Seq<char>, max: nat)
    ensures
        parsed_number(s, max) is Some ==> parsed_number(s, max)->0 <= max && forall|i: int|
            0 < i < s.len() ==> '0' <= #[trigger] s[i] && s[i] <= '9',
        parsed_number(s, max) is Some ==> s.len() > 0 && (('0' <= s[0] && s[0] <= '9') || (s[0]
            == '+' && s.len() > 1)),
        s.len() == 0 ==> parsed_number(s, max) is None,
        (exists|i: int| 0 < i < s.len() && !('0' <= #[trigger] s[i] && s[i] <= '9'))
            ==> parsed_number(s, max) is None,
{
    let digits = without_plus(s);
    if parsed_number(s, max) is Some {
        assert forall|i: int| 0 < i < s.len() implies '0' <= #[trigger] s[i] && s[i] <= '9' by {
            if s.len() > 1 && s[0] == '+' {
                assert(is_digit(digits[i - 1]));
            } else {
                assert(is_digit(digits[i]));
            }
        }
        if !(s.len() > 1 && s[0] == '+') {
            assert(is_digit(digits[0]));
        }
    }
}

/// A digit behind a numeral makes ten times the number and the digit of it, and a plus sign in
/// front changes nothing.
pub proof fn numerals_grow_by_digits(n: nat, d: nat, max: nat)
    requires
        d < 10,
        10 * n + d <= max,
    ensures
        parsed_number(dec_text(n).push((48 + d) as char), max) == Some(10 * n + d),
        parsed_number(seq!['+'] + dec_text(n), max) == Some(n),
{
    numeral_digits(n);
    let longer = dec_text(n).push((48 + d) as char);
    assert(longer.drop_last() =~= dec_text(n));
    assert(longer[0] == dec_text(n)[0]);
    assert forall|i: int| 0 <= i < longer.len() implies is_digit(#[trigger] longer[i]) by {
        if i < dec_text(n).len() {
            assert(longer[i] == dec_text(n)[i]);
        }
    }
    assert(is_digit(dec_text(n)[0]));
    let signed = seq!['+'] + dec_text(n);
    assert(signed.skip(1) =~= dec_text(n));
}

/// A number that is larger than allowed is not read.
pub proof fn large_numbers_are_refused(n: nat, max: nat)
    requires
        n > max,
    ensures
        parsed_number(dec_text(n), max) is None,
{
    numeral_digits(n);
    assert(is_digit(dec_text(n)[0]));
    assert(without_plus(dec_text(n)) == dec_text(n));
}

/// Different numbers have different numerals.
pub proof fn numerals_tell_numbers_apart(a: nat, b: nat)
    requires
        dec_text(a) == dec_text(b),
    ensures
        a == b,
{
    numeral_digits(a);
    numeral_digits(b);
}

/// Folding to lower case leaves no capital letter, keeps the length, leaves every other character
/// alone, and does nothing more the second time.
pub proof fn folding_concerns_capitals_only(s: Seq<char>, i: int)
    requires
        0 <= i < s.len(),
    ensures
        ascii_lower(s).len() == s.len(),
        !('A' <= ascii_lower(s)[i] && ascii_lower(s)[i] <= 'Z'),
        !('A' <= s[i] && s[i] <= 'Z') ==> ascii_lower(s)[i] == s[i],
        'A' <= s[i] && s[i] <= 'Z' ==> ascii_lower(s)[i] as nat == s[i] as nat + 32,
        ascii_lower(ascii_lower(s)) == ascii_lower(s),
{
    assert(ascii_lower(ascii_lower(s)) =~= ascii_lower(s));
}

/// What is left after the last separator holds no separator and ends the text, with a separator in
/// front of it if there is more.
pub proof fn what_follows_the_last_separator(s: Seq<char>, c: char)
    ensures
        ({
            let rest = after_last(s, c);
            let n = s.len() - rest.len();
            &&& rest.len() <= s.len()
            &&& s.skip(n) == rest
            &&& !rest.contains(c)
            &&& n > 0 ==> s[n - 1] == c
        }),
    decreases s.len(),
{
    let rest = after_last(s, c);
    if s.len() > 0 && s.last() != c {
        let front = s.drop_last();
        what_follows_the_last_separator(front, c);
        let before = after_last(front, c);
        let n = s.len() - rest.len();
        assert(front.skip(n) == before);
        assert(s.skip(n) =~= rest) by {
            assert forall|i: int| 0 <= i < rest.len() implies s.skip(n)[i] == rest[i] by {
                if i < before.len() {
                    assert(front.skip(n)[i] == before[i]);
                }
            }
        }
        assert(!rest.contains(c)) by {
            if rest.contains(c) {
                let k = choose|k: int| 0 <= k < rest.len() && rest[k] == c;
                assert(before[k] == c);
            }
        }
        if n > 0 {
            assert(front[n - 1] == c);
        }
    } else {
        assert(s.skip(s.len() as int) =~= rest);
    }
}

/// Trimming takes off all of the character at that end, and nothing else.
pub proof fn trimming_takes_off_one_character(s: Seq<char>, c: char)
    ensures
        ({
            let r = without_end(s, c);
            &&& r.len() <= s.len()
            &&& r == s.take(r.len() as int)
            &&& r.len() > 0 ==> r.last() != c
            &&& forall|i: int| r.len() <= i < s.len() ==> #[trigger] s[i] == c
        }),
    decreases s.len(),
{
    if s.len() > 0 && s.last() == c {
        let front = s.drop_last();
        trimming_takes_off_one_character(front, c);
        let r = without_end(s, c);
        assert(front.take(r.len() as int) =~= s.take(r.len() as int));
        assert forall|i: int| r.len() <= i < s.len() implies #[trigger] s[i] == c by {
            if i < front.len() {
                assert(front[i] == c);
            }
        }
    } else {
        assert(s.take(s.len() as int) =~= s);
    }
}

/// A text that is padded keeps its characters at its start, has blanks behind them, and is as long as
/// asked for, or longer if it was; a numeral that is padded ends in its digits, with zeros in front.
pub proof fn padding_keeps_the_text(s: Seq<char>, n: nat, width: nat)
    ensures
        left_aligned(s, width).len() == (if s.len() < width {
            width
        } else {
            s.len()
        }),
        left_aligned(s, width).take(s.len() as int) == s,
        forall|i: int| s.len() <= i < width ==> #[trigger] left_aligned(s, width)[i] == ' ',
        zero_padded(n, width).len() == (if dec_text(n).len() < width {
            width
        } else {
            dec_text(n).len()
        }),
        zero_padded(n, width).skip(zero_padded(n, width).len() - dec_text(n).len()) == dec_text(n),
        forall|i: int|
            0 <= i < width - dec_text(n).len() ==> #[trigger] zero_padded(n, width)[i] == '0',
{
    assert(left_aligned(s, width).take(s.len() as int) =~= s);
    assert(zero_padded(n, width).skip(zero_padded(n, width).len() - dec_text(n).len()) =~= dec_text(
        n,
    ));
}

}
