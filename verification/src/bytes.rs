//! Big-endian numbers and byte-string helpers.

use vstd::prelude::*;
use vstd::utf8::decode_first_scalar;
use vstd::utf8::decode_utf8;
use vstd::utf8::encode_utf8;
use vstd::utf8::length_of_first_scalar;
use vstd::utf8::pop_first_scalar;
use vstd::utf8::valid_utf8;

verus! {

/// The number whose big-endian bytes are `s`.
pub open spec fn be_value(s: Seq<u8>) -> nat
    decreases s.len(),
{
    if s.len() == 0 {
        0
    } else {
        be_value(s.drop_last()) * 256 + s.last() as nat
    }
}

/// The lowest `len` bytes of `n`, big-endian.
pub open spec fn be_bytes(n: nat, len: nat) -> Seq<u8>
    decreases len,
{
    if len == 0 {
        Seq::empty()
    } else {
        be_bytes(n / 256, (len - 1) as nat).push((n % 256) as u8)
    }
}

/// `n` zero bytes.
pub open spec fn zeros(n: nat) -> Seq<u8> {
    Seq::new(n, |i: int| 0u8)
}

/// `be_bytes` gives as many bytes as it was asked for.
pub proof fn be_bytes_len(n: nat, len: nat)
    ensures
        be_bytes(n, len).len() == len,
    decreases len,
{
    if len > 0 {
        be_bytes_len(n / 256, (len - 1) as nat);
    }
}

/// Reading back the bytes that were written for a byte string's number gives the byte string.
pub proof fn be_bytes_of_value(s: Seq<u8>)
    ensures
        be_bytes(be_value(s), s.len()) == s,
    decreases s.len(),
{
    if s.len() > 0 {
        let head = s.drop_last();
        be_bytes_of_value(head);
        let n = be_value(s);
        assert(n / 256 == be_value(head));
        assert(n % 256 == s.last() as nat);
        assert(head.push(s.last()) =~= s);
    } else {
        assert(be_bytes(be_value(s), s.len()) =~= s);
    }
}

/// A two-byte number is below 2^16, a four-byte number below 2^32.
pub proof fn be_value_small(s: Seq<u8>)
    ensures
        s.len() == 2 ==> be_value(s) == s[0] * 256 + s[1],
        s.len() == 4 ==> be_value(s) == s[0] * 16777216 + s[1] * 65536 + s[2] * 256 + s[3],
{
    reveal_with_fuel(be_value, 5);
    if s.len() == 2 {
        assert(be_value(s.drop_last()) == s[0]);
    }
    if s.len() == 4 {
        let s3 = s.drop_last();
        let s2 = s3.drop_last();
        let s1 = s2.drop_last();
        assert(be_value(s1) == s[0]);
        assert(be_value(s2) == s[0] * 256 + s[1]);
        assert(be_value(s3) == s[0] * 65536 + s[1] * 256 + s[2]);
    }
}

/// Writing a number that fits in two (four, sixteen) bytes and reading it back gives the number.
pub proof fn be_value_of_bytes(n: nat, len: nat)
    requires
        (len == 2 && n < 65536) || (len == 4 && n < 4294967296) || (len == 16 && n
            <= u128::MAX),
    ensures
        be_value(be_bytes(n, len)) == n,
{
    be_value_of_bytes_bounded(n, len);
}

spec fn pow256(len: nat) -> nat
    decreases len,
{
    if len == 0 {
        1
    } else {
        256 * pow256((len - 1) as nat)
    }
}

proof fn be_value_of_bytes_general(n: nat, len: nat)
    requires
        n < pow256(len),
    ensures
        be_value(be_bytes(n, len)) == n,
    decreases len,
{
    if len > 0 {
        let rest = be_bytes(n / 256, (len - 1) as nat);
        assert(n / 256 < pow256((len - 1) as nat)) by {
            assert(n < 256 * pow256((len - 1) as nat));
        }
        be_value_of_bytes_general(n / 256, (len - 1) as nat);
        let s = rest.push((n % 256) as u8);
        assert(s.drop_last() =~= rest);
    }
}

proof fn be_value_of_bytes_bounded(n: nat, len: nat)
    requires
        (len == 2 && n < 65536) || (len == 4 && n < 4294967296) || (len == 16 && n
            <= u128::MAX),
    ensures
        be_value(be_bytes(n, len)) == n,
{
    reveal_with_fuel(pow256, 17);
    assert(pow256(2) == 65536);
    assert(pow256(4) == 4294967296);
    assert(pow256(8) == 4294967296 * 4294967296);
    assert(pow256(16) == u128::MAX + 1);
    be_value_of_bytes_general(n, len);
}

/// Appends the lowest `len` bytes of `n`, big-endian.
pub fn push_be(v: &mut Vec<u8>, n: u128, len: usize)
    ensures
        final(v)@ == old(v)@ + be_bytes(n as nat, len as nat),
    decreases len,
{
    if len > 0 {
        push_be(v, n / 256, len - 1);
        v.push((n % 256) as u8);
    } else {
        proof {
            assert(v@ + Seq::<u8>::empty() =~= v@);
        }
    }
}

/// The two-byte big-endian number at `start`.
pub fn be16_at(s: &[u8], start: usize) -> (n: u16)
    requires
        start + 2 <= s@.len(),
    ensures
        n == be_value(s@.subrange(start as int, start + 2)),
{
    proof {
        be_value_small(s@.subrange(start as int, start + 2));
    }
    s[start] as u16 * 256 + s[start + 1] as u16
}

/// The four-byte big-endian number at `start`.
pub fn be32_at(s: &[u8], start: usize) -> (n: u32)
    requires
        start + 4 <= s@.len(),
    ensures
        n == be_value(s@.subrange(start as int, start + 4)),
{
    proof {
        be_value_small(s@.subrange(start as int, start + 4));
    }
    s[start] as u32 * 16777216 + s[start + 1] as u32 * 65536 + s[start + 2] as u32 * 256 + s[start
        + 3] as u32
}

/// The bytes of `s` from `start` up to `end`.
pub fn slice_vec(s: &[u8], start: usize, end: usize) -> (r: Vec<u8>)
    requires
        start <= end <= s@.len(),
    ensures
        r@ == s@.subrange(start as int, end as int),
{
    let mut r: Vec<u8> = Vec::new();
    let mut i: usize = start;
    while i < end
        invariant
            start <= i <= end <= s@.len(),
            r@ == s@.subrange(start as int, i as int),
        decreases end - i,
    {
        r.push(s[i]);
        proof {
            assert(s@.subrange(start as int, i + 1) =~= s@.subrange(start as int, i as int).push(
                s@[i as int],
            ));
        }
        i += 1;
    }
    r
}

/// Appends the bytes of `s`.
pub fn push_bytes(v: &mut Vec<u8>, s: &[u8])
    ensures
        final(v)@ == old(v)@ + s@,
{
    let ghost before = v@;
    let mut i: usize = 0;
    proof {
        assert(before + s@.take(0) =~= before);
    }
    while i < s.len()
        invariant
            i <= s.len(),
            v@ == before + s@.take(i as int),
        decreases s.len() - i,
    {
        v.push(s[i]);
        proof {
            assert(before + s@.take(i as int + 1) =~= (before + s@.take(i as int)).push(
                s@[i as int],
            ));
        }
        i += 1;
    }
    proof {
        assert(s@.take(i as int) =~= s@);
    }
}

/// Whether two byte strings are the same.
pub fn same_bytes(a: &[u8], b: &[u8]) -> (r: bool)
    ensures
        r == (a@ == b@),
{
    if a.len() != b.len() {
        return false;
    }
    let mut i: usize = 0;
    while i < a.len()
        invariant
            i <= a.len(),
            a@.len() == b@.len(),
            forall|j: int| 0 <= j < i ==> a@[j] == b@[j],
        decreases a.len() - i,
    {
        if a[i] != b[i] {
            return false;
        }
        i += 1;
    }
    proof {
        assert(a@ =~= b@);
    }
    true
}

/// The 32 bytes of `s` at `start`.
pub fn array32_at(s: &[u8], start: usize) -> (r: [u8; 32])
    requires
        start + 32 <= s@.len(),
    ensures
        r@ == s@.subrange(start as int, start + 32),
{
    let mut r = [0u8; 32];
    let mut i: usize = 0;
    while i < 32
        invariant
            i <= 32,
            start + 32 <= s.len(),
            forall|j: int| 0 <= j < i ==> r@[j] == s@[start + j],
        decreases 32 - i,
    {
        r[i] = s[start + i];
        i += 1;
    }
    proof {
        assert(r@ =~= s@.subrange(start as int, start + 32));
    }
    r
}

/// The 16 bytes of `s` at `start`.
pub fn array16_at(s: &[u8], start: usize) -> (r: [u8; 16])
    requires
        start + 16 <= s@.len(),
    ensures
        r@ == s@.subrange(start as int, start + 16),
{
    let mut r = [0u8; 16];
    let mut i: usize = 0;
    while i < 16
        invariant
            i <= 16,
            start + 16 <= s.len(),
            forall|j: int| 0 <= j < i ==> r@[j] == s@[start + j],
        decreases 16 - i,
    {
        r[i] = s[start + i];
        i += 1;
    }
    proof {
        assert(r@ =~= s@.subrange(start as int, start + 16));
    }
    r
}

/// The 4 bytes of `s` at `start`.
pub fn array4_at(s: &[u8], start: usize) -> (r: [u8; 4])
    requires
        start + 4 <= s@.len(),
    ensures
        r@ == s@.subrange(start as int, start + 4),
{
    let r = [s[start], s[start + 1], s[start + 2], s[start + 3]];
    proof {
        assert(r@ =~= s@.subrange(start as int, start + 4));
    }
    r
}

/// Whether `x` stands in `v`.
pub fn contains_u16(v: &[u16], x: u16) -> (r: bool)
    ensures
        r == v@.contains(x),
{
    let mut i: usize = 0;
    while i < v.len()
        invariant
            i <= v.len(),
            forall|j: int| 0 <= j < i ==> v@[j] != x,
        decreases v.len() - i,
    {
        if v[i] == x {
            return true;
        }
        i += 1;
    }
    false
}

/// The number of bytes before the first zero, or of all bytes if there is no zero.
pub open spec fn before_zero(s: Seq<u8>) -> nat
    decreases s.len(),
{
    if s.len() == 0 || s[0] == 0 {
        0
    } else {
        1 + before_zero(s.skip(1))
    }
}

/// The number of bytes before the first zero, or of all bytes if there is no zero.
pub fn find_zero(s: &[u8]) -> (n: usize)
    ensures
        n == before_zero(s@),
        n <= s@.len(),
{
    let mut n: usize = 0;
    proof {
        assert(s@.skip(0) =~= s@);
    }
    while n < s.len() && s[n] != 0
        invariant
            n <= s.len(),
            before_zero(s@) == n + before_zero(s@.skip(n as int)),
        decreases s.len() - n,
    {
        proof {
            assert(s@.skip(n as int).skip(1) =~= s@.skip(n as int + 1));
        }
        n += 1;
    }
    n
}

/// The bytes before the first zero are those before it, and a zero follows them unless there is
/// none.
proof fn before_zero_is_first(s: Seq<u8>)
    ensures
        before_zero(s) <= s.len(),
        forall|i: int| 0 <= i < before_zero(s) ==> s[i] != 0,
        before_zero(s) < s.len() ==> s[before_zero(s) as int] == 0,
    decreases s.len(),
{
    if s.len() > 0 && s[0] != 0 {
        before_zero_is_first(s.skip(1));
        assert forall|i: int| 0 <= i < before_zero(s) implies s[i] != 0 by {
            if i > 0 {
                assert(s.skip(1)[i - 1] == s[i]);
            }
        }
    }
}

/// A zero byte in UTF-8 text stands for the zero character.
proof fn zero_byte_is_zero_char(bytes: Seq<u8>, i: int)
    requires
        valid_utf8(bytes),
        0 <= i < bytes.len(),
        bytes[i] == 0,
    ensures
        decode_utf8(bytes).contains('\0'),
    decreases bytes.len(),
{
    let first = decode_first_scalar(bytes) as char;
    let rest = decode_utf8(pop_first_scalar(bytes));
    let chars = decode_utf8(bytes);
    assert(chars == seq![first] + rest);
    if i == 0 {
        assert(0u8 & 0x7f == 0) by (bit_vector);
        assert(chars[0] == '\0');
    } else {
        let n = length_of_first_scalar(bytes);
        zero_byte_is_zero_char(pop_first_scalar(bytes), i - n);
        let j = choose|j: int| 0 <= j < rest.len() && rest[j] == '\0';
        assert(chars[j + 1] == '\0');
    }
}

/// Text without a zero character has no zero byte.
proof fn no_zero_bytes(text: Seq<char>)
    requires
        !text.contains('\0'),
    ensures
        forall|i: int| 0 <= i < encode_utf8(text).len() ==> encode_utf8(text)[i] != 0,
{
    let bytes = encode_utf8(text);
    vstd::utf8::encode_utf8_valid_utf8(text);
    vstd::utf8::encode_utf8_decode_utf8(text);
    assert forall|i: int| 0 <= i < bytes.len() implies bytes[i] != 0 by {
        if bytes[i] == 0 {
            zero_byte_is_zero_char(bytes, i);
        }
    }
}

/// Text without a zero character, a zero byte and some more bytes come apart again at the first
/// zero byte.
pub proof fn text_ends_at_zero(text: Seq<char>, rest: Seq<u8>)
    requires
        !text.contains('\0'),
    ensures
        ({
            let all = encode_utf8(text) + seq![0u8] + rest;
            let n = encode_utf8(text).len();
            &&& before_zero(all) == n
            &&& all.subrange(0, n as int) == encode_utf8(text)
            &&& all.subrange(n as int + 1, all.len() as int) == rest
            &&& valid_utf8(encode_utf8(text))
            &&& decode_utf8(encode_utf8(text)) == text
        }),
{
    let bytes = encode_utf8(text);
    let all = bytes + seq![0u8] + rest;
    vstd::utf8::encode_utf8_valid_utf8(text);
    vstd::utf8::encode_utf8_decode_utf8(text);
    no_zero_bytes(text);
    before_zero_is_first(all);
    assert(forall|i: int| 0 <= i < bytes.len() ==> all[i] == bytes[i]);
    assert(all[bytes.len() as int] == 0);
    assert(all.subrange(0, bytes.len() as int) =~= bytes);
    assert(all.subrange(bytes.len() as int + 1, all.len() as int) =~= rest);
}

/// A number of `n` bytes is below 256 to the power of `n`.
proof fn be_value_bounded(s: Seq<u8>)
    ensures
        be_value(s) < pow256(s.len()),
    decreases s.len(),
{
    if s.len() > 0 {
        be_value_bounded(s.drop_last());
    }
}

/// More digits never make the power smaller.
proof fn pow256_grows(i: nat, n: nat)
    requires
        i <= n,
    ensures
        pow256(i) <= pow256(n),
    decreases n,
{
    if i < n {
        pow256_grows(i, (n - 1) as nat);
    }
}

/// The number with these sixteen bytes, big-endian.
pub fn be128(bytes: &[u8]) -> (n: u128)
    requires
        bytes@.len() == 16,
    ensures
        n == be_value(bytes@),
{
    let mut n: u128 = 0;
    let mut i: usize = 0;
    while i < 16
        invariant
            i <= 16,
            bytes@.len() == 16,
            n == be_value(bytes@.take(i as int)),
        decreases 16 - i,
    {
        proof {
            let front = bytes@.take(i as int);
            assert(bytes@.take(i as int + 1).drop_last() =~= front);
            be_value_bounded(front);
            pow256_grows(i as nat, 15);
            assert(pow256(15) == 0x1000000000000000000000000000000nat) by {
                reveal_with_fuel(pow256, 16);
            }
        }
        n = n * 256 + bytes[i] as u128;
        i += 1;
    }
    proof {
        assert(bytes@.take(16) =~= bytes@);
    }
    n
}

}
