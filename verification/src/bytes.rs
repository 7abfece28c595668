//! Little-endian integers and UTF-8 text as byte sequences.

use vstd::prelude::*;
use vstd::utf8::{encode_utf8, valid_utf8};

verus! {

/// The low `width` base-256 digits of `value`, least significant first.
pub open spec fn le_bytes(value: nat, width: nat) -> Seq<u8>
    decreases width,
{
    if width == 0 {
        Seq::empty()
    } else {
        seq![(value % 256) as u8] + le_bytes(value / 256, (width - 1) as nat)
    }
}

/// The number whose base-256 digits are `digits`, least significant first.
pub open spec fn le_value(digits: Seq<u8>) -> nat
    decreases digits.len(),
{
    if digits.len() == 0 {
        0
    } else {
        digits[0] as nat + 256 * le_value(digits.drop_first())
    }
}

/// 256 to the power `width`: the number of values that `width` bytes can hold.
pub open spec fn byte_range(width: nat) -> nat
    decreases width,
{
    if width == 0 {
        1
    } else {
        256 * byte_range((width - 1) as nat)
    }
}

pub broadcast proof fn lemma_le_bytes_len(value: nat, width: nat)
    ensures
        #[trigger] le_bytes(value, width).len() == width,
    decreases width,
{
    if width > 0 {
        lemma_le_bytes_len(value / 256, (width - 1) as nat);
    }
}

pub proof fn lemma_byte_ranges()
    ensures
        byte_range(1) == 0x100,
        byte_range(2) == 0x1_0000,
        byte_range(4) == 0x1_0000_0000,
        byte_range(8) == 0x1_0000_0000_0000_0000,
{
    reveal_with_fuel(byte_range, 9);
}

/// Reading back the digits of a number that fits gives the number.
pub proof fn lemma_le_value_of_bytes(value: nat, width: nat)
    requires
        value < byte_range(width),
    ensures
        le_value(le_bytes(value, width)) == value,
    decreases width,
{
    if width > 0 {
        let tail = le_bytes(value / 256, (width - 1) as nat);
        lemma_le_value_of_bytes(value / 256, (width - 1) as nat);
        assert(le_bytes(value, width).drop_first() =~= tail);
    }
}

/// `digits.len()` bytes hold no more than their range.
pub proof fn lemma_le_value_bound(digits: Seq<u8>)
    ensures
        le_value(digits) < byte_range(digits.len()),
    decreases digits.len(),
{
    if digits.len() > 0 {
        lemma_le_value_bound(digits.drop_first());
    }
}

/// The byte that holds `value` in two's complement.
pub open spec fn signed_byte(value: i8) -> u8 {
    if value >= 0 {
        value as u8
    } else {
        (value + 256) as u8
    }
}

/// The value that `byte` holds in two's complement.
pub open spec fn byte_signed(byte: u8) -> i8 {
    if byte < 128 {
        byte as i8
    } else {
        (byte - 256) as i8
    }
}

/// The 64-bit word that holds `value` in two's complement.
pub open spec fn signed_word(value: i64) -> u64 {
    if value >= 0 {
        value as u64
    } else {
        (value + 0x1_0000_0000_0000_0000) as u64
    }
}

/// The value that a 64-bit word holds in two's complement.
pub open spec fn word_signed(word: u64) -> i64 {
    if word < 0x8000_0000_0000_0000 {
        word as i64
    } else {
        (word - 0x1_0000_0000_0000_0000) as i64
    }
}

/// Appends the low `width` base-256 digits of `value`.
pub fn push_le(buf: &mut Vec<u8>, value: u64, width: usize)
    ensures
        final(buf)@ == old(buf)@ + le_bytes(value as nat, width as nat),
{
    let mut left: u64 = value;
    let mut i: usize = 0;
    assert(buf@ + le_bytes(left as nat, width as nat) =~= old(buf)@ + le_bytes(value as nat, width as nat));
    while i < width
        invariant
            i <= width,
            buf@ + le_bytes(left as nat, (width - i) as nat) == old(buf)@ + le_bytes(value as nat, width as nat),
        decreases width - i,
    {
        let ghost before = buf@;
        buf.push((left % 256) as u8);
        assert(buf@ + le_bytes(left as nat / 256, (width - i - 1) as nat)
            =~= before + le_bytes(left as nat, (width - i) as nat));
        left = left / 256;
        i = i + 1;
    }
    assert(buf@ + le_bytes(left as nat, 0) =~= buf@);
}

/// The number that the `width` bytes from `at` on hold.
pub fn read_le(buf: &[u8], at: usize, width: usize) -> (value: u64)
    requires
        at + width <= buf@.len(),
        width <= 8,
    ensures
        value == le_value(buf@.subrange(at as int, at + width)),
{
    let total: usize = buf.len();
    let mut value: u64 = 0;
    let mut i: usize = width;
    while i > 0
        invariant
            at + width <= total == buf@.len(),
            i <= width <= 8,
            value == le_value(buf@.subrange(at + i, at + width)),
        decreases i,
    {
        i = i - 1;
        proof {
            let tail = buf@.subrange(at + i + 1, at + width);
            let whole = buf@.subrange(at + i, at + width);
            assert(whole.drop_first() =~= tail);
            lemma_le_value_bound(tail);
            lemma_le_value_bound(whole);
            reveal_with_fuel(byte_range, 9);
            assert(le_value(whole) == buf@[at + i] as nat + 256 * le_value(tail));
        }
        value = value * 256 + buf[at + i] as u64;
    }
    value
}

/// Writes the low `width` base-256 digits of `value` from `at` on.
pub fn put_le<const N: usize>(buf: &mut [u8; N], at: usize, value: u64, width: usize)
    requires
        at + width <= N,
    ensures
        final(buf)@ == old(buf)@.take(at as int) + le_bytes(value as nat, width as nat) + old(
            buf,
        )@.skip(at + width),
{
    let ghost start = buf@;
    let mut left: u64 = value;
    let mut i: usize = 0;
    assert(buf@.take(at as int) + le_bytes(left as nat, width as nat) =~= start.take(at as int)
        + le_bytes(value as nat, width as nat));
    while i < width
        invariant
            i <= width,
            at + width <= N,
            start == old(buf)@,
            buf@.len() == N,
            buf@.take(at + i) + le_bytes(left as nat, (width - i) as nat) == start.take(at as int)
                + le_bytes(value as nat, width as nat),
            buf@.skip(at + width) == start.skip(at + width),
        decreases width - i,
    {
        let ghost before = buf@;
        buf[at + i] = (left % 256) as u8;
        proof {
            assert(buf@ =~= before.update(at + i, (left % 256) as u8));
            assert(buf@.take(at + i + 1) + le_bytes(left as nat / 256, (width - i - 1) as nat)
                =~= before.take(at + i) + le_bytes(left as nat, (width - i) as nat));
            assert(buf@.skip(at + width) =~= before.skip(at + width));
        }
        left = left / 256;
        i = i + 1;
    }
    proof {
        assert(buf@.take(at + width) + le_bytes(left as nat, 0) =~= buf@.take(at + width));
        assert(buf@ =~= buf@.take(at + width) + buf@.skip(at + width));
    }
}

pub fn signed_to_byte(value: i8) -> (byte: u8)
    ensures
        byte == signed_byte(value),
{
    if value >= 0 {
        value as u8
    } else {
        (value as i16 + 256) as u8
    }
}

pub fn byte_to_signed(byte: u8) -> (value: i8)
    ensures
        value == byte_signed(byte),
{
    if byte < 128 {
        byte as i8
    } else {
        (byte as i16 - 256) as i8
    }
}

pub fn signed_to_word(value: i64) -> (word: u64)
    ensures
        word == signed_word(value),
{
    if value >= 0 {
        value as u64
    } else {
        (value as i128 + 0x1_0000_0000_0000_0000i128) as u64
    }
}

pub fn word_to_signed(word: u64) -> (value: i64)
    ensures
        value == word_signed(word),
{
    if word < 0x8000_0000_0000_0000 {
        word as i64
    } else {
        (word as i128 - 0x1_0000_0000_0000_0000i128) as i64
    }
}

/// `std::str::from_utf8`, with the text copied out: the text whose UTF-8 form is `bytes`, and
/// `None` where `bytes` is not UTF-8.
#[verifier::external_body]
pub(crate) fn utf8_text(bytes: &[u8]) -> (text: Option<String>)
    ensures
        match text {
            Some(t) => valid_utf8(bytes@) && encode_utf8(t@) == bytes@,
            None => !valid_utf8(bytes@),
        },
{
    std::str::from_utf8(bytes).ok().map(str::to_owned)
}

/// `a` comes before `b` in lexicographic order.
pub open spec fn bytes_before(a: Seq<u8>, b: Seq<u8>) -> bool
    decreases a.len(),
{
    if b.len() == 0 {
        false
    } else if a.len() == 0 {
        true
    } else if a[0] != b[0] {
        a[0] < b[0]
    } else {
        bytes_before(a.drop_first(), b.drop_first())
    }
}

/// `a` comes before `b` in the lexicographic order of their UTF-8 bytes.
pub open spec fn text_before(a: Seq<char>, b: Seq<char>) -> bool {
    bytes_before(encode_utf8(a), encode_utf8(b))
}

proof fn lemma_bytes_before_total(a: Seq<u8>, b: Seq<u8>)
    ensures
        a != b ==> bytes_before(a, b) || bytes_before(b, a),
        !(bytes_before(a, b) && bytes_before(b, a)),
        bytes_before(a, b) ==> a != b,
    decreases a.len(),
{
    if a.len() > 0 && b.len() > 0 && a[0] == b[0] {
        lemma_bytes_before_total(a.drop_first(), b.drop_first());
        assert(a =~= seq![a[0]] + a.drop_first());
        assert(b =~= seq![b[0]] + b.drop_first());
    } else if a.len() == 0 && b.len() == 0 {
        assert(a =~= b);
    }
}

proof fn lemma_bytes_before_transitive(a: Seq<u8>, b: Seq<u8>, c: Seq<u8>)
    requires
        bytes_before(a, b),
        bytes_before(b, c),
    ensures
        bytes_before(a, c),
    decreases a.len(),
{
    if a.len() > 0 && a[0] == b[0] && b[0] == c[0] {
        lemma_bytes_before_transitive(a.drop_first(), b.drop_first(), c.drop_first());
    }
}

/// The order of texts is total and strict.
pub proof fn lemma_text_before_total(a: Seq<char>, b: Seq<char>)
    ensures
        a != b ==> text_before(a, b) || text_before(b, a),
        !(text_before(a, b) && text_before(b, a)),
        text_before(a, b) ==> a != b,
{
    lemma_bytes_before_total(encode_utf8(a), encode_utf8(b));
    vstd::utf8::encode_utf8_decode_utf8(a);
    vstd::utf8::encode_utf8_decode_utf8(b);
}

/// The order of texts is transitive.
pub proof fn lemma_text_before_transitive(a: Seq<char>, b: Seq<char>, c: Seq<char>)
    requires
        text_before(a, b),
        text_before(b, c),
    ensures
        text_before(a, c),
{
    lemma_bytes_before_transitive(encode_utf8(a), encode_utf8(b), encode_utf8(c));
}

/// Whether `a` comes before `b` in the lexicographic order of their UTF-8 bytes.
pub fn is_text_before(a: &str, b: &str) -> (before: bool)
    ensures
        before == text_before(a@, b@),
{
    let x = a.as_bytes();
    let y = b.as_bytes();
    let mut i: usize = 0;
    assert(x@.subrange(0, x@.len() as int) =~= x@);
    assert(y@.subrange(0, y@.len() as int) =~= y@);
    while i < x.len() && i < y.len() && x[i] == y[i]
        invariant
            i <= x@.len(),
            i <= y@.len(),
            bytes_before(x@, y@) == bytes_before(
                x@.subrange(i as int, x@.len() as int),
                y@.subrange(i as int, y@.len() as int),
            ),
        decreases x@.len() - i,
    {
        proof {
            let xs = x@.subrange(i as int, x@.len() as int);
            let ys = y@.subrange(i as int, y@.len() as int);
            assert(xs.drop_first() =~= x@.subrange(i + 1, x@.len() as int));
            assert(ys.drop_first() =~= y@.subrange(i + 1, y@.len() as int));
        }
        i = i + 1;
    }
    if i >= y.len() {
        false
    } else if i >= x.len() {
        true
    } else {
        x[i] < y[i]
    }
}

/// Whether `a` and `b` are the same text.
pub fn is_same_text(a: &str, b: &str) -> (same: bool)
    ensures
        same == (a@ == b@),
{
    proof {
        lemma_text_before_total(a@, b@);
    }
    !is_text_before(a, b) && !is_text_before(b, a)
}

} // verus!
