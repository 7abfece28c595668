//! What stands where in the bytes of a stream, and which records a stream takes.

use vstd::arithmetic::div_mod::lemma_div_denominator;
use vstd::arithmetic::power::{lemma_pow_positive, pow};
use vstd::prelude::*;
use vstd::utf8::encode_utf8;

use crate::bytes::{
    byte_range, byte_signed, bytes_before, le_bytes, le_value, lemma_byte_ranges,
    lemma_le_bytes_len, lemma_le_value_bound, signed_byte, signed_word, text_before, word_signed,
};
use crate::decode::{
    DecoderView, IngressError, PreambleError, RecordAction, StreamPreamble, after_decoding,
    after_preamble, decoding, field, header_in, magic, preamble_answer, preamble_in, profile_in,
};
use crate::encode::{RecordContext, header_bytes, preamble_bytes, record_of};
use crate::grammar::{opcode_of, payload_of};
use crate::isa::IsaOpView;
use crate::laws::routing::law_classes;
use crate::{PathId, SessionId};
use crate::profile::{ProfileView, TrustLevel, trust_level_of};
use crate::runtime::ParsedHeader;
use crate::text::{decimal, digit_char, hex_digits, hyphenated};

verus! {

// ── Numbers ──────────────────────────────────────────────────────────────────

/// The byte at `i` of a number is the digit of weight 256 to the power `i`: the least one first.
pub proof fn law_digits(value: nat, width: nat, i: nat)
    requires
        i < width,
    ensures
        le_bytes(value, width).len() == width,
        le_bytes(value, width)[i as int] == (value as int / pow(256, i)) % 256,
    decreases i,
{
    lemma_le_bytes_len(value, width);
    lemma_le_bytes_len(value / 256, (width - 1) as nat);
    reveal_with_fuel(pow, 2);
    if i > 0 {
        let j = (i - 1) as nat;
        law_digits(value / 256, (width - 1) as nat, j);
        assert(le_bytes(value, width)[i as int] == le_bytes(
            value / 256,
            (width - 1) as nat,
        )[j as int]);
        lemma_pow_positive(256, j);
        lemma_div_denominator(value as int, 256, pow(256, j));
        assert(pow(256, i) == 256 * pow(256, j));
    }
}

/// What is read of bytes is the number that is written as these bytes, and no other.
pub proof fn law_reading_numbers(digits: Seq<u8>)
    ensures
        le_bytes(le_value(digits), digits.len()) == digits,
    decreases digits.len(),
{
    if digits.len() > 0 {
        law_reading_numbers(digits.drop_first());
        let value = le_value(digits);
        assert(value % 256 == digits[0]);
        assert(value / 256 == le_value(digits.drop_first()));
        assert(digits =~= seq![digits[0]] + digits.drop_first());
    }
}

/// A signed byte and a signed word stand for the numbers that they are equal to in 256 and 2^64,
/// and reading undoes writing.
pub proof fn law_signed_numbers(byte: i8, word: i64)
    ensures
        (signed_byte(byte) - byte) % 256 == 0,
        byte_signed(signed_byte(byte)) == byte,
        (signed_word(word) - word) % 0x1_0000_0000_0000_0000 == 0,
        word_signed(signed_word(word)) == word,
{
}

/// The order of byte strings: one comes before another where it is a proper prefix of it, or where
/// it has the lower byte at the first place in which they differ.
pub proof fn law_byte_order(a: Seq<u8>, b: Seq<u8>, n: int)
    requires
        0 <= n <= a.len(),
        n <= b.len(),
        a.take(n) == b.take(n),
    ensures
        n == a.len() && n < b.len() ==> bytes_before(a, b),
        n < a.len() && n < b.len() && a[n] < b[n] ==> bytes_before(a, b),
        n < a.len() && n < b.len() && a[n] > b[n] ==> !bytes_before(a, b),
        n == b.len() ==> !bytes_before(a, b),
    decreases n,
{
    if n > 0 {
        assert(a[0] == a.take(n)[0] && b[0] == b.take(n)[0]);
        let x = a.drop_first();
        let y = b.drop_first();
        assert(x.take(n - 1) =~= a.take(n).drop_first());
        assert(y.take(n - 1) =~= b.take(n).drop_first());
        law_byte_order(x, y, n - 1);
    }
}

/// Texts are ordered as their bytes are.
pub proof fn law_text_order(a: Seq<char>, b: Seq<char>)
    ensures
        text_before(a, b) <==> bytes_before(encode_utf8(a), encode_utf8(b)),
{
}

proof fn lemma_field(s: Seq<u8>, from: int, to: int)
    requires
        0 <= from <= to <= s.len(),
        to - from == 2 || to - from == 4 || to - from == 8,
    ensures
        field(s, from, to) < byte_range((to - from) as nat),
        byte_range(2) == 0x1_0000,
        byte_range(4) == 0x1_0000_0000,
        byte_range(8) == 0x1_0000_0000_0000_0000,
        le_bytes(field(s, from, to), (to - from) as nat) == s.subrange(from, to),
{
    lemma_byte_ranges();
    lemma_le_value_bound(s.subrange(from, to));
    law_reading_numbers(s.subrange(from, to));
}

// ── Headers ──────────────────────────────────────────────────────────────────

/// The fields of a record's header, by their places in its 48 bytes.
pub proof fn law_header_layout(s: Seq<u8>)
    requires
        s.len() == 48,
    ensures
        le_bytes(header_in(s).opcode as nat, 2) == s.subrange(0, 2),
        le_bytes(header_in(s).flags as nat, 2) == s.subrange(2, 4),
        le_bytes(header_in(s).length as nat, 4) == s.subrange(4, 8),
        le_bytes(header_in(s).tenant_id.0 as nat, 8) == s.subrange(8, 16),
        le_bytes(header_in(s).session_id.0 as nat, 8) == s.subrange(16, 24),
        le_bytes(header_in(s).partition_id.0 as nat, 8) == s.subrange(24, 32),
        le_bytes(header_in(s).causal_epoch as nat, 8) == s.subrange(32, 40),
        le_bytes(header_in(s).stream_seq as nat, 8) == s.subrange(40, 48),
{
    lemma_field(s, 0, 2);
    lemma_field(s, 2, 4);
    lemma_field(s, 4, 8);
    lemma_field(s, 8, 16);
    lemma_field(s, 16, 24);
    lemma_field(s, 24, 32);
    lemma_field(s, 32, 40);
    lemma_field(s, 40, 48);
}

/// The fields of a stream's preamble, by their places in its 32 bytes. It is taken exactly where it
/// begins with the four bytes of `PGRS` and has version 3.
pub proof fn law_preamble_layout(s: Seq<u8>)
    requires
        s.len() == 32,
    ensures
        le_bytes(preamble_in(s).abi_version as nat, 2) == s.subrange(4, 6),
        le_bytes(preamble_in(s).flags as nat, 2) == s.subrange(6, 8),
        le_bytes(preamble_in(s).feature_flags as nat, 8) == s.subrange(8, 16),
        le_bytes(preamble_in(s).path_id.0 as nat, 8) == s.subrange(16, 24),
        le_bytes(preamble_in(s).session_id.0 as nat, 8) == s.subrange(24, 32),
        ({
            let starts = s[0] == 0x50 && s[1] == 0x47 && s[2] == 0x52 && s[3] == 0x53;
            let version = preamble_in(s).abi_version;
            &&& preamble_answer(s) is Ok <==> starts && version == 3
            &&& preamble_answer(s) matches Ok(p) ==> p == preamble_in(s)
            &&& !starts ==> preamble_answer(s) == Err::<StreamPreamble, _>(PreambleError::BadMagic)
            &&& starts && version != 3 ==> preamble_answer(s) == Err::<StreamPreamble, _>(
                PreambleError::UnsupportedVersion(version),
            )
        }),
{
    lemma_field(s, 4, 6);
    lemma_field(s, 6, 8);
    lemma_field(s, 8, 16);
    lemma_field(s, 16, 24);
    lemma_field(s, 24, 32);
    let start = s.take(4);
    let expected = magic();
    assert(expected.len() == 4);
    if s[0] == 0x50 && s[1] == 0x47 && s[2] == 0x52 && s[3] == 0x53 {
        assert(start =~= expected);
    } else {
        assert(start[0] == s[0] && start[1] == s[1] && start[2] == s[2] && start[3] == s[3]);
        assert(expected[0] == 0x50 && expected[1] == 0x47 && expected[2] == 0x52 && expected[3]
            == 0x53);
    }
}

/// A preamble that is taken becomes the stream's; one that is not leaves the stream as it was. What
/// was seen of the sessions stays in either case.
pub proof fn law_preamble_is_kept(d: DecoderView, s: Seq<u8>)
    ensures
        preamble_answer(s) is Err ==> after_preamble(d, s) == d,
        preamble_answer(s) matches Ok(p) ==> after_preamble(d, s).preamble == Some(p),
        after_preamble(d, s).seq_trace == d.seq_trace,
        after_preamble(d, s).epoch_trace == d.epoch_trace,
        after_preamble(d, s).gap_count == d.gap_count,
        after_preamble(d, s).epoch_regression_count == d.epoch_regression_count,
{
}

/// What is written of a record's header, by its places.
pub proof fn law_written_header(opcode: u16, length: int, ctx: RecordContext)
    requires
        0 <= length < 0x1_0000_0000,
    ensures
        ({
            let s = header_bytes(opcode, length, ctx);
            &&& s.len() == 48
            &&& s.subrange(0, 2) == le_bytes(opcode as nat, 2)
            &&& s.subrange(2, 4) == le_bytes(ctx.flags as nat, 2)
            &&& s.subrange(4, 8) == le_bytes(length as nat, 4)
            &&& s.subrange(8, 16) == le_bytes(ctx.tenant_id.0 as nat, 8)
            &&& s.subrange(16, 24) == le_bytes(ctx.session_id.0 as nat, 8)
            &&& s.subrange(24, 32) == le_bytes(ctx.partition_id.0 as nat, 8)
            &&& s.subrange(32, 40) == le_bytes(ctx.causal_epoch as nat, 8)
            &&& s.subrange(40, 48) == le_bytes(ctx.stream_seq as nat, 8)
        }),
{
    broadcast use lemma_le_bytes_len;

    let s = header_bytes(opcode, length, ctx);
    assert(s.subrange(0, 2) =~= le_bytes(opcode as nat, 2));
    assert(s.subrange(2, 4) =~= le_bytes(ctx.flags as nat, 2));
    assert(s.subrange(4, 8) =~= le_bytes(length as nat, 4));
    assert(s.subrange(8, 16) =~= le_bytes(ctx.tenant_id.0 as nat, 8));
    assert(s.subrange(16, 24) =~= le_bytes(ctx.session_id.0 as nat, 8));
    assert(s.subrange(24, 32) =~= le_bytes(ctx.partition_id.0 as nat, 8));
    assert(s.subrange(32, 40) =~= le_bytes(ctx.causal_epoch as nat, 8));
    assert(s.subrange(40, 48) =~= le_bytes(ctx.stream_seq as nat, 8));
}

/// A record is its header, with the length of the whole, and its payload.
pub proof fn law_written_record(op: IsaOpView, ctx: RecordContext)
    requires
        payload_of(op).len() + 48 < 0x1_0000_0000,
    ensures
        ({
            let s = record_of(op, ctx);
            &&& s.len() == payload_of(op).len() + 48
            &&& s.subrange(0, 48) == header_bytes(opcode_of(op), s.len() as int, ctx)
            &&& s.subrange(48, s.len() as int) == payload_of(op)
        }),
{
    law_written_header(opcode_of(op), (48 + payload_of(op).len()) as int, ctx);
    let s = record_of(op, ctx);
    assert(s.subrange(0, 48) =~= header_bytes(opcode_of(op), s.len() as int, ctx));
    assert(s.subrange(48, s.len() as int) =~= payload_of(op));
}

/// What is written of a preamble, by its places.
pub proof fn law_written_preamble(
    path_id: PathId,
    session_id: SessionId,
    feature_flags: u64,
    flags: u16,
)
    ensures
        ({
            let s = preamble_bytes(path_id, session_id, feature_flags, flags);
            &&& s.len() == 32
            &&& s.subrange(0, 4) == seq![0x50u8, 0x47u8, 0x52u8, 0x53u8]
            &&& s.subrange(4, 6) == le_bytes(3, 2)
            &&& s.subrange(6, 8) == le_bytes(flags as nat, 2)
            &&& s.subrange(8, 16) == le_bytes(feature_flags as nat, 8)
            &&& s.subrange(16, 24) == le_bytes(path_id.0 as nat, 8)
            &&& s.subrange(24, 32) == le_bytes(session_id.0 as nat, 8)
        }),
{
    broadcast use lemma_le_bytes_len;

    let s = preamble_bytes(path_id, session_id, feature_flags, flags);
    assert(s.subrange(0, 4) =~= seq![0x50u8, 0x47u8, 0x52u8, 0x53u8]);
    assert(s.subrange(4, 6) =~= le_bytes(3, 2));
    assert(s.subrange(6, 8) =~= le_bytes(flags as nat, 2));
    assert(s.subrange(8, 16) =~= le_bytes(feature_flags as nat, 8));
    assert(s.subrange(16, 24) =~= le_bytes(path_id.0 as nat, 8));
    assert(s.subrange(24, 32) =~= le_bytes(session_id.0 as nat, 8));
}

// ── Records ──────────────────────────────────────────────────────────────────

/// Which records a stream takes, and how it answers the others: first that there is a preamble, and
/// then the length, the opcode, the session, the sequence number and the epoch, in that order.
pub proof fn law_accepted_records(d: DecoderView, h: ParsedHeader)
    ensures
        ({
            let answer = decoding(d, h);
            let id = h.session_id;
            let begun = d.preamble is Some;
            let shaped = begun && h.length >= 48 && h.opcode != 0;
            let own = shaped && id.0 == (d.preamble->0).session_id.0;
            let advances = d.seq_trace.contains_key(id) ==> h.stream_seq > d.seq_trace[id];
            let keeps_up = d.epoch_trace.contains_key(id) ==> h.causal_epoch >= d.epoch_trace[id];
            &&& answer is Ok <==> own && advances && keeps_up
            &&& !begun ==> answer == Err::<RecordAction, _>(IngressError::PreambleRequired)
            &&& begun && h.length < 48 ==> answer == Err::<RecordAction, _>(
                IngressError::InvalidLength { length: h.length },
            )
            &&& begun && h.length >= 48 && h.opcode == 0 ==> answer == Err::<RecordAction, _>(
                IngressError::InvalidOpcode,
            )
            &&& shaped && !own ==> answer == Err::<RecordAction, _>(
                IngressError::SessionIdMismatch {
                    preamble: (d.preamble->0).session_id,
                    header: id,
                },
            )
            &&& own && !advances ==> answer == Err::<RecordAction, _>(
                IngressError::StreamSeqGap {
                    session_id: id,
                    last_seen: d.seq_trace[id],
                    got: h.stream_seq,
                },
            )
            &&& own && advances && !keeps_up ==> answer == Err::<RecordAction, _>(
                IngressError::EpochRegression {
                    session_id: id,
                    last_epoch: d.epoch_trace[id],
                    got: h.causal_epoch,
                },
            )
        }),
{
}

/// What is to be done with a record that was taken: a profile is read, what is of no known class is
/// skipped, and the rest is routed. The payload is what follows the 48 bytes of the header.
pub proof fn law_actions(d: DecoderView, h: ParsedHeader)
    requires
        decoding(d, h) is Ok,
    ensures
        ({
            let action = decoding(d, h)->Ok_0;
            &&& action == (RecordAction::ReadProfile {
                header: h,
                payload_len: (h.length - 48) as u32,
            }) <==> h.opcode == 256
            &&& action == (RecordAction::SkipPayload {
                header: h,
                skip_bytes: (h.length - 48) as u32,
            }) <==> h.opcode > 18 && h.opcode != 256
            &&& action == RecordAction::RouteReady(h) <==> 1 <= h.opcode <= 18
        }),
{
    law_classes(h.opcode);
}

/// What a stream remembers of a record: the number and the epoch of one that was taken; of one whose
/// epoch fell behind, the number and that it did; of one whose number did not advance, that it did
/// not; and of any other nothing. Other sessions and the preamble stay.
pub proof fn law_what_is_remembered(d: DecoderView, h: ParsedHeader, other: SessionId)
    ensures
        ({
            let after = after_decoding(d, h);
            let id = h.session_id;
            let answer = decoding(d, h);
            let gap = answer is Err && answer->Err_0 is StreamSeqGap;
            let behind = answer is Err && answer->Err_0 is EpochRegression;
            &&& after.preamble == d.preamble
            &&& answer is Ok || behind ==> after.seq_trace.contains_key(id) && after.seq_trace[id]
                == h.stream_seq
            &&& answer is Ok ==> after.epoch_trace.contains_key(id) && after.epoch_trace[id]
                == h.causal_epoch
            &&& answer is Err && !behind ==> after.seq_trace == d.seq_trace
            &&& answer is Err ==> after.epoch_trace == d.epoch_trace
            &&& after.gap_count - d.gap_count == if gap && d.gap_count < u64::MAX {
                1int
            } else {
                0int
            }
            &&& after.epoch_regression_count - d.epoch_regression_count == if behind
                && d.epoch_regression_count < u64::MAX {
                1int
            } else {
                0int
            }
            &&& other != id ==> after.seq_trace.contains_key(other) == d.seq_trace.contains_key(
                other,
            ) && after.seq_trace[other] == d.seq_trace[other]
            &&& other != id ==> after.epoch_trace.contains_key(other)
                == d.epoch_trace.contains_key(other) && after.epoch_trace[other]
                == d.epoch_trace[other]
        }),
{
}

// ── Profiles ─────────────────────────────────────────────────────────────────

/// A trust level is a byte from 1 to 3.
pub proof fn law_trust_levels(b: u8)
    ensures
        trust_level_of(b) == Some(TrustLevel::Advisory) <==> b == 1,
        trust_level_of(b) == Some(TrustLevel::Asserted) <==> b == 2,
        trust_level_of(b) == Some(TrustLevel::Attested) <==> b == 3,
        trust_level_of(b) is None <==> b == 0 || b > 3,
{
}

/// The first error of a profile payload, in the order in which they are looked for: its first seven
/// bytes, its trust level, its version, its fixed part, and its signature.
pub proof fn law_profile_errors(s: Seq<u8>)
    requires
        s.len() <= usize::MAX,
    ensures
        s.len() < 7 ==> profile_in(s) == Err::<ProfileView, _>(
            IngressError::ProfileTruncated { needed: 7, got: s.len() as usize },
        ),
        s.len() >= 7 && !(1 <= s[6] <= 3) ==> profile_in(s) == Err::<ProfileView, _>(
            IngressError::UnknownTrustLevel(s[6]),
        ),
        s.len() >= 7 && 1 <= s[6] <= 3 ==> {
            let version = s[4] + 256 * s[5];
            let fixed: int = if version == 1 {
                49
            } else {
                73
            };
            &&& version != 1 && version != 2 ==> profile_in(s) == Err::<ProfileView, _>(
                IngressError::UnknownProfileVersion(version as u16),
            )
            &&& (version == 1 || version == 2) && s.len() < fixed ==> profile_in(s) == Err::<
                ProfileView,
                _,
            >(IngressError::ProfileTruncated { needed: fixed as usize, got: s.len() as usize })
            &&& (version == 1 || version == 2) && s.len() >= fixed ==> {
                let total = fixed + s[fixed - 2] + 256 * s[fixed - 1];
                &&& s.len() < total ==> profile_in(s) == Err::<ProfileView, _>(
                    IngressError::ProfileTruncated {
                        needed: total as usize,
                        got: s.len() as usize,
                    },
                )
                &&& profile_in(s) is Ok <==> s.len() >= total
            }
        },
{
    if s.len() >= 7 {
        lemma_pair(s, 4);
        if s.len() >= 49 {
            lemma_pair(s, 47);
        }
        if s.len() >= 73 {
            lemma_pair(s, 71);
        }
    }
}

proof fn lemma_pair(s: Seq<u8>, at: int)
    requires
        0 <= at,
        at + 2 <= s.len(),
    ensures
        field(s, at, at + 2) == s[at] + 256 * s[at + 1],
{
    reveal_with_fuel(le_value, 3);
    let pair = s.subrange(at, at + 2);
    assert(pair.drop_first()[0] == s[at + 1]);
}

/// The fields of a profile payload, by their places. Version 1 has one mask for all four axes,
/// version 2 one for each; what follows them stands 24 bytes later.
pub proof fn law_profile_layout(s: Seq<u8>, p: ProfileView)
    requires
        profile_in(s) == Ok::<ProfileView, IngressError>(p),
    ensures
        s.len() >= 49,
        p.profile_version == 1 || p.profile_version == 2 && s.len() >= 73,
        le_bytes(p.profile_id as nat, 4) == s.subrange(0, 4),
        le_bytes(p.profile_version as nat, 2) == s.subrange(4, 6),
        p.trust_level == TrustLevel::Advisory <==> s[6] == 1,
        p.trust_level == TrustLevel::Asserted <==> s[6] == 2,
        p.trust_level == TrustLevel::Attested <==> s[6] == 3,
        le_bytes(p.policy.assertion as nat, 8) == s.subrange(7, 15),
        p.profile_version == 1 ==> p.policy.delegation == p.policy.assertion
            && p.policy.observability == p.policy.assertion && p.policy.disclosure
            == p.policy.assertion,
        p.profile_version == 2 ==> {
            &&& le_bytes(p.policy.delegation as nat, 8) == s.subrange(15, 23)
            &&& le_bytes(p.policy.observability as nat, 8) == s.subrange(23, 31)
            &&& le_bytes(p.policy.disclosure as nat, 8) == s.subrange(31, 39)
        },
        ({
            let at: int = if p.profile_version == 1 {
                15
            } else {
                39
            };
            let n = s[at + 32] + 256 * s[at + 33];
            &&& le_bytes(p.issuer_domain.0 as nat, 8) == s.subrange(at, at + 8)
            &&& le_bytes(p.session_id.0 as nat, 8) == s.subrange(at + 8, at + 16)
            &&& le_bytes(p.generation as nat, 8) == s.subrange(at + 16, at + 24)
            &&& le_bytes(p.expiry_epoch as nat, 8) == s.subrange(at + 24, at + 32)
            &&& s.len() >= at + 34 + n
            &&& p.signature == s.subrange(at + 34, at + 34 + n)
        }),
{
    let at: int = if field(s, 4, 6) == 1 {
        15
    } else {
        39
    };
    lemma_field(s, 0, 4);
    lemma_field(s, 4, 6);
    lemma_field(s, 7, 15);
    if at == 39 {
        lemma_field(s, 15, 23);
        lemma_field(s, 23, 31);
        lemma_field(s, 31, 39);
    }
    lemma_field(s, at, at + 8);
    lemma_field(s, at + 8, at + 16);
    lemma_field(s, at + 16, at + 24);
    lemma_field(s, at + 24, at + 32);
    lemma_pair(s, at + 32);
}

// ── Text ─────────────────────────────────────────────────────────────────────

/// The number that digits stand for, the most significant first.
pub open spec fn number_in(s: Seq<char>, base: nat) -> nat
    decreases s.len(),
{
    if s.len() == 0 {
        0
    } else {
        let c = s.last() as nat;
        base * number_in(s.drop_last(), base) + (if c >= 97 {
            (c - 87) as nat
        } else {
            (c - 48) as nat
        })
    }
}

/// A decimal numeral is made of digits, begins with 0 only where it is the numeral of 0, and stands
/// for its number.
pub proof fn law_decimal(n: nat)
    ensures
        decimal(n).len() >= 1,
        forall|i: int| 0 <= i < decimal(n).len() ==> '0' <= #[trigger] decimal(n)[i] <= '9',
        n > 0 ==> decimal(n)[0] != '0',
        n == 0 ==> decimal(n) == seq!['0'],
        number_in(decimal(n), 10) == n,
    decreases n,
{
    reveal_with_fuel(number_in, 2);
    if n < 10 {
        assert(decimal(n) =~= seq![digit_char(n)]);
        assert(decimal(n).drop_last().len() == 0);
    } else {
        law_decimal(n / 10);
        assert(decimal(n).drop_last() =~= decimal(n / 10));
    }
}

/// A hexadecimal numeral has the width that was asked for, is made of digits and small letters, and
/// stands for its number, cut to that width.
pub proof fn law_hexadecimal(n: nat, width: nat)
    ensures
        hex_digits(n, width).len() == width,
        forall|i: int|
            0 <= i < width ==> ('0' <= #[trigger] hex_digits(n, width)[i] <= '9' || 'a'
                <= hex_digits(n, width)[i] <= 'f'),
        number_in(hex_digits(n, width), 16) == n as int % pow(16, width),
    decreases width,
{
    reveal_with_fuel(pow, 2);
    if width > 0 {
        let w = (width - 1) as nat;
        law_hexadecimal(n / 16, w);
        assert(hex_digits(n, width).drop_last() =~= hex_digits(n / 16, w));
        lemma_pow_positive(16, w);
        let m = pow(16, w);
        assert(pow(16, width) == 16 * m);
        vstd::arithmetic::div_mod::lemma_mod_breakdown(n as int, 16, m);
    } else {
        assert(pow(16, 0) == 1);
    }
}

/// An identity is written with eight, four, four, four and twelve hexadecimal digits, a hyphen
/// between them, each group for its own bits.
pub proof fn law_hyphenated(id: u128)
    ensures
        ({
            let s = hyphenated(id);
            &&& s.len() == 36
            &&& s[8] == '-' && s[13] == '-' && s[18] == '-' && s[23] == '-'
            &&& s.subrange(0, 8) == hex_digits((id / 0x1_0000_0000_0000_0000_0000_0000) as nat, 8)
            &&& s.subrange(9, 13) == hex_digits((id / 0x1_0000_0000_0000_0000_0000) as nat, 4)
            &&& s.subrange(14, 18) == hex_digits((id / 0x1_0000_0000_0000_0000) as nat, 4)
            &&& s.subrange(19, 23) == hex_digits((id / 0x1_0000_0000_0000) as nat, 4)
            &&& s.subrange(24, 36) == hex_digits(id as nat, 12)
        }),
{
    let a = (id / 0x1_0000_0000_0000_0000_0000_0000) as nat;
    let b = (id / 0x1_0000_0000_0000_0000_0000) as nat;
    let c = (id / 0x1_0000_0000_0000_0000) as nat;
    let d = (id / 0x1_0000_0000_0000) as nat;
    law_hexadecimal(a, 8);
    law_hexadecimal(b, 4);
    law_hexadecimal(c, 4);
    law_hexadecimal(d, 4);
    law_hexadecimal(id as nat, 12);
    let s = hyphenated(id);
    assert(s.subrange(0, 8) =~= hex_digits(a, 8));
    assert(s.subrange(9, 13) =~= hex_digits(b, 4));
    assert(s.subrange(14, 18) =~= hex_digits(c, 4));
    assert(s.subrange(19, 23) =~= hex_digits(d, 4));
    assert(s.subrange(24, 36) =~= hex_digits(id as nat, 12));
}

} // verus!
