//! Numbers as text.

use vstd::prelude::*;
use vstd::string::*;

verus! {

/// The digit `d` in base sixteen.
pub open spec fn digit_char(d: nat) -> char {
    if d < 10 {
        (48 + d) as char
    } else {
        (87 + d) as char
    }
}

/// `n` in base ten, without leading zeros.
pub open spec fn decimal(n: nat) -> Seq<char>
    decreases n,
{
    if n < 10 {
        seq![digit_char(n)]
    } else {
        decimal(n / 10).push(digit_char(n % 10))
    }
}

/// The low `width` digits of `n` in base sixteen.
pub open spec fn hex_digits(n: nat, width: nat) -> Seq<char>
    decreases width,
{
    if width == 0 {
        Seq::empty()
    } else {
        hex_digits(n / 16, (width - 1) as nat).push(digit_char(n % 16))
    }
}

/// `id` as thirty-two hexadecimal digits in groups of 8, 4, 4, 4 and 12.
pub open spec fn hyphenated(id: u128) -> Seq<char> {
    hex_digits((id / 0x1_0000_0000_0000_0000_0000_0000) as nat, 8).push('-') + hex_digits(
        (id / 0x1_0000_0000_0000_0000_0000) as nat,
        4,
    ).push('-') + hex_digits((id / 0x1_0000_0000_0000_0000) as nat, 4).push('-') + hex_digits(
        (id / 0x1_0000_0000_0000) as nat,
        4,
    ).push('-') + hex_digits(id as nat, 12)
}

fn digit(d: u8) -> (s: &'static str)
    requires
        d < 16,
    ensures
        s@ == seq![digit_char(d as nat)],
{
    proof {
        reveal_strlit("0");
        reveal_strlit("1");
        reveal_strlit("2");
        reveal_strlit("3");
        reveal_strlit("4");
        reveal_strlit("5");
        reveal_strlit("6");
        reveal_strlit("7");
        reveal_strlit("8");
        reveal_strlit("9");
        reveal_strlit("a");
        reveal_strlit("b");
        reveal_strlit("c");
        reveal_strlit("d");
        reveal_strlit("e");
        reveal_strlit("f");
    }
    let s = match d {
        0 => "0",
        1 => "1",
        2 => "2",
        3 => "3",
        4 => "4",
        5 => "5",
        6 => "6",
        7 => "7",
        8 => "8",
        9 => "9",
        10 => "a",
        11 => "b",
        12 => "c",
        13 => "d",
        14 => "e",
        _ => "f",
    };
    assert(s@ =~= seq![digit_char(d as nat)]);
    s
}

/// Appends `n` in base ten.
pub fn push_decimal(text: &mut String, n: u64)
    ensures
        final(text)@ == old(text)@ + decimal(n as nat),
    decreases n,
{
    if n >= 10 {
        push_decimal(text, n / 10);
    }
    text.append(digit((n % 10) as u8));
    assert(text@ =~= old(text)@ + decimal(n as nat));
}

/// Appends the low `width` digits of `n` in base sixteen.
pub fn push_hex(text: &mut String, n: u128, width: usize)
    ensures
        final(text)@ == old(text)@ + hex_digits(n as nat, width as nat),
    decreases width,
{
    if width > 0 {
        push_hex(text, n / 16, width - 1);
        text.append(digit((n % 16) as u8));
    }
    assert(text@ =~= old(text)@ + hex_digits(n as nat, width as nat));
}

fn push_hyphen(text: &mut String)
    ensures
        final(text)@ == old(text)@.push('-'),
{
    proof {
        reveal_strlit("-");
    }
    text.append("-");
    assert(text@ =~= old(text)@.push('-'));
}

/// Appends `id` in hyphenated groups.
pub fn push_hyphenated(text: &mut String, id: u128)
    ensures
        final(text)@ == old(text)@ + hyphenated(id),
{
    push_hex(text, id / 0x1_0000_0000_0000_0000_0000_0000, 8);
    push_hyphen(text);
    push_hex(text, id / 0x1_0000_0000_0000_0000_0000, 4);
    push_hyphen(text);
    push_hex(text, id / 0x1_0000_0000_0000_0000, 4);
    push_hyphen(text);
    push_hex(text, id / 0x1_0000_0000_0000, 4);
    push_hyphen(text);
    push_hex(text, id, 12);
    assert(text@ =~= old(text)@ + hyphenated(id));
}

/// `before`, `n` in base ten, `after`.
pub fn numbered(before: &str, n: u64, after: &str) -> (text: String)
    ensures
        text@ == before@ + decimal(n as nat) + after@,
{
    let mut text = String::from_str(before);
    push_decimal(&mut text, n);
    text.append(after);
    text
}

} // verus!
