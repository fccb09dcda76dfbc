//! Rendering of unsigned values as upper-case hexadecimal text.

use vstd::prelude::*;
use vstd::string::StringExecFns;

verus! {

/// The upper-case hexadecimal digit for a value below sixteen.
pub open spec fn hex_char(n: int) -> char {
    if n == 0x0 {
        '0'
    } else if n == 0x1 {
        '1'
    } else if n == 0x2 {
        '2'
    } else if n == 0x3 {
        '3'
    } else if n == 0x4 {
        '4'
    } else if n == 0x5 {
        '5'
    } else if n == 0x6 {
        '6'
    } else if n == 0x7 {
        '7'
    } else if n == 0x8 {
        '8'
    } else if n == 0x9 {
        '9'
    } else if n == 0xA {
        'A'
    } else if n == 0xB {
        'B'
    } else if n == 0xC {
        'C'
    } else if n == 0xD {
        'D'
    } else if n == 0xE {
        'E'
    } else {
        'F'
    }
}

/// The digits of `n` in base sixteen, most significant first; a value below
/// sixteen is a single digit.
pub open spec fn hex_digits(n: int) -> Seq<char>
    decreases n,
{
    if n < 16 {
        seq![hex_char(n)]
    } else {
        hex_digits(n / 16).push(hex_char(n % 16))
    }
}

/// The digits of `n`, zero-padded on the left to a width of at least three
/// (the shape a `{:03X}` conversion produces).
pub open spec fn hex_min3(n: int) -> Seq<char> {
    if n < 0x10 {
        seq!['0', '0', hex_char(n)]
    } else if n < 0x100 {
        seq!['0', hex_char(n / 16), hex_char(n % 16)]
    } else {
        hex_digits(n)
    }
}

/// The upper-case hexadecimal digit of `n`, as a one-character string.
pub fn hex_digit_str(n: u16) -> (r: &'static str)
    requires
        n < 16,
    ensures
        r@ == seq![hex_char(n as int)],
{
    let r: &'static str = match n {
        0x0 => "0",
        0x1 => "1",
        0x2 => "2",
        0x3 => "3",
        0x4 => "4",
        0x5 => "5",
        0x6 => "6",
        0x7 => "7",
        0x8 => "8",
        0x9 => "9",
        0xA => "A",
        0xB => "B",
        0xC => "C",
        0xD => "D",
        0xE => "E",
        _ => "F",
    };
    proof {
        reveal_strlit("0");
        reveal_strlit("1");
        reveal_strlit("2");
        reveal_strlit("3");
        reveal_strlit("4");
        reveal_strlit("5");
        reveal_strlit("6");
        reveal_strlit("7");
        reveal_strlit("8");
        reveal_strlit("9");
        reveal_strlit("A");
        reveal_strlit("B");
        reveal_strlit("C");
        reveal_strlit("D");
        reveal_strlit("E");
        reveal_strlit("F");
        assert(r@ =~= seq![hex_char(n as int)]);
    }
    r
}

/// Appends the base-sixteen digits of `n` to `s`.
pub fn append_hex_digits(s: &mut String, n: usize)
    ensures
        final(s)@ == old(s)@ + hex_digits(n as int),
    decreases n,
{
    if n < 16 {
        s.append(hex_digit_str(n as u16));
        proof {
            assert(s@ =~= old(s)@ + hex_digits(n as int));
        }
    } else {
        append_hex_digits(s, n / 16);
        s.append(hex_digit_str((n % 16) as u16));
        proof {
            assert(s@ =~= old(s)@ + hex_digits(n as int));
        }
    }
}

/// Appends `n` to `s`, zero-padded to at least three hexadecimal digits.
pub fn append_hex_min3(s: &mut String, n: usize)
    ensures
        final(s)@ == old(s)@ + hex_min3(n as int),
{
    if n < 0x10 {
        s.append("00");
        s.append(hex_digit_str(n as u16));
        proof {
            reveal_strlit("00");
            assert(s@ =~= old(s)@ + hex_min3(n as int));
        }
    } else if n < 0x100 {
        s.append("0");
        s.append(hex_digit_str((n / 16) as u16));
        s.append(hex_digit_str((n % 16) as u16));
        proof {
            reveal_strlit("0");
            assert(s@ =~= old(s)@ + hex_min3(n as int));
        }
    } else {
        append_hex_digits(s, n);
    }
}

} // verus!
