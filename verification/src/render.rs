//! Classification of instruction words and rendering of text lines.
//!
//! [`render_line`] is total: every one of the 65536 possible words maps to
//! exactly one line, with a fallback form for encodings the instruction set
//! leaves unassigned. The line a word renders to is pinned, character for
//! character, by the spec function [`line_of`].

use vstd::prelude::*;
use vstd::string::StringExecFns;
use crate::hex::{append_hex_min3, hex_char, hex_min3};
use crate::opcode::{addr_of, const_of, lemma_fields_bounded, n1_of, n2_of, n3_of, n4_of, Opcode};

verus! {

/// The leading address column of every line: `0x0`, the address zero-padded
/// to at least three hexadecimal digits, and a separating space.
pub open spec fn addr_part(addr: int) -> Seq<char> {
    "0x0"@ + hex_min3(addr) + " "@
}

/// A mnemonic followed by a 12-bit immediate address.
pub open spec fn body_addr12(m: Seq<char>, a: u16) -> Seq<char> {
    m + hex_min3(a as int)
}

/// A mnemonic followed by a register index and an 8-bit immediate.
pub open spec fn body_reg_const(m: Seq<char>, x: u16, c: u16) -> Seq<char> {
    m + seq![hex_char(x as int)] + " 0x0"@ + hex_min3(c as int)
}

/// A mnemonic followed by two register indices.
pub open spec fn body_reg_reg(m: Seq<char>, x: u16, y: u16) -> Seq<char> {
    m + seq![hex_char(x as int)] + " V"@ + seq![hex_char(y as int)]
}

/// A mnemonic followed by one register index.
pub open spec fn body_reg(m: Seq<char>, x: u16) -> Seq<char> {
    m + seq![hex_char(x as int)]
}

/// A mnemonic followed by one register index and a fixed trailing operand.
pub open spec fn body_reg_tail(m: Seq<char>, x: u16, t: Seq<char>) -> Seq<char> {
    m + seq![hex_char(x as int)] + t
}

/// The sprite-draw form: two register indices and a bare height nibble.
pub open spec fn body_draw(x: u16, y: u16, h: u16) -> Seq<char> {
    "DRAW      V"@ + seq![hex_char(x as int)] + " V"@ + seq![hex_char(y as int)] + " "@
        + seq![hex_char(h as int)]
}

/// The fallback form for an unassigned encoding: the raw word in four
/// hexadecimal digits.
pub open spec fn body_unknown(w: u16) -> Seq<char> {
    "???       0x"@
        + seq![
            hex_char(n1_of(w) as int),
            hex_char(n2_of(w) as int),
            hex_char(n3_of(w) as int),
            hex_char(n4_of(w) as int),
        ]
}

/// The mnemonic-and-operands part of the line a word decodes to.
///
/// Dispatch is primarily on the top nibble; the 0x0, 0x8, 0xE and 0xF
/// families split further on a secondary nibble. Every word falls into
/// exactly one case; anything unassigned lands on [`body_unknown`].
pub open spec fn body_of(w: u16) -> Seq<char> {
    if n1_of(w) == 0x0 {
        if n4_of(w) == 0x0 {
            "CLS"@
        } else if n4_of(w) == 0xE {
            "RET"@
        } else {
            body_unknown(w)
        }
    } else if n1_of(w) == 0x1 {
        body_addr12("JMP       0x0"@, addr_of(w))
    } else if n1_of(w) == 0x2 {
        body_addr12("CALL      0x0"@, addr_of(w))
    } else if n1_of(w) == 0x3 {
        body_reg_const("SKIP_EQ   V"@, n2_of(w), const_of(w))
    } else if n1_of(w) == 0x4 {
        body_reg_const("SKIP_NE   V"@, n2_of(w), const_of(w))
    } else if n1_of(w) == 0x5 {
        body_reg_reg("SKIP_EQ   V"@, n2_of(w), n3_of(w))
    } else if n1_of(w) == 0x6 {
        body_reg_const("LOAD      V"@, n2_of(w), const_of(w))
    } else if n1_of(w) == 0x7 {
        body_reg_const("ADD       V"@, n2_of(w), const_of(w))
    } else if n1_of(w) == 0x8 {
        if n4_of(w) == 0x0 {
            body_reg_reg("LOAD      V"@, n2_of(w), n3_of(w))
        } else if n4_of(w) == 0x1 {
            body_reg_reg("OR        V"@, n2_of(w), n3_of(w))
        } else if n4_of(w) == 0x2 {
            body_reg_reg("AND       V"@, n2_of(w), n3_of(w))
        } else if n4_of(w) == 0x3 {
            body_reg_reg("XOR       V"@, n2_of(w), n3_of(w))
        } else if n4_of(w) == 0x4 {
            body_reg_reg("ADD       V"@, n2_of(w), n3_of(w))
        } else if n4_of(w) == 0x5 {
            body_reg_reg("SUB       V"@, n2_of(w), n3_of(w))
        } else if n4_of(w) == 0x6 {
            body_reg_reg("SHIFT_R   V"@, n2_of(w), n3_of(w))
        } else if n4_of(w) == 0x7 {
            body_reg_reg("SUB       V"@, n3_of(w), n2_of(w))
        } else if n4_of(w) == 0xE {
            body_reg_reg("SHIFT_L   V"@, n2_of(w), n3_of(w))
        } else {
            body_unknown(w)
        }
    } else if n1_of(w) == 0x9 {
        body_reg_reg("SKIP_NE   V"@, n2_of(w), n3_of(w))
    } else if n1_of(w) == 0xA {
        body_addr12("LOAD      I  0x0"@, addr_of(w))
    } else if n1_of(w) == 0xB {
        body_addr12("JUMP      0x0"@, addr_of(w))
    } else if n1_of(w) == 0xC {
        body_reg_const("RND       V"@, n2_of(w), const_of(w))
    } else if n1_of(w) == 0xD {
        body_draw(n2_of(w), n3_of(w), n4_of(w))
    } else if n1_of(w) == 0xE {
        if n3_of(w) == 0x9 {
            body_reg("SKIP_KP   V"@, n2_of(w))
        } else if n3_of(w) == 0xA {
            body_reg("SKIP_NKP  V"@, n2_of(w))
        } else {
            body_unknown(w)
        }
    } else if n1_of(w) == 0xF {
        if n3_of(w) == 0x0 {
            if n4_of(w) == 0x7 {
                body_reg_tail("LOAD_DT   V"@, n2_of(w), " DT"@)
            } else if n4_of(w) == 0xA {
                body_reg_tail("LOAD_KEY  V"@, n2_of(w), " KEY"@)
            } else {
                body_unknown(w)
            }
        } else if n3_of(w) == 0x1 {
            if n4_of(w) == 0x5 {
                body_reg_tail("SET_DT    V"@, n2_of(w), " DT"@)
            } else if n4_of(w) == 0x8 {
                body_reg_tail("SET_ST    V"@, n2_of(w), " DT"@)
            } else if n4_of(w) == 0xE {
                body_reg("ADD       I  V"@, n2_of(w))
            } else {
                body_unknown(w)
            }
        } else if n3_of(w) == 0x2 {
            body_reg("LOAD_FONT V"@, n2_of(w))
        } else if n3_of(w) == 0x3 {
            body_reg("BCD       V"@, n2_of(w))
        } else if n3_of(w) == 0x5 {
            body_reg("STORE_REG V0 - V"@, n2_of(w))
        } else if n3_of(w) == 0x6 {
            body_reg("LOAD_REG  V0 - V"@, n2_of(w))
        } else {
            body_unknown(w)
        }
    } else {
        body_unknown(w)
    }
}

/// The full text line for the word `w` read at the rendered address `addr`.
pub open spec fn line_of(addr: int, w: u16) -> Seq<char> {
    addr_part(addr) + body_of(w)
}

/// Every line is non-empty, whatever the word and address.
pub proof fn lemma_line_nonempty(addr: int, w: u16)
    ensures
        line_of(addr, w).len() > 0,
{
    reveal_strlit("0x0");
}

/// Starts a line with its address column.
fn begin_line(addr: usize) -> (s: String)
    ensures
        s@ == addr_part(addr as int),
{
    let mut s = String::new();
    s.append("0x0");
    append_hex_min3(&mut s, addr);
    s.append(" ");
    proof {
        assert(s@ =~= addr_part(addr as int));
    }
    s
}

/// Renders a form with no operands.
fn line_plain(addr: usize, m: &str) -> (s: String)
    ensures
        s@ == addr_part(addr as int) + m@,
{
    let mut s = begin_line(addr);
    s.append(m);
    s
}

/// Renders a form whose operand is a 12-bit address.
fn line_addr12(addr: usize, m: &str, a: u16) -> (s: String)
    ensures
        s@ == addr_part(addr as int) + body_addr12(m@, a),
{
    let mut s = begin_line(addr);
    s.append(m);
    append_hex_min3(&mut s, a as usize);
    proof {
        assert(s@ =~= addr_part(addr as int) + body_addr12(m@, a));
    }
    s
}

/// Renders a form whose operands are a register and an 8-bit immediate.
fn line_reg_const(addr: usize, m: &str, x: u16, c: u16) -> (s: String)
    requires
        x < 16,
    ensures
        s@ == addr_part(addr as int) + body_reg_const(m@, x, c),
{
    let mut s = begin_line(addr);
    s.append(m);
    s.append(crate::hex::hex_digit_str(x));
    s.append(" 0x0");
    append_hex_min3(&mut s, c as usize);
    proof {
        assert(s@ =~= addr_part(addr as int) + body_reg_const(m@, x, c));
    }
    s
}

/// Renders a form whose operands are two registers.
fn line_reg_reg(addr: usize, m: &str, x: u16, y: u16) -> (s: String)
    requires
        x < 16,
        y < 16,
    ensures
        s@ == addr_part(addr as int) + body_reg_reg(m@, x, y),
{
    let mut s = begin_line(addr);
    s.append(m);
    s.append(crate::hex::hex_digit_str(x));
    s.append(" V");
    s.append(crate::hex::hex_digit_str(y));
    proof {
        assert(s@ =~= addr_part(addr as int) + body_reg_reg(m@, x, y));
    }
    s
}

/// Renders a form whose operand is a single register.
fn line_reg(addr: usize, m: &str, x: u16) -> (s: String)
    requires
        x < 16,
    ensures
        s@ == addr_part(addr as int) + body_reg(m@, x),
{
    let mut s = begin_line(addr);
    s.append(m);
    s.append(crate::hex::hex_digit_str(x));
    proof {
        assert(s@ =~= addr_part(addr as int) + body_reg(m@, x));
    }
    s
}

/// Renders a form with a register operand and a fixed trailing operand.
fn line_reg_tail(addr: usize, m: &str, x: u16, t: &str) -> (s: String)
    requires
        x < 16,
    ensures
        s@ == addr_part(addr as int) + body_reg_tail(m@, x, t@),
{
    let mut s = begin_line(addr);
    s.append(m);
    s.append(crate::hex::hex_digit_str(x));
    s.append(t);
    proof {
        assert(s@ =~= addr_part(addr as int) + body_reg_tail(m@, x, t@));
    }
    s
}

/// Renders the sprite-draw form.
fn line_draw(addr: usize, x: u16, y: u16, h: u16) -> (s: String)
    requires
        x < 16,
        y < 16,
        h < 16,
    ensures
        s@ == addr_part(addr as int) + body_draw(x, y, h),
{
    let mut s = begin_line(addr);
    s.append("DRAW      V");
    s.append(crate::hex::hex_digit_str(x));
    s.append(" V");
    s.append(crate::hex::hex_digit_str(y));
    s.append(" ");
    s.append(crate::hex::hex_digit_str(h));
    proof {
        assert(s@ =~= addr_part(addr as int) + body_draw(x, y, h));
    }
    s
}

/// Renders the fallback line for an unassigned encoding.
fn line_unknown(addr: usize, op: &Opcode) -> (s: String)
    requires
        op.wf(),
    ensures
        s@ == addr_part(addr as int) + body_unknown(op.opcode),
{
    proof {
        lemma_fields_bounded(op.opcode);
    }
    let mut s = begin_line(addr);
    s.append("???       0x");
    s.append(crate::hex::hex_digit_str(op.n1));
    s.append(crate::hex::hex_digit_str(op.n2));
    s.append(crate::hex::hex_digit_str(op.n3));
    s.append(crate::hex::hex_digit_str(op.n4));
    proof {
        assert(s@ =~= addr_part(addr as int) + body_unknown(op.opcode));
    }
    s
}

/// Turns one decoded instruction into its text line, addressed by `addr`.
///
/// This is total over all 65536 possible words: every word selects exactly
/// one form, and unassigned encodings fall through to the `???` line.
pub fn render_line(addr: usize, op: &Opcode) -> (s: String)
    requires
        op.wf(),
    ensures
        s@ == line_of(addr as int, op.opcode),
        s@.len() > 0,
{
    proof {
        lemma_fields_bounded(op.opcode);
        lemma_line_nonempty(addr as int, op.opcode);
    }
    match op.n1 {
        0x0 => match op.n4 {
            0x0 => line_plain(addr, "CLS"),
            0xE => line_plain(addr, "RET"),
            _ => line_unknown(addr, op),
        },
        0x1 => line_addr12(addr, "JMP       0x0", op.address),
        0x2 => line_addr12(addr, "CALL      0x0", op.address),
        0x3 => line_reg_const(addr, "SKIP_EQ   V", op.n2, op.constant),
        0x4 => line_reg_const(addr, "SKIP_NE   V", op.n2, op.constant),
        0x5 => line_reg_reg(addr, "SKIP_EQ   V", op.n2, op.n3),
        0x6 => line_reg_const(addr, "LOAD      V", op.n2, op.constant),
        0x7 => line_reg_const(addr, "ADD       V", op.n2, op.constant),
        0x8 => match op.n4 {
            0x0 => line_reg_reg(addr, "LOAD      V", op.n2, op.n3),
            0x1 => line_reg_reg(addr, "OR        V", op.n2, op.n3),
            0x2 => line_reg_reg(addr, "AND       V", op.n2, op.n3),
            0x3 => line_reg_reg(addr, "XOR       V", op.n2, op.n3),
            0x4 => line_reg_reg(addr, "ADD       V", op.n2, op.n3),
            0x5 => line_reg_reg(addr, "SUB       V", op.n2, op.n3),
            0x6 => line_reg_reg(addr, "SHIFT_R   V", op.n2, op.n3),
            0x7 => line_reg_reg(addr, "SUB       V", op.n3, op.n2),
            0xE => line_reg_reg(addr, "SHIFT_L   V", op.n2, op.n3),
            _ => line_unknown(addr, op),
        },
        0x9 => line_reg_reg(addr, "SKIP_NE   V", op.n2, op.n3),
        0xA => line_addr12(addr, "LOAD      I  0x0", op.address),
        0xB => line_addr12(addr, "JUMP      0x0", op.address),
        0xC => line_reg_const(addr, "RND       V", op.n2, op.constant),
        0xD => line_draw(addr, op.n2, op.n3, op.n4),
        0xE => match op.n3 {
            0x9 => line_reg(addr, "SKIP_KP   V", op.n2),
            0xA => line_reg(addr, "SKIP_NKP  V", op.n2),
            _ => line_unknown(addr, op),
        },
        0xF => match op.n3 {
            0x0 => match op.n4 {
                0x7 => line_reg_tail(addr, "LOAD_DT   V", op.n2, " DT"),
                0xA => line_reg_tail(addr, "LOAD_KEY  V", op.n2, " KEY"),
                _ => line_unknown(addr, op),
            },
            0x1 => match op.n4 {
                0x5 => line_reg_tail(addr, "SET_DT    V", op.n2, " DT"),
                0x8 => line_reg_tail(addr, "SET_ST    V", op.n2, " DT"),
                0xE => line_reg(addr, "ADD       I  V", op.n2),
                _ => line_unknown(addr, op),
            },
            0x2 => line_reg(addr, "LOAD_FONT V", op.n2),
            0x3 => line_reg(addr, "BCD       V", op.n2),
            0x5 => line_reg(addr, "STORE_REG V0 - V", op.n2),
            0x6 => line_reg(addr, "LOAD_REG  V0 - V", op.n2),
            _ => line_unknown(addr, op),
        },
        _ => line_unknown(addr, op),
    }
}

} // verus!
