//! Field extraction from a 16-bit instruction word.
//!
//! Every CHIP-8 instruction is one 16-bit word. Its four nibbles select the
//! instruction form; the low byte and the low three nibbles double as
//! immediate operands.

use vstd::prelude::*;

verus! {

/// Bits 15-12 of a word: the primary opcode selector.
pub open spec fn n1_of(w: u16) -> u16 {
    (w & 0xF000) >> 12
}

/// Bits 11-8 of a word: the secondary selector / register index X.
pub open spec fn n2_of(w: u16) -> u16 {
    (w & 0x0F00) >> 8
}

/// Bits 7-4 of a word: the tertiary selector / register index Y.
pub open spec fn n3_of(w: u16) -> u16 {
    (w & 0x00F0) >> 4
}

/// Bits 3-0 of a word: the quaternary selector.
pub open spec fn n4_of(w: u16) -> u16 {
    w & 0x000F
}

/// Bits 7-0 of a word: the 8-bit immediate.
pub open spec fn const_of(w: u16) -> u16 {
    w & 0x00FF
}

/// Bits 11-0 of a word: the 12-bit immediate address.
pub open spec fn addr_of(w: u16) -> u16 {
    w & 0x0FFF
}

/// Each nibble of a word is below sixteen, and its immediates fit in 8 and
/// 12 bits.
pub proof fn lemma_fields_bounded(w: u16)
    by (bit_vector)
    ensures
        n1_of(w) < 16,
        n2_of(w) < 16,
        n3_of(w) < 16,
        n4_of(w) < 16,
        const_of(w) < 256,
        addr_of(w) < 4096,
{
}

/// An instruction word together with its decoded fields.
///
/// The fields are pure functions of the word, computed once at
/// construction and never mutated independently of it.
pub struct Opcode {
    /// The raw instruction word.
    pub opcode: u16,
    /// The 12-bit immediate address (bits 11-0).
    pub address: u16,
    /// The 8-bit immediate (bits 7-0).
    pub constant: u16,
    /// The primary selector (bits 15-12).
    pub n1: u16,
    /// The secondary selector / register index X (bits 11-8).
    pub n2: u16,
    /// The tertiary selector / register index Y (bits 7-4).
    pub n3: u16,
    /// The quaternary selector (bits 3-0).
    pub n4: u16,
}

impl Opcode {
    /// Every derived field agrees with the raw word it was extracted from.
    pub open spec fn wf(self) -> bool {
        &&& self.address == addr_of(self.opcode)
        &&& self.constant == const_of(self.opcode)
        &&& self.n1 == n1_of(self.opcode)
        &&& self.n2 == n2_of(self.opcode)
        &&& self.n3 == n3_of(self.opcode)
        &&& self.n4 == n4_of(self.opcode)
    }

    /// Decodes all fields of the given instruction word.
    pub fn new(opcode: u16) -> (r: Opcode)
        ensures
            r.opcode == opcode,
            r.wf(),
    {
        Opcode {
            opcode,
            address: opcode & 0x0FFF,
            constant: opcode & 0x00FF,
            n1: (opcode & 0xF000) >> 12,
            n2: (opcode & 0x0F00) >> 8,
            n3: (opcode & 0x00F0) >> 4,
            n4: opcode & 0x000F,
        }
    }
}

} // verus!
