use vstd::prelude::*;

verus! {

/// One fetched instruction word, split into its nibble fields.
#[derive(Clone, Copy, Debug, PartialEq, Eq, Structural)]
pub struct Opcode {
    /// Top nibble: selects the instruction family.
    pub c: u8,
    /// Second nibble: usually a register index.
    pub x: u8,
    /// Third nibble: usually a register index.
    pub y: u8,
    /// Fourth nibble: usually a small count.
    pub n: u8,
    /// Low byte.
    pub nn: u8,
    /// Low twelve bits.
    pub nnn: u16,
}

/// The decomposition of the big-endian word `a b`.
pub open spec fn decoded(a: u8, b: u8) -> Opcode {
    Opcode {
        c: a / 16,
        x: a % 16,
        y: b / 16,
        n: b % 16,
        nn: b,
        nnn: ((a % 16) as int * 256 + b as int) as u16,
    }
}

impl Opcode {
    /// Every field is what decoding some word gives: four nibbles, the low byte
    /// made of the last two, and the low twelve bits made of the last three.
    pub open spec fn wf(self) -> bool {
        &&& self.c < 16
        &&& self.x < 16
        &&& self.y < 16
        &&& self.n < 16
        &&& self.nn == self.y * 16 + self.n
        &&& self.nnn == self.x * 256 + self.nn
    }

    /// Decodes the instruction word made of the bytes `a` (high) and `b` (low).
    pub fn from(a: u8, b: u8) -> (r: Self)
        ensures
            r == decoded(a, b),
            r.wf(),
            r.c == a >> 4u8,
            r.x == a & 0x0Fu8,
            r.y == b >> 4u8,
            r.n == b & 0x0Fu8,
            r.nn == b,
            r.nnn == (((a & 0x0Fu8) as u16) << 8u16) | (b as u16),
    {
        assert(a >> 4u8 == a / 16 && a & 0x0Fu8 == a % 16) by (bit_vector);
        assert(b >> 4u8 == b / 16 && b & 0x0Fu8 == b % 16) by (bit_vector);
        let hi: u16 = (a & 0x0F) as u16;
        let lo: u16 = b as u16;
        let nnn: u16 = (hi << 8u16) | lo;
        assert(hi < 16 && lo < 256 ==> (hi << 8u16) | lo == hi * 256 + lo) by (bit_vector);
        Self { c: a >> 4, x: a & 0x0F, y: b >> 4, n: b & 0x0F, nn: b, nnn }
    }
}

/// Decoding is total and loses nothing: the word `a b` is rebuilt from the
/// family nibble, the register nibble and the low byte, and the low twelve
/// bits are exactly the word taken modulo 4096.
pub proof fn lemma_decode_rebuilds_word(a: u8, b: u8)
    ensures
        decoded(a, b).c as int * 4096 + decoded(a, b).x as int * 256 + decoded(a, b).nn as int
            == a as int * 256 + b as int,
        decoded(a, b).y as int * 16 + decoded(a, b).n as int == b as int,
        decoded(a, b).nnn as int == (a as int * 256 + b as int) % 4096,
        decoded(a, b).c < 16 && decoded(a, b).x < 16 && decoded(a, b).y < 16 && decoded(a, b).n < 16,
{
}

} // verus!
