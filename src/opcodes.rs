use vstd::prelude::*;

verus! {

/// A decoded instruction, carrying the operands its opcode class needs.
#[derive(Debug, PartialEq, Eq, Structural, Clone, Copy)]
pub enum OpCode {
    /// 00E0: clear the display.
    CLR,
    /// 1NNN: jump to NNN.
    JMP(u16),
    /// 00EE: return from a subroutine.
    RET,
    /// 2NNN: call the subroutine at NNN.
    CALL(u16),
    /// 3XNN: skip the next instruction if VX == NN.
    SkipEqualNN(u8, u8),
    /// 4XNN: skip the next instruction if VX != NN.
    SkipNotEqualNN(u8, u8),
    /// 5XY0: skip the next instruction if VX == VY.
    SkipEqualXY(u8, u8),
    /// 6XNN: VX := NN.
    SET(u8, u8),
    /// 7XNN: VX := VX + NN, wrapping.
    ADD(u8, u8),
    /// 8XY0: VX := VY.
    LDXY(u8, u8),
    /// 8XY1: VX := VX | VY.
    BOR(u8, u8),
    /// 8XY2: VX := VX & VY.
    BAND(u8, u8),
    /// 8XY3: VX := VX ^ VY.
    BXOR(u8, u8),
    /// 8XY4: VX := VX + VY, wrapping; VF := 1 on carry, else 0.
    AddXY(u8, u8),
    /// 8XY5: VX := VX - VY, wrapping; VF := 1 when no borrow, else 0.
    SubXY(u8, u8),
    /// 8XY6: VX := VY >> 1; VF := the low bit of VY.
    SHR(u8, u8),
    /// 8XY7: VX := VY - VX, wrapping; VF := 1 when no borrow, else 0.
    SUBN(u8, u8),
    /// 8XYE: VX := VY << 1; VF := the high bit of VY.
    SHL(u8, u8),
    /// 9XY0: skip the next instruction if VX != VY.
    SkipNotEqualXY(u8, u8),
    /// ANNN: I := NNN.
    SetAddrReg(u16),
    /// BNNN: jump to NNN + V0.
    JumpPlusV0(u16),
    /// CXNN: VX := a random byte & NN.
    RAND(u8, u8),
    /// DXYN: draw the N-row sprite at I at (VX, VY); VF := collision.
    DXYN(u8, u8, u8),
    /// FX1E: I := I + VX, wrapping.
    AddVxToI(u8),
    /// FX33: the decimal digits of VX to I, I + 1, I + 2.
    SaveBCD(u8),
    /// FX55: V0 ..= VX to memory from I on.
    StoreV0ToVx(u8),
    /// FX65: V0 ..= VX from memory from I on.
    ReadV0ToVx(u8),
    /// Any word not in the table: does nothing.
    UNFINISHED,
}

impl OpCode {
    /// Register operands name one of the 16 registers, and a sprite has at
    /// most 15 rows (a 4-bit count).
    pub open spec fn wf(self) -> bool {
        match self {
            OpCode::SkipEqualNN(x, _) => x < 16,
            OpCode::SkipNotEqualNN(x, _) => x < 16,
            OpCode::SkipEqualXY(x, y) => x < 16 && y < 16,
            OpCode::SET(x, _) => x < 16,
            OpCode::ADD(x, _) => x < 16,
            OpCode::LDXY(x, y) => x < 16 && y < 16,
            OpCode::BOR(x, y) => x < 16 && y < 16,
            OpCode::BAND(x, y) => x < 16 && y < 16,
            OpCode::BXOR(x, y) => x < 16 && y < 16,
            OpCode::AddXY(x, y) => x < 16 && y < 16,
            OpCode::SubXY(x, y) => x < 16 && y < 16,
            OpCode::SHR(x, y) => x < 16 && y < 16,
            OpCode::SUBN(x, y) => x < 16 && y < 16,
            OpCode::SHL(x, y) => x < 16 && y < 16,
            OpCode::SkipNotEqualXY(x, y) => x < 16 && y < 16,
            OpCode::RAND(x, _) => x < 16,
            OpCode::DXYN(x, y, n) => x < 16 && y < 16 && n < 16,
            OpCode::AddVxToI(x) => x < 16,
            OpCode::SaveBCD(x) => x < 16,
            OpCode::StoreV0ToVx(x) => x < 16,
            OpCode::ReadV0ToVx(x) => x < 16,
            _ => true,
        }
    }
}

/// Bits 12..16 of an instruction word: the opcode class.
pub open spec fn class_nibble(w: u16) -> u8 {
    (w >> 12u16) as u8
}

/// Bits 8..12: register X.
pub open spec fn x_nibble(w: u16) -> u8 {
    ((w >> 8u16) & 0xFu16) as u8
}

/// Bits 4..8: register Y.
pub open spec fn y_nibble(w: u16) -> u8 {
    ((w >> 4u16) & 0xFu16) as u8
}

/// Bits 0..4: the final discriminator, or a count.
pub open spec fn last_nibble(w: u16) -> u8 {
    (w & 0xFu16) as u8
}

/// Bits 0..8: an immediate byte.
pub open spec fn low_byte(w: u16) -> u8 {
    (w & 0xFFu16) as u8
}

/// Bits 0..12: an address.
pub open spec fn address_of(w: u16) -> u16 {
    w & 0xFFFu16
}

/// The operation that the instruction word `w` stands for. The table is read
/// top to bottom: the more specific patterns of class 0 come before the
/// catch-all.
pub open spec fn decode_op(w: u16) -> OpCode {
    let x = x_nibble(w);
    let y = y_nibble(w);
    let kk = low_byte(w);
    let nnn = address_of(w);
    match (class_nibble(w), x, y, last_nibble(w)) {
        (0, 0, 0xE, 0) => OpCode::CLR,
        (0, 0, 0xE, 0xE) => OpCode::RET,
        (0x1, _, _, _) => OpCode::JMP(nnn),
        (0x2, _, _, _) => OpCode::CALL(nnn),
        (0x3, _, _, _) => OpCode::SkipEqualNN(x, kk),
        (0x4, _, _, _) => OpCode::SkipNotEqualNN(x, kk),
        (0x5, _, _, 0) => OpCode::SkipEqualXY(x, y),
        (0x6, _, _, _) => OpCode::SET(x, kk),
        (0x7, _, _, _) => OpCode::ADD(x, kk),
        (0x8, _, _, 0) => OpCode::LDXY(x, y),
        (0x8, _, _, 1) => OpCode::BOR(x, y),
        (0x8, _, _, 2) => OpCode::BAND(x, y),
        (0x8, _, _, 3) => OpCode::BXOR(x, y),
        (0x8, _, _, 4) => OpCode::AddXY(x, y),
        (0x8, _, _, 5) => OpCode::SubXY(x, y),
        (0x8, _, _, 6) => OpCode::SHR(x, y),
        (0x8, _, _, 7) => OpCode::SUBN(x, y),
        (0x8, _, _, 0xE) => OpCode::SHL(x, y),
        (0x9, _, _, 0) => OpCode::SkipNotEqualXY(x, y),
        (0xA, _, _, _) => OpCode::SetAddrReg(nnn),
        (0xB, _, _, _) => OpCode::JumpPlusV0(nnn),
        (0xC, _, _, _) => OpCode::RAND(x, kk),
        (0xD, _, _, d) => OpCode::DXYN(x, y, d),
        (0xF, _, 1, 0xE) => OpCode::AddVxToI(x),
        (0xF, _, 3, 3) => OpCode::SaveBCD(x),
        (0xF, _, 5, 5) => OpCode::StoreV0ToVx(x),
        (0xF, _, 6, 5) => OpCode::ReadV0ToVx(x),
        _ => OpCode::UNFINISHED,
    }
}

/// The three register-sized fields of a word are register indices or a count
/// below 16.
pub proof fn lemma_nibbles_small(w: u16)
    ensures
        x_nibble(w) < 16,
        y_nibble(w) < 16,
        last_nibble(w) < 16,
{
    assert((((w >> 8u16) & 0xFu16) as u8) < 16) by (bit_vector);
    assert((((w >> 4u16) & 0xFu16) as u8) < 16) by (bit_vector);
    assert(((w & 0xFu16) as u8) < 16) by (bit_vector);
}

/// Decoding is total and deterministic: every word decodes, equal words
/// decode to equal operations, and the operation's operands are in range.
pub proof fn lemma_decode_total_deterministic(w1: u16, w2: u16)
    requires
        w1 == w2,
    ensures
        decode_op(w1) == decode_op(w2),
        decode_op(w1).wf(),
{
    lemma_nibbles_small(w1);
}

} // verus!
