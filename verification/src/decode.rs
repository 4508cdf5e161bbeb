//! Instruction words and their decoding.
//!
//! Every instruction is one 16-bit word, stored big-endian in memory. Decoding
//! splits the word into four 4-bit fields (nibbles) and classifies it into one
//! tagged variant per opcode family, carrying the operands the opcode uses:
//! a 12-bit address, an 8-bit immediate, register indices, or a 4-bit count.
//! Decoding is total: a word that matches no known pattern becomes
//! [`Instr::Unknown`], which the interpreter treats as a defined no-op.

use vstd::prelude::*;

verus! {

/// Most significant nibble of an instruction word (bits 15..12).
pub open spec fn nib0(w: u16) -> u16 {
    (w >> 12) & 0xf
}

/// Second nibble of an instruction word (bits 11..8); the primary register index.
pub open spec fn nib1(w: u16) -> u16 {
    (w >> 8) & 0xf
}

/// Third nibble of an instruction word (bits 7..4); the secondary register index.
pub open spec fn nib2(w: u16) -> u16 {
    (w >> 4) & 0xf
}

/// Least significant nibble of an instruction word (bits 3..0).
pub open spec fn nib3(w: u16) -> u16 {
    w & 0xf
}

/// Recombines four nibbles into an instruction word, most significant first.
pub open spec fn word_of_nibbles(n0: u16, n1: u16, n2: u16, n3: u16) -> u16 {
    ((n0 << 12) | (n1 << 8) | (n2 << 4)) | n3
}

/// The low 12 bits of a word: the address operand of jump, call and
/// load-index opcodes.
pub open spec fn addr12(w: u16) -> u16 {
    w & 0xfff
}

/// The low byte of a word: the immediate operand of load, add, compare and
/// random-mask opcodes.
pub open spec fn imm8(w: u16) -> u8 {
    (w & 0xff) as u8
}

/// One decoded instruction: an opcode family together with its operands.
#[derive(Clone, Copy, Debug, PartialEq, Eq, Structural)]
pub enum Instr {
    /// `0000`: no operation.
    Nop,
    /// `00E0`: clear the framebuffer.
    Cls,
    /// `00EE`: return from a call.
    Ret,
    /// `1nnn`: jump to the address.
    Jump(u16),
    /// `2nnn`: call the address.
    Call(u16),
    /// `3xnn`: skip the next instruction if register x equals the immediate.
    SkipEqImm(u8, u8),
    /// `4xnn`: skip the next instruction if register x differs from the immediate.
    SkipNeImm(u8, u8),
    /// `5xy0`: skip the next instruction if registers x and y are equal.
    SkipEqReg(u8, u8),
    /// `6xnn`: load the immediate into register x.
    LoadImm(u8, u8),
    /// `7xnn`: add the immediate to register x modulo 256; the flag is untouched.
    AddImm(u8, u8),
    /// `8xy0`: copy register y into register x.
    Move(u8, u8),
    /// `8xy1`: bitwise or of registers x and y into x.
    Or(u8, u8),
    /// `8xy2`: bitwise and of registers x and y into x.
    And(u8, u8),
    /// `8xy3`: bitwise xor of registers x and y into x.
    Xor(u8, u8),
    /// `8xy4`: add registers; the flag records the carry.
    AddReg(u8, u8),
    /// `8xy5`: subtract register y from x; the flag records "no borrow".
    SubReg(u8, u8),
    /// `8xy6`: shift register x right by one; the flag takes the dropped bit.
    ShiftRight(u8),
    /// `8xy7`: subtract register x from y, into x; the flag records "no borrow".
    SubRev(u8, u8),
    /// `8xyE`: shift register x left by one; the flag takes the dropped bit.
    ShiftLeft(u8),
    /// `9xy0`: skip the next instruction if registers x and y differ.
    SkipNeReg(u8, u8),
    /// `Annn`: load the address into the index register.
    LoadIndex(u16),
    /// `Bnnn`: jump to the address plus register 0.
    JumpOffset(u16),
    /// `Cxnn`: load a fresh random byte masked by the immediate into register x.
    Random(u8, u8),
    /// `Dxyn`: draw an n-row sprite at the coordinates held by registers x and y.
    Draw(u8, u8, u8),
    /// `Ex9E`: skip the next instruction if the key indexed by register x is held.
    SkipKey(u8),
    /// `ExA1`: skip the next instruction if the key indexed by register x is not held.
    SkipNoKey(u8),
    /// `Fx07`: read the delay timer into register x.
    ReadDelay(u8),
    /// `Fx0A`: sample the lowest held key into register x, if any key is held.
    WaitKey(u8),
    /// `Fx15`: set the delay timer from register x.
    SetDelay(u8),
    /// `Fx18`: set the sound timer from register x.
    SetSound(u8),
    /// `Fx1E`: add register x to the index register.
    AddIndex(u8),
    /// `Fx29`: point the index register at the built-in glyph for register x's value.
    FontAddr(u8),
    /// `Fx33`: write register x's value as three decimal digits at the index register.
    StoreBcd(u8),
    /// `Fx55`: write registers 0 through x to memory at the index register.
    StoreRegs(u8),
    /// `Fx65`: read registers 0 through x from memory at the index register.
    LoadRegs(u8),
    /// Any word outside the defined opcode space; executed as a no-op.
    Unknown,
}

/// Bounds that every decoded instruction satisfies: register indices and
/// counts are nibbles, addresses are 12 bits.
pub open spec fn instr_wf(ins: Instr) -> bool {
    match ins {
        Instr::Nop => true,
        Instr::Cls => true,
        Instr::Ret => true,
        Instr::Jump(nnn) => nnn < 4096,
        Instr::Call(nnn) => nnn < 4096,
        Instr::SkipEqImm(x, _) => x < 16,
        Instr::SkipNeImm(x, _) => x < 16,
        Instr::SkipEqReg(x, y) => x < 16 && y < 16,
        Instr::LoadImm(x, _) => x < 16,
        Instr::AddImm(x, _) => x < 16,
        Instr::Move(x, y) => x < 16 && y < 16,
        Instr::Or(x, y) => x < 16 && y < 16,
        Instr::And(x, y) => x < 16 && y < 16,
        Instr::Xor(x, y) => x < 16 && y < 16,
        Instr::AddReg(x, y) => x < 16 && y < 16,
        Instr::SubReg(x, y) => x < 16 && y < 16,
        Instr::ShiftRight(x) => x < 16,
        Instr::SubRev(x, y) => x < 16 && y < 16,
        Instr::ShiftLeft(x) => x < 16,
        Instr::SkipNeReg(x, y) => x < 16 && y < 16,
        Instr::LoadIndex(nnn) => nnn < 4096,
        Instr::JumpOffset(nnn) => nnn < 4096,
        Instr::Random(x, _) => x < 16,
        Instr::Draw(x, y, n) => x < 16 && y < 16 && n < 16,
        Instr::SkipKey(x) => x < 16,
        Instr::SkipNoKey(x) => x < 16,
        Instr::ReadDelay(x) => x < 16,
        Instr::WaitKey(x) => x < 16,
        Instr::SetDelay(x) => x < 16,
        Instr::SetSound(x) => x < 16,
        Instr::AddIndex(x) => x < 16,
        Instr::FontAddr(x) => x < 16,
        Instr::StoreBcd(x) => x < 16,
        Instr::StoreRegs(x) => x < 16,
        Instr::LoadRegs(x) => x < 16,
        Instr::Unknown => true,
    }
}

/// The decoding of an instruction word: a pure function of the word alone.
pub open spec fn spec_decode(w: u16) -> Instr {
    let x = nib1(w) as u8;
    let y = nib2(w) as u8;
    let n = nib3(w) as u8;
    let nn = imm8(w);
    let nnn = addr12(w);
    if w == 0x0000 {
        Instr::Nop
    } else if w == 0x00E0 {
        Instr::Cls
    } else if w == 0x00EE {
        Instr::Ret
    } else {
        let hi = nib0(w);
        if hi == 0x1 {
            Instr::Jump(nnn)
        } else if hi == 0x2 {
            Instr::Call(nnn)
        } else if hi == 0x3 {
            Instr::SkipEqImm(x, nn)
        } else if hi == 0x4 {
            Instr::SkipNeImm(x, nn)
        } else if hi == 0x5 {
            if n == 0x0 {
                Instr::SkipEqReg(x, y)
            } else {
                Instr::Unknown
            }
        } else if hi == 0x6 {
            Instr::LoadImm(x, nn)
        } else if hi == 0x7 {
            Instr::AddImm(x, nn)
        } else if hi == 0x8 {
            if n == 0x0 {
                Instr::Move(x, y)
            } else if n == 0x1 {
                Instr::Or(x, y)
            } else if n == 0x2 {
                Instr::And(x, y)
            } else if n == 0x3 {
                Instr::Xor(x, y)
            } else if n == 0x4 {
                Instr::AddReg(x, y)
            } else if n == 0x5 {
                Instr::SubReg(x, y)
            } else if n == 0x6 {
                Instr::ShiftRight(x)
            } else if n == 0x7 {
                Instr::SubRev(x, y)
            } else if n == 0xe {
                Instr::ShiftLeft(x)
            } else {
                Instr::Unknown
            }
        } else if hi == 0x9 {
            if n == 0x0 {
                Instr::SkipNeReg(x, y)
            } else {
                Instr::Unknown
            }
        } else if hi == 0xa {
            Instr::LoadIndex(nnn)
        } else if hi == 0xb {
            Instr::JumpOffset(nnn)
        } else if hi == 0xc {
            Instr::Random(x, nn)
        } else if hi == 0xd {
            Instr::Draw(x, y, n)
        } else if hi == 0xe {
            if nn == 0x9e {
                Instr::SkipKey(x)
            } else if nn == 0xa1 {
                Instr::SkipNoKey(x)
            } else {
                Instr::Unknown
            }
        } else if hi == 0xf {
            if nn == 0x07 {
                Instr::ReadDelay(x)
            } else if nn == 0x0a {
                Instr::WaitKey(x)
            } else if nn == 0x15 {
                Instr::SetDelay(x)
            } else if nn == 0x18 {
                Instr::SetSound(x)
            } else if nn == 0x1e {
                Instr::AddIndex(x)
            } else if nn == 0x29 {
                Instr::FontAddr(x)
            } else if nn == 0x33 {
                Instr::StoreBcd(x)
            } else if nn == 0x55 {
                Instr::StoreRegs(x)
            } else if nn == 0x65 {
                Instr::LoadRegs(x)
            } else {
                Instr::Unknown
            }
        } else {
            Instr::Unknown
        }
    }
}

/// Decodes one instruction word.
pub fn decode(w: u16) -> (r: Instr)
    ensures
        r == spec_decode(w),
        instr_wf(r),
{
    proof {
        assert(((w >> 8) & 0xf) < 16) by (bit_vector);
        assert(((w >> 4) & 0xf) < 16) by (bit_vector);
        assert((w & 0xf) < 16) by (bit_vector);
        assert((w & 0xfff) < 4096) by (bit_vector);
        assert(((w >> 12) & 0xf) < 16) by (bit_vector);
    }
    let x = ((w >> 8) & 0xf) as u8;
    let y = ((w >> 4) & 0xf) as u8;
    let n = (w & 0xf) as u8;
    let nn = (w & 0xff) as u8;
    let nnn = w & 0xfff;
    if w == 0x0000 {
        Instr::Nop
    } else if w == 0x00E0 {
        Instr::Cls
    } else if w == 0x00EE {
        Instr::Ret
    } else {
        let hi = (w >> 12) & 0xf;
        if hi == 0x1 {
            Instr::Jump(nnn)
        } else if hi == 0x2 {
            Instr::Call(nnn)
        } else if hi == 0x3 {
            Instr::SkipEqImm(x, nn)
        } else if hi == 0x4 {
            Instr::SkipNeImm(x, nn)
        } else if hi == 0x5 {
            if n == 0x0 {
                Instr::SkipEqReg(x, y)
            } else {
                Instr::Unknown
            }
        } else if hi == 0x6 {
            Instr::LoadImm(x, nn)
        } else if hi == 0x7 {
            Instr::AddImm(x, nn)
        } else if hi == 0x8 {
            if n == 0x0 {
                Instr::Move(x, y)
            } else if n == 0x1 {
                Instr::Or(x, y)
            } else if n == 0x2 {
                Instr::And(x, y)
            } else if n == 0x3 {
                Instr::Xor(x, y)
            } else if n == 0x4 {
                Instr::AddReg(x, y)
            } else if n == 0x5 {
                Instr::SubReg(x, y)
            } else if n == 0x6 {
                Instr::ShiftRight(x)
            } else if n == 0x7 {
                Instr::SubRev(x, y)
            } else if n == 0xe {
                Instr::ShiftLeft(x)
            } else {
                Instr::Unknown
            }
        } else if hi == 0x9 {
            if n == 0x0 {
                Instr::SkipNeReg(x, y)
            } else {
                Instr::Unknown
            }
        } else if hi == 0xa {
            Instr::LoadIndex(nnn)
        } else if hi == 0xb {
            Instr::JumpOffset(nnn)
        } else if hi == 0xc {
            Instr::Random(x, nn)
        } else if hi == 0xd {
            Instr::Draw(x, y, n)
        } else if hi == 0xe {
            if nn == 0x9e {
                Instr::SkipKey(x)
            } else if nn == 0xa1 {
                Instr::SkipNoKey(x)
            } else {
                Instr::Unknown
            }
        } else if hi == 0xf {
            if nn == 0x07 {
                Instr::ReadDelay(x)
            } else if nn == 0x0a {
                Instr::WaitKey(x)
            } else if nn == 0x15 {
                Instr::SetDelay(x)
            } else if nn == 0x18 {
                Instr::SetSound(x)
            } else if nn == 0x1e {
                Instr::AddIndex(x)
            } else if nn == 0x29 {
                Instr::FontAddr(x)
            } else if nn == 0x33 {
                Instr::StoreBcd(x)
            } else if nn == 0x55 {
                Instr::StoreRegs(x)
            } else if nn == 0x65 {
                Instr::LoadRegs(x)
            } else {
                Instr::Unknown
            }
        } else {
            Instr::Unknown
        }
    }
}

/// Splits an instruction word into its four nibbles, most significant first.
pub fn word_nibbles(w: u16) -> (r: (u16, u16, u16, u16))
    ensures
        r.0 == nib0(w),
        r.1 == nib1(w),
        r.2 == nib2(w),
        r.3 == nib3(w),
{
    ((w >> 12) & 0xf, (w >> 8) & 0xf, (w >> 4) & 0xf, w & 0xf)
}

/// Recombines four nibbles into an instruction word, most significant first.
pub fn combine_nibbles(n0: u16, n1: u16, n2: u16, n3: u16) -> (r: u16)
    requires
        n0 < 16,
        n1 < 16,
        n2 < 16,
        n3 < 16,
    ensures
        r == word_of_nibbles(n0, n1, n2, n3),
{
    ((n0 << 12) | (n1 << 8) | (n2 << 4)) | n3
}

/// Splitting an instruction word into its four nibbles loses nothing: the
/// nibbles recombine to the original word.
pub proof fn lemma_nibbles_recombine(w: u16)
    ensures
        word_of_nibbles(nib0(w), nib1(w), nib2(w), nib3(w)) == w,
{
    assert(((((w >> 12) & 0xf) << 12) | (((w >> 8) & 0xf) << 8) | (((w >> 4) & 0xf) << 4)) | (w
        & 0xf) == w) by (bit_vector);
}

} // verus!
