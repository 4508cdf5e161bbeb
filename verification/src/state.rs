//! The mathematical model of the machine.
//!
//! [`CpuState`] is the ghost view of the interpreter's state. Every opcode's
//! semantics is written here as a pure transition function from state to
//! state (or to a [`Fault`] for the conditions the architecture leaves
//! undefined: stack overflow and underflow, and memory accesses computed
//! outside capacity). [`step_cycle`] composes one whole cycle: fetch, decode,
//! execute, then one countdown tick of each timer. The executable interpreter
//! in [`crate::cpu`] is proved to implement these functions exactly.

use vstd::prelude::*;

use crate::decode::Instr;
use crate::decode::spec_decode;

verus! {

/// Bytes of addressable memory.
pub const RAM_SIZE: usize = 4096;

/// Framebuffer width in pixels.
pub const WIDTH: usize = 64;

/// Framebuffer height in pixels.
pub const HEIGHT: usize = 32;

/// Pixels in the framebuffer.
pub const VRAM_SIZE: usize = 2048;

/// Address at which a ROM is placed and at which execution starts.
pub const ROM_BASE: usize = 0x200;

/// Nesting depth of the call stack.
pub const STACK_SIZE: usize = 16;

/// A condition the architecture leaves undefined, surfaced to the driver as a
/// distinguishable failure instead of silently corrupting state.
#[derive(Clone, Copy, Debug, PartialEq, Eq, Structural)]
pub enum Fault {
    /// A call was executed with all stack slots in use.
    StackOverflow,
    /// A return was executed with no call outstanding.
    StackUnderflow,
    /// A memory address (or the program counter) was computed outside
    /// capacity.
    MemoryOutOfRange,
    /// A key query used a register value outside the sixteen-key range.
    KeyOutOfRange,
}

/// The ghost view of the whole machine state.
#[verifier::ext_equal]
pub ghost struct CpuState {
    /// Addressable memory; the font glyphs occupy the first 80 bytes.
    pub ram: Seq<u8>,
    /// Framebuffer pixels, row-major, each 0 or 1.
    pub vram: Seq<u8>,
    /// Whether the framebuffer was written during the current cycle.
    pub vram_changed: bool,
    /// The sixteen general registers; register 0xF doubles as the flag.
    pub v: Seq<u8>,
    /// The index (address) register.
    pub i: nat,
    /// Address of the next instruction to fetch.
    pub pc: nat,
    /// Number of stack slots in use.
    pub sp: nat,
    /// Return addresses; only the first `sp` entries are live.
    pub stack: Seq<u16>,
    /// Delay countdown timer.
    pub delay: u8,
    /// Sound countdown timer; a tone plays while it is nonzero.
    pub sound: u8,
    /// The sixteen key-held flags.
    pub keys: Seq<bool>,
}

impl CpuState {
    /// Structural well-formedness: fixed dimensions, the stack pointer within
    /// its sixteen slots, the index register within memory, the program
    /// counter within what a 16-bit stack entry can hold, and every
    /// framebuffer cell a single bit.
    pub open spec fn wf(self) -> bool {
        &&& self.ram.len() == RAM_SIZE
        &&& self.vram.len() == VRAM_SIZE
        &&& self.v.len() == 16
        &&& self.stack.len() == STACK_SIZE
        &&& self.sp <= STACK_SIZE
        &&& self.i < RAM_SIZE
        &&& self.pc <= 0xffff
        &&& self.keys.len() == 16
        &&& forall|p: int| 0 <= p < VRAM_SIZE ==> self.vram[p] == 0 || self.vram[p] == 1
    }
}

/// One countdown step of a timer: decrement if nonzero, floor at zero.
pub open spec fn tick(t: u8) -> u8 {
    if t > 0 {
        (t - 1) as u8
    } else {
        0u8
    }
}

/// Byte addition modulo 256.
pub open spec fn wrap_add(a: u8, b: u8) -> u8 {
    ((a + b) % 256) as u8
}

/// Byte subtraction modulo 256.
pub open spec fn wrap_sub(a: u8, b: u8) -> u8 {
    ((a - b) % 256) as u8
}

/// The instruction word stored big-endian at address `pc`.
pub open spec fn word_at(ram: Seq<u8>, pc: int) -> u16 {
    ((ram[pc] as u16) << 8) | (ram[pc + 1] as u16)
}

/// The decoded instruction the machine is about to execute.
pub open spec fn cur_instr(s: CpuState) -> Instr {
    spec_decode(word_at(s.ram, s.pc as int))
}

/// The lowest-indexed held key at or after `from`, if any.
pub open spec fn first_pressed(keys: Seq<bool>, from: int) -> Option<int>
    decreases 16 - from,
{
    if from >= 16 {
        None
    } else if keys[from] {
        Some(from)
    } else {
        first_pressed(keys, from + 1)
    }
}

/// The sprite bit a draw would xor into framebuffer cell `p` (row-major,
/// rows and columns wrapping modulo the framebuffer dimensions), or 0 for a
/// cell the sprite does not cover. The sprite is `n` rows of 8 pixels read
/// from memory at `i`, drawn at column `vx`, row `vy`.
pub open spec fn pix_mask(ram: Seq<u8>, i: int, vx: int, vy: int, n: int, p: int) -> u8 {
    let py = p / 64;
    let px = p % 64;
    let r = (py - vy) % 32;
    let b = (px - vx) % 64;
    if r < n && b < 8 {
        (ram[i + r] >> ((7 - b) as u8)) & 1
    } else {
        0u8
    }
}

/// The framebuffer after xor-blitting a sprite: every cell is xored with its
/// [`pix_mask`] bit.
pub open spec fn draw_fb(fb: Seq<u8>, ram: Seq<u8>, i: int, vx: int, vy: int, n: int) -> Seq<u8> {
    Seq::new(fb.len(), |p: int| fb[p] ^ pix_mask(ram, i, vx, vy, n, p))
}

/// Whether a draw turns at least one set cell off: the collision the flag
/// register reports.
pub open spec fn draw_collision(
    fb: Seq<u8>,
    ram: Seq<u8>,
    i: int,
    vx: int,
    vy: int,
    n: int,
) -> bool {
    exists|p: int|
        0 <= p < fb.len() && fb[p] == 1 && pix_mask(ram, i, vx, vy, n, p) == 1
}

/// No operation (also the defined fallback for unknown opcodes): advance past
/// the instruction.
pub open spec fn apply_nop(s: CpuState) -> CpuState {
    CpuState { pc: (s.pc + 2) as nat, ..s }
}

/// Clear-screen: zero every framebuffer cell and raise the changed flag.
pub open spec fn apply_cls(s: CpuState) -> CpuState {
    CpuState {
        vram: Seq::new(s.vram.len(), |p: int| 0u8),
        vram_changed: true,
        pc: (s.pc + 2) as nat,
        ..s
    }
}

/// Return: pop the top stack entry into the program counter.
pub open spec fn apply_ret(s: CpuState) -> Result<CpuState, Fault> {
    if s.sp == 0 {
        Err(Fault::StackUnderflow)
    } else {
        Ok(CpuState { sp: (s.sp - 1) as nat, pc: s.stack[s.sp - 1] as nat, ..s })
    }
}

/// Jump absolute.
pub open spec fn apply_jump(s: CpuState, nnn: u16) -> CpuState {
    CpuState { pc: nnn as nat, ..s }
}

/// Call: push the address of the following instruction, then jump.
pub open spec fn apply_call(s: CpuState, nnn: u16) -> Result<CpuState, Fault> {
    if s.sp >= STACK_SIZE {
        Err(Fault::StackOverflow)
    } else {
        Ok(
            CpuState {
                stack: s.stack.update(s.sp as int, (s.pc + 2) as u16),
                sp: (s.sp + 1) as nat,
                pc: nnn as nat,
                ..s
            },
        )
    }
}

/// Skip the next instruction if register x equals the immediate.
pub open spec fn apply_skip_eq_imm(s: CpuState, x: int, nn: u8) -> CpuState {
    CpuState { pc: (s.pc + if s.v[x] == nn { 4int } else { 2int }) as nat, ..s }
}

/// Skip the next instruction if register x differs from the immediate.
pub open spec fn apply_skip_ne_imm(s: CpuState, x: int, nn: u8) -> CpuState {
    CpuState { pc: (s.pc + if s.v[x] != nn { 4int } else { 2int }) as nat, ..s }
}

/// Skip the next instruction if registers x and y are equal.
pub open spec fn apply_skip_eq_reg(s: CpuState, x: int, y: int) -> CpuState {
    CpuState { pc: (s.pc + if s.v[x] == s.v[y] { 4int } else { 2int }) as nat, ..s }
}

/// Skip the next instruction if registers x and y differ.
pub open spec fn apply_skip_ne_reg(s: CpuState, x: int, y: int) -> CpuState {
    CpuState { pc: (s.pc + if s.v[x] != s.v[y] { 4int } else { 2int }) as nat, ..s }
}

/// Load the immediate into register x.
pub open spec fn apply_load_imm(s: CpuState, x: int, nn: u8) -> CpuState {
    CpuState { v: s.v.update(x, nn), pc: (s.pc + 2) as nat, ..s }
}

/// Add the immediate to register x modulo 256; overflow is dropped silently
/// and the flag register is untouched.
pub open spec fn apply_add_imm(s: CpuState, x: int, nn: u8) -> CpuState {
    CpuState { v: s.v.update(x, wrap_add(s.v[x], nn)), pc: (s.pc + 2) as nat, ..s }
}

/// Copy register y into register x.
pub open spec fn apply_move(s: CpuState, x: int, y: int) -> CpuState {
    CpuState { v: s.v.update(x, s.v[y]), pc: (s.pc + 2) as nat, ..s }
}

/// Bitwise or of registers x and y into x.
pub open spec fn apply_or(s: CpuState, x: int, y: int) -> CpuState {
    CpuState { v: s.v.update(x, s.v[x] | s.v[y]), pc: (s.pc + 2) as nat, ..s }
}

/// Bitwise and of registers x and y into x.
pub open spec fn apply_and(s: CpuState, x: int, y: int) -> CpuState {
    CpuState { v: s.v.update(x, s.v[x] & s.v[y]), pc: (s.pc + 2) as nat, ..s }
}

/// Bitwise xor of registers x and y into x.
pub open spec fn apply_xor(s: CpuState, x: int, y: int) -> CpuState {
    CpuState { v: s.v.update(x, s.v[x] ^ s.v[y]), pc: (s.pc + 2) as nat, ..s }
}

/// Add registers: register x takes the sum modulo 256, then the flag register
/// records whether the unsigned sum exceeded 255.
pub open spec fn apply_add_reg(s: CpuState, x: int, y: int) -> CpuState {
    let sum = s.v[x] + s.v[y];
    CpuState {
        v: s.v.update(x, (sum % 256) as u8).update(15, if sum > 255 { 1u8 } else { 0u8 }),
        pc: (s.pc + 2) as nat,
        ..s
    }
}

/// Subtract register y from x: the flag takes "no borrow" first, then
/// register x takes the difference modulo 256.
pub open spec fn apply_sub_reg(s: CpuState, x: int, y: int) -> CpuState {
    let v1 = s.v.update(15, if s.v[x] > s.v[y] { 1u8 } else { 0u8 });
    CpuState { v: v1.update(x, wrap_sub(v1[x], v1[y])), pc: (s.pc + 2) as nat, ..s }
}

/// Shift register x right by one: the flag takes the dropped low bit first.
pub open spec fn apply_shift_right(s: CpuState, x: int) -> CpuState {
    let v1 = s.v.update(15, s.v[x] & 1);
    CpuState { v: v1.update(x, v1[x] >> 1u8), pc: (s.pc + 2) as nat, ..s }
}

/// Subtract register x from y, into x: the flag takes "no borrow" first.
pub open spec fn apply_sub_rev(s: CpuState, x: int, y: int) -> CpuState {
    let v1 = s.v.update(15, if s.v[y] > s.v[x] { 1u8 } else { 0u8 });
    CpuState { v: v1.update(x, wrap_sub(v1[y], v1[x])), pc: (s.pc + 2) as nat, ..s }
}

/// Shift register x left by one: the flag takes the dropped high bit first.
pub open spec fn apply_shift_left(s: CpuState, x: int) -> CpuState {
    let v1 = s.v.update(15, (s.v[x] & 0x80) >> 7u8);
    CpuState { v: v1.update(x, v1[x] << 1u8), pc: (s.pc + 2) as nat, ..s }
}

/// Load the address into the index register.
pub open spec fn apply_load_index(s: CpuState, nnn: u16) -> CpuState {
    CpuState { i: nnn as nat, pc: (s.pc + 2) as nat, ..s }
}

/// Jump to the address plus register 0: an absolute assignment of the program
/// counter.
pub open spec fn apply_jump_offset(s: CpuState, nnn: u16) -> CpuState {
    CpuState { pc: (nnn + s.v[0]) as nat, ..s }
}

/// Load a random byte masked by the immediate into register x.
pub open spec fn apply_random(s: CpuState, x: int, nn: u8, rnd: u8) -> CpuState {
    CpuState { v: s.v.update(x, nn & rnd), pc: (s.pc + 2) as nat, ..s }
}

/// Draw a sprite: xor-blit `n` rows read from memory at the index register
/// into the framebuffer at the coordinates held by registers x and y, then
/// set the flag register to 1 exactly when a set cell was turned off.
/// A sprite read that would pass the end of memory is a fault.
pub open spec fn apply_draw(s: CpuState, x: int, y: int, n: int) -> Result<CpuState, Fault> {
    if s.i + n > RAM_SIZE {
        Err(Fault::MemoryOutOfRange)
    } else {
        let vx = s.v[x] as int;
        let vy = s.v[y] as int;
        Ok(
            CpuState {
                vram: draw_fb(s.vram, s.ram, s.i as int, vx, vy, n),
                v: s.v.update(
                    15,
                    if draw_collision(s.vram, s.ram, s.i as int, vx, vy, n) {
                        1u8
                    } else {
                        0u8
                    },
                ),
                vram_changed: true,
                pc: (s.pc + 2) as nat,
                ..s
            },
        )
    }
}

/// Skip the next instruction if the key indexed by register x is held.
/// A register value outside the sixteen-key range is a fault.
pub open spec fn apply_skip_key(s: CpuState, x: int) -> Result<CpuState, Fault> {
    if s.v[x] >= 16 {
        Err(Fault::KeyOutOfRange)
    } else {
        Ok(CpuState { pc: (s.pc + if s.keys[s.v[x] as int] { 4int } else { 2int }) as nat, ..s })
    }
}

/// Skip the next instruction if the key indexed by register x is not held.
/// A register value outside the sixteen-key range is a fault.
pub open spec fn apply_skip_no_key(s: CpuState, x: int) -> Result<CpuState, Fault> {
    if s.v[x] >= 16 {
        Err(Fault::KeyOutOfRange)
    } else {
        Ok(CpuState { pc: (s.pc + if s.keys[s.v[x] as int] { 2int } else { 4int }) as nat, ..s })
    }
}

/// Read the delay timer into register x.
pub open spec fn apply_read_delay(s: CpuState, x: int) -> CpuState {
    CpuState { v: s.v.update(x, s.delay), pc: (s.pc + 2) as nat, ..s }
}

/// Sample the keypad once: store the lowest-indexed held key into register x,
/// or leave the register unchanged when no key is held. The program counter
/// always advances; the driver re-invokes cycles while it waits.
pub open spec fn apply_wait_key(s: CpuState, x: int) -> CpuState {
    match first_pressed(s.keys, 0) {
        Some(k) => CpuState { v: s.v.update(x, k as u8), pc: (s.pc + 2) as nat, ..s },
        None => CpuState { pc: (s.pc + 2) as nat, ..s },
    }
}

/// Set the delay timer from register x.
pub open spec fn apply_set_delay(s: CpuState, x: int) -> CpuState {
    CpuState { delay: s.v[x], pc: (s.pc + 2) as nat, ..s }
}

/// Set the sound timer from register x.
pub open spec fn apply_set_sound(s: CpuState, x: int) -> CpuState {
    CpuState { sound: s.v[x], pc: (s.pc + 2) as nat, ..s }
}

/// Add register x to the index register; the flag records whether the result
/// passed the architecture's fixed high-water mark 0xF00. An index computed
/// outside memory capacity is a fault.
pub open spec fn apply_add_index(s: CpuState, x: int) -> Result<CpuState, Fault> {
    let ni = s.i + s.v[x];
    if ni >= RAM_SIZE {
        Err(Fault::MemoryOutOfRange)
    } else {
        Ok(
            CpuState {
                i: ni as nat,
                v: s.v.update(15, if ni > 0xf00 { 1u8 } else { 0u8 }),
                pc: (s.pc + 2) as nat,
                ..s
            },
        )
    }
}

/// Point the index register at the built-in five-byte glyph for register x's
/// value.
pub open spec fn apply_font_addr(s: CpuState, x: int) -> CpuState {
    CpuState { i: (s.v[x] * 5) as nat, pc: (s.pc + 2) as nat, ..s }
}

/// Write register x's value as three decimal digits (hundreds, tens, ones) at
/// the index register. A write that would pass the end of memory is a fault.
pub open spec fn apply_store_bcd(s: CpuState, x: int) -> Result<CpuState, Fault> {
    if s.i + 3 > RAM_SIZE {
        Err(Fault::MemoryOutOfRange)
    } else {
        let val = s.v[x] as int;
        Ok(
            CpuState {
                ram: s.ram.update(s.i as int, (val / 100) as u8).update(
                    s.i as int + 1,
                    ((val % 100) / 10) as u8,
                ).update(s.i as int + 2, (val % 10) as u8),
                pc: (s.pc + 2) as nat,
                ..s
            },
        )
    }
}

/// Write registers 0 through x to memory at the index register, which itself
/// is unchanged. A write that would pass the end of memory is a fault.
pub open spec fn apply_store_regs(s: CpuState, x: int) -> Result<CpuState, Fault> {
    if s.i + x + 1 > RAM_SIZE {
        Err(Fault::MemoryOutOfRange)
    } else {
        Ok(
            CpuState {
                ram: Seq::new(
                    s.ram.len(),
                    |a: int|
                        if s.i <= a <= s.i + x {
                            s.v[a - s.i]
                        } else {
                            s.ram[a]
                        },
                ),
                pc: (s.pc + 2) as nat,
                ..s
            },
        )
    }
}

/// Read memory at the index register into registers 0 through x; the index
/// register itself is unchanged. A read that would pass the end of memory is
/// a fault.
pub open spec fn apply_load_regs(s: CpuState, x: int) -> Result<CpuState, Fault> {
    if s.i + x + 1 > RAM_SIZE {
        Err(Fault::MemoryOutOfRange)
    } else {
        Ok(
            CpuState {
                v: Seq::new(
                    s.v.len(),
                    |r: int|
                        if 0 <= r <= x {
                            s.ram[s.i + r]
                        } else {
                            s.v[r]
                        },
                ),
                pc: (s.pc + 2) as nat,
                ..s
            },
        )
    }
}

/// Execute one decoded instruction. `rnd` is the byte a random-mask opcode
/// consumes; every other opcode ignores it.
pub open spec fn step_instr(s: CpuState, ins: Instr, rnd: u8) -> Result<CpuState, Fault> {
    match ins {
        Instr::Nop => Ok(apply_nop(s)),
        Instr::Cls => Ok(apply_cls(s)),
        Instr::Ret => apply_ret(s),
        Instr::Jump(nnn) => Ok(apply_jump(s, nnn)),
        Instr::Call(nnn) => apply_call(s, nnn),
        Instr::SkipEqImm(x, nn) => Ok(apply_skip_eq_imm(s, x as int, nn)),
        Instr::SkipNeImm(x, nn) => Ok(apply_skip_ne_imm(s, x as int, nn)),
        Instr::SkipEqReg(x, y) => Ok(apply_skip_eq_reg(s, x as int, y as int)),
        Instr::LoadImm(x, nn) => Ok(apply_load_imm(s, x as int, nn)),
        Instr::AddImm(x, nn) => Ok(apply_add_imm(s, x as int, nn)),
        Instr::Move(x, y) => Ok(apply_move(s, x as int, y as int)),
        Instr::Or(x, y) => Ok(apply_or(s, x as int, y as int)),
        Instr::And(x, y) => Ok(apply_and(s, x as int, y as int)),
        Instr::Xor(x, y) => Ok(apply_xor(s, x as int, y as int)),
        Instr::AddReg(x, y) => Ok(apply_add_reg(s, x as int, y as int)),
        Instr::SubReg(x, y) => Ok(apply_sub_reg(s, x as int, y as int)),
        Instr::ShiftRight(x) => Ok(apply_shift_right(s, x as int)),
        Instr::SubRev(x, y) => Ok(apply_sub_rev(s, x as int, y as int)),
        Instr::ShiftLeft(x) => Ok(apply_shift_left(s, x as int)),
        Instr::SkipNeReg(x, y) => Ok(apply_skip_ne_reg(s, x as int, y as int)),
        Instr::LoadIndex(nnn) => Ok(apply_load_index(s, nnn)),
        Instr::JumpOffset(nnn) => Ok(apply_jump_offset(s, nnn)),
        Instr::Random(x, nn) => Ok(apply_random(s, x as int, nn, rnd)),
        Instr::Draw(x, y, n) => apply_draw(s, x as int, y as int, n as int),
        Instr::SkipKey(x) => apply_skip_key(s, x as int),
        Instr::SkipNoKey(x) => apply_skip_no_key(s, x as int),
        Instr::ReadDelay(x) => Ok(apply_read_delay(s, x as int)),
        Instr::WaitKey(x) => Ok(apply_wait_key(s, x as int)),
        Instr::SetDelay(x) => Ok(apply_set_delay(s, x as int)),
        Instr::SetSound(x) => Ok(apply_set_sound(s, x as int)),
        Instr::AddIndex(x) => apply_add_index(s, x as int),
        Instr::FontAddr(x) => Ok(apply_font_addr(s, x as int)),
        Instr::StoreBcd(x) => apply_store_bcd(s, x as int),
        Instr::StoreRegs(x) => apply_store_regs(s, x as int),
        Instr::LoadRegs(x) => apply_load_regs(s, x as int),
        Instr::Unknown => Ok(apply_nop(s)),
    }
}

/// The built-in font: sixteen glyphs (hexadecimal digits 0 through F) of
/// five bytes each, resident in the first 80 bytes of memory.
pub open spec fn font_seq() -> Seq<u8> {
    seq![
        0xF0u8, 0x90u8, 0x90u8, 0x90u8, 0xF0u8,
        0x20u8, 0x60u8, 0x20u8, 0x20u8, 0x70u8,
        0xF0u8, 0x10u8, 0xF0u8, 0x80u8, 0xF0u8,
        0xF0u8, 0x10u8, 0xF0u8, 0x10u8, 0xF0u8,
        0x90u8, 0x90u8, 0xF0u8, 0x10u8, 0x10u8,
        0xF0u8, 0x80u8, 0xF0u8, 0x10u8, 0xF0u8,
        0xF0u8, 0x80u8, 0xF0u8, 0x90u8, 0xF0u8,
        0xF0u8, 0x10u8, 0x20u8, 0x40u8, 0x40u8,
        0xF0u8, 0x90u8, 0xF0u8, 0x90u8, 0xF0u8,
        0xF0u8, 0x90u8, 0xF0u8, 0x10u8, 0xF0u8,
        0xF0u8, 0x90u8, 0xF0u8, 0x90u8, 0x90u8,
        0xE0u8, 0x90u8, 0xE0u8, 0x90u8, 0xE0u8,
        0xF0u8, 0x80u8, 0x80u8, 0x80u8, 0xF0u8,
        0xE0u8, 0x90u8, 0x90u8, 0x90u8, 0xE0u8,
        0xF0u8, 0x80u8, 0xF0u8, 0x80u8, 0xF0u8,
        0xF0u8, 0x80u8, 0xF0u8, 0x80u8, 0x80u8,
    ]
}

/// Memory as constructed: the font in the first 80 bytes, zero elsewhere.
pub open spec fn initial_ram() -> Seq<u8> {
    Seq::new(RAM_SIZE as nat, |a: int| if a < 80 { font_seq()[a] } else { 0u8 })
}

/// The machine as constructed: font loaded, everything else zeroed, program
/// counter and index register at the ROM base.
pub open spec fn initial_state() -> CpuState {
    CpuState {
        ram: initial_ram(),
        vram: Seq::new(VRAM_SIZE as nat, |p: int| 0u8),
        vram_changed: false,
        v: Seq::new(16, |r: int| 0u8),
        i: ROM_BASE as nat,
        pc: ROM_BASE as nat,
        sp: 0,
        stack: Seq::new(STACK_SIZE as nat, |k: int| 0u16),
        delay: 0,
        sound: 0,
        keys: Seq::new(16, |k: int| false),
    }
}

/// Memory after copying a ROM in at the base address; bytes past the end of
/// memory are dropped silently.
pub open spec fn loaded_ram(ram: Seq<u8>, rom: Seq<u8>) -> Seq<u8> {
    Seq::new(
        ram.len(),
        |a: int|
            if ROM_BASE <= a < ROM_BASE + rom.len() {
                rom[a - ROM_BASE]
            } else {
                ram[a]
            },
    )
}

/// One whole cycle: lower the changed flag, fault if the program counter
/// stands outside capacity, otherwise fetch, decode and execute one
/// instruction and give each timer one countdown tick. On a fault the
/// machine is left as it stood (apart from the lowered changed flag).
pub open spec fn step_cycle(s: CpuState, rnd: u8) -> Result<CpuState, Fault> {
    let s0 = CpuState { vram_changed: false, ..s };
    if s.pc + 2 > RAM_SIZE {
        Err(Fault::MemoryOutOfRange)
    } else {
        match step_instr(s0, cur_instr(s), rnd) {
            Ok(s1) => Ok(CpuState { delay: tick(s1.delay), sound: tick(s1.sound), ..s1 }),
            Err(f) => Err(f),
        }
    }
}

/// Law: a load-immediate followed by an add-immediate composes to the
/// modulo-256 sum of the two immediates, and (for a destination other than
/// the flag register itself) the flag register is untouched. The two
/// instructions together advance the program counter by 4.
pub proof fn lemma_load_then_add_imm(s: CpuState, x: int, a: u8, b: u8)
    requires
        s.wf(),
        0 <= x < 15,
    ensures
        apply_add_imm(apply_load_imm(s, x, a), x, b).v[x] as int == (a + b) % 256,
        apply_add_imm(apply_load_imm(s, x, a), x, b).v[15] == s.v[15],
        apply_add_imm(apply_load_imm(s, x, a), x, b).pc == s.pc + 4,
{
    vstd::arithmetic::div_mod::lemma_mod_bound(a + b, 256);
}

/// Law: a register-register add stores the sum modulo 256 and sets the flag
/// register to 1 exactly when the unsigned sum exceeds 255.
pub proof fn lemma_add_reg_flag(s: CpuState, x: int, y: int)
    requires
        s.wf(),
        0 <= x < 16,
        0 <= y < 16,
    ensures
        apply_add_reg(s, x, y).v[15] == (if s.v[x] + s.v[y] > 255 {
            1u8
        } else {
            0u8
        }),
        x != 15 ==> apply_add_reg(s, x, y).v[x] as int == (s.v[x] + s.v[y]) % 256,
        apply_add_reg(s, x, y).pc == s.pc + 2,
{
    vstd::arithmetic::div_mod::lemma_mod_bound(s.v[x] + s.v[y], 256);
}

/// Law: subtract and subtract-reverse are mirror images. For ordinary
/// destination registers, subtract stores `x - y` modulo 256 with the flag 1
/// exactly when `x > y`, and subtract-reverse stores `y - x` modulo 256 with
/// the flag 1 exactly when `y > x`.
pub proof fn lemma_sub_mirror(s: CpuState, x: int, y: int)
    requires
        s.wf(),
        0 <= x < 15,
        0 <= y < 15,
    ensures
        apply_sub_reg(s, x, y).v[x] as int == (s.v[x] - s.v[y]) % 256,
        apply_sub_reg(s, x, y).v[15] == (if s.v[x] > s.v[y] {
            1u8
        } else {
            0u8
        }),
        apply_sub_rev(s, x, y).v[x] as int == (s.v[y] - s.v[x]) % 256,
        apply_sub_rev(s, x, y).v[15] == (if s.v[y] > s.v[x] {
            1u8
        } else {
            0u8
        }),
{
    vstd::arithmetic::div_mod::lemma_mod_bound(s.v[x] - s.v[y], 256);
    vstd::arithmetic::div_mod::lemma_mod_bound(s.v[y] - s.v[x], 256);
}

/// Law: a sprite draw is an involution on the framebuffer. Blitting the same
/// sprite at the same coordinates twice in succession restores every cell,
/// because each cell is xored twice with the same bit.
pub proof fn lemma_draw_twice_restores(
    fb: Seq<u8>,
    ram: Seq<u8>,
    i: int,
    vx: int,
    vy: int,
    n: int,
)
    ensures
        draw_fb(draw_fb(fb, ram, i, vx, vy, n), ram, i, vx, vy, n) == fb,
{
    let g = draw_fb(fb, ram, i, vx, vy, n);
    assert forall|p: int| 0 <= p < fb.len() implies draw_fb(g, ram, i, vx, vy, n)[p] == fb[p] by {
        let m = pix_mask(ram, i, vx, vy, n, p);
        let a = fb[p];
        assert((a ^ m) ^ m == a) by (bit_vector);
    }
    assert(draw_fb(g, ram, i, vx, vy, n) =~= fb);
}

/// Law: a call followed by a return round-trips the machine. The program
/// counter comes back as the address of the instruction after the call, the
/// stack pointer is restored, and every register, memory cell and timer is
/// untouched; only the stack slot the call wrote differs.
pub proof fn lemma_call_ret_roundtrip(s: CpuState, nnn: u16)
    requires
        s.wf(),
        s.sp < STACK_SIZE,
        s.pc + 2 <= 0xffff,
    ensures
        match apply_call(s, nnn) {
            Ok(s1) => match apply_ret(s1) {
                Ok(s2) => {
                    &&& s2.pc == s.pc + 2
                    &&& s2.sp == s.sp
                    &&& s2 == (CpuState {
                        pc: (s.pc + 2) as nat,
                        stack: s.stack.update(s.sp as int, (s.pc + 2) as u16),
                        ..s
                    })
                },
                Err(_) => false,
            },
            Err(_) => false,
        },
{
}

/// Law: every cycle gives each timer exactly one countdown tick, floored at
/// zero and never wrapping: unless the executed instruction itself sets a
/// timer, the new value is the old one decremented if it was nonzero, and
/// zero stays zero.
pub proof fn lemma_cycle_timer_tick(s: CpuState, rnd: u8)
    requires
        s.wf(),
    ensures
        match step_cycle(s, rnd) {
            Ok(s1) => {
                &&& !(cur_instr(s) matches Instr::SetDelay(_)) ==> s1.delay == tick(s.delay)
                &&& !(cur_instr(s) matches Instr::SetSound(_)) ==> s1.sound == tick(s.sound)
                &&& s1.delay <= s.delay || (cur_instr(s) matches Instr::SetDelay(_))
            },
            Err(_) => true,
        },
{
}

} // verus!

