//! The executable interpreter.
//!
//! [`Cpu`] owns the machine state of [`crate::state::CpuState`] and is proved
//! to implement the transition functions defined there: one call of
//! [`Cpu::emulate_cycle`] performs exactly one [`crate::state::step_cycle`].
//! The undefined conditions of the architecture (stack overflow and
//! underflow, memory accesses computed outside capacity) are surfaced as
//! [`Fault`] values; a faulting cycle leaves the machine as it stood.

use vstd::prelude::*;

use crate::decode::Instr;
use crate::decode::decode;
use crate::decode::spec_decode;
use crate::keypad::Keypad;
use crate::state::CpuState;
use crate::state::Fault;
use crate::state::HEIGHT;
use crate::state::RAM_SIZE;
use crate::state::ROM_BASE;
use crate::state::STACK_SIZE;
use crate::state::VRAM_SIZE;
use crate::state::WIDTH;
use crate::state::apply_add_imm;
use crate::state::apply_add_index;
use crate::state::apply_add_reg;
use crate::state::apply_and;
use crate::state::apply_call;
use crate::state::apply_cls;
use crate::state::apply_draw;
use crate::state::apply_font_addr;
use crate::state::apply_jump;
use crate::state::apply_jump_offset;
use crate::state::apply_load_imm;
use crate::state::apply_load_index;
use crate::state::apply_load_regs;
use crate::state::apply_move;
use crate::state::apply_nop;
use crate::state::apply_or;
use crate::state::apply_random;
use crate::state::apply_read_delay;
use crate::state::apply_ret;
use crate::state::apply_set_delay;
use crate::state::apply_set_sound;
use crate::state::apply_shift_left;
use crate::state::apply_shift_right;
use crate::state::apply_skip_eq_imm;
use crate::state::apply_skip_eq_reg;
use crate::state::apply_skip_key;
use crate::state::apply_skip_ne_imm;
use crate::state::apply_skip_ne_reg;
use crate::state::apply_skip_no_key;
use crate::state::apply_store_bcd;
use crate::state::apply_store_regs;
use crate::state::apply_sub_reg;
use crate::state::apply_sub_rev;
use crate::state::apply_wait_key;
use crate::state::apply_xor;
use crate::state::draw_collision;
use crate::state::first_pressed;
use crate::state::pix_mask;
use crate::state::font_seq;
use crate::state::initial_state;
use crate::state::loaded_ram;
use crate::state::step_cycle;
use crate::state::step_instr;
use crate::state::word_at;

use rand::Rng;

verus! {

/// The interpreter and the machine state it owns.
pub struct Cpu {
    ram: Vec<u8>,
    vram: Vec<u8>,
    vram_changed: bool,
    v: Vec<u8>,
    i: usize,
    pc: usize,
    sp: usize,
    stack: Vec<u16>,
    delay_timer: u8,
    sound_timer: u8,
    /// The key snapshot the embedding program feeds and two opcode families
    /// query.
    pub keypad: Keypad,
}

impl View for Cpu {
    type V = CpuState;

    closed spec fn view(&self) -> CpuState {
        CpuState {
            ram: self.ram@,
            vram: self.vram@,
            vram_changed: self.vram_changed,
            v: self.v@,
            i: self.i as nat,
            pc: self.pc as nat,
            sp: self.sp as nat,
            stack: self.stack@,
            delay: self.delay_timer,
            sound: self.sound_timer,
            keys: self.keypad@,
        }
    }
}

/// What one cycle hands the driver: a snapshot of the framebuffer, whether
/// it changed during the cycle, and whether a tone should be playing.
#[derive(Debug)]
pub struct OutputState {
    /// Framebuffer pixels, row-major, each 0 or 1.
    pub vram: Vec<u8>,
    /// Whether the cycle wrote the framebuffer.
    pub vram_changed: bool,
    /// Whether the sound timer is still running.
    pub beep: bool,
}

/// What a successful dispatch of one instruction guarantees: the machine
/// moved to exactly the state [`step_instr`] gives, or reported the fault
/// [`step_instr`] gives and stood still.
spec fn step_outcome(
    pre: CpuState,
    ins: Instr,
    rnd: u8,
    post: CpuState,
    r: Result<(), Fault>,
) -> bool {
    match step_instr(pre, ins, rnd) {
        Ok(s1) => r == Ok::<(), Fault>(()) && post == s1,
        Err(f) => r == Err::<(), Fault>(f) && post == pre,
    }
}

/// What one call of [`Cpu::emulate_cycle`] guarantees, for the random byte
/// `rnd` the cycle consumed: the machine performed exactly one
/// [`step_cycle`], and on success the returned snapshot reproduces the new
/// framebuffer, its changed flag, and whether the sound timer is running. On
/// a fault the machine is left as it stood, apart from the lowered changed
/// flag.
pub open spec fn cycle_outcome(
    pre: CpuState,
    rnd: u8,
    post: CpuState,
    r: Result<OutputState, Fault>,
) -> bool {
    match step_cycle(pre, rnd) {
        Ok(s1) => {
            &&& post == s1
            &&& match r {
                Ok(out) => out.vram@ == s1.vram && out.vram_changed == s1.vram_changed && out.beep
                    == (s1.sound > 0),
                Err(_) => false,
            }
        },
        Err(f) => {
            &&& post == (CpuState { vram_changed: false, ..pre })
            &&& r == Err::<OutputState, Fault>(f)
        },
    }
}

/// A fresh copy of a byte vector, element for element.
fn copy_bytes(src: &Vec<u8>) -> (r: Vec<u8>)
    ensures
        r@ == src@,
{
    let mut out: Vec<u8> = Vec::new();
    let mut k: usize = 0;
    while k < src.len()
        invariant
            k <= src@.len(),
            out@.len() == k,
            forall|j: int| 0 <= j < k ==> out@[j] == src@[j],
        decreases src@.len() - k,
    {
        out.push(src[k]);
        k = k + 1;
    }
    proof {
        assert(out@ =~= src@);
    }
    out
}

/// A byte vector of the given length, all zero.
fn zeroed_bytes(n: usize) -> (r: Vec<u8>)
    ensures
        r@ == Seq::new(n as nat, |a: int| 0u8),
{
    let mut out: Vec<u8> = Vec::new();
    let mut k: usize = 0;
    while k < n
        invariant
            k <= n,
            out@.len() == k,
            forall|j: int| 0 <= j < k ==> out@[j] == 0u8,
        decreases n - k,
    {
        out.push(0);
        k = k + 1;
    }
    proof {
        assert(out@ =~= Seq::new(n as nat, |a: int| 0u8));
    }
    out
}

impl Cpu {
    /// Invariant carried by every constructed machine.
    pub open spec fn wf(&self) -> bool {
        self@.wf()
    }

    /// A fresh machine: font loaded, all else zeroed, program counter and
    /// index register at the ROM base.
    pub fn new() -> (r: Cpu)
        ensures
            r.wf(),
            r@ == initial_state(),
    {
        let font: Vec<u8> = vec![
            0xF0, 0x90, 0x90, 0x90, 0xF0,
            0x20, 0x60, 0x20, 0x20, 0x70,
            0xF0, 0x10, 0xF0, 0x80, 0xF0,
            0xF0, 0x10, 0xF0, 0x10, 0xF0,
            0x90, 0x90, 0xF0, 0x10, 0x10,
            0xF0, 0x80, 0xF0, 0x10, 0xF0,
            0xF0, 0x80, 0xF0, 0x90, 0xF0,
            0xF0, 0x10, 0x20, 0x40, 0x40,
            0xF0, 0x90, 0xF0, 0x90, 0xF0,
            0xF0, 0x90, 0xF0, 0x10, 0xF0,
            0xF0, 0x90, 0xF0, 0x90, 0x90,
            0xE0, 0x90, 0xE0, 0x90, 0xE0,
            0xF0, 0x80, 0x80, 0x80, 0xF0,
            0xE0, 0x90, 0x90, 0x90, 0xE0,
            0xF0, 0x80, 0xF0, 0x80, 0xF0,
            0xF0, 0x80, 0xF0, 0x80, 0x80,
        ];
        proof {
            assert(font@ =~= font_seq());
        }
        let mut ram = zeroed_bytes(RAM_SIZE);
        let mut k: usize = 0;
        while k < 80
            invariant
                k <= 80,
                font@ == font_seq(),
                ram@.len() == RAM_SIZE,
                forall|j: int| 0 <= j < k ==> ram@[j] == font_seq()[j],
                forall|j: int| k <= j < RAM_SIZE ==> ram@[j] == 0u8,
            decreases 80 - k,
        {
            ram[k] = font[k];
            k = k + 1;
        }
        let mut stack: Vec<u16> = Vec::new();
        let mut s: usize = 0;
        while s < STACK_SIZE
            invariant
                s <= STACK_SIZE,
                stack@.len() == s,
                forall|j: int| 0 <= j < s ==> stack@[j] == 0u16,
            decreases STACK_SIZE - s,
        {
            stack.push(0);
            s = s + 1;
        }
        let cpu = Cpu {
            ram,
            vram: zeroed_bytes(VRAM_SIZE),
            vram_changed: false,
            v: zeroed_bytes(16),
            i: ROM_BASE,
            pc: ROM_BASE,
            sp: 0,
            stack,
            delay_timer: 0,
            sound_timer: 0,
            keypad: Keypad::new(),
        };
        proof {
            assert(cpu@.ram =~= initial_state().ram);
            assert(cpu@.stack =~= initial_state().stack);
            assert(cpu@.keys =~= initial_state().keys);
            assert(cpu@ =~= initial_state());
        }
        cpu
    }

    /// Copies a ROM into memory starting at the base address; bytes past the
    /// end of memory are dropped silently. The rest of the machine is
    /// untouched, so loading never leaves a partially usable state.
    pub fn load_rom(&mut self, rom: &[u8])
        requires
            old(self).wf(),
        ensures
            final(self).wf(),
            final(self)@ == (CpuState { ram: loaded_ram(old(self)@.ram, rom@), ..old(self)@ }),
    {
        let capacity = RAM_SIZE - ROM_BASE;
        let count = if rom.len() < capacity {
            rom.len()
        } else {
            capacity
        };
        let mut k: usize = 0;
        while k < count
            invariant
                k <= count,
                count <= rom@.len(),
                ROM_BASE + count <= RAM_SIZE,
                self@ == (CpuState {
                    ram: Seq::new(
                        RAM_SIZE as nat,
                        |a: int|
                            if ROM_BASE <= a < ROM_BASE + k {
                                rom@[a - ROM_BASE]
                            } else {
                                old(self)@.ram[a]
                            },
                    ),
                    ..old(self)@
                }),
            decreases count - k,
        {
            let b = rom[k];
            self.ram[ROM_BASE + k] = b;
            proof {
                assert(self@.ram =~= Seq::new(
                    RAM_SIZE as nat,
                    |a: int|
                        if ROM_BASE <= a < ROM_BASE + (k + 1) {
                            rom@[a - ROM_BASE]
                        } else {
                            old(self)@.ram[a]
                        },
                ));
            }
            k = k + 1;
        }
        proof {
            assert(self@.ram =~= loaded_ram(old(self)@.ram, rom@));
        }
    }

    /// The value of one general register.
    pub fn reg(&self, x: usize) -> (r: u8)
        requires
            self.wf(),
            x < 16,
        ensures
            r == self@.v[x as int],
    {
        self.v[x]
    }

    /// Sets one general register; a test-fixture hook.
    pub fn set_reg(&mut self, x: usize, val: u8)
        requires
            old(self).wf(),
            x < 16,
        ensures
            final(self).wf(),
            final(self)@ == (CpuState { v: old(self)@.v.update(x as int, val), ..old(self)@ }),
    {
        self.v[x] = val;
    }

    /// The program counter.
    pub fn program_counter(&self) -> (r: usize)
        ensures
            r == self@.pc,
    {
        self.pc
    }

    /// The index (address) register.
    pub fn index_register(&self) -> (r: usize)
        ensures
            r == self@.i,
    {
        self.i
    }

    /// Sets the index register; a test-fixture hook.
    pub fn set_index_register(&mut self, addr: usize)
        requires
            old(self).wf(),
            addr < RAM_SIZE,
        ensures
            final(self).wf(),
            final(self)@ == (CpuState { i: addr as nat, ..old(self)@ }),
    {
        self.i = addr;
    }

    /// The delay timer's current value.
    pub fn delay_timer(&self) -> (r: u8)
        ensures
            r == self@.delay,
    {
        self.delay_timer
    }

    /// Sets the delay timer; a test-fixture hook.
    pub fn set_delay_timer(&mut self, t: u8)
        requires
            old(self).wf(),
        ensures
            final(self).wf(),
            final(self)@ == (CpuState { delay: t, ..old(self)@ }),
    {
        self.delay_timer = t;
    }

    /// The sound timer's current value.
    pub fn sound_timer(&self) -> (r: u8)
        ensures
            r == self@.sound,
    {
        self.sound_timer
    }

    /// Sets the sound timer; a test-fixture hook.
    pub fn set_sound_timer(&mut self, t: u8)
        requires
            old(self).wf(),
        ensures
            final(self).wf(),
            final(self)@ == (CpuState { sound: t, ..old(self)@ }),
    {
        self.sound_timer = t;
    }

    /// One byte of memory.
    pub fn ram_at(&self, addr: usize) -> (r: u8)
        requires
            self.wf(),
            addr < RAM_SIZE,
        ensures
            r == self@.ram[addr as int],
    {
        self.ram[addr]
    }

    /// One framebuffer cell, 0 or 1, at the given row and column.
    pub fn pixel(&self, py: usize, px: usize) -> (r: u8)
        requires
            self.wf(),
            py < HEIGHT,
            px < WIDTH,
        ensures
            r == self@.vram[py as int * 64 + px as int],
    {
        self.vram[py * WIDTH + px]
    }

    /// Reads the instruction word stored big-endian at the program counter.
    fn fetch_opcode(&self) -> (w: u16)
        requires
            self.wf(),
            self@.pc + 2 <= RAM_SIZE,
        ensures
            w == word_at(self@.ram, self@.pc as int),
    {
        ((self.ram[self.pc] as u16) << 8u16) | (self.ram[self.pc + 1] as u16)
    }

    /// Runs one whole cycle: fetch, decode and execute one instruction, then
    /// give each timer one countdown tick, and hand back a framebuffer
    /// snapshot, its changed flag, and whether a tone should play. The
    /// undefined conditions of the architecture come back as faults that
    /// leave the machine as it stood.
    pub fn emulate_cycle(&mut self) -> (r: Result<OutputState, Fault>)
        requires
            old(self).wf(),
        ensures
            final(self).wf(),
            exists|rnd: u8| cycle_outcome(old(self)@, rnd, final(self)@, r),
    {
        self.vram_changed = false;
        if self.pc + 2 > RAM_SIZE {
            let r: Result<OutputState, Fault> = Err(Fault::MemoryOutOfRange);
            proof {
                assert(cycle_outcome(old(self)@, 0u8, self@, r));
            }
            return r;
        }
        let ghost s0 = self@;
        let w = self.fetch_opcode();
        let dispatched = self.opcode_execute(w);
        let ghost wrnd = choose|rnd: u8| step_outcome(s0, spec_decode(w), rnd, self@, dispatched);
        match dispatched {
            Err(f) => {
                let r: Result<OutputState, Fault> = Err(f);
                proof {
                    assert(cycle_outcome(old(self)@, wrnd, self@, r));
                }
                r
            },
            Ok(()) => {
                if self.delay_timer > 0 {
                    self.delay_timer = self.delay_timer - 1;
                }
                if self.sound_timer > 0 {
                    self.sound_timer = self.sound_timer - 1;
                }
                let out = OutputState {
                    vram: copy_bytes(&self.vram),
                    vram_changed: self.vram_changed,
                    beep: self.sound_timer > 0,
                };
                let r: Result<OutputState, Fault> = Ok(out);
                proof {
                    assert(cycle_outcome(old(self)@, wrnd, self@, r));
                }
                r
            },
        }
    }

    /// Decodes one instruction word and dispatches it to its handler; a word
    /// outside the defined opcode space advances past the instruction and
    /// mutates nothing else.
    fn opcode_execute(&mut self, w: u16) -> (r: Result<(), Fault>)
        requires
            old(self).wf(),
            old(self)@.pc + 2 <= RAM_SIZE,
        ensures
            final(self).wf(),
            exists|rnd: u8| step_outcome(old(self)@, spec_decode(w), rnd, final(self)@, r),
    {
        let ins = decode(w);
        let ghost mut wrnd: u8 = 0;
        let result: Result<(), Fault> = match ins {
            Instr::Nop => {
                self.op_0000();
                Ok(())
            },
            Instr::Cls => {
                self.op_00e0();
                Ok(())
            },
            Instr::Ret => self.op_00ee(),
            Instr::Jump(nnn) => {
                self.op_1nnn(nnn);
                Ok(())
            },
            Instr::Call(nnn) => self.op_2nnn(nnn),
            Instr::SkipEqImm(x, nn) => {
                self.op_3xnn(x as usize, nn);
                Ok(())
            },
            Instr::SkipNeImm(x, nn) => {
                self.op_4xnn(x as usize, nn);
                Ok(())
            },
            Instr::SkipEqReg(x, y) => {
                self.op_5xy0(x as usize, y as usize);
                Ok(())
            },
            Instr::LoadImm(x, nn) => {
                self.op_6xnn(x as usize, nn);
                Ok(())
            },
            Instr::AddImm(x, nn) => {
                self.op_7xnn(x as usize, nn);
                Ok(())
            },
            Instr::Move(x, y) => {
                self.op_8xy0(x as usize, y as usize);
                Ok(())
            },
            Instr::Or(x, y) => {
                self.op_8xy1(x as usize, y as usize);
                Ok(())
            },
            Instr::And(x, y) => {
                self.op_8xy2(x as usize, y as usize);
                Ok(())
            },
            Instr::Xor(x, y) => {
                self.op_8xy3(x as usize, y as usize);
                Ok(())
            },
            Instr::AddReg(x, y) => {
                self.op_8xy4(x as usize, y as usize);
                Ok(())
            },
            Instr::SubReg(x, y) => {
                self.op_8xy5(x as usize, y as usize);
                Ok(())
            },
            Instr::ShiftRight(x) => {
                self.op_8x06(x as usize);
                Ok(())
            },
            Instr::SubRev(x, y) => {
                self.op_8xy7(x as usize, y as usize);
                Ok(())
            },
            Instr::ShiftLeft(x) => {
                self.op_8x0e(x as usize);
                Ok(())
            },
            Instr::SkipNeReg(x, y) => {
                self.op_9xy0(x as usize, y as usize);
                Ok(())
            },
            Instr::LoadIndex(nnn) => {
                self.op_annn(nnn);
                Ok(())
            },
            Instr::JumpOffset(nnn) => {
                self.op_bnnn(nnn);
                Ok(())
            },
            Instr::Random(x, nn) => {
                self.op_cxnn(x as usize, nn);
                proof {
                    wrnd = choose|rnd: u8|
                        self@ == apply_random(old(self)@, x as int, nn, rnd);
                }
                Ok(())
            },
            Instr::Draw(x, y, n) => self.op_dxyn(x as usize, y as usize, n as usize),
            Instr::SkipKey(x) => self.op_ex9e(x as usize),
            Instr::SkipNoKey(x) => self.op_exa1(x as usize),
            Instr::ReadDelay(x) => {
                self.op_fx07(x as usize);
                Ok(())
            },
            Instr::WaitKey(x) => {
                self.op_fx0a(x as usize);
                Ok(())
            },
            Instr::SetDelay(x) => {
                self.op_fx15(x as usize);
                Ok(())
            },
            Instr::SetSound(x) => {
                self.op_fx18(x as usize);
                Ok(())
            },
            Instr::AddIndex(x) => self.op_fx1e(x as usize),
            Instr::FontAddr(x) => {
                self.op_fx29(x as usize);
                Ok(())
            },
            Instr::StoreBcd(x) => self.op_fx33(x as usize),
            Instr::StoreRegs(x) => self.op_fx55(x as usize),
            Instr::LoadRegs(x) => self.op_fx65(x as usize),
            Instr::Unknown => {
                self.op_0000();
                Ok(())
            },
        };
        proof {
            assert(step_outcome(old(self)@, spec_decode(w), wrnd, self@, result));
        }
        result
    }

    /// No operation: advance past the instruction.
    fn op_0000(&mut self)
        requires
            old(self).wf(),
            old(self)@.pc + 2 <= RAM_SIZE,
        ensures
            final(self).wf(),
            final(self)@ == apply_nop(old(self)@),
    {
        self.pc = self.pc + 2;
    }

    /// Clear-screen: zero the framebuffer and raise the changed flag.
    fn op_00e0(&mut self)
        requires
            old(self).wf(),
            old(self)@.pc + 2 <= RAM_SIZE,
        ensures
            final(self).wf(),
            final(self)@ == apply_cls(old(self)@),
    {
        let mut p: usize = 0;
        while p < VRAM_SIZE
            invariant
                p <= VRAM_SIZE,
                self@.vram.len() == VRAM_SIZE,
                forall|q: int| 0 <= q < p ==> self@.vram[q] == 0u8,
                self@ == (CpuState { vram: self@.vram, ..old(self)@ }),
            decreases VRAM_SIZE - p,
        {
            self.vram[p] = 0;
            p = p + 1;
        }
        self.vram_changed = true;
        self.pc = self.pc + 2;
        proof {
            assert(self@.vram =~= apply_cls(old(self)@).vram);
        }
    }

    /// Return: pop the top stack entry into the program counter.
    fn op_00ee(&mut self) -> (r: Result<(), Fault>)
        requires
            old(self).wf(),
            old(self)@.pc + 2 <= RAM_SIZE,
        ensures
            final(self).wf(),
            match apply_ret(old(self)@) {
                Ok(s1) => r == Ok::<(), Fault>(()) && final(self)@ == s1,
                Err(f) => r == Err::<(), Fault>(f) && final(self)@ == old(self)@,
            },
    {
        if self.sp == 0 {
            return Err(Fault::StackUnderflow);
        }
        self.sp = self.sp - 1;
        self.pc = self.stack[self.sp] as usize;
        Ok(())
    }

    /// Jump absolute.
    fn op_1nnn(&mut self, nnn: u16)
        requires
            old(self).wf(),
            old(self)@.pc + 2 <= RAM_SIZE,
            nnn < 4096,
        ensures
            final(self).wf(),
            final(self)@ == apply_jump(old(self)@, nnn),
    {
        self.pc = nnn as usize;
    }

    /// Call: push the address of the following instruction, then jump.
    fn op_2nnn(&mut self, nnn: u16) -> (r: Result<(), Fault>)
        requires
            old(self).wf(),
            old(self)@.pc + 2 <= RAM_SIZE,
            nnn < 4096,
        ensures
            final(self).wf(),
            match apply_call(old(self)@, nnn) {
                Ok(s1) => r == Ok::<(), Fault>(()) && final(self)@ == s1,
                Err(f) => r == Err::<(), Fault>(f) && final(self)@ == old(self)@,
            },
    {
        if self.sp >= STACK_SIZE {
            return Err(Fault::StackOverflow);
        }
        self.stack[self.sp] = (self.pc + 2) as u16;
        self.sp = self.sp + 1;
        self.pc = nnn as usize;
        Ok(())
    }

    /// Skip the next instruction if register x equals the immediate.
    fn op_3xnn(&mut self, x: usize, nn: u8)
        requires
            old(self).wf(),
            old(self)@.pc + 2 <= RAM_SIZE,
            x < 16,
        ensures
            final(self).wf(),
            final(self)@ == apply_skip_eq_imm(old(self)@, x as int, nn),
    {
        self.pc = self.pc + if self.v[x] == nn {
            4
        } else {
            2
        };
    }

    /// Skip the next instruction if register x differs from the immediate.
    fn op_4xnn(&mut self, x: usize, nn: u8)
        requires
            old(self).wf(),
            old(self)@.pc + 2 <= RAM_SIZE,
            x < 16,
        ensures
            final(self).wf(),
            final(self)@ == apply_skip_ne_imm(old(self)@, x as int, nn),
    {
        self.pc = self.pc + if self.v[x] != nn {
            4
        } else {
            2
        };
    }

    /// Skip the next instruction if registers x and y are equal.
    fn op_5xy0(&mut self, x: usize, y: usize)
        requires
            old(self).wf(),
            old(self)@.pc + 2 <= RAM_SIZE,
            x < 16,
            y < 16,
        ensures
            final(self).wf(),
            final(self)@ == apply_skip_eq_reg(old(self)@, x as int, y as int),
    {
        self.pc = self.pc + if self.v[x] == self.v[y] {
            4
        } else {
            2
        };
    }

    /// Load the immediate into register x.
    fn op_6xnn(&mut self, x: usize, nn: u8)
        requires
            old(self).wf(),
            old(self)@.pc + 2 <= RAM_SIZE,
            x < 16,
        ensures
            final(self).wf(),
            final(self)@ == apply_load_imm(old(self)@, x as int, nn),
    {
        self.v[x] = nn;
        self.pc = self.pc + 2;
    }

    /// Add the immediate to register x modulo 256; the flag is untouched.
    fn op_7xnn(&mut self, x: usize, nn: u8)
        requires
            old(self).wf(),
            old(self)@.pc + 2 <= RAM_SIZE,
            x < 16,
        ensures
            final(self).wf(),
            final(self)@ == apply_add_imm(old(self)@, x as int, nn),
    {
        let vx = self.v[x] as u16;
        let result = (vx + nn as u16) % 256;
        self.v[x] = result as u8;
        self.pc = self.pc + 2;
    }

    /// Copy register y into register x.
    fn op_8xy0(&mut self, x: usize, y: usize)
        requires
            old(self).wf(),
            old(self)@.pc + 2 <= RAM_SIZE,
            x < 16,
            y < 16,
        ensures
            final(self).wf(),
            final(self)@ == apply_move(old(self)@, x as int, y as int),
    {
        let vy = self.v[y];
        self.v[x] = vy;
        self.pc = self.pc + 2;
    }

    /// Bitwise or of registers x and y into x.
    fn op_8xy1(&mut self, x: usize, y: usize)
        requires
            old(self).wf(),
            old(self)@.pc + 2 <= RAM_SIZE,
            x < 16,
            y < 16,
        ensures
            final(self).wf(),
            final(self)@ == apply_or(old(self)@, x as int, y as int),
    {
        let r = self.v[x] | self.v[y];
        self.v[x] = r;
        self.pc = self.pc + 2;
    }

    /// Bitwise and of registers x and y into x.
    fn op_8xy2(&mut self, x: usize, y: usize)
        requires
            old(self).wf(),
            old(self)@.pc + 2 <= RAM_SIZE,
            x < 16,
            y < 16,
        ensures
            final(self).wf(),
            final(self)@ == apply_and(old(self)@, x as int, y as int),
    {
        let r = self.v[x] & self.v[y];
        self.v[x] = r;
        self.pc = self.pc + 2;
    }

    /// Bitwise xor of registers x and y into x.
    fn op_8xy3(&mut self, x: usize, y: usize)
        requires
            old(self).wf(),
            old(self)@.pc + 2 <= RAM_SIZE,
            x < 16,
            y < 16,
        ensures
            final(self).wf(),
            final(self)@ == apply_xor(old(self)@, x as int, y as int),
    {
        let r = self.v[x] ^ self.v[y];
        self.v[x] = r;
        self.pc = self.pc + 2;
    }

    /// Add registers: register x takes the sum modulo 256, then the flag
    /// records the carry.
    fn op_8xy4(&mut self, x: usize, y: usize)
        requires
            old(self).wf(),
            old(self)@.pc + 2 <= RAM_SIZE,
            x < 16,
            y < 16,
        ensures
            final(self).wf(),
            final(self)@ == apply_add_reg(old(self)@, x as int, y as int),
    {
        let sum = self.v[x] as u16 + self.v[y] as u16;
        self.v[x] = (sum % 256) as u8;
        self.v[15] = if sum > 0xff {
            1
        } else {
            0
        };
        self.pc = self.pc + 2;
    }

    /// Subtract register y from x: the flag takes "no borrow" first, then
    /// register x takes the difference modulo 256.
    fn op_8xy5(&mut self, x: usize, y: usize)
        requires
            old(self).wf(),
            old(self)@.pc + 2 <= RAM_SIZE,
            x < 16,
            y < 16,
        ensures
            final(self).wf(),
            final(self)@ == apply_sub_reg(old(self)@, x as int, y as int),
    {
        self.v[15] = if self.v[x] > self.v[y] {
            1
        } else {
            0
        };
        let diff = (self.v[x] as u16 + 256 - self.v[y] as u16) % 256;
        self.v[x] = diff as u8;
        self.pc = self.pc + 2;
        proof {
            let v1 = old(self)@.v.update(
                15,
                if old(self)@.v[x as int] > old(self)@.v[y as int] {
                    1u8
                } else {
                    0u8
                },
            );
            lemma_wrap_mod256(v1[x as int] as int, v1[y as int] as int);
        }
    }

    /// Shift register x right by one; the flag takes the dropped low bit
    /// first.
    fn op_8x06(&mut self, x: usize)
        requires
            old(self).wf(),
            old(self)@.pc + 2 <= RAM_SIZE,
            x < 16,
        ensures
            final(self).wf(),
            final(self)@ == apply_shift_right(old(self)@, x as int),
    {
        self.v[15] = self.v[x] & 0x01;
        let r = self.v[x] >> 1u8;
        self.v[x] = r;
        self.pc = self.pc + 2;
    }

    /// Subtract register x from y, into x: the flag takes "no borrow" first.
    fn op_8xy7(&mut self, x: usize, y: usize)
        requires
            old(self).wf(),
            old(self)@.pc + 2 <= RAM_SIZE,
            x < 16,
            y < 16,
        ensures
            final(self).wf(),
            final(self)@ == apply_sub_rev(old(self)@, x as int, y as int),
    {
        self.v[15] = if self.v[y] > self.v[x] {
            1
        } else {
            0
        };
        let diff = (self.v[y] as u16 + 256 - self.v[x] as u16) % 256;
        self.v[x] = diff as u8;
        self.pc = self.pc + 2;
        proof {
            let v1 = old(self)@.v.update(
                15,
                if old(self)@.v[y as int] > old(self)@.v[x as int] {
                    1u8
                } else {
                    0u8
                },
            );
            lemma_wrap_mod256(v1[y as int] as int, v1[x as int] as int);
        }
    }

    /// Shift register x left by one; the flag takes the dropped high bit
    /// first.
    fn op_8x0e(&mut self, x: usize)
        requires
            old(self).wf(),
            old(self)@.pc + 2 <= RAM_SIZE,
            x < 16,
        ensures
            final(self).wf(),
            final(self)@ == apply_shift_left(old(self)@, x as int),
    {
        self.v[15] = (self.v[x] & 0x80) >> 7u8;
        let r = self.v[x] << 1u8;
        self.v[x] = r;
        self.pc = self.pc + 2;
    }

    /// Skip the next instruction if registers x and y differ.
    fn op_9xy0(&mut self, x: usize, y: usize)
        requires
            old(self).wf(),
            old(self)@.pc + 2 <= RAM_SIZE,
            x < 16,
            y < 16,
        ensures
            final(self).wf(),
            final(self)@ == apply_skip_ne_reg(old(self)@, x as int, y as int),
    {
        self.pc = self.pc + if self.v[x] != self.v[y] {
            4
        } else {
            2
        };
    }

    /// Load the address into the index register.
    fn op_annn(&mut self, nnn: u16)
        requires
            old(self).wf(),
            old(self)@.pc + 2 <= RAM_SIZE,
            nnn < 4096,
        ensures
            final(self).wf(),
            final(self)@ == apply_load_index(old(self)@, nnn),
    {
        self.i = nnn as usize;
        self.pc = self.pc + 2;
    }

    /// Jump to the address plus register 0.
    fn op_bnnn(&mut self, nnn: u16)
        requires
            old(self).wf(),
            old(self)@.pc + 2 <= RAM_SIZE,
            nnn < 4096,
        ensures
            final(self).wf(),
            final(self)@ == apply_jump_offset(old(self)@, nnn),
    {
        self.pc = nnn as usize + self.v[0] as usize;
    }

    /// Load a random byte masked by the immediate into register x.
    fn op_cxnn(&mut self, x: usize, nn: u8)
        requires
            old(self).wf(),
            old(self)@.pc + 2 <= RAM_SIZE,
            x < 16,
        ensures
            final(self).wf(),
            exists|rnd: u8| final(self)@ == apply_random(old(self)@, x as int, nn, rnd),
    {
        let b = random_byte();
        self.v[x] = nn & b;
        self.pc = self.pc + 2;
        proof {
            assert(self@ == apply_random(old(self)@, x as int, nn, b));
        }
    }

    /// Draw a sprite: xor-blit `n` rows of 8 pixels, read from memory at the
    /// index register, into the framebuffer at the coordinates held by
    /// registers x and y (both wrapping), then record in the flag register
    /// whether any set cell was turned off.
    fn op_dxyn(&mut self, x: usize, y: usize, n: usize) -> (r: Result<(), Fault>)
        requires
            old(self).wf(),
            old(self)@.pc + 2 <= RAM_SIZE,
            x < 16,
            y < 16,
            n < 16,
        ensures
            final(self).wf(),
            match apply_draw(old(self)@, x as int, y as int, n as int) {
                Ok(s1) => r == Ok::<(), Fault>(()) && final(self)@ == s1,
                Err(f) => r == Err::<(), Fault>(f) && final(self)@ == old(self)@,
            },
    {
        if self.i + n > RAM_SIZE {
            return Err(Fault::MemoryOutOfRange);
        }
        let ghost pre = old(self)@;
        let ghost iv = pre.i as int;
        let vx = self.v[x];
        let vy = self.v[y];
        let ghost vxi = vx as int;
        let ghost vyi = vy as int;
        let ghost ni = n as int;
        let mut collision: u8 = 0;
        let mut row: usize = 0;
        while row < n
            invariant
                old(self).wf(),
                x < 16,
                y < 16,
                n < 16,
                row <= n,
                iv == pre.i,
                vxi == vx as int,
                vyi == vy as int,
                ni == n as int,
                pre == old(self)@,
                vx == pre.v[x as int],
                vy == pre.v[y as int],
                pre.i + n <= RAM_SIZE,
                self@ == (CpuState { vram: self@.vram, ..pre }),
                self@.vram.len() == VRAM_SIZE,
                forall|p: int|
                    0 <= p < VRAM_SIZE ==> self@.vram[p] == (if draw_done(
                        vxi,
                        vyi,
                        ni,
                        p,
                        row as int,
                        0,
                    ) {
                        pre.vram[p] ^ pix_mask(pre.ram, iv, vxi, vyi, ni, p)
                    } else {
                        pre.vram[p]
                    }),
                collision == 0 || collision == 1,
                collision == 1 <==> exists|p: int|
                    0 <= p < VRAM_SIZE && draw_done(vxi, vyi, ni, p, row as int, 0) && pre.vram[p]
                        == 1 && pix_mask(pre.ram, iv, vxi, vyi, ni, p) == 1,
            decreases n - row,
        {
            let sprite = self.ram[self.i + row];
            let py = (vy as usize + row) % HEIGHT;
            let mut bit: usize = 0;
            while bit < 8
                invariant
                    old(self).wf(),
                    x < 16,
                    y < 16,
                    n < 16,
                    row < n,
                    bit <= 8,
                    iv == pre.i,
                    vxi == vx as int,
                    vyi == vy as int,
                    ni == n as int,
                    pre == old(self)@,
                    vx == pre.v[x as int],
                    vy == pre.v[y as int],
                    pre.i + n <= RAM_SIZE,
                    sprite == pre.ram[iv + row],
                    py == (vyi + row) % 32,
                    self@ == (CpuState { vram: self@.vram, ..pre }),
                    self@.vram.len() == VRAM_SIZE,
                    forall|p: int|
                        0 <= p < VRAM_SIZE ==> self@.vram[p] == (if draw_done(
                            vxi,
                            vyi,
                            ni,
                            p,
                            row as int,
                            bit as int,
                        ) {
                            pre.vram[p] ^ pix_mask(pre.ram, iv, vxi, vyi, ni, p)
                        } else {
                            pre.vram[p]
                        }),
                    collision == 0 || collision == 1,
                    collision == 1 <==> exists|p: int|
                        0 <= p < VRAM_SIZE && draw_done(vxi, vyi, ni, p, row as int, bit as int)
                            && pre.vram[p] == 1 && pix_mask(pre.ram, iv, vxi, vyi, ni, p) == 1,
                decreases 8 - bit,
            {
                let px = (vx as usize + bit) % WIDTH;
                let shift: u8 = (7 - bit) as u8;
                let color = (sprite >> shift) & 1;
                let idx = py * WIDTH + px;
                proof {
                    vstd::arithmetic::div_mod::lemma_fundamental_div_mod_converse(
                        idx as int,
                        64,
                        py as int,
                        px as int,
                    );
                    lemma_wrap_offset(vyi, row as int, 32);
                    lemma_wrap_offset(vxi, bit as int, 64);
                }
                let ghost p = idx as int;
                let ghost mask = pix_mask(pre.ram, iv, vxi, vyi, ni, p);
                proof {
                    assert((p / 64 - vyi) % 32 == row as int);
                    assert((p % 64 - vxi) % 64 == bit as int);
                    assert(mask == color);
                    assert(!draw_done(vxi, vyi, ni, p, row as int, bit as int));
                    assert((sprite >> shift) & 1 == 0 || (sprite >> shift) & 1 == 1) by (bit_vector);
                }
                let cur = self.vram[idx];
                let ghost col0 = collision;
                proof {
                    assert(cur == pre.vram[p]);
                    assert(cur == 0 || cur == 1);
                    assert((color == 0 || color == 1) && (cur == 0 || cur == 1) ==> ((color & cur)
                        == 0 || (color & cur) == 1)) by (bit_vector);
                    assert((color == 0 || color == 1) && (cur == 0 || cur == 1) ==> ((color & cur)
                        == 1 <==> (color == 1 && cur == 1))) by (bit_vector);
                    assert((collision == 0 || collision == 1) && ((color & cur) == 0 || (color
                        & cur) == 1) ==> (((collision | (color & cur)) == 1 <==> (collision == 1
                        || (color & cur) == 1)) && ((collision | (color & cur)) == 0 || (collision
                        | (color & cur)) == 1))) by (bit_vector);
                    assert((color == 0 || color == 1) && (cur == 0 || cur == 1) ==> ((cur ^ color)
                        == 0 || (cur ^ color) == 1)) by (bit_vector);
                }
                collision = collision | (color & cur);
                self.vram[idx] = cur ^ color;
                proof {
                    assert forall|q: int|
                        0 <= q < VRAM_SIZE && q != p implies (draw_done(
                        vxi,
                        vyi,
                        ni,
                        q,
                        row as int,
                        bit as int + 1,
                    ) == draw_done(vxi, vyi, ni, q, row as int, bit as int)) by {
                        if draw_done(vxi, vyi, ni, q, row as int, bit as int + 1) && !draw_done(
                            vxi,
                            vyi,
                            ni,
                            q,
                            row as int,
                            bit as int,
                        ) {
                            vstd::arithmetic::div_mod::lemma_fundamental_div_mod(q, 64);
                            vstd::arithmetic::div_mod::lemma_mod_bound(q, 64);
                            lemma_wrap_unique(vyi, row as int, 32, q / 64);
                            lemma_wrap_unique(vxi, bit as int, 64, q % 64);
                        }
                    }
                    assert(draw_done(vxi, vyi, ni, p, row as int, bit as int + 1));
                    assert(self@.vram[p] == pre.vram[p] ^ mask);
                    assert(collision == 1 <==> (col0 == 1 || (color & cur) == 1));
                    if col0 == 1 {
                        let q = choose|q: int|
                            0 <= q < VRAM_SIZE && draw_done(vxi, vyi, ni, q, row as int, bit as int)
                                && pre.vram[q] == 1 && pix_mask(pre.ram, iv, vxi, vyi, ni, q) == 1;
                        assert(draw_done(vxi, vyi, ni, q, row as int, bit as int + 1));
                    }
                    if color & cur == 1 {
                        assert(pre.vram[p] == 1 && pix_mask(pre.ram, iv, vxi, vyi, ni, p) == 1);
                    }
                    if collision == 1 {
                        assert(exists|q: int|
                            0 <= q < VRAM_SIZE && draw_done(vxi, vyi, ni, q, row as int, bit as int
                                + 1) && pre.vram[q] == 1 && pix_mask(pre.ram, iv, vxi, vyi, ni, q)
                                == 1);
                    } else {
                        assert forall|q: int|
                            0 <= q < VRAM_SIZE && draw_done(vxi, vyi, ni, q, row as int, bit as int
                                + 1) && pre.vram[q] == 1 && pix_mask(pre.ram, iv, vxi, vyi, ni, q)
                                == 1 implies false by {
                            if q == p {
                                assert((color & cur) == 1);
                            } else {
                                assert(draw_done(vxi, vyi, ni, q, row as int, bit as int));
                            }
                        }
                    }
                }
                bit = bit + 1;
            }
            row = row + 1;
            proof {
                assert forall|p: int| 0 <= p < VRAM_SIZE implies (draw_done(
                    vxi,
                    vyi,
                    ni,
                    p,
                    row as int,
                    0,
                ) == draw_done(vxi, vyi, ni, p, row - 1, 8)) by {}
            }
        }
        self.v[15] = collision;
        self.vram_changed = true;
        self.pc = self.pc + 2;
        proof {
            let fin = apply_draw(pre, x as int, y as int, ni)->Ok_0;
            assert forall|p: int| 0 <= p < VRAM_SIZE implies self@.vram[p] == fin.vram[p] by {
                let mask = pix_mask(pre.ram, iv, vxi, vyi, ni, p);
                if !draw_done(vxi, vyi, ni, p, ni, 0) {
                    assert(mask == 0);
                    let a = pre.vram[p];
                    assert(a ^ 0 == a) by (bit_vector);
                }
            }
            assert(self@.vram =~= fin.vram);
            assert(collision == 1 <==> draw_collision(pre.vram, pre.ram, iv, vxi, vyi, ni));
            assert forall|p: int| 0 <= p < VRAM_SIZE implies (self@.vram[p] == 0 || self@.vram[p]
                == 1) by {
                let mask = pix_mask(pre.ram, iv, vxi, vyi, ni, p);
                let a = pre.vram[p];
                if draw_done(vxi, vyi, ni, p, ni, 0) {
                    let rr = (p / 64 - vyi) % 32;
                    let bb = (p % 64 - vxi) % 64;
                    let z = pre.ram[iv + rr];
                    let sh = (7 - bb) as u8;
                    assert((z >> sh) & 1 == 0 || (z >> sh) & 1 == 1) by (bit_vector);
                    assert((a == 0 || a == 1) && (mask == 0 || mask == 1) ==> ((a ^ mask) == 0 || (
                    a ^ mask) == 1)) by (bit_vector);
                }
            }
            assert(self@ == fin);
        }
        Ok(())
    }

    /// Skip the next instruction if the key indexed by register x is held.
    fn op_ex9e(&mut self, x: usize) -> (r: Result<(), Fault>)
        requires
            old(self).wf(),
            old(self)@.pc + 2 <= RAM_SIZE,
            x < 16,
        ensures
            final(self).wf(),
            match apply_skip_key(old(self)@, x as int) {
                Ok(s1) => r == Ok::<(), Fault>(()) && final(self)@ == s1,
                Err(f) => r == Err::<(), Fault>(f) && final(self)@ == old(self)@,
            },
    {
        let key = self.v[x] as usize;
        if key >= 16 {
            return Err(Fault::KeyOutOfRange);
        }
        self.pc = self.pc + if self.keypad.pressed(key) {
            4
        } else {
            2
        };
        Ok(())
    }

    /// Skip the next instruction if the key indexed by register x is not
    /// held.
    fn op_exa1(&mut self, x: usize) -> (r: Result<(), Fault>)
        requires
            old(self).wf(),
            old(self)@.pc + 2 <= RAM_SIZE,
            x < 16,
        ensures
            final(self).wf(),
            match apply_skip_no_key(old(self)@, x as int) {
                Ok(s1) => r == Ok::<(), Fault>(()) && final(self)@ == s1,
                Err(f) => r == Err::<(), Fault>(f) && final(self)@ == old(self)@,
            },
    {
        let key = self.v[x] as usize;
        if key >= 16 {
            return Err(Fault::KeyOutOfRange);
        }
        self.pc = self.pc + if !self.keypad.pressed(key) {
            4
        } else {
            2
        };
        Ok(())
    }

    /// Sample the keypad once: store the lowest-indexed held key into
    /// register x, or leave it unchanged when no key is held. The program
    /// counter always advances; the driver re-invokes cycles while a program
    /// waits.
    fn wait_keypress(&mut self, x: usize)
        requires
            old(self).wf(),
            old(self)@.pc + 2 <= RAM_SIZE,
            x < 16,
        ensures
            final(self).wf(),
            final(self)@ == apply_wait_key(old(self)@, x as int),
    {
        let mut k: usize = 0;
        while k < 16
            invariant
                old(self).wf(),
                old(self)@.pc + 2 <= RAM_SIZE,
                x < 16,
                k <= 16,
                self@ == old(self)@,
                forall|j: int| 0 <= j < k ==> !old(self)@.keys[j],
            decreases 16 - k,
        {
            if self.keypad.pressed(k) {
                self.v[x] = k as u8;
                self.pc = self.pc + 2;
                proof {
                    lemma_first_pressed_found(old(self)@.keys, 0, k as int);
                }
                return ;
            }
            k = k + 1;
        }
        self.pc = self.pc + 2;
        proof {
            lemma_first_pressed_none(old(self)@.keys, 0);
        }
    }

    /// Sample the keypad for the wait-for-key opcode.
    fn op_fx0a(&mut self, x: usize)
        requires
            old(self).wf(),
            old(self)@.pc + 2 <= RAM_SIZE,
            x < 16,
        ensures
            final(self).wf(),
            final(self)@ == apply_wait_key(old(self)@, x as int),
    {
        self.wait_keypress(x);
    }

    /// Read the delay timer into register x.
    fn op_fx07(&mut self, x: usize)
        requires
            old(self).wf(),
            old(self)@.pc + 2 <= RAM_SIZE,
            x < 16,
        ensures
            final(self).wf(),
            final(self)@ == apply_read_delay(old(self)@, x as int),
    {
        self.v[x] = self.delay_timer;
        self.pc = self.pc + 2;
    }

    /// Set the delay timer from register x.
    fn op_fx15(&mut self, x: usize)
        requires
            old(self).wf(),
            old(self)@.pc + 2 <= RAM_SIZE,
            x < 16,
        ensures
            final(self).wf(),
            final(self)@ == apply_set_delay(old(self)@, x as int),
    {
        self.delay_timer = self.v[x];
        self.pc = self.pc + 2;
    }

    /// Set the sound timer from register x.
    fn op_fx18(&mut self, x: usize)
        requires
            old(self).wf(),
            old(self)@.pc + 2 <= RAM_SIZE,
            x < 16,
        ensures
            final(self).wf(),
            final(self)@ == apply_set_sound(old(self)@, x as int),
    {
        self.sound_timer = self.v[x];
        self.pc = self.pc + 2;
    }

    /// Add register x to the index register; the flag records the high-water
    /// mark. An index computed outside capacity is a fault.
    fn op_fx1e(&mut self, x: usize) -> (r: Result<(), Fault>)
        requires
            old(self).wf(),
            old(self)@.pc + 2 <= RAM_SIZE,
            x < 16,
        ensures
            final(self).wf(),
            match apply_add_index(old(self)@, x as int) {
                Ok(s1) => r == Ok::<(), Fault>(()) && final(self)@ == s1,
                Err(f) => r == Err::<(), Fault>(f) && final(self)@ == old(self)@,
            },
    {
        let ni = self.i + self.v[x] as usize;
        if ni >= RAM_SIZE {
            return Err(Fault::MemoryOutOfRange);
        }
        self.i = ni;
        self.v[15] = if ni > 0xf00 {
            1
        } else {
            0
        };
        self.pc = self.pc + 2;
        Ok(())
    }

    /// Point the index register at the built-in glyph for register x's value.
    fn op_fx29(&mut self, x: usize)
        requires
            old(self).wf(),
            old(self)@.pc + 2 <= RAM_SIZE,
            x < 16,
        ensures
            final(self).wf(),
            final(self)@ == apply_font_addr(old(self)@, x as int),
    {
        self.i = self.v[x] as usize * 5;
        self.pc = self.pc + 2;
    }

    /// Write register x's value as three decimal digits at the index
    /// register.
    fn op_fx33(&mut self, x: usize) -> (r: Result<(), Fault>)
        requires
            old(self).wf(),
            old(self)@.pc + 2 <= RAM_SIZE,
            x < 16,
        ensures
            final(self).wf(),
            match apply_store_bcd(old(self)@, x as int) {
                Ok(s1) => r == Ok::<(), Fault>(()) && final(self)@ == s1,
                Err(f) => r == Err::<(), Fault>(f) && final(self)@ == old(self)@,
            },
    {
        if self.i + 3 > RAM_SIZE {
            return Err(Fault::MemoryOutOfRange);
        }
        let val = self.v[x];
        self.ram[self.i] = val / 100;
        self.ram[self.i + 1] = (val % 100) / 10;
        self.ram[self.i + 2] = val % 10;
        self.pc = self.pc + 2;
        Ok(())
    }

    /// Write registers 0 through x to memory at the index register.
    fn op_fx55(&mut self, x: usize) -> (r: Result<(), Fault>)
        requires
            old(self).wf(),
            old(self)@.pc + 2 <= RAM_SIZE,
            x < 16,
        ensures
            final(self).wf(),
            match apply_store_regs(old(self)@, x as int) {
                Ok(s1) => r == Ok::<(), Fault>(()) && final(self)@ == s1,
                Err(f) => r == Err::<(), Fault>(f) && final(self)@ == old(self)@,
            },
    {
        if self.i + x + 1 > RAM_SIZE {
            return Err(Fault::MemoryOutOfRange);
        }
        let mut k: usize = 0;
        while k < x + 1
            invariant
                old(self).wf(),
                x < 16,
                k <= x + 1,
                old(self)@.i + x + 1 <= RAM_SIZE,
                self@ == (CpuState {
                    ram: Seq::new(
                        RAM_SIZE as nat,
                        |a: int|
                            if old(self)@.i <= a < old(self)@.i + k {
                                old(self)@.v[a - old(self)@.i]
                            } else {
                                old(self)@.ram[a]
                            },
                    ),
                    ..old(self)@
                }),
            decreases x + 1 - k,
        {
            let b = self.v[k];
            self.ram[self.i + k] = b;
            proof {
                assert(self@.ram =~= Seq::new(
                    RAM_SIZE as nat,
                    |a: int|
                        if old(self)@.i <= a < old(self)@.i + (k + 1) {
                            old(self)@.v[a - old(self)@.i]
                        } else {
                            old(self)@.ram[a]
                        },
                ));
            }
            k = k + 1;
        }
        self.pc = self.pc + 2;
        proof {
            assert(self@.ram =~= apply_store_regs(old(self)@, x as int)->Ok_0.ram);
        }
        Ok(())
    }

    /// Read memory at the index register into registers 0 through x.
    fn op_fx65(&mut self, x: usize) -> (r: Result<(), Fault>)
        requires
            old(self).wf(),
            old(self)@.pc + 2 <= RAM_SIZE,
            x < 16,
        ensures
            final(self).wf(),
            match apply_load_regs(old(self)@, x as int) {
                Ok(s1) => r == Ok::<(), Fault>(()) && final(self)@ == s1,
                Err(f) => r == Err::<(), Fault>(f) && final(self)@ == old(self)@,
            },
    {
        if self.i + x + 1 > RAM_SIZE {
            return Err(Fault::MemoryOutOfRange);
        }
        let mut k: usize = 0;
        while k < x + 1
            invariant
                old(self).wf(),
                x < 16,
                k <= x + 1,
                old(self)@.i + x + 1 <= RAM_SIZE,
                self@ == (CpuState {
                    v: Seq::new(
                        16,
                        |r: int|
                            if 0 <= r < k {
                                old(self)@.ram[old(self)@.i + r]
                            } else {
                                old(self)@.v[r]
                            },
                    ),
                    ..old(self)@
                }),
            decreases x + 1 - k,
        {
            let b = self.ram[self.i + k];
            self.v[k] = b;
            proof {
                assert(self@.v =~= Seq::new(
                    16,
                    |r: int|
                        if 0 <= r < k + 1 {
                            old(self)@.ram[old(self)@.i + r]
                        } else {
                            old(self)@.v[r]
                        },
                ));
            }
            k = k + 1;
        }
        self.pc = self.pc + 2;
        proof {
            assert(self@.v =~= apply_load_regs(old(self)@, x as int)->Ok_0.v);
        }
        Ok(())
    }
}

/// How far a sprite blit has progressed: whether framebuffer cell `p` has
/// already been xored, after `rows` full rows and `bits` cells of row `rows`.
spec fn draw_done(vx: int, vy: int, n: int, p: int, rows: int, bits: int) -> bool {
    let py = p / 64;
    let px = p % 64;
    let r = (py - vy) % 32;
    let b = (px - vx) % 64;
    r < n && b < 8 && (r < rows || (r == rows && b < bits))
}

/// If no key below `k` is held and key `k` is, then `k` is the first held
/// key.
proof fn lemma_first_pressed_found(keys: Seq<bool>, from: int, k: int)
    requires
        0 <= from <= k < 16,
        forall|j: int| from <= j < k ==> !keys[j],
        keys[k],
    ensures
        first_pressed(keys, from) == Some(k),
    decreases k - from,
{
    if from < k {
        lemma_first_pressed_found(keys, from + 1, k);
    }
}

/// If no key at or after `from` is held, there is no first held key.
proof fn lemma_first_pressed_none(keys: Seq<bool>, from: int)
    requires
        0 <= from <= 16,
        forall|j: int| from <= j < 16 ==> !keys[j],
    ensures
        first_pressed(keys, from) == None::<int>,
    decreases 16 - from,
{
    if from < 16 {
        lemma_first_pressed_none(keys, from + 1);
    }
}

/// Taking an offset below the period and wrapping it around a base lands
/// where unwrapping from the base finds it again.
proof fn lemma_wrap_offset(vbase: int, off: int, m: int)
    requires
        0 < m,
        0 <= off < m,
        0 <= vbase,
    ensures
        ((vbase + off) % m - vbase) % m == off,
{
    let s = vbase + off;
    vstd::arithmetic::div_mod::lemma_fundamental_div_mod(s, m);
    let k = s / m;
    assert(m * (-k) == -(m * k)) by (nonlinear_arith);
    assert(s % m - vbase == m * (-k) + off);
    vstd::arithmetic::div_mod::lemma_mod_multiples_vanish(-k, off, m);
    vstd::arithmetic::div_mod::lemma_small_mod(off as nat, m as nat);
}

/// A residue below the period whose unwrapped offset from the base is `off`
/// is exactly the wrap of `base + off`: wrapped targets are unique.
proof fn lemma_wrap_unique(vbase: int, off: int, m: int, q: int)
    requires
        0 < m,
        0 <= off < m,
        0 <= q < m,
        0 <= vbase,
        (q - vbase) % m == off,
    ensures
        q == (vbase + off) % m,
{
    let d = q - vbase;
    vstd::arithmetic::div_mod::lemma_fundamental_div_mod(d, m);
    let kd = d / m;
    let s = vbase + off;
    vstd::arithmetic::div_mod::lemma_fundamental_div_mod(s, m);
    let ks = s / m;
    vstd::arithmetic::div_mod::lemma_mod_bound(s, m);
    assert(q == s + m * kd);
    assert(q - s % m == m * (kd + ks)) by (nonlinear_arith)
        requires
            q == s + m * kd,
            s == m * ks + s % m,
    ;
    assert(kd + ks == 0) by (nonlinear_arith)
        requires
            q - s % m == m * (kd + ks),
            0 < m,
            -m < q - s % m < m,
    ;
}

/// For a difference of two bytes shifted up by one period, the modulo-256
/// remainder agrees with the remainder of the plain difference.
proof fn lemma_wrap_mod256(a: int, b: int)
    requires
        0 <= a < 256,
        0 <= b < 256,
    ensures
        (a + 256 - b) % 256 == (a - b) % 256,
{
    let t = a - b;
    assert(t % 256 == (t + 256) % 256) by {
        vstd::arithmetic::div_mod::lemma_mod_add_multiples_vanish(t, 256);
    }
}

/// Relies on `rand::thread_rng` and `rand::Rng::gen::<u8>`: a freshly drawn
/// random byte. Nothing is promised of the value.
#[verifier::external_body]
fn random_byte() -> u8 {
    rand::thread_rng().gen::<u8>()
}

} // verus!
