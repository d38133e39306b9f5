//! A verified virtual machine core for the CHIP-8 instruction set.
//!
//! The machine state (memory, registers, timers, call stack, framebuffer)
//! and the per-instruction transition are modeled by the spec functions in
//! [`machine`]; the executable engine here is proved to follow that model
//! step by step. Unrecoverable conditions (an undocumented opcode, a return
//! on an empty stack, an out-of-range memory access) are reported as
//! [`structs::Fault`] values instead of halting the process.

use vstd::prelude::*;

pub mod display;
pub mod machine;
pub mod structs;

use crate::display::{draw_on, spec_rows_drawn};
use crate::machine::{
    spec_exec_alu, spec_exec_instr, spec_exec_misc, spec_glyph_byte, spec_glyph_row,
    spec_load_regs, spec_min_key, spec_resolve_wait, spec_step, spec_store_regs, spec_tick,
    spec_word_at, wf, ChipView, StepOutcome, DISPLAY_LEN, MEM_SIZE, NUM_REGS, PROGRAM_START,
    TIMER_TICK_MS,
};
use crate::structs::{BehaviorConfig, Fault, Instruction, VariableRegisters};
use rand::Rng;

verus! {

/// Relies on `rand::thread_rng` and `rand::Rng::gen_range` for a uniformly
/// random byte; nothing is assumed about the returned value.
#[verifier::external_body]
fn random_byte() -> u8 {
    rand::thread_rng().gen_range(0..256) as u8
}

/// An all-off display buffer.
fn blank_display() -> (v: Vec<bool>)
    ensures
        v@.len() == DISPLAY_LEN,
        forall|i: int| 0 <= i < DISPLAY_LEN ==> !v@[i],
{
    let mut v: Vec<bool> = Vec::new();
    let mut i: usize = 0;
    while i < DISPLAY_LEN
        invariant
            i <= DISPLAY_LEN,
            v@.len() == i,
            forall|j: int| 0 <= j < i ==> !v@[j],
        decreases DISPLAY_LEN - i,
    {
        v.push(false);
        i = i + 1;
    }
    v
}

/// The executable counterpart of [`spec_glyph_row`]: row `r` of the built-in
/// glyph sprite for hexadecimal digit `d`.
fn glyph_row(d: u8, r: u8) -> (b: u8)
    requires
        d < 16,
        r < 5,
    ensures
        b == spec_glyph_row(d as int, r as int),
{
    let rows: [u8; 5] = if d == 0x0 {
        [0xF0, 0x90, 0x90, 0x90, 0xF0]
    } else if d == 0x1 {
        [0x20, 0x60, 0x20, 0x20, 0x70]
    } else if d == 0x2 {
        [0xF0, 0x10, 0xF0, 0x80, 0xF0]
    } else if d == 0x3 {
        [0xF0, 0x10, 0xF0, 0x10, 0xF0]
    } else if d == 0x4 {
        [0x90, 0x90, 0xF0, 0x10, 0x10]
    } else if d == 0x5 {
        [0xF0, 0x80, 0xF0, 0x10, 0xF0]
    } else if d == 0x6 {
        [0xF0, 0x80, 0xF0, 0x90, 0xF0]
    } else if d == 0x7 {
        [0xF0, 0x10, 0x20, 0x40, 0x40]
    } else if d == 0x8 {
        [0xF0, 0x90, 0xF0, 0x90, 0xF0]
    } else if d == 0x9 {
        [0xF0, 0x90, 0xF0, 0x10, 0xF0]
    } else if d == 0xA {
        [0xF0, 0x90, 0xF0, 0x90, 0x90]
    } else if d == 0xB {
        [0xE0, 0x90, 0xE0, 0x90, 0xE0]
    } else if d == 0xC {
        [0xF0, 0x80, 0x80, 0x80, 0xF0]
    } else if d == 0xD {
        [0xE0, 0x90, 0x90, 0x90, 0xE0]
    } else if d == 0xE {
        [0xF0, 0x80, 0xF0, 0x80, 0xF0]
    } else {
        [0xF0, 0x80, 0xF0, 0x80, 0x80]
    };
    rows[r as usize]
}

/// The smallest key code in a non-empty pressed-key snapshot.
fn min_key(keys: &Vec<u8>) -> (m: u8)
    requires
        keys.len() > 0,
    ensures
        m == spec_min_key(keys@),
{
    let mut m: u8 = keys[0];
    let mut i: usize = 1;
    assert(keys@.take(1) =~= seq![keys@[0]]);
    while i < keys.len()
        invariant
            1 <= i <= keys@.len(),
            m == spec_min_key(keys@.take(i as int)),
        decreases keys@.len() - i,
    {
        proof {
            assert(keys@.take(i + 1).drop_last() =~= keys@.take(i as int));
            assert(keys@.take(i + 1).last() == keys@[i as int]);
        }
        if keys[i] < m {
            m = keys[i];
        }
        i = i + 1;
    }
    proof {
        assert(keys@.take(keys@.len() as int) =~= keys@);
    }
    m
}

/// Whether key code `k` is in the pressed-key snapshot.
fn contains_key(keys: &Vec<u8>, k: u8) -> (r: bool)
    ensures
        r == keys@.contains(k),
{
    let mut i: usize = 0;
    while i < keys.len()
        invariant
            i <= keys@.len(),
            forall|j: int| 0 <= j < i ==> keys@[j] != k,
        decreases keys@.len() - i,
    {
        if keys[i] == k {
            return true;
        }
        i = i + 1;
    }
    false
}

/// Writes registers `0..=x` into `memory` starting at `base`.
fn store_regs_into(memory: &mut Vec<u8>, regs: &VariableRegisters, base: u16, x: u8)
    requires
        old(memory).len() == MEM_SIZE,
        regs@.len() == NUM_REGS,
        x < 16,
        base + x < MEM_SIZE,
    ensures
        final(memory)@ == spec_store_regs(old(memory)@, regs@, base as int, x as int),
{
    let mut k: u8 = 0;
    while k < x + 1
        invariant
            k <= x + 1,
            x < 16,
            base + x < MEM_SIZE,
            regs@.len() == NUM_REGS,
            memory@.len() == MEM_SIZE,
            forall|a: int|
                0 <= a < MEM_SIZE && !(base as int <= a < base as int + k as int) ==> memory@[a]
                    == old(memory)@[a],
            forall|a: int|
                base as int <= a < base as int + k as int ==> memory@[a] == regs@[a - base as int],
        decreases x + 1 - k,
    {
        let v = regs.get(k);
        memory[(base + k as u16) as usize] = v;
        k = k + 1;
    }
    assert(memory@ =~= spec_store_regs(old(memory)@, regs@, base as int, x as int));
}

/// Loads registers `0..=x` from `memory` starting at `base`.
fn load_regs_from(regs: &mut VariableRegisters, memory: &Vec<u8>, base: u16, x: u8)
    requires
        old(regs)@.len() == NUM_REGS,
        memory.len() == MEM_SIZE,
        x < 16,
        base + x < MEM_SIZE,
    ensures
        final(regs)@ == spec_load_regs(old(regs)@, memory@, base as int, x as int),
{
    let mut k: u8 = 0;
    while k < x + 1
        invariant
            k <= x + 1,
            x < 16,
            base + x < MEM_SIZE,
            memory@.len() == MEM_SIZE,
            regs@.len() == NUM_REGS,
            forall|j: int| 0 <= j < k as int ==> regs@[j] == memory@[base as int + j],
            forall|j: int| k as int <= j < 16 ==> regs@[j] == old(regs)@[j],
        decreases x + 1 - k,
    {
        let v = memory[(base + k as u16) as usize];
        regs.set(k, v);
        k = k + 1;
    }
    assert(regs@ =~= spec_load_regs(old(regs)@, memory@, base as int, x as int));
}

/// The CHIP-8 virtual machine: memory, registers, timers, call stack,
/// display buffer, the wait-for-key latch and the quirk configuration.
#[derive(Debug)]
pub struct Chip {
    /// 4KB memory (4096 bytes).
    memory: Vec<u8>,
    /// Row-major monochrome pixels, 64 columns by 32 rows; `true` is lit.
    display: Vec<bool>,
    /// Last in, first out stack of return addresses.
    stack: Vec<u16>,
    /// Decremented at a 60 Hz cadence while non-zero.
    delay_timer: u8,
    /// Decremented at a 60 Hz cadence while non-zero; a tone sounds while it
    /// is non-zero.
    sound_timer: u8,
    /// Program counter: the address of the next instruction.
    pc: u16,
    /// Index register, used to point at locations in memory.
    i_reg: u16,
    /// General-purpose variable registers used by programs.
    var_reg: VariableRegisters,
    /// Wait-for-key latch: the register a pressed key's code goes to, if the
    /// machine is suspended waiting for a key press.
    is_waiting_for_press: Option<u8>,
    /// Wall-clock milliseconds accumulated towards the next timer tick.
    accum_ms: u64,
    /// Behavior configuration for historically conflicting implementations.
    behavior: BehaviorConfig,
}

impl View for Chip {
    type V = ChipView;

    closed spec fn view(&self) -> ChipView {
        ChipView {
            memory: self.memory@,
            display: self.display@,
            stack: self.stack@,
            delay_timer: self.delay_timer,
            sound_timer: self.sound_timer,
            pc: self.pc,
            i_reg: self.i_reg,
            regs: self.var_reg@,
            waiting: self.is_waiting_for_press,
            accum_ms: self.accum_ms,
            behavior: self.behavior,
        }
    }
}

impl Chip {
    /// Structural validity: fixed memory, display and register-file sizes.
    pub open spec fn wf(&self) -> bool {
        wf(self@)
    }

    /// Builds a machine with the built-in glyph data at address 0, the
    /// program loaded from address 0x200 on (truncated at the end of
    /// memory), zeroes everywhere else, and all registers, timers and the
    /// display cleared.
    pub fn new(program: Vec<u8>, behavior: BehaviorConfig) -> (r: Self)
        ensures
            r.wf(),
            r@.behavior == behavior,
            r@.pc == PROGRAM_START,
            r@.i_reg == 0u16,
            r@.delay_timer == 0u8,
            r@.sound_timer == 0u8,
            r@.accum_ms == 0u64,
            r@.stack.len() == 0,
            (r@.waiting is None),
            forall|j: int| 0 <= j < NUM_REGS ==> r@.regs[j] == 0,
            forall|i: int| 0 <= i < DISPLAY_LEN ==> !r@.display[i],
            r@.memory.len() == MEM_SIZE,
            forall|a: int| 0 <= a < 80 ==> r@.memory[a] == spec_glyph_byte(a),
            forall|a: int| 80 <= a < PROGRAM_START ==> r@.memory[a] == 0,
            forall|a: int|
                PROGRAM_START <= a < MEM_SIZE ==> r@.memory[a] == (if a - PROGRAM_START
                    < program@.len() {
                    program@[a - PROGRAM_START]
                } else {
                    0u8
                }),
    {
        let mut memory: Vec<u8> = Vec::new();
        let mut d: u8 = 0;
        while d < 16
            invariant
                d <= 16,
                memory@.len() == 5 * d as int,
                forall|a: int| 0 <= a < 5 * d as int ==> memory@[a] == spec_glyph_byte(a),
            decreases 16 - d,
        {
            let mut row: u8 = 0;
            while row < 5
                invariant
                    d < 16,
                    row <= 5,
                    memory@.len() == 5 * d as int + row as int,
                    forall|a: int|
                        0 <= a < 5 * d as int + row as int ==> memory@[a] == spec_glyph_byte(a),
                decreases 5 - row,
            {
                memory.push(glyph_row(d, row));
                proof {
                    let a = memory@.len() - 1;
                    assert(a / 5 == d as int && a % 5 == row as int);
                }
                row = row + 1;
            }
            d = d + 1;
        }
        while memory.len() < PROGRAM_START as usize
            invariant
                80 <= memory@.len() <= PROGRAM_START as int,
                forall|a: int| 0 <= a < 80 ==> memory@[a] == spec_glyph_byte(a),
                forall|a: int| 80 <= a < memory@.len() ==> memory@[a] == 0,
            decreases PROGRAM_START as int - memory@.len(),
        {
            memory.push(0);
        }
        let mut p: usize = 0;
        while p < program.len() && memory.len() < MEM_SIZE
            invariant
                p <= program@.len(),
                memory@.len() == PROGRAM_START as int + p as int,
                memory@.len() <= MEM_SIZE,
                forall|a: int| 0 <= a < 80 ==> memory@[a] == spec_glyph_byte(a),
                forall|a: int| 80 <= a < PROGRAM_START ==> memory@[a] == 0,
                forall|a: int|
                    PROGRAM_START <= a < memory@.len() ==> memory@[a] == program@[a - PROGRAM_START],
            decreases program@.len() - p,
        {
            memory.push(program[p]);
            p = p + 1;
        }
        while memory.len() < MEM_SIZE
            invariant
                PROGRAM_START as int + p as int <= memory@.len() <= MEM_SIZE,
                p <= program@.len(),
                forall|a: int| 0 <= a < 80 ==> memory@[a] == spec_glyph_byte(a),
                forall|a: int| 80 <= a < PROGRAM_START ==> memory@[a] == 0,
                forall|a: int|
                    PROGRAM_START <= a < PROGRAM_START as int + p as int ==> memory@[a]
                        == program@[a - PROGRAM_START],
                forall|a: int|
                    PROGRAM_START as int + p as int <= a < memory@.len() ==> memory@[a] == 0,
                p < program@.len() ==> memory@.len() == MEM_SIZE,
        decreases MEM_SIZE - memory@.len(),
        {
            memory.push(0);
        }
        Chip {
            memory,
            display: blank_display(),
            stack: Vec::new(),
            delay_timer: 0,
            sound_timer: 0,
            pc: PROGRAM_START,
            i_reg: 0,
            var_reg: VariableRegisters::new(),
            is_waiting_for_press: None,
            accum_ms: 0,
            behavior,
        }
    }

    /// The display buffer: 2048 row-major pixels, 64 columns by 32 rows.
    pub fn display(&self) -> (r: &Vec<bool>)
        ensures
            r@ == self@.display,
    {
        &self.display
    }

    /// The general-purpose registers.
    pub fn registers(&self) -> (r: &VariableRegisters)
        ensures
            r@ == self@.regs,
    {
        &self.var_reg
    }

    /// The program counter.
    pub fn pc(&self) -> (r: u16)
        ensures
            r == self@.pc,
    {
        self.pc
    }

    /// The index register.
    pub fn index_register(&self) -> (r: u16)
        ensures
            r == self@.i_reg,
    {
        self.i_reg
    }

    /// Processes one step of the machine with the given pressed-key snapshot
    /// and the wall-clock milliseconds elapsed since the previous call.
    /// Returns whether the display changed and whether a tone should sound,
    /// or the fault that halted the machine. The random source supplies the
    /// byte consumed by the `Cxnn` instruction.
    pub fn process_instruction(&mut self, keys: Vec<u8>, elapsed_ms: u64) -> (r: Result<
        (bool, bool),
        Fault,
    >)
        requires
            old(self).wf(),
        ensures
            final(self).wf(),
            exists|rnd: u8|
                spec_step(old(self)@, keys@, elapsed_ms, rnd) == (StepOutcome {
                    chip: final(self)@,
                    result: r,
                }),
    {
        let rnd = random_byte();
        self.step_with(&keys, elapsed_ms, rnd)
    }

    /// One step of the machine with every input made explicit, including the
    /// byte `rnd` that stands in for the random source: the outcome is
    /// exactly [`spec_step`] of the starting state.
    pub fn step_with(&mut self, keys: &Vec<u8>, elapsed_ms: u64, rnd: u8) -> (r: Result<
        (bool, bool),
        Fault,
    >)
        requires
            old(self).wf(),
        ensures
            final(self).wf(),
            spec_step(old(self)@, keys@, elapsed_ms, rnd) == (StepOutcome {
                chip: final(self)@,
                result: r,
            }),
    {
        let ghost pre = self@;
        // Wait-for-key latch: with no key pressed the step is a no-op;
        // otherwise the lowest pressed key code lands in the pending
        // register and execution resumes.
        match self.is_waiting_for_press {
            Some(reg) => {
                if keys.len() == 0 {
                    return Ok((false, self.sound_timer > 0));
                }
                let k = min_key(keys);
                self.var_reg.set(reg, k);
                self.is_waiting_for_press = None;
            },
            None => {},
        }
        let ghost g1 = self@;
        proof {
            assert(g1 =~= spec_resolve_wait(pre, keys@));
        }
        // Timers: accumulate elapsed wall-clock time; past the tick
        // threshold both timers drop by one (never below zero).
        let total: u64 = if self.accum_ms <= u64::MAX - elapsed_ms {
            self.accum_ms + elapsed_ms
        } else {
            u64::MAX
        };
        if total >= TIMER_TICK_MS {
            if self.delay_timer > 0 {
                self.delay_timer = self.delay_timer - 1;
            }
            if self.sound_timer > 0 {
                self.sound_timer = self.sound_timer - 1;
            }
            self.accum_ms = 0;
        } else {
            self.accum_ms = total;
        }
        let ghost g2 = self@;
        proof {
            assert(g2 =~= spec_tick(g1, elapsed_ms));
        }
        // Fetch: two consecutive bytes at the program counter form the
        // instruction word, most significant byte first; the program counter
        // moves past the word before dispatch, so jumps simply overwrite it.
        if self.pc as usize + 1 >= MEM_SIZE {
            return Err(Fault::FetchOutOfBounds { addr: self.pc });
        }
        let at: u16 = self.pc;
        let hi: u8 = self.memory[at as usize];
        let lo: u8 = self.memory[at as usize + 1];
        let w: u16 = (hi as u16) * 0x100 + (lo as u16);
        let instr = Instruction::from_u16(w);
        self.pc = at + 2;
        let ghost g3 = self@;
        proof {
            assert(w == spec_word_at(g2.memory, at as int));
            assert(g3 =~= (ChipView { pc: (g2.pc + 2) as u16, ..g2 }));
        }
        self.op_dispatch(at, w, keys, rnd)
    }

    /// Dispatch of one fetched instruction word `w`, read from `at`; the
    /// program counter has already moved past it.
    #[verifier::rlimit(100)]
    #[verifier::spinoff_prover]
    fn op_dispatch(&mut self, at: u16, w: u16, keys: &Vec<u8>, rnd: u8) -> (r: Result<
        (bool, bool),
        Fault,
    >)
        requires
            wf(old(self)@),
        ensures
            wf(final(self)@),
            spec_exec_instr(old(self)@, at, w, keys@, rnd) == (StepOutcome {
                chip: final(self)@,
                result: r,
            }),
    {
        let instr = Instruction::from_u16(w);
        let op = instr.get_nib(0);
        let x = instr.get_nib(1);
        let y = instr.get_nib(2);
        let k = instr.get_nib(3);
        let nn = instr.get_lbyte();
        let nnn = instr.get_addr();
        if op == 0x0 {
            if w == 0x00E0 {
                // 00E0: clear the display.
                self.display = blank_display();
                assert(self@.display =~= Seq::new(DISPLAY_LEN as nat, |i: int| false));
                Ok((true, self.sound_timer > 0))
            } else if w == 0x00EE {
                // 00EE: return from subroutine.
                if self.stack.len() == 0 {
                    return Err(Fault::StackUnderflow { addr: at, word: w });
                }
                match self.stack.pop() {
                    Some(addr) => {
                        self.pc = addr;
                        assert(self@.stack =~= old(self)@.stack.drop_last());
                        Ok((false, self.sound_timer > 0))
                    },
                    None => Err(Fault::StackUnderflow { addr: at, word: w }),
                }
            } else {
                Err(Fault::InvalidInstruction { addr: at, word: w })
            }
        } else if op == 0x1 {
            // 1nnn: jump.
            self.pc = nnn;
            Ok((false, self.sound_timer > 0))
        } else if op == 0x2 {
            // 2nnn: call subroutine, pushing the return address.
            self.stack.push(self.pc);
            self.pc = nnn;
            Ok((false, self.sound_timer > 0))
        } else if op == 0x3 {
            // 3xnn: skip next instruction if Vx == nn.
            if self.var_reg.get(x) == nn {
                self.pc = ((self.pc as u32 + 2) % 0x10000) as u16;
            }
            Ok((false, self.sound_timer > 0))
        } else if op == 0x4 {
            // 4xnn: skip next instruction if Vx != nn.
            if self.var_reg.get(x) != nn {
                self.pc = ((self.pc as u32 + 2) % 0x10000) as u16;
            }
            Ok((false, self.sound_timer > 0))
        } else if op == 0x5 {
            // 5xy0: skip next instruction if Vx == Vy.
            if k != 0 {
                return Err(Fault::InvalidInstruction { addr: at, word: w });
            }
            if self.var_reg.get(x) == self.var_reg.get(y) {
                self.pc = ((self.pc as u32 + 2) % 0x10000) as u16;
            }
            Ok((false, self.sound_timer > 0))
        } else if op == 0x6 {
            // 6xnn: Vx := nn.
            self.var_reg.set(x, nn);
            Ok((false, self.sound_timer > 0))
        } else if op == 0x7 {
            // 7xnn: Vx := Vx + nn, 8-bit wraparound, no flag.
            let vx = self.var_reg.get(x);
            self.var_reg.set(x, ((vx as u16 + nn as u16) % 256) as u8);
            Ok((false, self.sound_timer > 0))
        } else if op == 0x8 {
            // 8xyk: register-to-register operations.
            self.op_alu(at, w, x, y, k)
        } else if op == 0x9 {
            // 9xy0: skip next instruction if Vx != Vy.
            if k != 0 {
                return Err(Fault::InvalidInstruction { addr: at, word: w });
            }
            if self.var_reg.get(x) != self.var_reg.get(y) {
                self.pc = ((self.pc as u32 + 2) % 0x10000) as u16;
            }
            Ok((false, self.sound_timer > 0))
        } else if op == 0xA {
            // Annn: I := nnn.
            self.i_reg = nnn;
            Ok((false, self.sound_timer > 0))
        } else if op == 0xB {
            // Bnnn: jump to nnn plus an offset register, V0 or (by quirk) Vx.
            let offset: u8 = if self.behavior.jump_offset_uses_vx {
                self.var_reg.get(x)
            } else {
                self.var_reg.get(0)
            };
            self.pc = nnn + offset as u16;
            Ok((false, self.sound_timer > 0))
        } else if op == 0xC {
            // Cxnn: Vx := random byte AND nn.
            self.var_reg.set(x, rnd & nn);
            Ok((false, self.sound_timer > 0))
        } else if op == 0xD {
            // Dxyn: draw an n-row sprite from I at (Vx mod 64, Vy mod 32).
            let x0 = self.var_reg.get(x) % 64;
            let y0 = self.var_reg.get(y) % 32;
            let rows: u8 = if k <= 32 - y0 {
                k
            } else {
                32 - y0
            };
            assert(rows as int == spec_rows_drawn(k as int, y0 as int));
            if rows > 0 && self.i_reg as usize + rows as usize > MEM_SIZE {
                return Err(Fault::MemoryOutOfBounds { addr: at, word: w });
            }
            let col = draw_on(&mut self.display, &self.memory, self.i_reg, x0, y0, k);
            self.var_reg.set(
                15,
                if col {
                    1
                } else {
                    0
                },
            );
            Ok((true, self.sound_timer > 0))
        } else if op == 0xE {
            // Ex9E / ExA1: skip on key state of Vx.
            let vx = self.var_reg.get(x);
            if nn == 0x9E {
                if contains_key(keys, vx) {
                    self.pc = ((self.pc as u32 + 2) % 0x10000) as u16;
                }
                Ok((false, self.sound_timer > 0))
            } else if nn == 0xA1 {
                if !contains_key(keys, vx) {
                    self.pc = ((self.pc as u32 + 2) % 0x10000) as u16;
                }
                Ok((false, self.sound_timer > 0))
            } else {
                Err(Fault::InvalidInstruction { addr: at, word: w })
            }
        } else {
            // Fxnn: timers, index arithmetic, glyphs, BCD, batch store/load.
            self.op_misc(at, w, x, nn)
        }
    }

    /// The `8xyk` register-to-register family. `self` already has the
    /// program counter advanced past the word `w` fetched from `at`.
    fn op_alu(&mut self, at: u16, w: u16, x: u8, y: u8, k: u8) -> (r: Result<(bool, bool), Fault>)
        requires
            wf(old(self)@),
            x == crate::structs::spec_nib(w, 1),
            y == crate::structs::spec_nib(w, 2),
            k == crate::structs::spec_nib(w, 3),
        ensures
            wf(final(self)@),
            spec_exec_alu(old(self)@, at, w) == (StepOutcome { chip: final(self)@, result: r }),
    {
        let x_val = self.var_reg.get(x);
        let y_val = self.var_reg.get(y);
        if k == 0x0 {
            // 8xy0: Vx := Vy.
            self.var_reg.set(x, y_val);
            Ok((false, self.sound_timer > 0))
        } else if k == 0x1 || k == 0x2 || k == 0x3 {
            // 8xy1 / 8xy2 / 8xy3: Vx := Vx OR/AND/XOR Vy; quirk: VF reset.
            let r8: u8 = if k == 0x1 {
                x_val | y_val
            } else if k == 0x2 {
                x_val & y_val
            } else {
                x_val ^ y_val
            };
            self.var_reg.set(x, r8);
            if self.behavior.vf_reset {
                self.var_reg.set(15, 0);
            }
            Ok((false, self.sound_timer > 0))
        } else if k == 0x4 {
            // 8xy4: Vx := Vx + Vy mod 256; VF := carry.
            let sum: u16 = x_val as u16 + y_val as u16;
            self.var_reg.set(x, (sum % 256) as u8);
            self.var_reg.set(
                15,
                if sum > 255 {
                    1
                } else {
                    0
                },
            );
            Ok((false, self.sound_timer > 0))
        } else if k == 0x5 {
            // 8xy5: Vx := Vx - Vy mod 256; VF := 1 iff no borrow (Vx >= Vy).
            self.var_reg.set(x, ((x_val as u16 + 256 - y_val as u16) % 256) as u8);
            self.var_reg.set(
                15,
                if x_val >= y_val {
                    1
                } else {
                    0
                },
            );
            Ok((false, self.sound_timer > 0))
        } else if k == 0x6 {
            // 8xy6: shift right; VF := the bit shifted out.
            let operand: u8 = if self.behavior.shift_source_vy {
                y_val
            } else {
                x_val
            };
            self.var_reg.set(x, operand / 2);
            self.var_reg.set(15, operand % 2);
            Ok((false, self.sound_timer > 0))
        } else if k == 0x7 {
            // 8xy7: Vx := Vy - Vx mod 256; VF := 1 iff no borrow (Vy >= Vx).
            self.var_reg.set(x, ((y_val as u16 + 256 - x_val as u16) % 256) as u8);
            self.var_reg.set(
                15,
                if y_val >= x_val {
                    1
                } else {
                    0
                },
            );
            Ok((false, self.sound_timer > 0))
        } else if k == 0xE {
            // 8xyE: shift left; VF := the bit shifted out.
            let operand: u8 = if self.behavior.shift_source_vy {
                y_val
            } else {
                x_val
            };
            self.var_reg.set(x, ((operand as u16 * 2) % 256) as u8);
            self.var_reg.set(15, operand / 128);
            Ok((false, self.sound_timer > 0))
        } else {
            Err(Fault::InvalidInstruction { addr: at, word: w })
        }
    }

    /// The `Fxnn` family. `self` already has the program counter advanced
    /// past the word `w` fetched from `at`.
    fn op_misc(&mut self, at: u16, w: u16, x: u8, nn: u8) -> (r: Result<(bool, bool), Fault>)
        requires
            wf(old(self)@),
            x == crate::structs::spec_nib(w, 1),
            nn == crate::structs::spec_lbyte(w),
        ensures
            wf(final(self)@),
            spec_exec_misc(old(self)@, at, w) == (StepOutcome { chip: final(self)@, result: r }),
    {
        let x_val = self.var_reg.get(x);
        if nn == 0x07 {
            // Fx07: Vx := delay timer.
            self.var_reg.set(x, self.delay_timer);
            Ok((false, self.sound_timer > 0))
        } else if nn == 0x0A {
            // Fx0A: suspend until a key press lands in Vx.
            self.is_waiting_for_press = Some(x);
            Ok((false, self.sound_timer > 0))
        } else if nn == 0x15 {
            // Fx15: delay timer := Vx.
            self.delay_timer = x_val;
            Ok((false, self.sound_timer > 0))
        } else if nn == 0x18 {
            // Fx18: sound timer := Vx.
            self.sound_timer = x_val;
            Ok((false, x_val > 0))
        } else if nn == 0x1E {
            // Fx1E: I := I + Vx, 16-bit wraparound, no flag.
            self.i_reg = ((self.i_reg as u32 + x_val as u32) % 0x10000) as u16;
            Ok((false, self.sound_timer > 0))
        } else if nn == 0x29 {
            // Fx29: I := base address of the built-in glyph for digit Vx.
            self.i_reg = x_val as u16 * 5;
            assert(self.i_reg == 5 * x_val);
            Ok((false, self.sound_timer > 0))
        } else if nn == 0x33 {
            // Fx33: binary-coded decimal of Vx at I, I+1, I+2.
            if self.i_reg as usize + 2 >= MEM_SIZE {
                return Err(Fault::MemoryOutOfBounds { addr: at, word: w });
            }
            let i = self.i_reg as usize;
            self.memory[i] = x_val / 100;
            self.memory[i + 1] = (x_val / 10) % 10;
            self.memory[i + 2] = x_val % 10;
            Ok((false, self.sound_timer > 0))
        } else if nn == 0x55 {
            // Fx55: store registers 0..=x at I; quirk: I += x + 1.
            if self.i_reg as usize + x as usize >= MEM_SIZE {
                return Err(Fault::MemoryOutOfBounds { addr: at, word: w });
            }
            store_regs_into(&mut self.memory, &self.var_reg, self.i_reg, x);
            if self.behavior.increment_i_on_save_load {
                self.i_reg = self.i_reg + x as u16 + 1;
            }
            Ok((false, self.sound_timer > 0))
        } else if nn == 0x65 {
            // Fx65: load registers 0..=x from I; quirk: I += x + 1.
            if self.i_reg as usize + x as usize >= MEM_SIZE {
                return Err(Fault::MemoryOutOfBounds { addr: at, word: w });
            }
            load_regs_from(&mut self.var_reg, &self.memory, self.i_reg, x);
            if self.behavior.increment_i_on_save_load {
                self.i_reg = self.i_reg + x as u16 + 1;
            }
            Ok((false, self.sound_timer > 0))
        } else {
            Err(Fault::InvalidInstruction { addr: at, word: w })
        }
    }
}

} // verus!
