//! The mathematical model of the CHIP-8 machine: the abstract state, the
//! built-in glyph data, and the one-step transition function that every
//! executable step of [`crate::Chip`] is proved to follow.

use vstd::prelude::*;

use crate::display::{spec_draw_collision, spec_draw_display, spec_rows_drawn};
use crate::structs::{spec_addr, spec_lbyte, spec_nib, BehaviorConfig, Fault};

verus! {

/// Size of the flat byte memory (addresses 0x000..=0xFFF).
pub const MEM_SIZE: usize = 4096;

/// Pixels per display row.
pub const DISPLAY_WIDTH: usize = 64;

/// Display rows.
pub const DISPLAY_HEIGHT: usize = 32;

/// Total pixels in the row-major display buffer.
pub const DISPLAY_LEN: usize = 2048;

/// Number of general-purpose registers.
pub const NUM_REGS: usize = 16;

/// Address at which loaded programs start.
pub const PROGRAM_START: u16 = 0x200;

/// Milliseconds of accumulated wall-clock time at which the timers are
/// decremented once and the accumulator is reset: at least 1/60 s has then
/// elapsed since the last decrement.
pub const TIMER_TICK_MS: u64 = 17;

/// The abstract machine state.
#[verifier::ext_equal]
pub ghost struct ChipView {
    /// 4096 bytes: glyph data, the loaded program, and working storage.
    pub memory: Seq<u8>,
    /// 2048 row-major monochrome pixels (64 columns x 32 rows).
    pub display: Seq<bool>,
    /// Last-in-first-out stack of return addresses.
    pub stack: Seq<u16>,
    pub delay_timer: u8,
    pub sound_timer: u8,
    pub pc: u16,
    pub i_reg: u16,
    /// The sixteen registers `V0`..`VF`.
    pub regs: Seq<u8>,
    /// Wait-for-key latch: the register awaiting a key code, if any.
    pub waiting: Option<u8>,
    /// Wall-clock milliseconds accumulated towards the next timer tick.
    pub accum_ms: u64,
    pub behavior: BehaviorConfig,
}

/// Structural validity of an abstract state: the fixed sizes of memory,
/// display and register file, and a pending register that names a register.
pub open spec fn wf(s: ChipView) -> bool {
    &&& s.memory.len() == MEM_SIZE
    &&& s.display.len() == DISPLAY_LEN
    &&& s.regs.len() == NUM_REGS
    &&& match s.waiting {
        Some(r) => r < 16,
        None => true,
    }
}

/// One step of the machine: the next state together with the step's report
/// (whether the display changed and whether a tone should sound) or the
/// fault that halted the machine.
#[verifier::ext_equal]
pub ghost struct StepOutcome {
    pub chip: ChipView,
    pub result: Result<(bool, bool), Fault>,
}

/// The low 8 bits of a (nonnegative) mathematical integer: 8-bit wraparound.
pub open spec fn low8(v: int) -> u8 {
    (v % 256) as u8
}

/// The low 16 bits of a (nonnegative) mathematical integer.
pub open spec fn low16(v: int) -> u16 {
    (v % 0x10000) as u16
}

/// The smallest key code in a non-empty pressed-key snapshot.
pub open spec fn spec_min_key(keys: Seq<u8>) -> u8
    recommends
        keys.len() > 0,
    decreases keys.len(),
{
    if keys.len() <= 1 {
        keys[0]
    } else {
        let m = spec_min_key(keys.drop_last());
        if keys.last() < m {
            keys.last()
        } else {
            m
        }
    }
}

/// The 16-bit instruction word at address `a`, most significant byte first.
pub open spec fn spec_word_at(mem: Seq<u8>, a: int) -> u16 {
    (mem[a] * 0x100 + mem[a + 1]) as u16
}

/// Satisfying the wait-for-key latch: the lowest pressed key code is stored
/// in the pending register and the latch is cleared. Without a latch the
/// state is unchanged.
pub open spec fn spec_resolve_wait(s: ChipView, keys: Seq<u8>) -> ChipView {
    match s.waiting {
        Some(r) => ChipView {
            regs: s.regs.update(r as int, spec_min_key(keys)),
            waiting: None,
            ..s
        },
        None => s,
    }
}

/// The timer update of one step: `elapsed_ms` is added to the accumulator,
/// and once the accumulator reaches [`TIMER_TICK_MS`] both timers are
/// decremented (clamped at zero) and the accumulator is reset.
pub open spec fn spec_tick(s: ChipView, elapsed_ms: u64) -> ChipView {
    let total: u64 = if s.accum_ms + elapsed_ms > u64::MAX {
        u64::MAX
    } else {
        (s.accum_ms + elapsed_ms) as u64
    };
    if total >= TIMER_TICK_MS {
        ChipView {
            delay_timer: if s.delay_timer > 0 {
                (s.delay_timer - 1) as u8
            } else {
                0u8
            },
            sound_timer: if s.sound_timer > 0 {
                (s.sound_timer - 1) as u8
            } else {
                0u8
            },
            accum_ms: 0u64,
            ..s
        }
    } else {
        ChipView { accum_ms: total, ..s }
    }
}

/// Memory after the batch store of registers `0..=x` at `base`.
pub open spec fn spec_store_regs(mem: Seq<u8>, regs: Seq<u8>, base: int, x: int) -> Seq<u8> {
    Seq::new(
        mem.len(),
        |a: int|
            if base <= a <= base + x {
                regs[a - base]
            } else {
                mem[a]
            },
    )
}

/// Register file after the batch load of registers `0..=x` from `base`.
pub open spec fn spec_load_regs(regs: Seq<u8>, mem: Seq<u8>, base: int, x: int) -> Seq<u8> {
    Seq::new(
        regs.len(),
        |j: int|
            if j <= x {
                mem[base + j]
            } else {
                regs[j]
            },
    )
}

/// The arithmetic/logic family `8xyk`.
pub open spec fn spec_exec_alu(s: ChipView, at: u16, w: u16) -> StepOutcome
    recommends
        wf(s),
{
    let x: int = spec_nib(w, 1) as int;
    let y: int = spec_nib(w, 2) as int;
    let k: u8 = spec_nib(w, 3);
    let vx: u8 = s.regs[x];
    let vy: u8 = s.regs[y];
    let snd: bool = s.sound_timer > 0;
    if k == 0x0 {
        StepOutcome { chip: ChipView { regs: s.regs.update(x, vy), ..s }, result: Ok((false, snd)) }
    } else if k == 0x1 || k == 0x2 || k == 0x3 {
        let r: u8 = if k == 0x1 {
            vx | vy
        } else if k == 0x2 {
            vx & vy
        } else {
            vx ^ vy
        };
        let regs1 = s.regs.update(x, r);
        let regs2 = if s.behavior.vf_reset {
            regs1.update(15, 0u8)
        } else {
            regs1
        };
        StepOutcome { chip: ChipView { regs: regs2, ..s }, result: Ok((false, snd)) }
    } else if k == 0x4 {
        let flag: u8 = if vx + vy > 255 {
            1u8
        } else {
            0u8
        };
        StepOutcome {
            chip: ChipView { regs: s.regs.update(x, low8(vx + vy)).update(15, flag), ..s },
            result: Ok((false, snd)),
        }
    } else if k == 0x5 {
        let flag: u8 = if vx >= vy {
            1u8
        } else {
            0u8
        };
        StepOutcome {
            chip: ChipView { regs: s.regs.update(x, low8(vx - vy + 256)).update(15, flag), ..s },
            result: Ok((false, snd)),
        }
    } else if k == 0x6 {
        let operand: u8 = if s.behavior.shift_source_vy {
            vy
        } else {
            vx
        };
        StepOutcome {
            chip: ChipView {
                regs: s.regs.update(x, operand / 2).update(15, operand % 2),
                ..s
            },
            result: Ok((false, snd)),
        }
    } else if k == 0x7 {
        let flag: u8 = if vy >= vx {
            1u8
        } else {
            0u8
        };
        StepOutcome {
            chip: ChipView { regs: s.regs.update(x, low8(vy - vx + 256)).update(15, flag), ..s },
            result: Ok((false, snd)),
        }
    } else if k == 0xE {
        let operand: u8 = if s.behavior.shift_source_vy {
            vy
        } else {
            vx
        };
        StepOutcome {
            chip: ChipView {
                regs: s.regs.update(x, low8(2 * operand)).update(15, operand / 128),
                ..s
            },
            result: Ok((false, snd)),
        }
    } else {
        StepOutcome { chip: s, result: Err(Fault::InvalidInstruction { addr: at, word: w }) }
    }
}

/// The timer/memory family `Fxnn`.
pub open spec fn spec_exec_misc(s: ChipView, at: u16, w: u16) -> StepOutcome
    recommends
        wf(s),
{
    let x: int = spec_nib(w, 1) as int;
    let nn: u8 = spec_lbyte(w);
    let vx: u8 = s.regs[x];
    let snd: bool = s.sound_timer > 0;
    if nn == 0x07 {
        StepOutcome {
            chip: ChipView { regs: s.regs.update(x, s.delay_timer), ..s },
            result: Ok((false, snd)),
        }
    } else if nn == 0x0A {
        StepOutcome {
            chip: ChipView { waiting: Some(spec_nib(w, 1)), ..s },
            result: Ok((false, snd)),
        }
    } else if nn == 0x15 {
        StepOutcome { chip: ChipView { delay_timer: vx, ..s }, result: Ok((false, snd)) }
    } else if nn == 0x18 {
        StepOutcome { chip: ChipView { sound_timer: vx, ..s }, result: Ok((false, vx > 0)) }
    } else if nn == 0x1E {
        StepOutcome {
            chip: ChipView { i_reg: low16(s.i_reg + vx), ..s },
            result: Ok((false, snd)),
        }
    } else if nn == 0x29 {
        StepOutcome {
            chip: ChipView { i_reg: (5 * vx) as u16, ..s },
            result: Ok((false, snd)),
        }
    } else if nn == 0x33 {
        if s.i_reg + 2 >= MEM_SIZE {
            StepOutcome { chip: s, result: Err(Fault::MemoryOutOfBounds { addr: at, word: w }) }
        } else {
            let i: int = s.i_reg as int;
            StepOutcome {
                chip: ChipView {
                    memory: s.memory.update(i, vx / 100).update(i + 1, (vx / 10) % 10).update(
                        i + 2,
                        vx % 10,
                    ),
                    ..s
                },
                result: Ok((false, snd)),
            }
        }
    } else if nn == 0x55 {
        if s.i_reg + x >= MEM_SIZE {
            StepOutcome { chip: s, result: Err(Fault::MemoryOutOfBounds { addr: at, word: w }) }
        } else {
            StepOutcome {
                chip: ChipView {
                    memory: spec_store_regs(s.memory, s.regs, s.i_reg as int, x),
                    i_reg: if s.behavior.increment_i_on_save_load {
                        low16(s.i_reg + x + 1)
                    } else {
                        s.i_reg
                    },
                    ..s
                },
                result: Ok((false, snd)),
            }
        }
    } else if nn == 0x65 {
        if s.i_reg + x >= MEM_SIZE {
            StepOutcome { chip: s, result: Err(Fault::MemoryOutOfBounds { addr: at, word: w }) }
        } else {
            StepOutcome {
                chip: ChipView {
                    regs: spec_load_regs(s.regs, s.memory, s.i_reg as int, x),
                    i_reg: if s.behavior.increment_i_on_save_load {
                        low16(s.i_reg + x + 1)
                    } else {
                        s.i_reg
                    },
                    ..s
                },
                result: Ok((false, snd)),
            }
        }
    } else {
        StepOutcome { chip: s, result: Err(Fault::InvalidInstruction { addr: at, word: w }) }
    }
}

/// Dispatch of one decoded instruction. `s` is the state with the program
/// counter already advanced past the word `w` that was fetched from `at`;
/// `keys` is the pressed-key snapshot and `rnd` the byte the random source
/// produced for this step.
pub open spec fn spec_exec_instr(
    s: ChipView,
    at: u16,
    w: u16,
    keys: Seq<u8>,
    rnd: u8,
) -> StepOutcome
    recommends
        wf(s),
{
    let op: u8 = spec_nib(w, 0);
    let x: int = spec_nib(w, 1) as int;
    let n: u8 = spec_nib(w, 3);
    let nn: u8 = spec_lbyte(w);
    let nnn: u16 = spec_addr(w);
    let vx: u8 = s.regs[x];
    let vy: u8 = s.regs[spec_nib(w, 2) as int];
    let snd: bool = s.sound_timer > 0;
    let skipped = ChipView { pc: low16(s.pc + 2), ..s };
    let invalid = StepOutcome {
        chip: s,
        result: Err(Fault::InvalidInstruction { addr: at, word: w }),
    };
    if op == 0x0 {
        if w == 0x00E0 {
            StepOutcome {
                chip: ChipView { display: Seq::new(DISPLAY_LEN as nat, |i: int| false), ..s },
                result: Ok((true, snd)),
            }
        } else if w == 0x00EE {
            if s.stack.len() == 0 {
                StepOutcome { chip: s, result: Err(Fault::StackUnderflow { addr: at, word: w }) }
            } else {
                StepOutcome {
                    chip: ChipView { pc: s.stack.last(), stack: s.stack.drop_last(), ..s },
                    result: Ok((false, snd)),
                }
            }
        } else {
            invalid
        }
    } else if op == 0x1 {
        StepOutcome { chip: ChipView { pc: nnn, ..s }, result: Ok((false, snd)) }
    } else if op == 0x2 {
        StepOutcome {
            chip: ChipView { stack: s.stack.push(s.pc), pc: nnn, ..s },
            result: Ok((false, snd)),
        }
    } else if op == 0x3 {
        StepOutcome {
            chip: if vx == nn {
                skipped
            } else {
                s
            },
            result: Ok((false, snd)),
        }
    } else if op == 0x4 {
        StepOutcome {
            chip: if vx != nn {
                skipped
            } else {
                s
            },
            result: Ok((false, snd)),
        }
    } else if op == 0x5 {
        if n == 0 {
            StepOutcome {
                chip: if vx == vy {
                    skipped
                } else {
                    s
                },
                result: Ok((false, snd)),
            }
        } else {
            invalid
        }
    } else if op == 0x6 {
        StepOutcome { chip: ChipView { regs: s.regs.update(x, nn), ..s }, result: Ok((false, snd)) }
    } else if op == 0x7 {
        StepOutcome {
            chip: ChipView { regs: s.regs.update(x, low8(vx + nn)), ..s },
            result: Ok((false, snd)),
        }
    } else if op == 0x8 {
        spec_exec_alu(s, at, w)
    } else if op == 0x9 {
        if n == 0 {
            StepOutcome {
                chip: if vx != vy {
                    skipped
                } else {
                    s
                },
                result: Ok((false, snd)),
            }
        } else {
            invalid
        }
    } else if op == 0xA {
        StepOutcome { chip: ChipView { i_reg: nnn, ..s }, result: Ok((false, snd)) }
    } else if op == 0xB {
        let offset: u8 = if s.behavior.jump_offset_uses_vx {
            vx
        } else {
            s.regs[0]
        };
        StepOutcome {
            chip: ChipView { pc: low16(nnn + offset), ..s },
            result: Ok((false, snd)),
        }
    } else if op == 0xC {
        StepOutcome {
            chip: ChipView { regs: s.regs.update(x, rnd & nn), ..s },
            result: Ok((false, snd)),
        }
    } else if op == 0xD {
        let x0: int = vx as int % 64;
        let y0: int = vy as int % 32;
        let rows: int = spec_rows_drawn(n as int, y0);
        if rows > 0 && s.i_reg + rows > MEM_SIZE {
            StepOutcome { chip: s, result: Err(Fault::MemoryOutOfBounds { addr: at, word: w }) }
        } else {
            let colliding = spec_draw_collision(s.display, s.memory, s.i_reg as int, x0, y0, rows);
            StepOutcome {
                chip: ChipView {
                    display: spec_draw_display(s.display, s.memory, s.i_reg as int, x0, y0, rows),
                    regs: s.regs.update(
                        15,
                        if colliding {
                            1u8
                        } else {
                            0u8
                        },
                    ),
                    ..s
                },
                result: Ok((true, snd)),
            }
        }
    } else if op == 0xE {
        if nn == 0x9E {
            StepOutcome {
                chip: if keys.contains(vx) {
                    skipped
                } else {
                    s
                },
                result: Ok((false, snd)),
            }
        } else if nn == 0xA1 {
            StepOutcome {
                chip: if !keys.contains(vx) {
                    skipped
                } else {
                    s
                },
                result: Ok((false, snd)),
            }
        } else {
            invalid
        }
    } else {
        spec_exec_misc(s, at, w)
    }
}

/// One whole step of the machine: the wait-for-key latch is consulted first
/// (a set latch with no key pressed suspends the machine), then the timers
/// advance by `elapsed_ms`, then one instruction is fetched, the program
/// counter is advanced past it, and the instruction is executed.
pub open spec fn spec_step(pre: ChipView, keys: Seq<u8>, elapsed_ms: u64, rnd: u8) -> StepOutcome
    recommends
        wf(pre),
{
    if pre.waiting is Some && keys.len() == 0 {
        StepOutcome { chip: pre, result: Ok((false, pre.sound_timer > 0)) }
    } else {
        let s1 = spec_resolve_wait(pre, keys);
        let s2 = spec_tick(s1, elapsed_ms);
        if s2.pc + 1 >= MEM_SIZE {
            StepOutcome { chip: s2, result: Err(Fault::FetchOutOfBounds { addr: s2.pc }) }
        } else {
            let w = spec_word_at(s2.memory, s2.pc as int);
            let s3 = ChipView { pc: (s2.pc + 2) as u16, ..s2 };
            spec_exec_instr(s3, s2.pc, w, keys, rnd)
        }
    }
}

/// The glyph sprite row `r` (0..5) of the built-in glyph for hexadecimal
/// digit `d` (0..16).
pub open spec fn spec_glyph_row(d: int, r: int) -> u8 {
    if d == 0x0 {
        if r == 0 { 0xF0 } else if r == 1 { 0x90 } else if r == 2 { 0x90 } else if r == 3 { 0x90 } else { 0xF0 }
    } else if d == 0x1 {
        if r == 0 { 0x20 } else if r == 1 { 0x60 } else if r == 2 { 0x20 } else if r == 3 { 0x20 } else { 0x70 }
    } else if d == 0x2 {
        if r == 0 { 0xF0 } else if r == 1 { 0x10 } else if r == 2 { 0xF0 } else if r == 3 { 0x80 } else { 0xF0 }
    } else if d == 0x3 {
        if r == 0 { 0xF0 } else if r == 1 { 0x10 } else if r == 2 { 0xF0 } else if r == 3 { 0x10 } else { 0xF0 }
    } else if d == 0x4 {
        if r == 0 { 0x90 } else if r == 1 { 0x90 } else if r == 2 { 0xF0 } else if r == 3 { 0x10 } else { 0x10 }
    } else if d == 0x5 {
        if r == 0 { 0xF0 } else if r == 1 { 0x80 } else if r == 2 { 0xF0 } else if r == 3 { 0x10 } else { 0xF0 }
    } else if d == 0x6 {
        if r == 0 { 0xF0 } else if r == 1 { 0x80 } else if r == 2 { 0xF0 } else if r == 3 { 0x90 } else { 0xF0 }
    } else if d == 0x7 {
        if r == 0 { 0xF0 } else if r == 1 { 0x10 } else if r == 2 { 0x20 } else if r == 3 { 0x40 } else { 0x40 }
    } else if d == 0x8 {
        if r == 0 { 0xF0 } else if r == 1 { 0x90 } else if r == 2 { 0xF0 } else if r == 3 { 0x90 } else { 0xF0 }
    } else if d == 0x9 {
        if r == 0 { 0xF0 } else if r == 1 { 0x90 } else if r == 2 { 0xF0 } else if r == 3 { 0x10 } else { 0xF0 }
    } else if d == 0xA {
        if r == 0 { 0xF0 } else if r == 1 { 0x90 } else if r == 2 { 0xF0 } else if r == 3 { 0x90 } else { 0x90 }
    } else if d == 0xB {
        if r == 0 { 0xE0 } else if r == 1 { 0x90 } else if r == 2 { 0xE0 } else if r == 3 { 0x90 } else { 0xE0 }
    } else if d == 0xC {
        if r == 0 { 0xF0 } else if r == 1 { 0x80 } else if r == 2 { 0x80 } else if r == 3 { 0x80 } else { 0xF0 }
    } else if d == 0xD {
        if r == 0 { 0xE0 } else if r == 1 { 0x90 } else if r == 2 { 0x90 } else if r == 3 { 0x90 } else { 0xE0 }
    } else if d == 0xE {
        if r == 0 { 0xF0 } else if r == 1 { 0x80 } else if r == 2 { 0xF0 } else if r == 3 { 0x80 } else { 0xF0 }
    } else {
        if r == 0 { 0xF0 } else if r == 1 { 0x80 } else if r == 2 { 0xF0 } else if r == 3 { 0x80 } else { 0x80 }
    }
}

/// The glyph data byte at address `k` (0..80): glyph `k / 5`, row `k % 5`.
pub open spec fn spec_glyph_byte(k: int) -> u8 {
    spec_glyph_row(k / 5, k % 5)
}

/// After a clear-display instruction executes, every pixel reads off.
pub proof fn lemma_clear_display_all_off(pre: ChipView, keys: Seq<u8>, elapsed_ms: u64, rnd: u8)
    requires
        wf(pre),
        (pre.waiting is Some) ==> keys.len() > 0,
        pre.pc + 1 < MEM_SIZE,
        spec_word_at(pre.memory, pre.pc as int) == 0x00E0u16,
    ensures
        spec_step(pre, keys, elapsed_ms, rnd).result == Ok::<(bool, bool), Fault>(
            (true, spec_tick(spec_resolve_wait(pre, keys), elapsed_ms).sound_timer > 0),
        ),
        forall|i: int|
            0 <= i < DISPLAY_LEN ==> !spec_step(pre, keys, elapsed_ms, rnd).chip.display[i],
{
    let s2 = spec_tick(spec_resolve_wait(pre, keys), elapsed_ms);
    assert(s2.pc == pre.pc && s2.memory == pre.memory);
    assert(spec_nib(0x00E0u16, 0) == 0);
}

/// Stepping with the wait-for-key latch set and no key pressed is a no-op:
/// the state is unchanged and the step reports no display change.
pub proof fn lemma_wait_blocks(pre: ChipView, keys: Seq<u8>, elapsed_ms: u64, rnd: u8)
    requires
        wf(pre),
        (pre.waiting is Some),
        keys.len() == 0,
    ensures
        spec_step(pre, keys, elapsed_ms, rnd) == (StepOutcome {
            chip: pre,
            result: Ok::<(bool, bool), Fault>((false, pre.sound_timer > 0)),
        }),
{
}

/// Stepping with the wait-for-key latch set and some key pressed stores the
/// lowest pressed key code into the pending register, clears the latch, and
/// then behaves exactly like an ordinary step from that resolved state.
pub proof fn lemma_wait_resumes(pre: ChipView, keys: Seq<u8>, elapsed_ms: u64, rnd: u8)
    requires
        wf(pre),
        (pre.waiting is Some),
        keys.len() > 0,
    ensures
        ({
            let resolved = spec_resolve_wait(pre, keys);
            match pre.waiting {
                Some(r) => {
                    &&& resolved.regs == pre.regs.update(r as int, spec_min_key(keys))
                    &&& resolved.waiting is None
                    &&& spec_step(pre, keys, elapsed_ms, rnd) == spec_step(
                        resolved,
                        keys,
                        elapsed_ms,
                        rnd,
                    )
                },
                None => true,
            }
        }),
{
    let resolved = spec_resolve_wait(pre, keys);
    assert(spec_resolve_wait(resolved, keys) == resolved);
}

/// Batch store/load round-trip: loading registers `0..=x` back from the
/// base address they were stored at reproduces the stored register values
/// exactly, whatever the register file held in between; registers above `x`
/// keep their in-between values.
pub proof fn lemma_store_load_roundtrip(
    mem: Seq<u8>,
    regs: Seq<u8>,
    later: Seq<u8>,
    base: int,
    x: int,
)
    requires
        mem.len() == MEM_SIZE,
        regs.len() == NUM_REGS,
        later.len() == NUM_REGS,
        0 <= x < 16,
        0 <= base,
        base + x < MEM_SIZE,
    ensures
        forall|j: int|
            0 <= j <= x ==> spec_load_regs(later, spec_store_regs(mem, regs, base, x), base, x)[j]
                == regs[j],
        forall|j: int|
            x < j < 16 ==> spec_load_regs(later, spec_store_regs(mem, regs, base, x), base, x)[j]
                == later[j],
{
}

} // verus!
