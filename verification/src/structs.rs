//! Register file, instruction word decoding, quirk configuration and fault
//! reporting for the CHIP-8 virtual machine.

use vstd::prelude::*;

verus! {

/// The sixteen general-purpose 8-bit registers `V0`..`VF`.
///
/// `VF` is an ordinary register slot, but several instructions also write a
/// flag (carry, borrow, shifted-out bit, draw collision) into it.
#[derive(Debug)]
pub struct VariableRegisters {
    pub v0: u8,
    pub v1: u8,
    pub v2: u8,
    pub v3: u8,
    pub v4: u8,
    pub v5: u8,
    pub v6: u8,
    pub v7: u8,
    pub v8: u8,
    pub v9: u8,
    pub va: u8,
    pub vb: u8,
    pub vc: u8,
    pub vd: u8,
    pub ve: u8,
    /// Also used as the flag register.
    pub vf: u8,
}

impl View for VariableRegisters {
    type V = Seq<u8>;

    open spec fn view(&self) -> Seq<u8> {
        seq![
            self.v0, self.v1, self.v2, self.v3,
            self.v4, self.v5, self.v6, self.v7,
            self.v8, self.v9, self.va, self.vb,
            self.vc, self.vd, self.ve, self.vf,
        ]
    }
}

impl VariableRegisters {
    pub fn get(&self, reg: u8) -> (r: u8)
        requires
            reg < 16,
        ensures
            r == self@[reg as int],
    {
        match reg {
            0 => self.v0,
            1 => self.v1,
            2 => self.v2,
            3 => self.v3,
            4 => self.v4,
            5 => self.v5,
            6 => self.v6,
            7 => self.v7,
            8 => self.v8,
            9 => self.v9,
            10 => self.va,
            11 => self.vb,
            12 => self.vc,
            13 => self.vd,
            14 => self.ve,
            _ => self.vf,
        }
    }

    pub fn set(&mut self, reg: u8, val: u8)
        requires
            reg < 16,
        ensures
            final(self)@ == old(self)@.update(reg as int, val),
    {
        match reg {
            0 => self.v0 = val,
            1 => self.v1 = val,
            2 => self.v2 = val,
            3 => self.v3 = val,
            4 => self.v4 = val,
            5 => self.v5 = val,
            6 => self.v6 = val,
            7 => self.v7 = val,
            8 => self.v8 = val,
            9 => self.v9 = val,
            10 => self.va = val,
            11 => self.vb = val,
            12 => self.vc = val,
            13 => self.vd = val,
            14 => self.ve = val,
            _ => self.vf = val,
        };
        assert(self@ =~= old(self)@.update(reg as int, val));
    }

    pub fn new() -> (r: Self)
        ensures
            r@.len() == 16,
            forall|i: int| 0 <= i < 16 ==> r@[i] == 0,
    {
        VariableRegisters {
            v0: 0,
            v1: 0,
            v2: 0,
            v3: 0,
            v4: 0,
            v5: 0,
            v6: 0,
            v7: 0,
            v8: 0,
            v9: 0,
            va: 0,
            vb: 0,
            vc: 0,
            vd: 0,
            ve: 0,
            vf: 0,
        }
    }
}

/// The hexadecimal digit of `w` at position `index`, counted from the most
/// significant digit (position 0) to the least significant (position 3).
pub open spec fn spec_nib(w: u16, index: int) -> u8 {
    if index == 0 {
        (w / 0x1000) as u8
    } else if index == 1 {
        ((w / 0x100) % 0x10) as u8
    } else if index == 2 {
        ((w / 0x10) % 0x10) as u8
    } else {
        (w % 0x10) as u8
    }
}

/// The low byte of `w`.
pub open spec fn spec_lbyte(w: u16) -> u8 {
    (w % 0x100) as u8
}

/// The low 12 bits of `w`: the address field of jump, call and index-load
/// instructions.
pub open spec fn spec_addr(w: u16) -> u16 {
    w % 0x1000
}

/// One 16-bit instruction word.
#[derive(Debug, Clone, Copy)]
pub struct Instruction(pub u16);

impl Instruction {
    /// Group of 4 bits, indexed from most to least significant.
    pub fn get_nib(&self, index: u8) -> (r: u8)
        requires
            index < 4,
        ensures
            r == spec_nib(self.0, index as int),
            r < 16,
    {
        match index {
            0 => (self.0 / 0x1000) as u8,
            1 => ((self.0 / 0x100) % 0x10) as u8,
            2 => ((self.0 / 0x10) % 0x10) as u8,
            _ => (self.0 % 0x10) as u8,
        }
    }

    /// Lowest 8 bits (lower byte).
    pub fn get_lbyte(&self) -> (r: u8)
        ensures
            r == spec_lbyte(self.0),
    {
        (self.0 % 0x100) as u8
    }

    /// Lowest 12 bits.
    pub fn get_addr(&self) -> (r: u16)
        ensures
            r == spec_addr(self.0),
            r < 0x1000,
    {
        self.0 % 0x1000
    }

    pub fn from_u16(n: u16) -> (r: Self)
        ensures
            r.0 == n,
    {
        Instruction(n)
    }
}

/// Quirk configuration: boolean toggles selecting among historically
/// divergent interpreter behaviors. Immutable for the machine's lifetime
/// once supplied at construction.
#[derive(Debug, Clone, Copy, PartialEq, Eq, Structural)]
pub struct BehaviorConfig {
    /// Whether the OR, AND and XOR instructions reset `VF` to 0.
    pub vf_reset: bool,
    /// Whether the batch register store and load instructions advance the
    /// index register by `x + 1` afterwards.
    pub increment_i_on_save_load: bool,
    /// Whether the shift instructions shift `Vy` (the older behavior) rather
    /// than `Vx`; the result always lands in `Vx` and `VF` receives the bit
    /// shifted out of the chosen operand.
    pub shift_source_vy: bool,
    /// Whether the offset jump adds `Vx` (with `x` the high nibble of its
    /// address field, the later behavior) rather than `V0` (the original
    /// behavior) to the jump target.
    pub jump_offset_uses_vx: bool,
}

impl BehaviorConfig {
    pub fn default() -> (r: Self)
        ensures
            r.vf_reset,
            r.increment_i_on_save_load,
            r.shift_source_vy,
            !r.jump_offset_uses_vx,
    {
        BehaviorConfig {
            vf_reset: true,
            increment_i_on_save_load: true,
            shift_source_vy: true,
            jump_offset_uses_vx: false,
        }
    }
}

/// An unrecoverable fault. The machine makes no further progress after one
/// of these is reported; restarting is entirely up to the host.
#[derive(Debug, Clone, Copy, PartialEq, Eq, Structural)]
pub enum Fault {
    /// The word fetched from `addr` is not a documented instruction.
    InvalidInstruction { addr: u16, word: u16 },
    /// The instruction at `addr` returned with an empty call stack.
    StackUnderflow { addr: u16, word: u16 },
    /// The program counter `addr` no longer names two addressable bytes.
    FetchOutOfBounds { addr: u16 },
    /// The instruction at `addr` addresses memory beyond 0xFFF.
    MemoryOutOfBounds { addr: u16, word: u16 },
}

} // verus!
