//! Per-instruction semantics: arithmetic flags, skips, jumps, quirks.

use chip8::structs::{BehaviorConfig, Fault};
use chip8::Chip;

fn run(program: Vec<u8>, steps: usize) -> Chip {
    let mut chip = Chip::new(program, BehaviorConfig::default());
    let keys: Vec<u8> = vec![];
    for _ in 0..steps {
        chip.step_with(&keys, 0, 0).unwrap();
    }
    chip
}

fn run_with(program: Vec<u8>, steps: usize, behavior: BehaviorConfig) -> Chip {
    let mut chip = Chip::new(program, behavior);
    let keys: Vec<u8> = vec![];
    for _ in 0..steps {
        chip.step_with(&keys, 0, 0).unwrap();
    }
    chip
}

#[test]
fn test_load_and_add_immediate() {
    let chip = run(vec![0x60, 0x10, 0x70, 0x05], 2);
    assert_eq!(chip.registers().get(0), 0x15);
    assert_eq!(chip.pc(), 0x204);
}

#[test]
fn test_add_immediate_wraps_without_flag() {
    let chip = run(vec![0x60, 0xFF, 0x70, 0x02], 2);
    assert_eq!(chip.registers().get(0), 1);
    assert_eq!(chip.registers().get(15), 0);
}

#[test]
fn test_add_with_carry() {
    // 8xy4 with Vx=250, Vy=10: result 4, VF=1.
    let chip = run(vec![0x6A, 0xFA, 0x6B, 0x0A, 0x8A, 0xB4], 3);
    assert_eq!(chip.registers().get(0xA), 4);
    assert_eq!(chip.registers().get(0xF), 1);
}

#[test]
fn test_add_without_carry() {
    // 8xy4 with Vx=1, Vy=1: result 2, VF=0.
    let chip = run(vec![0x6A, 0x01, 0x6B, 0x01, 0x8A, 0xB4], 3);
    assert_eq!(chip.registers().get(0xA), 2);
    assert_eq!(chip.registers().get(0xF), 0);
}

#[test]
fn test_subtract_no_borrow() {
    // 8xy5 with Vx=5, Vy=3: result 2, VF=1 (no borrow).
    let chip = run(vec![0x60, 0x05, 0x61, 0x03, 0x80, 0x15], 3);
    assert_eq!(chip.registers().get(0), 2);
    assert_eq!(chip.registers().get(0xF), 1);
}

#[test]
fn test_subtract_with_borrow_wraps() {
    // 8xy5 with Vx=3, Vy=5: result 254 (wrapped), VF=0.
    let chip = run(vec![0x60, 0x03, 0x61, 0x05, 0x80, 0x15], 3);
    assert_eq!(chip.registers().get(0), 254);
    assert_eq!(chip.registers().get(0xF), 0);
}

#[test]
fn test_subtract_equal_sets_no_borrow() {
    // Equal operands leave no borrow: VF=1, result 0.
    let chip = run(vec![0x63, 0x07, 0x64, 0x07, 0x83, 0x45], 3);
    assert_eq!(chip.registers().get(3), 0);
    assert_eq!(chip.registers().get(0xF), 1);
}

#[test]
fn test_subtract_reversed() {
    // 8xy7: Vx := Vy - Vx; VF=1 iff Vy >= Vx.
    let chip = run(vec![0x60, 0x03, 0x61, 0x05, 0x80, 0x17], 3);
    assert_eq!(chip.registers().get(0), 2);
    assert_eq!(chip.registers().get(0xF), 1);
    let chip = run(vec![0x60, 0x05, 0x61, 0x03, 0x80, 0x17], 3);
    assert_eq!(chip.registers().get(0), 254);
    assert_eq!(chip.registers().get(0xF), 0);
}

#[test]
fn test_logic_ops_reset_vf_by_default() {
    // 8xy1 with the vf_reset quirk on (the default): VF is cleared.
    let chip = run(vec![0x6F, 0x07, 0x60, 0x0F, 0x61, 0xF0, 0x80, 0x11], 4);
    assert_eq!(chip.registers().get(0), 0xFF);
    assert_eq!(chip.registers().get(0xF), 0);
}

#[test]
fn test_logic_ops_keep_vf_without_quirk() {
    let mut behavior = BehaviorConfig::default();
    behavior.vf_reset = false;
    let chip = run_with(vec![0x6F, 0x07, 0x60, 0x0F, 0x61, 0xF0, 0x80, 0x11], 4, behavior);
    assert_eq!(chip.registers().get(0), 0xFF);
    assert_eq!(chip.registers().get(0xF), 7);
}

#[test]
fn test_and_xor() {
    let chip = run(vec![0x60, 0x0F, 0x61, 0x3C, 0x80, 0x12], 3);
    assert_eq!(chip.registers().get(0), 0x0C);
    let chip = run(vec![0x60, 0x0F, 0x61, 0x3C, 0x80, 0x13], 3);
    assert_eq!(chip.registers().get(0), 0x33);
}

#[test]
fn test_shift_right_source_vy() {
    // Default quirk: the shifted operand is Vy; VF gets its low bit.
    let chip = run(vec![0x60, 0x03, 0x61, 0x06, 0x80, 0x16], 3);
    assert_eq!(chip.registers().get(0), 3);
    assert_eq!(chip.registers().get(0xF), 0);
    let chip = run(vec![0x60, 0x03, 0x61, 0x07, 0x80, 0x16], 3);
    assert_eq!(chip.registers().get(0), 3);
    assert_eq!(chip.registers().get(0xF), 1);
}

#[test]
fn test_shift_right_source_vx() {
    let mut behavior = BehaviorConfig::default();
    behavior.shift_source_vy = false;
    let chip = run_with(vec![0x60, 0x03, 0x61, 0x06, 0x80, 0x16], 3, behavior);
    assert_eq!(chip.registers().get(0), 1);
    assert_eq!(chip.registers().get(0xF), 1);
}

#[test]
fn test_shift_left() {
    // 8xyE with the default quirk: Vy shifted left; VF gets its high bit.
    let chip = run(vec![0x60, 0x00, 0x61, 0x81, 0x80, 0x1E], 3);
    assert_eq!(chip.registers().get(0), 2);
    assert_eq!(chip.registers().get(0xF), 1);
    let chip = run(vec![0x60, 0x00, 0x61, 0x41, 0x80, 0x1E], 3);
    assert_eq!(chip.registers().get(0), 0x82);
    assert_eq!(chip.registers().get(0xF), 0);
}

#[test]
fn test_register_assign() {
    let chip = run(vec![0x61, 0x2A, 0x80, 0x10], 2);
    assert_eq!(chip.registers().get(0), 0x2A);
}

#[test]
fn test_skip_equal_immediate() {
    // 3xnn skips when Vx == nn.
    let chip = run(vec![0x60, 0x07, 0x30, 0x07, 0x61, 0x01, 0x62, 0x01], 3);
    assert_eq!(chip.registers().get(1), 0);
    assert_eq!(chip.registers().get(2), 1);
    // ... and falls through when Vx != nn.
    let chip = run(vec![0x60, 0x07, 0x30, 0x08, 0x61, 0x01], 3);
    assert_eq!(chip.registers().get(1), 1);
}

#[test]
fn test_skip_not_equal_immediate() {
    let chip = run(vec![0x60, 0x07, 0x40, 0x08, 0x61, 0x01, 0x62, 0x01], 3);
    assert_eq!(chip.registers().get(1), 0);
    assert_eq!(chip.registers().get(2), 1);
}

#[test]
fn test_skip_register_compare() {
    // 5xy0 skips when Vx == Vy; 9xy0 skips when Vx != Vy.
    let chip = run(vec![0x60, 0x07, 0x61, 0x07, 0x50, 0x10, 0x62, 0x01, 0x63, 0x01], 4);
    assert_eq!(chip.registers().get(2), 0);
    assert_eq!(chip.registers().get(3), 1);
    let chip = run(vec![0x60, 0x07, 0x61, 0x08, 0x90, 0x10, 0x62, 0x01, 0x63, 0x01], 4);
    assert_eq!(chip.registers().get(2), 0);
    assert_eq!(chip.registers().get(3), 1);
}

#[test]
fn test_jump() {
    let chip = run(vec![0x12, 0x06, 0x61, 0x01, 0x00, 0x00, 0x62, 0x02], 2);
    assert_eq!(chip.registers().get(1), 0);
    assert_eq!(chip.registers().get(2), 2);
}

#[test]
fn test_jump_with_offset() {
    // Bnnn: PC := nnn + V0.
    let chip = run(vec![0x60, 0x02, 0xB2, 0x04, 0x00, 0x00, 0x61, 0x07], 3);
    assert_eq!(chip.registers().get(1), 7);
    assert_eq!(chip.pc(), 0x208);
}

#[test]
fn test_call_and_return() {
    let mut chip = Chip::new(vec![0x22, 0x04, 0x00, 0x00, 0x00, 0xEE], BehaviorConfig::default());
    let keys: Vec<u8> = vec![];
    chip.step_with(&keys, 0, 0).unwrap();
    assert_eq!(chip.pc(), 0x204);
    chip.step_with(&keys, 0, 0).unwrap();
    assert_eq!(chip.pc(), 0x202);
}

#[test]
fn test_index_immediate_and_add() {
    // Annn then Fx1E.
    let chip = run(vec![0xA0, 0x10, 0x60, 0x05, 0xF0, 0x1E], 3);
    assert_eq!(chip.index_register(), 0x15);
}

#[test]
fn test_random_masked_to_zero() {
    // Cxnn ANDs the random byte with nn, so nn = 0 pins Vx to 0 whatever
    // the random source produced.
    let mut chip = Chip::new(vec![0x60, 0xFF, 0xC0, 0x00], BehaviorConfig::default());
    chip.process_instruction(vec![], 0).unwrap();
    chip.process_instruction(vec![], 0).unwrap();
    assert_eq!(chip.registers().get(0), 0);
}

#[test]
fn test_random_masked_deterministically() {
    let mut chip = Chip::new(vec![0xC0, 0x0F], BehaviorConfig::default());
    let keys: Vec<u8> = vec![];
    chip.step_with(&keys, 0, 0xFF).unwrap();
    assert_eq!(chip.registers().get(0), 0x0F);
}

#[test]
fn test_bcd() {
    // Fx33 with Vx=156 writes 1, 5, 6 to I, I+1, I+2; read back via Fx65.
    let chip = run(vec![0x60, 0x9C, 0xA3, 0x00, 0xF0, 0x33, 0xF2, 0x65], 4);
    assert_eq!(chip.registers().get(0), 1);
    assert_eq!(chip.registers().get(1), 5);
    assert_eq!(chip.registers().get(2), 6);
}

#[test]
fn test_store_load_roundtrip_with_increment() {
    let program = vec![
        0x60, 0x11, 0x61, 0x22, 0x62, 0x33, // V0..V2
        0xA3, 0x00, 0xF2, 0x55, // store at 0x300
        0x60, 0x00, 0x61, 0x00, 0x62, 0x00, // zero them
        0xA3, 0x00, 0xF2, 0x65, // load back from 0x300
    ];
    let chip = run(program, 10);
    assert_eq!(chip.registers().get(0), 0x11);
    assert_eq!(chip.registers().get(1), 0x22);
    assert_eq!(chip.registers().get(2), 0x33);
    // The increment quirk only moves the index register.
    assert_eq!(chip.index_register(), 0x303);
}

#[test]
fn test_store_load_roundtrip_without_increment() {
    let program = vec![
        0x60, 0x11, 0x61, 0x22, 0x62, 0x33, 0xA3, 0x00, 0xF2, 0x55, 0x60, 0x00, 0x61, 0x00, 0x62,
        0x00, 0xA3, 0x00, 0xF2, 0x65,
    ];
    let mut behavior = BehaviorConfig::default();
    behavior.increment_i_on_save_load = false;
    let chip = run_with(program, 10, behavior);
    assert_eq!(chip.registers().get(0), 0x11);
    assert_eq!(chip.registers().get(1), 0x22);
    assert_eq!(chip.registers().get(2), 0x33);
    assert_eq!(chip.index_register(), 0x300);
}

#[test]
fn test_load_leaves_higher_registers() {
    // Fx65 only loads registers 0..=x.
    let chip = run(vec![0x63, 0x55, 0xA3, 0x00, 0xF1, 0x65], 3);
    assert_eq!(chip.registers().get(0), 0);
    assert_eq!(chip.registers().get(1), 0);
    assert_eq!(chip.registers().get(3), 0x55);
}

#[test]
fn test_invalid_alu_code_faults() {
    let mut chip = Chip::new(vec![0x80, 0x18], BehaviorConfig::default());
    let keys: Vec<u8> = vec![];
    let r = chip.step_with(&keys, 0, 0);
    assert_eq!(r, Err(Fault::InvalidInstruction { addr: 0x200, word: 0x8018 }));
}

#[test]
fn test_invalid_skip_variants_fault() {
    let mut chip = Chip::new(vec![0x50, 0x11], BehaviorConfig::default());
    let keys: Vec<u8> = vec![];
    assert_eq!(
        chip.step_with(&keys, 0, 0),
        Err(Fault::InvalidInstruction { addr: 0x200, word: 0x5011 })
    );
    let mut chip = Chip::new(vec![0x90, 0x17], BehaviorConfig::default());
    assert_eq!(
        chip.step_with(&keys, 0, 0),
        Err(Fault::InvalidInstruction { addr: 0x200, word: 0x9017 })
    );
}

#[test]
fn test_invalid_system_word_faults() {
    let mut chip = Chip::new(vec![0x00, 0xC0], BehaviorConfig::default());
    let keys: Vec<u8> = vec![];
    assert_eq!(
        chip.step_with(&keys, 0, 0),
        Err(Fault::InvalidInstruction { addr: 0x200, word: 0x00C0 })
    );
}

#[test]
fn test_blank_word_faults() {
    // A zero word is not a documented instruction: running off the end of a
    // program into zeroed memory halts the machine.
    let mut chip = Chip::new(vec![0x00, 0x00], BehaviorConfig::default());
    let keys: Vec<u8> = vec![];
    assert_eq!(
        chip.step_with(&keys, 0, 0),
        Err(Fault::InvalidInstruction { addr: 0x200, word: 0x0000 })
    );
}

#[test]
fn test_jump_with_offset_vx_quirk() {
    // With the quirk on, Bnnn adds Vx (x = the high nibble of nnn) instead
    // of V0.
    let mut behavior = BehaviorConfig::default();
    behavior.jump_offset_uses_vx = true;
    let chip = run_with(vec![0x62, 0x02, 0xB2, 0x04, 0x61, 0x99, 0x61, 0x07], 3, behavior);
    assert_eq!(chip.registers().get(1), 7);
    assert_eq!(chip.pc(), 0x208);
}
