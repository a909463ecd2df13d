use yarch8::cpu::EmuError;
use yarch8::cpu::IndexBehavior;
use yarch8::cpu::JumpBehavior;
use yarch8::cpu::Quirks;
use yarch8::cpu::ShiftBehavior;
use yarch8::cpu::YARCH8;

fn fresh() -> YARCH8 {
    let mut m = YARCH8::new(60, 700);
    m.start();
    m
}

#[test]
fn default_quirks_follow_the_stated_conventions() {
    let q = Quirks::default();
    assert_eq!(q.shift, ShiftBehavior::Modern);
    assert_eq!(q.jump, JumpBehavior::Original);
    assert_eq!(q.index, IndexBehavior::Unchanged);
}

#[test]
fn key_wait_cycle_refetches_the_same_instruction() {
    let mut m = fresh();
    m.load(&[0xF3, 0x0A]);
    let ins = m.fetch();
    assert_eq!(ins, 0xF30A);
    assert_eq!(m.decode_execute(ins, 0), Ok(()));
    // the rewind undoes the fetch: the next cycle sees the instruction again
    assert_eq!(m.pc, 0x200);
    assert_eq!(m.fetch(), 0xF30A);
}

#[test]
fn jump_sets_pc() {
    let mut m = fresh();
    assert_eq!(m.decode_execute(0x1404, 0), Ok(()));
    assert_eq!(m.pc, 0x404);
}

#[test]
fn set_register_immediate() {
    let mut m = fresh();
    assert_eq!(m.decode_execute(0x63AB, 0), Ok(()));
    assert_eq!(m.v_regs[3], 0xAB);
}

#[test]
fn add_immediate_wraps_and_leaves_flag_alone() {
    let mut m = fresh();
    m.v_regs[3] = 250;
    m.v_regs[15] = 7;
    assert_eq!(m.decode_execute(0x7310, 0), Ok(()));
    assert_eq!(m.v_regs[3] as u32, (250 + 0x10) % 256);
    assert_eq!(m.v_regs[15], 7);
}

#[test]
fn skip_if_equal_immediate() {
    let mut m = fresh();
    m.v_regs[2] = 0x42;
    assert_eq!(m.decode_execute(0x3242, 0), Ok(()));
    assert_eq!(m.pc, 0x202);
    assert_eq!(m.decode_execute(0x3243, 0), Ok(()));
    assert_eq!(m.pc, 0x202);
}

#[test]
fn skip_if_not_equal_immediate() {
    let mut m = fresh();
    m.v_regs[2] = 0x42;
    assert_eq!(m.decode_execute(0x4242, 0), Ok(()));
    assert_eq!(m.pc, 0x200);
    assert_eq!(m.decode_execute(0x4243, 0), Ok(()));
    assert_eq!(m.pc, 0x202);
}

#[test]
fn skip_on_register_comparison() {
    let mut m = fresh();
    m.v_regs[1] = 9;
    m.v_regs[2] = 9;
    m.v_regs[3] = 8;
    assert_eq!(m.decode_execute(0x5120, 0), Ok(()));
    assert_eq!(m.pc, 0x202);
    assert_eq!(m.decode_execute(0x5130, 0), Ok(()));
    assert_eq!(m.pc, 0x202);
    assert_eq!(m.decode_execute(0x9130, 0), Ok(()));
    assert_eq!(m.pc, 0x204);
    assert_eq!(m.decode_execute(0x9120, 0), Ok(()));
    assert_eq!(m.pc, 0x204);
}

#[test]
fn alu_assign_or_and_xor() {
    let mut m = fresh();
    m.v_regs[0] = 0b1100;
    m.v_regs[1] = 0b1010;
    assert_eq!(m.decode_execute(0x8011, 0), Ok(()));
    assert_eq!(m.v_regs[0], 0b1110);
    m.v_regs[0] = 0b1100;
    assert_eq!(m.decode_execute(0x8012, 0), Ok(()));
    assert_eq!(m.v_regs[0], 0b1000);
    m.v_regs[0] = 0b1100;
    assert_eq!(m.decode_execute(0x8013, 0), Ok(()));
    assert_eq!(m.v_regs[0], 0b0110);
    assert_eq!(m.decode_execute(0x8010, 0), Ok(()));
    assert_eq!(m.v_regs[0], 0b1010);
}

#[test]
fn add_with_carry_sets_flag_on_overflow() {
    let mut m = fresh();
    m.v_regs[0] = 200;
    m.v_regs[1] = 100;
    assert_eq!(m.decode_execute(0x8014, 0), Ok(()));
    assert_eq!(m.v_regs[0], 44);
    assert_eq!(m.v_regs[15], 1);
    m.v_regs[0] = 20;
    assert_eq!(m.decode_execute(0x8014, 0), Ok(()));
    assert_eq!(m.v_regs[0], 120);
    assert_eq!(m.v_regs[15], 0);
}

#[test]
fn subtract_sets_flag_when_no_borrow() {
    let mut m = fresh();
    m.v_regs[0] = 20;
    m.v_regs[1] = 10;
    assert_eq!(m.decode_execute(0x8015, 0), Ok(()));
    assert_eq!(m.v_regs[0], 10);
    assert_eq!(m.v_regs[15], 1);
    m.v_regs[0] = 10;
    m.v_regs[1] = 20;
    assert_eq!(m.decode_execute(0x8015, 0), Ok(()));
    assert_eq!(m.v_regs[0], 246);
    assert_eq!(m.v_regs[15], 0);
}

#[test]
fn subtract_reversed_operands() {
    let mut m = fresh();
    m.v_regs[0] = 10;
    m.v_regs[1] = 20;
    assert_eq!(m.decode_execute(0x8017, 0), Ok(()));
    assert_eq!(m.v_regs[0], 10);
    assert_eq!(m.v_regs[15], 1);
    m.v_regs[0] = 30;
    m.v_regs[1] = 20;
    assert_eq!(m.decode_execute(0x8017, 0), Ok(()));
    assert_eq!(m.v_regs[0], 246);
    assert_eq!(m.v_regs[15], 0);
}

#[test]
fn shift_right_reports_shifted_out_bit() {
    let mut m = fresh();
    m.v_regs[0] = 7;
    assert_eq!(m.decode_execute(0x8016, 0), Ok(()));
    assert_eq!(m.v_regs[0], 3);
    assert_eq!(m.v_regs[15], 1);
    m.v_regs[0] = 8;
    assert_eq!(m.decode_execute(0x8016, 0), Ok(()));
    assert_eq!(m.v_regs[0], 4);
    assert_eq!(m.v_regs[15], 0);
}

#[test]
fn shift_left_reports_shifted_out_bit() {
    let mut m = fresh();
    m.v_regs[0] = 0x81;
    assert_eq!(m.decode_execute(0x801E, 0), Ok(()));
    assert_eq!(m.v_regs[0], 2);
    assert_eq!(m.v_regs[15], 1);
    m.v_regs[0] = 0x41;
    assert_eq!(m.decode_execute(0x801E, 0), Ok(()));
    assert_eq!(m.v_regs[0], 0x82);
    assert_eq!(m.v_regs[15], 0);
}

#[test]
fn legacy_shift_copies_register_y_first() {
    let mut m = fresh();
    m.set_quirks(Quirks {
        shift: ShiftBehavior::Legacy,
        jump: JumpBehavior::Original,
        index: IndexBehavior::Unchanged,
    });
    m.v_regs[0] = 0;
    m.v_regs[1] = 7;
    assert_eq!(m.decode_execute(0x8016, 0), Ok(()));
    assert_eq!(m.v_regs[0], 3);
    assert_eq!(m.v_regs[15], 1);
}

#[test]
fn set_index_register() {
    let mut m = fresh();
    assert_eq!(m.decode_execute(0xA123, 0), Ok(()));
    assert_eq!(m.i, 0x123);
}

#[test]
fn jump_with_offset_uses_register_zero_by_default() {
    let mut m = fresh();
    m.v_regs[0] = 5;
    m.v_regs[2] = 0x10;
    assert_eq!(m.decode_execute(0xB200, 0), Ok(()));
    assert_eq!(m.pc, 0x205);
}

#[test]
fn jump_with_offset_superchip_uses_register_x() {
    let mut m = fresh();
    m.set_quirks(Quirks {
        shift: ShiftBehavior::Modern,
        jump: JumpBehavior::Superchip,
        index: IndexBehavior::Unchanged,
    });
    m.v_regs[0] = 5;
    m.v_regs[2] = 0x10;
    assert_eq!(m.decode_execute(0xB200, 0), Ok(()));
    assert_eq!(m.pc, 0x210);
}

#[test]
fn random_masked_with_zero_is_zero() {
    let mut m = fresh();
    m.v_regs[4] = 0xAA;
    assert_eq!(m.decode_execute(0xC400, 0), Ok(()));
    assert_eq!(m.v_regs[4], 0);
}

#[test]
fn random_respects_the_mask() {
    let mut m = fresh();
    for _ in 0..32 {
        assert_eq!(m.decode_execute(0xC40F, 0), Ok(()));
        assert_eq!(m.v_regs[4] & 0xF0, 0);
    }
}

#[test]
fn skip_if_key_pressed() {
    let mut m = fresh();
    m.v_regs[0] = 7;
    assert_eq!(m.decode_execute(0xE09E, 0), Ok(()));
    assert_eq!(m.pc, 0x200);
    assert_eq!(m.key_press(7), Ok(()));
    assert_eq!(m.decode_execute(0xE09E, 0), Ok(()));
    assert_eq!(m.pc, 0x202);
}

#[test]
fn skip_if_key_not_pressed() {
    let mut m = fresh();
    m.v_regs[0] = 7;
    assert_eq!(m.decode_execute(0xE0A1, 0), Ok(()));
    assert_eq!(m.pc, 0x202);
    assert_eq!(m.key_press(7), Ok(()));
    assert_eq!(m.decode_execute(0xE0A1, 0), Ok(()));
    assert_eq!(m.pc, 0x202);
}

#[test]
fn key_wait_rewinds_pc_until_a_key_arrives() {
    let mut m = fresh();
    m.pc = 0x202;  // as if the instruction at 0x200 was just fetched
    assert_eq!(m.decode_execute(0xF30A, 0), Ok(()));
    assert_eq!(m.pc, 0x200);  // net zero advance across the rewind
    // keys 9 and 5 pressed: the lowest index wins
    assert_eq!(m.key_press(9), Ok(()));
    assert_eq!(m.key_press(5), Ok(()));
    m.pc = 0x202;
    assert_eq!(m.decode_execute(0xF30A, 0), Ok(()));
    assert_eq!(m.pc, 0x202);
    assert_eq!(m.v_regs[3], 5);
}

#[test]
fn add_to_index_wraps_to_twelve_bits() {
    let mut m = fresh();
    m.i = 0xFFF;
    m.v_regs[0] = 5;
    assert_eq!(m.decode_execute(0xF01E, 0), Ok(()));
    assert_eq!(m.i, 4);
}

#[test]
fn font_address_for_low_nibble_of_register() {
    let mut m = fresh();
    m.v_regs[0] = 0xAB;
    assert_eq!(m.decode_execute(0xF029, 0), Ok(()));
    assert_eq!(m.i, 0x50 + 0xB * 5);
    // the glyph for hex digit B starts with row 0xE0
    assert_eq!(m.ram[m.i as usize], 0xE0);
}

#[test]
fn bcd_of_205_writes_2_0_5() {
    let mut m = fresh();
    m.v_regs[2] = 205;
    m.i = 0x500;
    assert_eq!(m.decode_execute(0xF233, 0), Ok(()));
    assert_eq!(m.ram[0x500], 2);
    assert_eq!(m.ram[0x501], 0);
    assert_eq!(m.ram[0x502], 5);
}

#[test]
fn bcd_of_single_digit_zeroes_higher_digits() {
    let mut m = fresh();
    m.v_regs[2] = 7;
    m.i = 0x500;
    m.ram[0x500] = 9;
    m.ram[0x501] = 9;
    assert_eq!(m.decode_execute(0xF233, 0), Ok(()));
    assert_eq!(m.ram[0x500], 0);
    assert_eq!(m.ram[0x501], 0);
    assert_eq!(m.ram[0x502], 7);
}

#[test]
fn store_then_load_restores_registers() {
    // the round trip for every X in 0..=15
    for x in 0..16u16 {
        let mut m = fresh();
        for k in 0..16 {
            m.v_regs[k] = (10 + 3 * k) as u8;
        }
        m.i = 0x600;
        assert_eq!(m.decode_execute(0xF055 | (x << 8), 0), Ok(()));
        assert_eq!(m.i, 0x600);
        let saved = m.v_regs.clone();
        for k in 0..16 {
            m.v_regs[k] = 0;
        }
        assert_eq!(m.decode_execute(0xF065 | (x << 8), 0), Ok(()));
        for k in 0..=(x as usize) {
            assert_eq!(m.v_regs[k], saved[k]);
        }
        for k in (x as usize + 1)..16 {
            assert_eq!(m.v_regs[k], 0);
        }
    }
}

#[test]
fn store_writes_memory_at_index() {
    let mut m = fresh();
    m.v_regs[0] = 0xAA;
    m.v_regs[1] = 0xBB;
    m.v_regs[2] = 0xCC;
    m.i = 0x700;
    assert_eq!(m.decode_execute(0xF155, 0), Ok(()));
    assert_eq!(m.ram[0x700], 0xAA);
    assert_eq!(m.ram[0x701], 0xBB);
    assert_eq!(m.ram[0x702], 0);
}

#[test]
fn store_with_increment_quirk_moves_index() {
    let mut m = fresh();
    m.set_quirks(Quirks {
        shift: ShiftBehavior::Modern,
        jump: JumpBehavior::Original,
        index: IndexBehavior::Increment,
    });
    m.i = 0x700;
    assert_eq!(m.decode_execute(0xF255, 0), Ok(()));
    assert_eq!(m.i, 0x703);
}

#[test]
fn call_then_return_resumes_after_the_call() {
    let mut m = fresh();
    m.pc = 0x202;  // as if the call at 0x200 was just fetched
    assert_eq!(m.decode_execute(0x2400, 0), Ok(()));
    assert_eq!(m.pc, 0x400);
    assert_eq!(m.stack, vec![0x202]);
    assert_eq!(m.decode_execute(0x00EE, 0), Ok(()));
    assert_eq!(m.pc, 0x202);
    assert_eq!(m.stack.len(), 0);
}

#[test]
fn return_on_empty_stack_is_underflow() {
    let mut m = fresh();
    assert_eq!(m.decode_execute(0x00EE, 0), Err(EmuError::StackUnderflow));
    assert_eq!(m.pc, 0x200);
}

#[test]
fn seventeenth_nested_call_is_overflow() {
    let mut m = fresh();
    for _ in 0..16 {
        assert_eq!(m.decode_execute(0x2300, 0), Ok(()));
    }
    assert_eq!(m.stack.len(), 16);
    assert_eq!(m.decode_execute(0x2300, 0), Err(EmuError::StackOverflow));
    assert_eq!(m.stack.len(), 16);
}

#[test]
fn unknown_bit_patterns_are_unimplemented() {
    let mut m = fresh();
    assert_eq!(m.decode_execute(0x00FD, 0), Err(EmuError::UnimplementedOpcode));
    assert_eq!(m.decode_execute(0x5121, 0), Err(EmuError::UnimplementedOpcode));
    assert_eq!(m.decode_execute(0x9121, 0), Err(EmuError::UnimplementedOpcode));
    assert_eq!(m.decode_execute(0x8018, 0), Err(EmuError::UnimplementedOpcode));
    assert_eq!(m.decode_execute(0xE000, 0), Err(EmuError::UnimplementedOpcode));
    assert_eq!(m.decode_execute(0xF099, 0), Err(EmuError::UnimplementedOpcode));
    // a fatal decode leaves the machine untouched
    assert_eq!(m.pc, 0x200);
}
