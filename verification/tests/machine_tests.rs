use yarch8::cpu::YARCH8;
use yarch8::cpu::EmuError;

fn fresh() -> YARCH8 {
    let mut m = YARCH8::new(60, 700);
    m.start();
    m
}

#[test]
fn new_machine_is_zeroed() {
    let m = YARCH8::new(60, 700);
    assert_eq!(m.pc, 0);
    assert_eq!(m.i, 0);
    assert_eq!(m.ram.len(), 4096);
    assert!(m.ram.iter().all(|&b| b == 0));
    assert_eq!(m.v_regs.len(), 16);
    assert!(m.v_regs.iter().all(|&b| b == 0));
    assert_eq!(m.stack.len(), 0);
    assert_eq!(m.disp_buff.len(), 2048);
    assert!(m.disp_buff.iter().all(|&c| !c));
    assert_eq!(m.keys.len(), 16);
    assert!(m.keys.iter().all(|&k| !k));
    assert_eq!(m.delay_timer, 0);
    assert_eq!(m.sound_timer, 0);
    assert_eq!(m.timer_period_nanos, 1_000_000_000 / 60);
    assert_eq!(m.cycle_period_nanos, 1_000_000_000 / 700);
}

#[test]
fn start_sets_pc_and_installs_font() {
    let m = fresh();
    assert_eq!(m.pc, 0x200);
    // first glyph row and last glyph row of the built-in font
    assert_eq!(m.ram[0x50], 0xF0);
    assert_eq!(m.ram[0x51], 0x90);
    assert_eq!(m.ram[0x9F], 0x80);
    // nothing outside the font region was touched
    assert_eq!(m.ram[0x4F], 0);
    assert_eq!(m.ram[0xA0], 0);
}

#[test]
fn load_copies_image_at_0x200() {
    let mut m = fresh();
    m.load(&[0x12, 0x34, 0x56]);
    assert_eq!(m.ram[0x200], 0x12);
    assert_eq!(m.ram[0x201], 0x34);
    assert_eq!(m.ram[0x202], 0x56);
    assert_eq!(m.ram[0x203], 0);
}

#[test]
fn fetch_reads_big_endian_and_advances_pc_by_two() {
    let mut m = fresh();
    m.load(&[0x12, 0x34, 0xAB, 0xCD]);
    let first = m.fetch();
    assert_eq!(first, 0x1234);
    assert_eq!(m.pc, 0x202);
    let second = m.fetch();
    assert_eq!(second, 0xABCD);
    assert_eq!(m.pc, 0x204);
}

#[test]
fn key_press_and_release_update_the_keypad() {
    let mut m = fresh();
    assert_eq!(m.key_press(5), Ok(()));
    assert!(m.keys[5]);
    assert_eq!(m.key_released(5), Ok(()));
    assert!(!m.keys[5]);
}

#[test]
fn out_of_range_keys_are_rejected() {
    let mut m = fresh();
    assert_eq!(m.key_press(16), Err(EmuError::InvalidKey));
    assert_eq!(m.key_released(255), Err(EmuError::InvalidKey));
    assert!(m.keys.iter().all(|&k| !k));
}

#[test]
fn delay_timer_decrements_exactly_once_per_period() {
    let mut m = fresh();
    // set the delay timer to 5 at clock reading 0 (FX15 with V0 = 5)
    m.v_regs[0] = 5;
    assert_eq!(m.decode_execute(0xF015, 0), Ok(()));
    assert_eq!(m.delay_timer, 5);
    assert_eq!(m.delay_time_start, 0);
    // one sixtieth of a second later, exactly one decrement is due
    let now = 1_000_000_000 / 60 + 1;
    assert!(m.to_decrease_delay_timer(now));
    m.decrease_delay_timer(now);
    assert_eq!(m.delay_timer, 4);
    // the period restarted: the same reading asks for no further decrement
    assert!(!m.to_decrease_delay_timer(now));
}

#[test]
fn delay_timer_never_goes_below_zero() {
    let mut m = fresh();
    m.v_regs[0] = 1;
    assert_eq!(m.decode_execute(0xF015, 0), Ok(()));
    let period = 1_000_000_000 / 60;
    let mut now = 0;
    for _ in 0..10 {
        now += period + 1;
        if m.to_decrease_delay_timer(now) {
            m.decrease_delay_timer(now);
        }
    }
    assert_eq!(m.delay_timer, 0);
    assert!(!m.to_decrease_delay_timer(now + 10 * period));
}

#[test]
fn sound_timer_runs_on_its_own_clock() {
    let mut m = fresh();
    m.v_regs[1] = 3;
    assert_eq!(m.decode_execute(0xF118, 7), Ok(()));
    assert_eq!(m.sound_timer, 3);
    assert_eq!(m.sound_time_start, 7);
    let now = 7 + 1_000_000_000 / 60 + 1;
    assert!(m.to_decrease_sound_timer(now));
    assert!(!m.to_decrease_delay_timer(now) || m.delay_timer > 0);
    m.decrease_sound_timer(now);
    assert_eq!(m.sound_timer, 2);
    assert_eq!(m.sound_time_start, now);
}

#[test]
fn timer_reads_into_register() {
    let mut m = fresh();
    m.delay_timer = 42;
    assert_eq!(m.decode_execute(0xF307, 0), Ok(()));
    assert_eq!(m.v_regs[3], 42);
}

#[test]
fn get_disp_buff_exposes_the_grid() {
    let m = fresh();
    let grid = m.get_disp_buff();
    assert_eq!(grid.len(), 2048);
    assert!(grid.iter().all(|&c| !c));
}
