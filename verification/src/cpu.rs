//! The CHIP-8 machine state: memory, registers, call stack, timers, keypad
//! and display buffer, together with the operations the host drives directly
//! (construction, program load, fetch, key events, timer ticks).

use vstd::prelude::*;

verus! {

/// Behaviour of the shift instructions: the original hardware first copied
/// register Y into register X, later interpreters shift register X in place.
#[derive(Clone, Copy, Debug, PartialEq, Eq, Structural)]
pub enum ShiftBehavior {
    Legacy,
    Modern,
}

/// Behaviour of the jump-with-offset instruction: the original hardware adds
/// register 0 to the target, the Super-CHIP variant adds register X.
#[derive(Clone, Copy, Debug, PartialEq, Eq, Structural)]
pub enum JumpBehavior {
    Original,
    Superchip,
}

/// Whether the block store/load instructions advance the index register past
/// the transferred region afterwards.
#[derive(Clone, Copy, Debug, PartialEq, Eq, Structural)]
pub enum IndexBehavior {
    Increment,
    Unchanged,
}

/// The configurable quirks: behavioural divergences between original and
/// later CHIP-8 interpreters.
#[derive(Clone, Copy, Debug, PartialEq, Eq, Structural)]
pub struct Quirks {
    pub shift: ShiftBehavior,
    pub jump: JumpBehavior,
    pub index: IndexBehavior,
}

/// The default conventions: shift in place, jump adds register 0, store/load
/// leave the index register unchanged.
pub open spec fn default_quirks() -> Quirks {
    Quirks {
        shift: ShiftBehavior::Modern,
        jump: JumpBehavior::Original,
        index: IndexBehavior::Unchanged,
    }
}

impl Default for Quirks {
    fn default() -> (q: Quirks)
        ensures
            q == default_quirks(),
    {
        Quirks {
            shift: ShiftBehavior::Modern,
            jump: JumpBehavior::Original,
            index: IndexBehavior::Unchanged,
        }
    }
}

/// The fatal conditions of the interpreter. Execution cannot continue after
/// any of them; the host terminates with a diagnostic.
#[derive(Clone, Copy, Debug, PartialEq, Eq, Structural)]
pub enum EmuError {
    /// A return was executed with an empty call stack.
    StackUnderflow,
    /// A call was executed with the call stack already at its capacity of 16.
    StackOverflow,
    /// The instruction word matches no implemented opcode.
    UnimplementedOpcode,
    /// A key event named a key outside 0..=15.
    InvalidKey,
}

/// The CHIP-8 machine: one aggregate owning all interpreter state.
///
/// Timestamps (`delay_time_start`, `sound_time_start`) are readings of a
/// host-supplied monotonic clock in nanoseconds; every operation that needs
/// the current time takes it as a parameter, so the timer behaviour is a
/// function of the values passed in.
pub struct YARCH8 {
    /// Program counter; effectively 12-bit, kept at most `0x1002`.
    pub pc: u16,
    /// Index register; effectively 12-bit, kept below `0x1000`.
    pub i: u16,
    /// Flat memory, always 4096 bytes.
    pub ram: Vec<u8>,
    /// The 16 general-purpose registers; register 15 doubles as the flag.
    pub v_regs: Vec<u8>,
    pub delay_timer: u8,
    pub sound_timer: u8,
    /// Return addresses; its length is the stack pointer, capacity 16.
    pub stack: Vec<u16>,
    /// The 64x32 display, row-major: cell (row, col) is at `row * 64 + col`.
    pub disp_buff: Vec<bool>,
    /// Pressed state of the 16 keys.
    pub keys: Vec<bool>,
    /// Clock reading when the delay timer was last set or decremented.
    pub delay_time_start: u64,
    /// Clock reading when the sound timer was last set or decremented.
    pub sound_time_start: u64,
    /// Nanoseconds between timer decrements.
    pub timer_period_nanos: u64,
    /// Nanoseconds the host should spend per instruction cycle.
    pub cycle_period_nanos: u64,
    pub quirks: Quirks,
}

impl YARCH8 {
    /// Well-formedness: the collections have their fixed sizes, the stack is
    /// within capacity, and the address registers are within the bounds the
    /// instruction semantics maintain. Established by `new` and preserved by
    /// every operation.
    pub open spec fn wf(&self) -> bool {
        &&& self.ram@.len() == 4096
        &&& self.v_regs@.len() == 16
        &&& self.keys@.len() == 16
        &&& self.disp_buff@.len() == 2048
        &&& self.stack@.len() <= 16
        &&& self.i < 0x1000
        &&& self.pc <= 0x1002
        &&& forall|k: int| 0 <= k < self.stack@.len() ==> self.stack@[k] <= 0x1002
    }

    /// A fresh machine: all state zero, timers idle, default quirks, and the
    /// two cycle periods derived from the given frequencies (in Hz).
    pub fn new(timer_freq: u32, cycle_freq: u32) -> (r: YARCH8)
        requires
            timer_freq >= 1,
            cycle_freq >= 1,
        ensures
            r.wf(),
            r.pc == 0,
            r.i == 0,
            forall|k: int| 0 <= k < 4096 ==> r.ram@[k] == 0,
            forall|k: int| 0 <= k < 16 ==> r.v_regs@[k] == 0,
            forall|k: int| 0 <= k < 16 ==> !r.keys@[k],
            forall|k: int| 0 <= k < 2048 ==> !r.disp_buff@[k],
            r.stack@.len() == 0,
            r.delay_timer == 0,
            r.sound_timer == 0,
            r.delay_time_start == 0,
            r.sound_time_start == 0,
            r.timer_period_nanos == 1_000_000_000u64 / (timer_freq as u64),
            r.cycle_period_nanos == 1_000_000_000u64 / (cycle_freq as u64),
            r.quirks == default_quirks(),
    {
        YARCH8 {
            pc: 0x0,
            i: 0x0,
            ram: zeroed_bytes(4096),
            v_regs: zeroed_bytes(16),
            delay_timer: 0x0,
            sound_timer: 0x0,
            stack: Vec::new(),
            disp_buff: cleared_cells(2048),
            keys: cleared_cells(16),
            delay_time_start: 0,
            sound_time_start: 0,
            timer_period_nanos: 1_000_000_000u64 / (timer_freq as u64),
            cycle_period_nanos: 1_000_000_000u64 / (cycle_freq as u64),
            quirks: Quirks::default(),
        }
    }

    /// Install the built-in font at `FONT_BASE` and nothing else.
    fn store_font(&mut self)
        requires
            old(self).wf(),
        ensures
            final(self).wf(),
            final(self).ram@.len() == 4096,
            forall|k: int|
                0 <= k < 4096 ==> final(self).ram@[k] == (if FONT_BASE <= k < FONT_BASE + 80 {
                    font_seq()[k - FONT_BASE]
                } else {
                    old(self).ram@[k]
                }),
            final(self).pc == old(self).pc,
            final(self).i == old(self).i,
            final(self).v_regs@ == old(self).v_regs@,
            final(self).stack@ == old(self).stack@,
            final(self).disp_buff@ == old(self).disp_buff@,
            final(self).keys@ == old(self).keys@,
            final(self).delay_timer == old(self).delay_timer,
            final(self).sound_timer == old(self).sound_timer,
            final(self).delay_time_start == old(self).delay_time_start,
            final(self).sound_time_start == old(self).sound_time_start,
            final(self).timer_period_nanos == old(self).timer_period_nanos,
            final(self).cycle_period_nanos == old(self).cycle_period_nanos,
            final(self).quirks == old(self).quirks,
    {
        let fonts = font_table();
        let base: usize = FONT_BASE as usize;
        let mut idx: usize = 0;
        while idx < 80
            invariant
                old(self).wf(),
                idx <= 80,
                fonts@ == font_seq(),
                self.ram@.len() == 4096,
                forall|k: int|
                    0 <= k < 4096 ==> self.ram@[k] == (if base <= k < base + idx {
                        font_seq()[k - base]
                    } else {
                        old(self).ram@[k]
                    }),
                base == FONT_BASE as int,
                self.pc == old(self).pc,
                self.i == old(self).i,
                self.v_regs@ == old(self).v_regs@,
                self.stack@ == old(self).stack@,
                self.disp_buff@ == old(self).disp_buff@,
                self.keys@ == old(self).keys@,
                self.delay_timer == old(self).delay_timer,
                self.sound_timer == old(self).sound_timer,
                self.delay_time_start == old(self).delay_time_start,
                self.sound_time_start == old(self).sound_time_start,
                self.timer_period_nanos == old(self).timer_period_nanos,
                self.cycle_period_nanos == old(self).cycle_period_nanos,
                self.quirks == old(self).quirks,
            decreases 80 - idx,
        {
            self.ram[base + idx] = fonts[idx];
            idx = idx + 1;
        }
    }

    /// Make the machine ready to run: install the font and point the program
    /// counter at the program region.
    pub fn start(&mut self)
        requires
            old(self).wf(),
        ensures
            final(self).wf(),
            final(self).pc == 0x200,
            forall|k: int|
                0 <= k < 4096 ==> final(self).ram@[k] == (if FONT_BASE <= k < FONT_BASE + 80 {
                    font_seq()[k - FONT_BASE]
                } else {
                    old(self).ram@[k]
                }),
            final(self).i == old(self).i,
            final(self).v_regs@ == old(self).v_regs@,
            final(self).stack@ == old(self).stack@,
            final(self).disp_buff@ == old(self).disp_buff@,
            final(self).keys@ == old(self).keys@,
            final(self).delay_timer == old(self).delay_timer,
            final(self).sound_timer == old(self).sound_timer,
            final(self).delay_time_start == old(self).delay_time_start,
            final(self).sound_time_start == old(self).sound_time_start,
            final(self).timer_period_nanos == old(self).timer_period_nanos,
            final(self).cycle_period_nanos == old(self).cycle_period_nanos,
            final(self).quirks == old(self).quirks,
    {
        self.store_font();
        self.pc = 0x200;
    }

    /// Copy a program image into memory starting at `0x200`. The host reads
    /// the image from storage and hands the bytes in.
    pub fn load(&mut self, rom: &[u8])
        requires
            old(self).wf(),
            rom@.len() <= 4096 - 0x200,
        ensures
            final(self).wf(),
            final(self).ram@.len() == 4096,
            forall|k: int|
                0 <= k < 4096 ==> final(self).ram@[k] == (if 0x200 <= k < 0x200 + rom@.len() {
                    rom@[k - 0x200]
                } else {
                    old(self).ram@[k]
                }),
            final(self).pc == old(self).pc,
            final(self).i == old(self).i,
            final(self).v_regs@ == old(self).v_regs@,
            final(self).stack@ == old(self).stack@,
            final(self).disp_buff@ == old(self).disp_buff@,
            final(self).keys@ == old(self).keys@,
            final(self).delay_timer == old(self).delay_timer,
            final(self).sound_timer == old(self).sound_timer,
            final(self).delay_time_start == old(self).delay_time_start,
            final(self).sound_time_start == old(self).sound_time_start,
            final(self).timer_period_nanos == old(self).timer_period_nanos,
            final(self).cycle_period_nanos == old(self).cycle_period_nanos,
            final(self).quirks == old(self).quirks,
    {
        let mut idx: usize = 0;
        while idx < rom.len()
            invariant
                old(self).wf(),
                rom@.len() <= 4096 - 0x200,
                idx <= rom@.len(),
                self.ram@.len() == 4096,
                forall|k: int|
                    0 <= k < 4096 ==> self.ram@[k] == (if 0x200 <= k < 0x200 + idx {
                        rom@[k - 0x200]
                    } else {
                        old(self).ram@[k]
                    }),
                self.pc == old(self).pc,
                self.i == old(self).i,
                self.v_regs@ == old(self).v_regs@,
                self.stack@ == old(self).stack@,
                self.disp_buff@ == old(self).disp_buff@,
                self.keys@ == old(self).keys@,
                self.delay_timer == old(self).delay_timer,
                self.sound_timer == old(self).sound_timer,
                self.delay_time_start == old(self).delay_time_start,
                self.sound_time_start == old(self).sound_time_start,
                self.timer_period_nanos == old(self).timer_period_nanos,
                self.cycle_period_nanos == old(self).cycle_period_nanos,
                self.quirks == old(self).quirks,
            decreases rom@.len() - idx,
        {
            self.ram[0x200 + idx] = rom[idx];
            idx = idx + 1;
        }
    }

    /// Read the big-endian 16-bit instruction word at the program counter and
    /// advance the program counter past it, before the word is interpreted.
    /// A program counter outside the addressable region is a fatal fetch
    /// error, which the host must rule out before calling.
    pub fn fetch(&mut self) -> (ins: u16)
        requires
            old(self).wf(),
            old(self).pc + 1 < 4096,
        ensures
            final(self).wf(),
            ins == old(self).ram@[old(self).pc as int] * 256 + old(self).ram@[old(self).pc + 1],
            final(self).pc == old(self).pc + 2,
            *final(self) == (YARCH8 { pc: final(self).pc, ..*old(self) }),
    {
        let fetch_address: usize = self.pc as usize;
        self.pc = self.pc + 2;
        (self.ram[fetch_address] as u16) * 256 + (self.ram[fetch_address + 1] as u16)
    }

    /// Record a key as pressed. Keys outside 0..=15 are rejected.
    pub fn key_press(&mut self, key: u8) -> (r: Result<(), EmuError>)
        requires
            old(self).wf(),
        ensures
            final(self).wf(),
            key < 16 ==> r == Ok::<(), EmuError>(()) && final(self).keys@ == old(
                self,
            ).keys@.update(key as int, true),
            key >= 16 ==> r == Err::<(), EmuError>(EmuError::InvalidKey) && final(self).keys@ == old(
                self,
            ).keys@,
            *final(self) == (YARCH8 { keys: final(self).keys, ..*old(self) }),
    {
        if key >= 16 {
            return Err(EmuError::InvalidKey);
        }
        self.keys[key as usize] = true;
        Ok(())
    }

    /// Record a key as released. Keys outside 0..=15 are rejected.
    pub fn key_released(&mut self, key: u8) -> (r: Result<(), EmuError>)
        requires
            old(self).wf(),
        ensures
            final(self).wf(),
            key < 16 ==> r == Ok::<(), EmuError>(()) && final(self).keys@ == old(
                self,
            ).keys@.update(key as int, false),
            key >= 16 ==> r == Err::<(), EmuError>(EmuError::InvalidKey) && final(self).keys@ == old(
                self,
            ).keys@,
            *final(self) == (YARCH8 { keys: final(self).keys, ..*old(self) }),
    {
        if key >= 16 {
            return Err(EmuError::InvalidKey);
        }
        self.keys[key as usize] = false;
        Ok(())
    }

    /// Whether the delay timer is due for a decrement at the given clock
    /// reading: it is nonzero and more than one timer period has elapsed
    /// since it was last set or decremented.
    pub fn to_decrease_delay_timer(&self, now: u64) -> (r: bool)
        ensures
            r == (self.delay_timer > 0 && now > self.delay_time_start && now
                - self.delay_time_start > self.timer_period_nanos),
    {
        self.delay_timer > 0 && now > self.delay_time_start && now - self.delay_time_start
            > self.timer_period_nanos
    }

    /// Whether the sound timer is due for a decrement at the given clock
    /// reading.
    pub fn to_decrease_sound_timer(&self, now: u64) -> (r: bool)
        ensures
            r == (self.sound_timer > 0 && now > self.sound_time_start && now
                - self.sound_time_start > self.timer_period_nanos),
    {
        self.sound_timer > 0 && now > self.sound_time_start && now - self.sound_time_start
            > self.timer_period_nanos
    }

    /// Decrement the delay timer once and restart its period from the given
    /// clock reading. The timer never goes below zero: callers decrement only
    /// while it is nonzero.
    pub fn decrease_delay_timer(&mut self, now: u64)
        requires
            old(self).wf(),
            old(self).delay_timer >= 1,
        ensures
            final(self).wf(),
            final(self).delay_timer == old(self).delay_timer - 1,
            final(self).delay_time_start == now,
            *final(self) == (YARCH8 {
                delay_timer: final(self).delay_timer,
                delay_time_start: now,
                ..*old(self)
            }),
    {
        self.delay_timer = self.delay_timer - 1;
        self.delay_time_start = now;
    }

    /// Decrement the sound timer once and restart its period from the given
    /// clock reading.
    pub fn decrease_sound_timer(&mut self, now: u64)
        requires
            old(self).wf(),
            old(self).sound_timer >= 1,
        ensures
            final(self).wf(),
            final(self).sound_timer == old(self).sound_timer - 1,
            final(self).sound_time_start == now,
            *final(self) == (YARCH8 {
                sound_timer: final(self).sound_timer,
                sound_time_start: now,
                ..*old(self)
            }),
    {
        self.sound_timer = self.sound_timer - 1;
        self.sound_time_start = now;
    }

    /// The display buffer, row-major, for the host renderer.
    pub fn get_disp_buff(&self) -> (r: &Vec<bool>)
        ensures
            r@ == self.disp_buff@,
    {
        &self.disp_buff
    }

    /// Select which of the divergent historical behaviours the ambiguous
    /// opcodes follow.
    pub fn set_quirks(&mut self, quirks: Quirks)
        requires
            old(self).wf(),
        ensures
            final(self).wf(),
            *final(self) == (YARCH8 { quirks, ..*old(self) }),
    {
        self.quirks = quirks;
    }
}

/// Base address of the built-in font table.
pub const FONT_BASE: u16 = 0x50;

/// The built-in font: 16 glyphs (hex digits 0..=F), 5 bytes per glyph, each
/// byte one row of the glyph, most significant bit leftmost.
pub open spec fn font_seq() -> Seq<u8> {
    seq![
        0xF0u8, 0x90, 0x90, 0x90, 0xF0, // 0
        0x20, 0x60, 0x20, 0x20, 0x70, // 1
        0xF0, 0x10, 0xF0, 0x80, 0xF0, // 2
        0xF0, 0x10, 0xF0, 0x10, 0xF0, // 3
        0x90, 0x90, 0xF0, 0x10, 0x10, // 4
        0xF0, 0x80, 0xF0, 0x10, 0xF0, // 5
        0xF0, 0x80, 0xF0, 0x90, 0xF0, // 6
        0xF0, 0x10, 0x20, 0x40, 0x40, // 7
        0xF0, 0x90, 0xF0, 0x90, 0xF0, // 8
        0xF0, 0x90, 0xF0, 0x10, 0xF0, // 9
        0xF0, 0x90, 0xF0, 0x90, 0x90, // A
        0xE0, 0x90, 0xE0, 0x90, 0xE0, // B
        0xF0, 0x80, 0x80, 0x80, 0xF0, // C
        0xE0, 0x90, 0x90, 0x90, 0xE0, // D
        0xF0, 0x80, 0xF0, 0x80, 0xF0, // E
        0xF0, 0x80, 0xF0, 0x80, 0x80, // F
    ]
}

/// The font table as a vector, in glyph order.
fn font_table() -> (t: Vec<u8>)
    ensures
        t@ == font_seq(),
{
    let mut t: Vec<u8> = Vec::new();
    t.push(0xF0); t.push(0x90); t.push(0x90); t.push(0x90); t.push(0xF0); // 0
    t.push(0x20); t.push(0x60); t.push(0x20); t.push(0x20); t.push(0x70); // 1
    t.push(0xF0); t.push(0x10); t.push(0xF0); t.push(0x80); t.push(0xF0); // 2
    t.push(0xF0); t.push(0x10); t.push(0xF0); t.push(0x10); t.push(0xF0); // 3
    t.push(0x90); t.push(0x90); t.push(0xF0); t.push(0x10); t.push(0x10); // 4
    t.push(0xF0); t.push(0x80); t.push(0xF0); t.push(0x10); t.push(0xF0); // 5
    t.push(0xF0); t.push(0x80); t.push(0xF0); t.push(0x90); t.push(0xF0); // 6
    t.push(0xF0); t.push(0x10); t.push(0x20); t.push(0x40); t.push(0x40); // 7
    t.push(0xF0); t.push(0x90); t.push(0xF0); t.push(0x90); t.push(0xF0); // 8
    t.push(0xF0); t.push(0x90); t.push(0xF0); t.push(0x10); t.push(0xF0); // 9
    t.push(0xF0); t.push(0x90); t.push(0xF0); t.push(0x90); t.push(0x90); // A
    t.push(0xE0); t.push(0x90); t.push(0xE0); t.push(0x90); t.push(0xE0); // B
    t.push(0xF0); t.push(0x80); t.push(0x80); t.push(0x80); t.push(0xF0); // C
    t.push(0xE0); t.push(0x90); t.push(0x90); t.push(0x90); t.push(0xE0); // D
    t.push(0xF0); t.push(0x80); t.push(0xF0); t.push(0x80); t.push(0xF0); // E
    t.push(0xF0); t.push(0x80); t.push(0xF0); t.push(0x80); t.push(0x80); // F
    proof {
        assert(t@ =~= font_seq());
    }
    t
}

/// A byte vector of the given length, all zero.
fn zeroed_bytes(len: usize) -> (v: Vec<u8>)
    ensures
        v@.len() == len,
        forall|k: int| 0 <= k < len ==> v@[k] == 0,
{
    let mut v: Vec<u8> = Vec::new();
    while v.len() < len
        invariant
            v@.len() <= len,
            forall|k: int| 0 <= k < v@.len() ==> v@[k] == 0,
        decreases len - v@.len(),
    {
        v.push(0);
    }
    v
}

/// A boolean vector of the given length, all false.
pub(crate) fn cleared_cells(len: usize) -> (v: Vec<bool>)
    ensures
        v@.len() == len,
        forall|k: int| 0 <= k < len ==> !v@[k],
{
    let mut v: Vec<bool> = Vec::new();
    while v.len() < len
        invariant
            v@.len() <= len,
            forall|k: int| 0 <= k < v@.len() ==> !v@[k],
        decreases len - v@.len(),
    {
        v.push(false);
    }
    v
}

} // verus!
