//! The meaning of one instruction step, as a relation between the machine
//! state before and after `decode_execute`.
//!
//! `step_err` gives the fatal condition an instruction word hits, if any;
//! `step_spec` relates the pre- and post-state of a successful step. The
//! relation determines the post-state completely, except for the random
//! instruction, whose result it only constrains to a masked random byte.

use vstd::prelude::*;

use crate::cpu::FONT_BASE;
use crate::cpu::EmuError;
use crate::cpu::IndexBehavior;
use crate::cpu::JumpBehavior;
use crate::cpu::ShiftBehavior;
use crate::cpu::YARCH8;

verus! {

// ---------------------------------------------------------------------------
// Instruction word fields
// ---------------------------------------------------------------------------
/// Top nibble: the opcode family.
pub open spec fn op_of(ins: u16) -> int {
    ins as int / 0x1000
}

/// Register index X, bits 8..=11.
pub open spec fn x_of(ins: u16) -> int {
    (ins as int / 0x100) % 16
}

/// Register index Y, bits 4..=7.
pub open spec fn y_of(ins: u16) -> int {
    (ins as int / 0x10) % 16
}

/// 4-bit immediate, bits 0..=3.
pub open spec fn n_of(ins: u16) -> int {
    ins as int % 16
}

/// 8-bit immediate, bits 0..=7.
pub open spec fn nn_of(ins: u16) -> int {
    ins as int % 256
}

/// 12-bit address, bits 0..=11.
pub open spec fn nnn_of(ins: u16) -> int {
    ins as int % 0x1000
}

// ---------------------------------------------------------------------------
// Addresses and sprites
// ---------------------------------------------------------------------------
/// Reduce a computed address to the 12-bit addressable range, for addresses
/// below twice the memory size.
pub open spec fn wrap_addr(a: int) -> int
    recommends
        0 <= a < 2 * 4096,
{
    if a < 4096 {
        a
    } else {
        a - 4096
    }
}

/// Bit `j` of a sprite row byte, most significant bit first.
pub open spec fn sprite_bit(b: u8, j: int) -> bool
    recommends
        0 <= j < 8,
{
    if j == 0 {
        b as int / 128 % 2 == 1
    } else if j == 1 {
        b as int / 64 % 2 == 1
    } else if j == 2 {
        b as int / 32 % 2 == 1
    } else if j == 3 {
        b as int / 16 % 2 == 1
    } else if j == 4 {
        b as int / 8 % 2 == 1
    } else if j == 5 {
        b as int / 4 % 2 == 1
    } else if j == 6 {
        b as int / 2 % 2 == 1
    } else {
        b as int % 2 == 1
    }
}

// ---------------------------------------------------------------------------
// Unchanged-state helpers
// ---------------------------------------------------------------------------
/// The configuration never changes during execution.
pub open spec fn same_config(a: YARCH8, b: YARCH8) -> bool {
    &&& b.timer_period_nanos == a.timer_period_nanos
    &&& b.cycle_period_nanos == a.cycle_period_nanos
    &&& b.quirks == a.quirks
}

/// The four timer fields.
pub open spec fn same_timers(a: YARCH8, b: YARCH8) -> bool {
    &&& b.delay_timer == a.delay_timer
    &&& b.sound_timer == a.sound_timer
    &&& b.delay_time_start == a.delay_time_start
    &&& b.sound_time_start == a.sound_time_start
}

/// What every instruction leaves alone: the keypad (read-only to the
/// interpreter) and the configuration.
pub open spec fn exec_frame(a: YARCH8, b: YARCH8) -> bool {
    &&& same_config(a, b)
    &&& b.keys@ == a.keys@
}

/// Equality of complete states, field by field.
pub open spec fn same_state(a: YARCH8, b: YARCH8) -> bool {
    &&& b.pc == a.pc
    &&& b.i == a.i
    &&& b.ram@ == a.ram@
    &&& b.v_regs@ == a.v_regs@
    &&& b.stack@ == a.stack@
    &&& b.disp_buff@ == a.disp_buff@
    &&& same_timers(a, b)
    &&& exec_frame(a, b)
}

/// Only the program counter may differ.
pub open spec fn unchanged_but_pc(a: YARCH8, b: YARCH8) -> bool {
    &&& b.i == a.i
    &&& b.ram@ == a.ram@
    &&& b.v_regs@ == a.v_regs@
    &&& b.stack@ == a.stack@
    &&& b.disp_buff@ == a.disp_buff@
    &&& same_timers(a, b)
    &&& exec_frame(a, b)
}

/// Only the general-purpose registers may differ.
pub open spec fn unchanged_but_regs(a: YARCH8, b: YARCH8) -> bool {
    &&& b.pc == a.pc
    &&& b.i == a.i
    &&& b.ram@ == a.ram@
    &&& b.stack@ == a.stack@
    &&& b.disp_buff@ == a.disp_buff@
    &&& same_timers(a, b)
    &&& exec_frame(a, b)
}

/// Only the index register may differ.
pub open spec fn unchanged_but_i(a: YARCH8, b: YARCH8) -> bool {
    &&& b.pc == a.pc
    &&& b.ram@ == a.ram@
    &&& b.v_regs@ == a.v_regs@
    &&& b.stack@ == a.stack@
    &&& b.disp_buff@ == a.disp_buff@
    &&& same_timers(a, b)
    &&& exec_frame(a, b)
}

/// Only memory and the index register may differ.
pub open spec fn unchanged_but_ram_i(a: YARCH8, b: YARCH8) -> bool {
    &&& b.pc == a.pc
    &&& b.v_regs@ == a.v_regs@
    &&& b.stack@ == a.stack@
    &&& b.disp_buff@ == a.disp_buff@
    &&& same_timers(a, b)
    &&& exec_frame(a, b)
}

/// Only the registers and the index register may differ.
pub open spec fn unchanged_but_regs_i(a: YARCH8, b: YARCH8) -> bool {
    &&& b.pc == a.pc
    &&& b.ram@ == a.ram@
    &&& b.stack@ == a.stack@
    &&& b.disp_buff@ == a.disp_buff@
    &&& same_timers(a, b)
    &&& exec_frame(a, b)
}

/// Only the program counter and the call stack may differ.
pub open spec fn unchanged_but_pc_stack(a: YARCH8, b: YARCH8) -> bool {
    &&& b.i == a.i
    &&& b.ram@ == a.ram@
    &&& b.v_regs@ == a.v_regs@
    &&& b.disp_buff@ == a.disp_buff@
    &&& same_timers(a, b)
    &&& exec_frame(a, b)
}

/// Only the display and the registers (for the collision flag) may differ.
pub open spec fn unchanged_but_disp_regs(a: YARCH8, b: YARCH8) -> bool {
    &&& b.pc == a.pc
    &&& b.i == a.i
    &&& b.ram@ == a.ram@
    &&& b.stack@ == a.stack@
    &&& same_timers(a, b)
    &&& exec_frame(a, b)
}

/// Only the timer fields may differ.
pub open spec fn unchanged_but_timers(a: YARCH8, b: YARCH8) -> bool {
    &&& b.pc == a.pc
    &&& b.i == a.i
    &&& b.ram@ == a.ram@
    &&& b.v_regs@ == a.v_regs@
    &&& b.stack@ == a.stack@
    &&& b.disp_buff@ == a.disp_buff@
    &&& exec_frame(a, b)
}

// ---------------------------------------------------------------------------
// The effect of each instruction
// ---------------------------------------------------------------------------
/// Set the program counter to `target` and touch nothing else.
pub open spec fn spec_set_pc(pre: YARCH8, post: YARCH8, target: int) -> bool {
    &&& unchanged_but_pc(pre, post)
    &&& post.pc == target
}

/// Advance past the next instruction when `cond` holds.
pub open spec fn spec_skip(pre: YARCH8, post: YARCH8, cond: bool) -> bool {
    &&& unchanged_but_pc(pre, post)
    &&& post.pc == pre.pc + (if cond {
        2int
    } else {
        0int
    })
}

/// Write `val` to register `x` and touch nothing else.
pub open spec fn spec_set_reg(pre: YARCH8, post: YARCH8, x: int, val: int) -> bool {
    &&& unchanged_but_regs(pre, post)
    &&& post.v_regs@ == pre.v_regs@.update(x, val as u8)
}

/// Write `val` to register `x` and the flag outcome to register 15. When
/// `x == 15` the flag, written second, wins.
pub open spec fn spec_set_reg_flag(pre: YARCH8, post: YARCH8, x: int, val: int, flag: int) -> bool {
    &&& unchanged_but_regs(pre, post)
    &&& post.v_regs@ == pre.v_regs@.update(x, val as u8).update(15, flag as u8)
}

/// Every display cell off; nothing else touched.
pub open spec fn spec_clear_screen(pre: YARCH8, post: YARCH8) -> bool {
    &&& unchanged_but_disp_regs(pre, post)
    &&& post.v_regs@ == pre.v_regs@
    &&& post.disp_buff@.len() == 2048
    &&& forall|p: int| 0 <= p < 2048 ==> !post.disp_buff@[p]
}

/// Pop the return address into the program counter.
pub open spec fn spec_ret(pre: YARCH8, post: YARCH8) -> bool
    recommends
        pre.stack@.len() >= 1,
{
    &&& unchanged_but_pc_stack(pre, post)
    &&& post.stack@ == pre.stack@.drop_last()
    &&& post.pc == pre.stack@.last()
}

/// Push the program counter (already past the call instruction) and jump.
pub open spec fn spec_call(pre: YARCH8, post: YARCH8, target: int) -> bool
    recommends
        pre.stack@.len() < 16,
{
    &&& unchanged_but_pc_stack(pre, post)
    &&& post.stack@ == pre.stack@.push(pre.pc)
    &&& post.pc == target
}

/// The register-register ALU family `8XYn`.
pub open spec fn spec_alu(pre: YARCH8, post: YARCH8, x: int, y: int, n: int) -> bool
    recommends
        pre.wf(),
        0 <= x < 16,
        0 <= y < 16,
        n == 0 || n == 1 || n == 2 || n == 3 || n == 4 || n == 5 || n == 6 || n == 7 || n == 0xE,
{
    let vx = pre.v_regs@[x];
    let vy = pre.v_regs@[y];
    if n == 0 {
        spec_set_reg(pre, post, x, vy as int)
    } else if n == 1 {
        spec_set_reg(pre, post, x, (vx | vy) as int)
    } else if n == 2 {
        spec_set_reg(pre, post, x, (vx & vy) as int)
    } else if n == 3 {
        spec_set_reg(pre, post, x, (vx ^ vy) as int)
    } else if n == 4 {
        spec_set_reg_flag(
            pre,
            post,
            x,
            (vx + vy) % 256,
            if vx + vy >= 256 {
                1int
            } else {
                0int
            },
        )
    } else if n == 5 {
        spec_set_reg_flag(
            pre,
            post,
            x,
            if vx >= vy {
                vx - vy
            } else {
                vx + 256 - vy
            },
            if vx >= vy {
                1int
            } else {
                0int
            },
        )
    } else if n == 6 {
        let src = if pre.quirks.shift == ShiftBehavior::Legacy {
            vy as int
        } else {
            vx as int
        };
        spec_set_reg_flag(pre, post, x, src / 2, src % 2)
    } else if n == 7 {
        spec_set_reg_flag(
            pre,
            post,
            x,
            if vy >= vx {
                vy - vx
            } else {
                vy + 256 - vx
            },
            if vy >= vx {
                1int
            } else {
                0int
            },
        )
    } else {
        let src = if pre.quirks.shift == ShiftBehavior::Legacy {
            vy as int
        } else {
            vx as int
        };
        spec_set_reg_flag(pre, post, x, src * 2 % 256, src / 128)
    }
}

/// Set the index register to `target` and touch nothing else.
pub open spec fn spec_set_i(pre: YARCH8, post: YARCH8, target: int) -> bool {
    &&& unchanged_but_i(pre, post)
    &&& post.i == target
}

/// Jump with offset: the offset register depends on the configured quirk.
pub open spec fn spec_jump_offset(pre: YARCH8, post: YARCH8, ins: u16) -> bool
    recommends
        pre.wf(),
{
    let base = if pre.quirks.jump == JumpBehavior::Superchip {
        pre.v_regs@[x_of(ins)] as int
    } else {
        pre.v_regs@[0] as int
    };
    spec_set_pc(pre, post, wrap_addr(nnn_of(ins) + base))
}

/// A random byte masked by the immediate was written to register `x`: the
/// result always satisfies the mask, and nothing else changes.
pub open spec fn spec_random(pre: YARCH8, post: YARCH8, x: int, nn: u8) -> bool {
    exists|b: u8| post.v_regs@ == pre.v_regs@.update(x, b & nn) && unchanged_but_regs(pre, post)
}

// ---------------------------------------------------------------------------
// Drawing
// ---------------------------------------------------------------------------
/// Whether cell (`r`, `c`) lies in the clipped target rectangle of a sprite
/// of height `n` drawn at (`xi`, `yi`).
pub open spec fn draw_target(xi: int, yi: int, n: int, r: int, c: int) -> bool {
    &&& yi <= r < yi + n
    &&& xi <= c < xi + 8
}

/// The sprite row byte that covers display row `r`.
pub open spec fn sprite_row(pre: YARCH8, yi: int, r: int) -> u8
    recommends
        pre.wf(),
        yi <= r,
{
    pre.ram@[wrap_addr(pre.i + (r - yi))]
}

/// The value of flat display cell `p` after the draw.
pub open spec fn draw_cell(pre: YARCH8, xi: int, yi: int, n: int, p: int) -> bool
    recommends
        pre.wf(),
        0 <= p < 2048,
{
    let r = p / 64;
    let c = p % 64;
    if draw_target(xi, yi, n, r, c) {
        pre.disp_buff@[p] != sprite_bit(sprite_row(pre, yi, r), c - xi)
    } else {
        pre.disp_buff@[p]
    }
}

/// Whether the draw turns any lit cell off: a sprite bit lands on a cell
/// that is already on.
pub open spec fn draw_collision(pre: YARCH8, xi: int, yi: int, n: int) -> bool {
    exists|p: int|
        0 <= p < 2048 && draw_target(xi, yi, n, p / 64, p % 64) && pre.disp_buff@[p] && sprite_bit(
            sprite_row(pre, yi, p / 64),
            p % 64 - xi,
        )
}

/// The draw instruction `DXYN`: XOR the sprite into the display, clipped at
/// the canvas edges, and report collisions in the flag register.
pub open spec fn spec_draw(pre: YARCH8, post: YARCH8, x: int, y: int, n: int) -> bool
    recommends
        pre.wf(),
        0 <= x < 16,
        0 <= y < 16,
{
    let xi = pre.v_regs@[x] as int % 64;
    let yi = pre.v_regs@[y] as int % 32;
    &&& unchanged_but_disp_regs(pre, post)
    &&& post.disp_buff@.len() == 2048
    &&& forall|p: int| 0 <= p < 2048 ==> post.disp_buff@[p] == draw_cell(pre, xi, yi, n, p)
    &&& post.v_regs@ == pre.v_regs@.update(
        15,
        if draw_collision(pre, xi, yi, n) {
            1u8
        } else {
            0u8
        },
    )
}

// ---------------------------------------------------------------------------
// Keypad wait
// ---------------------------------------------------------------------------
/// Some key in 0..=15 is pressed.
pub open spec fn has_pressed_key(keys: Seq<bool>) -> bool {
    exists|k: int| 0 <= k < 16 && keys[k]
}

/// `k` is the lowest-indexed pressed key.
pub open spec fn is_lowest_pressed(keys: Seq<bool>, k: int) -> bool {
    &&& 0 <= k < 16
    &&& keys[k]
    &&& forall|j: int| 0 <= j < k ==> !keys[j]
}

/// The key-wait instruction `FX0A`: with a key pressed, store the lowest
/// pressed index; with none, rewind the program counter so the instruction
/// re-executes next cycle.
pub open spec fn spec_key_wait(pre: YARCH8, post: YARCH8, x: int) -> bool {
    if has_pressed_key(pre.keys@) {
        exists|k: int| is_lowest_pressed(pre.keys@, k) && spec_set_reg(pre, post, x, k)
    } else {
        &&& unchanged_but_pc(pre, post)
        &&& post.pc == pre.pc - 2
    }
}

// ---------------------------------------------------------------------------
// The `FX..` family
// ---------------------------------------------------------------------------
/// The miscellaneous family `FXnn`.
pub open spec fn spec_fx(pre: YARCH8, post: YARCH8, ins: u16, now: u64) -> bool
    recommends
        pre.wf(),
{
    let x = x_of(ins);
    let nn = nn_of(ins);
    let vx = pre.v_regs@[x] as int;
    if nn == 0x07 {
        spec_set_reg(pre, post, x, pre.delay_timer as int)
    } else if nn == 0x0A {
        spec_key_wait(pre, post, x)
    } else if nn == 0x15 {
        &&& unchanged_but_timers(pre, post)
        &&& post.delay_timer == vx
        &&& post.delay_time_start == now
        &&& post.sound_timer == pre.sound_timer
        &&& post.sound_time_start == pre.sound_time_start
    } else if nn == 0x18 {
        &&& unchanged_but_timers(pre, post)
        &&& post.sound_timer == vx
        &&& post.sound_time_start == now
        &&& post.delay_timer == pre.delay_timer
        &&& post.delay_time_start == pre.delay_time_start
    } else if nn == 0x1E {
        spec_set_i(pre, post, wrap_addr(pre.i + vx))
    } else if nn == 0x29 {
        spec_set_i(pre, post, FONT_BASE + vx % 16 * 5)
    } else if nn == 0x33 {
        &&& unchanged_but_ram_i(pre, post)
        &&& post.i == pre.i
        &&& post.ram@ == pre.ram@.update(pre.i as int, (vx / 100) as u8).update(
            wrap_addr(pre.i + 1),
            (vx / 10 % 10) as u8,
        ).update(wrap_addr(pre.i + 2), (vx % 10) as u8)
    } else if nn == 0x55 {
        spec_store_regs(pre, post, x)
    } else {
        // nn == 0x65, by step_err
        spec_load_regs(pre, post, x)
    }
}

/// Where the index register stands after a block store/load of registers
/// 0..=x, under the configured quirk.
pub open spec fn index_after_block(pre: YARCH8, x: int) -> int {
    if pre.quirks.index == IndexBehavior::Increment {
        wrap_addr(pre.i + x + 1)
    } else {
        pre.i as int
    }
}

/// Block store `FX55`: registers 0..=x go to memory at the index register,
/// each address reduced to the 12-bit range.
pub open spec fn spec_store_regs(pre: YARCH8, post: YARCH8, x: int) -> bool
    recommends
        pre.wf(),
        0 <= x < 16,
{
    &&& unchanged_but_ram_i(pre, post)
    &&& post.i == index_after_block(pre, x)
    &&& post.ram@.len() == pre.ram@.len()
    &&& forall|k: int| 0 <= k <= x ==> post.ram@[wrap_addr(pre.i + k)] == pre.v_regs@[k]
    &&& forall|a: int|
        0 <= a < 4096 && (forall|k: int| 0 <= k <= x ==> a != #[trigger] wrap_addr(pre.i + k))
            ==> post.ram@[a] == pre.ram@[a]
}

/// Block load `FX65`: registers 0..=x are read back from memory at the index
/// register.
pub open spec fn spec_load_regs(pre: YARCH8, post: YARCH8, x: int) -> bool
    recommends
        pre.wf(),
        0 <= x < 16,
{
    &&& unchanged_but_regs_i(pre, post)
    &&& post.i == index_after_block(pre, x)
    &&& post.v_regs@.len() == 16
    &&& forall|k: int| 0 <= k <= x ==> post.v_regs@[k] == pre.ram@[wrap_addr(pre.i + k)]
    &&& forall|k: int| x < k < 16 ==> post.v_regs@[k] == pre.v_regs@[k]
}

// ---------------------------------------------------------------------------
// The step relation
// ---------------------------------------------------------------------------
/// The fatal condition a step on `ins` from `pre` hits, if any.
pub open spec fn step_err(pre: YARCH8, ins: u16) -> Option<EmuError> {
    let op = op_of(ins);
    let n = n_of(ins);
    let nn = nn_of(ins);
    if op == 0x0 {
        if nn == 0xE0 {
            None
        } else if nn == 0xEE {
            if pre.stack@.len() == 0 {
                Some(EmuError::StackUnderflow)
            } else {
                None
            }
        } else {
            Some(EmuError::UnimplementedOpcode)
        }
    } else if op == 0x2 {
        if pre.stack@.len() >= 16 {
            Some(EmuError::StackOverflow)
        } else {
            None
        }
    } else if op == 0x5 || op == 0x9 {
        if n == 0 {
            None
        } else {
            Some(EmuError::UnimplementedOpcode)
        }
    } else if op == 0x8 {
        if n == 0 || n == 1 || n == 2 || n == 3 || n == 4 || n == 5 || n == 6 || n == 7 || n
            == 0xE {
            None
        } else {
            Some(EmuError::UnimplementedOpcode)
        }
    } else if op == 0xE {
        if nn == 0x9E || nn == 0xA1 {
            None
        } else {
            Some(EmuError::UnimplementedOpcode)
        }
    } else if op == 0xF {
        if nn == 0x07 || nn == 0x0A || nn == 0x15 || nn == 0x18 || nn == 0x1E || nn == 0x29 || nn
            == 0x33 || nn == 0x55 || nn == 0x65 {
            None
        } else {
            Some(EmuError::UnimplementedOpcode)
        }
    } else {
        None
    }
}

/// How a successful step on `ins` relates the post-state to the pre-state.
/// `now` is the clock reading the step was given; only the timer-setting
/// instructions read it.
pub open spec fn step_spec(pre: YARCH8, post: YARCH8, ins: u16, now: u64) -> bool
    recommends
        pre.wf(),
        step_err(pre, ins) is None,
{
    let op = op_of(ins);
    let x = x_of(ins);
    let y = y_of(ins);
    let n = n_of(ins);
    let nn = nn_of(ins);
    let nnn = nnn_of(ins);
    let vx = pre.v_regs@[x] as int;
    let vy = pre.v_regs@[y] as int;
    if op == 0x0 {
        if nn == 0xE0 {
            spec_clear_screen(pre, post)
        } else {
            spec_ret(pre, post)
        }
    } else if op == 0x1 {
        spec_set_pc(pre, post, nnn)
    } else if op == 0x2 {
        spec_call(pre, post, nnn)
    } else if op == 0x3 {
        spec_skip(pre, post, vx == nn)
    } else if op == 0x4 {
        spec_skip(pre, post, vx != nn)
    } else if op == 0x5 {
        spec_skip(pre, post, vx == vy)
    } else if op == 0x6 {
        spec_set_reg(pre, post, x, nn)
    } else if op == 0x7 {
        spec_set_reg(pre, post, x, (vx + nn) % 256)
    } else if op == 0x8 {
        spec_alu(pre, post, x, y, n)
    } else if op == 0x9 {
        spec_skip(pre, post, vx != vy)
    } else if op == 0xA {
        spec_set_i(pre, post, nnn)
    } else if op == 0xB {
        spec_jump_offset(pre, post, ins)
    } else if op == 0xC {
        spec_random(pre, post, x, nn as u8)
    } else if op == 0xD {
        spec_draw(pre, post, x, y, n)
    } else if op == 0xE {
        if nn == 0x9E {
            spec_skip(pre, post, pre.keys@[vx % 16])
        } else {
            spec_skip(pre, post, !pre.keys@[vx % 16])
        }
    } else {
        spec_fx(pre, post, ins, now)
    }
}

} // verus!
