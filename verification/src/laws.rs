//! Laws of the instruction semantics: properties that hold for every input,
//! each proved from the step relation that `decode_execute` guarantees.

use vstd::prelude::*;

use crate::cpu::IndexBehavior;
use crate::cpu::ShiftBehavior;
use crate::cpu::YARCH8;
use crate::semantics::draw_target;
use crate::semantics::has_pressed_key;
use crate::semantics::is_lowest_pressed;
use crate::semantics::n_of;
use crate::semantics::nn_of;
use crate::semantics::op_of;
use crate::semantics::sprite_bit;
use crate::semantics::sprite_row;
use crate::semantics::step_err;
use crate::semantics::step_spec;
use crate::semantics::x_of;
use crate::semantics::y_of;

verus! {

/// `7XNN`: register X ends up at (old value + NN) mod 256, and the flag
/// register is untouched. The flag clause needs X itself not to be the flag
/// register: `7FNN` writes the sum into register 15.
pub proof fn lemma_add_immediate(pre: YARCH8, post: YARCH8, ins: u16, now: u64)
    requires
        pre.wf(),
        op_of(ins) == 0x7,
        x_of(ins) != 15,
        step_spec(pre, post, ins, now),
    ensures
        post.v_regs@[x_of(ins)] == (pre.v_regs@[x_of(ins)] + nn_of(ins)) % 256,
        post.v_regs@[15] == pre.v_regs@[15],
{
}

/// `8XY4`: the flag register is 1 exactly when the true sum reaches 256, and
/// register X holds the wrapped sum.
pub proof fn lemma_add_with_carry(pre: YARCH8, post: YARCH8, ins: u16, now: u64)
    requires
        pre.wf(),
        op_of(ins) == 0x8,
        n_of(ins) == 0x4,
        step_spec(pre, post, ins, now),
    ensures
        post.v_regs@[15] == (if pre.v_regs@[x_of(ins)] + pre.v_regs@[y_of(ins)] >= 256 {
            1u8
        } else {
            0u8
        }),
        x_of(ins) != 15 ==> post.v_regs@[x_of(ins)] == (pre.v_regs@[x_of(ins)] + pre.v_regs@[y_of(
            ins,
        )]) % 256,
{
}

/// `8XY5`: the flag register is 1 exactly when no borrow occurs (X >= Y),
/// and register X holds (X - Y) mod 256.
pub proof fn lemma_sub_no_borrow(pre: YARCH8, post: YARCH8, ins: u16, now: u64)
    requires
        pre.wf(),
        op_of(ins) == 0x8,
        n_of(ins) == 0x5,
        step_spec(pre, post, ins, now),
    ensures
        post.v_regs@[15] == (if pre.v_regs@[x_of(ins)] >= pre.v_regs@[y_of(ins)] {
            1u8
        } else {
            0u8
        }),
        x_of(ins) != 15 ==> post.v_regs@[x_of(ins)] == (pre.v_regs@[x_of(ins)] - pre.v_regs@[y_of(
            ins,
        )] + 256) % 256,
{
    let vx = pre.v_regs@[x_of(ins)] as int;
    let vy = pre.v_regs@[y_of(ins)] as int;
    if vx >= vy {
        vstd::arithmetic::div_mod::lemma_fundamental_div_mod_converse(vx - vy + 256, 256, 1, vx - vy);
    } else {
        vstd::arithmetic::div_mod::lemma_fundamental_div_mod_converse(
            vx - vy + 256,
            256,
            0,
            vx - vy + 256,
        );
    }
}

/// `8XY6` under the default shift behaviour: the flag register receives the
/// shifted-out low bit of register X, and register X the halved value.
pub proof fn lemma_shift_right(pre: YARCH8, post: YARCH8, ins: u16, now: u64)
    requires
        pre.wf(),
        op_of(ins) == 0x8,
        n_of(ins) == 0x6,
        pre.quirks.shift == ShiftBehavior::Modern,
        step_spec(pre, post, ins, now),
    ensures
        post.v_regs@[15] == pre.v_regs@[x_of(ins)] % 2,
        x_of(ins) != 15 ==> post.v_regs@[x_of(ins)] == pre.v_regs@[x_of(ins)] / 2,
{
}

/// `8XYE` under the default shift behaviour: the flag register receives the
/// shifted-out high bit of register X, and register X the doubled value
/// wrapped to 8 bits.
pub proof fn lemma_shift_left(pre: YARCH8, post: YARCH8, ins: u16, now: u64)
    requires
        pre.wf(),
        op_of(ins) == 0x8,
        n_of(ins) == 0xE,
        pre.quirks.shift == ShiftBehavior::Modern,
        step_spec(pre, post, ins, now),
    ensures
        post.v_regs@[15] == pre.v_regs@[x_of(ins)] / 128,
        x_of(ins) != 15 ==> post.v_regs@[x_of(ins)] == pre.v_regs@[x_of(ins)] * 2 % 256,
{
}

/// `DXYN` starting from a clear display: the drawn cells equal the sprite
/// bits exactly and the flag register is 0; drawing the identical sprite
/// again clears every cell and sets the flag register to 1 exactly when the
/// sprite has a bit set inside the drawn region. Registers X and Y must not
/// be the flag register, which the first draw overwrites.
pub proof fn lemma_draw_twice_restores(
    s0: YARCH8,
    s1: YARCH8,
    s2: YARCH8,
    ins: u16,
    t1: u64,
    t2: u64,
)
    requires
        s0.wf(),
        op_of(ins) == 0xD,
        x_of(ins) != 15,
        y_of(ins) != 15,
        forall|p: int| 0 <= p < 2048 ==> !s0.disp_buff@[p],
        step_spec(s0, s1, ins, t1),
        step_spec(s1, s2, ins, t2),
    ensures
        forall|p: int|
            0 <= p < 2048 ==> s1.disp_buff@[p] == (draw_target(
                s0.v_regs@[x_of(ins)] as int % 64,
                s0.v_regs@[y_of(ins)] as int % 32,
                n_of(ins),
                p / 64,
                p % 64,
            ) && sprite_bit(
                sprite_row(s0, s0.v_regs@[y_of(ins)] as int % 32, p / 64),
                p % 64 - s0.v_regs@[x_of(ins)] as int % 64,
            )),
        s1.v_regs@[15] == 0,
        forall|p: int| 0 <= p < 2048 ==> !s2.disp_buff@[p],
        s2.v_regs@[15] == 1 <==> (exists|p: int|
            0 <= p < 2048 && #[trigger] draw_target(
                s0.v_regs@[x_of(ins)] as int % 64,
                s0.v_regs@[y_of(ins)] as int % 32,
                n_of(ins),
                p / 64,
                p % 64,
            ) && sprite_bit(
                sprite_row(s0, s0.v_regs@[y_of(ins)] as int % 32, p / 64),
                p % 64 - s0.v_regs@[x_of(ins)] as int % 64,
            )),
{
    let x = x_of(ins);
    let y = y_of(ins);
    let n = n_of(ins);
    let xi = s0.v_regs@[x] as int % 64;
    let yi = s0.v_regs@[y] as int % 32;
    assert(!crate::semantics::draw_collision(s0, xi, yi, n)) by {
        if crate::semantics::draw_collision(s0, xi, yi, n) {
            let p = choose|p: int|
                0 <= p < 2048 && draw_target(xi, yi, n, p / 64, p % 64)
                    && #[trigger] s0.disp_buff@[p] && sprite_bit(
                    sprite_row(s0, yi, p / 64),
                    p % 64 - xi,
                );
            assert(!s0.disp_buff@[p]);
        }
    }
    assert(s1.v_regs@[x] == s0.v_regs@[x]);
    assert(s1.v_regs@[y] == s0.v_regs@[y]);
    assert(s1.ram@ == s0.ram@);
    assert(s1.i == s0.i);
    assert forall|p: int| 0 <= p < 2048 implies s1.disp_buff@[p] == (draw_target(
        xi,
        yi,
        n,
        p / 64,
        p % 64,
    ) && sprite_bit(sprite_row(s0, yi, p / 64), p % 64 - xi)) by {
        assert(s1.disp_buff@[p] == crate::semantics::draw_cell(s0, xi, yi, n, p));
    }
    assert forall|p: int| 0 <= p < 2048 implies !s2.disp_buff@[p] by {
        assert(s2.disp_buff@[p] == crate::semantics::draw_cell(s1, xi, yi, n, p));
        assert(sprite_row(s1, yi, p / 64) == sprite_row(s0, yi, p / 64));
    }
    if s2.v_regs@[15] == 1 {
        assert(crate::semantics::draw_collision(s1, xi, yi, n));
        let p = choose|p: int|
            0 <= p < 2048 && draw_target(xi, yi, n, p / 64, p % 64) && #[trigger] s1.disp_buff@[p]
                && sprite_bit(sprite_row(s1, yi, p / 64), p % 64 - xi);
        assert(sprite_row(s1, yi, p / 64) == sprite_row(s0, yi, p / 64));
        assert(0 <= p < 2048 && draw_target(xi, yi, n, p / 64, p % 64) && sprite_bit(
            sprite_row(s0, yi, p / 64),
            p % 64 - xi,
        ));
    }
    if exists|p: int|
        0 <= p < 2048 && #[trigger] draw_target(xi, yi, n, p / 64, p % 64) && sprite_bit(
            sprite_row(s0, yi, p / 64),
            p % 64 - xi,
        ) {
        let p = choose|p: int|
            0 <= p < 2048 && #[trigger] draw_target(xi, yi, n, p / 64, p % 64) && sprite_bit(
                sprite_row(s0, yi, p / 64),
                p % 64 - xi,
            );
        assert(s1.disp_buff@[p]);
        assert(sprite_row(s1, yi, p / 64) == sprite_row(s0, yi, p / 64));
        assert(0 <= p < 2048 && draw_target(xi, yi, n, p / 64, p % 64) && s1.disp_buff@[p]
            && sprite_bit(sprite_row(s1, yi, p / 64), p % 64 - xi));
        assert(crate::semantics::draw_collision(s1, xi, yi, n));
        assert(s2.v_regs@[15] == 1);
    }
}

/// `FX55` then `FX65` with the same X and the index register left unchanged
/// (the default quirk): loading back restores every register, so the whole
/// register file is as before the store.
pub proof fn lemma_store_load_round_trip(
    s0: YARCH8,
    s1: YARCH8,
    s2: YARCH8,
    store_ins: u16,
    load_ins: u16,
    t1: u64,
    t2: u64,
)
    requires
        s0.wf(),
        op_of(store_ins) == 0xF,
        nn_of(store_ins) == 0x55,
        op_of(load_ins) == 0xF,
        nn_of(load_ins) == 0x65,
        x_of(load_ins) == x_of(store_ins),
        s0.quirks.index == IndexBehavior::Unchanged,
        step_spec(s0, s1, store_ins, t1),
        step_spec(s1, s2, load_ins, t2),
    ensures
        forall|k: int| 0 <= k < 16 ==> s2.v_regs@[k] == s0.v_regs@[k],
{
    let x = x_of(store_ins);
    assert(s1.i == s0.i);
    assert forall|k: int| 0 <= k < 16 implies s2.v_regs@[k] == s0.v_regs@[k] by {
        if k <= x {
            assert(s1.ram@[crate::semantics::wrap_addr(s0.i + k)] == s0.v_regs@[k]);
            assert(s2.v_regs@[k] == s1.ram@[crate::semantics::wrap_addr(s1.i + k)]);
        } else {
            assert(s2.v_regs@[k] == s1.v_regs@[k]);
            assert(s1.v_regs@ == s0.v_regs@);
        }
    }
}

/// `FX0A` with no key pressed leaves the program counter two behind where
/// the fetch put it: together with the fetch's advance of exactly two, the
/// cycle is a net zero advance and the instruction re-executes.
pub proof fn lemma_key_wait_blocks(pre: YARCH8, post: YARCH8, ins: u16, now: u64)
    requires
        pre.wf(),
        op_of(ins) == 0xF,
        nn_of(ins) == 0x0A,
        !has_pressed_key(pre.keys@),
        step_spec(pre, post, ins, now),
    ensures
        post.pc == pre.pc - 2,
        post.v_regs@ == pre.v_regs@,
        post.ram@ == pre.ram@,
        post.disp_buff@ == pre.disp_buff@,
{
}

/// `FX0A` with keys pressed stores the lowest pressed index in register X
/// and advances normally.
pub proof fn lemma_key_wait_lowest(pre: YARCH8, post: YARCH8, ins: u16, now: u64, k: int)
    requires
        pre.wf(),
        op_of(ins) == 0xF,
        nn_of(ins) == 0x0A,
        is_lowest_pressed(pre.keys@, k),
        step_spec(pre, post, ins, now),
    ensures
        post.v_regs@[x_of(ins)] == k,
        post.pc == pre.pc,
{
    assert(has_pressed_key(pre.keys@)) by {
        assert(pre.keys@[k]);
    }
    let k2 = choose|k2: int|
        is_lowest_pressed(pre.keys@, k2) && crate::semantics::spec_set_reg(
            pre,
            post,
            x_of(ins),
            k2,
        );
    assert(k2 == k) by {
        if k2 < k {
            assert(!pre.keys@[k2]);
        }
        if k < k2 {
            assert(!pre.keys@[k]);
        }
    }
}

/// `2NNN` then `00EE`: returning restores the program counter to exactly
/// where it stood after the call instruction was fetched, so execution
/// resumes at the instruction after the call.
pub proof fn lemma_call_return_round_trip(
    s0: YARCH8,
    s1: YARCH8,
    s2: YARCH8,
    call_ins: u16,
    ret_ins: u16,
    t1: u64,
    t2: u64,
)
    requires
        s0.wf(),
        op_of(call_ins) == 0x2,
        step_err(s0, call_ins) is None,
        op_of(ret_ins) == 0x0,
        nn_of(ret_ins) == 0xEE,
        step_err(s1, ret_ins) is None,
        step_spec(s0, s1, call_ins, t1),
        step_spec(s1, s2, ret_ins, t2),
    ensures
        s2.pc == s0.pc,
        s2.stack@ == s0.stack@,
{
    assert(s1.stack@ == s0.stack@.push(s0.pc));
    assert(s2.stack@ =~= s0.stack@);
}

} // verus!

