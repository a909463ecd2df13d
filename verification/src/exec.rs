//! Decode and execute: the dispatch over the opcode families, each family
//! proved against its relation in [`crate::semantics`].

use vstd::prelude::*;

use crate::cpu::cleared_cells;
use crate::cpu::EmuError;
use crate::cpu::IndexBehavior;
use crate::cpu::JumpBehavior;
use crate::cpu::ShiftBehavior;
use crate::cpu::FONT_BASE;
use crate::cpu::YARCH8;
use crate::semantics::draw_cell;
use crate::semantics::draw_collision;
use crate::semantics::draw_target;
use crate::semantics::exec_frame;
use crate::semantics::has_pressed_key;
use crate::semantics::index_after_block;
use crate::semantics::is_lowest_pressed;
use crate::semantics::n_of;
use crate::semantics::nn_of;
use crate::semantics::nnn_of;
use crate::semantics::op_of;
use crate::semantics::same_state;
use crate::semantics::same_timers;
use crate::semantics::spec_clear_screen;
use crate::semantics::spec_draw;
use crate::semantics::spec_key_wait;
use crate::semantics::spec_load_regs;
use crate::semantics::spec_random;
use crate::semantics::spec_set_reg;
use crate::semantics::spec_store_regs;
use crate::semantics::sprite_bit;
use crate::semantics::sprite_row;
use crate::semantics::step_err;
use crate::semantics::step_spec;
use crate::semantics::wrap_addr;
use crate::semantics::x_of;
use crate::semantics::y_of;

verus! {

/// Relies on `rand::random`: a fresh random byte from the thread-local
/// generator. Nothing is assumed of the value.
#[verifier::external_body]
fn random_byte() -> u8 {
    rand::random()
}

/// Reduce a computed address to the 12-bit addressable range.
fn wrap_addr_exec(a: usize) -> (r: usize)
    requires
        a < 2 * 4096,
    ensures
        r == wrap_addr(a as int),
        r < 4096,
{
    if a < 4096 {
        a
    } else {
        a - 4096
    }
}

/// Bit `pos` of a sprite row byte, most significant bit first.
fn bit_at(b: u8, pos: usize) -> (r: bool)
    requires
        pos < 8,
    ensures
        r == sprite_bit(b, pos as int),
{
    match pos {
        0 => b / 128 % 2 == 1,
        1 => b / 64 % 2 == 1,
        2 => b / 32 % 2 == 1,
        3 => b / 16 % 2 == 1,
        4 => b / 8 % 2 == 1,
        5 => b / 4 % 2 == 1,
        6 => b / 2 % 2 == 1,
        _ => b % 2 == 1,
    }
}

// ---------------------------------------------------------------------------
// Intermediate states of a draw
// ---------------------------------------------------------------------------
/// Decompose a flat cell index into row and column.
proof fn lemma_cell_decomp(p: int)
    requires
        0 <= p < 2048,
    ensures
        p == (p / 64) * 64 + (p % 64),
        0 <= p % 64 < 64,
        0 <= p / 64 < 32,
{
    vstd::arithmetic::div_mod::lemma_fundamental_div_mod(p, 64);
    vstd::arithmetic::div_mod::lemma_mod_pos_bound(p, 64);
}

/// Recompose a row and column into a flat cell index.
proof fn lemma_cell_index(r: int, c: int)
    requires
        0 <= r < 32,
        0 <= c < 64,
    ensures
        (r * 64 + c) / 64 == r,
        (r * 64 + c) % 64 == c,
        0 <= r * 64 + c < 2048,
{
    vstd::arithmetic::div_mod::lemma_fundamental_div_mod_converse(r * 64 + c, 64, r, c);
}

/// A sprite bit of the row being drawn lands on a lit cell at column `c`.
spec fn row_hit(pre: YARCH8, xi: int, yi: int, layers: int, c: int) -> bool {
    &&& pre.disp_buff@[(yi + layers) * 64 + c]
    &&& sprite_bit(sprite_row(pre, yi, yi + layers), c - xi)
}

/// Collision state after `layers` full sprite rows and `cols` bits of the
/// next row have been composited.
spec fn collision_partial(pre: YARCH8, xi: int, yi: int, layers: int, cols: int) -> bool {
    ||| draw_collision(pre, xi, yi, layers)
    ||| exists|c: int| xi <= c < xi + cols && c < 64 && #[trigger] row_hit(pre, xi, yi, layers, c)
}

/// Cell `p` after `layers` full sprite rows and `cols` bits of the next row
/// have been composited.
spec fn draw_cell_partial(pre: YARCH8, xi: int, yi: int, layers: int, cols: int, p: int) -> bool {
    let r = p / 64;
    let c = p % 64;
    if draw_target(xi, yi, layers, r, c) {
        pre.disp_buff@[p] != sprite_bit(sprite_row(pre, yi, r), c - xi)
    } else if r == yi + layers && xi <= c < xi + cols {
        pre.disp_buff@[p] != sprite_bit(sprite_row(pre, yi, r), c - xi)
    } else {
        pre.disp_buff@[p]
    }
}

/// Processing one more bit of the current row adds exactly that column to
/// the collision condition.
proof fn lemma_collision_extend(pre: YARCH8, xi: int, yi: int, layers: int, cols: int)
    requires
        0 <= xi < 64,
        0 <= yi,
        yi + layers < 32,
        0 <= cols < 8,
        xi + cols < 64,
    ensures
        collision_partial(pre, xi, yi, layers, cols + 1) == (collision_partial(
            pre,
            xi,
            yi,
            layers,
            cols,
        ) || row_hit(pre, xi, yi, layers, xi + cols)),
{
    if collision_partial(pre, xi, yi, layers, cols + 1) {
        if !draw_collision(pre, xi, yi, layers) {
            let c = choose|c: int|
                xi <= c < xi + (cols + 1) && c < 64 && #[trigger] row_hit(pre, xi, yi, layers, c);
            if c < xi + cols {
                assert(collision_partial(pre, xi, yi, layers, cols));
            } else {
                assert(c == xi + cols);
                assert(row_hit(pre, xi, yi, layers, xi + cols));
            }
        }
    }
    if collision_partial(pre, xi, yi, layers, cols) || row_hit(pre, xi, yi, layers, xi + cols) {
        if row_hit(pre, xi, yi, layers, xi + cols) {
            assert(xi <= xi + cols < xi + (cols + 1) && xi + cols < 64 && row_hit(
                pre,
                xi,
                yi,
                layers,
                xi + cols,
            ));
            assert(collision_partial(pre, xi, yi, layers, cols + 1));
        } else if !draw_collision(pre, xi, yi, layers) {
            let c = choose|c: int|
                xi <= c < xi + cols && c < 64 && #[trigger] row_hit(pre, xi, yi, layers, c);
            assert(xi <= c < xi + (cols + 1) && c < 64 && row_hit(pre, xi, yi, layers, c));
            assert(collision_partial(pre, xi, yi, layers, cols + 1));
        }
    }
}

/// When a row has been composited to its clipped end, the partial state is
/// the state after one more full row.
proof fn lemma_row_done(pre: YARCH8, xi: int, yi: int, layers: int, cols: int)
    requires
        pre.wf(),
        0 <= xi < 64,
        0 <= yi,
        yi + layers < 32,
        0 <= layers,
        0 <= cols <= 8,
        cols == 8 || xi + cols == 64,
    ensures
        forall|p: int|
            0 <= p < 2048 ==> draw_cell_partial(pre, xi, yi, layers, cols, p) == draw_cell_partial(
                pre,
                xi,
                yi,
                layers + 1,
                0,
                p,
            ),
        collision_partial(pre, xi, yi, layers, cols) == collision_partial(
            pre,
            xi,
            yi,
            layers + 1,
            0,
        ),
{
    assert forall|p: int| 0 <= p < 2048 implies draw_cell_partial(pre, xi, yi, layers, cols, p)
        == draw_cell_partial(pre, xi, yi, layers + 1, 0, p) by {
        lemma_cell_decomp(p);
    }
    if collision_partial(pre, xi, yi, layers, cols) {
        if !draw_collision(pre, xi, yi, layers) {
            let c = choose|c: int|
                xi <= c < xi + cols && c < 64 && #[trigger] row_hit(pre, xi, yi, layers, c);
            let p = (yi + layers) * 64 + c;
            lemma_cell_index(yi + layers, c);
            assert(0 <= p < 2048 && draw_target(xi, yi, layers + 1, p / 64, p % 64)
                && pre.disp_buff@[p] && sprite_bit(sprite_row(pre, yi, p / 64), p % 64 - xi));
            assert(draw_collision(pre, xi, yi, layers + 1));
        } else {
            let p = choose|p: int|
                0 <= p < 2048 && draw_target(xi, yi, layers, p / 64, p % 64)
                    && #[trigger] pre.disp_buff@[p] && sprite_bit(
                    sprite_row(pre, yi, p / 64),
                    p % 64 - xi,
                );
            assert(draw_target(xi, yi, layers + 1, p / 64, p % 64));
            assert(draw_collision(pre, xi, yi, layers + 1));
        }
    }
    if draw_collision(pre, xi, yi, layers + 1) {
        let p = choose|p: int|
            0 <= p < 2048 && draw_target(xi, yi, layers + 1, p / 64, p % 64)
                && #[trigger] pre.disp_buff@[p] && sprite_bit(
                sprite_row(pre, yi, p / 64),
                p % 64 - xi,
            );
        lemma_cell_decomp(p);
        let r = p / 64;
        let c = p % 64;
        if r < yi + layers {
            assert(draw_target(xi, yi, layers, r, c));
            assert(draw_collision(pre, xi, yi, layers));
        } else {
            assert(r == yi + layers);
            assert(row_hit(pre, xi, yi, layers, c));
            assert(xi <= c < xi + cols && c < 64);
            assert(collision_partial(pre, xi, yi, layers, cols));
        }
    }
}

/// Once the next sprite row would fall below the canvas, the draw is done:
/// further rows change nothing.
proof fn lemma_rows_clipped(pre: YARCH8, xi: int, yi: int, layers: int, n: int)
    requires
        pre.wf(),
        0 <= xi < 64,
        0 <= yi,
        yi + layers >= 32,
        0 <= layers <= n,
    ensures
        forall|p: int|
            0 <= p < 2048 ==> draw_cell(pre, xi, yi, layers, p) == draw_cell(pre, xi, yi, n, p),
        draw_collision(pre, xi, yi, layers) == draw_collision(pre, xi, yi, n),
{
    assert forall|p: int| 0 <= p < 2048 implies draw_cell(pre, xi, yi, layers, p) == draw_cell(
        pre,
        xi,
        yi,
        n,
        p,
    ) by {
        lemma_cell_decomp(p);
    }
    if draw_collision(pre, xi, yi, layers) {
        let p = choose|p: int|
            0 <= p < 2048 && draw_target(xi, yi, layers, p / 64, p % 64)
                && #[trigger] pre.disp_buff@[p] && sprite_bit(
                sprite_row(pre, yi, p / 64),
                p % 64 - xi,
            );
        assert(draw_target(xi, yi, n, p / 64, p % 64));
        assert(draw_collision(pre, xi, yi, n));
    }
    if draw_collision(pre, xi, yi, n) {
        let p = choose|p: int|
            0 <= p < 2048 && draw_target(xi, yi, n, p / 64, p % 64) && #[trigger] pre.disp_buff@[p]
                && sprite_bit(sprite_row(pre, yi, p / 64), p % 64 - xi);
        lemma_cell_decomp(p);
        assert(draw_target(xi, yi, layers, p / 64, p % 64));
        assert(draw_collision(pre, xi, yi, layers));
    }
}

impl YARCH8 {
    /// Register index X of an instruction word.
    fn get_vx(&self, instruction: u16) -> (r: usize)
        ensures
            r == x_of(instruction),
            r < 16,
    {
        proof {
            assert((instruction & 0x0F00) >> 8 == (instruction / 0x100) % 16 && (instruction
                & 0x0F00) >> 8 < 16) by (bit_vector);
        }
        ((instruction & 0x0F00) >> 8) as usize
    }

    /// Register index Y of an instruction word.
    fn get_vy(&self, instruction: u16) -> (r: usize)
        ensures
            r == y_of(instruction),
            r < 16,
    {
        proof {
            assert((instruction & 0x00F0) >> 4 == (instruction / 0x10) % 16 && (instruction
                & 0x00F0) >> 4 < 16) by (bit_vector);
        }
        ((instruction & 0x00F0) >> 4) as usize
    }

    /// The 4-bit immediate of an instruction word.
    fn get_n(&self, instruction: u16) -> (r: u8)
        ensures
            r == n_of(instruction),
            r < 16,
    {
        proof {
            assert(instruction & 0x000F == instruction % 16 && instruction & 0x000F
                < 16) by (bit_vector);
        }
        (instruction & 0x000F) as u8
    }

    /// The 8-bit immediate of an instruction word.
    fn get_nn(&self, instruction: u16) -> (r: u8)
        ensures
            r == nn_of(instruction),
    {
        proof {
            assert(instruction & 0x00FF == instruction % 256 && instruction & 0x00FF
                < 256) by (bit_vector);
        }
        (instruction & 0x00FF) as u8
    }

    /// The 12-bit address of an instruction word.
    fn get_nnn(&self, instruction: u16) -> (r: u16)
        ensures
            r == nnn_of(instruction),
            r < 0x1000,
    {
        proof {
            assert(instruction & 0x0FFF == instruction % 0x1000 && instruction & 0x0FFF
                < 0x1000) by (bit_vector);
        }
        instruction & 0x0FFF
    }

    /// Clear the screen (`00E0`).
    fn exec_clear(&mut self)
        requires
            old(self).wf(),
        ensures
            final(self).wf(),
            spec_clear_screen(*old(self), *final(self)),
    {
        self.disp_buff = cleared_cells(2048);
    }

    /// Key wait (`FX0A`): store the lowest pressed key, or rewind the program
    /// counter so the instruction re-executes next cycle.
    fn exec_key_wait(&mut self, x: usize)
        requires
            old(self).wf(),
            old(self).pc >= 2,
            x < 16,
        ensures
            final(self).wf(),
            spec_key_wait(*old(self), *final(self), x as int),
    {
        let ghost pre = *old(self);
        let mut k: usize = 0;
        while k < 16
            invariant
                pre == *old(self),
                same_state(pre, *self),
                pre.wf(),
                pre.pc >= 2,
                x < 16,
                k <= 16,
                forall|j: int| 0 <= j < k ==> !pre.keys@[j],
            decreases 16 - k,
        {
            if self.keys[k] {
                self.v_regs[x] = k as u8;
                proof {
                    assert(pre.keys@[k as int]);
                    assert(has_pressed_key(pre.keys@));
                    assert(is_lowest_pressed(pre.keys@, k as int));
                    assert(self.v_regs@ == pre.v_regs@.update(x as int, k as u8));
                    assert(spec_set_reg(pre, *self, x as int, k as int));
                    assert(spec_key_wait(pre, *self, x as int));
                }
                return ;
            }
            k = k + 1;
        }
        self.pc = self.pc - 2;
    }

    /// Draw (`DXYN`): XOR a sprite of height `n` into the display at the
    /// position in registers `x` and `y`, clipping at the canvas edges, and
    /// set the flag register to 1 exactly when a sprite bit lands on a lit
    /// cell.
    fn exec_draw(&mut self, x: usize, y: usize, n: usize)
        requires
            old(self).wf(),
            x < 16,
            y < 16,
            n < 16,
        ensures
            final(self).wf(),
            spec_draw(*old(self), *final(self), x as int, y as int, n as int),
    {
        let ghost pre = *old(self);
        let xi: usize = (self.v_regs[x] as usize) % 64;
        let yi: usize = (self.v_regs[y] as usize) % 32;
        self.v_regs[15] = 0;
        proof {
            assert(!draw_collision(pre, xi as int, yi as int, 0));
        }
        let mut layer: usize = 0;
        while layer < n && yi + layer < 32
            invariant
                pre == *old(self),
                pre.wf(),
                x < 16,
                y < 16,
                n < 16,
                xi == pre.v_regs@[x as int] as int % 64,
                xi < 64,
                yi == pre.v_regs@[y as int] as int % 32,
                yi < 32,
                layer <= n,
                self.pc == pre.pc,
                self.i == pre.i,
                self.ram@ == pre.ram@,
                self.stack@ == pre.stack@,
                same_timers(pre, *self),
                exec_frame(pre, *self),
                self.v_regs@.len() == 16,
                self.v_regs@ == pre.v_regs@.update(15, self.v_regs@[15]),
                self.v_regs@[15] == (if draw_collision(pre, xi as int, yi as int, layer as int) {
                    1u8
                } else {
                    0u8
                }),
                self.disp_buff@.len() == 2048,
                forall|p: int|
                    0 <= p < 2048 ==> self.disp_buff@[p] == draw_cell(
                        pre,
                        xi as int,
                        yi as int,
                        layer as int,
                        p,
                    ),
            decreases n - layer,
        {
            let ghost layers = layer as int;
            let yrow: usize = yi + layer;
            let sprite: u8 = self.ram[wrap_addr_exec(self.i as usize + layer)];
            proof {
                assert(sprite == sprite_row(pre, yi as int, yrow as int));
            }
            let mut bit: usize = 0;
            while bit < 8 && xi + bit < 64
                invariant
                    pre == *old(self),
                    pre.wf(),
                    x < 16,
                    y < 16,
                    n < 16,
                    xi == pre.v_regs@[x as int] as int % 64,
                    xi < 64,
                    yi == pre.v_regs@[y as int] as int % 32,
                    yi < 32,
                    layer < n,
                    layers == layer as int,
                    yrow == yi + layer,
                    yrow < 32,
                    sprite == sprite_row(pre, yi as int, yrow as int),
                    bit <= 8,
                    xi + bit <= 64,
                    self.pc == pre.pc,
                    self.i == pre.i,
                    self.ram@ == pre.ram@,
                    self.stack@ == pre.stack@,
                    same_timers(pre, *self),
                    exec_frame(pre, *self),
                    self.v_regs@.len() == 16,
                    self.v_regs@ == pre.v_regs@.update(15, self.v_regs@[15]),
                    self.v_regs@[15] == (if collision_partial(
                        pre,
                        xi as int,
                        yi as int,
                        layers,
                        bit as int,
                    ) {
                        1u8
                    } else {
                        0u8
                    }),
                    self.disp_buff@.len() == 2048,
                    forall|p: int|
                        0 <= p < 2048 ==> self.disp_buff@[p] == draw_cell_partial(
                            pre,
                            xi as int,
                            yi as int,
                            layers,
                            bit as int,
                            p,
                        ),
                decreases 8 - bit,
            {
                let col: usize = xi + bit;
                let p0: usize = yrow * 64 + col;
                proof {
                    lemma_cell_index(yrow as int, col as int);
                }
                let b = bit_at(sprite, bit);
                let prev = self.disp_buff[p0];
                proof {
                    assert(draw_cell_partial(pre, xi as int, yi as int, layers, bit as int, p0 as int)
                        == pre.disp_buff@[p0 as int]);
                    assert(prev == pre.disp_buff@[p0 as int]);
                }
                if b && prev {
                    self.v_regs[15] = 1;
                }
                self.disp_buff[p0] = b ^ prev;
                proof {
                    let ghost xii = xi as int;
                    let ghost yii = yi as int;
                    lemma_collision_extend(pre, xii, yii, layers, bit as int);
                    assert(row_hit(pre, xii, yii, layers, col as int) == (prev && b));
                    assert(self.v_regs@[15] == (if collision_partial(
                        pre,
                        xii,
                        yii,
                        layers,
                        bit + 1,
                    ) {
                        1u8
                    } else {
                        0u8
                    }));
                    assert forall|p: int| 0 <= p < 2048 implies self.disp_buff@[p]
                        == draw_cell_partial(pre, xii, yii, layers, bit + 1, p) by {
                        lemma_cell_decomp(p);
                        if p == p0 as int {
                            assert(self.disp_buff@[p] == (b ^ prev));
                            assert(draw_cell_partial(pre, xii, yii, layers, bit + 1, p) == (
                            pre.disp_buff@[p] != b));
                        }
                    }
                }
                bit = bit + 1;
            }
            proof {
                let ghost xii = xi as int;
                let ghost yii = yi as int;
                lemma_row_done(pre, xii, yii, layers, bit as int);
                assert(collision_partial(pre, xii, yii, layers + 1, 0) == draw_collision(
                    pre,
                    xii,
                    yii,
                    layers + 1,
                ));
                assert forall|p: int| 0 <= p < 2048 implies self.disp_buff@[p] == draw_cell(
                    pre,
                    xii,
                    yii,
                    layers + 1,
                    p,
                ) by {
                    assert(self.disp_buff@[p] == draw_cell_partial(pre, xii, yii, layers, bit as int, p));
                    assert(draw_cell_partial(pre, xii, yii, layers + 1, 0, p) == draw_cell(
                        pre,
                        xii,
                        yii,
                        layers + 1,
                        p,
                    ));
                }
            }
            layer = layer + 1;
        }
        proof {
            if layer < n {
                lemma_rows_clipped(pre, xi as int, yi as int, layer as int, n as int);
            }
            assert(final(self).v_regs@ == pre.v_regs@.update(
                15,
                if draw_collision(pre, xi as int, yi as int, n as int) {
                    1u8
                } else {
                    0u8
                },
            ));
        }
    }

    /// Decode the fetched instruction word and execute it: the dispatch over
    /// the opcode families.
    ///
    /// On success the new state is related to the old by
    /// [`step_spec`](crate::semantics::step_spec); on a fatal condition
    /// ([`step_err`](crate::semantics::step_err)) the state is unchanged and
    /// the error says which condition was hit. The program counter must be
    /// where a fetch just left it: past the instruction, within the
    /// addressable region.
    pub fn decode_execute(&mut self, instruction: u16, now: u64) -> (r: Result<(), EmuError>)
        requires
            old(self).wf(),
            2 <= old(self).pc <= 0x1000,
        ensures
            final(self).wf(),
            match r {
                Ok(()) => step_err(*old(self), instruction) is None && step_spec(
                    *old(self),
                    *final(self),
                    instruction,
                    now,
                ),
                Err(e) => step_err(*old(self), instruction) == Some(e) && same_state(
                    *old(self),
                    *final(self),
                ),
            },
    {
        let ghost pre = *old(self);
        let vx: usize = self.get_vx(instruction);
        let vy: usize = self.get_vy(instruction);
        let nnn: u16 = self.get_nnn(instruction);
        let nn: u8 = self.get_nn(instruction);
        let n: u8 = self.get_n(instruction);

        let op: u16 = instruction / 0x1000;
        proof {
            assert(instruction as int / 0x1000 < 16) by (nonlinear_arith)
                requires
                    instruction <= 65535,
            ;
        }
        match op {
            0x0 => {
                if nn == 0xE0 {
                    self.exec_clear();
                    Ok(())
                } else if nn == 0xEE {
                    if self.stack.len() == 0 {
                        return Err(EmuError::StackUnderflow);
                    }
                    let addr: u16 = self.stack[self.stack.len() - 1];
                    self.stack.pop();
                    self.pc = addr;
                    Ok(())
                } else {
                    Err(EmuError::UnimplementedOpcode)
                }
            },
            0x1 => {
                self.pc = nnn;
                Ok(())
            },
            0x2 => {
                if self.stack.len() >= 16 {
                    return Err(EmuError::StackOverflow);
                }
                self.stack.push(self.pc);
                self.pc = nnn;
                Ok(())
            },
            0x3 => {
                if self.v_regs[vx] == nn {
                    self.pc = self.pc + 2;
                }
                Ok(())
            },
            0x4 => {
                if self.v_regs[vx] != nn {
                    self.pc = self.pc + 2;
                }
                Ok(())
            },
            0x5 => {
                if n != 0 {
                    return Err(EmuError::UnimplementedOpcode);
                }
                if self.v_regs[vx] == self.v_regs[vy] {
                    self.pc = self.pc + 2;
                }
                Ok(())
            },
            0x6 => {
                self.v_regs[vx] = nn;
                Ok(())
            },
            0x7 => {
                let sum: u16 = self.v_regs[vx] as u16 + nn as u16;
                self.v_regs[vx] = (sum % 256) as u8;
                Ok(())
            },
            0x8 => self.exec_alu(instruction, vx, vy, n, now),
            0x9 => {
                if n != 0 {
                    return Err(EmuError::UnimplementedOpcode);
                }
                if self.v_regs[vx] != self.v_regs[vy] {
                    self.pc = self.pc + 2;
                }
                Ok(())
            },
            0xA => {
                self.i = nnn;
                Ok(())
            },
            0xB => {
                let base: u16 = if self.quirks.jump == JumpBehavior::Superchip {
                    self.v_regs[vx] as u16
                } else {
                    self.v_regs[0] as u16
                };
                self.pc = wrap_addr_exec((nnn + base) as usize) as u16;
                Ok(())
            },
            0xC => {
                let nonce: u8 = random_byte();
                self.v_regs[vx] = nonce & nn;
                proof {
                    assert(self.v_regs@ == pre.v_regs@.update(vx as int, nonce & nn));
                    assert(spec_random(pre, *self, vx as int, nn));
                }
                Ok(())
            },
            0xD => {
                self.exec_draw(vx, vy, n as usize);
                Ok(())
            },
            0xE => {
                if nn == 0x9E {
                    if self.keys[(self.v_regs[vx] % 16) as usize] {
                        self.pc = self.pc + 2;
                    }
                    Ok(())
                } else if nn == 0xA1 {
                    if !self.keys[(self.v_regs[vx] % 16) as usize] {
                        self.pc = self.pc + 2;
                    }
                    Ok(())
                } else {
                    Err(EmuError::UnimplementedOpcode)
                }
            },
            _ => {
                proof {
                    assert(op_of(instruction) == 0xF);
                }
                self.exec_fx(instruction, vx, nn, now)
            },
        }
    }

    /// The register-register ALU family (`8XYn`).
    #[verifier::rlimit(60)]
    fn exec_alu(&mut self, instruction: u16, vx: usize, vy: usize, n: u8, now: u64) -> (r: Result<
        (),
        EmuError,
    >)
        requires
            old(self).wf(),
            vx == x_of(instruction),
            vy == y_of(instruction),
            n == n_of(instruction),
            op_of(instruction) == 8,
        ensures
            final(self).wf(),
            match r {
                Ok(()) => step_err(*old(self), instruction) is None && step_spec(
                    *old(self),
                    *final(self),
                    instruction,
                    now,
                ),
                Err(e) => step_err(*old(self), instruction) == Some(e) && same_state(
                    *old(self),
                    *final(self),
                ),
            },
    {
        let a: u8 = self.v_regs[vx];
        let b: u8 = self.v_regs[vy];
        match n {
            0 => {
                self.v_regs[vx] = b;
                Ok(())
            },
            1 => {
                self.v_regs[vx] = a | b;
                Ok(())
            },
            2 => {
                self.v_regs[vx] = a & b;
                Ok(())
            },
            3 => {
                self.v_regs[vx] = a ^ b;
                Ok(())
            },
            4 => {
                let sum: u16 = a as u16 + b as u16;
                self.v_regs[vx] = (sum % 256) as u8;
                self.v_regs[15] = if sum > 255 {
                    1
                } else {
                    0
                };
                Ok(())
            },
            5 => {
                if a >= b {
                    self.v_regs[vx] = a - b;
                    self.v_regs[15] = 1;
                } else {
                    self.v_regs[vx] = ((a as u16 + 256 - b as u16) % 256) as u8;
                    self.v_regs[15] = 0;
                }
                Ok(())
            },
            6 => {
                let src: u8 = if self.quirks.shift == ShiftBehavior::Legacy {
                    b
                } else {
                    a
                };
                self.v_regs[vx] = src / 2;
                self.v_regs[15] = src % 2;
                Ok(())
            },
            7 => {
                if b >= a {
                    self.v_regs[vx] = b - a;
                    self.v_regs[15] = 1;
                } else {
                    self.v_regs[vx] = ((b as u16 + 256 - a as u16) % 256) as u8;
                    self.v_regs[15] = 0;
                }
                Ok(())
            },
            0xE => {
                let src: u8 = if self.quirks.shift == ShiftBehavior::Legacy {
                    b
                } else {
                    a
                };
                self.v_regs[vx] = ((src as u16 * 2) % 256) as u8;
                self.v_regs[15] = src / 128;
                Ok(())
            },
            _ => Err(EmuError::UnimplementedOpcode),
        }
    }

    /// The miscellaneous family (`FXnn`).
    fn exec_fx(&mut self, instruction: u16, vx: usize, nn: u8, now: u64) -> (r: Result<
        (),
        EmuError,
    >)
        requires
            old(self).wf(),
            2 <= old(self).pc,
            vx == x_of(instruction),
            nn == nn_of(instruction),
            op_of(instruction) == 0xF,
        ensures
            final(self).wf(),
            match r {
                Ok(()) => step_err(*old(self), instruction) is None && step_spec(
                    *old(self),
                    *final(self),
                    instruction,
                    now,
                ),
                Err(e) => step_err(*old(self), instruction) == Some(e) && same_state(
                    *old(self),
                    *final(self),
                ),
            },
    {
        match nn {
            0x07 => {
                self.v_regs[vx] = self.delay_timer;
                Ok(())
            },
            0x0A => {
                self.exec_key_wait(vx);
                Ok(())
            },
            0x15 => {
                self.delay_timer = self.v_regs[vx];
                self.delay_time_start = now;
                Ok(())
            },
            0x18 => {
                self.sound_timer = self.v_regs[vx];
                self.sound_time_start = now;
                Ok(())
            },
            0x1E => {
                let next = wrap_addr_exec(self.i as usize + self.v_regs[vx] as usize);
                self.i = next as u16;
                Ok(())
            },
            0x29 => {
                self.i = FONT_BASE + (self.v_regs[vx] as u16 % 16) * 5;
                Ok(())
            },
            0x33 => {
                let value: u8 = self.v_regs[vx];
                let base: usize = self.i as usize;
                self.ram[base] = value / 100;
                let tens_addr = wrap_addr_exec(base + 1);
                self.ram[tens_addr] = value / 10 % 10;
                let units_addr = wrap_addr_exec(base + 2);
                self.ram[units_addr] = value % 10;
                Ok(())
            },
            0x55 => {
                self.exec_store_regs(vx);
                Ok(())
            },
            0x65 => {
                self.exec_load_regs(vx);
                Ok(())
            },
            _ => Err(EmuError::UnimplementedOpcode),
        }
    }

    /// Block store (`FX55`): registers 0..=x to memory at the index register.
    fn exec_store_regs(&mut self, x: usize)
        requires
            old(self).wf(),
            x < 16,
        ensures
            final(self).wf(),
            spec_store_regs(*old(self), *final(self), x as int),
    {
        let ghost pre = *old(self);
        let base: usize = self.i as usize;
        let mut k: usize = 0;
        while k <= x
            invariant
                pre.wf(),
                x < 16,
                k <= x + 1,
                base == pre.i as int,
                self.ram@.len() == 4096,
                forall|j: int| 0 <= j < k ==> self.ram@[#[trigger] wrap_addr(pre.i + j)]
                    == pre.v_regs@[j],
                forall|a: int|
                    0 <= a < 4096 && (forall|j: int| 0 <= j < k ==> a != #[trigger] wrap_addr(
                        pre.i + j,
                    )) ==> self.ram@[a] == pre.ram@[a],
                self.pc == pre.pc,
                self.i == pre.i,
                self.v_regs@ == pre.v_regs@,
                self.stack@ == pre.stack@,
                self.disp_buff@ == pre.disp_buff@,
                same_timers(pre, *self),
                exec_frame(pre, *self),
            decreases x + 1 - k,
        {
            let addr = wrap_addr_exec(base + k);
            self.ram[addr] = self.v_regs[k];
            k = k + 1;
        }
        if self.quirks.index == IndexBehavior::Increment {
            let next = wrap_addr_exec(base + x + 1);
            self.i = next as u16;
        }
    }

    /// Block load (`FX65`): registers 0..=x back from memory at the index
    /// register.
    fn exec_load_regs(&mut self, x: usize)
        requires
            old(self).wf(),
            x < 16,
        ensures
            final(self).wf(),
            spec_load_regs(*old(self), *final(self), x as int),
    {
        let ghost pre = *old(self);
        let base: usize = self.i as usize;
        let mut k: usize = 0;
        while k <= x
            invariant
                pre.wf(),
                x < 16,
                k <= x + 1,
                base == pre.i as int,
                self.v_regs@.len() == 16,
                forall|j: int| 0 <= j < k ==> self.v_regs@[j] == pre.ram@[#[trigger] wrap_addr(
                    pre.i + j,
                )],
                forall|j: int| k <= j < 16 ==> self.v_regs@[j] == pre.v_regs@[j],
                self.pc == pre.pc,
                self.i == pre.i,
                self.ram@ == pre.ram@,
                self.stack@ == pre.stack@,
                self.disp_buff@ == pre.disp_buff@,
                same_timers(pre, *self),
                exec_frame(pre, *self),
            decreases x + 1 - k,
        {
            let addr = wrap_addr_exec(base + k);
            self.v_regs[k] = self.ram[addr];
            k = k + 1;
        }
        if self.quirks.index == IndexBehavior::Increment {
            let next = wrap_addr_exec(base + x + 1);
            self.i = next as u16;
        }
    }
}

} // verus!
