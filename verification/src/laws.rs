//! Laws of the execution engine, stated over the instruction step relation
//! that `Device::execute_with_input` is proved to implement.

use vstd::prelude::*;
use crate::device::{
    spec_draw_collision, spec_draw_frame, spec_first_pressed_from, spec_pc_back, sprite_bit,
    sprite_covers, step, DeviceView,
};
use crate::instruction::Instruction;
use crate::keyboard::spec_key_down;

verus! {

/// Setting a register then reading it yields the value written: for every
/// register index in 0..16 and every byte value, `SetRegister` stores
/// exactly that value in the named register.
pub proof fn lemma_set_register_roundtrip(
    d: DeviceView,
    x: usize,
    val: u8,
    b: u8,
    is_new_chip8: bool,
)
    requires
        d.wf(),
        x < 16,
    ensures
        step(d, Instruction::SetRegister(x, val), b, is_new_chip8).v[x as int] == val,
{
}

/// `Add(x, y)`: the flag register becomes 1 exactly when the true sum of
/// the two registers exceeds 255, and the destination receives the wrapped
/// sum. The flag is written after the sum, so when the destination is the
/// flag register itself the flag is what remains.
pub proof fn lemma_add_carry(d: DeviceView, x: usize, y: usize, b: u8, is_new_chip8: bool)
    requires
        d.wf(),
        x < 16,
        y < 16,
    ensures
        step(d, Instruction::Add(x, y), b, is_new_chip8).v[15] == (if d.v[x as int] + d.v[
            y as int
        ] > 255 {
            1u8
        } else {
            0u8
        }),
        x != 15 ==> step(d, Instruction::Add(x, y), b, is_new_chip8).v[x as int] == ((d.v[
            x as int
        ] + d.v[y as int]) % 256) as u8,
{
}

/// `Sub(x, y)`: the flag register becomes 1 exactly when no borrow occurs,
/// that is when `v[x] >= v[y]` before the subtraction, and the destination
/// receives the wrapped difference. The flag is written after the
/// difference, so when the destination is the flag register itself the flag
/// is what remains.
pub proof fn lemma_sub_borrow(d: DeviceView, x: usize, y: usize, b: u8, is_new_chip8: bool)
    requires
        d.wf(),
        x < 16,
        y < 16,
    ensures
        step(d, Instruction::Sub(x, y), b, is_new_chip8).v[15] == (if d.v[x as int] >= d.v[
            y as int
        ] {
            1u8
        } else {
            0u8
        }),
        x != 15 ==> step(d, Instruction::Sub(x, y), b, is_new_chip8).v[x as int] == ((d.v[
            x as int
        ] - d.v[y as int]) % 256) as u8,
{
}

/// The shift quirk: under the legacy behaviour `RShift(x, y)` first copies
/// `v[y]` into `v[x]` and then shifts, so the result is `v[y]` shifted and
/// the flag is the low bit of `v[y]`; under the updated behaviour the copy
/// is skipped and the instruction shifts `v[x]` itself.
pub proof fn lemma_right_shift_quirk(d: DeviceView, x: usize, y: usize, b: u8)
    requires
        d.wf(),
        x < 16,
        y < 16,
    ensures
        x != 15 ==> step(d, Instruction::RShift(x, y), b, false).v[x as int] == d.v[y as int] / 2,
        step(d, Instruction::RShift(x, y), b, false).v[15] == (if d.v[y as int] % 2 == 1 {
            1u8
        } else {
            0u8
        }),
        x != 15 ==> step(d, Instruction::RShift(x, y), b, true).v[x as int] == d.v[x as int] / 2,
        step(d, Instruction::RShift(x, y), b, true).v[15] == (if d.v[x as int] % 2 == 1 {
            1u8
        } else {
            0u8
        }),
{
}

/// Drawing the same sprite twice at the same location restores the prior
/// frame buffer exactly: drawing is XOR, and XOR is an involution.
pub proof fn lemma_draw_twice_restores(
    frame: Seq<bool>,
    mem: Seq<u8>,
    i: int,
    x: int,
    y: int,
    n: int,
)
    ensures
        spec_draw_frame(spec_draw_frame(frame, mem, i, x, y, n), mem, i, x, y, n) == frame,
{
    let f1 = spec_draw_frame(frame, mem, i, x, y, n);
    let f2 = spec_draw_frame(f1, mem, i, x, y, n);
    assert forall|p: int| 0 <= p < frame.len() implies f2[p] == frame[p] by {}
    assert(f2 =~= frame);
}

/// Sprite rows at or below the bottom edge of the screen are dropped, not
/// wrapped: a draw whose top row already lies past row 31 changes nothing
/// and reports no collision.
pub proof fn lemma_draw_below_screen_dropped(
    frame: Seq<bool>,
    mem: Seq<u8>,
    i: int,
    x: int,
    y: int,
    n: int,
)
    requires
        frame.len() == 2048,
        y >= 32,
    ensures
        spec_draw_frame(frame, mem, i, x, y, n) == frame,
        !spec_draw_collision(frame, mem, i, x, y, n),
{
    assert forall|p: int|
        #![trigger sprite_covers(x, y, n, p % 64, p / 64)]
        0 <= p < 2048 implies !sprite_covers(x, y, n, p % 64, p / 64) by {
        assert(0 <= p / 64 < 32) by (nonlinear_arith)
            requires
                0 <= p < 2048,
        ;
    }
    assert(spec_draw_frame(frame, mem, i, x, y, n) =~= frame);
}

/// The draw collision flag is set exactly when some pixel goes from set to
/// unset during the draw.
pub proof fn lemma_draw_collision_iff(
    frame: Seq<bool>,
    mem: Seq<u8>,
    i: int,
    x: int,
    y: int,
    n: int,
)
    ensures
        spec_draw_collision(frame, mem, i, x, y, n) <==> (exists|p: int|
            0 <= p < frame.len() && frame[p] && !spec_draw_frame(frame, mem, i, x, y, n)[p]),
{
    let f1 = spec_draw_frame(frame, mem, i, x, y, n);
    if spec_draw_collision(frame, mem, i, x, y, n) {
        let p = choose|p: int|
            0 <= p < frame.len() && frame[p] && sprite_covers(x, y, n, p % 64, p / 64)
                && sprite_bit(mem, i, x, y, p % 64, p / 64);
        assert(!f1[p]);
        assert(exists|q: int| 0 <= q < frame.len() && frame[q] && !f1[q]);
    }
    if exists|p: int| 0 <= p < frame.len() && frame[p] && !f1[p] {
        let p = choose|p: int| 0 <= p < frame.len() && frame[p] && !f1[p];
        assert(sprite_covers(x, y, n, p % 64, p / 64) && sprite_bit(mem, i, x, y, p % 64, p / 64));
        assert(spec_draw_collision(frame, mem, i, x, y, n));
    }
}


/// Each sprite bit lands by XOR, most significant bit first: inside the
/// drawn rectangle, the pixel at column `x + bcol` of sprite row `k` is the
/// prior pixel XORed with bit `7 - bcol` of the sprite byte for that row.
pub proof fn lemma_draw_pixel_formula(
    frame: Seq<bool>,
    mem: Seq<u8>,
    i: int,
    x: int,
    y: int,
    n: int,
    k: int,
    bcol: int,
)
    requires
        frame.len() == 2048,
        0 <= x,
        0 <= y,
        0 <= k < n,
        0 <= bcol < 8,
        y + k < 32,
        x + bcol < 64,
    ensures
        spec_draw_frame(frame, mem, i, x, y, n)[(y + k) * 64 + (x + bcol)] == (frame[(y + k) * 64
            + (x + bcol)] ^ sprite_bit(mem, i, x, y, x + bcol, y + k)),
{
    let p = (y + k) * 64 + (x + bcol);
    assert(p % 64 == x + bcol && p / 64 == y + k && 0 <= p < 2048) by (nonlinear_arith)
        requires
            0 <= x + bcol < 64,
            0 <= y + k < 32,
            p == (y + k) * 64 + (x + bcol),
    ;
    assert(sprite_covers(x, y, n, p % 64, p / 64));
}

/// A draw changes nothing outside its clipped rectangle: a pixel whose row
/// is not one of the sprite's rows, or whose column is not one of the
/// sprite's eight columns, keeps its state. Rows at or past the bottom edge
/// and columns past the right edge hold no pixels at all, so they are
/// dropped rather than wrapped; and the step relation for `Draw` leaves
/// memory, the stack and every register but the flag untouched.
pub proof fn lemma_draw_changes_only_rectangle(
    frame: Seq<bool>,
    mem: Seq<u8>,
    i: int,
    x: int,
    y: int,
    n: int,
    p: int,
)
    requires
        frame.len() == 2048,
        0 <= p < 2048,
        !(y <= p / 64 < y + n && x <= p % 64 < x + 8),
    ensures
        spec_draw_frame(frame, mem, i, x, y, n)[p] == frame[p],
{
}

proof fn lemma_clear_latch_no_key_from(k: int)
    requires
        0 <= k <= 16,
    ensures
        spec_first_pressed_from(0u16, k) is None,
    decreases 16 - k,
{
    if k < 16 {
        let kb = k as u8;
        assert(0u16 & (1u16 << kb) != (1u16 << kb)) by (bit_vector)
            requires
                kb < 16,
        ;
        lemma_clear_latch_no_key_from(k + 1);
    }
}

/// The key-wait instruction busy-polls: with no key down it rewinds the
/// program counter by one instruction and changes nothing else, so the same
/// instruction re-executes next cycle; with keys down it stores the lowest
/// pressed key in the destination register and leaves the program counter
/// alone.
pub proof fn lemma_get_key_busy_poll(d: DeviceView, x: usize, b: u8, is_new_chip8: bool)
    requires
        d.wf(),
        x < 16,
    ensures
        d.keys == 0 ==> step(d, Instruction::GetKey(x), b, is_new_chip8) == (DeviceView {
            pc: spec_pc_back(d.pc, 2),
            ..d
        }),
        (match spec_first_pressed_from(d.keys, 0) {
            Some(k) => spec_key_down(d.keys, k) && step(d, Instruction::GetKey(x), b, is_new_chip8)
                == (DeviceView { v: d.v.update(x as int, k), ..d }),
            None => step(d, Instruction::GetKey(x), b, is_new_chip8) == (DeviceView {
                pc: spec_pc_back(d.pc, 2),
                ..d
            }),
        }),
{
    if d.keys == 0 {
        lemma_clear_latch_no_key_from(0);
    }
    if spec_first_pressed_from(d.keys, 0) is Some {
        lemma_first_pressed_is_down(d.keys, 0);
    }
}

proof fn lemma_first_pressed_is_down(keys: u16, k: int)
    requires
        0 <= k <= 16,
    ensures
        (match spec_first_pressed_from(keys, k) {
            Some(j) => spec_key_down(keys, j),
            None => true,
        }),
    decreases 16 - k,
{
    if k < 16 && !spec_key_down(keys, k as u8) {
        lemma_first_pressed_is_down(keys, k + 1);
    }
}

} // verus!
