//! General facts about the interpreter, proved once and for all from
//! the model in [`crate::model`].

use vstd::prelude::*;

use crate::model::{
    add_spec, display_op_spec, draw_oob, draw_origin_x, draw_origin_y, fetch_oob, fetched_word,
    get_key_spec, lemma_decode_bounds, lemma_sprite_bit_bound, lemma_system_words, lemma_xor_bit,
    n_of, nn_of, op_of, plotted_bit, step_spec, subroutine_call_spec, subroutine_ret_spec,
    x_of, y_of, Chip8Error, MachineView,
};

verus! {

/// `7xnn` applied twice accumulates modulo 256, and every register
/// other than the target — the flag register among them — is left
/// untouched.
pub proof fn lemma_add_twice(m: MachineView, inst: u16)
    requires
        m.wf(),
    ensures
        add_spec(add_spec(m, inst), inst).regs[x_of(inst)] as int == (m.regs[x_of(inst)] + 2
            * nn_of(inst)) % 256,
        forall|j: int|
            0 <= j < 16 && j != x_of(inst) ==> add_spec(add_spec(m, inst), inst).regs[j]
                == m.regs[j],
{
    lemma_decode_bounds(inst);
}

/// A subroutine call followed by a return restores the machine exactly:
/// the program counter is back at the instruction after the call (the
/// counter had already advanced past the call word when it was pushed)
/// and the stack is as it was.
pub proof fn lemma_call_ret_round_trip(m: MachineView, inst: u16)
    ensures
        subroutine_ret_spec(subroutine_call_spec(m, inst)) == m,
{
    assert(m.stack.push(m.pc).drop_last() =~= m.stack);
}

/// Clipping: a draw never touches a cell outside the clipped sprite
/// rectangle.  A cell's column is its index modulo 64, so columns past
/// 63 do not exist and nothing wraps to the next row.
pub proof fn lemma_draw_clips(m: MachineView, inst: u16, p: int)
    requires
        m.wf(),
        !draw_oob(m, inst),
        0 <= p < 2048,
        !(draw_origin_y(m, inst) <= p / 64 < draw_origin_y(m, inst) + n_of(inst)
            && draw_origin_x(m, inst) <= p % 64 < draw_origin_x(m, inst) + 8),
    ensures
        display_op_spec(m, inst)->Ok_0.display[p] == m.display[p],
{
}

/// Drawing the same non-empty sprite at the same location twice on a
/// cleared framebuffer leaves the framebuffer cleared (the second XOR
/// cancels the first) and sets the flag register to 1 on the second
/// draw.  The operand registers must not be the flag register itself,
/// which the first draw overwrites.
pub proof fn lemma_draw_twice(m: MachineView, inst: u16)
    requires
        m.wf(),
        !draw_oob(m, inst),
        x_of(inst) != 15,
        y_of(inst) != 15,
        forall|p: int| 0 <= p < 2048 ==> m.display[p] == 0,
        exists|p: int|
            0 <= p < 2048 && (#[trigger] plotted_bit(
                m,
                draw_origin_x(m, inst),
                draw_origin_y(m, inst),
                n_of(inst),
                p,
            )) == 1,
    ensures
        display_op_spec(m, inst) is Ok,
        display_op_spec(display_op_spec(m, inst)->Ok_0, inst) is Ok,
        forall|p: int|
            0 <= p < 2048 ==> display_op_spec(
                display_op_spec(m, inst)->Ok_0,
                inst,
            )->Ok_0.display[p] == 0,
        display_op_spec(display_op_spec(m, inst)->Ok_0, inst)->Ok_0.regs[15] == 1,
{
    lemma_decode_bounds(inst);
    let gx = draw_origin_x(m, inst);
    let gy = draw_origin_y(m, inst);
    let gn = n_of(inst);
    let m1 = display_op_spec(m, inst)->Ok_0;

    assert(m1.regs[x_of(inst)] == m.regs[x_of(inst)]);
    assert(m1.regs[y_of(inst)] == m.regs[y_of(inst)]);
    assert(draw_origin_x(m1, inst) == gx && draw_origin_y(m1, inst) == gy);
    assert(!draw_oob(m1, inst));

    let m2 = display_op_spec(m1, inst)->Ok_0;

    assert forall|p: int|
        0 <= p < 2048 implies #[trigger] plotted_bit(m1, gx, gy, gn, p) == plotted_bit(
        m,
        gx,
        gy,
        gn,
        p,
    ) && plotted_bit(m, gx, gy, gn, p) <= 1 by {
        lemma_sprite_bit_bound(m.memory[m.index + (p / 64 - gy)], (7 - (p % 64 - gx)) as u8);
    };

    assert forall|p: int| 0 <= p < 2048 implies m2.display[p] == 0 by {
        let bit = plotted_bit(m, gx, gy, gn, p);
        assert(plotted_bit(m1, gx, gy, gn, p) == bit && bit <= 1);
        lemma_xor_bit(m.display[p], bit);
        lemma_xor_bit(m1.display[p], bit);
    };

    let p0 = choose|p: int|
        0 <= p < 2048 && (#[trigger] plotted_bit(m, gx, gy, gn, p)) == 1;
    lemma_xor_bit(m.display[p0], 1);
    assert(m1.display[p0] == 1);
    assert(0 <= p0 < 2048 && m1.display[p0] == 1 && plotted_bit(m1, gx, gy, gn, p0) == 1);
}

/// A key-wait instruction with no key pressed leaves the whole machine
/// unchanged: the fetch advances the program counter by 2 and the
/// operation rewinds it by 2, so the same instruction re-executes on
/// every following step until a key becomes available.
pub proof fn lemma_key_wait_repeats(m: MachineView, b: u8)
    requires
        m.wf(),
        m.key_pressed is None,
        !fetch_oob(m),
        op_of(fetched_word(m)) == 0xf,
        nn_of(fetched_word(m)) == 0x0a,
    ensures
        step_spec(m, b) == Result::<MachineView, Chip8Error>::Ok(m),
{
    lemma_system_words();
    let w = fetched_word(m);
    let m1 = MachineView { pc: (m.pc + 2) as u16, ..m };
    assert(get_key_spec(m1, w) == m);
}

} // verus!
