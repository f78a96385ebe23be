//! Laws of the machine, proved once and for all over the abstract model:
//! how the instruction effects compose.

use vstd::prelude::*;
use crate::model::{VmView, nnn_of, call_effect, return_effect};
use crate::sprite::{drawn_rows, lemma_drawn_rows_pix, lemma_drawn_rows_len, lemma_pix_eq, pix};

verus! {

/// Law: a subroutine call pushes exactly the current program counter and
/// jumps to the address operand; a subsequent return pops that address back
/// into the program counter and leaves the stack at its prior depth. The
/// state ends exactly as it was before the call.
pub proof fn lemma_call_then_return(s: VmView, op: u16)
    ensures
        call_effect(s, op).pc == nnn_of(op),
        call_effect(s, op).stack == s.stack.push(s.pc),
        return_effect(call_effect(s, op)) == s,
{
    assert(s.stack.push(s.pc).drop_last() =~= s.stack);
    assert(return_effect(call_effect(s, op)) =~= s);
}

/// Law: XOR compositing cancels itself: drawing the same sprite rows at the
/// same coordinate twice restores every pixel of the display, whatever part
/// of the sprite the grid clips away.
pub proof fn lemma_draw_self_cancel(d: Seq<bool>, mem: Seq<u8>, i: int, vx: int, vy: int, n: int)
    requires
        d.len() == 2048,
        0 <= vx,
        0 <= vy,
        0 <= n,
    ensures
        drawn_rows(drawn_rows(d, mem, i, vx, vy, n), mem, i, vx, vy, n) == d,
{
    let d1 = drawn_rows(d, mem, i, vx, vy, n);
    let d2 = drawn_rows(d1, mem, i, vx, vy, n);
    lemma_drawn_rows_len(d, mem, i, vx, vy, n);
    lemma_drawn_rows_len(d1, mem, i, vx, vy, n);
    assert forall|y: int, x: int| 0 <= y < 32 && 0 <= x < 64 implies #[trigger] pix(d2, y, x)
        == pix(d, y, x) by {
        lemma_drawn_rows_pix(d, mem, i, vx, vy, n, y, x);
        lemma_drawn_rows_pix(d1, mem, i, vx, vy, n, y, x);
    }
    lemma_pix_eq(d2, d);
}

} // verus!
