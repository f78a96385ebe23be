//! Sprite drawing: the per-pixel XOR-compositing semantics of the display,
//! stated over the flattened 64-wide row-major pixel sequence, and the
//! lemmas that connect the row-by-row drawing order to that statement.
//!
//! The sprite's top-left corner comes from the register values `v[x]` and
//! `v[y]`, which range over 0..=255; the chosen and documented out-of-range
//! policy is clipping: bits that would land beyond column 63 and rows that
//! would land beyond row 31 are dropped, with no wraparound, and clipped
//! pixels take no part in collision detection.

use vstd::prelude::*;
use crate::model::{VmView, VmError, x_of, y_of, n_of, lemma_operand_bounds};
use crate::vm::Chip8;

verus! {

/// Pixel `(x, y)` of the flattened row-major display.
pub open spec fn pix(d: Seq<bool>, y: int, x: int) -> bool {
    d[y * 64 + x]
}

/// Bit `b` of a sprite row byte, most significant bit first.
pub open spec fn sprite_bit(byte: u8, b: int) -> bool {
    (byte >> ((7 - b) as u8)) & 1 == 1
}

/// How many of a row's eight sprite bits land inside the 64-column grid
/// when the leftmost would land at column `vx`: the clipping policy drops
/// the rest.
pub open spec fn visible_width(vx: int) -> int {
    if vx >= 64 {
        0
    } else if vx + 8 <= 64 {
        8
    } else {
        64 - vx
    }
}

/// The display after the first `w` bits of one sprite row byte have been
/// XOR-composited into row `y` starting at column `vx`.
pub open spec fn row_drawn_upto(d: Seq<bool>, byte: u8, vx: int, y: int, w: int) -> Seq<bool> {
    Seq::new(
        d.len(),
        |k: int|
            if y * 64 + vx <= k < y * 64 + vx + w {
                d[k] != sprite_bit(byte, k - (y * 64 + vx))
            } else {
                d[k]
            },
    )
}

/// The display after one sprite row has landed, its off-screen bits clipped.
pub open spec fn row_drawn(d: Seq<bool>, byte: u8, vx: int, y: int) -> Seq<bool> {
    row_drawn_upto(d, byte, vx, y, visible_width(vx))
}

/// Whether one of the first `w` bits of the row byte lands on a lit pixel:
/// such a pixel goes dark, which is a collision.
pub open spec fn row_hits_upto(d: Seq<bool>, byte: u8, vx: int, y: int, w: int) -> bool {
    exists|x: int| vx <= x < vx + w && #[trigger] pix(d, y, x) && sprite_bit(byte, x - vx)
}

/// Whether a sprite row's visible bits collide.
pub open spec fn row_hits(d: Seq<bool>, byte: u8, vx: int, y: int) -> bool {
    row_hits_upto(d, byte, vx, y, visible_width(vx))
}

/// The display after the first `n` sprite rows, read from `mem` starting at
/// `i`, have landed with their top-left corner at `(vx, vy)`. Rows that
/// would land below row 31 are clipped whole.
pub open spec fn drawn_rows(d: Seq<bool>, mem: Seq<u8>, i: int, vx: int, vy: int, n: int) -> Seq<bool>
    decreases n,
{
    if n <= 0 {
        d
    } else {
        let prev = drawn_rows(d, mem, i, vx, vy, n - 1);
        if vy + (n - 1) < 32 {
            row_drawn(prev, mem[i + (n - 1)], vx, vy + (n - 1))
        } else {
            prev
        }
    }
}

/// Whether any pixel went lit-to-dark while the first `n` rows landed, row
/// by row, each visible row tested against the display as the rows before
/// it left it.
pub open spec fn hits_rows(d: Seq<bool>, mem: Seq<u8>, i: int, vx: int, vy: int, n: int) -> bool
    decreases n,
{
    if n <= 0 {
        false
    } else {
        hits_rows(d, mem, i, vx, vy, n - 1) || (vy + (n - 1) < 32 && row_hits(
            drawn_rows(d, mem, i, vx, vy, n - 1),
            mem[i + (n - 1)],
            vx,
            vy + (n - 1),
        ))
    }
}

/// The collision condition, stated against the display before the draw:
/// some sprite bit lands, inside the grid, on a pixel that is already lit.
pub open spec fn sprite_hits(d: Seq<bool>, mem: Seq<u8>, i: int, vx: int, vy: int, n: int) -> bool {
    exists|y: int, x: int|
        vy <= y < vy + n && y < 32 && vx <= x < vx + 8 && x < 64 && #[trigger] pix(d, y, x)
            && sprite_bit(mem[i + (y - vy)], x - vx)
}

/// The sprite's rows would be read past the end of memory.
pub open spec fn draw_oob(s: VmView, op: u16) -> bool {
    n_of(op) > 0 && s.i + n_of(op) > 4096
}

/// `0xDxyn`: XOR-composite the sprite rows at the corner given by the
/// register values `v[x]` and `v[y]`, clipping what falls outside the grid;
/// report collision in the flag register; advance the program counter by the
/// instruction's own two bytes.
pub open spec fn draw_effect(s: VmView, op: u16) -> VmView {
    let vx = s.v[x_of(op) as int] as int;
    let vy = s.v[y_of(op) as int] as int;
    VmView {
        display: drawn_rows(s.display, s.mem, s.i as int, vx, vy, n_of(op) as int),
        vf: if sprite_hits(s.display, s.mem, s.i as int, vx, vy, n_of(op) as int) {
            1u8
        } else {
            0u8
        },
        pc: (s.pc + 2) as u16,
        ..s
    }
}

/// Drawing rows does not change the display's size.
pub proof fn lemma_drawn_rows_len(d: Seq<bool>, mem: Seq<u8>, i: int, vx: int, vy: int, n: int)
    ensures
        drawn_rows(d, mem, i, vx, vy, n).len() == d.len(),
    decreases n,
{
    if n > 0 {
        lemma_drawn_rows_len(d, mem, i, vx, vy, n - 1);
    }
}

/// What one drawn row holds, pixel by pixel: only row `y`, columns `vx` to
/// `vx + 8`, is touched, and a touched pixel is XORed with its sprite bit.
/// Clipping needs no case of its own here: a grid column is below 64
/// already.
pub proof fn lemma_row_drawn_pix(
    d: Seq<bool>,
    byte: u8,
    vx: int,
    y: int,
    yy: int,
    xx: int,
)
    requires
        d.len() == 2048,
        0 <= vx,
        0 <= y < 32,
        0 <= yy < 32,
        0 <= xx < 64,
    ensures
        pix(row_drawn(d, byte, vx, y), yy, xx) == (if yy == y && vx <= xx < vx + 8 {
            pix(d, yy, xx) != sprite_bit(byte, xx - vx)
        } else {
            pix(d, yy, xx)
        }),
{
    let w = visible_width(vx);
    let k = yy * 64 + xx;
    let base = y * 64 + vx;
    assert(0 <= k < 2048);
    if yy == y {
        if vx <= xx < vx + 8 {
            assert(vx < 64);
            assert(base <= k < base + w);
            assert(k - base == xx - vx);
        } else {
            assert(!(base <= k < base + w));
        }
    } else if yy < y {
        assert(k <= (y - 1) * 64 + 63);
        assert(k < base);
    } else {
        assert(k >= y * 64 + 64);
        if vx < 64 {
            assert(base + w <= y * 64 + 64);
        } else {
            assert(w == 0);
        }
        assert(!(base <= k < base + w));
    }
}

/// What the fully drawn display holds, pixel by pixel: within the grid, the
/// `n` by 8 region with corner `(vx, vy)` is XORed with the sprite's bits
/// and the rest is kept; what the region covers beyond the grid was
/// clipped, and a grid coordinate is inside the region only on its own.
pub proof fn lemma_drawn_rows_pix(
    d: Seq<bool>,
    mem: Seq<u8>,
    i: int,
    vx: int,
    vy: int,
    n: int,
    yy: int,
    xx: int,
)
    requires
        d.len() == 2048,
        0 <= vx,
        0 <= vy,
        0 <= n,
        0 <= yy < 32,
        0 <= xx < 64,
    ensures
        pix(drawn_rows(d, mem, i, vx, vy, n), yy, xx) == (if vy <= yy < vy + n && vx <= xx < vx
            + 8 {
            pix(d, yy, xx) != sprite_bit(mem[i + (yy - vy)], xx - vx)
        } else {
            pix(d, yy, xx)
        }),
    decreases n,
{
    if n > 0 {
        lemma_drawn_rows_len(d, mem, i, vx, vy, n - 1);
        lemma_drawn_rows_pix(d, mem, i, vx, vy, n - 1, yy, xx);
        if vy + (n - 1) < 32 {
            lemma_row_drawn_pix(
                drawn_rows(d, mem, i, vx, vy, n - 1),
                mem[i + (n - 1)],
                vx,
                vy + (n - 1),
                yy,
                xx,
            );
        }
    }
}

/// A row's visible bits collide on one display exactly when they collide on
/// another whose pixels agree along those columns.
pub proof fn lemma_row_hits_same(d1: Seq<bool>, d2: Seq<bool>, byte: u8, vx: int, y: int)
    requires
        forall|x: int|
            vx <= x < vx + visible_width(vx) ==> #[trigger] pix(d1, y, x) == pix(d2, y, x),
    ensures
        row_hits(d1, byte, vx, y) == row_hits(d2, byte, vx, y),
{
    let w = visible_width(vx);
    if row_hits(d1, byte, vx, y) {
        let x = choose|x: int| vx <= x < vx + w && #[trigger] pix(d1, y, x) && sprite_bit(byte, x - vx);
        assert(pix(d2, y, x) && sprite_bit(byte, x - vx));
        assert(row_hits(d2, byte, vx, y));
    }
    if row_hits(d2, byte, vx, y) {
        let x = choose|x: int| vx <= x < vx + w && #[trigger] pix(d2, y, x) && sprite_bit(byte, x - vx);
        assert(pix(d1, y, x) && sprite_bit(byte, x - vx));
        assert(row_hits(d1, byte, vx, y));
    }
}

/// Row collision over `w + 1` bits is collision over the first `w` bits or a
/// hit at bit `w` itself.
pub proof fn lemma_row_hits_extend(d: Seq<bool>, byte: u8, vx: int, y: int, w: int)
    requires
        0 <= w,
    ensures
        row_hits_upto(d, byte, vx, y, w + 1) == (row_hits_upto(d, byte, vx, y, w) || (pix(
            d,
            y,
            vx + w,
        ) && sprite_bit(byte, w))),
{
    if row_hits_upto(d, byte, vx, y, w + 1) {
        let x = choose|x: int|
            vx <= x < vx + w + 1 && #[trigger] pix(d, y, x) && sprite_bit(byte, x - vx);
        if x < vx + w {
            assert(row_hits_upto(d, byte, vx, y, w));
        } else {
            assert(x == vx + w);
        }
    }
    if row_hits_upto(d, byte, vx, y, w) {
        let x = choose|x: int| vx <= x < vx + w && #[trigger] pix(d, y, x) && sprite_bit(byte, x - vx);
        assert(row_hits_upto(d, byte, vx, y, w + 1));
    }
    if pix(d, y, vx + w) && sprite_bit(byte, w) {
        assert((vx + w) - vx == w);
        assert(row_hits_upto(d, byte, vx, y, w + 1));
    }
}

/// Collision over `n + 1` rows is collision over the first `n` rows or a
/// collision of the last row, all against the same starting display; a row
/// clipped below the grid collides with nothing.
pub proof fn lemma_sprite_hits_extend(d: Seq<bool>, mem: Seq<u8>, i: int, vx: int, vy: int, n: int)
    requires
        0 <= vx,
        0 <= vy,
        0 <= n,
    ensures
        sprite_hits(d, mem, i, vx, vy, n + 1) == (sprite_hits(d, mem, i, vx, vy, n) || (vy + n
            < 32 && row_hits(d, mem[i + n], vx, vy + n))),
{
    let w = visible_width(vx);
    if sprite_hits(d, mem, i, vx, vy, n + 1) {
        let (y, x) = choose|y: int, x: int|
            vy <= y < vy + n + 1 && y < 32 && vx <= x < vx + 8 && x < 64 && #[trigger] pix(d, y, x)
                && sprite_bit(mem[i + (y - vy)], x - vx);
        if y < vy + n {
            assert(sprite_hits(d, mem, i, vx, vy, n));
        } else {
            assert(y == vy + n);
            assert(vx < 64);
            assert(x - vx < w);
            assert(pix(d, vy + n, x) && sprite_bit(mem[i + n], x - vx));
            assert(row_hits(d, mem[i + n], vx, vy + n));
        }
    }
    if sprite_hits(d, mem, i, vx, vy, n) {
        let (y, x) = choose|y: int, x: int|
            vy <= y < vy + n && y < 32 && vx <= x < vx + 8 && x < 64 && #[trigger] pix(d, y, x)
                && sprite_bit(mem[i + (y - vy)], x - vx);
        assert(sprite_hits(d, mem, i, vx, vy, n + 1));
    }
    if vy + n < 32 && row_hits(d, mem[i + n], vx, vy + n) {
        let x = choose|x: int|
            vx <= x < vx + w && #[trigger] pix(d, vy + n, x) && sprite_bit(mem[i + n], x - vx);
        assert(x < vx + 8 && x < 64);
        assert(pix(d, vy + n, x) && sprite_bit(mem[i + ((vy + n) - vy)], x - vx));
        assert(sprite_hits(d, mem, i, vx, vy, n + 1));
    }
}

/// The row-by-row collision account agrees with the one-shot statement
/// against the starting display: rows land on distinct display rows, so a
/// partially drawn display agrees with the starting one along each new row.
pub proof fn lemma_hits_rows_iff(d: Seq<bool>, mem: Seq<u8>, i: int, vx: int, vy: int, n: int)
    requires
        d.len() == 2048,
        0 <= vx,
        0 <= vy,
        0 <= n,
    ensures
        hits_rows(d, mem, i, vx, vy, n) == sprite_hits(d, mem, i, vx, vy, n),
    decreases n,
{
    if n <= 0 {
        if sprite_hits(d, mem, i, vx, vy, n) {
            let (y, x) = choose|y: int, x: int|
                vy <= y < vy + n && y < 32 && vx <= x < vx + 8 && x < 64 && #[trigger] pix(d, y, x)
                    && sprite_bit(mem[i + (y - vy)], x - vx);
            assert(false);
        }
    } else {
        lemma_hits_rows_iff(d, mem, i, vx, vy, n - 1);
        if vy + (n - 1) < 32 {
            let dprev = drawn_rows(d, mem, i, vx, vy, n - 1);
            lemma_drawn_rows_len(d, mem, i, vx, vy, n - 1);
            assert forall|x: int|
                vx <= x < vx + visible_width(vx) implies #[trigger] pix(dprev, vy + (n - 1), x)
                == pix(d, vy + (n - 1), x) by {
                lemma_drawn_rows_pix(d, mem, i, vx, vy, n - 1, vy + (n - 1), x);
            }
            lemma_row_hits_same(dprev, d, mem[i + (n - 1)], vx, vy + (n - 1));
        }
        lemma_sprite_hits_extend(d, mem, i, vx, vy, n - 1);
    }
}

/// Two displays with the same pixel at every grid coordinate are equal.
pub proof fn lemma_pix_eq(a: Seq<bool>, b: Seq<bool>)
    requires
        a.len() == 2048,
        b.len() == 2048,
        forall|y: int, x: int| 0 <= y < 32 && 0 <= x < 64 ==> #[trigger] pix(a, y, x) == pix(b, y, x),
    ensures
        a == b,
{
    assert forall|k: int| 0 <= k < 2048 implies a[k] == b[k] by {
        let y = k / 64;
        let x = k % 64;
        assert(0 <= k / 64 < 32 && 0 <= k % 64 < 64 && k == (k / 64) * 64 + (k % 64))
            by (nonlinear_arith)
            requires 0 <= k < 2048;
        assert(pix(a, y, x) == pix(b, y, x));
        assert(y * 64 + x == k);
    }
    assert(a =~= b);
}

impl Chip8 {
    /// XOR-composites one sprite row byte into display row `y` starting at
    /// column `vx`, most significant bit leftmost, clipping the bits that
    /// would pass column 63; reports whether any pixel of the row went lit
    /// to dark.
    pub(crate) fn draw_row(&mut self, byte: u8, vx: u8, y: u8) -> (hit: bool)
        requires
            old(self)@.wf(),
            y < 32,
        ensures
            final(self)@.wf(),
            final(self)@ == (VmView {
                display: row_drawn(old(self)@.display, byte, vx as int, y as int),
                ..old(self)@
            }),
            hit == row_hits(old(self)@.display, byte, vx as int, y as int),
    {
        let w: u8 = if vx >= 64 {
            0
        } else if vx <= 56 {
            8
        } else {
            64 - vx
        };
        let ghost d0 = self@.display;
        let mut hit = false;
        let mut b: u8 = 0;
        while b < w
            invariant
                self@.wf(),
                y < 32,
                b <= w,
                w as int == visible_width(vx as int),
                vx < 64 ==> vx + w <= 64,
                d0 == old(self)@.display,
                self@ == (VmView {
                    display: row_drawn_upto(d0, byte, vx as int, y as int, b as int),
                    ..old(self)@
                }),
                hit == row_hits_upto(d0, byte, vx as int, y as int, b as int),
            decreases w - b,
        {
            let idx: usize = (y as usize) * 64 + (vx as usize) + (b as usize);
            assert(idx < 2048);
            let cur = self.pixel_at(idx);
            let shift: u8 = 7 - b;
            let bit = ((byte >> shift) & 1) == 1;
            self.set_pixel_at(idx, cur != bit);
            if cur && bit {
                hit = true;
            }
            proof {
                let bi = b as int;
                let base = (y as int) * 64 + (vx as int);
                let prev = row_drawn_upto(d0, byte, vx as int, y as int, bi);
                let next = row_drawn_upto(d0, byte, vx as int, y as int, bi + 1);
                assert(shift == (7 - bi) as u8);
                assert(bit == sprite_bit(byte, bi));
                assert(prev[base + bi] == d0[base + bi]);
                assert(cur == pix(d0, y as int, (vx as int) + bi));
                assert(self@.display =~= next);
                lemma_row_hits_extend(d0, byte, vx as int, y as int, bi);
            }
            b += 1;
        }
        hit
    }

    /// `0xDxyn`: draws an 8-wide, `n`-high sprite whose rows are read from
    /// memory at the index register, with its top-left corner at the
    /// coordinate held by registers `x` and `y`. Every covered grid pixel
    /// becomes its old value XOR the sprite bit; bits and rows that would
    /// land outside the 64 by 32 grid are clipped, not wrapped; the
    /// collision flag reports whether any pixel went lit to dark; the
    /// program counter advances by the instruction's own two bytes. A
    /// sprite whose rows would be read past the end of memory is refused
    /// whole: the state is untouched and the failure surfaced.
    pub fn draw_sprite(&mut self, op: u16) -> (r: Result<(), VmError>)
        requires
            old(self)@.wf(),
            old(self)@.pc + 2 <= u16::MAX,
        ensures
            final(self)@.wf(),
            draw_oob(old(self)@, op) ==> r == Err::<(), VmError>(VmError::AddressOutOfRange)
                && final(self)@ == old(self)@,
            !draw_oob(old(self)@, op) ==> r == Ok::<(), VmError>(()) && final(self)@
                == draw_effect(old(self)@, op),
            !draw_oob(old(self)@, op) ==> forall|yy: int, xx: int|
                0 <= yy < 32 && 0 <= xx < 64 ==> #[trigger] pix(final(self)@.display, yy, xx) == (
                if old(self)@.v[y_of(op) as int] <= yy < old(self)@.v[y_of(op) as int]
                    + n_of(op) && old(self)@.v[x_of(op) as int] <= xx < old(self)@.v[
                    x_of(op) as int
                ] + 8 {
                    pix(old(self)@.display, yy, xx) != sprite_bit(
                        old(self)@.mem[old(self)@.i + (yy - old(self)@.v[y_of(op) as int])],
                        xx - old(self)@.v[x_of(op) as int],
                    )
                } else {
                    pix(old(self)@.display, yy, xx)
                }),
            !draw_oob(old(self)@, op) ==> final(self)@.vf == (if sprite_hits(
                old(self)@.display,
                old(self)@.mem,
                old(self)@.i as int,
                old(self)@.v[x_of(op) as int] as int,
                old(self)@.v[y_of(op) as int] as int,
                n_of(op) as int,
            ) {
                1u8
            } else {
                0u8
            }),
    {
        proof {
            lemma_operand_bounds(op);
        }
        let xi = ((op >> 8) & 0xF) as usize;
        let yi = ((op >> 4) & 0xF) as usize;
        let vx = self.register(xi);
        let vy = self.register(yi);
        let n = (op & 0xF) as u8;
        if n > 0 && (self.index() as usize) + (n as usize) > 4096 {
            return Err(VmError::AddressOutOfRange);
        }
        let ghost s0 = self@;
        let mut hit = false;
        let mut r: u8 = 0;
        while r < n
            invariant
                self@.wf(),
                s0 == old(self)@,
                s0.wf(),
                vx == s0.v[x_of(op) as int],
                vy == s0.v[y_of(op) as int],
                n == n_of(op),
                n < 16,
                r <= n,
                n > 0 ==> s0.i + n <= 4096,
                self@ == (VmView {
                    display: drawn_rows(
                        s0.display,
                        s0.mem,
                        s0.i as int,
                        vx as int,
                        vy as int,
                        r as int,
                    ),
                    ..s0
                }),
                hit == hits_rows(s0.display, s0.mem, s0.i as int, vx as int, vy as int, r as int),
            decreases n - r,
        {
            let yrow: usize = (vy as usize) + (r as usize);
            if yrow < 32 {
                let addr: usize = (self.index() as usize) + (r as usize);
                let byte = self.read_memory(addr);
                let rhit = self.draw_row(byte, vx, yrow as u8);
                if rhit {
                    hit = true;
                }
                proof {
                    let ri = r as int;
                    assert(byte == s0.mem[s0.i + ri]);
                    assert(drawn_rows(s0.display, s0.mem, s0.i as int, vx as int, vy as int, ri + 1)
                        == row_drawn(
                        drawn_rows(s0.display, s0.mem, s0.i as int, vx as int, vy as int, ri),
                        s0.mem[s0.i + ri],
                        vx as int,
                        (vy as int) + ri,
                    ));
                }
            }
            r += 1;
        }
        self.set_vf(if hit {
            1
        } else {
            0
        });
        let pc0 = self.pc();
        self.set_pc(pc0 + 2);
        proof {
            lemma_hits_rows_iff(s0.display, s0.mem, s0.i as int, vx as int, vy as int, n as int);
            assert(self@ =~= draw_effect(s0, op));
            lemma_drawn_rows_len(s0.display, s0.mem, s0.i as int, vx as int, vy as int, n as int);
            assert forall|yy: int, xx: int| 0 <= yy < 32 && 0 <= xx < 64 implies #[trigger] pix(
                self@.display,
                yy,
                xx,
            ) == (if (vy as int) <= yy < (vy as int) + (n_of(op) as int) && (vx as int) <= xx < (
            vx as int) + 8 {
                pix(s0.display, yy, xx) != sprite_bit(
                    s0.mem[s0.i + (yy - (vy as int))],
                    xx - (vx as int),
                )
            } else {
                pix(s0.display, yy, xx)
            }) by {
                lemma_drawn_rows_pix(
                    s0.display,
                    s0.mem,
                    s0.i as int,
                    vx as int,
                    vy as int,
                    n as int,
                    yy,
                    xx,
                );
            }
        }
        Ok(())
    }
}

} // verus!
