//! The pixel buffer contract: what one sprite draw does to the 64x32 grid.
//! Each sprite byte supplies 8 pixels, most significant bit first; each
//! target pixel is updated by XOR, and a collision is any sprite bit that
//! lands on an already-set pixel. The sprite's anchor is taken modulo the
//! grid once; the remaining pixels are either clipped at the edges or, in
//! the wrapping dialect, folded to the opposite edge.
use vstd::prelude::*;

verus! {

use crate::{FB_HEIGHT, FB_WIDTH, MEM_SIZE};
use vstd::arithmetic::div_mod::{lemma_fundamental_div_mod, lemma_fundamental_div_mod_converse};

/// Everything one draw depends on besides the buffer itself: the memory the
/// sprite is read from, the sprite's base address and height, the anchor
/// point (already reduced modulo the grid) and the edge dialect.
pub struct DrawParams {
    /// The address space the sprite rows are read from.
    pub mem: Seq<u8>,
    /// Address of the first sprite row.
    pub base: int,
    /// Whether off-grid pixels wrap to the opposite edge instead of being
    /// clipped.
    pub wrap: bool,
    /// Anchor column, in 0..64.
    pub sx: int,
    /// Anchor row, in 0..32.
    pub sy: int,
    /// Number of sprite rows.
    pub n: int,
}

impl DrawParams {
    pub open spec fn wf(self) -> bool {
        &&& self.mem.len() == MEM_SIZE
        &&& 0 <= self.sx < FB_WIDTH
        &&& 0 <= self.sy < FB_HEIGHT
        &&& 0 <= self.n < 16
        &&& self.base >= 0
        &&& (self.n > 0 ==> self.base + self.n <= MEM_SIZE)
    }
}

/// Bit `k` of a sprite byte, most significant first: bit 0 is the leftmost
/// of the 8 pixels the byte supplies.
pub open spec fn sprite_bit(b: u8, k: int) -> bool {
    ((b >> ((7 - k) as u8)) & 1) == 1
}

/// The grid pixel that sprite position (row, bit) lands on, if any. In the
/// clipping dialect an off-grid position lands nowhere; in the wrapping
/// dialect it folds to the opposite edge, so it always lands somewhere.
pub open spec fn pix_target(p: DrawParams, row: int, bit: int) -> Option<(int, int)> {
    let x = if p.wrap {
        (p.sx + bit) % (FB_WIDTH as int)
    } else {
        p.sx + bit
    };
    let y = if p.wrap {
        (p.sy + row) % (FB_HEIGHT as int)
    } else {
        p.sy + row
    };
    if 0 <= x < FB_WIDTH && 0 <= y < FB_HEIGHT {
        Some((x, y))
    } else {
        None
    }
}

/// The sprite position (row, bit) that lands on grid pixel (x, y), if any:
/// the inverse of `pix_target` over the grid.
pub open spec fn pix_source(p: DrawParams, x: int, y: int) -> Option<(int, int)> {
    let bit = if p.wrap {
        (x - p.sx + FB_WIDTH) % (FB_WIDTH as int)
    } else {
        x - p.sx
    };
    let row = if p.wrap {
        (y - p.sy + FB_HEIGHT) % (FB_HEIGHT as int)
    } else {
        y - p.sy
    };
    if 0 <= bit < 8 && 0 <= row < p.n {
        Some((row, bit))
    } else {
        None
    }
}

/// Whether sprite position (row, bit) lands on a pixel that is already set
/// in `fb` while its own sprite bit is set: one collision.
pub open spec fn hits(fb: Seq<bool>, p: DrawParams, row: int, bit: int) -> bool {
    match pix_target(p, row, bit) {
        Some(xy) => fb[xy.1 * (FB_WIDTH as int) + xy.0] && sprite_bit(
            p.mem[p.base + row],
            bit,
        ),
        None => false,
    }
}

/// The buffer after the whole sprite is drawn: every pixel some sprite
/// position lands on is XORed with that sprite bit, all others keep their
/// value.
pub open spec fn draw(fb: Seq<bool>, p: DrawParams) -> Seq<bool> {
    Seq::new(
        fb.len(),
        |idx: int|
            match pix_source(p, idx % (FB_WIDTH as int), idx / (FB_WIDTH as int)) {
                Some(rb) => fb[idx] ^ sprite_bit(p.mem[p.base + rb.0], rb.1),
                None => fb[idx],
            },
    )
}

/// Whether the whole draw collides: some sprite position hits.
pub open spec fn collision(fb: Seq<bool>, p: DrawParams) -> bool {
    exists|row: int, bit: int|
        0 <= row < p.n && 0 <= bit < 8 && #[trigger] hits(fb, p, row, bit)
}

/// Whether sprite position (row, bit) comes strictly before position (r, b)
/// in the drawing order: row by row, bit by bit.
pub open spec fn processed(r: int, b: int, row: int, bit: int) -> bool {
    row < r || (row == r && bit < b)
}

/// The buffer after only the sprite positions before (r, b) are drawn.
pub open spec fn draw_prefix(fb: Seq<bool>, p: DrawParams, r: int, b: int) -> Seq<bool> {
    Seq::new(
        fb.len(),
        |idx: int|
            match pix_source(p, idx % (FB_WIDTH as int), idx / (FB_WIDTH as int)) {
                Some(rb) => if processed(r, b, rb.0, rb.1) {
                    fb[idx] ^ sprite_bit(p.mem[p.base + rb.0], rb.1)
                } else {
                    fb[idx]
                },
                None => fb[idx],
            },
    )
}

/// Whether some sprite position before (r, b) hits.
pub open spec fn collision_prefix(fb: Seq<bool>, p: DrawParams, r: int, b: int) -> bool {
    exists|row: int, bit: int|
        0 <= row < p.n && 0 <= bit < 8 && processed(r, b, row, bit) && #[trigger] hits(
            fb,
            p,
            row,
            bit,
        )
}

/// For `0 <= a < 2m`, reducing modulo `m` either keeps `a` or subtracts `m`.
proof fn lemma_mod_small_range(a: int, m: int)
    requires
        0 < m,
        0 <= a < 2 * m,
    ensures
        a % m == if a < m {
            a
        } else {
            a - m
        },
{
    if a < m {
        lemma_fundamental_div_mod_converse(a, m, 0, a);
    } else {
        lemma_fundamental_div_mod_converse(a, m, 1, a - m);
    }
}

/// Decomposes a buffer index into its column and row.
proof fn lemma_idx_coords(idx: int)
    requires
        0 <= idx < FB_WIDTH * FB_HEIGHT,
    ensures
        idx == (idx / (FB_WIDTH as int)) * FB_WIDTH + idx % (FB_WIDTH as int),
        0 <= idx % (FB_WIDTH as int) < FB_WIDTH,
        0 <= idx / (FB_WIDTH as int) < FB_HEIGHT,
{
    lemma_fundamental_div_mod(idx, FB_WIDTH as int);
    if idx / (FB_WIDTH as int) >= FB_HEIGHT {
        assert((FB_WIDTH as int) * (idx / (FB_WIDTH as int)) >= (FB_WIDTH as int) * (
        FB_HEIGHT as int)) by (nonlinear_arith)
            requires
                idx / (FB_WIDTH as int) >= FB_HEIGHT,
        ;
    }
    if idx / (FB_WIDTH as int) < 0 {
        assert((FB_WIDTH as int) * (idx / (FB_WIDTH as int)) <= (FB_WIDTH as int) * (-1))
            by (nonlinear_arith)
            requires
                idx / (FB_WIDTH as int) <= -1,
        ;
    }
}

/// Recomposes a column and row into their buffer index.
proof fn lemma_coords_idx(x: int, y: int)
    requires
        0 <= x < FB_WIDTH,
        0 <= y < FB_HEIGHT,
    ensures
        0 <= y * FB_WIDTH + x < FB_WIDTH * FB_HEIGHT,
        (y * FB_WIDTH + x) % (FB_WIDTH as int) == x,
        (y * FB_WIDTH + x) / (FB_WIDTH as int) == y,
{
    lemma_fundamental_div_mod_converse(y * FB_WIDTH + x, FB_WIDTH as int, y, x);
}

/// Where a sprite position lands, the inverse map gives back exactly that
/// position; and only the clipping dialect ever discards a position.
proof fn lemma_target_source(p: DrawParams, row: int, bit: int)
    requires
        p.wf(),
        0 <= row < p.n,
        0 <= bit < 8,
    ensures
        match pix_target(p, row, bit) {
            Some(xy) => {
                &&& 0 <= xy.0 < FB_WIDTH
                &&& 0 <= xy.1 < FB_HEIGHT
                &&& pix_source(p, xy.0, xy.1) == Some((row, bit))
            },
            None => !p.wrap,
        },
{
    if p.wrap {
        lemma_mod_small_range(p.sx + bit, FB_WIDTH as int);
        lemma_mod_small_range(p.sy + row, FB_HEIGHT as int);
        let x = (p.sx + bit) % (FB_WIDTH as int);
        let y = (p.sy + row) % (FB_HEIGHT as int);
        lemma_mod_small_range(x - p.sx + FB_WIDTH, FB_WIDTH as int);
        lemma_mod_small_range(y - p.sy + FB_HEIGHT, FB_HEIGHT as int);
    }
}

/// Where the inverse map names a sprite position for a grid pixel, that
/// position indeed lands on exactly that pixel.
proof fn lemma_source_target(p: DrawParams, x: int, y: int)
    requires
        p.wf(),
        0 <= x < FB_WIDTH,
        0 <= y < FB_HEIGHT,
    ensures
        match pix_source(p, x, y) {
            Some(rb) => {
                &&& 0 <= rb.0 < p.n
                &&& 0 <= rb.1 < 8
                &&& pix_target(p, rb.0, rb.1) == Some((x, y))
            },
            None => true,
        },
{
    if p.wrap {
        lemma_mod_small_range(x - p.sx + FB_WIDTH, FB_WIDTH as int);
        lemma_mod_small_range(y - p.sy + FB_HEIGHT, FB_HEIGHT as int);
        let bit = (x - p.sx + FB_WIDTH) % (FB_WIDTH as int);
        let row = (y - p.sy + FB_HEIGHT) % (FB_HEIGHT as int);
        if 0 <= bit < 8 && 0 <= row < p.n {
            lemma_mod_small_range(p.sx + bit, FB_WIDTH as int);
            lemma_mod_small_range(p.sy + row, FB_HEIGHT as int);
        }
    }
}

/// Before any sprite position is drawn, the buffer is unchanged and no
/// collision has been seen.
pub proof fn lemma_prefix_start(fb: Seq<bool>, p: DrawParams)
    requires
        fb.len() == FB_WIDTH * FB_HEIGHT,
    ensures
        draw_prefix(fb, p, 0, 0) == fb,
        !collision_prefix(fb, p, 0, 0),
{
    assert(draw_prefix(fb, p, 0, 0) =~= fb);
}

/// Finishing a row is the same as standing at the start of the next row.
pub proof fn lemma_prefix_row_end(fb: Seq<bool>, p: DrawParams, r: int)
    requires
        fb.len() == FB_WIDTH * FB_HEIGHT,
        0 <= r,
    ensures
        draw_prefix(fb, p, r, 8) == draw_prefix(fb, p, r + 1, 0),
        collision_prefix(fb, p, r, 8) == collision_prefix(fb, p, r + 1, 0),
{
    assert(draw_prefix(fb, p, r, 8) =~= draw_prefix(fb, p, r + 1, 0));
    if collision_prefix(fb, p, r, 8) {
        let (row, bit) = choose|row: int, bit: int|
            0 <= row < p.n && 0 <= bit < 8 && processed(r, 8, row, bit) && #[trigger] hits(
                fb,
                p,
                row,
                bit,
            );
        assert(processed(r + 1, 0, row, bit));
        assert(collision_prefix(fb, p, r + 1, 0));
    }
    if collision_prefix(fb, p, r + 1, 0) {
        let (row, bit) = choose|row: int, bit: int|
            0 <= row < p.n && 0 <= bit < 8 && processed(r + 1, 0, row, bit) && #[trigger] hits(
                fb,
                p,
                row,
                bit,
            );
        assert(processed(r, 8, row, bit));
        assert(collision_prefix(fb, p, r, 8));
    }
}

/// Having drawn every row is the whole draw.
pub proof fn lemma_prefix_finish(fb: Seq<bool>, p: DrawParams)
    requires
        fb.len() == FB_WIDTH * FB_HEIGHT,
    ensures
        draw_prefix(fb, p, p.n, 0) == draw(fb, p),
        collision_prefix(fb, p, p.n, 0) == collision(fb, p),
{
    assert(draw_prefix(fb, p, p.n, 0) =~= draw(fb, p));
    if collision_prefix(fb, p, p.n, 0) {
        let (row, bit) = choose|row: int, bit: int|
            0 <= row < p.n && 0 <= bit < 8 && processed(p.n, 0, row, bit) && #[trigger] hits(
                fb,
                p,
                row,
                bit,
            );
        assert(collision(fb, p));
    }
    if collision(fb, p) {
        let (row, bit) = choose|row: int, bit: int|
            0 <= row < p.n && 0 <= bit < 8 && #[trigger] hits(fb, p, row, bit);
        assert(processed(p.n, 0, row, bit));
        assert(collision_prefix(fb, p, p.n, 0));
    }
}

/// Drawing one more sprite position: where it lands on a pixel, exactly
/// that pixel flips by its sprite bit and was still untouched; where it is
/// clipped, nothing changes. Either way the collision seen so far grows by
/// exactly this position's hit.
pub proof fn lemma_prefix_step(fb: Seq<bool>, p: DrawParams, r: int, b: int)
    requires
        p.wf(),
        fb.len() == FB_WIDTH * FB_HEIGHT,
        0 <= r < p.n,
        0 <= b < 8,
    ensures
        match pix_target(p, r, b) {
            Some(xy) => {
                &&& 0 <= xy.1 * FB_WIDTH + xy.0 < FB_WIDTH * FB_HEIGHT
                &&& draw_prefix(fb, p, r, b)[xy.1 * FB_WIDTH + xy.0] == fb[xy.1 * FB_WIDTH + xy.0]
                &&& draw_prefix(fb, p, r, b + 1) == draw_prefix(fb, p, r, b).update(
                    xy.1 * FB_WIDTH + xy.0,
                    fb[xy.1 * FB_WIDTH + xy.0] ^ sprite_bit(p.mem[p.base + r], b),
                )
            },
            None => draw_prefix(fb, p, r, b + 1) == draw_prefix(fb, p, r, b),
        },
        collision_prefix(fb, p, r, b + 1) == (collision_prefix(fb, p, r, b) || hits(fb, p, r, b)),
{
    lemma_target_source(p, r, b);
    match pix_target(p, r, b) {
        Some(xy) => {
            lemma_coords_idx(xy.0, xy.1);
            let idx = xy.1 * (FB_WIDTH as int) + xy.0;
            assert forall|j: int| 0 <= j < fb.len() implies draw_prefix(fb, p, r, b + 1)[j] == (
            if j == idx {
                fb[idx] ^ sprite_bit(p.mem[p.base + r], b)
            } else {
                draw_prefix(fb, p, r, b)[j]
            }) by {
                lemma_idx_coords(j);
                let xj = j % (FB_WIDTH as int);
                let yj = j / (FB_WIDTH as int);
                lemma_source_target(p, xj, yj);
                match pix_source(p, xj, yj) {
                    Some(rb) => {
                        if rb == (r, b) {
                            assert(pix_target(p, r, b) == Some((xj, yj)));
                            assert(j == idx) by {
                                lemma_coords_idx(xj, yj);
                            }
                        } else {
                            assert(processed(r, b + 1, rb.0, rb.1) == processed(r, b, rb.0, rb.1));
                            if j == idx {
                                assert(pix_source(p, xy.0, xy.1) == Some((r, b)));
                                assert(false);
                            }
                        }
                    },
                    None => {
                        if j == idx {
                            assert(pix_source(p, xy.0, xy.1) == Some((r, b)));
                            assert(false);
                        }
                    },
                }
            }
            assert(draw_prefix(fb, p, r, b + 1) =~= draw_prefix(fb, p, r, b).update(
                idx,
                fb[idx] ^ sprite_bit(p.mem[p.base + r], b),
            ));
        },
        None => {
            assert forall|j: int| 0 <= j < fb.len() implies draw_prefix(fb, p, r, b + 1)[j]
                == draw_prefix(fb, p, r, b)[j] by {
                lemma_idx_coords(j);
                let xj = j % (FB_WIDTH as int);
                let yj = j / (FB_WIDTH as int);
                lemma_source_target(p, xj, yj);
                match pix_source(p, xj, yj) {
                    Some(rb) => {
                        if rb == (r, b) {
                            assert(pix_target(p, r, b) == Some((xj, yj)));
                            assert(false);
                        } else {
                            assert(processed(r, b + 1, rb.0, rb.1) == processed(r, b, rb.0, rb.1));
                        }
                    },
                    None => {},
                }
            }
            assert(draw_prefix(fb, p, r, b + 1) =~= draw_prefix(fb, p, r, b));
        },
    }
    if collision_prefix(fb, p, r, b) {
        let (row, bit) = choose|row: int, bit: int|
            0 <= row < p.n && 0 <= bit < 8 && processed(r, b, row, bit) && #[trigger] hits(
                fb,
                p,
                row,
                bit,
            );
        assert(processed(r, b + 1, row, bit));
        assert(collision_prefix(fb, p, r, b + 1));
    }
    if hits(fb, p, r, b) {
        assert(processed(r, b + 1, r, b));
        assert(collision_prefix(fb, p, r, b + 1));
    }
    if collision_prefix(fb, p, r, b + 1) {
        let (row, bit) = choose|row: int, bit: int|
            0 <= row < p.n && 0 <= bit < 8 && processed(r, b + 1, row, bit) && #[trigger] hits(
                fb,
                p,
                row,
                bit,
            );
        if processed(r, b, row, bit) {
            assert(collision_prefix(fb, p, r, b));
        } else {
            assert(row == r && bit == b);
        }
    }
}

/// Drawing the same sprite twice in a row restores every pixel: the second
/// XOR cancels the first, whatever the buffer held before.
pub proof fn lemma_draw_twice_cancels(fb: Seq<bool>, p: DrawParams)
    requires
        p.wf(),
        fb.len() == FB_WIDTH * FB_HEIGHT,
    ensures
        draw(draw(fb, p), p) == fb,
{
    assert(draw(draw(fb, p), p) =~= fb);
}

/// On an empty buffer a draw reports no collision; drawing the same sprite
/// again reports one as soon as the sprite has any pixel that lands on the
/// grid with its bit set.
pub proof fn lemma_draw_collision_on_empty(fb: Seq<bool>, p: DrawParams, row: int, bit: int)
    requires
        p.wf(),
        fb.len() == FB_WIDTH * FB_HEIGHT,
        forall|idx: int| 0 <= idx < fb.len() ==> !fb[idx],
        0 <= row < p.n,
        0 <= bit < 8,
        pix_target(p, row, bit) is Some,
        sprite_bit(p.mem[p.base + row], bit),
    ensures
        !collision(fb, p),
        collision(draw(fb, p), p),
{
    assert forall|rw: int, bw: int| 0 <= rw < p.n && 0 <= bw < 8 implies !hits(fb, p, rw, bw) by {
        lemma_target_source(p, rw, bw);
        match pix_target(p, rw, bw) {
            Some(xy) => {
                lemma_coords_idx(xy.0, xy.1);
            },
            None => {},
        }
    }
    lemma_target_source(p, row, bit);
    let xy = pix_target(p, row, bit)->Some_0;
    lemma_coords_idx(xy.0, xy.1);
    let idx = xy.1 * (FB_WIDTH as int) + xy.0;
    assert(draw(fb, p)[idx] == (fb[idx] ^ sprite_bit(p.mem[p.base + row], bit)));
    assert(hits(draw(fb, p), p, row, bit));
    assert(collision(draw(fb, p), p));
}

} // verus!
