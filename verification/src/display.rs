//! The 64 x 32 monochrome framebuffer and the sprite blit.
//!
//! The framebuffer is a row-major sequence of `DISPLAY_SIZE` pixels: the
//! pixel at column `x` and row `y` has index `y * DISPLAY_WIDTH + x`.

use crate::model::MEMORY_SIZE;
use vstd::prelude::*;

verus! {

/// The width of the display in pixels.
pub const DISPLAY_WIDTH: usize = 64;

/// The height of the display in pixels.
pub const DISPLAY_HEIGHT: usize = 32;

/// The total number of pixels of the display.
pub const DISPLAY_SIZE: usize = 2048;

/// Bit `col` of a sprite row, counted from the most significant bit: the
/// leftmost pixel of the row is bit 0.
pub open spec fn sprite_bit(row: u8, col: int) -> bool {
    (row >> ((7 - col) as u8)) & 1 == 1
}

/// The sprite column that lands on the pixel with index `k` when the sprite
/// is drawn at column `ox`, columns wrapping at the display's edge.
pub open spec fn sprite_col(k: int, ox: int) -> int {
    (k % 64 - ox) % 64
}

/// The sprite row that lands on the pixel with index `k` when the sprite is
/// drawn at row `oy`, rows wrapping at the display's edge.
pub open spec fn sprite_row(k: int, oy: int) -> int {
    (k / 64 - oy) % 32
}

/// Whether the sprite, drawn at `(ox, oy)`, has a set bit on the pixel with
/// index `k`.
pub open spec fn sprite_lit(sprite: Seq<u8>, ox: int, oy: int, k: int) -> bool {
    let col = sprite_col(k, ox);
    let row = sprite_row(k, oy);
    row < sprite.len() && col < 8 && sprite_bit(sprite[row], col)
}

/// The framebuffer after the sprite has been drawn at `(ox, oy)`: every
/// pixel under a set bit of the sprite is flipped, every other pixel stays.
pub open spec fn blit(pixels: Seq<bool>, sprite: Seq<u8>, ox: int, oy: int) -> Seq<bool> {
    Seq::new(pixels.len(), |k: int| pixels[k] != sprite_lit(sprite, ox, oy, k))
}

/// Whether the pixel with index `k` is on and under a set bit of the sprite,
/// so that drawing switches it off.
pub open spec fn erased_at(pixels: Seq<bool>, sprite: Seq<u8>, ox: int, oy: int, k: int) -> bool {
    pixels[k] && sprite_lit(sprite, ox, oy, k)
}

/// Whether drawing the sprite at `(ox, oy)` switches any pixel off.
pub open spec fn collides(pixels: Seq<bool>, sprite: Seq<u8>, ox: int, oy: int) -> bool {
    exists|k: int| 0 <= k < pixels.len() && #[trigger] erased_at(pixels, sprite, ox, oy, k)
}

/// A framebuffer with every pixel off.
pub open spec fn blank() -> Seq<bool> {
    Seq::new(2048, |k: int| false)
}

/// The part of `sprite_lit` that the blit has dealt with once it has
/// finished the rows before `r` and, of row `r`, the columns before `c`.
spec fn lit_before(sprite: Seq<u8>, ox: int, oy: int, k: int, r: int, c: int) -> bool {
    let col = sprite_col(k, ox);
    let row = sprite_row(k, oy);
    sprite_lit(sprite, ox, oy, k) && (row < r || (row == r && col < c))
}

spec fn erased_before(
    pixels: Seq<bool>,
    sprite: Seq<u8>,
    ox: int,
    oy: int,
    k: int,
    r: int,
    c: int,
) -> bool {
    pixels[k] && lit_before(sprite, ox, oy, k, r, c)
}

/// Shifting a column by `o` and wrapping at 64 is undone by shifting back.
proof fn lemma_wrap_col(a: int, o: int, c: int)
    requires
        0 <= a < 64,
        0 <= o < 256,
        0 <= c < 64,
    ensures
        (a - o) % 64 == c <==> a == (o + c) % 64,
{
    let q1 = (a - o) / 64;
    let q2 = (o + c) / 64;
    assert(a - o == 64 * q1 + (a - o) % 64);
    assert(o + c == 64 * q2 + (o + c) % 64);
}

/// Shifting a row by `o` and wrapping at 32 is undone by shifting back.
proof fn lemma_wrap_row(a: int, o: int, r: int)
    requires
        0 <= a < 32,
        0 <= o < 256,
        0 <= r < 32,
    ensures
        (a - o) % 32 == r <==> a == (o + r) % 32,
{
    let q1 = (a - o) / 32;
    let q2 = (o + r) / 32;
    assert(a - o == 32 * q1 + (a - o) % 32);
    assert(o + r == 32 * q2 + (o + r) % 32);
}

/// Sprite cell `(r, c)` lands on exactly one pixel.
proof fn lemma_target(ox: int, oy: int, r: int, c: int, k: int)
    requires
        0 <= ox < 256,
        0 <= oy < 256,
        0 <= r < 32,
        0 <= c < 64,
        0 <= k < 2048,
    ensures
        (sprite_col(k, ox) == c && sprite_row(k, oy) == r) <==> k == ((oy + r) % 32) * 64 + (ox
            + c) % 64,
{
    let kx = k % 64;
    let ky = k / 64;
    assert(k == 64 * ky + kx);
    lemma_wrap_col(kx, ox, c);
    lemma_wrap_row(ky, oy, r);
    let tx = (ox + c) % 64;
    let ty = (oy + r) % 32;
    let t = ty * 64 + tx;
    assert(t % 64 == tx && t / 64 == ty);
}

/// Switches every pixel off.
pub fn clear(pixels: &mut [bool; DISPLAY_SIZE])
    ensures
        final(pixels)@ == blank(),
    no_unwind
{
    let mut k: usize = 0;
    while k < DISPLAY_SIZE
        invariant
            k <= DISPLAY_SIZE,
            forall|j: int| 0 <= j < k ==> pixels@[j] == false,
        decreases DISPLAY_SIZE - k,
    {
        pixels[k] = false;
        k += 1;
    }
    assert(pixels@ =~= blank());
}

/// Draws the sprite whose `rows` rows stand in `mem` from address `base`
/// on, one byte per row, the most significant bit leftmost, at column `ox`,
/// row `oy`. Each pixel under a set bit is flipped; positions wrap pixel by
/// pixel at the display's edges. Returns whether any pixel was switched
/// off.
///
/// The sprite has at most 32 rows, so that no two of its rows land on the
/// same row of the display.
pub fn draw_sprite(
    pixels: &mut [bool; DISPLAY_SIZE],
    mem: &[u8; MEMORY_SIZE],
    base: usize,
    rows: usize,
    ox: u8,
    oy: u8,
) -> (hit: bool)
    requires
        rows <= 32,
        base + rows <= MEMORY_SIZE,
    ensures
        final(pixels)@ == blit(
            old(pixels)@,
            mem@.subrange(base as int, base + rows),
            ox as int,
            oy as int,
        ),
        hit == collides(
            old(pixels)@,
            mem@.subrange(base as int, base + rows),
            ox as int,
            oy as int,
        ),
    no_unwind
{
    let ghost before = pixels@;
    let ghost sp = mem@.subrange(base as int, base + rows);
    let ghost gx = ox as int;
    let ghost gy = oy as int;
    let mut hit: bool = false;
    let mut r: usize = 0;
    while r < rows
        invariant
            r <= rows == sp.len() <= 32,
            sp == mem@.subrange(base as int, base + rows),
            base + rows <= MEMORY_SIZE,
            gx == ox as int,
            gy == oy as int,
            before.len() == 2048,
            forall|k: int|
                0 <= k < 2048 ==> pixels@[k] == (before[k] != lit_before(
                    sp,
                    gx,
                    gy,
                    k,
                    r as int,
                    0,
                )),
            hit <==> exists|k: int|
                0 <= k < 2048 && #[trigger] erased_before(before, sp, gx, gy, k, r as int, 0),
        decreases rows - r,
    {
        let row: u8 = mem[base + r];
        let py: usize = (oy as usize + r) % DISPLAY_HEIGHT;
        let mut c: usize = 0;
        while c < 8
            invariant
                c <= 8,
                r < rows == sp.len() <= 32,
                row == sp[r as int],
                py == (gy + r) % 32,
                gx == ox as int,
                gy == oy as int,
                before.len() == 2048,
                forall|k: int|
                    0 <= k < 2048 ==> pixels@[k] == (before[k] != lit_before(
                        sp,
                        gx,
                        gy,
                        k,
                        r as int,
                        c as int,
                    )),
                hit <==> exists|k: int|
                    0 <= k < 2048 && #[trigger] erased_before(
                        before,
                        sp,
                        gx,
                        gy,
                        k,
                        r as int,
                        c as int,
                    ),
            decreases 8 - c,
        {
            let px: usize = (ox as usize + c) % DISPLAY_WIDTH;
            let idx: usize = py * DISPLAY_WIDTH + px;
            let shift: u8 = 7 - c as u8;
            let bit: bool = (row >> shift) & 1 == 1;
            let ghost mid = pixels@;
            let ghost was_hit = hit;
            proof {
                assert forall|k: int| 0 <= k < 2048 implies ((#[trigger] sprite_col(k, gx) == c
                    && sprite_row(k, gy) == r) <==> k == idx) by {
                    lemma_target(gx, gy, r as int, c as int, k);
                }
                assert(bit == sprite_bit(row, c as int));
                assert(!lit_before(sp, gx, gy, idx as int, r as int, c as int));
                assert(mid[idx as int] == before[idx as int]);
            }
            if bit {
                if pixels[idx] {
                    hit = true;
                }
                pixels[idx] = !pixels[idx];
            }
            proof {
                assert forall|k: int| 0 <= k < 2048 implies #[trigger] lit_before(
                    sp,
                    gx,
                    gy,
                    k,
                    r as int,
                    c + 1,
                ) == (lit_before(sp, gx, gy, k, r as int, c as int) || (k == idx && bit)) by {}
                if hit {
                    if was_hit {
                        let w = choose|k: int|
                            0 <= k < 2048 && #[trigger] erased_before(
                                before,
                                sp,
                                gx,
                                gy,
                                k,
                                r as int,
                                c as int,
                            );
                        assert(erased_before(before, sp, gx, gy, w, r as int, c + 1));
                    } else {
                        assert(erased_before(before, sp, gx, gy, idx as int, r as int, c + 1));
                    }
                } else {
                    assert forall|k: int| 0 <= k < 2048 implies !#[trigger] erased_before(
                        before,
                        sp,
                        gx,
                        gy,
                        k,
                        r as int,
                        c + 1,
                    ) by {
                        assert(!erased_before(before, sp, gx, gy, k, r as int, c as int));
                    }
                }
            }
            c += 1;
        }
        proof {
            assert forall|k: int| 0 <= k < 2048 implies #[trigger] lit_before(
                sp,
                gx,
                gy,
                k,
                r as int,
                8,
            ) == lit_before(sp, gx, gy, k, r + 1, 0) by {}
            if hit {
                let w = choose|k: int|
                    0 <= k < 2048 && #[trigger] erased_before(before, sp, gx, gy, k, r as int, 8);
                assert(erased_before(before, sp, gx, gy, w, r + 1, 0));
            } else {
                assert forall|k: int| 0 <= k < 2048 implies !#[trigger] erased_before(
                    before,
                    sp,
                    gx,
                    gy,
                    k,
                    r + 1,
                    0,
                ) by {
                    assert(!erased_before(before, sp, gx, gy, k, r as int, 8));
                }
            }
        }
        r += 1;
    }
    proof {
        assert forall|k: int| 0 <= k < 2048 implies #[trigger] lit_before(
            sp,
            gx,
            gy,
            k,
            rows as int,
            0,
        ) == sprite_lit(sp, gx, gy, k) by {}
        assert(pixels@ =~= blit(before, sp, gx, gy));
        if hit {
            let w = choose|k: int|
                0 <= k < 2048 && #[trigger] erased_before(before, sp, gx, gy, k, rows as int, 0);
            assert(erased_at(before, sp, gx, gy, w));
        } else {
            assert forall|k: int| 0 <= k < 2048 implies !#[trigger] erased_at(
                before,
                sp,
                gx,
                gy,
                k,
            ) by {
                assert(!erased_before(before, sp, gx, gy, k, rows as int, 0));
            }
        }
    }
    hit
}

} // verus!
