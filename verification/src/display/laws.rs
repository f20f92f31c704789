use vstd::prelude::*;
use crate::display::display_trait::{
    blank, collides, column_bit, drawn, is_grid, lit, meets, row_collides, row_lights, sprite_bit,
};

verus! {

/// Whether some row of the sprite, drawn at (`x`, `y`), covers the pixel in
/// column `c` of row `r`.
pub open spec fn covered(x: u8, y: u8, sprite: Seq<u8>, c: int, r: int) -> bool {
    exists|k: int| 0 <= k < sprite.len() && #[trigger] row_lights(x, y, k, sprite[k], c, r)
}

/// Whether some set bit of the sprite, drawn at (`x`, `y`), falls on a pixel
/// of `p` that is set.
pub open spec fn overlaps(p: Seq<Seq<bool>>, x: u8, y: u8, sprite: Seq<u8>) -> bool {
    exists|k: int, b: int|
        0 <= k < sprite.len() && 0 <= b < 8 && #[trigger] meets(p, x, y, k, sprite[k], b)
}

/// Whether the sprite has a set bit at all.
pub open spec fn has_pixels(sprite: Seq<u8>) -> bool {
    exists|k: int, b: int| 0 <= k < sprite.len() && 0 <= b < 8 && #[trigger] sprite_bit(sprite[k], b)
}

/// Drawing yields a full grid of pixels, whatever it was drawn on.
pub proof fn lemma_drawn_is_grid(p: Seq<Seq<bool>>, x: u8, y: u8, sprite: Seq<u8>)
    ensures
        is_grid(drawn(p, x, y, sprite)),
        is_grid(blank()),
{
}

/// Drawing the same sprite twice at the same place restores the display:
/// exclusive or undoes itself.
pub proof fn lemma_draw_twice_restores(p: Seq<Seq<bool>>, x: u8, y: u8, sprite: Seq<u8>)
    requires
        is_grid(p),
    ensures
        drawn(drawn(p, x, y, sprite), x, y, sprite) == p,
{
    assert(drawn(drawn(p, x, y, sprite), x, y, sprite) =~~= p);
}

/// A sprite of at most 32 rows covers no pixel twice, so it flips exactly the
/// pixels that one of its rows covers.
pub proof fn lemma_lit_is_covered(x: u8, y: u8, sprite: Seq<u8>, c: int, r: int)
    requires
        sprite.len() <= 32,
    ensures
        lit(x, y, sprite, c, r) == covered(x, y, sprite, c, r),
    decreases sprite.len(),
{
    if sprite.len() > 0 {
        let above = sprite.drop_last();
        let k = sprite.len() - 1;
        lemma_lit_is_covered(x, y, above, c, r);
        if row_lights(x, y, k, sprite.last(), c, r) {
            assert(row_lights(x, y, k, sprite[k], c, r));
            if covered(x, y, above, c, r) {
                let j = choose|j: int|
                    0 <= j < above.len() && #[trigger] row_lights(x, y, j, above[j], c, r);
                assert((y + j) % 32 == (y + k) % 32);
                assert(false);
            }
        } else {
            if covered(x, y, above, c, r) {
                let j = choose|j: int|
                    0 <= j < above.len() && #[trigger] row_lights(x, y, j, above[j], c, r);
                assert(row_lights(x, y, j, sprite[j], c, r));
            }
            if covered(x, y, sprite, c, r) {
                let j = choose|j: int|
                    0 <= j < sprite.len() && #[trigger] row_lights(x, y, j, sprite[j], c, r);
                assert(j < k);
                assert(row_lights(x, y, j, above[j], c, r));
            }
        }
    }
}

/// Bit `b` of row `k` of a sprite of at most 32 rows lands in column
/// `(x + b) mod 64` of row `(y + k) mod 32`: a sprite that reaches past the
/// right or the bottom edge comes back in at the opposite one, and nothing
/// of it is cut off.
pub proof fn lemma_sprite_wraps(p: Seq<Seq<bool>>, x: u8, y: u8, sprite: Seq<u8>, k: int, b: int)
    requires
        sprite.len() <= 32,
        0 <= k < sprite.len(),
        0 <= b < 8,
    ensures
        drawn(p, x, y, sprite)[(y + k) % 32][(x + b) % 64] == (p[(y + k) % 32][(x + b) % 64]
            != sprite_bit(sprite[k], b)),
{
    let c = (x + b) % 64;
    let r = (y + k) % 32;
    lemma_lit_is_covered(x, y, sprite, c, r);
    assert(column_bit(x, c) == b);
    if sprite_bit(sprite[k], b) {
        assert(row_lights(x, y, k, sprite[k], c, r));
    } else {
        if covered(x, y, sprite, c, r) {
            let j = choose|j: int|
                0 <= j < sprite.len() && #[trigger] row_lights(x, y, j, sprite[j], c, r);
            assert((y + j) % 32 == (y + k) % 32);
            assert(j == k);
        }
    }
}

/// A pixel that no row of the sprite covers is left as it was.
pub proof fn lemma_uncovered_pixel_kept(
    p: Seq<Seq<bool>>,
    x: u8,
    y: u8,
    sprite: Seq<u8>,
    c: int,
    r: int,
)
    requires
        0 <= r < 32,
        0 <= c < 64,
        !covered(x, y, sprite, c, r),
    ensures
        drawn(p, x, y, sprite)[r][c] == p[r][c],
{
    lemma_uncovered_is_unlit(x, y, sprite, c, r);
}

proof fn lemma_uncovered_is_unlit(x: u8, y: u8, sprite: Seq<u8>, c: int, r: int)
    requires
        !covered(x, y, sprite, c, r),
    ensures
        !lit(x, y, sprite, c, r),
    decreases sprite.len(),
{
    if sprite.len() > 0 {
        let above = sprite.drop_last();
        let k = sprite.len() - 1;
        assert(!row_lights(x, y, k, sprite[k], c, r));
        if covered(x, y, above, c, r) {
            let j = choose|j: int|
                0 <= j < above.len() && #[trigger] row_lights(x, y, j, above[j], c, r);
            assert(row_lights(x, y, j, sprite[j], c, r));
        }
        lemma_uncovered_is_unlit(x, y, above, c, r);
    }
}

/// For a sprite of at most 32 rows, drawing reports a collision exactly when
/// one of its set bits falls on a pixel that was set before the draw.
pub proof fn lemma_collides_is_overlaps(p: Seq<Seq<bool>>, x: u8, y: u8, sprite: Seq<u8>)
    requires
        sprite.len() <= 32,
    ensures
        collides(p, x, y, sprite) == overlaps(p, x, y, sprite),
    decreases sprite.len(),
{
    if sprite.len() > 0 {
        let above = sprite.drop_last();
        let k = sprite.len() - 1;
        let q = drawn(p, x, y, above);
        lemma_collides_is_overlaps(p, x, y, above);
        assert forall|b: int| 0 <= b < 8 implies meets(q, x, y, k, sprite.last(), b) == meets(
            p,
            x,
            y,
            k,
            sprite[k],
            b,
        ) by {
            let c = (x + b) % 64;
            let r = (y + k) % 32;
            lemma_lit_is_covered(x, y, above, c, r);
            if covered(x, y, above, c, r) {
                let j = choose|j: int|
                    0 <= j < above.len() && #[trigger] row_lights(x, y, j, above[j], c, r);
                assert((y + j) % 32 == (y + k) % 32);
                assert(false);
            }
        }
        if overlaps(p, x, y, above) {
            let (j, b) = choose|j: int, b: int|
                0 <= j < above.len() && 0 <= b < 8 && #[trigger] meets(p, x, y, j, above[j], b);
            assert(meets(p, x, y, j, sprite[j], b));
        }
        if row_collides(q, x, y, k, sprite.last()) {
            let b = choose|b: int| 0 <= b < 8 && #[trigger] meets(q, x, y, k, sprite.last(), b);
            assert(meets(p, x, y, k, sprite[k], b));
        }
        if overlaps(p, x, y, sprite) {
            let (j, b) = choose|j: int, b: int|
                0 <= j < sprite.len() && 0 <= b < 8 && #[trigger] meets(p, x, y, j, sprite[j], b);
            if j < k {
                assert(meets(p, x, y, j, above[j], b));
            } else {
                assert(meets(q, x, y, k, sprite.last(), b));
            }
        }
    }
}

/// A sprite of at most 32 rows drawn twice at the same place on a blank
/// display: the first draw reports no collision, the second reports one
/// exactly when the sprite has a set bit, and the display is blank again
/// afterwards.
pub proof fn lemma_draw_twice_on_blank(x: u8, y: u8, sprite: Seq<u8>)
    requires
        sprite.len() <= 32,
    ensures
        !collides(blank(), x, y, sprite),
        collides(drawn(blank(), x, y, sprite), x, y, sprite) == has_pixels(sprite),
        drawn(drawn(blank(), x, y, sprite), x, y, sprite) == blank(),
{
    let first = drawn(blank(), x, y, sprite);
    lemma_draw_twice_restores(blank(), x, y, sprite);
    lemma_collides_is_overlaps(blank(), x, y, sprite);
    lemma_collides_is_overlaps(first, x, y, sprite);
    if overlaps(blank(), x, y, sprite) {
        let (k, b) = choose|k: int, b: int|
            0 <= k < sprite.len() && 0 <= b < 8 && #[trigger] meets(blank(), x, y, k, sprite[k], b);
        assert(false);
    }
    assert forall|k: int, b: int| 0 <= k < sprite.len() && 0 <= b < 8 implies meets(
        first,
        x,
        y,
        k,
        sprite[k],
        b,
    ) == sprite_bit(sprite[k], b) by {
        lemma_sprite_wraps(blank(), x, y, sprite, k, b);
    }
    if overlaps(first, x, y, sprite) {
        let (k, b) = choose|k: int, b: int|
            0 <= k < sprite.len() && 0 <= b < 8 && #[trigger] meets(first, x, y, k, sprite[k], b);
        assert(sprite_bit(sprite[k], b));
    }
    if has_pixels(sprite) {
        let (k, b) = choose|k: int, b: int|
            0 <= k < sprite.len() && 0 <= b < 8 && #[trigger] sprite_bit(sprite[k], b);
        assert(meets(first, x, y, k, sprite[k], b));
    }
}

} // verus!
