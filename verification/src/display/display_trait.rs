use vstd::prelude::*;
use crate::{DISPLAY_HEIGHT, DISPLAY_WIDTH};

verus! {

/// The pixels of a display: 32 rows of 64 pixels, `p[row][column]`.
pub open spec fn is_grid(p: Seq<Seq<bool>>) -> bool {
    &&& p.len() == 32
    &&& forall|r: int| 0 <= r < 32 ==> (#[trigger] p[r]).len() == 64
}

/// The display with every pixel unset.
pub open spec fn blank() -> Seq<Seq<bool>> {
    Seq::new(32, |r: int| Seq::new(64, |c: int| false))
}

/// The pixels that a buffer holds.
pub open spec fn grid_view(grid: [[bool; DISPLAY_WIDTH]; DISPLAY_HEIGHT]) -> Seq<Seq<bool>> {
    Seq::new(32, |r: int| grid@[r]@)
}

/// Bit `bit` of a sprite row, counted from the most significant bit.
pub open spec fn sprite_bit(byte: u8, bit: int) -> bool {
    byte & (0x80u8 >> (bit as u8)) != 0
}

/// The bit of a sprite row, drawn from column `x` on, that falls on column
/// `c`: bits 0 to 7 are the sprite's, and columns wrap round the right edge.
pub open spec fn column_bit(x: u8, c: int) -> int {
    (c - x) % 64
}

/// Whether row `k` of a sprite drawn at (`x`, `y`), holding `byte`, covers
/// the pixel in column `c` of row `r`. Rows and columns wrap round the edges
/// of the display.
pub open spec fn row_lights(x: u8, y: u8, k: int, byte: u8, c: int, r: int) -> bool {
    let b = column_bit(x, c);
    r == (y + k) % 32 && b < 8 && sprite_bit(byte, b)
}

/// Whether drawing the sprite at (`x`, `y`) flips the pixel in column `c` of
/// row `r`: it does when an odd number of the sprite's rows cover the pixel.
pub open spec fn lit(x: u8, y: u8, sprite: Seq<u8>, c: int, r: int) -> bool
    decreases sprite.len(),
{
    if sprite.len() == 0 {
        false
    } else {
        lit(x, y, sprite.drop_last(), c, r) != row_lights(
            x,
            y,
            sprite.len() - 1,
            sprite.last(),
            c,
            r,
        )
    }
}

/// The display after the sprite was drawn at (`x`, `y`): each pixel is
/// combined by exclusive or with what the sprite holds for it.
pub open spec fn drawn(p: Seq<Seq<bool>>, x: u8, y: u8, sprite: Seq<u8>) -> Seq<Seq<bool>> {
    Seq::new(32, |r: int| Seq::new(64, |c: int| p[r][c] != lit(x, y, sprite, c, r)))
}

/// Whether bit `b` of row `k` of a sprite, holding `byte`, is set and falls
/// on a pixel of `p` that is set.
pub open spec fn meets(p: Seq<Seq<bool>>, x: u8, y: u8, k: int, byte: u8, b: int) -> bool {
    sprite_bit(byte, b) && p[(y + k) % 32][(x + b) % 64]
}

/// Whether row `k` of a sprite, holding `byte`, meets a pixel of `p` that is
/// set.
pub open spec fn row_collides(p: Seq<Seq<bool>>, x: u8, y: u8, k: int, byte: u8) -> bool {
    exists|b: int| 0 <= b < 8 && #[trigger] meets(p, x, y, k, byte, b)
}

/// Whether drawing the sprite turns a set pixel off: a row does so when it
/// meets a pixel that is set once the rows above it were drawn.
pub open spec fn collides(p: Seq<Seq<bool>>, x: u8, y: u8, sprite: Seq<u8>) -> bool
    decreases sprite.len(),
{
    if sprite.len() == 0 {
        false
    } else {
        let above = sprite.drop_last();
        collides(p, x, y, above) || row_collides(
            drawn(p, x, y, above),
            x,
            y,
            sprite.len() - 1,
            sprite.last(),
        )
    }
}

/// Draws a sprite into a pixel buffer by exclusive or, one row per byte and
/// the most significant bit leftmost, and reports whether a set pixel was
/// turned off. This is the one compositing rule that every display shares.
pub fn xor_sprite(
    grid: &mut [[bool; DISPLAY_WIDTH]; DISPLAY_HEIGHT],
    x: u8,
    y: u8,
    sprite: &[u8],
) -> (collision: bool)
    ensures
        grid_view(*final(grid)) == drawn(grid_view(*old(grid)), x, y, sprite@),
        collision == collides(grid_view(*old(grid)), x, y, sprite@),
{
    let ghost initial = grid_view(*grid);
    let mut collision = false;
    let mut row: usize = 0;
    assert(sprite@.take(0).len() == 0);
    assert(grid_view(*grid) =~~= drawn(initial, x, y, sprite@.take(0)));
    while row < sprite.len()
        invariant
            row <= sprite.len(),
            grid_view(*grid) == drawn(initial, x, y, sprite@.take(row as int)),
            collision == collides(initial, x, y, sprite@.take(row as int)),
        decreases sprite.len() - row,
    {
        let byte = sprite[row];
        let py: usize = (y as usize % 32 + row % 32) % 32;
        let ghost at_row = grid_view(*grid);
        let ghost above = collision;
        let mut bit: u8 = 0;
        while bit < 8
            invariant
                bit <= 8,
                py == (y + row) % 32,
                forall|r: int, c: int|
                    0 <= r < 32 && 0 <= c < 64 ==> (#[trigger] grid@[r]@[c]) == (at_row[r][c] != (r
                        == py && column_bit(x, c) < bit && sprite_bit(byte, column_bit(x, c)))),
                collision == (above || exists|b: int|
                    0 <= b < bit && #[trigger] meets(at_row, x, y, row as int, byte, b)),
            decreases 8 - bit,
        {
            let px: usize = (x as usize + bit as usize) % 64;
            let ghost before = collision;
            assert forall|c: int| 0 <= c < 64 implies (#[trigger] column_bit(x, c) == bit <==> c
                == px) by {}
            assert(meets(at_row, x, y, row as int, byte, bit as int) == (sprite_bit(byte, bit as int)
                && grid@[py as int]@[px as int]));
            if (byte & (0x80u8 >> bit)) != 0 {
                if grid[py][px] {
                    collision = true;
                }
                let pixel = grid[py][px];
                grid[py][px] = !pixel;
            }
            assert(collision == (before || meets(at_row, x, y, row as int, byte, bit as int)));
            bit += 1;
        }
        row += 1;
        proof {
            let s = sprite@.take(row as int);
            assert(s.drop_last() =~= sprite@.take(row - 1));
            assert(s.last() == byte);
            assert forall|r: int, c: int| 0 <= r < 32 && 0 <= c < 64 implies grid_view(*grid)[r][c]
                == drawn(initial, x, y, s)[r][c] by {
                assert(grid_view(*grid)[r][c] == grid@[r]@[c]);
                assert(at_row[r][c] == (initial[r][c] != lit(x, y, s.drop_last(), c, r)));
            }
            assert(grid_view(*grid) =~~= drawn(initial, x, y, s));
        }
    }
    assert(sprite@.take(row as int) =~= sprite@);
    collision
}

/// A display surface: 64 by 32 pixels that sprites are drawn on. A backend
/// hands out its pixel buffer, clears it and renders it; drawing is the same
/// for all of them.
pub trait Ch8Display {
    /// The pixels on the display, `pixels()[row][column]`.
    spec fn pixels(&self) -> Seq<Seq<bool>>;

    /// The pixel buffer, to be changed in place.
    fn buffer(&mut self) -> (buf: &mut [[bool; DISPLAY_WIDTH]; DISPLAY_HEIGHT])
        ensures
            grid_view(*buf) == old(self).pixels(),
            final(self).pixels() == grid_view(*final(buf)),
    ;

    /// Unsets every pixel.
    fn clear(&mut self)
        ensures
            final(self).pixels() == blank(),
    ;

    /// The frame as the backend presents it, ready to be written out.
    fn render(&self) -> Vec<char>;

    /// Draws `sprite` with its top left corner at (`x`, `y`) and reports
    /// whether a set pixel was turned off.
    fn draw_sprite(&mut self, x: u8, y: u8, sprite: &[u8]) -> (collision: bool)
        ensures
            final(self).pixels() == drawn(old(self).pixels(), x, y, sprite@),
            collision == collides(old(self).pixels(), x, y, sprite@),
    {
        let buffer = self.buffer();
        xor_sprite(buffer, x, y, sprite)
    }
}

} // verus!
