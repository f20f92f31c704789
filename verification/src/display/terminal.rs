use vstd::prelude::*;
use crate::display::display_trait::{blank, grid_view, Ch8Display};
use crate::{DISPLAY_HEIGHT, DISPLAY_WIDTH};

verus! {

/// The text of a frame: one line per row of pixels, a full block for a set
/// pixel and a space for an unset one, each line ended by a line feed.
pub open spec fn frame_text(p: Seq<Seq<bool>>) -> Seq<char> {
    Seq::new(
        32 * 65,
        |i: int|
            if i % 65 == 64 {
                '\n'
            } else if p[i / 65][i % 65] {
                '\u{2588}'
            } else {
                ' '
            },
    )
}

/// A display that is presented as text on a terminal.
pub struct TerminalDisplay {
    display_buffer: [[bool; DISPLAY_WIDTH]; DISPLAY_HEIGHT],
}

impl TerminalDisplay {
    pub fn new() -> (d: Self)
        ensures
            d.pixels() == blank(),
    {
        let d = TerminalDisplay { display_buffer: [[false; DISPLAY_WIDTH]; DISPLAY_HEIGHT] };
        assert(d.pixels() =~~= blank());
        d
    }
}

impl Ch8Display for TerminalDisplay {
    closed spec fn pixels(&self) -> Seq<Seq<bool>> {
        grid_view(self.display_buffer)
    }

    fn buffer(&mut self) -> (buf: &mut [[bool; DISPLAY_WIDTH]; DISPLAY_HEIGHT]) {
        &mut self.display_buffer
    }

    fn clear(&mut self) {
        self.display_buffer = [[false; DISPLAY_WIDTH]; DISPLAY_HEIGHT];
        assert(self.pixels() =~~= blank());
    }

    fn render(&self) -> (text: Vec<char>)
        ensures
            text@ == frame_text(self.pixels()),
    {
        let mut text: Vec<char> = Vec::new();
        let mut row: usize = 0;
        while row < 32
            invariant
                row <= 32,
                text@.len() == row * 65,
                forall|i: int| 0 <= i < row * 65 ==> text@[i] == frame_text(self.pixels())[i],
            decreases 32 - row,
        {
            let mut column: usize = 0;
            while column < 64
                invariant
                    row < 32,
                    column <= 64,
                    text@.len() == row * 65 + column,
                    forall|i: int|
                        0 <= i < row * 65 + column ==> text@[i] == frame_text(self.pixels())[i],
                decreases 64 - column,
            {
                let ch = if self.display_buffer[row][column] {
                    '\u{2588}'
                } else {
                    ' '
                };
                text.push(ch);
                column += 1;
            }
            text.push('\n');
            row += 1;
        }
        assert(text@ =~= frame_text(self.pixels()));
        text
    }
}

} // verus!
