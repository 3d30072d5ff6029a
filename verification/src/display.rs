use vstd::prelude::*;

verus! {

/// Number of pixels in a row of the display.
pub const DISPLAY_WIDTH: usize = 64;

/// Number of rows of the display.
pub const DISPLAY_HEIGHT: usize = 32;

/// Number of pixels of the display.
pub const DISPLAY_PIXELS: usize = DISPLAY_WIDTH * DISPLAY_HEIGHT;

/// The pixels of a display on which nothing is lit.
pub open spec fn dark() -> Seq<bool> {
    Seq::new(DISPLAY_PIXELS as nat, |index: int| false)
}

/// Whether `sprite` has a pixel in `column` of `row`, both counted from its
/// top left corner. A sprite is eight pixels wide, one byte a row, the
/// leftmost pixel in the highest bit.
pub open spec fn sprite_bit(sprite: Seq<u8>, column: int, row: int) -> bool {
    &&& 0 <= row < sprite.len()
    &&& 0 <= column < 8
    &&& (sprite[row] >> ((7 - column) as usize)) & 1 == 1
}

/// Whether drawing `sprite` with its top left corner at `(left, top)`
/// touches the pixel that stands at `index`. Pixels are kept row after row:
/// the pixel at `index` is in column `index % DISPLAY_WIDTH` of row
/// `index / DISPLAY_WIDTH`.
pub open spec fn touches(sprite: Seq<u8>, left: int, top: int, index: int) -> bool {
    sprite_bit(sprite, index % (DISPLAY_WIDTH as int) - left, index / (DISPLAY_WIDTH as int) - top)
}

/// The pixels after `sprite` was drawn on `pixels` with its top left corner
/// at `(left, top)`: each pixel that the sprite touches is flipped. What
/// reaches past the right or the lower edge is cut off.
pub open spec fn drawn(pixels: Seq<bool>, sprite: Seq<u8>, left: int, top: int) -> Seq<bool> {
    Seq::new(pixels.len(), |index: int| pixels[index] != touches(sprite, left, top, index))
}

/// Whether drawing `sprite` on `pixels` with its top left corner at
/// `(left, top)` puts out a pixel that was lit.
pub open spec fn erases(pixels: Seq<bool>, sprite: Seq<u8>, left: int, top: int) -> bool {
    exists|index: int|
        0 <= index < pixels.len() && pixels[index] && #[trigger] touches(sprite, left, top, index)
}

/// Drawing the same sprite at the same place a second time undoes the
/// first drawing.
pub proof fn lemma_drawn_twice(pixels: Seq<bool>, sprite: Seq<u8>, left: int, top: int)
    ensures
        drawn(drawn(pixels, sprite, left, top), sprite, left, top) == pixels,
{
}

/// On a dark display a drawing puts nothing out.
pub proof fn lemma_nothing_to_erase_in_the_dark(sprite: Seq<u8>, left: int, top: int)
    ensures
        !erases(dark(), sprite, left, top),
{
}

/// Whether a drawing that goes through the sprite row by row, and through
/// each row from the left, has dealt with the pixel at `index` once it has
/// finished the display rows above `row` and, in `row`, the columns left of
/// `column`.
spec fn reached(index: int, column: int, row: int) -> bool {
    let at_row = index / (DISPLAY_WIDTH as int);
    let at_column = index % (DISPLAY_WIDTH as int);
    at_row < row || (at_row == row && at_column < column)
}

/// The pixels when the drawing has got as far as `column` of `row`.
spec fn drawn_so_far(
    pixels: Seq<bool>,
    sprite: Seq<u8>,
    left: int,
    top: int,
    column: int,
    row: int,
) -> Seq<bool> {
    Seq::new(
        pixels.len(),
        |index: int|
            pixels[index] != (reached(index, column, row) && touches(sprite, left, top, index)),
    )
}

/// Whether the drawing has put out a lit pixel when it has got as far as
/// `column` of `row`.
spec fn erased_so_far(
    pixels: Seq<bool>,
    sprite: Seq<u8>,
    left: int,
    top: int,
    column: int,
    row: int,
) -> bool {
    exists|index: int|
        0 <= index < pixels.len() && reached(index, column, row) && pixels[index]
            && #[trigger] touches(sprite, left, top, index)
}

/// A display for the machine's drawings: a grid of pixels, each lit or dark.
#[derive(Debug, PartialEq, Eq)]
pub struct Display {
    pixels: [bool; DISPLAY_PIXELS],
}

impl View for Display {
    type V = Seq<bool>;

    closed spec fn view(&self) -> Seq<bool> {
        self.pixels@
    }
}

impl Display {
    /// A display with every pixel dark.
    pub fn new() -> (display: Display)
        ensures
            display@ == dark(),
    {
        let display = Display { pixels: [false; DISPLAY_PIXELS] };
        display
    }

    /// Puts every pixel out.
    pub fn clear(&mut self)
        ensures
            old(self)@.len() == DISPLAY_PIXELS,
            final(self)@ == dark(),
    {
        self.pixels = [false; DISPLAY_PIXELS];
    }

    /// The pixels, row after row, `DISPLAY_WIDTH` to a row.
    pub fn pixels(&self) -> (pixels: &[bool; DISPLAY_PIXELS])
        ensures
            pixels@ == self@,
            self@.len() == DISPLAY_PIXELS,
    {
        &self.pixels
    }

    /// Draws `sprite` with its top left corner at `(x, y)`, wrapped onto the
    /// display, and tells whether that put out a pixel that was lit.
    pub fn draw(&mut self, x: u8, y: u8, sprite: &[u8]) -> (erased: bool)
        ensures
            old(self)@.len() == DISPLAY_PIXELS,
            final(self)@ == drawn(
                old(self)@,
                sprite@,
                x as int % (DISPLAY_WIDTH as int),
                y as int % (DISPLAY_HEIGHT as int),
            ),
            erased == erases(
                old(self)@,
                sprite@,
                x as int % (DISPLAY_WIDTH as int),
                y as int % (DISPLAY_HEIGHT as int),
            ),
    {
        let left: usize = x as usize % DISPLAY_WIDTH;
        let top: usize = y as usize % DISPLAY_HEIGHT;
        let ghost before = self@;
        let mut erased = false;
        let mut row: usize = 0;
        while row < sprite.len() && top + row < DISPLAY_HEIGHT
            invariant
                left < DISPLAY_WIDTH,
                top < DISPLAY_HEIGHT,
                before.len() == DISPLAY_PIXELS,
                row <= sprite.len(),
                top + row <= DISPLAY_HEIGHT,
                self@ == drawn_so_far(before, sprite@, left as int, top as int, 0, top + row),
                erased == erased_so_far(before, sprite@, left as int, top as int, 0, top + row),
            decreases sprite.len() - row,
        {
            let byte = sprite[row];
            let mut column: usize = 0;
            while column < 8 && left + column < DISPLAY_WIDTH
                invariant
                    left < DISPLAY_WIDTH,
                    top + row < DISPLAY_HEIGHT,
                    row < sprite.len(),
                    byte == sprite@[row as int],
                    before.len() == DISPLAY_PIXELS,
                    column <= 8,
                    left + column <= DISPLAY_WIDTH,
                    self@ == drawn_so_far(
                        before,
                        sprite@,
                        left as int,
                        top as int,
                        left + column,
                        top + row,
                    ),
                    erased == erased_so_far(
                        before,
                        sprite@,
                        left as int,
                        top as int,
                        left + column,
                        top + row,
                    ),
                decreases 8 - column,
            {
                let index: usize = (top + row) * DISPLAY_WIDTH + left + column;
                let lit = (byte >> (7 - column)) & 1 == 1;
                assert(lit == touches(sprite@, left as int, top as int, index as int));
                if lit {
                    if self.pixels[index] {
                        erased = true;
                    }
                    self.pixels[index] = !self.pixels[index];
                }
                column = column + 1;
            }
            row = row + 1;
        }
        erased
    }
}

} // verus!
