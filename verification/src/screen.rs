use vstd::prelude::*;

verus! {

/// Number of pixel columns.
pub const SCREEN_WIDTH: usize = 64;

/// Number of pixel rows.
pub const SCREEN_HEIGHT: usize = 32;

/// Number of pixels.
pub const SCREEN_SIZE: usize = 2048;

/// The monochrome display: one flag per pixel, row after row from the top,
/// each row from left to right.
pub struct Screen {
    pixels: [bool; 2048],
}

/// The value of the pixel in column `col` of a sprite row, column 0 being
/// the leftmost one, held in the most significant bit of `byte`.
pub open spec fn sprite_bit(byte: u8, col: int) -> bool {
    let weight: int = if col == 0 {
        128
    } else if col == 1 {
        64
    } else if col == 2 {
        32
    } else if col == 3 {
        16
    } else if col == 4 {
        8
    } else if col == 5 {
        4
    } else if col == 6 {
        2
    } else {
        1
    };
    0 <= col < 8 && (byte as int / weight) % 2 == 1
}

/// Whether `sprite`, with its top left corner on column `left` of row `top`,
/// has a set pixel on column `px` of row `py`.
pub open spec fn sprite_covers(sprite: Seq<u8>, left: int, top: int, px: int, py: int) -> bool {
    0 <= py - top < sprite.len() && sprite_bit(sprite[py - top], px - left)
}

/// Whether drawing `sprite` at (`x`, `y`) flips the pixel with index `k`. The
/// corner is wrapped onto the screen; the pixels of the sprite are not, so
/// those that would fall off the right or bottom edge flip nothing.
pub open spec fn flips(sprite: Seq<u8>, x: int, y: int, k: int) -> bool {
    sprite_covers(sprite, x % 64, y % 32, k % 64, k / 64)
}

/// The display after `sprite` has been drawn at (`x`, `y`): each pixel under
/// a set pixel of the sprite is flipped, every other pixel is kept.
pub open spec fn drawn(pixels: Seq<bool>, sprite: Seq<u8>, x: int, y: int) -> Seq<bool> {
    Seq::new(pixels.len(), |k: int| pixels[k] != flips(sprite, x, y, k))
}

/// Whether drawing `sprite` at (`x`, `y`) turns off a pixel that was on.
pub open spec fn collides(pixels: Seq<bool>, sprite: Seq<u8>, x: int, y: int) -> bool {
    exists|k: int| 0 <= k < pixels.len() && pixels[k] && flips(sprite, x, y, k)
}

/// The rows of `sprite` that a draw of `height` rows uses.
pub open spec fn sprite_rows(sprite: Seq<u8>, height: int) -> Seq<u8> {
    if 0 <= height < sprite.len() {
        sprite.take(height)
    } else {
        sprite
    }
}

/// A display with every pixel off.
pub open spec fn blank() -> Seq<bool> {
    Seq::new(SCREEN_SIZE as nat, |k: int| false)
}

/// Drawing flips exactly the pixels that lie under a set pixel of the
/// sprite, counted from the wrapped corner to the right and downwards.
/// Nothing to the left of the corner or above it changes, so a sprite that
/// reaches past the right or bottom edge is cut off there and does not come
/// back in on the other side.
pub proof fn lemma_draw_clips(pixels: Seq<bool>, sprite: Seq<u8>, x: int, y: int, k: int)
    requires
        pixels.len() == SCREEN_SIZE,
        0 <= k < SCREEN_SIZE,
    ensures
        drawn(pixels, sprite, x, y)[k] != pixels[k] <==> {
            let col = k % 64 - x % 64;
            let row = k / 64 - y % 32;
            0 <= col < 8 && 0 <= row < sprite.len() && sprite_bit(sprite[row], col)
        },
        drawn(pixels, sprite, x, y)[k] != pixels[k] ==> x % 64 <= k % 64 < 64 && y % 32 <= k / 64
            < 32,
{
}

/// Drawing the same sprite twice at the same place gives back the display
/// as it was.
pub proof fn lemma_draw_twice_restores(pixels: Seq<bool>, sprite: Seq<u8>, x: int, y: int)
    ensures
        drawn(drawn(pixels, sprite, x, y), sprite, x, y) == pixels,
{
    assert(drawn(drawn(pixels, sprite, x, y), sprite, x, y) =~= pixels);
}

/// On a blank display a draw collides with nothing and turns on exactly the
/// pixels under the set pixels of the sprite. Drawing the same sprite there
/// again collides as soon as one of its set pixels is on the display, and
/// leaves the display blank.
pub proof fn lemma_draw_on_blank(sprite: Seq<u8>, x: int, y: int)
    ensures
        !collides(blank(), sprite, x, y),
        forall|k: int|
            0 <= k < SCREEN_SIZE ==> #[trigger] drawn(blank(), sprite, x, y)[k] == flips(
                sprite,
                x,
                y,
                k,
            ),
        collides(drawn(blank(), sprite, x, y), sprite, x, y) <==> exists|k: int|
            0 <= k < SCREEN_SIZE && flips(sprite, x, y, k),
        drawn(drawn(blank(), sprite, x, y), sprite, x, y) == blank(),
{
    let once = drawn(blank(), sprite, x, y);
    lemma_draw_twice_restores(blank(), sprite, x, y);
    if collides(once, sprite, x, y) {
        let k = choose|k: int| 0 <= k < once.len() && once[k] && flips(sprite, x, y, k);
        assert(0 <= k < SCREEN_SIZE && flips(sprite, x, y, k));
    }
    if exists|k: int| 0 <= k < SCREEN_SIZE && flips(sprite, x, y, k) {
        let k = choose|k: int| 0 <= k < SCREEN_SIZE && flips(sprite, x, y, k);
        assert(0 <= k < once.len() && once[k] && flips(sprite, x, y, k));
    }
}

/// Reads one pixel of a sprite row.
fn bit_of(byte: u8, col: usize) -> (bit: bool)
    requires
        col < 8,
    ensures
        bit == sprite_bit(byte, col as int),
{
    let shift: u8 = 7 - col as u8;
    assert(shift == 7 ==> ((byte >> shift) & 1u8 == 1u8) == ((byte / 128u8) % 2u8 == 1u8)) by (bit_vector);
    assert(shift == 6 ==> ((byte >> shift) & 1u8 == 1u8) == ((byte / 64u8) % 2u8 == 1u8)) by (bit_vector);
    assert(shift == 5 ==> ((byte >> shift) & 1u8 == 1u8) == ((byte / 32u8) % 2u8 == 1u8)) by (bit_vector);
    assert(shift == 4 ==> ((byte >> shift) & 1u8 == 1u8) == ((byte / 16u8) % 2u8 == 1u8)) by (bit_vector);
    assert(shift == 3 ==> ((byte >> shift) & 1u8 == 1u8) == ((byte / 8u8) % 2u8 == 1u8)) by (bit_vector);
    assert(shift == 2 ==> ((byte >> shift) & 1u8 == 1u8) == ((byte / 4u8) % 2u8 == 1u8)) by (bit_vector);
    assert(shift == 1 ==> ((byte >> shift) & 1u8 == 1u8) == ((byte / 2u8) % 2u8 == 1u8)) by (bit_vector);
    assert(shift == 0 ==> ((byte >> shift) & 1u8 == 1u8) == ((byte / 1u8) % 2u8 == 1u8)) by (bit_vector);
    (byte >> shift) & 1 == 1
}

impl View for Screen {
    type V = Seq<bool>;

    closed spec fn view(&self) -> Seq<bool> {
        self.pixels@
    }
}

impl Screen {
    /// The display always has 2048 pixels.
    pub proof fn lemma_sized(&self)
        ensures
            self@.len() == SCREEN_SIZE,
    {
    }

    /// A display with every pixel off.
    pub fn new() -> (screen: Screen)
        ensures
            screen@ == blank(),
    {
        Screen { pixels: [false; 2048] }
    }

    /// Turns every pixel off.
    pub fn clear(&mut self)
        ensures
            final(self)@ == blank(),
    {
        let mut k: usize = 0;
        while k < SCREEN_SIZE
            invariant
                k <= SCREEN_SIZE,
                forall|j: int| 0 <= j < k ==> !self.pixels@[j],
            decreases SCREEN_SIZE - k,
        {
            self.pixels[k] = false;
            k += 1;
        }
    }

    /// Draws the first `height` rows of `sprite`, or all of them if there are
    /// fewer, with the top left corner at column `x % 64` of row `y % 32`.
    /// A set pixel of the sprite flips the pixel under it; one that would
    /// fall outside the display is dropped. Returns whether any pixel went
    /// from on to off.
    pub fn draw_sprite(&mut self, x: usize, y: usize, height: usize, sprite: &[u8]) -> (collision:
        bool)
        ensures
            final(self)@ == drawn(old(self)@, sprite_rows(sprite@, height as int), x as int, y as int),
            collision == collides(
                old(self)@,
                sprite_rows(sprite@, height as int),
                x as int,
                y as int,
            ),
    {
        let left = x % SCREEN_WIDTH;
        let top = y % SCREEN_HEIGHT;
        let rows = if height < sprite.len() {
            height
        } else {
            sprite.len()
        };
        let ghost shape = sprite_rows(sprite@, height as int);
        let ghost before = self@;
        let mut collision = false;
        let mut row: usize = 0;
        while row < rows && row < SCREEN_HEIGHT - top
            invariant
                left == x % 64,
                top == y % 32,
                rows == shape.len(),
                before.len() == SCREEN_SIZE,
                forall|r: int| 0 <= r < rows ==> shape[r] == sprite@[r],
                rows <= sprite@.len(),
                forall|k: int|
                    0 <= k < SCREEN_SIZE ==> #[trigger] self.pixels@[k] == (before[k] != (flips(
                        shape,
                        x as int,
                        y as int,
                        k,
                    ) && k / 64 - top < row)),
                collision <==> exists|k: int|
                    0 <= k < SCREEN_SIZE && #[trigger] before[k] && flips(
                        shape,
                        x as int,
                        y as int,
                        k,
                    ) && k / 64 - top < row,
            decreases rows - row,
        {
            let byte = sprite[row];
            let base = (top + row) * SCREEN_WIDTH;
            let mut col: usize = 0;
            while col < 8 && col < SCREEN_WIDTH - left
                invariant
                    left == x % 64,
                    top == y % 32,
                    row < rows,
                    rows == shape.len(),
                    row < SCREEN_HEIGHT - top,
                    byte == shape[row as int],
                    base == (top + row) * 64,
                    before.len() == SCREEN_SIZE,
                    col <= 8,
                    forall|k: int|
                        0 <= k < SCREEN_SIZE ==> #[trigger] self.pixels@[k] == (before[k] != (flips(
                            shape,
                            x as int,
                            y as int,
                            k,
                        ) && (k / 64 - top < row || (k / 64 - top == row && k % 64 - left < col)))),
                    collision <==> exists|k: int|
                        0 <= k < SCREEN_SIZE && #[trigger] before[k] && flips(
                            shape,
                            x as int,
                            y as int,
                            k,
                        ) && (k / 64 - top < row || (k / 64 - top == row && k % 64 - left < col)),
                decreases 8 - col,
            {
                let index = base + left + col;
                assert(index / 64 == top + row && index % 64 == left + col);
                if bit_of(byte, col) {
                    assert(flips(shape, x as int, y as int, index as int));
                    if self.pixels[index] {
                        collision = true;
                    }
                    self.pixels[index] = !self.pixels[index];
                }
                col += 1;
            }
            row += 1;
        }
        collision
    }

    /// The pixels, row after row.
    pub fn pixels(&self) -> (pixels: &[bool])
        ensures
            pixels@ == self@,
    {
        &self.pixels
    }
}

} // verus!
