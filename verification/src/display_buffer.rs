//! The 64x32 monochrome frame buffer, stored row-major as one colour per cell.

use vstd::prelude::*;

verus! {

/// Number of cells in a display row.
pub const WIDTH: usize = 64;

/// Number of rows on the display.
pub const HEIGHT: usize = 32;

/// Colour of a lit cell.
pub const PIXEL_COLOR: u32 = 0;

/// Colour of a dark cell (the background).
pub const BG_COLOR: u32 = 120;

/// The frame buffer: `WIDTH * HEIGHT` colours in row-major order.
#[derive(Clone)]
pub struct DisplayBuffer(pub Vec<u32>);

/// The colour that bit `c` of a sprite row stands for; bit 0 is the most
/// significant bit of the byte, the leftmost cell.
pub open spec fn sprite_pixel(byte: u8, c: int) -> u32 {
    if byte & (0x80u8 >> (c as u8)) != 0 {
        PIXEL_COLOR
    } else {
        BG_COLOR
    }
}

/// A display that is blank: every cell holds the background colour.
pub open spec fn blank_display() -> Seq<u32> {
    Seq::new((WIDTH * HEIGHT) as nat, |i: int| BG_COLOR)
}

/// The display row that cell `i` lies in.
pub open spec fn row_of(i: int) -> int {
    i / (WIDTH as int)
}

/// The display column that cell `i` lies in.
pub open spec fn col_of(i: int) -> int {
    i % (WIDTH as int)
}

/// Whether cell `i` lies under a sprite of `rows` rows whose top-left corner
/// is at column `x`, row `y`; the parts of the sprite past the right or the
/// bottom edge are clipped, not wrapped.
pub open spec fn covers(rows: int, x: int, y: int, i: int) -> bool {
    &&& 0 <= i
    &&& row_of(i) < HEIGHT
    &&& y <= row_of(i) < y + rows
    &&& x <= col_of(i) < x + 8
}

/// The sprite colour that falls on cell `i`.
pub open spec fn sprite_cell(rows: Seq<u8>, x: int, y: int, i: int) -> u32 {
    sprite_pixel(rows[row_of(i) - y], col_of(i) - x)
}

/// What a cell becomes when a sprite colour is XOR-drawn on it: a cell equal
/// to the sprite colour turns dark, any other cell turns lit.
pub open spec fn xor_pixel(cell: u32, pixel: u32) -> u32 {
    if cell == pixel {
        BG_COLOR
    } else {
        PIXEL_COLOR
    }
}

/// The display after drawing the sprite `rows` at column `x`, row `y`.
pub open spec fn draw_sprite(disp: Seq<u32>, rows: Seq<u8>, x: int, y: int) -> Seq<u32> {
    Seq::new(
        disp.len(),
        |i: int|
            if covers(rows.len() as int, x, y, i) {
                xor_pixel(disp[i], sprite_cell(rows, x, y, i))
            } else {
                disp[i]
            },
    )
}

/// Whether drawing the sprite turns off a lit cell: a set sprite bit falls on
/// a cell that holds the lit colour.
pub open spec fn collides(disp: Seq<u32>, rows: Seq<u8>, x: int, y: int) -> bool {
    exists|i: int|
        0 <= i < disp.len() && covers(rows.len() as int, x, y, i) && #[trigger] sprite_cell(
            rows,
            x,
            y,
            i,
        ) == PIXEL_COLOR && disp[i] == PIXEL_COLOR
}

/// The number of sprite rows that stay on screen.
pub open spec fn visible_rows(rows: int, y: int) -> int {
    if y >= HEIGHT {
        0
    } else if rows < HEIGHT - y {
        rows
    } else {
        HEIGHT - y
    }
}

/// The number of sprite columns that stay on screen.
pub open spec fn visible_cols(x: int) -> int {
    if x >= WIDTH {
        0
    } else if 8 < WIDTH - x {
        8
    } else {
        WIDTH - x
    }
}

/// Whether every cell that the sprite touches lies inside a buffer of `len`
/// cells.
pub open spec fn sprite_fits(len: int, rows: int, x: int, y: int) -> bool {
    visible_rows(rows, y) == 0 || visible_cols(x) == 0 || (y + visible_rows(rows, y) - 1) * (
    WIDTH as int) + x + visible_cols(x) - 1 < len
}

/// Whether every cell holds either the lit or the background colour.
pub open spec fn two_coloured(disp: Seq<u32>) -> bool {
    forall|i: int| 0 <= i < disp.len() ==> #[trigger] disp[i] == PIXEL_COLOR || disp[i] == BG_COLOR
}

/// The display while a sprite is being drawn: the cells before row
/// `done_rows`, and the first `done_cols` cells of that row, are drawn.
spec fn drawn_so_far(rows: int, x: int, y: int, i: int, done_rows: int, done_cols: int) -> bool {
    covers(rows, x, y, i) && (row_of(i) - y < done_rows || (row_of(i) - y == done_rows && col_of(i)
        - x < done_cols))
}

spec fn partial_draw(
    disp: Seq<u32>,
    rows: Seq<u8>,
    x: int,
    y: int,
    done_rows: int,
    done_cols: int,
) -> Seq<u32> {
    Seq::new(
        disp.len(),
        |i: int|
            if drawn_so_far(rows.len() as int, x, y, i, done_rows, done_cols) {
                xor_pixel(disp[i], sprite_cell(rows, x, y, i))
            } else {
                disp[i]
            },
    )
}

spec fn partial_collision(
    disp: Seq<u32>,
    rows: Seq<u8>,
    x: int,
    y: int,
    done_rows: int,
    done_cols: int,
) -> bool {
    exists|i: int|
        0 <= i < disp.len() && drawn_so_far(rows.len() as int, x, y, i, done_rows, done_cols)
            && #[trigger] sprite_cell(rows, x, y, i) == PIXEL_COLOR && disp[i] == PIXEL_COLOR
}

proof fn lemma_cell_index(i: int, row: int, col: int)
    requires
        0 <= row,
        0 <= col < WIDTH,
        0 <= i,
    ensures
        row_of(row * (WIDTH as int) + col) == row,
        col_of(row * (WIDTH as int) + col) == col,
        row_of(i) == row && col_of(i) == col ==> i == row * (WIDTH as int) + col,
        0 <= col_of(i) < WIDTH,
        0 <= row_of(i),
{
    vstd::arithmetic::div_mod::lemma_fundamental_div_mod_converse(
        row * (WIDTH as int) + col,
        WIDTH as int,
        row,
        col,
    );
    vstd::arithmetic::div_mod::lemma_fundamental_div_mod(i, WIDTH as int);
}

/// A sprite colour is either the lit or the background colour.
proof fn lemma_sprite_pixel_two_coloured(byte: u8, c: int)
    ensures
        sprite_pixel(byte, c) == PIXEL_COLOR || sprite_pixel(byte, c) == BG_COLOR,
{
}

/// Drawing the same sprite twice at the same place gives back the display it
/// was drawn on, if that display held only the lit and the background
/// colour.
pub proof fn lemma_draw_twice_restores(disp: Seq<u32>, rows: Seq<u8>, x: int, y: int)
    requires
        two_coloured(disp),
    ensures
        draw_sprite(draw_sprite(disp, rows, x, y), rows, x, y) == disp,
{
    let once = draw_sprite(disp, rows, x, y);
    assert forall|i: int| 0 <= i < disp.len() implies #[trigger] draw_sprite(once, rows, x, y)[i]
        == disp[i] by {
        if covers(rows.len() as int, x, y, i) {
            lemma_sprite_pixel_two_coloured(rows[row_of(i) - y], col_of(i) - x);
        }
    }
    assert(draw_sprite(once, rows, x, y) =~= disp);
}

/// Drawing keeps a display that holds only the lit and the background colour
/// so.
pub proof fn lemma_draw_keeps_two_coloured(disp: Seq<u32>, rows: Seq<u8>, x: int, y: int)
    requires
        two_coloured(disp),
    ensures
        two_coloured(draw_sprite(disp, rows, x, y)),
{
}

/// A sprite collides exactly when drawing it turns a lit cell dark.
pub proof fn lemma_collision_is_erasure(disp: Seq<u32>, rows: Seq<u8>, x: int, y: int)
    ensures
        collides(disp, rows, x, y) == exists|i: int|
            0 <= i < disp.len() && #[trigger] disp[i] == PIXEL_COLOR && draw_sprite(
                disp,
                rows,
                x,
                y,
            )[i] != PIXEL_COLOR,
{
    let after = draw_sprite(disp, rows, x, y);
    if collides(disp, rows, x, y) {
        let i = choose|i: int|
            0 <= i < disp.len() && covers(rows.len() as int, x, y, i) && #[trigger] sprite_cell(
                rows,
                x,
                y,
                i,
            ) == PIXEL_COLOR && disp[i] == PIXEL_COLOR;
        assert(disp[i] == PIXEL_COLOR && after[i] != PIXEL_COLOR);
    }
    if exists|i: int| 0 <= i < disp.len() && #[trigger] disp[i] == PIXEL_COLOR && after[i] != PIXEL_COLOR {
        let i = choose|i: int| 0 <= i < disp.len() && #[trigger] disp[i] == PIXEL_COLOR && after[i] != PIXEL_COLOR;
        assert(covers(rows.len() as int, x, y, i));
        assert(sprite_cell(rows, x, y, i) == PIXEL_COLOR);
    }
}

/// The bit of a sprite byte that `sprite_pixel` reads, counted from the most
/// significant end, is the bit shifted down to the bottom.
proof fn lemma_bit_from_top(b: u8, c: u8)
    requires
        c < 8,
    ensures
        (b & (0x80u8 >> c) != 0) == ((b >> ((7 - c) as u8)) & 1u8 == 1u8),
{
    assert((b & (0x80u8 >> c) != 0) == ((b >> ((7 - c) as u8)) & 1u8 == 1u8)) by (bit_vector)
        requires
            c < 8,
    ;
}

/// On a display that holds only the lit and the background colour, drawing a
/// sprite at (x, y) lights a cell under the sprite exactly when the cell was
/// lit or its sprite bit is set, but not both, and leaves every other cell as
/// it was. Cell i lies in row i / 64 and column i % 64; it is under the
/// sprite when its row is on screen and its offsets from (x, y) fall inside
/// the rows and the eight columns of the sprite.
pub proof fn lemma_draw_cells(disp: Seq<u32>, rows: Seq<u8>, x: int, y: int)
    requires
        two_coloured(disp),
    ensures
        draw_sprite(disp, rows, x, y).len() == disp.len(),
        forall|i: int|
            0 <= i < disp.len() ==> {
                let r = i / 64 - y;
                let c = i % 64 - x;
                let under = i / 64 < 32 && 0 <= r < rows.len() && 0 <= c < 8;
                (#[trigger] draw_sprite(disp, rows, x, y)[i] == PIXEL_COLOR) == if under {
                    (disp[i] == PIXEL_COLOR) != ((rows[r] >> ((7 - c) as u8)) & 1u8 == 1u8)
                } else {
                    disp[i] == PIXEL_COLOR
                }
            },
{
    assert forall|i: int| 0 <= i < disp.len() implies {
        let r = i / 64 - y;
        let c = i % 64 - x;
        let under = i / 64 < 32 && 0 <= r < rows.len() && 0 <= c < 8;
        (#[trigger] draw_sprite(disp, rows, x, y)[i] == PIXEL_COLOR) == if under {
            (disp[i] == PIXEL_COLOR) != ((rows[r] >> ((7 - c) as u8)) & 1u8 == 1u8)
        } else {
            disp[i] == PIXEL_COLOR
        }
    } by {
        let c = i % 64 - x;
        if 0 <= c < 8 {
            lemma_bit_from_top(rows[i / 64 - y], c as u8);
        }
    }
}

/// A sprite byte shows its most significant bit leftmost: cell c of the row
/// is lit exactly when bit 7 - c of the byte is set.
pub proof fn lemma_sprite_pixel_bits(byte: u8, c: u8)
    requires
        c < 8,
    ensures
        (sprite_pixel(byte, c as int) == PIXEL_COLOR) == ((byte >> ((7 - c) as u8)) & 1u8 == 1u8),
        sprite_pixel(byte, c as int) == PIXEL_COLOR || sprite_pixel(byte, c as int) == BG_COLOR,
{
    lemma_bit_from_top(byte, c);
}

/// A blank display has a cell for every position of the screen, each of the
/// background colour.
pub proof fn lemma_blank_display()
    ensures
        blank_display().len() == 64 * 32,
        forall|i: int| 0 <= i < 64 * 32 ==> #[trigger] blank_display()[i] == BG_COLOR,
        two_coloured(blank_display()),
{
}

/// Whether the sprite has a set bit on a cell of the display.
pub open spec fn lights_any(len: int, rows: Seq<u8>, x: int, y: int) -> bool {
    exists|i: int|
        0 <= i < len && covers(rows.len() as int, x, y, i) && #[trigger] sprite_cell(rows, x, y, i)
            == PIXEL_COLOR
}

/// On a blank display a sprite never collides; drawn a second time at the
/// same place it collides exactly when it lit some cell.
pub proof fn lemma_draw_on_blank(rows: Seq<u8>, x: int, y: int)
    ensures
        !collides(blank_display(), rows, x, y),
        collides(draw_sprite(blank_display(), rows, x, y), rows, x, y) == lights_any(
            (WIDTH * HEIGHT) as int,
            rows,
            x,
            y,
        ),
{
    let blank = blank_display();
    let once = draw_sprite(blank, rows, x, y);
    if lights_any((WIDTH * HEIGHT) as int, rows, x, y) {
        let i = choose|i: int|
            0 <= i < WIDTH * HEIGHT && covers(rows.len() as int, x, y, i) && #[trigger] sprite_cell(
                rows,
                x,
                y,
                i,
            ) == PIXEL_COLOR;
        assert(once[i] == PIXEL_COLOR);
    }
}

proof fn lemma_shifted_bit(b: u8, i: u8)
    requires
        i < 8,
    ensures
        ((b << i) & 0x80u8 == 0x80u8) == (b & (0x80u8 >> i) != 0),
        (b << i) << 1u8 == b << ((i + 1) as u8),
{
    assert(((b << i) & 0x80u8 == 0x80u8) == (b & (0x80u8 >> i) != 0)) by (bit_vector)
        requires
            i < 8,
    ;
    assert((b << i) << 1u8 == b << ((i + 1) as u8)) by (bit_vector)
        requires
            i < 8,
    ;
}

/// Expands each sprite byte into the eight colours of its row, most
/// significant bit first.
pub fn bytes_to_pixels(bytes: Vec<u8>) -> (rows: Vec<[u32; 8]>)
    ensures
        rows@.len() == bytes@.len(),
        forall|r: int, c: int|
            0 <= r < bytes@.len() && 0 <= c < 8 ==> #[trigger] rows@[r]@[c] == sprite_pixel(
                bytes@[r],
                c,
            ),
{
    let mut rows: Vec<[u32; 8]> = Vec::new();
    let mut k: usize = 0;
    while k < bytes.len()
        invariant
            k <= bytes@.len(),
            rows@.len() == k,
            forall|r: int, c: int|
                0 <= r < k && 0 <= c < 8 ==> #[trigger] rows@[r]@[c] == sprite_pixel(
                    bytes@[r],
                    c,
                ),
        decreases bytes@.len() - k,
    {
        let original: u8 = bytes[k];
        let mut byte: u8 = original;
        let mut row: [u32; 8] = [BG_COLOR; 8];
        let mut i: usize = 0;
        assert(original << 0u8 == original) by (bit_vector);
        while i < 8
            invariant
                i <= 8,
                byte == original << (i as u8),
                forall|c: int| 0 <= c < i ==> #[trigger] row@[c] == sprite_pixel(original, c),
            decreases 8 - i,
        {
            proof {
                lemma_shifted_bit(original, i as u8);
            }
            let pixel: u8 = byte & 0b1000_0000;
            byte = byte << 1u8;
            row[i] = if pixel == 0b1000_0000 {
                PIXEL_COLOR
            } else {
                BG_COLOR
            };
            i += 1;
        }
        rows.push(row);
        k += 1;
    }
    rows
}

impl DisplayBuffer {
    /// Whether `xor_write` can draw a sprite of `rows` rows at column `x`, row
    /// `y`: every cell it touches lies inside the buffer, and the columns it
    /// visits do not overflow.
    pub fn sprite_in_bounds(&self, rows: usize, x: usize, y: usize) -> (ok: bool)
        ensures
            ok == (sprite_fits(self.0@.len() as int, rows as int, x as int, y as int) && (y
                < HEIGHT && rows > 0 ==> x + 7 <= usize::MAX)),
    {
        let row_count: usize = if y >= HEIGHT {
            0
        } else if rows < HEIGHT - y {
            rows
        } else {
            HEIGHT - y
        };
        let col_count: usize = if x >= WIDTH {
            0
        } else if 8 < WIDTH - x {
            8
        } else {
            WIDTH - x
        };
        let no_overflow: bool = !(y < HEIGHT && rows > 0) || x <= usize::MAX - 7;
        if row_count == 0 || col_count == 0 {
            no_overflow
        } else {
            no_overflow && (y + row_count - 1) * WIDTH + x + col_count - 1 < self.0.len()
        }
    }
    /// XOR-draws a sprite of `bytes.len()` rows, eight cells wide, with its
    /// top-left corner at column `x`, row `y`, clipping what falls past the
    /// right or bottom edge. Returns whether a lit cell was turned off.
    pub fn xor_write(&mut self, bytes: Vec<u8>, x: usize, y: usize) -> (collision: bool)
        requires
            sprite_fits(old(self).0@.len() as int, bytes@.len() as int, x as int, y as int),
            y < HEIGHT && bytes@.len() > 0 ==> x + 7 <= usize::MAX,
        ensures
            final(self).0@ == draw_sprite(old(self).0@, bytes@, x as int, y as int),
            collision == collides(old(self).0@, bytes@, x as int, y as int),
    {
        let ghost d0 = self.0@;
        let ghost sprite = bytes@;
        let ghost nrows = bytes@.len() as int;
        let pixel_vec = bytes_to_pixels(bytes);
        let mut collision = false;
        let row_count: usize = if y >= HEIGHT {
            0
        } else if pixel_vec.len() < HEIGHT - y {
            pixel_vec.len()
        } else {
            HEIGHT - y
        };
        let col_count: usize = if x >= WIDTH {
            0
        } else if 8 < WIDTH - x {
            8
        } else {
            WIDTH - x
        };
        let mut y_offset: usize = 0;
        while y_offset < row_count
            invariant
                row_count == visible_rows(nrows, y as int),
                col_count == visible_cols(x as int),
                pixel_vec@.len() == nrows,
                sprite.len() == nrows,
                forall|r: int, c: int|
                    0 <= r < nrows && 0 <= c < 8 ==> #[trigger] pixel_vec@[r]@[c] == sprite_pixel(
                        sprite[r],
                        c,
                    ),
                sprite_fits(d0.len() as int, nrows, x as int, y as int),
                y_offset <= row_count,
                self.0@ == partial_draw(d0, sprite, x as int, y as int, y_offset as int, 0),
                collision == partial_collision(d0, sprite, x as int, y as int, y_offset as int, 0),
            decreases row_count - y_offset,
        {
            let n_y: usize = y + y_offset;
            let row: [u32; 8] = pixel_vec[y_offset];
            let mut x_offset: usize = 0;
            while x_offset < col_count
                invariant
                    row_count == visible_rows(nrows, y as int),
                    col_count == visible_cols(x as int),
                    n_y == y + y_offset,
                    y_offset < row_count,
                    forall|c: int| 0 <= c < 8 ==> #[trigger] row@[c] == sprite_pixel(sprite[y_offset as int], c),
                    sprite.len() == nrows,
                    sprite_fits(d0.len() as int, nrows, x as int, y as int),
                    x_offset <= col_count,
                    self.0@ == partial_draw(
                        d0,
                        sprite,
                        x as int,
                        y as int,
                        y_offset as int,
                        x_offset as int,
                    ),
                    collision == partial_collision(
                        d0,
                        sprite,
                        x as int,
                        y as int,
                        y_offset as int,
                        x_offset as int,
                    ),
                decreases col_count - x_offset,
            {
                let n_x: usize = x + x_offset;
                let pos: usize = n_y * WIDTH + n_x;
                let pixel: u32 = row[x_offset];
                let ghost before = self.0@;
                let ghost old_collision = collision;
                proof {
                    lemma_cell_index(pos as int, n_y as int, n_x as int);
                    assert(covers(nrows, x as int, y as int, pos as int));
                    assert(sprite_cell(sprite, x as int, y as int, pos as int) == pixel);
                }
                if self.0[pos] == pixel {
                    self.0.set(pos, BG_COLOR);
                    if pixel == PIXEL_COLOR {
                        collision = true;
                    }
                } else {
                    self.0.set(pos, PIXEL_COLOR);
                }
                proof {
                    assert forall|i: int| 0 <= i < d0.len() implies
                        drawn_so_far(nrows, x as int, y as int, i, y_offset as int, x_offset + 1)
                        == (drawn_so_far(nrows, x as int, y as int, i, y_offset as int, x_offset as int)
                            || i == pos) by {
                        lemma_cell_index(i, n_y as int, n_x as int);
                    }
                    assert(self.0@ =~= partial_draw(
                        d0,
                        sprite,
                        x as int,
                        y as int,
                        y_offset as int,
                        x_offset + 1,
                    ));
                    if collision {
                        if !old_collision {
                            assert(partial_collision(d0, sprite, x as int, y as int, y_offset as int, x_offset + 1)) by {
                                assert(sprite_cell(sprite, x as int, y as int, pos as int) == PIXEL_COLOR);
                            }
                        } else {
                            let w = choose|i: int|
                                0 <= i < d0.len() && drawn_so_far(nrows, x as int, y as int, i, y_offset as int, x_offset as int)
                                    && #[trigger] sprite_cell(sprite, x as int, y as int, i) == PIXEL_COLOR && d0[i] == PIXEL_COLOR;
                            assert(drawn_so_far(nrows, x as int, y as int, w, y_offset as int, x_offset + 1));
                        }
                    } else {
                        assert(!partial_collision(d0, sprite, x as int, y as int, y_offset as int, x_offset + 1));
                    }
                }
                x_offset += 1;
            }
            proof {
                assert forall|i: int| 0 <= i < d0.len() implies
                    drawn_so_far(nrows, x as int, y as int, i, y_offset + 1, 0)
                    == drawn_so_far(nrows, x as int, y as int, i, y_offset as int, col_count as int) by {
                    lemma_cell_index(i, 0, 0);
                }
                assert(self.0@ =~= partial_draw(d0, sprite, x as int, y as int, y_offset + 1, 0));
            }
            y_offset += 1;
        }
        proof {
            assert forall|i: int| 0 <= i < d0.len() implies
                drawn_so_far(nrows, x as int, y as int, i, row_count as int, 0)
                == covers(nrows, x as int, y as int, i) by {
                lemma_cell_index(i, 0, 0);
            }
            assert(self.0@ =~= draw_sprite(d0, sprite, x as int, y as int));
        }
        collision
    }

    /// Blanks the whole display: afterwards it holds `WIDTH * HEIGHT` cells,
    /// all of the background colour.
    pub fn clear(&mut self)
        ensures
            final(self).0@ == blank_display(),
    {
        self.0 = vec![BG_COLOR; WIDTH * HEIGHT];
        assert(self.0@ =~= blank_display());
    }
}

} // verus!
