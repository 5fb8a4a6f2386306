//! The display buffer: a 64x32 grid of pixels that are either lit or dark.
//!
//! The grid is stored row by row. It changes in two ways only: it is
//! cleared, or a sprite is drawn onto it by exclusive or.

use vstd::prelude::*;

verus! {

/// Number of pixels in one row of the grid.
pub const WIDTH: usize = 64;

/// Number of rows in the grid.
pub const HEIGHT: usize = 32;

/// Number of columns in a sprite.
pub const SPRITE_WIDTH: usize = 8;

/// Number of screen pixels along one side of a grid cell.
pub const SCALE: usize = 10;

/// A filled rectangle on the screen, in screen pixels.
#[derive(Debug, Clone, Copy, PartialEq, Eq, Structural)]
pub struct Rect {
    pub x: i32,
    pub y: i32,
    pub width: u32,
    pub height: u32,
}

/// The square on the screen that shows the cell at index `c` of the grid.
pub open spec fn cell_rect(c: int) -> Rect {
    Rect {
        x: (c % WIDTH as int * SCALE) as i32,
        y: (c / WIDTH as int * SCALE) as i32,
        width: SCALE as u32,
        height: SCALE as u32,
    }
}

/// Whether `rect` is the square of a lit cell of `pixels`.
pub open spec fn shows_lit_cell(pixels: Seq<bool>, rect: Rect) -> bool {
    exists|c: int| 0 <= c < pixels.len() && pixels[c] && #[trigger] cell_rect(c) == rect
}

/// The grid with every pixel dark.
pub open spec fn cleared() -> Seq<bool> {
    Seq::new((WIDTH * HEIGHT) as nat, |c: int| false)
}

/// The value that the bit of column `col` has in a sprite row. Column 0 is
/// the most significant bit.
pub open spec fn column_weight(col: int) -> int {
    if col == 0 {
        128
    } else if col == 1 {
        64
    } else if col == 2 {
        32
    } else if col == 3 {
        16
    } else if col == 4 {
        8
    } else if col == 5 {
        4
    } else if col == 6 {
        2
    } else {
        1
    }
}

/// Whether column `col` of the sprite row `row` is set.
pub open spec fn sprite_bit(row: u8, col: int) -> bool {
    row as int / column_weight(col) % 2 == 1
}

/// The bit that a shift and a mask pick from a sprite row is that of
/// [`sprite_bit`].
proof fn lemma_sprite_bit(row: u8, col: u8)
    requires
        col < SPRITE_WIDTH,
    ensures
        ((row >> (7 - col) as u8) & 1 != 0) == sprite_bit(row, col as int),
{
    assert(((row >> (7 - col) as u8) & 1 != 0) == (row / (128u8 >> col) % 2 == 1)) by (bit_vector)
        requires
            col < 8,
    ;
    assert(128u8 >> col == if col == 0 {
        128u8
    } else if col == 1 {
        64u8
    } else if col == 2 {
        32u8
    } else if col == 3 {
        16u8
    } else if col == 4 {
        8u8
    } else if col == 5 {
        4u8
    } else if col == 6 {
        2u8
    } else {
        1u8
    }) by (bit_vector)
        requires
            col < 8,
    ;
}

/// The column a sprite starts in when asked to start in column `x`: a start
/// to the right of the grid is moved to column 0.
pub open spec fn start_column(x: u8) -> int {
    if x >= WIDTH {
        0
    } else {
        x as int
    }
}

/// Whether the sprite `rows`, with its top left corner at column `x0` and
/// row `y0`, has a set bit over the cell in column `x` and row `y`.
pub open spec fn sprite_covers(rows: Seq<u8>, x0: int, y0: int, x: int, y: int) -> bool {
    &&& 0 <= x - x0 < SPRITE_WIDTH
    &&& 0 <= y - y0 < rows.len()
    &&& sprite_bit(rows[y - y0], x - x0)
}

/// The grid `pixels` after the sprite `rows` was drawn at `(x, y)`: each
/// cell under a set bit of the sprite is flipped. Parts of the sprite that
/// lie outside the grid are cut off.
pub open spec fn drawn(pixels: Seq<bool>, rows: Seq<u8>, x: u8, y: u8) -> Seq<bool> {
    Seq::new(
        pixels.len(),
        |c: int|
            pixels[c] != sprite_covers(rows, start_column(x), y as int, c % WIDTH as int, c / WIDTH as int),
    )
}

/// Whether drawing the sprite `rows` at `(x, y)` onto `pixels` turns a lit
/// pixel dark. One such pixel is enough, wherever in the sprite it lies.
pub open spec fn collides(pixels: Seq<bool>, rows: Seq<u8>, x: u8, y: u8) -> bool {
    exists|c: int|
        0 <= c < pixels.len() && #[trigger] pixels[c] && sprite_covers(
            rows,
            start_column(x),
            y as int,
            c % WIDTH as int,
            c / WIDTH as int,
        )
}

/// Whether the cell `c` lies under a set bit of that part of the sprite
/// which comes before column `col` of row `row`.
spec fn covered_before(rows: Seq<u8>, x0: int, y0: int, c: int, row: int, col: int) -> bool {
    let x = c % WIDTH as int;
    let y = c / WIDTH as int;
    sprite_covers(rows, x0, y0, x, y) && (y - y0 < row || (y - y0 == row && x - x0 < col))
}

/// The display buffer.
pub struct Display {
    matrix: Vec<bool>,
}

impl Display {
    /// The pixels row by row: the cell in column `x` of row `y` is at index
    /// `y * WIDTH + x`.
    pub closed spec fn view(&self) -> Seq<bool> {
        self.matrix@
    }

    /// The grid has its full size.
    pub open spec fn wf(&self) -> bool {
        self@.len() == WIDTH * HEIGHT
    }

    /// A display with every pixel dark.
    pub fn new() -> (display: Display)
        ensures
            display.wf(),
            display@ == cleared(),
    {
        let matrix: Vec<bool> = vec![false; WIDTH * HEIGHT];
        assert(matrix@ =~= cleared());
        Display { matrix }
    }

    /// Turns every pixel dark.
    pub fn clear(&mut self)
        requires
            old(self).wf(),
        ensures
            final(self).wf(),
            final(self)@ == cleared(),
    {
        let mut i: usize = 0;
        while i < self.matrix.len()
            invariant
                self.matrix@.len() == WIDTH * HEIGHT,
                i <= self.matrix@.len(),
                forall|j: int| 0 <= j < i ==> !self.matrix@[j],
            decreases self.matrix@.len() - i,
        {
            self.matrix[i] = false;
            i += 1;
        }
        assert(self.matrix@ =~= cleared());
    }

    /// Whether the pixel in column `x` of row `y` is lit. No pixel outside
    /// the grid is.
    pub fn pixel(&self, x: usize, y: usize) -> (lit: bool)
        requires
            self.wf(),
        ensures
            lit == (x < WIDTH && y < HEIGHT && self@[y * WIDTH + x]),
    {
        x < WIDTH && y < HEIGHT && self.matrix[y * WIDTH + x]
    }

    /// The squares that a renderer has to fill to show the grid: one for
    /// each lit pixel and none for a dark one, row by row from the top and
    /// from left to right within a row.
    pub fn draw(&self) -> (rects: Vec<Rect>)
        requires
            self.wf(),
        ensures
            forall|i: int| 0 <= i < rects@.len() ==> shows_lit_cell(self@, #[trigger] rects@[i]),
            forall|c: int|
                0 <= c < self@.len() && #[trigger] self@[c] ==> rects@.contains(cell_rect(c)),
            forall|i: int, j: int|
                0 <= i < j < rects@.len() ==> (#[trigger] rects@[i]).y < (#[trigger] rects@[j]).y
                    || (rects@[i].y == rects@[j].y && rects@[i].x < rects@[j].x),
    {
        let mut rects: Vec<Rect> = Vec::new();
        let ghost mut cells: Seq<int> = Seq::empty();
        let mut y: usize = 0;
        while y < HEIGHT
            invariant
                y <= HEIGHT,
                self.wf(),
                cells.len() == rects@.len(),
                forall|i: int|
                    0 <= i < cells.len() ==> 0 <= #[trigger] cells[i] < y * WIDTH && self@[cells[i]]
                        && rects@[i] == cell_rect(cells[i]),
                forall|c: int|
                    0 <= c < y * WIDTH && self@[c] ==> exists|i: int|
                        0 <= i < cells.len() && #[trigger] cells[i] == c,
                forall|i: int, j: int|
                    0 <= i < j < cells.len() ==> #[trigger] cells[i] < #[trigger] cells[j],
            decreases HEIGHT - y,
        {
            let mut x: usize = 0;
            while x < WIDTH
                invariant
                    y < HEIGHT,
                    x <= WIDTH,
                    self.wf(),
                    cells.len() == rects@.len(),
                    forall|i: int|
                        0 <= i < cells.len() ==> 0 <= #[trigger] cells[i] < y * WIDTH + x
                            && self@[cells[i]] && rects@[i] == cell_rect(cells[i]),
                    forall|c: int|
                        0 <= c < y * WIDTH + x && self@[c] ==> exists|i: int|
                            0 <= i < cells.len() && #[trigger] cells[i] == c,
                    forall|i: int, j: int|
                        0 <= i < j < cells.len() ==> #[trigger] cells[i] < #[trigger] cells[j],
                decreases WIDTH - x,
            {
                let c: usize = y * WIDTH + x;
                if self.matrix[c] {
                    let ghost before = cells;
                    rects.push(
                        Rect {
                            x: (x * SCALE) as i32,
                            y: (y * SCALE) as i32,
                            width: SCALE as u32,
                            height: SCALE as u32,
                        },
                    );
                    proof {
                        cells = cells.push(c as int);
                        assert(forall|i: int| 0 <= i < before.len() ==> cells[i] == before[i]);
                        assert(cells[before.len() as int] == c);
                        assert forall|k: int| 0 <= k < y * WIDTH + x + 1 && self@[k] implies exists|i: int|
                            0 <= i < cells.len() && #[trigger] cells[i] == k by {
                            if k < c {
                                let i = choose|i: int| 0 <= i < before.len() && #[trigger] before[i] == k;
                                assert(cells[i] == k);
                            } else {
                                assert(cells[before.len() as int] == k);
                            }
                        }
                    }
                }
                x += 1;
            }
            y += 1;
        }
        proof {
            assert forall|i: int| 0 <= i < rects@.len() implies shows_lit_cell(
                self@,
                #[trigger] rects@[i],
            ) by {
                assert(cell_rect(cells[i]) == rects@[i]);
            }
            assert forall|c: int| 0 <= c < self@.len() && #[trigger] self@[c] implies rects@.contains(
                cell_rect(c),
            ) by {
                let i = choose|i: int| 0 <= i < cells.len() && #[trigger] cells[i] == c;
                assert(rects@[i] == cell_rect(c));
            }
            assert forall|i: int, j: int| 0 <= i < j < rects@.len() implies (#[trigger] rects@[i]).y < (
            #[trigger] rects@[j]).y || (rects@[i].y == rects@[j].y && rects@[i].x < rects@[j].x) by {
                assert(cells[i] < cells[j]);
                assert(rects@[i] == cell_rect(cells[i]));
                assert(rects@[j] == cell_rect(cells[j]));
            }
        }
        rects
    }

    /// Draws the sprite `rows` with its top left corner at column `x` of row
    /// `y`, and reports whether a lit pixel went dark.
    pub fn draw_sprite(&mut self, x: u8, y: u8, rows: &[u8]) -> (collision: bool)
        requires
            old(self).wf(),
        ensures
            final(self).wf(),
            final(self)@ == drawn(old(self)@, rows@, x, y),
            collision == collides(old(self)@, rows@, x, y),
    {
        let start_x: usize = if x as usize >= WIDTH {
            0
        } else {
            x as usize
        };
        let start_y: usize = y as usize;
        let ghost before = self.matrix@;
        let ghost x0 = start_column(x);
        let ghost y0 = y as int;
        let mut collision = false;
        let mut row: usize = 0;
        while row < rows.len()
            invariant
                row <= rows@.len(),
                start_x == x0 < WIDTH,
                start_y == y0,
                before.len() == WIDTH * HEIGHT,
                self.matrix@.len() == before.len(),
                forall|c: int|
                    0 <= c < before.len() ==> self.matrix@[c] == (before[c] != covered_before(
                        rows@,
                        x0,
                        y0,
                        c,
                        row as int,
                        0,
                    )),
                collision <==> exists|c: int|
                    0 <= c < before.len() && #[trigger] before[c] && covered_before(
                        rows@,
                        x0,
                        y0,
                        c,
                        row as int,
                        0,
                    ),
            decreases rows@.len() - row,
        {
            if start_y < HEIGHT && row < HEIGHT - start_y {
                let bits = rows[row];
                let final_y: usize = start_y + row;
                let mut col: usize = 0;
                while col < SPRITE_WIDTH
                    invariant
                        col <= SPRITE_WIDTH,
                        row < rows@.len(),
                        bits == rows@[row as int],
                        start_x == x0 < WIDTH,
                        start_y == y0,
                        final_y == y0 + row < HEIGHT,
                        before.len() == WIDTH * HEIGHT,
                        self.matrix@.len() == before.len(),
                        forall|c: int|
                            0 <= c < before.len() ==> self.matrix@[c] == (before[c]
                                != covered_before(rows@, x0, y0, c, row as int, col as int)),
                        collision <==> exists|c: int|
                            0 <= c < before.len() && #[trigger] before[c] && covered_before(
                                rows@,
                                x0,
                                y0,
                                c,
                                row as int,
                                col as int,
                            ),
                    decreases SPRITE_WIDTH - col,
                {
                    let final_x: usize = start_x + col;
                    if final_x < WIDTH {
                        let coord: usize = final_y * WIDTH + final_x;
                        proof {
                            lemma_sprite_bit(bits, col as u8);
                        }
                        if (bits >> (7 - col as u8)) & 1 != 0 {
                            assert(covered_before(rows@, x0, y0, coord as int, row as int, col + 1));
                            if self.matrix[coord] {
                                assert(before[coord as int]);
                                collision = true;
                            }
                            let lit = self.matrix[coord];
                            self.matrix[coord] = !lit;
                        }
                    }
                    col += 1;
                }
            }
            row += 1;
        }
        assert(self.matrix@ =~= drawn(before, rows@, x, y));
        collision
    }
}

/// Drawing a sprite onto a dark grid lights exactly the cells under its set
/// bits, and no pixel goes dark.
pub proof fn lemma_draw_on_cleared(rows: Seq<u8>, x: u8, y: u8)
    ensures
        !collides(cleared(), rows, x, y),
        forall|c: int|
            0 <= c < WIDTH * HEIGHT ==> drawn(cleared(), rows, x, y)[c] == sprite_covers(
                rows,
                start_column(x),
                y as int,
                c % WIDTH as int,
                c / WIDTH as int,
            ),
{
}

/// Drawing the same sprite twice at the same place gives the grid back,
/// and the second draw turns a pixel dark exactly when the first one lit
/// one.
pub proof fn lemma_draw_twice(pixels: Seq<bool>, rows: Seq<u8>, x: u8, y: u8)
    ensures
        drawn(drawn(pixels, rows, x, y), rows, x, y) == pixels,
        collides(drawn(pixels, rows, x, y), rows, x, y) <==> exists|c: int|
            0 <= c < pixels.len() && !#[trigger] pixels[c] && sprite_covers(
                rows,
                start_column(x),
                y as int,
                c % WIDTH as int,
                c / WIDTH as int,
            ),
{
    let once = drawn(pixels, rows, x, y);
    assert(drawn(once, rows, x, y) =~= pixels);
    if collides(once, rows, x, y) {
        let c = choose|c: int|
            0 <= c < once.len() && #[trigger] once[c] && sprite_covers(
                rows,
                start_column(x),
                y as int,
                c % WIDTH as int,
                c / WIDTH as int,
            );
        assert(!pixels[c]);
    }
    if exists|c: int|
        0 <= c < pixels.len() && !#[trigger] pixels[c] && sprite_covers(
            rows,
            start_column(x),
            y as int,
            c % WIDTH as int,
            c / WIDTH as int,
        ) {
        let c = choose|c: int|
            0 <= c < pixels.len() && !#[trigger] pixels[c] && sprite_covers(
                rows,
                start_column(x),
                y as int,
                c % WIDTH as int,
                c / WIDTH as int,
            );
        assert(once[c]);
    }
}

} // verus!
