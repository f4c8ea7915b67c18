//! The 64x32 monochrome framebuffer and the drawing of sprites onto it.

use vstd::prelude::*;

verus! {

pub const DISPLAY_HEIGHT: usize = 32;

pub const DISPLAY_WIDTH: usize = 64;

/// Number of pixels in one row of a sprite.
pub const SPRITE_WIDTH: usize = 8;

/// A pixel grid as a mathematical value: a sequence of rows, each a sequence
/// of pixel states. The pixel at column `x` of row `y` is `grid[y][x]`.
pub type Grid = Seq<Seq<bool>>;

/// `grid` has exactly the dimensions of the display.
pub open spec fn is_grid(grid: Grid) -> bool {
    &&& grid.len() == DISPLAY_HEIGHT
    &&& forall|y: int| 0 <= y < DISPLAY_HEIGHT ==> (#[trigger] grid[y]).len() == DISPLAY_WIDTH
}

/// `(x, y)` names a pixel of the display.
pub open spec fn in_grid(x: int, y: int) -> bool {
    0 <= x < DISPLAY_WIDTH && 0 <= y < DISPLAY_HEIGHT
}

/// The grid whose every pixel is `v`.
pub open spec fn uniform_grid(v: bool) -> Grid {
    Seq::new(DISPLAY_HEIGHT as nat, |y: int| Seq::new(DISPLAY_WIDTH as nat, |x: int| v))
}

/// `grid` with the pixel at `(x, y)` toggled and every other pixel kept.
pub open spec fn flip_grid(grid: Grid, x: int, y: int) -> Grid {
    grid.update(y, grid[y].update(x, !grid[y][x]))
}

/// Whether the bit of a sprite row that belongs to column `col` of the sprite
/// is set. Column 0 is the most significant bit.
pub open spec fn sprite_bit(row: u8, col: int) -> bool {
    row & (0x80u8 >> (col as u8)) != 0
}

/// Whether the sprite with the rows `rows`, drawn with its top left corner at
/// `(dx, dy)`, has a set bit on the pixel `(px, py)`. Columns wrap at the
/// right edge and rows at the bottom edge, each pixel by itself.
pub open spec fn sprite_covers(rows: Seq<u8>, dx: int, dy: int, px: int, py: int) -> bool {
    let col = (px - dx) % (DISPLAY_WIDTH as int);
    let row = (py - dy) % (DISPLAY_HEIGHT as int);
    col < SPRITE_WIDTH && row < rows.len() && sprite_bit(rows[row], col)
}

/// `grid` after the sprite was drawn onto it: every pixel under a set bit of
/// the sprite is toggled, every other pixel is kept.
pub open spec fn draw_grid(grid: Grid, rows: Seq<u8>, dx: int, dy: int) -> Grid {
    Seq::new(
        DISPLAY_HEIGHT as nat,
        |py: int|
            Seq::new(
                DISPLAY_WIDTH as nat,
                |px: int| grid[py][px] != sprite_covers(rows, dx, dy, px, py),
            ),
    )
}

/// The pixel `(px, py)` is on in `before` and off in `after`.
pub open spec fn turned_off(before: Grid, after: Grid, px: int, py: int) -> bool {
    before[py][px] && !after[py][px]
}

/// Some pixel of the display is on in `before` and off in `after`.
pub open spec fn collision(before: Grid, after: Grid) -> bool {
    exists|px: int, py: int| in_grid(px, py) && #[trigger] turned_off(before, after, px, py)
}

/// Toggling one pixel twice gives back the grid as it was.
pub proof fn lemma_flip_twice(grid: Grid, x: int, y: int)
    requires
        is_grid(grid),
        in_grid(x, y),
    ensures
        flip_grid(flip_grid(grid, x, y), x, y) == grid,
{
    assert(flip_grid(flip_grid(grid, x, y), x, y) =~~= grid);
}

/// Toggling a pixel changes that pixel and no other, and keeps the
/// dimensions.
pub proof fn lemma_flip_pixels(grid: Grid, x: int, y: int, px: int, py: int)
    requires
        is_grid(grid),
        in_grid(x, y),
        in_grid(px, py),
    ensures
        is_grid(flip_grid(grid, x, y)),
        flip_grid(grid, x, y)[py][px] == if px == x && py == y {
            !grid[py][px]
        } else {
            grid[py][px]
        },
{
}

/// Every pixel of the uniform grid of `v` is `v`, whichever is read and
/// however often.
pub proof fn lemma_uniform_pixels(v: bool, x: int, y: int)
    requires
        in_grid(x, y),
    ensures
        is_grid(uniform_grid(v)),
        uniform_grid(v)[y][x] == v,
{
}

/// A draw reports a collision exactly where a pixel that was on lies under
/// a set bit of the sprite.
pub proof fn lemma_collision_is_overlap(grid: Grid, rows: Seq<u8>, dx: int, dy: int)
    requires
        is_grid(grid),
    ensures
        collision(grid, draw_grid(grid, rows, dx, dy)) <==> exists|px: int, py: int|
            in_grid(px, py) && grid[py][px] && #[trigger] sprite_covers(rows, dx, dy, px, py),
{
    let after = draw_grid(grid, rows, dx, dy);
    if collision(grid, after) {
        let (px, py) = choose|px: int, py: int|
            in_grid(px, py) && #[trigger] turned_off(grid, after, px, py);
        assert(in_grid(px, py) && grid[py][px] && sprite_covers(rows, dx, dy, px, py));
    }
    if exists|px: int, py: int|
        in_grid(px, py) && grid[py][px] && #[trigger] sprite_covers(rows, dx, dy, px, py) {
        let (px, py) = choose|px: int, py: int|
            in_grid(px, py) && grid[py][px] && #[trigger] sprite_covers(rows, dx, dy, px, py);
        assert(turned_off(grid, after, px, py));
    }
}

/// Whether the sprite has a set bit on the pixel `(px, py)` in one of its
/// cells that come, row by row, before the cell in row `row` and column
/// `col`.
spec fn covers_before(rows: Seq<u8>, dx: int, dy: int, row: int, col: int, px: int, py: int) -> bool {
    let c = (px - dx) % (DISPLAY_WIDTH as int);
    let r = (py - dy) % (DISPLAY_HEIGHT as int);
    sprite_covers(rows, dx, dy, px, py) && (r < row || (r == row && c < col))
}

/// The pixel `(px, py)` is on in `before` and under a set bit of the cells
/// that `covers_before` describes.
spec fn hit_before(
    before: Grid,
    rows: Seq<u8>,
    dx: int,
    dy: int,
    row: int,
    col: int,
    px: int,
    py: int,
) -> bool {
    before[py][px] && covers_before(rows, dx, dy, row, col, px, py)
}

/// Some pixel of the display is hit by those cells.
spec fn hits_before(before: Grid, rows: Seq<u8>, dx: int, dy: int, row: int, col: int) -> bool {
    exists|px: int, py: int|
        in_grid(px, py) && #[trigger] hit_before(before, rows, dx, dy, row, col, px, py)
}

/// The grid shows `before` with the cells before `(row, col)` drawn.
spec fn drawn_before(
    shown: Grid,
    before: Grid,
    rows: Seq<u8>,
    dx: int,
    dy: int,
    row: int,
    col: int,
) -> bool {
    &&& is_grid(shown)
    &&& forall|px: int, py: int|
        in_grid(px, py) ==> #[trigger] shown[py][px] == (before[py][px] != covers_before(
            rows,
            dx,
            dy,
            row,
            col,
            px,
            py,
        ))
}

/// The one pixel that the cell `(row, col)` of a sprite at `(dx, dy)` lies
/// on is `((dx + col) % DISPLAY_WIDTH, (dy + row) % DISPLAY_HEIGHT)`.
proof fn lemma_cell_pixel(dx: int, dy: int, row: int, col: int, px: int, py: int)
    requires
        in_grid(dx, dy),
        in_grid(px, py),
        0 <= row < DISPLAY_HEIGHT,
        0 <= col < SPRITE_WIDTH,
    ensures
        ((px - dx) % (DISPLAY_WIDTH as int) == col) <==> px == (dx + col) % (DISPLAY_WIDTH as int),
        ((py - dy) % (DISPLAY_HEIGHT as int) == row) <==> py == (dy + row) % (
        DISPLAY_HEIGHT as int),
{
}

/// The cells before `(row, col + 1)` are those before `(row, col)` and the
/// cell `(row, col)` itself.
proof fn lemma_covers_step(
    rows: Seq<u8>,
    dx: int,
    dy: int,
    row: int,
    col: int,
    px: int,
    py: int,
)
    requires
        in_grid(dx, dy),
        in_grid(px, py),
        0 <= row < rows.len() <= DISPLAY_HEIGHT,
        0 <= col < SPRITE_WIDTH,
    ensures
        covers_before(rows, dx, dy, row, col + 1, px, py) == (covers_before(
            rows,
            dx,
            dy,
            row,
            col,
            px,
            py,
        ) || (sprite_bit(rows[row], col) && px == (dx + col) % (DISPLAY_WIDTH as int) && py == (dy
            + row) % (DISPLAY_HEIGHT as int))),
        (px == (dx + col) % (DISPLAY_WIDTH as int) && py == (dy + row) % (DISPLAY_HEIGHT as int))
            ==> !covers_before(rows, dx, dy, row, col, px, py),
{
    lemma_cell_pixel(dx, dy, row, col, px, py);
}

/// Drawing the cell `(row, col)`, by toggling its pixel where its bit is
/// set, takes a grid that shows the cells before `(row, col)` to one that
/// shows the cells before `(row, col + 1)`; a hit is added exactly where the
/// toggled pixel was on.
proof fn lemma_draw_cell(
    shown: Grid,
    before: Grid,
    rows: Seq<u8>,
    dx: int,
    dy: int,
    row: int,
    col: int,
)
    requires
        is_grid(before),
        drawn_before(shown, before, rows, dx, dy, row, col),
        in_grid(dx, dy),
        0 <= row < rows.len() <= DISPLAY_HEIGHT,
        0 <= col < SPRITE_WIDTH,
    ensures
        ({
            let x = (dx + col) % (DISPLAY_WIDTH as int);
            let y = (dy + row) % (DISPLAY_HEIGHT as int);
            let set = sprite_bit(rows[row], col);
            &&& in_grid(x, y)
            &&& drawn_before(
                if set {
                    flip_grid(shown, x, y)
                } else {
                    shown
                },
                before,
                rows,
                dx,
                dy,
                row,
                col + 1,
            )
            &&& hits_before(before, rows, dx, dy, row, col + 1) == (hits_before(
                before,
                rows,
                dx,
                dy,
                row,
                col,
            ) || (set && shown[y][x]))
        }),
{
    let x = (dx + col) % (DISPLAY_WIDTH as int);
    let y = (dy + row) % (DISPLAY_HEIGHT as int);
    let set = sprite_bit(rows[row], col);
    let next = if set {
        flip_grid(shown, x, y)
    } else {
        shown
    };
    assert forall|px: int, py: int| in_grid(px, py) implies #[trigger] next[py][px] == (
    before[py][px] != covers_before(rows, dx, dy, row, col + 1, px, py)) by {
        lemma_covers_step(rows, dx, dy, row, col, px, py);
        assert(shown[py][px] == (before[py][px] != covers_before(rows, dx, dy, row, col, px, py)));
    }
    lemma_covers_step(rows, dx, dy, row, col, x, y);
    assert(shown[y][x] == before[y][x]);
    if hits_before(before, rows, dx, dy, row, col + 1) {
        let (px, py) = choose|px: int, py: int|
            in_grid(px, py) && #[trigger] hit_before(before, rows, dx, dy, row, col + 1, px, py);
        lemma_covers_step(rows, dx, dy, row, col, px, py);
        if !(set && px == x && py == y) {
            assert(hit_before(before, rows, dx, dy, row, col, px, py));
        }
    }
    if hits_before(before, rows, dx, dy, row, col) {
        let (px, py) = choose|px: int, py: int|
            in_grid(px, py) && #[trigger] hit_before(before, rows, dx, dy, row, col, px, py);
        lemma_covers_step(rows, dx, dy, row, col, px, py);
        assert(hit_before(before, rows, dx, dy, row, col + 1, px, py));
    }
    if set && shown[y][x] {
        assert(hit_before(before, rows, dx, dy, row, col + 1, x, y));
    }
}

/// The cells before `(row_a, col_a)` and those before `(row_b, col_b)`
/// are the same cells: what holds of the one holds of the other.
proof fn lemma_same_cells(
    shown: Grid,
    before: Grid,
    rows: Seq<u8>,
    dx: int,
    dy: int,
    row_a: int,
    col_a: int,
    row_b: int,
    col_b: int,
)
    requires
        forall|px: int, py: int|
            in_grid(px, py) ==> covers_before(rows, dx, dy, row_a, col_a, px, py)
                == covers_before(rows, dx, dy, row_b, col_b, px, py),
    ensures
        drawn_before(shown, before, rows, dx, dy, row_a, col_a) == drawn_before(
            shown,
            before,
            rows,
            dx,
            dy,
            row_b,
            col_b,
        ),
        hits_before(before, rows, dx, dy, row_a, col_a) == hits_before(
            before,
            rows,
            dx,
            dy,
            row_b,
            col_b,
        ),
{
    if hits_before(before, rows, dx, dy, row_a, col_a) {
        let (px, py) = choose|px: int, py: int|
            in_grid(px, py) && #[trigger] hit_before(before, rows, dx, dy, row_a, col_a, px, py);
        assert(covers_before(rows, dx, dy, row_a, col_a, px, py) == covers_before(
            rows,
            dx,
            dy,
            row_b,
            col_b,
            px,
            py,
        ));
        assert(hit_before(before, rows, dx, dy, row_b, col_b, px, py));
    }
    if hits_before(before, rows, dx, dy, row_b, col_b) {
        let (px, py) = choose|px: int, py: int|
            in_grid(px, py) && #[trigger] hit_before(before, rows, dx, dy, row_b, col_b, px, py);
        assert(covers_before(rows, dx, dy, row_a, col_a, px, py) == covers_before(
            rows,
            dx,
            dy,
            row_b,
            col_b,
            px,
            py,
        ));
        assert(hit_before(before, rows, dx, dy, row_a, col_a, px, py));
    }
    if drawn_before(shown, before, rows, dx, dy, row_a, col_a) {
        assert forall|px: int, py: int| in_grid(px, py) implies #[trigger] shown[py][px] == (
        before[py][px] != covers_before(rows, dx, dy, row_b, col_b, px, py)) by {
            assert(covers_before(rows, dx, dy, row_a, col_a, px, py) == covers_before(
                rows,
                dx,
                dy,
                row_b,
                col_b,
                px,
                py,
            ));
        }
    }
    if drawn_before(shown, before, rows, dx, dy, row_b, col_b) {
        assert forall|px: int, py: int| in_grid(px, py) implies #[trigger] shown[py][px] == (
        before[py][px] != covers_before(rows, dx, dy, row_a, col_a, px, py)) by {
            assert(covers_before(rows, dx, dy, row_a, col_a, px, py) == covers_before(
                rows,
                dx,
                dy,
                row_b,
                col_b,
                px,
                py,
            ));
        }
    }
}

/// A grid that shows every cell of the sprite drawn is the grid of the draw,
/// and the hits are its collision.
proof fn lemma_draw_done(shown: Grid, before: Grid, rows: Seq<u8>, dx: int, dy: int)
    requires
        is_grid(before),
        drawn_before(shown, before, rows, dx, dy, rows.len() as int, 0),
    ensures
        shown == draw_grid(before, rows, dx, dy),
        hits_before(before, rows, dx, dy, rows.len() as int, 0) == collision(before, shown),
{
    let after = draw_grid(before, rows, dx, dy);
    let h = rows.len() as int;
    assert forall|px: int, py: int| in_grid(px, py) implies #[trigger] shown[py][px]
        == after[py][px] by {
        assert(covers_before(rows, dx, dy, h, 0, px, py) == sprite_covers(rows, dx, dy, px, py));
    }
    assert(shown =~~= after);
    if hits_before(before, rows, dx, dy, h, 0) {
        let (px, py) = choose|px: int, py: int|
            in_grid(px, py) && #[trigger] hit_before(before, rows, dx, dy, h, 0, px, py);
        assert(turned_off(before, after, px, py));
    }
    if collision(before, after) {
        let (px, py) = choose|px: int, py: int|
            in_grid(px, py) && #[trigger] turned_off(before, after, px, py);
        assert(covers_before(rows, dx, dy, h, 0, px, py) == sprite_covers(rows, dx, dy, px, py));
        assert(hit_before(before, rows, dx, dy, h, 0, px, py));
    }
}

pub struct Display {
    pixels: [[bool; DISPLAY_WIDTH]; DISPLAY_HEIGHT],
}

impl View for Display {
    type V = Grid;

    closed spec fn view(&self) -> Grid {
        Seq::new(DISPLAY_HEIGHT as nat, |y: int| self.pixels[y]@)
    }
}

impl Display {
    /// The view of every display has the display's dimensions.
    pub proof fn lemma_view_is_grid(&self)
        ensures
            is_grid(self@),
    {
    }

    /// A display with every pixel off.
    pub fn new() -> (display: Display)
        ensures
            display@ == uniform_grid(false),
    {
        let display = Display { pixels: [[false; DISPLAY_WIDTH]; DISPLAY_HEIGHT] };
        assert(display@ =~~= uniform_grid(false));
        display
    }

    /// The state of the pixel at column `x` of row `y`.
    pub fn get(&self, x: usize, y: usize) -> (on: bool)
        requires
            in_grid(x as int, y as int),
        ensures
            on == self@[y as int][x as int],
    {
        self.pixels[y][x]
    }

    /// Toggles the pixel at column `x` of row `y`.
    pub fn flip(&mut self, x: usize, y: usize)
        requires
            in_grid(x as int, y as int),
        ensures
            final(self)@ == flip_grid(old(self)@, x as int, y as int),
    {
        self.pixels[y][x] = !self.pixels[y][x];
        assert(self@ =~~= flip_grid(old(self)@, x as int, y as int));
    }

    /// Sets every pixel to `v`.
    pub fn clear(&mut self, v: bool)
        ensures
            final(self)@ == uniform_grid(v),
    {
        for y in 0..DISPLAY_HEIGHT
            invariant
                forall|j: int, i: int|
                    0 <= j < y && 0 <= i < DISPLAY_WIDTH ==> self.pixels[j][i] == v,
        {
            for x in 0..DISPLAY_WIDTH
                invariant
                    0 <= y < DISPLAY_HEIGHT,
                    forall|j: int, i: int|
                        0 <= j < y && 0 <= i < DISPLAY_WIDTH ==> self.pixels[j][i] == v,
                    forall|i: int| 0 <= i < x ==> self.pixels[y as int][i] == v,
            {
                self.pixels[y][x] = v;
            }
        }
        assert(self@ =~~= uniform_grid(v));
    }

    /// Draws the sprite whose rows are the `height` bytes of `memory` from
    /// `index` on, with its top left corner at `(dx, dy)`: each set bit
    /// toggles its pixel, columns and rows wrapping at the edges. Says
    /// whether a pixel that was on went off.
    pub fn draw_sprite(
        &mut self,
        memory: &[u8],
        index: usize,
        height: usize,
        dx: usize,
        dy: usize,
    ) -> (hit: bool)
        requires
            index + height <= memory@.len(),
            height <= DISPLAY_HEIGHT,
            in_grid(dx as int, dy as int),
        ensures
            final(self)@ == draw_grid(
                old(self)@,
                memory@.subrange(index as int, index + height),
                dx as int,
                dy as int,
            ),
            hit == collision(old(self)@, final(self)@),
    {
        let ghost before = self@;
        let ghost rows = memory@.subrange(index as int, index + height);
        let total: usize = memory.len();
        proof {
            self.lemma_view_is_grid();
        }
        let mut hit = false;
        let mut row: usize = 0;
        while row < height
            invariant
                row <= height <= DISPLAY_HEIGHT,
                index + height <= total,
                total == memory@.len(),
                in_grid(dx as int, dy as int),
                rows == memory@.subrange(index as int, index + height),
                is_grid(before),
                drawn_before(self@, before, rows, dx as int, dy as int, row as int, 0),
                hit == hits_before(before, rows, dx as int, dy as int, row as int, 0),
            decreases height - row,
        {
            let bits: u8 = memory[index + row];
            let mut col: u8 = 0;
            while col < 8
                invariant
                    row < height <= DISPLAY_HEIGHT,
                    col <= SPRITE_WIDTH,
                    in_grid(dx as int, dy as int),
                    rows.len() == height,
                    bits == rows[row as int],
                    is_grid(before),
                    drawn_before(self@, before, rows, dx as int, dy as int, row as int, col as int),
                    hit == hits_before(before, rows, dx as int, dy as int, row as int, col as int),
                decreases 8 - col,
            {
                proof {
                    lemma_draw_cell(self@, before, rows, dx as int, dy as int, row as int, col as int);
                }
                let draw_x: usize = (dx + col as usize) % DISPLAY_WIDTH;
                let draw_y: usize = (dy + row) % DISPLAY_HEIGHT;
                if bits & (0x80u8 >> col) != 0 {
                    if self.get(draw_x, draw_y) {
                        hit = true;
                    }
                    self.flip(draw_x, draw_y);
                }
                col += 1;
            }
            proof {
                assert forall|px: int, py: int| in_grid(px, py) implies covers_before(
                    rows,
                    dx as int,
                    dy as int,
                    row as int,
                    8,
                    px,
                    py,
                ) == covers_before(rows, dx as int, dy as int, row + 1, 0, px, py) by {}
                lemma_same_cells(self@, before, rows, dx as int, dy as int, row as int, 8, row + 1, 0);
            }
            row += 1;
        }
        proof {
            lemma_draw_done(self@, before, rows, dx as int, dy as int);
        }
        hit
    }
}

} // verus!
