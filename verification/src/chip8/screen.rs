//! The display surface: a 64x32 monochrome pixel grid with wrap-around
//! addressing, XOR sprite drawing, and a render sink.

use vstd::prelude::*;
use vstd::string::*;

verus! {

/// Number of pixel columns.
pub const SCREEN_WIDTH: usize = 64;

/// Number of pixel rows.
pub const SCREEN_HEIGHT: usize = 32;

/// Number of cells of the grid, which is stored row by row.
pub const SCREEN_CELLS: usize = 2048;

/// The grid with every pixel off.
pub open spec fn blank() -> Seq<bool> {
    Seq::new(2048, |k: int| false)
}

/// Whether bit `bit` of a sprite row is on. Bit 0 is the most significant
/// bit, which is the leftmost pixel of the row.
pub open spec fn sprite_bit(bits: u8, bit: u8) -> bool {
    bits & (0x80u8 >> bit) != 0
}

/// How many columns to the right of column `x` the column of cell `k`
/// lies, going round the right edge of the screen.
pub open spec fn column_offset(x: int, k: int) -> int {
    (k % 64 - x) % 64
}

/// Whether the sprite row `bits`, drawn with its left edge at column `x` of
/// screen row `row`, has an on bit over cell `k`. Columns wrap at the right
/// edge of the screen.
pub open spec fn row_toggles(bits: u8, x: int, row: int, k: int) -> bool {
    let offset = column_offset(x, k);
    k / 64 == row && offset < 8 && sprite_bit(bits, offset as u8)
}

/// The one cell of row `row` that lies `bit` columns right of column `x`.
proof fn lemma_cell_of_bit(x: int, bit: int, row: int, k: int)
    requires
        0 <= x,
        0 <= bit < 8,
        0 <= row < 32,
        0 <= k < 2048,
    ensures
        (k / 64 == row && column_offset(x, k) == bit) <==> k == (x % 64 + bit) % 64 + row * 64,
        0 <= column_offset(x, k) < 64,
{
}

/// The grid after one sprite row has been XORed into it.
pub open spec fn draw_row(grid: Seq<bool>, bits: u8, x: int, row: int) -> Seq<bool> {
    Seq::new(grid.len(), |k: int| grid[k] != row_toggles(bits, x, row, k))
}

/// The grid after a sprite has been XORed into it with its top left corner
/// at column `x`, row `y`. Row `i` of the sprite lands on screen row
/// `(y + i) mod 32`.
pub open spec fn draw(grid: Seq<bool>, sprite: Seq<u8>, x: int, y: int) -> Seq<bool>
    decreases sprite.len(),
{
    if sprite.len() == 0 {
        grid
    } else {
        draw_row(
            draw(grid, sprite.drop_last(), x, y),
            sprite.last(),
            x,
            (y + sprite.len() - 1) % 32,
        )
    }
}

/// Whether the sprite has at least one on bit. Every on bit toggles the
/// cell it lands on, so this is also whether drawing the sprite toggles
/// anything.
pub open spec fn has_on_bit(sprite: Seq<u8>) -> bool {
    exists|i: int, bit: u8|
        0 <= i < sprite.len() && bit < 8 && #[trigger] sprite_bit(sprite[i], bit)
}

/// Whether a sprite of at most 32 rows, drawn with its top left corner at
/// column `x`, row `y`, has an on bit over cell `k`.
pub open spec fn sprite_toggles(sprite: Seq<u8>, x: int, y: int, k: int) -> bool {
    let i = (k / 64 - y) % 32;
    i < sprite.len() && row_toggles(sprite[i], x, k / 64, k)
}

/// Drawing a sprite that is no taller than the screen flips exactly the
/// cells under its on bits: each cell is reached by at most one bit.
pub proof fn lemma_draw_cell(grid: Seq<bool>, sprite: Seq<u8>, x: int, y: int, k: int)
    requires
        grid.len() == 2048,
        sprite.len() <= 32,
        0 <= k < 2048,
    ensures
        draw(grid, sprite, x, y).len() == 2048,
        draw(grid, sprite, x, y)[k] == (grid[k] != sprite_toggles(sprite, x, y, k)),
    decreases sprite.len(),
{
    if sprite.len() > 0 {
        lemma_draw_cell(grid, sprite.drop_last(), x, y, k);
    }
}

/// The control sequence that clears a terminal and homes its cursor.
pub open spec fn clear_home() -> Seq<char> {
    seq!['\u{1b}', 'c', '\u{1b}', '[', '1', ';', '1', 'H']
}

/// The character that stands for a pixel: a full block when it is on, a
/// space when it is off.
pub open spec fn glyph(on: bool) -> char {
    if on {
        '\u{2588}'
    } else {
        ' '
    }
}

/// One line of text for row `r` of a frame: a character per pixel, then a
/// line feed.
pub open spec fn row_text(width: int, pixels: Seq<bool>, r: int) -> Seq<char> {
    Seq::new(
        (width + 1) as nat,
        |c: int|
            if c == width {
                '\n'
            } else {
                glyph(pixels[r * width + c])
            },
    )
}

/// The lines of the first `n` rows of a frame.
pub open spec fn rows_text(width: int, pixels: Seq<bool>, n: nat) -> Seq<char>
    decreases n,
{
    if n == 0 {
        Seq::empty()
    } else {
        rows_text(width, pixels, (n - 1) as nat) + row_text(width, pixels, n - 1)
    }
}

/// The text of a full-screen redraw: the clearing sequence, then every row.
pub open spec fn redraw_text(width: int, height: int, pixels: Seq<bool>) -> Seq<char> {
    clear_home() + rows_text(width, pixels, height as nat)
}

/// A render sink: whatever shows a frame to the outside world.
pub trait Renderer {
    /// Takes the current frame: `width * height` pixels, row by row.
    fn render(&self, width: usize, height: usize, pixels: &[bool])
        requires
            pixels@.len() == width * height,
    ;
}

/// The display surface. It owns the pixel grid and the one render sink it
/// was built with.
pub struct Screen {
    pixel: [bool; 2048],
    renderer: Box<dyn Renderer>,
}

impl View for Screen {
    type V = Seq<bool>;

    /// The 2048 pixels, row by row: cell `y * 64 + x` is column `x` of row `y`.
    closed spec fn view(&self) -> Seq<bool> {
        self.pixel@
    }
}

impl Screen {
    /// The render sink that the screen was built with.
    pub closed spec fn sink(&self) -> Box<dyn Renderer> {
        self.renderer
    }

    /// A render sink as a screen holds it: the sink itself.
    pub open spec fn held(renderer: Box<dyn Renderer>) -> Box<dyn Renderer> {
        renderer
    }

    /// A blank screen that renders to `renderer`.
    pub fn new(renderer: Box<dyn Renderer>) -> (screen: Self)
        ensures
            screen@ == blank(),
            screen.sink() == Self::held(renderer),
    {
        Self { pixel: [false; 2048], renderer }
    }

    /// The grid always has 2048 cells.
    pub proof fn lemma_len(&self)
        ensures
            self@.len() == 2048,
    {
    }

    /// Turns every pixel off.
    pub fn clear(&mut self)
        ensures
            final(self)@ == blank(),
            final(self).sink() == old(self).sink(),
    {
        self.pixel = [false; 2048];
    }

    /// The pixel at column `x`, row `y`; both wrap around the screen.
    pub fn pixel_at(&self, x: usize, y: usize) -> (on: bool)
        ensures
            on == self@[(y % 32) * 64 + x % 64],
    {
        self.pixel[(y % 32) * 64 + x % 64]
    }

    /// XORs a sprite into the grid, one byte per row, top left corner at
    /// column `pos_x`, row `pos_y`, wrapping at the screen edges. Reports
    /// whether any pixel was toggled.
    pub fn draw_sprite(&mut self, sprite: &[u8], pos_x: usize, pos_y: usize) -> (collision: bool)
        ensures
            final(self)@ == draw(old(self)@, sprite@, pos_x as int, pos_y as int),
            final(self).sink() == old(self).sink(),
            collision == has_on_bit(sprite@),
    {
        let mut pixel_changed = false;
        let x0: usize = pos_x % 64;
        let y0: usize = pos_y % 32;
        let mut i: usize = 0;
        assert(sprite@.take(0) =~= Seq::<u8>::empty());
        while i < sprite.len()
            invariant
                i <= sprite.len(),
                x0 == pos_x % 64,
                y0 == pos_y % 32,
                self.sink() == old(self).sink(),
                self@ == draw(old(self)@, sprite@.take(i as int), pos_x as int, pos_y as int),
                pixel_changed == has_on_bit(sprite@.take(i as int)),
            decreases sprite.len() - i,
        {
            let sprite_byte: u8 = sprite[i];
            let y: usize = (y0 + i % 32) % 32;
            let ghost before = self@;
            let ghost seen = sprite@.take(i as int);
            let mut bit: u8 = 0;
            while bit < 8
                invariant
                    bit <= 8,
                    x0 == pos_x % 64,
                    y == (pos_y + i) % 32,
                    self@.len() == 2048,
                    before.len() == 2048,
                    self.sink() == old(self).sink(),
                    forall|k: int|
                        0 <= k < 2048 ==> self@[k] == (before[k] != (row_toggles(
                            sprite_byte,
                            pos_x as int,
                            y as int,
                            k,
                        ) && column_offset(pos_x as int, k) < bit)),
                    pixel_changed == (has_on_bit(seen) || exists|j: u8|
                        j < bit && #[trigger] sprite_bit(sprite_byte, j)),
                decreases 8 - bit,
            {
                let px = (sprite_byte & (0x80u8 >> bit)) != 0;
                let ghost row_before = self@;
                assert(px == sprite_bit(sprite_byte, bit));
                if px {
                    let x: usize = (x0 + bit as usize) % 64;
                    let screen_idx: usize = x + y * 64;
                    let was = self.pixel[screen_idx];
                    self.pixel[screen_idx] = !was;
                    pixel_changed = pixel_changed || self.pixel[screen_idx] != was;
                    assert(self@ == row_before.update(screen_idx as int, !row_before[screen_idx as int]));
                }
                assert forall|k: int| 0 <= k < 2048 implies self@[k] == (before[k] != (row_toggles(
                    sprite_byte,
                    pos_x as int,
                    y as int,
                    k,
                ) && column_offset(pos_x as int, k) < bit + 1)) by {
                    lemma_cell_of_bit(pos_x as int, bit as int, y as int, k);
                }
                bit += 1;
            }
            proof {
                let next = sprite@.take(i as int + 1);
                assert(next.drop_last() =~= seen);
                assert(next.last() == sprite_byte);
                assert forall|k: int| 0 <= k < 2048 implies self@[k] == (before[k] != row_toggles(
                    sprite_byte,
                    pos_x as int,
                    y as int,
                    k,
                )) by {
                    lemma_cell_of_bit(pos_x as int, 0, y as int, k);
                }
                assert(self@ =~= draw_row(before, sprite_byte, pos_x as int, y as int));
                if has_on_bit(next) {
                    let (a, b) = choose|a: int, b: u8|
                        0 <= a < next.len() && b < 8 && #[trigger] sprite_bit(next[a], b);
                    if a < i {
                        assert(sprite_bit(seen[a], b));
                    }
                }
                if has_on_bit(seen) {
                    let (a, b) = choose|a: int, b: u8|
                        0 <= a < seen.len() && b < 8 && #[trigger] sprite_bit(seen[a], b);
                    assert(sprite_bit(next[a], b));
                }
                if exists|j: u8| j < 8 && #[trigger] sprite_bit(sprite_byte, j) {
                    let j = choose|j: u8| j < 8 && #[trigger] sprite_bit(sprite_byte, j);
                    assert(sprite_bit(next[i as int], j));
                }
            }
            i += 1;
        }
        assert(sprite@.take(i as int) =~= sprite@);
        pixel_changed
    }

    /// Hands the current frame to the render sink.
    pub fn render(&self) {
        assert(SCREEN_WIDTH * SCREEN_HEIGHT == 2048);
        self.renderer.render(SCREEN_WIDTH, SCREEN_HEIGHT, &self.pixel);
    }
}

/// The sink that shows nothing.
pub struct VoidRenderer;

impl Renderer for VoidRenderer {
    fn render(&self, width: usize, height: usize, pixels: &[bool]) {
    }
}

/// The text-console form of a frame. Writing the text to a terminal is left
/// to the sink that owns the terminal.
pub struct ConsoleRenderer;

impl ConsoleRenderer {
    /// The text that redraws the whole frame on a terminal.
    pub fn compose(width: usize, height: usize, pixels: &[bool]) -> (text: String)
        requires
            pixels@.len() == width * height,
        ensures
            text@ == redraw_text(width as int, height as int, pixels@),
    {
        let mut buf = String::new();
        buf.append("\u{1b}c\u{1b}[1;1H");
        proof {
            reveal_strlit("\u{1b}c\u{1b}[1;1H");
            reveal_strlit("\u{2588}");
            reveal_strlit(" ");
            reveal_strlit("\n");
            assert(buf@ =~= clear_home());
        }
        let cells: usize = pixels.len();
        let mut r: usize = 0;
        while r < height
            invariant
                r <= height,
                pixels@.len() == width * height,
                pixels@.len() == cells,
                "\u{2588}"@ == seq!['\u{2588}'],
                " "@ == seq![' '],
                "\n"@ == seq!['\n'],
                buf@ == clear_home() + rows_text(width as int, pixels@, r as nat),
            decreases height - r,
        {
            let ghost row_start = buf@;
            let ghost line = row_text(width as int, pixels@, r as int);
            let mut c: usize = 0;
            assert(0 <= r * width && r * width + width <= width * height) by (nonlinear_arith)
                requires
                    r < height,
            ;
            let row_start_idx: usize = r * width;
            while c < width
                invariant
                    c <= width,
                    row_start_idx == r * width,
                    row_start_idx + width <= pixels@.len(),
                    pixels@.len() == cells,
                    "\u{2588}"@ == seq!['\u{2588}'],
                    " "@ == seq![' '],
                    line == row_text(width as int, pixels@, r as int),
                    buf@ == row_start + line.take(c as int),
                decreases width - c,
            {
                if pixels[row_start_idx + c] {
                    buf.append("\u{2588}");
                } else {
                    buf.append(" ");
                }
                assert(line.take(c as int + 1) =~= line.take(c as int).push(line[c as int]));
                assert(buf@ =~= row_start + line.take(c as int + 1));
                c += 1;
            }
            buf.append("\n");
            assert(buf@ =~= row_start + line) by {
                assert(line =~= line.take(width as int).push('\n'));
            }
            assert(buf@ =~= clear_home() + rows_text(width as int, pixels@, (r + 1) as nat));
            r += 1;
        }
        buf
    }
}

} // verus!
