//! Renderers: each turns the current grid into a printable text frame. The
//! plain renderer writes one glyph per cell, the block renderer packs two
//! rows of cells into each output row with half-block glyphs, and the
//! braille renderer packs two-by-four cells into each braille glyph through
//! the drawille canvas.

use vstd::prelude::*;
use vstd::string::StringExecFns;

use crate::grid::{cell_at, Grid, GridModel};

verus! {

/// The glyph the plain renderer writes for one cell.
pub open spec fn plain_char(b: bool) -> char {
    if b {
        '#'
    } else {
        '.'
    }
}

/// One output row of the plain frame: the glyphs of grid row `y`.
pub open spec fn plain_row(m: GridModel, y: int) -> Seq<char> {
    Seq::new(m.width, |x: int| plain_char(cell_at(m, x, y)))
}

/// The first `n` output rows of the plain frame, each ended by a newline.
pub open spec fn plain_frame_upto(m: GridModel, n: int) -> Seq<char>
    decreases n,
{
    if n <= 0 {
        Seq::empty()
    } else {
        plain_frame_upto(m, n - 1) + plain_row(m, n - 1) + seq!['\n']
    }
}

/// The whole plain frame: one line per grid row, `#` for an alive cell and
/// `.` for a dead one, each line ended by a newline.
pub open spec fn plain_frame(m: GridModel) -> Seq<char> {
    plain_frame_upto(m, m.height as int)
}

/// The glyph the block renderer writes for a pair of vertically adjacent
/// cells: a half block for one alive cell, a full block for two, a space
/// for none.
pub open spec fn block_char(top: bool, bottom: bool) -> char {
    if top && bottom {
        '█'
    } else if top {
        '▀'
    } else if bottom {
        '▄'
    } else {
        ' '
    }
}

/// One output row of the block frame: grid rows `2*ry` and `2*ry + 1` packed
/// into half-block glyphs (an odd grid's last row is paired with the dead
/// border below it).
pub open spec fn block_row(m: GridModel, ry: int) -> Seq<char> {
    Seq::new(m.width, |x: int| block_char(cell_at(m, x, 2 * ry), cell_at(m, x, 2 * ry + 1)))
}

/// The first `n` output rows of the block frame, each ended by a newline.
pub open spec fn block_frame_upto(m: GridModel, n: int) -> Seq<char>
    decreases n,
{
    if n <= 0 {
        Seq::empty()
    } else {
        block_frame_upto(m, n - 1) + block_row(m, n - 1) + seq!['\n']
    }
}

/// How many output rows the block frame has: two grid rows per output row,
/// rounded up.
pub open spec fn block_row_count(m: GridModel) -> int {
    (m.height + 1) as int / 2
}

/// The whole block frame.
pub open spec fn block_frame(m: GridModel) -> Seq<char> {
    block_frame_upto(m, block_row_count(m))
}

/// Renders the grid one glyph per cell: `#` alive, `.` dead, one line per
/// row.
pub fn render_plain(grid: &Grid) -> (r: String)
    requires
        grid.wf(),
    ensures
        r@ == plain_frame(grid@),
{
    let width = grid.width();
    let height = grid.height();
    let ghost m = grid@;
    let mut out = String::new();
    proof {
        reveal_strlit("#");
        reveal_strlit(".");
        reveal_strlit("\n");
    }
    let mut y: usize = 0;
    while y < height
        invariant
            y <= height,
            grid.wf(),
            m == grid@,
            width == m.width,
            height == m.height,
            out@ == plain_frame_upto(m, y as int),
        decreases height - y,
    {
        let mut x: usize = 0;
        while x < width
            invariant
                y < height,
                x <= width,
                grid.wf(),
                m == grid@,
                width == m.width,
                height == m.height,
                out@ == plain_frame_upto(m, y as int) + plain_row(m, y as int).take(x as int),
            decreases width - x,
        {
            proof {
                reveal_strlit("#");
                reveal_strlit(".");
            }
            if grid.get(x as i32, y as i32).alive {
                out.append("#");
            } else {
                out.append(".");
            }
            proof {
                assert(out@ =~= plain_frame_upto(m, y as int) + plain_row(m, y as int).take(
                    x as int + 1,
                ));
            }
            x += 1;
        }
        proof {
            reveal_strlit("\n");
            assert(plain_row(m, y as int).take(width as int) =~= plain_row(m, y as int));
        }
        out.append("\n");
        proof {
            assert(out@ =~= plain_frame_upto(m, y as int + 1));
        }
        y += 1;
    }
    out
}

/// Renders the grid with half-block glyphs, two grid rows per output line.
pub fn render_block(grid: &Grid) -> (r: String)
    requires
        grid.wf(),
    ensures
        r@ == block_frame(grid@),
{
    let width = grid.width();
    let height = grid.height();
    let ghost m = grid@;
    let rows_out = (height + 1) / 2;
    let mut out = String::new();
    let mut ry: usize = 0;
    while ry < rows_out
        invariant
            ry <= rows_out,
            grid.wf(),
            m == grid@,
            width == m.width,
            height == m.height,
            rows_out == block_row_count(m),
            out@ == block_frame_upto(m, ry as int),
        decreases rows_out - ry,
    {
        let mut x: usize = 0;
        while x < width
            invariant
                ry < rows_out,
                x <= width,
                grid.wf(),
                m == grid@,
                width == m.width,
                height == m.height,
                rows_out == block_row_count(m),
                out@ == block_frame_upto(m, ry as int) + block_row(m, ry as int).take(x as int),
            decreases width - x,
        {
            proof {
                reveal_strlit("█");
                reveal_strlit("▀");
                reveal_strlit("▄");
                reveal_strlit(" ");
            }
            let top = grid.get(x as i32, (2 * ry) as i32).alive;
            let bottom = grid.get(x as i32, (2 * ry + 1) as i32).alive;
            if top && bottom {
                out.append("█");
            } else if top {
                out.append("▀");
            } else if bottom {
                out.append("▄");
            } else {
                out.append(" ");
            }
            proof {
                assert(out@ =~= block_frame_upto(m, ry as int) + block_row(m, ry as int).take(
                    x as int + 1,
                ));
            }
            x += 1;
        }
        proof {
            reveal_strlit("\n");
            assert(block_row(m, ry as int).take(width as int) =~= block_row(m, ry as int));
        }
        out.append("\n");
        proof {
            assert(out@ =~= block_frame_upto(m, ry as int + 1));
        }
        ry += 1;
    }
    out
}

/// The braille pixels of a grid: the coordinates of its alive cells.
pub open spec fn alive_pixels(m: GridModel) -> Set<(u32, u32)> {
    Set::new(|p: (u32, u32)| cell_at(m, p.0 as int, p.1 as int))
}

/// The alive cells already visited by the renderer's row-major scan: all of
/// the rows before `y`, and row `y` itself left of column `x`.
spec fn pixels_upto(m: GridModel, y: int, x: int) -> Set<(u32, u32)> {
    Set::new(
        |p: (u32, u32)|
            cell_at(m, p.0 as int, p.1 as int) && ((p.1 as int) < y || ((p.1 as int) == y && (
            p.0 as int) < x)),
    )
}

/// The cell dimensions the braille canvas is created with: one braille glyph
/// covers two columns and four rows of cells.
pub open spec fn braille_dims(m: GridModel) -> (u16, u16) {
    (((m.width / 2) as u16), ((m.height / 4) as u16))
}

/// The widest grid the braille renderer accepts: the canvas keys its glyphs
/// by 16-bit cell coordinates, so a pixel column past two times 2^16 would
/// collapse onto an earlier glyph.
pub const MAX_BRAILLE_WIDTH: usize = 0x20000;

/// The tallest grid the braille renderer accepts: four grid rows per glyph
/// row, with glyph rows keyed by a 16-bit coordinate.
pub const MAX_BRAILLE_HEIGHT: usize = 0x40000;

#[verifier::external_type_specification]
#[verifier::external_body]
pub struct ExCanvas(drawille::Canvas);

pub uninterp spec fn canvas_pixels(c: drawille::Canvas) -> Set<(u32, u32)>;

pub uninterp spec fn canvas_dims(c: drawille::Canvas) -> (u16, u16);

pub uninterp spec fn braille_frame_of(dims: (u16, u16), pixels: Set<(u32, u32)>) -> Seq<char>;

/// Relies on drawille::Canvas::new: a canvas sized in braille cells (half
/// the width, a quarter of the height, each rounded down) with no pixel set.
#[verifier::external_body]
fn canvas_new(width: u32, height: u32) -> (c: drawille::Canvas)
    ensures
        canvas_pixels(c) == Set::<(u32, u32)>::empty(),
        canvas_dims(c) == (((width / 2) as u16), ((height / 4) as u16)),
{
    drawille::Canvas::new(width, height)
}

/// Relies on drawille::Canvas::set: marks the pixel at `(x, y)`. Marking
/// accumulates bits per braille cell, so the canvas state is the set of
/// pixels marked so far, in whatever order, and its cell dimensions stay.
/// The glyph a pixel lands in is keyed by 16-bit cell coordinates, so only
/// coordinates below two times 2^16 across and four times 2^16 down reach
/// distinct glyphs; beyond them the key truncates, and this wrapper refuses
/// them.
#[verifier::external_body]
fn canvas_set(c: &mut drawille::Canvas, x: u32, y: u32)
    requires
        x < 0x20000,
        y < 0x40000,
    ensures
        canvas_pixels(*final (c)) == canvas_pixels(*old(c)).insert((x, y)),
        canvas_dims(*final (c)) == canvas_dims(*old(c)),
{
    c.set(x, y)
}

/// Relies on drawille::Canvas::frame: draws the canvas as text, one braille
/// glyph per cell, rows joined by newlines. The output is a function of the
/// canvas's cell dimensions and its set pixels alone.
#[verifier::external_body]
fn canvas_frame(c: &drawille::Canvas) -> (r: String)
    ensures
        r@ == braille_frame_of(canvas_dims(*c), canvas_pixels(*c)),
{
    c.frame()
}

/// Renders the grid as braille glyphs through the drawille canvas: one pixel
/// per alive cell, packed two by four into each glyph. Accepts only grids
/// whose every cell reaches a distinct canvas dot (see the two bounds).
pub fn render_braille(grid: &Grid) -> (r: String)
    requires
        grid.wf(),
        grid@.width <= MAX_BRAILLE_WIDTH,
        grid@.height <= MAX_BRAILLE_HEIGHT,
    ensures
        r@ == braille_frame_of(braille_dims(grid@), alive_pixels(grid@)),
{
    let width = grid.width();
    let height = grid.height();
    let ghost m = grid@;
    let mut canvas = canvas_new(width as u32, height as u32);
    proof {
        assert(canvas_dims(canvas) == braille_dims(m));
        assert(canvas_pixels(canvas) =~= pixels_upto(m, 0, 0));
    }
    let mut y: usize = 0;
    while y < height
        invariant
            y <= height,
            grid.wf(),
            m == grid@,
            width == m.width,
            height == m.height,
            width <= MAX_BRAILLE_WIDTH,
            height <= MAX_BRAILLE_HEIGHT,
            canvas_dims(canvas) == braille_dims(m),
            canvas_pixels(canvas) == pixels_upto(m, y as int, 0),
        decreases height - y,
    {
        let mut x: usize = 0;
        while x < width
            invariant
                y < height,
                x <= width,
                grid.wf(),
                m == grid@,
                width == m.width,
                height == m.height,
                width <= MAX_BRAILLE_WIDTH,
                height <= MAX_BRAILLE_HEIGHT,
                canvas_dims(canvas) == braille_dims(m),
                canvas_pixels(canvas) == pixels_upto(m, y as int, x as int),
            decreases width - x,
        {
            if grid.get(x as i32, y as i32).alive {
                canvas_set(&mut canvas, x as u32, y as u32);
                proof {
                    assert(canvas_pixels(canvas) =~= pixels_upto(m, y as int, x as int + 1));
                }
            } else {
                proof {
                    assert(pixels_upto(m, y as int, x as int) =~= pixels_upto(
                        m,
                        y as int,
                        x as int + 1,
                    ));
                }
            }
            x += 1;
        }
        proof {
            assert(pixels_upto(m, y as int, width as int) =~= pixels_upto(m, y as int + 1, 0));
        }
        y += 1;
    }
    proof {
        assert(pixels_upto(m, height as int, 0) =~= alive_pixels(m));
    }
    canvas_frame(&canvas)
}

} // verus!
