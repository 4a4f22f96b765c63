//! The cell grid: a dense two-dimensional array of alive/dead cells with
//! bounds-safe lookups (positions outside the grid always read as dead) and
//! three ways to build one: all dead, randomly seeded, or parsed from a
//! textual picture of the grid.

use vstd::prelude::*;

verus! {

/// The largest width or height a grid may have, so that every cell position
/// and every one-step neighbor probe fits in an `i32` coordinate.
pub const MAX_DIM: usize = 0x7fff_ffff;

/// One cell of the grid: alive or dead.
#[derive(Clone, Copy, PartialEq, Eq, Structural, Debug)]
pub struct Cell {
    pub alive: bool,
}

/// Mathematical model of a grid: its dimensions and, row by row, the alive
/// state of each cell (`cells[y][x]` is the cell in column `x` of row `y`).
pub ghost struct GridModel {
    pub width: nat,
    pub height: nat,
    pub cells: Seq<Seq<bool>>,
}

/// Well-formedness of a grid model: both dimensions are positive (and small
/// enough for `i32` coordinates), there is one row per unit of height, and
/// every row has one cell per unit of width.
pub open spec fn grid_wf(m: GridModel) -> bool {
    &&& 1 <= m.width <= MAX_DIM
    &&& 1 <= m.height <= MAX_DIM
    &&& m.cells.len() == m.height
    &&& forall|y: int| 0 <= y < m.height ==> (#[trigger] m.cells[y]).len() == m.width
}

/// The alive state of position `(x, y)`: the stored cell when the position is
/// in bounds, and dead for every position outside the grid. This fixed dead
/// border is the grid's edge behavior (non-wrapping, non-toroidal).
pub open spec fn cell_at(m: GridModel, x: int, y: int) -> bool {
    0 <= x < m.width && 0 <= y < m.height && m.cells[y][x]
}

/// The alive state one row of cells holds, in column order.
pub open spec fn row_view(row: Vec<Cell>) -> Seq<bool> {
    row@.map_values(|c: Cell| c.alive)
}

/// The alive states a row-major cell store holds.
pub open spec fn rows_view(rows: Vec<Vec<Cell>>) -> Seq<Seq<bool>> {
    rows@.map_values(|r: Vec<Cell>| row_view(r))
}

/// A byte the textual grid format recognizes: `#` (an alive cell), `.` (a
/// dead cell) or a newline ending a row. Any other byte is rejected.
pub open spec fn recognized_byte(b: u8) -> bool {
    b == 10 || b == 35 || b == 46
}

/// Whether a recognized cell byte stands for an alive cell.
pub open spec fn alive_byte(b: u8) -> bool {
    b == 35
}

/// Every byte of the input is one the textual grid format recognizes.
pub open spec fn all_recognized(s: Seq<u8>) -> bool {
    forall|i: int| 0 <= i < s.len() ==> recognized_byte(#[trigger] s[i])
}

/// Scanning the input front to back: the pair of the rows completed by a
/// newline so far and the partial row gathered since the last newline.
pub open spec fn scan_rows(s: Seq<u8>) -> (Seq<Seq<bool>>, Seq<bool>)
    decreases s.len(),
{
    if s.len() == 0 {
        (Seq::empty(), Seq::empty())
    } else {
        let (rows, cur) = scan_rows(s.drop_last());
        if s.last() == 10 {
            (rows.push(cur), Seq::empty())
        } else {
            (rows, cur.push(alive_byte(s.last())))
        }
    }
}

/// The rows of a textual grid: the rows completed by newlines, plus a final
/// unterminated row when the input does not end with a newline.
pub open spec fn rows_of(s: Seq<u8>) -> Seq<Seq<bool>> {
    let (rows, cur) = scan_rows(s);
    if cur.len() == 0 {
        rows
    } else {
        rows.push(cur)
    }
}

/// Shape bounds of the scan: the input has at least one byte per completed
/// row and per cell of the partial row, and no row is longer than the input.
pub proof fn lemma_scan_rows_bounds(s: Seq<u8>)
    ensures
        scan_rows(s).0.len() + scan_rows(s).1.len() <= s.len(),
        forall|i: int|
            0 <= i < scan_rows(s).0.len() ==> (#[trigger] scan_rows(s).0[i]).len() <= s.len(),
    decreases s.len(),
{
    if s.len() > 0 {
        lemma_scan_rows_bounds(s.drop_last());
    }
}

/// When a textual grid parses: every byte is recognized, there is at least
/// one row, rows have at least one cell, and all rows have the same length.
pub open spec fn source_accepted(s: Seq<u8>) -> bool {
    &&& all_recognized(s)
    &&& rows_of(s).len() > 0
    &&& rows_of(s)[0].len() > 0
    &&& forall|j: int|
        0 <= j < rows_of(s).len() ==> (#[trigger] rows_of(s)[j]).len() == rows_of(s)[0].len()
}

/// The condition under which parsing a textual grid reports each error: an
/// unrecognized byte is reported first, then an input with no rows or with
/// rows of no cells, then rows of unequal lengths.
pub open spec fn parse_error_for(s: Seq<u8>, e: ParseError) -> bool {
    match e {
        ParseError::UnrecognizedCharacter => !all_recognized(s),
        ParseError::Empty => all_recognized(s) && (rows_of(s).len() == 0 || rows_of(s)[0].len()
            == 0),
        ParseError::RaggedRows => {
            &&& all_recognized(s)
            &&& rows_of(s).len() > 0
            &&& rows_of(s)[0].len() > 0
            &&& exists|j: int|
                0 <= j < rows_of(s).len() && (#[trigger] rows_of(s)[j]).len() != rows_of(
                    s,
                )[0].len()
        },
    }
}

/// Why parsing a textual grid failed.
#[derive(Clone, Copy, PartialEq, Eq, Structural, Debug)]
pub enum ParseError {
    /// The input holds a byte other than `#`, `.` or a newline.
    UnrecognizedCharacter,
    /// The input has no rows, or rows with no cells.
    Empty,
    /// The input's rows do not all have the same length.
    RaggedRows,
}

/// Why grid construction was refused: one of the two dimensions was zero.
#[derive(Clone, Copy, PartialEq, Eq, Structural, Debug)]
pub enum ConstructionError {
    ZeroWidth,
    ZeroHeight,
}

/// A dense grid of cells with fixed dimensions.
pub struct Grid {
    width: usize,
    height: usize,
    cells: Vec<Vec<Cell>>,
}

impl View for Grid {
    type V = GridModel;

    closed spec fn view(&self) -> GridModel {
        GridModel {
            width: self.width as nat,
            height: self.height as nat,
            cells: rows_view(self.cells),
        }
    }
}

impl Grid {
    /// The grid's structural invariant, stated of its model.
    pub open spec fn wf(&self) -> bool {
        grid_wf(self@)
    }

    pub fn width(&self) -> (w: usize)
        ensures
            w == self@.width,
    {
        self.width
    }

    pub fn height(&self) -> (h: usize)
        ensures
            h == self@.height,
    {
        self.height
    }

    /// Bounds-safe cell lookup: the stored cell for an in-bounds position, a
    /// dead cell for any position outside the grid. Coordinates are signed so
    /// that neighbor probes one step past an edge are well defined.
    pub fn get(&self, x: i32, y: i32) -> (c: Cell)
        requires
            self.wf(),
        ensures
            c.alive == cell_at(self@, x as int, y as int),
    {
        if x < 0 || y < 0 {
            Cell { alive: false }
        } else {
            let xu = x as usize;
            let yu = y as usize;
            if xu >= self.width || yu >= self.height {
                Cell { alive: false }
            } else {
                proof {
                    assert(self@.cells[yu as int].len() == self@.width);
                    assert(self@.cells[yu as int] == row_view(self.cells@[yu as int]));
                }
                self.cells[yu][xu]
            }
        }
    }

    /// Mutable access to an in-bounds cell. An out-of-bounds position is a
    /// caller error here (the precondition forbids it): writes during a tick
    /// always target the next buffer, whose bounds match the current one.
    pub fn get_mut(&mut self, x: i32, y: i32) -> (c: &mut Cell)
        requires
            old(self).wf(),
            0 <= x < old(self)@.width,
            0 <= y < old(self)@.height,
        ensures
            c.alive == cell_at(old(self)@, x as int, y as int),
            final(self)@.width == old(self)@.width,
            final(self)@.height == old(self)@.height,
            final(self).wf(),
            forall|xx: int, yy: int|
                #[trigger] cell_at(final(self)@, xx, yy) == if xx == x as int && yy == y as int {
                    final(c).alive
                } else {
                    cell_at(old(self)@, xx, yy)
                },
    {
        let xu = x as usize;
        let yu = y as usize;
        proof {
            assert forall|yy: int| 0 <= yy < self@.height implies self.cells@[yy]@.len()
                == self@.width by {
                assert(self@.cells[yy].len() == self@.width);
                assert(self@.cells[yy] == row_view(self.cells@[yy]));
            }
            assert(self.cells@[yu as int]@.len() == self@.width);
        }
        let row: &mut Vec<Cell> = &mut self.cells[yu];
        let cell: &mut Cell = &mut row[xu];
        cell
    }

    /// A grid with the given dimensions and every cell dead; refused when a
    /// dimension is zero (width checked first).
    pub fn empty(width: usize, height: usize) -> (r: Result<Grid, ConstructionError>)
        requires
            width <= MAX_DIM,
            height <= MAX_DIM,
        ensures
            match r {
                Ok(g) => {
                    &&& width > 0 && height > 0
                    &&& g.wf()
                    &&& g@.width == width
                    &&& g@.height == height
                    &&& forall|x: int, y: int| !cell_at(g@, x, y)
                },
                Err(e) => {
                    &&& (width == 0 || height == 0)
                    &&& e == (if width == 0 {
                        ConstructionError::ZeroWidth
                    } else {
                        ConstructionError::ZeroHeight
                    })
                },
            },
    {
        if width == 0 {
            return Err(ConstructionError::ZeroWidth);
        }
        if height == 0 {
            return Err(ConstructionError::ZeroHeight);
        }
        let mut cells: Vec<Vec<Cell>> = Vec::new();
        let mut y: usize = 0;
        while y < height
            invariant
                y <= height,
                cells@.len() == y,
                forall|yy: int| 0 <= yy < y ==> (#[trigger] cells@[yy])@.len() == width,
                forall|yy: int, xx: int|
                    0 <= yy < y && 0 <= xx < width ==> !(#[trigger] cells@[yy]@[xx]).alive,
            decreases height - y,
        {
            let mut row: Vec<Cell> = Vec::new();
            let mut x: usize = 0;
            while x < width
                invariant
                    x <= width,
                    row@.len() == x,
                    forall|xx: int| 0 <= xx < x ==> !(#[trigger] row@[xx]).alive,
                decreases width - x,
            {
                row.push(Cell { alive: false });
                x += 1;
            }
            cells.push(row);
            y += 1;
        }
        let g = Grid { width, height, cells };
        proof {
            assert(forall|x: int, y: int| !cell_at(g@, x, y));
        }
        Ok(g)
    }

    /// A grid with the given dimensions whose cells are seeded independently,
    /// each alive with probability one half; refused when a dimension is zero
    /// (width checked first). Nothing is promised of the cell states
    /// themselves, only of the shape.
    pub fn random(width: usize, height: usize) -> (r: Result<Grid, ConstructionError>)
        requires
            width <= MAX_DIM,
            height <= MAX_DIM,
        ensures
            match r {
                Ok(g) => {
                    &&& width > 0 && height > 0
                    &&& g.wf()
                    &&& g@.width == width
                    &&& g@.height == height
                },
                Err(e) => {
                    &&& (width == 0 || height == 0)
                    &&& e == (if width == 0 {
                        ConstructionError::ZeroWidth
                    } else {
                        ConstructionError::ZeroHeight
                    })
                },
            },
    {
        if width == 0 {
            return Err(ConstructionError::ZeroWidth);
        }
        if height == 0 {
            return Err(ConstructionError::ZeroHeight);
        }
        let mut cells: Vec<Vec<Cell>> = Vec::new();
        let mut y: usize = 0;
        while y < height
            invariant
                y <= height,
                cells@.len() == y,
                forall|yy: int| 0 <= yy < y ==> (#[trigger] cells@[yy])@.len() == width,
            decreases height - y,
        {
            let mut row: Vec<Cell> = Vec::new();
            let mut x: usize = 0;
            while x < width
                invariant
                    x <= width,
                    row@.len() == x,
                decreases width - x,
            {
                row.push(Cell { alive: random_bool() });
                x += 1;
            }
            cells.push(row);
            y += 1;
        }
        Ok(Grid { width, height, cells })
    }

    /// Builds a grid from a textual picture of it: one line per row, `#` for
    /// an alive cell, `.` for a dead one, rows separated by newlines, with a
    /// final newline optional. The parse is strict: any other byte, an empty
    /// input, rows with no cells, or rows of unequal lengths are refused, each
    /// with its own error (an unrecognized byte is reported first).
    pub fn from_source(data: &[u8]) -> (r: Result<Grid, ParseError>)
        requires
            data@.len() < MAX_DIM,
        ensures
            match r {
                Ok(g) => {
                    &&& source_accepted(data@)
                    &&& g.wf()
                    &&& g@.width == rows_of(data@)[0].len()
                    &&& g@.height == rows_of(data@).len()
                    &&& g@.cells == rows_of(data@)
                },
                Err(e) => parse_error_for(data@, e),
            },
    {
        let ghost s = data@;
        let mut rows: Vec<Vec<Cell>> = Vec::new();
        let mut cur: Vec<Cell> = Vec::new();
        let mut i: usize = 0;
        while i < data.len()
            invariant
                i <= data.len(),
                data@ == s,
                forall|j: int| 0 <= j < i ==> recognized_byte(#[trigger] s[j]),
                rows_view(rows) == scan_rows(s.take(i as int)).0,
                row_view(cur) == scan_rows(s.take(i as int)).1,
            decreases data.len() - i,
        {
            let b = data[i];
            proof {
                assert(s.take(i + 1).drop_last() =~= s.take(i as int));
                assert(s.take(i + 1).last() == s[i as int]);
            }
            if b == 10 {
                rows.push(cur);
                cur = Vec::new();
                proof {
                    assert(rows_view(rows) =~= scan_rows(s.take(i + 1)).0);
                    assert(row_view(cur) =~= scan_rows(s.take(i + 1)).1);
                }
            } else if b == 35 || b == 46 {
                cur.push(Cell { alive: b == 35 });
                proof {
                    assert(rows_view(rows) =~= scan_rows(s.take(i + 1)).0);
                    assert(row_view(cur) =~= scan_rows(s.take(i + 1)).1);
                }
            } else {
                proof {
                    assert(!recognized_byte(s[i as int]));
                }
                return Err(ParseError::UnrecognizedCharacter);
            }
            i += 1;
        }
        proof {
            assert(s.take(i as int) =~= s);
        }
        if cur.len() > 0 {
            rows.push(cur);
            proof {
                assert(rows_view(rows) =~= rows_of(s));
            }
        } else {
            proof {
                assert(rows_view(rows) =~= rows_of(s));
            }
        }
        if rows.len() == 0 {
            return Err(ParseError::Empty);
        }
        let width = rows[0].len();
        if width == 0 {
            return Err(ParseError::Empty);
        }
        let height = rows.len();
        proof {
            lemma_scan_rows_bounds(s);
            assert(rows_of(s)[0] == row_view(rows@[0]));
            assert(rows_of(s).len() <= s.len() + 1);
        }
        let mut y: usize = 1;
        while y < height
            invariant
                1 <= y <= height,
                height == rows@.len(),
                1 <= height == rows_of(s).len() <= MAX_DIM,
                1 <= width <= MAX_DIM,
                width == rows_of(s)[0].len(),
                all_recognized(s),
                data@ == s,
                rows_view(rows) == rows_of(s),
                forall|j: int| 0 <= j < y ==> (#[trigger] rows_of(s)[j]).len() == width,
            decreases height - y,
        {
            if rows[y].len() != width {
                proof {
                    assert(rows_of(s)[y as int] == row_view(rows@[y as int]));
                    assert(rows_of(s)[y as int].len() != rows_of(s)[0].len());
                }
                return Err(ParseError::RaggedRows);
            }
            proof {
                assert(rows_of(s)[y as int] == row_view(rows@[y as int]));
            }
            y += 1;
        }
        let g = Grid { width, height, cells: rows };
        Ok(g)
    }
}

/// Relies on rand::random::<bool>: an independent coin flip, alive with
/// probability one half. Nothing can be promised of the value drawn.
#[verifier::external_body]
fn random_bool() -> bool {
    rand::random()
}

} // verus!
