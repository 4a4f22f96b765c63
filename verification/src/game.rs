//! The game: two same-sized grid buffers (the displayed generation and the
//! scratch buffer the next one is written into) and the tick algorithm that
//! advances a generation under the standard Game of Life rule.

use vstd::prelude::*;

use crate::grid::{
    cell_at, parse_error_for, rows_of, source_accepted, ConstructionError, Grid, GridModel,
    ParseError, MAX_DIM,
};

verus! {

/// Counts a cell state as 0 or 1 for neighbor sums.
pub open spec fn count1(b: bool) -> int {
    if b {
        1
    } else {
        0
    }
}

/// The number of alive cells among the 8 positions surrounding `(x, y)`:
/// north, south, east, west and the four diagonals. Positions outside the
/// grid count as dead.
pub open spec fn neighbor_count(m: GridModel, x: int, y: int) -> int {
    count1(cell_at(m, x - 1, y - 1)) + count1(cell_at(m, x, y - 1)) + count1(
        cell_at(m, x + 1, y - 1),
    ) + count1(cell_at(m, x - 1, y)) + count1(cell_at(m, x + 1, y)) + count1(
        cell_at(m, x - 1, y + 1),
    ) + count1(cell_at(m, x, y + 1)) + count1(cell_at(m, x + 1, y + 1))
}

/// The Game of Life rule, with the rule's exact precedence: a cell with two
/// alive neighbors keeps its state, a cell with three alive neighbors is
/// alive whatever its state was, and every other cell is dead.
pub open spec fn next_alive(m: GridModel, x: int, y: int) -> bool {
    (neighbor_count(m, x, y) == 2 && cell_at(m, x, y)) || neighbor_count(m, x, y) == 3
}

/// The game's two buffers: `current_grid` holds the generation on display,
/// `new_grid` is the separate buffer the next generation is written into
/// before the two swap roles. Keeping them separate means a tick never reads
/// a neighbor that was already updated.
pub struct Game {
    pub current_grid: Grid,
    pub new_grid: Grid,
}

impl Game {
    /// The game's invariant: both buffers are well formed and their
    /// dimensions match, so every write of a tick lands in bounds.
    pub open spec fn wf(&self) -> bool {
        &&& self.current_grid.wf()
        &&& self.new_grid.wf()
        &&& self.current_grid@.width == self.new_grid@.width
        &&& self.current_grid@.height == self.new_grid@.height
    }

    /// A game whose first generation is randomly seeded, with a same-sized
    /// all-dead scratch buffer; refused when a dimension is zero.
    pub fn random_game(width: usize, height: usize) -> (r: Result<Game, ConstructionError>)
        requires
            width <= MAX_DIM,
            height <= MAX_DIM,
        ensures
            match r {
                Ok(game) => {
                    &&& width > 0 && height > 0
                    &&& game.wf()
                    &&& game.current_grid@.width == width
                    &&& game.current_grid@.height == height
                    &&& forall|x: int, y: int| !cell_at(game.new_grid@, x, y)
                },
                Err(e) => {
                    &&& (width == 0 || height == 0)
                    &&& e == (if width == 0 {
                        ConstructionError::ZeroWidth
                    } else {
                        ConstructionError::ZeroHeight
                    })
                },
            },
    {
        let current_grid = match Grid::random(width, height) {
            Ok(g) => g,
            Err(e) => {
                return Err(e);
            },
        };
        let new_grid = match Grid::empty(width, height) {
            Ok(g) => g,
            Err(e) => {
                return Err(e);
            },
        };
        Ok(Game { current_grid, new_grid })
    }

    /// A game whose first generation is parsed from a textual picture of the
    /// grid, with a same-sized all-dead scratch buffer; any parse failure is
    /// handed through unchanged.
    pub fn file_game(data: &[u8]) -> (r: Result<Game, ParseError>)
        requires
            data@.len() < MAX_DIM,
        ensures
            match r {
                Ok(game) => {
                    &&& source_accepted(data@)
                    &&& game.wf()
                    &&& game.current_grid@.width == rows_of(data@)[0].len()
                    &&& game.current_grid@.height == rows_of(data@).len()
                    &&& game.current_grid@.cells == rows_of(data@)
                    &&& forall|x: int, y: int| !cell_at(game.new_grid@, x, y)
                },
                Err(e) => parse_error_for(data@, e),
            },
    {
        let current_grid = match Grid::from_source(data) {
            Ok(g) => g,
            Err(e) => {
                return Err(e);
            },
        };
        // A parsed grid always has positive dimensions, so this arm can
        // never be taken; the match only satisfies the type.
        let new_grid = match Grid::empty(current_grid.width(), current_grid.height()) {
            Ok(g) => g,
            Err(_) => {
                return Err(ParseError::Empty);
            },
        };
        Ok(Game { current_grid, new_grid })
    }

    /// Advances one generation: computes every cell of the next generation
    /// from the current one under the Game of Life rule, writing only into
    /// the scratch buffer, then swaps the two buffers. Both buffers keep
    /// their dimensions, so the game's shape never changes, however many
    /// ticks run.
    pub fn tick(&mut self)
        requires
            old(self).wf(),
        ensures
            final (self).wf(),
            final (self).current_grid@.width == old(self).current_grid@.width,
            final (self).current_grid@.height == old(self).current_grid@.height,
            final (self).new_grid@ == old(self).current_grid@,
            forall|x: int, y: int|
                #[trigger] cell_at(final (self).current_grid@, x, y) == (0 <= x < old(
                    self,
                ).current_grid@.width && 0 <= y < old(self).current_grid@.height && next_alive(
                    old(self).current_grid@,
                    x,
                    y,
                )),
    {
        let width = self.current_grid.width();
        let height = self.current_grid.height();
        let ghost m0 = self.current_grid@;
        let mut y: usize = 0;
        while y < height
            invariant
                y <= height,
                width == m0.width,
                height == m0.height,
                self.current_grid == old(self).current_grid,
                self.current_grid@ == m0,
                self.current_grid.wf(),
                self.new_grid.wf(),
                self.new_grid@.width == m0.width,
                self.new_grid@.height == m0.height,
                forall|xx: int, yy: int|
                    0 <= xx < width && 0 <= yy < y ==> #[trigger] cell_at(self.new_grid@, xx, yy)
                        == next_alive(m0, xx, yy),
            decreases height - y,
        {
            let mut x: usize = 0;
            while x < width
                invariant
                    y < height,
                    x <= width,
                    width == m0.width,
                    height == m0.height,
                    self.current_grid == old(self).current_grid,
                    self.current_grid@ == m0,
                    self.current_grid.wf(),
                    self.new_grid.wf(),
                    self.new_grid@.width == m0.width,
                    self.new_grid@.height == m0.height,
                    forall|xx: int, yy: int|
                        0 <= xx < width && 0 <= yy < y ==> #[trigger] cell_at(
                            self.new_grid@,
                            xx,
                            yy,
                        ) == next_alive(m0, xx, yy),
                    forall|xx: int|
                        0 <= xx < x ==> #[trigger] cell_at(self.new_grid@, xx, y as int)
                            == next_alive(m0, xx, y as int),
                decreases width - x,
            {
                let xi = x as i32;
                let yi = y as i32;
                let mut neighbours: u32 = 0;
                if self.current_grid.get(xi - 1, yi - 1).alive {
                    neighbours += 1;
                }
                if self.current_grid.get(xi, yi - 1).alive {
                    neighbours += 1;
                }
                if self.current_grid.get(xi + 1, yi - 1).alive {
                    neighbours += 1;
                }
                if self.current_grid.get(xi - 1, yi).alive {
                    neighbours += 1;
                }
                if self.current_grid.get(xi + 1, yi).alive {
                    neighbours += 1;
                }
                if self.current_grid.get(xi - 1, yi + 1).alive {
                    neighbours += 1;
                }
                if self.current_grid.get(xi, yi + 1).alive {
                    neighbours += 1;
                }
                if self.current_grid.get(xi + 1, yi + 1).alive {
                    neighbours += 1;
                }
                let current_cell = self.current_grid.get(xi, yi);
                let new_cell = self.new_grid.get_mut(xi, yi);
                new_cell.alive = match neighbours {
                    2 => current_cell.alive,
                    3 => true,
                    _ => false,
                };
                proof {
                    assert(neighbours == neighbor_count(m0, x as int, y as int));
                    assert(cell_at(self.new_grid@, x as int, y as int) == next_alive(
                        m0,
                        x as int,
                        y as int,
                    ));
                }
                x += 1;
            }
            y += 1;
        }
        core::mem::swap(&mut self.current_grid, &mut self.new_grid);
    }
}

/// Determinism of the step rule: grids of equal dimensions whose cells agree
/// everywhere advance to the same next generation. With `tick`'s contract
/// this says a tick is a pure function of the current generation's cell
/// states: two games started from the same state tick to identical grids.
pub proof fn lemma_step_deterministic(a: GridModel, b: GridModel)
    requires
        a.width == b.width,
        a.height == b.height,
        forall|x: int, y: int| #[trigger] cell_at(a, x, y) == cell_at(b, x, y),
    ensures
        forall|x: int, y: int| #[trigger] next_alive(a, x, y) == next_alive(b, x, y),
{
    assert forall|x: int, y: int| #[trigger] next_alive(a, x, y) == next_alive(b, x, y) by {
        assert(cell_at(a, x - 1, y - 1) == cell_at(b, x - 1, y - 1));
        assert(cell_at(a, x, y - 1) == cell_at(b, x, y - 1));
        assert(cell_at(a, x + 1, y - 1) == cell_at(b, x + 1, y - 1));
        assert(cell_at(a, x - 1, y) == cell_at(b, x - 1, y));
        assert(cell_at(a, x, y) == cell_at(b, x, y));
        assert(cell_at(a, x + 1, y) == cell_at(b, x + 1, y));
        assert(cell_at(a, x - 1, y + 1) == cell_at(b, x - 1, y + 1));
        assert(cell_at(a, x, y + 1) == cell_at(b, x, y + 1));
        assert(cell_at(a, x + 1, y + 1) == cell_at(b, x + 1, y + 1));
    }
}

/// Birth or survival on three: a cell with exactly 3 alive neighbors is
/// alive in the next generation whatever its current state.
pub proof fn lemma_alive_on_three(m: GridModel, x: int, y: int)
    requires
        neighbor_count(m, x, y) == 3,
    ensures
        next_alive(m, x, y),
{
}

/// Survival on two: a cell with exactly 2 alive neighbors is alive in the
/// next generation exactly when it is alive now.
pub proof fn lemma_keeps_state_on_two(m: GridModel, x: int, y: int)
    requires
        neighbor_count(m, x, y) == 2,
    ensures
        next_alive(m, x, y) == cell_at(m, x, y),
{
}

/// Death otherwise: a cell with 0, 1, 4, 5, 6, 7 or 8 alive neighbors is
/// dead in the next generation whatever its current state.
pub proof fn lemma_dead_otherwise(m: GridModel, x: int, y: int)
    requires
        neighbor_count(m, x, y) == 0 || neighbor_count(m, x, y) == 1 || neighbor_count(m, x, y)
            == 4 || neighbor_count(m, x, y) == 5 || neighbor_count(m, x, y) == 6 || neighbor_count(
            m,
            x,
            y,
        ) == 7 || neighbor_count(m, x, y) == 8,
    ensures
        !next_alive(m, x, y),
{
}

/// Stability of the empty state: a grid with every cell dead advances to a
/// grid with every cell dead, whatever its size.
pub proof fn lemma_dead_grid_stays_dead(m: GridModel)
    requires
        forall|x: int, y: int| !(#[trigger] cell_at(m, x, y)),
    ensures
        forall|x: int, y: int| !(#[trigger] next_alive(m, x, y)),
{
    assert forall|x: int, y: int| !(#[trigger] next_alive(m, x, y)) by {
        assert(!cell_at(m, x - 1, y - 1));
        assert(!cell_at(m, x, y - 1));
        assert(!cell_at(m, x + 1, y - 1));
        assert(!cell_at(m, x - 1, y));
        assert(!cell_at(m, x, y));
        assert(!cell_at(m, x + 1, y));
        assert(!cell_at(m, x - 1, y + 1));
        assert(!cell_at(m, x, y + 1));
        assert(!cell_at(m, x + 1, y + 1));
    }
}

} // verus!
