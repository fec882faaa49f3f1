use vstd::prelude::*;
use vstd::arithmetic::div_mod::{lemma_fundamental_div_mod, lemma_fundamental_div_mod_converse};
use crate::cell::Cell;
use rand::Rng;

verus! {

/// How the cells of a new `Universe` start out.
#[derive(Clone, Copy, Debug, PartialEq, Eq, Structural)]
pub enum UniverseOption {
    /// Each cell is alive or dead by an independent random draw.
    Random,
    /// The cell at linear index `i` is alive when `i` is a multiple of 2 or 7.
    TwoSeven,
    /// Every cell is dead.
    Dead,
}

/// The mathematical board: its dimensions and its cells in row-major order.
pub struct Grid {
    pub width: nat,
    pub height: nat,
    pub cells: Seq<Cell>,
}

/// The state of a cell in the next generation, from its current state and
/// the number `n` of its live neighbours.
pub open spec fn next_state(cell: Cell, n: int) -> Cell {
    match cell {
        Cell::Alive => if n == 2 || n == 3 { Cell::Alive } else { Cell::Dead },
        Cell::Dead => if n == 3 { Cell::Alive } else { Cell::Dead },
    }
}

/// The starting state of the cell at linear index `i` in the `TwoSeven` pattern.
pub open spec fn two_seven_state(i: int) -> Cell {
    if i % 2 == 0 || i % 7 == 0 { Cell::Alive } else { Cell::Dead }
}

/// The state that a draw of 0 or 1 stands for: alive on 1, dead on 0.
pub open spec fn draw_state(draw: u32) -> Cell {
    if draw == 1 { Cell::Alive } else { Cell::Dead }
}

/// The glyph that stands for a cell in the text form of a board.
pub open spec fn glyph(cell: Cell) -> char {
    match cell {
        Cell::Dead => '◻',
        Cell::Alive => '◼',
    }
}

impl Grid {
    /// Positive dimensions whose product fits in a `u32`, and one cell per
    /// position.
    pub open spec fn wf(self) -> bool {
        &&& self.width > 0
        &&& self.height > 0
        &&& self.width * self.height <= u32::MAX
        &&& self.cells.len() == self.width * self.height
    }

    pub open spec fn in_range(self, row: int, column: int) -> bool {
        0 <= row < self.height && 0 <= column < self.width
    }

    /// Row-major addressing.
    pub open spec fn index(self, row: int, column: int) -> int {
        row * self.width + column
    }

    /// The row of the cell at linear index `i`.
    pub open spec fn row_of(self, i: int) -> int {
        i / self.width as int
    }

    /// The column of the cell at linear index `i`.
    pub open spec fn column_of(self, i: int) -> int {
        i % self.width as int
    }

    pub open spec fn cell(self, row: int, column: int) -> Cell {
        self.cells[self.index(row, column)]
    }

    pub open spec fn live(self, row: int, column: int) -> int {
        self.cell(row, column).weight()
    }

    /// The number of live cells among the eight neighbours of
    /// `(row, column)`, both axes wrapping around.
    pub open spec fn live_neighbors(self, row: int, column: int) -> int {
        let h = self.height as int;
        let w = self.width as int;
        let north = (row + h - 1) % h;
        let south = (row + 1) % h;
        let west = (column + w - 1) % w;
        let east = (column + 1) % w;
        self.live(north, west) + self.live(north, column) + self.live(north, east)
            + self.live(row, west) + self.live(row, east)
            + self.live(south, west) + self.live(south, column) + self.live(south, east)
    }

    /// The next generation: every cell follows `next_state` from the
    /// current board.
    pub open spec fn ticked(self) -> Grid {
        Grid {
            width: self.width,
            height: self.height,
            cells: Seq::new(
                self.cells.len(),
                |i: int|
                    next_state(
                        self.cells[i],
                        self.live_neighbors(self.row_of(i), self.column_of(i)),
                    ),
            ),
        }
    }

    /// The board with the cell at `(row, column)` flipped.
    pub open spec fn toggled(self, row: int, column: int) -> Grid {
        Grid {
            cells: self.cells.update(self.index(row, column), self.cell(row, column).toggled()),
            ..self
        }
    }

    /// Whether `(row, column)` lies on the first or last row or column.
    pub open spec fn on_edge(self, row: int, column: int) -> bool {
        row == 0 || column == 0 || row == self.height - 1 || column == self.width - 1
    }

    /// Whether `(r, c)` is one of the five cells that a glider stamped at
    /// `(row, column)` flips: west, east, south, south-east and north-east.
    pub open spec fn in_glider(row: int, column: int, r: int, c: int) -> bool {
        ||| r == row && c == column - 1
        ||| r == row && c == column + 1
        ||| r == row + 1 && c == column
        ||| r == row + 1 && c == column + 1
        ||| r == row - 1 && c == column + 1
    }

    /// The board after stamping a glider at `(row, column)`: unchanged on an
    /// edge, else the five glider cells flipped.
    pub open spec fn with_glider(self, row: int, column: int) -> Grid {
        if self.on_edge(row, column) {
            self
        } else {
            Grid {
                cells: Seq::new(
                    self.cells.len(),
                    |i: int|
                        if Grid::in_glider(row, column, self.row_of(i), self.column_of(i)) {
                            self.cells[i].toggled()
                        } else {
                            self.cells[i]
                        },
                ),
                ..self
            }
        }
    }

    pub open spec fn all_dead(self) -> bool {
        forall|i: int| 0 <= i < self.cells.len() ==> self.cells[i] == Cell::Dead
    }

    /// Whether the cells are those that `option` starts a universe with. A
    /// random start may hold any cells.
    pub open spec fn starts_as(self, option: UniverseOption) -> bool {
        match option {
            UniverseOption::Dead => self.all_dead(),
            UniverseOption::TwoSeven => forall|i: int|
                0 <= i < self.cells.len() ==> self.cells[i] == two_seven_state(i),
            UniverseOption::Random => true,
        }
    }

    /// The board after `k` generations.
    pub open spec fn ticked_times(self, k: nat) -> Grid
        decreases k,
    {
        if k == 0 {
            self
        } else {
            self.ticked_times((k - 1) as nat).ticked()
        }
    }

    /// One line of text: a glyph per cell of `row`, then a newline.
    pub open spec fn row_text(self, row: int) -> Seq<char> {
        Seq::new(self.width, |c: int| glyph(self.cell(row, c))).push('\n')
    }

    /// The text of the first `n` rows.
    pub open spec fn rows_text(self, n: nat) -> Seq<char>
        decreases n,
    {
        if n == 0 {
            Seq::empty()
        } else {
            self.rows_text((n - 1) as nat) + self.row_text(n - 1)
        }
    }

    /// The whole board as text, one line per row.
    pub open spec fn text(self) -> Seq<char> {
        self.rows_text(self.height)
    }
}

/// `(row, column)` in range gives an index in `[0, width * height)` from
/// which division and remainder by the width give `row` and `column` back.
pub proof fn lemma_index_decomposes(g: Grid, row: int, column: int)
    requires
        g.width > 0,
        g.in_range(row, column),
    ensures
        0 <= g.index(row, column) < g.width * g.height,
        g.row_of(g.index(row, column)) == row,
        g.column_of(g.index(row, column)) == column,
{
    let w = g.width as int;
    let h = g.height as int;
    lemma_fundamental_div_mod_converse(row * w + column, w, row, column);
    assert(0 <= row * w + column < w * h) by (nonlinear_arith)
        requires
            0 <= row < h,
            0 <= column < w,
    ;
}

/// Every linear index of a well-formed board is the index of the position
/// that division and remainder by the width give.
pub proof fn lemma_position_of(g: Grid, i: int)
    requires
        g.wf(),
        0 <= i < g.cells.len(),
    ensures
        g.in_range(g.row_of(i), g.column_of(i)),
        g.index(g.row_of(i), g.column_of(i)) == i,
{
    let w = g.width as int;
    let h = g.height as int;
    lemma_fundamental_div_mod(i, w);
    assert(w * (i / w) == (i / w) * w) by (nonlinear_arith);
    assert(0 <= i / w < h) by (nonlinear_arith)
        requires
            0 <= i < w * h,
            w > 0,
            i == w * (i / w) + i % w,
            0 <= i % w < w,
    ;
}

/// Row-major addressing is a bijection from the in-range positions onto
/// `[0, width * height)`: every position lands in that interval, no two
/// positions share an index, and every index in it belongs to a position.
pub proof fn lemma_index_bijection(g: Grid)
    requires
        g.wf(),
    ensures
        forall|r: int, c: int|
            g.in_range(r, c) ==> 0 <= #[trigger] g.index(r, c) < g.width * g.height,
        forall|r1: int, c1: int, r2: int, c2: int|
            g.in_range(r1, c1) && g.in_range(r2, c2) && #[trigger] g.index(r1, c1) == #[trigger] g.index(
                r2,
                c2,
            ) ==> r1 == r2 && c1 == c2,
        forall|i: int|
            0 <= i < g.width * g.height ==> g.in_range(#[trigger] g.row_of(i), g.column_of(i))
                && g.index(g.row_of(i), g.column_of(i)) == i,
{
    assert forall|r: int, c: int| g.in_range(r, c) implies 0 <= #[trigger] g.index(r, c) < g.width
        * g.height by {
        lemma_index_decomposes(g, r, c);
    }
    assert forall|r1: int, c1: int, r2: int, c2: int|
        g.in_range(r1, c1) && g.in_range(r2, c2) && #[trigger] g.index(r1, c1) == #[trigger] g.index(
            r2,
            c2,
        ) implies r1 == r2 && c1 == c2 by {
        lemma_index_decomposes(g, r1, c1);
        lemma_index_decomposes(g, r2, c2);
    }
    assert forall|i: int| 0 <= i < g.width * g.height implies g.in_range(
        #[trigger] g.row_of(i),
        g.column_of(i),
    ) && g.index(g.row_of(i), g.column_of(i)) == i by {
        lemma_position_of(g, i);
    }
}

/// The eight wrapped neighbours of an in-range position are in range.
proof fn lemma_neighbors_in_range(g: Grid, row: int, column: int)
    requires
        g.wf(),
        g.in_range(row, column),
    ensures
        0 <= (row + g.height - 1) % (g.height as int) < g.height,
        0 <= (row + 1) % (g.height as int) < g.height,
        0 <= (column + g.width - 1) % (g.width as int) < g.width,
        0 <= (column + 1) % (g.width as int) < g.width,
{
    lemma_wrap(row, g.height as int);
    lemma_wrap(column, g.width as int);
}

/// On a board of dead cells, no position has a live neighbour.
pub proof fn lemma_dead_board_has_no_live_neighbors(g: Grid, row: int, column: int)
    requires
        g.wf(),
        g.all_dead(),
        g.in_range(row, column),
    ensures
        g.live_neighbors(row, column) == 0,
{
    let h = g.height as int;
    let w = g.width as int;
    lemma_neighbors_in_range(g, row, column);
    let north = (row + h - 1) % h;
    let south = (row + 1) % h;
    let west = (column + w - 1) % w;
    let east = (column + 1) % w;
    lemma_index_decomposes(g, north, west);
    lemma_index_decomposes(g, north, column);
    lemma_index_decomposes(g, north, east);
    lemma_index_decomposes(g, row, west);
    lemma_index_decomposes(g, row, east);
    lemma_index_decomposes(g, south, west);
    lemma_index_decomposes(g, south, column);
    lemma_index_decomposes(g, south, east);
}

/// Flipping the same cell twice gives the board back.
pub proof fn lemma_toggle_twice_restores(g: Grid, row: int, column: int)
    requires
        g.wf(),
        g.in_range(row, column),
    ensures
        g.toggled(row, column).toggled(row, column) == g,
{
    lemma_index_decomposes(g, row, column);
    assert(g.toggled(row, column).toggled(row, column).cells =~= g.cells);
}

/// A glider stamped at an interior point of a dead board brings to life
/// exactly its five cells (west, east, south, south-east, north-east) and
/// leaves the centre dead.
pub proof fn lemma_glider_on_dead_board(g: Grid, row: int, column: int)
    requires
        g.wf(),
        g.all_dead(),
        g.in_range(row, column),
        !g.on_edge(row, column),
    ensures
        g.with_glider(row, column).wf(),
        g.with_glider(row, column).cell(row, column) == Cell::Dead,
        forall|r: int, c: int|
            g.in_range(r, c) ==> (#[trigger] g.with_glider(row, column).cell(r, c) == Cell::Alive
                <==> Grid::in_glider(row, column, r, c)),
{
    lemma_index_decomposes(g, row, column);
    assert forall|r: int, c: int| g.in_range(r, c) implies (#[trigger] g.with_glider(
        row,
        column,
    ).cell(r, c) == Cell::Alive <==> Grid::in_glider(row, column, r, c)) by {
        lemma_index_decomposes(g, r, c);
    }
}

/// A board of dead cells stays dead: nothing comes alive by itself.
pub proof fn lemma_dead_board_stays_dead(g: Grid)
    requires
        g.wf(),
        g.all_dead(),
    ensures
        g.ticked().wf(),
        g.ticked().all_dead(),
{
    let t = g.ticked();
    assert forall|i: int| 0 <= i < t.cells.len() implies #[trigger] t.cells[i] == Cell::Dead by {
        lemma_position_of(g, i);
        lemma_dead_board_has_no_live_neighbors(g, g.row_of(i), g.column_of(i));
    }
}

/// The rule of a generation, case by case, for the cell at `(row, column)`
/// with `n` live neighbours: a live cell with fewer than two dies, with two
/// or three lives on, with more than three dies; a dead cell with exactly
/// three comes alive and otherwise stays dead.
pub proof fn lemma_tick_rule(g: Grid, row: int, column: int)
    requires
        g.wf(),
        g.in_range(row, column),
    ensures
        ({
            let n = g.live_neighbors(row, column);
            let was = g.cell(row, column);
            let now = g.ticked().cell(row, column);
            &&& (was == Cell::Alive && n < 2 ==> now == Cell::Dead)
            &&& (was == Cell::Alive && (n == 2 || n == 3) ==> now == Cell::Alive)
            &&& (was == Cell::Alive && n > 3 ==> now == Cell::Dead)
            &&& (was == Cell::Dead && n == 3 ==> now == Cell::Alive)
            &&& (was == Cell::Dead && n != 3 ==> now == Cell::Dead)
        }),
{
    lemma_index_decomposes(g, row, column);
}

/// Any number of generations keeps the board's dimensions and its
/// well-formedness.
pub proof fn lemma_ticks_keep_dimensions(g: Grid, k: nat)
    requires
        g.wf(),
    ensures
        g.ticked_times(k).wf(),
        g.ticked_times(k).width == g.width,
        g.ticked_times(k).height == g.height,
    decreases k,
{
    if k > 0 {
        lemma_ticks_keep_dimensions(g, (k - 1) as nat);
    }
}

/// Flipping the five glider cells one after another flips exactly the
/// cells that `in_glider` names.
proof fn lemma_glider_cells(g: Grid, row: int, column: int)
    requires
        g.wf(),
        g.in_range(row, column),
        !g.on_edge(row, column),
    ensures
        g.toggled(row, column - 1).toggled(row, column + 1).toggled(row + 1, column).toggled(
            row + 1,
            column + 1,
        ).toggled(row - 1, column + 1).cells =~= g.with_glider(row, column).cells,
{
    let w = g.width as int;
    let t = g.toggled(row, column - 1).toggled(row, column + 1).toggled(row + 1, column).toggled(
        row + 1,
        column + 1,
    ).toggled(row - 1, column + 1);
    let s = g.with_glider(row, column);
    lemma_index_decomposes(g, row, column - 1);
    lemma_index_decomposes(g, row, column + 1);
    lemma_index_decomposes(g, row + 1, column);
    lemma_index_decomposes(g, row + 1, column + 1);
    lemma_index_decomposes(g, row - 1, column + 1);
    assert forall|i: int| 0 <= i < g.cells.len() implies #[trigger] t.cells[i] == s.cells[i] by {
        lemma_fundamental_div_mod(i, w);
        assert(w * (i / w) == (i / w) * w) by (nonlinear_arith);
    }
}

/// The wrapped neighbour rows and columns agree with the conditional form:
/// one back from 0 is `n - 1`, one on from `n - 1` is 0.
proof fn lemma_wrap(i: int, n: int)
    requires
        0 <= i < n,
    ensures
        (i + n - 1) % n == if i == 0 { n - 1 } else { i - 1 },
        (i + 1) % n == if i == n - 1 { 0 } else { i + 1 },
{
    if i == 0 {
        lemma_fundamental_div_mod_converse(i + n - 1, n, 0, n - 1);
    } else {
        lemma_fundamental_div_mod_converse(i + n - 1, n, 1, i - 1);
    }
    if i == n - 1 {
        lemma_fundamental_div_mod_converse(i + 1, n, 1, 0);
    } else {
        lemma_fundamental_div_mod_converse(i + 1, n, 0, i + 1);
    }
}

/// Relies on rand::thread_rng and Rng::gen_range: a uniform draw from the
/// inclusive range `0..=1`.
#[verifier::external_body]
fn random_draw() -> (r: u32)
    ensures
        r <= 1,
{
    rand::thread_rng().gen_range(0..=1u32)
}

/// `width * height` dead cells.
fn dead_cells(width: u32, height: u32) -> (cells: Vec<Cell>)
    requires
        width * height <= u32::MAX,
    ensures
        cells.len() == width * height,
        forall|i: int| 0 <= i < cells.len() ==> cells[i] == Cell::Dead,
{
    let n = width * height;
    let mut cells: Vec<Cell> = Vec::new();
    for i in 0..n
        invariant
            cells.len() == i,
            forall|j: int| 0 <= j < cells.len() ==> cells[j] == Cell::Dead,
    {
        cells.push(Cell::Dead);
    }
    cells
}

/// `width * height` cells, the one at index `i` alive exactly when `i` is a
/// multiple of 2 or of 7.
fn two_seven_cells(width: u32, height: u32) -> (cells: Vec<Cell>)
    requires
        width * height <= u32::MAX,
    ensures
        cells.len() == width * height,
        forall|i: int| 0 <= i < cells.len() ==> cells[i] == two_seven_state(i),
{
    let n = width * height;
    let mut cells: Vec<Cell> = Vec::new();
    for i in 0..n
        invariant
            cells.len() == i,
            forall|j: int| 0 <= j < cells.len() ==> cells[j] == two_seven_state(j),
    {
        if i % 2 == 0 || i % 7 == 0 {
            cells.push(Cell::Alive);
        } else {
            cells.push(Cell::Dead);
        }
    }
    cells
}

/// The cells that a sequence of draws, each 0 or 1, stands for: cell `i`
/// is alive exactly when draw `i` is 1.
pub fn cells_from_draws(draws: &Vec<u32>) -> (cells: Vec<Cell>)
    requires
        forall|i: int| 0 <= i < draws@.len() ==> draws@[i] <= 1,
    ensures
        cells@.len() == draws@.len(),
        forall|i: int|
            0 <= i < draws@.len() ==> cells@[i] == draw_state(#[trigger] draws@[i]),
{
    let mut cells: Vec<Cell> = Vec::new();
    for i in 0..draws.len()
        invariant
            cells@.len() == i,
            forall|j: int| 0 <= j < i ==> cells@[j] == draw_state(#[trigger] draws@[j]),
    {
        if draws[i] == 1 {
            cells.push(Cell::Alive);
        } else {
            cells.push(Cell::Dead);
        }
    }
    cells
}

/// `width * height` cells, each alive or dead by its own random draw.
fn random_cells(width: u32, height: u32) -> (cells: Vec<Cell>)
    requires
        width * height <= u32::MAX,
    ensures
        cells.len() == width * height,
{
    let n = width * height;
    let mut draws: Vec<u32> = Vec::new();
    for i in 0..n
        invariant
            draws.len() == i,
            forall|j: int| 0 <= j < draws@.len() ==> draws@[j] <= 1,
    {
        draws.push(random_draw());
    }
    cells_from_draws(&draws)
}

/// The universe: a fixed-size toroidal grid of cells.
#[derive(PartialEq)]
pub struct Universe {
    width: u32,
    height: u32,
    cells: Vec<Cell>,
}

impl View for Universe {
    type V = Grid;

    closed spec fn view(&self) -> Grid {
        Grid { width: self.width as nat, height: self.height as nat, cells: self.cells@ }
    }
}

impl Universe {
    /// The board is well formed: see `Grid::wf`.
    pub open spec fn wf(&self) -> bool {
        self@.wf()
    }

    /// Returns the linear index of the cell at `(row, column)`.
    pub fn get_index(&self, row: u32, column: u32) -> (r: usize)
        requires
            self.wf(),
            self@.in_range(row as int, column as int),
        ensures
            r as int == self@.index(row as int, column as int),
            r < self@.cells.len(),
    {
        proof {
            lemma_index_decomposes(self@, row as int, column as int);
        }
        (row * self.width + column) as usize
    }

    /// 1 when the cell at `(row, column)` is alive, else 0.
    fn live_at(&self, row: u32, column: u32) -> (r: u8)
        requires
            self.wf(),
            self@.in_range(row as int, column as int),
        ensures
            r as int == self@.live(row as int, column as int),
            r <= 1,
    {
        let idx = self.get_index(row, column);
        self.cells[idx].value()
    }

    /// Counts the live cells among the eight neighbours of `(row, column)`,
    /// wrapping around both edges.
    pub fn live_neighbor_count(&self, row: u32, column: u32) -> (r: u8)
        requires
            self.wf(),
            self@.in_range(row as int, column as int),
        ensures
            r as int == self@.live_neighbors(row as int, column as int),
            r <= 8,
    {
        proof {
            lemma_wrap(row as int, self.height as int);
            lemma_wrap(column as int, self.width as int);
        }
        let mut count: u8 = 0;

        let north = if row == 0 { self.height - 1 } else { row - 1 };
        let south = if row == self.height - 1 { 0 } else { row + 1 };
        let west = if column == 0 { self.width - 1 } else { column - 1 };
        let east = if column == self.width - 1 { 0 } else { column + 1 };

        count += self.live_at(north, west);
        count += self.live_at(north, column);
        count += self.live_at(north, east);
        count += self.live_at(row, west);
        count += self.live_at(row, east);
        count += self.live_at(south, west);
        count += self.live_at(south, column);
        count += self.live_at(south, east);

        count
    }

    /// Advances the universe by one generation. Every next state is
    /// computed from the current cells into a second buffer, which then
    /// replaces the current one.
    pub fn tick(&mut self)
        requires
            old(self).wf(),
        ensures
            final(self).wf(),
            final(self)@ == old(self)@.ticked(),
    {
        let mut next = self.cells.clone();
        let width = self.width;
        let height = self.height;
        assert(0 * width == 0);
        for row in 0..height
            invariant
                self.wf(),
                width == self.width,
                height == self.height,
                next.len() == self.cells.len(),
                forall|i: int| 0 <= i < row * width ==> next@[i] == #[trigger] self@.ticked().cells[i],
        {
            for col in 0..width
                invariant
                    self.wf(),
                    width == self.width,
                    height == self.height,
                    row < height,
                    next.len() == self.cells.len(),
                    forall|i: int|
                        0 <= i < row * width + col ==> next@[i] == #[trigger] self@.ticked().cells[i],
            {
                let idx = self.get_index(row, col);
                let cell = self.cells[idx];
                let live_neighbors = self.live_neighbor_count(row, col);

                let next_cell = match (cell, live_neighbors) {
                    // Fewer than two live neighbours: dies of underpopulation.
                    (Cell::Alive, x) if x < 2 => Cell::Dead,
                    // Two or three live neighbours: lives on.
                    (Cell::Alive, 2) | (Cell::Alive, 3) => Cell::Alive,
                    // More than three live neighbours: dies of overpopulation.
                    (Cell::Alive, x) if x > 3 => Cell::Dead,
                    // Exactly three live neighbours: a dead cell comes alive.
                    (Cell::Dead, 3) => Cell::Alive,
                    // Every other cell keeps its state.
                    (otherwise, _) => otherwise,
                };
                proof {
                    lemma_index_decomposes(self@, row as int, col as int);
                }
                next.set(idx, next_cell);
            }
            assert(row * width + width == (row + 1) * width) by (nonlinear_arith);
        }
        assert(height * width == width * height) by (nonlinear_arith);
        assert(next@ =~= self@.ticked().cells);
        self.cells = next;
    }

    /// Flips the cell at `(row, column)` between `Dead` and `Alive`.
    pub fn toggle_cell(&mut self, row: u32, column: u32)
        requires
            old(self).wf(),
            old(self)@.in_range(row as int, column as int),
        ensures
            final(self).wf(),
            final(self)@ == old(self)@.toggled(row as int, column as int),
    {
        let idx = self.get_index(row, column);
        let mut cell = self.cells[idx];
        cell.toggle();
        self.cells.set(idx, cell);
    }

    /// Stamps a glider at `(row, column)` by flipping the cells to its west,
    /// east, south, south-east and north-east. On an edge row or column
    /// nothing changes.
    pub fn toggle_glider(&mut self, row: u32, column: u32)
        requires
            old(self).wf(),
            old(self)@.in_range(row as int, column as int),
        ensures
            final(self).wf(),
            final(self)@ == old(self)@.with_glider(row as int, column as int),
    {
        //     o
        // o x o
        //   o o
        let (width, height) = (self.width, self.height);
        if width - 1 == column || column == 0 || height - 1 == row || row == 0 {
            return;
        }
        let ghost g = self@;
        self.toggle_cell(row, column - 1);
        self.toggle_cell(row, column + 1);
        self.toggle_cell(row + 1, column);
        self.toggle_cell(row + 1, column + 1);
        self.toggle_cell(row - 1, column + 1);
        proof {
            lemma_glider_cells(g, row as int, column as int);
        }
        assert(self@.cells =~= g.with_glider(row as int, column as int).cells);
    }

    /// A universe of `width` by `height` cells that start as
    /// `universe_option` says.
    pub fn with_dimensions(width: u32, height: u32, universe_option: UniverseOption) -> (u: Universe)
        requires
            width > 0,
            height > 0,
            width * height <= u32::MAX,
        ensures
            u.wf(),
            u@.width == width,
            u@.height == height,
            u@.starts_as(universe_option),
    {
        let cells = match universe_option {
            UniverseOption::Dead => dead_cells(width, height),
            UniverseOption::Random => random_cells(width, height),
            UniverseOption::TwoSeven => two_seven_cells(width, height),
        };
        Universe { width, height, cells }
    }

    /// A universe of 256 by 256 cells that start as `universe_option` says.
    pub fn new(universe_option: UniverseOption) -> (u: Universe)
        ensures
            u.wf(),
            u@.width == 256,
            u@.height == 256,
            u@.starts_as(universe_option),
    {
        Universe::with_dimensions(256, 256, universe_option)
    }

    /// The board as text: one line per row, `◻` for a dead cell and
    /// `◼` for a live one.
    pub fn render(&self) -> (r: String)
        requires
            self.wf(),
        ensures
            r@ == self@.text(),
    {
        let mut text = String::new();
        let width = self.width;
        let height = self.height;
        for row in 0..height
            invariant
                self.wf(),
                width == self.width,
                height == self.height,
                text@ == self@.rows_text(row as nat),
        {
            for col in 0..width
                invariant
                    self.wf(),
                    width == self.width,
                    height == self.height,
                    row < height,
                    text@ == self@.rows_text(row as nat) + Seq::new(
                        col as nat,
                        |c: int| glyph(self@.cell(row as int, c)),
                    ),
            {
                let idx = self.get_index(row, col);
                if self.cells[idx] == Cell::Dead {
                    proof {
                        reveal_strlit("◻");
                    }
                    text.append("◻");
                } else {
                    proof {
                        reveal_strlit("◼");
                    }
                    text.append("◼");
                }
                assert(text@ =~= self@.rows_text(row as nat) + Seq::new(
                    (col + 1) as nat,
                    |c: int| glyph(self@.cell(row as int, c)),
                ));
            }
            proof {
                reveal_strlit("\n");
            }
            text.append("\n");
            assert(text@ =~= self@.rows_text((row + 1) as nat));
        }
        text
    }

    /// The width of the universe.
    pub fn width(&self) -> (r: u32)
        ensures
            r == self@.width,
    {
        self.width
    }

    /// The height of the universe.
    pub fn height(&self) -> (r: u32)
        ensures
            r == self@.height,
    {
        self.height
    }

    /// The cells, in row-major order.
    pub fn struct_cells(&self) -> (r: &Vec<Cell>)
        ensures
            r@ == self@.cells,
    {
        &self.cells
    }

    /// The cell buffer as a slice, for callers that read the cells in place.
    pub fn cells(&self) -> (r: &[Cell])
        ensures
            r@ == self@.cells,
    {
        self.cells.as_slice()
    }
}

} // verus!
