use vstd::prelude::*;

use vstd::arithmetic::div_mod::{lemma_fundamental_div_mod, lemma_fundamental_div_mod_converse};

use crate::cell::{
    lemma_roll_respects_settings, mutation_for_roll, next_alive, select_mutation, seeded_cell, Cell,
    MutationType,
};
use crate::mutation_setting::{mutation_allowed, MutationSettings};

verus! {

/// The abstract grid: `width * height` cells in row-major order.
pub struct GridView {
    pub width: nat,
    pub height: nat,
    pub cells: Seq<Cell>,
}

impl GridView {
    /// Exactly one cell per coordinate: the cell at index `i` sits at column
    /// `i % width`, row `i / width`.
    pub open spec fn wf(self) -> bool {
        &&& self.cells.len() == self.width * self.height
        &&& forall|i: int|
            0 <= i < self.cells.len() ==> (#[trigger] self.cells[i]).x == i % (self.width as int)
                && self.cells[i].y == i / (self.width as int)
    }

    pub open spec fn in_bounds(self, x: int, y: int) -> bool {
        0 <= x < self.width && 0 <= y < self.height
    }

    /// Where the cell at `(x, y)` is stored.
    pub open spec fn index(self, x: int, y: int) -> int {
        y * self.width + x
    }

    pub open spec fn cell_at(self, x: int, y: int) -> Cell {
        self.cells[self.index(x, y)]
    }

    /// One if `(x, y)` lies in the grid and its cell is alive, else zero.
    pub open spec fn live_at(self, x: int, y: int) -> int {
        if self.in_bounds(x, y) && self.cell_at(x, y).alive {
            1
        } else {
            0
        }
    }

    /// How many of the up to eight cells around `(x, y)` are alive; positions
    /// off the grid count as dead (no wraparound).
    pub open spec fn live_neighbors(self, x: int, y: int) -> int {
        self.live_at(x - 1, y - 1) + self.live_at(x, y - 1) + self.live_at(x + 1, y - 1)
            + self.live_at(x - 1, y) + self.live_at(x + 1, y)
            + self.live_at(x - 1, y + 1) + self.live_at(x, y + 1) + self.live_at(x + 1, y + 1)
    }

    /// The cell at `(x, y)` as a one-element sequence, or nothing when off
    /// the grid.
    pub open spec fn cell_if_in(self, x: int, y: int) -> Seq<Cell> {
        if self.in_bounds(x, y) {
            seq![self.cell_at(x, y)]
        } else {
            seq![]
        }
    }

    /// The Moore neighborhood of `(x, y)` clipped to the grid, row by row.
    pub open spec fn neighbors(self, x: int, y: int) -> Seq<Cell> {
        self.cell_if_in(x - 1, y - 1) + self.cell_if_in(x, y - 1) + self.cell_if_in(x + 1, y - 1)
            + self.cell_if_in(x - 1, y) + self.cell_if_in(x + 1, y)
            + self.cell_if_in(x - 1, y + 1) + self.cell_if_in(x, y + 1) + self.cell_if_in(x + 1, y + 1)
    }

    /// Cell `i` in the next generation. Its fate is read from this
    /// generation alone; a cell that is born takes the variant of `roll`,
    /// every other cell keeps its variant.
    pub open spec fn next_cell(self, s: MutationSettings, i: int, roll: u32) -> Cell {
        let c = self.cells[i];
        let alive = next_alive(c.mutation, c.alive, self.live_neighbors(c.x as int, c.y as int));
        Cell {
            alive,
            mutation: if !c.alive && alive { mutation_for_roll(s, roll) } else { c.mutation },
            x: c.x,
            y: c.y,
        }
    }

    /// The next generation, with `rolls[i]` the roll for cell `i`.
    pub open spec fn next_generation(self, s: MutationSettings, rolls: Seq<u32>) -> GridView {
        GridView {
            width: self.width,
            height: self.height,
            cells: Seq::new(self.cells.len(), |i: int| self.next_cell(s, i, rolls[i])),
        }
    }
}

/// A freshly built grid, with `flips[i]` the coin flip and `rolls[i]` the
/// roll of cell `i`.
pub open spec fn fresh_grid(
    width: nat,
    height: nat,
    s: MutationSettings,
    flips: Seq<bool>,
    rolls: Seq<u32>,
) -> GridView {
    GridView {
        width,
        height,
        cells: Seq::new(
            width * height,
            |i: int|
                seeded_cell(
                    (i % (width as int)) as usize,
                    (i / (width as int)) as usize,
                    s,
                    flips[i],
                    rolls[i],
                ),
        ),
    }
}

/// Where the cell at `(x, y)` is stored, and that it is read back.
proof fn lemma_index(w: int, h: int, x: int, y: int)
    requires
        0 <= x < w,
        0 <= y < h,
    ensures
        0 <= y * w + x < w * h,
        (y * w + x) % w == x,
        (y * w + x) / w == y,
{
    lemma_fundamental_div_mod_converse(y * w + x, w, y, x);
    assert(y * w + x < w * h) by (nonlinear_arith)
        requires
            0 <= x < w,
            0 <= y < h,
    ;
    assert(0 <= y * w) by (nonlinear_arith)
        requires
            0 <= x < w,
            0 <= y < h,
    ;
}

/// The position of the cell stored at index `i` lies in the grid.
proof fn lemma_position(w: int, h: int, i: int)
    requires
        0 <= i < w * h,
        0 <= w,
        0 <= h,
    ensures
        0 < w,
        0 <= i % w < w,
        0 <= i / w < h,
{
    assert(0 < w) by (nonlinear_arith)
        requires
            0 <= i < w * h,
            0 <= w,
            0 <= h,
    ;
    lemma_fundamental_div_mod(i, w);
    let q = i / w;
    let r = i % w;
    assert(0 <= r < w) by {
        vstd::arithmetic::div_mod::lemma_mod_bound(i, w);
    }
    assert(0 <= q < h) by (nonlinear_arith)
        requires
            i == w * q + r,
            0 <= r < w,
            0 <= i < w * h,
            0 < w,
    ;
}

/// A cell that is born in a generation carries a variant that the settings
/// allow: with blue forbidden, no newborn cell is blue, and likewise for red.
pub proof fn lemma_rebirth_respects_settings(
    g: GridView,
    s: MutationSettings,
    rolls: Seq<u32>,
    i: int,
)
    requires
        g.wf(),
        rolls.len() == g.cells.len(),
        0 <= i < g.cells.len(),
        !g.cells[i].alive,
        g.next_generation(s, rolls).cells[i].alive,
    ensures
        mutation_allowed(s, g.next_generation(s, rolls).cells[i].mutation),
{
    lemma_roll_respects_settings(s, rolls[i]);
}

/// Which cells are alive in the next generation depends only on the alive
/// flags and variants of the current one: not on the rolls, not on the
/// settings, and not on any value computed during the step.
pub proof fn lemma_next_alive_from_prior(
    g1: GridView,
    g2: GridView,
    s1: MutationSettings,
    s2: MutationSettings,
    rolls1: Seq<u32>,
    rolls2: Seq<u32>,
)
    requires
        g1.wf(),
        g2.wf(),
        g1.width == g2.width,
        g1.height == g2.height,
        forall|i: int|
            0 <= i < g1.cells.len() ==> (#[trigger] g1.cells[i]).alive == g2.cells[i].alive
                && g1.cells[i].mutation == g2.cells[i].mutation,
        rolls1.len() == g1.cells.len(),
        rolls2.len() == g2.cells.len(),
    ensures
        forall|i: int|
            0 <= i < g1.cells.len() ==> (#[trigger] g1.next_generation(s1, rolls1).cells[i]).alive
                == g2.next_generation(s2, rolls2).cells[i].alive,
{
    assert forall|x: int, y: int| #[trigger] g1.live_at(x, y) == g2.live_at(x, y) by {
        if g1.in_bounds(x, y) {
            lemma_index(g1.width as int, g1.height as int, x, y);
            assert(g1.cells[g1.index(x, y)].alive == g2.cells[g2.index(x, y)].alive);
        }
    }
    assert forall|i: int| 0 <= i < g1.cells.len() implies (#[trigger] g1.next_generation(
        s1,
        rolls1,
    ).cells[i]).alive == g2.next_generation(s2, rolls2).cells[i].alive by {
        let c1 = g1.cells[i];
        let c2 = g2.cells[i];
        assert(c1.x == c2.x && c1.y == c2.y);
        assert(g1.live_neighbors(c1.x as int, c1.y as int) == g2.live_neighbors(
            c2.x as int,
            c2.y as int,
        ));
    }
}

/// Positions off the grid are left out of a neighborhood: any cell has at
/// most eight neighbors, a cell on an edge at most five, a corner cell at
/// most three, and the live ones are among them.
pub proof fn lemma_border_neighbors(g: GridView, x: int, y: int)
    requires
        g.wf(),
        g.in_bounds(x, y),
    ensures
        g.live_neighbors(x, y) <= g.neighbors(x, y).len() <= 8,
        (x == 0 || x == g.width - 1 || y == 0 || y == g.height - 1) ==> g.neighbors(x, y).len()
            <= 5,
        (x == 0 || x == g.width - 1) && (y == 0 || y == g.height - 1) ==> g.neighbors(x, y).len()
            <= 3,
{
}

/// A fresh grid keeps nothing of an earlier one: its cells sit at their own
/// coordinates, a dead cell has the classic variant, and a live one a
/// variant that the settings allow.
pub proof fn lemma_fresh_cells(
    width: nat,
    height: nat,
    s: MutationSettings,
    flips: Seq<bool>,
    rolls: Seq<u32>,
    i: int,
)
    requires
        width <= usize::MAX,
        height <= usize::MAX,
        flips.len() == width * height,
        rolls.len() == width * height,
        0 <= i < width * height,
    ensures
        ({
            let c = fresh_grid(width, height, s, flips, rolls).cells[i];
            &&& c.x == i % (width as int)
            &&& c.y == i / (width as int)
            &&& !c.alive ==> c.mutation == MutationType::Classic
            &&& c.alive ==> mutation_allowed(s, c.mutation)
        }),
{
    lemma_position(width as int, height as int, i);
    lemma_roll_respects_settings(s, rolls[i]);
}

/// The coordinate one step from `v` in direction `d`, if it is below `bound`.
fn shift(v: usize, d: i8, bound: usize) -> (r: Option<usize>)
    requires
        -1 <= d <= 1,
        v < bound,
    ensures
        match r {
            Some(n) => n == v + d && n < bound,
            None => !(0 <= v + d < bound),
        },
{
    if d < 0 {
        if v == 0 {
            None
        } else {
            Some(v - 1)
        }
    } else if d > 0 {
        if v + 1 < bound {
            Some(v + 1)
        } else {
            None
        }
    } else {
        Some(v)
    }
}

/// A fixed-size grid of cells with coordinate-indexed lookup.
pub struct Grid {
    width: usize,
    height: usize,
    cells: Vec<Cell>,
}

impl View for Grid {
    type V = GridView;

    closed spec fn view(&self) -> GridView {
        GridView { width: self.width as nat, height: self.height as nat, cells: self.cells@ }
    }
}

impl Grid {
    /// The grid whose cell `i` is seeded with `flips[i]` and `rolls[i]`;
    /// `None` unless both hold exactly `width * height` entries.
    pub fn from_draws(
        width: usize,
        height: usize,
        settings: &MutationSettings,
        flips: &Vec<bool>,
        rolls: &Vec<u32>,
    ) -> (r: Option<Grid>)
        ensures
            match r {
                Some(g) => flips@.len() == width * height && rolls@.len() == width * height
                    && g@.wf() && g@ == fresh_grid(
                    width as nat,
                    height as nat,
                    *settings,
                    flips@,
                    rolls@,
                ),
                None => !(flips@.len() == width * height && rolls@.len() == width * height),
            },
    {
        let flips_len = flips.len();
        let n = match width.checked_mul(height) {
            Some(n) => n,
            None => return None,
        };
        if flips_len != n || rolls.len() != n {
            return None;
        }
        let mut cells: Vec<Cell> = Vec::with_capacity(n);
        let mut i: usize = 0;
        while i < n
            invariant
                n == width * height,
                flips@.len() == n,
                rolls@.len() == n,
                i <= n,
                cells@.len() == i,
                forall|j: int|
                    0 <= j < i ==> #[trigger] cells@[j] == seeded_cell(
                        (j % (width as int)) as usize,
                        (j / (width as int)) as usize,
                        *settings,
                        flips@[j],
                        rolls@[j],
                    ),
            decreases n - i,
        {
            proof {
                lemma_position(width as int, height as int, i as int);
            }
            let cell = Cell::seeded(i % width, i / width, settings, flips[i], rolls[i]);
            cells.push(cell);
            i += 1;
        }
        let g = Grid { width, height, cells };
        assert(g@.cells =~= fresh_grid(width as nat, height as nat, *settings, flips@, rolls@).cells);
        assert forall|j: int| 0 <= j < g@.cells.len() implies (#[trigger] g@.cells[j]).x == j % (
        width as int) && g@.cells[j].y == j / (width as int) by {
            lemma_position(width as int, height as int, j);
        }
        Some(g)
    }

    /// A grid of `width * height` cells, each alive by a fair coin flip and,
    /// when alive, with a variant drawn under `settings`.
    pub fn create(width: usize, height: usize, settings: &MutationSettings) -> (r: Grid)
        requires
            width * height <= usize::MAX,
        ensures
            r@.wf(),
            exists|flips: Seq<bool>, rolls: Seq<u32>|
                r@ == fresh_grid(width as nat, height as nat, *settings, flips, rolls),
    {
        let n = width * height;
        let mut flips: Vec<bool> = Vec::with_capacity(n);
        let mut rolls: Vec<u32> = Vec::with_capacity(n);
        let mut i: usize = 0;
        while i < n
            invariant
                i <= n,
                flips@.len() == i,
                rolls@.len() == i,
            decreases n - i,
        {
            flips.push(rand::random::<bool>());
            rolls.push(rand::random::<u32>());
            i += 1;
        }
        match Grid::from_draws(width, height, settings, &flips, &rolls) {
            Some(g) => g,
            None => {
                assert(false);
                Grid { width: 0, height: 0, cells: Vec::new() }
            },
        }
    }

    /// Replaces every cell by a fresh one, keeping the dimensions; nothing
    /// of the previous cells is kept.
    pub fn rebuild(&mut self, settings: &MutationSettings)
        requires
            old(self)@.wf(),
        ensures
            final(self)@.wf(),
            exists|flips: Seq<bool>, rolls: Seq<u32>|
                final(self)@ == fresh_grid(
                    old(self)@.width,
                    old(self)@.height,
                    *settings,
                    flips,
                    rolls,
                ),
    {
        let len = self.cells.len();
        assert(self.width * self.height == len);
        *self = Grid::create(self.width, self.height, settings);
    }

    pub fn width(&self) -> (r: usize)
        ensures
            r == self@.width,
    {
        self.width
    }

    pub fn height(&self) -> (r: usize)
        ensures
            r == self@.height,
    {
        self.height
    }

    /// All cells, in row-major order.
    pub fn cells(&self) -> (r: &Vec<Cell>)
        ensures
            r@ == self@.cells,
    {
        &self.cells
    }

    /// The cell at `(x, y)`.
    pub fn cell(&self, x: usize, y: usize) -> (r: Cell)
        requires
            self@.wf(),
            x < self@.width,
            y < self@.height,
        ensures
            r == self@.cell_at(x as int, y as int),
            r.x == x,
            r.y == y,
    {
        let len = self.cells.len();
        proof {
            lemma_index(self.width as int, self.height as int, x as int, y as int);
            assert(y * self.width + x < len);
        }
        self.cells[y * self.width + x]
    }

    /// Where the neighbor of `(x, y)` in direction `(dx, dy)` is stored, if
    /// it lies in the grid.
    fn neighbor_index(&self, x: usize, y: usize, dx: i8, dy: i8) -> (r: Option<usize>)
        requires
            self@.wf(),
            x < self@.width,
            y < self@.height,
            -1 <= dx <= 1,
            -1 <= dy <= 1,
        ensures
            match r {
                Some(i) => self@.in_bounds(x + dx, y + dy) && i == self@.index(x + dx, y + dy)
                    && i < self@.cells.len(),
                None => !self@.in_bounds(x + dx, y + dy),
            },
    {
        let len = self.cells.len();
        match (shift(x, dx, self.width), shift(y, dy, self.height)) {
            (Some(nx), Some(ny)) => {
                proof {
                    lemma_index(self.width as int, self.height as int, nx as int, ny as int);
                    assert(ny * self.width + nx < len);
                }
                Some(ny * self.width + nx)
            },
            _ => None,
        }
    }

    /// One if the neighbor in direction `(dx, dy)` exists and is alive.
    fn live_toward(&self, x: usize, y: usize, dx: i8, dy: i8) -> (r: u8)
        requires
            self@.wf(),
            x < self@.width,
            y < self@.height,
            -1 <= dx <= 1,
            -1 <= dy <= 1,
        ensures
            r == self@.live_at(x + dx, y + dy),
    {
        match self.neighbor_index(x, y, dx, dy) {
            Some(i) => if self.cells[i].alive {
                1
            } else {
                0
            },
            None => 0,
        }
    }

    /// How many neighbors of `(x, y)` are alive.
    pub fn live_neighbors(&self, x: usize, y: usize) -> (r: u8)
        requires
            self@.wf(),
            x < self@.width,
            y < self@.height,
        ensures
            r == self@.live_neighbors(x as int, y as int),
    {
        self.live_toward(x, y, -1, -1) + self.live_toward(x, y, 0, -1) + self.live_toward(x, y, 1, -1)
            + self.live_toward(x, y, -1, 0) + self.live_toward(x, y, 1, 0)
            + self.live_toward(x, y, -1, 1) + self.live_toward(x, y, 0, 1)
            + self.live_toward(x, y, 1, 1)
    }

    /// Appends the neighbor in direction `(dx, dy)`, if it exists.
    fn push_neighbor(&self, out: &mut Vec<Cell>, x: usize, y: usize, dx: i8, dy: i8)
        requires
            self@.wf(),
            x < self@.width,
            y < self@.height,
            -1 <= dx <= 1,
            -1 <= dy <= 1,
        ensures
            final(out)@ == old(out)@ + self@.cell_if_in(x + dx, y + dy),
    {
        match self.neighbor_index(x, y, dx, dy) {
            Some(i) => {
                out.push(self.cells[i]);
            },
            None => {
                assert(old(out)@ + self@.cell_if_in(x + dx, y + dy) =~= old(out)@);
            },
        }
    }

    /// The neighbors of `(x, y)`: up to eight cells, fewer on the edges.
    pub fn neighbors(&self, x: usize, y: usize) -> (r: Vec<Cell>)
        requires
            self@.wf(),
            x < self@.width,
            y < self@.height,
        ensures
            r@ == self@.neighbors(x as int, y as int),
    {
        let mut out: Vec<Cell> = Vec::with_capacity(8);
        self.push_neighbor(&mut out, x, y, -1, -1);
        self.push_neighbor(&mut out, x, y, 0, -1);
        self.push_neighbor(&mut out, x, y, 1, -1);
        self.push_neighbor(&mut out, x, y, -1, 0);
        self.push_neighbor(&mut out, x, y, 1, 0);
        self.push_neighbor(&mut out, x, y, -1, 1);
        self.push_neighbor(&mut out, x, y, 0, 1);
        self.push_neighbor(&mut out, x, y, 1, 1);
        assert(out@ =~= self@.neighbors(x as int, y as int));
        out
    }

    /// Computes the next generation, with `rolls[i]` the roll that cell `i`
    /// uses if it is born. Every count is taken from the current generation;
    /// the cells are replaced only once all of them are computed.
    pub fn advance_with_rolls(&mut self, settings: &MutationSettings, rolls: &Vec<u32>)
        requires
            old(self)@.wf(),
            rolls@.len() == old(self)@.cells.len(),
        ensures
            final(self)@ == old(self)@.next_generation(*settings, rolls@),
            final(self)@.wf(),
    {
        let n = self.cells.len();
        let mut next: Vec<Cell> = Vec::with_capacity(n);
        let mut i: usize = 0;
        while i < n
            invariant
                self@ == old(self)@,
                self@.wf(),
                n == self@.cells.len(),
                rolls@.len() == n,
                i <= n,
                next@.len() == i,
                forall|j: int|
                    0 <= j < i ==> #[trigger] next@[j] == self@.next_cell(*settings, j, rolls@[j]),
            decreases n - i,
        {
            let cell = self.cells[i];
            proof {
                lemma_position(self.width as int, self.height as int, i as int);
            }
            let count = self.live_neighbors(cell.x, cell.y);
            let alive = cell.change_state(count as usize);
            let mutation = if !cell.alive && alive {
                select_mutation(settings, rolls[i])
            } else {
                cell.mutation
            };
            next.push(Cell { alive, mutation, x: cell.x, y: cell.y });
            i += 1;
        }
        self.cells = next;
        assert(self@.cells =~= old(self)@.next_generation(*settings, rolls@).cells);
    }

    /// Computes the next generation, drawing a fresh roll for each cell.
    pub fn advance(&mut self, settings: &MutationSettings)
        requires
            old(self)@.wf(),
        ensures
            final(self)@.wf(),
            exists|rolls: Seq<u32>|
                rolls.len() == old(self)@.cells.len() && final(self)@ == old(self)@.next_generation(
                    *settings,
                    rolls,
                ),
    {
        let n = self.cells.len();
        let mut rolls: Vec<u32> = Vec::with_capacity(n);
        let mut i: usize = 0;
        while i < n
            invariant
                i <= n,
                rolls@.len() == i,
            decreases n - i,
        {
            rolls.push(rand::random::<u32>());
            i += 1;
        }
        self.advance_with_rolls(settings, &rolls);
    }
}

} // verus!
