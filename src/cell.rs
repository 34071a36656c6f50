use vstd::prelude::*;

use crate::mutation_setting::{mutation_allowed, MutationSettings};

verus! {

/// The number of distinct rolls: a roll `r` stands for the fraction
/// `r / ROLL_SPAN`, uniform in `[0, 1)`.
pub const ROLL_SPAN: u64 = 0x1_0000_0000;

/// The mutation variant of a cell, which selects its survival and birth rule.
#[derive(Clone, Copy, Debug, PartialEq, Eq, Structural)]
pub enum MutationType {
    Classic,
    Blue,
    Red,
}

/// The rule table: whether a cell of variant `m`, alive or not, is alive in
/// the next generation when `n` of its neighbors are alive.
pub open spec fn next_alive(m: MutationType, alive: bool, n: int) -> bool {
    match m {
        // classic rule
        MutationType::Classic => if alive { n == 2 || n == 3 } else { n == 3 },
        // resistant: survives with more or fewer neighbors
        MutationType::Blue => if alive { 2 <= n <= 4 } else { n == 3 || n == 4 },
        // aggressive: born easily, dies easily
        MutationType::Red => if alive { n == 3 } else { n == 2 || n == 3 },
    }
}

/// The variant that a newborn cell gets for `roll` under `s`. The first
/// tenth of the rolls is the blue band, the second tenth the red band. A roll
/// in the band of a variant that `s` forbids gives the classic variant: the
/// forbidden variant's share is removed, not handed to the next band.
pub open spec fn mutation_for_roll(s: MutationSettings, roll: u32) -> MutationType {
    if roll * 10 < ROLL_SPAN {
        if s.allow_blue { MutationType::Blue } else { MutationType::Classic }
    } else if roll * 5 < ROLL_SPAN {
        if s.allow_red { MutationType::Red } else { MutationType::Classic }
    } else {
        MutationType::Classic
    }
}

/// A newborn cell's variant is always one that the settings allow.
pub proof fn lemma_roll_respects_settings(s: MutationSettings, roll: u32)
    ensures
        mutation_allowed(s, mutation_for_roll(s, roll)),
{
}

/// Picks the variant of a newborn cell from a roll.
pub fn select_mutation(settings: &MutationSettings, roll: u32) -> (r: MutationType)
    ensures
        r == mutation_for_roll(*settings, roll),
{
    let scaled = roll as u64;
    if scaled * 10 < ROLL_SPAN {
        if settings.allow_blue {
            MutationType::Blue
        } else {
            MutationType::Classic
        }
    } else if scaled * 5 < ROLL_SPAN {
        if settings.allow_red {
            MutationType::Red
        } else {
            MutationType::Classic
        }
    } else {
        MutationType::Classic
    }
}

/// The display color of a cell.
#[derive(Clone, Copy, Debug, PartialEq, Eq, Structural)]
pub enum CellColor {
    Dark,
    Green,
    Blue,
    Red,
}

/// Dead cells are dark whatever their variant; a live cell has its
/// variant's color.
pub open spec fn color_of(alive: bool, m: MutationType) -> CellColor {
    if !alive {
        CellColor::Dark
    } else {
        match m {
            MutationType::Classic => CellColor::Green,
            MutationType::Blue => CellColor::Blue,
            MutationType::Red => CellColor::Red,
        }
    }
}

/// The cell at `(x, y)` that a fresh grid holds, given its coin flip `alive`
/// and its roll: a dead cell has the classic variant.
pub open spec fn seeded_cell(x: usize, y: usize, s: MutationSettings, alive: bool, roll: u32) -> Cell {
    Cell {
        alive,
        mutation: if alive { mutation_for_roll(s, roll) } else { MutationType::Classic },
        x,
        y,
    }
}

/// A cell of the grid at column `x`, row `y`.
#[derive(Clone, Copy, Debug, PartialEq, Eq, Structural)]
pub struct Cell {
    pub alive: bool,
    pub mutation: MutationType,
    pub x: usize,
    pub y: usize,
}

impl Cell {
    /// A fresh cell at `(x, y)`: alive by a fair coin flip and, when alive,
    /// with a variant drawn under `settings`.
    pub fn new(x: usize, y: usize, settings: &MutationSettings) -> (r: Cell)
        ensures
            exists|alive: bool, roll: u32| r == seeded_cell(x, y, *settings, alive, roll),
    {
        let mut cell = Cell { alive: rand::random::<bool>(), mutation: MutationType::Classic, x, y };
        if cell.alive {
            cell.random_mutation(settings);
            let ghost roll = choose|roll: u32| cell.mutation == mutation_for_roll(*settings, roll);
            assert(cell == seeded_cell(x, y, *settings, cell.alive, roll));
        } else {
            assert(cell == seeded_cell(x, y, *settings, cell.alive, 0));
        }
        cell
    }

    /// The fresh cell at `(x, y)` for a given coin flip and roll.
    pub fn seeded(x: usize, y: usize, settings: &MutationSettings, alive: bool, roll: u32) -> (r: Cell)
        ensures
            r == seeded_cell(x, y, *settings, alive, roll),
    {
        let mutation = if alive {
            select_mutation(settings, roll)
        } else {
            MutationType::Classic
        };
        Cell { alive, mutation, x, y }
    }

    /// Draws a new variant for this cell under `settings`; the other fields
    /// are kept.
    pub fn random_mutation(&mut self, settings: &MutationSettings)
        ensures
            exists|roll: u32| final(self).mutation == mutation_for_roll(*settings, roll),
            mutation_allowed(*settings, final(self).mutation),
            final(self).alive == old(self).alive,
            final(self).x == old(self).x,
            final(self).y == old(self).y,
    {
        let roll: u32 = rand::random::<u32>();
        self.mutation = select_mutation(settings, roll);
        proof {
            lemma_roll_respects_settings(*settings, roll);
        }
    }

    /// The color this cell is displayed in.
    pub fn cell_color(&self) -> (r: CellColor)
        ensures
            r == color_of(self.alive, self.mutation),
    {
        if !self.alive {
            return CellColor::Dark;
        }
        match self.mutation {
            MutationType::Classic => CellColor::Green,
            MutationType::Blue => CellColor::Blue,
            MutationType::Red => CellColor::Red,
        }
    }

    /// Whether this cell is alive in the next generation, given how many of
    /// its neighbors are alive now.
    pub fn change_state(&self, alive_neighbors: usize) -> (r: bool)
        ensures
            r == next_alive(self.mutation, self.alive, alive_neighbors as int),
    {
        match self.mutation {
            MutationType::Classic => {
                if self.alive {
                    alive_neighbors == 2 || alive_neighbors == 3
                } else {
                    alive_neighbors == 3
                }
            },
            MutationType::Blue => {
                if self.alive {
                    2 <= alive_neighbors && alive_neighbors <= 4
                } else {
                    alive_neighbors == 3 || alive_neighbors == 4
                }
            },
            MutationType::Red => {
                if self.alive {
                    alive_neighbors == 3
                } else {
                    alive_neighbors == 2 || alive_neighbors == 3
                }
            },
        }
    }
}

} // verus!
