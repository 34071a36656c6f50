use vstd::prelude::*;

use crate::grid::{fresh_grid, Grid};
use crate::mutation_setting::MutationSettings;

verus! {

pub const GRID_WIDTH: usize = 20;

pub const GRID_HEIGHT: usize = 20;

/// The step period a new clock starts with, in nanoseconds.
pub const DEFAULT_SPEED: u64 = 50_000_000;

/// The longest step period, in nanoseconds: the slowest pace.
pub const MIN_SPEED: u64 = 1_000_000_000;

/// The shortest step period, in nanoseconds: the fastest pace.
pub const MAX_SPEED: u64 = 50_000_000;

/// `p` brought into `[MAX_SPEED, MIN_SPEED]`.
pub open spec fn clamp_period(p: int) -> nat {
    if p < MAX_SPEED {
        MAX_SPEED as nat
    } else if p > MIN_SPEED {
        MIN_SPEED as nat
    } else {
        p as nat
    }
}

/// The abstract step clock: time gathered since it last fired, and the
/// period after which it fires, both in nanoseconds.
pub struct ClockView {
    pub accumulated: nat,
    pub period: nat,
}

/// The sum of a run of elapsed times.
pub open spec fn total(es: Seq<nat>) -> nat
    decreases es.len(),
{
    if es.len() == 0 {
        0
    } else {
        es[0] + total(es.drop_first())
    }
}

impl ClockView {
    pub open spec fn wf(self) -> bool {
        &&& MAX_SPEED <= self.period <= MIN_SPEED
        &&& self.accumulated < MIN_SPEED
    }

    /// Whether a tick of `elapsed` makes the gathered time reach the period.
    pub open spec fn fires(self, elapsed: nat) -> bool {
        self.accumulated + elapsed >= self.period
    }

    /// The clock after a tick of `elapsed`: back to zero when it fires (the
    /// time past the period is dropped, not carried), else with `elapsed`
    /// added.
    pub open spec fn after_tick(self, elapsed: nat) -> ClockView {
        if self.fires(elapsed) {
            ClockView { accumulated: 0, period: self.period }
        } else {
            ClockView { accumulated: self.accumulated + elapsed, period: self.period }
        }
    }

    /// How many of the ticks `es`, taken in order, fire.
    pub open spec fn fire_count(self, es: Seq<nat>) -> nat
        decreases es.len(),
    {
        if es.len() == 0 {
            0
        } else {
            (if self.fires(es[0]) {
                1nat
            } else {
                0nat
            }) + self.after_tick(es[0]).fire_count(es.drop_first())
        }
    }
}

/// The clock fires at most once per period of gathered time: over any run
/// of ticks, the firings times the period never exceed the time gathered
/// before the run plus the time elapsed during it.
pub proof fn lemma_fires_at_most_once_per_period(c: ClockView, es: Seq<nat>)
    ensures
        c.fire_count(es) * c.period <= c.accumulated + total(es),
    decreases es.len(),
{
    if es.len() > 0 {
        let rest = es.drop_first();
        let next = c.after_tick(es[0]);
        lemma_fires_at_most_once_per_period(next, rest);
        let k = next.fire_count(rest);
        let p = c.period;
        assert(total(es) == es[0] + total(rest));
        assert(k * p <= next.accumulated + total(rest));
        if c.fires(es[0]) {
            assert(c.fire_count(es) == k + 1);
            assert((k + 1) * p == k * p + p) by (nonlinear_arith);
            assert(c.fire_count(es) * p == k * p + p);
        } else {
            assert(c.fire_count(es) == k);
        }
    } else {
        assert(c.fire_count(es) * c.period == 0) by (nonlinear_arith)
            requires
                c.fire_count(es) == 0,
        ;
    }
}

/// A run of ticks shorter in all than the period fires at most once, and
/// not at all unless the gathered time reaches the period during it (in
/// particular not at all when the clock has just fired).
pub proof fn lemma_short_run_fires_at_most_once(c: ClockView, es: Seq<nat>)
    requires
        total(es) < c.period,
    ensures
        c.fire_count(es) <= 1,
        c.accumulated + total(es) < c.period ==> c.fire_count(es) == 0,
        c.accumulated == 0 ==> c.fire_count(es) == 0,
    decreases es.len(),
{
    if es.len() > 0 {
        let rest = es.drop_first();
        let next = c.after_tick(es[0]);
        assert(total(es) == es[0] + total(rest));
        lemma_short_run_fires_at_most_once(next, rest);
    }
}

/// Once a period of time has gathered, the clock fires: a run of ticks after
/// which the gathered time would reach the period fires at least once.
pub proof fn lemma_fires_once_period_gathered(c: ClockView, es: Seq<nat>)
    requires
        es.len() > 0,
        c.accumulated + total(es) >= c.period,
    ensures
        c.fire_count(es) >= 1,
    decreases es.len(),
{
    let rest = es.drop_first();
    assert(total(es) == es[0] + total(rest));
    if !c.fires(es[0]) {
        if rest.len() == 0 {
            assert(total(rest) == 0);
        } else {
            lemma_fires_once_period_gathered(c.after_tick(es[0]), rest);
        }
    }
}

/// The clock that paces the generations.
pub struct StepTimer {
    accumulated: u64,
    period: u64,
}

impl View for StepTimer {
    type V = ClockView;

    closed spec fn view(&self) -> ClockView {
        ClockView { accumulated: self.accumulated as nat, period: self.period as nat }
    }
}

/// `period` brought into `[MAX_SPEED, MIN_SPEED]`.
fn clamped(period: u64) -> (r: u64)
    ensures
        r == clamp_period(period as int),
{
    if period < MAX_SPEED {
        MAX_SPEED
    } else if period > MIN_SPEED {
        MIN_SPEED
    } else {
        period
    }
}

impl Default for StepTimer {
    /// A clock at the default period with no time gathered.
    fn default() -> (r: Self)
        ensures
            r@ == (ClockView { accumulated: 0, period: DEFAULT_SPEED as nat }),
            r@.wf(),
    {
        StepTimer { accumulated: 0, period: DEFAULT_SPEED }
    }
}

impl StepTimer {
    /// A clock with no time gathered and the period clamped into
    /// `[MAX_SPEED, MIN_SPEED]`.
    pub fn new(period: u64) -> (r: StepTimer)
        ensures
            r@ == (ClockView { accumulated: 0, period: clamp_period(period as int) }),
            r@.wf(),
    {
        StepTimer { accumulated: 0, period: clamped(period) }
    }

    /// Adds `elapsed` nanoseconds; returns whether the period is reached,
    /// in which case the gathered time goes back to zero.
    pub fn tick(&mut self, elapsed: u64) -> (r: bool)
        requires
            old(self)@.wf(),
        ensures
            r == old(self)@.fires(elapsed as nat),
            final(self)@ == old(self)@.after_tick(elapsed as nat),
            final(self)@.wf(),
    {
        if elapsed >= self.period || self.accumulated >= self.period - elapsed {
            self.accumulated = 0;
            true
        } else {
            self.accumulated = self.accumulated + elapsed;
            false
        }
    }

    /// Sets the period, clamped into `[MAX_SPEED, MIN_SPEED]`; the gathered
    /// time is kept.
    pub fn set_period(&mut self, period: u64)
        requires
            old(self)@.wf(),
        ensures
            final(self)@ == (ClockView {
                accumulated: old(self)@.accumulated,
                period: clamp_period(period as int),
            }),
            final(self)@.wf(),
    {
        self.period = clamped(period);
    }

    /// The period, in nanoseconds.
    pub fn period(&self) -> (r: u64)
        ensures
            r == self@.period,
    {
        self.period
    }

    /// The time gathered since the clock last fired, in nanoseconds.
    pub fn accumulated(&self) -> (r: u64)
        ensures
            r == self@.accumulated,
    {
        self.accumulated
    }
}

/// Advances the clock by `elapsed` nanoseconds and, when it fires, runs one
/// generation of `grid`; otherwise the grid is left as it is. Returns
/// whether a generation ran.
pub fn update_cells(
    grid: &mut Grid,
    timer: &mut StepTimer,
    elapsed: u64,
    settings: &MutationSettings,
) -> (r: bool)
    requires
        old(grid)@.wf(),
        old(timer)@.wf(),
    ensures
        r == old(timer)@.fires(elapsed as nat),
        final(timer)@ == old(timer)@.after_tick(elapsed as nat),
        final(timer)@.wf(),
        final(grid)@.wf(),
        r ==> exists|rolls: Seq<u32>|
            rolls.len() == old(grid)@.cells.len() && final(grid)@ == old(grid)@.next_generation(
                *settings,
                rolls,
            ),
        !r ==> final(grid)@ == old(grid)@,
{
    if !timer.tick(elapsed) {
        return false;
    }
    grid.advance(settings);
    true
}

/// A fresh `GRID_WIDTH` by `GRID_HEIGHT` grid.
pub fn set_grid(settings: &MutationSettings) -> (r: Grid)
    ensures
        r@.wf(),
        exists|flips: Seq<bool>, rolls: Seq<u32>|
            r@ == fresh_grid(GRID_WIDTH as nat, GRID_HEIGHT as nat, *settings, flips, rolls),
{
    Grid::create(GRID_WIDTH, GRID_HEIGHT, settings)
}

} // verus!
