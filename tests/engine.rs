use game_of_life::cell::{select_mutation, Cell, CellColor, MutationType};
use game_of_life::grid::Grid;
use game_of_life::mutation_setting::{MutationCheckbox, MutationSettings};
use game_of_life::systems::{
    set_grid, update_cells, StepTimer, DEFAULT_SPEED, GRID_HEIGHT, GRID_WIDTH, MAX_SPEED, MIN_SPEED,
};

const NO_MUTATION_ROLL: u32 = u32::MAX;

fn cell(alive: bool, mutation: MutationType) -> Cell {
    Cell { alive, mutation, x: 0, y: 0 }
}

fn both() -> MutationSettings {
    MutationSettings { allow_blue: true, allow_red: true }
}

/// A grid whose live cells are exactly `live`, all of the classic variant,
/// and whose newborn cells stay classic.
fn fixture(width: usize, height: usize, live: &[(usize, usize)]) -> Grid {
    let mut flips = vec![false; width * height];
    for &(x, y) in live {
        flips[y * width + x] = true;
    }
    let rolls = vec![NO_MUTATION_ROLL; width * height];
    Grid::from_draws(width, height, &both(), &flips, &rolls).unwrap()
}

fn live_cells(grid: &Grid) -> Vec<(usize, usize)> {
    grid.cells().iter().filter(|c| c.alive).map(|c| (c.x, c.y)).collect()
}

#[test]
fn classic_rule_table() {
    for n in 0..=8usize {
        assert_eq!(cell(true, MutationType::Classic).change_state(n), n == 2 || n == 3, "alive {n}");
        assert_eq!(cell(false, MutationType::Classic).change_state(n), n == 3, "dead {n}");
    }
}

#[test]
fn blue_rule_table() {
    for n in 0..=8usize {
        assert_eq!(cell(true, MutationType::Blue).change_state(n), (2..=4).contains(&n), "alive {n}");
        assert_eq!(cell(false, MutationType::Blue).change_state(n), n == 3 || n == 4, "dead {n}");
    }
}

#[test]
fn red_rule_table() {
    for n in 0..=8usize {
        assert_eq!(cell(true, MutationType::Red).change_state(n), n == 3, "alive {n}");
        assert_eq!(cell(false, MutationType::Red).change_state(n), n == 2 || n == 3, "dead {n}");
    }
}

#[test]
fn zero_neighbors_never_lives() {
    for m in [MutationType::Classic, MutationType::Blue, MutationType::Red] {
        assert!(!cell(true, m).change_state(0));
        assert!(!cell(false, m).change_state(0));
    }
}

#[test]
fn selector_bands() {
    let s = both();
    assert_eq!(select_mutation(&s, 0), MutationType::Blue);
    // 429_496_729 / 2^32 < 0.1 <= 429_496_730 / 2^32
    assert_eq!(select_mutation(&s, 429_496_729), MutationType::Blue);
    assert_eq!(select_mutation(&s, 429_496_730), MutationType::Red);
    // 858_993_459 / 2^32 < 0.2 <= 858_993_460 / 2^32
    assert_eq!(select_mutation(&s, 858_993_459), MutationType::Red);
    assert_eq!(select_mutation(&s, 858_993_460), MutationType::Classic);
    assert_eq!(select_mutation(&s, u32::MAX), MutationType::Classic);
}

#[test]
fn forbidden_blue_roll_is_not_promoted_to_red() {
    let s = MutationSettings { allow_blue: false, allow_red: true };
    assert_eq!(select_mutation(&s, 0), MutationType::Classic);
    assert_eq!(select_mutation(&s, 429_496_729), MutationType::Classic);
    assert_eq!(select_mutation(&s, 429_496_730), MutationType::Red);
}

#[test]
fn forbidden_red_roll_gives_classic() {
    let s = MutationSettings { allow_blue: true, allow_red: false };
    assert_eq!(select_mutation(&s, 0), MutationType::Blue);
    assert_eq!(select_mutation(&s, 600_000_000), MutationType::Classic);
}

#[test]
fn cell_colors() {
    assert_eq!(cell(true, MutationType::Classic).cell_color(), CellColor::Green);
    assert_eq!(cell(true, MutationType::Blue).cell_color(), CellColor::Blue);
    assert_eq!(cell(true, MutationType::Red).cell_color(), CellColor::Red);
    for m in [MutationType::Classic, MutationType::Blue, MutationType::Red] {
        assert_eq!(cell(false, m).cell_color(), CellColor::Dark);
    }
}

#[test]
fn seeded_cell_dead_is_classic() {
    let c = Cell::seeded(3, 4, &both(), false, 0);
    assert_eq!(c, Cell { alive: false, mutation: MutationType::Classic, x: 3, y: 4 });
    let c = Cell::seeded(3, 4, &both(), true, 0);
    assert_eq!(c, Cell { alive: true, mutation: MutationType::Blue, x: 3, y: 4 });
}

#[test]
fn new_cells_respect_settings() {
    let s = MutationSettings { allow_blue: false, allow_red: false };
    let mut alive = 0;
    for i in 0..2000usize {
        let c = Cell::new(i % 7, i / 7, &s);
        assert_eq!((c.x, c.y), (i % 7, i / 7));
        assert_eq!(c.mutation, MutationType::Classic);
        if c.alive {
            alive += 1;
        }
    }
    assert!(alive > 0 && alive < 2000);
}

#[test]
fn random_mutation_keeps_other_fields() {
    let s = MutationSettings { allow_blue: false, allow_red: true };
    for _ in 0..1000 {
        let mut c = Cell { alive: true, mutation: MutationType::Blue, x: 5, y: 6 };
        c.random_mutation(&s);
        assert!(c.alive);
        assert_eq!((c.x, c.y), (5, 6));
        assert_ne!(c.mutation, MutationType::Blue);
    }
}

#[test]
fn settings_default_and_toggle() {
    let mut s = MutationSettings::default();
    assert!(s.allow_blue && s.allow_red);
    s.toggle(MutationCheckbox::Blue);
    assert_eq!(s, MutationSettings { allow_blue: false, allow_red: true });
    s.toggle(MutationCheckbox::Red);
    assert_eq!(s, MutationSettings { allow_blue: false, allow_red: false });
    s.toggle(MutationCheckbox::Blue);
    assert_eq!(s, MutationSettings { allow_blue: true, allow_red: false });
}

#[test]
fn glider_neighbor_counts() {
    // .X...
    // ..X..
    // XXX..
    let g = fixture(5, 5, &[(1, 0), (2, 1), (0, 2), (1, 2), (2, 2)]);
    let expected: [((usize, usize), u8); 12] = [
        ((1, 1), 5),
        ((0, 1), 3),
        ((2, 1), 3),
        ((1, 0), 1),
        ((1, 2), 3),
        ((1, 3), 3),
        ((0, 2), 1),
        ((2, 2), 2),
        ((3, 2), 2),
        ((3, 1), 2),
        ((0, 0), 1),
        ((4, 4), 0),
    ];
    for ((x, y), n) in expected {
        assert_eq!(g.live_neighbors(x, y), n, "at ({x}, {y})");
    }
}

#[test]
fn glider_advances_one_phase() {
    let mut g = fixture(5, 5, &[(1, 0), (2, 1), (0, 2), (1, 2), (2, 2)]);
    let rolls = vec![NO_MUTATION_ROLL; 25];
    g.advance_with_rolls(&both(), &rolls);
    let mut live = live_cells(&g);
    live.sort();
    assert_eq!(live, vec![(0, 1), (1, 2), (1, 3), (2, 1), (2, 2)]);
    assert!(g.cells().iter().all(|c| c.mutation == MutationType::Classic));
}

#[test]
fn step_uses_the_prior_generation_only() {
    // A horizontal blinker becomes vertical: an in-place update would not.
    let mut g = fixture(5, 5, &[(1, 2), (2, 2), (3, 2)]);
    g.advance_with_rolls(&both(), &vec![NO_MUTATION_ROLL; 25]);
    let mut live = live_cells(&g);
    live.sort();
    assert_eq!(live, vec![(2, 1), (2, 2), (2, 3)]);
    g.advance_with_rolls(&both(), &vec![NO_MUTATION_ROLL; 25]);
    let mut live = live_cells(&g);
    live.sort();
    assert_eq!(live, vec![(1, 2), (2, 2), (3, 2)]);
}

#[test]
fn newborn_takes_its_roll_and_survivor_keeps_variant() {
    let flips = vec![true, true, true, false];
    // cell (0, 0) is blue, the others classic
    let rolls = vec![0, NO_MUTATION_ROLL, NO_MUTATION_ROLL, NO_MUTATION_ROLL];
    let mut g = Grid::from_draws(2, 2, &both(), &flips, &rolls).unwrap();
    assert_eq!(g.cell(0, 0).mutation, MutationType::Blue);
    // the live cells see two live neighbors each and survive; (1, 1) sees three and is born
    let next_rolls = vec![500_000_000; 4];
    g.advance_with_rolls(&both(), &next_rolls);
    assert!(g.cells().iter().all(|c| c.alive));
    assert_eq!(g.cell(0, 0).mutation, MutationType::Blue);
    assert_eq!(g.cell(1, 0).mutation, MutationType::Classic);
    assert_eq!(g.cell(0, 1).mutation, MutationType::Classic);
    assert_eq!(g.cell(1, 1).mutation, MutationType::Red);
}

#[test]
fn dying_cell_keeps_its_variant() {
    let flips = vec![true, false, false, false];
    let rolls = vec![0, 0, 0, 0];
    let mut g = Grid::from_draws(2, 2, &both(), &flips, &rolls).unwrap();
    assert_eq!(g.cell(0, 0).mutation, MutationType::Blue);
    g.advance_with_rolls(&both(), &rolls);
    assert!(!g.cell(0, 0).alive);
    assert_eq!(g.cell(0, 0).mutation, MutationType::Blue);
}

#[test]
fn no_blue_after_rebirth_when_forbidden() {
    let s = MutationSettings { allow_blue: false, allow_red: true };
    let mut g = set_grid(&s);
    let mut rebirths = 0;
    let mut rounds = 0;
    while rebirths < 1000 && rounds < 100_000 {
        let before: Vec<Cell> = g.cells().clone();
        g.advance(&s);
        for (old, new) in before.iter().zip(g.cells().iter()) {
            if !old.alive && new.alive {
                rebirths += 1;
                assert_ne!(new.mutation, MutationType::Blue);
            }
        }
        if live_cells(&g).is_empty() || rounds % 50 == 49 {
            g.rebuild(&s);
        }
        rounds += 1;
    }
    assert!(rebirths >= 1000);
}

#[test]
fn boundary_neighbor_counts() {
    let all: Vec<(usize, usize)> = (0..16).map(|i| (i % 4, i / 4)).collect();
    let g = fixture(4, 4, &all);
    for (x, y) in [(0, 0), (3, 0), (0, 3), (3, 3)] {
        assert_eq!(g.live_neighbors(x, y), 3);
        assert_eq!(g.neighbors(x, y).len(), 3);
    }
    for (x, y) in [(1, 0), (0, 2), (3, 1), (2, 3)] {
        assert_eq!(g.live_neighbors(x, y), 5);
        assert_eq!(g.neighbors(x, y).len(), 5);
    }
    assert_eq!(g.live_neighbors(1, 1), 8);
    assert_eq!(g.neighbors(2, 2).len(), 8);
}

#[test]
fn neighbors_in_row_order() {
    let g = fixture(3, 3, &[(1, 1)]);
    let n = g.neighbors(0, 0);
    let coords: Vec<(usize, usize)> = n.iter().map(|c| (c.x, c.y)).collect();
    assert_eq!(coords, vec![(1, 0), (0, 1), (1, 1)]);
    assert!(n[2].alive);
    let coords: Vec<(usize, usize)> = g.neighbors(1, 1).iter().map(|c| (c.x, c.y)).collect();
    assert_eq!(
        coords,
        vec![(0, 0), (1, 0), (2, 0), (0, 1), (2, 1), (0, 2), (1, 2), (2, 2)]
    );
}

#[test]
fn single_row_and_column_grids() {
    let g = fixture(1, 3, &[(0, 0), (0, 1), (0, 2)]);
    assert_eq!(g.live_neighbors(0, 0), 1);
    assert_eq!(g.live_neighbors(0, 1), 2);
    let g = fixture(1, 1, &[(0, 0)]);
    assert_eq!(g.live_neighbors(0, 0), 0);
    assert!(g.neighbors(0, 0).is_empty());
}

#[test]
fn from_draws_checks_lengths() {
    let s = both();
    assert!(Grid::from_draws(2, 2, &s, &vec![true; 3], &vec![0; 4]).is_none());
    assert!(Grid::from_draws(2, 2, &s, &vec![true; 4], &vec![0; 5]).is_none());
    assert!(Grid::from_draws(usize::MAX, 2, &s, &vec![], &vec![]).is_none());
    let g = Grid::from_draws(0, 0, &s, &vec![], &vec![]).unwrap();
    assert!(g.cells().is_empty());
}

#[test]
fn set_grid_is_dense() {
    let g = set_grid(&both());
    assert_eq!((g.width(), g.height()), (GRID_WIDTH, GRID_HEIGHT));
    assert_eq!(g.cells().len(), GRID_WIDTH * GRID_HEIGHT);
    for y in 0..GRID_HEIGHT {
        for x in 0..GRID_WIDTH {
            let c = g.cell(x, y);
            assert_eq!((c.x, c.y), (x, y));
            if !c.alive {
                assert_eq!(c.mutation, MutationType::Classic);
            }
        }
    }
}

#[test]
fn rebuild_replaces_every_cell() {
    let all: Vec<(usize, usize)> = (0..12).map(|i| (i % 4, i / 4)).collect();
    let flips = vec![true; 12];
    let rolls = vec![0; 12];
    let mut g = Grid::from_draws(4, 3, &both(), &flips, &rolls).unwrap();
    assert_eq!(live_cells(&g), all);
    assert!(g.cells().iter().all(|c| c.mutation == MutationType::Blue));
    let none = MutationSettings { allow_blue: false, allow_red: false };
    g.rebuild(&none);
    assert_eq!((g.width(), g.height()), (4, 3));
    for (i, c) in g.cells().iter().enumerate() {
        assert_eq!((c.x, c.y), (i % 4, i / 4));
        assert_eq!(c.mutation, MutationType::Classic);
    }
}

#[test]
fn create_with_other_dimensions() {
    let g = Grid::create(7, 3, &both());
    assert_eq!(g.cells().len(), 21);
    assert_eq!(g.cell(6, 2).x, 6);
    assert_eq!(g.cell(6, 2).y, 2);
}

#[test]
fn clock_fires_when_period_reached() {
    let mut t = StepTimer::new(100_000_000);
    assert!(!t.tick(30_000_000));
    assert!(!t.tick(30_000_000));
    assert!(!t.tick(30_000_000));
    assert_eq!(t.accumulated(), 90_000_000);
    assert!(t.tick(30_000_000));
    assert_eq!(t.accumulated(), 0);
}

#[test]
fn clock_fires_exactly_at_the_period() {
    let mut t = StepTimer::new(100_000_000);
    assert!(!t.tick(99_999_999));
    assert!(t.tick(1));
    assert!(t.tick(100_000_000));
}

#[test]
fn clock_drops_overflow() {
    let mut t = StepTimer::new(100_000_000);
    assert!(t.tick(250_000_000));
    assert_eq!(t.accumulated(), 0);
    assert!(!t.tick(60_000_000));
    assert!(t.tick(40_000_000));
}

#[test]
fn clock_never_fires_twice_in_short_interval() {
    let mut t = StepTimer::new(100_000_000);
    let mut fired = 0;
    for _ in 0..9 {
        if t.tick(10_000_000) {
            fired += 1;
        }
    }
    assert_eq!(fired, 0);
    let mut t = StepTimer::new(100_000_000);
    t.tick(95_000_000);
    let mut fired = 0;
    for _ in 0..9 {
        if t.tick(10_000_000) {
            fired += 1;
        }
    }
    assert_eq!(fired, 1);
}

#[test]
fn clock_fires_once_per_period_over_time() {
    let mut t = StepTimer::new(MAX_SPEED);
    let mut fired = 0;
    for _ in 0..1000 {
        if t.tick(5_000_000) {
            fired += 1;
        }
    }
    assert_eq!(fired, 100);
}

#[test]
fn clock_period_is_clamped() {
    let mut t = StepTimer::default();
    assert_eq!(t.period(), DEFAULT_SPEED);
    assert_eq!(t.accumulated(), 0);
    t.set_period(0);
    assert_eq!(t.period(), MAX_SPEED);
    t.set_period(10_000_000_000);
    assert_eq!(t.period(), MIN_SPEED);
    t.set_period(300_000_000);
    assert_eq!(t.period(), 300_000_000);
    assert_eq!(StepTimer::new(1).period(), MAX_SPEED);
}

#[test]
fn set_period_keeps_gathered_time() {
    let mut t = StepTimer::new(MIN_SPEED);
    assert!(!t.tick(500_000_000));
    t.set_period(MAX_SPEED);
    assert_eq!(t.accumulated(), 500_000_000);
    assert!(t.tick(0));
    assert_eq!(t.accumulated(), 0);
}

#[test]
fn update_cells_steps_only_when_clock_fires() {
    let mut g = fixture(5, 5, &[(1, 2), (2, 2), (3, 2)]);
    let mut t = StepTimer::new(100_000_000);
    assert!(!update_cells(&mut g, &mut t, 40_000_000, &both()));
    let mut live = live_cells(&g);
    live.sort();
    assert_eq!(live, vec![(1, 2), (2, 2), (3, 2)]);
    assert!(update_cells(&mut g, &mut t, 60_000_000, &both()));
    let mut live = live_cells(&g);
    live.sort();
    assert_eq!(live, vec![(2, 1), (2, 2), (2, 3)]);
}
