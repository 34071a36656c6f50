//! A generalized Game of Life: cells carry a mutation variant that changes
//! their survival and birth rule, on a fixed grid paced by a step clock.

pub mod cell;
pub mod mutation_setting;
pub mod random;
pub mod grid;
pub mod systems;
