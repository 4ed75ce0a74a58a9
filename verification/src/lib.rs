//! A finite two-dimensional cellular automaton extending Game-of-Life
//! dynamics with an infectious `Zombie` state.
//!
//! A [`grid::Grid`] owns a flat, row-major collection of [`cell::Cell`]s,
//! each holding a [`state::State`] and a precomputed list of Moore-neighbor
//! indices. One synchronous step reads a frozen snapshot of all current
//! states and commits every cell's next state at once; stepping repeats
//! until two consecutive generations are state-equal (a fixed point).

pub mod cell;
pub mod grid;
pub mod state;
