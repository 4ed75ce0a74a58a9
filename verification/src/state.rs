//! The three cell states, their input/output symbols, and the transition
//! rule that maps a current state and a neighbor tally to the next state.

use vstd::prelude::*;

verus! {

/// The state of one cell. Exactly these three values are valid; any other
/// input symbol is rejected at grid construction.
#[derive(Clone, Copy, Debug, PartialEq, Eq, Structural)]
pub enum State {
    Dead,
    Alive,
    Zombie,
}

/// The board symbol that denotes `s`: `Dead` prints as `#`, `Alive` as `O`,
/// and `Zombie` as `%`.
pub open spec fn symbol_of_state(s: State) -> char {
    match s {
        State::Dead => '#',
        State::Alive => 'O',
        State::Zombie => '%',
    }
}

/// The state denoted by the input byte `b`, or `None` when `b` is not one
/// of the three recognized symbols `#`, `O`, `%`.
pub open spec fn state_of_symbol(b: u8) -> Option<State> {
    if b == '#' as u8 {
        Some(State::Dead)
    } else if b == 'O' as u8 {
        Some(State::Alive)
    } else if b == '%' as u8 {
        Some(State::Zombie)
    } else {
        None
    }
}

/// The transition rule: the next state of a cell that currently holds
/// `cur` and counts `alive` alive neighbors and `zombie` zombie neighbors.
///
/// A dead cell is born on exactly three alive neighbors. An alive cell is
/// infected by any zombie neighbor; otherwise it survives on two or three
/// alive neighbors and dies of under- or over-population elsewhere. A
/// zombie starves back to dead once no alive neighbor is left, and
/// persists otherwise.
pub open spec fn next_state_spec(cur: State, alive: nat, zombie: nat) -> State {
    match cur {
        State::Dead => if alive == 3 {
            State::Alive
        } else {
            State::Dead
        },
        State::Alive => if zombie > 0 {
            State::Zombie
        } else if alive < 2 || alive > 3 {
            State::Dead
        } else {
            State::Alive
        },
        State::Zombie => if alive == 0 {
            State::Dead
        } else {
            State::Zombie
        },
    }
}

/// A dead cell comes alive exactly when its alive-neighbor count is three;
/// on every other count it stays dead, whatever the zombie count.
pub proof fn lemma_dead_rule(alive: nat, zombie: nat)
    ensures
        next_state_spec(State::Dead, alive, zombie) == (if alive == 3 {
            State::Alive
        } else {
            State::Dead
        }),
{
}

/// Infection dominates: an alive cell with at least one zombie neighbor
/// becomes a zombie regardless of its alive-neighbor count, so neither the
/// under-population nor the over-population rule can fire first.
pub proof fn lemma_infection_dominates(alive: nat, zombie: nat)
    requires
        zombie > 0,
    ensures
        next_state_spec(State::Alive, alive, zombie) == State::Zombie,
{
}

/// With no zombie neighbor, an alive cell survives exactly on two or three
/// alive neighbors and otherwise dies.
pub proof fn lemma_alive_rule(alive: nat)
    ensures
        next_state_spec(State::Alive, alive, 0) == (if 2 <= alive <= 3 {
            State::Alive
        } else {
            State::Dead
        }),
{
}

/// A zombie starves to dead exactly when its alive-neighbor count is zero,
/// and otherwise remains a zombie.
pub proof fn lemma_zombie_rule(alive: nat, zombie: nat)
    ensures
        next_state_spec(State::Zombie, alive, zombie) == (if alive == 0 {
            State::Dead
        } else {
            State::Zombie
        }),
{
}

} // verus!
