//! One grid position: a state, a fixed list of neighbor indices into the
//! owning grid's flat storage, and the transient state computed for the
//! next step between the compute and commit phases of one update.

use vstd::prelude::*;

use crate::state::{next_state_spec, symbol_of_state, State};

verus! {

/// One cell of a grid. `neighbors` holds positions of adjacent cells in
/// the owning grid's flat row-major storage; it is computed once at grid
/// construction and never mutated afterward. `pending_state` is `Some`
/// only between computing and committing one step, and only when that
/// step changes the cell's state.
#[derive(Debug)]
pub struct Cell {
    pub state: State,
    pub neighbors: Vec<usize>,
    pub pending_state: Option<State>,
}

/// The current states of a sequence of cells, in the same order.
pub open spec fn states_of(cells: Seq<Cell>) -> Seq<State> {
    cells.map_values(|c: Cell| c.state)
}

/// How many of the indices in `nbrs` point (in bounds) at a state equal to
/// `target` in `states`.
pub open spec fn count_state(states: Seq<State>, nbrs: Seq<usize>, target: State) -> nat
    decreases nbrs.len(),
{
    if nbrs.len() == 0 {
        0
    } else {
        count_state(states, nbrs.drop_last(), target) + (if nbrs.last() < states.len()
            && states[nbrs.last() as int] == target {
            1nat
        } else {
            0nat
        })
    }
}

/// Every index in `nbrs` is a valid position in a storage of length `n`.
pub open spec fn valid_neighbors(nbrs: Seq<usize>, n: int) -> bool {
    forall|j: int| 0 <= j < nbrs.len() ==> (#[trigger] nbrs[j]) < n
}

/// The state the transition rule assigns to `c` when all cells' current
/// states are read from the snapshot `cells`.
pub open spec fn cell_next_state(c: Cell, cells: Seq<Cell>) -> State {
    next_state_spec(
        c.state,
        count_state(states_of(cells), c.neighbors@, State::Alive),
        count_state(states_of(cells), c.neighbors@, State::Zombie),
    )
}

/// The pending-state record for `c` after one compute phase against the
/// snapshot `cells`: present exactly when the step changes the state.
pub open spec fn cell_pending(c: Cell, cells: Seq<Cell>) -> Option<State> {
    if cell_next_state(c, cells) == c.state {
        None
    } else {
        Some(cell_next_state(c, cells))
    }
}

/// If no state in `states` equals `target`, no neighbor list can count one.
pub proof fn lemma_count_state_zero(states: Seq<State>, nbrs: Seq<usize>, target: State)
    requires
        forall|i: int| 0 <= i < states.len() ==> states[i] != target,
    ensures
        count_state(states, nbrs, target) == 0,
    decreases nbrs.len(),
{
    if nbrs.len() > 0 {
        lemma_count_state_zero(states, nbrs.drop_last(), target);
    }
}

/// The tally of one cell's neighborhood: how many of its neighbors
/// currently hold each of the three states.
#[derive(Clone, Copy, Debug, PartialEq, Eq, Structural)]
pub struct Tally {
    pub dead: u64,
    pub alive: u64,
    pub zombie: u64,
}

impl Cell {
    /// A fresh cell with the given state and neighbor list, and nothing
    /// pending.
    pub fn new(state: State, neighbors: Vec<usize>) -> (c: Cell)
        ensures
            c.state == state,
            c.neighbors == neighbors,
            c.pending_state is None,
    {
        Cell { state, neighbors, pending_state: None }
    }

    /// Tallies this cell's neighbors' current states from the snapshot
    /// `neighbors` of all cells.
    pub fn nearby_states(&self, neighbors: &Vec<Cell>) -> (t: Tally)
        requires
            valid_neighbors(self.neighbors@, neighbors@.len() as int),
        ensures
            t.dead == count_state(states_of(neighbors@), self.neighbors@, State::Dead),
            t.alive == count_state(states_of(neighbors@), self.neighbors@, State::Alive),
            t.zombie == count_state(states_of(neighbors@), self.neighbors@, State::Zombie),
    {
        let ghost all = states_of(neighbors@);
        let mut t = Tally { dead: 0, alive: 0, zombie: 0 };
        let mut j: usize = 0;
        while j < self.neighbors.len()
            invariant
                j <= self.neighbors@.len(),
                valid_neighbors(self.neighbors@, neighbors@.len() as int),
                all == states_of(neighbors@),
                t.dead + t.alive + t.zombie <= j,
                t.dead == count_state(all, self.neighbors@.take(j as int), State::Dead),
                t.alive == count_state(all, self.neighbors@.take(j as int), State::Alive),
                t.zombie == count_state(all, self.neighbors@.take(j as int), State::Zombie),
            decreases self.neighbors@.len() - j,
        {
            let idx = self.neighbors[j];
            proof {
                let pre = self.neighbors@.take(j as int);
                assert(self.neighbors@.take(j as int + 1) =~= pre.push(self.neighbors@[j as int]));
                assert(pre.push(self.neighbors@[j as int]).drop_last() =~= pre);
                assert(all[idx as int] == neighbors@[idx as int].state);
            }
            match neighbors[idx].state {
                State::Dead => t.dead = t.dead + 1,
                State::Alive => t.alive = t.alive + 1,
                State::Zombie => t.zombie = t.zombie + 1,
            }
            j = j + 1;
        }
        proof {
            assert(self.neighbors@.take(self.neighbors@.len() as int) =~= self.neighbors@);
        }
        t
    }

    /// Computes this cell's pending state from the snapshot `neighbors`:
    /// `Some` of the rule's result when the rule changes the state, `None`
    /// when the cell keeps its state. The authoritative state and the
    /// neighbor list are untouched.
    pub fn next_state(&mut self, neighbors: &Vec<Cell>)
        requires
            valid_neighbors(old(self).neighbors@, neighbors@.len() as int),
        ensures
            final(self).state == old(self).state,
            final(self).neighbors == old(self).neighbors,
            final(self).pending_state == cell_pending(*old(self), neighbors@),
    {
        let t = self.nearby_states(neighbors);
        self.pending_state = match self.state {
            State::Dead => {
                if t.alive == 3 {
                    Some(State::Alive)
                } else {
                    None
                }
            },
            State::Alive => {
                if t.zombie > 0 {
                    Some(State::Zombie)
                } else if t.alive < 2 {
                    Some(State::Dead)
                } else if t.alive > 3 {
                    Some(State::Dead)
                } else {
                    None
                }
            },
            State::Zombie => {
                if t.alive == 0 {
                    Some(State::Dead)
                } else {
                    None
                }
            },
        };
    }

    /// One full update of this cell against the snapshot `neighbors`:
    /// computes the pending state, then commits it. Returns whether the
    /// authoritative state changed.
    pub fn update(&mut self, neighbors: &Vec<Cell>) -> (changed: bool)
        requires
            valid_neighbors(old(self).neighbors@, neighbors@.len() as int),
        ensures
            final(self).state == cell_next_state(*old(self), neighbors@),
            final(self).neighbors == old(self).neighbors,
            final(self).pending_state == cell_pending(*old(self), neighbors@),
            changed == (cell_next_state(*old(self), neighbors@) != old(self).state),
    {
        self.next_state(neighbors);
        if let Some(next) = self.pending_state {
            self.state = next;
            true
        } else {
            false
        }
    }

    /// The one-symbol rendering of this cell's current state: `O` for
    /// alive, `#` for dead, `%` for zombie. Only the authoritative state
    /// is consulted, never the pending one.
    pub fn to_char(&self, _neighbors: &Vec<Cell>) -> (r: String)
        ensures
            r@ == seq![symbol_of_state(self.state)],
    {
        proof {
            reveal_strlit("O");
            reveal_strlit("#");
            reveal_strlit("%");
        }
        let r = match self.state {
            State::Alive => String::from_str("O"),
            State::Dead => String::from_str("#"),
            State::Zombie => String::from_str("%"),
        };
        proof {
            assert(r@ =~= seq![symbol_of_state(self.state)]);
        }
        r
    }
}

impl Clone for Cell {
    /// An independent copy: same state, same neighbor indices, same
    /// pending record, sharing no storage with `self`.
    fn clone(&self) -> (c: Cell)
        ensures
            c.state == self.state,
            c.neighbors@ == self.neighbors@,
            c.pending_state == self.pending_state,
    {
        let mut neighbors: Vec<usize> = Vec::new();
        let mut j: usize = 0;
        while j < self.neighbors.len()
            invariant
                j <= self.neighbors@.len(),
                neighbors@ == self.neighbors@.take(j as int),
            decreases self.neighbors@.len() - j,
        {
            neighbors.push(self.neighbors[j]);
            proof {
                assert(self.neighbors@.take(j as int).push(self.neighbors@[j as int])
                    =~= self.neighbors@.take(j as int + 1));
            }
            j = j + 1;
        }
        proof {
            assert(self.neighbors@.take(self.neighbors@.len() as int) =~= self.neighbors@);
        }
        Cell { state: self.state, neighbors, pending_state: self.pending_state }
    }
}

} // verus!
