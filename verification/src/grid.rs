//! The full board: dimensions plus a flat, row-major collection of cells.
//! Construction wires the Moore-neighborhood topology once; one step
//! computes every cell's next state from a frozen snapshot and commits
//! them all at once, so no cell's update depends on traversal order.

use vstd::prelude::*;

use crate::cell::{
    cell_next_state, cell_pending, lemma_count_state_zero, states_of, valid_neighbors, Cell,
};
use crate::state::{state_of_symbol, symbol_of_state, State};

verus! {

/// Why a board was rejected at construction: no rows or an empty first
/// row; rows of unequal length; or a symbol outside `#`, `O`, `%`.
#[derive(Clone, Copy, Debug, PartialEq, Eq, Structural)]
pub enum GridError {
    EmptyBoard,
    RaggedRows,
    InvalidSymbol,
}

/// The board has no rows, or its first row has no symbols.
pub open spec fn board_empty(m: Seq<Seq<u8>>) -> bool {
    m.len() == 0 || m[0].len() == 0
}

/// Every row has the same length as the first.
pub open spec fn board_uniform(m: Seq<Seq<u8>>) -> bool {
    forall|y: int| 0 <= y < m.len() ==> (#[trigger] m[y]).len() == m[0].len()
}

/// Every symbol on the board denotes a state.
pub open spec fn board_symbols_valid(m: Seq<Seq<u8>>) -> bool {
    forall|y: int, x: int|
        0 <= y < m.len() && 0 <= x < m[y].len() ==> state_of_symbol(#[trigger] m[y][x]) is Some
}

/// The Moore neighborhood of the cell at row `y`, column `x` on a
/// `w`-by-`h` board, as flat row-major indices in the fixed construction
/// order: top row left to right, right, left, bottom row left to right —
/// each position only when it lies inside the board. No wraparound.
pub open spec fn neighbor_seq(w: int, h: int, y: int, x: int) -> Seq<int> {
    (if y > 0 {
        (if x > 0 {
            seq![(y - 1) * w + x - 1]
        } else {
            Seq::<int>::empty()
        }) + seq![(y - 1) * w + x] + (if x + 1 < w {
            seq![(y - 1) * w + x + 1]
        } else {
            Seq::<int>::empty()
        })
    } else {
        Seq::<int>::empty()
    }) + (if x + 1 < w {
        seq![y * w + x + 1]
    } else {
        Seq::<int>::empty()
    }) + (if x > 0 {
        seq![y * w + x - 1]
    } else {
        Seq::<int>::empty()
    }) + (if y + 1 < h {
        (if x > 0 {
            seq![(y + 1) * w + x - 1]
        } else {
            Seq::<int>::empty()
        }) + seq![(y + 1) * w + x] + (if x + 1 < w {
            seq![(y + 1) * w + x + 1]
        } else {
            Seq::<int>::empty()
        })
    } else {
        Seq::<int>::empty()
    })
}

/// The neighbor list `nbrs` is exactly the Moore neighborhood of the cell
/// at row `y`, column `x` on a `w`-by-`h` board.
pub open spec fn neighbors_match(nbrs: Seq<usize>, w: int, h: int, y: int, x: int) -> bool {
    nbrs.map_values(|u: usize| u as int) == neighbor_seq(w, h, y, x)
}

/// A flat row-major index lies inside the storage of a `w`-by-`h` board.
proof fn lemma_flat_index_bound(w: int, h: int, a: int, b: int)
    requires
        0 <= a < h,
        0 <= b < w,
    ensures
        0 <= a * w + b < h * w,
{
    assert(a * w + b < h * w) by (nonlinear_arith)
        requires
            0 <= a < h,
            0 <= b < w,
    ;
    assert(0 <= a * w + b) by (nonlinear_arith)
        requires
            0 <= a,
            0 <= b,
            b < w,
    ;
}

/// A flat index in a row strictly above row `y` precedes position
/// `(y, x)` in row-major order.
proof fn lemma_flat_index_lt(w: int, a: int, b: int, y: int, x: int)
    requires
        0 <= a < y,
        0 <= b < w,
        0 <= x,
    ensures
        0 <= a * w + b < y * w + x,
{
    assert(a * w + b < y * w + x) by (nonlinear_arith)
        requires
            0 <= a < y,
            0 <= b < w,
            0 <= x,
    ;
    assert(0 <= a * w + b) by (nonlinear_arith)
        requires
            0 <= a,
            0 <= b,
            b < w,
    ;
}

/// The cell stored at flat position `(y, x)` was built from board `m`:
/// its state is the one `m`'s symbol there denotes, its neighbor list is
/// the Moore neighborhood of `(y, x)`, and nothing is pending.
pub open spec fn cell_matches_board(
    cells: Seq<Cell>,
    m: Seq<Seq<u8>>,
    w: int,
    h: int,
    y: int,
    x: int,
) -> bool {
    &&& state_of_symbol(m[y][x]) == Some(cells[y * w + x].state)
    &&& neighbors_match(cells[y * w + x].neighbors@, w, h, y, x)
    &&& cells[y * w + x].pending_state is None
}

/// On a board at least two wide and two high, a cell's neighbor count is
/// determined by how it touches the boundary: three in a corner, five on
/// an edge, eight in the interior.
pub proof fn lemma_neighbor_count(nbrs: Seq<usize>, w: int, h: int, y: int, x: int)
    requires
        neighbors_match(nbrs, w, h, y, x),
        w >= 2,
        h >= 2,
        0 <= y < h,
        0 <= x < w,
    ensures
        nbrs.len() == (if (y == 0 || y == h - 1) && (x == 0 || x == w - 1) {
            3int
        } else if y == 0 || y == h - 1 || x == 0 || x == w - 1 {
            5int
        } else {
            8int
        }),
{
    assert(nbrs.len() == neighbor_seq(w, h, y, x).len());
}

/// The full board. `cells` has length `x * y` and is indexed row-major:
/// the cell at row `r`, column `c` sits at `r * x + c`.
#[derive(Debug)]
pub struct Grid {
    pub x: usize,
    pub y: usize,
    pub cells: Vec<Cell>,
}

/// Builds the Moore-neighborhood index list of the cell at row `y`,
/// column `x` on a `w`-by-`h` board, in the fixed construction order.
fn moore_neighbors(w: usize, h: usize, y: usize, x: usize) -> (nv: Vec<usize>)
    requires
        y < h,
        x < w,
        (h as int) * (w as int) <= usize::MAX,
    ensures
        neighbors_match(nv@, w as int, h as int, y as int, x as int),
        valid_neighbors(nv@, (h as int) * (w as int)),
{
    proof {
        lemma_flat_index_bound(w as int, h as int, y as int, 0);
        lemma_flat_index_bound(w as int, h as int, y as int, x as int);
        if x as int + 1 < w as int {
            lemma_flat_index_bound(w as int, h as int, y as int, x as int + 1);
        }
        if y > 0 {
            lemma_flat_index_bound(w as int, h as int, y as int - 1, 0);
            lemma_flat_index_bound(w as int, h as int, y as int - 1, x as int);
            if x as int + 1 < w as int {
                lemma_flat_index_bound(w as int, h as int, y as int - 1, x as int + 1);
            }
        }
        if (y as int) + 1 < h as int {
            lemma_flat_index_bound(w as int, h as int, y as int + 1, 0);
            lemma_flat_index_bound(w as int, h as int, y as int + 1, x as int);
            if x as int + 1 < w as int {
                lemma_flat_index_bound(w as int, h as int, y as int + 1, x as int + 1);
            }
        }
    }
    let mut nv: Vec<usize> = Vec::new();
    if y > 0 {
        if x > 0 {
            nv.push((y - 1) * w + x - 1);
        }
        nv.push((y - 1) * w + x);
        if x + 1 < w {
            nv.push((y - 1) * w + x + 1);
        }
    }
    if x + 1 < w {
        nv.push(y * w + x + 1);
    }
    if x > 0 {
        nv.push(y * w + x - 1);
    }
    if y + 1 < h {
        if x > 0 {
            nv.push((y + 1) * w + x - 1);
        }
        nv.push((y + 1) * w + x);
        if x + 1 < w {
            nv.push((y + 1) * w + x + 1);
        }
    }
    proof {
        assert(nv@.map_values(|u: usize| u as int) =~= neighbor_seq(
            w as int,
            h as int,
            y as int,
            x as int,
        ));
        assert(valid_neighbors(nv@, (h as int) * (w as int)));
    }
    nv
}

impl Grid {
    /// Well-formedness: positive dimensions, storage of exactly
    /// `x * y` cells, and every cell's neighbor indices in bounds.
    pub open spec fn wf(self) -> bool {
        &&& 1 <= self.x
        &&& 1 <= self.y
        &&& self.cells@.len() == self.x * self.y
        &&& forall|i: int|
            0 <= i < self.cells@.len() ==> valid_neighbors(
                (#[trigger] self.cells@[i]).neighbors@,
                self.cells@.len() as int,
            )
    }

    /// Builds a grid from a rectangular matrix of input symbols, wiring
    /// the Moore-neighborhood topology once.
    ///
    /// The board is rejected — and no grid produced — exactly when it is
    /// empty (no rows, or an empty first row), ragged (a row whose length
    /// differs from the first row's), or holds a symbol outside
    /// `#`, `O`, `%`; the error names the first of those conditions that
    /// applies, in that order. On success the grid's dimensions come from
    /// the matrix, every cell holds the state its symbol denotes, every
    /// neighbor list is the Moore neighborhood of its position, and
    /// nothing is pending.
    pub fn new(raw_matrix: Vec<Vec<u8>>) -> (r: Result<Grid, GridError>)
        requires
            raw_matrix@.len() == 0 || raw_matrix@.len() * raw_matrix@[0]@.len() <= usize::MAX,
        ensures
            ({
                let m = raw_matrix.deep_view();
                &&& (r == Err::<Grid, GridError>(GridError::EmptyBoard) <==> board_empty(m))
                &&& (r == Err::<Grid, GridError>(GridError::RaggedRows) <==> !board_empty(m)
                    && !board_uniform(m))
                &&& (r == Err::<Grid, GridError>(GridError::InvalidSymbol) <==> !board_empty(m)
                    && board_uniform(m) && !board_symbols_valid(m))
                &&& (r is Ok <==> !board_empty(m) && board_uniform(m) && board_symbols_valid(m))
                &&& (r matches Ok(g) ==> {
                    &&& g.wf()
                    &&& g.x as int == m[0].len()
                    &&& g.y as int == m.len()
                    &&& forall|a: int, b: int|
                        0 <= a < m.len() && 0 <= b < m[0].len()
                            ==> #[trigger] cell_matches_board(
                            g.cells@,
                            m,
                            m[0].len() as int,
                            m.len() as int,
                            a,
                            b,
                        )
                })
            }),
    {
        let ghost m = raw_matrix.deep_view();
        proof {
            assert forall|k: int| 0 <= k < m.len() implies m[k] == raw_matrix@[k]@ by {
                assert(m[k] =~= raw_matrix@[k]@);
            }
        }
        let h = raw_matrix.len();
        if h == 0 {
            return Err(GridError::EmptyBoard);
        }
        let w = raw_matrix[0].len();
        if w == 0 {
            return Err(GridError::EmptyBoard);
        }
        let mut k: usize = 0;
        while k < h
            invariant
                m == raw_matrix.deep_view(),
                h == raw_matrix@.len(),
                h == m.len(),
                w == m[0].len(),
                1 <= w,
                1 <= h,
                k <= h,
                forall|j: int| 0 <= j < m.len() ==> m[j] == raw_matrix@[j]@,
                forall|j: int| 0 <= j < k ==> (#[trigger] m[j]).len() == m[0].len(),
            decreases h - k,
        {
            if raw_matrix[k].len() != w {
                proof {
                    assert(m[k as int].len() != m[0].len());
                    assert(!board_uniform(m));
                }
                return Err(GridError::RaggedRows);
            }
            k = k + 1;
        }
        let mut cells: Vec<Cell> = Vec::new();
        let mut y: usize = 0;
        while y < h
            invariant
                m == raw_matrix.deep_view(),
                h == raw_matrix@.len(),
                h == m.len(),
                w == m[0].len(),
                1 <= w,
                1 <= h,
                (h as int) * (w as int) <= usize::MAX,
                y <= h,
                board_uniform(m),
                forall|j: int| 0 <= j < m.len() ==> m[j] == raw_matrix@[j]@,
                cells@.len() == y * w,
                forall|a: int, b: int|
                    0 <= a < y && 0 <= b < w ==> #[trigger] cell_matches_board(
                        cells@,
                        m,
                        w as int,
                        h as int,
                        a,
                        b,
                    ),
                forall|i: int|
                    0 <= i < cells@.len() ==> valid_neighbors(
                        (#[trigger] cells@[i]).neighbors@,
                        (h as int) * (w as int),
                    ),
            decreases h - y,
        {
            let mut x: usize = 0;
            while x < w
                invariant
                    m == raw_matrix.deep_view(),
                    h == raw_matrix@.len(),
                    h == m.len(),
                    w == m[0].len(),
                    1 <= w,
                    1 <= h,
                    (h as int) * (w as int) <= usize::MAX,
                    y < h,
                    x <= w,
                    board_uniform(m),
                    forall|j: int| 0 <= j < m.len() ==> m[j] == raw_matrix@[j]@,
                    cells@.len() == y * w + x,
                    forall|a: int, b: int|
                        0 <= a < y && 0 <= b < w ==> #[trigger] cell_matches_board(
                            cells@,
                            m,
                            w as int,
                            h as int,
                            a,
                            b,
                        ),
                    forall|b: int|
                        0 <= b < x ==> #[trigger] cell_matches_board(
                            cells@,
                            m,
                            w as int,
                            h as int,
                            y as int,
                            b,
                        ),
                    forall|i: int|
                        0 <= i < cells@.len() ==> valid_neighbors(
                            (#[trigger] cells@[i]).neighbors@,
                            (h as int) * (w as int),
                        ),
                decreases w - x,
            {
                let nv = moore_neighbors(w, h, y, x);
                let b = raw_matrix[y][x];
                let state = if b == '#' as u8 {
                    State::Dead
                } else if b == 'O' as u8 {
                    State::Alive
                } else if b == '%' as u8 {
                    State::Zombie
                } else {
                    proof {
                        assert(m[y as int][x as int] == b);
                        assert(m[y as int].len() == m[0].len());
                        assert(state_of_symbol(m[y as int][x as int]) is None);
                        assert(!board_symbols_valid(m));
                    }
                    return Err(GridError::InvalidSymbol);
                };
                let ghost old_cells = cells@;
                cells.push(Cell::new(state, nv));
                proof {
                    assert(cells@[y as int * w as int + x as int]
                        == cells@[old_cells.len() as int]);
                    assert(cell_matches_board(cells@, m, w as int, h as int, y as int, x as int));
                    assert forall|a: int, bb: int| 0 <= a < y && 0 <= bb < w implies
                        #[trigger] cell_matches_board(cells@, m, w as int, h as int, a, bb) by {
                        lemma_flat_index_lt(w as int, a, bb, y as int, x as int);
                        assert(cell_matches_board(old_cells, m, w as int, h as int, a, bb));
                    }
                    assert forall|bb: int| 0 <= bb < x implies #[trigger] cell_matches_board(
                        cells@,
                        m,
                        w as int,
                        h as int,
                        y as int,
                        bb,
                    ) by {
                        assert(y as int * w as int + bb < y as int * w as int + x as int);
                        assert(cell_matches_board(old_cells, m, w as int, h as int, y as int, bb));
                    }
                }
                x = x + 1;
            }
            proof {
                assert(y as int * w as int + w as int == (y as int + 1) * w as int)
                    by (nonlinear_arith);
            }
            y = y + 1;
        }
        let g = Grid { x: w, y: h, cells };
        proof {
            assert(g.cells@.len() == (h as int) * (w as int));
            assert((h as int) * (w as int) == (w as int) * (h as int)) by (nonlinear_arith);
            assert(g.wf());
            assert(board_symbols_valid(m)) by {
                assert forall|a: int, b: int| 0 <= a < m.len() && 0 <= b < m[a].len() implies
                    state_of_symbol(#[trigger] m[a][b]) is Some by {
                    assert(m[a].len() == m[0].len());
                    assert(cell_matches_board(g.cells@, m, w as int, h as int, a, b));
                }
            }
        }
        Ok(g)
    }

    /// The authoritative states of all cells, in storage order.
    pub open spec fn states(self) -> Seq<State> {
        states_of(self.cells@)
    }

    /// The states one synchronous step assigns: every cell's next state is
    /// computed by the transition rule from this grid as the frozen
    /// snapshot.
    pub open spec fn next_states(self) -> Seq<State> {
        Seq::new(self.cells@.len(), |i: int| cell_next_state(self.cells@[i], self.cells@))
    }

    /// One synchronous step: a structurally independent grid with the same
    /// dimensions and topology whose every cell holds the state the rule
    /// computes from `self` as the read-only snapshot.
    pub fn next_matrix(&self) -> (r: Grid)
        requires
            self.wf(),
        ensures
            r.wf(),
            r.x == self.x,
            r.y == self.y,
            r.cells@.len() == self.cells@.len(),
            r.states() == self.next_states(),
            forall|i: int|
                0 <= i < self.cells@.len() ==> (#[trigger] r.cells@[i]).neighbors@
                    == self.cells@[i].neighbors@,
            forall|i: int|
                0 <= i < self.cells@.len() ==> (#[trigger] r.cells@[i]).pending_state
                    == cell_pending(self.cells@[i], self.cells@),
    {
        let n = self.cells.len();
        let mut cells: Vec<Cell> = Vec::new();
        let mut i: usize = 0;
        while i < n
            invariant
                self.wf(),
                n == self.cells@.len(),
                i <= n,
                cells@.len() == i,
                forall|k: int|
                    0 <= k < i ==> (#[trigger] cells@[k]).state
                        == cell_next_state(self.cells@[k], self.cells@),
                forall|k: int|
                    0 <= k < i ==> (#[trigger] cells@[k]).neighbors@
                        == self.cells@[k].neighbors@,
                forall|k: int|
                    0 <= k < i ==> (#[trigger] cells@[k]).pending_state
                        == cell_pending(self.cells@[k], self.cells@),
            decreases n - i,
        {
            let mut c = self.cells[i].clone();
            c.update(&self.cells);
            cells.push(c);
            i = i + 1;
        }
        let r = Grid { x: self.x, y: self.y, cells };
        proof {
            assert(r.states() =~= self.next_states());
        }
        r
    }

    /// Advances to the next generation, or signals a fixed point.
    ///
    /// Computes one step; when the result is state-equal to this grid the
    /// sequence is exhausted, nothing changes, and `None` is returned.
    /// Otherwise the step becomes the new current grid and an independent
    /// copy of it is returned. Only authoritative states decide the
    /// fixed-point comparison, never pending ones.
    pub fn next(&mut self) -> (r: Option<Grid>)
        requires
            old(self).wf(),
        ensures
            final(self).wf(),
            (r is None <==> old(self).next_states() == old(self).states()),
            r is None ==> *final(self) == *old(self),
            r matches Some(g) ==> {
                &&& g.wf()
                &&& g.x == old(self).x
                &&& g.y == old(self).y
                &&& g.states() == old(self).next_states()
                &&& g.states() != old(self).states()
                &&& forall|i: int|
                    0 <= i < old(self).cells@.len() ==> (#[trigger] g.cells@[i]).neighbors@
                        == old(self).cells@[i].neighbors@
                &&& final(self).x == old(self).x
                &&& final(self).y == old(self).y
                &&& final(self).states() == g.states()
                &&& forall|i: int|
                    0 <= i < old(self).cells@.len() ==> (#[trigger] final(self).cells@[i]).neighbors@
                        == old(self).cells@[i].neighbors@
                &&& forall|i: int|
                    0 <= i < old(self).cells@.len() ==> (#[trigger] final(self).cells@[i]).pending_state
                        == g.cells@[i].pending_state
            },
    {
        let nxt = self.next_matrix();
        if states_equal(self, &nxt) {
            proof {
                assert(self.states() =~= self.next_states());
            }
            None
        } else {
            let mut cells: Vec<Cell> = Vec::new();
            let mut i: usize = 0;
            let n = nxt.cells.len();
            while i < n
                invariant
                    n == nxt.cells@.len(),
                    i <= n,
                    cells@.len() == i,
                    forall|k: int|
                        0 <= k < i ==> (#[trigger] cells@[k]).state == nxt.cells@[k].state,
                    forall|k: int|
                        0 <= k < i ==> (#[trigger] cells@[k]).neighbors@
                            == nxt.cells@[k].neighbors@,
                    forall|k: int|
                        0 <= k < i ==> (#[trigger] cells@[k]).pending_state
                            == nxt.cells@[k].pending_state,
                decreases n - i,
            {
                cells.push(nxt.cells[i].clone());
                i = i + 1;
            }
            self.cells = cells;
            proof {
                assert(self.states() =~= nxt.states());
            }
            Some(nxt)
        }
    }

    /// Renders the board: `y` lines of `x` symbols each, in row-major
    /// order, no separators between symbols, one line break after every
    /// row. Only authoritative states are consulted.
    pub fn render(&self) -> (r: String)
        requires
            self.wf(),
        ensures
            r@ == render_rows(self.states(), self.x as int, self.y as int),
    {
        proof {
            reveal_strlit("O");
            reveal_strlit("#");
            reveal_strlit("%");
            reveal_strlit("\n");
        }
        let ghost all = self.states();
        let ghost w = self.x as int;
        let n = self.cells.len();
        let mut s = String::new();
        let mut row: usize = 0;
        while row < self.y
            invariant
                self.wf(),
                n == self.cells@.len(),
                all == self.states(),
                w == self.x as int,
                row <= self.y,
                s@ == render_rows(all, w, row as int),
                ("O")@ == seq!['O'],
                ("#")@ == seq!['#'],
                ("%")@ == seq!['%'],
                ("\n")@ == seq!['\n'],
            decreases self.y - row,
        {
            let mut col: usize = 0;
            while col < self.x
                invariant
                    self.wf(),
                    n == self.cells@.len(),
                    all == self.states(),
                    w == self.x as int,
                    row < self.y,
                    col <= self.x,
                    s@ == render_rows(all, w, row as int) + row_chars(all, w, row as int).take(
                        col as int,
                    ),
                    ("O")@ == seq!['O'],
                    ("#")@ == seq!['#'],
                    ("%")@ == seq!['%'],
                    ("\n")@ == seq!['\n'],
                decreases self.x - col,
            {
                proof {
                    lemma_flat_index_bound(w, self.y as int, row as int, col as int);
                }
                let idx = row * self.x + col;
                let ghost before = s@;
                match self.cells[idx].state {
                    State::Alive => s.append("O"),
                    State::Dead => s.append("#"),
                    State::Zombie => s.append("%"),
                }
                proof {
                    assert(all[idx as int] == self.cells@[idx as int].state);
                    assert(s@ =~= before.push(symbol_of_state(all[idx as int])));
                    assert(row_chars(all, w, row as int).take(col as int + 1) =~= row_chars(
                        all,
                        w,
                        row as int,
                    ).take(col as int).push(symbol_of_state(all[row as int * w + col as int])));
                    assert(s@ =~= render_rows(all, w, row as int) + row_chars(
                        all,
                        w,
                        row as int,
                    ).take(col as int + 1));
                }
                col = col + 1;
            }
            let ghost before = s@;
            s.append("\n");
            proof {
                assert(row_chars(all, w, row as int).take(w) =~= row_chars(all, w, row as int));
                assert(s@ =~= render_rows(all, w, row as int) + row_chars(all, w, row as int)
                    + seq!['\n']);
                assert(s@ =~= render_rows(all, w, row as int + 1));
            }
            row = row + 1;
        }
        s
    }
}

/// Row `y` of a `w`-wide board rendered as symbols, one per cell, in
/// column order.
pub open spec fn row_chars(states: Seq<State>, w: int, y: int) -> Seq<char> {
    Seq::new(w as nat, |x: int| symbol_of_state(states[y * w + x]))
}

/// The first `upto` rows of a `w`-wide board rendered as symbols, each
/// row followed by one line break.
pub open spec fn render_rows(states: Seq<State>, w: int, upto: int) -> Seq<char>
    decreases upto,
{
    if upto <= 0 {
        Seq::<char>::empty()
    } else {
        render_rows(states, w, upto - 1) + row_chars(states, w, upto - 1) + seq!['\n']
    }
}

/// Whether two grids hold the same authoritative state in every position.
/// Pending states and topology play no part in the comparison.
pub fn states_equal(a: &Grid, b: &Grid) -> (r: bool)
    ensures
        r <==> a.states() == b.states(),
{
    if a.cells.len() != b.cells.len() {
        proof {
            assert(a.states().len() != b.states().len());
        }
        return false;
    }
    let n = a.cells.len();
    let mut i: usize = 0;
    while i < n
        invariant
            n == a.cells@.len(),
            n == b.cells@.len(),
            i <= n,
            forall|k: int| 0 <= k < i ==> a.states()[k] == b.states()[k],
        decreases n - i,
    {
        let same = match (&a.cells[i].state, &b.cells[i].state) {
            (State::Dead, State::Dead) => true,
            (State::Alive, State::Alive) => true,
            (State::Zombie, State::Zombie) => true,
            _ => false,
        };
        if !same {
            proof {
                assert(a.states()[i as int] != b.states()[i as int]);
            }
            return false;
        }
        i = i + 1;
    }
    proof {
        assert(a.states() =~= b.states());
    }
    true
}

/// Determinism of the step: two grids holding equal cells compute equal
/// next generations, so advancing the same grid value twice yields two
/// state-identical results.
pub proof fn lemma_step_deterministic(a: Grid, b: Grid)
    requires
        a.cells@ == b.cells@,
    ensures
        a.next_states() == b.next_states(),
{
    assert(a.next_states() =~= b.next_states());
}

/// A board whose every cell is dead is a fixed point: no cell has three
/// alive neighbors, so one step changes nothing and the generation
/// sequence terminates at once.
pub proof fn lemma_all_dead_fixed_point(g: Grid)
    requires
        g.wf(),
        forall|i: int| 0 <= i < g.states().len() ==> g.states()[i] == State::Dead,
    ensures
        g.next_states() == g.states(),
{
    assert forall|i: int| 0 <= i < g.cells@.len() implies g.next_states()[i] == g.states()[i] by {
        lemma_count_state_zero(states_of(g.cells@), g.cells@[i].neighbors@, State::Alive);
        lemma_count_state_zero(states_of(g.cells@), g.cells@[i].neighbors@, State::Zombie);
        assert(g.states()[i] == State::Dead);
    }
    assert(g.next_states() =~= g.states());
}

} // verus!
