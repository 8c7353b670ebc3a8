//! The grid: a rectangular matrix of boolean cells, indexed
//! `[column][row]`, with no wraparound at the borders.

use vstd::prelude::*;
use crate::rng;
use crate::rule;

verus! {

/// How many equally likely buckets a seeding draw falls in.
pub const SEED_BUCKETS: u32 = 6;

/// The one bucket whose draw makes a cell start alive, so seeding
/// yields roughly a 1-in-6 live-cell density.
pub const LIVE_BUCKET: u32 = 2;

pub struct Grid {
    cells: Vec<Vec<bool>>,
}

/// The mathematical value of the matrix: a sequence of columns, each a
/// sequence of cell states. Kept opaque so that callers reason through
/// the accessors' contracts alone.
#[verifier::opaque]
spec fn matrix_view(cells: Vec<Vec<bool>>) -> Seq<Seq<bool>> {
    cells.deep_view()
}

impl View for Grid {
    type V = Seq<Seq<bool>>;

    closed spec fn view(&self) -> Seq<Seq<bool>> {
        matrix_view(self.cells)
    }
}

/// All columns have the same height: the matrix is rectangular.
pub open spec fn rectangular(g: Seq<Seq<bool>>) -> bool {
    forall|i: int| 0 <= i < g.len() ==> (#[trigger] g[i]).len() == g[0].len()
}

/// The states of the cells adjacent to `(x, y)`, without wraparound, in
/// the fixed order left, right, top, bottom, top-left, top-right,
/// bottom-left, bottom-right, keeping only the neighbors that exist.
pub open spec fn neighbors_of(g: Seq<Seq<bool>>, x: int, y: int) -> Seq<bool> {
    let left = x > 0;
    let right = x < g.len() - 1;
    let top = y > 0;
    let bottom = y < g[x].len() - 1;
    (if left {
        seq![g[x - 1][y]]
    } else {
        Seq::<bool>::empty()
    }) + (if right {
        seq![g[x + 1][y]]
    } else {
        Seq::<bool>::empty()
    }) + (if top {
        seq![g[x][y - 1]]
    } else {
        Seq::<bool>::empty()
    }) + (if bottom {
        seq![g[x][y + 1]]
    } else {
        Seq::<bool>::empty()
    }) + (if left && top {
        seq![g[x - 1][y - 1]]
    } else {
        Seq::<bool>::empty()
    }) + (if right && top {
        seq![g[x + 1][y - 1]]
    } else {
        Seq::<bool>::empty()
    }) + (if left && bottom {
        seq![g[x - 1][y + 1]]
    } else {
        Seq::<bool>::empty()
    }) + (if right && bottom {
        seq![g[x + 1][y + 1]]
    } else {
        Seq::<bool>::empty()
    })
}

/// Pushing one state is appending a singleton.
proof fn lemma_push_is_add(s: Seq<bool>, v: bool)
    ensures
        s.push(v) == s + seq![v],
{
    assert(s.push(v) =~= s + seq![v]);
}

/// Appending an empty neighborhood part changes nothing.
proof fn lemma_add_empty(s: Seq<bool>)
    ensures
        s + Seq::<bool>::empty() == s,
{
    assert(s + Seq::<bool>::empty() =~= s);
}

impl Grid {
    /// An empty grid: zero columns.
    pub fn new() -> (r: Self)
        ensures
            r@.len() == 0,
    {
        let r = Self { cells: Vec::new() };
        proof {
            reveal(matrix_view);
        }
        r
    }

    /// Replaces the whole matrix. The caller is trusted to supply a
    /// rectangular matrix; nothing is validated here.
    pub fn set_cells(&mut self, cells: Vec<Vec<bool>>)
        ensures
            final(self)@ == cells.deep_view(),
    {
        self.cells = cells;
        proof {
            reveal(matrix_view);
        }
    }

    /// Replaces the matrix with a freshly seeded `size_x` by `size_y`
    /// one: each cell independently draws one of `SEED_BUCKETS` equally
    /// likely buckets and starts alive exactly when the draw equals
    /// `LIVE_BUCKET`, for a roughly 1-in-6 initial live density.
    pub fn random_pop(&mut self, size_x: usize, size_y: usize)
        ensures
            final(self)@.len() == size_x as int,
            forall|i: int|
                0 <= i < size_x ==> (#[trigger] final(self)@[i]).len() == size_y as int,
            rectangular(final(self)@),
    {
        let mut cells: Vec<Vec<bool>> = Vec::new();
        let mut x: usize = 0;
        while x < size_x
            invariant
                x <= size_x,
                cells@.len() == x as int,
                forall|i: int|
                    0 <= i < x ==> (#[trigger] cells@[i]).deep_view().len() == size_y as int,
            decreases size_x - x,
        {
            let mut col: Vec<bool> = Vec::new();
            let mut y: usize = 0;
            while y < size_y
                invariant
                    y <= size_y,
                    col@.len() == y as int,
                decreases size_y - y,
            {
                let random_value = rng::draw_bucket(SEED_BUCKETS);
                col.push(random_value == LIVE_BUCKET);
                y = y + 1;
            }
            cells.push(col);
            x = x + 1;
        }
        let ghost gcells = cells.deep_view();
        self.cells = cells;
        proof {
            reveal(matrix_view);
            assert(self@ == gcells);
            assert forall|i: int| 0 <= i < size_x implies (#[trigger] self@[i]).len()
                == size_y as int by {
                assert(gcells[i].len() == size_y as int);
            }
        }
    }

    /// The number of columns.
    fn width(&self) -> (r: usize)
        ensures
            r == self@.len(),
    {
        proof {
            reveal(matrix_view);
        }
        self.cells.len()
    }

    /// The height of column `x`.
    fn height_at(&self, x: usize) -> (r: usize)
        requires
            x < self@.len(),
        ensures
            r == self@[x as int].len(),
    {
        proof {
            reveal(matrix_view);
        }
        self.cells[x].len()
    }

    /// The live/dead state at column `x`, row `y`. Out-of-range
    /// coordinates are a caller defect, ruled out up front.
    pub fn get_cell_value(&self, x: usize, y: usize) -> (r: bool)
        requires
            x < self@.len(),
            y < self@[x as int].len(),
        ensures
            r == self@[x as int][y as int],
    {
        proof {
            reveal(matrix_view);
        }
        self.cells[x][y]
    }

    /// A deep copy of the matrix: mutating the returned value cannot
    /// touch the grid's own state.
    pub fn get_cells(&self) -> (r: Vec<Vec<bool>>)
        ensures
            r.deep_view() == self@,
    {
        let mut out: Vec<Vec<bool>> = Vec::new();
        let w = self.width();
        let mut x: usize = 0;
        while x < w
            invariant
                x <= w,
                w == self@.len(),
                out@.len() == x as int,
                forall|i: int| 0 <= i < x ==> (#[trigger] out@[i]).deep_view() == self@[i],
            decreases w - x,
        {
            let h = self.height_at(x);
            let mut col: Vec<bool> = Vec::new();
            let mut y: usize = 0;
            while y < h
                invariant
                    x < self@.len(),
                    h == self@[x as int].len(),
                    y <= h,
                    col@ =~= self@[x as int].take(y as int),
                decreases h - y,
            {
                col.push(self.get_cell_value(x, y));
                proof {
                    assert(col@ =~= self@[x as int].take(y + 1));
                }
                y = y + 1;
            }
            proof {
                assert(col@ =~= self@[x as int]);
                assert(col.deep_view() =~= self@[x as int]);
            }
            out.push(col);
            x = x + 1;
        }
        proof {
            assert(out.deep_view() =~= self@);
        }
        out
    }

    /// The states of the cells surrounding `(x, y)`: 8 for an interior
    /// cell, fewer at a border or in a corner, in the fixed order that
    /// `neighbors_of` gives.
    #[verifier::rlimit(100)]
    pub fn get_sur_cells(&self, x: usize, y: usize) -> (r: Vec<bool>)
        requires
            rectangular(self@),
            x < self@.len(),
            y < self@[x as int].len(),
        ensures
            r@ == neighbors_of(self@, x as int, y as int),
    {
        let ghost g = self@;
        let ghost gx = x as int;
        let ghost gy = y as int;
        let mut sur_cells: Vec<bool> = Vec::new();
        let left = x > 0;
        let right = x < self.width() - 1;
        let top = y > 0;
        let bottom = y < self.height_at(x) - 1;
        proof {
            assert(g[gx].len() == g[0].len());
            if x > 0 {
                assert(g[gx - 1].len() == g[0].len());
            }
            if x + 1 < g.len() {
                assert(g[gx + 1].len() == g[0].len());
            }
        }
        let ghost p1 = if left {
            seq![g[gx - 1][gy]]
        } else {
            Seq::<bool>::empty()
        };
        let ghost p2 = if right {
            seq![g[gx + 1][gy]]
        } else {
            Seq::<bool>::empty()
        };
        let ghost p3 = if top {
            seq![g[gx][gy - 1]]
        } else {
            Seq::<bool>::empty()
        };
        let ghost p4 = if bottom {
            seq![g[gx][gy + 1]]
        } else {
            Seq::<bool>::empty()
        };
        let ghost p5 = if left && top {
            seq![g[gx - 1][gy - 1]]
        } else {
            Seq::<bool>::empty()
        };
        let ghost p6 = if right && top {
            seq![g[gx + 1][gy - 1]]
        } else {
            Seq::<bool>::empty()
        };
        let ghost p7 = if left && bottom {
            seq![g[gx - 1][gy + 1]]
        } else {
            Seq::<bool>::empty()
        };
        let ghost p8 = if right && bottom {
            seq![g[gx + 1][gy + 1]]
        } else {
            Seq::<bool>::empty()
        };
        if left {
            let v = self.get_cell_value(x - 1, y);
            proof {
                assert(Seq::<bool>::empty().push(v) =~= seq![v]);
                assert(p1 == seq![v]);
            }
            sur_cells.push(v);
        }
        assert(sur_cells@ == p1);
        if right {
            let v = self.get_cell_value(x + 1, y);
            proof {
                lemma_push_is_add(sur_cells@, v);
                assert(p2 == seq![v]);
            }
            sur_cells.push(v);
        } else {
            proof {
                lemma_add_empty(p1);
            }
        }
        assert(sur_cells@ == p1 + p2);
        if top {
            let v = self.get_cell_value(x, y - 1);
            proof {
                lemma_push_is_add(sur_cells@, v);
                assert(p3 == seq![v]);
            }
            sur_cells.push(v);
        } else {
            proof {
                lemma_add_empty(p1 + p2);
            }
        }
        assert(sur_cells@ == p1 + p2 + p3);
        if bottom {
            let v = self.get_cell_value(x, y + 1);
            proof {
                lemma_push_is_add(sur_cells@, v);
                assert(p4 == seq![v]);
            }
            sur_cells.push(v);
        } else {
            proof {
                lemma_add_empty(p1 + p2 + p3);
            }
        }
        assert(sur_cells@ == p1 + p2 + p3 + p4);
        if left && top {
            let v = self.get_cell_value(x - 1, y - 1);
            proof {
                lemma_push_is_add(sur_cells@, v);
                assert(p5 == seq![v]);
            }
            sur_cells.push(v);
        } else {
            proof {
                lemma_add_empty(p1 + p2 + p3 + p4);
            }
        }
        assert(sur_cells@ == p1 + p2 + p3 + p4 + p5);
        if right && top {
            let v = self.get_cell_value(x + 1, y - 1);
            proof {
                lemma_push_is_add(sur_cells@, v);
                assert(p6 == seq![v]);
            }
            sur_cells.push(v);
        } else {
            proof {
                lemma_add_empty(p1 + p2 + p3 + p4 + p5);
            }
        }
        assert(sur_cells@ == p1 + p2 + p3 + p4 + p5 + p6);
        if left && bottom {
            let v = self.get_cell_value(x - 1, y + 1);
            proof {
                lemma_push_is_add(sur_cells@, v);
                assert(p7 == seq![v]);
            }
            sur_cells.push(v);
        } else {
            proof {
                lemma_add_empty(p1 + p2 + p3 + p4 + p5 + p6);
            }
        }
        assert(sur_cells@ == p1 + p2 + p3 + p4 + p5 + p6 + p7);
        if right && bottom {
            let v = self.get_cell_value(x + 1, y + 1);
            proof {
                lemma_push_is_add(sur_cells@, v);
                assert(p8 == seq![v]);
            }
            sur_cells.push(v);
        } else {
            proof {
                lemma_add_empty(p1 + p2 + p3 + p4 + p5 + p6 + p7);
            }
        }
        assert(sur_cells@ == p1 + p2 + p3 + p4 + p5 + p6 + p7 + p8);
        proof {
            assert(neighbors_of(g, gx, gy) == p1 + p2 + p3 + p4 + p5 + p6 + p7 + p8);
        }
        sur_cells
    }

    /// The next generation: the rule applied to every cell, each read
    /// from the same frozen snapshot of the current matrix. The result
    /// has exactly the grid's dimensions.
    pub fn next_generation(&self) -> (r: Vec<Vec<bool>>)
        requires
            rectangular(self@),
        ensures
            r.deep_view().len() == self@.len(),
            forall|x: int|
                0 <= x < self@.len() ==> (#[trigger] r.deep_view()[x]).len() == self@[x].len(),
            forall|x: int, y: int|
                0 <= x < self@.len() && 0 <= y < self@[x].len()
                    ==> (#[trigger] r.deep_view()[x][y]) == rule::next_state(
                    self@[x][y],
                    rule::count_live(neighbors_of(self@, x, y)),
                ),
    {
        let mut out: Vec<Vec<bool>> = Vec::new();
        let w = self.width();
        let mut x: usize = 0;
        while x < w
            invariant
                rectangular(self@),
                w == self@.len(),
                x <= w,
                out@.len() == x as int,
                forall|i: int|
                    0 <= i < x ==> (#[trigger] out@[i]).deep_view().len() == self@[i].len(),
                forall|i: int, j: int|
                    0 <= i < x && 0 <= j < self@[i].len()
                        ==> (#[trigger] out@[i].deep_view()[j]) == rule::next_state(
                        self@[i][j],
                        rule::count_live(neighbors_of(self@, i, j)),
                    ),
            decreases w - x,
        {
            let h = self.height_at(x);
            let mut col: Vec<bool> = Vec::new();
            let mut y: usize = 0;
            while y < h
                invariant
                    rectangular(self@),
                    x < self@.len(),
                    h == self@[x as int].len(),
                    y <= h,
                    col@.len() == y as int,
                    forall|j: int|
                        0 <= j < y ==> (#[trigger] col@[j]) == rule::next_state(
                            self@[x as int][j],
                            rule::count_live(neighbors_of(self@, x as int, j)),
                        ),
                decreases h - y,
            {
                let alive = self.get_cell_value(x, y);
                let sur = self.get_sur_cells(x, y);
                col.push(rule::Cell::new_state(alive, sur));
                y = y + 1;
            }
            out.push(col);
            x = x + 1;
        }
        out
    }

    /// One tick: computes the next generation from a frozen snapshot of
    /// the whole matrix and swaps it in atomically, never mutating a
    /// cell in place mid-scan.
    pub fn step(&mut self)
        requires
            rectangular(old(self)@),
        ensures
            final(self)@.len() == old(self)@.len(),
            forall|x: int|
                0 <= x < old(self)@.len() ==> (#[trigger] final(self)@[x]).len() == old(
                    self,
                )@[x].len(),
            forall|x: int, y: int|
                0 <= x < old(self)@.len() && 0 <= y < old(self)@[x].len()
                    ==> (#[trigger] final(self)@[x][y]) == rule::next_state(
                    old(self)@[x][y],
                    rule::count_live(neighbors_of(old(self)@, x, y)),
                ),
    {
        let next = self.next_generation();
        self.set_cells(next);
    }
}

/// At an interior coordinate every one of the 8 surrounding cells
/// exists, so the neighborhood has exactly 8 entries.
pub proof fn lemma_interior_has_eight_neighbors(g: Seq<Seq<bool>>, x: int, y: int)
    requires
        rectangular(g),
        0 < x < g.len() - 1,
        0 < y < g[x].len() - 1,
    ensures
        neighbors_of(g, x, y).len() == 8,
{
}

/// At a border coordinate that is not a corner exactly one side is cut
/// off, leaving a neighborhood of exactly 5 entries.
pub proof fn lemma_edge_has_five_neighbors(g: Seq<Seq<bool>>, x: int, y: int)
    requires
        rectangular(g),
        0 <= x < g.len(),
        0 <= y < g[x].len(),
        ((x == 0 || x == g.len() - 1) && g.len() >= 2 && 0 < y < g[x].len() - 1) || ((y == 0 || y
            == g[x].len() - 1) && g[x].len() >= 2 && 0 < x < g.len() - 1),
    ensures
        neighbors_of(g, x, y).len() == 5,
{
}

/// At a corner coordinate two sides are cut off, leaving a
/// neighborhood of exactly 3 entries.
pub proof fn lemma_corner_has_three_neighbors(g: Seq<Seq<bool>>, x: int, y: int)
    requires
        rectangular(g),
        0 <= x < g.len(),
        0 <= y < g[x].len(),
        x == 0 || x == g.len() - 1,
        y == 0 || y == g[x].len() - 1,
        g.len() >= 2,
        g[x].len() >= 2,
    ensures
        neighbors_of(g, x, y).len() == 3,
{
}

/// On a fully dead grid every neighborhood counts zero live cells.
proof fn lemma_dead_neighborhood_count(g: Seq<Seq<bool>>, x: int, y: int)
    requires
        rectangular(g),
        0 <= x < g.len(),
        0 <= y < g[x].len(),
        forall|i: int, j: int| 0 <= i < g.len() && 0 <= j < g[i].len() ==> !(#[trigger] g[i][j]),
    ensures
        rule::count_live(neighbors_of(g, x, y)) == 0,
{
    assert(g[x].len() == g[0].len());
    if x > 0 {
        assert(g[x - 1].len() == g[0].len());
    }
    if x + 1 < g.len() {
        assert(g[x + 1].len() == g[0].len());
    }
    let left = x > 0;
    let right = x < g.len() - 1;
    let top = y > 0;
    let bottom = y < g[x].len() - 1;
    let p1 = if left { seq![g[x - 1][y]] } else { Seq::<bool>::empty() };
    let p2 = if right { seq![g[x + 1][y]] } else { Seq::<bool>::empty() };
    let p3 = if top { seq![g[x][y - 1]] } else { Seq::<bool>::empty() };
    let p4 = if bottom { seq![g[x][y + 1]] } else { Seq::<bool>::empty() };
    let p5 = if left && top { seq![g[x - 1][y - 1]] } else { Seq::<bool>::empty() };
    let p6 = if right && top { seq![g[x + 1][y - 1]] } else { Seq::<bool>::empty() };
    let p7 = if left && bottom { seq![g[x - 1][y + 1]] } else { Seq::<bool>::empty() };
    let p8 = if right && bottom { seq![g[x + 1][y + 1]] } else { Seq::<bool>::empty() };
    rule::lemma_count_live_empty();
    rule::lemma_count_live_single(false);
    assert(rule::count_live(p1) == 0);
    assert(rule::count_live(p2) == 0);
    assert(rule::count_live(p3) == 0);
    assert(rule::count_live(p4) == 0);
    assert(rule::count_live(p5) == 0);
    assert(rule::count_live(p6) == 0);
    assert(rule::count_live(p7) == 0);
    assert(rule::count_live(p8) == 0);
    rule::lemma_count_live_add(p1, p2);
    rule::lemma_count_live_add(p1 + p2, p3);
    rule::lemma_count_live_add(p1 + p2 + p3, p4);
    rule::lemma_count_live_add(p1 + p2 + p3 + p4, p5);
    rule::lemma_count_live_add(p1 + p2 + p3 + p4 + p5, p6);
    rule::lemma_count_live_add(p1 + p2 + p3 + p4 + p5 + p6, p7);
    rule::lemma_count_live_add(p1 + p2 + p3 + p4 + p5 + p6 + p7, p8);
    assert(neighbors_of(g, x, y) == p1 + p2 + p3 + p4 + p5 + p6 + p7 + p8);
}

/// A fully dead grid yields a fully dead next generation: with every
/// neighbor dead, no cell survives and no cell is born.
pub proof fn lemma_dead_grid_stays_dead(g: Seq<Seq<bool>>)
    requires
        rectangular(g),
        forall|i: int, j: int| 0 <= i < g.len() && 0 <= j < g[i].len() ==> !(#[trigger] g[i][j]),
    ensures
        forall|x: int, y: int|
            0 <= x < g.len() && 0 <= y < g[x].len() ==> !rule::next_state(
                g[x][y],
                rule::count_live(#[trigger] neighbors_of(g, x, y)),
            ),
{
    assert forall|x: int, y: int|
        0 <= x < g.len() && 0 <= y < g[x].len() implies !rule::next_state(
        g[x][y],
        rule::count_live(#[trigger] neighbors_of(g, x, y)),
    ) by {
        lemma_dead_neighborhood_count(g, x, y);
    }
}

} // verus!
