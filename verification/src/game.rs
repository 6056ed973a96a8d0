//! Conway's Game of Life on a flat, row-major grid of boolean cells.
//!
//! The grid holds `width * height` sub-cells addressed as
//! `index = x + y * width`. The transition rule is the standard B3/S23
//! rule: a live cell survives with 2 or 3 live neighbors, a dead cell
//! is born with exactly 3, and neighborhoods are clamped at the edges
//! (no wraparound).

use rand::Rng;
use vstd::prelude::*;
use vstd::pervasive::VecAdditionalExecFns;

verus! {

/// Numerator of the seeding density: each cell starts alive with
/// probability `DENSITY_NUM / DENSITY_DEN`.
pub const DENSITY_NUM: u32 = 7;

/// Denominator of the seeding density.
pub const DENSITY_DEN: u32 = 10;

/// A cell of the grid, addressed by `(x, y)` with `0 <= x < w` and
/// `0 <= y < h`, is alive. Out-of-bounds coordinates are never alive,
/// which is what clamps neighborhoods at the edges.
pub open spec fn alive(g: Seq<bool>, w: int, h: int, x: int, y: int) -> bool {
    0 <= x < w && 0 <= y < h && g[x + y * w]
}

/// The number of live cells in the 3x3 Moore neighborhood of `(x, y)`,
/// excluding the center. Each of the eight surrounding coordinates
/// contributes one when it lies inside the grid and is alive.
pub open spec fn neighbor_count(g: Seq<bool>, w: int, h: int, x: int, y: int) -> int {
    (if alive(g, w, h, x - 1, y - 1) { 1int } else { 0int })
    + (if alive(g, w, h, x, y - 1) { 1int } else { 0int })
    + (if alive(g, w, h, x + 1, y - 1) { 1int } else { 0int })
    + (if alive(g, w, h, x - 1, y) { 1int } else { 0int })
    + (if alive(g, w, h, x + 1, y) { 1int } else { 0int })
    + (if alive(g, w, h, x - 1, y + 1) { 1int } else { 0int })
    + (if alive(g, w, h, x, y + 1) { 1int } else { 0int })
    + (if alive(g, w, h, x + 1, y + 1) { 1int } else { 0int })
}

/// The B3/S23 rule for one cell: `c` is the cell's current state and
/// `n` its live-neighbor count.
pub open spec fn life_rule(c: bool, n: int) -> bool {
    if c {
        n == 2 || n == 3
    } else {
        n == 3
    }
}

/// The state of the cell `(x, y)` in the next generation.
pub open spec fn next_cell(g: Seq<bool>, w: int, h: int, x: int, y: int) -> bool {
    life_rule(alive(g, w, h, x, y), neighbor_count(g, w, h, x, y))
}

/// One whole generation: the grid obtained by applying the rule to
/// every cell of `g` at once.
pub open spec fn step_spec(g: Seq<bool>, w: int, h: int) -> Seq<bool> {
    Seq::new((w * h) as nat, |i: int| next_cell(g, w, h, i % w, i / w))
}

/// Row-major addressing is injective on in-bounds coordinates: two
/// distinct cells never share a flat index.
pub proof fn lemma_index_injective(w: int, x1: int, y1: int, x2: int, y2: int)
    requires
        0 <= x1 < w,
        0 <= x2 < w,
        x1 + y1 * w == x2 + y2 * w,
    ensures
        x1 == x2,
        y1 == y2,
{
    assert(x1 == x2 && y1 == y2) by (nonlinear_arith)
        requires
            0 <= x1 < w,
            0 <= x2 < w,
            x1 + y1 * w == x2 + y2 * w,
    ;
}

/// An in-bounds coordinate has an in-range flat index.
pub proof fn lemma_index_bound(w: int, h: int, x: int, y: int)
    requires
        0 <= x < w,
        0 <= y < h,
    ensures
        0 <= x + y * w < w * h,
{
    assert(0 <= x + y * w < w * h) by (nonlinear_arith)
        requires
            0 <= x < w,
            0 <= y < h,
    ;
}

/// The simulation state: a `width x height` grid of boolean sub-cells,
/// stored flat in row-major order.
pub struct GameOfLife {
    pub size: (usize, usize),
    pub grid: Vec<bool>,
}

impl GameOfLife {
    /// The grid's width in sub-cells.
    pub open spec fn width(&self) -> int {
        self.size.0 as int
    }

    /// The grid's height in sub-cells.
    pub open spec fn height(&self) -> int {
        self.size.1 as int
    }

    /// The cells as a sequence, row-major.
    pub open spec fn cells(&self) -> Seq<bool> {
        self.grid@
    }

    /// The grid always holds exactly `width * height` cells.
    pub open spec fn wf(&self) -> bool {
        self.grid@.len() == self.width() * self.height()
    }

    /// The cell at `(x, y)`, for in-bounds coordinates.
    pub open spec fn at(&self, x: int, y: int) -> bool {
        self.cells()[x + y * self.width()]
    }

    /// Allocates an all-dead grid of `size.0 * size.1` cells.
    pub fn new(size: (usize, usize)) -> (g: GameOfLife)
        requires
            size.0 * size.1 <= usize::MAX,
        ensures
            g.wf(),
            g.size == size,
            g.cells().len() == size.0 * size.1,
            forall|k: int| 0 <= k < g.cells().len() ==> !g.cells()[k],
    {
        let n = size.0 * size.1;
        let mut grid: Vec<bool> = Vec::new();
        let mut i: usize = 0;
        while i < n
            invariant
                i <= n,
                grid@.len() == i,
                forall|k: int| 0 <= k < i ==> !grid@[k],
            decreases n - i,
        {
            grid.push(false);
            i = i + 1;
        }
        GameOfLife { size, grid }
    }

    /// The grid's dimensions `(width, height)` in sub-cells.
    pub fn size(&self) -> (s: (usize, usize))
        ensures
            s == self.size,
    {
        self.size
    }

    /// The cells as a flat row-major slice.
    pub fn surface(&self) -> (s: &[bool])
        ensures
            s@ == self.cells(),
    {
        self.grid.as_slice()
    }

    /// Writes the cell at `(x, y)`.
    pub fn set(&mut self, x: usize, y: usize, value: bool)
        requires
            old(self).wf(),
            x < old(self).width(),
            y < old(self).height(),
        ensures
            final(self).wf(),
            final(self).size == old(self).size,
            final(self).cells() == old(self).cells().update(x + y * old(self).width(), value),
    {
        let len = self.grid.len();
        proof {
            lemma_index_bound(self.width(), self.height(), x as int, y as int);
            assert(x + y * self.width() < len);
        }
        let idx = x + y * self.size.0;
        self.grid.set(idx, value);
    }

    /// Reads the cell at `(x, y)`.
    pub fn get(&self, x: usize, y: usize) -> (c: bool)
        requires
            self.wf(),
            x < self.width(),
            y < self.height(),
        ensures
            c == self.at(x as int, y as int),
            c == alive(self.cells(), self.width(), self.height(), x as int, y as int),
    {
        let len = self.grid.len();
        proof {
            lemma_index_bound(self.width(), self.height(), x as int, y as int);
            assert(x + y * self.width() < len);
        }
        self.grid[x + y * self.size.0]
    }

    /// Counts the live cells among the up-to-eight in-bounds neighbors
    /// of `(x, y)`, never counting `(x, y)` itself.
    pub fn count_neighbors(&self, x: usize, y: usize) -> (count: usize)
        requires
            self.wf(),
            x < self.width(),
            y < self.height(),
        ensures
            count == neighbor_count(self.cells(), self.width(), self.height(), x as int, y as int),
    {
        let mut count: usize = 0;
        if x > 0 && y > 0 && self.get(x - 1, y - 1) {
            count = count + 1;
        }
        if y > 0 && self.get(x, y - 1) {
            count = count + 1;
        }
        if x + 1 < self.size.0 && y > 0 && self.get(x + 1, y - 1) {
            count = count + 1;
        }
        if x > 0 && self.get(x - 1, y) {
            count = count + 1;
        }
        if x + 1 < self.size.0 && self.get(x + 1, y) {
            count = count + 1;
        }
        if x > 0 && y + 1 < self.size.1 && self.get(x - 1, y + 1) {
            count = count + 1;
        }
        if y + 1 < self.size.1 && self.get(x, y + 1) {
            count = count + 1;
        }
        if x + 1 < self.size.0 && y + 1 < self.size.1 && self.get(x + 1, y + 1) {
            count = count + 1;
        }
        count
    }

    /// Advances the grid by one generation: computes the rule for every
    /// cell into a fresh buffer from the unchanged current generation,
    /// then swaps the buffer in.
    pub fn step(&mut self)
        requires
            old(self).wf(),
        ensures
            final(self).wf(),
            final(self).size == old(self).size,
            final(self).cells() == step_spec(old(self).cells(), old(self).width(), old(self).height()),
            forall|x: int, y: int|
                0 <= x < old(self).width() && 0 <= y < old(self).height()
                    ==> final(self).at(x, y) == next_cell(
                        old(self).cells(),
                        old(self).width(),
                        old(self).height(),
                        x,
                        y,
                    ),
    {
        let ghost g0 = self.cells();
        let ghost w = self.width();
        let ghost h = self.height();
        let mut next: Vec<bool> = Vec::new();
        let mut y: usize = 0;
        while y < self.size.1
            invariant
                self == old(self),
                self.wf(),
                y <= self.height(),
                g0 == self.cells(),
                w == self.width(),
                h == self.height(),
                next@.len() == y * w,
                forall|k: int| 0 <= k < next@.len() ==> next@[k] == step_spec(g0, w, h)[k],
            decreases self.size.1 - y,
        {
            let mut x: usize = 0;
            while x < self.size.0
                invariant
                    self == old(self),
                    self.wf(),
                    x <= self.width(),
                    y < self.height(),
                    g0 == self.cells(),
                    w == self.width(),
                    h == self.height(),
                    next@.len() == y * w + x,
                    forall|k: int| 0 <= k < next@.len() ==> next@[k] == step_spec(g0, w, h)[k],
                decreases self.size.0 - x,
            {
                let neighbors = self.count_neighbors(x, y);
                let cell = self.get(x, y);
                let next_value = if cell {
                    neighbors == 2 || neighbors == 3
                } else {
                    neighbors == 3
                };
                proof {
                    lemma_index_bound(w, h, x as int, y as int);
                    lemma_step_spec_at(g0, w, h, x as int, y as int);
                    assert(next@.len() == x + y * w);
                }
                next.push(next_value);
                x = x + 1;
            }
            proof {
                assert((y + 1) * w == y * w + w) by (nonlinear_arith);
            }
            y = y + 1;
        }
        proof {
            assert(next@.len() == h * w);
            assert(step_spec(g0, w, h).len() == (w * h) as nat);
            assert(next@ =~= step_spec(g0, w, h));
            assert forall|x: int, y: int| 0 <= x < w && 0 <= y < h implies step_spec(
                g0,
                w,
                h,
            )[x + y * w] == next_cell(g0, w, h, x, y) by {
                lemma_step_spec_at(g0, w, h, x, y);
            }
        }
        self.grid = next;
    }
}

/// Relies on rand's `Rng::gen_ratio` on the thread-local generator: a
/// Bernoulli draw that is true with probability `num / den`. It panics
/// when `num > den` or `den == 0`, so those inputs are excluded; rand
/// documents that `num == den` always yields true and `num == 0`
/// always false, and nothing more holds of a random draw.
#[verifier::external_body]
fn random_ratio(num: u32, den: u32) -> (r: bool)
    requires
        0 < den,
        num <= den,
    ensures
        num == den ==> r,
        num == 0 ==> !r,
{
    rand::thread_rng().gen_ratio(num, den)
}

impl GameOfLife {
    /// Re-seeds every cell independently at random, alive with
    /// probability `DENSITY_NUM / DENSITY_DEN`. The dimensions and the
    /// cell count are kept; the cell values are not reproducible.
    pub fn init(&mut self)
        requires
            old(self).wf(),
        ensures
            final(self).wf(),
            final(self).size == old(self).size,
    {
        let mut y: usize = 0;
        while y < self.size.1
            invariant
                self.wf(),
                self.size == old(self).size,
            decreases self.size.1 - y,
        {
            let mut x: usize = 0;
            while x < self.size.0
                invariant
                    self.wf(),
                    self.size == old(self).size,
                    y < self.height(),
                decreases self.size.0 - x,
            {
                let value = random_ratio(DENSITY_NUM, DENSITY_DEN);
                self.set(x, y, value);
                x = x + 1;
            }
            y = y + 1;
        }
    }
}

/// A cell of `step_spec`'s result, read back by coordinates, is the
/// rule applied at those coordinates.
pub proof fn lemma_step_spec_at(g: Seq<bool>, w: int, h: int, x: int, y: int)
    requires
        0 <= x < w,
        0 <= y < h,
    ensures
        step_spec(g, w, h)[x + y * w] == next_cell(g, w, h, x, y),
{
    lemma_index_bound(w, h, x, y);
    let i = x + y * w;
    vstd::arithmetic::div_mod::lemma_fundamental_div_mod_converse(i, w, y, x);
}

/// The neighbor count never reads the center cell: writing any value
/// into `(x, y)` leaves the count of `(x, y)` unchanged, so the count
/// cannot include the center.
pub proof fn lemma_neighbor_count_ignores_center(
    g: Seq<bool>,
    w: int,
    h: int,
    x: int,
    y: int,
    v: bool,
)
    requires
        0 <= x < w,
        0 <= y < h,
        g.len() == w * h,
    ensures
        neighbor_count(g.update(x + y * w, v), w, h, x, y) == neighbor_count(g, w, h, x, y),
{
    let g2 = g.update(x + y * w, v);
    lemma_index_bound(w, h, x, y);
    assert forall|i: int, j: int|
        0 <= i < w && 0 <= j < h && !(i == x && j == y) implies alive(g2, w, h, i, j) == alive(
        g,
        w,
        h,
        i,
        j,
    ) by {
        lemma_index_bound(w, h, i, j);
        if i + j * w == x + y * w {
            lemma_index_injective(w, i, j, x, y);
        }
    }
}

/// The neighbor count reads nothing but the eight neighbor
/// coordinates: whenever two grids agree on the liveness of every
/// coordinate other than the center — and out-of-bounds coordinates
/// are never alive — their counts agree.
pub proof fn lemma_neighbor_count_reads_only_neighbors(
    g1: Seq<bool>,
    g2: Seq<bool>,
    w: int,
    h: int,
    x: int,
    y: int,
)
    requires
        forall|i: int, j: int|
            !(i == x && j == y) ==> alive(g1, w, h, i, j) == alive(g2, w, h, i, j),
    ensures
        neighbor_count(g1, w, h, x, y) == neighbor_count(g2, w, h, x, y),
{
}

/// The neighbor count is bounded by the eight cells of the Moore
/// neighborhood.
pub proof fn lemma_neighbor_count_bounds(g: Seq<bool>, w: int, h: int, x: int, y: int)
    ensures
        0 <= neighbor_count(g, w, h, x, y) <= 8,
{
}

/// No spontaneous life: a generation with every cell dead steps to a
/// generation with every cell dead.
pub proof fn lemma_dead_grid_stays_dead(g: Seq<bool>, w: int, h: int)
    requires
        forall|k: int| 0 <= k < g.len() ==> !g[k],
        g.len() == w * h,
    ensures
        forall|k: int| 0 <= k < step_spec(g, w, h).len() ==> !step_spec(g, w, h)[k],
{
    assert forall|k: int| 0 <= k < step_spec(g, w, h).len() implies !step_spec(g, w, h)[k] by {
        let x = k % w;
        let y = k / w;
        assert forall|i: int, j: int| !alive(g, w, h, i, j) by {
            if 0 <= i < w && 0 <= j < h {
                lemma_index_bound(w, h, i, j);
            }
        }
        assert(neighbor_count(g, w, h, x, y) == 0);
    }
}

/// Stepping is a pure function of the current generation: two grids
/// holding the same cells step to the same cells, with no hidden
/// source of randomness.
pub proof fn lemma_step_deterministic(g1: Seq<bool>, g2: Seq<bool>, w: int, h: int)
    requires
        g1 == g2,
    ensures
        step_spec(g1, w, h) == step_spec(g2, w, h),
{
}

/// Underpopulation: a live cell with no live neighbor is dead in the
/// next generation.
pub proof fn lemma_underpopulation(g: Seq<bool>, w: int, h: int, x: int, y: int)
    requires
        0 <= x < w,
        0 <= y < h,
        alive(g, w, h, x, y),
        neighbor_count(g, w, h, x, y) == 0,
    ensures
        !step_spec(g, w, h)[x + y * w],
{
    lemma_step_spec_at(g, w, h, x, y);
}

/// Overpopulation: a live cell with exactly four live neighbors is
/// dead in the next generation.
pub proof fn lemma_overpopulation(g: Seq<bool>, w: int, h: int, x: int, y: int)
    requires
        0 <= x < w,
        0 <= y < h,
        alive(g, w, h, x, y),
        neighbor_count(g, w, h, x, y) == 4,
    ensures
        !step_spec(g, w, h)[x + y * w],
{
    lemma_step_spec_at(g, w, h, x, y);
}

} // verus!
