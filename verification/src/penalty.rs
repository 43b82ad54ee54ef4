//! The penalty score that ranks masked symbols: long runs, 2x2 blocks,
//! finder-like patterns and dark/light imbalance.
use vstd::prelude::*;
use crate::qrcode::{lsb_bit, QrCode};

verus! {

/// Penalty for a run of five modules of one colour (and 1 per extra module).
pub const PENALTY_N1: i32 = 3;

/// Penalty for each 2x2 block of one colour.
pub const PENALTY_N2: i32 = 3;

/// Penalty for each finder-like pattern.
pub const PENALTY_N3: i32 = 40;

/// Penalty for each 5% step of dark/light imbalance beyond the first.
pub const PENALTY_N4: i32 = 10;

/// Longest run the finder-pattern detector records: four times it fits an
/// `i32`.
pub const MAX_RUN: i32 = 0x1FFF_FFFF;

/// The run history after a run of length `run` ends: the newest run goes
/// first (widened by the symbol size for the first run of a line, which
/// touches the light border) and the oldest drops out.
pub open spec fn spec_add_history(qr_size: int, h: Seq<int>, run: int) -> Seq<int> {
    let r = if h[0] == 0 {
        run + qr_size
    } else {
        run
    };
    seq![r] + h.take(6)
}

/// Number of finder-like patterns (1:1:3:1:1 with four light modules on one
/// side) that the run history ends with: 0, 1 or 2.
pub open spec fn spec_count_patterns(h: Seq<int>) -> int {
    let n = h[1];
    let core = n > 0 && h[2] == n && h[3] == n * 3 && h[4] == n && h[5] == n;
    (if core && h[0] >= n * 4 && h[6] >= n {
        1int
    } else {
        0int
    }) + (if core && h[6] >= n * 4 && h[0] >= n {
        1int
    } else {
        0int
    })
}

/// Patterns found once a line ends: the current run ends, and the light
/// border counts as a run as long as the symbol.
pub open spec fn spec_terminate_and_count(qr_size: int, h: Seq<int>, color: bool, run: int) -> int {
    let h1 = if color {
        spec_add_history(qr_size, h, run)
    } else {
        h
    };
    let run1 = if color {
        0
    } else {
        run
    };
    spec_count_patterns(spec_add_history(qr_size, h1, run1 + qr_size))
}

/// State after scanning the first `k` modules of a line: colour of the
/// current run, its length, the run history and the penalty so far.
pub open spec fn line_scan(cells: Seq<bool>, size: int, k: nat) -> (bool, int, Seq<int>, int)
    decreases k,
{
    if k == 0 {
        (false, 0, Seq::new(7, |i: int| 0int), 0)
    } else {
        let (color, run, hist, score) = line_scan(cells, size, (k - 1) as nat);
        let cell = cells[k - 1];
        if cell == color {
            let run2 = run + 1;
            (
                color,
                run2,
                hist,
                score + if run2 == 5 {
                    3int
                } else if run2 > 5 {
                    1int
                } else {
                    0int
                },
            )
        } else {
            let h2 = spec_add_history(size, hist, run);
            (
                cell,
                1,
                h2,
                score + if !color {
                    spec_count_patterns(h2) * 40
                } else {
                    0int
                },
            )
        }
    }
}

/// Length of the run of equal modules that ends at module `i` of a line.
pub open spec fn run_length_at(cells: Seq<bool>, i: int) -> int
    decreases i,
{
    if i <= 0 {
        1
    } else if cells[i] == cells[i - 1] {
        run_length_at(cells, i - 1) + 1
    } else {
        1
    }
}

/// What the module that makes a run `r` long adds to the penalty: 3 for the
/// fifth module, 1 for each one after it; so a maximal run of length
/// `L >= 5` costs `L - 2` in all.
pub open spec fn run_step(r: int) -> int {
    if r == 5 {
        3
    } else if r > 5 {
        1
    } else {
        0
    }
}

/// What a run of `l` modules adds to the penalty, module by module.
pub open spec fn run_cost(l: int) -> int
    decreases l,
{
    if l <= 0 {
        0
    } else {
        run_cost(l - 1) + run_step(l)
    }
}

/// A run of `l >= 5` modules costs `l - 2`; a shorter one costs nothing.
pub proof fn lemma_run_cost(l: int)
    requires
        l >= 0,
    ensures
        run_cost(l) == if l >= 5 {
            l - 2
        } else {
            0
        },
    decreases l,
{
    if l > 0 {
        lemma_run_cost(l - 1);
    }
}

/// The run-length penalty of the first `k` modules of a line.
pub open spec fn run_score(cells: Seq<bool>, k: int) -> int
    decreases k,
{
    if k <= 0 {
        0
    } else {
        run_score(cells, k - 1) + run_step(run_length_at(cells, k - 1))
    }
}

/// The finder-like-pattern penalty of the first `k` modules of a line: 40
/// for each pattern the run history shows when a light run ends.
pub open spec fn pattern_score(cells: Seq<bool>, size: int, k: nat) -> int
    decreases k,
{
    if k == 0 {
        0
    } else {
        let (color, run, hist, score) = line_scan(cells, size, (k - 1) as nat);
        pattern_score(cells, size, (k - 1) as nat) + if cells[k - 1] != color && !color {
            spec_count_patterns(spec_add_history(size, hist, run)) * 40
        } else {
            0int
        }
    }
}

/// The scan's penalty splits into the run-length penalty, stated over run
/// lengths, and the pattern penalty; its current run is the run that ends
/// at the last module scanned.
pub proof fn lemma_line_scan_split(cells: Seq<bool>, size: int, k: nat)
    requires
        k <= cells.len(),
    ensures
        ({
            let (color, run, hist, score) = line_scan(cells, size, k);
            &&& score == run_score(cells, k as int) + pattern_score(cells, size, k)
            &&& k > 0 ==> run == run_length_at(cells, k - 1) && color == cells[k - 1]
        }),
    decreases k,
{
    if k > 0 {
        lemma_line_scan_split(cells, size, (k - 1) as nat);
    }
}

/// Penalty of one line: runs of five or more, and finder-like patterns.
pub open spec fn line_penalty(cells: Seq<bool>, size: int) -> int {
    let (color, run, hist, score) = line_scan(cells, size, cells.len());
    score + spec_terminate_and_count(size, hist, color, run) * 40
}

/// The modules of row `y` of a size-`size` grid `g`.
pub open spec fn row_cells(g: spec_fn(int, int) -> bool, size: int, y: int) -> Seq<bool> {
    Seq::new(size as nat, |x: int| g(x, y))
}

/// The modules of column `x`.
pub open spec fn col_cells(g: spec_fn(int, int) -> bool, size: int, x: int) -> Seq<bool> {
    Seq::new(size as nat, |y: int| g(x, y))
}

/// Sum of the penalties of the first `n` rows.
pub open spec fn rows_penalty(g: spec_fn(int, int) -> bool, size: int, n: int) -> int
    decreases n,
{
    if n <= 0 {
        0
    } else {
        rows_penalty(g, size, n - 1) + line_penalty(row_cells(g, size, n - 1), size)
    }
}

/// Sum of the penalties of the first `n` columns.
pub open spec fn cols_penalty(g: spec_fn(int, int) -> bool, size: int, n: int) -> int
    decreases n,
{
    if n <= 0 {
        0
    } else {
        cols_penalty(g, size, n - 1) + line_penalty(col_cells(g, size, n - 1), size)
    }
}

/// Whether the 2x2 block with top-left module (`x`, `y`) has one colour.
pub open spec fn same_block(g: spec_fn(int, int) -> bool, x: int, y: int) -> bool {
    g(x, y) == g(x + 1, y) && g(x, y) == g(x, y + 1) && g(x, y) == g(x + 1, y + 1)
}

/// Number of one-colour 2x2 blocks in row `y` with left column below `n`.
pub open spec fn blocks_in_row(g: spec_fn(int, int) -> bool, y: int, n: int) -> int
    decreases n,
{
    if n <= 0 {
        0
    } else {
        blocks_in_row(g, y, n - 1) + if same_block(g, n - 1, y) {
            1int
        } else {
            0int
        }
    }
}

/// Number of one-colour 2x2 blocks whose top row is below `n`.
pub open spec fn blocks_upto(g: spec_fn(int, int) -> bool, size: int, n: int) -> int
    decreases n,
{
    if n <= 0 {
        0
    } else {
        blocks_upto(g, size, n - 1) + blocks_in_row(g, n - 1, size - 1)
    }
}

/// Number of dark modules among the first `n` in row-major order.
pub open spec fn grid_dark(g: spec_fn(int, int) -> bool, size: int, n: int) -> int
    decreases n,
{
    if n <= 0 {
        0
    } else {
        grid_dark(g, size, n - 1) + if g((n - 1) % size, (n - 1) / size) {
            1int
        } else {
            0int
        }
    }
}

/// Number of set bits among the first `n` bits.
pub open spec fn count_true(s: Seq<bool>, n: int) -> int
    decreases n,
{
    if n <= 0 {
        0
    } else {
        count_true(s, n - 1) + if s[n - 1] {
            1int
        } else {
            0int
        }
    }
}

/// Penalty for the proportion of dark modules: 10 for each full 5% step
/// away from one half.
pub open spec fn balance_penalty(dark: int, total: int) -> int {
    let d = dark * 20 - total * 10;
    let ad = if d < 0 {
        -d
    } else {
        d
    };
    ((ad + total - 1) / total - 1) * 10
}

/// The penalty score of a size-`size` grid with `dark` dark modules.
pub open spec fn penalty_with_dark(g: spec_fn(int, int) -> bool, size: int, dark: int) -> int {
    rows_penalty(g, size, size) + cols_penalty(g, size, size) + 3 * blocks_upto(g, size, size - 1)
        + balance_penalty(dark, size * size)
}

/// The penalty score of a size-`size` grid.
pub open spec fn spec_penalty(g: spec_fn(int, int) -> bool, size: int) -> int {
    penalty_with_dark(g, size, grid_dark(g, size, size * size))
}

/// Ranges of the scanning state.
pub proof fn lemma_line_scan_bounds(cells: Seq<bool>, size: int, k: nat)
    requires
        1 <= size,
        k <= cells.len() <= size,
    ensures
        ({
            let (color, run, hist, score) = line_scan(cells, size, k);
            &&& hist.len() == 7
            &&& forall|i: int| 0 <= i < 7 ==> 0 <= #[trigger] hist[i] <= 2 * size
            &&& 0 <= run <= k
            &&& k > 0 ==> run >= 1
            &&& 0 <= score <= 80 * k
        }),
    decreases k,
{
    if k > 0 {
        lemma_line_scan_bounds(cells, size, (k - 1) as nat);
        let (color, run, hist, score) = line_scan(cells, size, (k - 1) as nat);
        let h2 = spec_add_history(size, hist, run);
        assert forall|i: int| 0 <= i < 7 implies 0 <= #[trigger] h2[i] <= 2 * size by {
            if i > 0 {
                assert(h2[i] == hist[i - 1]);
            }
        }
    } else {
        let h = Seq::new(7, |i: int| 0int);
        assert forall|i: int| 0 <= i < 7 implies 0 <= #[trigger] h[i] <= 2 * size by {}
    }
}

/// A line's penalty is between 0 and 80 per module plus 80.
pub proof fn lemma_line_penalty_bounds(cells: Seq<bool>, size: int)
    requires
        1 <= size,
        cells.len() == size,
    ensures
        0 <= line_penalty(cells, size) <= 80 * size + 80,
{
    lemma_line_scan_bounds(cells, size, cells.len());
}

/// The run history of the finder-pattern detector of one line.
pub struct FinderPenalty {
    pub qr_size: i32,
    pub run_history: [i32; 7],
}

impl FinderPenalty {
    /// The history as integers.
    pub open spec fn hist(&self) -> Seq<int> {
        self.run_history@.map(|i: int, v: i32| v as int)
    }

    /// The size is that of a `u8`, and every recorded run is at most
    /// `MAX_RUN`, so that four times it fits an `i32`.
    pub open spec fn wf(&self) -> bool {
        &&& 0 <= self.qr_size <= 255
        &&& forall|i: int| 0 <= i < 7 ==> #[trigger] self.run_history@[i] <= MAX_RUN
    }

    pub fn new(size: u8) -> (r: Self)
        ensures
            r.wf(),
            r.qr_size == size,
            r.hist() == Seq::new(7, |i: int| 0int),
    {
        let r = FinderPenalty { qr_size: size as i32, run_history: [0; 7] };
        assert(r.hist() =~= Seq::new(7, |i: int| 0int));
        r
    }

    /// Records the end of a run.
    pub fn add_history(&mut self, currentrunlength: i32)
        requires
            old(self).wf(),
            currentrunlength + old(self).qr_size <= MAX_RUN,
        ensures
            final(self).wf(),
            final(self).qr_size == old(self).qr_size,
            final(self).hist() == spec_add_history(
                old(self).qr_size as int,
                old(self).hist(),
                currentrunlength as int,
            ),
    {
        let ghost h = self.hist();
        let mut run = currentrunlength;
        if self.run_history[0] == 0 {
            run = run + self.qr_size;
        }
        let mut i: usize = 6;
        while i > 0
            invariant
                i <= 6,
                self.qr_size == old(self).qr_size,
                forall|k: int| 0 <= k <= i ==> #[trigger] self.run_history@[k] == old(self).run_history@[k],
                forall|k: int| i < k < 7 ==> #[trigger] self.run_history@[k] == old(self).run_history@[k - 1],
            decreases i,
        {
            self.run_history[i] = self.run_history[i - 1];
            i = i - 1;
        }
        self.run_history[0] = run;
        assert(self.hist() =~= spec_add_history(self.qr_size as int, h, currentrunlength as int));
    }

    /// Number of finder-like patterns the history ends with.
    pub fn count_patterns(&self) -> (r: i32)
        requires
            self.wf(),
        ensures
            r == spec_count_patterns(self.hist()),
            0 <= r <= 2,
    {
        let rh = &self.run_history;
        let n = rh[1];
        let core = n > 0 && rh[2] == n && rh[3] == n * 3 && rh[4] == n && rh[5] == n;
        (if core && rh[0] >= n * 4 && rh[6] >= n {
            1
        } else {
            0
        }) + (if core && rh[6] >= n * 4 && rh[0] >= n {
            1
        } else {
            0
        })
    }

    /// Ends the line: closes the current run and the light border after it,
    /// and counts the patterns.
    pub fn terminate_and_count(self, currentruncolor: bool, currentrunlength: i32) -> (r: i32)
        requires
            self.wf(),
            currentrunlength + 2 * self.qr_size <= MAX_RUN,
        ensures
            r == spec_terminate_and_count(
                self.qr_size as int,
                self.hist(),
                currentruncolor,
                currentrunlength as int,
            ),
            0 <= r <= 2,
    {
        let mut this = self;
        let mut run = currentrunlength;
        if currentruncolor {
            this.add_history(run);
            run = 0;
        }
        run = run + this.qr_size;
        this.add_history(run);
        this.count_patterns()
    }
}

impl QrCode {
    /// The penalty score of the symbol, with every set bit of its buffer
    /// counted as a dark module.
    pub open spec fn penalty_score(&self) -> int {
        penalty_with_dark(self.grid(), self.size as int, count_true(self.bits(), self.bits().len() as int))
    }

    /// Penalty of row `index` (when `horizontal`) or column `index`.
    fn line_penalty_score(&self, index: u8, horizontal: bool) -> (r: i32)
        requires
            self.wf(),
            index < self.size,
        ensures
            r == line_penalty(
                if horizontal {
                    row_cells(self.grid(), self.size as int, index as int)
                } else {
                    col_cells(self.grid(), self.size as int, index as int)
                },
                self.size as int,
            ),
    {
        let size = self.size;
        let ghost cells = if horizontal {
            row_cells(self.grid(), self.size as int, index as int)
        } else {
            col_cells(self.grid(), self.size as int, index as int)
        };
        let mut result: i32 = 0;
        let mut runcolor = false;
        let mut run: i32 = 0;
        let mut runhistory = FinderPenalty::new(size);
        let mut k: u8 = 0;
        while k < size
            invariant
                self.wf(),
                size == self.size,
                index < size,
                cells == if horizontal {
                    row_cells(self.grid(), self.size as int, index as int)
                } else {
                    col_cells(self.grid(), self.size as int, index as int)
                },
                k <= size,
                runhistory.wf(),
                runhistory.qr_size == size,
                (runcolor, run as int, runhistory.hist(), result as int) == line_scan(
                    cells,
                    size as int,
                    k as nat,
                ),
            decreases size - k,
        {
            proof {
                lemma_line_scan_bounds(cells, size as int, k as nat);
                lemma_line_scan_bounds(cells, size as int, (k + 1) as nat);
            }
            let cell = if horizontal {
                self.get_module_bounded(k, index)
            } else {
                self.get_module_bounded(index, k)
            };
            assert(cell == cells[k as int]);
            if cell == runcolor {
                run = run + 1;
                if run == 5 {
                    result = result + PENALTY_N1;
                } else if run > 5 {
                    result = result + 1;
                }
            } else {
                runhistory.add_history(run);
                if !runcolor {
                    result = result + runhistory.count_patterns() * PENALTY_N3;
                }
                runcolor = cell;
                run = 1;
            }
            k = k + 1;
        }
        proof {
            lemma_line_scan_bounds(cells, size as int, size as nat);
        }
        result + runhistory.terminate_and_count(runcolor, run) * PENALTY_N3
    }

    /// Number of dark modules (set bits of the packed buffer).
    fn dark_count(&self) -> (r: u32)
        requires
            self.wf(),
        ensures
            r as int == count_true(self.bits(), self.bits().len() as int),
    {
        let mut count: u32 = 0;
        let mut i: usize = 0;
        proof {
            crate::qrcode::lemma_area_fits(*self);
        }
        while i < self.modules.len()
            invariant
                self.wf(),
                i <= self.modules.len(),
                self.modules.len() * 8 < 177 * 177 + 8,
                count as int == count_true(self.bits(), 8 * i),
                count <= 8 * i,
            decreases self.modules.len() - i,
        {
            let byte = self.modules[i];
            let mut b: u8 = 0;
            while b < 8
                invariant
                    self.wf(),
                    i < self.modules.len(),
                    self.modules.len() * 8 < 177 * 177 + 8,
                    byte == self.modules@[i as int],
                    b <= 8,
                    count as int == count_true(self.bits(), 8 * i + b),
                    count <= 8 * i + b,
                decreases 8 - b,
            {
                let set = (byte >> b) & 1 == 1;
                assert(self.bits()[8 * i + b] == set) by {
                    assert((8 * i + b) / 8 == i as int);
                    assert((8 * i + b) % 8 == b as int);
                }
                if set {
                    count = count + 1;
                }
                b = b + 1;
            }
            i = i + 1;
        }
        count
    }

    /// The penalty score of the symbol; lower is better.
    #[verifier::rlimit(30)]
    pub fn get_penalty_score(&self) -> (r: i32)
        requires
            self.wf(),
        ensures
            r == self.penalty_score(),
            r <= 5_200_000,
    {
        let size = self.size;
        let mut result: i32 = 0;
        let mut y: u8 = 0;
        while y < size
            invariant
                self.wf(),
                size == self.size,
                y <= size,
                result as int == rows_penalty(self.grid(), size as int, y as int),
                0 <= result <= y * 14240,
            decreases size - y,
        {
            proof {
                lemma_line_penalty_bounds(row_cells(self.grid(), size as int, y as int), size as int);
            }
            result = result + self.line_penalty_score(y, true);
            y = y + 1;
        }
        let ghost rows = result as int;
        let mut x: u8 = 0;
        while x < size
            invariant
                self.wf(),
                size == self.size,
                x <= size,
                0 <= rows <= 177 * 14240,
                rows == rows_penalty(self.grid(), size as int, size as int),
                result as int == rows + cols_penalty(self.grid(), size as int, x as int),
                rows <= result <= rows + x * 14240,
            decreases size - x,
        {
            proof {
                lemma_line_penalty_bounds(col_cells(self.grid(), size as int, x as int), size as int);
            }
            result = result + self.line_penalty_score(x, false);
            x = x + 1;
        }
        let ghost lines = result as int;
        let mut y: u8 = 0;
        while y < size - 1
            invariant
                self.wf(),
                size == self.size,
                y <= size - 1,
                size <= 177,
                0 <= lines <= 2 * 177 * 14240,
                lines == rows_penalty(self.grid(), size as int, size as int) + cols_penalty(self.grid(), size as int, size as int),
                result as int == lines + 3 * blocks_upto(self.grid(), size as int, y as int),
                lines <= result <= lines + 531 * (y as int),
            decreases size - 1 - y,
        {
            let ghost before = result as int;
            let mut x: u8 = 0;
            while x < size - 1
                invariant
                    self.wf(),
                    size == self.size,
                    y < size - 1,
                    x <= size - 1,
                    size <= 177,
                    before == lines + 3 * blocks_upto(self.grid(), size as int, y as int),
                    lines <= before <= lines + 531 * (y as int),
                    0 <= lines <= 2 * 177 * 14240,
                    result as int == before + 3 * blocks_in_row(self.grid(), y as int, x as int),
                    before <= result <= before + 3 * (x as int),
                decreases size - 1 - x,
            {
                let color = self.get_module_bounded(x, y);
                if color == self.get_module_bounded(x + 1, y) && color == self.get_module_bounded(
                    x,
                    y + 1,
                ) && color == self.get_module_bounded(x + 1, y + 1) {
                    result = result + PENALTY_N2;
                }
                x = x + 1;
            }
            assert(result <= before + 531);
            assert(blocks_upto(self.grid(), size as int, y + 1) == blocks_upto(self.grid(), size as int, y as int) + blocks_in_row(self.grid(), y as int, size - 1));
            y = y + 1;
        }
        assert(result <= lines + 531 * 177);
        let dark = self.dark_count() as i32;
        proof {
            crate::qrcode::lemma_area_fits(*self);
            let n = self.bits().len() as int;
            lemma_count_true_bound(self.bits(), n);
        }
        let total = (size as i32) * (size as i32);
        let d = dark * 20 - total * 10;
        let ad = if d < 0 {
            -d
        } else {
            d
        };
        proof {
            assert(total as int == (size as int) * (size as int));
            assert(441 <= total <= 31329) by (nonlinear_arith)
                requires
                    21 <= size <= 177,
                    total as int == (size as int) * (size as int),
            ;
            assert(0 <= ad <= 31337 * 20);
            let num = (ad + total - 1) as int;
            assert(0 <= num / (total as int) <= 3000) by (nonlinear_arith)
                requires
                    0 <= num <= 31329 * 40,
                    441 <= total,
            ;
        }
        let k = (ad + total - 1) / total - 1;
        result + k * PENALTY_N4
    }
}

/// A count of set bits is at most the number of bits counted.
pub proof fn lemma_count_true_bound(s: Seq<bool>, n: int)
    requires
        n >= 0,
    ensures
        0 <= count_true(s, n) <= n,
    decreases n,
{
    if n > 0 {
        lemma_count_true_bound(s, n - 1);
    }
}

/// Bounds on the summed line penalties.
pub proof fn lemma_lines_penalty_bounds(g: spec_fn(int, int) -> bool, size: int, n: int)
    requires
        1 <= size,
        0 <= n,
    ensures
        0 <= rows_penalty(g, size, n) <= n * (80 * size + 80),
        0 <= cols_penalty(g, size, n) <= n * (80 * size + 80),
    decreases n,
{
    if n > 0 {
        lemma_lines_penalty_bounds(g, size, n - 1);
        lemma_line_penalty_bounds(row_cells(g, size, n - 1), size);
        lemma_line_penalty_bounds(col_cells(g, size, n - 1), size);
        assert(n * (80 * size + 80) == (n - 1) * (80 * size + 80) + (80 * size + 80)) by (nonlinear_arith);
    }
}

/// Bounds on the number of one-colour blocks in a row.
pub proof fn lemma_blocks_in_row_bounds(g: spec_fn(int, int) -> bool, y: int, n: int)
    requires
        0 <= n,
    ensures
        0 <= blocks_in_row(g, y, n) <= n,
    decreases n,
{
    if n > 0 {
        lemma_blocks_in_row_bounds(g, y, n - 1);
    }
}

/// Bounds on the number of one-colour blocks.
pub proof fn lemma_blocks_bounds(g: spec_fn(int, int) -> bool, size: int, n: int)
    requires
        1 <= size,
        0 <= n,
    ensures
        0 <= blocks_upto(g, size, n) <= n * (size - 1),
    decreases n,
{
    if n > 0 {
        lemma_blocks_bounds(g, size, n - 1);
        lemma_blocks_in_row_bounds(g, n - 1, size - 1);
        assert(n * (size - 1) == (n - 1) * (size - 1) + (size - 1)) by (nonlinear_arith);
    }
}

/// A count of dark modules is at most the number of modules counted.
pub proof fn lemma_grid_dark_bounds(g: spec_fn(int, int) -> bool, size: int, n: int)
    requires
        0 <= n,
    ensures
        0 <= grid_dark(g, size, n) <= n,
    decreases n,
{
    if n > 0 {
        lemma_grid_dark_bounds(g, size, n - 1);
    }
}

/// The penalty of a grid of a symbol's size is between -10 and 5,200,000.
pub proof fn lemma_penalty_bounds(g: spec_fn(int, int) -> bool, size: int)
    requires
        21 <= size <= 177,
    ensures
        -10 <= spec_penalty(g, size) <= 5_200_000,
{
    let total = size * size;
    assert(441 <= total <= 31329) by (nonlinear_arith)
        requires
            21 <= size <= 177,
            total == size * size,
    ;
    lemma_lines_penalty_bounds(g, size, size);
    lemma_blocks_bounds(g, size, size - 1);
    lemma_grid_dark_bounds(g, size, total);
    assert(size * (80 * size + 80) <= 177 * 14240) by (nonlinear_arith)
        requires
            21 <= size <= 177,
    ;
    assert((size - 1) * (size - 1) <= 176 * 176) by (nonlinear_arith)
        requires
            21 <= size <= 177,
    ;
    let dark = grid_dark(g, size, total);
    let d = dark * 20 - total * 10;
    let ad = if d < 0 {
        -d
    } else {
        d
    };
    assert(0 <= ad <= total * 10);
    assert(0 <= (ad + total - 1) / total <= 11) by (nonlinear_arith)
        requires
            0 <= ad <= total * 10,
            441 <= total,
    ;
}

/// The grid `g` mirrored along its main diagonal.
pub open spec fn transposed(g: spec_fn(int, int) -> bool) -> spec_fn(int, int) -> bool {
    |x: int, y: int| g(y, x)
}

/// Sum of `f(x, y)` over `x < n`.
pub open spec fn sum_row(f: spec_fn(int, int) -> int, y: int, n: int) -> int
    decreases n,
{
    if n <= 0 {
        0
    } else {
        sum_row(f, y, n - 1) + f(n - 1, y)
    }
}

/// Sum of `f(x, y)` over `x < a` and `y < b`, row by row.
pub open spec fn sum_grid(f: spec_fn(int, int) -> int, a: int, b: int) -> int
    decreases b,
{
    if b <= 0 {
        0
    } else {
        sum_grid(f, a, b - 1) + sum_row(f, b - 1, a)
    }
}

/// `f` with its arguments swapped.
pub open spec fn swapped(f: spec_fn(int, int) -> int) -> spec_fn(int, int) -> int {
    |x: int, y: int| f(y, x)
}

/// Adding a column to a grid sum adds that column's sum.
proof fn lemma_sum_grid_add_column(f: spec_fn(int, int) -> int, a: int, b: int)
    requires
        0 <= a,
        0 <= b,
    ensures
        sum_grid(f, a + 1, b) == sum_grid(f, a, b) + sum_row(swapped(f), a, b),
    decreases b,
{
    if b > 0 {
        lemma_sum_grid_add_column(f, a, b - 1);
    }
}

proof fn lemma_sum_grid_empty(f: spec_fn(int, int) -> int, b: int)
    requires
        0 <= b,
    ensures
        sum_grid(f, 0, b) == 0,
    decreases b,
{
    if b > 0 {
        lemma_sum_grid_empty(f, b - 1);
    }
}

/// A grid sum taken row by row equals the sum taken column by column.
proof fn lemma_sum_grid_swap(f: spec_fn(int, int) -> int, a: int, b: int)
    requires
        0 <= a,
        0 <= b,
    ensures
        sum_grid(f, a, b) == sum_grid(swapped(f), b, a),
    decreases a,
{
    if a > 0 {
        lemma_sum_grid_swap(f, a - 1, b);
        lemma_sum_grid_add_column(f, a - 1, b);
        assert(sum_grid(swapped(f), b, a) == sum_grid(swapped(f), b, a - 1) + sum_row(swapped(f), a - 1, b));
    } else {
        lemma_sum_grid_empty(f, b);
    }
}

/// Whether module (`x`, `y`) of `g` is dark, as 0 or 1.
pub open spec fn dark_indicator(g: spec_fn(int, int) -> bool) -> spec_fn(int, int) -> int {
    |x: int, y: int| if g(x, y) { 1int } else { 0int }
}

/// Whether the block at (`x`, `y`) of `g` has one colour, as 0 or 1.
pub open spec fn block_indicator(g: spec_fn(int, int) -> bool) -> spec_fn(int, int) -> int {
    |x: int, y: int| if same_block(g, x, y) { 1int } else { 0int }
}

proof fn lemma_blocks_as_sum(g: spec_fn(int, int) -> bool, size: int, n: int)
    requires
        0 <= n,
        1 <= size,
    ensures
        blocks_upto(g, size, n) == sum_grid(block_indicator(g), size - 1, n),
    decreases n,
{
    if n > 0 {
        lemma_blocks_as_sum(g, size, n - 1);
        lemma_blocks_in_row_as_sum(g, n - 1, size - 1);
    }
}

proof fn lemma_blocks_in_row_as_sum(g: spec_fn(int, int) -> bool, y: int, n: int)
    requires
        0 <= n,
    ensures
        blocks_in_row(g, y, n) == sum_row(block_indicator(g), y, n),
    decreases n,
{
    if n > 0 {
        lemma_blocks_in_row_as_sum(g, y, n - 1);
    }
}

proof fn lemma_dark_as_sum(g: spec_fn(int, int) -> bool, size: int, y: int, x: int)
    requires
        1 <= size,
        0 <= y,
        0 <= x <= size,
    ensures
        grid_dark(g, size, y * size + x) == sum_grid(dark_indicator(g), size, y) + sum_row(
            dark_indicator(g),
            y,
            x,
        ),
    decreases y, x,
{
    if x > 0 {
        lemma_dark_as_sum(g, size, y, x - 1);
        let n = y * size + x;
        assert(y * size >= 0) by (nonlinear_arith)
            requires
                y >= 0,
                size >= 1,
        ;
        assert((n - 1) % size == x - 1 && (n - 1) / size == y) by {
            vstd::arithmetic::div_mod::lemma_fundamental_div_mod_converse(n - 1, size, y, x - 1);
        }
        assert(grid_dark(g, size, n) == grid_dark(g, size, n - 1) + dark_indicator(g)(x - 1, y));
        assert(sum_row(dark_indicator(g), y, x) == sum_row(dark_indicator(g), y, x - 1) + dark_indicator(g)(
            x - 1,
            y,
        ));
        assert(grid_dark(g, size, n - 1) == sum_grid(dark_indicator(g), size, y) + sum_row(
            dark_indicator(g),
            y,
            x - 1,
        ));
    } else if y > 0 {
        lemma_dark_as_sum(g, size, y - 1, size);
        assert((y - 1) * size + size == y * size) by (nonlinear_arith);
        assert(sum_grid(dark_indicator(g), size, y) == sum_grid(dark_indicator(g), size, y - 1) + sum_row(
            dark_indicator(g),
            y - 1,
            size,
        ));
    } else {
        assert(y * size + x == 0) by (nonlinear_arith)
            requires
                y == 0,
                x == 0,
        ;
    }
}

proof fn lemma_lines_transposed(g: spec_fn(int, int) -> bool, size: int, n: int)
    requires
        0 <= n,
    ensures
        rows_penalty(transposed(g), size, n) == cols_penalty(g, size, n),
        cols_penalty(transposed(g), size, n) == rows_penalty(g, size, n),
    decreases n,
{
    if n > 0 {
        lemma_lines_transposed(g, size, n - 1);
        assert(row_cells(transposed(g), size, n - 1) =~= col_cells(g, size, n - 1));
        assert(col_cells(transposed(g), size, n - 1) =~= row_cells(g, size, n - 1));
    }
}

/// Rows and columns are scored alike: mirroring a grid along its main
/// diagonal keeps its penalty.
pub proof fn lemma_penalty_transposed(g: spec_fn(int, int) -> bool, size: int)
    requires
        1 <= size,
    ensures
        spec_penalty(transposed(g), size) == spec_penalty(g, size),
{
    let t = transposed(g);
    lemma_lines_transposed(g, size, size);
    lemma_blocks_as_sum(g, size, size - 1);
    lemma_blocks_as_sum(t, size, size - 1);
    lemma_sum_grid_swap(block_indicator(g), size - 1, size - 1);
    assert(swapped(block_indicator(g)) == block_indicator(t)) by {
        assert(swapped(block_indicator(g)) =~= block_indicator(t));
    }
    lemma_dark_as_sum(g, size, size, 0);
    lemma_dark_as_sum(t, size, size, 0);
    lemma_sum_grid_swap(dark_indicator(g), size, size);
    assert(swapped(dark_indicator(g)) == dark_indicator(t)) by {
        assert(swapped(dark_indicator(g)) =~= dark_indicator(t));
    }
    assert(size * size + 0 == size * size);
}

} // verus!
