//! The size of the data area: the modules of a symbol that are not function
//! modules number exactly `spec_num_raw_data_modules`, and the codeword
//! zigzag visits every one of them.
use vstd::prelude::*;
use crate::params::spec_size;
use crate::patterns::lemma_align_gaps;
use crate::placement::{cw_half, light_count, lemma_order_inverse, num_pairs, order_x, order_y, pair_right, upward};
use crate::qrcode::{
    align_drawn, in_rect, near_align, spec_alignment_positions, spec_num_align,
    spec_is_function_module,
};
use crate::symbol::function_grid;

verus! {

/// Number of `y` in `a..b` with `f(y)`.
pub open spec fn count(f: spec_fn(int) -> bool, a: int, b: int) -> int
    decreases b - a,
{
    if b <= a {
        0
    } else {
        count(f, a, b - 1) + if f(b - 1) {
            1int
        } else {
            0int
        }
    }
}

/// Sum of `w(x)` over `x` in `a..b`.
pub open spec fn wsum(w: spec_fn(int) -> int, a: int, b: int) -> int
    decreases b - a,
{
    if b <= a {
        0
    } else {
        wsum(w, a, b - 1) + w(b - 1)
    }
}

proof fn lemma_count_split(f: spec_fn(int) -> bool, a: int, b: int, c: int)
    requires
        a <= b <= c,
    ensures
        count(f, a, c) == count(f, a, b) + count(f, b, c),
    decreases c - b,
{
    if c > b {
        lemma_count_split(f, a, b, c - 1);
    }
}

proof fn lemma_wsum_split(w: spec_fn(int) -> int, a: int, b: int, c: int)
    requires
        a <= b <= c,
    ensures
        wsum(w, a, c) == wsum(w, a, b) + wsum(w, b, c),
    decreases c - b,
{
    if c > b {
        lemma_wsum_split(w, a, b, c - 1);
    }
}

proof fn lemma_count_ext(f: spec_fn(int) -> bool, g: spec_fn(int) -> bool, a: int, b: int)
    requires
        forall|y: int| a <= y < b ==> #[trigger] f(y) == g(y),
    ensures
        count(f, a, b) == count(g, a, b),
    decreases b - a,
{
    if b > a {
        lemma_count_ext(f, g, a, b - 1);
    }
}

proof fn lemma_wsum_ext(w: spec_fn(int) -> int, u: spec_fn(int) -> int, a: int, b: int)
    requires
        forall|y: int| a <= y < b ==> #[trigger] w(y) == u(y),
    ensures
        wsum(w, a, b) == wsum(u, a, b),
    decreases b - a,
{
    if b > a {
        lemma_wsum_ext(w, u, a, b - 1);
    }
}

proof fn lemma_count_all(f: spec_fn(int) -> bool, a: int, b: int, val: bool)
    requires
        a <= b,
        forall|y: int| a <= y < b ==> #[trigger] f(y) == val,
    ensures
        count(f, a, b) == if val {
            b - a
        } else {
            0
        },
    decreases b - a,
{
    if b > a {
        lemma_count_all(f, a, b - 1, val);
    }
}

proof fn lemma_wsum_const(w: spec_fn(int) -> int, a: int, b: int, c: int)
    requires
        a <= b,
        forall|y: int| a <= y < b ==> #[trigger] w(y) == c,
    ensures
        wsum(w, a, b) == c * (b - a),
    decreases b - a,
{
    if b > a {
        lemma_wsum_const(w, a, b - 1, c);
        assert(c * (b - a) == c * (b - 1 - a) + c) by (nonlinear_arith);
    } else {
        assert(c * 0 == 0);
    }
}

/// `f` holds exactly on `lo..hi` within `a..b`.
proof fn lemma_count_interval(f: spec_fn(int) -> bool, a: int, b: int, lo: int, hi: int)
    requires
        a <= lo <= hi <= b,
        forall|y: int| a <= y < b ==> #[trigger] f(y) == (lo <= y < hi),
    ensures
        count(f, a, b) == hi - lo,
{
    lemma_count_split(f, a, lo, b);
    lemma_count_split(f, lo, hi, b);
    lemma_count_all(f, a, lo, false);
    lemma_count_all(f, lo, hi, true);
    lemma_count_all(f, hi, b, false);
}

/// Inclusion and exclusion for two predicates.
proof fn lemma_count_or(f: spec_fn(int) -> bool, g: spec_fn(int) -> bool, a: int, b: int)
    ensures
        count(|y: int| f(y) || g(y), a, b) + count(|y: int| f(y) && g(y), a, b) == count(f, a, b)
            + count(g, a, b),
    decreases b - a,
{
    if b > a {
        lemma_count_or(f, g, a, b - 1);
    }
}

proof fn lemma_count_shift(f: spec_fn(int) -> bool, a: int, b: int)
    ensures
        count(|y: int| f(y + 1), a, b) == count(f, a + 1, b + 1),
    decreases b - a,
{
    if b > a {
        lemma_count_shift(f, a, b - 1);
    }
}

/// Counting a range backwards gives the same number.
proof fn lemma_count_reverse(f: spec_fn(int) -> bool, a: int, b: int)
    requires
        a <= b,
    ensures
        count(|k: int| f(a + b - 1 - k), a, b) == count(f, a, b),
    decreases b - a,
{
    if b > a {
        let f1 = |y: int| f(y + 1);
        lemma_count_reverse(f1, a, b - 1);
        lemma_count_ext(|k: int| f1(a + (b - 1) - 1 - k), |k: int| f(a + b - 1 - k), a, b - 1);
        lemma_count_shift(f, a, b - 1);
        lemma_count_split(f, a, a + 1, b);
        lemma_count_all(f, a, a + 1, f(a));
    }
}

/// Whether `y` lies within 2 of one of the positions `p`.
pub open spec fn near_rec(p: Seq<int>, y: int) -> bool
    decreases p.len(),
{
    if p.len() == 0 {
        false
    } else {
        (p.last() - 2 <= y <= p.last() + 2) || near_rec(p.drop_last(), y)
    }
}

/// The weight `c[k]` of the position `p[k]` that `x` lies within 2 of
/// (the last such), or 0.
pub open spec fn near_weight(p: Seq<int>, c: Seq<int>, x: int) -> int
    decreases p.len(),
{
    if p.len() == 0 || c.len() == 0 {
        0
    } else if p.last() - 2 <= x <= p.last() + 2 {
        c.last()
    } else {
        near_weight(p.drop_last(), c.drop_last(), x)
    }
}

/// Sum of a sequence of integers.
pub open spec fn seq_sum(c: Seq<int>) -> int
    decreases c.len(),
{
    if c.len() == 0 {
        0
    } else {
        seq_sum(c.drop_last()) + c.last()
    }
}

/// Positions in increasing order, at least 12 apart.
pub open spec fn spaced(p: Seq<int>) -> bool {
    forall|k1: int, k2: int| 0 <= k1 < k2 < p.len() ==> #[trigger] p[k2] - #[trigger] p[k1] >= 12
}

proof fn lemma_near_rec_exists(p: Seq<int>, y: int)
    ensures
        near_rec(p, y) <==> exists|k: int| 0 <= k < p.len() && #[trigger] p[k] - 2 <= y <= p[k] + 2,
    decreases p.len(),
{
    if p.len() > 0 {
        lemma_near_rec_exists(p.drop_last(), y);
        if near_rec(p, y) {
            if p.last() - 2 <= y <= p.last() + 2 {
                assert(p[p.len() - 1] - 2 <= y <= p[p.len() - 1] + 2);
            } else {
                let k = choose|k: int| 0 <= k < p.len() - 1 && #[trigger] p.drop_last()[k] - 2 <= y <= p.drop_last()[k] + 2;
                assert(p[k] == p.drop_last()[k]);
            }
        } else {
            assert forall|k: int| 0 <= k < p.len() implies !(#[trigger] p[k] - 2 <= y <= p[k] + 2) by {
                if k < p.len() - 1 {
                    assert(p[k] == p.drop_last()[k]);
                }
            }
        }
    }
}

proof fn lemma_near_rec_bounds(p: Seq<int>, y: int)
    requires
        spaced(p),
        near_rec(p, y),
    ensures
        p[0] - 2 <= y <= p.last() + 2,
{
    lemma_near_rec_exists(p, y);
    let k = choose|k: int| 0 <= k < p.len() && #[trigger] p[k] - 2 <= y <= p[k] + 2;
    if k > 0 {
        assert(p[k] - p[0] >= 12);
    }
    if k < p.len() - 1 {
        assert(p[p.len() - 1] - p[k] >= 12);
    }
}

proof fn lemma_near_weight_zero(p: Seq<int>, c: Seq<int>, x: int)
    requires
        spaced(p),
        p.len() == c.len(),
        p.len() == 0 || x < p[0] - 2 || x > p.last() + 2,
    ensures
        near_weight(p, c, x) == 0,
    decreases p.len(),
{
    if p.len() > 1 {
        let q = p.drop_last();
        assert(spaced(q)) by {
            assert forall|k1: int, k2: int| 0 <= k1 < k2 < q.len() implies #[trigger] q[k2] - #[trigger] q[k1] >= 12 by {
                assert(q[k1] == p[k1] && q[k2] == p[k2]);
            }
        }
        assert(p.last() - p[0] >= 12);
        assert(q[0] == p[0]);
        assert(p.last() - q.last() >= 12);
        lemma_near_weight_zero(q, c.drop_last(), x);
    } else if p.len() == 1 {
        assert(p.last() == p[0]);
        assert(near_weight(p.drop_last(), c.drop_last(), x) == 0);
    }
    if p.len() > 0 {
        assert(p.last() - p[0] >= 0) by {
            if p.len() > 1 {
                assert(p[p.len() - 1] - p[0] >= 12);
            }
        }
        assert(!(p.last() - 2 <= x <= p.last() + 2));
    }
}

/// The positions' neighbourhoods of width 5 are disjoint, so together they
/// hold five values each.
proof fn lemma_union_count(p: Seq<int>, a: int, b: int)
    requires
        spaced(p),
        a <= b,
        p.len() > 0 ==> a <= p[0] - 2 && p.last() + 2 < b,
    ensures
        count(|y: int| near_rec(p, y), a, b) == 5 * p.len(),
    decreases p.len(),
{
    let u = |y: int| near_rec(p, y);
    if p.len() == 0 {
        lemma_count_all(u, a, b, false);
    } else {
        let q = p.drop_last();
        let l = p.last();
        let c = l - 2;
        assert(spaced(q)) by {
            assert forall|k1: int, k2: int| 0 <= k1 < k2 < q.len() implies #[trigger] q[k2] - #[trigger] q[k1] >= 12 by {
                assert(q[k1] == p[k1] && q[k2] == p[k2]);
            }
        }
        if q.len() > 0 {
            assert(q[0] == p[0]);
            assert(l - q.last() >= 12);
        }
        lemma_union_count(q, a, c);
        let uq = |y: int| near_rec(q, y);
        assert forall|y: int| a <= y < c implies #[trigger] u(y) == uq(y) by {}
        lemma_count_ext(u, uq, a, c);
        assert forall|y: int| c <= y < c + 5 implies #[trigger] u(y) == true by {}
        lemma_count_all(u, c, c + 5, true);
        assert forall|y: int| c + 5 <= y < b implies #[trigger] u(y) == false by {
            if near_rec(q, y) {
                lemma_near_rec_bounds(q, y);
            }
        }
        lemma_count_all(u, c + 5, b, false);
        lemma_count_split(u, a, c, b);
        lemma_count_split(u, c, c + 5, b);
    }
}

/// Weighted form: a value within 2 of position `p[k]` weighs `c[k]`, so the
/// values weigh five times the sum of the weights.
proof fn lemma_weight_sum(p: Seq<int>, c: Seq<int>, a: int, b: int)
    requires
        spaced(p),
        p.len() == c.len(),
        a <= b,
        p.len() > 0 ==> a <= p[0] - 2 && p.last() + 2 < b,
    ensures
        wsum(|x: int| near_weight(p, c, x), a, b) == 5 * seq_sum(c),
    decreases p.len(),
{
    let w = |x: int| near_weight(p, c, x);
    if p.len() == 0 {
        lemma_wsum_const(w, a, b, 0);
    } else {
        let q = p.drop_last();
        let cq = c.drop_last();
        let l = p.last();
        let m = l - 2;
        assert(spaced(q)) by {
            assert forall|k1: int, k2: int| 0 <= k1 < k2 < q.len() implies #[trigger] q[k2] - #[trigger] q[k1] >= 12 by {
                assert(q[k1] == p[k1] && q[k2] == p[k2]);
            }
        }
        if q.len() > 0 {
            assert(q[0] == p[0]);
            assert(l - q.last() >= 12);
        }
        lemma_weight_sum(q, cq, a, m);
        let wq = |x: int| near_weight(q, cq, x);
        assert forall|x: int| a <= x < m implies #[trigger] w(x) == wq(x) by {}
        lemma_wsum_ext(w, wq, a, m);
        assert forall|x: int| m <= x < m + 5 implies #[trigger] w(x) == c.last() by {}
        lemma_wsum_const(w, m, m + 5, c.last());
        assert forall|x: int| m + 5 <= x < b implies #[trigger] w(x) == 0 by {
            lemma_near_weight_zero(q, cq, x);
        }
        lemma_wsum_const(w, m + 5, b, 0);
        lemma_wsum_split(w, a, m, b);
        lemma_wsum_split(w, m, m + 5, b);
        assert(seq_sum(c) == seq_sum(cq) + c.last());
        assert(wsum(w, m + 5, b) == 0);
        assert(c.last() * ((m + 5) - m) == 5 * c.last()) by (nonlinear_arith);
    }
}

/// The function modules that do not belong to alignment patterns: the timing
/// row, the finder patterns with separators and format areas, and from
/// version 7 the version-information areas.
pub open spec fn static_function(v: int, x: int, y: int) -> bool {
    let size = spec_size(v);
    ||| y == 6
    ||| in_rect(x, y, 0, 0, 9, 9)
    ||| in_rect(x, y, size - 8, 0, 8, 9)
    ||| in_rect(x, y, 0, size - 8, 9, 8)
    ||| (v >= 7 && (in_rect(x, y, size - 11, 0, 3, 6) || in_rect(x, y, 0, size - 11, 6, 3)))
}

/// Number of static function modules in column `x` (not the timing column).
pub open spec fn static_column_count(v: int, x: int) -> int {
    let size = spec_size(v);
    if x < 9 {
        if v >= 7 && x < 6 {
            20
        } else {
            17
        }
    } else if x >= size - 8 {
        9
    } else if v >= 7 && size - 11 <= x {
        7
    } else {
        1
    }
}

proof fn lemma_pos_facts(v: int)
    requires
        1 <= v <= 40,
    ensures
        spaced(spec_alignment_positions(v)),
        spec_alignment_positions(v).len() == spec_num_align(v),
        spec_num_align(v) == 0 || spec_num_align(v) >= 2,
        spec_num_align(v) > 0 ==> spec_alignment_positions(v)[0] == 6,
        spec_num_align(v) > 0 ==> spec_alignment_positions(v)[spec_num_align(v) - 1] == spec_size(v) - 7,
        forall|k: int|
            0 <= k < spec_num_align(v) ==> 6 <= #[trigger] spec_alignment_positions(v)[k] <= spec_size(v) - 7,
{
    lemma_align_gaps(v);
    let pos = spec_alignment_positions(v);
    assert forall|k1: int, k2: int| 0 <= k1 < k2 < pos.len() implies #[trigger] pos[k2] - #[trigger] pos[k1] >= 12 by {}
    if v >= 2 {
        crate::qrcode::lemma_align_facts(v);
    }
}

proof fn lemma_sub_spaced(p: Seq<int>, a: int, b: int)
    requires
        spaced(p),
        0 <= a <= b <= p.len(),
    ensures
        spaced(p.subrange(a, b)),
{
    let q = p.subrange(a, b);
    assert forall|k1: int, k2: int| 0 <= k1 < k2 < q.len() implies #[trigger] q[k2] - #[trigger] q[k1] >= 12 by {
        assert(q[k1] == p[k1 + a] && q[k2] == p[k2 + a]);
    }
}

/// The rows of the patterns drawn in the column of position `i` of `pos`.
pub open spec fn drawn_rows_of(pos: Seq<int>, i: int) -> Seq<int> {
    let n = pos.len() as int;
    if i == 0 {
        pos.subrange(1, n - 1)
    } else if i == n - 1 {
        pos.subrange(1, n)
    } else {
        pos
    }
}

proof fn lemma_column_alignment_of(pos: Seq<int>, x: int, y: int, i: int)
    requires
        spaced(pos),
        pos.len() >= 2,
        0 <= i < pos.len(),
        pos[i] - 2 <= x <= pos[i] + 2,
    ensures
        crate::qrcode::near_align_before(pos, x, y, 2, pos.len() as int, 0) == near_rec(drawn_rows_of(pos, i), y),
{
    let n = pos.len() as int;
    let rows = drawn_rows_of(pos, i);
    let lo = if i == 0 || i == n - 1 {
        1int
    } else {
        0int
    };
    assert(rows =~= pos.subrange(lo, lo + rows.len()));
    lemma_near_rec_exists(rows, y);
    if crate::qrcode::near_align_before(pos, x, y, 2, n, 0) {
        let (i2, j2) = choose|i2: int, j2: int|
            #![trigger near_align(pos, i2, j2, x, y, 2)]
            align_drawn(i2, j2, n) && (i2 < n || (i2 == n && j2 < 0)) && near_align(pos, i2, j2, x, y, 2);
        if i2 < i {
            assert(pos[i] - pos[i2] >= 12);
        } else if i2 > i {
            assert(pos[i2] - pos[i] >= 12);
        }
        let k = j2 - lo;
        assert(rows[k] == pos[j2]);
    }
    if near_rec(rows, y) {
        let k = choose|k: int| 0 <= k < rows.len() && #[trigger] rows[k] - 2 <= y <= rows[k] + 2;
        let j = k + lo;
        assert(rows[k] == pos[j]);
        assert(align_drawn(i, j, n));
        assert(near_align(pos, i, j, x, y, 2));
    }
}

proof fn lemma_column_no_alignment_of(pos: Seq<int>, x: int, y: int)
    requires
        forall|i: int| 0 <= i < pos.len() ==> !(pos[i] - 2 <= x <= #[trigger] pos[i] + 2),
    ensures
        !crate::qrcode::near_align_before(pos, x, y, 2, pos.len() as int, 0),
{
    let n = pos.len() as int;
    if crate::qrcode::near_align_before(pos, x, y, 2, n, 0) {
        let (i2, j2) = choose|i2: int, j2: int|
            #![trigger near_align(pos, i2, j2, x, y, 2)]
            align_drawn(i2, j2, n) && (i2 < n || (i2 == n && j2 < 0)) && near_align(pos, i2, j2, x, y, 2);
        assert(pos[i2] - 2 <= x <= pos[i2] + 2);
    }
}

/// Counting the static function modules of a column.
proof fn lemma_static_column(v: int, x: int)
    requires
        1 <= v <= 40,
        0 <= x < spec_size(v),
        x != 6,
    ensures
        count(|y: int| static_function(v, x, y), 0, spec_size(v)) == static_column_count(v, x),
{
    let size = spec_size(v);
    let f = |y: int| static_function(v, x, y);
    if x < 9 {
        let top = if v >= 7 && x < 6 {
            size - 11
        } else {
            size - 8
        };
        assert forall|y: int| 0 <= y < size implies #[trigger] f(y) == (y < 9 || top <= y) by {}
        lemma_count_split(f, 0, 9, size);
        lemma_count_interval(f, 0, 9, 0, 9);
        lemma_count_interval(f, 9, size, top, size);
    } else if x >= size - 8 {
        assert forall|y: int| 0 <= y < size implies #[trigger] f(y) == (0 <= y < 9) by {}
        lemma_count_interval(f, 0, size, 0, 9);
    } else if v >= 7 && size - 11 <= x {
        assert forall|y: int| 0 <= y < size implies #[trigger] f(y) == (0 <= y < 7) by {}
        lemma_count_interval(f, 0, size, 0, 7);
    } else {
        assert forall|y: int| 0 <= y < size implies #[trigger] f(y) == (6 <= y < 7) by {}
        lemma_count_interval(f, 0, size, 6, 7);
    }
}

proof fn lemma_near_weight_at(p: Seq<int>, c: Seq<int>, x: int, k: int)
    requires
        spaced(p),
        p.len() == c.len(),
        0 <= k < p.len(),
        p[k] - 2 <= x <= p[k] + 2,
    ensures
        near_weight(p, c, x) == c[k],
    decreases p.len(),
{
    if k < p.len() - 1 {
        assert(p[p.len() - 1] - p[k] >= 12);
        let q = p.drop_last();
        lemma_sub_spaced(p, 0, p.len() - 1);
        assert(q =~= p.subrange(0, p.len() - 1));
        assert(q[k] == p[k]);
        lemma_near_weight_at(q, c.drop_last(), x, k);
    }
}

proof fn lemma_near_weight_none(p: Seq<int>, c: Seq<int>, x: int)
    requires
        forall|k: int| 0 <= k < p.len() ==> !(p[k] - 2 <= x <= #[trigger] p[k] + 2),
    ensures
        near_weight(p, c, x) == 0,
    decreases p.len(),
{
    if p.len() > 0 && c.len() > 0 {
        let q = p.drop_last();
        assert(!(p[p.len() - 1] - 2 <= x <= p[p.len() - 1] + 2));
        assert forall|k: int| 0 <= k < q.len() implies !(q[k] - 2 <= x <= #[trigger] q[k] + 2) by {
            assert(q[k] == p[k]);
        }
        lemma_near_weight_none(q, c.drop_last(), x);
    }
}

/// The weights of the alignment columns after the first: a middle column
/// holds `5 * n - 1` modules of alignment patterns beyond the timing row,
/// the last `5 * (n - 1)`.
pub open spec fn align_weights(n: int) -> Seq<int> {
    Seq::new((n - 1) as nat, |k: int| if k < n - 2 { 5 * n - 1 } else { 5 * (n - 1) })
}

/// Number of alignment-pattern modules of column `x` that are not static
/// function modules, for the alignment positions `pos`.
pub open spec fn align_column_count(pos: Seq<int>, x: int) -> int {
    let n = pos.len() as int;
    if n >= 2 && 4 <= x <= 8 {
        5 * (n - 2)
    } else if n >= 2 {
        near_weight(pos.subrange(1, n), align_weights(n), x)
    } else {
        0
    }
}

/// The count of alignment rows in a column of position `i`, and how many of
/// them are static function modules too.
proof fn lemma_column_alignment_count(v: int, pos: Seq<int>, x: int, i: int)
    requires
        1 <= v <= 40,
        pos == spec_alignment_positions(v),
        0 <= i < pos.len(),
        pos[i] - 2 <= x <= pos[i] + 2,
        x != 6,
    ensures
        ({
            let size = spec_size(v);
            let a = |y: int| crate::qrcode::near_align_before(pos, x, y, 2, pos.len() as int, 0);
            let st = |y: int| static_function(v, x, y);
            &&& count(a, 0, size) == 5 * drawn_rows_of(pos, i).len()
            &&& count(|y: int| st(y) && a(y), 0, size) == if 1 <= i < pos.len() - 1 {
                1int
            } else {
                0int
            }
        }),
{
    lemma_pos_facts(v);
    let size = spec_size(v);
    let n = pos.len() as int;
    let a = |y: int| crate::qrcode::near_align_before(pos, x, y, 2, n, 0);
    let st = |y: int| static_function(v, x, y);
    let rows = drawn_rows_of(pos, i);
    let r = |y: int| near_rec(rows, y);
    let lo = if i == 0 || i == n - 1 {
        1int
    } else {
        0int
    };
    let hi = if i == 0 {
        n - 1
    } else {
        n
    };
    assert(rows =~= pos.subrange(lo, hi));
    lemma_sub_spaced(pos, lo, hi);
    assert forall|y: int| 0 <= y < size implies #[trigger] a(y) == r(y) by {
        lemma_column_alignment_of(pos, x, y, i);
    }
    lemma_count_ext(a, r, 0, size);
    if rows.len() > 0 {
        assert(rows[0] == pos[lo]);
        assert(rows[rows.len() - 1] == pos[hi - 1]);
    }
    lemma_union_count(rows, 0, size);
    let both = |y: int| st(y) && a(y);
    if 1 <= i < n - 1 {
        assert(pos[n - 1] - pos[i] >= 12);
        assert(pos[i] - pos[0] >= 12);
        assert forall|y: int| 0 <= y < size implies #[trigger] both(y) == (6 <= y < 7) by {
            if y == 6 {
                assert(rows[0] == 6);
                lemma_near_rec_exists(rows, 6);
            }
        }
        lemma_count_interval(both, 0, size, 6, 7);
    } else {
        assert forall|y: int| 0 <= y < size implies #[trigger] both(y) == false by {
            if r(y) {
                lemma_near_rec_bounds(rows, y);
                assert(pos[1] - pos[0] >= 12);
                if n > 2 {
                    assert(pos[n - 1] - pos[n - 2] >= 12);
                }
            }
        }
        lemma_count_all(both, 0, size, false);
    }
}

/// Number of function modules in column `x` of a version-`v` symbol.
pub open spec fn function_column_count(v: int, x: int) -> int {
    count(|y: int| spec_is_function_module(v, x, y), 0, spec_size(v))
}

/// The function modules of a column other than the timing column: its
/// static ones and its alignment-pattern ones.
proof fn lemma_function_column(v: int, x: int)
    requires
        1 <= v <= 40,
        0 <= x < spec_size(v),
        x != 6,
    ensures
        function_column_count(v, x) == static_column_count(v, x) + align_column_count(
            spec_alignment_positions(v),
            x,
        ),
{
    lemma_pos_facts(v);
    let pos = spec_alignment_positions(v);
    let size = spec_size(v);
    let n = pos.len() as int;
    let f = |y: int| spec_is_function_module(v, x, y);
    let a = |y: int| crate::qrcode::near_align_before(pos, x, y, 2, n, 0);
    let st = |y: int| static_function(v, x, y);
    assert forall|y: int| 0 <= y < size implies #[trigger] f(y) == (st(y) || a(y)) by {}
    lemma_count_ext(f, |y: int| st(y) || a(y), 0, size);
    lemma_count_or(st, a, 0, size);
    lemma_static_column(v, x);
    if n >= 2 && 4 <= x <= 8 {
        lemma_column_alignment_count(v, pos, x, 0);
        assert(drawn_rows_of(pos, 0).len() == n - 2);
    } else if exists|i: int| 0 <= i < n && pos[i] - 2 <= x <= #[trigger] pos[i] + 2 {
        let i = choose|i: int| 0 <= i < n && pos[i] - 2 <= x <= #[trigger] pos[i] + 2;
        assert(i >= 1);
        lemma_column_alignment_count(v, pos, x, i);
        let p1 = pos.subrange(1, n);
        lemma_sub_spaced(pos, 1, n);
        assert(p1[i - 1] == pos[i]);
        lemma_near_weight_at(p1, align_weights(n), x, i - 1);
    } else {
        assert forall|y: int| 0 <= y < size implies #[trigger] a(y) == false by {
            lemma_column_no_alignment_of(pos, x, y);
        }
        lemma_count_all(a, 0, size, false);
        lemma_count_all(|y: int| st(y) && a(y), 0, size, false);
        if n >= 2 {
            let p1 = pos.subrange(1, n);
            assert forall|k: int| 0 <= k < p1.len() implies !(p1[k] - 2 <= x <= #[trigger] p1[k] + 2) by {
                assert(p1[k] == pos[k + 1]);
            }
            lemma_near_weight_none(p1, align_weights(n), x);
        }
    }
}

proof fn lemma_wsum_add(w: spec_fn(int) -> int, u: spec_fn(int) -> int, a: int, b: int)
    ensures
        wsum(|x: int| w(x) + u(x), a, b) == wsum(w, a, b) + wsum(u, a, b),
    decreases b - a,
{
    if b > a {
        lemma_wsum_add(w, u, a, b - 1);
    }
}

proof fn lemma_align_weights_sum(n: int, k: int)
    requires
        2 <= n,
        0 <= k <= n - 1,
    ensures
        seq_sum(align_weights(n).take(k)) == if k <= n - 2 {
            k * (5 * n - 1)
        } else {
            (n - 2) * (5 * n - 1) + 5 * (n - 1)
        },
    decreases k,
{
    let w = align_weights(n);
    if k > 0 {
        lemma_align_weights_sum(n, k - 1);
        assert(w.take(k).drop_last() =~= w.take(k - 1));
        assert(w.take(k).last() == w[k - 1]);
        assert(seq_sum(w.take(k)) == seq_sum(w.take(k - 1)) + w[k - 1]);
        assert(k * (5 * n - 1) == (k - 1) * (5 * n - 1) + (5 * n - 1)) by (nonlinear_arith);
        if k == n - 1 {
            assert(w[k - 1] == 5 * (n - 1));
            assert(seq_sum(w.take(k - 1)) == (n - 2) * (5 * n - 1));
        } else {
            assert(w[k - 1] == 5 * n - 1);
        }
    } else {
        assert(w.take(0).len() == 0);
        assert(seq_sum(w.take(0)) == 0);
        assert(0 * (5 * n - 1) == 0);
    }
}

/// Number of function modules of a version-`v` symbol, column by column.
pub open spec fn function_module_total(v: int) -> int {
    wsum(|x: int| function_column_count(v, x), 0, spec_size(v))
}

#[verifier::rlimit(40)]
proof fn lemma_function_module_total(v: int)
    requires
        1 <= v <= 40,
    ensures
        function_module_total(v) == spec_size(v) * spec_size(v) - crate::params::spec_num_raw_data_modules(v),
{
    lemma_pos_facts(v);
    let pos = spec_alignment_positions(v);
    let n = pos.len() as int;
    let size = spec_size(v);
    let fc = |x: int| function_column_count(v, x);
    let st0 = if v >= 7 {
        20int
    } else {
        17int
    };
    let ac = if n >= 2 {
        5 * (n - 2)
    } else {
        0
    };
    // Columns 0..4, 4..6, 6, 7..9 and 9..size.
    lemma_wsum_split(fc, 0, 4, size);
    lemma_wsum_split(fc, 4, 6, size);
    lemma_wsum_split(fc, 6, 7, size);
    lemma_wsum_split(fc, 7, 9, size);
    assert forall|x: int| 0 <= x < 4 implies #[trigger] fc(x) == st0 by {
        lemma_function_column(v, x);
        if n >= 2 {
            let p1 = pos.subrange(1, n);
            assert forall|k: int| 0 <= k < p1.len() implies !(p1[k] - 2 <= x <= #[trigger] p1[k] + 2) by {
                assert(p1[k] == pos[k + 1]);
                assert(pos[k + 1] - pos[0] >= 12);
            }
            lemma_near_weight_none(p1, align_weights(n), x);
        }
    }
    lemma_wsum_const(fc, 0, 4, st0);
    assert forall|x: int| 4 <= x < 6 implies #[trigger] fc(x) == st0 + ac by {
        lemma_function_column(v, x);
    }
    lemma_wsum_const(fc, 4, 6, st0 + ac);
    assert(fc(6) == size) by {
        let f = |y: int| spec_is_function_module(v, 6, y);
        lemma_count_all(f, 0, size, true);
    }
    assert(wsum(fc, 6, 7) == size) by {
        assert(wsum(fc, 6, 6) == 0);
    }
    assert forall|x: int| 7 <= x < 9 implies #[trigger] fc(x) == 17 + ac by {
        lemma_function_column(v, x);
    }
    lemma_wsum_const(fc, 7, 9, 17 + ac);
    // Columns 9..size: static part plus alignment part.
    let stc = |x: int| static_column_count(v, x);
    let al = |x: int|
        if n >= 2 {
            near_weight(pos.subrange(1, n), align_weights(n), x)
        } else {
            0
        };
    assert forall|x: int| 9 <= x < size implies #[trigger] fc(x) == stc(x) + al(x) by {
        lemma_function_column(v, x);
    }
    lemma_wsum_ext(fc, |x: int| stc(x) + al(x), 9, size);
    lemma_wsum_add(stc, al, 9, size);
    let c7 = if v >= 7 {
        7int
    } else {
        1int
    };
    lemma_wsum_split(stc, 9, size - 11, size);
    lemma_wsum_split(stc, size - 11, size - 8, size);
    lemma_wsum_const(stc, 9, size - 11, 1);
    lemma_wsum_const(stc, size - 11, size - 8, c7);
    lemma_wsum_const(stc, size - 8, size, 9);
    if n >= 2 {
        let p1 = pos.subrange(1, n);
        lemma_sub_spaced(pos, 1, n);
        assert(p1[0] == pos[1]);
        assert(pos[1] - pos[0] >= 12);
        assert(p1[p1.len() - 1] == pos[n - 1]);
        lemma_weight_sum(p1, align_weights(n), 9, size);
        lemma_wsum_ext(al, |x: int| near_weight(p1, align_weights(n), x), 9, size);
        lemma_align_weights_sum(n, n - 1);
        assert(align_weights(n).take(n - 1) =~= align_weights(n));
        crate::qrcode::lemma_align_facts(v);
        assert(n == v / 7 + 2);
    } else {
        lemma_wsum_const(al, 9, size, 0);
        assert(v == 1);
    }
    let raw = crate::params::spec_num_raw_data_modules(v);
    assert(size * size - raw == 6 * st0 + 34 + size + (size - 20) + 3 * c7 + 72 + 4 * ac + if n
        >= 2 {
        5 * ((n - 2) * (5 * n - 1) + 5 * (n - 1))
    } else {
        0
    }) by (nonlinear_arith)
        requires
            size == 4 * v + 17,
            1 <= v <= 40,
            v == 1 ==> n == 0,
            v >= 2 ==> n == v / 7 + 2,
            st0 == if v >= 7 { 20int } else { 17int },
            c7 == if v >= 7 { 7int } else { 1int },
            ac == if n >= 2 { 5 * (n - 2) } else { 0 },
            raw == crate::params::spec_num_raw_data_modules(v),
    ;
}

proof fn lemma_count_not(f: spec_fn(int) -> bool, a: int, b: int)
    requires
        a <= b,
    ensures
        count(|y: int| !f(y), a, b) == (b - a) - count(f, a, b),
    decreases b - a,
{
    if b > a {
        lemma_count_not(f, a, b - 1);
    }
}

proof fn lemma_wsum_complement(w: spec_fn(int) -> int, c: int, a: int, b: int)
    requires
        a <= b,
    ensures
        wsum(|x: int| c - w(x), a, b) == c * (b - a) - wsum(w, a, b),
    decreases b - a,
{
    if b > a {
        lemma_wsum_complement(w, c, a, b - 1);
        assert(c * (b - a) == c * (b - 1 - a) + c) by (nonlinear_arith);
    } else {
        assert(c * 0 == 0);
    }
}

/// Number of light (non-function) modules in column `x` of the grid `g`.
pub open spec fn light_in_column(g: spec_fn(int, int) -> bool, size: int, x: int) -> int {
    count(|y: int| !g(x, y), 0, size)
}

/// The modules of a version-`v` symbol that are not function modules
/// number exactly `spec_num_raw_data_modules(v)`.
pub proof fn lemma_data_module_count(v: int)
    requires
        1 <= v <= 40,
    ensures
        wsum(
            |x: int| light_in_column(|x: int, y: int| spec_is_function_module(v, x, y), spec_size(v), x),
            0,
            spec_size(v),
        ) == crate::params::spec_num_raw_data_modules(v),
{
    let size = spec_size(v);
    let g = |x: int, y: int| spec_is_function_module(v, x, y);
    let fc = |x: int| function_column_count(v, x);
    let lc = |x: int| light_in_column(g, size, x);
    assert forall|x: int| 0 <= x < size implies #[trigger] lc(x) == size - fc(x) by {
        let f = |y: int| spec_is_function_module(v, x, y);
        lemma_count_not(f, 0, size);
        lemma_count_ext(|y: int| !g(x, y), |y: int| !f(y), 0, size);
        lemma_count_ext(f, |y: int| spec_is_function_module(v, x, y), 0, size);
        assert(lc(x) == count(|y: int| !g(x, y), 0, size));
        assert(fc(x) == count(|y: int| spec_is_function_module(v, x, y), 0, size));
    }
    lemma_wsum_ext(lc, |x: int| size - fc(x), 0, size);
    lemma_wsum_complement(fc, size, 0, size);
    lemma_function_module_total(v);
}

/// Within pair `c` of the zigzag, the first `2 * k` steps visit rows
/// `0..k` of its two columns (in the pair's direction).
proof fn lemma_pair_steps(g: spec_fn(int, int) -> bool, size: int, c: int, k: int)
    requires
        21 <= size <= 177,
        size % 2 == 1,
        0 <= c < num_pairs(size),
        0 <= k <= size,
    ensures
        ({
            let r = pair_right(size, c);
            let row = |vv: int| if upward(r) { size - 1 - vv } else { vv };
            light_count(g, size, c * (2 * size) + 2 * k) == light_count(g, size, c * (2 * size))
                + count(|vv: int| !g(r, row(vv)), 0, k) + count(|vv: int| !g(r - 1, row(vv)), 0, k)
        }),
    decreases k,
{
    if k > 0 {
        lemma_pair_steps(g, size, c, k - 1);
        lemma_order_inverse(size, c, k - 1, 0);
        lemma_order_inverse(size, c, k - 1, 1);
        let t0 = c * (2 * size) + 2 * (k - 1);
        let r = pair_right(size, c);
        let row = |vv: int| if upward(r) { size - 1 - vv } else { vv };
        assert(t0 + 2 == c * (2 * size) + 2 * k);
        assert(order_x(size, t0) == r && order_y(size, t0) == row(k - 1));
        assert(t0 + 1 == c * (2 * size) + 2 * (k - 1) + 1);
        assert(order_x(size, t0 + 1) == r - 1 && order_y(size, t0 + 1) == row(k - 1));
        assert(light_count(g, size, t0 + 2) == light_count(g, size, t0 + 1) + if !g(order_x(size, t0 + 1), order_y(size, t0 + 1)) { 1int } else { 0int });
        assert(light_count(g, size, t0 + 1) == light_count(g, size, t0) + if !g(order_x(size, t0), order_y(size, t0)) { 1int } else { 0int });
        assert(count(|vv: int| !g(r, row(vv)), 0, k) == count(|vv: int| !g(r, row(vv)), 0, k - 1) + if !g(r, row(k - 1)) { 1int } else { 0int });
        assert(count(|vv: int| !g(r - 1, row(vv)), 0, k) == count(|vv: int| !g(r - 1, row(vv)), 0, k - 1) + if !g(r - 1, row(k - 1)) { 1int } else { 0int });
        assert(t0 >= 0) by (nonlinear_arith)
            requires
                c >= 0,
                size >= 0,
                k >= 1,
                t0 == c * (2 * size) + 2 * (k - 1),
        ;
    }
}

/// A whole pair of the zigzag visits every row of its two columns.
proof fn lemma_pair_total(g: spec_fn(int, int) -> bool, size: int, c: int)
    requires
        21 <= size <= 177,
        size % 2 == 1,
        0 <= c < num_pairs(size),
    ensures
        light_count(g, size, (c + 1) * (2 * size)) == light_count(g, size, c * (2 * size))
            + light_in_column(g, size, pair_right(size, c)) + light_in_column(
            g,
            size,
            pair_right(size, c) - 1,
        ),
{
    lemma_pair_steps(g, size, c, size);
    assert((c + 1) * (2 * size) == c * (2 * size) + 2 * size) by (nonlinear_arith);
    let r = pair_right(size, c);
    let row = |vv: int| if upward(r) { size - 1 - vv } else { vv };
    let f0 = |y: int| !g(r, y);
    let f1 = |y: int| !g(r - 1, y);
    if upward(r) {
        lemma_count_reverse(f0, 0, size);
        lemma_count_reverse(f1, 0, size);
        lemma_count_ext(|vv: int| !g(r, row(vv)), |k: int| f0(0 + size - 1 - k), 0, size);
        lemma_count_ext(|vv: int| !g(r - 1, row(vv)), |k: int| f1(0 + size - 1 - k), 0, size);
    } else {
        lemma_count_ext(|vv: int| !g(r, row(vv)), f0, 0, size);
        lemma_count_ext(|vv: int| !g(r - 1, row(vv)), f1, 0, size);
    }
}

/// The first `c` pairs of the zigzag visit the columns right of the timing
/// column from the right, then those left of it.
proof fn lemma_pairs_prefix(g: spec_fn(int, int) -> bool, size: int, c: int)
    requires
        21 <= size <= 177,
        size % 2 == 1,
        0 <= c <= num_pairs(size),
    ensures
        light_count(g, size, c * (2 * size)) == if c <= cw_half(size) {
            wsum(|x: int| light_in_column(g, size, x), size - 2 * c, size)
        } else {
            wsum(|x: int| light_in_column(g, size, x), 7, size) + wsum(
                |x: int| light_in_column(g, size, x),
                6 - 2 * (c - cw_half(size)),
                6,
            )
        },
    decreases c,
{
    let lc = |x: int| light_in_column(g, size, x);
    let h = cw_half(size);
    assert(size - 2 * h == 7);
    if c == 0 {
        assert(0 * (2 * size) == 0);
    } else {
        lemma_pairs_prefix(g, size, c - 1);
        lemma_pair_total(g, size, c - 1);
        let r = pair_right(size, c - 1);
        if c - 1 < h {
            assert(r == size - 1 - 2 * (c - 1));
            lemma_wsum_split(lc, size - 2 * c, size - 2 * c + 2, size);
            assert(wsum(lc, size - 2 * c, size - 2 * c + 2) == lc(size - 2 * c) + lc(size - 2 * c + 1)) by {
                assert(wsum(lc, size - 2 * c, size - 2 * c) == 0);
                assert(wsum(lc, size - 2 * c, size - 2 * c + 1) == lc(size - 2 * c));
            }
        } else {
            let k = c - 1 - h;
            assert(r == 5 - 2 * k);
            if k == 0 {
                assert(wsum(lc, 6, 6) == 0);
            }
            lemma_wsum_split(lc, 6 - 2 * (k + 1), 6 - 2 * k, 6);
            assert(wsum(lc, 4 - 2 * k, 6 - 2 * k) == lc(4 - 2 * k) + lc(5 - 2 * k)) by {
                assert(wsum(lc, 4 - 2 * k, 4 - 2 * k) == 0);
                assert(wsum(lc, 4 - 2 * k, 5 - 2 * k) == lc(4 - 2 * k));
            }
        }
    }
}

/// The codeword zigzag over a version-`v` symbol passes exactly
/// `spec_num_raw_data_modules(v)` modules that are not function modules:
/// every data module gets a place in the order.
pub proof fn lemma_zigzag_data_modules(v: int)
    requires
        1 <= v <= 40,
    ensures
        light_count(function_grid(v), spec_size(v), num_pairs(spec_size(v)) * (2 * spec_size(v)))
            == crate::params::spec_num_raw_data_modules(v),
{
    let size = spec_size(v);
    let g = function_grid(v);
    let g2 = |x: int, y: int| spec_is_function_module(v, x, y);
    assert(g =~= g2);
    let lc = |x: int| light_in_column(g, size, x);
    lemma_pairs_prefix(g, size, num_pairs(size));
    lemma_data_module_count(v);
    assert(lc(6) == 0) by {
        lemma_count_all(|y: int| !g(6, y), 0, size, false);
    }
    lemma_wsum_split(lc, 0, 6, size);
    lemma_wsum_split(lc, 6, 7, size);
    assert(wsum(lc, 6, 7) == 0) by {
        assert(wsum(lc, 6, 6) == 0);
    }
}

/// A grid that agrees with the function modules of version `v` has
/// `spec_num_raw_data_modules(v)` light modules along the zigzag.
pub proof fn lemma_marked_data_modules(g: spec_fn(int, int) -> bool, v: int)
    requires
        1 <= v <= 40,
        forall|x: int, y: int|
            0 <= x < spec_size(v) && 0 <= y < spec_size(v) ==> #[trigger] g(x, y)
                == spec_is_function_module(v, x, y),
    ensures
        light_count(g, spec_size(v), num_pairs(spec_size(v)) * (2 * spec_size(v)))
            == crate::params::spec_num_raw_data_modules(v),
{
    let size = spec_size(v);
    assert(crate::symbol::grids_agree(g, function_grid(v), size));
    assert(num_pairs(size) * (2 * size) >= 0) by (nonlinear_arith)
        requires
            size >= 21,
            num_pairs(size) >= 0,
    ;
    crate::symbol::lemma_light_count_congruent(g, function_grid(v), size, num_pairs(size) * (2 * size));
    lemma_zigzag_data_modules(v);
}

} // verus!
