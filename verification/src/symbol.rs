//! Assembling a symbol from data codewords: error correction, function
//! patterns, codeword placement, mask choice and format information.
use vstd::prelude::*;
use vstd::arithmetic::div_mod::lemma_fundamental_div_mod_converse;
use crate::bits::bytes_to_bits;
use crate::interleave::spec_interleaved;
use crate::mask::masked_module;
use crate::params::{spec_num_data_codewords, spec_num_raw_data_modules, spec_size, Mask, QrCodeEcc, Version};
use crate::patterns::{
    cheb, finder_light, format_module, lemma_align_gaps, light_module, spec_format_bits,
};
use crate::penalty::{
    lemma_penalty_transposed, transposed, blocks_in_row, blocks_upto, col_cells, cols_penalty, count_true, grid_dark, line_penalty,
    penalty_with_dark, row_cells, rows_penalty, same_block, spec_penalty,
};
use crate::placement::{light_count, order_x, order_y, num_pairs, placed_module, lemma_order_inverse};
use crate::qrcode::{
    align_drawn, in_alignment_area, lemma_area_fits, near_align, same_from,
    spec_alignment_positions, spec_is_function_module, QrCode,
};
use crate::tables::QrTables;

verus! {

/// Whether two grids agree on every module of a size-`size` symbol.
pub open spec fn grids_agree(g1: spec_fn(int, int) -> bool, g2: spec_fn(int, int) -> bool, size: int) -> bool {
    forall|x: int, y: int| 0 <= x < size && 0 <= y < size ==> #[trigger] g1(x, y) == g2(x, y)
}

/// The function modules of a version-`v` symbol, as a grid.
pub open spec fn function_grid(v: int) -> spec_fn(int, int) -> bool {
    |x: int, y: int| spec_is_function_module(v, x, y)
}

/// The bits of the final codeword sequence.
pub open spec fn codeword_bits(data: Seq<u8>, v: int, e: int) -> Seq<bool> {
    bytes_to_bits(spec_interleaved(data, v, e))
}

/// The unmasked symbol: codewords placed around the function patterns, with
/// the light parts of the function patterns and the version information drawn.
pub open spec fn unmasked_grid(data: Seq<u8>, v: int, e: int) -> spec_fn(int, int) -> bool {
    |x: int, y: int|
        light_module(
            v,
            x,
            y,
            placed_module(function_grid(v), spec_size(v), codeword_bits(data, v, e), x, y),
        )
}

/// The symbol under mask `m`, with the format information for `ecl` and `m`.
pub open spec fn masked_grid(data: Seq<u8>, v: int, ecl: QrCodeEcc, m: int) -> spec_fn(int, int) -> bool {
    |x: int, y: int|
        match format_module(spec_size(v), spec_format_bits(ecl, m as u8), x, y) {
            Some(b) => b,
            None => masked_module(
                m,
                spec_is_function_module(v, x, y),
                x,
                y,
                unmasked_grid(data, v, ecl.spec_ordinal())(x, y),
            ),
        }
}

/// The best of the first `k` masks: the first one with the least penalty,
/// with that penalty (the largest `i32` before any mask is tried).
pub open spec fn best_mask_upto(data: Seq<u8>, v: int, ecl: QrCodeEcc, k: int) -> (int, int)
    decreases k,
{
    if k <= 0 {
        (0, i32::MAX as int)
    } else {
        let (m, p) = best_mask_upto(data, v, ecl, k - 1);
        let pk = spec_penalty(masked_grid(data, v, ecl, k - 1), spec_size(v));
        if pk < p {
            (k - 1, pk)
        } else {
            (m, p)
        }
    }
}

/// The mask a symbol gets: the requested one, or else the best of all eight.
pub open spec fn chosen_mask(data: Seq<u8>, v: int, ecl: QrCodeEcc, mask: Option<Mask>) -> int {
    match mask {
        Some(m) => m.0 as int,
        None => best_mask_upto(data, v, ecl, 8).0,
    }
}

/// What `best_mask_upto` finds among the first `k` masks: a mask among them
/// with its penalty, no greater than that of any of them, and lower than
/// that of each before it.
proof fn lemma_best_mask_upto(data: Seq<u8>, v: int, ecl: QrCodeEcc, k: int)
    requires
        1 <= v <= 40,
        1 <= k,
    ensures
        ({
            let (m, p) = best_mask_upto(data, v, ecl, k);
            &&& 0 <= m < k
            &&& p == spec_penalty(masked_grid(data, v, ecl, m), spec_size(v))
            &&& forall|j: int|
                0 <= j < k ==> p <= #[trigger] spec_penalty(masked_grid(data, v, ecl, j), spec_size(v))
            &&& forall|j: int|
                0 <= j < m ==> p < #[trigger] spec_penalty(masked_grid(data, v, ecl, j), spec_size(v))
        }),
    decreases k,
{
    crate::penalty::lemma_penalty_bounds(masked_grid(data, v, ecl, k - 1), spec_size(v));
    if k > 1 {
        lemma_best_mask_upto(data, v, ecl, k - 1);
    }
}

/// With no mask requested, the symbol gets one of the eight masks, no mask
/// gives a lower penalty, and every mask before it gives a higher one.
pub proof fn lemma_auto_mask_is_best(data: Seq<u8>, v: int, ecl: QrCodeEcc)
    requires
        1 <= v <= 40,
    ensures
        0 <= chosen_mask(data, v, ecl, None) < 8,
        forall|j: int|
            0 <= j < 8 ==> spec_penalty(final_grid(data, v, ecl, None), spec_size(v)) <= #[trigger] spec_penalty(
                masked_grid(data, v, ecl, j),
                spec_size(v),
            ),
        forall|j: int|
            0 <= j < chosen_mask(data, v, ecl, None) ==> spec_penalty(
                final_grid(data, v, ecl, None),
                spec_size(v),
            ) < #[trigger] spec_penalty(masked_grid(data, v, ecl, j), spec_size(v)),
{
    lemma_best_mask_upto(data, v, ecl, 8);
}

/// The finished symbol.
pub open spec fn final_grid(data: Seq<u8>, v: int, ecl: QrCodeEcc, mask: Option<Mask>) -> spec_fn(int, int) -> bool {
    masked_grid(data, v, ecl, chosen_mask(data, v, ecl, mask))
}

proof fn lemma_line_congruent(g1: spec_fn(int, int) -> bool, g2: spec_fn(int, int) -> bool, size: int, n: int)
    requires
        grids_agree(g1, g2, size),
        0 <= n <= size,
    ensures
        rows_penalty(g1, size, n) == rows_penalty(g2, size, n),
        cols_penalty(g1, size, n) == cols_penalty(g2, size, n),
    decreases n,
{
    if n > 0 {
        lemma_line_congruent(g1, g2, size, n - 1);
        assert(row_cells(g1, size, n - 1) =~= row_cells(g2, size, n - 1));
        assert(col_cells(g1, size, n - 1) =~= col_cells(g2, size, n - 1));
    }
}

proof fn lemma_blocks_congruent(g1: spec_fn(int, int) -> bool, g2: spec_fn(int, int) -> bool, size: int, n: int)
    requires
        grids_agree(g1, g2, size),
        0 <= n <= size - 1,
    ensures
        blocks_upto(g1, size, n) == blocks_upto(g2, size, n),
    decreases n,
{
    if n > 0 {
        lemma_blocks_congruent(g1, g2, size, n - 1);
        lemma_row_blocks_congruent(g1, g2, size, n - 1, size - 1);
    }
}

proof fn lemma_row_blocks_congruent(g1: spec_fn(int, int) -> bool, g2: spec_fn(int, int) -> bool, size: int, y: int, n: int)
    requires
        grids_agree(g1, g2, size),
        0 <= y < size - 1,
        0 <= n <= size - 1,
    ensures
        blocks_in_row(g1, y, n) == blocks_in_row(g2, y, n),
    decreases n,
{
    if n > 0 {
        lemma_row_blocks_congruent(g1, g2, size, y, n - 1);
        assert(same_block(g1, n - 1, y) == same_block(g2, n - 1, y));
    }
}

proof fn lemma_dark_congruent(g1: spec_fn(int, int) -> bool, g2: spec_fn(int, int) -> bool, size: int, n: int)
    requires
        grids_agree(g1, g2, size),
        size >= 1,
        0 <= n <= size * size,
    ensures
        grid_dark(g1, size, n) == grid_dark(g2, size, n),
    decreases n,
{
    if n > 0 {
        lemma_dark_congruent(g1, g2, size, n - 1);
        let i = n - 1;
        assert(0 <= i / size < size && 0 <= i % size < size) by (nonlinear_arith)
            requires
                0 <= i < size * size,
                size >= 1,
        ;
    }
}

/// The penalty depends only on the modules of the symbol.
pub proof fn lemma_penalty_congruent(g1: spec_fn(int, int) -> bool, g2: spec_fn(int, int) -> bool, size: int, dark: int)
    requires
        grids_agree(g1, g2, size),
        size >= 1,
    ensures
        penalty_with_dark(g1, size, dark) == penalty_with_dark(g2, size, dark),
        spec_penalty(g1, size) == spec_penalty(g2, size),
{
    lemma_line_congruent(g1, g2, size, size);
    lemma_blocks_congruent(g1, g2, size, size - 1);
    assert(size * size >= 0) by (nonlinear_arith);
    lemma_dark_congruent(g1, g2, size, size * size);
}

/// Counting set bits of a symbol with clear tail counts its dark modules.
pub proof fn lemma_dark_count(qr: QrCode, n: int)
    requires
        qr.wf(),
        qr.tail_clear(),
        0 <= n <= qr.bits().len(),
    ensures
        count_true(qr.bits(), n) == grid_dark(qr.grid(), qr.size as int, if n < qr.area() {
            n
        } else {
            qr.area()
        }),
    decreases n,
{
    lemma_area_fits(qr);
    if n > 0 {
        lemma_dark_count(qr, n - 1);
        let i = n - 1;
        let s = qr.size as int;
        if i < qr.area() {
            assert(0 <= i / s < s && 0 <= i % s < s && i == (i / s) * s + i % s) by (nonlinear_arith)
                requires
                    0 <= i < s * s,
                    s >= 1,
            ;
            assert(qr.grid()(i % s, i / s) == qr.bits()[i]);
        }
    }
}

/// The zigzag counts depend only on the modules of the symbol.
pub proof fn lemma_light_count_congruent(g1: spec_fn(int, int) -> bool, g2: spec_fn(int, int) -> bool, size: int, t: int)
    requires
        grids_agree(g1, g2, size),
        21 <= size <= 177,
        size % 2 == 1,
        0 <= t <= num_pairs(size) * (2 * size),
    ensures
        light_count(g1, size, t) == light_count(g2, size, t),
    decreases t,
{
    if t > 0 {
        lemma_light_count_congruent(g1, g2, size, t - 1);
        let u = t - 1;
        let c = u / (2 * size);
        let rem = u % (2 * size);
        assert(0 <= c < num_pairs(size) && 0 <= rem < 2 * size && u == c * (2 * size) + rem)
            by (nonlinear_arith)
            requires
                0 <= u < num_pairs(size) * (2 * size),
                size >= 1,
                c == u / (2 * size),
                rem == u % (2 * size),
        ;
        let vert = rem / 2;
        let j = rem % 2;
        lemma_order_inverse(size, c, vert, j);
    }
}

/// Format information lies on function modules.
pub proof fn lemma_format_is_function(v: int, bits: u32, x: int, y: int)
    requires
        1 <= v <= 40,
        0 <= x < spec_size(v),
        0 <= y < spec_size(v),
        format_module(spec_size(v), bits, x, y).is_some(),
    ensures
        spec_is_function_module(v, x, y),
{
}

/// A symbol whose bits after the last module are unchanged keeps a clear tail.
pub proof fn lemma_tail_kept(a: QrCode, b: QrCode)
    requires
        a.tail_clear(),
        b.size == a.size,
        same_from(b.bits(), a.bits(), a.area()),
    ensures
        b.tail_clear(),
{
    assert forall|i: int| b.area() <= i < b.bits().len() implies !#[trigger] b.bits()[i] by {
        assert(a.bits()[i] == b.bits()[i]);
    }
}

/// The state of the symbol while masks are tried: the unmasked symbol, with
/// the format information of the last mask tried, if any.
pub open spec fn trial_grid(data: Seq<u8>, v: int, ecl: QrCodeEcc, tried: int) -> spec_fn(int, int) -> bool {
    |x: int, y: int|
        if tried == 0 {
            unmasked_grid(data, v, ecl.spec_ordinal())(x, y)
        } else {
            match format_module(spec_size(v), spec_format_bits(ecl, (tried - 1) as u8), x, y) {
                Some(b) => b,
                None => unmasked_grid(data, v, ecl.spec_ordinal())(x, y),
            }
        }
}

/// Whether (`x`, `y`) lies in the finder pattern centred at (`cx`, `cy`) or
/// in its separator.
pub open spec fn in_finder_area(cx: int, cy: int, x: int, y: int) -> bool {
    cheb(cx, cy, x, y) <= 4
}

/// Whether a module at Chebyshev distance `d` from a finder centre is dark:
/// the centre 3x3 block and the outer ring are, the ring between them and
/// the separator are not.
pub open spec fn finder_module_dark(d: int) -> bool {
    d != 2 && d != 4
}

/// No drawn alignment pattern comes within distance 1 of a finder pattern
/// or its separator.
proof fn lemma_align_clear_of_finders(v: int, x: int, y: int)
    requires
        1 <= v <= 40,
        0 <= x < spec_size(v),
        0 <= y < spec_size(v),
        in_finder_area(3, 3, x, y) || in_finder_area(spec_size(v) - 4, 3, x, y) || in_finder_area(
            3,
            spec_size(v) - 4,
            x,
            y,
        ),
    ensures
        !in_alignment_area(v, x, y, 1),
{
    lemma_align_gaps(v);
    let pos = spec_alignment_positions(v);
    let n = pos.len() as int;
    let size = spec_size(v);
    if in_alignment_area(v, x, y, 1) {
        let (i, j) = choose|i: int, j: int|
            #![trigger near_align(pos, i, j, x, y, 1)]
            align_drawn(i, j, n) && (i < n || (i == n && j < 0)) && near_align(pos, i, j, x, y, 1);
        assert(pos[0] == 6);
        assert(pos[n - 1] == size - 7);
        if i > 0 {
            assert(pos[i] - pos[0] >= 12);
        }
        if i < n - 1 {
            assert(pos[n - 1] - pos[i] >= 12);
        }
        if j > 0 {
            assert(pos[j] - pos[0] >= 12);
        }
        if j < n - 1 {
            assert(pos[n - 1] - pos[j] >= 12);
        }
    }
}

/// Every symbol shows the three finder patterns with their separators, in
/// its top-left, top-right and bottom-left corners, and the dark module
/// beside the bottom-left one, whatever its data, level and mask.
pub proof fn lemma_finder_patterns(data: Seq<u8>, v: int, ecl: QrCodeEcc, mask: Option<Mask>)
    requires
        1 <= v <= 40,
    ensures
        forall|x: int, y: int|
            0 <= x < spec_size(v) && 0 <= y < spec_size(v) && in_finder_area(3, 3, x, y) ==> #[trigger] final_grid(
                data,
                v,
                ecl,
                mask,
            )(x, y) == finder_module_dark(cheb(3, 3, x, y)),
        forall|x: int, y: int|
            0 <= x < spec_size(v) && 0 <= y < spec_size(v) && in_finder_area(spec_size(v) - 4, 3, x, y)
                ==> #[trigger] final_grid(data, v, ecl, mask)(x, y) == finder_module_dark(
                cheb(spec_size(v) - 4, 3, x, y),
            ),
        forall|x: int, y: int|
            0 <= x < spec_size(v) && 0 <= y < spec_size(v) && in_finder_area(3, spec_size(v) - 4, x, y)
                ==> #[trigger] final_grid(data, v, ecl, mask)(x, y) == finder_module_dark(
                cheb(3, spec_size(v) - 4, x, y),
            ),
        final_grid(data, v, ecl, mask)(8, spec_size(v) - 8),
{
    let size = spec_size(v);
    let m = chosen_mask(data, v, ecl, mask);
    assert forall|x: int, y: int|
        0 <= x < size && 0 <= y < size && (in_finder_area(3, 3, x, y) || in_finder_area(size - 4, 3, x, y)
            || in_finder_area(3, size - 4, x, y)) implies #[trigger] final_grid(data, v, ecl, mask)(x, y)
        == !finder_light(size, x, y) by {
        lemma_align_clear_of_finders(v, x, y);
        assert(format_module(size, spec_format_bits(ecl, m as u8), x, y) is None);
        assert(spec_is_function_module(v, x, y));
        assert(function_grid(v)(x, y));
    }
}

/// The penalty score of a finished symbol is the penalty of the grid it
/// holds.
proof fn lemma_score_of_grid(q: QrCode, g: spec_fn(int, int) -> bool)
    requires
        q.wf(),
        q.tail_clear(),
        grids_agree(q.grid(), g, q.size as int),
    ensures
        q.penalty_score() == spec_penalty(g, q.size as int),
{
    let sz = q.size as int;
    lemma_area_fits(q);
    lemma_dark_count(q, q.bits().len() as int);
    lemma_penalty_congruent(q.grid(), g, sz, grid_dark(q.grid(), sz, sz * sz));
}

/// Rows and columns are scored alike: a symbol whose modules are those of
/// another mirrored along the main diagonal has the same penalty score.
pub proof fn lemma_penalty_score_transposed(a: QrCode, b: QrCode)
    requires
        a.wf(),
        b.wf(),
        a.size == b.size,
        a.tail_clear(),
        b.tail_clear(),
        forall|x: int, y: int| 0 <= x < a.size && 0 <= y < a.size ==> #[trigger] b.module(x, y) == a.module(y, x),
    ensures
        b.penalty_score() == a.penalty_score(),
{
    let sz = a.size as int;
    lemma_score_of_grid(a, a.grid());
    assert(grids_agree(b.grid(), transposed(a.grid()), sz));
    lemma_score_of_grid(b, transposed(a.grid()));
    lemma_penalty_transposed(a.grid(), sz);
}

/// The symbol that `encode_codewords` builds with automatic mask choice is
/// the one it builds with the first mask of least penalty score: compared
/// with the symbol built under any explicit mask, its score is no higher,
/// it is strictly lower when that mask comes before the chosen one, and the
/// two symbols are equal when the masks are the same.
pub proof fn lemma_auto_symbol_is_best(
    data: Seq<u8>,
    v: int,
    ecl: QrCodeEcc,
    auto: QrCode,
    fixed: QrCode,
    m: Mask,
)
    requires
        1 <= v <= 40,
        m.wf(),
        auto.wf(),
        auto.tail_clear(),
        auto.size == spec_size(v),
        grids_agree(auto.grid(), final_grid(data, v, ecl, None), auto.size as int),
        fixed.wf(),
        fixed.tail_clear(),
        fixed.size == spec_size(v),
        grids_agree(fixed.grid(), final_grid(data, v, ecl, Some(m)), fixed.size as int),
    ensures
        0 <= chosen_mask(data, v, ecl, None) < 8,
        auto.penalty_score() <= fixed.penalty_score(),
        m.0 < chosen_mask(data, v, ecl, None) ==> auto.penalty_score() < fixed.penalty_score(),
        m.0 == chosen_mask(data, v, ecl, None) ==> auto.modules@ == fixed.modules@,
{
    lemma_auto_mask_is_best(data, v, ecl);
    lemma_score_of_grid(auto, final_grid(data, v, ecl, None));
    lemma_score_of_grid(fixed, final_grid(data, v, ecl, Some(m)));
    assert(final_grid(data, v, ecl, Some(m)) == masked_grid(data, v, ecl, m.0 as int));
    if m.0 == chosen_mask(data, v, ecl, None) {
        assert forall|x: int, y: int| 0 <= x < auto.size && 0 <= y < auto.size implies #[trigger] auto.module(x, y)
            == fixed.module(x, y) by {
            assert(auto.grid()(x, y) == final_grid(data, v, ecl, None)(x, y));
            assert(fixed.grid()(x, y) == final_grid(data, v, ecl, Some(m))(x, y));
        }
        crate::qrcode::lemma_same_modules(auto, fixed);
    }
}

impl QrCode {
    /// Applies `mask` to a trial state and draws its format information;
    /// the result is the symbol under that mask.
    fn apply_candidate(&mut self, funcmods: &QrCode, ecl: QrCodeEcc, mask: Mask, Ghost(data): Ghost<Seq<u8>>, Ghost(tried): Ghost<int>)
        requires
            old(self).wf(),
            old(self).tail_clear(),
            funcmods.wf(),
            funcmods.size == old(self).size,
            mask.wf(),
            1 <= old(self).spec_version() <= 40,
            0 <= tried <= 8,
            grids_agree(funcmods.grid(), function_grid(old(self).spec_version()), old(self).size as int),
            grids_agree(old(self).grid(), trial_grid(data, old(self).spec_version(), ecl, tried), old(self).size as int),
            old(self).size == spec_size(old(self).spec_version()),
        ensures
            final(self).wf(),
            final(self).tail_clear(),
            final(self).size == old(self).size,
            grids_agree(final(self).grid(), masked_grid(data, old(self).spec_version(), ecl, mask.0 as int), old(self).size as int),
    {
        let ghost a = *self;
        let ghost v = a.spec_version();
        self.apply_mask(funcmods, mask);
        let ghost b = *self;
        self.draw_format_bits(ecl, mask);
        proof {
            lemma_tail_kept(a, b);
            lemma_tail_kept(b, *self);
            assert forall|x: int, y: int| 0 <= x < a.size && 0 <= y < a.size implies #[trigger] self.grid()(x, y)
                == masked_grid(data, v, ecl, mask.0 as int)(x, y) by {
                assert(funcmods.grid()(x, y) == function_grid(v)(x, y));
                assert(a.grid()(x, y) == trial_grid(data, v, ecl, tried)(x, y));
                if tried > 0 && format_module(spec_size(v), spec_format_bits(ecl, (tried - 1) as u8), x, y).is_some() {
                    lemma_format_is_function(v, spec_format_bits(ecl, (tried - 1) as u8), x, y);
                }
                if format_module(spec_size(v), spec_format_bits(ecl, mask.0), x, y).is_none() && tried > 0 {
                    assert(format_module(spec_size(v), spec_format_bits(ecl, (tried - 1) as u8), x, y).is_none());
                }
            }
        }
    }
}

impl QrCode {
    /// Builds the symbol of the given version and level from its data
    /// codewords: adds error correction, draws the function patterns and the
    /// codewords, then applies the requested mask, or else the mask with the
    /// least penalty (the first such), and draws the format information.
    /// The zigzag passes enough data modules for every codeword bit: exactly
    /// the remainder bits (`spec_num_raw_data_modules % 8`) are left over.
    #[verifier::rlimit(40)]
    pub fn encode_codewords(
        tables: &QrTables,
        datacodewords: &[u8],
        ecl: QrCodeEcc,
        version: Version,
        mask: Option<Mask>,
    ) -> (r: QrCode)
        requires
            tables.wf(),
            version.wf(),
            datacodewords.len() == spec_num_data_codewords(version.0 as int, ecl.spec_ordinal()),
            mask.is_some() ==> mask.unwrap().wf(),
        ensures
            r.wf(),
            r.size == spec_size(version.0 as int),
            r.spec_version() == version.0 as int,
            r.tail_clear(),
            grids_agree(r.grid(), final_grid(datacodewords@, version.0 as int, ecl, mask), r.size as int),
            light_count(
                function_grid(version.0 as int),
                r.size as int,
                num_pairs(r.size as int) * (2 * r.size),
            ) == codeword_bits(datacodewords@, version.0 as int, ecl.spec_ordinal()).len()
                + spec_num_raw_data_modules(version.0 as int) % 8,
    {
        proof {
            crate::layout::lemma_zigzag_data_modules(version.0 as int);
        }
        let ghost v = version.0 as int;
        let ghost e = ecl.spec_ordinal();
        let ghost data = datacodewords@;
        let allcodewords = QrCode::add_ecc_and_interleave(tables, datacodewords, version, ecl);
        proof {
            crate::interleave::lemma_layout(v, e);
        }
        let mut result = QrCode::function_modules_marked(version);
        let ghost f = result;
        result.draw_codewords(&allcodewords);
        let ghost p = result;
        result.draw_light_function_modules();
        let funcmods = QrCode::function_modules_marked(version);
        let ghost sz = result.size as int;
        proof {
            assert(sz % 2 == 1);
            lemma_tail_kept(f, p);
            lemma_tail_kept(p, result);
            assert(grids_agree(f.grid(), function_grid(v), sz));
            assert(grids_agree(funcmods.grid(), function_grid(v), sz));
            assert forall|x: int, y: int| 0 <= x < sz && 0 <= y < sz implies #[trigger] result.grid()(x, y)
                == trial_grid(data, v, ecl, 0)(x, y) by {
                if x != 6 {
                    crate::placement::lemma_order(sz, x, y);
                    lemma_light_count_congruent(
                        f.grid(),
                        function_grid(v),
                        sz,
                        crate::placement::order_index(sz, x, y),
                    );
                }
                assert(p.grid()(x, y) == placed_module(function_grid(v), sz, codeword_bits(data, v, e), x, y));
            }
        }
        let mut chosen = mask;
        if chosen.is_none() {
            let mut minpenalty = i32::MAX;
            let mut i: u8 = 0;
            while i < 8
                invariant
                    result.wf(),
                    result.tail_clear(),
                    result.size as int == sz,
                    sz == spec_size(v),
                    result.spec_version() == v,
                    1 <= v <= 40,
                    funcmods.wf(),
                    funcmods.size as int == sz,
                    grids_agree(funcmods.grid(), function_grid(v), sz),
                    i <= 8,
                    grids_agree(result.grid(), trial_grid(data, v, ecl, i as int), sz),
                    i == 0 ==> chosen.is_none(),
                    i > 0 ==> chosen == Some(Mask(best_mask_upto(data, v, ecl, i as int).0 as u8)),
                    0 <= best_mask_upto(data, v, ecl, i as int).0 < 8,
                    i > 0 ==> best_mask_upto(data, v, ecl, i as int).0 < i,
                    minpenalty as int == best_mask_upto(data, v, ecl, i as int).1,
                decreases 8 - i,
            {
                let candidate = Mask::new(i);
                result.apply_candidate(&funcmods, ecl, candidate, Ghost(data), Ghost(i as int));
                let penalty = result.get_penalty_score();
                proof {
                    lemma_area_fits(result);
                    lemma_dark_count(result, result.bits().len() as int);
                    lemma_penalty_congruent(
                        result.grid(),
                        masked_grid(data, v, ecl, i as int),
                        sz,
                        grid_dark(result.grid(), sz, sz * sz),
                    );
                    assert(penalty == spec_penalty(masked_grid(data, v, ecl, i as int), sz));
                }
                if penalty < minpenalty {
                    chosen = Some(candidate);
                    minpenalty = penalty;
                }
                let ghost q = result;
                result.apply_mask(&funcmods, candidate);
                proof {
                    lemma_tail_kept(q, result);
                    assert forall|x: int, y: int| 0 <= x < sz && 0 <= y < sz implies #[trigger] result.grid()(x, y)
                        == trial_grid(data, v, ecl, i + 1)(x, y) by {
                        assert(funcmods.grid()(x, y) == function_grid(v)(x, y));
                        assert(q.grid()(x, y) == masked_grid(data, v, ecl, i as int)(x, y));
                        if format_module(sz, spec_format_bits(ecl, i), x, y).is_some() {
                            lemma_format_is_function(v, spec_format_bits(ecl, i), x, y);
                        }
                    }
                }
                i = i + 1;
            }
        }
        let m = chosen.unwrap();
        result.apply_candidate(&funcmods, ecl, m, Ghost(data), Ghost(if mask.is_some() { 0 } else { 8 }));
        result
    }
}

} // verus!
