//! The eight data masks and their application to the non-function modules.
use vstd::prelude::*;
use crate::params::Mask;
use crate::qrcode::{lemma_set_module, same_from, QrCode};

verus! {

/// Whether mask `m` inverts the module in column `x`, row `y`.
pub open spec fn spec_mask_pattern(m: int, x: int, y: int) -> bool {
    if m == 0 {
        (x + y) % 2 == 0
    } else if m == 1 {
        y % 2 == 0
    } else if m == 2 {
        x % 3 == 0
    } else if m == 3 {
        (x + y) % 3 == 0
    } else if m == 4 {
        (x / 3 + y / 2) % 2 == 0
    } else if m == 5 {
        (x * y) % 2 + (x * y) % 3 == 0
    } else if m == 6 {
        ((x * y) % 2 + (x * y) % 3) % 2 == 0
    } else {
        ((x + y) % 2 + (x * y) % 3) % 2 == 0
    }
}

/// The module value after masking: non-function modules selected by the
/// mask pattern are inverted.
pub open spec fn masked_module(m: int, func: bool, x: int, y: int, cur: bool) -> bool {
    if !func && spec_mask_pattern(m, x, y) {
        !cur
    } else {
        cur
    }
}

proof fn lemma_and1(n: u16)
    ensures
        (n & 1u16 == 0u16) == (n % 2 == 0),
{
    assert((n & 1u16 == 0u16) == (n % 2 == 0)) by (bit_vector);
}

/// Whether mask `mask` inverts the module at (`x`, `y`).
pub fn mask_should_invert(mask: Mask, x: u8, y: u8) -> (r: bool)
    requires
        mask.wf(),
    ensures
        r == spec_mask_pattern(mask.0 as int, x as int, y as int),
{
    let xs = x as u16;
    let ys = y as u16;
    let sum = xs + ys;
    let q = x / 3 + y / 2;
    assert(xs * ys <= 255 * 255) by (nonlinear_arith)
        requires
            xs <= 255,
            ys <= 255,
    ;
    let xy = xs * ys;
    let m56 = xy % 2 + xy % 3;
    proof {
        lemma_and1(sum);
        lemma_and1(ys);
        lemma_and1(q as u16);
        assert((q & 1u8 == 0u8) == ((q as u16) & 1u16 == 0u16)) by (bit_vector);
        lemma_and1(m56);
        assert((sum & 1u16) <= 1) by (bit_vector);
    }
    let m7 = (sum & 1) + xy % 3;
    proof {
        lemma_and1(m7);
    }
    match mask.value() {
        0 => sum & 1 == 0,
        1 => ys & 1 == 0,
        2 => x % 3 == 0,
        3 => sum % 3 == 0,
        4 => q & 1 == 0,
        5 => m56 == 0,
        6 => m56 & 1 == 0,
        _ => m7 & 1 == 0,
    }
}

impl QrCode {
    /// Inverts every non-function module (dark in `functionmodules`) that
    /// the mask pattern selects.
    pub fn apply_mask_with(&mut self, functionmodules: &QrCode, mask: Mask)
        requires
            old(self).wf(),
            functionmodules.wf(),
            functionmodules.size == old(self).size,
            mask.wf(),
        ensures
            final(self).wf(),
            final(self).size == old(self).size,
            same_from(final(self).bits(), old(self).bits(), old(self).area()),
            forall|x: int, y: int|
                0 <= x < old(self).size && 0 <= y < old(self).size ==> #[trigger] final(self).module(x, y)
                    == masked_module(
                    mask.0 as int,
                    functionmodules.module(x, y),
                    x,
                    y,
                    old(self).module(x, y),
                ),
    {
        let ghost a = *self;
        let size = self.size;
        let mut y: u8 = 0;
        while y < size
            invariant
                self.wf(),
                self.size == size,
                a.size == size,
                a.wf(),
                functionmodules.wf(),
                functionmodules.size == size,
                mask.wf(),
                y <= size,
                forall|x2: int, y2: int|
                    0 <= x2 < size && 0 <= y2 < size ==> #[trigger] self.module(x2, y2) == if y2 < y {
                        masked_module(mask.0 as int, functionmodules.module(x2, y2), x2, y2, a.module(x2, y2))
                    } else {
                        a.module(x2, y2)
                    },
                same_from(self.bits(), a.bits(), a.area()),
            decreases size - y,
        {
            let mut x: u8 = 0;
            while x < size
                invariant
                    self.wf(),
                    self.size == size,
                    a.size == size,
                    a.wf(),
                    functionmodules.wf(),
                    functionmodules.size == size,
                    mask.wf(),
                    y < size,
                    x <= size,
                    forall|x2: int, y2: int|
                        0 <= x2 < size && 0 <= y2 < size ==> #[trigger] self.module(x2, y2) == if y2 < y
                            || (y2 == y && x2 < x) {
                            masked_module(mask.0 as int, functionmodules.module(x2, y2), x2, y2, a.module(x2, y2))
                        } else {
                            a.module(x2, y2)
                        },
                    same_from(self.bits(), a.bits(), a.area()),
                decreases size - x,
            {
                if !functionmodules.get_module_bounded(x, y) && mask_should_invert(mask, x, y) {
                    let ghost b = *self;
                    let cur = self.get_module_bounded(x, y);
                    self.flip_module_bounded(x, y);
                    proof {
                        lemma_set_module(b, *self, x as int, y as int, !cur);
                    }
                }
                x = x + 1;
            }
            y = y + 1;
        }
    }

    /// Applies mask `mask` to the non-function modules. Applying the same
    /// mask twice restores the symbol.
    pub fn apply_mask(&mut self, functionmodules: &QrCode, mask: Mask)
        requires
            old(self).wf(),
            functionmodules.wf(),
            functionmodules.size == old(self).size,
            mask.wf(),
        ensures
            final(self).wf(),
            final(self).size == old(self).size,
            same_from(final(self).bits(), old(self).bits(), old(self).area()),
            forall|x: int, y: int|
                0 <= x < old(self).size && 0 <= y < old(self).size ==> #[trigger] final(self).module(x, y)
                    == masked_module(
                    mask.0 as int,
                    functionmodules.module(x, y),
                    x,
                    y,
                    old(self).module(x, y),
                ),
    {
        self.apply_mask_with(functionmodules, mask);
    }
}

/// Applying the same mask twice gives back the symbol: when `b` is `a` with
/// mask `m` applied, as `apply_mask` leaves it, and `c` is `b` with `m`
/// applied, then `c` holds exactly the modules of `a`.
pub proof fn lemma_apply_mask_twice(a: QrCode, b: QrCode, c: QrCode, funcs: QrCode, m: Mask)
    requires
        a.wf(),
        funcs.wf(),
        m.wf(),
        funcs.size == a.size,
        b.size == a.size,
        c.size == a.size,
        same_from(b.bits(), a.bits(), a.area()),
        forall|x: int, y: int|
            0 <= x < a.size && 0 <= y < a.size ==> #[trigger] b.module(x, y) == masked_module(
                m.0 as int,
                funcs.module(x, y),
                x,
                y,
                a.module(x, y),
            ),
        same_from(c.bits(), b.bits(), b.area()),
        forall|x: int, y: int|
            0 <= x < b.size && 0 <= y < b.size ==> #[trigger] c.module(x, y) == masked_module(
                m.0 as int,
                funcs.module(x, y),
                x,
                y,
                b.module(x, y),
            ),
    ensures
        c.modules@ == a.modules@,
{
    let s = a.size as int;
    assert forall|k: int| 0 <= k < c.bits().len() implies c.bits()[k] == a.bits()[k] by {
        if k < s * s {
            let x = k % s;
            let y = k / s;
            assert(0 <= x < s && 0 <= y < s && k == y * s + x) by (nonlinear_arith)
                requires
                    0 <= k < s * s,
                    s >= 1,
                    x == k % s,
                    y == k / s,
            ;
            assert(c.module(x, y) == a.module(x, y));
        }
    }
    assert(c.bits() =~= a.bits());
    crate::qrcode::lemma_packed_bits_injective(c.modules@, a.modules@);
}

} // verus!
