//! Drawing the light parts of the function patterns, the version
//! information and the format information.
use vstd::prelude::*;
use crate::bits::u32_bit;
use crate::params::{spec_size, Mask, QrCodeEcc, Version};
use crate::qrcode::{
    align_drawn, in_alignment_area, lemma_align_facts, lemma_set_module, near_align,
    near_align_before, same_from, spec_align_step, spec_alignment_positions, spec_num_align,
    QrCode,
};

verus! {

/// Remainder computation of the BCH codes of the format and version
/// information: `steps` times, shift left and subtract the generator `gen`
/// whenever the bit at position `top` was set.
pub open spec fn bch_remainder(data: u32, steps: nat, top: u32, gen: u32) -> u32
    decreases steps,
{
    if steps == 0 {
        data
    } else {
        let rem = bch_remainder(data, (steps - 1) as nat, top, gen);
        (rem << 1u32) ^ (((rem >> top) * gen) as u32)
    }
}

/// The 15 format bits for a level and mask: five data bits, ten BCH bits,
/// then masked with 0x5412.
pub open spec fn spec_format_bits(ecl: QrCodeEcc, mask: u8) -> u32 {
    let data = ((ecl.spec_format_bits() << 3u8) | mask) as u32;
    ((data << 10u32) | bch_remainder(data, 10, 9, 0x537)) ^ 0x5412u32
}

/// The 18 version bits: six data bits then twelve BCH bits.
pub open spec fn spec_version_bits(v: u32) -> u32 {
    (v << 12u32) | bch_remainder(v, 12, 11, 0x1F25)
}

/// The module of a size-`size` symbol that format bit drawing sets at
/// (`x`, `y`), with its value; `None` for modules it leaves alone.
pub open spec fn format_module(size: int, bits: u32, x: int, y: int) -> Option<bool> {
    if x == 8 && 0 <= y < 6 {
        Some(u32_bit(bits, y))
    } else if x == 8 && y == 7 {
        Some(u32_bit(bits, 6))
    } else if x == 8 && y == 8 {
        Some(u32_bit(bits, 7))
    } else if x == 7 && y == 8 {
        Some(u32_bit(bits, 8))
    } else if y == 8 && 0 <= x < 6 {
        Some(u32_bit(bits, 14 - x))
    } else if y == 8 && size - 8 <= x < size {
        Some(u32_bit(bits, size - 1 - x))
    } else if x == 8 && y == size - 8 {
        Some(true)
    } else if x == 8 && size - 7 <= y < size {
        Some(u32_bit(bits, y - size + 15))
    } else {
        None
    }
}

proof fn lemma_format_step(rem: u32)
    requires
        rem < 1024,
    ensures
        (rem >> 9u32) <= 1,
        ((rem << 1u32) ^ (((rem >> 9u32) * 0x537u32) as u32)) < 1024,
{
    assert((rem >> 9u32) <= 1) by (bit_vector)
        requires
            rem < 1024,
    ;
    assert(((rem << 1u32) ^ (((rem >> 9u32) * 0x537u32) as u32)) < 1024) by (bit_vector)
        requires
            rem < 1024,
    ;
}

proof fn lemma_version_step(rem: u32)
    requires
        rem < 4096,
    ensures
        (rem >> 11u32) <= 1,
        ((rem << 1u32) ^ (((rem >> 11u32) * 0x1F25u32) as u32)) < 4096,
{
    assert((rem >> 11u32) <= 1) by (bit_vector)
        requires
            rem < 4096,
    ;
    assert(((rem << 1u32) ^ (((rem >> 11u32) * 0x1F25u32) as u32)) < 4096) by (bit_vector)
        requires
            rem < 4096,
    ;
}

/// Computes the 15 format bits for a level and mask.
fn format_bits_for(ecl: QrCodeEcc, mask: Mask) -> (r: u32)
    requires
        mask.wf(),
    ensures
        r == spec_format_bits(ecl, mask.0),
        r < 32768,
{
    let eb = ecl.format_bits();
    let m = mask.value();
    assert(eb < 4 && m <= 7 ==> (eb << 3u8) | m < 32) by (bit_vector);
    let data: u32 = (eb << 3 | m) as u32;
    let mut rem = data;
    let mut i: u32 = 0;
    while i < 10
        invariant
            i <= 10,
            data < 32,
            rem < 1024,
            rem == bch_remainder(data, i as nat, 9, 0x537),
        decreases 10 - i,
    {
        proof {
            lemma_format_step(rem);
        }
        rem = (rem << 1) ^ ((rem >> 9) * 0x537);
        i = i + 1;
    }
    assert(data < 32 && rem < 1024 ==> ((data << 10u32) | rem) ^ 0x5412u32 < 32768) by (bit_vector);
    (data << 10 | rem) ^ 0x5412
}

/// Whether (`x`, `y`) is a light module of the timing patterns: the odd
/// positions between the finder patterns on row 6 and column 6.
pub open spec fn timing_light(size: int, x: int, y: int) -> bool {
    (x == 6 && 7 <= y < size - 7 && y % 2 == 1) || (y == 6 && 7 <= x < size - 7 && x % 2 == 1)
}

pub open spec fn abs(a: int) -> int {
    if a < 0 {
        -a
    } else {
        a
    }
}

/// Chebyshev distance between (`x`, `y`) and (`cx`, `cy`).
pub open spec fn cheb(cx: int, cy: int, x: int, y: int) -> int {
    if abs(x - cx) < abs(y - cy) {
        abs(y - cy)
    } else {
        abs(x - cx)
    }
}

/// Whether (`x`, `y`) is on a light ring (distance 2 or 4) around the centre
/// of one of the three finder patterns.
pub open spec fn finder_light(size: int, x: int, y: int) -> bool {
    ||| cheb(3, 3, x, y) == 2 || cheb(3, 3, x, y) == 4
    ||| cheb(size - 4, 3, x, y) == 2 || cheb(size - 4, 3, x, y) == 4
    ||| cheb(3, size - 4, x, y) == 2 || cheb(3, size - 4, x, y) == 4
}

/// Whether (`x`, `y`) is the centre of a drawn alignment pattern.
pub open spec fn align_center(pos: Seq<int>, x: int, y: int) -> bool {
    exists|i: int, j: int|
        #![trigger near_align(pos, i, j, x, y, 0)]
        align_drawn(i, j, pos.len() as int) && near_align(pos, i, j, x, y, 0)
}

/// The module of a size-`size` symbol that version information sets at
/// (`x`, `y`), with its value; `None` outside the two version areas.
pub open spec fn version_module(size: int, vbits: u32, x: int, y: int) -> Option<bool> {
    if size - 11 <= x < size - 8 && 0 <= y < 6 {
        Some(u32_bit(vbits, y * 3 + (x - (size - 11))))
    } else if 0 <= x < 6 && size - 11 <= y < size - 8 {
        Some(u32_bit(vbits, x * 3 + (y - (size - 11))))
    } else {
        None
    }
}

/// The value of module (`x`, `y`) of a version-`v` symbol after the light
/// parts of the function patterns and the version information are drawn
/// over a module of value `m`.
pub open spec fn light_module(v: int, x: int, y: int, m: bool) -> bool {
    let size = spec_size(v);
    if v >= 7 && version_module(size, spec_version_bits(v as u32), x, y).is_some() {
        version_module(size, spec_version_bits(v as u32), x, y).unwrap()
    } else if in_alignment_area(v, x, y, 1) {
        align_center(spec_alignment_positions(v), x, y)
    } else if finder_light(size, x, y) {
        false
    } else if timing_light(size, x, y) {
        false
    } else {
        m
    }
}

/// The alignment coordinates are at least 12 apart.
pub proof fn lemma_align_gaps(v: int)
    requires
        1 <= v <= 40,
    ensures
        forall|k1: int, k2: int|
            0 <= k1 < k2 < spec_num_align(v) ==> #[trigger] spec_alignment_positions(v)[k2]
                - #[trigger] spec_alignment_positions(v)[k1] >= 12,
        forall|k: int|
            0 <= k < spec_num_align(v) ==> 6 <= #[trigger] spec_alignment_positions(v)[k]
                <= spec_size(v) - 7,
{
    if v >= 2 {
        lemma_align_facts(v);
        let na = spec_num_align(v);
        let st = spec_align_step(v);
        let pos = spec_alignment_positions(v);
        assert forall|k1: int, k2: int| 0 <= k1 < k2 < na implies #[trigger] pos[k2]
            - #[trigger] pos[k1] >= 12 by {
            assert((na - 1 - k2) * st <= (na - 2) * st) by (nonlinear_arith)
                requires
                    1 <= k2 < na,
                    st >= 0,
            ;
            if k1 > 0 {
                assert((na - 1 - k1) * st - (na - 1 - k2) * st >= st) by (nonlinear_arith)
                    requires
                        k1 < k2,
                        st >= 0,
            ;
            }
        }
        assert forall|k: int| 0 <= k < na implies 6 <= #[trigger] pos[k] <= spec_size(v) - 7 by {
            if k > 0 {
                assert((na - 1 - k) * st <= (na - 2) * st) by (nonlinear_arith)
                    requires
                        1 <= k < na,
                        st >= 0,
                ;
                assert((na - 1 - k) * st >= 0) by (nonlinear_arith)
                    requires
                        k < na,
                        st >= 0,
                ;
            }
        }
    }
}

/// Distinct drawn alignment patterns do not overlap within distance 1.
pub proof fn lemma_align_disjoint(v: int, i: int, j: int, i2: int, j2: int, x: int, y: int)
    requires
        1 <= v <= 40,
        align_drawn(i, j, spec_num_align(v)),
        align_drawn(i2, j2, spec_num_align(v)),
        near_align(spec_alignment_positions(v), i, j, x, y, 1),
        near_align(spec_alignment_positions(v), i2, j2, x, y, 1),
    ensures
        i == i2 && j == j2,
{
    lemma_align_gaps(v);
    let pos = spec_alignment_positions(v);
    if i < i2 {
        assert(pos[i2] - pos[i] >= 12);
    } else if i2 < i {
        assert(pos[i] - pos[i2] >= 12);
    }
    if j < j2 {
        assert(pos[j2] - pos[j] >= 12);
    } else if j2 < j {
        assert(pos[j] - pos[j2] >= 12);
    }
}

impl QrCode {
    /// Draws the format information of the given level and mask, and the
    /// dark module.
    pub fn draw_format_bits(&mut self, ecl: QrCodeEcc, mask: Mask)
        requires
            old(self).wf(),
            mask.wf(),
        ensures
            final(self).wf(),
            final(self).size == old(self).size,
            same_from(final(self).bits(), old(self).bits(), old(self).area()),
            forall|x: int, y: int|
                0 <= x < old(self).size && 0 <= y < old(self).size ==> #[trigger] final(self).module(x, y)
                    == match format_module(old(self).size as int, spec_format_bits(ecl, mask.0), x, y) {
                    Some(b) => b,
                    None => old(self).module(x, y),
                },
    {
        let ghost a = *self;
        let bits = format_bits_for(ecl, mask);
        let ghost fb = spec_format_bits(ecl, mask.0);
        let size = self.size;
        let mut i: u8 = 0;
        while i < 6
            invariant
                self.wf(),
                self.size == size,
                a.size == size,
                i <= 6,
                bits == fb,
                forall|x: int, y: int|
                    0 <= x < size && 0 <= y < size ==> #[trigger] self.module(x, y) == if x == 8 && 0
                        <= y < i {
                        u32_bit(fb, y)
                    } else {
                        a.module(x, y)
                    },
                same_from(self.bits(), a.bits(), a.area()),
            decreases 6 - i,
        {
            let ghost b = *self;
            self.set_module_bounded(8, i, crate::bits::get_bit(bits, i));
            proof {
                lemma_set_module(b, *self, 8, i as int, u32_bit(fb, i as int));
            }
            i = i + 1;
        }
        let ghost b = *self;
        self.set_module_bounded(8, 7, crate::bits::get_bit(bits, 6));
        proof {
            lemma_set_module(b, *self, 8, 7, u32_bit(fb, 6));
        }
        let ghost b = *self;
        self.set_module_bounded(8, 8, crate::bits::get_bit(bits, 7));
        proof {
            lemma_set_module(b, *self, 8, 8, u32_bit(fb, 7));
        }
        let ghost b = *self;
        self.set_module_bounded(7, 8, crate::bits::get_bit(bits, 8));
        proof {
            lemma_set_module(b, *self, 7, 8, u32_bit(fb, 8));
        }
        let ghost a1 = *self;
        let mut i: u8 = 9;
        while i < 15
            invariant
                self.wf(),
                self.size == size,
                a1.size == size,
                a1.wf(),
                9 <= i <= 15,
                bits == fb,
                forall|x: int, y: int|
                    0 <= x < size && 0 <= y < size ==> #[trigger] self.module(x, y) == if y == 8 && 14
                        - i < x <= 5 {
                        u32_bit(fb, 14 - x)
                    } else {
                        a1.module(x, y)
                    },
                same_from(self.bits(), a1.bits(), a1.area()),
            decreases 15 - i,
        {
            let ghost b = *self;
            self.set_module_bounded(14 - i, 8, crate::bits::get_bit(bits, i));
            proof {
                lemma_set_module(b, *self, 14 - i, 8, u32_bit(fb, i as int));
            }
            i = i + 1;
        }
        let ghost a2 = *self;
        let mut i: u8 = 0;
        while i < 8
            invariant
                self.wf(),
                self.size == size,
                a2.size == size,
                a2.wf(),
                i <= 8,
                bits == fb,
                forall|x: int, y: int|
                    0 <= x < size && 0 <= y < size ==> #[trigger] self.module(x, y) == if y == 8 && size
                        - 1 - i < x <= size - 1 {
                        u32_bit(fb, size - 1 - x)
                    } else {
                        a2.module(x, y)
                    },
                same_from(self.bits(), a2.bits(), a2.area()),
            decreases 8 - i,
        {
            let ghost b = *self;
            self.set_module_bounded(size - 1 - i, 8, crate::bits::get_bit(bits, i));
            proof {
                lemma_set_module(b, *self, size - 1 - i, 8, u32_bit(fb, i as int));
            }
            i = i + 1;
        }
        let ghost a3 = *self;
        let mut i: u8 = 8;
        while i < 15
            invariant
                self.wf(),
                self.size == size,
                a3.size == size,
                a3.wf(),
                8 <= i <= 15,
                bits == fb,
                forall|x: int, y: int|
                    0 <= x < size && 0 <= y < size ==> #[trigger] self.module(x, y) == if x == 8 && size
                        - 7 <= y < size - 15 + i {
                        u32_bit(fb, y - size + 15)
                    } else {
                        a3.module(x, y)
                    },
                same_from(self.bits(), a3.bits(), a3.area()),
            decreases 15 - i,
        {
            let ghost b = *self;
            self.set_module_bounded(8, size - 15 + i, crate::bits::get_bit(bits, i));
            proof {
                lemma_set_module(b, *self, 8, size - 15 + i, u32_bit(fb, i as int));
            }
            i = i + 1;
        }
        let ghost b = *self;
        self.set_module_bounded(8, size - 8, true);
        proof {
            lemma_set_module(b, *self, 8, size - 8, true);
        }
    }
}

/// Whether (`x`, `y`) is on the light ring around (`cx`, `cy`) at an offset
/// (dy, dx) that comes before (`dy0`, `dx0`) in row-major order.
pub open spec fn ring_before(cx: int, cy: int, x: int, y: int, dy0: int, dx0: int) -> bool {
    let ox = x - cx;
    let oy = y - cy;
    &&& -4 <= ox <= 4
    &&& -4 <= oy <= 4
    &&& (cheb(cx, cy, x, y) == 2 || cheb(cx, cy, x, y) == 4)
    &&& (oy < dy0 || (oy == dy0 && ox < dx0))
}

pub open spec fn finder_before(size: int, x: int, y: int, dy0: int, dx0: int) -> bool {
    ring_before(3, 3, x, y, dy0, dx0) || ring_before(size - 4, 3, x, y, dy0, dx0) || ring_before(
        3,
        size - 4,
        x,
        y,
        dy0,
        dx0,
    )
}

/// The effect of setting a module that may lie outside the symbol.
proof fn lemma_set_unbounded(a: QrCode, b: QrCode, x: int, y: int, dark: bool)
    requires
        a.wf(),
        b.size == a.size,
        b.modules.len() == a.modules.len(),
        b.bits() == if 0 <= x < a.size && 0 <= y < a.size {
            a.bits().update(y * a.size + x, dark)
        } else {
            a.bits()
        },
    ensures
        b.wf(),
        forall|x2: int, y2: int|
            0 <= x2 < a.size && 0 <= y2 < a.size ==> #[trigger] b.module(x2, y2) == if x2 == x
                && y2 == y {
                dark
            } else {
                a.module(x2, y2)
            },
        same_from(b.bits(), a.bits(), a.area()),
{
    if 0 <= x < a.size && 0 <= y < a.size {
        lemma_set_module(a, b, x, y, dark);
    } else {
        assert(b.bits() =~= a.bits());
    }
}

impl QrCode {
    /// Draws the light modules of the timing patterns.
    fn draw_timing_light(&mut self)
        requires
            old(self).wf(),
        ensures
            final(self).wf(),
            final(self).size == old(self).size,
            same_from(final(self).bits(), old(self).bits(), old(self).area()),
            forall|x: int, y: int|
                0 <= x < old(self).size && 0 <= y < old(self).size ==> #[trigger] final(self).module(x, y)
                    == if timing_light(old(self).size as int, x, y) {
                    false
                } else {
                    old(self).module(x, y)
                },
    {
        let ghost a = *self;
        let size = self.size;
        let mut i: u8 = 7;
        while i < size - 7
            invariant
                self.wf(),
                self.size == size,
                a.size == size,
                a.wf(),
                i % 2 == 1,
                7 <= i <= size - 6,
                forall|x: int, y: int|
                    0 <= x < size && 0 <= y < size ==> #[trigger] self.module(x, y) == if (x == 6 && 7
                        <= y < i && y % 2 == 1) || (y == 6 && 7 <= x < i && x % 2 == 1) {
                        false
                    } else {
                        a.module(x, y)
                    },
                same_from(self.bits(), a.bits(), a.area()),
            decreases size - i,
        {
            let ghost b = *self;
            self.set_module_bounded(6, i, false);
            proof {
                lemma_set_module(b, *self, 6, i as int, false);
            }
            let ghost b = *self;
            self.set_module_bounded(i, 6, false);
            proof {
                lemma_set_module(b, *self, i as int, 6, false);
            }
            i = i + 2;
        }
    }

    /// Draws the light rings of the three finder patterns.
    fn draw_finder_light(&mut self)
        requires
            old(self).wf(),
        ensures
            final(self).wf(),
            final(self).size == old(self).size,
            same_from(final(self).bits(), old(self).bits(), old(self).area()),
            forall|x: int, y: int|
                0 <= x < old(self).size && 0 <= y < old(self).size ==> #[trigger] final(self).module(x, y)
                    == if finder_light(old(self).size as int, x, y) {
                    false
                } else {
                    old(self).module(x, y)
                },
    {
        let ghost a = *self;
        let size = self.size;
        let mut dy: i32 = -4;
        while dy <= 4
            invariant
                self.wf(),
                self.size == size,
                a.size == size,
                a.wf(),
                -4 <= dy <= 5,
                forall|x: int, y: int|
                    0 <= x < size && 0 <= y < size ==> #[trigger] self.module(x, y) == if finder_before(
                        size as int,
                        x,
                        y,
                        dy as int,
                        -4,
                    ) {
                        false
                    } else {
                        a.module(x, y)
                    },
                same_from(self.bits(), a.bits(), a.area()),
            decreases 5 - dy,
        {
            let mut dx: i32 = -4;
            while dx <= 4
                invariant
                    self.wf(),
                    self.size == size,
                    a.size == size,
                    a.wf(),
                    -4 <= dy <= 4,
                    -4 <= dx <= 5,
                    forall|x: int, y: int|
                        0 <= x < size && 0 <= y < size ==> #[trigger] self.module(x, y)
                            == if finder_before(size as int, x, y, dy as int, dx as int) {
                            false
                        } else {
                            a.module(x, y)
                        },
                    same_from(self.bits(), a.bits(), a.area()),
                decreases 5 - dx,
            {
                let adx = if dx < 0 {
                    -dx
                } else {
                    dx
                };
                let ady = if dy < 0 {
                    -dy
                } else {
                    dy
                };
                let dist = if adx < ady {
                    ady
                } else {
                    adx
                };
                if dist == 2 || dist == 4 {
                    let ghost b = *self;
                    self.set_module_unbounded(3 + dx, 3 + dy, false);
                    proof {
                        lemma_set_unbounded(b, *self, 3 + dx, 3 + dy, false);
                    }
                    let ghost b = *self;
                    self.set_module_unbounded(size as i32 - 4 + dx, 3 + dy, false);
                    proof {
                        lemma_set_unbounded(b, *self, size - 4 + dx, 3 + dy, false);
                    }
                    let ghost b = *self;
                    self.set_module_unbounded(3 + dx, size as i32 - 4 + dy, false);
                    proof {
                        lemma_set_unbounded(b, *self, 3 + dx, size - 4 + dy, false);
                    }
                }
                dx = dx + 1;
            }
            dy = dy + 1;
        }
    }
}

impl QrCode {
    /// Draws the light ring and dark centre of every alignment pattern.
    #[verifier::rlimit(40)]
    fn draw_alignment_light(&mut self)
        requires
            old(self).wf(),
        ensures
            final(self).wf(),
            final(self).size == old(self).size,
            same_from(final(self).bits(), old(self).bits(), old(self).area()),
            forall|x: int, y: int|
                0 <= x < old(self).size && 0 <= y < old(self).size ==> #[trigger] final(self).module(x, y)
                    == if in_alignment_area(old(self).spec_version(), x, y, 1) {
                    align_center(spec_alignment_positions(old(self).spec_version()), x, y)
                } else {
                    old(self).module(x, y)
                },
    {
        let ghost a = *self;
        let ghost v = self.spec_version();
        let ghost pos = spec_alignment_positions(v);
        let size = self.size;
        let alignpatpos = self.get_alignment_pattern_positions();
        let n = alignpatpos.len();
        proof {
            lemma_align_gaps(v);
        }
        let mut i: usize = 0;
        while i < n
            invariant
                self.wf(),
                self.size == size,
                a.size == size,
                a.wf(),
                v == a.spec_version(),
                1 <= v <= 40,
                size as int == spec_size(v),
                pos == spec_alignment_positions(v),
                n == spec_num_align(v),
                n == pos.len(),
                n == alignpatpos.len(),
                forall|k: int| 0 <= k < n ==> #[trigger] alignpatpos@[k] as int == pos[k],
                forall|k: int| 0 <= k < n ==> 6 <= #[trigger] pos[k] <= size - 7,
                i <= n,
                forall|x: int, y: int|
                    0 <= x < size && 0 <= y < size ==> #[trigger] self.module(x, y)
                        == if near_align_before(pos, x, y, 1, i as int, 0) {
                        align_center(pos, x, y)
                    } else {
                        a.module(x, y)
                    },
                same_from(self.bits(), a.bits(), a.area()),
            decreases n - i,
        {
            let mut j: usize = 0;
            while j < n
                invariant
                    self.wf(),
                    self.size == size,
                    a.size == size,
                    a.wf(),
                    1 <= v <= 40,
                    size as int == spec_size(v),
                    pos == spec_alignment_positions(v),
                    n == spec_num_align(v),
                    n == pos.len(),
                    n == alignpatpos.len(),
                    forall|k: int| 0 <= k < n ==> #[trigger] alignpatpos@[k] as int == pos[k],
                    forall|k: int| 0 <= k < n ==> 6 <= #[trigger] pos[k] <= size - 7,
                    i < n,
                    j <= n,
                    forall|x: int, y: int|
                        0 <= x < size && 0 <= y < size ==> #[trigger] self.module(x, y)
                            == if near_align_before(pos, x, y, 1, i as int, j as int) {
                            align_center(pos, x, y)
                        } else {
                            a.module(x, y)
                        },
                    same_from(self.bits(), a.bits(), a.area()),
                decreases n - j,
            {
                if !crate::qrcode::alignment_pattern_overlaps_finder(i, j, n - 1) {
                    let ghost c = *self;
                    let pos0 = alignpatpos[i] as i32;
                    let pos1 = alignpatpos[j] as i32;
                    let mut dy: i32 = -1;
                    while dy <= 1
                        invariant
                            self.wf(),
                            self.size == size,
                            c.size == size,
                            c.wf(),
                            -1 <= dy <= 2,
                            6 <= pos0 <= size - 7,
                            6 <= pos1 <= size - 7,
                            forall|x: int, y: int|
                                0 <= x < size && 0 <= y < size ==> #[trigger] self.module(x, y) == if pos0
                                    - 1 <= x <= pos0 + 1 && pos1 - 1 <= y < pos1 + dy {
                                    x == pos0 && y == pos1
                                } else {
                                    c.module(x, y)
                                },
                            same_from(self.bits(), c.bits(), c.area()),
                        decreases 2 - dy,
                    {
                        let mut dx: i32 = -1;
                        while dx <= 1
                            invariant
                                self.wf(),
                                self.size == size,
                                c.size == size,
                                c.wf(),
                                -1 <= dy <= 1,
                                -1 <= dx <= 2,
                                6 <= pos0 <= size - 7,
                                6 <= pos1 <= size - 7,
                                forall|x: int, y: int|
                                    0 <= x < size && 0 <= y < size ==> #[trigger] self.module(x, y) == if (pos0
                                        - 1 <= x <= pos0 + 1 && pos1 - 1 <= y < pos1 + dy) || (y == pos1
                                        + dy && pos0 - 1 <= x < pos0 + dx) {
                                        x == pos0 && y == pos1
                                    } else {
                                        c.module(x, y)
                                    },
                                same_from(self.bits(), c.bits(), c.area()),
                            decreases 2 - dx,
                        {
                            let ghost b = *self;
                            self.set_module_bounded(
                                (pos0 + dx) as u8,
                                (pos1 + dy) as u8,
                                dx == 0 && dy == 0,
                            );
                            proof {
                                lemma_set_module(b, *self, pos0 + dx, pos1 + dy, dx == 0 && dy == 0);
                            }
                            dx = dx + 1;
                        }
                        dy = dy + 1;
                    }
                    proof {
                        assert forall|x: int, y: int| 0 <= x < size && 0 <= y < size implies #[trigger] self.module(
                            x,
                            y,
                        ) == if near_align_before(pos, x, y, 1, i as int, j + 1) {
                            align_center(pos, x, y)
                        } else {
                            a.module(x, y)
                        } by {
                            assert(align_drawn(i as int, j as int, n as int));
                            if near_align(pos, i as int, j as int, x, y, 1) {
                                assert(near_align_before(pos, x, y, 1, i as int, j + 1));
                                if near_align_before(pos, x, y, 1, i as int, j as int) {
                                    let (i2, j2) = choose|i2: int, j2: int|
                                        #![trigger near_align(pos, i2, j2, x, y, 1)]
                                        align_drawn(i2, j2, pos.len() as int) && (i2 < i || (i2 == i
                                            && j2 < j)) && near_align(pos, i2, j2, x, y, 1);
                                    lemma_align_disjoint(v, i as int, j as int, i2, j2, x, y);
                                }
                                if align_center(pos, x, y) {
                                    let (i3, j3) = choose|i3: int, j3: int|
                                        #![trigger near_align(pos, i3, j3, x, y, 0)]
                                        align_drawn(i3, j3, pos.len() as int) && near_align(
                                            pos,
                                            i3,
                                            j3,
                                            x,
                                            y,
                                            0,
                                        );
                                    lemma_align_disjoint(v, i as int, j as int, i3, j3, x, y);
                                }
                                if x == pos0 && y == pos1 {
                                    assert(near_align(pos, i as int, j as int, x, y, 0));
                                }
                            } else {
                                if near_align_before(pos, x, y, 1, i as int, j + 1) {
                                    let (i2, j2) = choose|i2: int, j2: int|
                                        #![trigger near_align(pos, i2, j2, x, y, 1)]
                                        align_drawn(i2, j2, pos.len() as int) && (i2 < i || (i2 == i
                                            && j2 < j + 1)) && near_align(pos, i2, j2, x, y, 1);
                                    assert(near_align_before(pos, x, y, 1, i as int, j as int));
                                }
                            }
                        }
                    }
                } else {
                    proof {
                        assert forall|x: int, y: int| 0 <= x < size && 0 <= y < size implies #[trigger] self.module(
                            x,
                            y,
                        ) == if near_align_before(pos, x, y, 1, i as int, j + 1) {
                            align_center(pos, x, y)
                        } else {
                            a.module(x, y)
                        } by {
                            if near_align_before(pos, x, y, 1, i as int, j + 1) {
                                let (i2, j2) = choose|i2: int, j2: int|
                                    #![trigger near_align(pos, i2, j2, x, y, 1)]
                                    align_drawn(i2, j2, pos.len() as int) && (i2 < i || (i2 == i && j2
                                        < j + 1)) && near_align(pos, i2, j2, x, y, 1);
                                assert(near_align_before(pos, x, y, 1, i as int, j as int));
                            }
                        }
                    }
                }
                j = j + 1;
            }
            proof {
                assert forall|x: int, y: int| 0 <= x < size && 0 <= y < size implies #[trigger] self.module(
                    x,
                    y,
                ) == if near_align_before(pos, x, y, 1, i + 1, 0) {
                    align_center(pos, x, y)
                } else {
                    a.module(x, y)
                } by {
                    if near_align_before(pos, x, y, 1, i as int, n as int) {
                        let (i2, j2) = choose|i2: int, j2: int|
                            #![trigger near_align(pos, i2, j2, x, y, 1)]
                            align_drawn(i2, j2, pos.len() as int) && (i2 < i || (i2 == i && j2 < n))
                                && near_align(pos, i2, j2, x, y, 1);
                        assert(near_align_before(pos, x, y, 1, i + 1, 0));
                    }
                    if near_align_before(pos, x, y, 1, i + 1, 0) {
                        let (i2, j2) = choose|i2: int, j2: int|
                            #![trigger near_align(pos, i2, j2, x, y, 1)]
                            align_drawn(i2, j2, pos.len() as int) && (i2 < i + 1 || (i2 == i + 1 && j2
                                < 0)) && near_align(pos, i2, j2, x, y, 1);
                        assert(near_align_before(pos, x, y, 1, i as int, n as int));
                    }
                }
            }
            i = i + 1;
        }
    }
}

impl QrCode {
    /// Draws the two copies of the version information (versions 7 and up).
    fn draw_version_info(&mut self)
        requires
            old(self).wf(),
            old(self).spec_version() >= 7,
        ensures
            final(self).wf(),
            final(self).size == old(self).size,
            same_from(final(self).bits(), old(self).bits(), old(self).area()),
            forall|x: int, y: int|
                0 <= x < old(self).size && 0 <= y < old(self).size ==> #[trigger] final(self).module(x, y)
                    == match version_module(
                    old(self).size as int,
                    spec_version_bits(old(self).spec_version() as u32),
                    x,
                    y,
                ) {
                    Some(b) => b,
                    None => old(self).module(x, y),
                },
    {
        let ghost a = *self;
        let ver = self.version().value() as u32;
        let mut rem = ver;
        let mut k: u32 = 0;
        while k < 12
            invariant
                k <= 12,
                ver <= 40,
                rem < 4096,
                rem == bch_remainder(ver, k as nat, 11, 0x1F25),
            decreases 12 - k,
        {
            proof {
                lemma_version_step(rem);
            }
            rem = (rem << 1) ^ ((rem >> 11) * 0x1F25);
            k = k + 1;
        }
        let bits = ver << 12 | rem;
        let ghost vb = spec_version_bits(ver);
        let size = self.size;
        let mut i: u8 = 0;
        while i < 18
            invariant
                self.wf(),
                self.size == size,
                a.size == size,
                a.wf(),
                size >= 45,
                i <= 18,
                bits == vb,
                forall|x: int, y: int|
                    0 <= x < size && 0 <= y < size ==> #[trigger] self.module(x, y) == if size - 11
                        <= x < size - 8 && 0 <= y < 6 && y * 3 + (x - (size - 11)) < i {
                        u32_bit(vb, y * 3 + (x - (size - 11)))
                    } else if 0 <= x < 6 && size - 11 <= y < size - 8 && x * 3 + (y - (size - 11))
                        < i {
                        u32_bit(vb, x * 3 + (y - (size - 11)))
                    } else {
                        a.module(x, y)
                    },
                same_from(self.bits(), a.bits(), a.area()),
            decreases 18 - i,
        {
            let bit = crate::bits::get_bit(bits, i);
            let xa = size - 11 + i % 3;
            let yb = i / 3;
            let ghost b = *self;
            self.set_module_bounded(xa, yb, bit);
            proof {
                lemma_set_module(b, *self, xa as int, yb as int, bit);
            }
            let ghost b = *self;
            self.set_module_bounded(yb, xa, bit);
            proof {
                lemma_set_module(b, *self, yb as int, xa as int, bit);
            }
            i = i + 1;
        }
    }

    /// Draws the light modules of the timing, finder and alignment patterns,
    /// the alignment centres and, from version 7, the version information.
    pub fn draw_light_function_modules(&mut self)
        requires
            old(self).wf(),
        ensures
            final(self).wf(),
            final(self).size == old(self).size,
            same_from(final(self).bits(), old(self).bits(), old(self).area()),
            forall|x: int, y: int|
                0 <= x < old(self).size && 0 <= y < old(self).size ==> #[trigger] final(self).module(x, y)
                    == light_module(old(self).spec_version(), x, y, old(self).module(x, y)),
    {
        let ghost a = *self;
        self.draw_timing_light();
        self.draw_finder_light();
        self.draw_alignment_light();
        if self.version().value() >= 7 {
            self.draw_version_info();
        }
        proof {
            assert(spec_size(a.spec_version()) == a.size);
        }
    }
}

} // verus!
