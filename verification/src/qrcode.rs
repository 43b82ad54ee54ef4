//! The symbol: a square grid of modules packed one bit per module, row
//! after row, least significant bit first within each byte.
use vstd::prelude::*;
use crate::params::{
    QrCodeEcc, Version, spec_ecc_per_block, spec_num_blocks, spec_num_data_codewords,
    spec_num_raw_data_modules, spec_size, lemma_table_facts, ECC_CODEWORDS_PER_BLOCK,
    NUM_ERROR_CORRECTION_BLOCKS,
};

verus! {

/// A QR symbol under construction or finished.
pub struct QrCode {
    /// Side length in modules.
    pub size: u8,
    /// The modules, `size * size` bits packed as described above.
    pub modules: Vec<u8>,
}

impl QrCode {
    /// Error-correction codewords per block (`table` is
    /// `ECC_CODEWORDS_PER_BLOCK`) or number of blocks (`table` is
    /// `NUM_ERROR_CORRECTION_BLOCKS`) for the given version and level.
    pub fn table_get(table: &[[i16; 41]; 4], ver: Version, ecl: QrCodeEcc) -> (r: usize)
        requires
            ver.wf(),
            table@ == ECC_CODEWORDS_PER_BLOCK@ || table@ == NUM_ERROR_CORRECTION_BLOCKS@,
        ensures
            table@ == ECC_CODEWORDS_PER_BLOCK@ ==> r == spec_ecc_per_block(
                ecl.spec_ordinal(),
                ver.0 as int,
            ),
            table@ == NUM_ERROR_CORRECTION_BLOCKS@ ==> r == spec_num_blocks(
                ecl.spec_ordinal(),
                ver.0 as int,
            ),
    {
        proof {
            lemma_table_facts(ecl.spec_ordinal(), ver.0 as int);
        }
        table[ecl.ordinal()][ver.value() as usize] as usize
    }

    /// Number of modules that carry codeword bits in a symbol of this version:
    /// the modules that are not function modules, which the codeword zigzag
    /// passes in turn.
    pub fn get_num_raw_data_modules(ver: Version) -> (r: usize)
        requires
            ver.wf(),
        ensures
            r as int == spec_num_raw_data_modules(ver.0 as int),
            r as int == crate::placement::light_count(
                crate::symbol::function_grid(ver.0 as int),
                spec_size(ver.0 as int),
                crate::placement::num_pairs(spec_size(ver.0 as int)) * (2 * spec_size(ver.0 as int)),
            ),
    {
        proof {
            crate::layout::lemma_zigzag_data_modules(ver.0 as int);
        }
        let v = ver.value() as usize;
        assert((16 * v + 128) * v + 64 <= 30784) by (nonlinear_arith)
            requires
                v <= 40,
        ;
        let mut result = (16 * v + 128) * v + 64;
        if v >= 2 {
            let numalign = v / 7 + 2;
            assert((16 * v + 128) * v + 64 >= 25 * numalign * numalign + 36) by (nonlinear_arith)
                requires
                    2 <= v <= 40,
                    2 <= numalign,
                    7 * numalign <= v + 14,
            ;
            assert((25 * numalign - 10) * numalign - 55 <= 25 * numalign * numalign) by (
            nonlinear_arith)
                requires
                    2 <= numalign,
            ;
            assert((25 * numalign - 10) * numalign >= 55) by (nonlinear_arith)
                requires
                    2 <= numalign,
            ;
            result = result - ((25 * numalign - 10) * numalign - 55);
            if v >= 7 {
                result = result - 36;
            }
        }
        result
    }

    /// Number of data codewords of a symbol of this version and level.
    pub fn get_num_data_codewords(ver: Version, ecl: QrCodeEcc) -> (r: usize)
        requires
            ver.wf(),
        ensures
            r as int == spec_num_data_codewords(ver.0 as int, ecl.spec_ordinal()),
            9 <= r <= 3706,
    {
        proof {
            lemma_table_facts(ecl.spec_ordinal(), ver.0 as int);
        }
        let ecc = QrCode::table_get(&ECC_CODEWORDS_PER_BLOCK, ver, ecl);
        let blocks = QrCode::table_get(&NUM_ERROR_CORRECTION_BLOCKS, ver, ecl);
        assert(ecc * blocks <= 30 * 81) by (nonlinear_arith)
            requires
                ecc <= 30,
                blocks <= 81,
        ;
        QrCode::get_num_raw_data_modules(ver) / 8 - ecc * blocks
    }
}

/// Bit `j` of byte `b`, least significant first.
pub open spec fn lsb_bit(b: u8, j: int) -> bool {
    (b >> (j as u8)) & 1u8 == 1u8
}

/// The bits of a packed byte string, each byte least significant bit first.
pub open spec fn packed_bits(bytes: Seq<u8>) -> Seq<bool> {
    Seq::new(bytes.len() * 8, |i: int| lsb_bit(bytes[i / 8], i % 8))
}

/// Whether two bit strings of the same length agree from position `n` on.
pub open spec fn same_from(a: Seq<bool>, b: Seq<bool>, n: int) -> bool {
    a.len() == b.len() && forall|i: int| n <= i < a.len() ==> #[trigger] a[i] == b[i]
}

proof fn lemma_byte_from_bits(a: u8, b: u8)
    requires
        (a >> 0u8) & 1u8 == (b >> 0u8) & 1u8,
        (a >> 1u8) & 1u8 == (b >> 1u8) & 1u8,
        (a >> 2u8) & 1u8 == (b >> 2u8) & 1u8,
        (a >> 3u8) & 1u8 == (b >> 3u8) & 1u8,
        (a >> 4u8) & 1u8 == (b >> 4u8) & 1u8,
        (a >> 5u8) & 1u8 == (b >> 5u8) & 1u8,
        (a >> 6u8) & 1u8 == (b >> 6u8) & 1u8,
        (a >> 7u8) & 1u8 == (b >> 7u8) & 1u8,
    ensures
        a == b,
{
    assert(a == b) by (bit_vector)
        requires
            (a >> 0u8) & 1u8 == (b >> 0u8) & 1u8,
            (a >> 1u8) & 1u8 == (b >> 1u8) & 1u8,
            (a >> 2u8) & 1u8 == (b >> 2u8) & 1u8,
            (a >> 3u8) & 1u8 == (b >> 3u8) & 1u8,
            (a >> 4u8) & 1u8 == (b >> 4u8) & 1u8,
            (a >> 5u8) & 1u8 == (b >> 5u8) & 1u8,
            (a >> 6u8) & 1u8 == (b >> 6u8) & 1u8,
            (a >> 7u8) & 1u8 == (b >> 7u8) & 1u8,
    ;
}

proof fn lemma_bit_is_one(x: u8, j: u8)
    ensures
        (x >> j) & 1u8 == 0u8 || (x >> j) & 1u8 == 1u8,
{
    assert((x >> j) & 1u8 == 0u8 || (x >> j) & 1u8 == 1u8) by (bit_vector);
}

/// Packed byte strings with the same bits are equal.
pub proof fn lemma_packed_bits_injective(a: Seq<u8>, b: Seq<u8>)
    requires
        packed_bits(a) == packed_bits(b),
    ensures
        a == b,
{
    assert(packed_bits(a).len() == packed_bits(b).len());
    assert(packed_bits(a).len() == a.len() * 8);
    assert(packed_bits(b).len() == b.len() * 8);
    let la = a.len() as int;
    let lb = b.len() as int;
    assert(la == lb) by (nonlinear_arith)
        requires
            la * 8 == lb * 8,
    ;
    assert forall|i: int| 0 <= i < a.len() implies a[i] == b[i] by {
        assert forall|j: u8| j < 8 implies (a[i] >> j) & 1u8 == (b[i] >> j) & 1u8 by {
            let k = i * 8 + j;
            assert(0 <= k < a.len() * 8 && k / 8 == i && k % 8 == j) by (nonlinear_arith)
                requires
                    k == i * 8 + j,
                    0 <= i < a.len(),
                    0 <= j < 8,
            ;
            assert(packed_bits(a)[k] == packed_bits(b)[k]);
            assert(packed_bits(a)[k] == lsb_bit(a[i], j as int));
            assert(packed_bits(b)[k] == lsb_bit(b[i], j as int));
            lemma_bit_is_one(a[i], j);
            lemma_bit_is_one(b[i], j);
        }
        lemma_byte_from_bits(a[i], b[i]);
    }
    assert(a =~= b);
}

/// Distinct cells of a grid have distinct indices.
pub proof fn lemma_grid_index(s: int, x: int, y: int, x2: int, y2: int)
    requires
        0 <= x < s,
        0 <= y < s,
        0 <= x2 < s,
        0 <= y2 < s,
    ensures
        0 <= y * s + x < s * s,
        (y * s + x == y2 * s + x2) <==> (x == x2 && y == y2),
{
    assert(0 <= y * s + x < s * s) by (nonlinear_arith)
        requires
            0 <= x < s,
            0 <= y < s,
    ;
    if y < y2 {
        assert(y * s + x < y2 * s + x2) by (nonlinear_arith)
            requires
                0 <= x < s,
                0 <= x2,
                y < y2,
        ;
    } else if y > y2 {
        assert(y * s + x > y2 * s + x2) by (nonlinear_arith)
            requires
                0 <= x2 < s,
                0 <= x,
                y > y2,
        ;
    }
}

proof fn lemma_byte_bit_ops(b: u8, p: u8, q: u8)
    requires
        p < 8,
        q < 8,
    ensures
        ((b | (1u8 << p)) >> q) & 1u8 == 1u8 <==> (q == p || (b >> q) & 1u8 == 1u8),
        ((b & !(1u8 << p)) >> q) & 1u8 == 1u8 <==> (q != p && (b >> q) & 1u8 == 1u8),
        ((b ^ (1u8 << p)) >> q) & 1u8 == 1u8 <==> (if q == p {
            (b >> q) & 1u8 != 1u8
        } else {
            (b >> q) & 1u8 == 1u8
        }),
{
    assert(((b | (1u8 << p)) >> q) & 1u8 == 1u8 <==> (q == p || (b >> q) & 1u8 == 1u8))
        by (bit_vector)
        requires
            p < 8,
            q < 8,
    ;
    assert(((b & !(1u8 << p)) >> q) & 1u8 == 1u8 <==> (q != p && (b >> q) & 1u8 == 1u8))
        by (bit_vector)
        requires
            p < 8,
            q < 8,
    ;
    assert(((b ^ (1u8 << p)) >> q) & 1u8 == 1u8 <==> (if q == p {
        (b >> q) & 1u8 != 1u8
    } else {
        (b >> q) & 1u8 == 1u8
    })) by (bit_vector)
        requires
            p < 8,
            q < 8,
    ;
}

proof fn lemma_index_split(index: usize)
    ensures
        index >> 3usize == index / 8,
        index & 7usize == index % 8,
{
    assert(index >> 3usize == index / 8) by (bit_vector);
    assert(index & 7usize == index % 8) by (bit_vector);
}

impl QrCode {
    /// All bits of the packed modules, including the unused bits after the
    /// last module.
    pub open spec fn bits(&self) -> Seq<bool> {
        packed_bits(self.modules@)
    }

    /// Whether the module in column `x`, row `y` is dark.
    pub open spec fn module(&self, x: int, y: int) -> bool {
        self.bits()[y * self.size + x]
    }

    /// The modules as a predicate on (column, row).
    pub open spec fn grid(&self) -> spec_fn(int, int) -> bool {
        |x: int, y: int| self.module(x, y)
    }

    /// A symbol's side length is that of a version, and its buffer holds
    /// exactly `size * size` bits rounded up to whole bytes.
    pub open spec fn wf(&self) -> bool {
        &&& 21 <= self.size <= 177
        &&& (self.size - 17) % 4 == 0
        &&& self.modules.len() == (self.size * self.size + 7) / 8
    }

    /// The version of the symbol.
    pub open spec fn spec_version(&self) -> int {
        (self.size - 17) / 4
    }

    /// Number of modules.
    pub open spec fn area(&self) -> int {
        self.size * self.size
    }

    /// Whether the bits after the last module are all zero.
    pub open spec fn tail_clear(&self) -> bool {
        forall|i: int| self.area() <= i < self.bits().len() ==> !#[trigger] self.bits()[i]
    }

    pub fn version(&self) -> (r: Version)
        requires
            self.wf(),
        ensures
            r.0 as int == self.spec_version(),
            r.wf(),
            spec_size(r.0 as int) == self.size,
    {
        Version::new((self.size - 17) / 4)
    }

    pub fn size(&self) -> (r: u8)
        ensures
            r == self.size,
    {
        self.size
    }

    /// Whether the module at (`x`, `y`) is dark.
    pub fn get_module_bounded(&self, x: u8, y: u8) -> (r: bool)
        requires
            self.wf(),
            x < self.size,
            y < self.size,
        ensures
            r == self.module(x as int, y as int),
    {
        proof {
            lemma_grid_index(self.size as int, x as int, y as int, x as int, y as int);
            assert((y as int) * (self.size as int) <= 177 * 177) by (nonlinear_arith)
                requires
                    y < self.size <= 177,
            ;
        }
        let index = (y as usize) * (self.size as usize) + (x as usize);
        proof {
            lemma_index_split(index);
        }
        crate::bits::get_bit(self.modules[index >> 3] as u32, (index & 7) as u8)
    }

    /// Sets the module at (`x`, `y`).
    pub fn set_module_bounded(&mut self, x: u8, y: u8, isdark: bool)
        requires
            old(self).wf(),
            x < old(self).size,
            y < old(self).size,
        ensures
            final(self).size == old(self).size,
            final(self).modules.len() == old(self).modules.len(),
            final(self).bits() == old(self).bits().update(
                y * old(self).size + x,
                isdark,
            ),
    {
        let ghost old_bits = self.bits();
        proof {
            lemma_grid_index(self.size as int, x as int, y as int, x as int, y as int);
            assert((y as int) * (self.size as int) <= 177 * 177) by (nonlinear_arith)
                requires
                    y < self.size <= 177,
            ;
        }
        let index = (y as usize) * (self.size as usize) + (x as usize);
        proof {
            lemma_index_split(index);
        }
        let p = (index & 7) as u8;
        let mask = 1u8 << p;
        let byte = self.modules[index >> 3];
        let nb = if isdark {
            byte | mask
        } else {
            byte & !mask
        };
        self.modules.set(index >> 3, nb);
        proof {
            assert forall|i: int| 0 <= i < self.bits().len() implies #[trigger] self.bits()[i]
                == old_bits.update(index as int, isdark)[i] by {
                if i / 8 == index / 8 {
                    lemma_byte_bit_ops(byte, p, (i % 8) as u8);
                }
            }
            assert(self.bits() =~= old_bits.update(index as int, isdark));
        }
    }

    /// Sets the module at (`x`, `y`) when it lies inside the symbol.
    pub fn set_module_unbounded(&mut self, x: i32, y: i32, isdark: bool)
        requires
            old(self).wf(),
        ensures
            final(self).size == old(self).size,
            final(self).modules.len() == old(self).modules.len(),
            final(self).bits() == if 0 <= x < old(self).size && 0 <= y < old(self).size {
                old(self).bits().update(y * old(self).size + x, isdark)
            } else {
                old(self).bits()
            },
    {
        if 0 <= x && x < self.size as i32 && 0 <= y && y < self.size as i32 {
            self.set_module_bounded(x as u8, y as u8, isdark);
        }
    }

    /// Inverts the module at (`x`, `y`).
    pub fn flip_module_bounded(&mut self, x: u8, y: u8)
        requires
            old(self).wf(),
            x < old(self).size,
            y < old(self).size,
        ensures
            final(self).size == old(self).size,
            final(self).modules.len() == old(self).modules.len(),
            final(self).bits() == old(self).bits().update(
                y * old(self).size + x,
                !old(self).module(x as int, y as int),
            ),
    {
        let ghost old_bits = self.bits();
        proof {
            lemma_grid_index(self.size as int, x as int, y as int, x as int, y as int);
            assert((y as int) * (self.size as int) <= 177 * 177) by (nonlinear_arith)
                requires
                    y < self.size <= 177,
            ;
        }
        let index = (y as usize) * (self.size as usize) + (x as usize);
        proof {
            lemma_index_split(index);
        }
        let p = (index & 7) as u8;
        let byte = self.modules[index >> 3];
        let nb = byte ^ (1u8 << p);
        self.modules.set(index >> 3, nb);
        proof {
            assert forall|i: int| 0 <= i < self.bits().len() implies #[trigger] self.bits()[i]
                == old_bits.update(index as int, !old_bits[index as int])[i] by {
                if i / 8 == index / 8 {
                    lemma_byte_bit_ops(byte, p, (i % 8) as u8);
                }
            }
            assert(self.bits() =~= old_bits.update(index as int, !old_bits[index as int]));
        }
    }
}

/// The packed buffer of a well-formed symbol holds every module.
pub proof fn lemma_area_fits(a: QrCode)
    requires
        a.wf(),
    ensures
        a.area() <= a.bits().len(),
        a.bits().len() == a.modules.len() * 8,
        a.bits().len() < a.area() + 8,
        a.area() <= 177 * 177,
{
    let q = a.size * a.size;
    assert(q <= 177 * 177) by (nonlinear_arith)
        requires
            a.size <= 177,
            q == a.size * a.size,
    ;
}

/// The effect of setting one module: that module takes the new value, every
/// other module and the bits after the last module keep theirs.
pub proof fn lemma_set_module(a: QrCode, b: QrCode, x: int, y: int, dark: bool)
    requires
        a.wf(),
        0 <= x < a.size,
        0 <= y < a.size,
        b.size == a.size,
        b.modules.len() == a.modules.len(),
        b.bits() == a.bits().update(y * a.size + x, dark),
    ensures
        b.wf(),
        forall|x2: int, y2: int|
            0 <= x2 < a.size && 0 <= y2 < a.size ==> #[trigger] b.module(x2, y2) == if x2 == x
                && y2 == y {
                dark
            } else {
                a.module(x2, y2)
            },
        same_from(b.bits(), a.bits(), a.area()),
{
    let s = a.size as int;
    lemma_grid_index(s, x, y, x, y);
    lemma_area_fits(a);
    assert forall|x2: int, y2: int| 0 <= x2 < a.size && 0 <= y2 < a.size implies #[trigger] b.module(
        x2,
        y2,
    ) == if x2 == x && y2 == y {
        dark
    } else {
        a.module(x2, y2)
    } by {
        lemma_grid_index(s, x, y, x2, y2);
        lemma_grid_index(s, x2, y2, x2, y2);
        let i2 = y2 * s + x2;
        assert(b.module(x2, y2) == b.bits()[i2]);
        assert(a.module(x2, y2) == a.bits()[i2]);
        assert(b.bits()[i2] == a.bits().update(y * s + x, dark)[i2]);
        assert(s * s == a.area());
        assert(0 <= i2 < a.bits().len());
        assert(0 <= y * s + x < a.bits().len());
        if x2 == x && y2 == y {
            assert(i2 == y * s + x);
        } else {
            assert(i2 != y * s + x);
        }
    }
}

/// Two well-formed symbols of one size with the same modules and clear
/// tails have the same buffer.
pub proof fn lemma_same_modules(a: QrCode, b: QrCode)
    requires
        a.wf(),
        b.wf(),
        a.size == b.size,
        a.tail_clear(),
        b.tail_clear(),
        forall|x: int, y: int| 0 <= x < a.size && 0 <= y < a.size ==> #[trigger] a.module(x, y) == b.module(x, y),
    ensures
        a.modules@ == b.modules@,
{
    let s = a.size as int;
    lemma_area_fits(a);
    lemma_area_fits(b);
    assert forall|k: int| 0 <= k < a.bits().len() implies a.bits()[k] == b.bits()[k] by {
        if k < s * s {
            let x = k % s;
            let y = k / s;
            assert(0 <= x < s && 0 <= y < s && k == y * s + x) by (nonlinear_arith)
                requires
                    0 <= k < s * s,
                    s >= 1,
                    x == k % s,
                    y == k / s,
            ;
            assert(a.module(x, y) == b.module(x, y));
        } else {
            assert(!a.bits()[k] && !b.bits()[k]);
        }
    }
    assert(a.bits() =~= b.bits());
    lemma_packed_bits_injective(a.modules@, b.modules@);
}

/// Whether (`x`, `y`) lies in the rectangle of the given corner and extent.
pub open spec fn in_rect(x: int, y: int, left: int, top: int, width: int, height: int) -> bool {
    left <= x < left + width && top <= y < top + height
}

impl QrCode {
    /// Makes every module of the rectangle dark.
    pub fn fill_rectangle(&mut self, left: u8, top: u8, width: u8, height: u8)
        requires
            old(self).wf(),
            left + width <= old(self).size,
            top + height <= old(self).size,
        ensures
            final(self).wf(),
            final(self).size == old(self).size,
            forall|x: int, y: int|
                0 <= x < old(self).size && 0 <= y < old(self).size ==> #[trigger] final(self).module(
                    x,
                    y,
                ) == (in_rect(x, y, left as int, top as int, width as int, height as int) || old(
                    self,
                ).module(x, y)),
            same_from(final(self).bits(), old(self).bits(), old(self).area()),
    {
        let ghost a = *self;
        let mut y = top;
        while y < top + height
            invariant
                self.wf(),
                self.size == a.size,
                top <= y <= top + height,
                left + width <= a.size,
                top + height <= a.size,
                forall|x2: int, y2: int|
                    0 <= x2 < a.size && 0 <= y2 < a.size ==> #[trigger] self.module(x2, y2) == (
                    in_rect(x2, y2, left as int, top as int, width as int, (y - top) as int)
                        || a.module(x2, y2)),
                same_from(self.bits(), a.bits(), a.area()),
            decreases top + height - y,
        {
            let mut x = left;
            while x < left + width
                invariant
                    self.wf(),
                    self.size == a.size,
                    top <= y < top + height,
                    left <= x <= left + width,
                    left + width <= a.size,
                    top + height <= a.size,
                    forall|x2: int, y2: int|
                        0 <= x2 < a.size && 0 <= y2 < a.size ==> #[trigger] self.module(x2, y2) == (
                        in_rect(x2, y2, left as int, top as int, width as int, (y - top) as int) || (
                        y2 == y && left <= x2 < x) || a.module(x2, y2)),
                    same_from(self.bits(), a.bits(), a.area()),
                decreases left + width - x,
            {
                let ghost b = *self;
                self.set_module_bounded(x, y, true);
                proof {
                    lemma_set_module(b, *self, x as int, y as int, true);
                }
                x = x + 1;
            }
            y = y + 1;
        }
    }
}

/// Number of alignment-pattern coordinates of a version-`v` symbol.
pub open spec fn spec_num_align(v: int) -> int {
    if v == 1 {
        0
    } else {
        v / 7 + 2
    }
}

/// Spacing between the alignment-pattern coordinates after the first.
pub open spec fn spec_align_step(v: int) -> int {
    let na = v / 7 + 2;
    (v * 8 + na * 3 + 5) / (na * 4 - 4) * 2
}

/// The alignment-pattern coordinates, ascending: 6, then evenly spaced by
/// the step up to `size - 7`.
pub open spec fn spec_alignment_positions(v: int) -> Seq<int> {
    let na = spec_num_align(v);
    Seq::new(
        na as nat,
        |k: int|
            if k == 0 {
                6
            } else {
                spec_size(v) - 7 - (na - 1 - k) * spec_align_step(v)
            },
    )
}

/// Ranges of the alignment-pattern layout.
pub proof fn lemma_align_facts(v: int)
    requires
        2 <= v <= 40,
    ensures
        2 <= spec_num_align(v) <= 7,
        12 <= spec_align_step(v) <= 28,
        (spec_num_align(v) - 2) * spec_align_step(v) + 25 <= spec_size(v),
{
    if v == 2 {
        assert(spec_num_align(2) == 2 && spec_align_step(2) == 12) by (nonlinear_arith);
    } else if v == 3 {
        assert(spec_num_align(3) == 2 && spec_align_step(3) == 16) by (nonlinear_arith);
    } else if v == 4 {
        assert(spec_num_align(4) == 2 && spec_align_step(4) == 20) by (nonlinear_arith);
    } else if v == 5 {
        assert(spec_num_align(5) == 2 && spec_align_step(5) == 24) by (nonlinear_arith);
    } else if v == 6 {
        assert(spec_num_align(6) == 2 && spec_align_step(6) == 28) by (nonlinear_arith);
    } else if v == 7 {
        assert(spec_num_align(7) == 3 && spec_align_step(7) == 16) by (nonlinear_arith);
    } else if v == 8 {
        assert(spec_num_align(8) == 3 && spec_align_step(8) == 18) by (nonlinear_arith);
    } else if v == 9 {
        assert(spec_num_align(9) == 3 && spec_align_step(9) == 20) by (nonlinear_arith);
    } else if v == 10 {
        assert(spec_num_align(10) == 3 && spec_align_step(10) == 22) by (nonlinear_arith);
    } else if v == 11 {
        assert(spec_num_align(11) == 3 && spec_align_step(11) == 24) by (nonlinear_arith);
    } else if v == 12 {
        assert(spec_num_align(12) == 3 && spec_align_step(12) == 26) by (nonlinear_arith);
    } else if v == 13 {
        assert(spec_num_align(13) == 3 && spec_align_step(13) == 28) by (nonlinear_arith);
    } else if v == 14 {
        assert(spec_num_align(14) == 4 && spec_align_step(14) == 20) by (nonlinear_arith);
    } else if v == 15 {
        assert(spec_num_align(15) == 4 && spec_align_step(15) == 22) by (nonlinear_arith);
    } else if v == 16 {
        assert(spec_num_align(16) == 4 && spec_align_step(16) == 24) by (nonlinear_arith);
    } else if v == 17 {
        assert(spec_num_align(17) == 4 && spec_align_step(17) == 24) by (nonlinear_arith);
    } else if v == 18 {
        assert(spec_num_align(18) == 4 && spec_align_step(18) == 26) by (nonlinear_arith);
    } else if v == 19 {
        assert(spec_num_align(19) == 4 && spec_align_step(19) == 28) by (nonlinear_arith);
    } else if v == 20 {
        assert(spec_num_align(20) == 4 && spec_align_step(20) == 28) by (nonlinear_arith);
    } else if v == 21 {
        assert(spec_num_align(21) == 5 && spec_align_step(21) == 22) by (nonlinear_arith);
    } else if v == 22 {
        assert(spec_num_align(22) == 5 && spec_align_step(22) == 24) by (nonlinear_arith);
    } else if v == 23 {
        assert(spec_num_align(23) == 5 && spec_align_step(23) == 24) by (nonlinear_arith);
    } else if v == 24 {
        assert(spec_num_align(24) == 5 && spec_align_step(24) == 26) by (nonlinear_arith);
    } else if v == 25 {
        assert(spec_num_align(25) == 5 && spec_align_step(25) == 26) by (nonlinear_arith);
    } else if v == 26 {
        assert(spec_num_align(26) == 5 && spec_align_step(26) == 28) by (nonlinear_arith);
    } else if v == 27 {
        assert(spec_num_align(27) == 5 && spec_align_step(27) == 28) by (nonlinear_arith);
    } else if v == 28 {
        assert(spec_num_align(28) == 6 && spec_align_step(28) == 24) by (nonlinear_arith);
    } else if v == 29 {
        assert(spec_num_align(29) == 6 && spec_align_step(29) == 24) by (nonlinear_arith);
    } else if v == 30 {
        assert(spec_num_align(30) == 6 && spec_align_step(30) == 26) by (nonlinear_arith);
    } else if v == 31 {
        assert(spec_num_align(31) == 6 && spec_align_step(31) == 26) by (nonlinear_arith);
    } else if v == 32 {
        assert(spec_num_align(32) == 6 && spec_align_step(32) == 26) by (nonlinear_arith);
    } else if v == 33 {
        assert(spec_num_align(33) == 6 && spec_align_step(33) == 28) by (nonlinear_arith);
    } else if v == 34 {
        assert(spec_num_align(34) == 6 && spec_align_step(34) == 28) by (nonlinear_arith);
    } else if v == 35 {
        assert(spec_num_align(35) == 7 && spec_align_step(35) == 24) by (nonlinear_arith);
    } else if v == 36 {
        assert(spec_num_align(36) == 7 && spec_align_step(36) == 26) by (nonlinear_arith);
    } else if v == 37 {
        assert(spec_num_align(37) == 7 && spec_align_step(37) == 26) by (nonlinear_arith);
    } else if v == 38 {
        assert(spec_num_align(38) == 7 && spec_align_step(38) == 26) by (nonlinear_arith);
    } else if v == 39 {
        assert(spec_num_align(39) == 7 && spec_align_step(39) == 28) by (nonlinear_arith);
    } else if v == 40 {
        assert(spec_num_align(40) == 7 && spec_align_step(40) == 28) by (nonlinear_arith);
    }
    assert((spec_num_align(v) - 2) * spec_align_step(v) + 25 <= spec_size(v)) by (nonlinear_arith)
        requires
            2 <= v <= 40,
            spec_num_align(v) == v / 7 + 2,
            spec_num_align(v) <= 7,
            spec_align_step(v) <= 28,
            v >= 7 ==> spec_num_align(v) >= 3,
            v >= 14 ==> spec_num_align(v) >= 4,
    ;
}

/// Whether the alignment pattern at index pair (`i`, `j`) would overlap a
/// finder pattern (and is therefore left out).
pub fn alignment_pattern_overlaps_finder(i: usize, j: usize, last: usize) -> (r: bool)
    ensures
        r == ((i == 0 && (j == 0 || j == last)) || (i == last && j == 0)),
{
    (i == 0 && (j == 0 || j == last)) || (i == last && j == 0)
}

impl QrCode {
    /// The alignment-pattern coordinates of this symbol, ascending.
    pub fn get_alignment_pattern_positions(&self) -> (r: Vec<u8>)
        requires
            self.wf(),
        ensures
            r.len() == spec_num_align(self.spec_version()),
            forall|k: int|
                0 <= k < r.len() ==> #[trigger] r@[k] as int == spec_alignment_positions(
                    self.spec_version(),
                )[k],
    {
        let ver = self.version().value();
        if ver == 1 {
            Vec::new()
        } else {
            let ghost v = ver as int;
            proof {
                lemma_align_facts(v);
            }
            let numalign = ver / 7 + 2;
            let step = ((ver as i32 * 8 + numalign as i32 * 3 + 5) / (numalign as i32 * 4 - 4) * 2) as u8;
            let mut desc: Vec<u8> = Vec::new();
            let mut i: u8 = 0;
            while i < numalign - 1
                invariant
                    2 <= numalign <= 7,
                    numalign as int == spec_num_align(v),
                    step as int == spec_align_step(v),
                    self.size as int == spec_size(v),
                    (numalign - 2) * step + 25 <= self.size,
                    i <= numalign - 1,
                    desc.len() == i,
                    forall|k: int| 0 <= k < i ==> #[trigger] desc@[k] as int == self.size - 7 - k * step,
                decreases numalign - 1 - i,
            {
                assert(i * step <= (numalign - 2) * step) by (nonlinear_arith)
                    requires
                        i <= numalign - 2,
                ;
                desc.push(self.size - 7 - i * step);
                i = i + 1;
            }
            desc.push(6);
            let mut result: Vec<u8> = Vec::new();
            let mut k: usize = 0;
            while k < desc.len()
                invariant
                    k <= desc.len(),
                    desc.len() == numalign,
                    2 <= numalign <= 7,
                    numalign as int == spec_num_align(v),
                    step as int == spec_align_step(v),
                    self.size as int == spec_size(v),
                    v == self.spec_version(),
                    desc@[numalign - 1] == 6,
                    forall|q: int| 0 <= q < numalign - 1 ==> #[trigger] desc@[q] as int == self.size - 7 - q * step,
                    result.len() == k,
                    forall|q: int| 0 <= q < k ==> #[trigger] result@[q] as int == spec_alignment_positions(v)[q],
                decreases desc.len() - k,
            {
                result.push(desc[desc.len() - 1 - k]);
                k = k + 1;
            }
            result
        }
    }
}

/// Whether the alignment pattern at index pair (`i`, `j`) of `n` positions
/// is drawn (it is not, where it would overlap a finder pattern).
pub open spec fn align_drawn(i: int, j: int, n: int) -> bool {
    0 <= i < n && 0 <= j < n && !((i == 0 && (j == 0 || j == n - 1)) || (i == n - 1 && j == 0))
}

/// Whether (`x`, `y`) lies within distance `r` (in both axes) of the centre
/// of the alignment pattern (`i`, `j`).
pub open spec fn near_align(pos: Seq<int>, i: int, j: int, x: int, y: int, r: int) -> bool {
    pos[i] - r <= x <= pos[i] + r && pos[j] - r <= y <= pos[j] + r
}

/// Whether (`x`, `y`) lies within distance `r` of the centre of one of the
/// drawn alignment patterns whose index pair comes before (`i`, `j`) in row-major
/// order.
pub open spec fn near_align_before(pos: Seq<int>, x: int, y: int, r: int, i: int, j: int) -> bool {
    exists|i2: int, j2: int|
        #![trigger near_align(pos, i2, j2, x, y, r)]
        align_drawn(i2, j2, pos.len() as int) && (i2 < i || (i2 == i && j2 < j)) && near_align(
            pos,
            i2,
            j2,
            x,
            y,
            r,
        )
}

/// Whether (`x`, `y`) lies within distance `r` of the centre of a drawn
/// alignment pattern of a version-`v` symbol.
pub open spec fn in_alignment_area(v: int, x: int, y: int, r: int) -> bool {
    let pos = spec_alignment_positions(v);
    near_align_before(pos, x, y, r, pos.len() as int, 0)
}

/// Whether the module (`x`, `y`) of a version-`v` symbol belongs to a
/// function pattern: the timing lines, the finder patterns with their
/// separators and format areas, the alignment patterns and, from version 7,
/// the version-information areas.
pub open spec fn spec_is_function_module(v: int, x: int, y: int) -> bool {
    let size = spec_size(v);
    ||| x == 6
    ||| y == 6
    ||| in_rect(x, y, 0, 0, 9, 9)
    ||| in_rect(x, y, size - 8, 0, 8, 9)
    ||| in_rect(x, y, 0, size - 8, 9, 8)
    ||| in_alignment_area(v, x, y, 2)
    ||| (v >= 7 && (in_rect(x, y, size - 11, 0, 3, 6) || in_rect(x, y, 0, size - 11, 6, 3)))
}

impl QrCode {
    /// A symbol of the given version in which exactly the function modules
    /// are dark.
    #[verifier::rlimit(40)]
    pub fn function_modules_marked(ver: Version) -> (r: Self)
        requires
            ver.wf(),
        ensures
            r.wf(),
            r.size as int == spec_size(ver.0 as int),
            r.tail_clear(),
            forall|x: int, y: int|
                0 <= x < r.size && 0 <= y < r.size ==> #[trigger] r.module(x, y)
                    == spec_is_function_module(ver.0 as int, x, y),
            crate::placement::light_count(
                r.grid(),
                r.size as int,
                crate::placement::num_pairs(r.size as int) * (2 * r.size),
            ) == spec_num_raw_data_modules(ver.0 as int),
    {
        let ghost v = ver.0 as int;
        let size = ver.value() * 4 + 17;
        assert((size as usize) * (size as usize) <= 177 * 177) by (nonlinear_arith)
            requires
                size <= 177,
        ;
        let modules = crate::interleave::zeroed_vec(((size as usize) * (size as usize) + 7) / 8);
        let mut result = QrCode { size, modules };
        proof {
            assert forall|i: int| 0 <= i < result.bits().len() implies !#[trigger] result.bits()[i] by {
                let z = result.modules@[i / 8];
                let q = (i % 8) as u8;
                assert(z == 0u8);
                assert((0u8 >> q) & 1u8 != 1u8) by (bit_vector);
            }
        }
        let ghost a = result;
        result.fill_rectangle(6, 0, 1, size);
        result.fill_rectangle(0, 6, size, 1);
        result.fill_rectangle(0, 0, 9, 9);
        result.fill_rectangle(size - 8, 0, 8, 9);
        result.fill_rectangle(0, size - 8, 9, 8);
        let alignpatpos = result.get_alignment_pattern_positions();
        let n = alignpatpos.len();
        let ghost pos = spec_alignment_positions(v);
        proof {
            if v >= 2 {
                lemma_align_facts(v);
            }
        }
        let ghost b = result;
        let mut i: usize = 0;
        while i < n
            invariant
                result.wf(),
                result.size == size,
                size as int == spec_size(v),
                1 <= v <= 40,
                v == ver.0 as int,
                v == result.spec_version(),
                pos == spec_alignment_positions(v),
                n == pos.len(),
                n == alignpatpos.len(),
                v >= 2 ==> (pos.len() - 2) * spec_align_step(v) + 25 <= spec_size(v),
                forall|k: int| 0 <= k < n ==> #[trigger] alignpatpos@[k] as int == pos[k],
                i <= n,
                b.size == size,
                forall|x: int, y: int|
                    0 <= x < size && 0 <= y < size ==> #[trigger] result.module(x, y) == (b.module(x, y)
                        || near_align_before(pos, x, y, 2, i as int, 0)),
                same_from(result.bits(), b.bits(), b.area()),
            decreases n - i,
        {
            let mut j: usize = 0;
            while j < n
                invariant
                    result.wf(),
                    result.size == size,
                    size as int == spec_size(v),
                    1 <= v <= 40,
                    pos == spec_alignment_positions(v),
                    n == pos.len(),
                    n == alignpatpos.len(),
                    v >= 2 ==> (pos.len() - 2) * spec_align_step(v) + 25 <= spec_size(v),
                    forall|k: int| 0 <= k < n ==> #[trigger] alignpatpos@[k] as int == pos[k],
                    i < n,
                    j <= n,
                    b.size == size,
                    forall|x: int, y: int|
                        0 <= x < size && 0 <= y < size ==> #[trigger] result.module(x, y) == (b.module(
                            x,
                            y,
                        ) || near_align_before(pos, x, y, 2, i as int, j as int)),
                    same_from(result.bits(), b.bits(), b.area()),
                decreases n - j,
            {
                let ghost c = result;
                let drawn = !alignment_pattern_overlaps_finder(i, j, n - 1);
                if drawn {
                    proof {
                        assert(v >= 2);
                        lemma_align_facts(v);
                        assert(6 <= pos[i as int] <= size - 7) by {
                            if i > 0 {
                                assert((n - 1 - i) * spec_align_step(v) <= (n - 2) * spec_align_step(v))
                                    by (nonlinear_arith)
                                    requires
                                        1 <= i < n,
                                        spec_align_step(v) >= 0,
                                ;
                            }
                        }
                        assert(6 <= pos[j as int] <= size - 7) by {
                            if j > 0 {
                                assert((n - 1 - j) * spec_align_step(v) <= (n - 2) * spec_align_step(v))
                                    by (nonlinear_arith)
                                    requires
                                        1 <= j < n,
                                        spec_align_step(v) >= 0,
                                ;
                            }
                        }
                    }
                    result.fill_rectangle(alignpatpos[i] - 2, alignpatpos[j] - 2, 5, 5);
                }
                proof {
                    assert forall|x: int, y: int| 0 <= x < size && 0 <= y < size implies #[trigger] result.module(
                        x,
                        y,
                    ) == (b.module(x, y) || near_align_before(pos, x, y, 2, i as int, j + 1)) by {
                        if near_align_before(pos, x, y, 2, i as int, j + 1) && !near_align_before(
                            pos,
                            x,
                            y,
                            2,
                            i as int,
                            j as int,
                        ) {
                            let (i2, j2) = choose|i2: int, j2: int|
                                #![trigger near_align(pos, i2, j2, x, y, 2)]
                                align_drawn(i2, j2, pos.len() as int) && (i2 < i || (i2 == i && j2 < j
                                    + 1)) && near_align(pos, i2, j2, x, y, 2);
                            assert(i2 == i && j2 == j);
                        }
                        if drawn && near_align(pos, i as int, j as int, x, y, 2) {
                            assert(align_drawn(i as int, j as int, pos.len() as int));
                        }
                    }
                }
                j = j + 1;
            }
            proof {
                assert forall|x: int, y: int| 0 <= x < size && 0 <= y < size implies #[trigger] result.module(
                    x,
                    y,
                ) == (b.module(x, y) || near_align_before(pos, x, y, 2, i + 1, 0)) by {
                    if near_align_before(pos, x, y, 2, i as int, n as int) {
                        let (i2, j2) = choose|i2: int, j2: int|
                            #![trigger near_align(pos, i2, j2, x, y, 2)]
                            align_drawn(i2, j2, pos.len() as int) && (i2 < i || (i2 == i && j2 < n))
                                && near_align(pos, i2, j2, x, y, 2);
                        assert(align_drawn(i2, j2, pos.len() as int) && (i2 < i + 1 || (i2 == i + 1
                            && j2 < 0)) && near_align(pos, i2, j2, x, y, 2));
                    }
                    if near_align_before(pos, x, y, 2, i + 1, 0) {
                        let (i2, j2) = choose|i2: int, j2: int|
                            #![trigger near_align(pos, i2, j2, x, y, 2)]
                            align_drawn(i2, j2, pos.len() as int) && (i2 < i + 1 || (i2 == i + 1 && j2
                                < 0)) && near_align(pos, i2, j2, x, y, 2);
                        assert(align_drawn(i2, j2, pos.len() as int) && (i2 < i || (i2 == i && j2
                            < n)) && near_align(pos, i2, j2, x, y, 2));
                    }
                }
            }
            i = i + 1;
        }
        if ver.value() >= 7 {
            result.fill_rectangle(size - 11, 0, 3, 6);
            result.fill_rectangle(0, size - 11, 6, 3);
        }
        proof {
            assert forall|x: int, y: int| 0 <= x < size && 0 <= y < size implies #[trigger] result.module(
                x,
                y,
            ) == spec_is_function_module(v, x, y) by {
                lemma_grid_index(size as int, x, y, x, y);
                lemma_area_fits(a);
                assert(!a.module(x, y));
            }
            assert forall|i: int| result.area() <= i < result.bits().len() implies !#[trigger] result.bits()[i] by {
                assert(!a.bits()[i]);
            }
            crate::layout::lemma_marked_data_modules(result.grid(), v);
        }
        result
    }
}

} // verus!
