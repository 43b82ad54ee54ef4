//! Data segments: choosing an encoding mode for a text and turning its
//! characters into the bit string of that mode.
use vstd::prelude::*;
use crate::bits::{bytes_to_bits, tail_byte_clear, value_bits, BitBuffer};
use crate::params::Version;
use vstd::arithmetic::power2::{pow2, lemma2_to64};
use vstd::bits::lemma_usize_shl_is_mul;

verus! {

/// The character set of alphanumeric mode, in the order of its values.
/// ("0123456789ABCDEFGHIJKLMNOPQRSTUVWXYZ $%*+-./:" as ASCII codes)
pub const ALPHANUMERIC_CHARSET: [u8; 45] = [
    48, 49, 50, 51, 52, 53, 54, 55, 56, 57, 65, 66, 67, 68, 69,
    70, 71, 72, 73, 74, 75, 76, 77, 78, 79, 80, 81, 82, 83, 84,
    85, 86, 87, 88, 89, 90, 32, 36, 37, 42, 43, 45, 46, 47, 58,
];

/// Value of byte `c` in alphanumeric mode, 45 when `c` is not in its set.
pub open spec fn spec_alnum_index(c: int) -> int {
    if 48 <= c <= 57 {
        c - 48
    } else if 65 <= c <= 90 {
        c - 55
    } else if c == 32 {
        36
    } else if c == 36 {
        37
    } else if c == 37 {
        38
    } else if c == 42 {
        39
    } else if c == 43 {
        40
    } else if c == 45 {
        41
    } else if c == 46 {
        42
    } else if c == 47 {
        43
    } else if c == 58 {
        44
    } else {
        45
    }
}

/// Value of byte `c` in alphanumeric mode, if it has one.
pub open spec fn spec_alphanumeric_value(c: u8) -> Option<u8> {
    if spec_alnum_index(c as int) < 45 {
        Some(spec_alnum_index(c as int) as u8)
    } else {
        None
    }
}

/// Whether byte `c` is an ASCII digit.
pub open spec fn is_digit(c: u8) -> bool {
    48 <= c <= 57
}

/// The lookup table of alphanumeric values: entry `c` is the value of byte `c`,
/// or -1.
pub open spec fn is_alnum_table(t: Seq<i8>) -> bool {
    &&& t.len() == 128
    &&& forall|c: int|
        0 <= c < 128 ==> #[trigger] t[c] == if spec_alnum_index(c) < 45 {
            spec_alnum_index(c) as i8
        } else {
            -1i8
        }
}

/// The alphanumeric value of a byte is its position in
/// `ALPHANUMERIC_CHARSET`: each byte of the set gets its index, and a byte
/// with a value is the byte of the set at that index.
pub proof fn lemma_alnum_value_is_charset_index()
    ensures
        forall|i: int|
            0 <= i < 45 ==> spec_alphanumeric_value(#[trigger] ALPHANUMERIC_CHARSET@[i]) == Some(i as u8),
        forall|c: u8|
            #[trigger] spec_alphanumeric_value(c) is Some ==> ALPHANUMERIC_CHARSET@[spec_alphanumeric_value(c)->0 as int] == c,
{
    assert forall|i: int| 0 <= i < 45 implies spec_alphanumeric_value(#[trigger] ALPHANUMERIC_CHARSET@[i]) == Some(i as u8) by {
        if i == 0 {
            assert(ALPHANUMERIC_CHARSET@[0] == 48u8);
        } else if i == 1 {
            assert(ALPHANUMERIC_CHARSET@[1] == 49u8);
        } else if i == 2 {
            assert(ALPHANUMERIC_CHARSET@[2] == 50u8);
        } else if i == 3 {
            assert(ALPHANUMERIC_CHARSET@[3] == 51u8);
        } else if i == 4 {
            assert(ALPHANUMERIC_CHARSET@[4] == 52u8);
        } else if i == 5 {
            assert(ALPHANUMERIC_CHARSET@[5] == 53u8);
        } else if i == 6 {
            assert(ALPHANUMERIC_CHARSET@[6] == 54u8);
        } else if i == 7 {
            assert(ALPHANUMERIC_CHARSET@[7] == 55u8);
        } else if i == 8 {
            assert(ALPHANUMERIC_CHARSET@[8] == 56u8);
        } else if i == 9 {
            assert(ALPHANUMERIC_CHARSET@[9] == 57u8);
        } else if i == 10 {
            assert(ALPHANUMERIC_CHARSET@[10] == 65u8);
        } else if i == 11 {
            assert(ALPHANUMERIC_CHARSET@[11] == 66u8);
        } else if i == 12 {
            assert(ALPHANUMERIC_CHARSET@[12] == 67u8);
        } else if i == 13 {
            assert(ALPHANUMERIC_CHARSET@[13] == 68u8);
        } else if i == 14 {
            assert(ALPHANUMERIC_CHARSET@[14] == 69u8);
        } else if i == 15 {
            assert(ALPHANUMERIC_CHARSET@[15] == 70u8);
        } else if i == 16 {
            assert(ALPHANUMERIC_CHARSET@[16] == 71u8);
        } else if i == 17 {
            assert(ALPHANUMERIC_CHARSET@[17] == 72u8);
        } else if i == 18 {
            assert(ALPHANUMERIC_CHARSET@[18] == 73u8);
        } else if i == 19 {
            assert(ALPHANUMERIC_CHARSET@[19] == 74u8);
        } else if i == 20 {
            assert(ALPHANUMERIC_CHARSET@[20] == 75u8);
        } else if i == 21 {
            assert(ALPHANUMERIC_CHARSET@[21] == 76u8);
        } else if i == 22 {
            assert(ALPHANUMERIC_CHARSET@[22] == 77u8);
        } else if i == 23 {
            assert(ALPHANUMERIC_CHARSET@[23] == 78u8);
        } else if i == 24 {
            assert(ALPHANUMERIC_CHARSET@[24] == 79u8);
        } else if i == 25 {
            assert(ALPHANUMERIC_CHARSET@[25] == 80u8);
        } else if i == 26 {
            assert(ALPHANUMERIC_CHARSET@[26] == 81u8);
        } else if i == 27 {
            assert(ALPHANUMERIC_CHARSET@[27] == 82u8);
        } else if i == 28 {
            assert(ALPHANUMERIC_CHARSET@[28] == 83u8);
        } else if i == 29 {
            assert(ALPHANUMERIC_CHARSET@[29] == 84u8);
        } else if i == 30 {
            assert(ALPHANUMERIC_CHARSET@[30] == 85u8);
        } else if i == 31 {
            assert(ALPHANUMERIC_CHARSET@[31] == 86u8);
        } else if i == 32 {
            assert(ALPHANUMERIC_CHARSET@[32] == 87u8);
        } else if i == 33 {
            assert(ALPHANUMERIC_CHARSET@[33] == 88u8);
        } else if i == 34 {
            assert(ALPHANUMERIC_CHARSET@[34] == 89u8);
        } else if i == 35 {
            assert(ALPHANUMERIC_CHARSET@[35] == 90u8);
        } else if i == 36 {
            assert(ALPHANUMERIC_CHARSET@[36] == 32u8);
        } else if i == 37 {
            assert(ALPHANUMERIC_CHARSET@[37] == 36u8);
        } else if i == 38 {
            assert(ALPHANUMERIC_CHARSET@[38] == 37u8);
        } else if i == 39 {
            assert(ALPHANUMERIC_CHARSET@[39] == 42u8);
        } else if i == 40 {
            assert(ALPHANUMERIC_CHARSET@[40] == 43u8);
        } else if i == 41 {
            assert(ALPHANUMERIC_CHARSET@[41] == 45u8);
        } else if i == 42 {
            assert(ALPHANUMERIC_CHARSET@[42] == 46u8);
        } else if i == 43 {
            assert(ALPHANUMERIC_CHARSET@[43] == 47u8);
        } else if i == 44 {
            assert(ALPHANUMERIC_CHARSET@[44] == 58u8);
        }
    }
    assert forall|c: u8| #[trigger] spec_alphanumeric_value(c) is Some implies ALPHANUMERIC_CHARSET@[spec_alphanumeric_value(c)->0 as int] == c by {
        let k = spec_alnum_index(c as int);
        let d = ALPHANUMERIC_CHARSET@[k];
        assert(spec_alphanumeric_value(d) == Some(k as u8));
        assert(spec_alnum_index(d as int) == k);
    }
}

/// A table of alphanumeric values gives each byte of `ALPHANUMERIC_CHARSET`
/// its index there, and every entry that is not -1 is the index of its byte.
pub proof fn lemma_alnum_table_charset(t: Seq<i8>)
    requires
        is_alnum_table(t),
    ensures
        forall|i: int| 0 <= i < 45 ==> t[#[trigger] ALPHANUMERIC_CHARSET@[i] as int] == i as i8,
        forall|c: int|
            0 <= c < 128 ==> (#[trigger] t[c] == -1 || (0 <= t[c] < 45 && ALPHANUMERIC_CHARSET@[t[c] as int] == c)),
{
    lemma_alnum_value_is_charset_index();
    assert forall|i: int| 0 <= i < 45 implies t[#[trigger] ALPHANUMERIC_CHARSET@[i] as int] == i as i8 by {
        let ch = ALPHANUMERIC_CHARSET@[i];
        assert(spec_alphanumeric_value(ch) == Some(i as u8));
        assert(ch < 128);
    }
    assert forall|c: int| 0 <= c < 128 implies (#[trigger] t[c] == -1 || (0 <= t[c] < 45 && ALPHANUMERIC_CHARSET@[t[c] as int] == c)) by {
        let b = c as u8;
        if spec_alnum_index(c) < 45 {
            assert(spec_alphanumeric_value(b) is Some);
        }
    }
}

/// Builds the table of alphanumeric values of the bytes 0..128 (-1 for
/// bytes outside the alphanumeric set).
pub fn build_alphanumeric_values() -> (r: [i8; 128])
    ensures
        is_alnum_table(r@),
        forall|i: int| 0 <= i < 45 ==> r@[#[trigger] ALPHANUMERIC_CHARSET@[i] as int] == i as i8,
        forall|c: int|
            0 <= c < 128 ==> (#[trigger] r@[c] == -1 || (0 <= r@[c] < 45 && ALPHANUMERIC_CHARSET@[r@[c] as int] == c)),
{
    let charset = ALPHANUMERIC_CHARSET;
    let mut result = [-1i8; 128];
    let mut i: usize = 0;
    while i < 45
        invariant
            i <= 45,
            charset@ == ALPHANUMERIC_CHARSET@,
            result@.len() == 128,
            forall|c: int|
                0 <= c < 128 ==> #[trigger] result@[c] == if spec_alnum_index(c) < i {
                    spec_alnum_index(c) as i8
                } else {
                    -1i8
                },
        decreases 45 - i,
    {
        let ch = charset[i];
        assert(spec_alnum_index(ch as int) == i as int && ch < 128);
        result[ch as usize] = i as i8;
        i = i + 1;
    }
    proof {
        lemma_alnum_table_charset(result@);
    }
    result
}

/// Value of `value` in alphanumeric mode, or `None` if it is not in the set.
pub fn alphanumeric_value(table: &[i8; 128], value: u8) -> (r: Option<u8>)
    requires
        is_alnum_table(table@),
    ensures
        r == spec_alphanumeric_value(value),
        r matches Some(k) ==> k < 45 && ALPHANUMERIC_CHARSET@[k as int] == value,
        forall|i: int| 0 <= i < 45 && #[trigger] ALPHANUMERIC_CHARSET@[i] == value ==> r == Some(i as u8),
{
    proof {
        lemma_alnum_value_is_charset_index();
    }
    if value < 128 {
        let mapped = table[value as usize];
        if mapped >= 0 {
            return Some(mapped as u8);
        }
    }
    None
}

/// The encoding modes this encoder uses.
#[derive(Clone, Copy, PartialEq, Eq, Structural, Debug)]
pub enum QrSegmentMode {
    Numeric,
    Alphanumeric,
    Byte,
}

/// The mode that encodes `data` most compactly: numeric when every byte is a
/// digit, otherwise alphanumeric when every byte is in that set, otherwise byte.
pub open spec fn spec_text_segment_mode(data: Seq<u8>) -> QrSegmentMode {
    if forall|i: int| 0 <= i < data.len() ==> is_digit(#[trigger] data[i]) {
        QrSegmentMode::Numeric
    } else if forall|i: int|
        0 <= i < data.len() ==> spec_alphanumeric_value(#[trigger] data[i]).is_some() {
        QrSegmentMode::Alphanumeric
    } else {
        QrSegmentMode::Byte
    }
}

/// Chooses the encoding mode for a text.
pub fn classify_text_segment_mode(table: &[i8; 128], data: &[u8]) -> (r: QrSegmentMode)
    requires
        is_alnum_table(table@),
    ensures
        r == spec_text_segment_mode(data@),
{
    let mut numeric = true;
    let mut i: usize = 0;
    while i < data.len()
        invariant
            i <= data.len(),
            is_alnum_table(table@),
            numeric <==> forall|k: int| 0 <= k < i ==> is_digit(#[trigger] data@[k]),
            forall|k: int| 0 <= k < i ==> spec_alphanumeric_value(#[trigger] data@[k]).is_some(),
        decreases data.len() - i,
    {
        let b = data[i];
        if !(48 <= b && b <= 57) {
            numeric = false;
            if alphanumeric_value(table, b).is_none() {
                assert(!spec_alphanumeric_value(data@[i as int]).is_some());
                return QrSegmentMode::Byte;
            }
        }
        i = i + 1;
    }
    if numeric {
        QrSegmentMode::Numeric
    } else {
        QrSegmentMode::Alphanumeric
    }
}

impl QrSegmentMode {
    /// The four-bit mode indicator.
    pub open spec fn spec_mode_bits(self) -> u32 {
        match self {
            QrSegmentMode::Numeric => 0x1,
            QrSegmentMode::Alphanumeric => 0x2,
            QrSegmentMode::Byte => 0x4,
        }
    }

    /// Width of the character-count field of this mode in a version-`v` symbol.
    pub open spec fn spec_num_char_count_bits(self, v: int) -> int {
        let index = (v + 7) / 17;
        match self {
            QrSegmentMode::Numeric => if index == 0 {
                10
            } else if index == 1 {
                12
            } else {
                14
            },
            QrSegmentMode::Alphanumeric => if index == 0 {
                9
            } else if index == 1 {
                11
            } else {
                13
            },
            QrSegmentMode::Byte => if index == 0 {
                8
            } else {
                16
            },
        }
    }

    pub fn mode_bits(self) -> (r: u32)
        ensures
            r == self.spec_mode_bits(),
    {
        match self {
            QrSegmentMode::Numeric => 0x1,
            QrSegmentMode::Alphanumeric => 0x2,
            QrSegmentMode::Byte => 0x4,
        }
    }

    pub fn num_char_count_bits(self, ver: Version) -> (r: u8)
        requires
            ver.wf(),
        ensures
            r as int == self.spec_num_char_count_bits(ver.0 as int),
            8 <= r <= 16,
    {
        let index = ((ver.value() + 7) / 17) as usize;
        match self {
            QrSegmentMode::Numeric => [10u8, 12, 14][index],
            QrSegmentMode::Alphanumeric => [9u8, 11, 13][index],
            QrSegmentMode::Byte => [8u8, 16, 16][index],
        }
    }
}

/// The number that a string of decimal digits denotes.
pub open spec fn decimal_value(s: Seq<u8>) -> nat
    decreases s.len(),
{
    if s.len() == 0 {
        0
    } else {
        decimal_value(s.drop_last()) * 10 + (s.last() - 48) as nat
    }
}

/// The number that a string of alphanumeric characters denotes in base 45.
pub open spec fn alnum_value(s: Seq<u8>) -> nat
    decreases s.len(),
{
    if s.len() == 0 {
        0
    } else {
        alnum_value(s.drop_last()) * 45 + spec_alnum_index(s.last() as int) as nat
    }
}

/// The `k`-th chunk of `t` when it is cut into chunks of `n` bytes.
pub open spec fn chunk(t: Seq<u8>, n: int, k: int) -> Seq<u8> {
    t.subrange(n * k, if n * k + n < t.len() { n * k + n } else { t.len() as int })
}

/// Bits of the first `k` chunks of a numeric text: each chunk of up to three
/// digits becomes its value in `3 * len + 1` bits.
pub open spec fn numeric_bits_upto(t: Seq<u8>, k: nat) -> Seq<bool>
    decreases k,
{
    if k == 0 {
        Seq::empty()
    } else {
        let c = chunk(t, 3, k - 1);
        numeric_bits_upto(t, (k - 1) as nat) + value_bits(decimal_value(c) as u32, (3 * c.len() + 1) as int)
    }
}

/// The numeric-mode bit string of a text of digits.
pub open spec fn numeric_bits(t: Seq<u8>) -> Seq<bool> {
    numeric_bits_upto(t, ((t.len() + 2) / 3) as nat)
}

/// The first `k` chunks of a numeric text take `(10 * d + 2) / 3` bits, where
/// `d` is the number of digits they cover.
pub proof fn lemma_numeric_bits_upto_len(t: Seq<u8>, k: nat)
    requires
        k <= (t.len() + 2) / 3,
    ensures
        numeric_bits_upto(t, k).len() == (10 * (if 3 * k < t.len() {
            3 * k as int
        } else {
            t.len() as int
        }) + 2) / 3,
    decreases k,
{
    if k > 0 {
        lemma_numeric_bits_upto_len(t, (k - 1) as nat);
        let c = chunk(t, 3, k - 1);
        let n = t.len() as int;
        let d = if 3 * k < n {
            3 * k as int
        } else {
            n
        };
        assert(3 * (k - 1) < n);
        assert(c.len() == d - 3 * (k - 1));
        assert(1 <= c.len() <= 3);
        assert((10 * d + 2) / 3 == (10 * (3 * (k - 1)) + 2) / 3 + 3 * c.len() + 1);
    }
}

/// A numeric text of `n` digits takes `(10 * n + 2) / 3` bits.
pub proof fn lemma_numeric_bits_len(t: Seq<u8>)
    ensures
        numeric_bits(t).len() == (10 * t.len() + 2) / 3,
{
    lemma_numeric_bits_upto_len(t, ((t.len() + 2) / 3) as nat);
}

/// Bits of the first `k` chunks of an alphanumeric text: each pair of
/// characters becomes its base-45 value in 11 bits, a last single character
/// its value in 6 bits.
pub open spec fn alnum_bits_upto(t: Seq<u8>, k: nat) -> Seq<bool>
    decreases k,
{
    if k == 0 {
        Seq::empty()
    } else {
        let c = chunk(t, 2, k - 1);
        alnum_bits_upto(t, (k - 1) as nat) + value_bits(alnum_value(c) as u32, (5 * c.len() + 1) as int)
    }
}

/// The alphanumeric-mode bit string of a text.
pub open spec fn alnum_bits(t: Seq<u8>) -> Seq<bool> {
    alnum_bits_upto(t, ((t.len() + 1) / 2) as nat)
}

/// Number of data bits that `numchars` characters take in `mode`.
pub open spec fn spec_bit_length(mode: QrSegmentMode, numchars: int) -> int {
    match mode {
        QrSegmentMode::Numeric => (numchars * 10 + 2) / 3,
        QrSegmentMode::Alphanumeric => (numchars * 11 + 1) / 2,
        QrSegmentMode::Byte => numchars * 8,
    }
}

/// `spec_bit_length`, or `None` when the computation overflows a `usize`.
pub open spec fn spec_calc_bit_length(mode: QrSegmentMode, numchars: int) -> Option<usize> {
    let (numer, denom) = match mode {
        QrSegmentMode::Numeric => (10int, 3int),
        QrSegmentMode::Alphanumeric => (11int, 2int),
        QrSegmentMode::Byte => (8int, 1int),
    };
    if numchars * numer + denom - 1 <= usize::MAX {
        Some(spec_bit_length(mode, numchars) as usize)
    } else {
        None
    }
}

/// What a segment denotes: its mode, its number of characters and its data bits.
pub struct SegSpec {
    pub mode: QrSegmentMode,
    pub numchars: nat,
    pub bits: Seq<bool>,
}

/// Number of bits a segment takes in a version-`v` symbol: mode indicator,
/// character count and data.
pub open spec fn seg_cost(seg: SegSpec, v: int) -> int {
    4 + seg.mode.spec_num_char_count_bits(v) + seg.bits.len()
}

/// Number of bits a list of segments takes in a version-`v` symbol.
pub open spec fn segs_cost(segs: Seq<SegSpec>, v: int) -> int
    decreases segs.len(),
{
    if segs.len() == 0 {
        0
    } else {
        segs_cost(segs.drop_last(), v) + seg_cost(segs.last(), v)
    }
}

/// Whether every segment's character count fits its count field.
pub open spec fn segs_counts_fit(segs: Seq<SegSpec>, v: int) -> bool {
    forall|i: int|
        0 <= i < segs.len() ==> (#[trigger] segs[i]).numchars < pow2(
            segs[i].mode.spec_num_char_count_bits(v) as nat,
        )
}

/// Number of bits the segments take in a version-`v` symbol, or `None` when
/// a character count does not fit its field or the total overflows a `usize`.
pub open spec fn spec_total_bits(segs: Seq<SegSpec>, v: int) -> Option<usize> {
    if segs_counts_fit(segs, v) && segs_cost(segs, v) <= usize::MAX {
        Some(segs_cost(segs, v) as usize)
    } else {
        None
    }
}

/// The cost of a list of segments is never negative.
pub proof fn lemma_segs_cost_nonneg(segs: Seq<SegSpec>, v: int)
    requires
        1 <= v <= 40,
    ensures
        segs_cost(segs, v) >= 0,
    decreases segs.len(),
{
    if segs.len() > 0 {
        lemma_segs_cost_nonneg(segs.drop_last(), v);
    }
}

pub proof fn lemma_segs_cost_prefix(segs: Seq<SegSpec>, v: int, i: int)
    requires
        0 <= i <= segs.len(),
        1 <= v <= 40,
    ensures
        segs_cost(segs.take(i), v) <= segs_cost(segs, v),
    decreases segs.len(),
{
    if i < segs.len() {
        assert(segs.drop_last().take(i) =~= segs.take(i));
        lemma_segs_cost_prefix(segs.drop_last(), v, i);
    } else {
        assert(segs.take(i) =~= segs);
    }
}

/// A segment: its mode, its number of characters and its data bits, held as
/// the first `bitlength` bits of `data`.
pub struct QrSegment {
    pub mode: QrSegmentMode,
    pub numchars: usize,
    pub data: Vec<u8>,
    pub bitlength: usize,
}

/// `ceil(numchars * numer / denom)`, or `None` on overflow.
fn mul_frac_ceil(numchars: usize, numer: usize, denom: usize) -> (r: Option<usize>)
    requires
        1 <= denom <= 3,
        numer <= 11,
    ensures
        r.is_some() <==> numchars * numer + denom - 1 <= usize::MAX,
        r.is_some() ==> r.unwrap() == (numchars * numer + denom - 1) / (denom as int),
{
    match numchars.checked_mul(numer) {
        Some(x) => match x.checked_add(denom - 1) {
            Some(y) => Some(y / denom),
            None => None,
        },
        None => {
            assert(numchars * numer > usize::MAX);
            None
        },
    }
}

/// Whether every byte of `s` is an alphanumeric-mode character.
#[verifier::opaque]
pub open spec fn all_alphanumeric(s: Seq<u8>) -> bool {
    forall|q: int| 0 <= q < s.len() ==> spec_alphanumeric_value(#[trigger] s[q]).is_some()
}

/// `1 << bits`: the least character count that a count field of `bits` bits
/// cannot hold.
fn count_limit(bits: u8) -> (r: usize)
    requires
        8 <= bits <= 16,
    ensures
        r == pow2(bits as nat),
{
    proof {
        lemma2_to64();
        lemma_usize_shl_is_mul(1, bits as usize);
    }
    1usize << (bits as usize)
}

/// Base-45 value of the alphanumeric characters `text[start..end]`.
fn alnum_chunk_value(table: &[i8; 128], text: &[u8], start: usize, end: usize) -> (value: u32)
    requires
        is_alnum_table(table@),
        start < end <= text.len(),
        end - start <= 2,
        all_alphanumeric(text@),
    ensures
        value == alnum_value(text@.subrange(start as int, end as int)),
        end - start == 1 ==> value < 45,
        end - start == 2 ==> value < 2025,
{
    reveal(all_alphanumeric);
    let mut value: u32 = 0;
    let mut j = start;
    while j < end
        invariant
            start <= j <= end,
            end <= text.len(),
            end - start <= 2,
            is_alnum_table(table@),
            forall|q: int|
                0 <= q < text.len() ==> spec_alphanumeric_value(#[trigger] text@[q]).is_some(),
            value == alnum_value(text@.subrange(start as int, j as int)),
            j - start == 0 ==> value == 0,
            j - start == 1 ==> value < 45,
            j - start == 2 ==> value < 2025,
        decreases end - j,
    {
        let a = alphanumeric_value(table, text[j]).unwrap();
        assert(spec_alphanumeric_value(text@[j as int]).is_some());
        assert(text@.subrange(start as int, j + 1).drop_last() =~= text@.subrange(
            start as int,
            j as int,
        ));
        value = value * 45 + a as u32;
        j = j + 1;
    }
    value
}

/// What each segment of a list denotes.
pub open spec fn segs_view(segs: Seq<QrSegment>) -> Seq<SegSpec> {
    segs.map_values(|s: QrSegment| s@)
}

impl QrSegment {
    /// The segment's data bits.
    pub open spec fn bits(&self) -> Seq<bool> {
        bytes_to_bits(self.data@).take(self.bitlength as int)
    }

    /// What the segment denotes.
    pub open spec fn view(&self) -> SegSpec {
        SegSpec { mode: self.mode, numchars: self.numchars as nat, bits: self.bits() }
    }

    pub open spec fn wf(&self) -> bool {
        self.bitlength <= self.data.len() * 8
    }

    pub fn new(mode: QrSegmentMode, numchars: usize, data: Vec<u8>, bitlength: usize) -> (r: Self)
        requires
            bitlength <= data.len() * 8,
        ensures
            r.mode == mode,
            r.numchars == numchars,
            r.data@ == data@,
            r.bitlength == bitlength,
            r.wf(),
    {
        QrSegment { mode, numchars, data, bitlength }
    }

    /// A byte-mode segment holding `data` as it is.
    pub fn make_bytes(data: &[u8]) -> (r: Self)
        requires
            data.len() * 8 <= usize::MAX,
        ensures
            r.mode == QrSegmentMode::Byte,
            r.numchars == data.len(),
            r.bitlength == data.len() * 8,
            r.bits() == bytes_to_bits(data@),
            r.wf(),
    {
        let mut copy: Vec<u8> = Vec::new();
        let mut i: usize = 0;
        while i < data.len()
            invariant
                i <= data.len(),
                copy@ == data@.take(i as int),
            decreases data.len() - i,
        {
            copy.push(data[i]);
            i = i + 1;
            assert(copy@ =~= data@.take(i as int));
        }
        assert(copy@ =~= data@);
        let r = Self::new(QrSegmentMode::Byte, data.len(), copy, data.len() * 8);
        assert(r.bits() =~= bytes_to_bits(data@));
        r
    }

    /// Number of data bits of `numchars` characters in `mode`, or `None` when
    /// it overflows.
    pub fn calc_bit_length(mode: QrSegmentMode, numchars: usize) -> (r: Option<usize>)
        ensures
            r == spec_calc_bit_length(mode, numchars as int),
    {
        match mode {
            QrSegmentMode::Numeric => mul_frac_ceil(numchars, 10, 3),
            QrSegmentMode::Alphanumeric => mul_frac_ceil(numchars, 11, 2),
            QrSegmentMode::Byte => mul_frac_ceil(numchars, 8, 1),
        }
    }

    /// Number of bytes that hold the data bits of `numchars` characters in
    /// `mode`, or `None` when it overflows.
    pub fn calc_buffer_size(mode: QrSegmentMode, numchars: usize) -> (r: Option<usize>)
        ensures
            r.is_some() <==> spec_calc_bit_length(mode, numchars as int).is_some(),
            r.is_some() ==> r.unwrap() == (spec_bit_length(mode, numchars as int) + 7) / 8,
    {
        match Self::calc_bit_length(mode, numchars) {
            Some(bits) => Some(bits / 8 + if bits % 8 != 0 { 1 } else { 0 }),
            None => None,
        }
    }

    /// A numeric-mode segment for a text of digits; its bits are written
    /// into `buf`.
    pub fn make_numeric(text: &[u8], buf: Vec<u8>) -> (r: Self)
        requires
            forall|i: int| 0 <= i < text.len() ==> is_digit(#[trigger] text@[i]),
            buf.len() * 8 <= usize::MAX,
            (text.len() * 10 + 2) / 3 <= buf.len() * 8,
        ensures
            r.mode == QrSegmentMode::Numeric,
            r.numchars == text.len(),
            r.bitlength == (text.len() * 10 + 2) / 3,
            r.bits() == numeric_bits(text@),
            r.data.len() == buf.len(),
            forall|i: int| (r.bitlength + 7) / 8 <= i < r.data.len() ==> r.data@[i] == buf@[i],
            tail_byte_clear(r.data@, r.bitlength as int),
            r.wf(),
    {
        let ghost t = text@;
        let n = text.len();
        let mut bb = BitBuffer::new(buf);
        let mut i: usize = 0;
        while i < n
            invariant
                i <= n,
                n == text.len(),
                t == text@,
                forall|q: int| 0 <= q < text.len() ==> is_digit(#[trigger] text@[q]),
                i < n ==> i % 3 == 0,
                bb.wf(),
                bb.data.len() == buf.len(),
                forall|k: int| (bb.length + 7) / 8 <= k < bb.data.len() ==> bb.data@[k] == buf@[k],
                (n * 10 + 2) / 3 <= bb.data.len() * 8,
                bb.length == (10 * i + 2) / 3,
                bb.bits() == numeric_bits_upto(t, ((i + 2) / 3) as nat),
            decreases n - i,
        {
            let end = if i + 3 < n {
                i + 3
            } else {
                n
            };
            let mut value: u32 = 0;
            let mut j = i;
            while j < end
                invariant
                    i <= j <= end,
                    end <= n,
                    n == text.len(),
                    end - i <= 3,
                    forall|q: int| 0 <= q < text.len() ==> is_digit(#[trigger] text@[q]),
                    value == decimal_value(text@.subrange(i as int, j as int)),
                    j - i == 0 ==> value == 0,
                    j - i == 1 ==> value < 10,
                    j - i == 2 ==> value < 100,
                    j - i == 3 ==> value < 1000,
                decreases end - j,
            {
                let d = text[j];
                assert(is_digit(text@[j as int]));
                assert(text@.subrange(i as int, j + 1).drop_last() =~= text@.subrange(
                    i as int,
                    j as int,
                ));
                value = value * 10 + (d - 48) as u32;
                j = j + 1;
            }
            let c = (end - i) as u8;
            let len = c * 3 + 1;
            assert((c == 1 && value < 10) || (c == 2 && value < 100) || (c == 3 && value < 1000)
                ==> value >> (c * 3 + 1) == 0) by (bit_vector);
            let ghost k = i / 3;
            bb.append_bits(value, len);
            proof {
                assert(chunk(t, 3, k as int) =~= text@.subrange(i as int, end as int));
                assert((end + 2) / 3 == k + 1);
                assert(bb.bits() =~= numeric_bits_upto(t, (k + 1) as nat));
            }
            i = end;
        }
        let bitlength = bb.length;
        let r = Self::new(QrSegmentMode::Numeric, n, bb.data, bitlength);
        r
    }

    /// An alphanumeric-mode segment for a text of alphanumeric characters; its
    /// bits are written into `buf`.
    pub fn make_alphanumeric(table: &[i8; 128], text: &[u8], buf: Vec<u8>) -> (r: Self)
        requires
            is_alnum_table(table@),
            forall|i: int|
                0 <= i < text.len() ==> spec_alphanumeric_value(#[trigger] text@[i]).is_some(),
            buf.len() * 8 <= usize::MAX,
            (text.len() * 11 + 1) / 2 <= buf.len() * 8,
        ensures
            r.mode == QrSegmentMode::Alphanumeric,
            r.numchars == text.len(),
            r.bitlength == (text.len() * 11 + 1) / 2,
            r.bits() == alnum_bits(text@),
            r.data.len() == buf.len(),
            forall|i: int| (r.bitlength + 7) / 8 <= i < r.data.len() ==> r.data@[i] == buf@[i],
            tail_byte_clear(r.data@, r.bitlength as int),
            r.wf(),
    {
        let ghost t = text@;
        let n = text.len();
        let mut bb = BitBuffer::new(buf);
        let mut i: usize = 0;
        assert(all_alphanumeric(text@)) by {
            reveal(all_alphanumeric);
        }
        while i < n
            invariant
                i <= n,
                n == text.len(),
                t == text@,
                is_alnum_table(table@),
                all_alphanumeric(text@),
                i < n ==> i % 2 == 0,
                bb.wf(),
                bb.data.len() == buf.len(),
                forall|k: int| (bb.length + 7) / 8 <= k < bb.data.len() ==> bb.data@[k] == buf@[k],
                (n * 11 + 1) / 2 <= bb.data.len() * 8,
                bb.length == (11 * i + 1) / 2,
                bb.bits() == alnum_bits_upto(t, ((i + 1) / 2) as nat),
            decreases n - i,
        {
            let end = if i + 2 < n {
                i + 2
            } else {
                n
            };
            let value = alnum_chunk_value(table, text, i, end);
            let c = (end - i) as u8;
            let len = c * 5 + 1;
            assert((c == 1 && value < 45) || (c == 2 && value < 2025) ==> value >> (c * 5 + 1)
                == 0) by (bit_vector);
            let ghost k = i / 2;
            bb.append_bits(value, len);
            proof {
                assert(chunk(t, 2, k as int) =~= text@.subrange(i as int, end as int));
                assert((end + 1) / 2 == k + 1);
                assert(bb.bits() =~= alnum_bits_upto(t, (k + 1) as nat));
            }
            i = end;
        }
        let bitlength = bb.length;
        let r = Self::new(QrSegmentMode::Alphanumeric, n, bb.data, bitlength);
        r
    }

    /// Number of bits the segments take in a symbol of the given version, or
    /// `None` when a character count does not fit its field or the total
    /// overflows.
    pub fn get_total_bits(segs: &[QrSegment], version: Version) -> (r: Option<usize>)
        requires
            version.wf(),
            forall|i: int| 0 <= i < segs.len() ==> (#[trigger] segs@[i]).wf(),
        ensures
            r == spec_total_bits(segs_view(segs@), version.0 as int),
    {
        let ghost v = version.0 as int;
        let ghost sv = segs_view(segs@);
        let mut result: usize = 0;
        let mut i: usize = 0;
        assert(sv.take(0) =~= Seq::<SegSpec>::empty());
        while i < segs.len()
            invariant
                i <= segs.len(),
                version.wf(),
                v == version.0 as int,
                sv == segs_view(segs@),
                sv.len() == segs.len(),
                forall|q: int| 0 <= q < segs.len() ==> (#[trigger] segs@[q]).wf(),
                result == segs_cost(sv.take(i as int), v),
                segs_counts_fit(sv.take(i as int), v),
            decreases segs.len() - i,
        {
            let seg = &segs[i];
            assert(sv[i as int] == seg@);
            assert(seg@.bits.len() == seg.bitlength);
            let ccbits = seg.mode.num_char_count_bits(version);
            let limit = count_limit(ccbits);
            assert(sv.take(i + 1).drop_last() =~= sv.take(i as int));
            if seg.numchars >= limit {
                assert(!segs_counts_fit(sv, v)) by {
                    assert(sv[i as int] == seg@);
                }
                return None;
            }
            let step = 4 + ccbits as usize;
            if result > usize::MAX - step {
                proof {
                    lemma_segs_cost_prefix(sv, v, i + 1);
                }
                return None;
            }
            result = result + step;
            if result > usize::MAX - seg.bitlength {
                proof {
                    lemma_segs_cost_prefix(sv, v, i + 1);
                }
                return None;
            }
            result = result + seg.bitlength;
            i = i + 1;
            assert(segs_counts_fit(sv.take(i as int), v)) by {
                assert forall|q: int| 0 <= q < i implies (#[trigger] sv.take(i as int)[q]).numchars
                    < pow2(sv.take(i as int)[q].mode.spec_num_char_count_bits(v) as nat) by {
                    if q < i - 1 {
                        assert(sv.take(i as int)[q] == sv.take(i - 1)[q]);
                    }
                }
            }
        }
        assert(sv.take(segs.len() as int) =~= sv);
        Some(result)
    }
}

} // verus!
