//! Versions, error-correction levels, masks and the capacity tables of the
//! QR Code Model 2 standard.
use vstd::prelude::*;

verus! {

/// Smallest QR version.
pub const MIN_VERSION: u8 = 1;

/// Largest QR version.
pub const MAX_VERSION: u8 = 40;

/// Largest number of error-correction codewords in one block.
pub const MAX_ECC_LEN: usize = 30;

/// Error-correction codewords per block, indexed by level ordinal, then version.
pub const ECC_CODEWORDS_PER_BLOCK: [[i16; 41]; 4] = [
    [
        -1, 7, 10, 15, 20, 26, 18, 20, 24, 30, 18, 20, 24, 26, 30, 22, 24, 28, 30, 28, 28, 28, 28,
        30, 30, 26, 28, 30, 30, 30, 30, 30, 30, 30, 30, 30, 30, 30, 30, 30, 30,
    ],
    [
        -1, 10, 16, 26, 18, 24, 16, 18, 22, 22, 26, 30, 22, 22, 24, 24, 28, 28, 26, 26, 26, 26, 28,
        28, 28, 28, 28, 28, 28, 28, 28, 28, 28, 28, 28, 28, 28, 28, 28, 28, 28,
    ],
    [
        -1, 13, 22, 18, 26, 18, 24, 18, 22, 20, 24, 28, 26, 24, 20, 30, 24, 28, 28, 26, 30, 28, 30,
        30, 30, 30, 28, 30, 30, 30, 30, 30, 30, 30, 30, 30, 30, 30, 30, 30, 30,
    ],
    [
        -1, 17, 28, 22, 16, 22, 28, 26, 26, 24, 28, 24, 28, 22, 24, 24, 30, 28, 28, 26, 28, 30, 24,
        30, 30, 30, 30, 30, 30, 30, 30, 30, 30, 30, 30, 30, 30, 30, 30, 30, 30,
    ],
];

/// Number of error-correction blocks, indexed by level ordinal, then version.
pub const NUM_ERROR_CORRECTION_BLOCKS: [[i16; 41]; 4] = [
    [
        -1, 1, 1, 1, 1, 1, 2, 2, 2, 2, 4, 4, 4, 4, 4, 6, 6, 6, 6, 7, 8, 8, 9, 9, 10, 12, 12, 12,
        13, 14, 15, 16, 17, 18, 19, 19, 20, 21, 22, 24, 25,
    ],
    [
        -1, 1, 1, 1, 2, 2, 4, 4, 4, 5, 5, 5, 8, 9, 9, 10, 10, 11, 13, 14, 16, 17, 17, 18, 20, 21,
        23, 25, 26, 28, 29, 31, 33, 35, 37, 38, 40, 43, 45, 47, 49,
    ],
    [
        -1, 1, 1, 2, 2, 4, 4, 6, 6, 8, 8, 8, 10, 12, 16, 12, 17, 16, 18, 21, 20, 23, 23, 25, 27,
        29, 34, 34, 35, 38, 40, 43, 45, 48, 51, 53, 56, 59, 62, 65, 68,
    ],
    [
        -1, 1, 1, 2, 4, 4, 4, 5, 6, 8, 8, 11, 11, 16, 16, 18, 16, 19, 21, 25, 25, 25, 34, 30, 32,
        35, 37, 40, 42, 45, 48, 51, 54, 57, 60, 63, 66, 70, 74, 77, 81,
    ],
];

/// The error-correction level of a symbol.
#[derive(Clone, Copy, PartialEq, Eq, Structural, Debug)]
pub enum QrCodeEcc {
    Low,
    Medium,
    Quartile,
    High,
}

impl QrCodeEcc {
    /// Position of the level in the order Low, Medium, Quartile, High.
    pub open spec fn spec_ordinal(self) -> int {
        match self {
            QrCodeEcc::Low => 0,
            QrCodeEcc::Medium => 1,
            QrCodeEcc::Quartile => 2,
            QrCodeEcc::High => 3,
        }
    }

    /// The two format bits that the standard assigns to the level.
    pub open spec fn spec_format_bits(self) -> u8 {
        match self {
            QrCodeEcc::Low => 1,
            QrCodeEcc::Medium => 0,
            QrCodeEcc::Quartile => 3,
            QrCodeEcc::High => 2,
        }
    }

    /// The level with the given ordinal.
    pub open spec fn from_ordinal(o: int) -> QrCodeEcc {
        if o == 0 {
            QrCodeEcc::Low
        } else if o == 1 {
            QrCodeEcc::Medium
        } else if o == 2 {
            QrCodeEcc::Quartile
        } else {
            QrCodeEcc::High
        }
    }

    /// Reads a level from its external code 0..=3.
    pub fn from_ffi(value: u8) -> (r: Option<Self>)
        ensures
            r.is_some() <==> value <= 3,
            r.is_some() ==> r.unwrap() == QrCodeEcc::from_ordinal(value as int),
            r.is_some() ==> r.unwrap().spec_ordinal() == value as int,
    {
        match value {
            0 => Some(QrCodeEcc::Low),
            1 => Some(QrCodeEcc::Medium),
            2 => Some(QrCodeEcc::Quartile),
            3 => Some(QrCodeEcc::High),
            _ => None,
        }
    }

    pub fn ordinal(self) -> (r: usize)
        ensures
            r as int == self.spec_ordinal(),
            r < 4,
    {
        match self {
            QrCodeEcc::Low => 0,
            QrCodeEcc::Medium => 1,
            QrCodeEcc::Quartile => 2,
            QrCodeEcc::High => 3,
        }
    }

    pub fn format_bits(self) -> (r: u8)
        ensures
            r == self.spec_format_bits(),
            r < 4,
    {
        match self {
            QrCodeEcc::Low => 1,
            QrCodeEcc::Medium => 0,
            QrCodeEcc::Quartile => 3,
            QrCodeEcc::High => 2,
        }
    }
}

/// A QR version number; valid values are 1..=40.
#[derive(Clone, Copy, PartialEq, Eq, Structural, Debug)]
pub struct Version(pub u8);

/// Side length in modules of a symbol of version `v`.
pub open spec fn spec_size(v: int) -> int {
    4 * v + 17
}

/// Length of the packed output of a version-`v` symbol: one byte for the
/// side length, then one bit per module.
pub open spec fn spec_buffer_len(v: int) -> int {
    (spec_size(v) * spec_size(v) + 7) / 8 + 1
}

impl Version {
    pub open spec fn wf(self) -> bool {
        MIN_VERSION <= self.0 <= MAX_VERSION
    }

    pub fn new(version: u8) -> (r: Self)
        requires
            MIN_VERSION <= version <= MAX_VERSION,
        ensures
            r.0 == version,
            r.wf(),
    {
        Version(version)
    }

    pub fn try_new(version: u8) -> (r: Option<Self>)
        ensures
            r.is_some() <==> MIN_VERSION <= version <= MAX_VERSION,
            r.is_some() ==> r.unwrap().0 == version,
    {
        if MIN_VERSION <= version && version <= MAX_VERSION {
            Some(Version(version))
        } else {
            None
        }
    }

    pub fn value(self) -> (r: u8)
        ensures
            r == self.0,
    {
        self.0
    }

    pub fn buffer_len(self) -> (r: usize)
        ensures
            r as int == spec_buffer_len(self.0 as int),
    {
        let sidelen = (self.0 as usize) * 4 + 17;
        assert(sidelen * sidelen <= 1037 * 1037) by (nonlinear_arith)
            requires
                sidelen <= 1037,
        ;
        (sidelen * sidelen + 7) / 8 + 1
    }
}

/// One of the eight data masks of the standard.
#[derive(Clone, Copy, PartialEq, Eq, Structural, Debug)]
pub struct Mask(pub u8);

impl Mask {
    pub open spec fn wf(self) -> bool {
        self.0 <= 7
    }

    pub fn new(mask: u8) -> (r: Self)
        requires
            mask <= 7,
        ensures
            r.0 == mask,
    {
        Mask(mask)
    }

    /// Reads a mask choice from its external code: -1 asks for automatic
    /// choice, 0..=7 names a mask, anything else is refused.
    pub fn from_ffi(mask: i8) -> (r: Option<Option<Self>>)
        ensures
            r.is_some() <==> -1 <= mask <= 7,
            r == Some(None::<Mask>) <==> mask == -1,
            (0 <= mask <= 7) ==> r == Some(Some(Mask(mask as u8))),
    {
        if mask == -1 {
            Some(None)
        } else if 0 <= mask && mask <= 7 {
            Some(Some(Mask(mask as u8)))
        } else {
            None
        }
    }

    pub fn value(self) -> (r: u8)
        ensures
            r == self.0,
    {
        self.0
    }
}

/// Why a payload does not fit in the requested version range.
#[derive(Clone, Copy, PartialEq, Eq, Structural, Debug)]
pub enum DataTooLong {
    /// A segment's length cannot be expressed in its character-count field.
    SegmentTooLong,
    /// The encoded bits exceed the capacity of the largest allowed version.
    DataOverCapacity,
}

/// Error-correction codewords per block for level ordinal `e` and version `v`.
pub open spec fn spec_ecc_per_block(e: int, v: int) -> int {
    ECC_CODEWORDS_PER_BLOCK[e][v] as int
}

/// Number of error-correction blocks for level ordinal `e` and version `v`.
pub open spec fn spec_num_blocks(e: int, v: int) -> int {
    NUM_ERROR_CORRECTION_BLOCKS[e][v] as int
}

/// Number of modules of a version-`v` symbol that carry codeword bits
/// (everything but function patterns and format/version information).
pub open spec fn spec_num_raw_data_modules(v: int) -> int {
    let base = (16 * v + 128) * v + 64;
    if v >= 2 {
        let numalign = v / 7 + 2;
        let less = base - ((25 * numalign - 10) * numalign - 55);
        if v >= 7 {
            less - 36
        } else {
            less
        }
    } else {
        base
    }
}

/// Number of raw codewords (bytes) of a version-`v` symbol.
pub open spec fn spec_num_raw_codewords(v: int) -> int {
    spec_num_raw_data_modules(v) / 8
}

/// Number of data codewords of a version-`v` symbol at level ordinal `e`.
pub open spec fn spec_num_data_codewords(v: int, e: int) -> int {
    spec_num_raw_codewords(v) - spec_ecc_per_block(e, v) * spec_num_blocks(e, v)
}


proof fn lemma_table_facts_level_0(v: int)
    requires
        1 <= v <= 40,
    ensures
        7 <= spec_ecc_per_block(0, v) <= 30,
        1 <= spec_num_blocks(0, v) <= 81,
        spec_num_raw_codewords(v) / spec_num_blocks(0, v) > spec_ecc_per_block(0, v),
        spec_num_data_codewords(v, 0) >= 9,
        spec_num_raw_data_modules(v) <= 29648,
{
    if v == 1 {
        assert(spec_num_blocks(0, 1) == 1 && spec_ecc_per_block(0, 1) == 7);
        assert(spec_num_raw_data_modules(1) == 208) by (nonlinear_arith);
        assert(spec_num_raw_codewords(1) == 26);
        assert(spec_num_data_codewords(1, 0) == 19) by (nonlinear_arith)
            requires
                spec_num_raw_codewords(1) == 26,
                spec_num_blocks(0, 1) == 1,
                spec_ecc_per_block(0, 1) == 7,
        ;
        assert(26int / 1int == 26int);
    } else if v == 2 {
        assert(spec_num_blocks(0, 2) == 1 && spec_ecc_per_block(0, 2) == 10);
        assert(spec_num_raw_data_modules(2) == 359) by (nonlinear_arith);
        assert(spec_num_raw_codewords(2) == 44);
        assert(spec_num_data_codewords(2, 0) == 34) by (nonlinear_arith)
            requires
                spec_num_raw_codewords(2) == 44,
                spec_num_blocks(0, 2) == 1,
                spec_ecc_per_block(0, 2) == 10,
        ;
        assert(44int / 1int == 44int);
    } else if v == 3 {
        assert(spec_num_blocks(0, 3) == 1 && spec_ecc_per_block(0, 3) == 15);
        assert(spec_num_raw_data_modules(3) == 567) by (nonlinear_arith);
        assert(spec_num_raw_codewords(3) == 70);
        assert(spec_num_data_codewords(3, 0) == 55) by (nonlinear_arith)
            requires
                spec_num_raw_codewords(3) == 70,
                spec_num_blocks(0, 3) == 1,
                spec_ecc_per_block(0, 3) == 15,
        ;
        assert(70int / 1int == 70int);
    } else if v == 4 {
        assert(spec_num_blocks(0, 4) == 1 && spec_ecc_per_block(0, 4) == 20);
        assert(spec_num_raw_data_modules(4) == 807) by (nonlinear_arith);
        assert(spec_num_raw_codewords(4) == 100);
        assert(spec_num_data_codewords(4, 0) == 80) by (nonlinear_arith)
            requires
                spec_num_raw_codewords(4) == 100,
                spec_num_blocks(0, 4) == 1,
                spec_ecc_per_block(0, 4) == 20,
        ;
        assert(100int / 1int == 100int);
    } else if v == 5 {
        assert(spec_num_blocks(0, 5) == 1 && spec_ecc_per_block(0, 5) == 26);
        assert(spec_num_raw_data_modules(5) == 1079) by (nonlinear_arith);
        assert(spec_num_raw_codewords(5) == 134);
        assert(spec_num_data_codewords(5, 0) == 108) by (nonlinear_arith)
            requires
                spec_num_raw_codewords(5) == 134,
                spec_num_blocks(0, 5) == 1,
                spec_ecc_per_block(0, 5) == 26,
        ;
        assert(134int / 1int == 134int);
    } else if v == 6 {
        assert(spec_num_blocks(0, 6) == 2 && spec_ecc_per_block(0, 6) == 18);
        assert(spec_num_raw_data_modules(6) == 1383) by (nonlinear_arith);
        assert(spec_num_raw_codewords(6) == 172);
        assert(spec_num_data_codewords(6, 0) == 136) by (nonlinear_arith)
            requires
                spec_num_raw_codewords(6) == 172,
                spec_num_blocks(0, 6) == 2,
                spec_ecc_per_block(0, 6) == 18,
        ;
        assert(172int / 2int == 86int);
    } else if v == 7 {
        assert(spec_num_blocks(0, 7) == 2 && spec_ecc_per_block(0, 7) == 20);
        assert(spec_num_raw_data_modules(7) == 1568) by (nonlinear_arith);
        assert(spec_num_raw_codewords(7) == 196);
        assert(spec_num_data_codewords(7, 0) == 156) by (nonlinear_arith)
            requires
                spec_num_raw_codewords(7) == 196,
                spec_num_blocks(0, 7) == 2,
                spec_ecc_per_block(0, 7) == 20,
        ;
        assert(196int / 2int == 98int);
    } else if v == 8 {
        assert(spec_num_blocks(0, 8) == 2 && spec_ecc_per_block(0, 8) == 24);
        assert(spec_num_raw_data_modules(8) == 1936) by (nonlinear_arith);
        assert(spec_num_raw_codewords(8) == 242);
        assert(spec_num_data_codewords(8, 0) == 194) by (nonlinear_arith)
            requires
                spec_num_raw_codewords(8) == 242,
                spec_num_blocks(0, 8) == 2,
                spec_ecc_per_block(0, 8) == 24,
        ;
        assert(242int / 2int == 121int);
    } else if v == 9 {
        assert(spec_num_blocks(0, 9) == 2 && spec_ecc_per_block(0, 9) == 30);
        assert(spec_num_raw_data_modules(9) == 2336) by (nonlinear_arith);
        assert(spec_num_raw_codewords(9) == 292);
        assert(spec_num_data_codewords(9, 0) == 232) by (nonlinear_arith)
            requires
                spec_num_raw_codewords(9) == 292,
                spec_num_blocks(0, 9) == 2,
                spec_ecc_per_block(0, 9) == 30,
        ;
        assert(292int / 2int == 146int);
    } else if v == 10 {
        assert(spec_num_blocks(0, 10) == 4 && spec_ecc_per_block(0, 10) == 18);
        assert(spec_num_raw_data_modules(10) == 2768) by (nonlinear_arith);
        assert(spec_num_raw_codewords(10) == 346);
        assert(spec_num_data_codewords(10, 0) == 274) by (nonlinear_arith)
            requires
                spec_num_raw_codewords(10) == 346,
                spec_num_blocks(0, 10) == 4,
                spec_ecc_per_block(0, 10) == 18,
        ;
        assert(346int / 4int == 86int);
    } else if v == 11 {
        assert(spec_num_blocks(0, 11) == 4 && spec_ecc_per_block(0, 11) == 20);
        assert(spec_num_raw_data_modules(11) == 3232) by (nonlinear_arith);
        assert(spec_num_raw_codewords(11) == 404);
        assert(spec_num_data_codewords(11, 0) == 324) by (nonlinear_arith)
            requires
                spec_num_raw_codewords(11) == 404,
                spec_num_blocks(0, 11) == 4,
                spec_ecc_per_block(0, 11) == 20,
        ;
        assert(404int / 4int == 101int);
    } else if v == 12 {
        assert(spec_num_blocks(0, 12) == 4 && spec_ecc_per_block(0, 12) == 24);
        assert(spec_num_raw_data_modules(12) == 3728) by (nonlinear_arith);
        assert(spec_num_raw_codewords(12) == 466);
        assert(spec_num_data_codewords(12, 0) == 370) by (nonlinear_arith)
            requires
                spec_num_raw_codewords(12) == 466,
                spec_num_blocks(0, 12) == 4,
                spec_ecc_per_block(0, 12) == 24,
        ;
        assert(466int / 4int == 116int);
    } else if v == 13 {
        assert(spec_num_blocks(0, 13) == 4 && spec_ecc_per_block(0, 13) == 26);
        assert(spec_num_raw_data_modules(13) == 4256) by (nonlinear_arith);
        assert(spec_num_raw_codewords(13) == 532);
        assert(spec_num_data_codewords(13, 0) == 428) by (nonlinear_arith)
            requires
                spec_num_raw_codewords(13) == 532,
                spec_num_blocks(0, 13) == 4,
                spec_ecc_per_block(0, 13) == 26,
        ;
        assert(532int / 4int == 133int);
    } else if v == 14 {
        assert(spec_num_blocks(0, 14) == 4 && spec_ecc_per_block(0, 14) == 30);
        assert(spec_num_raw_data_modules(14) == 4651) by (nonlinear_arith);
        assert(spec_num_raw_codewords(14) == 581);
        assert(spec_num_data_codewords(14, 0) == 461) by (nonlinear_arith)
            requires
                spec_num_raw_codewords(14) == 581,
                spec_num_blocks(0, 14) == 4,
                spec_ecc_per_block(0, 14) == 30,
        ;
        assert(581int / 4int == 145int);
    } else if v == 15 {
        assert(spec_num_blocks(0, 15) == 6 && spec_ecc_per_block(0, 15) == 22);
        assert(spec_num_raw_data_modules(15) == 5243) by (nonlinear_arith);
        assert(spec_num_raw_codewords(15) == 655);
        assert(spec_num_data_codewords(15, 0) == 523) by (nonlinear_arith)
            requires
                spec_num_raw_codewords(15) == 655,
                spec_num_blocks(0, 15) == 6,
                spec_ecc_per_block(0, 15) == 22,
        ;
        assert(655int / 6int == 109int);
    } else if v == 16 {
        assert(spec_num_blocks(0, 16) == 6 && spec_ecc_per_block(0, 16) == 24);
        assert(spec_num_raw_data_modules(16) == 5867) by (nonlinear_arith);
        assert(spec_num_raw_codewords(16) == 733);
        assert(spec_num_data_codewords(16, 0) == 589) by (nonlinear_arith)
            requires
                spec_num_raw_codewords(16) == 733,
                spec_num_blocks(0, 16) == 6,
                spec_ecc_per_block(0, 16) == 24,
        ;
        assert(733int / 6int == 122int);
    } else if v == 17 {
        assert(spec_num_blocks(0, 17) == 6 && spec_ecc_per_block(0, 17) == 28);
        assert(spec_num_raw_data_modules(17) == 6523) by (nonlinear_arith);
        assert(spec_num_raw_codewords(17) == 815);
        assert(spec_num_data_codewords(17, 0) == 647) by (nonlinear_arith)
            requires
                spec_num_raw_codewords(17) == 815,
                spec_num_blocks(0, 17) == 6,
                spec_ecc_per_block(0, 17) == 28,
        ;
        assert(815int / 6int == 135int);
    } else if v == 18 {
        assert(spec_num_blocks(0, 18) == 6 && spec_ecc_per_block(0, 18) == 30);
        assert(spec_num_raw_data_modules(18) == 7211) by (nonlinear_arith);
        assert(spec_num_raw_codewords(18) == 901);
        assert(spec_num_data_codewords(18, 0) == 721) by (nonlinear_arith)
            requires
                spec_num_raw_codewords(18) == 901,
                spec_num_blocks(0, 18) == 6,
                spec_ecc_per_block(0, 18) == 30,
        ;
        assert(901int / 6int == 150int);
    } else if v == 19 {
        assert(spec_num_blocks(0, 19) == 7 && spec_ecc_per_block(0, 19) == 28);
        assert(spec_num_raw_data_modules(19) == 7931) by (nonlinear_arith);
        assert(spec_num_raw_codewords(19) == 991);
        assert(spec_num_data_codewords(19, 0) == 795) by (nonlinear_arith)
            requires
                spec_num_raw_codewords(19) == 991,
                spec_num_blocks(0, 19) == 7,
                spec_ecc_per_block(0, 19) == 28,
        ;
        assert(991int / 7int == 141int);
    } else if v == 20 {
        assert(spec_num_blocks(0, 20) == 8 && spec_ecc_per_block(0, 20) == 28);
        assert(spec_num_raw_data_modules(20) == 8683) by (nonlinear_arith);
        assert(spec_num_raw_codewords(20) == 1085);
        assert(spec_num_data_codewords(20, 0) == 861) by (nonlinear_arith)
            requires
                spec_num_raw_codewords(20) == 1085,
                spec_num_blocks(0, 20) == 8,
                spec_ecc_per_block(0, 20) == 28,
        ;
        assert(1085int / 8int == 135int);
    } else if v == 21 {
        assert(spec_num_blocks(0, 21) == 8 && spec_ecc_per_block(0, 21) == 28);
        assert(spec_num_raw_data_modules(21) == 9252) by (nonlinear_arith);
        assert(spec_num_raw_codewords(21) == 1156);
        assert(spec_num_data_codewords(21, 0) == 932) by (nonlinear_arith)
            requires
                spec_num_raw_codewords(21) == 1156,
                spec_num_blocks(0, 21) == 8,
                spec_ecc_per_block(0, 21) == 28,
        ;
        assert(1156int / 8int == 144int);
    } else if v == 22 {
        assert(spec_num_blocks(0, 22) == 9 && spec_ecc_per_block(0, 22) == 28);
        assert(spec_num_raw_data_modules(22) == 10068) by (nonlinear_arith);
        assert(spec_num_raw_codewords(22) == 1258);
        assert(spec_num_data_codewords(22, 0) == 1006) by (nonlinear_arith)
            requires
                spec_num_raw_codewords(22) == 1258,
                spec_num_blocks(0, 22) == 9,
                spec_ecc_per_block(0, 22) == 28,
        ;
        assert(1258int / 9int == 139int);
    } else if v == 23 {
        assert(spec_num_blocks(0, 23) == 9 && spec_ecc_per_block(0, 23) == 30);
        assert(spec_num_raw_data_modules(23) == 10916) by (nonlinear_arith);
        assert(spec_num_raw_codewords(23) == 1364);
        assert(spec_num_data_codewords(23, 0) == 1094) by (nonlinear_arith)
            requires
                spec_num_raw_codewords(23) == 1364,
                spec_num_blocks(0, 23) == 9,
                spec_ecc_per_block(0, 23) == 30,
        ;
        assert(1364int / 9int == 151int);
    } else if v == 24 {
        assert(spec_num_blocks(0, 24) == 10 && spec_ecc_per_block(0, 24) == 30);
        assert(spec_num_raw_data_modules(24) == 11796) by (nonlinear_arith);
        assert(spec_num_raw_codewords(24) == 1474);
        assert(spec_num_data_codewords(24, 0) == 1174) by (nonlinear_arith)
            requires
                spec_num_raw_codewords(24) == 1474,
                spec_num_blocks(0, 24) == 10,
                spec_ecc_per_block(0, 24) == 30,
        ;
        assert(1474int / 10int == 147int);
    } else if v == 25 {
        assert(spec_num_blocks(0, 25) == 12 && spec_ecc_per_block(0, 25) == 26);
        assert(spec_num_raw_data_modules(25) == 12708) by (nonlinear_arith);
        assert(spec_num_raw_codewords(25) == 1588);
        assert(spec_num_data_codewords(25, 0) == 1276) by (nonlinear_arith)
            requires
                spec_num_raw_codewords(25) == 1588,
                spec_num_blocks(0, 25) == 12,
                spec_ecc_per_block(0, 25) == 26,
        ;
        assert(1588int / 12int == 132int);
    } else if v == 26 {
        assert(spec_num_blocks(0, 26) == 12 && spec_ecc_per_block(0, 26) == 28);
        assert(spec_num_raw_data_modules(26) == 13652) by (nonlinear_arith);
        assert(spec_num_raw_codewords(26) == 1706);
        assert(spec_num_data_codewords(26, 0) == 1370) by (nonlinear_arith)
            requires
                spec_num_raw_codewords(26) == 1706,
                spec_num_blocks(0, 26) == 12,
                spec_ecc_per_block(0, 26) == 28,
        ;
        assert(1706int / 12int == 142int);
    } else if v == 27 {
        assert(spec_num_blocks(0, 27) == 12 && spec_ecc_per_block(0, 27) == 30);
        assert(spec_num_raw_data_modules(27) == 14628) by (nonlinear_arith);
        assert(spec_num_raw_codewords(27) == 1828);
        assert(spec_num_data_codewords(27, 0) == 1468) by (nonlinear_arith)
            requires
                spec_num_raw_codewords(27) == 1828,
                spec_num_blocks(0, 27) == 12,
                spec_ecc_per_block(0, 27) == 30,
        ;
        assert(1828int / 12int == 152int);
    } else if v == 28 {
        assert(spec_num_blocks(0, 28) == 13 && spec_ecc_per_block(0, 28) == 30);
        assert(spec_num_raw_data_modules(28) == 15371) by (nonlinear_arith);
        assert(spec_num_raw_codewords(28) == 1921);
        assert(spec_num_data_codewords(28, 0) == 1531) by (nonlinear_arith)
            requires
                spec_num_raw_codewords(28) == 1921,
                spec_num_blocks(0, 28) == 13,
                spec_ecc_per_block(0, 28) == 30,
        ;
        assert(1921int / 13int == 147int);
    } else if v == 29 {
        assert(spec_num_blocks(0, 29) == 14 && spec_ecc_per_block(0, 29) == 30);
        assert(spec_num_raw_data_modules(29) == 16411) by (nonlinear_arith);
        assert(spec_num_raw_codewords(29) == 2051);
        assert(spec_num_data_codewords(29, 0) == 1631) by (nonlinear_arith)
            requires
                spec_num_raw_codewords(29) == 2051,
                spec_num_blocks(0, 29) == 14,
                spec_ecc_per_block(0, 29) == 30,
        ;
        assert(2051int / 14int == 146int);
    } else if v == 30 {
        assert(spec_num_blocks(0, 30) == 15 && spec_ecc_per_block(0, 30) == 30);
        assert(spec_num_raw_data_modules(30) == 17483) by (nonlinear_arith);
        assert(spec_num_raw_codewords(30) == 2185);
        assert(spec_num_data_codewords(30, 0) == 1735) by (nonlinear_arith)
            requires
                spec_num_raw_codewords(30) == 2185,
                spec_num_blocks(0, 30) == 15,
                spec_ecc_per_block(0, 30) == 30,
        ;
        assert(2185int / 15int == 145int);
    } else if v == 31 {
        assert(spec_num_blocks(0, 31) == 16 && spec_ecc_per_block(0, 31) == 30);
        assert(spec_num_raw_data_modules(31) == 18587) by (nonlinear_arith);
        assert(spec_num_raw_codewords(31) == 2323);
        assert(spec_num_data_codewords(31, 0) == 1843) by (nonlinear_arith)
            requires
                spec_num_raw_codewords(31) == 2323,
                spec_num_blocks(0, 31) == 16,
                spec_ecc_per_block(0, 31) == 30,
        ;
        assert(2323int / 16int == 145int);
    } else if v == 32 {
        assert(spec_num_blocks(0, 32) == 17 && spec_ecc_per_block(0, 32) == 30);
        assert(spec_num_raw_data_modules(32) == 19723) by (nonlinear_arith);
        assert(spec_num_raw_codewords(32) == 2465);
        assert(spec_num_data_codewords(32, 0) == 1955) by (nonlinear_arith)
            requires
                spec_num_raw_codewords(32) == 2465,
                spec_num_blocks(0, 32) == 17,
                spec_ecc_per_block(0, 32) == 30,
        ;
        assert(2465int / 17int == 145int);
    } else if v == 33 {
        assert(spec_num_blocks(0, 33) == 18 && spec_ecc_per_block(0, 33) == 30);
        assert(spec_num_raw_data_modules(33) == 20891) by (nonlinear_arith);
        assert(spec_num_raw_codewords(33) == 2611);
        assert(spec_num_data_codewords(33, 0) == 2071) by (nonlinear_arith)
            requires
                spec_num_raw_codewords(33) == 2611,
                spec_num_blocks(0, 33) == 18,
                spec_ecc_per_block(0, 33) == 30,
        ;
        assert(2611int / 18int == 145int);
    } else if v == 34 {
        assert(spec_num_blocks(0, 34) == 19 && spec_ecc_per_block(0, 34) == 30);
        assert(spec_num_raw_data_modules(34) == 22091) by (nonlinear_arith);
        assert(spec_num_raw_codewords(34) == 2761);
        assert(spec_num_data_codewords(34, 0) == 2191) by (nonlinear_arith)
            requires
                spec_num_raw_codewords(34) == 2761,
                spec_num_blocks(0, 34) == 19,
                spec_ecc_per_block(0, 34) == 30,
        ;
        assert(2761int / 19int == 145int);
    } else if v == 35 {
        assert(spec_num_blocks(0, 35) == 19 && spec_ecc_per_block(0, 35) == 30);
        assert(spec_num_raw_data_modules(35) == 23008) by (nonlinear_arith);
        assert(spec_num_raw_codewords(35) == 2876);
        assert(spec_num_data_codewords(35, 0) == 2306) by (nonlinear_arith)
            requires
                spec_num_raw_codewords(35) == 2876,
                spec_num_blocks(0, 35) == 19,
                spec_ecc_per_block(0, 35) == 30,
        ;
        assert(2876int / 19int == 151int);
    } else if v == 36 {
        assert(spec_num_blocks(0, 36) == 20 && spec_ecc_per_block(0, 36) == 30);
        assert(spec_num_raw_data_modules(36) == 24272) by (nonlinear_arith);
        assert(spec_num_raw_codewords(36) == 3034);
        assert(spec_num_data_codewords(36, 0) == 2434) by (nonlinear_arith)
            requires
                spec_num_raw_codewords(36) == 3034,
                spec_num_blocks(0, 36) == 20,
                spec_ecc_per_block(0, 36) == 30,
        ;
        assert(3034int / 20int == 151int);
    } else if v == 37 {
        assert(spec_num_blocks(0, 37) == 21 && spec_ecc_per_block(0, 37) == 30);
        assert(spec_num_raw_data_modules(37) == 25568) by (nonlinear_arith);
        assert(spec_num_raw_codewords(37) == 3196);
        assert(spec_num_data_codewords(37, 0) == 2566) by (nonlinear_arith)
            requires
                spec_num_raw_codewords(37) == 3196,
                spec_num_blocks(0, 37) == 21,
                spec_ecc_per_block(0, 37) == 30,
        ;
        assert(3196int / 21int == 152int);
    } else if v == 38 {
        assert(spec_num_blocks(0, 38) == 22 && spec_ecc_per_block(0, 38) == 30);
        assert(spec_num_raw_data_modules(38) == 26896) by (nonlinear_arith);
        assert(spec_num_raw_codewords(38) == 3362);
        assert(spec_num_data_codewords(38, 0) == 2702) by (nonlinear_arith)
            requires
                spec_num_raw_codewords(38) == 3362,
                spec_num_blocks(0, 38) == 22,
                spec_ecc_per_block(0, 38) == 30,
        ;
        assert(3362int / 22int == 152int);
    } else if v == 39 {
        assert(spec_num_blocks(0, 39) == 24 && spec_ecc_per_block(0, 39) == 30);
        assert(spec_num_raw_data_modules(39) == 28256) by (nonlinear_arith);
        assert(spec_num_raw_codewords(39) == 3532);
        assert(spec_num_data_codewords(39, 0) == 2812) by (nonlinear_arith)
            requires
                spec_num_raw_codewords(39) == 3532,
                spec_num_blocks(0, 39) == 24,
                spec_ecc_per_block(0, 39) == 30,
        ;
        assert(3532int / 24int == 147int);
    } else if v == 40 {
        assert(spec_num_blocks(0, 40) == 25 && spec_ecc_per_block(0, 40) == 30);
        assert(spec_num_raw_data_modules(40) == 29648) by (nonlinear_arith);
        assert(spec_num_raw_codewords(40) == 3706);
        assert(spec_num_data_codewords(40, 0) == 2956) by (nonlinear_arith)
            requires
                spec_num_raw_codewords(40) == 3706,
                spec_num_blocks(0, 40) == 25,
                spec_ecc_per_block(0, 40) == 30,
        ;
        assert(3706int / 25int == 148int);
    }
}

proof fn lemma_table_facts_level_1(v: int)
    requires
        1 <= v <= 40,
    ensures
        7 <= spec_ecc_per_block(1, v) <= 30,
        1 <= spec_num_blocks(1, v) <= 81,
        spec_num_raw_codewords(v) / spec_num_blocks(1, v) > spec_ecc_per_block(1, v),
        spec_num_data_codewords(v, 1) >= 9,
        spec_num_raw_data_modules(v) <= 29648,
{
    if v == 1 {
        assert(spec_num_blocks(1, 1) == 1 && spec_ecc_per_block(1, 1) == 10);
        assert(spec_num_raw_data_modules(1) == 208) by (nonlinear_arith);
        assert(spec_num_raw_codewords(1) == 26);
        assert(spec_num_data_codewords(1, 1) == 16) by (nonlinear_arith)
            requires
                spec_num_raw_codewords(1) == 26,
                spec_num_blocks(1, 1) == 1,
                spec_ecc_per_block(1, 1) == 10,
        ;
        assert(26int / 1int == 26int);
    } else if v == 2 {
        assert(spec_num_blocks(1, 2) == 1 && spec_ecc_per_block(1, 2) == 16);
        assert(spec_num_raw_data_modules(2) == 359) by (nonlinear_arith);
        assert(spec_num_raw_codewords(2) == 44);
        assert(spec_num_data_codewords(2, 1) == 28) by (nonlinear_arith)
            requires
                spec_num_raw_codewords(2) == 44,
                spec_num_blocks(1, 2) == 1,
                spec_ecc_per_block(1, 2) == 16,
        ;
        assert(44int / 1int == 44int);
    } else if v == 3 {
        assert(spec_num_blocks(1, 3) == 1 && spec_ecc_per_block(1, 3) == 26);
        assert(spec_num_raw_data_modules(3) == 567) by (nonlinear_arith);
        assert(spec_num_raw_codewords(3) == 70);
        assert(spec_num_data_codewords(3, 1) == 44) by (nonlinear_arith)
            requires
                spec_num_raw_codewords(3) == 70,
                spec_num_blocks(1, 3) == 1,
                spec_ecc_per_block(1, 3) == 26,
        ;
        assert(70int / 1int == 70int);
    } else if v == 4 {
        assert(spec_num_blocks(1, 4) == 2 && spec_ecc_per_block(1, 4) == 18);
        assert(spec_num_raw_data_modules(4) == 807) by (nonlinear_arith);
        assert(spec_num_raw_codewords(4) == 100);
        assert(spec_num_data_codewords(4, 1) == 64) by (nonlinear_arith)
            requires
                spec_num_raw_codewords(4) == 100,
                spec_num_blocks(1, 4) == 2,
                spec_ecc_per_block(1, 4) == 18,
        ;
        assert(100int / 2int == 50int);
    } else if v == 5 {
        assert(spec_num_blocks(1, 5) == 2 && spec_ecc_per_block(1, 5) == 24);
        assert(spec_num_raw_data_modules(5) == 1079) by (nonlinear_arith);
        assert(spec_num_raw_codewords(5) == 134);
        assert(spec_num_data_codewords(5, 1) == 86) by (nonlinear_arith)
            requires
                spec_num_raw_codewords(5) == 134,
                spec_num_blocks(1, 5) == 2,
                spec_ecc_per_block(1, 5) == 24,
        ;
        assert(134int / 2int == 67int);
    } else if v == 6 {
        assert(spec_num_blocks(1, 6) == 4 && spec_ecc_per_block(1, 6) == 16);
        assert(spec_num_raw_data_modules(6) == 1383) by (nonlinear_arith);
        assert(spec_num_raw_codewords(6) == 172);
        assert(spec_num_data_codewords(6, 1) == 108) by (nonlinear_arith)
            requires
                spec_num_raw_codewords(6) == 172,
                spec_num_blocks(1, 6) == 4,
                spec_ecc_per_block(1, 6) == 16,
        ;
        assert(172int / 4int == 43int);
    } else if v == 7 {
        assert(spec_num_blocks(1, 7) == 4 && spec_ecc_per_block(1, 7) == 18);
        assert(spec_num_raw_data_modules(7) == 1568) by (nonlinear_arith);
        assert(spec_num_raw_codewords(7) == 196);
        assert(spec_num_data_codewords(7, 1) == 124) by (nonlinear_arith)
            requires
                spec_num_raw_codewords(7) == 196,
                spec_num_blocks(1, 7) == 4,
                spec_ecc_per_block(1, 7) == 18,
        ;
        assert(196int / 4int == 49int);
    } else if v == 8 {
        assert(spec_num_blocks(1, 8) == 4 && spec_ecc_per_block(1, 8) == 22);
        assert(spec_num_raw_data_modules(8) == 1936) by (nonlinear_arith);
        assert(spec_num_raw_codewords(8) == 242);
        assert(spec_num_data_codewords(8, 1) == 154) by (nonlinear_arith)
            requires
                spec_num_raw_codewords(8) == 242,
                spec_num_blocks(1, 8) == 4,
                spec_ecc_per_block(1, 8) == 22,
        ;
        assert(242int / 4int == 60int);
    } else if v == 9 {
        assert(spec_num_blocks(1, 9) == 5 && spec_ecc_per_block(1, 9) == 22);
        assert(spec_num_raw_data_modules(9) == 2336) by (nonlinear_arith);
        assert(spec_num_raw_codewords(9) == 292);
        assert(spec_num_data_codewords(9, 1) == 182) by (nonlinear_arith)
            requires
                spec_num_raw_codewords(9) == 292,
                spec_num_blocks(1, 9) == 5,
                spec_ecc_per_block(1, 9) == 22,
        ;
        assert(292int / 5int == 58int);
    } else if v == 10 {
        assert(spec_num_blocks(1, 10) == 5 && spec_ecc_per_block(1, 10) == 26);
        assert(spec_num_raw_data_modules(10) == 2768) by (nonlinear_arith);
        assert(spec_num_raw_codewords(10) == 346);
        assert(spec_num_data_codewords(10, 1) == 216) by (nonlinear_arith)
            requires
                spec_num_raw_codewords(10) == 346,
                spec_num_blocks(1, 10) == 5,
                spec_ecc_per_block(1, 10) == 26,
        ;
        assert(346int / 5int == 69int);
    } else if v == 11 {
        assert(spec_num_blocks(1, 11) == 5 && spec_ecc_per_block(1, 11) == 30);
        assert(spec_num_raw_data_modules(11) == 3232) by (nonlinear_arith);
        assert(spec_num_raw_codewords(11) == 404);
        assert(spec_num_data_codewords(11, 1) == 254) by (nonlinear_arith)
            requires
                spec_num_raw_codewords(11) == 404,
                spec_num_blocks(1, 11) == 5,
                spec_ecc_per_block(1, 11) == 30,
        ;
        assert(404int / 5int == 80int);
    } else if v == 12 {
        assert(spec_num_blocks(1, 12) == 8 && spec_ecc_per_block(1, 12) == 22);
        assert(spec_num_raw_data_modules(12) == 3728) by (nonlinear_arith);
        assert(spec_num_raw_codewords(12) == 466);
        assert(spec_num_data_codewords(12, 1) == 290) by (nonlinear_arith)
            requires
                spec_num_raw_codewords(12) == 466,
                spec_num_blocks(1, 12) == 8,
                spec_ecc_per_block(1, 12) == 22,
        ;
        assert(466int / 8int == 58int);
    } else if v == 13 {
        assert(spec_num_blocks(1, 13) == 9 && spec_ecc_per_block(1, 13) == 22);
        assert(spec_num_raw_data_modules(13) == 4256) by (nonlinear_arith);
        assert(spec_num_raw_codewords(13) == 532);
        assert(spec_num_data_codewords(13, 1) == 334) by (nonlinear_arith)
            requires
                spec_num_raw_codewords(13) == 532,
                spec_num_blocks(1, 13) == 9,
                spec_ecc_per_block(1, 13) == 22,
        ;
        assert(532int / 9int == 59int);
    } else if v == 14 {
        assert(spec_num_blocks(1, 14) == 9 && spec_ecc_per_block(1, 14) == 24);
        assert(spec_num_raw_data_modules(14) == 4651) by (nonlinear_arith);
        assert(spec_num_raw_codewords(14) == 581);
        assert(spec_num_data_codewords(14, 1) == 365) by (nonlinear_arith)
            requires
                spec_num_raw_codewords(14) == 581,
                spec_num_blocks(1, 14) == 9,
                spec_ecc_per_block(1, 14) == 24,
        ;
        assert(581int / 9int == 64int);
    } else if v == 15 {
        assert(spec_num_blocks(1, 15) == 10 && spec_ecc_per_block(1, 15) == 24);
        assert(spec_num_raw_data_modules(15) == 5243) by (nonlinear_arith);
        assert(spec_num_raw_codewords(15) == 655);
        assert(spec_num_data_codewords(15, 1) == 415) by (nonlinear_arith)
            requires
                spec_num_raw_codewords(15) == 655,
                spec_num_blocks(1, 15) == 10,
                spec_ecc_per_block(1, 15) == 24,
        ;
        assert(655int / 10int == 65int);
    } else if v == 16 {
        assert(spec_num_blocks(1, 16) == 10 && spec_ecc_per_block(1, 16) == 28);
        assert(spec_num_raw_data_modules(16) == 5867) by (nonlinear_arith);
        assert(spec_num_raw_codewords(16) == 733);
        assert(spec_num_data_codewords(16, 1) == 453) by (nonlinear_arith)
            requires
                spec_num_raw_codewords(16) == 733,
                spec_num_blocks(1, 16) == 10,
                spec_ecc_per_block(1, 16) == 28,
        ;
        assert(733int / 10int == 73int);
    } else if v == 17 {
        assert(spec_num_blocks(1, 17) == 11 && spec_ecc_per_block(1, 17) == 28);
        assert(spec_num_raw_data_modules(17) == 6523) by (nonlinear_arith);
        assert(spec_num_raw_codewords(17) == 815);
        assert(spec_num_data_codewords(17, 1) == 507) by (nonlinear_arith)
            requires
                spec_num_raw_codewords(17) == 815,
                spec_num_blocks(1, 17) == 11,
                spec_ecc_per_block(1, 17) == 28,
        ;
        assert(815int / 11int == 74int);
    } else if v == 18 {
        assert(spec_num_blocks(1, 18) == 13 && spec_ecc_per_block(1, 18) == 26);
        assert(spec_num_raw_data_modules(18) == 7211) by (nonlinear_arith);
        assert(spec_num_raw_codewords(18) == 901);
        assert(spec_num_data_codewords(18, 1) == 563) by (nonlinear_arith)
            requires
                spec_num_raw_codewords(18) == 901,
                spec_num_blocks(1, 18) == 13,
                spec_ecc_per_block(1, 18) == 26,
        ;
        assert(901int / 13int == 69int);
    } else if v == 19 {
        assert(spec_num_blocks(1, 19) == 14 && spec_ecc_per_block(1, 19) == 26);
        assert(spec_num_raw_data_modules(19) == 7931) by (nonlinear_arith);
        assert(spec_num_raw_codewords(19) == 991);
        assert(spec_num_data_codewords(19, 1) == 627) by (nonlinear_arith)
            requires
                spec_num_raw_codewords(19) == 991,
                spec_num_blocks(1, 19) == 14,
                spec_ecc_per_block(1, 19) == 26,
        ;
        assert(991int / 14int == 70int);
    } else if v == 20 {
        assert(spec_num_blocks(1, 20) == 16 && spec_ecc_per_block(1, 20) == 26);
        assert(spec_num_raw_data_modules(20) == 8683) by (nonlinear_arith);
        assert(spec_num_raw_codewords(20) == 1085);
        assert(spec_num_data_codewords(20, 1) == 669) by (nonlinear_arith)
            requires
                spec_num_raw_codewords(20) == 1085,
                spec_num_blocks(1, 20) == 16,
                spec_ecc_per_block(1, 20) == 26,
        ;
        assert(1085int / 16int == 67int);
    } else if v == 21 {
        assert(spec_num_blocks(1, 21) == 17 && spec_ecc_per_block(1, 21) == 26);
        assert(spec_num_raw_data_modules(21) == 9252) by (nonlinear_arith);
        assert(spec_num_raw_codewords(21) == 1156);
        assert(spec_num_data_codewords(21, 1) == 714) by (nonlinear_arith)
            requires
                spec_num_raw_codewords(21) == 1156,
                spec_num_blocks(1, 21) == 17,
                spec_ecc_per_block(1, 21) == 26,
        ;
        assert(1156int / 17int == 68int);
    } else if v == 22 {
        assert(spec_num_blocks(1, 22) == 17 && spec_ecc_per_block(1, 22) == 28);
        assert(spec_num_raw_data_modules(22) == 10068) by (nonlinear_arith);
        assert(spec_num_raw_codewords(22) == 1258);
        assert(spec_num_data_codewords(22, 1) == 782) by (nonlinear_arith)
            requires
                spec_num_raw_codewords(22) == 1258,
                spec_num_blocks(1, 22) == 17,
                spec_ecc_per_block(1, 22) == 28,
        ;
        assert(1258int / 17int == 74int);
    } else if v == 23 {
        assert(spec_num_blocks(1, 23) == 18 && spec_ecc_per_block(1, 23) == 28);
        assert(spec_num_raw_data_modules(23) == 10916) by (nonlinear_arith);
        assert(spec_num_raw_codewords(23) == 1364);
        assert(spec_num_data_codewords(23, 1) == 860) by (nonlinear_arith)
            requires
                spec_num_raw_codewords(23) == 1364,
                spec_num_blocks(1, 23) == 18,
                spec_ecc_per_block(1, 23) == 28,
        ;
        assert(1364int / 18int == 75int);
    } else if v == 24 {
        assert(spec_num_blocks(1, 24) == 20 && spec_ecc_per_block(1, 24) == 28);
        assert(spec_num_raw_data_modules(24) == 11796) by (nonlinear_arith);
        assert(spec_num_raw_codewords(24) == 1474);
        assert(spec_num_data_codewords(24, 1) == 914) by (nonlinear_arith)
            requires
                spec_num_raw_codewords(24) == 1474,
                spec_num_blocks(1, 24) == 20,
                spec_ecc_per_block(1, 24) == 28,
        ;
        assert(1474int / 20int == 73int);
    } else if v == 25 {
        assert(spec_num_blocks(1, 25) == 21 && spec_ecc_per_block(1, 25) == 28);
        assert(spec_num_raw_data_modules(25) == 12708) by (nonlinear_arith);
        assert(spec_num_raw_codewords(25) == 1588);
        assert(spec_num_data_codewords(25, 1) == 1000) by (nonlinear_arith)
            requires
                spec_num_raw_codewords(25) == 1588,
                spec_num_blocks(1, 25) == 21,
                spec_ecc_per_block(1, 25) == 28,
        ;
        assert(1588int / 21int == 75int);
    } else if v == 26 {
        assert(spec_num_blocks(1, 26) == 23 && spec_ecc_per_block(1, 26) == 28);
        assert(spec_num_raw_data_modules(26) == 13652) by (nonlinear_arith);
        assert(spec_num_raw_codewords(26) == 1706);
        assert(spec_num_data_codewords(26, 1) == 1062) by (nonlinear_arith)
            requires
                spec_num_raw_codewords(26) == 1706,
                spec_num_blocks(1, 26) == 23,
                spec_ecc_per_block(1, 26) == 28,
        ;
        assert(1706int / 23int == 74int);
    } else if v == 27 {
        assert(spec_num_blocks(1, 27) == 25 && spec_ecc_per_block(1, 27) == 28);
        assert(spec_num_raw_data_modules(27) == 14628) by (nonlinear_arith);
        assert(spec_num_raw_codewords(27) == 1828);
        assert(spec_num_data_codewords(27, 1) == 1128) by (nonlinear_arith)
            requires
                spec_num_raw_codewords(27) == 1828,
                spec_num_blocks(1, 27) == 25,
                spec_ecc_per_block(1, 27) == 28,
        ;
        assert(1828int / 25int == 73int);
    } else if v == 28 {
        assert(spec_num_blocks(1, 28) == 26 && spec_ecc_per_block(1, 28) == 28);
        assert(spec_num_raw_data_modules(28) == 15371) by (nonlinear_arith);
        assert(spec_num_raw_codewords(28) == 1921);
        assert(spec_num_data_codewords(28, 1) == 1193) by (nonlinear_arith)
            requires
                spec_num_raw_codewords(28) == 1921,
                spec_num_blocks(1, 28) == 26,
                spec_ecc_per_block(1, 28) == 28,
        ;
        assert(1921int / 26int == 73int);
    } else if v == 29 {
        assert(spec_num_blocks(1, 29) == 28 && spec_ecc_per_block(1, 29) == 28);
        assert(spec_num_raw_data_modules(29) == 16411) by (nonlinear_arith);
        assert(spec_num_raw_codewords(29) == 2051);
        assert(spec_num_data_codewords(29, 1) == 1267) by (nonlinear_arith)
            requires
                spec_num_raw_codewords(29) == 2051,
                spec_num_blocks(1, 29) == 28,
                spec_ecc_per_block(1, 29) == 28,
        ;
        assert(2051int / 28int == 73int);
    } else if v == 30 {
        assert(spec_num_blocks(1, 30) == 29 && spec_ecc_per_block(1, 30) == 28);
        assert(spec_num_raw_data_modules(30) == 17483) by (nonlinear_arith);
        assert(spec_num_raw_codewords(30) == 2185);
        assert(spec_num_data_codewords(30, 1) == 1373) by (nonlinear_arith)
            requires
                spec_num_raw_codewords(30) == 2185,
                spec_num_blocks(1, 30) == 29,
                spec_ecc_per_block(1, 30) == 28,
        ;
        assert(2185int / 29int == 75int);
    } else if v == 31 {
        assert(spec_num_blocks(1, 31) == 31 && spec_ecc_per_block(1, 31) == 28);
        assert(spec_num_raw_data_modules(31) == 18587) by (nonlinear_arith);
        assert(spec_num_raw_codewords(31) == 2323);
        assert(spec_num_data_codewords(31, 1) == 1455) by (nonlinear_arith)
            requires
                spec_num_raw_codewords(31) == 2323,
                spec_num_blocks(1, 31) == 31,
                spec_ecc_per_block(1, 31) == 28,
        ;
        assert(2323int / 31int == 74int);
    } else if v == 32 {
        assert(spec_num_blocks(1, 32) == 33 && spec_ecc_per_block(1, 32) == 28);
        assert(spec_num_raw_data_modules(32) == 19723) by (nonlinear_arith);
        assert(spec_num_raw_codewords(32) == 2465);
        assert(spec_num_data_codewords(32, 1) == 1541) by (nonlinear_arith)
            requires
                spec_num_raw_codewords(32) == 2465,
                spec_num_blocks(1, 32) == 33,
                spec_ecc_per_block(1, 32) == 28,
        ;
        assert(2465int / 33int == 74int);
    } else if v == 33 {
        assert(spec_num_blocks(1, 33) == 35 && spec_ecc_per_block(1, 33) == 28);
        assert(spec_num_raw_data_modules(33) == 20891) by (nonlinear_arith);
        assert(spec_num_raw_codewords(33) == 2611);
        assert(spec_num_data_codewords(33, 1) == 1631) by (nonlinear_arith)
            requires
                spec_num_raw_codewords(33) == 2611,
                spec_num_blocks(1, 33) == 35,
                spec_ecc_per_block(1, 33) == 28,
        ;
        assert(2611int / 35int == 74int);
    } else if v == 34 {
        assert(spec_num_blocks(1, 34) == 37 && spec_ecc_per_block(1, 34) == 28);
        assert(spec_num_raw_data_modules(34) == 22091) by (nonlinear_arith);
        assert(spec_num_raw_codewords(34) == 2761);
        assert(spec_num_data_codewords(34, 1) == 1725) by (nonlinear_arith)
            requires
                spec_num_raw_codewords(34) == 2761,
                spec_num_blocks(1, 34) == 37,
                spec_ecc_per_block(1, 34) == 28,
        ;
        assert(2761int / 37int == 74int);
    } else if v == 35 {
        assert(spec_num_blocks(1, 35) == 38 && spec_ecc_per_block(1, 35) == 28);
        assert(spec_num_raw_data_modules(35) == 23008) by (nonlinear_arith);
        assert(spec_num_raw_codewords(35) == 2876);
        assert(spec_num_data_codewords(35, 1) == 1812) by (nonlinear_arith)
            requires
                spec_num_raw_codewords(35) == 2876,
                spec_num_blocks(1, 35) == 38,
                spec_ecc_per_block(1, 35) == 28,
        ;
        assert(2876int / 38int == 75int);
    } else if v == 36 {
        assert(spec_num_blocks(1, 36) == 40 && spec_ecc_per_block(1, 36) == 28);
        assert(spec_num_raw_data_modules(36) == 24272) by (nonlinear_arith);
        assert(spec_num_raw_codewords(36) == 3034);
        assert(spec_num_data_codewords(36, 1) == 1914) by (nonlinear_arith)
            requires
                spec_num_raw_codewords(36) == 3034,
                spec_num_blocks(1, 36) == 40,
                spec_ecc_per_block(1, 36) == 28,
        ;
        assert(3034int / 40int == 75int);
    } else if v == 37 {
        assert(spec_num_blocks(1, 37) == 43 && spec_ecc_per_block(1, 37) == 28);
        assert(spec_num_raw_data_modules(37) == 25568) by (nonlinear_arith);
        assert(spec_num_raw_codewords(37) == 3196);
        assert(spec_num_data_codewords(37, 1) == 1992) by (nonlinear_arith)
            requires
                spec_num_raw_codewords(37) == 3196,
                spec_num_blocks(1, 37) == 43,
                spec_ecc_per_block(1, 37) == 28,
        ;
        assert(3196int / 43int == 74int);
    } else if v == 38 {
        assert(spec_num_blocks(1, 38) == 45 && spec_ecc_per_block(1, 38) == 28);
        assert(spec_num_raw_data_modules(38) == 26896) by (nonlinear_arith);
        assert(spec_num_raw_codewords(38) == 3362);
        assert(spec_num_data_codewords(38, 1) == 2102) by (nonlinear_arith)
            requires
                spec_num_raw_codewords(38) == 3362,
                spec_num_blocks(1, 38) == 45,
                spec_ecc_per_block(1, 38) == 28,
        ;
        assert(3362int / 45int == 74int);
    } else if v == 39 {
        assert(spec_num_blocks(1, 39) == 47 && spec_ecc_per_block(1, 39) == 28);
        assert(spec_num_raw_data_modules(39) == 28256) by (nonlinear_arith);
        assert(spec_num_raw_codewords(39) == 3532);
        assert(spec_num_data_codewords(39, 1) == 2216) by (nonlinear_arith)
            requires
                spec_num_raw_codewords(39) == 3532,
                spec_num_blocks(1, 39) == 47,
                spec_ecc_per_block(1, 39) == 28,
        ;
        assert(3532int / 47int == 75int);
    } else if v == 40 {
        assert(spec_num_blocks(1, 40) == 49 && spec_ecc_per_block(1, 40) == 28);
        assert(spec_num_raw_data_modules(40) == 29648) by (nonlinear_arith);
        assert(spec_num_raw_codewords(40) == 3706);
        assert(spec_num_data_codewords(40, 1) == 2334) by (nonlinear_arith)
            requires
                spec_num_raw_codewords(40) == 3706,
                spec_num_blocks(1, 40) == 49,
                spec_ecc_per_block(1, 40) == 28,
        ;
        assert(3706int / 49int == 75int);
    }
}

proof fn lemma_table_facts_level_2(v: int)
    requires
        1 <= v <= 40,
    ensures
        7 <= spec_ecc_per_block(2, v) <= 30,
        1 <= spec_num_blocks(2, v) <= 81,
        spec_num_raw_codewords(v) / spec_num_blocks(2, v) > spec_ecc_per_block(2, v),
        spec_num_data_codewords(v, 2) >= 9,
        spec_num_raw_data_modules(v) <= 29648,
{
    if v == 1 {
        assert(spec_num_blocks(2, 1) == 1 && spec_ecc_per_block(2, 1) == 13);
        assert(spec_num_raw_data_modules(1) == 208) by (nonlinear_arith);
        assert(spec_num_raw_codewords(1) == 26);
        assert(spec_num_data_codewords(1, 2) == 13) by (nonlinear_arith)
            requires
                spec_num_raw_codewords(1) == 26,
                spec_num_blocks(2, 1) == 1,
                spec_ecc_per_block(2, 1) == 13,
        ;
        assert(26int / 1int == 26int);
    } else if v == 2 {
        assert(spec_num_blocks(2, 2) == 1 && spec_ecc_per_block(2, 2) == 22);
        assert(spec_num_raw_data_modules(2) == 359) by (nonlinear_arith);
        assert(spec_num_raw_codewords(2) == 44);
        assert(spec_num_data_codewords(2, 2) == 22) by (nonlinear_arith)
            requires
                spec_num_raw_codewords(2) == 44,
                spec_num_blocks(2, 2) == 1,
                spec_ecc_per_block(2, 2) == 22,
        ;
        assert(44int / 1int == 44int);
    } else if v == 3 {
        assert(spec_num_blocks(2, 3) == 2 && spec_ecc_per_block(2, 3) == 18);
        assert(spec_num_raw_data_modules(3) == 567) by (nonlinear_arith);
        assert(spec_num_raw_codewords(3) == 70);
        assert(spec_num_data_codewords(3, 2) == 34) by (nonlinear_arith)
            requires
                spec_num_raw_codewords(3) == 70,
                spec_num_blocks(2, 3) == 2,
                spec_ecc_per_block(2, 3) == 18,
        ;
        assert(70int / 2int == 35int);
    } else if v == 4 {
        assert(spec_num_blocks(2, 4) == 2 && spec_ecc_per_block(2, 4) == 26);
        assert(spec_num_raw_data_modules(4) == 807) by (nonlinear_arith);
        assert(spec_num_raw_codewords(4) == 100);
        assert(spec_num_data_codewords(4, 2) == 48) by (nonlinear_arith)
            requires
                spec_num_raw_codewords(4) == 100,
                spec_num_blocks(2, 4) == 2,
                spec_ecc_per_block(2, 4) == 26,
        ;
        assert(100int / 2int == 50int);
    } else if v == 5 {
        assert(spec_num_blocks(2, 5) == 4 && spec_ecc_per_block(2, 5) == 18);
        assert(spec_num_raw_data_modules(5) == 1079) by (nonlinear_arith);
        assert(spec_num_raw_codewords(5) == 134);
        assert(spec_num_data_codewords(5, 2) == 62) by (nonlinear_arith)
            requires
                spec_num_raw_codewords(5) == 134,
                spec_num_blocks(2, 5) == 4,
                spec_ecc_per_block(2, 5) == 18,
        ;
        assert(134int / 4int == 33int);
    } else if v == 6 {
        assert(spec_num_blocks(2, 6) == 4 && spec_ecc_per_block(2, 6) == 24);
        assert(spec_num_raw_data_modules(6) == 1383) by (nonlinear_arith);
        assert(spec_num_raw_codewords(6) == 172);
        assert(spec_num_data_codewords(6, 2) == 76) by (nonlinear_arith)
            requires
                spec_num_raw_codewords(6) == 172,
                spec_num_blocks(2, 6) == 4,
                spec_ecc_per_block(2, 6) == 24,
        ;
        assert(172int / 4int == 43int);
    } else if v == 7 {
        assert(spec_num_blocks(2, 7) == 6 && spec_ecc_per_block(2, 7) == 18);
        assert(spec_num_raw_data_modules(7) == 1568) by (nonlinear_arith);
        assert(spec_num_raw_codewords(7) == 196);
        assert(spec_num_data_codewords(7, 2) == 88) by (nonlinear_arith)
            requires
                spec_num_raw_codewords(7) == 196,
                spec_num_blocks(2, 7) == 6,
                spec_ecc_per_block(2, 7) == 18,
        ;
        assert(196int / 6int == 32int);
    } else if v == 8 {
        assert(spec_num_blocks(2, 8) == 6 && spec_ecc_per_block(2, 8) == 22);
        assert(spec_num_raw_data_modules(8) == 1936) by (nonlinear_arith);
        assert(spec_num_raw_codewords(8) == 242);
        assert(spec_num_data_codewords(8, 2) == 110) by (nonlinear_arith)
            requires
                spec_num_raw_codewords(8) == 242,
                spec_num_blocks(2, 8) == 6,
                spec_ecc_per_block(2, 8) == 22,
        ;
        assert(242int / 6int == 40int);
    } else if v == 9 {
        assert(spec_num_blocks(2, 9) == 8 && spec_ecc_per_block(2, 9) == 20);
        assert(spec_num_raw_data_modules(9) == 2336) by (nonlinear_arith);
        assert(spec_num_raw_codewords(9) == 292);
        assert(spec_num_data_codewords(9, 2) == 132) by (nonlinear_arith)
            requires
                spec_num_raw_codewords(9) == 292,
                spec_num_blocks(2, 9) == 8,
                spec_ecc_per_block(2, 9) == 20,
        ;
        assert(292int / 8int == 36int);
    } else if v == 10 {
        assert(spec_num_blocks(2, 10) == 8 && spec_ecc_per_block(2, 10) == 24);
        assert(spec_num_raw_data_modules(10) == 2768) by (nonlinear_arith);
        assert(spec_num_raw_codewords(10) == 346);
        assert(spec_num_data_codewords(10, 2) == 154) by (nonlinear_arith)
            requires
                spec_num_raw_codewords(10) == 346,
                spec_num_blocks(2, 10) == 8,
                spec_ecc_per_block(2, 10) == 24,
        ;
        assert(346int / 8int == 43int);
    } else if v == 11 {
        assert(spec_num_blocks(2, 11) == 8 && spec_ecc_per_block(2, 11) == 28);
        assert(spec_num_raw_data_modules(11) == 3232) by (nonlinear_arith);
        assert(spec_num_raw_codewords(11) == 404);
        assert(spec_num_data_codewords(11, 2) == 180) by (nonlinear_arith)
            requires
                spec_num_raw_codewords(11) == 404,
                spec_num_blocks(2, 11) == 8,
                spec_ecc_per_block(2, 11) == 28,
        ;
        assert(404int / 8int == 50int);
    } else if v == 12 {
        assert(spec_num_blocks(2, 12) == 10 && spec_ecc_per_block(2, 12) == 26);
        assert(spec_num_raw_data_modules(12) == 3728) by (nonlinear_arith);
        assert(spec_num_raw_codewords(12) == 466);
        assert(spec_num_data_codewords(12, 2) == 206) by (nonlinear_arith)
            requires
                spec_num_raw_codewords(12) == 466,
                spec_num_blocks(2, 12) == 10,
                spec_ecc_per_block(2, 12) == 26,
        ;
        assert(466int / 10int == 46int);
    } else if v == 13 {
        assert(spec_num_blocks(2, 13) == 12 && spec_ecc_per_block(2, 13) == 24);
        assert(spec_num_raw_data_modules(13) == 4256) by (nonlinear_arith);
        assert(spec_num_raw_codewords(13) == 532);
        assert(spec_num_data_codewords(13, 2) == 244) by (nonlinear_arith)
            requires
                spec_num_raw_codewords(13) == 532,
                spec_num_blocks(2, 13) == 12,
                spec_ecc_per_block(2, 13) == 24,
        ;
        assert(532int / 12int == 44int);
    } else if v == 14 {
        assert(spec_num_blocks(2, 14) == 16 && spec_ecc_per_block(2, 14) == 20);
        assert(spec_num_raw_data_modules(14) == 4651) by (nonlinear_arith);
        assert(spec_num_raw_codewords(14) == 581);
        assert(spec_num_data_codewords(14, 2) == 261) by (nonlinear_arith)
            requires
                spec_num_raw_codewords(14) == 581,
                spec_num_blocks(2, 14) == 16,
                spec_ecc_per_block(2, 14) == 20,
        ;
        assert(581int / 16int == 36int);
    } else if v == 15 {
        assert(spec_num_blocks(2, 15) == 12 && spec_ecc_per_block(2, 15) == 30);
        assert(spec_num_raw_data_modules(15) == 5243) by (nonlinear_arith);
        assert(spec_num_raw_codewords(15) == 655);
        assert(spec_num_data_codewords(15, 2) == 295) by (nonlinear_arith)
            requires
                spec_num_raw_codewords(15) == 655,
                spec_num_blocks(2, 15) == 12,
                spec_ecc_per_block(2, 15) == 30,
        ;
        assert(655int / 12int == 54int);
    } else if v == 16 {
        assert(spec_num_blocks(2, 16) == 17 && spec_ecc_per_block(2, 16) == 24);
        assert(spec_num_raw_data_modules(16) == 5867) by (nonlinear_arith);
        assert(spec_num_raw_codewords(16) == 733);
        assert(spec_num_data_codewords(16, 2) == 325) by (nonlinear_arith)
            requires
                spec_num_raw_codewords(16) == 733,
                spec_num_blocks(2, 16) == 17,
                spec_ecc_per_block(2, 16) == 24,
        ;
        assert(733int / 17int == 43int);
    } else if v == 17 {
        assert(spec_num_blocks(2, 17) == 16 && spec_ecc_per_block(2, 17) == 28);
        assert(spec_num_raw_data_modules(17) == 6523) by (nonlinear_arith);
        assert(spec_num_raw_codewords(17) == 815);
        assert(spec_num_data_codewords(17, 2) == 367) by (nonlinear_arith)
            requires
                spec_num_raw_codewords(17) == 815,
                spec_num_blocks(2, 17) == 16,
                spec_ecc_per_block(2, 17) == 28,
        ;
        assert(815int / 16int == 50int);
    } else if v == 18 {
        assert(spec_num_blocks(2, 18) == 18 && spec_ecc_per_block(2, 18) == 28);
        assert(spec_num_raw_data_modules(18) == 7211) by (nonlinear_arith);
        assert(spec_num_raw_codewords(18) == 901);
        assert(spec_num_data_codewords(18, 2) == 397) by (nonlinear_arith)
            requires
                spec_num_raw_codewords(18) == 901,
                spec_num_blocks(2, 18) == 18,
                spec_ecc_per_block(2, 18) == 28,
        ;
        assert(901int / 18int == 50int);
    } else if v == 19 {
        assert(spec_num_blocks(2, 19) == 21 && spec_ecc_per_block(2, 19) == 26);
        assert(spec_num_raw_data_modules(19) == 7931) by (nonlinear_arith);
        assert(spec_num_raw_codewords(19) == 991);
        assert(spec_num_data_codewords(19, 2) == 445) by (nonlinear_arith)
            requires
                spec_num_raw_codewords(19) == 991,
                spec_num_blocks(2, 19) == 21,
                spec_ecc_per_block(2, 19) == 26,
        ;
        assert(991int / 21int == 47int);
    } else if v == 20 {
        assert(spec_num_blocks(2, 20) == 20 && spec_ecc_per_block(2, 20) == 30);
        assert(spec_num_raw_data_modules(20) == 8683) by (nonlinear_arith);
        assert(spec_num_raw_codewords(20) == 1085);
        assert(spec_num_data_codewords(20, 2) == 485) by (nonlinear_arith)
            requires
                spec_num_raw_codewords(20) == 1085,
                spec_num_blocks(2, 20) == 20,
                spec_ecc_per_block(2, 20) == 30,
        ;
        assert(1085int / 20int == 54int);
    } else if v == 21 {
        assert(spec_num_blocks(2, 21) == 23 && spec_ecc_per_block(2, 21) == 28);
        assert(spec_num_raw_data_modules(21) == 9252) by (nonlinear_arith);
        assert(spec_num_raw_codewords(21) == 1156);
        assert(spec_num_data_codewords(21, 2) == 512) by (nonlinear_arith)
            requires
                spec_num_raw_codewords(21) == 1156,
                spec_num_blocks(2, 21) == 23,
                spec_ecc_per_block(2, 21) == 28,
        ;
        assert(1156int / 23int == 50int);
    } else if v == 22 {
        assert(spec_num_blocks(2, 22) == 23 && spec_ecc_per_block(2, 22) == 30);
        assert(spec_num_raw_data_modules(22) == 10068) by (nonlinear_arith);
        assert(spec_num_raw_codewords(22) == 1258);
        assert(spec_num_data_codewords(22, 2) == 568) by (nonlinear_arith)
            requires
                spec_num_raw_codewords(22) == 1258,
                spec_num_blocks(2, 22) == 23,
                spec_ecc_per_block(2, 22) == 30,
        ;
        assert(1258int / 23int == 54int);
    } else if v == 23 {
        assert(spec_num_blocks(2, 23) == 25 && spec_ecc_per_block(2, 23) == 30);
        assert(spec_num_raw_data_modules(23) == 10916) by (nonlinear_arith);
        assert(spec_num_raw_codewords(23) == 1364);
        assert(spec_num_data_codewords(23, 2) == 614) by (nonlinear_arith)
            requires
                spec_num_raw_codewords(23) == 1364,
                spec_num_blocks(2, 23) == 25,
                spec_ecc_per_block(2, 23) == 30,
        ;
        assert(1364int / 25int == 54int);
    } else if v == 24 {
        assert(spec_num_blocks(2, 24) == 27 && spec_ecc_per_block(2, 24) == 30);
        assert(spec_num_raw_data_modules(24) == 11796) by (nonlinear_arith);
        assert(spec_num_raw_codewords(24) == 1474);
        assert(spec_num_data_codewords(24, 2) == 664) by (nonlinear_arith)
            requires
                spec_num_raw_codewords(24) == 1474,
                spec_num_blocks(2, 24) == 27,
                spec_ecc_per_block(2, 24) == 30,
        ;
        assert(1474int / 27int == 54int);
    } else if v == 25 {
        assert(spec_num_blocks(2, 25) == 29 && spec_ecc_per_block(2, 25) == 30);
        assert(spec_num_raw_data_modules(25) == 12708) by (nonlinear_arith);
        assert(spec_num_raw_codewords(25) == 1588);
        assert(spec_num_data_codewords(25, 2) == 718) by (nonlinear_arith)
            requires
                spec_num_raw_codewords(25) == 1588,
                spec_num_blocks(2, 25) == 29,
                spec_ecc_per_block(2, 25) == 30,
        ;
        assert(1588int / 29int == 54int);
    } else if v == 26 {
        assert(spec_num_blocks(2, 26) == 34 && spec_ecc_per_block(2, 26) == 28);
        assert(spec_num_raw_data_modules(26) == 13652) by (nonlinear_arith);
        assert(spec_num_raw_codewords(26) == 1706);
        assert(spec_num_data_codewords(26, 2) == 754) by (nonlinear_arith)
            requires
                spec_num_raw_codewords(26) == 1706,
                spec_num_blocks(2, 26) == 34,
                spec_ecc_per_block(2, 26) == 28,
        ;
        assert(1706int / 34int == 50int);
    } else if v == 27 {
        assert(spec_num_blocks(2, 27) == 34 && spec_ecc_per_block(2, 27) == 30);
        assert(spec_num_raw_data_modules(27) == 14628) by (nonlinear_arith);
        assert(spec_num_raw_codewords(27) == 1828);
        assert(spec_num_data_codewords(27, 2) == 808) by (nonlinear_arith)
            requires
                spec_num_raw_codewords(27) == 1828,
                spec_num_blocks(2, 27) == 34,
                spec_ecc_per_block(2, 27) == 30,
        ;
        assert(1828int / 34int == 53int);
    } else if v == 28 {
        assert(spec_num_blocks(2, 28) == 35 && spec_ecc_per_block(2, 28) == 30);
        assert(spec_num_raw_data_modules(28) == 15371) by (nonlinear_arith);
        assert(spec_num_raw_codewords(28) == 1921);
        assert(spec_num_data_codewords(28, 2) == 871) by (nonlinear_arith)
            requires
                spec_num_raw_codewords(28) == 1921,
                spec_num_blocks(2, 28) == 35,
                spec_ecc_per_block(2, 28) == 30,
        ;
        assert(1921int / 35int == 54int);
    } else if v == 29 {
        assert(spec_num_blocks(2, 29) == 38 && spec_ecc_per_block(2, 29) == 30);
        assert(spec_num_raw_data_modules(29) == 16411) by (nonlinear_arith);
        assert(spec_num_raw_codewords(29) == 2051);
        assert(spec_num_data_codewords(29, 2) == 911) by (nonlinear_arith)
            requires
                spec_num_raw_codewords(29) == 2051,
                spec_num_blocks(2, 29) == 38,
                spec_ecc_per_block(2, 29) == 30,
        ;
        assert(2051int / 38int == 53int);
    } else if v == 30 {
        assert(spec_num_blocks(2, 30) == 40 && spec_ecc_per_block(2, 30) == 30);
        assert(spec_num_raw_data_modules(30) == 17483) by (nonlinear_arith);
        assert(spec_num_raw_codewords(30) == 2185);
        assert(spec_num_data_codewords(30, 2) == 985) by (nonlinear_arith)
            requires
                spec_num_raw_codewords(30) == 2185,
                spec_num_blocks(2, 30) == 40,
                spec_ecc_per_block(2, 30) == 30,
        ;
        assert(2185int / 40int == 54int);
    } else if v == 31 {
        assert(spec_num_blocks(2, 31) == 43 && spec_ecc_per_block(2, 31) == 30);
        assert(spec_num_raw_data_modules(31) == 18587) by (nonlinear_arith);
        assert(spec_num_raw_codewords(31) == 2323);
        assert(spec_num_data_codewords(31, 2) == 1033) by (nonlinear_arith)
            requires
                spec_num_raw_codewords(31) == 2323,
                spec_num_blocks(2, 31) == 43,
                spec_ecc_per_block(2, 31) == 30,
        ;
        assert(2323int / 43int == 54int);
    } else if v == 32 {
        assert(spec_num_blocks(2, 32) == 45 && spec_ecc_per_block(2, 32) == 30);
        assert(spec_num_raw_data_modules(32) == 19723) by (nonlinear_arith);
        assert(spec_num_raw_codewords(32) == 2465);
        assert(spec_num_data_codewords(32, 2) == 1115) by (nonlinear_arith)
            requires
                spec_num_raw_codewords(32) == 2465,
                spec_num_blocks(2, 32) == 45,
                spec_ecc_per_block(2, 32) == 30,
        ;
        assert(2465int / 45int == 54int);
    } else if v == 33 {
        assert(spec_num_blocks(2, 33) == 48 && spec_ecc_per_block(2, 33) == 30);
        assert(spec_num_raw_data_modules(33) == 20891) by (nonlinear_arith);
        assert(spec_num_raw_codewords(33) == 2611);
        assert(spec_num_data_codewords(33, 2) == 1171) by (nonlinear_arith)
            requires
                spec_num_raw_codewords(33) == 2611,
                spec_num_blocks(2, 33) == 48,
                spec_ecc_per_block(2, 33) == 30,
        ;
        assert(2611int / 48int == 54int);
    } else if v == 34 {
        assert(spec_num_blocks(2, 34) == 51 && spec_ecc_per_block(2, 34) == 30);
        assert(spec_num_raw_data_modules(34) == 22091) by (nonlinear_arith);
        assert(spec_num_raw_codewords(34) == 2761);
        assert(spec_num_data_codewords(34, 2) == 1231) by (nonlinear_arith)
            requires
                spec_num_raw_codewords(34) == 2761,
                spec_num_blocks(2, 34) == 51,
                spec_ecc_per_block(2, 34) == 30,
        ;
        assert(2761int / 51int == 54int);
    } else if v == 35 {
        assert(spec_num_blocks(2, 35) == 53 && spec_ecc_per_block(2, 35) == 30);
        assert(spec_num_raw_data_modules(35) == 23008) by (nonlinear_arith);
        assert(spec_num_raw_codewords(35) == 2876);
        assert(spec_num_data_codewords(35, 2) == 1286) by (nonlinear_arith)
            requires
                spec_num_raw_codewords(35) == 2876,
                spec_num_blocks(2, 35) == 53,
                spec_ecc_per_block(2, 35) == 30,
        ;
        assert(2876int / 53int == 54int);
    } else if v == 36 {
        assert(spec_num_blocks(2, 36) == 56 && spec_ecc_per_block(2, 36) == 30);
        assert(spec_num_raw_data_modules(36) == 24272) by (nonlinear_arith);
        assert(spec_num_raw_codewords(36) == 3034);
        assert(spec_num_data_codewords(36, 2) == 1354) by (nonlinear_arith)
            requires
                spec_num_raw_codewords(36) == 3034,
                spec_num_blocks(2, 36) == 56,
                spec_ecc_per_block(2, 36) == 30,
        ;
        assert(3034int / 56int == 54int);
    } else if v == 37 {
        assert(spec_num_blocks(2, 37) == 59 && spec_ecc_per_block(2, 37) == 30);
        assert(spec_num_raw_data_modules(37) == 25568) by (nonlinear_arith);
        assert(spec_num_raw_codewords(37) == 3196);
        assert(spec_num_data_codewords(37, 2) == 1426) by (nonlinear_arith)
            requires
                spec_num_raw_codewords(37) == 3196,
                spec_num_blocks(2, 37) == 59,
                spec_ecc_per_block(2, 37) == 30,
        ;
        assert(3196int / 59int == 54int);
    } else if v == 38 {
        assert(spec_num_blocks(2, 38) == 62 && spec_ecc_per_block(2, 38) == 30);
        assert(spec_num_raw_data_modules(38) == 26896) by (nonlinear_arith);
        assert(spec_num_raw_codewords(38) == 3362);
        assert(spec_num_data_codewords(38, 2) == 1502) by (nonlinear_arith)
            requires
                spec_num_raw_codewords(38) == 3362,
                spec_num_blocks(2, 38) == 62,
                spec_ecc_per_block(2, 38) == 30,
        ;
        assert(3362int / 62int == 54int);
    } else if v == 39 {
        assert(spec_num_blocks(2, 39) == 65 && spec_ecc_per_block(2, 39) == 30);
        assert(spec_num_raw_data_modules(39) == 28256) by (nonlinear_arith);
        assert(spec_num_raw_codewords(39) == 3532);
        assert(spec_num_data_codewords(39, 2) == 1582) by (nonlinear_arith)
            requires
                spec_num_raw_codewords(39) == 3532,
                spec_num_blocks(2, 39) == 65,
                spec_ecc_per_block(2, 39) == 30,
        ;
        assert(3532int / 65int == 54int);
    } else if v == 40 {
        assert(spec_num_blocks(2, 40) == 68 && spec_ecc_per_block(2, 40) == 30);
        assert(spec_num_raw_data_modules(40) == 29648) by (nonlinear_arith);
        assert(spec_num_raw_codewords(40) == 3706);
        assert(spec_num_data_codewords(40, 2) == 1666) by (nonlinear_arith)
            requires
                spec_num_raw_codewords(40) == 3706,
                spec_num_blocks(2, 40) == 68,
                spec_ecc_per_block(2, 40) == 30,
        ;
        assert(3706int / 68int == 54int);
    }
}

proof fn lemma_table_facts_level_3(v: int)
    requires
        1 <= v <= 40,
    ensures
        7 <= spec_ecc_per_block(3, v) <= 30,
        1 <= spec_num_blocks(3, v) <= 81,
        spec_num_raw_codewords(v) / spec_num_blocks(3, v) > spec_ecc_per_block(3, v),
        spec_num_data_codewords(v, 3) >= 9,
        spec_num_raw_data_modules(v) <= 29648,
{
    if v == 1 {
        assert(spec_num_blocks(3, 1) == 1 && spec_ecc_per_block(3, 1) == 17);
        assert(spec_num_raw_data_modules(1) == 208) by (nonlinear_arith);
        assert(spec_num_raw_codewords(1) == 26);
        assert(spec_num_data_codewords(1, 3) == 9) by (nonlinear_arith)
            requires
                spec_num_raw_codewords(1) == 26,
                spec_num_blocks(3, 1) == 1,
                spec_ecc_per_block(3, 1) == 17,
        ;
        assert(26int / 1int == 26int);
    } else if v == 2 {
        assert(spec_num_blocks(3, 2) == 1 && spec_ecc_per_block(3, 2) == 28);
        assert(spec_num_raw_data_modules(2) == 359) by (nonlinear_arith);
        assert(spec_num_raw_codewords(2) == 44);
        assert(spec_num_data_codewords(2, 3) == 16) by (nonlinear_arith)
            requires
                spec_num_raw_codewords(2) == 44,
                spec_num_blocks(3, 2) == 1,
                spec_ecc_per_block(3, 2) == 28,
        ;
        assert(44int / 1int == 44int);
    } else if v == 3 {
        assert(spec_num_blocks(3, 3) == 2 && spec_ecc_per_block(3, 3) == 22);
        assert(spec_num_raw_data_modules(3) == 567) by (nonlinear_arith);
        assert(spec_num_raw_codewords(3) == 70);
        assert(spec_num_data_codewords(3, 3) == 26) by (nonlinear_arith)
            requires
                spec_num_raw_codewords(3) == 70,
                spec_num_blocks(3, 3) == 2,
                spec_ecc_per_block(3, 3) == 22,
        ;
        assert(70int / 2int == 35int);
    } else if v == 4 {
        assert(spec_num_blocks(3, 4) == 4 && spec_ecc_per_block(3, 4) == 16);
        assert(spec_num_raw_data_modules(4) == 807) by (nonlinear_arith);
        assert(spec_num_raw_codewords(4) == 100);
        assert(spec_num_data_codewords(4, 3) == 36) by (nonlinear_arith)
            requires
                spec_num_raw_codewords(4) == 100,
                spec_num_blocks(3, 4) == 4,
                spec_ecc_per_block(3, 4) == 16,
        ;
        assert(100int / 4int == 25int);
    } else if v == 5 {
        assert(spec_num_blocks(3, 5) == 4 && spec_ecc_per_block(3, 5) == 22);
        assert(spec_num_raw_data_modules(5) == 1079) by (nonlinear_arith);
        assert(spec_num_raw_codewords(5) == 134);
        assert(spec_num_data_codewords(5, 3) == 46) by (nonlinear_arith)
            requires
                spec_num_raw_codewords(5) == 134,
                spec_num_blocks(3, 5) == 4,
                spec_ecc_per_block(3, 5) == 22,
        ;
        assert(134int / 4int == 33int);
    } else if v == 6 {
        assert(spec_num_blocks(3, 6) == 4 && spec_ecc_per_block(3, 6) == 28);
        assert(spec_num_raw_data_modules(6) == 1383) by (nonlinear_arith);
        assert(spec_num_raw_codewords(6) == 172);
        assert(spec_num_data_codewords(6, 3) == 60) by (nonlinear_arith)
            requires
                spec_num_raw_codewords(6) == 172,
                spec_num_blocks(3, 6) == 4,
                spec_ecc_per_block(3, 6) == 28,
        ;
        assert(172int / 4int == 43int);
    } else if v == 7 {
        assert(spec_num_blocks(3, 7) == 5 && spec_ecc_per_block(3, 7) == 26);
        assert(spec_num_raw_data_modules(7) == 1568) by (nonlinear_arith);
        assert(spec_num_raw_codewords(7) == 196);
        assert(spec_num_data_codewords(7, 3) == 66) by (nonlinear_arith)
            requires
                spec_num_raw_codewords(7) == 196,
                spec_num_blocks(3, 7) == 5,
                spec_ecc_per_block(3, 7) == 26,
        ;
        assert(196int / 5int == 39int);
    } else if v == 8 {
        assert(spec_num_blocks(3, 8) == 6 && spec_ecc_per_block(3, 8) == 26);
        assert(spec_num_raw_data_modules(8) == 1936) by (nonlinear_arith);
        assert(spec_num_raw_codewords(8) == 242);
        assert(spec_num_data_codewords(8, 3) == 86) by (nonlinear_arith)
            requires
                spec_num_raw_codewords(8) == 242,
                spec_num_blocks(3, 8) == 6,
                spec_ecc_per_block(3, 8) == 26,
        ;
        assert(242int / 6int == 40int);
    } else if v == 9 {
        assert(spec_num_blocks(3, 9) == 8 && spec_ecc_per_block(3, 9) == 24);
        assert(spec_num_raw_data_modules(9) == 2336) by (nonlinear_arith);
        assert(spec_num_raw_codewords(9) == 292);
        assert(spec_num_data_codewords(9, 3) == 100) by (nonlinear_arith)
            requires
                spec_num_raw_codewords(9) == 292,
                spec_num_blocks(3, 9) == 8,
                spec_ecc_per_block(3, 9) == 24,
        ;
        assert(292int / 8int == 36int);
    } else if v == 10 {
        assert(spec_num_blocks(3, 10) == 8 && spec_ecc_per_block(3, 10) == 28);
        assert(spec_num_raw_data_modules(10) == 2768) by (nonlinear_arith);
        assert(spec_num_raw_codewords(10) == 346);
        assert(spec_num_data_codewords(10, 3) == 122) by (nonlinear_arith)
            requires
                spec_num_raw_codewords(10) == 346,
                spec_num_blocks(3, 10) == 8,
                spec_ecc_per_block(3, 10) == 28,
        ;
        assert(346int / 8int == 43int);
    } else if v == 11 {
        assert(spec_num_blocks(3, 11) == 11 && spec_ecc_per_block(3, 11) == 24);
        assert(spec_num_raw_data_modules(11) == 3232) by (nonlinear_arith);
        assert(spec_num_raw_codewords(11) == 404);
        assert(spec_num_data_codewords(11, 3) == 140) by (nonlinear_arith)
            requires
                spec_num_raw_codewords(11) == 404,
                spec_num_blocks(3, 11) == 11,
                spec_ecc_per_block(3, 11) == 24,
        ;
        assert(404int / 11int == 36int);
    } else if v == 12 {
        assert(spec_num_blocks(3, 12) == 11 && spec_ecc_per_block(3, 12) == 28);
        assert(spec_num_raw_data_modules(12) == 3728) by (nonlinear_arith);
        assert(spec_num_raw_codewords(12) == 466);
        assert(spec_num_data_codewords(12, 3) == 158) by (nonlinear_arith)
            requires
                spec_num_raw_codewords(12) == 466,
                spec_num_blocks(3, 12) == 11,
                spec_ecc_per_block(3, 12) == 28,
        ;
        assert(466int / 11int == 42int);
    } else if v == 13 {
        assert(spec_num_blocks(3, 13) == 16 && spec_ecc_per_block(3, 13) == 22);
        assert(spec_num_raw_data_modules(13) == 4256) by (nonlinear_arith);
        assert(spec_num_raw_codewords(13) == 532);
        assert(spec_num_data_codewords(13, 3) == 180) by (nonlinear_arith)
            requires
                spec_num_raw_codewords(13) == 532,
                spec_num_blocks(3, 13) == 16,
                spec_ecc_per_block(3, 13) == 22,
        ;
        assert(532int / 16int == 33int);
    } else if v == 14 {
        assert(spec_num_blocks(3, 14) == 16 && spec_ecc_per_block(3, 14) == 24);
        assert(spec_num_raw_data_modules(14) == 4651) by (nonlinear_arith);
        assert(spec_num_raw_codewords(14) == 581);
        assert(spec_num_data_codewords(14, 3) == 197) by (nonlinear_arith)
            requires
                spec_num_raw_codewords(14) == 581,
                spec_num_blocks(3, 14) == 16,
                spec_ecc_per_block(3, 14) == 24,
        ;
        assert(581int / 16int == 36int);
    } else if v == 15 {
        assert(spec_num_blocks(3, 15) == 18 && spec_ecc_per_block(3, 15) == 24);
        assert(spec_num_raw_data_modules(15) == 5243) by (nonlinear_arith);
        assert(spec_num_raw_codewords(15) == 655);
        assert(spec_num_data_codewords(15, 3) == 223) by (nonlinear_arith)
            requires
                spec_num_raw_codewords(15) == 655,
                spec_num_blocks(3, 15) == 18,
                spec_ecc_per_block(3, 15) == 24,
        ;
        assert(655int / 18int == 36int);
    } else if v == 16 {
        assert(spec_num_blocks(3, 16) == 16 && spec_ecc_per_block(3, 16) == 30);
        assert(spec_num_raw_data_modules(16) == 5867) by (nonlinear_arith);
        assert(spec_num_raw_codewords(16) == 733);
        assert(spec_num_data_codewords(16, 3) == 253) by (nonlinear_arith)
            requires
                spec_num_raw_codewords(16) == 733,
                spec_num_blocks(3, 16) == 16,
                spec_ecc_per_block(3, 16) == 30,
        ;
        assert(733int / 16int == 45int);
    } else if v == 17 {
        assert(spec_num_blocks(3, 17) == 19 && spec_ecc_per_block(3, 17) == 28);
        assert(spec_num_raw_data_modules(17) == 6523) by (nonlinear_arith);
        assert(spec_num_raw_codewords(17) == 815);
        assert(spec_num_data_codewords(17, 3) == 283) by (nonlinear_arith)
            requires
                spec_num_raw_codewords(17) == 815,
                spec_num_blocks(3, 17) == 19,
                spec_ecc_per_block(3, 17) == 28,
        ;
        assert(815int / 19int == 42int);
    } else if v == 18 {
        assert(spec_num_blocks(3, 18) == 21 && spec_ecc_per_block(3, 18) == 28);
        assert(spec_num_raw_data_modules(18) == 7211) by (nonlinear_arith);
        assert(spec_num_raw_codewords(18) == 901);
        assert(spec_num_data_codewords(18, 3) == 313) by (nonlinear_arith)
            requires
                spec_num_raw_codewords(18) == 901,
                spec_num_blocks(3, 18) == 21,
                spec_ecc_per_block(3, 18) == 28,
        ;
        assert(901int / 21int == 42int);
    } else if v == 19 {
        assert(spec_num_blocks(3, 19) == 25 && spec_ecc_per_block(3, 19) == 26);
        assert(spec_num_raw_data_modules(19) == 7931) by (nonlinear_arith);
        assert(spec_num_raw_codewords(19) == 991);
        assert(spec_num_data_codewords(19, 3) == 341) by (nonlinear_arith)
            requires
                spec_num_raw_codewords(19) == 991,
                spec_num_blocks(3, 19) == 25,
                spec_ecc_per_block(3, 19) == 26,
        ;
        assert(991int / 25int == 39int);
    } else if v == 20 {
        assert(spec_num_blocks(3, 20) == 25 && spec_ecc_per_block(3, 20) == 28);
        assert(spec_num_raw_data_modules(20) == 8683) by (nonlinear_arith);
        assert(spec_num_raw_codewords(20) == 1085);
        assert(spec_num_data_codewords(20, 3) == 385) by (nonlinear_arith)
            requires
                spec_num_raw_codewords(20) == 1085,
                spec_num_blocks(3, 20) == 25,
                spec_ecc_per_block(3, 20) == 28,
        ;
        assert(1085int / 25int == 43int);
    } else if v == 21 {
        assert(spec_num_blocks(3, 21) == 25 && spec_ecc_per_block(3, 21) == 30);
        assert(spec_num_raw_data_modules(21) == 9252) by (nonlinear_arith);
        assert(spec_num_raw_codewords(21) == 1156);
        assert(spec_num_data_codewords(21, 3) == 406) by (nonlinear_arith)
            requires
                spec_num_raw_codewords(21) == 1156,
                spec_num_blocks(3, 21) == 25,
                spec_ecc_per_block(3, 21) == 30,
        ;
        assert(1156int / 25int == 46int);
    } else if v == 22 {
        assert(spec_num_blocks(3, 22) == 34 && spec_ecc_per_block(3, 22) == 24);
        assert(spec_num_raw_data_modules(22) == 10068) by (nonlinear_arith);
        assert(spec_num_raw_codewords(22) == 1258);
        assert(spec_num_data_codewords(22, 3) == 442) by (nonlinear_arith)
            requires
                spec_num_raw_codewords(22) == 1258,
                spec_num_blocks(3, 22) == 34,
                spec_ecc_per_block(3, 22) == 24,
        ;
        assert(1258int / 34int == 37int);
    } else if v == 23 {
        assert(spec_num_blocks(3, 23) == 30 && spec_ecc_per_block(3, 23) == 30);
        assert(spec_num_raw_data_modules(23) == 10916) by (nonlinear_arith);
        assert(spec_num_raw_codewords(23) == 1364);
        assert(spec_num_data_codewords(23, 3) == 464) by (nonlinear_arith)
            requires
                spec_num_raw_codewords(23) == 1364,
                spec_num_blocks(3, 23) == 30,
                spec_ecc_per_block(3, 23) == 30,
        ;
        assert(1364int / 30int == 45int);
    } else if v == 24 {
        assert(spec_num_blocks(3, 24) == 32 && spec_ecc_per_block(3, 24) == 30);
        assert(spec_num_raw_data_modules(24) == 11796) by (nonlinear_arith);
        assert(spec_num_raw_codewords(24) == 1474);
        assert(spec_num_data_codewords(24, 3) == 514) by (nonlinear_arith)
            requires
                spec_num_raw_codewords(24) == 1474,
                spec_num_blocks(3, 24) == 32,
                spec_ecc_per_block(3, 24) == 30,
        ;
        assert(1474int / 32int == 46int);
    } else if v == 25 {
        assert(spec_num_blocks(3, 25) == 35 && spec_ecc_per_block(3, 25) == 30);
        assert(spec_num_raw_data_modules(25) == 12708) by (nonlinear_arith);
        assert(spec_num_raw_codewords(25) == 1588);
        assert(spec_num_data_codewords(25, 3) == 538) by (nonlinear_arith)
            requires
                spec_num_raw_codewords(25) == 1588,
                spec_num_blocks(3, 25) == 35,
                spec_ecc_per_block(3, 25) == 30,
        ;
        assert(1588int / 35int == 45int);
    } else if v == 26 {
        assert(spec_num_blocks(3, 26) == 37 && spec_ecc_per_block(3, 26) == 30);
        assert(spec_num_raw_data_modules(26) == 13652) by (nonlinear_arith);
        assert(spec_num_raw_codewords(26) == 1706);
        assert(spec_num_data_codewords(26, 3) == 596) by (nonlinear_arith)
            requires
                spec_num_raw_codewords(26) == 1706,
                spec_num_blocks(3, 26) == 37,
                spec_ecc_per_block(3, 26) == 30,
        ;
        assert(1706int / 37int == 46int);
    } else if v == 27 {
        assert(spec_num_blocks(3, 27) == 40 && spec_ecc_per_block(3, 27) == 30);
        assert(spec_num_raw_data_modules(27) == 14628) by (nonlinear_arith);
        assert(spec_num_raw_codewords(27) == 1828);
        assert(spec_num_data_codewords(27, 3) == 628) by (nonlinear_arith)
            requires
                spec_num_raw_codewords(27) == 1828,
                spec_num_blocks(3, 27) == 40,
                spec_ecc_per_block(3, 27) == 30,
        ;
        assert(1828int / 40int == 45int);
    } else if v == 28 {
        assert(spec_num_blocks(3, 28) == 42 && spec_ecc_per_block(3, 28) == 30);
        assert(spec_num_raw_data_modules(28) == 15371) by (nonlinear_arith);
        assert(spec_num_raw_codewords(28) == 1921);
        assert(spec_num_data_codewords(28, 3) == 661) by (nonlinear_arith)
            requires
                spec_num_raw_codewords(28) == 1921,
                spec_num_blocks(3, 28) == 42,
                spec_ecc_per_block(3, 28) == 30,
        ;
        assert(1921int / 42int == 45int);
    } else if v == 29 {
        assert(spec_num_blocks(3, 29) == 45 && spec_ecc_per_block(3, 29) == 30);
        assert(spec_num_raw_data_modules(29) == 16411) by (nonlinear_arith);
        assert(spec_num_raw_codewords(29) == 2051);
        assert(spec_num_data_codewords(29, 3) == 701) by (nonlinear_arith)
            requires
                spec_num_raw_codewords(29) == 2051,
                spec_num_blocks(3, 29) == 45,
                spec_ecc_per_block(3, 29) == 30,
        ;
        assert(2051int / 45int == 45int);
    } else if v == 30 {
        assert(spec_num_blocks(3, 30) == 48 && spec_ecc_per_block(3, 30) == 30);
        assert(spec_num_raw_data_modules(30) == 17483) by (nonlinear_arith);
        assert(spec_num_raw_codewords(30) == 2185);
        assert(spec_num_data_codewords(30, 3) == 745) by (nonlinear_arith)
            requires
                spec_num_raw_codewords(30) == 2185,
                spec_num_blocks(3, 30) == 48,
                spec_ecc_per_block(3, 30) == 30,
        ;
        assert(2185int / 48int == 45int);
    } else if v == 31 {
        assert(spec_num_blocks(3, 31) == 51 && spec_ecc_per_block(3, 31) == 30);
        assert(spec_num_raw_data_modules(31) == 18587) by (nonlinear_arith);
        assert(spec_num_raw_codewords(31) == 2323);
        assert(spec_num_data_codewords(31, 3) == 793) by (nonlinear_arith)
            requires
                spec_num_raw_codewords(31) == 2323,
                spec_num_blocks(3, 31) == 51,
                spec_ecc_per_block(3, 31) == 30,
        ;
        assert(2323int / 51int == 45int);
    } else if v == 32 {
        assert(spec_num_blocks(3, 32) == 54 && spec_ecc_per_block(3, 32) == 30);
        assert(spec_num_raw_data_modules(32) == 19723) by (nonlinear_arith);
        assert(spec_num_raw_codewords(32) == 2465);
        assert(spec_num_data_codewords(32, 3) == 845) by (nonlinear_arith)
            requires
                spec_num_raw_codewords(32) == 2465,
                spec_num_blocks(3, 32) == 54,
                spec_ecc_per_block(3, 32) == 30,
        ;
        assert(2465int / 54int == 45int);
    } else if v == 33 {
        assert(spec_num_blocks(3, 33) == 57 && spec_ecc_per_block(3, 33) == 30);
        assert(spec_num_raw_data_modules(33) == 20891) by (nonlinear_arith);
        assert(spec_num_raw_codewords(33) == 2611);
        assert(spec_num_data_codewords(33, 3) == 901) by (nonlinear_arith)
            requires
                spec_num_raw_codewords(33) == 2611,
                spec_num_blocks(3, 33) == 57,
                spec_ecc_per_block(3, 33) == 30,
        ;
        assert(2611int / 57int == 45int);
    } else if v == 34 {
        assert(spec_num_blocks(3, 34) == 60 && spec_ecc_per_block(3, 34) == 30);
        assert(spec_num_raw_data_modules(34) == 22091) by (nonlinear_arith);
        assert(spec_num_raw_codewords(34) == 2761);
        assert(spec_num_data_codewords(34, 3) == 961) by (nonlinear_arith)
            requires
                spec_num_raw_codewords(34) == 2761,
                spec_num_blocks(3, 34) == 60,
                spec_ecc_per_block(3, 34) == 30,
        ;
        assert(2761int / 60int == 46int);
    } else if v == 35 {
        assert(spec_num_blocks(3, 35) == 63 && spec_ecc_per_block(3, 35) == 30);
        assert(spec_num_raw_data_modules(35) == 23008) by (nonlinear_arith);
        assert(spec_num_raw_codewords(35) == 2876);
        assert(spec_num_data_codewords(35, 3) == 986) by (nonlinear_arith)
            requires
                spec_num_raw_codewords(35) == 2876,
                spec_num_blocks(3, 35) == 63,
                spec_ecc_per_block(3, 35) == 30,
        ;
        assert(2876int / 63int == 45int);
    } else if v == 36 {
        assert(spec_num_blocks(3, 36) == 66 && spec_ecc_per_block(3, 36) == 30);
        assert(spec_num_raw_data_modules(36) == 24272) by (nonlinear_arith);
        assert(spec_num_raw_codewords(36) == 3034);
        assert(spec_num_data_codewords(36, 3) == 1054) by (nonlinear_arith)
            requires
                spec_num_raw_codewords(36) == 3034,
                spec_num_blocks(3, 36) == 66,
                spec_ecc_per_block(3, 36) == 30,
        ;
        assert(3034int / 66int == 45int);
    } else if v == 37 {
        assert(spec_num_blocks(3, 37) == 70 && spec_ecc_per_block(3, 37) == 30);
        assert(spec_num_raw_data_modules(37) == 25568) by (nonlinear_arith);
        assert(spec_num_raw_codewords(37) == 3196);
        assert(spec_num_data_codewords(37, 3) == 1096) by (nonlinear_arith)
            requires
                spec_num_raw_codewords(37) == 3196,
                spec_num_blocks(3, 37) == 70,
                spec_ecc_per_block(3, 37) == 30,
        ;
        assert(3196int / 70int == 45int);
    } else if v == 38 {
        assert(spec_num_blocks(3, 38) == 74 && spec_ecc_per_block(3, 38) == 30);
        assert(spec_num_raw_data_modules(38) == 26896) by (nonlinear_arith);
        assert(spec_num_raw_codewords(38) == 3362);
        assert(spec_num_data_codewords(38, 3) == 1142) by (nonlinear_arith)
            requires
                spec_num_raw_codewords(38) == 3362,
                spec_num_blocks(3, 38) == 74,
                spec_ecc_per_block(3, 38) == 30,
        ;
        assert(3362int / 74int == 45int);
    } else if v == 39 {
        assert(spec_num_blocks(3, 39) == 77 && spec_ecc_per_block(3, 39) == 30);
        assert(spec_num_raw_data_modules(39) == 28256) by (nonlinear_arith);
        assert(spec_num_raw_codewords(39) == 3532);
        assert(spec_num_data_codewords(39, 3) == 1222) by (nonlinear_arith)
            requires
                spec_num_raw_codewords(39) == 3532,
                spec_num_blocks(3, 39) == 77,
                spec_ecc_per_block(3, 39) == 30,
        ;
        assert(3532int / 77int == 45int);
    } else if v == 40 {
        assert(spec_num_blocks(3, 40) == 81 && spec_ecc_per_block(3, 40) == 30);
        assert(spec_num_raw_data_modules(40) == 29648) by (nonlinear_arith);
        assert(spec_num_raw_codewords(40) == 3706);
        assert(spec_num_data_codewords(40, 3) == 1276) by (nonlinear_arith)
            requires
                spec_num_raw_codewords(40) == 3706,
                spec_num_blocks(3, 40) == 81,
                spec_ecc_per_block(3, 40) == 30,
        ;
        assert(3706int / 81int == 45int);
    }
}

/// Facts of the capacity tables that the encoder relies on.
pub proof fn lemma_table_facts(e: int, v: int)
    requires
        0 <= e < 4,
        1 <= v <= 40,
    ensures
        7 <= spec_ecc_per_block(e, v) <= 30,
        1 <= spec_num_blocks(e, v) <= 81,
        spec_num_raw_codewords(v) / spec_num_blocks(e, v) > spec_ecc_per_block(e, v),
        spec_num_data_codewords(v, e) >= 9,
        spec_num_raw_data_modules(v) <= 29648,
        spec_num_raw_codewords(v) <= 3706,
        spec_num_data_codewords(v, e) <= 3706,
        spec_num_raw_codewords(v) < (spec_size(v) * spec_size(v)) / 8,
{
    if e == 0 {
        lemma_table_facts_level_0(v);
    } else if e == 1 {
        lemma_table_facts_level_1(v);
    } else if e == 2 {
        lemma_table_facts_level_2(v);
    } else {
        lemma_table_facts_level_3(v);
    }
    assert(spec_num_raw_codewords(v) < (spec_size(v) * spec_size(v)) / 8) by (nonlinear_arith)
        requires
            1 <= v <= 40,
            spec_num_raw_data_modules(v) <= (16 * v + 128) * v + 64,
    ;
}

/// Higher levels spend more codewords on error correction, so they leave
/// strictly fewer data codewords: Low > Medium > Quartile > High.
pub proof fn lemma_capacity_by_level(v: int)
    requires
        1 <= v <= 40,
    ensures
        spec_num_data_codewords(v, 0) > spec_num_data_codewords(v, 1),
        spec_num_data_codewords(v, 1) > spec_num_data_codewords(v, 2),
        spec_num_data_codewords(v, 2) > spec_num_data_codewords(v, 3),
{
    if v == 1 {
        assert(spec_ecc_per_block(0, 1) * spec_num_blocks(0, 1) == 7) by (nonlinear_arith)
            requires
                spec_ecc_per_block(0, 1) == 7,
                spec_num_blocks(0, 1) == 1,
        ;
        assert(spec_ecc_per_block(1, 1) * spec_num_blocks(1, 1) == 10) by (nonlinear_arith)
            requires
                spec_ecc_per_block(1, 1) == 10,
                spec_num_blocks(1, 1) == 1,
        ;
        assert(spec_ecc_per_block(2, 1) * spec_num_blocks(2, 1) == 13) by (nonlinear_arith)
            requires
                spec_ecc_per_block(2, 1) == 13,
                spec_num_blocks(2, 1) == 1,
        ;
        assert(spec_ecc_per_block(3, 1) * spec_num_blocks(3, 1) == 17) by (nonlinear_arith)
            requires
                spec_ecc_per_block(3, 1) == 17,
                spec_num_blocks(3, 1) == 1,
        ;
    } else if v == 2 {
        assert(spec_ecc_per_block(0, 2) * spec_num_blocks(0, 2) == 10) by (nonlinear_arith)
            requires
                spec_ecc_per_block(0, 2) == 10,
                spec_num_blocks(0, 2) == 1,
        ;
        assert(spec_ecc_per_block(1, 2) * spec_num_blocks(1, 2) == 16) by (nonlinear_arith)
            requires
                spec_ecc_per_block(1, 2) == 16,
                spec_num_blocks(1, 2) == 1,
        ;
        assert(spec_ecc_per_block(2, 2) * spec_num_blocks(2, 2) == 22) by (nonlinear_arith)
            requires
                spec_ecc_per_block(2, 2) == 22,
                spec_num_blocks(2, 2) == 1,
        ;
        assert(spec_ecc_per_block(3, 2) * spec_num_blocks(3, 2) == 28) by (nonlinear_arith)
            requires
                spec_ecc_per_block(3, 2) == 28,
                spec_num_blocks(3, 2) == 1,
        ;
    } else if v == 3 {
        assert(spec_ecc_per_block(0, 3) * spec_num_blocks(0, 3) == 15) by (nonlinear_arith)
            requires
                spec_ecc_per_block(0, 3) == 15,
                spec_num_blocks(0, 3) == 1,
        ;
        assert(spec_ecc_per_block(1, 3) * spec_num_blocks(1, 3) == 26) by (nonlinear_arith)
            requires
                spec_ecc_per_block(1, 3) == 26,
                spec_num_blocks(1, 3) == 1,
        ;
        assert(spec_ecc_per_block(2, 3) * spec_num_blocks(2, 3) == 36) by (nonlinear_arith)
            requires
                spec_ecc_per_block(2, 3) == 18,
                spec_num_blocks(2, 3) == 2,
        ;
        assert(spec_ecc_per_block(3, 3) * spec_num_blocks(3, 3) == 44) by (nonlinear_arith)
            requires
                spec_ecc_per_block(3, 3) == 22,
                spec_num_blocks(3, 3) == 2,
        ;
    } else if v == 4 {
        assert(spec_ecc_per_block(0, 4) * spec_num_blocks(0, 4) == 20) by (nonlinear_arith)
            requires
                spec_ecc_per_block(0, 4) == 20,
                spec_num_blocks(0, 4) == 1,
        ;
        assert(spec_ecc_per_block(1, 4) * spec_num_blocks(1, 4) == 36) by (nonlinear_arith)
            requires
                spec_ecc_per_block(1, 4) == 18,
                spec_num_blocks(1, 4) == 2,
        ;
        assert(spec_ecc_per_block(2, 4) * spec_num_blocks(2, 4) == 52) by (nonlinear_arith)
            requires
                spec_ecc_per_block(2, 4) == 26,
                spec_num_blocks(2, 4) == 2,
        ;
        assert(spec_ecc_per_block(3, 4) * spec_num_blocks(3, 4) == 64) by (nonlinear_arith)
            requires
                spec_ecc_per_block(3, 4) == 16,
                spec_num_blocks(3, 4) == 4,
        ;
    } else if v == 5 {
        assert(spec_ecc_per_block(0, 5) * spec_num_blocks(0, 5) == 26) by (nonlinear_arith)
            requires
                spec_ecc_per_block(0, 5) == 26,
                spec_num_blocks(0, 5) == 1,
        ;
        assert(spec_ecc_per_block(1, 5) * spec_num_blocks(1, 5) == 48) by (nonlinear_arith)
            requires
                spec_ecc_per_block(1, 5) == 24,
                spec_num_blocks(1, 5) == 2,
        ;
        assert(spec_ecc_per_block(2, 5) * spec_num_blocks(2, 5) == 72) by (nonlinear_arith)
            requires
                spec_ecc_per_block(2, 5) == 18,
                spec_num_blocks(2, 5) == 4,
        ;
        assert(spec_ecc_per_block(3, 5) * spec_num_blocks(3, 5) == 88) by (nonlinear_arith)
            requires
                spec_ecc_per_block(3, 5) == 22,
                spec_num_blocks(3, 5) == 4,
        ;
    } else if v == 6 {
        assert(spec_ecc_per_block(0, 6) * spec_num_blocks(0, 6) == 36) by (nonlinear_arith)
            requires
                spec_ecc_per_block(0, 6) == 18,
                spec_num_blocks(0, 6) == 2,
        ;
        assert(spec_ecc_per_block(1, 6) * spec_num_blocks(1, 6) == 64) by (nonlinear_arith)
            requires
                spec_ecc_per_block(1, 6) == 16,
                spec_num_blocks(1, 6) == 4,
        ;
        assert(spec_ecc_per_block(2, 6) * spec_num_blocks(2, 6) == 96) by (nonlinear_arith)
            requires
                spec_ecc_per_block(2, 6) == 24,
                spec_num_blocks(2, 6) == 4,
        ;
        assert(spec_ecc_per_block(3, 6) * spec_num_blocks(3, 6) == 112) by (nonlinear_arith)
            requires
                spec_ecc_per_block(3, 6) == 28,
                spec_num_blocks(3, 6) == 4,
        ;
    } else if v == 7 {
        assert(spec_ecc_per_block(0, 7) * spec_num_blocks(0, 7) == 40) by (nonlinear_arith)
            requires
                spec_ecc_per_block(0, 7) == 20,
                spec_num_blocks(0, 7) == 2,
        ;
        assert(spec_ecc_per_block(1, 7) * spec_num_blocks(1, 7) == 72) by (nonlinear_arith)
            requires
                spec_ecc_per_block(1, 7) == 18,
                spec_num_blocks(1, 7) == 4,
        ;
        assert(spec_ecc_per_block(2, 7) * spec_num_blocks(2, 7) == 108) by (nonlinear_arith)
            requires
                spec_ecc_per_block(2, 7) == 18,
                spec_num_blocks(2, 7) == 6,
        ;
        assert(spec_ecc_per_block(3, 7) * spec_num_blocks(3, 7) == 130) by (nonlinear_arith)
            requires
                spec_ecc_per_block(3, 7) == 26,
                spec_num_blocks(3, 7) == 5,
        ;
    } else if v == 8 {
        assert(spec_ecc_per_block(0, 8) * spec_num_blocks(0, 8) == 48) by (nonlinear_arith)
            requires
                spec_ecc_per_block(0, 8) == 24,
                spec_num_blocks(0, 8) == 2,
        ;
        assert(spec_ecc_per_block(1, 8) * spec_num_blocks(1, 8) == 88) by (nonlinear_arith)
            requires
                spec_ecc_per_block(1, 8) == 22,
                spec_num_blocks(1, 8) == 4,
        ;
        assert(spec_ecc_per_block(2, 8) * spec_num_blocks(2, 8) == 132) by (nonlinear_arith)
            requires
                spec_ecc_per_block(2, 8) == 22,
                spec_num_blocks(2, 8) == 6,
        ;
        assert(spec_ecc_per_block(3, 8) * spec_num_blocks(3, 8) == 156) by (nonlinear_arith)
            requires
                spec_ecc_per_block(3, 8) == 26,
                spec_num_blocks(3, 8) == 6,
        ;
    } else if v == 9 {
        assert(spec_ecc_per_block(0, 9) * spec_num_blocks(0, 9) == 60) by (nonlinear_arith)
            requires
                spec_ecc_per_block(0, 9) == 30,
                spec_num_blocks(0, 9) == 2,
        ;
        assert(spec_ecc_per_block(1, 9) * spec_num_blocks(1, 9) == 110) by (nonlinear_arith)
            requires
                spec_ecc_per_block(1, 9) == 22,
                spec_num_blocks(1, 9) == 5,
        ;
        assert(spec_ecc_per_block(2, 9) * spec_num_blocks(2, 9) == 160) by (nonlinear_arith)
            requires
                spec_ecc_per_block(2, 9) == 20,
                spec_num_blocks(2, 9) == 8,
        ;
        assert(spec_ecc_per_block(3, 9) * spec_num_blocks(3, 9) == 192) by (nonlinear_arith)
            requires
                spec_ecc_per_block(3, 9) == 24,
                spec_num_blocks(3, 9) == 8,
        ;
    } else if v == 10 {
        assert(spec_ecc_per_block(0, 10) * spec_num_blocks(0, 10) == 72) by (nonlinear_arith)
            requires
                spec_ecc_per_block(0, 10) == 18,
                spec_num_blocks(0, 10) == 4,
        ;
        assert(spec_ecc_per_block(1, 10) * spec_num_blocks(1, 10) == 130) by (nonlinear_arith)
            requires
                spec_ecc_per_block(1, 10) == 26,
                spec_num_blocks(1, 10) == 5,
        ;
        assert(spec_ecc_per_block(2, 10) * spec_num_blocks(2, 10) == 192) by (nonlinear_arith)
            requires
                spec_ecc_per_block(2, 10) == 24,
                spec_num_blocks(2, 10) == 8,
        ;
        assert(spec_ecc_per_block(3, 10) * spec_num_blocks(3, 10) == 224) by (nonlinear_arith)
            requires
                spec_ecc_per_block(3, 10) == 28,
                spec_num_blocks(3, 10) == 8,
        ;
    } else if v == 11 {
        assert(spec_ecc_per_block(0, 11) * spec_num_blocks(0, 11) == 80) by (nonlinear_arith)
            requires
                spec_ecc_per_block(0, 11) == 20,
                spec_num_blocks(0, 11) == 4,
        ;
        assert(spec_ecc_per_block(1, 11) * spec_num_blocks(1, 11) == 150) by (nonlinear_arith)
            requires
                spec_ecc_per_block(1, 11) == 30,
                spec_num_blocks(1, 11) == 5,
        ;
        assert(spec_ecc_per_block(2, 11) * spec_num_blocks(2, 11) == 224) by (nonlinear_arith)
            requires
                spec_ecc_per_block(2, 11) == 28,
                spec_num_blocks(2, 11) == 8,
        ;
        assert(spec_ecc_per_block(3, 11) * spec_num_blocks(3, 11) == 264) by (nonlinear_arith)
            requires
                spec_ecc_per_block(3, 11) == 24,
                spec_num_blocks(3, 11) == 11,
        ;
    } else if v == 12 {
        assert(spec_ecc_per_block(0, 12) * spec_num_blocks(0, 12) == 96) by (nonlinear_arith)
            requires
                spec_ecc_per_block(0, 12) == 24,
                spec_num_blocks(0, 12) == 4,
        ;
        assert(spec_ecc_per_block(1, 12) * spec_num_blocks(1, 12) == 176) by (nonlinear_arith)
            requires
                spec_ecc_per_block(1, 12) == 22,
                spec_num_blocks(1, 12) == 8,
        ;
        assert(spec_ecc_per_block(2, 12) * spec_num_blocks(2, 12) == 260) by (nonlinear_arith)
            requires
                spec_ecc_per_block(2, 12) == 26,
                spec_num_blocks(2, 12) == 10,
        ;
        assert(spec_ecc_per_block(3, 12) * spec_num_blocks(3, 12) == 308) by (nonlinear_arith)
            requires
                spec_ecc_per_block(3, 12) == 28,
                spec_num_blocks(3, 12) == 11,
        ;
    } else if v == 13 {
        assert(spec_ecc_per_block(0, 13) * spec_num_blocks(0, 13) == 104) by (nonlinear_arith)
            requires
                spec_ecc_per_block(0, 13) == 26,
                spec_num_blocks(0, 13) == 4,
        ;
        assert(spec_ecc_per_block(1, 13) * spec_num_blocks(1, 13) == 198) by (nonlinear_arith)
            requires
                spec_ecc_per_block(1, 13) == 22,
                spec_num_blocks(1, 13) == 9,
        ;
        assert(spec_ecc_per_block(2, 13) * spec_num_blocks(2, 13) == 288) by (nonlinear_arith)
            requires
                spec_ecc_per_block(2, 13) == 24,
                spec_num_blocks(2, 13) == 12,
        ;
        assert(spec_ecc_per_block(3, 13) * spec_num_blocks(3, 13) == 352) by (nonlinear_arith)
            requires
                spec_ecc_per_block(3, 13) == 22,
                spec_num_blocks(3, 13) == 16,
        ;
    } else if v == 14 {
        assert(spec_ecc_per_block(0, 14) * spec_num_blocks(0, 14) == 120) by (nonlinear_arith)
            requires
                spec_ecc_per_block(0, 14) == 30,
                spec_num_blocks(0, 14) == 4,
        ;
        assert(spec_ecc_per_block(1, 14) * spec_num_blocks(1, 14) == 216) by (nonlinear_arith)
            requires
                spec_ecc_per_block(1, 14) == 24,
                spec_num_blocks(1, 14) == 9,
        ;
        assert(spec_ecc_per_block(2, 14) * spec_num_blocks(2, 14) == 320) by (nonlinear_arith)
            requires
                spec_ecc_per_block(2, 14) == 20,
                spec_num_blocks(2, 14) == 16,
        ;
        assert(spec_ecc_per_block(3, 14) * spec_num_blocks(3, 14) == 384) by (nonlinear_arith)
            requires
                spec_ecc_per_block(3, 14) == 24,
                spec_num_blocks(3, 14) == 16,
        ;
    } else if v == 15 {
        assert(spec_ecc_per_block(0, 15) * spec_num_blocks(0, 15) == 132) by (nonlinear_arith)
            requires
                spec_ecc_per_block(0, 15) == 22,
                spec_num_blocks(0, 15) == 6,
        ;
        assert(spec_ecc_per_block(1, 15) * spec_num_blocks(1, 15) == 240) by (nonlinear_arith)
            requires
                spec_ecc_per_block(1, 15) == 24,
                spec_num_blocks(1, 15) == 10,
        ;
        assert(spec_ecc_per_block(2, 15) * spec_num_blocks(2, 15) == 360) by (nonlinear_arith)
            requires
                spec_ecc_per_block(2, 15) == 30,
                spec_num_blocks(2, 15) == 12,
        ;
        assert(spec_ecc_per_block(3, 15) * spec_num_blocks(3, 15) == 432) by (nonlinear_arith)
            requires
                spec_ecc_per_block(3, 15) == 24,
                spec_num_blocks(3, 15) == 18,
        ;
    } else if v == 16 {
        assert(spec_ecc_per_block(0, 16) * spec_num_blocks(0, 16) == 144) by (nonlinear_arith)
            requires
                spec_ecc_per_block(0, 16) == 24,
                spec_num_blocks(0, 16) == 6,
        ;
        assert(spec_ecc_per_block(1, 16) * spec_num_blocks(1, 16) == 280) by (nonlinear_arith)
            requires
                spec_ecc_per_block(1, 16) == 28,
                spec_num_blocks(1, 16) == 10,
        ;
        assert(spec_ecc_per_block(2, 16) * spec_num_blocks(2, 16) == 408) by (nonlinear_arith)
            requires
                spec_ecc_per_block(2, 16) == 24,
                spec_num_blocks(2, 16) == 17,
        ;
        assert(spec_ecc_per_block(3, 16) * spec_num_blocks(3, 16) == 480) by (nonlinear_arith)
            requires
                spec_ecc_per_block(3, 16) == 30,
                spec_num_blocks(3, 16) == 16,
        ;
    } else if v == 17 {
        assert(spec_ecc_per_block(0, 17) * spec_num_blocks(0, 17) == 168) by (nonlinear_arith)
            requires
                spec_ecc_per_block(0, 17) == 28,
                spec_num_blocks(0, 17) == 6,
        ;
        assert(spec_ecc_per_block(1, 17) * spec_num_blocks(1, 17) == 308) by (nonlinear_arith)
            requires
                spec_ecc_per_block(1, 17) == 28,
                spec_num_blocks(1, 17) == 11,
        ;
        assert(spec_ecc_per_block(2, 17) * spec_num_blocks(2, 17) == 448) by (nonlinear_arith)
            requires
                spec_ecc_per_block(2, 17) == 28,
                spec_num_blocks(2, 17) == 16,
        ;
        assert(spec_ecc_per_block(3, 17) * spec_num_blocks(3, 17) == 532) by (nonlinear_arith)
            requires
                spec_ecc_per_block(3, 17) == 28,
                spec_num_blocks(3, 17) == 19,
        ;
    } else if v == 18 {
        assert(spec_ecc_per_block(0, 18) * spec_num_blocks(0, 18) == 180) by (nonlinear_arith)
            requires
                spec_ecc_per_block(0, 18) == 30,
                spec_num_blocks(0, 18) == 6,
        ;
        assert(spec_ecc_per_block(1, 18) * spec_num_blocks(1, 18) == 338) by (nonlinear_arith)
            requires
                spec_ecc_per_block(1, 18) == 26,
                spec_num_blocks(1, 18) == 13,
        ;
        assert(spec_ecc_per_block(2, 18) * spec_num_blocks(2, 18) == 504) by (nonlinear_arith)
            requires
                spec_ecc_per_block(2, 18) == 28,
                spec_num_blocks(2, 18) == 18,
        ;
        assert(spec_ecc_per_block(3, 18) * spec_num_blocks(3, 18) == 588) by (nonlinear_arith)
            requires
                spec_ecc_per_block(3, 18) == 28,
                spec_num_blocks(3, 18) == 21,
        ;
    } else if v == 19 {
        assert(spec_ecc_per_block(0, 19) * spec_num_blocks(0, 19) == 196) by (nonlinear_arith)
            requires
                spec_ecc_per_block(0, 19) == 28,
                spec_num_blocks(0, 19) == 7,
        ;
        assert(spec_ecc_per_block(1, 19) * spec_num_blocks(1, 19) == 364) by (nonlinear_arith)
            requires
                spec_ecc_per_block(1, 19) == 26,
                spec_num_blocks(1, 19) == 14,
        ;
        assert(spec_ecc_per_block(2, 19) * spec_num_blocks(2, 19) == 546) by (nonlinear_arith)
            requires
                spec_ecc_per_block(2, 19) == 26,
                spec_num_blocks(2, 19) == 21,
        ;
        assert(spec_ecc_per_block(3, 19) * spec_num_blocks(3, 19) == 650) by (nonlinear_arith)
            requires
                spec_ecc_per_block(3, 19) == 26,
                spec_num_blocks(3, 19) == 25,
        ;
    } else if v == 20 {
        assert(spec_ecc_per_block(0, 20) * spec_num_blocks(0, 20) == 224) by (nonlinear_arith)
            requires
                spec_ecc_per_block(0, 20) == 28,
                spec_num_blocks(0, 20) == 8,
        ;
        assert(spec_ecc_per_block(1, 20) * spec_num_blocks(1, 20) == 416) by (nonlinear_arith)
            requires
                spec_ecc_per_block(1, 20) == 26,
                spec_num_blocks(1, 20) == 16,
        ;
        assert(spec_ecc_per_block(2, 20) * spec_num_blocks(2, 20) == 600) by (nonlinear_arith)
            requires
                spec_ecc_per_block(2, 20) == 30,
                spec_num_blocks(2, 20) == 20,
        ;
        assert(spec_ecc_per_block(3, 20) * spec_num_blocks(3, 20) == 700) by (nonlinear_arith)
            requires
                spec_ecc_per_block(3, 20) == 28,
                spec_num_blocks(3, 20) == 25,
        ;
    } else if v == 21 {
        assert(spec_ecc_per_block(0, 21) * spec_num_blocks(0, 21) == 224) by (nonlinear_arith)
            requires
                spec_ecc_per_block(0, 21) == 28,
                spec_num_blocks(0, 21) == 8,
        ;
        assert(spec_ecc_per_block(1, 21) * spec_num_blocks(1, 21) == 442) by (nonlinear_arith)
            requires
                spec_ecc_per_block(1, 21) == 26,
                spec_num_blocks(1, 21) == 17,
        ;
        assert(spec_ecc_per_block(2, 21) * spec_num_blocks(2, 21) == 644) by (nonlinear_arith)
            requires
                spec_ecc_per_block(2, 21) == 28,
                spec_num_blocks(2, 21) == 23,
        ;
        assert(spec_ecc_per_block(3, 21) * spec_num_blocks(3, 21) == 750) by (nonlinear_arith)
            requires
                spec_ecc_per_block(3, 21) == 30,
                spec_num_blocks(3, 21) == 25,
        ;
    } else if v == 22 {
        assert(spec_ecc_per_block(0, 22) * spec_num_blocks(0, 22) == 252) by (nonlinear_arith)
            requires
                spec_ecc_per_block(0, 22) == 28,
                spec_num_blocks(0, 22) == 9,
        ;
        assert(spec_ecc_per_block(1, 22) * spec_num_blocks(1, 22) == 476) by (nonlinear_arith)
            requires
                spec_ecc_per_block(1, 22) == 28,
                spec_num_blocks(1, 22) == 17,
        ;
        assert(spec_ecc_per_block(2, 22) * spec_num_blocks(2, 22) == 690) by (nonlinear_arith)
            requires
                spec_ecc_per_block(2, 22) == 30,
                spec_num_blocks(2, 22) == 23,
        ;
        assert(spec_ecc_per_block(3, 22) * spec_num_blocks(3, 22) == 816) by (nonlinear_arith)
            requires
                spec_ecc_per_block(3, 22) == 24,
                spec_num_blocks(3, 22) == 34,
        ;
    } else if v == 23 {
        assert(spec_ecc_per_block(0, 23) * spec_num_blocks(0, 23) == 270) by (nonlinear_arith)
            requires
                spec_ecc_per_block(0, 23) == 30,
                spec_num_blocks(0, 23) == 9,
        ;
        assert(spec_ecc_per_block(1, 23) * spec_num_blocks(1, 23) == 504) by (nonlinear_arith)
            requires
                spec_ecc_per_block(1, 23) == 28,
                spec_num_blocks(1, 23) == 18,
        ;
        assert(spec_ecc_per_block(2, 23) * spec_num_blocks(2, 23) == 750) by (nonlinear_arith)
            requires
                spec_ecc_per_block(2, 23) == 30,
                spec_num_blocks(2, 23) == 25,
        ;
        assert(spec_ecc_per_block(3, 23) * spec_num_blocks(3, 23) == 900) by (nonlinear_arith)
            requires
                spec_ecc_per_block(3, 23) == 30,
                spec_num_blocks(3, 23) == 30,
        ;
    } else if v == 24 {
        assert(spec_ecc_per_block(0, 24) * spec_num_blocks(0, 24) == 300) by (nonlinear_arith)
            requires
                spec_ecc_per_block(0, 24) == 30,
                spec_num_blocks(0, 24) == 10,
        ;
        assert(spec_ecc_per_block(1, 24) * spec_num_blocks(1, 24) == 560) by (nonlinear_arith)
            requires
                spec_ecc_per_block(1, 24) == 28,
                spec_num_blocks(1, 24) == 20,
        ;
        assert(spec_ecc_per_block(2, 24) * spec_num_blocks(2, 24) == 810) by (nonlinear_arith)
            requires
                spec_ecc_per_block(2, 24) == 30,
                spec_num_blocks(2, 24) == 27,
        ;
        assert(spec_ecc_per_block(3, 24) * spec_num_blocks(3, 24) == 960) by (nonlinear_arith)
            requires
                spec_ecc_per_block(3, 24) == 30,
                spec_num_blocks(3, 24) == 32,
        ;
    } else if v == 25 {
        assert(spec_ecc_per_block(0, 25) * spec_num_blocks(0, 25) == 312) by (nonlinear_arith)
            requires
                spec_ecc_per_block(0, 25) == 26,
                spec_num_blocks(0, 25) == 12,
        ;
        assert(spec_ecc_per_block(1, 25) * spec_num_blocks(1, 25) == 588) by (nonlinear_arith)
            requires
                spec_ecc_per_block(1, 25) == 28,
                spec_num_blocks(1, 25) == 21,
        ;
        assert(spec_ecc_per_block(2, 25) * spec_num_blocks(2, 25) == 870) by (nonlinear_arith)
            requires
                spec_ecc_per_block(2, 25) == 30,
                spec_num_blocks(2, 25) == 29,
        ;
        assert(spec_ecc_per_block(3, 25) * spec_num_blocks(3, 25) == 1050) by (nonlinear_arith)
            requires
                spec_ecc_per_block(3, 25) == 30,
                spec_num_blocks(3, 25) == 35,
        ;
    } else if v == 26 {
        assert(spec_ecc_per_block(0, 26) * spec_num_blocks(0, 26) == 336) by (nonlinear_arith)
            requires
                spec_ecc_per_block(0, 26) == 28,
                spec_num_blocks(0, 26) == 12,
        ;
        assert(spec_ecc_per_block(1, 26) * spec_num_blocks(1, 26) == 644) by (nonlinear_arith)
            requires
                spec_ecc_per_block(1, 26) == 28,
                spec_num_blocks(1, 26) == 23,
        ;
        assert(spec_ecc_per_block(2, 26) * spec_num_blocks(2, 26) == 952) by (nonlinear_arith)
            requires
                spec_ecc_per_block(2, 26) == 28,
                spec_num_blocks(2, 26) == 34,
        ;
        assert(spec_ecc_per_block(3, 26) * spec_num_blocks(3, 26) == 1110) by (nonlinear_arith)
            requires
                spec_ecc_per_block(3, 26) == 30,
                spec_num_blocks(3, 26) == 37,
        ;
    } else if v == 27 {
        assert(spec_ecc_per_block(0, 27) * spec_num_blocks(0, 27) == 360) by (nonlinear_arith)
            requires
                spec_ecc_per_block(0, 27) == 30,
                spec_num_blocks(0, 27) == 12,
        ;
        assert(spec_ecc_per_block(1, 27) * spec_num_blocks(1, 27) == 700) by (nonlinear_arith)
            requires
                spec_ecc_per_block(1, 27) == 28,
                spec_num_blocks(1, 27) == 25,
        ;
        assert(spec_ecc_per_block(2, 27) * spec_num_blocks(2, 27) == 1020) by (nonlinear_arith)
            requires
                spec_ecc_per_block(2, 27) == 30,
                spec_num_blocks(2, 27) == 34,
        ;
        assert(spec_ecc_per_block(3, 27) * spec_num_blocks(3, 27) == 1200) by (nonlinear_arith)
            requires
                spec_ecc_per_block(3, 27) == 30,
                spec_num_blocks(3, 27) == 40,
        ;
    } else if v == 28 {
        assert(spec_ecc_per_block(0, 28) * spec_num_blocks(0, 28) == 390) by (nonlinear_arith)
            requires
                spec_ecc_per_block(0, 28) == 30,
                spec_num_blocks(0, 28) == 13,
        ;
        assert(spec_ecc_per_block(1, 28) * spec_num_blocks(1, 28) == 728) by (nonlinear_arith)
            requires
                spec_ecc_per_block(1, 28) == 28,
                spec_num_blocks(1, 28) == 26,
        ;
        assert(spec_ecc_per_block(2, 28) * spec_num_blocks(2, 28) == 1050) by (nonlinear_arith)
            requires
                spec_ecc_per_block(2, 28) == 30,
                spec_num_blocks(2, 28) == 35,
        ;
        assert(spec_ecc_per_block(3, 28) * spec_num_blocks(3, 28) == 1260) by (nonlinear_arith)
            requires
                spec_ecc_per_block(3, 28) == 30,
                spec_num_blocks(3, 28) == 42,
        ;
    } else if v == 29 {
        assert(spec_ecc_per_block(0, 29) * spec_num_blocks(0, 29) == 420) by (nonlinear_arith)
            requires
                spec_ecc_per_block(0, 29) == 30,
                spec_num_blocks(0, 29) == 14,
        ;
        assert(spec_ecc_per_block(1, 29) * spec_num_blocks(1, 29) == 784) by (nonlinear_arith)
            requires
                spec_ecc_per_block(1, 29) == 28,
                spec_num_blocks(1, 29) == 28,
        ;
        assert(spec_ecc_per_block(2, 29) * spec_num_blocks(2, 29) == 1140) by (nonlinear_arith)
            requires
                spec_ecc_per_block(2, 29) == 30,
                spec_num_blocks(2, 29) == 38,
        ;
        assert(spec_ecc_per_block(3, 29) * spec_num_blocks(3, 29) == 1350) by (nonlinear_arith)
            requires
                spec_ecc_per_block(3, 29) == 30,
                spec_num_blocks(3, 29) == 45,
        ;
    } else if v == 30 {
        assert(spec_ecc_per_block(0, 30) * spec_num_blocks(0, 30) == 450) by (nonlinear_arith)
            requires
                spec_ecc_per_block(0, 30) == 30,
                spec_num_blocks(0, 30) == 15,
        ;
        assert(spec_ecc_per_block(1, 30) * spec_num_blocks(1, 30) == 812) by (nonlinear_arith)
            requires
                spec_ecc_per_block(1, 30) == 28,
                spec_num_blocks(1, 30) == 29,
        ;
        assert(spec_ecc_per_block(2, 30) * spec_num_blocks(2, 30) == 1200) by (nonlinear_arith)
            requires
                spec_ecc_per_block(2, 30) == 30,
                spec_num_blocks(2, 30) == 40,
        ;
        assert(spec_ecc_per_block(3, 30) * spec_num_blocks(3, 30) == 1440) by (nonlinear_arith)
            requires
                spec_ecc_per_block(3, 30) == 30,
                spec_num_blocks(3, 30) == 48,
        ;
    } else if v == 31 {
        assert(spec_ecc_per_block(0, 31) * spec_num_blocks(0, 31) == 480) by (nonlinear_arith)
            requires
                spec_ecc_per_block(0, 31) == 30,
                spec_num_blocks(0, 31) == 16,
        ;
        assert(spec_ecc_per_block(1, 31) * spec_num_blocks(1, 31) == 868) by (nonlinear_arith)
            requires
                spec_ecc_per_block(1, 31) == 28,
                spec_num_blocks(1, 31) == 31,
        ;
        assert(spec_ecc_per_block(2, 31) * spec_num_blocks(2, 31) == 1290) by (nonlinear_arith)
            requires
                spec_ecc_per_block(2, 31) == 30,
                spec_num_blocks(2, 31) == 43,
        ;
        assert(spec_ecc_per_block(3, 31) * spec_num_blocks(3, 31) == 1530) by (nonlinear_arith)
            requires
                spec_ecc_per_block(3, 31) == 30,
                spec_num_blocks(3, 31) == 51,
        ;
    } else if v == 32 {
        assert(spec_ecc_per_block(0, 32) * spec_num_blocks(0, 32) == 510) by (nonlinear_arith)
            requires
                spec_ecc_per_block(0, 32) == 30,
                spec_num_blocks(0, 32) == 17,
        ;
        assert(spec_ecc_per_block(1, 32) * spec_num_blocks(1, 32) == 924) by (nonlinear_arith)
            requires
                spec_ecc_per_block(1, 32) == 28,
                spec_num_blocks(1, 32) == 33,
        ;
        assert(spec_ecc_per_block(2, 32) * spec_num_blocks(2, 32) == 1350) by (nonlinear_arith)
            requires
                spec_ecc_per_block(2, 32) == 30,
                spec_num_blocks(2, 32) == 45,
        ;
        assert(spec_ecc_per_block(3, 32) * spec_num_blocks(3, 32) == 1620) by (nonlinear_arith)
            requires
                spec_ecc_per_block(3, 32) == 30,
                spec_num_blocks(3, 32) == 54,
        ;
    } else if v == 33 {
        assert(spec_ecc_per_block(0, 33) * spec_num_blocks(0, 33) == 540) by (nonlinear_arith)
            requires
                spec_ecc_per_block(0, 33) == 30,
                spec_num_blocks(0, 33) == 18,
        ;
        assert(spec_ecc_per_block(1, 33) * spec_num_blocks(1, 33) == 980) by (nonlinear_arith)
            requires
                spec_ecc_per_block(1, 33) == 28,
                spec_num_blocks(1, 33) == 35,
        ;
        assert(spec_ecc_per_block(2, 33) * spec_num_blocks(2, 33) == 1440) by (nonlinear_arith)
            requires
                spec_ecc_per_block(2, 33) == 30,
                spec_num_blocks(2, 33) == 48,
        ;
        assert(spec_ecc_per_block(3, 33) * spec_num_blocks(3, 33) == 1710) by (nonlinear_arith)
            requires
                spec_ecc_per_block(3, 33) == 30,
                spec_num_blocks(3, 33) == 57,
        ;
    } else if v == 34 {
        assert(spec_ecc_per_block(0, 34) * spec_num_blocks(0, 34) == 570) by (nonlinear_arith)
            requires
                spec_ecc_per_block(0, 34) == 30,
                spec_num_blocks(0, 34) == 19,
        ;
        assert(spec_ecc_per_block(1, 34) * spec_num_blocks(1, 34) == 1036) by (nonlinear_arith)
            requires
                spec_ecc_per_block(1, 34) == 28,
                spec_num_blocks(1, 34) == 37,
        ;
        assert(spec_ecc_per_block(2, 34) * spec_num_blocks(2, 34) == 1530) by (nonlinear_arith)
            requires
                spec_ecc_per_block(2, 34) == 30,
                spec_num_blocks(2, 34) == 51,
        ;
        assert(spec_ecc_per_block(3, 34) * spec_num_blocks(3, 34) == 1800) by (nonlinear_arith)
            requires
                spec_ecc_per_block(3, 34) == 30,
                spec_num_blocks(3, 34) == 60,
        ;
    } else if v == 35 {
        assert(spec_ecc_per_block(0, 35) * spec_num_blocks(0, 35) == 570) by (nonlinear_arith)
            requires
                spec_ecc_per_block(0, 35) == 30,
                spec_num_blocks(0, 35) == 19,
        ;
        assert(spec_ecc_per_block(1, 35) * spec_num_blocks(1, 35) == 1064) by (nonlinear_arith)
            requires
                spec_ecc_per_block(1, 35) == 28,
                spec_num_blocks(1, 35) == 38,
        ;
        assert(spec_ecc_per_block(2, 35) * spec_num_blocks(2, 35) == 1590) by (nonlinear_arith)
            requires
                spec_ecc_per_block(2, 35) == 30,
                spec_num_blocks(2, 35) == 53,
        ;
        assert(spec_ecc_per_block(3, 35) * spec_num_blocks(3, 35) == 1890) by (nonlinear_arith)
            requires
                spec_ecc_per_block(3, 35) == 30,
                spec_num_blocks(3, 35) == 63,
        ;
    } else if v == 36 {
        assert(spec_ecc_per_block(0, 36) * spec_num_blocks(0, 36) == 600) by (nonlinear_arith)
            requires
                spec_ecc_per_block(0, 36) == 30,
                spec_num_blocks(0, 36) == 20,
        ;
        assert(spec_ecc_per_block(1, 36) * spec_num_blocks(1, 36) == 1120) by (nonlinear_arith)
            requires
                spec_ecc_per_block(1, 36) == 28,
                spec_num_blocks(1, 36) == 40,
        ;
        assert(spec_ecc_per_block(2, 36) * spec_num_blocks(2, 36) == 1680) by (nonlinear_arith)
            requires
                spec_ecc_per_block(2, 36) == 30,
                spec_num_blocks(2, 36) == 56,
        ;
        assert(spec_ecc_per_block(3, 36) * spec_num_blocks(3, 36) == 1980) by (nonlinear_arith)
            requires
                spec_ecc_per_block(3, 36) == 30,
                spec_num_blocks(3, 36) == 66,
        ;
    } else if v == 37 {
        assert(spec_ecc_per_block(0, 37) * spec_num_blocks(0, 37) == 630) by (nonlinear_arith)
            requires
                spec_ecc_per_block(0, 37) == 30,
                spec_num_blocks(0, 37) == 21,
        ;
        assert(spec_ecc_per_block(1, 37) * spec_num_blocks(1, 37) == 1204) by (nonlinear_arith)
            requires
                spec_ecc_per_block(1, 37) == 28,
                spec_num_blocks(1, 37) == 43,
        ;
        assert(spec_ecc_per_block(2, 37) * spec_num_blocks(2, 37) == 1770) by (nonlinear_arith)
            requires
                spec_ecc_per_block(2, 37) == 30,
                spec_num_blocks(2, 37) == 59,
        ;
        assert(spec_ecc_per_block(3, 37) * spec_num_blocks(3, 37) == 2100) by (nonlinear_arith)
            requires
                spec_ecc_per_block(3, 37) == 30,
                spec_num_blocks(3, 37) == 70,
        ;
    } else if v == 38 {
        assert(spec_ecc_per_block(0, 38) * spec_num_blocks(0, 38) == 660) by (nonlinear_arith)
            requires
                spec_ecc_per_block(0, 38) == 30,
                spec_num_blocks(0, 38) == 22,
        ;
        assert(spec_ecc_per_block(1, 38) * spec_num_blocks(1, 38) == 1260) by (nonlinear_arith)
            requires
                spec_ecc_per_block(1, 38) == 28,
                spec_num_blocks(1, 38) == 45,
        ;
        assert(spec_ecc_per_block(2, 38) * spec_num_blocks(2, 38) == 1860) by (nonlinear_arith)
            requires
                spec_ecc_per_block(2, 38) == 30,
                spec_num_blocks(2, 38) == 62,
        ;
        assert(spec_ecc_per_block(3, 38) * spec_num_blocks(3, 38) == 2220) by (nonlinear_arith)
            requires
                spec_ecc_per_block(3, 38) == 30,
                spec_num_blocks(3, 38) == 74,
        ;
    } else if v == 39 {
        assert(spec_ecc_per_block(0, 39) * spec_num_blocks(0, 39) == 720) by (nonlinear_arith)
            requires
                spec_ecc_per_block(0, 39) == 30,
                spec_num_blocks(0, 39) == 24,
        ;
        assert(spec_ecc_per_block(1, 39) * spec_num_blocks(1, 39) == 1316) by (nonlinear_arith)
            requires
                spec_ecc_per_block(1, 39) == 28,
                spec_num_blocks(1, 39) == 47,
        ;
        assert(spec_ecc_per_block(2, 39) * spec_num_blocks(2, 39) == 1950) by (nonlinear_arith)
            requires
                spec_ecc_per_block(2, 39) == 30,
                spec_num_blocks(2, 39) == 65,
        ;
        assert(spec_ecc_per_block(3, 39) * spec_num_blocks(3, 39) == 2310) by (nonlinear_arith)
            requires
                spec_ecc_per_block(3, 39) == 30,
                spec_num_blocks(3, 39) == 77,
        ;
    } else if v == 40 {
        assert(spec_ecc_per_block(0, 40) * spec_num_blocks(0, 40) == 750) by (nonlinear_arith)
            requires
                spec_ecc_per_block(0, 40) == 30,
                spec_num_blocks(0, 40) == 25,
        ;
        assert(spec_ecc_per_block(1, 40) * spec_num_blocks(1, 40) == 1372) by (nonlinear_arith)
            requires
                spec_ecc_per_block(1, 40) == 28,
                spec_num_blocks(1, 40) == 49,
        ;
        assert(spec_ecc_per_block(2, 40) * spec_num_blocks(2, 40) == 2040) by (nonlinear_arith)
            requires
                spec_ecc_per_block(2, 40) == 30,
                spec_num_blocks(2, 40) == 68,
        ;
        assert(spec_ecc_per_block(3, 40) * spec_num_blocks(3, 40) == 2430) by (nonlinear_arith)
            requires
                spec_ecc_per_block(3, 40) == 30,
                spec_num_blocks(3, 40) == 81,
        ;
    }
}

/// Each version has more raw data modules than the one before it.
pub proof fn lemma_raw_modules_increasing(v: int)
    requires
        1 <= v < 40,
    ensures
        spec_num_raw_data_modules(v) < spec_num_raw_data_modules(v + 1),
{
    if v == 1 {
        assert(spec_num_raw_data_modules(1) == 208) by (nonlinear_arith);
        assert(spec_num_raw_data_modules(2) == 359) by (nonlinear_arith);
    } else if v == 2 {
        assert(spec_num_raw_data_modules(2) == 359) by (nonlinear_arith);
        assert(spec_num_raw_data_modules(3) == 567) by (nonlinear_arith);
    } else if v == 3 {
        assert(spec_num_raw_data_modules(3) == 567) by (nonlinear_arith);
        assert(spec_num_raw_data_modules(4) == 807) by (nonlinear_arith);
    } else if v == 4 {
        assert(spec_num_raw_data_modules(4) == 807) by (nonlinear_arith);
        assert(spec_num_raw_data_modules(5) == 1079) by (nonlinear_arith);
    } else if v == 5 {
        assert(spec_num_raw_data_modules(5) == 1079) by (nonlinear_arith);
        assert(spec_num_raw_data_modules(6) == 1383) by (nonlinear_arith);
    } else if v == 6 {
        assert(spec_num_raw_data_modules(6) == 1383) by (nonlinear_arith);
        assert(spec_num_raw_data_modules(7) == 1568) by (nonlinear_arith);
    } else if v == 7 {
        assert(spec_num_raw_data_modules(7) == 1568) by (nonlinear_arith);
        assert(spec_num_raw_data_modules(8) == 1936) by (nonlinear_arith);
    } else if v == 8 {
        assert(spec_num_raw_data_modules(8) == 1936) by (nonlinear_arith);
        assert(spec_num_raw_data_modules(9) == 2336) by (nonlinear_arith);
    } else if v == 9 {
        assert(spec_num_raw_data_modules(9) == 2336) by (nonlinear_arith);
        assert(spec_num_raw_data_modules(10) == 2768) by (nonlinear_arith);
    } else if v == 10 {
        assert(spec_num_raw_data_modules(10) == 2768) by (nonlinear_arith);
        assert(spec_num_raw_data_modules(11) == 3232) by (nonlinear_arith);
    } else if v == 11 {
        assert(spec_num_raw_data_modules(11) == 3232) by (nonlinear_arith);
        assert(spec_num_raw_data_modules(12) == 3728) by (nonlinear_arith);
    } else if v == 12 {
        assert(spec_num_raw_data_modules(12) == 3728) by (nonlinear_arith);
        assert(spec_num_raw_data_modules(13) == 4256) by (nonlinear_arith);
    } else if v == 13 {
        assert(spec_num_raw_data_modules(13) == 4256) by (nonlinear_arith);
        assert(spec_num_raw_data_modules(14) == 4651) by (nonlinear_arith);
    } else if v == 14 {
        assert(spec_num_raw_data_modules(14) == 4651) by (nonlinear_arith);
        assert(spec_num_raw_data_modules(15) == 5243) by (nonlinear_arith);
    } else if v == 15 {
        assert(spec_num_raw_data_modules(15) == 5243) by (nonlinear_arith);
        assert(spec_num_raw_data_modules(16) == 5867) by (nonlinear_arith);
    } else if v == 16 {
        assert(spec_num_raw_data_modules(16) == 5867) by (nonlinear_arith);
        assert(spec_num_raw_data_modules(17) == 6523) by (nonlinear_arith);
    } else if v == 17 {
        assert(spec_num_raw_data_modules(17) == 6523) by (nonlinear_arith);
        assert(spec_num_raw_data_modules(18) == 7211) by (nonlinear_arith);
    } else if v == 18 {
        assert(spec_num_raw_data_modules(18) == 7211) by (nonlinear_arith);
        assert(spec_num_raw_data_modules(19) == 7931) by (nonlinear_arith);
    } else if v == 19 {
        assert(spec_num_raw_data_modules(19) == 7931) by (nonlinear_arith);
        assert(spec_num_raw_data_modules(20) == 8683) by (nonlinear_arith);
    } else if v == 20 {
        assert(spec_num_raw_data_modules(20) == 8683) by (nonlinear_arith);
        assert(spec_num_raw_data_modules(21) == 9252) by (nonlinear_arith);
    } else if v == 21 {
        assert(spec_num_raw_data_modules(21) == 9252) by (nonlinear_arith);
        assert(spec_num_raw_data_modules(22) == 10068) by (nonlinear_arith);
    } else if v == 22 {
        assert(spec_num_raw_data_modules(22) == 10068) by (nonlinear_arith);
        assert(spec_num_raw_data_modules(23) == 10916) by (nonlinear_arith);
    } else if v == 23 {
        assert(spec_num_raw_data_modules(23) == 10916) by (nonlinear_arith);
        assert(spec_num_raw_data_modules(24) == 11796) by (nonlinear_arith);
    } else if v == 24 {
        assert(spec_num_raw_data_modules(24) == 11796) by (nonlinear_arith);
        assert(spec_num_raw_data_modules(25) == 12708) by (nonlinear_arith);
    } else if v == 25 {
        assert(spec_num_raw_data_modules(25) == 12708) by (nonlinear_arith);
        assert(spec_num_raw_data_modules(26) == 13652) by (nonlinear_arith);
    } else if v == 26 {
        assert(spec_num_raw_data_modules(26) == 13652) by (nonlinear_arith);
        assert(spec_num_raw_data_modules(27) == 14628) by (nonlinear_arith);
    } else if v == 27 {
        assert(spec_num_raw_data_modules(27) == 14628) by (nonlinear_arith);
        assert(spec_num_raw_data_modules(28) == 15371) by (nonlinear_arith);
    } else if v == 28 {
        assert(spec_num_raw_data_modules(28) == 15371) by (nonlinear_arith);
        assert(spec_num_raw_data_modules(29) == 16411) by (nonlinear_arith);
    } else if v == 29 {
        assert(spec_num_raw_data_modules(29) == 16411) by (nonlinear_arith);
        assert(spec_num_raw_data_modules(30) == 17483) by (nonlinear_arith);
    } else if v == 30 {
        assert(spec_num_raw_data_modules(30) == 17483) by (nonlinear_arith);
        assert(spec_num_raw_data_modules(31) == 18587) by (nonlinear_arith);
    } else if v == 31 {
        assert(spec_num_raw_data_modules(31) == 18587) by (nonlinear_arith);
        assert(spec_num_raw_data_modules(32) == 19723) by (nonlinear_arith);
    } else if v == 32 {
        assert(spec_num_raw_data_modules(32) == 19723) by (nonlinear_arith);
        assert(spec_num_raw_data_modules(33) == 20891) by (nonlinear_arith);
    } else if v == 33 {
        assert(spec_num_raw_data_modules(33) == 20891) by (nonlinear_arith);
        assert(spec_num_raw_data_modules(34) == 22091) by (nonlinear_arith);
    } else if v == 34 {
        assert(spec_num_raw_data_modules(34) == 22091) by (nonlinear_arith);
        assert(spec_num_raw_data_modules(35) == 23008) by (nonlinear_arith);
    } else if v == 35 {
        assert(spec_num_raw_data_modules(35) == 23008) by (nonlinear_arith);
        assert(spec_num_raw_data_modules(36) == 24272) by (nonlinear_arith);
    } else if v == 36 {
        assert(spec_num_raw_data_modules(36) == 24272) by (nonlinear_arith);
        assert(spec_num_raw_data_modules(37) == 25568) by (nonlinear_arith);
    } else if v == 37 {
        assert(spec_num_raw_data_modules(37) == 25568) by (nonlinear_arith);
        assert(spec_num_raw_data_modules(38) == 26896) by (nonlinear_arith);
    } else if v == 38 {
        assert(spec_num_raw_data_modules(38) == 26896) by (nonlinear_arith);
        assert(spec_num_raw_data_modules(39) == 28256) by (nonlinear_arith);
    } else if v == 39 {
        assert(spec_num_raw_data_modules(39) == 28256) by (nonlinear_arith);
        assert(spec_num_raw_data_modules(40) == 29648) by (nonlinear_arith);
    }
}

} // verus!
