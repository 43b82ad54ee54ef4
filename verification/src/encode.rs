//! From segments to data codewords: choosing the version and error-correction
//! level, and assembling the bit stream with terminator and padding.
use vstd::prelude::*;
use vstd::arithmetic::power2::{pow2, lemma2_to64};
use vstd::bits::lemma_u32_shr_is_div;
use crate::bits::{
    bits_to_bytes, bytes_to_bits, lemma_bits_to_bytes_roundtrip, value_bits, BitBuffer,
};
use crate::params::{
    DataTooLong, QrCodeEcc, Version, lemma_table_facts, spec_ecc_per_block, spec_num_blocks,
    spec_num_data_codewords, spec_num_raw_data_modules,
};
use crate::qrcode::QrCode;
use crate::segment::{
    numeric_bits, seg_cost, segs_cost, segs_counts_fit, segs_view, spec_total_bits, QrSegment,
    QrSegmentMode, SegSpec,
};

verus! {

/// The bits a segment contributes in a version-`v` symbol: mode indicator,
/// character count, then its data.
pub open spec fn seg_stream(seg: SegSpec, v: int) -> Seq<bool> {
    value_bits(seg.mode.spec_mode_bits(), 4) + value_bits(
        seg.numchars as u32,
        seg.mode.spec_num_char_count_bits(v),
    ) + seg.bits
}

/// The bits of a list of segments, one after the other.
pub open spec fn segs_stream(segs: Seq<SegSpec>, v: int) -> Seq<bool>
    decreases segs.len(),
{
    if segs.len() == 0 {
        Seq::empty()
    } else {
        segs_stream(segs.drop_last(), v) + seg_stream(segs.last(), v)
    }
}

/// `n` zero bits.
pub open spec fn zero_bits(n: int) -> Seq<bool> {
    Seq::new(n as nat, |i: int| false)
}

/// `n` pad bytes, alternately 0xEC and 0x11, as bits.
pub open spec fn pad_bits(n: nat) -> Seq<bool>
    decreases n,
{
    if n == 0 {
        Seq::empty()
    } else {
        pad_bits((n - 1) as nat) + value_bits(
            if (n - 1) % 2 == 0 {
                0xECu32
            } else {
                0x11u32
            },
            8,
        )
    }
}

/// The data bit stream of a version-`v` symbol at level ordinal `e`: the
/// segments, a terminator of up to four zero bits, zero bits up to a byte
/// boundary, then pad bytes up to the data capacity.
pub open spec fn data_bits(segs: Seq<SegSpec>, v: int, e: int) -> Seq<bool> {
    let s = segs_stream(segs, v);
    let cap = spec_num_data_codewords(v, e) * 8;
    let term = if cap - s.len() < 4 {
        cap - s.len()
    } else {
        4
    };
    let t = s + zero_bits(term);
    let t2 = t + zero_bits((8 - t.len() % 8) % 8);
    t2 + pad_bits(((cap - t2.len()) / 8) as nat)
}

/// The data codewords of a version-`v` symbol at level ordinal `e`.
pub open spec fn spec_data_codewords(segs: Seq<SegSpec>, v: int, e: int) -> Seq<u8> {
    bits_to_bytes(data_bits(segs, v, e))
}

/// Whether the segments fit in the data capacity of version `v` at level `e`.
pub open spec fn version_fits(segs: Seq<SegSpec>, v: int, e: int) -> bool {
    match spec_total_bits(segs, v) {
        Some(b) => b <= spec_num_data_codewords(v, e) * 8,
        None => false,
    }
}

/// The smallest version in `v..=hi` in which the segments fit, if any.
pub open spec fn first_fit(segs: Seq<SegSpec>, e: int, v: int, hi: int) -> Option<int>
    decreases hi + 1 - v,
{
    if v > hi {
        None
    } else if version_fits(segs, v, e) {
        Some(v)
    } else {
        first_fit(segs, e, v + 1, hi)
    }
}

/// The version that `first_fit` finds lies in the range it searches.
pub proof fn lemma_first_fit_range(segs: Seq<SegSpec>, e: int, v: int, hi: int)
    ensures
        first_fit(segs, e, v, hi) matches Some(w) ==> v <= w <= hi,
    decreases hi + 1 - v,
{
    if v <= hi && !version_fits(segs, v, e) {
        lemma_first_fit_range(segs, e, v + 1, hi);
    }
}

/// The level after boosting: each of Medium, Quartile and High, in turn,
/// replaces the level when boosting is on and `used` bits fit its capacity.
pub open spec fn boosted_ecl(ecl: QrCodeEcc, v: int, used: int, boost: bool) -> QrCodeEcc {
    let e1 = if boost && used <= spec_num_data_codewords(v, 1) * 8 {
        QrCodeEcc::Medium
    } else {
        ecl
    };
    let e2 = if boost && used <= spec_num_data_codewords(v, 2) * 8 {
        QrCodeEcc::Quartile
    } else {
        e1
    };
    if boost && used <= spec_num_data_codewords(v, 3) * 8 {
        QrCodeEcc::High
    } else {
        e2
    }
}

/// The segment bit stream is as long as the segments' cost.
pub proof fn lemma_segs_stream_len(segs: Seq<SegSpec>, v: int)
    requires
        1 <= v <= 40,
    ensures
        segs_stream(segs, v).len() == segs_cost(segs, v),
    decreases segs.len(),
{
    if segs.len() > 0 {
        lemma_segs_stream_len(segs.drop_last(), v);
    }
}

/// The pad bits of `n` bytes are `8 * n` bits long.
proof fn lemma_pad_bits_len(n: nat)
    ensures
        pad_bits(n).len() == 8 * n,
    decreases n,
{
    if n > 0 {
        lemma_pad_bits_len((n - 1) as nat);
    }
}

/// The smallest version in `minversion..=maxversion` that holds the segments
/// at level `ecl`, with the number of bits they take there.
fn find_version(segs: &[QrSegment], ecl: QrCodeEcc, minversion: Version, maxversion: Version) -> (r:
    Result<(Version, usize), DataTooLong>)
    requires
        forall|i: int| 0 <= i < segs.len() ==> (#[trigger] segs@[i]).wf(),
        minversion.wf(),
        maxversion.wf(),
        minversion.0 <= maxversion.0,
    ensures
        match first_fit(segs_view(segs@), ecl.spec_ordinal(), minversion.0 as int, maxversion.0 as int) {
            Some(v) => r matches Ok((ver, used)) && ver.0 == v && ver.wf() && spec_total_bits(
                segs_view(segs@),
                v,
            ) == Some(used) && used <= spec_num_data_codewords(v, ecl.spec_ordinal()) * 8,
            None => r == Err::<(Version, usize), DataTooLong>(
                if spec_total_bits(segs_view(segs@), maxversion.0 as int).is_none() {
                    DataTooLong::SegmentTooLong
                } else {
                    DataTooLong::DataOverCapacity
                },
            ),
        },
{
    let ghost e0 = ecl.spec_ordinal();
    let ghost lo = minversion.0 as int;
    let ghost hi = maxversion.0 as int;
    let mut version = minversion;
    loop
        invariant
            minversion.0 <= version.0 <= maxversion.0,
            version.wf(),
            maxversion.wf(),
            e0 == ecl.spec_ordinal(),
            lo == minversion.0 as int,
            hi == maxversion.0 as int,
            forall|i: int| 0 <= i < segs.len() ==> (#[trigger] segs@[i]).wf(),
            first_fit(segs_view(segs@), e0, lo, hi) == first_fit(segs_view(segs@), e0, version.0 as int, hi),
        decreases maxversion.0 - version.0,
    {
        let datacapacitybits = QrCode::get_num_data_codewords(version, ecl) * 8;
        let dataused = QrSegment::get_total_bits(segs, version);
        if dataused.is_some() && dataused.unwrap() <= datacapacitybits {
            assert(version_fits(segs_view(segs@), version.0 as int, e0));
            return Ok((version, dataused.unwrap()));
        } else if version.value() >= maxversion.value() {
            assert(!version_fits(segs_view(segs@), version.0 as int, e0));
            assert(first_fit(segs_view(segs@), e0, version.0 + 1, hi) == None::<int>);
            return Err(
                match dataused {
                    None => DataTooLong::SegmentTooLong,
                    Some(_) => DataTooLong::DataOverCapacity,
                },
            );
        } else {
            assert(!version_fits(segs_view(segs@), version.0 as int, e0));
            version = Version::new(version.value() + 1);
        }
    }
}

/// The version that `first_fit` finds holds the segments.
pub proof fn lemma_first_fit_fits(segs: Seq<SegSpec>, e: int, v: int, hi: int)
    ensures
        first_fit(segs, e, v, hi) matches Some(w) ==> version_fits(segs, w, e) && spec_total_bits(
            segs,
            w,
        ) == Some(segs_cost(segs, w) as usize) && segs_cost(segs, w) <= spec_num_data_codewords(w, e)
            * 8,
    decreases hi + 1 - v,
{
    if v <= hi && !version_fits(segs, v, e) {
        lemma_first_fit_fits(segs, e, v + 1, hi);
    }
}

/// The version that `first_fit` finds is the smallest in the range that
/// holds the segments; when it finds none, no version in the range does.
pub proof fn lemma_first_fit_is_smallest(segs: Seq<SegSpec>, e: int, v: int, hi: int)
    ensures
        first_fit(segs, e, v, hi) matches Some(w) ==> version_fits(segs, w, e) && forall|u: int|
            v <= u < w ==> !#[trigger] version_fits(segs, u, e),
        first_fit(segs, e, v, hi) is None ==> forall|u: int| v <= u <= hi ==> !#[trigger] version_fits(segs, u, e),
    decreases hi + 1 - v,
{
    if v <= hi && !version_fits(segs, v, e) {
        lemma_first_fit_is_smallest(segs, e, v + 1, hi);
    }
}

/// The pad byte at position `j` of the padding: 0xEC, then 0x11, in turn.
pub open spec fn pad_byte(j: int) -> u32 {
    if j % 2 == 0 {
        0xECu32
    } else {
        0x11u32
    }
}

proof fn lemma_pad_bits_at(n: nat, j: int)
    requires
        0 <= j < n,
    ensures
        pad_bits(n).len() == 8 * n,
        pad_bits(n).subrange(8 * j, 8 * j + 8) == value_bits(pad_byte(j), 8),
    decreases n,
{
    lemma_pad_bits_len(n);
    lemma_pad_bits_len((n - 1) as nat);
    if j < n - 1 {
        lemma_pad_bits_at((n - 1) as nat, j);
        assert(pad_bits(n).subrange(8 * j, 8 * j + 8) =~= pad_bits((n - 1) as nat).subrange(8 * j, 8 * j + 8));
    } else {
        assert(pad_bits(n).subrange(8 * j, 8 * j + 8) =~= value_bits(pad_byte(j), 8));
    }
}

/// The data codewords of segments that fit a version-`v` symbol at level
/// ordinal `e`, bit by bit: the segments' bits; then a terminator of four
/// zero bits (fewer only where the capacity ends sooner) and zero bits up
/// to the next byte boundary; then pad bytes 0xEC and 0x11 in turn up to
/// the capacity.
pub proof fn lemma_data_codewords_layout(segs: Seq<SegSpec>, v: int, e: int, cw: Seq<u8>)
    requires
        1 <= v <= 40,
        0 <= e < 4,
        version_fits(segs, v, e),
        bytes_to_bits(cw) == data_bits(segs, v, e),
    ensures
        ({
            let bits = bytes_to_bits(cw);
            let used = segs_stream(segs, v).len() as int;
            let cap = spec_num_data_codewords(v, e) * 8;
            let term = if cap - used < 4 {
                cap - used
            } else {
                4
            };
            let padstart = (used + term + 7) / 8;
            &&& cw.len() * 8 == cap
            &&& used <= cap
            &&& bits.take(used) == segs_stream(segs, v)
            &&& used + term <= padstart * 8 <= cap
            &&& forall|i: int| used <= i < padstart * 8 ==> !#[trigger] bits[i]
            &&& forall|k: int|
                padstart <= k < cw.len() ==> #[trigger] bits.subrange(8 * k, 8 * k + 8) == value_bits(
                    pad_byte(k - padstart),
                    8,
                )
        }),
{
    let s = segs_stream(segs, v);
    let used = s.len() as int;
    let cap = spec_num_data_codewords(v, e) * 8;
    lemma_segs_stream_len(segs, v);
    assert(cap % 8 == 0);
    let term = if cap - used < 4 {
        cap - used
    } else {
        4
    };
    let t = s + zero_bits(term);
    let t2 = t + zero_bits((8 - t.len() % 8) % 8);
    let padstart = (used + term + 7) / 8;
    assert(t2.len() == padstart * 8);
    let n = ((cap - t2.len()) / 8) as nat;
    lemma_pad_bits_len(n);
    let d = data_bits(segs, v, e);
    assert(d == t2 + pad_bits(n));
    let bits = bytes_to_bits(cw);
    assert(bits.len() == cap);
    assert(cw.len() * 8 == cap);
    assert(bits.take(used) =~= s);
    assert forall|i: int| used <= i < padstart * 8 implies !#[trigger] bits[i] by {
        assert(bits[i] == t2[i]);
    }
    assert forall|k: int| padstart <= k < cw.len() implies #[trigger] bits.subrange(8 * k, 8 * k + 8) == value_bits(
        pad_byte(k - padstart),
        8,
    ) by {
        let j = k - padstart;
        lemma_pad_bits_at(n, j);
        assert(bits.subrange(8 * k, 8 * k + 8) =~= pad_bits(n).subrange(8 * j, 8 * j + 8));
    }
}

/// When every version in `v..=hi` that holds `b` also holds `a`, the search
/// finds a version for `a` no later than the one it finds for `b`.
pub proof fn lemma_first_fit_dominated(a: Seq<SegSpec>, b: Seq<SegSpec>, e: int, v: int, hi: int)
    requires
        forall|w: int| v <= w <= hi && #[trigger] version_fits(b, w, e) ==> version_fits(a, w, e),
    ensures
        first_fit(b, e, v, hi) matches Some(wb) ==> first_fit(a, e, v, hi) matches Some(wa) && wa <= wb,
    decreases hi + 1 - v,
{
    lemma_first_fit_range(b, e, v, hi);
    if v <= hi && !version_fits(a, v, e) {
        lemma_first_fit_dominated(a, b, e, v + 1, hi);
    }
}

/// A single numeric segment of `n >= 1` digits fits every version and level
/// that a single byte segment of `n` bytes fits.
pub proof fn lemma_numeric_fits_where_bytes_fit(digits: Seq<u8>, bytes: Seq<u8>, v: int, e: int)
    requires
        digits.len() == bytes.len(),
        digits.len() >= 1,
        1 <= v <= 40,
        0 <= e < 4,
        version_fits(
            seq![SegSpec { mode: QrSegmentMode::Byte, numchars: bytes.len(), bits: bytes_to_bits(bytes) }],
            v,
            e,
        ),
    ensures
        version_fits(
            seq![SegSpec { mode: QrSegmentMode::Numeric, numchars: digits.len(), bits: numeric_bits(digits) }],
            v,
            e,
        ),
{
    let n = digits.len() as int;
    let sb = SegSpec { mode: QrSegmentMode::Byte, numchars: bytes.len(), bits: bytes_to_bits(bytes) };
    let sn = SegSpec { mode: QrSegmentMode::Numeric, numchars: digits.len(), bits: numeric_bits(digits) };
    let b = seq![sb];
    let a = seq![sn];
    assert(b.drop_last() =~= Seq::<SegSpec>::empty());
    assert(a.drop_last() =~= Seq::<SegSpec>::empty());
    assert(segs_cost(Seq::<SegSpec>::empty(), v) == 0);
    assert(b.last() == sb && a.last() == sn);
    assert(segs_cost(b, v) == seg_cost(sb, v));
    assert(segs_cost(a, v) == seg_cost(sn, v));
    crate::segment::lemma_numeric_bits_len(digits);
    lemma_table_facts(e, v);
    let cap = spec_num_data_codewords(v, e);
    assert(seg_cost(sb, v) <= cap * 8);
    assert(seg_cost(sn, v) <= seg_cost(sb, v));
    lemma2_to64();
    if v <= 9 {
        let na = v / 7 + 2;
        assert((25 * na - 10) * na - 55 >= 0) by (nonlinear_arith)
            requires
                na >= 2,
        ;
        assert((16 * v + 128) * v + 64 <= 2512) by (nonlinear_arith)
            requires
                1 <= v <= 9,
        ;
        assert(spec_num_raw_data_modules(v) <= 2512);
        assert(spec_ecc_per_block(e, v) * spec_num_blocks(e, v) >= 0) by (nonlinear_arith)
            requires
                spec_ecc_per_block(e, v) >= 7,
                spec_num_blocks(e, v) >= 1,
        ;
        assert(cap <= 314);
    }
    assert(n < pow2(sn.mode.spec_num_char_count_bits(v) as nat));
    assert(segs_counts_fit(a, v));
}

/// Boosting never lowers the level when the data fits the requested one;
/// with boosting the level is the highest that still holds the data, and
/// without it the level is kept.
pub proof fn lemma_boost_not_lower(ecl: QrCodeEcc, v: int, used: int, boost: bool)
    requires
        1 <= v <= 40,
        used <= spec_num_data_codewords(v, ecl.spec_ordinal()) * 8,
    ensures
        boosted_ecl(ecl, v, used, boost).spec_ordinal() >= ecl.spec_ordinal(),
        used <= spec_num_data_codewords(v, boosted_ecl(ecl, v, used, boost).spec_ordinal()) * 8,
        !boost ==> boosted_ecl(ecl, v, used, boost) == ecl,
        boost ==> forall|k: int|
            boosted_ecl(ecl, v, used, boost).spec_ordinal() < k <= 3 ==> used
                > #[trigger] spec_num_data_codewords(v, k) * 8,
{
    crate::params::lemma_capacity_by_level(v);
}

/// The data codewords of the segments in a symbol of the given version and
/// level, when they take `datausedbits` bits and fit.
#[verifier::rlimit(30)]
fn build_data_codewords(
    segs: &[QrSegment],
    version: Version,
    ecl: QrCodeEcc,
    datausedbits: usize,
) -> (r: Vec<u8>)
    requires
        version.wf(),
        forall|i: int| 0 <= i < segs.len() ==> (#[trigger] segs@[i]).wf(),
        spec_total_bits(segs_view(segs@), version.0 as int) == Some(datausedbits),
        datausedbits <= spec_num_data_codewords(version.0 as int, ecl.spec_ordinal()) * 8,
    ensures
        r@ == spec_data_codewords(segs_view(segs@), version.0 as int, ecl.spec_ordinal()),
        r.len() == spec_num_data_codewords(version.0 as int, ecl.spec_ordinal()),
        bytes_to_bits(r@) == data_bits(segs_view(segs@), version.0 as int, ecl.spec_ordinal()),
{
    let ghost v = version.0 as int;
    let ghost e = ecl.spec_ordinal();
    let ghost sv = segs_view(segs@);
    proof {
        lemma_table_facts(e, v);
        lemma_segs_stream_len(sv, v);
    }
    let datacapacitybits = QrCode::get_num_data_codewords(version, ecl) * 8;
    let buffer = zeroed_bytes(datacapacitybits / 8);
    let mut bb = BitBuffer::new(buffer);
    let mut i: usize = 0;
    assert(sv.take(0) =~= Seq::<SegSpec>::empty());
    while i < segs.len()
        invariant
            i <= segs.len(),
            bb.wf(),
            bb.data.len() * 8 == datacapacitybits,
            datausedbits <= datacapacitybits,
            sv == segs_view(segs@),
            sv.len() == segs.len(),
            datausedbits == segs_cost(sv, v),
            version.wf(),
            v == version.0 as int,
            segs_counts_fit(sv, v),
            forall|q: int| 0 <= q < segs.len() ==> (#[trigger] segs@[q]).wf(),
            bb.bits() == segs_stream(sv.take(i as int), v),
            bb.length == segs_cost(sv.take(i as int), v),
        decreases segs.len() - i,
    {
        let seg = &segs[i];
        proof {
            assert(sv.take(i + 1).drop_last() =~= sv.take(i as int));
            assert(sv.take(i + 1).last() == sv[i as int]);
            assert(sv[i as int] == seg@);
            crate::segment::lemma_segs_cost_prefix(sv, v, i + 1);
            crate::segment::lemma_segs_cost_nonneg(sv.take(i as int), v);
            assert(seg.numchars < pow2(seg.mode.spec_num_char_count_bits(v) as nat));
        }
        let mb = seg.mode.mode_bits();
        assert(mb >> 4u8 == 0) by {
            assert(mb == 1 || mb == 2 || mb == 4);
            assert((mb == 1 || mb == 2 || mb == 4) ==> mb >> 4u8 == 0) by (bit_vector);
        }
        bb.append_bits(mb, 4);
        let cc = seg.mode.num_char_count_bits(version);
        proof {
            vstd::arithmetic::power2::lemma2_to64();
            lemma_u32_shr_is_div(seg.numchars as u32, cc as u32);
            assert((seg.numchars as u32) as nat / pow2(cc as nat) == 0) by (nonlinear_arith)
                requires
                    (seg.numchars as u32) as nat == seg.numchars,
                    seg.numchars < pow2(cc as nat),
            ;
        }
        bb.append_bits(seg.numchars as u32, cc);
        bb.append_data(&seg.data, seg.bitlength);
        i = i + 1;
    }
    assert(sv.take(segs.len() as int) =~= sv);
    let numzerobits = if datacapacitybits - bb.length < 4 {
        datacapacitybits - bb.length
    } else {
        4
    };
    append_zeros(&mut bb, numzerobits as u8);
    let numzerobits = (8 - bb.length % 8) % 8;
    append_zeros(&mut bb, numzerobits as u8);
    let ghost t2 = bb.bits();
    let mut padbyte: u32 = 0xEC;
    let ghost mut k: nat = 0;
    assert(t2 + pad_bits(0) =~= t2);
    while bb.length < datacapacitybits
        invariant
            bb.wf(),
            bb.data.len() * 8 == datacapacitybits,
            datacapacitybits % 8 == 0,
            bb.length % 8 == 0,
            bb.length <= datacapacitybits,
            bb.bits() == t2 + pad_bits(k),
            padbyte == if k % 2 == 0 {
                0xECu32
            } else {
                0x11u32
            },
        decreases datacapacitybits - bb.length,
    {
        assert((padbyte == 0xECu32 || padbyte == 0x11u32) ==> padbyte >> 8u8 == 0) by (bit_vector);
        bb.append_bits(padbyte, 8);
        assert((padbyte == 0xECu32 ==> padbyte ^ (0xECu32 ^ 0x11u32) == 0x11u32) && (padbyte
            == 0x11u32 ==> padbyte ^ (0xECu32 ^ 0x11u32) == 0xECu32)) by (bit_vector);
        padbyte = padbyte ^ (0xEC ^ 0x11);
        proof {
            k = k + 1;
        }
    }
    proof {
        lemma_pad_bits_len(k);
        let d = data_bits(sv, v, e);
        assert(bb.bits() =~= d);
        assert(bytes_to_bits(bb.data@) =~= bb.bits());
        lemma_bits_to_bytes_roundtrip(bb.data@);
    }
    bb.data
}

/// Appends `n` zero bits.
fn append_zeros(bb: &mut BitBuffer, n: u8)
    requires
        old(bb).wf(),
        n <= 31,
        old(bb).length + n <= old(bb).data.len() * 8,
    ensures
        final(bb).wf(),
        final(bb).data.len() == old(bb).data.len(),
        final(bb).length == old(bb).length + n,
        final(bb).bits() == old(bb).bits() + zero_bits(n as int),
{
    assert(0u32 >> n == 0) by (bit_vector);
    bb.append_bits(0, n);
    assert(value_bits(0, n as int) =~= zero_bits(n as int)) by {
        assert forall|k: int| 0 <= k < n implies !#[trigger] value_bits(0, n as int)[k] by {
            let sh = (n - 1 - k) as u32;
            assert((0u32 >> sh) & 1u32 == 0u32) by (bit_vector);
        }
    }
}

impl QrCode {
    /// Chooses the smallest version in `minversion..=maxversion` that holds
    /// the segments at level `ecl`, raises the level when `boostecl` allows,
    /// and returns the data codewords with the chosen level and version.
    pub fn encode_segments_to_codewords(
        segs: &[QrSegment],
        ecl: QrCodeEcc,
        minversion: Version,
        maxversion: Version,
        boostecl: bool,
    ) -> (r: Result<(Vec<u8>, QrCodeEcc, Version), DataTooLong>)
        requires
            minversion.wf(),
            maxversion.wf(),
            minversion.0 <= maxversion.0,
            forall|i: int| 0 <= i < segs.len() ==> (#[trigger] segs@[i]).wf(),
        ensures
            match first_fit(segs_view(segs@), ecl.spec_ordinal(), minversion.0 as int, maxversion.0 as int) {
                Some(v) => r matches Ok((data, e, ver)) && ver.0 == v && ver.wf() && e
                    == boosted_ecl(ecl, v, segs_cost(segs_view(segs@), v), boostecl) && data@
                    == spec_data_codewords(segs_view(segs@), v, e.spec_ordinal()) && data.len()
                    == spec_num_data_codewords(v, e.spec_ordinal()) && bytes_to_bits(data@)
                    == data_bits(segs_view(segs@), v, e.spec_ordinal()) && version_fits(
                    segs_view(segs@),
                    v,
                    e.spec_ordinal(),
                ),
                None => r == Err::<(Vec<u8>, QrCodeEcc, Version), DataTooLong>(
                    if spec_total_bits(segs_view(segs@), maxversion.0 as int).is_none() {
                        DataTooLong::SegmentTooLong
                    } else {
                        DataTooLong::DataOverCapacity
                    },
                ),
            },
    {
        let found = find_version(segs, ecl, minversion, maxversion);
        let (version, datausedbits) = match found {
            Ok(found) => found,
            Err(e) => {
                return Err(e);
            },
        };
        proof {
            let ff = first_fit(segs_view(segs@), ecl.spec_ordinal(), minversion.0 as int, maxversion.0 as int);
            assert(ff.is_some());
            assert(ff == Some(version.0 as int));
            assert(spec_total_bits(segs_view(segs@), version.0 as int) == Some(datausedbits));
            crate::segment::lemma_segs_cost_nonneg(segs_view(segs@), version.0 as int);
        }
        let ghost v = version.0 as int;
        let ghost old_ecl = ecl;
        let mut ecl = ecl;
        if boostecl && datausedbits <= QrCode::get_num_data_codewords(version, QrCodeEcc::Medium)
            * 8 {
            ecl = QrCodeEcc::Medium;
        }
        if boostecl && datausedbits <= QrCode::get_num_data_codewords(version, QrCodeEcc::Quartile)
            * 8 {
            ecl = QrCodeEcc::Quartile;
        }
        if boostecl && datausedbits <= QrCode::get_num_data_codewords(version, QrCodeEcc::High) * 8 {
            ecl = QrCodeEcc::High;
        }
        assert(datausedbits == segs_cost(segs_view(segs@), v));
        assert(ecl == boosted_ecl(old_ecl, v, segs_cost(segs_view(segs@), v), boostecl));
        let data = build_data_codewords(segs, version, ecl, datausedbits);
        Ok((data, ecl, version))
    }
}

/// A vector of `n` zero bytes.
fn zeroed_bytes(n: usize) -> (r: Vec<u8>)
    ensures
        r@ == Seq::new(n as nat, |i: int| 0u8),
{
    let mut r: Vec<u8> = Vec::new();
    let mut i: usize = 0;
    while i < n
        invariant
            i <= n,
            r@ == Seq::new(i as nat, |j: int| 0u8),
        decreases n - i,
    {
        r.push(0);
        i = i + 1;
        assert(r@ =~= Seq::new(i as nat, |j: int| 0u8));
    }
    r
}

} // verus!
