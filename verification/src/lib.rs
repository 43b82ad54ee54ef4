//! QR code encoding: segment and bit-stream construction, Reed–Solomon error
//! correction, symbol layout, masking and penalty scoring.
pub mod params;
pub mod bits;
pub mod segment;
pub mod gf;
pub mod qrcode;
pub mod encode;
pub mod tables;
pub mod interleave;
pub mod patterns;
pub mod placement;
pub mod mask;
pub mod penalty;
pub mod symbol;
pub mod utf8;
pub mod layout;

use vstd::prelude::*;
use crate::bits::bytes_to_bits;
use crate::encode::{boosted_ecl, first_fit, spec_data_codewords, version_fits};
use crate::interleave::zeroed_vec;
use crate::params::{spec_buffer_len, spec_size, DataTooLong, Mask, QrCodeEcc, Version};
use crate::qrcode::{packed_bits, QrCode};
use crate::segment::{
    alnum_bits, is_digit, numeric_bits, segs_cost, segs_view, spec_calc_bit_length, spec_bit_length,
    spec_text_segment_mode, spec_total_bits, QrSegment, QrSegmentMode, SegSpec,
};
use crate::symbol::{final_grid, grids_agree};
use crate::tables::QrTables;
use crate::utf8::{is_valid_utf8, utf8_valid};

verus! {

/// Side length of the largest symbol.
pub const MAX_SIZE: usize = 177;

/// Length of the packed output of the largest symbol.
pub const MAX_BUFFER_LEN: usize = (MAX_SIZE * MAX_SIZE + 7) / 8 + 1;

/// Most bytes a binary payload may have.
pub const MAX_BINARY_LEN: u32 = 2953;

/// Most bytes a text payload may have.
pub const MAX_TEXT_LEN: u32 = 7089;

/// A required pointer is null.
pub const ERR_NULL_POINTER: i32 = -1;

/// The output buffer is shorter than the largest allowed symbol needs.
pub const ERR_OUTPUT_TOO_SHORT: i32 = -2;

/// The error-correction level is not 0..=3.
pub const ERR_INVALID_ECC: i32 = -3;

/// A version bound is not 1..=40, or the minimum exceeds the maximum.
pub const ERR_INVALID_VERSION: i32 = -4;

/// The mask is not -1..=7.
pub const ERR_INVALID_MASK: i32 = -5;

/// The payload does not fit in the allowed versions.
pub const ERR_DATA_TOO_LONG: i32 = -6;

/// A text payload is not well-formed UTF-8.
pub const ERR_INVALID_UTF8: i32 = -7;

/// The payload is longer than any symbol can hold.
pub const ERR_INPUT_TOO_LONG: i32 = -8;

/// The segments that carry a payload: none for an empty payload; for text,
/// one numeric or alphanumeric segment when every byte allows it and its
/// bits fit a buffer of `buflen` bytes; otherwise one byte segment when its
/// bytes fit that buffer; `None` when not even that fits.
pub open spec fn spec_segments(data: Seq<u8>, text_mode: bool, buflen: int) -> Option<Seq<SegSpec>> {
    let n = data.len() as int;
    let mode = spec_text_segment_mode(data);
    let fits = |m: QrSegmentMode|
        spec_calc_bit_length(m, n).is_some() && (spec_bit_length(m, n) + 7) / 8 <= buflen;
    if n == 0 {
        Some(Seq::empty())
    } else if text_mode && mode == QrSegmentMode::Numeric && fits(QrSegmentMode::Numeric) {
        Some(
            seq![SegSpec { mode: QrSegmentMode::Numeric, numchars: n as nat, bits: numeric_bits(data) }],
        )
    } else if text_mode && mode == QrSegmentMode::Alphanumeric && fits(QrSegmentMode::Alphanumeric) {
        Some(
            seq![SegSpec { mode: QrSegmentMode::Alphanumeric, numchars: n as nat, bits: alnum_bits(data) }],
        )
    } else if fits(QrSegmentMode::Byte) {
        Some(seq![SegSpec { mode: QrSegmentMode::Byte, numchars: n as nat, bits: bytes_to_bits(data) }])
    } else {
        None
    }
}

/// What encoding a payload decides: the version, the (possibly boosted)
/// level and the data codewords; or why the payload does not fit.
#[verifier::opaque]
pub open spec fn spec_encode_outcome(
    data: Seq<u8>,
    text_mode: bool,
    ecl: QrCodeEcc,
    minversion: int,
    maxversion: int,
    boostecl: bool,
) -> Result<(int, QrCodeEcc, Seq<u8>), DataTooLong> {
    match spec_segments(data, text_mode, spec_buffer_len(maxversion)) {
        None => Err(DataTooLong::SegmentTooLong),
        Some(segs) => match first_fit(segs, ecl.spec_ordinal(), minversion, maxversion) {
            None => Err(
                if spec_total_bits(segs, maxversion).is_none() {
                    DataTooLong::SegmentTooLong
                } else {
                    DataTooLong::DataOverCapacity
                },
            ),
            Some(v) => {
                let e = boosted_ecl(ecl, v, segs_cost(segs, v), boostecl);
                Ok((v, e, spec_data_codewords(segs, v, e.spec_ordinal())))
            },
        },
    }
}

/// The packed modules of a size-`size` symbol in `nbytes` bytes: one bit per
/// module, row after row, then zero bits up to the end.
pub open spec fn symbol_bits(g: spec_fn(int, int) -> bool, size: int, nbytes: int) -> Seq<bool> {
    Seq::new((nbytes * 8) as nat, |i: int| i < size * size && g(i % size, i / size))
}

/// Whether `out` holds the packed output of the symbol `g` of version `v`:
/// the side length, then the modules.
#[verifier::opaque]
pub open spec fn holds_symbol(out: Seq<u8>, g: spec_fn(int, int) -> bool, v: int) -> bool {
    &&& out.len() >= spec_buffer_len(v)
    &&& out[0] == spec_size(v)
    &&& packed_bits(out.subrange(1, spec_buffer_len(v))) == symbol_bits(
        g,
        spec_size(v),
        spec_buffer_len(v) - 1,
    )
}

/// Writes the symbol `qr` into `out`: its side length, then its modules.
fn write_symbol(qr: &QrCode, out: &mut [u8], Ghost(g): Ghost<spec_fn(int, int) -> bool>)
    requires
        qr.wf(),
        qr.tail_clear(),
        grids_agree(qr.grid(), g, qr.size as int),
        old(out).len() >= qr.modules.len() + 1,
    ensures
        final(out).len() == old(out).len(),
        final(out)@[0] == qr.size,
        final(out)@.subrange(1, qr.modules.len() + 1) == qr.modules@,
        packed_bits(qr.modules@) == symbol_bits(g, qr.size as int, qr.modules.len() as int),
        forall|i: int| qr.modules.len() + 1 <= i < final(out).len() ==> final(out)@[i] == old(out)@[i],
{
    out[0] = qr.size;
    let mut i: usize = 0;
    while i < qr.modules.len()
        invariant
            i <= qr.modules.len(),
            out.len() == old(out).len(),
            out.len() >= qr.modules.len() + 1,
            out@[0] == qr.size,
            forall|k: int| 0 <= k < i ==> out@[k + 1] == qr.modules@[k],
            forall|k: int| qr.modules.len() + 1 <= k < out.len() ==> out@[k] == old(out)@[k],
        decreases qr.modules.len() - i,
    {
        out[i + 1] = qr.modules[i];
        i = i + 1;
    }
    assert(out@.subrange(1, qr.modules.len() + 1) =~= qr.modules@);
    proof {
        let s = qr.size as int;
        crate::qrcode::lemma_area_fits(*qr);
        assert forall|k: int| 0 <= k < qr.bits().len() implies #[trigger] qr.bits()[k] == symbol_bits(
            g,
            s,
            qr.modules.len() as int,
        )[k] by {
            if k < s * s {
                assert(0 <= k / s < s && 0 <= k % s < s && k == (k / s) * s + k % s)
                    by (nonlinear_arith)
                    requires
                        0 <= k < s * s,
                        s >= 1,
                ;
                assert(qr.module(k % s, k / s) == qr.bits()[k]);
                assert(qr.grid()(k % s, k / s) == g(k % s, k / s));
            }
        }
        assert(qr.bits() =~= symbol_bits(g, s, qr.modules.len() as int));
    }
}

/// The segments that carry `data`, as `spec_segments` describes them; bit
/// buffers of numeric and alphanumeric segments have `buflen` bytes.
fn payload_segments(tables: &QrTables, data: &[u8], text_mode: bool, buflen: usize) -> (r: Option<
    Vec<QrSegment>,
>)
    requires
        tables.wf(),
        buflen <= MAX_BUFFER_LEN,
    ensures
        match spec_segments(data@, text_mode, buflen as int) {
            None => r is None,
            Some(s) => r matches Some(v) && segs_view(v@) == s && forall|i: int|
                0 <= i < v.len() ==> (#[trigger] v@[i]).wf(),
        },
{
    let mut segs: Vec<QrSegment> = Vec::new();
    if data.len() == 0 {
        assert(segs_view(segs@) =~= Seq::<SegSpec>::empty());
        return Some(segs);
    }
    let text_segment_mode: Option<QrSegmentMode> = if text_mode {
        Some(crate::segment::classify_text_segment_mode(&tables.alphanumeric, data))
    } else {
        None
    };
    let numeric_fits = match QrSegment::calc_buffer_size(QrSegmentMode::Numeric, data.len()) {
        Some(len) => len <= buflen,
        None => false,
    };
    let alnum_fits = match QrSegment::calc_buffer_size(QrSegmentMode::Alphanumeric, data.len()) {
        Some(len) => len <= buflen,
        None => false,
    };
    let byte_fits = match QrSegment::calc_buffer_size(QrSegmentMode::Byte, data.len()) {
        Some(len) => len <= buflen,
        None => false,
    };
    let segment = if matches!(text_segment_mode, Some(QrSegmentMode::Numeric)) && numeric_fits {
        QrSegment::make_numeric(data, zeroed_vec(buflen))
    } else if matches!(text_segment_mode, Some(QrSegmentMode::Alphanumeric)) && alnum_fits {
        proof {
            assert forall|i: int| 0 <= i < data.len() implies crate::segment::spec_alphanumeric_value(
                #[trigger] data@[i],
            ).is_some() by {}
        }
        QrSegment::make_alphanumeric(&tables.alphanumeric, data, zeroed_vec(buflen))
    } else if byte_fits {
        QrSegment::make_bytes(data)
    } else {
        return None;
    };
    segs.push(segment);
    assert(segs_view(segs@) =~= seq![segs@[0]@]);
    Some(segs)
}

/// Encodes `data` (as text when `text_mode`, else as bytes) into a symbol of a
/// version in `minversion..=maxversion` and writes it to `outbuffer`; returns
/// the symbol's side length.
#[verifier::rlimit(30)]
pub fn encode_data(
    tables: &QrTables,
    data: &[u8],
    text_mode: bool,
    outbuffer: &mut [u8],
    ecl: QrCodeEcc,
    minversion: Version,
    maxversion: Version,
    mask: Option<Mask>,
    boostecl: bool,
) -> (r: Result<u8, DataTooLong>)
    requires
        tables.wf(),
        minversion.wf(),
        maxversion.wf(),
        minversion.0 <= maxversion.0,
        mask.is_some() ==> mask.unwrap().wf(),
        old(outbuffer).len() >= spec_buffer_len(maxversion.0 as int),
    ensures
        final(outbuffer).len() == old(outbuffer).len(),
        match spec_encode_outcome(
            data@,
            text_mode,
            ecl,
            minversion.0 as int,
            maxversion.0 as int,
            boostecl,
        ) {
            Err(kind) => r == Err::<u8, DataTooLong>(kind) && final(outbuffer)@ == old(outbuffer)@,
            Ok((v, e, cw)) => {
                &&& r == Ok::<u8, DataTooLong>(spec_size(v) as u8)
                &&& minversion.0 <= v <= maxversion.0
                &&& holds_symbol(final(outbuffer)@, final_grid(cw, v, e, mask), v)
                &&& forall|i: int|
                    spec_buffer_len(v) <= i < old(outbuffer).len() ==> final(outbuffer)@[i] == old(
                        outbuffer,
                    )@[i]
            },
        },
{
    proof {
        reveal(spec_encode_outcome);
    }
    let buflen = maxversion.buffer_len();
    let ghost lo = minversion.0 as int;
    let ghost hi = maxversion.0 as int;
    proof {
        let sb = spec_size(hi);
        assert(sb * sb <= 177 * 177) by (nonlinear_arith)
            requires
                0 <= sb <= 177,
        ;
    }
    let segs = match payload_segments(tables, data, text_mode, buflen) {
        Some(segs) => segs,
        None => {
            return Err(DataTooLong::SegmentTooLong);
        },
    };
    let encoded = QrCode::encode_segments_to_codewords(
        segs.as_slice(),
        ecl,
        minversion,
        maxversion,
        boostecl,
    );
    let (datacodewords, ecl2, version) = match encoded {
        Ok(found) => found,
        Err(e) => {
            return Err(e);
        },
    };
    proof {
        crate::encode::lemma_first_fit_range(segs_view(segs@), ecl.spec_ordinal(), lo, hi);
    }
    let qr = QrCode::encode_codewords(tables, datacodewords.as_slice(), ecl2, version, mask);
    proof {
        let sa = spec_size(version.0 as int);
        let sb = spec_size(hi);
        assert(sa * sa <= sb * sb) by (nonlinear_arith)
            requires
                0 <= sa <= sb,
        ;
    }
    write_symbol(&qr, outbuffer, Ghost(final_grid(datacodewords@, version.0 as int, ecl2, mask)));
    proof {
        reveal(holds_symbol);
    }
    Ok(qr.size())
}

/// The level named by an FFI error-correction argument.
pub open spec fn ffi_ecl(ecl: u8) -> QrCodeEcc {
    QrCodeEcc::from_ordinal(ecl as int)
}

/// The mask named by an FFI mask argument: `-1` asks for automatic choice.
pub open spec fn ffi_mask(mask: i8) -> Option<Mask> {
    if mask == -1 {
        None
    } else {
        Some(Mask(mask as u8))
    }
}

/// The payload an FFI call encodes: the given bytes, or nothing.
pub open spec fn ffi_payload(data: Option<&[u8]>) -> Seq<u8> {
    match data {
        Some(d) => d@,
        None => Seq::empty(),
    }
}

/// The error code an FFI call answers for its plain arguments, checked in
/// this order: level, versions, mask, missing buffers, payload length and
/// output length; `None` when all pass.
pub open spec fn ffi_arg_rejection(
    data_present: bool,
    data_len: u32,
    ecl: u8,
    min_version: u8,
    max_version: u8,
    mask: i8,
    out_present: bool,
    out_len: u32,
    text_mode: bool,
) -> Option<i32> {
    if ecl > 3 {
        Some(ERR_INVALID_ECC)
    } else if !(1 <= min_version <= 40) || !(1 <= max_version <= 40) || min_version > max_version {
        Some(ERR_INVALID_VERSION)
    } else if !(-1 <= mask <= 7) {
        Some(ERR_INVALID_MASK)
    } else if !out_present || (!data_present && data_len != 0) {
        Some(ERR_NULL_POINTER)
    } else if data_len > (if text_mode {
        MAX_TEXT_LEN
    } else {
        MAX_BINARY_LEN
    }) {
        Some(ERR_INPUT_TOO_LONG)
    } else if out_len < spec_buffer_len(max_version as int) {
        Some(ERR_OUTPUT_TOO_SHORT)
    } else {
        None
    }
}

/// The error code an FFI call answers before any encoding: that of its plain
/// arguments, then, for text, `ERR_INVALID_UTF8` when the payload is not
/// well-formed UTF-8; `None` when all pass.
pub open spec fn ffi_rejection(
    data_present: bool,
    data_len: u32,
    ecl: u8,
    min_version: u8,
    max_version: u8,
    mask: i8,
    out_present: bool,
    out_len: u32,
    text_mode: bool,
    payload: Seq<u8>,
) -> Option<i32> {
    match ffi_arg_rejection(
        data_present,
        data_len,
        ecl,
        min_version,
        max_version,
        mask,
        out_present,
        out_len,
        text_mode,
    ) {
        Some(code) => Some(code),
        None => if text_mode && !utf8_valid(payload) {
            Some(ERR_INVALID_UTF8)
        } else {
            None
        },
    }
}

/// What an FFI call returns and leaves in its output buffer: on a rejection
/// or a payload that does not fit, the error code and an untouched buffer;
/// otherwise the symbol's side length, with the symbol written at the front
/// of the buffer and the rest untouched.
#[verifier::opaque]
pub open spec fn ffi_outcome(
    data: Option<&[u8]>,
    data_len: u32,
    ecl: u8,
    min_version: u8,
    max_version: u8,
    mask: i8,
    boost_ecl: u8,
    out_before: Option<Seq<u8>>,
    out_after: Option<Seq<u8>>,
    out_len: u32,
    text_mode: bool,
    r: i32,
) -> bool {
    let payload = ffi_payload(data);
    match ffi_rejection(
        data.is_some(),
        data_len,
        ecl,
        min_version,
        max_version,
        mask,
        out_before.is_some(),
        out_len,
        text_mode,
        payload,
    ) {
        Some(code) => r == code && out_after == out_before,
        None => match spec_encode_outcome(
            payload,
            text_mode,
            ffi_ecl(ecl),
            min_version as int,
            max_version as int,
            boost_ecl != 0,
        ) {
            Err(_) => r == ERR_DATA_TOO_LONG && out_after == out_before,
            Ok((v, e, cw)) => {
                let before = out_before.unwrap();
                let after = out_after.unwrap();
                &&& out_after is Some
                &&& r == spec_size(v)
                &&& min_version <= v <= max_version
                &&& after.len() == before.len()
                &&& holds_symbol(after, final_grid(cw, v, e, ffi_mask(mask)), v)
                &&& forall|i: int| spec_buffer_len(v) <= i < before.len() ==> after[i] == before[i]
            },
        },
    }
}

/// Checks the plain FFI arguments in the order `ffi_arg_rejection` gives and
/// returns the level, version bounds and mask they name.
fn check_ffi_args(
    data_present: bool,
    data_len: u32,
    ecl: u8,
    min_version: u8,
    max_version: u8,
    mask: i8,
    out_present: bool,
    out_len: u32,
    text_mode: bool,
) -> (r: Result<(QrCodeEcc, Version, Version, Option<Mask>), i32>)
    ensures
        match ffi_arg_rejection(
            data_present,
            data_len,
            ecl,
            min_version,
            max_version,
            mask,
            out_present,
            out_len,
            text_mode,
        ) {
            Some(code) => r == Err::<(QrCodeEcc, Version, Version, Option<Mask>), i32>(code),
            None => r matches Ok((e, lo, hi, m)) && e == ffi_ecl(ecl) && lo.0 == min_version
                && hi.0 == max_version && lo.wf() && hi.wf() && lo.0 <= hi.0 && m == ffi_mask(mask)
                && (m.is_some() ==> m.unwrap().wf()),
        },
{
    let ecl = match QrCodeEcc::from_ffi(ecl) {
        Some(e) => e,
        None => {
            return Err(ERR_INVALID_ECC);
        },
    };
    let min_version = match Version::try_new(min_version) {
        Some(v) => v,
        None => {
            return Err(ERR_INVALID_VERSION);
        },
    };
    let max_version = match Version::try_new(max_version) {
        Some(v) => v,
        None => {
            return Err(ERR_INVALID_VERSION);
        },
    };
    if min_version.value() > max_version.value() {
        return Err(ERR_INVALID_VERSION);
    }
    let mask = match Mask::from_ffi(mask) {
        Some(m) => m,
        None => {
            return Err(ERR_INVALID_MASK);
        },
    };
    if !out_present || (!data_present && data_len != 0) {
        return Err(ERR_NULL_POINTER);
    }
    let limit = if text_mode {
        MAX_TEXT_LEN
    } else {
        MAX_BINARY_LEN
    };
    if data_len > limit {
        return Err(ERR_INPUT_TOO_LONG);
    }
    let needed_out_len = max_version.buffer_len();
    if (out_len as usize) < needed_out_len {
        return Err(ERR_OUTPUT_TOO_SHORT);
    }
    Ok((ecl, min_version, max_version, mask))
}

/// Checks the FFI arguments in the order `ffi_rejection` gives, then encodes
/// the payload into `out`.
fn encode_ffi(
    data: Option<&[u8]>,
    data_len: u32,
    ecl: u8,
    min_version: u8,
    max_version: u8,
    mask: i8,
    boost_ecl: u8,
    out: Option<&mut [u8]>,
    out_len: u32,
    text_mode: bool,
) -> (r: i32)
    requires
        data matches Some(d) ==> d.len() == data_len,
        out matches Some(o) ==> o.len() == out_len,
    ensures
        out matches Some(o) ==> ffi_outcome(
            data,
            data_len,
            ecl,
            min_version,
            max_version,
            mask,
            boost_ecl,
            Some(o@),
            Some(final(o)@),
            out_len,
            text_mode,
            r,
        ),
        out is None ==> ffi_outcome(
            data,
            data_len,
            ecl,
            min_version,
            max_version,
            mask,
            boost_ecl,
            None,
            None,
            out_len,
            text_mode,
            r,
        ),
{
    let checked = check_ffi_args(
        data.is_some(),
        data_len,
        ecl,
        min_version,
        max_version,
        mask,
        out.is_some(),
        out_len,
        text_mode,
    );
    let ghost ecl_arg = ecl;
    let ghost min_arg = min_version;
    let ghost max_arg = max_version;
    let ghost mask_arg = mask;
    let (ecl, min_version, max_version, mask) = match checked {
        Ok(args) => args,
        Err(code) => {
            proof {
                reveal(ffi_outcome);
            }
            return code;
        },
    };
    let out = out.unwrap();
    let empty: [u8; 0] = [];
    let input: &[u8] = match data {
        Some(d) => d,
        None => &empty,
    };
    assert(input@ == ffi_payload(data));
    if text_mode && !is_valid_utf8(input) {
        proof {
            reveal(ffi_outcome);
        }
        return ERR_INVALID_UTF8;
    }
    let tables = QrTables::build();
    let ghost payload = input@;
    let res = encode_data(
        &tables,
        input,
        text_mode,
        out,
        ecl,
        min_version,
        max_version,
        mask,
        boost_ecl != 0,
    );
    assert(ffi_rejection(
        data.is_some(),
        data_len,
        ecl_arg,
        min_arg,
        max_arg,
        mask_arg,
        true,
        out_len,
        text_mode,
        payload,
    ) == None::<i32>);
    let ghost outcome = spec_encode_outcome(
        payload,
        text_mode,
        ecl,
        min_arg as int,
        max_arg as int,
        boost_ecl != 0,
    );
    assert(ecl == ffi_ecl(ecl_arg));
    assert(mask == ffi_mask(mask_arg));
    match res {
        Ok(size) => {
            proof {
                reveal(ffi_outcome);
            }
            size as i32
        },
        Err(_) => {
            assert(outcome is Err);
            proof {
                reveal(ffi_outcome);
            }
            ERR_DATA_TOO_LONG
        },
    }
}

/// Encodes a UTF-8 text payload as a QR symbol, choosing numeric,
/// alphanumeric or byte mode, and writes the side length and the packed
/// modules into `out`. Returns the side length, or a negative error code.
pub fn kyuaru_encode_text_utf8(
    data: Option<&[u8]>,
    data_len: u32,
    ecl: u8,
    min_version: u8,
    max_version: u8,
    mask: i8,
    boost_ecl: u8,
    out: Option<&mut [u8]>,
    out_len: u32,
) -> (r: i32)
    requires
        data matches Some(d) ==> d.len() == data_len,
        out matches Some(o) ==> o.len() == out_len,
    ensures
        out matches Some(o) ==> ffi_outcome(
            data,
            data_len,
            ecl,
            min_version,
            max_version,
            mask,
            boost_ecl,
            Some(o@),
            Some(final(o)@),
            out_len,
            true,
            r,
        ),
        out is None ==> ffi_outcome(
            data,
            data_len,
            ecl,
            min_version,
            max_version,
            mask,
            boost_ecl,
            None,
            None,
            out_len,
            true,
            r,
        ),
{
    encode_ffi(data, data_len, ecl, min_version, max_version, mask, boost_ecl, out, out_len, true)
}

/// Encodes a binary payload as a QR symbol in byte mode and writes the side
/// length and the packed modules into `out`. Returns the side length, or a
/// negative error code.
pub fn kyuaru_encode_binary(
    data: Option<&[u8]>,
    data_len: u32,
    ecl: u8,
    min_version: u8,
    max_version: u8,
    mask: i8,
    boost_ecl: u8,
    out: Option<&mut [u8]>,
    out_len: u32,
) -> (r: i32)
    requires
        data matches Some(d) ==> d.len() == data_len,
        out matches Some(o) ==> o.len() == out_len,
    ensures
        out matches Some(o) ==> ffi_outcome(
            data,
            data_len,
            ecl,
            min_version,
            max_version,
            mask,
            boost_ecl,
            Some(o@),
            Some(final(o)@),
            out_len,
            false,
            r,
        ),
        out is None ==> ffi_outcome(
            data,
            data_len,
            ecl,
            min_version,
            max_version,
            mask,
            boost_ecl,
            None,
            None,
            out_len,
            false,
            r,
        ),
{
    encode_ffi(data, data_len, ecl, min_version, max_version, mask, boost_ecl, out, out_len, false)
}

/// Every answer of an encoding call is either one of the error codes, from
/// -8 to -1, or the side length `4 * v + 17` of a version `v` within the
/// requested bounds, so from 21 to 177.
pub proof fn lemma_answer_range(
    data: Option<&[u8]>,
    data_len: u32,
    ecl: u8,
    min_version: u8,
    max_version: u8,
    mask: i8,
    boost_ecl: u8,
    out_before: Option<Seq<u8>>,
    out_after: Option<Seq<u8>>,
    out_len: u32,
    text_mode: bool,
    r: i32,
)
    requires
        ffi_outcome(
            data,
            data_len,
            ecl,
            min_version,
            max_version,
            mask,
            boost_ecl,
            out_before,
            out_after,
            out_len,
            text_mode,
            r,
        ),
    ensures
        r < 0 ==> ERR_INPUT_TOO_LONG <= r <= ERR_NULL_POINTER,
        r >= 0 ==> 21 <= r <= 177 && (r - 17) % 4 == 0 && min_version <= (r - 17) / 4 <= max_version,
{
    reveal(ffi_outcome);
}

/// Encoding is deterministic: two calls with the same arguments on the same
/// output buffer give the same answer and leave the same bytes.
pub proof fn lemma_deterministic(
    data: Option<&[u8]>,
    data_len: u32,
    ecl: u8,
    min_version: u8,
    max_version: u8,
    mask: i8,
    boost_ecl: u8,
    out_before: Option<Seq<u8>>,
    out_len: u32,
    text_mode: bool,
    after1: Option<Seq<u8>>,
    r1: i32,
    after2: Option<Seq<u8>>,
    r2: i32,
)
    requires
        ffi_outcome(
            data,
            data_len,
            ecl,
            min_version,
            max_version,
            mask,
            boost_ecl,
            out_before,
            after1,
            out_len,
            text_mode,
            r1,
        ),
        ffi_outcome(
            data,
            data_len,
            ecl,
            min_version,
            max_version,
            mask,
            boost_ecl,
            out_before,
            after2,
            out_len,
            text_mode,
            r2,
        ),
    ensures
        r1 == r2,
        after1 == after2,
{
    reveal(ffi_outcome);
    reveal(holds_symbol);
    let payload = ffi_payload(data);
    if ffi_rejection(
        data.is_some(),
        data_len,
        ecl,
        min_version,
        max_version,
        mask,
        out_before.is_some(),
        out_len,
        text_mode,
        payload,
    ) is None {
        let outcome = spec_encode_outcome(
            payload,
            text_mode,
            ffi_ecl(ecl),
            min_version as int,
            max_version as int,
            boost_ecl != 0,
        );
        if outcome is Ok {
            let (v, e, cw) = outcome->Ok_0;
            let a = after1.unwrap();
            let b = after2.unwrap();
            let bl = spec_buffer_len(v);
            assert(holds_symbol(a, final_grid(cw, v, e, ffi_mask(mask)), v));
            assert(holds_symbol(b, final_grid(cw, v, e, ffi_mask(mask)), v));
            assert(a.len() == b.len());
            assert(1 <= bl <= a.len());
            crate::qrcode::lemma_packed_bits_injective(a.subrange(1, bl), b.subrange(1, bl));
            assert forall|i: int| 0 <= i < a.len() implies a[i] == b[i] by {
                if 1 <= i < bl {
                    assert(a.subrange(1, bl)[i - 1] == b.subrange(1, bl)[i - 1]);
                }
            }
            assert(a =~= b);
            assert(after1 == Some(a));
        }
    }
}

/// Boosting the error-correction level never changes whether a payload fits
/// nor the version chosen for it, and never lowers the level; without
/// boosting the requested level is kept.
pub proof fn lemma_boost_keeps_version(data: Seq<u8>, text_mode: bool, ecl: QrCodeEcc, lo: int, hi: int)
    requires
        1 <= lo <= hi <= 40,
    ensures
        ({
            let plain = spec_encode_outcome(data, text_mode, ecl, lo, hi, false);
            let boosted = spec_encode_outcome(data, text_mode, ecl, lo, hi, true);
            &&& plain is Ok <==> boosted is Ok
            &&& plain is Ok ==> {
                &&& plain->Ok_0.0 == boosted->Ok_0.0
                &&& plain->Ok_0.1 == ecl
                &&& boosted->Ok_0.1.spec_ordinal() >= ecl.spec_ordinal()
            }
        }),
{
    reveal(spec_encode_outcome);
    let buflen = spec_buffer_len(hi);
    if let Some(segs) = spec_segments(data, text_mode, buflen) {
        let ff = first_fit(segs, ecl.spec_ordinal(), lo, hi);
        crate::encode::lemma_first_fit_range(segs, ecl.spec_ordinal(), lo, hi);
        if let Some(v) = ff {
            crate::encode::lemma_first_fit_fits(segs, ecl.spec_ordinal(), lo, hi);
            let used = segs_cost(segs, v);
            crate::encode::lemma_boost_not_lower(ecl, v, used, true);
            crate::encode::lemma_boost_not_lower(ecl, v, used, false);
        }
    }
}

/// A text of digits never needs a larger version than a payload of as many
/// bytes encoded in byte mode: whenever that payload fits, the digits fit
/// too, in a version no larger.
pub proof fn lemma_numeric_no_larger_than_bytes(
    digits: Seq<u8>,
    bytes: Seq<u8>,
    bytes_as_text: bool,
    ecl: QrCodeEcc,
    lo: int,
    hi: int,
    boost_digits: bool,
    boost_bytes: bool,
)
    requires
        1 <= lo <= hi <= 40,
        digits.len() == bytes.len(),
        forall|i: int| 0 <= i < digits.len() ==> is_digit(#[trigger] digits[i]),
        bytes_as_text ==> spec_text_segment_mode(bytes) == QrSegmentMode::Byte,
        spec_encode_outcome(bytes, bytes_as_text, ecl, lo, hi, boost_bytes) is Ok,
    ensures
        spec_encode_outcome(digits, true, ecl, lo, hi, boost_digits) is Ok,
        spec_encode_outcome(digits, true, ecl, lo, hi, boost_digits)->Ok_0.0 <= spec_encode_outcome(
            bytes,
            bytes_as_text,
            ecl,
            lo,
            hi,
            boost_bytes,
        )->Ok_0.0,
{
    reveal(spec_encode_outcome);
    let n = digits.len() as int;
    let buflen = spec_buffer_len(hi);
    let e = ecl.spec_ordinal();
    if n == 0 {
        assert(digits =~= bytes);
        assert(spec_segments(digits, true, buflen) == spec_segments(bytes, bytes_as_text, buflen));
    } else {
        let sb = SegSpec { mode: QrSegmentMode::Byte, numchars: bytes.len(), bits: bytes_to_bits(bytes) };
        let sn = SegSpec { mode: QrSegmentMode::Numeric, numchars: digits.len(), bits: numeric_bits(digits) };
        assert(spec_segments(bytes, bytes_as_text, buflen) == Some(seq![sb]));
        assert(n <= buflen);
        assert(spec_text_segment_mode(digits) == QrSegmentMode::Numeric);
        let sz = spec_size(hi);
        assert(sz * sz <= 177 * 177) by (nonlinear_arith)
            requires
                0 <= sz <= 177,
        ;
        assert(n <= 4000);
        assert((n * 10 + 2) / 3 <= n * 8);
        assert(spec_calc_bit_length(QrSegmentMode::Numeric, n).is_some());
        assert((spec_bit_length(QrSegmentMode::Numeric, n) + 7) / 8 <= n);
        assert(spec_segments(digits, true, buflen) == Some(seq![sn]));
        assert forall|w: int| lo <= w <= hi && #[trigger] version_fits(seq![sb], w, e) implies version_fits(
            seq![sn],
            w,
            e,
        ) by {
            crate::encode::lemma_numeric_fits_where_bytes_fit(digits, bytes, w, e);
        }
        crate::encode::lemma_first_fit_dominated(seq![sn], seq![sb], e, lo, hi);
    }
}

} // verus!
