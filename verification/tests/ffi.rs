use lib::{
    kyuaru_encode_binary, kyuaru_encode_text_utf8, ERR_DATA_TOO_LONG, ERR_INPUT_TOO_LONG,
    ERR_INVALID_ECC, ERR_INVALID_MASK, ERR_INVALID_UTF8, ERR_INVALID_VERSION, ERR_NULL_POINTER,
    ERR_OUTPUT_TOO_SHORT, MAX_BINARY_LEN, MAX_BUFFER_LEN, MAX_TEXT_LEN,
};

fn module_at(out: &[u8], size: usize, x: usize, y: usize) -> bool {
    let index = y * size + x;
    (out[1 + (index >> 3)] >> (index & 7)) & 1 != 0
}

fn text_into(input: &[u8], ecl: u8, min_v: u8, max_v: u8, mask: i8, boost: u8, out: &mut [u8]) -> i32 {
    let out_len = out.len() as u32;
    kyuaru_encode_text_utf8(
        Some(input),
        input.len() as u32,
        ecl,
        min_v,
        max_v,
        mask,
        boost,
        Some(out),
        out_len,
    )
}

fn binary_into(input: &[u8], ecl: u8, min_v: u8, max_v: u8, mask: i8, boost: u8, out: &mut [u8]) -> i32 {
    let out_len = out.len() as u32;
    kyuaru_encode_binary(
        Some(input),
        input.len() as u32,
        ecl,
        min_v,
        max_v,
        mask,
        boost,
        Some(out),
        out_len,
    )
}

fn run_text(input: &[u8], ecl: u8, min_v: u8, max_v: u8, mask: i8, boost: u8) -> i32 {
    let mut out = [0u8; MAX_BUFFER_LEN];
    text_into(input, ecl, min_v, max_v, mask, boost, &mut out)
}

fn run_binary(input: &[u8], ecl: u8, min_v: u8, max_v: u8, mask: i8, boost: u8) -> i32 {
    let mut out = [0u8; MAX_BUFFER_LEN];
    binary_into(input, ecl, min_v, max_v, mask, boost, &mut out)
}

#[test]
fn encodes_text_with_finder_modules() {
    let input = b"HELLO WORLD";
    let mut out = [0u8; MAX_BUFFER_LEN];
    let size = text_into(input, 1, 1, 40, -1, 1, &mut out);

    assert_eq!(size, 21);
    assert_eq!(out[0], 21);
    assert!(module_at(&out, 21, 0, 0));
    assert!(module_at(&out, 21, 6, 6));
    assert!(!module_at(&out, 21, 7, 7));
}

#[test]
fn rejects_invalid_text_utf8_but_accepts_binary() {
    let input = [0xFF];
    let mut out = [0u8; MAX_BUFFER_LEN];
    let text = text_into(&input, 1, 1, 40, -1, 1, &mut out);
    let binary = binary_into(&input, 1, 1, 40, -1, 1, &mut out);

    assert_eq!(text, ERR_INVALID_UTF8);
    assert_eq!(binary, 21);
}

#[test]
fn rejects_too_small_output_buffer() {
    let input = b"abc";
    let mut out = [0u8; 8];
    let result = text_into(input, 1, 1, 40, -1, 1, &mut out);

    assert_eq!(result, ERR_OUTPUT_TOO_SHORT);
}

#[test]
fn rejects_invalid_ecc_above_3() {
    assert_eq!(run_text(b"hi", 4, 1, 40, -1, 0), ERR_INVALID_ECC);
    assert_eq!(run_text(b"hi", 255, 1, 40, -1, 0), ERR_INVALID_ECC);
}

#[test]
fn rejects_invalid_version() {
    assert_eq!(run_text(b"hi", 1, 0, 40, -1, 0), ERR_INVALID_VERSION);
    assert_eq!(run_text(b"hi", 1, 1, 41, -1, 0), ERR_INVALID_VERSION);
    // min > max
    assert_eq!(run_text(b"hi", 1, 10, 5, -1, 0), ERR_INVALID_VERSION);
}

#[test]
fn rejects_invalid_mask() {
    assert_eq!(run_text(b"hi", 1, 1, 40, -2, 0), ERR_INVALID_MASK);
    assert_eq!(run_text(b"hi", 1, 1, 40, 8, 0), ERR_INVALID_MASK);
}

#[test]
fn rejects_data_too_long_for_version_range() {
    let input = vec![b'x'; 1000];
    // 1000 bytes far exceeds v5 byte capacity.
    assert_eq!(run_text(&input, 0, 1, 5, -1, 0), ERR_DATA_TOO_LONG);
}

#[test]
fn rejects_input_too_long_above_spec_maximum() {
    // Text mode caps at MAX_TEXT_LEN = 7089.
    let input = vec![b'0'; (MAX_TEXT_LEN + 1) as usize];
    assert_eq!(run_text(&input, 1, 1, 40, -1, 0), ERR_INPUT_TOO_LONG);

    // Binary mode caps at MAX_BINARY_LEN = 2953.
    let bin = vec![0u8; (MAX_BINARY_LEN + 1) as usize];
    assert_eq!(run_binary(&bin, 1, 1, 40, -1, 0), ERR_INPUT_TOO_LONG);
}

#[test]
fn rejects_null_data_pointer_when_len_nonzero() {
    let mut out = [0u8; MAX_BUFFER_LEN];
    let out_len = out.len() as u32;
    let result = kyuaru_encode_text_utf8(None, 5, 1, 1, 40, -1, 0, Some(&mut out[..]), out_len);
    assert_eq!(result, ERR_NULL_POINTER);
}

#[test]
fn rejects_null_output_pointer() {
    let input = b"hi";
    let result = kyuaru_encode_text_utf8(
        Some(&input[..]),
        input.len() as u32,
        1,
        1,
        40,
        -1,
        0,
        None,
        MAX_BUFFER_LEN as u32,
    );
    assert_eq!(result, ERR_NULL_POINTER);
}

#[test]
fn empty_input_yields_version_1() {
    assert_eq!(run_text(b"", 1, 1, 40, -1, 0), 21);
    assert_eq!(run_binary(b"", 1, 1, 40, -1, 0), 21);
}

#[test]
fn all_four_ecls_encode_short_text() {
    for ecl in 0u8..=3 {
        let size = run_text(b"hi", ecl, 1, 40, -1, 0);
        assert!(size >= 21, "ECL {ecl}: got size {size}");
    }
}

#[test]
fn all_eight_masks_explicit() {
    for mask in 0i8..=7 {
        let size = run_text(b"hi", 1, 1, 40, mask, 0);
        assert!(size >= 21, "mask {mask}: got size {size}");
    }
}

#[test]
fn boost_ecl_never_decreases_capacity() {
    // For a short input that easily fits L, boostEcl=true should produce
    // the same size (version) and ideally a higher ECL.
    let without = run_text(b"hi", 0, 1, 40, -1, 0);
    let with = run_text(b"hi", 0, 1, 40, -1, 1);
    assert_eq!(without, with, "boost_ecl shouldn't change the picked version");
}

#[test]
fn numeric_segment_packs_tighter_than_byte_mode() {
    // Same length in numeric vs byte-mode should pick a smaller version in numeric.
    let numeric_size = run_text(b"12345678901234567890", 1, 1, 40, -1, 0);
    let bytemode_size = run_text(b"abcdefghijklmnopqrst", 1, 1, 40, -1, 0);
    assert!(
        numeric_size <= bytemode_size,
        "numeric segment should fit in <= the version a byte segment needs"
    );
}

#[test]
fn alphanumeric_segment_used_for_uppercase_ascii() {
    // "HELLO" is alphanumeric; should fit in a small version.
    let size = run_text(b"HELLO", 1, 1, 40, -1, 0);
    assert_eq!(size, 21);
}

#[test]
fn boundary_input_at_text_spec_max_succeeds_at_max_version() {
    let input = vec![b'0'; MAX_TEXT_LEN as usize];
    let size = run_text(&input, 0, 1, 40, -1, 0);
    // MAX_TEXT_LEN numerics at ECL L fit in version 40 (size 177).
    assert_eq!(size, 177);
}

/// A small deterministic generator for varied inputs.
fn next(state: &mut u64) -> u64 {
    *state = state.wrapping_mul(6364136223846793005).wrapping_add(1442695040888963407);
    *state >> 33
}

#[test]
fn binary_answers_are_sizes_in_range_or_error_codes() {
    let mut state = 7u64;
    for _ in 0..40 {
        let len = (next(&mut state) % 201) as usize;
        let bytes: Vec<u8> = (0..len).map(|_| next(&mut state) as u8).collect();
        let ecl = (next(&mut state) % 4) as u8;
        let a = (next(&mut state) % 40 + 1) as u8;
        let b = (next(&mut state) % 40 + 1) as u8;
        let (lo, hi) = if a <= b { (a, b) } else { (b, a) };
        let mask = (next(&mut state) % 9) as i8 - 1;
        let boost = (next(&mut state) % 2) as u8;
        let result = run_binary(&bytes, ecl, lo, hi, mask, boost);
        if result >= 0 {
            assert!(result >= 21 && result <= 177);
            assert_eq!((result - 17) % 4, 0);
            let v = ((result as u8) - 17) / 4;
            assert!(v >= lo && v <= hi);
        } else {
            assert_eq!(result, ERR_DATA_TOO_LONG);
        }
    }
}

#[test]
fn encoding_is_deterministic() {
    let mut state = 11u64;
    for _ in 0..12 {
        let len = (next(&mut state) % 101) as usize;
        let bytes: Vec<u8> = (0..len).map(|_| next(&mut state) as u8).collect();
        let ecl = (next(&mut state) % 4) as u8;
        let mask = (next(&mut state) % 8) as i8;
        let mut out1 = [0u8; MAX_BUFFER_LEN];
        let mut out2 = [0u8; MAX_BUFFER_LEN];
        let s1 = binary_into(&bytes, ecl, 1, 40, mask, 0, &mut out1);
        let s2 = binary_into(&bytes, ecl, 1, 40, mask, 0, &mut out2);
        assert_eq!(s1, s2);
        if s1 >= 0 {
            assert_eq!(out1, out2);
        }
    }
}

#[test]
fn output_bytes_past_the_symbol_are_untouched() {
    let mut out = [0xAAu8; MAX_BUFFER_LEN];
    let size = text_into(b"HELLO WORLD", 1, 1, 40, -1, 0, &mut out);
    assert_eq!(size, 21);
    // 21 * 21 = 441 modules take 56 bytes after the size byte.
    assert!(out[57..].iter().all(|&b| b == 0xAA));
    // The seven unused bits of the last byte are clear.
    assert_eq!(out[56] >> 1, 0);
}

#[test]
fn rejections_leave_the_output_untouched() {
    let mut out = [0x5Au8; MAX_BUFFER_LEN];
    assert_eq!(text_into(b"hi", 9, 1, 40, -1, 0, &mut out), ERR_INVALID_ECC);
    assert_eq!(text_into(&[0xC3], 1, 1, 40, -1, 0, &mut out), ERR_INVALID_UTF8);
    let long = vec![b'x'; 1000];
    assert_eq!(text_into(&long, 0, 1, 5, -1, 0, &mut out), ERR_DATA_TOO_LONG);
    assert!(out.iter().all(|&b| b == 0x5A));
}

#[test]
fn error_codes_come_in_documented_order() {
    // An invalid level is reported before an invalid version or mask.
    assert_eq!(run_text(b"hi", 7, 0, 41, 9, 0), ERR_INVALID_ECC);
    // An invalid version before an invalid mask.
    assert_eq!(run_text(b"hi", 0, 0, 40, 9, 0), ERR_INVALID_VERSION);
    // A missing output buffer before an over-long payload.
    let long = vec![b'0'; (MAX_TEXT_LEN + 1) as usize];
    let result = kyuaru_encode_text_utf8(
        Some(&long[..]),
        long.len() as u32,
        0,
        1,
        40,
        -1,
        0,
        None,
        0,
    );
    assert_eq!(result, ERR_NULL_POINTER);
    // An over-long payload before a short output buffer.
    let mut small = [0u8; 4];
    assert_eq!(text_into(&long, 0, 1, 40, -1, 0, &mut small), ERR_INPUT_TOO_LONG);
    // A short output buffer before invalid UTF-8.
    assert_eq!(text_into(&[0xFF], 0, 1, 40, -1, 0, &mut small), ERR_OUTPUT_TOO_SHORT);
}

#[test]
fn output_buffer_sized_for_max_version_suffices() {
    // Version 1 needs (21 * 21 + 7) / 8 + 1 = 57 bytes.
    let mut out = [0u8; 57];
    assert_eq!(text_into(b"hi", 0, 1, 1, -1, 0, &mut out), 21);
    let mut short = [0u8; 56];
    assert_eq!(text_into(b"hi", 0, 1, 1, -1, 0, &mut short), ERR_OUTPUT_TOO_SHORT);
}

#[test]
fn empty_payload_without_data_is_accepted() {
    let mut out = [0u8; MAX_BUFFER_LEN];
    let out_len = out.len() as u32;
    let result = kyuaru_encode_binary(None, 0, 0, 3, 40, -1, 0, Some(&mut out[..]), out_len);
    assert_eq!(result, 29);
    assert_eq!(out[0], 29);
}

#[test]
fn minimum_version_is_respected() {
    assert_eq!(run_text(b"hi", 0, 7, 40, -1, 0), 45);
}

#[test]
fn longest_binary_payload_fits_version_40_at_low() {
    let bin = vec![0x41u8; MAX_BINARY_LEN as usize];
    assert_eq!(run_binary(&bin, 0, 1, 40, -1, 0), 177);
    assert_eq!(run_binary(&bin, 1, 1, 40, -1, 0), ERR_DATA_TOO_LONG);
}

#[test]
fn text_must_be_well_formed_utf8() {
    // Valid: two-, three- and four-byte sequences.
    assert_eq!(run_text("héllo".as_bytes(), 0, 1, 40, -1, 0), 21);
    assert_eq!(run_text("日本".as_bytes(), 0, 1, 40, -1, 0), 21);
    assert_eq!(run_text(&[0xF0, 0x9F, 0x98, 0x80], 0, 1, 40, -1, 0), 21);
    // Overlong, surrogate, beyond U+10FFFF, truncated, stray continuation.
    for bad in [
        &[0xC0u8, 0x80][..],
        &[0xE0, 0x80, 0x80][..],
        &[0xED, 0xA0, 0x80][..],
        &[0xF4, 0x90, 0x80, 0x80][..],
        &[0xE6, 0x97][..],
        &[0x41, 0x80][..],
        &[0xF5, 0x80, 0x80, 0x80][..],
    ] {
        assert_eq!(run_text(bad, 0, 1, 40, -1, 0), ERR_INVALID_UTF8);
        assert_eq!(run_binary(bad, 0, 1, 40, -1, 0), 21);
    }
}
