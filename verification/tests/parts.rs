use lib::bits::{get_bit, BitBuffer};
use lib::encode_data;
use lib::gf::{
    build_gf_tables, build_rs_generator, build_rs_generators, gf_multiply, gf_multiply_const,
    reed_solomon_remainder,
};
use lib::params::{DataTooLong, Mask, QrCodeEcc, Version};
use lib::penalty::FinderPenalty;
use lib::qrcode::{alignment_pattern_overlaps_finder, QrCode};
use lib::segment::{
    alphanumeric_value, build_alphanumeric_values, classify_text_segment_mode, QrSegment,
    QrSegmentMode,
};
use lib::tables::QrTables;

const HELLO_WORLD_M_DATA: [u8; 16] = [
    32, 91, 11, 120, 209, 114, 220, 77, 67, 64, 236, 17, 236, 17, 236, 17,
];
const HELLO_WORLD_M_ECC: [u8; 10] = [196, 35, 39, 119, 235, 215, 231, 226, 93, 23];

#[test]
fn gf_products_follow_the_field_polynomial() {
    let tables = build_gf_tables();
    assert_eq!(gf_multiply_const(0x02, 0x80), 0x1D);
    assert_eq!(gf_multiply_const(3, 7), 9);
    assert_eq!(gf_multiply(&tables, 0x02, 0x80), 0x1D);
    assert_eq!(gf_multiply(&tables, 3, 7), 9);
    assert_eq!(gf_multiply(&tables, 0, 0x53), 0);
    for x in 0..=255u8 {
        assert_eq!(gf_multiply(&tables, x, 1), x);
        for y in [0u8, 1, 2, 0x1D, 0x80, 0xFF] {
            assert_eq!(gf_multiply(&tables, x, y), gf_multiply_const(x, y));
            assert_eq!(gf_multiply(&tables, x, y), gf_multiply(&tables, y, x));
        }
    }
}

#[test]
fn gf_tables_hold_powers_of_two() {
    let (exp, log) = build_gf_tables();
    assert_eq!(exp[0], 1);
    assert_eq!(exp[1], 2);
    assert_eq!(exp[8], 0x1D);
    assert_eq!(exp[255], 1);
    assert_eq!(log[2], 1);
    assert_eq!(log[0x1D], 8);
    for i in 0..255usize {
        assert_eq!(log[exp[i] as usize] as usize, i);
        assert_eq!(exp[i + 255], exp[i]);
    }
}

#[test]
fn rs_generators_have_the_expected_coefficients() {
    let g2 = build_rs_generator(2);
    assert_eq!(&g2[..2], &[3, 2]);
    assert!(g2[2..].iter().all(|&c| c == 0));
    assert!(build_rs_generator(0).iter().all(|&c| c == 0));
    let all = build_rs_generators();
    for d in 0..=30usize {
        assert_eq!(all[d], build_rs_generator(d));
    }
}

#[test]
fn rs_remainder_of_known_codewords() {
    let tables = build_gf_tables();
    let gen = build_rs_generator(10);
    let mut result = vec![0u8; 10];
    reed_solomon_remainder(&tables, &HELLO_WORLD_M_DATA, &gen[..10], &mut result);
    assert_eq!(result, HELLO_WORLD_M_ECC.to_vec());
    // The remainder of the empty message is zero.
    let mut empty = vec![7u8; 10];
    reed_solomon_remainder(&tables, &[], &gen[..10], &mut empty);
    assert_eq!(empty, vec![0u8; 10]);
}

#[test]
fn alphanumeric_values_follow_the_charset() {
    let table = build_alphanumeric_values();
    assert_eq!(alphanumeric_value(&table, 48), Some(0));
    assert_eq!(alphanumeric_value(&table, 65), Some(10));
    assert_eq!(alphanumeric_value(&table, 90), Some(35));
    assert_eq!(alphanumeric_value(&table, 32), Some(36));
    assert_eq!(alphanumeric_value(&table, 58), Some(44));
    assert_eq!(alphanumeric_value(&table, 97), None);
    assert_eq!(alphanumeric_value(&table, 200), None);
}

#[test]
fn text_mode_classification() {
    let table = build_alphanumeric_values();
    assert_eq!(classify_text_segment_mode(&table, b"0123"), QrSegmentMode::Numeric);
    assert_eq!(classify_text_segment_mode(&table, b""), QrSegmentMode::Numeric);
    assert_eq!(classify_text_segment_mode(&table, b"HELLO WORLD 1"), QrSegmentMode::Alphanumeric);
    assert_eq!(classify_text_segment_mode(&table, b"Hello"), QrSegmentMode::Byte);
    assert_eq!(classify_text_segment_mode(&table, &[0xFF]), QrSegmentMode::Byte);
}

#[test]
fn segment_lengths() {
    assert_eq!(QrSegment::calc_bit_length(QrSegmentMode::Numeric, 8), Some(27));
    assert_eq!(QrSegment::calc_bit_length(QrSegmentMode::Alphanumeric, 11), Some(61));
    assert_eq!(QrSegment::calc_bit_length(QrSegmentMode::Byte, 3), Some(24));
    assert_eq!(QrSegment::calc_buffer_size(QrSegmentMode::Alphanumeric, 11), Some(8));
    assert_eq!(QrSegment::calc_buffer_size(QrSegmentMode::Numeric, 8), Some(4));
    assert_eq!(QrSegment::calc_bit_length(QrSegmentMode::Byte, usize::MAX), None);
    assert_eq!(QrSegmentMode::Numeric.mode_bits(), 1);
    assert_eq!(QrSegmentMode::Alphanumeric.mode_bits(), 2);
    assert_eq!(QrSegmentMode::Byte.mode_bits(), 4);
    assert_eq!(QrSegmentMode::Numeric.num_char_count_bits(Version::new(1)), 10);
    assert_eq!(QrSegmentMode::Numeric.num_char_count_bits(Version::new(10)), 12);
    assert_eq!(QrSegmentMode::Numeric.num_char_count_bits(Version::new(27)), 14);
    assert_eq!(QrSegmentMode::Alphanumeric.num_char_count_bits(Version::new(9)), 9);
    assert_eq!(QrSegmentMode::Byte.num_char_count_bits(Version::new(9)), 8);
    assert_eq!(QrSegmentMode::Byte.num_char_count_bits(Version::new(40)), 16);
}

#[test]
fn numeric_segment_bits() {
    let seg = QrSegment::make_numeric(b"01234567", vec![0u8; 4]);
    assert_eq!(seg.mode, QrSegmentMode::Numeric);
    assert_eq!(seg.numchars, 8);
    assert_eq!(seg.bitlength, 27);
    assert_eq!(seg.data, vec![0x03, 0x15, 0x98, 0x60]);
}

#[test]
fn alphanumeric_segment_bits() {
    let table = build_alphanumeric_values();
    let seg = QrSegment::make_alphanumeric(&table, b"AC-42", vec![0u8; 4]);
    assert_eq!(seg.mode, QrSegmentMode::Alphanumeric);
    assert_eq!(seg.numchars, 5);
    assert_eq!(seg.bitlength, 28);
    // "AC" = 462, "-4" = 1849, "2" = 2: 00111001110 11100111001 000010
    assert_eq!(seg.data, vec![0x39, 0xDC, 0xE4, 0x20]);
}

#[test]
fn byte_segment_copies_its_data() {
    let seg = QrSegment::make_bytes(&[1, 2, 255]);
    assert_eq!(seg.mode, QrSegmentMode::Byte);
    assert_eq!(seg.numchars, 3);
    assert_eq!(seg.bitlength, 24);
    assert_eq!(seg.data, vec![1, 2, 255]);
}

#[test]
fn total_bits_of_segments() {
    let table = build_alphanumeric_values();
    let seg = QrSegment::make_alphanumeric(&table, b"HELLO WORLD", vec![0u8; 8]);
    let segs = [seg];
    assert_eq!(QrSegment::get_total_bits(&segs, Version::new(1)), Some(4 + 9 + 61));
    assert_eq!(QrSegment::get_total_bits(&segs, Version::new(10)), Some(4 + 11 + 61));
    assert_eq!(QrSegment::get_total_bits(&[], Version::new(1)), Some(0));
    // 1024 digits do not fit a 10-bit count field.
    let digits = vec![b'7'; 1024];
    let big = QrSegment::make_numeric(&digits, vec![0u8; 427]);
    assert_eq!(QrSegment::get_total_bits(&[big], Version::new(9)), None);
}

#[test]
fn bit_buffer_appends_most_significant_first() {
    let mut bb = BitBuffer::new(vec![0u8; 2]);
    bb.append_bits(0b101, 3);
    bb.append_bits(0xFF, 8);
    assert_eq!(bb.length, 11);
    assert_eq!(bb.data, vec![0xBF, 0xE0]);
    let mut bb2 = BitBuffer::new(vec![0u8; 3]);
    bb2.append_bits(1, 1);
    bb2.append_data(&[0xF0, 0x80], 9);
    assert_eq!(bb2.length, 10);
    assert_eq!(bb2.data, vec![0xF8, 0x40, 0x00]);
    assert!(get_bit(0b1010, 1));
    assert!(!get_bit(0b1010, 0));
    assert!(get_bit(0x8000_0000, 31));
}

#[test]
fn codewords_of_hello_world_at_medium() {
    let table = build_alphanumeric_values();
    let seg = QrSegment::make_alphanumeric(&table, b"HELLO WORLD", vec![0u8; 8]);
    let result = QrCode::encode_segments_to_codewords(
        &[seg],
        QrCodeEcc::Medium,
        Version::new(1),
        Version::new(40),
        false,
    );
    let (data, ecl, version) = result.unwrap();
    assert_eq!(data, HELLO_WORLD_M_DATA.to_vec());
    assert_eq!(ecl, QrCodeEcc::Medium);
    assert_eq!(version, Version::new(1));
}

#[test]
fn boosting_raises_the_level_within_the_version() {
    let table = build_alphanumeric_values();
    let seg = QrSegment::make_alphanumeric(&table, b"HELLO WORLD", vec![0u8; 8]);
    let (_, ecl, version) = QrCode::encode_segments_to_codewords(
        &[seg],
        QrCodeEcc::Low,
        Version::new(1),
        Version::new(40),
        true,
    )
    .unwrap();
    // 74 bits fit the 13 data codewords of level Quartile but not the 9 of High.
    assert_eq!(ecl, QrCodeEcc::Quartile);
    assert_eq!(version, Version::new(1));
}

#[test]
fn codewords_report_why_data_does_not_fit() {
    let big = QrSegment::make_bytes(&[0u8; 100]);
    let over = QrCode::encode_segments_to_codewords(
        &[big],
        QrCodeEcc::Low,
        Version::new(1),
        Version::new(3),
        false,
    );
    assert_eq!(over.unwrap_err(), DataTooLong::DataOverCapacity);
    let digits = vec![b'1'; 1024];
    let seg = QrSegment::make_numeric(&digits, vec![0u8; 427]);
    let too_long = QrCode::encode_segments_to_codewords(
        &[seg],
        QrCodeEcc::Low,
        Version::new(1),
        Version::new(9),
        false,
    );
    assert_eq!(too_long.unwrap_err(), DataTooLong::SegmentTooLong);
}

#[test]
fn ecc_is_appended_and_interleaved() {
    let tables = QrTables::build();
    let all = QrCode::add_ecc_and_interleave(&tables, &HELLO_WORLD_M_DATA, Version::new(1), QrCodeEcc::Medium);
    let mut expected = HELLO_WORLD_M_DATA.to_vec();
    expected.extend_from_slice(&HELLO_WORLD_M_ECC);
    assert_eq!(all, expected);
    // Version 5 at Quartile: two blocks of 15 and two of 16 data codewords.
    let data: Vec<u8> = (0..62u8).collect();
    let inter = QrCode::add_ecc_and_interleave(&tables, &data, Version::new(5), QrCodeEcc::Quartile);
    assert_eq!(inter.len(), 134);
    assert_eq!(&inter[..8], &[0, 15, 30, 46, 1, 16, 31, 47]);
    // The last data codewords come from the long blocks only.
    assert_eq!(&inter[56..62], &[14, 29, 44, 60, 45, 61]);
}

#[test]
fn capacity_tables() {
    assert_eq!(QrCode::get_num_raw_data_modules(Version::new(1)), 208);
    assert_eq!(QrCode::get_num_raw_data_modules(Version::new(7)), 1568);
    assert_eq!(QrCode::get_num_raw_data_modules(Version::new(40)), 29648);
    assert_eq!(QrCode::get_num_data_codewords(Version::new(1), QrCodeEcc::Low), 19);
    assert_eq!(QrCode::get_num_data_codewords(Version::new(1), QrCodeEcc::Medium), 16);
    assert_eq!(QrCode::get_num_data_codewords(Version::new(1), QrCodeEcc::Quartile), 13);
    assert_eq!(QrCode::get_num_data_codewords(Version::new(1), QrCodeEcc::High), 9);
    assert_eq!(QrCode::get_num_data_codewords(Version::new(40), QrCodeEcc::Low), 2956);
    assert_eq!(
        QrCode::table_get(&lib::params::ECC_CODEWORDS_PER_BLOCK, Version::new(5), QrCodeEcc::Quartile),
        18
    );
    assert_eq!(
        QrCode::table_get(&lib::params::NUM_ERROR_CORRECTION_BLOCKS, Version::new(40), QrCodeEcc::High),
        81
    );
}

#[test]
fn version_level_and_mask_arguments() {
    assert_eq!(Version::try_new(0), None);
    assert_eq!(Version::try_new(41), None);
    assert_eq!(Version::try_new(40), Some(Version::new(40)));
    assert_eq!(Version::new(7).value(), 7);
    assert_eq!(Version::new(1).buffer_len(), 57);
    assert_eq!(Version::new(40).buffer_len(), 3918);
    assert_eq!(Mask::from_ffi(-1), Some(None));
    assert_eq!(Mask::from_ffi(3), Some(Some(Mask::new(3))));
    assert_eq!(Mask::from_ffi(8), None);
    assert_eq!(Mask::from_ffi(-2), None);
    assert_eq!(Mask::new(5).value(), 5);
    assert_eq!(QrCodeEcc::from_ffi(2), Some(QrCodeEcc::Quartile));
    assert_eq!(QrCodeEcc::from_ffi(4), None);
    assert_eq!(QrCodeEcc::High.ordinal(), 3);
    assert_eq!(QrCodeEcc::Low.format_bits(), 1);
    assert_eq!(QrCodeEcc::Medium.format_bits(), 0);
    assert_eq!(QrCodeEcc::Quartile.format_bits(), 3);
    assert_eq!(QrCodeEcc::High.format_bits(), 2);
}

#[test]
fn alignment_positions() {
    let v1 = QrCode::function_modules_marked(Version::new(1));
    assert_eq!(v1.get_alignment_pattern_positions(), Vec::<u8>::new());
    let v2 = QrCode::function_modules_marked(Version::new(2));
    assert_eq!(v2.get_alignment_pattern_positions(), vec![6, 18]);
    let v7 = QrCode::function_modules_marked(Version::new(7));
    assert_eq!(v7.get_alignment_pattern_positions(), vec![6, 22, 38]);
    let v40 = QrCode::function_modules_marked(Version::new(40));
    assert_eq!(v40.get_alignment_pattern_positions(), vec![6, 30, 58, 86, 114, 142, 170]);
    assert!(alignment_pattern_overlaps_finder(0, 0, 2));
    assert!(alignment_pattern_overlaps_finder(0, 2, 2));
    assert!(alignment_pattern_overlaps_finder(2, 0, 2));
    assert!(!alignment_pattern_overlaps_finder(2, 2, 2));
    assert!(!alignment_pattern_overlaps_finder(1, 1, 2));
}

#[test]
fn function_modules_of_version_one() {
    let f = QrCode::function_modules_marked(Version::new(1));
    assert_eq!(f.size(), 21);
    assert_eq!(f.version(), Version::new(1));
    assert!(f.get_module_bounded(0, 0));
    assert!(f.get_module_bounded(8, 8));
    assert!(f.get_module_bounded(6, 12));
    assert!(f.get_module_bounded(20, 0));
    assert!(!f.get_module_bounded(10, 10));
    assert!(!f.get_module_bounded(20, 20));
    assert!(!f.get_module_bounded(9, 9));
}

#[test]
fn setting_and_flipping_modules() {
    let mut qr = QrCode { size: 21, modules: vec![0u8; 56] };
    qr.set_module_bounded(3, 4, true);
    assert!(qr.get_module_bounded(3, 4));
    assert_eq!(qr.modules[(4 * 21 + 3) / 8], 1 << ((4 * 21 + 3) % 8));
    qr.flip_module_bounded(3, 4);
    assert!(!qr.get_module_bounded(3, 4));
    qr.flip_module_bounded(20, 20);
    assert!(qr.get_module_bounded(20, 20));
    qr.set_module_unbounded(-1, 0, true);
    qr.set_module_unbounded(21, 0, true);
    qr.set_module_unbounded(5, 5, true);
    assert!(qr.get_module_bounded(5, 5));
    assert_eq!(qr.modules.iter().map(|b| b.count_ones()).sum::<u32>(), 2);
    qr.fill_rectangle(0, 0, 2, 3);
    for y in 0..21u8 {
        for x in 0..21u8 {
            let expected = (x < 2 && y < 3) || (x, y) == (20, 20) || (x, y) == (5, 5);
            assert_eq!(qr.get_module_bounded(x, y), expected);
        }
    }
}

#[test]
fn applying_a_mask_twice_restores_the_symbol() {
    let funcs = QrCode::function_modules_marked(Version::new(2));
    let mut qr = QrCode::function_modules_marked(Version::new(2));
    for y in 0..25u8 {
        for x in 0..25u8 {
            if (x * 7 + y * 3) % 5 == 0 {
                qr.set_module_bounded(x, y, true);
            }
        }
    }
    let before = qr.modules.clone();
    for m in 0..8u8 {
        qr.apply_mask(&funcs, Mask::new(m));
        if m == 0 {
            // Mask 0 inverts (1, 11), a data module.
            let was = {
                let i = 11 * 25 + 1;
                (before[i / 8] >> (i % 8)) & 1 == 1
            };
            assert_eq!(qr.get_module_bounded(1, 11), !was);
        }
        qr.apply_mask(&funcs, Mask::new(m));
        assert_eq!(qr.modules, before);
    }
}

#[test]
fn masks_leave_function_modules_alone() {
    let funcs = QrCode::function_modules_marked(Version::new(1));
    let mut qr = QrCode { size: 21, modules: vec![0u8; 56] };
    qr.apply_mask(&funcs, Mask::new(1));
    for y in 0..21u8 {
        for x in 0..21u8 {
            let expected = !funcs.get_module_bounded(x, y) && y % 2 == 0;
            assert_eq!(qr.get_module_bounded(x, y), expected);
        }
    }
}

#[test]
fn format_bits_are_drawn_in_both_copies() {
    let mut qr = QrCode { size: 21, modules: vec![0u8; 56] };
    qr.draw_format_bits(QrCodeEcc::Medium, Mask::new(0));
    // Level M with mask 0 gives the format string 101010000010010.
    let bits: [bool; 15] = [
        false, true, false, false, true, false, false, false, false, false, true, false, true,
        false, true,
    ];
    for i in 0..6u8 {
        assert_eq!(qr.get_module_bounded(8, i), bits[i as usize]);
    }
    assert_eq!(qr.get_module_bounded(8, 7), bits[6]);
    assert_eq!(qr.get_module_bounded(8, 8), bits[7]);
    assert_eq!(qr.get_module_bounded(7, 8), bits[8]);
    for i in 9..15u8 {
        assert_eq!(qr.get_module_bounded(14 - i, 8), bits[i as usize]);
    }
    for i in 0..8u8 {
        assert_eq!(qr.get_module_bounded(20 - i, 8), bits[i as usize]);
    }
    for i in 8..15u8 {
        assert_eq!(qr.get_module_bounded(8, 21 - 15 + i), bits[i as usize]);
    }
    // The dark module.
    assert!(qr.get_module_bounded(8, 13));
}

#[test]
fn light_function_modules_of_version_one() {
    let mut qr = QrCode::function_modules_marked(Version::new(1));
    qr.draw_light_function_modules();
    // Finder: dark border, light ring, dark centre, light separator.
    assert!(qr.get_module_bounded(0, 0));
    assert!(!qr.get_module_bounded(1, 1));
    assert!(qr.get_module_bounded(3, 3));
    assert!(!qr.get_module_bounded(7, 7));
    assert!(!qr.get_module_bounded(7, 0));
    // Timing pattern alternates.
    assert!(qr.get_module_bounded(8, 6));
    assert!(!qr.get_module_bounded(9, 6));
    assert!(!qr.get_module_bounded(6, 9));
    assert!(qr.get_module_bounded(6, 10));
}

#[test]
fn codewords_fill_the_data_modules() {
    let mut qr = QrCode::function_modules_marked(Version::new(1));
    let data = vec![0xFFu8; 26];
    qr.draw_codewords(&data);
    // Every module is now dark: function modules were, data modules got ones.
    for y in 0..21u8 {
        for x in 0..21u8 {
            assert!(qr.get_module_bounded(x, y));
        }
    }
    let mut qr2 = QrCode::function_modules_marked(Version::new(1));
    let mut first = vec![0u8; 26];
    first[0] = 0x80;
    qr2.draw_codewords(&first);
    // The first bit goes to the bottom-right corner.
    assert!(qr2.get_module_bounded(20, 20));
    assert!(!qr2.get_module_bounded(19, 20));
    assert!(!qr2.get_module_bounded(20, 19));
}

#[test]
fn finder_penalty_counts_patterns() {
    let mut fp = FinderPenalty::new(21);
    assert_eq!(fp.qr_size, 21);
    for run in [1, 1, 1, 3, 1, 1, 4] {
        fp.add_history(run);
    }
    assert_eq!(fp.run_history, [4, 1, 1, 3, 1, 1, 22]);
    assert_eq!(fp.count_patterns(), 2);
    let fresh = FinderPenalty::new(21);
    assert_eq!(fresh.count_patterns(), 0);
    assert_eq!(FinderPenalty::new(21).terminate_and_count(false, 5), 0);
    let mut fp2 = FinderPenalty::new(21);
    for run in [1, 1, 1, 3, 1] {
        fp2.add_history(run);
    }
    // The line ends after a dark run of one: the light border counts as
    // a run of the symbol's size.
    assert_eq!(fp2.terminate_and_count(true, 1), 2);
}

#[test]
fn penalty_of_an_all_light_symbol() {
    let qr = QrCode { size: 21, modules: vec![0u8; 56] };
    // 42 lines with a 21-module run: 42 * (3 + 16); 400 blocks: 400 * 3;
    // no dark module at all: 9 steps of 5% away from half: 90.
    assert_eq!(qr.get_penalty_score(), 42 * 19 + 1200 + 90);
}

#[test]
fn automatic_mask_has_the_least_penalty() {
    let tables = QrTables::build();
    let auto = QrCode::encode_codewords(&tables, &HELLO_WORLD_M_DATA, QrCodeEcc::Medium, Version::new(1), None);
    let best = auto.get_penalty_score();
    let mut found = false;
    for m in 0..8u8 {
        let fixed = QrCode::encode_codewords(
            &tables,
            &HELLO_WORLD_M_DATA,
            QrCodeEcc::Medium,
            Version::new(1),
            Some(Mask::new(m)),
        );
        assert!(best <= fixed.get_penalty_score());
        if fixed.modules == auto.modules {
            found = true;
        }
    }
    assert!(found);
}

#[test]
fn encode_data_writes_size_and_modules() {
    let tables = QrTables::build();
    let mut out = vec![0u8; 3918];
    let r = encode_data(
        &tables,
        b"HELLO WORLD",
        true,
        &mut out,
        QrCodeEcc::Medium,
        Version::new(1),
        Version::new(40),
        None,
        false,
    );
    assert_eq!(r, Ok(21));
    assert_eq!(out[0], 21);
    let qr = QrCode::encode_codewords(&tables, &HELLO_WORLD_M_DATA, QrCodeEcc::Medium, Version::new(1), None);
    assert_eq!(&out[1..57], &qr.modules[..]);
    let mut small = vec![0u8; 57];
    let r2 = encode_data(
        &tables,
        &[0x41u8; 60],
        false,
        &mut small,
        QrCodeEcc::Low,
        Version::new(1),
        Version::new(1),
        Some(Mask::new(2)),
        false,
    );
    assert_eq!(r2, Err(DataTooLong::SegmentTooLong));
    let r3 = encode_data(
        &tables,
        &[0x41u8; 20],
        false,
        &mut small,
        QrCodeEcc::Low,
        Version::new(1),
        Version::new(1),
        Some(Mask::new(2)),
        false,
    );
    assert_eq!(r3, Err(DataTooLong::DataOverCapacity));
}

#[test]
fn codeword_followed_by_its_remainder_leaves_zero() {
    let tables = build_gf_tables();
    let mut r = vec![0u8; 1];
    reed_solomon_remainder(&tables, &[1, 2, 4], &[1], &mut r);
    assert_eq!(r, vec![7]);
    let mut z = vec![9u8; 1];
    reed_solomon_remainder(&tables, &[1, 2, 4, 7], &[1], &mut z);
    assert_eq!(z, vec![0]);
    let gen = build_rs_generator(10);
    let mut codeword = HELLO_WORLD_M_DATA.to_vec();
    codeword.extend_from_slice(&HELLO_WORLD_M_ECC);
    let mut zero = vec![0xAAu8; 10];
    reed_solomon_remainder(&tables, &codeword, &gen[..10], &mut zero);
    assert_eq!(zero, vec![0u8; 10]);
}

#[test]
fn remainder_does_not_depend_on_old_result() {
    let tables = build_gf_tables();
    let gen = build_rs_generator(10);
    let mut a = vec![0u8; 10];
    let mut b = vec![0x5Au8; 10];
    reed_solomon_remainder(&tables, &HELLO_WORLD_M_DATA, &gen[..10], &mut a);
    reed_solomon_remainder(&tables, &HELLO_WORLD_M_DATA, &gen[..10], &mut b);
    assert_eq!(a, b);
}

#[test]
fn log_of_zero_is_zero() {
    let (_, log) = build_gf_tables();
    assert_eq!(log[0], 0);
}

#[test]
fn segment_bits_after_the_last_are_clear() {
    let seg = QrSegment::make_numeric(b"01234567", vec![0xFFu8; 6]);
    assert_eq!(&seg.data[..4], &[0x03, 0x15, 0x98, 0x60]);
    // Bytes past the last one written keep the buffer's contents.
    assert_eq!(&seg.data[4..], &[0xFF, 0xFF]);
    let table = build_alphanumeric_values();
    let seg2 = QrSegment::make_alphanumeric(&table, b"AC-42", vec![0xFFu8; 5]);
    assert_eq!(&seg2.data[..4], &[0x39, 0xDC, 0xE4, 0x20]);
    assert_eq!(seg2.data[4], 0xFF);
}

fn transpose(qr: &QrCode) -> QrCode {
    let mut t = QrCode { size: qr.size, modules: vec![0u8; qr.modules.len()] };
    for y in 0..qr.size {
        for x in 0..qr.size {
            t.set_module_bounded(x, y, qr.get_module_bounded(y, x));
        }
    }
    t
}

#[test]
fn transposing_a_symbol_keeps_its_penalty() {
    let tables = QrTables::build();
    for m in 0..8u8 {
        let qr = QrCode::encode_codewords(
            &tables,
            &HELLO_WORLD_M_DATA,
            QrCodeEcc::Medium,
            Version::new(1),
            Some(Mask::new(m)),
        );
        let t = transpose(&qr);
        assert_ne!(t.modules, qr.modules);
        assert_eq!(t.get_penalty_score(), qr.get_penalty_score());
    }
}

#[test]
fn non_function_modules_number_the_raw_data_modules() {
    for v in 1..=40u8 {
        let f = QrCode::function_modules_marked(Version::new(v));
        let mut light = 0usize;
        for y in 0..f.size() {
            for x in 0..f.size() {
                if !f.get_module_bounded(x, y) {
                    light += 1;
                }
            }
        }
        assert_eq!(light, QrCode::get_num_raw_data_modules(Version::new(v)), "version {v}");
    }
}

#[test]
fn data_modules_increase_with_version() {
    assert_eq!(QrCode::get_num_raw_data_modules(Version::new(2)), 359);
    for v in 1..40u8 {
        assert!(
            QrCode::get_num_raw_data_modules(Version::new(v))
                < QrCode::get_num_raw_data_modules(Version::new(v + 1))
        );
    }
}

#[test]
fn capacity_strictly_decreases_with_level() {
    for v in 1..=40u8 {
        let ver = Version::new(v);
        let l = QrCode::get_num_data_codewords(ver, QrCodeEcc::Low);
        let m = QrCode::get_num_data_codewords(ver, QrCodeEcc::Medium);
        let q = QrCode::get_num_data_codewords(ver, QrCodeEcc::Quartile);
        let h = QrCode::get_num_data_codewords(ver, QrCodeEcc::High);
        assert!(l > m && m > q && q > h, "version {v}");
    }
}

#[test]
fn gf_multiplication_is_commutative_and_distributive() {
    for x in [0u8, 1, 2, 3, 0x1D, 0x53, 0x80, 0xCA, 0xFF] {
        for y in [0u8, 1, 2, 7, 0x35, 0x80, 0xFE] {
            assert_eq!(gf_multiply_const(x, y), gf_multiply_const(y, x));
            for z in [0u8, 1, 0x42, 0x99] {
                assert_eq!(gf_multiply_const(x, y ^ z), gf_multiply_const(x, y) ^ gf_multiply_const(x, z));
            }
        }
    }
    assert_eq!(gf_multiply_const(3, 3), 5);
}
