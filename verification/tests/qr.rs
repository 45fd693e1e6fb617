use qrkit::{
    get_num_data_codewords, get_num_raw_data_modules, CodeEcc, Mask, QrCode, QrError, Segment,
    SegmentMode, Version,
};

fn bits(v: &[u8]) -> Vec<bool> {
    v.iter().map(|&b| b != 0).collect()
}

#[test]
fn numeric_segment_encodes_group_of_three() {
    let seg = Segment::make_numeric("123");
    assert_eq!(SegmentMode::Numeric, seg.mode());
    assert_eq!(3, seg.num_chars());
    // Exactly 10 bits holding the value 123
    assert_eq!(&bits(&[0, 0, 0, 1, 1, 1, 1, 0, 1, 1]), seg.data());
}

#[test]
fn numeric_segment_encodes_remainders() {
    // 1 digit -> 4 bits, 2 digits -> 7 bits
    assert_eq!(4, Segment::make_numeric("7").data().len());
    assert_eq!(7, Segment::make_numeric("42").data().len());
    assert_eq!(&bits(&[0, 1, 1, 1]), Segment::make_numeric("7").data());
    assert_eq!(&bits(&[0, 1, 0, 1, 0, 1, 0]), Segment::make_numeric("42").data());
}

#[test]
fn alphanumeric_segment_encodes_pair() {
    let seg = Segment::make_alphanumeric("AB");
    assert_eq!(SegmentMode::Alphanumeric, seg.mode());
    assert_eq!(2, seg.num_chars());
    // Exactly 11 bits holding 10 * 45 + 11 = 461
    assert_eq!(&bits(&[0, 0, 1, 1, 1, 0, 0, 1, 1, 0, 1]), seg.data());
}

#[test]
fn byte_segment_encodes_verbatim() {
    let seg = Segment::make_bytes(&[0xF0, 0x0F]);
    assert_eq!(SegmentMode::Byte, seg.mode());
    assert_eq!(2, seg.num_chars());
    assert_eq!(
        &bits(&[1, 1, 1, 1, 0, 0, 0, 0, 0, 0, 0, 0, 1, 1, 1, 1]),
        seg.data()
    );
}

#[test]
fn eci_segment_uses_prefix_code() {
    assert_eq!(8, Segment::make_eci(100).data().len());
    assert_eq!(16, Segment::make_eci(10000).data().len());
    assert_eq!(24, Segment::make_eci(999999).data().len());
    assert_eq!(SegmentMode::Eci, Segment::make_eci(0).mode());
    assert_eq!(0, Segment::make_eci(0).num_chars());
}

#[test]
fn make_segments_classifies_text() {
    assert_eq!(0, Segment::make_segments("").len());
    let numeric = Segment::make_segments("42");
    assert_eq!(1, numeric.len());
    assert_eq!(SegmentMode::Numeric, numeric[0].mode());
    let alnum = Segment::make_segments("AB12");
    assert_eq!(1, alnum.len());
    assert_eq!(SegmentMode::Alphanumeric, alnum[0].mode());
    let byte = Segment::make_segments("ab");
    assert_eq!(1, byte.len());
    assert_eq!(SegmentMode::Byte, byte[0].mode());
}

#[test]
fn alphanumeric_charset_matches_the_classifier() {
    for c in qrkit::ALPHANUMERIC_CHARSET.chars() {
        assert!(Segment::is_alphanumeric(&c.to_string()));
    }
    assert!(!Segment::is_alphanumeric("a"));
    assert!(!Segment::is_alphanumeric("#"));
    assert!(Segment::is_numeric("0123456789"));
    assert!(!Segment::is_numeric("12a"));
    assert!(Segment::is_numeric(""));
    // A single trailing character emits 6 bits: ':' has index 44
    let seg = Segment::make_alphanumeric(":");
    assert_eq!(&bits(&[1, 0, 1, 1, 0, 0]), seg.data());
}

#[test]
fn raw_data_modules_stay_in_range() {
    assert_eq!(208, get_num_raw_data_modules(Version::new(1)));
    assert_eq!(29648, get_num_raw_data_modules(Version::new(40)));
    for v in 1..=40u8 {
        let raw = get_num_raw_data_modules(Version::new(v));
        assert!(208 <= raw && raw <= 29648);
    }
}

#[test]
fn data_codewords_follow_the_tables() {
    let levels = [CodeEcc::Low, CodeEcc::Medium, CodeEcc::Quartile, CodeEcc::High];
    for v in 1..=40u8 {
        let ver = Version::new(v);
        for ecl in levels {
            let expected = get_num_raw_data_modules(ver) / 8
                - qrkit::ecc_codewords_per_block(ver, ecl) * qrkit::num_ecc_blocks(ver, ecl);
            let dc = get_num_data_codewords(ver, ecl);
            assert_eq!(expected, dc);
            assert!(dc > 0);
        }
    }
    assert_eq!(19, get_num_data_codewords(Version::new(1), CodeEcc::Low));
    assert_eq!(16, get_num_data_codewords(Version::new(1), CodeEcc::Medium));
}

#[test]
fn applying_a_mask_twice_restores_the_grid() {
    let size = 21i32;
    let n = (size * size) as usize;
    let mut modules = Vec::new();
    let mut isfunction = Vec::new();
    for i in 0..n {
        modules.push(i % 3 == 0);
        isfunction.push(i % 7 == 0);
    }
    for m in 0..8u8 {
        let mut code = QrCode {
            version: Version::new(1),
            size,
            errorcorrectionlevel: CodeEcc::Low,
            mask: Mask::new(0),
            modules: modules.clone(),
            isfunction: isfunction.clone(),
        };
        code.apply_mask(Mask::new(m));
        assert_ne!(modules, code.modules);
        code.apply_mask(Mask::new(m));
        assert_eq!(modules, code.modules);
    }
}

#[test]
fn out_of_range_parameters_are_rejected() {
    assert_eq!(Err(QrError::InvalidVersion(0)), Version::try_new(0));
    assert_eq!(Err(QrError::InvalidVersion(41)), Version::try_new(41));
    assert!(Version::try_new(1).is_ok());
    assert!(Version::try_new(40).is_ok());
    assert_eq!(Err(QrError::InvalidMask(9)), Mask::try_new(9));
    assert_eq!(Err(QrError::InvalidMask(8)), Mask::try_new(8));
    assert!(Mask::try_new(7).is_ok());
}

#[test]
fn oversized_payload_reports_exact_capacity() {
    let data = vec![0u8; 3000];
    let err = QrCode::encode_binary(&data, CodeEcc::Low).unwrap_err();
    // 4 mode bits + 16 count bits + 3000 * 8 data bits, against the
    // version 40 low-redundancy capacity of 2956 codewords
    assert_eq!(QrError::DataOverCapacity(24020, 23648), err);
}

#[test]
fn unencodable_count_field_reports_segment_too_long() {
    let seg = Segment::new(SegmentMode::Numeric, 100000, Vec::new());
    let err = QrCode::encode_segments(&[seg], CodeEcc::Low).unwrap_err();
    assert_eq!(QrError::SegmentTooLong, err);
}

#[test]
fn chosen_mask_has_the_lowest_penalty() {
    let segs = Segment::make_segments("HELLO WORLD");
    let auto = QrCode::encode_segments_advanced(
        &segs,
        CodeEcc::Medium,
        Version::new(1),
        Version::new(40),
        None,
        true,
    )
    .unwrap();
    assert_eq!(auto.size(), auto.version().value() as i32 * 4 + 17);
    assert!(auto.mask().value() <= 7);
    let auto_penalty = auto.get_penalty_score();
    for m in 0..8u8 {
        let forced = QrCode::encode_segments_advanced(
            &segs,
            CodeEcc::Medium,
            Version::new(1),
            Version::new(40),
            Some(Mask::new(m)),
            true,
        )
        .unwrap();
        assert_eq!(forced.version(), auto.version());
        assert_eq!(forced.error_correction_level(), auto.error_correction_level());
        let p = forced.get_penalty_score();
        assert!(auto_penalty <= p);
        if m == auto.mask().value() {
            assert_eq!(auto_penalty, p);
            assert_eq!(auto.modules, forced.modules);
        }
    }
}

#[test]
fn encode_text_builds_a_well_formed_symbol() {
    let qr = QrCode::encode_text("HELLO WORLD", CodeEcc::Medium).unwrap();
    let size = qr.size();
    assert_eq!(size, qr.version().value() as i32 * 4 + 17);
    assert!(qr.mask().value() <= 7);
    // Boosting never drops below the requested level
    assert_ne!(CodeEcc::Low, qr.error_correction_level());
    // The three finder pattern centers are dark
    assert!(qr.get_module(3, 3));
    assert!(qr.get_module(size - 4, 3));
    assert!(qr.get_module(3, size - 4));
    // The dark module beside the lower left finder pattern
    assert!(qr.get_module(8, size - 8));
    // Out-of-range coordinates read as light
    assert!(!qr.get_module(-1, 0));
    assert!(!qr.get_module(0, size));
    // The same input encodes to the same symbol
    let again = QrCode::encode_text("HELLO WORLD", CodeEcc::Medium).unwrap();
    assert_eq!(qr, again);
}

#[test]
fn encode_text_handles_empty_and_binary_inputs() {
    let empty = QrCode::encode_text("", CodeEcc::Low).unwrap();
    assert_eq!(1, empty.version().value());
    let bin = QrCode::encode_binary(&[1, 2, 3], CodeEcc::High).unwrap();
    assert_eq!(1, bin.version().value());
    assert_eq!(CodeEcc::High, bin.error_correction_level());
}

#[test]
fn version_range_limits_the_search() {
    // A payload too big for version 1 at high redundancy
    let data = vec![7u8; 30];
    let err = QrCode::encode_segments_advanced(
        &[Segment::make_bytes(&data)],
        CodeEcc::High,
        Version::new(1),
        Version::new(1),
        None,
        false,
    )
    .unwrap_err();
    // 4 + 8 + 240 bits against 9 codewords
    assert_eq!(QrError::DataOverCapacity(252, 72), err);
    let ok = QrCode::encode_segments_advanced(
        &[Segment::make_bytes(&data)],
        CodeEcc::High,
        Version::new(1),
        Version::new(40),
        None,
        false,
    )
    .unwrap();
    assert_eq!(4, ok.version().value());
    assert_eq!(CodeEcc::High, ok.error_correction_level());
}

#[test]
fn hello_world_matches_the_standard_symbol() {
    // The well-known symbol: version 1, boosted to quartile redundancy,
    // mask 0, worked out by hand from the standard's tables
    let qr = QrCode::encode_text("HELLO WORLD", CodeEcc::Medium).unwrap();
    assert_eq!(1, qr.version().value());
    assert_eq!(CodeEcc::Quartile, qr.error_correction_level());
    assert_eq!(0, qr.mask().value());
    assert_eq!(21, qr.size());
    let expected = [
        "111111101100001111111",
        "100000101001001000001",
        "101110101001101011101",
        "101110101000001011101",
        "101110101010001011101",
        "100000100010001000001",
        "111111101010101111111",
        "000000001000000000000",
        "011010110000101011111",
        "010000001111000010001",
        "001101110110001011000",
        "011011010011010101110",
        "100010101011101110101",
        "000000001101001000101",
        "111111101010000101100",
        "100000100101101101000",
        "101110101010001111111",
        "101110100101010100010",
        "101110101001011101001",
        "100000101011110001011",
        "111111100001011100001",
    ];
    for y in 0..21 {
        let row: String = (0..21)
            .map(|x| if qr.get_module(x, y) { '1' } else { '0' })
            .collect();
        assert_eq!(expected[y as usize], row, "row {}", y);
    }
}

#[test]
fn long_numeric_payload_matches_the_standard_symbol() {
    // A 400-digit numeric payload at high redundancy: version 13 with 16
    // interleaved blocks, version information, and mask 3
    let digits = "3141592653589793238462643383279502884197169399375105820974944592307816406286208998628034825342117067982148086513282306647093844609550582231725359408128481117450284102701938521105559644622948954930381964428810975665933446128475648233786783165271201909145648566923460348610454326648213393607260249141273724587006606315588174881520920962829254091715364367892590360011330530548820466521384146951941511609";
    let qr = QrCode::encode_text(digits, CodeEcc::High).unwrap();
    assert_eq!(13, qr.version().value());
    assert_eq!(CodeEcc::High, qr.error_correction_level());
    assert_eq!(3, qr.mask().value());
    assert_eq!(69, qr.size());
    let expected = [
        "111111100111011000010111110101100110010110011010110010111011101111111",
        "100000100111010011110010100110001101100111101100001001001100001000001",
        "101110100100011010001110100100001001101010000000111111001010001011101",
        "101110100011110000110111101001111100011100011000000100110100101011101",
        "101110101100111111011101011101111111101001010101010101011110101011101",
        "100000100001010110000101001111111000110000011010100010110010001000001",
        "111111101010101010101010101010101010101010101010101010101010101111111",
        "000000001011110010100100111101101000101110111110101100000100100000000",
        "001100111011110011100001010111001111110010101001001010011000011010000",
        "011000010100001011011100100000011100111101000001100101010111101100101",
        "101101111110000101000010001010011011110100010110110100000100001001111",
        "011101010001110010001110010110001000010011010110011001110111111011001",
        "001110110001011000001010010001010101111011110001001101001010100010100",
        "001110011011100011000100011101011010111001010000000111100111101111100",
        "001010110011010001011100101000001000000110110011111011110100000011010",
        "111111011011010101110010010100000011011101100111001000001001011110110",
        "111011101001101000011001001101000110000100010101101000110101100011000",
        "111101000101101101011101001101001011100011101110110100010111101111000",
        "011111111111100111100000100111101001011000111010110110111110000011111",
        "110000010000011101010011100110000100111001001111001110001110101000011",
        "010011111000101001111010100001010000000010101000010011011011000110011",
        "000010001101110110110011001010101001111111011010100001001000001110000",
        "011110111101101000100000001110010100011010101000001110011110001111100",
        "100111001111111100101001001000000100000101000111100000011101111111011",
        "111110100000000000001111000110001111111110111001111000110000100100110",
        "001111010001101101101101110101011110100110100011001110000000001000111",
        "001110101010000110100111000101100111010000000110001011000011111110010",
        "110011011000110010011011011000010101101001110011111110110001011111010",
        "111000101110101111110000110100001011000000100101000111001000000111110",
        "111110001110001100110000101111010110001101001111101011100000001011011",
        "101111101011110011111000111000010011000111011100000010100101100101101",
        "111100010110011101000111011101111101101101011000001000000111000001100",
        "000011111111111011110101001111001111111001011001101110111000111111111",
        "010010001011110101010011001110001000111001001111111001100111100010001",
        "101110101110011101010010010001111010111110100001111110100001101010111",
        "000110001010101101100001100100101000100100011011011111110011100010110",
        "011111111100000100010001101011111111101100100000001100010010111111010",
        "100101001111110110010011101001010111000101011001110100111000101011111",
        "110011110011011101011001010000011001110111001110101010000111111001110",
        "011001000011111001010111011111100010001101101101101011001100010100011",
        "100110111100101001110110111010100101111001001111101010111110011111110",
        "011100000010100000010110111111101001011011110101110001011011101100001",
        "001010110000011101000000001010110011101010100110100110100100011101111",
        "011010001100110000011010011001101111010001101010000000110111100000100",
        "001100110000101101100010001110000101001110100110001110101000011110000",
        "011011000111101010011100101110100011111011110111100111011010000100111",
        "100011100011110101011010000010000011110011000001001001011000011010001",
        "010000010110011101001010011100111110101100011110000111000011100110101",
        "110011100010101010000000101011111001000100010010010100010111110100100",
        "110001001101010000001000100010000010011101000001000000110101011101110",
        "001111110100111110001011000111101000111100110010010100011111101111010",
        "111001011100101000011000100011110001000101101110111101101100001110001",
        "000011101001101000110100111111110111111011010111101110001011100010010",
        "001011001101111001010111010001000111110110111110001110110011011101011",
        "100010110010011010011101000011001000011110001001110100101101000101110",
        "101010000101011111000111100011110000001011111001100011100100000101100",
        "000011100100110101000111001101000100101100010010101111000100011010110",
        "100010000100110000001000100011011010100111100101101110001100100100011",
        "101011101110100101001011001000100010110111000101000011001010110000110",
        "100000010011111000110001101101000010111100110000111001101100000011001",
        "100110111010010101011011011001011111100101001000111100001000111111110",
        "000000001010111011011100100000101000101001000100100101110110100010101",
        "111111101010001011010110100101001010110101111001111001100000101010111",
        "100000100100101011101010100000001000101111000111111111101111100010100",
        "101110100101100101011111010000011111110001101100001110110001111111101",
        "101110101110100100111000010100010011101001011111001101010011101010100",
        "101110101001101011101110110000110111001101110101110101100010000010000",
        "100000100000101000001100110001000110011111010010001110000010011100111",
        "111111100000001110011101111001010101100011100101001010110100111100110",
    ];
    for y in 0..69 {
        let row: String = (0..69)
            .map(|x| if qr.get_module(x, y) { '1' } else { '0' })
            .collect();
        assert_eq!(expected[y as usize], row, "row {}", y);
    }
}
