use qrkit::{
    encode_with_options, hash_sha256, BitBuffer, ColorTemplate, ColorType, DensityVersion,
    ErrorCorrection, ExtendedColorType, Format, Meta, Outcome, QROptions, QrError, Recoder,
};

#[test]
fn sha256_digest_of_known_input() {
    let meta = hash_sha256(b"abc");
    assert!(matches!(meta.algorithm, qrkit::Algorithm::SHA256));
    assert_eq!(32, meta.hash.len());
    // The FIPS 180-2 test vector for "abc"
    assert_eq!(
        vec![
            0xba, 0x78, 0x16, 0xbf, 0x8f, 0x01, 0xcf, 0xea, 0x41, 0x41, 0x40, 0xde, 0x5d, 0xae,
            0x22, 0x23, 0xb0, 0x03, 0x61, 0xa3, 0x96, 0x17, 0x7a, 0x9c, 0xb4, 0x10, 0xff, 0x61,
            0xf2, 0x00, 0x15, 0xad,
        ],
        meta.hash
    );
    // The empty input hashes to a different, nonempty digest
    let empty = hash_sha256(b"");
    assert_eq!(32, empty.hash.len());
    assert_ne!(meta.hash, empty.hash);
}

#[test]
fn bit_buffer_appends_big_endian() {
    let mut bb = BitBuffer(Vec::new());
    bb.append_bits(5, 4);
    assert_eq!(vec![false, true, false, true], bb.0);
    bb.append_bits(1, 1);
    assert_eq!(vec![false, true, false, true, true], bb.0);
    assert!(qrkit::get_bit(0b101, 0));
    assert!(!qrkit::get_bit(0b101, 1));
    assert!(qrkit::get_bit(0b101, 2));
}

#[test]
fn color_type_pixel_arithmetic() {
    assert_eq!(1, ColorType::L8.bytes_per_pixel());
    assert_eq!(8, ColorType::Rgba16.bytes_per_pixel());
    assert_eq!(16, ColorType::Rgba32F.bytes_per_pixel());
    assert_eq!(24, ColorType::Rgb8.bits_per_pixel());
    assert!(ColorType::Rgba8.has_alpha());
    assert!(!ColorType::Rgb8.has_alpha());
    assert!(ColorType::Rgb8.has_color());
    assert!(!ColorType::La16.has_color());
    assert_eq!(4, ColorType::Rgba8.channel_count());
    assert_eq!(1, ColorType::L16.channel_count());
}

#[test]
fn extended_color_type_pixel_arithmetic() {
    assert_eq!(3, ExtendedColorType::Bgr8.channel_count());
    assert_eq!(1, ExtendedColorType::Unknown(12).channel_count());
    assert_eq!(12, ExtendedColorType::Unknown(12).bits_per_pixel());
    assert_eq!(32, ExtendedColorType::Cmyk8.bits_per_pixel());
    // 10 pixels of 32 bits round to 40 bytes per row, 10 rows
    assert_eq!(400, ExtendedColorType::Rgba8.buffer_size(10, 10));
    // 1-bit rows round up to whole bytes
    assert_eq!(20, ExtendedColorType::L1.buffer_size(10, 10));
    assert_eq!(0, ExtendedColorType::Rgba8.buffer_size(0, 10));
}

#[test]
fn format_labels() {
    assert_eq!("png", Format::Png.to_string());
    assert_eq!("webp", Format::WebP.to_string());
    assert_eq!("ff", Format::Farbfeld.to_string());
    assert_eq!("exr", Format::OpenExr.to_string());
}

#[test]
fn recoder_keeps_the_image_header() {
    let recoder = Recoder::from_parts(Format::Jpeg, 7, 9, ColorType::Rgb8, vec![1, 2, 3]);
    assert_eq!(Format::Jpeg, recoder.format());
    assert_eq!(7, recoder.width());
    assert_eq!(9, recoder.height());
    assert_eq!(ColorType::Rgb8, recoder.color());
    assert_eq!(&vec![1, 2, 3], recoder.data());
    let outcome = recoder.to_outcome(Format::Png, vec![9, 9]);
    assert_eq!(Format::Jpeg, outcome.src);
    assert_eq!(Format::Png, outcome.dest);
    assert_eq!(7, outcome.width);
    assert_eq!(9, outcome.height);
    assert_eq!(vec![9, 9], outcome.data);
    let meta = Meta::new(Format::Png, 3, 4);
    assert_eq!(Format::Png, meta.format);
    let o = Outcome::new(Format::Png, Format::WebP, 1, 2, vec![5]);
    assert_eq!(Format::WebP, o.dest);
}

#[test]
fn options_defaults_and_validation() {
    let options = QROptions::default();
    assert_eq!(None, options.color_template);
    assert_eq!(None, options.mask);
    assert!(options.boost_ecl);
    assert_eq!(ColorTemplate::BlackOnWhite, ColorTemplate::default());
    assert_eq!(DensityVersion(1), DensityVersion::default());
    assert_eq!(ErrorCorrection::Medium, ErrorCorrection::default());
    assert_eq!(
        Err(QrError::InvalidVersion(0)),
        DensityVersion::new(0).to_version()
    );
    assert_eq!(
        Err(QrError::InvalidVersion(99)),
        DensityVersion::new(99).to_version()
    );
    assert!(DensityVersion::new(10).to_version().is_ok());
}

#[test]
fn options_drive_the_encoder() {
    let mut options = QROptions::default();
    options.mask = Some(3);
    let qr = encode_with_options("HELLO WORLD", &options).unwrap();
    assert_eq!(3, qr.mask().value());
    assert!(1 <= qr.version().value() && qr.version().value() <= 10);

    let wide = QROptions::default();
    let qr2 = encode_with_options("0123456789", &wide).unwrap();
    assert_eq!(1, qr2.version().value());
}

#[test]
fn error_descriptions() {
    assert_eq!("SHA256", qrkit::Algorithm::SHA256.label());
    assert_eq!("SHA1", qrkit::Algorithm::SHA1.label());
    assert_eq!("Segment too long", QrError::SegmentTooLong.message());
    assert_eq!("Data over capacity", QrError::DataOverCapacity(1, 2).message());
    assert_eq!("Invalid mask", QrError::InvalidMask(9).message());
    assert_eq!("load error", qrkit::RecodeError::LoadError.message());
    assert_eq!(
        "unsupported format",
        qrkit::RecodeError::UnsupportedFormat.message()
    );
}

#[test]
fn str_eq_compares_contents() {
    assert!(qrkit::str_eq("abc", "abc"));
    assert!(!qrkit::str_eq("abc", "abd"));
    assert!(!qrkit::str_eq("abc", "ab"));
    assert!(qrkit::str_eq("", ""));
}

#[test]
fn path_router_eval_is_not_found_yet() {
    let mut router = qrkit::PathRouter::new();
    router.insert("/foo").unwrap();
    match router.eval("/foo").unwrap_err() {
        qrkit::MatchError::NotFound => {}
        other => panic!("unexpected error {:?}", other),
    }
}
