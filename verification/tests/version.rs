use mgx::version::{classify_version, is_unsupported_save};
use mgx::{ParseError, Version};

fn bits(v: f32) -> u32 {
    v.to_bits()
}

fn classify(tag: &[u8], save: f32, log: Option<u32>, prior: Option<Version>) -> Result<Version, ParseError> {
    classify_version(&tag.to_vec(), bits(save), log, prior)
}

#[test]
fn tags_map_to_dialects() {
    assert_eq!(classify(b"VER 9.3", 11.5, None, None), Ok(Version::AoK));
    assert_eq!(classify(b"VER 9.5", 11.76, Some(4), None), Ok(Version::AoFE21));
    assert_eq!(classify(b"VER 9.8", 11.76, Some(4), None), Ok(Version::UP12));
    assert_eq!(classify(b"VER 9.9", 11.76, Some(4), None), Ok(Version::UP13));
    assert_eq!(classify(b"VER 9.A", 11.76, Some(4), None), Ok(Version::UP14RC1));
    assert_eq!(classify(b"VER 9.B", 11.76, Some(4), None), Ok(Version::UP14RC2));
    assert_eq!(classify(b"VER 9.C", 11.76, Some(4), None), Ok(Version::UP14));
    assert_eq!(classify(b"VER 9.D", 11.76, Some(4), None), Ok(Version::UP14));
    assert_eq!(classify(b"VER 9.E", 11.76, Some(4), None), Ok(Version::UP15));
    assert_eq!(classify(b"VER 9.F", 11.76, Some(4), None), Ok(Version::UP15));
    assert_eq!(classify(b"MCP 9.F", 11.76, Some(4), None), Ok(Version::MCP));
    assert_eq!(classify(b"XYZ 1.0", 11.76, Some(4), None), Ok(Version::Unknown));
    assert_eq!(classify(b"VER 9.", 11.76, Some(4), None), Ok(Version::Unknown));
    assert_eq!(classify(b"VER 9.4 ", 11.76, Some(4), None), Ok(Version::Unknown));
    assert_eq!(classify(b"ver 9.4", 11.76, Some(4), None), Ok(Version::Unknown));
}

#[test]
fn trial_follows_what_the_body_showed() {
    assert_eq!(classify(b"TRL 9.3", 11.5, None, Some(Version::AoK)), Ok(Version::AoKTrial));
    assert_eq!(classify(b"TRL 9.3", 11.5, Some(0), None), Ok(Version::AoCTrial));
    assert_eq!(classify(b"TRL 9.3", 11.5, None, Some(Version::AoC)), Ok(Version::AoCTrial));
}

#[test]
fn conquerors_are_told_apart_by_log_and_save() {
    assert_eq!(classify(b"VER 9.4", 11.76, Some(0), None), Ok(Version::AoC10a));
    assert_eq!(classify(b"VER 9.4", 11.76, Some(3), None), Ok(Version::AoC10a));
    assert_eq!(classify(b"VER 9.4", 13.0, Some(3), None), Ok(Version::AoC10a));
    assert_eq!(classify(b"VER 9.4", 11.76, Some(5), None), Ok(Version::DE));
    assert_eq!(classify(b"VER 9.4", 12.9699, Some(4), None), Ok(Version::DE));
    assert_eq!(classify(b"VER 9.4", 20.0, Some(1), None), Ok(Version::DE));
    assert_eq!(classify(b"VER 9.4", f32::INFINITY, Some(1), None), Ok(Version::DE));
    assert_eq!(classify(b"VER 9.4", 12.5, Some(4), None), Ok(Version::HD));
    assert_eq!(classify(b"VER 9.4", 11.7601, Some(4), None), Ok(Version::AoC10c));
    assert_eq!(classify(b"VER 9.4", 11.76, Some(4), None), Ok(Version::AoC10c));
    assert_eq!(classify(b"VER 9.4", 11.76, Some(1), None), Ok(Version::AoC));
    assert_eq!(classify(b"VER 9.4", -1.0, Some(1), None), Ok(Version::AoC));
    assert_eq!(classify(b"VER 9.4", f32::NAN, Some(1), None), Ok(Version::AoC));
    assert_eq!(classify(b"VER 9.4", 11.76, None, None), Err(ParseError::Truncated));
}

#[test]
fn save_versions_from_hd_on_and_negative_ones_are_unsupported() {
    assert!(!is_unsupported_save(bits(11.76)));
    assert!(!is_unsupported_save(bits(0.0)));
    assert!(!is_unsupported_save(bits(-0.0)));
    assert!(!is_unsupported_save(bits(11.76)));
    assert!(!is_unsupported_save(bits(11.7600)));
    assert!(is_unsupported_save(bits(11.7601)));
    assert!(is_unsupported_save(bits(12.0)));
    assert!(is_unsupported_save(bits(f32::INFINITY)));
    assert!(is_unsupported_save(bits(-1.0)));
    assert!(is_unsupported_save(bits(-0.5)));
    assert!(is_unsupported_save(bits(f32::NEG_INFINITY)));
    assert!(is_unsupported_save(bits(f32::from_bits(0x8000_0001))));
    assert!(!is_unsupported_save(bits(f32::NAN)));
    assert!(!is_unsupported_save(0xffc0_0000));
    assert!(!is_unsupported_save(0x7f80_0001));
}

#[test]
fn float_order_agrees_with_bit_order() {
    let samples: [f32; 12] =
        [0.0, -0.0, 1.0, 11.0, 11.76, 11.7601, 11.77, 12.9699, 100.0, -1.0, -11.8, 1e30];
    for v in samples {
        assert_eq!(is_unsupported_save(bits(v)), v >= 11.7601 || v < 0.0);
    }
}

#[test]
fn error_messages_name_the_cause() {
    assert!(ParseError::UnsupportedVersion.message().contains("DE/HD or higher versions are not supported"));
    assert_eq!(ParseError::DecompressFailed.message(), "Failed to decompress header");
    assert_eq!(ParseError::Truncated.message(), "unexpected end of data");
    assert_eq!(ParseError::Corrupt.message(), "data breaks the format");
    assert!(ParseError::MapInvalid.message().contains("Map size"));
    assert!(ParseError::AnchorMissing.message().contains("can't find"));
}
