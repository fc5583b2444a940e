use uuid_tool::codec::format_from_name;
use uuid_tool::value::parse_version_mode;
use uuid_tool::{format_uuid, parse_uuid, Error, Format, Uuid, Version, VersionMode};

const SAMPLE: &str = "5c16fcb1-76ba-4b06-8fdf-34a6aeb478c5";

fn sample() -> Uuid {
    parse_uuid(SAMPLE).expect("sample must parse")
}

#[test]
fn round_trip_all_formats() {
    let u = sample();
    for f in [Format::Simple, Format::Hyphenated, Format::Urn, Format::Microsoft] {
        let text = format_uuid(&u, f);
        let back = parse_uuid(&text).expect("formatted value must parse");
        assert_eq!(back, u);
    }
}

#[test]
fn format_exact_strings() {
    let u = sample();
    assert_eq!(format_uuid(&u, Format::Simple), "5c16fcb176ba4b068fdf34a6aeb478c5");
    assert_eq!(format_uuid(&u, Format::Hyphenated), "5c16fcb1-76ba-4b06-8fdf-34a6aeb478c5");
    assert_eq!(format_uuid(&u, Format::Urn), "urn:uuid:5c16fcb1-76ba-4b06-8fdf-34a6aeb478c5");
    assert_eq!(format_uuid(&u, Format::Microsoft), "{5c16fcb1-76ba-4b06-8fdf-34a6aeb478c5}");
}

#[test]
fn urn_and_microsoft_wrap_hyphenated() {
    let u = sample();
    let hyphenated = format_uuid(&u, Format::Hyphenated);
    assert_eq!(format_uuid(&u, Format::Urn), format!("urn:uuid:{}", hyphenated));
    assert_eq!(format_uuid(&u, Format::Microsoft), format!("{{{}}}", hyphenated));
}

#[test]
fn parse_is_case_insensitive_on_hex() {
    let lower = parse_uuid("5c16fcb1-76ba-4b06-8fdf-34a6aeb478c5").unwrap();
    let upper = parse_uuid("5C16FCB1-76BA-4B06-8FDF-34A6AEB478C5").unwrap();
    assert_eq!(lower, upper);
    let simple_lower = parse_uuid("5c16fcb176ba4b068fdf34a6aeb478c5").unwrap();
    let simple_upper = parse_uuid("5C16FCB176BA4B068FDF34A6AEB478C5").unwrap();
    assert_eq!(simple_lower, simple_upper);
    assert_eq!(lower, simple_lower);
}

#[test]
fn urn_prefix_must_be_lowercase() {
    assert!(parse_uuid("urn:uuid:5c16fcb1-76ba-4b06-8fdf-34a6aeb478c5").is_ok());
    assert_eq!(
        parse_uuid("URN:UUID:5C16FCB1-76BA-4B06-8FDF-34A6AEB478C5"),
        Err(Error::InvalidFormat)
    );
}

#[test]
fn braced_forms_parse() {
    let u = sample();
    // Hyphenated in braces: total length 38.
    assert_eq!(parse_uuid("{5c16fcb1-76ba-4b06-8fdf-34a6aeb478c5}"), Ok(u));
    // Simple in braces: total length 34, still within the stripping range.
    assert_eq!(parse_uuid("{5c16fcb176ba4b068fdf34a6aeb478c5}"), Ok(u));
}

#[test]
fn braced_wrong_lengths_fail() {
    // Inner length 33: total 35 is stripped, but 33 matches no shape.
    let inner33 = "5c16fcb176ba4b068fdf34a6aeb478c55";
    assert_eq!(inner33.len(), 33);
    assert_eq!(parse_uuid(&format!("{{{}}}", inner33)), Err(Error::InvalidFormat));
    // Inner length 39: total 41 is outside the stripping range.
    let inner39 = "5c16fcb1-76ba-4b06-8fdf-34a6aeb478c5555";
    assert_eq!(inner39.len(), 39);
    assert_eq!(parse_uuid(&format!("{{{}}}", inner39)), Err(Error::InvalidFormat));
}

#[test]
fn invalid_lengths_fail() {
    assert_eq!(parse_uuid(""), Err(Error::InvalidFormat));
    assert_eq!(parse_uuid("5c16fcb176ba4b068fdf34a6aeb478c"), Err(Error::InvalidFormat));
    assert_eq!(parse_uuid("5c16fcb176ba4b068fdf34a6aeb478c5c"), Err(Error::InvalidFormat));
    assert_eq!(
        parse_uuid("5c16fcb1-76ba-4b06-8fdf-34a6aeb478c55"),
        Err(Error::InvalidFormat)
    );
}

#[test]
fn invalid_characters_fail() {
    assert_eq!(parse_uuid("5g16fcb176ba4b068fdf34a6aeb478c5"), Err(Error::InvalidFormat));
    assert_eq!(
        parse_uuid("5c16fcb1x76ba+4b06-8fdf-34a6aeb478c5"),
        Err(Error::InvalidFormat)
    );
}

#[test]
fn misplaced_hyphens_fail() {
    // Right length, hyphens in the wrong columns.
    assert_eq!(
        parse_uuid("5c16fcb17-6ba-4b06-8fdf-34a6aeb478c5"),
        Err(Error::InvalidFormat)
    );
    // Right length, no hyphens at all.
    assert_eq!(
        parse_uuid("5c16fcb176ba4b068fdf34a6aeb478c5ffff"),
        Err(Error::InvalidFormat)
    );
}

#[test]
fn format_names() {
    assert_eq!(format_from_name("simple"), Ok(Format::Simple));
    assert_eq!(format_from_name("hyphenated"), Ok(Format::Hyphenated));
    assert_eq!(format_from_name("urn"), Ok(Format::Urn));
    assert_eq!(format_from_name("ms"), Ok(Format::Microsoft));
    assert_eq!(format_from_name("microsoft"), Ok(Format::Microsoft));
    assert!(format_from_name("Simple").is_err());
    assert!(format_from_name("").is_err());
    let parsed: Format = "urn".parse().unwrap();
    assert_eq!(parsed, Format::Urn);
}

#[test]
fn version_mode_numerals() {
    assert_eq!(parse_version_mode("0"), Ok(VersionMode(Version::Nil)));
    assert_eq!(parse_version_mode("1"), Ok(VersionMode(Version::Mac)));
    assert_eq!(parse_version_mode("2"), Ok(VersionMode(Version::Dce)));
    assert_eq!(parse_version_mode("3"), Ok(VersionMode(Version::Md5)));
    assert_eq!(parse_version_mode("4"), Ok(VersionMode(Version::Random)));
    assert_eq!(parse_version_mode("5"), Ok(VersionMode(Version::Sha1)));
    assert_eq!(parse_version_mode("+4"), Ok(VersionMode(Version::Random)));
    assert_eq!(parse_version_mode("05"), Ok(VersionMode(Version::Sha1)));
    assert!(parse_version_mode("6").is_err());
    assert!(parse_version_mode("255").is_err());
    assert!(parse_version_mode("256").is_err());
    assert!(parse_version_mode("99999999999999999999").is_err());
    assert!(parse_version_mode("").is_err());
    assert!(parse_version_mode("+").is_err());
    assert!(parse_version_mode("-1").is_err());
    assert!(parse_version_mode("four").is_err());
    let parsed: VersionMode = "1".parse().unwrap();
    assert_eq!(parsed, VersionMode(Version::Mac));
}

#[test]
fn bytes_round_trip() {
    let bytes: [u8; 16] = [
        0x5c, 0x16, 0xfc, 0xb1, 0x76, 0xba, 0x4b, 0x06, 0x8f, 0xdf, 0x34, 0xa6, 0xae, 0xb4,
        0x78, 0xc5,
    ];
    let u = Uuid::from_bytes(bytes);
    assert_eq!(u.as_bytes(), &bytes);
    assert_eq!(u, sample());
}
