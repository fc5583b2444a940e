//! Checks against the reference uuid crate: both sides must parse the
//! same strings to the same bytes, print the same text, and decode the
//! same fields.

use uuid_tool::{format_uuid, parse_uuid, Format, Uuid};

const SAMPLES: [&str; 4] = [
    "5c16fcb1-76ba-4b06-8fdf-34a6aeb478c5",
    "00000000-0000-0000-0000-000000000000",
    "5943ee37-0000-1000-8000-010203040506",
    "FFFFFFFF-FFFF-FFFF-FFFF-FFFFFFFFFFFF",
];

#[test]
fn parse_agrees_with_reference() {
    for s in SAMPLES {
        let ours = parse_uuid(s).unwrap();
        let theirs = uuid::Uuid::parse_str(s).unwrap();
        assert_eq!(ours.as_bytes(), theirs.as_bytes());
    }
    for s in [
        "5c16fcb176ba4b068fdf34a6aeb478c5",
        "urn:uuid:5c16fcb1-76ba-4b06-8fdf-34a6aeb478c5",
        "5C16FCB176BA4B068FDF34A6AEB478C5",
    ] {
        let ours = parse_uuid(s).unwrap();
        let theirs = uuid::Uuid::parse_str(s).unwrap();
        assert_eq!(ours.as_bytes(), theirs.as_bytes());
    }
}

#[test]
fn parse_rejects_what_reference_rejects() {
    for s in [
        "",
        "not a uuid",
        "5c16fcb176ba4b068fdf34a6aeb478c",
        "5c16fcb17-6ba-4b06-8fdf-34a6aeb478c5",
        "urn:uuid:5c16fcb176ba4b068fdf34a6aeb478c5ffff",
        "URN:UUID:5C16FCB1-76BA-4B06-8FDF-34A6AEB478C5",
    ] {
        assert!(parse_uuid(s).is_err(), "ours accepted {:?}", s);
        assert!(uuid::Uuid::parse_str(s).is_err(), "reference accepted {:?}", s);
    }
}

#[test]
fn formats_agree_with_reference() {
    for s in SAMPLES {
        let ours = parse_uuid(s).unwrap();
        let theirs = uuid::Uuid::parse_str(s).unwrap();
        assert_eq!(format_uuid(&ours, Format::Simple), theirs.to_simple().to_string());
        assert_eq!(
            format_uuid(&ours, Format::Hyphenated),
            theirs.to_hyphenated().to_string()
        );
        assert_eq!(format_uuid(&ours, Format::Urn), theirs.to_urn().to_string());
        assert_eq!(
            format_uuid(&ours, Format::Microsoft),
            format!("{{{}}}", theirs.to_hyphenated())
        );
    }
}

#[test]
fn v1_agrees_with_reference() {
    let ticks: u64 = 14_968_545_358_129_460;
    let counter: u16 = 0x2def;
    let node: [u8; 6] = [0xde, 0xad, 0xbe, 0xef, 0x00, 0x42];
    let ours = Uuid::new_v1(ticks, counter, &node);
    let ts = uuid::v1::Timestamp::from_rfc4122(ticks, counter);
    let theirs = uuid::Uuid::new_v1(ts, &node).unwrap();
    assert_eq!(ours.as_bytes(), theirs.as_bytes());
    let decoded = theirs.to_timestamp().unwrap().to_rfc4122();
    assert_eq!(ours.extract_timestamp(), Some(decoded));
}

#[test]
fn version_and_variant_agree_with_reference() {
    let mut inputs: Vec<String> = SAMPLES.iter().map(|s| s.to_string()).collect();
    // A reserved version nibble and each variant family.
    inputs.push("5c16fcb1-76ba-eb06-8fdf-34a6aeb478c5".to_string());
    inputs.push("5c16fcb1-76ba-4b06-0fdf-34a6aeb478c5".to_string());
    inputs.push("5c16fcb1-76ba-4b06-cfdf-34a6aeb478c5".to_string());
    inputs.push("5c16fcb1-76ba-4b06-ffdf-34a6aeb478c5".to_string());
    for s in inputs {
        let ours = parse_uuid(&s).unwrap();
        let theirs = uuid::Uuid::parse_str(&s).unwrap();
        assert_eq!(
            ours.get_version().map(|v| v as u8),
            theirs.get_version().map(|v| v as u8),
            "version of {}",
            s
        );
        assert_eq!(
            ours.get_variant().map(|v| v as u8),
            theirs.get_variant().map(|v| v as u8),
            "variant of {}",
            s
        );
    }
}
