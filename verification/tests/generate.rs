use uuid_tool::value::{VariantDesc, VersionDesc};
use uuid_tool::{
    check_requested_version, counter_or_random, format_uuid, generation_kind, parse_uuid,
    ticks_from_timestamp, Error, Format, GenKind, Uuid, Variant, Version,
};

#[test]
fn nil_is_all_zeros() {
    let u = Uuid::nil();
    assert_eq!(u.as_bytes(), &[0u8; 16]);
    assert_eq!(u.get_version(), Some(Version::Nil));
    assert_eq!(
        format_uuid(&u, Format::Simple),
        "00000000000000000000000000000000"
    );
}

#[test]
fn random_has_version_and_variant() {
    let u = Uuid::new_v4();
    assert_eq!(u.get_version(), Some(Version::Random));
    assert_eq!(u.get_variant(), Some(Variant::RFC4122));
}

#[test]
fn random_values_differ() {
    let a = Uuid::new_v4();
    let b = Uuid::new_v4();
    assert_ne!(a, b);
}

#[test]
fn mac_generation_with_zero_inputs() {
    let u = Uuid::new_v1(0, 0, &[0u8; 6]);
    assert_eq!(u.extract_timestamp(), Some((0, 0)));
    assert_eq!(u.node_id(), [0u8; 6]);
    assert_eq!(u.get_version(), Some(Version::Mac));
    assert_eq!(u.get_variant(), Some(Variant::RFC4122));
}

#[test]
fn mac_generation_round_trips_fields() {
    let ticks: u64 = 0x0123_4567_89ab_cdef;
    let counter: u16 = 0x1234;
    let node: [u8; 6] = [0x01, 0x02, 0x03, 0x04, 0x05, 0x06];
    let u = Uuid::new_v1(ticks, counter, &node);
    // Only the low 60 bits of the ticks and 14 bits of the counter fit.
    assert_eq!(u.extract_timestamp(), Some((ticks & 0x0fff_ffff_ffff_ffff, counter & 0x3fff)));
    assert_eq!(u.node_id(), node);
    assert_eq!(u.get_version(), Some(Version::Mac));
    assert_eq!(u.get_variant(), Some(Variant::RFC4122));
}

#[test]
fn mac_known_value() {
    let u = Uuid::new_v1(1497624119, 0, &[1, 2, 3, 4, 5, 6]);
    assert_eq!(
        format_uuid(&u, Format::Hyphenated),
        "5943ee37-0000-1000-8000-010203040506"
    );
}

#[test]
fn timestamp_only_for_mac() {
    let v4 = parse_uuid("5c16fcb1-76ba-4b06-8fdf-34a6aeb478c5").unwrap();
    assert_eq!(v4.extract_timestamp(), None);
    assert_eq!(Uuid::nil().extract_timestamp(), None);
}

#[test]
fn version_mismatch_rejected() {
    let v4 = parse_uuid("5c16fcb1-76ba-4b06-8fdf-34a6aeb478c5").unwrap();
    assert_eq!(v4.get_version(), Some(Version::Random));
    assert_eq!(
        check_requested_version(&v4, Some(Version::Mac)),
        Err(Error::VersionMismatch)
    );
    assert_eq!(check_requested_version(&v4, Some(Version::Random)), Ok(()));
    assert_eq!(check_requested_version(&v4, None), Ok(()));
}

#[test]
fn unknown_version_passes_any_request() {
    // Version nibble 0 with nonzero bytes: reserved, classified as unknown.
    let mut bytes = [0u8; 16];
    bytes[0] = 1;
    let u = Uuid::from_bytes(bytes);
    assert_eq!(u.get_version(), None);
    assert_eq!(check_requested_version(&u, Some(Version::Mac)), Ok(()));
}

#[test]
fn generation_dispatch() {
    assert_eq!(generation_kind(None), Ok(GenKind::Random));
    assert_eq!(generation_kind(Some(Version::Nil)), Ok(GenKind::Nil));
    assert_eq!(generation_kind(Some(Version::Mac)), Ok(GenKind::Mac));
    assert_eq!(generation_kind(Some(Version::Random)), Ok(GenKind::Random));
    assert_eq!(
        generation_kind(Some(Version::Dce)),
        Err(Error::UnsupportedGenerationVersion)
    );
    assert_eq!(
        generation_kind(Some(Version::Md5)),
        Err(Error::UnsupportedGenerationVersion)
    );
    assert_eq!(
        generation_kind(Some(Version::Sha1)),
        Err(Error::UnsupportedGenerationVersion)
    );
}

#[test]
fn ticks_formula() {
    assert_eq!(ticks_from_timestamp(0, 0), 0);
    assert_eq!(ticks_from_timestamp(1, 150), 10_000_001);
    assert_eq!(ticks_from_timestamp(1_496_854_535, 812_946_000), 14_968_545_358_129_460);
}

#[test]
fn explicit_counter_is_kept() {
    assert_eq!(counter_or_random(Some(7)), 7);
    assert_eq!(counter_or_random(Some(0x3fff)), 0x3fff);
}

#[test]
fn variant_classification() {
    let mut bytes = [0u8; 16];
    bytes[0] = 1;
    bytes[8] = 0x00;
    assert_eq!(Uuid::from_bytes(bytes).get_variant(), Some(Variant::NCS));
    bytes[8] = 0x80;
    assert_eq!(Uuid::from_bytes(bytes).get_variant(), Some(Variant::RFC4122));
    bytes[8] = 0xc0;
    assert_eq!(Uuid::from_bytes(bytes).get_variant(), Some(Variant::Microsoft));
    bytes[8] = 0xe0;
    assert_eq!(Uuid::from_bytes(bytes).get_variant(), Some(Variant::Future));
}

#[test]
fn diagnostic_labels() {
    assert_eq!(VersionDesc(Some(Version::Nil)).label(), "Nil");
    assert_eq!(VersionDesc(Some(Version::Mac)).label(), "v1 MAC Address");
    assert_eq!(VersionDesc(Some(Version::Dce)).label(), "v2 DCE");
    assert_eq!(VersionDesc(Some(Version::Md5)).label(), "v3 MD5");
    assert_eq!(VersionDesc(Some(Version::Random)).label(), "v4 Random");
    assert_eq!(VersionDesc(Some(Version::Sha1)).label(), "v5 SHA-1");
    assert_eq!(VersionDesc(None).label(), "Unknown");
    assert_eq!(VariantDesc(Some(Variant::NCS)).label(), "NCS");
    assert_eq!(VariantDesc(Some(Variant::RFC4122)).label(), "RFC4122");
    assert_eq!(VariantDesc(Some(Variant::Microsoft)).label(), "Microsoft");
    assert_eq!(VariantDesc(Some(Variant::Future)).label(), "Reserved");
    assert_eq!(VariantDesc(None).label(), "Unknown");
}

#[test]
fn error_messages_exist() {
    assert_eq!(Error::InvalidFormat.describe(), "invalid uuid format");
    assert!(Error::VersionMismatch.describe().contains("--version-mode"));
    assert!(Error::UnsupportedGenerationVersion.describe().contains("0, 1, and 4"));
    assert!(!Error::InterfaceNotFound.describe().is_empty());
    assert!(!Error::NoMacAddressAvailable.describe().is_empty());
}
