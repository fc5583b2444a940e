//! The generator: new UUID values for the nil, time-based (v1) and random
//! (v4) versions, and the dispatch rules around them.

use crate::error::Error;
use crate::value::{spec_counter, spec_is_nil, spec_ticks, spec_variant, spec_version, Uuid,
    Variant, Version};
use vstd::prelude::*;

verus! {

/// Relies on rand::random: draws a value of any type that rand's standard
/// distribution covers; nothing is promised of the result.
pub assume_specification<T>[ rand::random::<T> ]() -> (r: T)
    where
        rand::distributions::Standard: rand::distributions::Distribution<T>,
;

/// The 16 bytes of a time-based (v1) value built from a tick count, a
/// counter and a node id: ticks split big-endian into low 32 / mid 16 /
/// high 12 bits with the version nibble set, the counter's low 14 bits
/// with the variant bits set, then the node id.
pub open spec fn v1_bytes(ticks: u64, counter: u16, node: Seq<u8>) -> Seq<u8>
    recommends
        node.len() == 6,
{
    seq![
        ((ticks >> 24) & 0xff) as u8,
        ((ticks >> 16) & 0xff) as u8,
        ((ticks >> 8) & 0xff) as u8,
        (ticks & 0xff) as u8,
        ((ticks >> 40) & 0xff) as u8,
        ((ticks >> 32) & 0xff) as u8,
        (((ticks >> 56) & 0x0f) as u8 | 0x10) as u8,
        ((ticks >> 48) & 0xff) as u8,
        (((counter >> 8) & 0x3f) as u8 | 0x80) as u8,
        (counter & 0xff) as u8,
    ] + node
}

/// The 16 bytes of a random (v4) value built from 16 raw bytes: byte 6
/// keeps its low nibble under the version nibble 4, byte 8 keeps its low
/// 6 bits under the RFC 4122 variant bits.
pub open spec fn v4_bytes(raw: Seq<u8>) -> Seq<u8>
    recommends
        raw.len() == 16,
{
    raw.update(6, ((raw[6] & 0x0f) | 0x40) as u8).update(8, ((raw[8] & 0x3f) | 0x80) as u8)
}

impl Uuid {
    /// The nil UUID: 16 zero bytes.
    pub fn nil() -> (u: Uuid)
        ensures
            u@.len() == 16,
            spec_is_nil(u@),
            spec_version(u@) == Some(Version::Nil),
    {
        let bytes: [u8; 16] = [0u8; 16];
        let u = Uuid::from_bytes(bytes);
        proof {
            assert(forall|i: int| 0 <= i < 16 ==> u@[i] == 0);
            assert(0u8 >> 4 == 0) by (bit_vector);
        }
        u
    }

    /// A time-based (v1) UUID from explicit inputs: the low 60 bits of the
    /// tick count, the low 14 bits of the counter, and the node id, laid
    /// out as RFC 4122 prescribes.
    pub fn new_v1(ticks: u64, counter: u16, node_id: &[u8; 6]) -> (u: Uuid)
        ensures
            u@ == v1_bytes(ticks, counter, node_id@),
            spec_version(u@) == Some(Version::Mac),
            spec_variant(u@) == Some(Variant::RFC4122),
            spec_ticks(u@) == ticks & 0x0fff_ffff_ffff_ffff,
            spec_counter(u@) == counter & 0x3fff,
            u@.subrange(10, 16) == node_id@,
    {
        let bytes: [u8; 16] = [
            ((ticks >> 24) & 0xff) as u8,
            ((ticks >> 16) & 0xff) as u8,
            ((ticks >> 8) & 0xff) as u8,
            (ticks & 0xff) as u8,
            ((ticks >> 40) & 0xff) as u8,
            ((ticks >> 32) & 0xff) as u8,
            ((ticks >> 56) & 0x0f) as u8 | 0x10,
            ((ticks >> 48) & 0xff) as u8,
            ((counter >> 8) & 0x3f) as u8 | 0x80,
            (counter & 0xff) as u8,
            node_id[0],
            node_id[1],
            node_id[2],
            node_id[3],
            node_id[4],
            node_id[5],
        ];
        let u = Uuid::from_bytes(bytes);
        proof {
            assert(u@ =~= v1_bytes(ticks, counter, node_id@));
            lemma_v1_fields(ticks, counter, node_id@);
        }
        u
    }

    /// A v4 value from 16 given bytes: only the version nibble and the
    /// variant bits are overwritten, every other bit is kept.
    pub fn v4_from_bytes(raw: &[u8; 16]) -> (u: Uuid)
        ensures
            u@ == v4_bytes(raw@),
    {
        let bytes: [u8; 16] = [
            raw[0],
            raw[1],
            raw[2],
            raw[3],
            raw[4],
            raw[5],
            (raw[6] & 0x0f) | 0x40,
            raw[7],
            (raw[8] & 0x3f) | 0x80,
            raw[9],
            raw[10],
            raw[11],
            raw[12],
            raw[13],
            raw[14],
            raw[15],
        ];
        let u = Uuid::from_bytes(bytes);
        proof {
            assert(u@ =~= v4_bytes(raw@));
        }
        u
    }

    /// A random (v4) UUID: 16 random bytes with the version nibble and
    /// variant bits overwritten. Whatever the randomness returns, the
    /// result classifies as a random-version, RFC 4122-variant value.
    pub fn new_v4() -> (u: Uuid)
        ensures
            u@.len() == 16,
            spec_version(u@) == Some(Version::Random),
            spec_variant(u@) == Some(Variant::RFC4122),
    {
        let raw: [u8; 16] = rand::random();
        let u = Uuid::v4_from_bytes(&raw);
        proof {
            lemma_v4_classification(raw@);
        }
        u
    }
}

/// A v4 value classifies as version Random and variant RFC 4122, whatever
/// raw bytes it was built from.
pub proof fn lemma_v4_classification(raw: Seq<u8>)
    requires
        raw.len() == 16,
    ensures
        spec_version(v4_bytes(raw)) == Some(Version::Random),
        spec_variant(v4_bytes(raw)) == Some(Variant::RFC4122),
{
    let b = v4_bytes(raw);
    let b6 = b[6];
    let b8 = b[8];
    assert(b6 == ((raw[6] & 0x0f) | 0x40) as u8);
    assert(b8 == ((raw[8] & 0x3f) | 0x80) as u8);
    assert(forall|x: u8| ((x & 0x0f) | 0x40) >> 4 == 4) by (bit_vector);
    assert(forall|x: u8|
        (((x & 0x3f) | 0x80) & 0x80 != 0) && (((x & 0x3f) | 0x80) & 0xc0 == 0x80)) by (bit_vector);
}

/// A v1 value classifies as version Mac and variant RFC 4122, and gives
/// back the low 60 bits of the tick count, the low 14 bits of the counter
/// and the node id it was built from.
pub proof fn lemma_v1_fields(ticks: u64, counter: u16, node: Seq<u8>)
    requires
        node.len() == 6,
    ensures
        spec_version(v1_bytes(ticks, counter, node)) == Some(Version::Mac),
        spec_variant(v1_bytes(ticks, counter, node)) == Some(Variant::RFC4122),
        spec_ticks(v1_bytes(ticks, counter, node)) == ticks & 0x0fff_ffff_ffff_ffff,
        spec_counter(v1_bytes(ticks, counter, node)) == counter & 0x3fff,
        v1_bytes(ticks, counter, node).subrange(10, 16) == node,
{
    let b = v1_bytes(ticks, counter, node);
    let t = ticks;
    let c = counter;
    assert(forall|x: u64| (((x >> 56) & 0x0f) as u8 | 0x10) >> 4 == 1) by (bit_vector);
    assert(b[6] == (((t >> 56) & 0x0f) as u8 | 0x10) as u8);
    assert(forall|x: u16|
        ((((x >> 8) & 0x3f) as u8 | 0x80) & 0x80 != 0) && ((((x >> 8) & 0x3f) as u8 | 0x80) & 0xc0
            == 0x80)) by (bit_vector);
    assert(b[8] == (((c >> 8) & 0x3f) as u8 | 0x80) as u8);
    assert((((((t >> 56) & 0x0f) as u8 | 0x10) as u8 & 0x0f) as u64) << 56 | ((((t >> 48)
        & 0xff) as u8 as u64) << 48) | ((((t >> 40) & 0xff) as u8 as u64) << 40) | ((((t >> 32)
        & 0xff) as u8 as u64) << 32) | ((((t >> 24) & 0xff) as u8 as u64) << 24) | ((((t >> 16)
        & 0xff) as u8 as u64) << 16) | ((((t >> 8) & 0xff) as u8 as u64) << 8) | ((t
        & 0xff) as u8 as u64) == t & 0x0fff_ffff_ffff_ffff) by (bit_vector);
    assert(((((((c >> 8) & 0x3f) as u8 | 0x80) as u8 & 0x3f) as u16) << 8) | ((c
        & 0xff) as u8 as u16) == c & 0x3fff) by (bit_vector);
    assert(b.subrange(10, 16) =~= node);
}

/// Calculate an RFC 4122 tick timestamp value (100-nanosecond intervals)
/// from the seconds and fractional nanoseconds of a unix timestamp. The
/// convention here counts ticks from the unix epoch: the offset to the
/// RFC 4122 epoch of 1582-10-15 is not added.
pub fn ticks_from_timestamp(seconds: u64, subsec_nanos: u32) -> (r: u64)
    requires
        seconds * 10_000_000 + subsec_nanos as int / 100 <= u64::MAX,
    ensures
        r == seconds * 10_000_000 + subsec_nanos as int / 100,
{
    seconds * 10_000_000 + (subsec_nanos as u64) / 100
}

/// The counter to use for time-based generation: the explicit value where
/// one was given, a random one otherwise (to reduce the chance that two
/// processes generating at the same tick collide).
pub fn counter_or_random(counter: Option<u16>) -> (r: u16)
    ensures
        counter is Some ==> counter == Some(r),
{
    match counter {
        Some(c) => c,
        None => rand::random(),
    }
}

/// What a requested version asks the generator to do.
#[derive(Clone, Copy, Debug, PartialEq, Eq, Structural)]
pub enum GenKind {
    /// Produce the nil value.
    Nil,
    /// Produce a time-based value (needs ticks, counter and node id).
    Mac,
    /// Produce a random value.
    Random,
}

/// The generation dispatch rule: no requested version means a random
/// value; nil, time-based and random versions are generatable; the
/// name-based and DCE versions need a source value this system does not
/// collect, so requesting them fails.
pub fn generation_kind(requested: Option<Version>) -> (r: Result<GenKind, Error>)
    ensures
        r == match requested {
            None => Ok::<GenKind, Error>(GenKind::Random),
            Some(Version::Nil) => Ok::<GenKind, Error>(GenKind::Nil),
            Some(Version::Mac) => Ok::<GenKind, Error>(GenKind::Mac),
            Some(Version::Random) => Ok::<GenKind, Error>(GenKind::Random),
            Some(Version::Dce) | Some(Version::Md5) | Some(Version::Sha1) => Err::<
                GenKind,
                Error,
            >(Error::UnsupportedGenerationVersion),
        },
{
    match requested {
        None => Ok(GenKind::Random),
        Some(Version::Nil) => Ok(GenKind::Nil),
        Some(Version::Mac) => Ok(GenKind::Mac),
        Some(Version::Random) => Ok(GenKind::Random),
        Some(Version::Dce) | Some(Version::Md5) | Some(Version::Sha1) => Err(
            Error::UnsupportedGenerationVersion,
        ),
    }
}

/// The version-constraint rule on a supplied value: a requested version
/// rejects a value whose decoded version is known and different; a value
/// with an unknown (reserved) version passes any request.
pub fn check_requested_version(u: &Uuid, requested: Option<Version>) -> (r: Result<(), Error>)
    ensures
        r == (if requested is Some && spec_version(u@) is Some && requested != spec_version(u@) {
            Err::<(), Error>(Error::VersionMismatch)
        } else {
            Ok::<(), Error>(())
        }),
{
    match (requested, u.get_version()) {
        (Some(expected), Some(actual)) => {
            if expected == actual {
                Ok(())
            } else {
                Err(Error::VersionMismatch)
            }
        },
        _ => Ok(()),
    }
}

} // verus!
