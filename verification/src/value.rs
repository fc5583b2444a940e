//! The UUID value itself: an immutable 128-bit quantity held as 16 bytes,
//! with accessors for the fields that RFC 4122 derives from its bits
//! (version, variant, and for time-based values the timestamp, counter and
//! node id).

use vstd::prelude::*;

verus! {

/// The UUID version: which algorithm produced the value (bits 4..8 of
/// byte 6, with the all-zeros value singled out as `Nil`).
#[derive(Clone, Copy, Debug, PartialEq, Eq, Structural)]
pub enum Version {
    Nil,
    Mac,
    Dce,
    Md5,
    Random,
    Sha1,
}

/// The UUID variant: the layout family, derived from the top bits of
/// byte 8.
#[derive(Clone, Copy, Debug, PartialEq, Eq, Structural)]
pub enum Variant {
    NCS,
    RFC4122,
    Microsoft,
    Future,
}

/// A UUID: exactly 16 bytes, immutable once constructed.
#[derive(Clone, Copy, Debug, PartialEq, Eq)]
pub struct Uuid {
    bytes: [u8; 16],
}

impl View for Uuid {
    type V = Seq<u8>;

    closed spec fn view(&self) -> Seq<u8> {
        self.bytes@
    }
}

/// Every byte of the value is zero.
pub open spec fn spec_is_nil(b: Seq<u8>) -> bool {
    forall|i: int| 0 <= i < b.len() ==> b[i] == 0
}

/// The version classification of a 16-byte value: the high nibble of
/// byte 6, where 0 counts as `Nil` only for the all-zeros value and
/// nibbles above 5 are reserved (no classification).
pub open spec fn spec_version(b: Seq<u8>) -> Option<Version>
    recommends
        b.len() == 16,
{
    let v = b[6] >> 4;
    if v == 0 {
        if spec_is_nil(b) {
            Some(Version::Nil)
        } else {
            None
        }
    } else if v == 1 {
        Some(Version::Mac)
    } else if v == 2 {
        Some(Version::Dce)
    } else if v == 3 {
        Some(Version::Md5)
    } else if v == 4 {
        Some(Version::Random)
    } else if v == 5 {
        Some(Version::Sha1)
    } else {
        None
    }
}

/// The variant classification of a 16-byte value, from the top bits of
/// byte 8: 0xx is NCS, 10x is RFC 4122, 110 is Microsoft, 111 is reserved.
pub open spec fn spec_variant(b: Seq<u8>) -> Option<Variant>
    recommends
        b.len() == 16,
{
    let x = b[8];
    if x & 0x80 == 0x00 {
        Some(Variant::NCS)
    } else if x & 0xc0 == 0x80 {
        Some(Variant::RFC4122)
    } else if x & 0xe0 == 0xc0 {
        Some(Variant::Microsoft)
    } else if x & 0xe0 == 0xe0 {
        Some(Variant::Future)
    } else {
        None
    }
}

/// The 60-bit RFC 4122 tick count stored in a time-based value: byte 6's
/// low nibble is the highest 4 bits, then byte 7, bytes 4-5, bytes 0-3.
pub open spec fn spec_ticks(b: Seq<u8>) -> u64
    recommends
        b.len() == 16,
{
    (((b[6] & 0x0f) as u64) << 56) | ((b[7] as u64) << 48) | ((b[4] as u64) << 40) | ((
    b[5] as u64) << 32) | ((b[0] as u64) << 24) | ((b[1] as u64) << 16) | ((b[2] as u64) << 8) | (
    b[3] as u64)
}

/// The 14-bit clock-sequence counter stored in a time-based value: the low
/// 6 bits of byte 8 followed by byte 9.
pub open spec fn spec_counter(b: Seq<u8>) -> u16
    recommends
        b.len() == 16,
{
    (((b[8] & 0x3f) as u16) << 8) | (b[9] as u16)
}

impl Uuid {
    /// Construct a UUID from its 16 bytes.
    pub fn from_bytes(bytes: [u8; 16]) -> (u: Uuid)
        ensures
            u@ == bytes@,
    {
        Uuid { bytes }
    }

    /// The 16 bytes of the value.
    pub fn as_bytes(&self) -> (r: &[u8; 16])
        ensures
            r@ == self@,
    {
        &self.bytes
    }

    /// Whether every byte of the value is zero.
    pub fn is_nil(&self) -> (r: bool)
        ensures
            r == spec_is_nil(self@),
    {
        let mut i: usize = 0;
        while i < 16
            invariant
                0 <= i <= 16,
                self@.len() == 16,
                forall|j: int| 0 <= j < i ==> self@[j] == 0,
            decreases 16 - i,
        {
            if self.bytes[i] != 0 {
                return false;
            }
            i = i + 1;
        }
        true
    }

    /// The version of the value, or `None` for a reserved bit pattern.
    pub fn get_version(&self) -> (r: Option<Version>)
        ensures
            r == spec_version(self@),
    {
        let v = self.bytes[6] >> 4;
        if v == 0 {
            if self.is_nil() {
                Some(Version::Nil)
            } else {
                None
            }
        } else if v == 1 {
            Some(Version::Mac)
        } else if v == 2 {
            Some(Version::Dce)
        } else if v == 3 {
            Some(Version::Md5)
        } else if v == 4 {
            Some(Version::Random)
        } else if v == 5 {
            Some(Version::Sha1)
        } else {
            None
        }
    }

    /// The variant of the value, or `None` for an undecodable pattern.
    pub fn get_variant(&self) -> (r: Option<Variant>)
        ensures
            r == spec_variant(self@),
    {
        let x = self.bytes[8];
        if x & 0x80 == 0x00 {
            Some(Variant::NCS)
        } else if x & 0xc0 == 0x80 {
            Some(Variant::RFC4122)
        } else if x & 0xe0 == 0xc0 {
            Some(Variant::Microsoft)
        } else if x & 0xe0 == 0xe0 {
            Some(Variant::Future)
        } else {
            None
        }
    }

    /// The embedded timestamp ticks and counter, defined only for a
    /// time-based (v1) value; `None` for every other version.
    pub fn extract_timestamp(&self) -> (r: Option<(u64, u16)>)
        ensures
            r == (if spec_version(self@) == Some(Version::Mac) {
                Some((spec_ticks(self@), spec_counter(self@)))
            } else {
                None::<(u64, u16)>
            }),
    {
        match self.get_version() {
            Some(Version::Mac) => {
                let ticks: u64 = (((self.bytes[6] & 0x0f) as u64) << 56) | ((
                self.bytes[7] as u64) << 48) | ((self.bytes[4] as u64) << 40) | ((
                self.bytes[5] as u64) << 32) | ((self.bytes[0] as u64) << 24) | ((
                self.bytes[1] as u64) << 16) | ((self.bytes[2] as u64) << 8) | (
                self.bytes[3] as u64);
                let counter: u16 = (((self.bytes[8] & 0x3f) as u16) << 8) | (self.bytes[9] as u16);
                Some((ticks, counter))
            },
            _ => None,
        }
    }

    /// The node id: the last 6 bytes of the value, extractable
    /// unconditionally (meaningful only for the time-based version).
    pub fn node_id(&self) -> (r: [u8; 6])
        ensures
            r@ == self@.subrange(10, 16),
    {
        let r: [u8; 6] = [
            self.bytes[10],
            self.bytes[11],
            self.bytes[12],
            self.bytes[13],
            self.bytes[14],
            self.bytes[15],
        ];
        proof {
            assert(r@ =~= self@.subrange(10, 16));
        }
        r
    }
}

/// A requested UUID version, as given on a command line.
#[derive(Clone, Copy, Debug, PartialEq, Eq, Structural)]
pub struct VersionMode(pub Version);

/// Whether a character is a decimal digit.
pub open spec fn is_dec_digit(c: char) -> bool {
    '0' <= c && c <= '9'
}

/// The number denoted by a sequence of decimal digits (most significant
/// first; the empty sequence denotes 0).
pub open spec fn dec_value(s: Seq<char>) -> int
    decreases s.len(),
{
    if s.len() == 0 {
        0
    } else {
        dec_value(s.drop_last()) * 10 + (s.last() as u32 - 48)
    }
}

/// The digit part of a numeral: an optional leading `+` is stripped.
pub open spec fn numeral_digits(s: Seq<char>) -> Seq<char> {
    if s.len() > 0 && s[0] == '+' {
        s.drop_first()
    } else {
        s
    }
}

/// Whether a sequence is entirely decimal digits.
pub open spec fn all_dec_digits(s: Seq<char>) -> bool {
    forall|i: int| 0 <= i < s.len() ==> is_dec_digit(s[i])
}

/// The byte denoted by a numeral, in the shapes the standard u8 parser
/// accepts: an optional `+`, then at least one digit, denoting a value
/// below 256.
pub open spec fn spec_parse_u8(s: Seq<char>) -> Option<u8> {
    let d = numeral_digits(s);
    if d.len() > 0 && all_dec_digits(d) && dec_value(d) < 256 {
        Some(dec_value(d) as u8)
    } else {
        None
    }
}

/// The version named by a number on the command line: 0 to 5; anything
/// else is out of range.
pub open spec fn version_of_number(n: u8) -> Option<Version> {
    if n == 0 {
        Some(Version::Nil)
    } else if n == 1 {
        Some(Version::Mac)
    } else if n == 2 {
        Some(Version::Dce)
    } else if n == 3 {
        Some(Version::Md5)
    } else if n == 4 {
        Some(Version::Random)
    } else if n == 5 {
        Some(Version::Sha1)
    } else {
        None
    }
}

/// A digit sequence denotes a non-negative value.
proof fn lemma_dec_value_nonneg(d: Seq<char>)
    requires
        all_dec_digits(d),
    ensures
        dec_value(d) >= 0,
    decreases d.len(),
{
    if d.len() > 0 {
        assert(all_dec_digits(d.drop_last())) by {
            assert(forall|i: int| 0 <= i < d.len() - 1 ==> d.drop_last()[i] == d[i]);
        }
        lemma_dec_value_nonneg(d.drop_last());
        assert(is_dec_digit(d.last()));
    }
}

/// A digit sequence denotes a value no smaller than any of its prefixes.
proof fn lemma_dec_value_prefix(d: Seq<char>, k: int)
    requires
        0 <= k <= d.len(),
        all_dec_digits(d),
    ensures
        dec_value(d.subrange(0, k)) <= dec_value(d),
    decreases d.len() - k,
{
    if k == d.len() {
        assert(d.subrange(0, k) =~= d);
    } else {
        assert(all_dec_digits(d.subrange(0, k))) by {
            assert(forall|i: int| 0 <= i < k ==> d.subrange(0, k)[i] == d[i]);
        }
        lemma_dec_value_nonneg(d.subrange(0, k));
        assert(d.subrange(0, k + 1).drop_last() =~= d.subrange(0, k));
        assert(d.subrange(0, k + 1).last() == d[k]);
        assert(is_dec_digit(d[k]));
        lemma_dec_value_prefix(d, k + 1);
    }
}

/// Parse a requested version from its command-line numeral: a decimal
/// number 0 to 5 (the standard u8 shapes are accepted, so an optional
/// leading `+` and leading zeros are fine). A non-numeral and a value
/// above 255 fail as a malformed number; 6 to 255 fail as out of range.
pub fn parse_version_mode(s: &str) -> (r: Result<VersionMode, String>)
    ensures
        match spec_parse_u8(s@) {
            Some(n) => match version_of_number(n) {
                Some(v) => r matches Ok(m) && m.0 == v,
                None => r is Err,
            },
            None => r is Err,
        },
{
    let n = s.unicode_len();
    let start: usize = if n > 0 && s.get_char(0) == '+' {
        1
    } else {
        0
    };
    let ghost d = numeral_digits(s@);
    proof {
        assert(d =~= s@.subrange(start as int, n as int));
    }
    if start == n {
        return Err(String::from_str("cannot parse integer from empty string"));
    }
    let mut acc: u32 = 0;
    let mut i: usize = start;
    proof {
        assert(d.subrange(0, 0) =~= Seq::<char>::empty());
    }
    while i < n
        invariant
            start <= i <= n == s@.len(),
            d == numeral_digits(s@),
            d =~= s@.subrange(start as int, n as int),
            acc <= 255,
            acc == dec_value(d.subrange(0, i - start)),
            all_dec_digits(d.subrange(0, i - start)),
        decreases n - i,
    {
        let c = s.get_char(i);
        let v = c as u32;
        if !(48 <= v && v <= 57) {
            proof {
                assert(d[i - start] == c);
                assert(!is_dec_digit(c));
                assert(!all_dec_digits(d));
                assert(spec_parse_u8(s@) is None);
            }
            return Err(String::from_str("invalid digit found in string"));
        }
        acc = acc * 10 + (v - 48);
        proof {
            assert(d.subrange(0, i - start + 1).drop_last() =~= d.subrange(0, i - start));
            assert(d.subrange(0, i - start + 1).last() == c);
            assert forall|j: int| 0 <= j < i - start + 1 implies is_dec_digit(
                #[trigger] d.subrange(0, i - start + 1)[j],
            ) by {
                if j < i - start {
                    assert(d.subrange(0, i - start)[j] == d.subrange(0, i - start + 1)[j]);
                }
            }
        }
        i = i + 1;
        if acc > 255 {
            proof {
                assert(acc == dec_value(d.subrange(0, i - start)));
                if all_dec_digits(d) {
                    lemma_dec_value_prefix(d, i - start);
                    assert(dec_value(d) > 255);
                }
                assert(spec_parse_u8(s@) is None);
            }
            return Err(String::from_str("number too large to fit in target type"));
        }
    }
    proof {
        assert(d.subrange(0, d.len() as int) =~= d);
        assert(spec_parse_u8(s@) == Some(acc as u8));
    }
    match acc {
        0 => Ok(VersionMode(Version::Nil)),
        1 => Ok(VersionMode(Version::Mac)),
        2 => Ok(VersionMode(Version::Dce)),
        3 => Ok(VersionMode(Version::Md5)),
        4 => Ok(VersionMode(Version::Random)),
        5 => Ok(VersionMode(Version::Sha1)),
        _ => Err(String::from_str("Version out of range")),
    }
}

impl core::str::FromStr for VersionMode {
    type Err = String;

    fn from_str(s: &str) -> Result<VersionMode, String> {
        parse_version_mode(s)
    }
}

/// The diagnostic label of an optional version.
#[derive(Clone, Copy, Debug)]
pub struct VersionDesc(pub Option<Version>);

impl VersionDesc {
    /// The label written to the diagnostic stream for this version.
    pub fn label(&self) -> (r: &'static str)
        ensures
            r@ == match self.0 {
                Some(Version::Nil) => "Nil"@,
                Some(Version::Mac) => "v1 MAC Address"@,
                Some(Version::Dce) => "v2 DCE"@,
                Some(Version::Md5) => "v3 MD5"@,
                Some(Version::Random) => "v4 Random"@,
                Some(Version::Sha1) => "v5 SHA-1"@,
                None => "Unknown"@,
            },
    {
        match self.0 {
            Some(Version::Nil) => "Nil",
            Some(Version::Mac) => "v1 MAC Address",
            Some(Version::Dce) => "v2 DCE",
            Some(Version::Md5) => "v3 MD5",
            Some(Version::Random) => "v4 Random",
            Some(Version::Sha1) => "v5 SHA-1",
            None => "Unknown",
        }
    }
}

/// The diagnostic label of an optional variant.
#[derive(Clone, Copy, Debug)]
pub struct VariantDesc(pub Option<Variant>);

impl VariantDesc {
    /// The label written to the diagnostic stream for this variant.
    pub fn label(&self) -> (r: &'static str)
        ensures
            r@ == match self.0 {
                Some(Variant::NCS) => "NCS"@,
                Some(Variant::RFC4122) => "RFC4122"@,
                Some(Variant::Microsoft) => "Microsoft"@,
                Some(Variant::Future) => "Reserved"@,
                None => "Unknown"@,
            },
    {
        match self.0 {
            Some(Variant::NCS) => "NCS",
            Some(Variant::RFC4122) => "RFC4122",
            Some(Variant::Microsoft) => "Microsoft",
            Some(Variant::Future) => "Reserved",
            None => "Unknown",
        }
    }
}

} // verus!
