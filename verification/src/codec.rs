//! The textual codec: serializing a UUID into any of the four encodings
//! (simple, hyphenated, URN, Microsoft braces) and parsing any of them
//! back, case-insensitively on hex digits.

use crate::error::Error;
use crate::value::Uuid;
use vstd::prelude::*;
use vstd::string::StrSliceExecFns;
use vstd::string::StringExecFns;

verus! {

/// One of the four textual encodings of a UUID.
#[derive(Clone, Copy, Debug, PartialEq, Eq, Structural)]
pub enum Format {
    Simple,
    Hyphenated,
    Urn,
    Microsoft,
}

/// The lowercase hex digit for a nibble value (values above 15 are never
/// produced; they map to '0').
pub open spec fn hex_char_of(n: u8) -> char {
    if n == 0 {
        '0'
    } else if n == 1 {
        '1'
    } else if n == 2 {
        '2'
    } else if n == 3 {
        '3'
    } else if n == 4 {
        '4'
    } else if n == 5 {
        '5'
    } else if n == 6 {
        '6'
    } else if n == 7 {
        '7'
    } else if n == 8 {
        '8'
    } else if n == 9 {
        '9'
    } else if n == 10 {
        'a'
    } else if n == 11 {
        'b'
    } else if n == 12 {
        'c'
    } else if n == 13 {
        'd'
    } else if n == 14 {
        'e'
    } else if n == 15 {
        'f'
    } else {
        '0'
    }
}

/// Whether a character is a hex digit, either case.
pub open spec fn is_hex_digit(c: char) -> bool {
    ('0' <= c && c <= '9') || ('a' <= c && c <= 'f') || ('A' <= c && c <= 'F')
}

/// The value of a hex digit, either case (non-digits map to 0).
pub open spec fn hex_digit_value(c: char) -> u8 {
    if '0' <= c && c <= '9' {
        (c as u32 - 48) as u8
    } else if 'a' <= c && c <= 'f' {
        (c as u32 - 87) as u8
    } else if 'A' <= c && c <= 'F' {
        (c as u32 - 55) as u8
    } else {
        0
    }
}

/// The lowercase hex encoding of a byte sequence: two digits per byte,
/// high nibble first.
pub open spec fn hex_of_bytes(b: Seq<u8>) -> Seq<char> {
    Seq::new(2 * b.len(), |i: int| if i % 2 == 0 {
        hex_char_of(b[i / 2] / 16)
    } else {
        hex_char_of(b[i / 2] % 16)
    })
}

/// The 9-character URN prefix.
pub open spec fn urn_prefix() -> Seq<char> {
    seq!['u', 'r', 'n', ':', 'u', 'u', 'i', 'd', ':']
}

/// The simple encoding: 32 contiguous lowercase hex digits.
pub open spec fn simple_of(b: Seq<u8>) -> Seq<char>
    recommends
        b.len() == 16,
{
    hex_of_bytes(b)
}

/// The hyphenated (canonical) encoding: hex groups of 8-4-4-4-12 digits.
pub open spec fn hyphenated_of(b: Seq<u8>) -> Seq<char>
    recommends
        b.len() == 16,
{
    hex_of_bytes(b.subrange(0, 4)) + seq!['-'] + hex_of_bytes(b.subrange(4, 6)) + seq!['-']
        + hex_of_bytes(b.subrange(6, 8)) + seq!['-'] + hex_of_bytes(b.subrange(8, 10)) + seq!['-']
        + hex_of_bytes(b.subrange(10, 16))
}

/// The URN encoding: the prefix `urn:uuid:` before the hyphenated form.
pub open spec fn urn_of(b: Seq<u8>) -> Seq<char>
    recommends
        b.len() == 16,
{
    urn_prefix() + hyphenated_of(b)
}

/// The Microsoft encoding: the hyphenated form in braces.
pub open spec fn microsoft_of(b: Seq<u8>) -> Seq<char>
    recommends
        b.len() == 16,
{
    seq!['{'] + hyphenated_of(b) + seq!['}']
}

/// The encoding of a 16-byte value in the given format.
pub open spec fn spec_format(b: Seq<u8>, f: Format) -> Seq<char>
    recommends
        b.len() == 16,
{
    match f {
        Format::Simple => simple_of(b),
        Format::Hyphenated => hyphenated_of(b),
        Format::Urn => urn_of(b),
        Format::Microsoft => microsoft_of(b),
    }
}

/// Whether every character of a sequence is a hex digit.
pub open spec fn all_hex(s: Seq<char>) -> bool {
    forall|i: int| 0 <= i < s.len() ==> is_hex_digit(s[i])
}

/// The bytes denoted by an even-length sequence of hex digits, high nibble
/// first.
pub open spec fn bytes_of_hex(s: Seq<char>) -> Seq<u8> {
    Seq::new(s.len() / 2, |i: int| (hex_digit_value(s[2 * i]) * 16 + hex_digit_value(
        s[2 * i + 1],
    )) as u8)
}

/// Decoding the simple form: exactly 32 hex digits.
pub open spec fn simple_decode(s: Seq<char>) -> Option<Seq<u8>> {
    if s.len() == 32 && all_hex(s) {
        Some(bytes_of_hex(s))
    } else {
        None
    }
}

/// The 32 digit positions of a hyphenated encoding, with the four hyphens
/// removed.
pub open spec fn hyphenated_digits(s: Seq<char>) -> Seq<char>
    recommends
        s.len() == 36,
{
    s.subrange(0, 8) + s.subrange(9, 13) + s.subrange(14, 18) + s.subrange(19, 23) + s.subrange(
        24,
        36,
    )
}

/// Decoding the hyphenated form: 36 characters, hyphens exactly at
/// positions 8, 13, 18 and 23, hex digits everywhere else.
pub open spec fn hyphenated_decode(s: Seq<char>) -> Option<Seq<u8>> {
    if s.len() == 36 && s[8] == '-' && s[13] == '-' && s[18] == '-' && s[23] == '-' && all_hex(
        hyphenated_digits(s),
    ) {
        Some(bytes_of_hex(hyphenated_digits(s)))
    } else {
        None
    }
}

/// Decoding the URN form: 45 characters, the exact prefix `urn:uuid:`,
/// then a hyphenated encoding.
pub open spec fn urn_decode(s: Seq<char>) -> Option<Seq<u8>> {
    if s.len() == 45 && s.subrange(0, 9) == urn_prefix() {
        hyphenated_decode(s.subrange(9, 45))
    } else {
        None
    }
}

/// Decoding without brace stripping: the form is picked by length
/// (32 simple, 36 hyphenated, 45 URN; anything else fails).
pub open spec fn plain_decode(s: Seq<char>) -> Option<Seq<u8>> {
    if s.len() == 45 {
        urn_decode(s)
    } else if s.len() == 36 {
        hyphenated_decode(s)
    } else {
        simple_decode(s)
    }
}

/// Whether a sequence gets its braces stripped before decoding: total
/// length 34 to 38 inclusive, first character `{`, last character `}`.
pub open spec fn is_braced(s: Seq<char>) -> bool {
    34 <= s.len() <= 38 && s[0] == '{' && s[s.len() - 1] == '}'
}

/// The full decoding relation of the parser: brace stripping where it
/// applies, then decoding by shape.
pub open spec fn spec_parse(s: Seq<char>) -> Option<Seq<u8>> {
    if is_braced(s) {
        plain_decode(s.subrange(1, s.len() - 1))
    } else {
        plain_decode(s)
    }
}

/// The one-character string for a nibble value, lowercase.
fn hex_str_of(n: u8) -> (r: &'static str)
    requires
        n < 16,
    ensures
        r@.len() == 1,
        r@[0] == hex_char_of(n),
{
    proof {
        reveal_strlit("0");
        reveal_strlit("1");
        reveal_strlit("2");
        reveal_strlit("3");
        reveal_strlit("4");
        reveal_strlit("5");
        reveal_strlit("6");
        reveal_strlit("7");
        reveal_strlit("8");
        reveal_strlit("9");
        reveal_strlit("a");
        reveal_strlit("b");
        reveal_strlit("c");
        reveal_strlit("d");
        reveal_strlit("e");
        reveal_strlit("f");
    }
    match n {
        0 => "0",
        1 => "1",
        2 => "2",
        3 => "3",
        4 => "4",
        5 => "5",
        6 => "6",
        7 => "7",
        8 => "8",
        9 => "9",
        10 => "a",
        11 => "b",
        12 => "c",
        13 => "d",
        14 => "e",
        _ => "f",
    }
}

/// Appending one byte to a hex encoding appends its two digits.
proof fn lemma_hex_of_bytes_push(b: Seq<u8>, x: u8)
    ensures
        hex_of_bytes(b.push(x)) =~= hex_of_bytes(b) + seq![
            hex_char_of(x / 16),
            hex_char_of(x % 16),
        ],
{
    let lhs = hex_of_bytes(b.push(x));
    let rhs = hex_of_bytes(b) + seq![hex_char_of(x / 16), hex_char_of(x % 16)];
    assert(lhs.len() == rhs.len());
    assert forall|i: int| 0 <= i < lhs.len() implies lhs[i] == rhs[i] by {
        vstd::arithmetic::div_mod::lemma_fundamental_div_mod(i, 2);
        if i < 2 * b.len() {
            assert(i / 2 < b.len());
            assert(b.push(x)[i / 2] == b[i / 2]);
        } else {
            assert(i / 2 == b.len());
            assert(b.push(x)[i / 2] == x);
        }
    }
}

/// Append the hex digits of `bytes[from..to]` to a string.
fn append_hex(s: &mut String, bytes: &[u8; 16], from: usize, to: usize)
    requires
        from <= to <= 16,
    ensures
        final (s)@ == old(s)@ + hex_of_bytes(bytes@.subrange(from as int, to as int)),
{
    let ghost start = s@;
    let mut i: usize = from;
    proof {
        assert(bytes@.subrange(from as int, from as int) =~= Seq::<u8>::empty());
        assert(hex_of_bytes(Seq::<u8>::empty()) =~= Seq::<char>::empty());
        assert(s@ =~= start + hex_of_bytes(bytes@.subrange(from as int, from as int)));
    }
    while i < to
        invariant
            from <= i <= to <= 16,
            bytes@.len() == 16,
            s@ == start + hex_of_bytes(bytes@.subrange(from as int, i as int)),
        decreases to - i,
    {
        let x = bytes[i];
        proof {
            assert(x / 16 < 16 && x % 16 < 16) by (bit_vector);
        }
        s.append(hex_str_of(x / 16));
        s.append(hex_str_of(x % 16));
        proof {
            lemma_hex_of_bytes_push(bytes@.subrange(from as int, i as int), x);
            assert(bytes@.subrange(from as int, i as int).push(x) =~= bytes@.subrange(
                from as int,
                i as int + 1,
            ));
            assert(s@ =~= start + hex_of_bytes(bytes@.subrange(from as int, i as int + 1)));
        }
        i = i + 1;
    }
}

/// Append the hyphenated encoding of a value to a string.
fn append_hyphenated(s: &mut String, u: &Uuid)
    ensures
        final (s)@ == old(s)@ + hyphenated_of(u@),
{
    let ghost start = s@;
    let bytes = u.as_bytes();
    proof {
        reveal_strlit("-");
    }
    append_hex(s, bytes, 0, 4);
    s.append("-");
    append_hex(s, bytes, 4, 6);
    s.append("-");
    append_hex(s, bytes, 6, 8);
    s.append("-");
    append_hex(s, bytes, 8, 10);
    s.append("-");
    append_hex(s, bytes, 10, 16);
    proof {
        assert("-"@ =~= seq!['-']);
        assert(s@ =~= start + hyphenated_of(u@));
    }
}

/// Serialize a UUID into the requested textual format. Always succeeds;
/// hex digits come out lowercase.
pub fn format_uuid(u: &Uuid, f: Format) -> (s: String)
    ensures
        s@ == spec_format(u@, f),
{
    match f {
        Format::Simple => {
            let mut s = String::new();
            append_hex(&mut s, u.as_bytes(), 0, 16);
            proof {
                assert(u@.subrange(0, 16) =~= u@);
                assert(s@ =~= spec_format(u@, f));
            }
            s
        },
        Format::Hyphenated => {
            let mut s = String::new();
            append_hyphenated(&mut s, u);
            proof {
                assert(s@ =~= spec_format(u@, f));
            }
            s
        },
        Format::Urn => {
            let mut s = String::new();
            proof {
                reveal_strlit("urn:uuid:");
            }
            s.append("urn:uuid:");
            append_hyphenated(&mut s, u);
            proof {
                assert("urn:uuid:"@ =~= urn_prefix());
                assert(s@ =~= spec_format(u@, f));
            }
            s
        },
        Format::Microsoft => {
            let mut s = String::new();
            proof {
                reveal_strlit("{");
                reveal_strlit("}");
            }
            s.append("{");
            append_hyphenated(&mut s, u);
            s.append("}");
            proof {
                assert("{"@ =~= seq!['{']);
                assert("}"@ =~= seq!['}']);
                assert(s@ =~= spec_format(u@, f));
            }
            s
        },
    }
}

/// The numeric value of a hex digit character, or `None` for any other
/// character.
fn hex_val(c: char) -> (r: Option<u8>)
    ensures
        r is Some <==> is_hex_digit(c),
        r is Some ==> r == Some(hex_digit_value(c)) && hex_digit_value(c) < 16,
{
    let v = c as u32;
    if 48 <= v && v <= 57 {
        Some((v - 48) as u8)
    } else if 97 <= v && v <= 102 {
        Some((v - 87) as u8)
    } else if 65 <= v && v <= 70 {
        Some((v - 55) as u8)
    } else {
        None
    }
}

/// Reading two more hex digits extends the decoded bytes by one.
proof fn lemma_bytes_of_hex_push(d: Seq<char>, c0: char, c1: char)
    requires
        d.len() % 2 == 0,
    ensures
        bytes_of_hex(d.push(c0).push(c1)) =~= bytes_of_hex(d) + seq![
            (hex_digit_value(c0) * 16 + hex_digit_value(c1)) as u8,
        ],
{
    let m = d.len() as int / 2;
    vstd::arithmetic::div_mod::lemma_fundamental_div_mod(d.len() as int, 2);
    vstd::arithmetic::div_mod::lemma_div_multiples_vanish(m + 1, 2);
    let lhs = bytes_of_hex(d.push(c0).push(c1));
    let rhs = bytes_of_hex(d) + seq![(hex_digit_value(c0) * 16 + hex_digit_value(c1)) as u8];
    assert(lhs.len() == m + 1);
    assert(rhs.len() == m + 1);
    assert forall|i: int| 0 <= i < lhs.len() implies lhs[i] == rhs[i] by {
        if i < m {
            assert(d.push(c0).push(c1)[2 * i] == d[2 * i]);
            assert(d.push(c0).push(c1)[2 * i + 1] == d[2 * i + 1]);
        } else {
            assert(d.push(c0).push(c1)[2 * i] == c0);
            assert(d.push(c0).push(c1)[2 * i + 1] == c1);
        }
    }
}

/// Decode the hex digits `s[from..to]` (an even count) into bytes; fails
/// exactly when some position there holds a non-hex character.
fn parse_hex_digits(s: &str, from: usize, to: usize) -> (r: Option<Vec<u8>>)
    requires
        from <= to <= s@.len(),
        (to - from) % 2 == 0,
    ensures
        r is Some <==> all_hex(s@.subrange(from as int, to as int)),
        r matches Some(v) ==> v@ == bytes_of_hex(s@.subrange(from as int, to as int)),
{
    let mut out: Vec<u8> = Vec::new();
    let mut i: usize = from;
    proof {
        assert(bytes_of_hex(s@.subrange(from as int, from as int)) =~= Seq::<u8>::empty());
    }
    while i < to
        invariant
            from <= i <= to <= s@.len(),
            (to - from) % 2 == 0,
            (i - from) % 2 == 0,
            all_hex(s@.subrange(from as int, i as int)),
            out@ == bytes_of_hex(s@.subrange(from as int, i as int)),
        decreases to - i,
    {
        let c0 = s.get_char(i);
        let c1 = s.get_char(i + 1);
        let v0 = match hex_val(c0) {
            Some(v) => v,
            None => {
                proof {
                    assert(s@.subrange(from as int, to as int)[i - from] == c0);
                }
                return None;
            },
        };
        let v1 = match hex_val(c1) {
            Some(v) => v,
            None => {
                proof {
                    assert(s@.subrange(from as int, to as int)[i + 1 - from] == c1);
                }
                return None;
            },
        };
        out.push(v0 * 16 + v1);
        proof {
            lemma_bytes_of_hex_push(s@.subrange(from as int, i as int), c0, c1);
            assert(s@.subrange(from as int, i as int).push(c0).push(c1) =~= s@.subrange(
                from as int,
                i as int + 2,
            ));
            assert(out@ =~= bytes_of_hex(s@.subrange(from as int, i as int + 2)));
            assert forall|j: int| 0 <= j < i + 2 - from implies is_hex_digit(
                #[trigger] s@.subrange(from as int, i as int + 2)[j],
            ) by {
                if j < i - from {
                    assert(s@.subrange(from as int, i as int)[j] == s@.subrange(
                        from as int,
                        i as int + 2,
                    )[j]);
                }
            }
        }
        i = i + 2;
    }
    Some(out)
}

/// Build a UUID from 32 hex digit characters' worth of decoded bytes.
fn uuid_of_byte_vec(v: &Vec<u8>) -> (u: Uuid)
    requires
        v@.len() == 16,
    ensures
        u@ == v@,
{
    let bytes: [u8; 16] = [
        v[0],
        v[1],
        v[2],
        v[3],
        v[4],
        v[5],
        v[6],
        v[7],
        v[8],
        v[9],
        v[10],
        v[11],
        v[12],
        v[13],
        v[14],
        v[15],
    ];
    let u = Uuid::from_bytes(bytes);
    proof {
        assert(u@ =~= v@);
    }
    u
}

/// Parse the simple form: exactly 32 hex digits.
fn parse_simple(s: &str) -> (r: Option<Uuid>)
    requires
        s@.len() == 32,
    ensures
        r is Some <==> simple_decode(s@) is Some,
        r matches Some(u) ==> simple_decode(s@) == Some(u@),
{
    proof {
        assert(s@.subrange(0, 32) =~= s@);
    }
    match parse_hex_digits(s, 0, 32) {
        Some(v) => Some(uuid_of_byte_vec(&v)),
        None => None,
    }
}

/// Parse the hyphenated form: 8-4-4-4-12 hex groups.
fn parse_hyphenated(s: &str) -> (r: Option<Uuid>)
    requires
        s@.len() == 36,
    ensures
        r is Some <==> hyphenated_decode(s@) is Some,
        r matches Some(u) ==> hyphenated_decode(s@) == Some(u@),
{
    if s.get_char(8) != '-' || s.get_char(13) != '-' || s.get_char(18) != '-' || s.get_char(23)
        != '-' {
        return None;
    }
    let mut digits = String::new();
    digits.append(s.substring_char(0, 8));
    digits.append(s.substring_char(9, 13));
    digits.append(s.substring_char(14, 18));
    digits.append(s.substring_char(19, 23));
    digits.append(s.substring_char(24, 36));
    proof {
        assert(digits@ =~= hyphenated_digits(s@));
        assert(digits@.subrange(0, 32) =~= digits@);
    }
    match parse_hex_digits(digits.as_str(), 0, 32) {
        Some(v) => Some(uuid_of_byte_vec(&v)),
        None => None,
    }
}

/// Parse the URN form: the exact prefix `urn:uuid:` before a hyphenated
/// encoding.
fn parse_urn(s: &str) -> (r: Option<Uuid>)
    requires
        s@.len() == 45,
    ensures
        r is Some <==> urn_decode(s@) is Some,
        r matches Some(u) ==> urn_decode(s@) == Some(u@),
{
    if s.get_char(0) != 'u' || s.get_char(1) != 'r' || s.get_char(2) != 'n' || s.get_char(3) != ':'
        || s.get_char(4) != 'u' || s.get_char(5) != 'u' || s.get_char(6) != 'i' || s.get_char(7)
        != 'd' || s.get_char(8) != ':' {
        proof {
            assert(s@.subrange(0, 9) != urn_prefix()) by {
                if s@.subrange(0, 9) == urn_prefix() {
                    assert(forall|i: int| 0 <= i < 9 ==> s@[i] == urn_prefix()[i]) by {
                        assert(forall|i: int|
                            0 <= i < 9 ==> s@.subrange(0, 9)[i] == urn_prefix()[i]);
                    }
                }
            }
        }
        return None;
    }
    proof {
        assert(s@.subrange(0, 9) =~= urn_prefix());
    }
    parse_hyphenated(s.substring_char(9, 45))
}

/// Parse without brace stripping: the form is picked by length.
fn parse_plain(s: &str) -> (r: Option<Uuid>)
    ensures
        r is Some <==> plain_decode(s@) is Some,
        r matches Some(u) ==> plain_decode(s@) == Some(u@),
{
    let n = s.unicode_len();
    if n == 45 {
        parse_urn(s)
    } else if n == 36 {
        parse_hyphenated(s)
    } else if n == 32 {
        parse_simple(s)
    } else {
        None
    }
}

/// Parse a UUID in any of the supported formats, allowing surrounding
/// braces for the Microsoft form: a string of total length 34 to 38 that
/// starts with `{` and ends with `}` has the braces stripped before the
/// plain parse. Fails with `InvalidFormat` on anything else.
pub fn parse_uuid(s: &str) -> (r: Result<Uuid, Error>)
    ensures
        r matches Ok(u) ==> spec_parse(s@) == Some(u@),
        r is Err ==> spec_parse(s@) is None && r == Err::<Uuid, Error>(Error::InvalidFormat),
{
    let n = s.unicode_len();
    let inner_result = if 34 <= n && n <= 38 && s.get_char(0) == '{' && s.get_char(n - 1) == '}' {
        let inner = s.substring_char(1, n - 1);
        parse_plain(inner)
    } else {
        parse_plain(s)
    };
    match inner_result {
        Some(u) => Ok(u),
        None => Err(Error::InvalidFormat),
    }
}

/// Pick an output format by its command-line name; `ms` and `microsoft`
/// both name the braced form. Any other name is rejected.
pub fn format_from_name(s: &str) -> (r: Result<Format, &'static str>)
    ensures
        r == (if s@ == "simple"@ {
            Ok::<Format, &'static str>(Format::Simple)
        } else if s@ == "hyphenated"@ {
            Ok::<Format, &'static str>(Format::Hyphenated)
        } else if s@ == "urn"@ {
            Ok::<Format, &'static str>(Format::Urn)
        } else if s@ == "ms"@ || s@ == "microsoft"@ {
            Ok::<Format, &'static str>(Format::Microsoft)
        } else {
            Err::<Format, &'static str>("invalid format name")
        }),
{
    let t = s.to_owned();
    if t == String::from_str("simple") {
        Ok(Format::Simple)
    } else if t == String::from_str("hyphenated") {
        Ok(Format::Hyphenated)
    } else if t == String::from_str("urn") {
        Ok(Format::Urn)
    } else if t == String::from_str("ms") || t == String::from_str("microsoft") {
        Ok(Format::Microsoft)
    } else {
        Err("invalid format name")
    }
}

impl core::str::FromStr for Format {
    type Err = &'static str;

    fn from_str(s: &str) -> Result<Format, &'static str> {
        format_from_name(s)
    }
}

} // verus!
