//! Laws of the codec, each stated over the same spec functions that the
//! executable functions' contracts use: parsing inverts formatting, the
//! URN and Microsoft encodings wrap the hyphenated one, parsing ignores
//! the case of hex digits, and ill-shaped lengths never parse.

use crate::codec::{all_hex, bytes_of_hex, hex_char_of, hex_digit_value, hex_of_bytes,
    hyphenated_decode, hyphenated_digits, hyphenated_of, is_braced, is_hex_digit, microsoft_of,
    plain_decode, simple_of, spec_format, spec_parse, urn_decode, urn_of, urn_prefix, Format};
use vstd::arithmetic::div_mod::{lemma_fundamental_div_mod, lemma_fundamental_div_mod_converse};
use vstd::prelude::*;

verus! {

/// Every nibble's hex character is a hex digit and decodes back to it.
proof fn lemma_hex_digit_roundtrip(n: u8)
    requires
        n < 16,
    ensures
        is_hex_digit(hex_char_of(n)),
        hex_digit_value(hex_char_of(n)) == n,
{
}

/// The hex encoding of any byte sequence is made of hex digits and
/// decodes back to the bytes.
proof fn lemma_hex_of_bytes_roundtrip(b: Seq<u8>)
    ensures
        hex_of_bytes(b).len() == 2 * b.len(),
        all_hex(hex_of_bytes(b)),
        bytes_of_hex(hex_of_bytes(b)) =~= b,
{
    let h = hex_of_bytes(b);
    assert(forall|x: u8| #![trigger x / 16] x / 16 < 16 && x % 16 < 16) by (bit_vector);
    assert forall|i: int| 0 <= i < h.len() implies is_hex_digit(h[i]) by {
        lemma_fundamental_div_mod(i, 2);
        if i % 2 == 0 {
            lemma_hex_digit_roundtrip(b[i / 2] / 16);
        } else {
            lemma_hex_digit_roundtrip(b[i / 2] % 16);
        }
    }
    lemma_fundamental_div_mod(2 * b.len() as int, 2);
    assert(bytes_of_hex(h).len() == b.len());
    assert forall|j: int| 0 <= j < b.len() implies bytes_of_hex(h)[j] == b[j] by {
        lemma_fundamental_div_mod_converse(2 * j, 2, j, 0);
        lemma_fundamental_div_mod_converse(2 * j + 1, 2, j, 1);
        lemma_hex_digit_roundtrip(b[j] / 16);
        lemma_hex_digit_roundtrip(b[j] % 16);
        lemma_fundamental_div_mod(b[j] as int, 16);
    }
}

/// Hex encoding distributes over concatenation.
proof fn lemma_hex_of_bytes_concat(x: Seq<u8>, y: Seq<u8>)
    ensures
        hex_of_bytes(x + y) =~= hex_of_bytes(x) + hex_of_bytes(y),
{
    let lhs = hex_of_bytes(x + y);
    let rhs = hex_of_bytes(x) + hex_of_bytes(y);
    assert(lhs.len() == rhs.len());
    assert forall|i: int| 0 <= i < lhs.len() implies lhs[i] == rhs[i] by {
        lemma_fundamental_div_mod(i, 2);
        let l = x.len() as int;
        if i < 2 * l {
            assert(i / 2 < l);
            assert((x + y)[i / 2] == x[i / 2]);
        } else {
            lemma_fundamental_div_mod_converse(i - 2 * l, 2, i / 2 - l, i % 2);
            assert((x + y)[i / 2] == y[i / 2 - l]);
        }
    }
}

/// The digit positions of the hyphenated encoding are exactly the plain
/// hex encoding of the bytes, and the hyphens sit where the decoder looks
/// for them.
proof fn lemma_hyphenated_shape(b: Seq<u8>)
    requires
        b.len() == 16,
    ensures
        hyphenated_of(b).len() == 36,
        hyphenated_of(b)[8] == '-',
        hyphenated_of(b)[13] == '-',
        hyphenated_of(b)[18] == '-',
        hyphenated_of(b)[23] == '-',
        hyphenated_digits(hyphenated_of(b)) =~= hex_of_bytes(b),
{
    let s = hyphenated_of(b);
    assert(b =~= b.subrange(0, 4) + b.subrange(4, 6) + b.subrange(6, 8) + b.subrange(8, 10)
        + b.subrange(10, 16));
    lemma_hex_of_bytes_concat(b.subrange(0, 4), b.subrange(4, 6));
    lemma_hex_of_bytes_concat(b.subrange(0, 4) + b.subrange(4, 6), b.subrange(6, 8));
    lemma_hex_of_bytes_concat(
        b.subrange(0, 4) + b.subrange(4, 6) + b.subrange(6, 8),
        b.subrange(8, 10),
    );
    lemma_hex_of_bytes_concat(
        b.subrange(0, 4) + b.subrange(4, 6) + b.subrange(6, 8) + b.subrange(8, 10),
        b.subrange(10, 16),
    );
    assert(hyphenated_digits(s) =~= hex_of_bytes(b));
}

/// No hex character is a brace, a hyphen or a letter outside the hex
/// range (so shape checks on encodings never mistake a digit).
proof fn lemma_hex_char_shape(n: u8)
    ensures
        hex_char_of(n) != '{',
        hex_char_of(n) != '}',
        hex_char_of(n) != '-',
{
}

/// Round trip: parsing the encoding of any 16-byte value, in any of the
/// four formats, gives the value back.
pub proof fn lemma_parse_format_roundtrip(b: Seq<u8>, f: Format)
    requires
        b.len() == 16,
    ensures
        spec_parse(spec_format(b, f)) == Some(b),
{
    lemma_hex_of_bytes_roundtrip(b);
    lemma_hyphenated_shape(b);
    let h = hyphenated_of(b);
    assert(hyphenated_decode(h) == Some(b));
    match f {
        Format::Simple => {
            let s = simple_of(b);
            assert(s.len() == 32);
            assert(!is_braced(s));
            assert(spec_parse(s) == Some(b));
        },
        Format::Hyphenated => {
            lemma_hex_char_shape(b[0] / 16);
            assert(h[0] == hex_char_of(b[0] / 16));
            assert(!is_braced(h));
            assert(spec_parse(h) == Some(b));
        },
        Format::Urn => {
            let s = urn_of(b);
            assert(s.len() == 45);
            assert(!is_braced(s));
            assert(s.subrange(0, 9) =~= urn_prefix());
            assert(s.subrange(9, 45) =~= h);
            assert(spec_parse(s) == Some(b));
        },
        Format::Microsoft => {
            let s = microsoft_of(b);
            assert(s.len() == 38);
            assert(s[0] == '{' && s[37] == '}');
            assert(is_braced(s));
            assert(s.subrange(1, 37) =~= h);
            assert(spec_parse(s) == Some(b));
        },
    }
}

/// Format equivalence: the URN encoding is the hyphenated one behind the
/// `urn:uuid:` prefix, and the Microsoft encoding is the hyphenated one
/// in braces.
pub proof fn lemma_format_equivalence(b: Seq<u8>)
    requires
        b.len() == 16,
    ensures
        spec_format(b, Format::Urn) == urn_prefix() + spec_format(b, Format::Hyphenated),
        spec_format(b, Format::Microsoft) == seq!['{'] + spec_format(b, Format::Hyphenated) + seq![
            '}',
        ],
{
}

/// The uppercase counterpart of a character, for the ASCII letters.
pub open spec fn upper_char(c: char) -> char {
    if c == 'a' {
        'A'
    } else if c == 'b' {
        'B'
    } else if c == 'c' {
        'C'
    } else if c == 'd' {
        'D'
    } else if c == 'e' {
        'E'
    } else if c == 'f' {
        'F'
    } else if c == 'g' {
        'G'
    } else if c == 'h' {
        'H'
    } else if c == 'i' {
        'I'
    } else if c == 'j' {
        'J'
    } else if c == 'k' {
        'K'
    } else if c == 'l' {
        'L'
    } else if c == 'm' {
        'M'
    } else if c == 'n' {
        'N'
    } else if c == 'o' {
        'O'
    } else if c == 'p' {
        'P'
    } else if c == 'q' {
        'Q'
    } else if c == 'r' {
        'R'
    } else if c == 's' {
        'S'
    } else if c == 't' {
        'T'
    } else if c == 'u' {
        'U'
    } else if c == 'v' {
        'V'
    } else if c == 'w' {
        'W'
    } else if c == 'x' {
        'X'
    } else if c == 'y' {
        'Y'
    } else if c == 'z' {
        'Z'
    } else {
        c
    }
}

/// A string with every ASCII letter raised to upper case.
pub open spec fn upper_seq(s: Seq<char>) -> Seq<char> {
    Seq::new(s.len(), |i: int| upper_char(s[i]))
}

/// Uppercasing keeps hex-digit-ness and hex values, and no character
/// becomes or stops being a brace, a hyphen or a lowercase letter.
proof fn lemma_upper_char_facts(c: char)
    ensures
        is_hex_digit(upper_char(c)) == is_hex_digit(c),
        hex_digit_value(upper_char(c)) == hex_digit_value(c),
        (upper_char(c) == '{') == (c == '{'),
        (upper_char(c) == '}') == (c == '}'),
        (upper_char(c) == '-') == (c == '-'),
        upper_char(c) != 'u',
        upper_char(c) != 'r',
        upper_char(c) != 'n',
        (upper_char(c) == ':') == (c == ':'),
{
}

/// Uppercasing a digit block changes neither its hex-ness nor its bytes.
proof fn lemma_upper_hex_block(d: Seq<char>)
    ensures
        all_hex(upper_seq(d)) == all_hex(d),
        bytes_of_hex(upper_seq(d)) =~= bytes_of_hex(d),
{
    let u = upper_seq(d);
    if all_hex(d) {
        assert forall|i: int| 0 <= i < u.len() implies is_hex_digit(u[i]) by {
            lemma_upper_char_facts(d[i]);
        }
    }
    if all_hex(u) {
        assert forall|i: int| 0 <= i < d.len() implies is_hex_digit(d[i]) by {
            assert(is_hex_digit(u[i]));
            lemma_upper_char_facts(d[i]);
        }
    }
    assert forall|j: int| 0 <= j < bytes_of_hex(u).len() implies bytes_of_hex(u)[j]
        == bytes_of_hex(d)[j] by {
        lemma_upper_char_facts(d[2 * j]);
        lemma_upper_char_facts(d[2 * j + 1]);
    }
}

/// Plain decoding (no brace stripping) ignores letter case, except that
/// the URN prefix must be lowercase: a 45-character input carrying the
/// prefix is excluded.
proof fn lemma_plain_decode_upper(s: Seq<char>)
    requires
        !(s.len() == 45 && s.subrange(0, 9) == urn_prefix()),
    ensures
        plain_decode(upper_seq(s)) == plain_decode(s),
{
    let u = upper_seq(s);
    if s.len() == 45 {
        lemma_upper_char_facts(s[0]);
        assert(u[0] != 'u');
        assert(u.subrange(0, 9) != urn_prefix()) by {
            if u.subrange(0, 9) == urn_prefix() {
                assert(u.subrange(0, 9)[0] == urn_prefix()[0]);
            }
        }
        assert(urn_decode(u) is None && urn_decode(s) is None);
    } else if s.len() == 36 {
        lemma_upper_char_facts(s[8]);
        lemma_upper_char_facts(s[13]);
        lemma_upper_char_facts(s[18]);
        lemma_upper_char_facts(s[23]);
        if s[8] == '-' && s[13] == '-' && s[18] == '-' && s[23] == '-' {
            assert(hyphenated_digits(u) =~= upper_seq(hyphenated_digits(s)));
            lemma_upper_hex_block(hyphenated_digits(s));
            assert(hyphenated_decode(u) == hyphenated_decode(s));
        } else {
            assert(hyphenated_decode(u) is None && hyphenated_decode(s) is None);
        }
    } else if s.len() == 32 {
        lemma_upper_hex_block(s);
    }
}

/// Case-insensitivity: uppercasing the letters of an input changes
/// nothing about its parse. The one exception is the URN form, whose
/// prefix the parser demands in lowercase, so a 45-character input
/// carrying the prefix is excluded here.
pub proof fn lemma_parse_case_insensitive(s: Seq<char>)
    requires
        !(s.len() == 45 && s.subrange(0, 9) == urn_prefix()),
    ensures
        spec_parse(upper_seq(s)) == spec_parse(s),
{
    let u = upper_seq(s);
    if s.len() > 0 {
        lemma_upper_char_facts(s[0]);
        lemma_upper_char_facts(s[s.len() - 1]);
    }
    assert(is_braced(u) == is_braced(s));
    if is_braced(s) {
        let inner = s.subrange(1, s.len() - 1);
        assert(u.subrange(1, u.len() - 1) =~= upper_seq(inner));
        assert(inner.len() != 45);
        lemma_plain_decode_upper(inner);
    } else {
        lemma_plain_decode_upper(s);
    }
}

/// Brace-stripping boundary: a string of inner length 33 or 39 wrapped in
/// braces never parses (braces are only stripped for total lengths 34 to
/// 38, and no supported shape matches otherwise).
pub proof fn lemma_braced_wrong_length_fails(s: Seq<char>)
    requires
        s.len() == 35 || s.len() == 41,
        s[0] == '{',
        s[s.len() - 1] == '}',
    ensures
        spec_parse(s) is None,
{
}

/// A string that is not brace-wrapped and has none of the three plain
/// lengths never parses.
pub proof fn lemma_invalid_length_fails(s: Seq<char>)
    requires
        s.len() != 32,
        s.len() != 36,
        s.len() != 45,
        !is_braced(s),
    ensures
        spec_parse(s) is None,
{
}

/// The simple form of the nil value is 32 zero digits.
pub proof fn lemma_nil_simple_form(b: Seq<u8>)
    requires
        b.len() == 16,
        crate::value::spec_is_nil(b),
    ensures
        spec_format(b, Format::Simple) =~= Seq::new(32, |i: int| '0'),
{
    let s = spec_format(b, Format::Simple);
    assert forall|i: int| 0 <= i < 32 implies s[i] == '0' by {
        lemma_fundamental_div_mod(i, 2);
        assert(b[i / 2] == 0);
    }
}

/// Only five total lengths can ever parse: the three plain ones and the
/// two brace-wrapped ones.
pub proof fn lemma_parse_lengths(s: Seq<char>)
    requires
        spec_parse(s) is Some,
    ensures
        s.len() == 32 || s.len() == 34 || s.len() == 36 || s.len() == 38 || s.len() == 45,
{
}

} // verus!
