//! Percent-encoding and form-encoded queries.

use vstd::prelude::*;
use vstd::utf8::{encode_utf8, is_ascii_chars, is_ascii_chars_encode_utf8};

use crate::text::{joined, law_joining_separates_each_two_parts, pair_views};

verus! {

/// Whether a byte stands for itself in a percent-encoded string: letters, digits
/// and `-`, `.`, `_`, `~` do.
pub open spec fn is_unreserved(b: u8) -> bool {
    ||| 0x30 <= b <= 0x39
    ||| 0x41 <= b <= 0x5a
    ||| 0x61 <= b <= 0x7a
    ||| b == 0x2d
    ||| b == 0x2e
    ||| b == 0x5f
    ||| b == 0x7e
}

/// The upper-case hexadecimal digit of `n`.
pub open spec fn hex_digit(n: int) -> char {
    if n < 10 {
        (0x30 + n) as char
    } else {
        (0x41 + (n - 10)) as char
    }
}

/// How a byte is written in a percent-encoded string.
pub open spec fn encoded_byte(b: u8) -> Seq<char> {
    if is_unreserved(b) {
        seq![b as char]
    } else {
        seq!['%', hex_digit(b as int / 16), hex_digit(b as int % 16)]
    }
}

/// How bytes are written in a percent-encoded string.
pub open spec fn encoded_bytes(bytes: Seq<u8>) -> Seq<char>
    decreases bytes.len(),
{
    if bytes.len() == 0 {
        Seq::empty()
    } else {
        encoded_byte(bytes[0]) + encoded_bytes(bytes.drop_first())
    }
}

/// The percent-encoding of the UTF-8 bytes of `s`.
pub open spec fn percent_encoded(s: Seq<char>) -> Seq<char> {
    encoded_bytes(encode_utf8(s))
}

/// Percent-encodes a string, by `urlencoding::encode`: every byte of its UTF-8 form
/// except ASCII letters, digits and `-`, `_`, `.`, `~` is written as `%` and two
/// upper-case hexadecimal digits.
#[verifier::external_body]
pub(crate) fn url_encode(data: &str) -> (r: String)
    ensures
        r@ == percent_encoded(data@),
{
    urlencoding::encode(data).into_owned()
}

/// The query string that gives `pairs`, each name and value percent-encoded.
pub open spec fn form_text(pairs: Seq<(Seq<char>, Seq<char>)>) -> Seq<char> {
    joined(
        pairs.map_values(
            |p: (Seq<char>, Seq<char>)| percent_encoded(p.0) + "="@ + percent_encoded(p.1),
        ),
        "&"@,
    )
}

/// The pairs of names and values that `url::form_urlencoded::parse` finds in a query.
pub uninterp spec fn form_pairs(query: Seq<u8>) -> Seq<(Seq<char>, Seq<char>)>;

/// Parses a query, by `url::form_urlencoded::parse`. What it finds is a function of
/// the bytes alone, `form_pairs`; of a query that `form_text` writes it finds the
/// pairs that were written.
#[verifier::external_body]
pub(crate) fn parse_form(query: &[u8]) -> (r: Vec<(String, String)>)
    ensures
        pair_views(r@) == form_pairs(query@),
        forall|pairs: Seq<(Seq<char>, Seq<char>)>|
            query@ == encode_utf8(#[trigger] form_text(pairs)) ==> pair_views(r@) == pairs,
{
    url::form_urlencoded::parse(query).into_owned().collect()
}

/// Whether every character is a letter, a digit or one of `-`, `.`, `_`, `~`.
pub open spec fn all_unreserved(s: Seq<char>) -> bool {
    forall|i: int| 0 <= i < s.len() ==> '\0' <= #[trigger] s[i] <= '\u{7f}' && is_unreserved(s[i] as u8)
}

/// Unreserved characters are their own percent-encoding.
pub proof fn lemma_unreserved_stands(s: Seq<char>)
    requires
        all_unreserved(s),
    ensures
        percent_encoded(s) == s,
{
    assert(is_ascii_chars(s));
    is_ascii_chars_encode_utf8(s);
    lemma_unreserved_bytes(s);
    assert(encode_utf8(s) =~= Seq::new(s.len(), |i: int| s[i] as u8));
}

proof fn lemma_unreserved_bytes(s: Seq<char>)
    requires
        all_unreserved(s),
    ensures
        encoded_bytes(Seq::new(s.len(), |i: int| s[i] as u8)) == s,
    decreases s.len(),
{
    let bytes = Seq::new(s.len(), |i: int| s[i] as u8);
    if s.len() > 0 {
        let rest = s.drop_first();
        assert forall|i: int| 0 <= i < rest.len() implies '\0' <= #[trigger] rest[i] <= '\u{7f}'
            && is_unreserved(rest[i] as u8) by {
            assert(rest[i] == s[i + 1]);
        }
        lemma_unreserved_bytes(rest);
        assert(bytes.drop_first() =~= Seq::new(rest.len(), |i: int| rest[i] as u8));
        assert('\0' <= s[0] <= '\u{7f}' && is_unreserved(s[0] as u8));
        assert((s[0] as u8) as char == s[0]);
        assert(seq![s[0]] + rest =~= s);
    } else {
        assert(encoded_bytes(bytes) =~= s);
    }
}

/// Percent-encoding goes byte by byte: a letter, a digit or one of `-`, `.`, `_`, `~` stands for
/// itself, and of any other byte two hexadecimal digits are written behind a percent sign, from
/// which the byte can be had again.
pub proof fn law_percent_encoding_goes_byte_by_byte(a: Seq<u8>, b: Seq<u8>, byte: u8)
    ensures
        encoded_bytes(a + b) == encoded_bytes(a) + encoded_bytes(b),
        ({
            let c = byte as char;
            let written = encoded_bytes(seq![byte]);
            let plain = 'a' <= c <= 'z' || 'A' <= c <= 'Z' || '0' <= c <= '9' || c == '-' || c
                == '.' || c == '_' || c == '~';
            &&& plain ==> written == seq![c]
            &&& !plain ==> {
                &&& written.len() == 3
                &&& written[0] == '%'
                &&& byte == 16 * (if written[1] <= '9' {
                    written[1] as int - 0x30
                } else {
                    written[1] as int - 0x37
                }) + (if written[2] <= '9' {
                    written[2] as int - 0x30
                } else {
                    written[2] as int - 0x37
                })
                &&& '0' <= written[1] <= '9' || 'A' <= written[1] <= 'F'
                &&& '0' <= written[2] <= '9' || 'A' <= written[2] <= 'F'
            }
        }),
{
    lemma_encoded_concat(a, b);
    let one = seq![byte];
    assert(one.drop_first() == Seq::<u8>::empty());
    assert(encoded_bytes(one.drop_first()) == Seq::<char>::empty());
    assert(encoded_bytes(one) == encoded_byte(byte));
}

proof fn lemma_encoded_concat(a: Seq<u8>, b: Seq<u8>)
    ensures
        encoded_bytes(a + b) == encoded_bytes(a) + encoded_bytes(b),
    decreases a.len(),
{
    if a.len() == 0 {
        assert(a + b == b);
        assert(encoded_bytes(a) + encoded_bytes(b) == encoded_bytes(b));
    } else {
        lemma_encoded_concat(a.drop_first(), b);
        assert((a + b).drop_first() == a.drop_first() + b);
        assert((a + b)[0] == a[0]);
    }
}

/// What is percent-encoded of a text are the bytes of its UTF-8 form, and a form joins each name
/// and its value, both encoded, by an equals sign, and each two of them by an ampersand.
pub proof fn law_forms_are_written_field_by_field(
    s: Seq<char>,
    pairs: Seq<(Seq<char>, Seq<char>)>,
    name: Seq<char>,
    value: Seq<char>,
)
    ensures
        percent_encoded(s) == encoded_bytes(encode_utf8(s)),
        ({
            let field = percent_encoded(name) + "="@ + percent_encoded(value);
            form_text(pairs.push((name, value))) == (if pairs.len() == 0 {
                field
            } else {
                form_text(pairs) + "&"@ + field
            })
        }),
{
    let encode = |p: (Seq<char>, Seq<char>)| percent_encoded(p.0) + "="@ + percent_encoded(p.1);
    let fields = pairs.map_values(encode);
    let all = pairs.push((name, value)).map_values(encode);
    assert(all =~= fields.push(encode((name, value))));
    law_joining_separates_each_two_parts(fields, encode((name, value)), "&"@);
}

} // verus!
