//! Base64, with the standard alphabet and padding.

use vstd::prelude::*;

use crate::text::chars_of;

verus! {

/// The Base64 digit of `n`.
pub open spec fn base64_digit(n: int) -> char {
    if n < 26 {
        (0x41 + n) as char
    } else if n < 52 {
        (0x61 + (n - 26)) as char
    } else if n < 62 {
        (0x30 + (n - 52)) as char
    } else if n == 62 {
        '+'
    } else {
        '/'
    }
}

/// The Base64 text of `bytes`: four digits for every three bytes, with `=` in place of those
/// digits of the last four that no byte reaches.
pub open spec fn base64_text(bytes: Seq<u8>) -> Seq<char>
    decreases bytes.len(),
{
    if bytes.len() == 0 {
        Seq::empty()
    } else if bytes.len() == 1 {
        seq![
            base64_digit(bytes[0] as int / 4),
            base64_digit(bytes[0] as int % 4 * 16),
            '=',
            '=',
        ]
    } else if bytes.len() == 2 {
        seq![
            base64_digit(bytes[0] as int / 4),
            base64_digit(bytes[0] as int % 4 * 16 + bytes[1] as int / 16),
            base64_digit(bytes[1] as int % 16 * 4),
            '=',
        ]
    } else {
        base64_group(bytes[0], bytes[1], bytes[2]) + base64_text(bytes.skip(3))
    }
}

/// The four digits of three bytes.
pub open spec fn base64_group(a: u8, b: u8, c: u8) -> Seq<char> {
    seq![
        base64_digit(a as int / 4),
        base64_digit(a as int % 4 * 16 + b as int / 16),
        base64_digit(b as int % 16 * 4 + c as int / 64),
        base64_digit(c as int % 64),
    ]
}

/// The value of a Base64 digit.
fn digit_value(c: char) -> (r: Option<u8>)
    ensures
        match r {
            Some(v) => v < 64 && base64_digit(v as int) == c,
            None => forall|v: int| 0 <= v < 64 ==> #[trigger] base64_digit(v) != c,
        },
{
    if 'A' <= c && c <= 'Z' {
        Some((c as u32 - 0x41) as u8)
    } else if 'a' <= c && c <= 'z' {
        Some((c as u32 - 0x61 + 26) as u8)
    } else if '0' <= c && c <= '9' {
        Some((c as u32 - 0x30 + 52) as u8)
    } else if c == '+' {
        Some(62)
    } else if c == '/' {
        Some(63)
    } else {
        None
    }
}

/// Digits of different values differ, and none is the padding.
proof fn lemma_digits_differ(a: int, b: int)
    requires
        0 <= a < 64,
        0 <= b < 64,
    ensures
        base64_digit(a) == base64_digit(b) ==> a == b,
        base64_digit(a) != '=',
{
}

/// Whole groups in front stand for themselves.
proof fn lemma_text_append(front: Seq<u8>, back: Seq<u8>)
    requires
        front.len() % 3 == 0,
    ensures
        base64_text(front + back) == base64_text(front) + base64_text(back),
    decreases front.len(),
{
    let whole = front + back;
    if front.len() == 0 {
        assert(whole == back);
        assert(base64_text(front) + base64_text(back) == base64_text(back));
    } else {
        lemma_text_append(front.skip(3), back);
        assert(whole.skip(3) == front.skip(3) + back);
        assert(base64_text(whole) == base64_text(front) + base64_text(back));
    }
}

/// A text has four characters for every three bytes begun.
proof fn lemma_text_len(bytes: Seq<u8>)
    ensures
        base64_text(bytes).len() == (bytes.len() + 2) / 3 * 4,
    decreases bytes.len(),
{
    if bytes.len() >= 3 {
        lemma_text_len(bytes.skip(3));
    }
}

/// What follows `n` groups of a text is the text of what follows their bytes.
proof fn lemma_text_skip(bytes: Seq<u8>, n: nat)
    requires
        4 * n < base64_text(bytes).len(),
    ensures
        3 * n < bytes.len(),
        base64_text(bytes).skip(4 * n as int) == base64_text(bytes.skip(3 * n as int)),
    decreases n,
{
    lemma_text_len(bytes);
    if n == 0 {
        assert(base64_text(bytes).skip(0) == base64_text(bytes));
        assert(bytes.skip(0) == bytes);
    } else {
        let m = (n - 1) as nat;
        let rest = bytes.skip(3);
        assert(base64_text(bytes) == base64_group(bytes[0], bytes[1], bytes[2]) + base64_text(
            rest,
        ));
        lemma_text_skip(rest, m);
        assert(base64_text(bytes).skip(4 * n as int) == base64_text(rest).skip(4 * m as int));
        assert(rest.skip(3 * m as int) == bytes.skip(3 * n as int));
    }
}

/// Different bytes have different texts.
pub proof fn law_base64_tells_bytes_apart(a: Seq<u8>, b: Seq<u8>)
    requires
        base64_text(a) == base64_text(b),
    ensures
        a == b,
    decreases a.len(),
{
    lemma_text_len(a);
    lemma_text_len(b);
    if a.len() > 0 {
        let t = base64_text(a);
        lemma_first_group(a);
        lemma_first_group(b);
        lemma_digits_differ(a[0] as int / 4, b[0] as int / 4);
        if a.len() >= 3 {
            let ga = base64_group(a[0], a[1], a[2]);
            let gb = base64_group(b[0], b[1], b[2]);
            assert(t == ga + base64_text(a.skip(3)));
            assert(t == gb + base64_text(b.skip(3)));
            assert(t[1] == ga[1] && t[1] == gb[1]);
            assert(t[2] == ga[2] && t[2] == gb[2]);
            assert(t[3] == ga[3] && t[3] == gb[3]);
            lemma_digits_differ(a[2] as int % 64, b[2] as int % 64);
            lemma_digits_differ(
                a[0] as int % 4 * 16 + a[1] as int / 16,
                b[0] as int % 4 * 16 + b[1] as int / 16,
            );
            lemma_digits_differ(
                a[1] as int % 16 * 4 + a[2] as int / 64,
                b[1] as int % 16 * 4 + b[2] as int / 64,
            );
            assert(t.skip(4) == base64_text(a.skip(3)));
            assert(t.skip(4) == base64_text(b.skip(3)));
            law_base64_tells_bytes_apart(a.skip(3), b.skip(3));
            assert(a == seq![a[0], a[1], a[2]] + a.skip(3));
            assert(b == seq![b[0], b[1], b[2]] + b.skip(3));
        } else if a.len() == 2 {
            lemma_digits_differ(a[1] as int % 16 * 4, 0);
            assert(b.len() == 2);
            lemma_digits_differ(
                a[0] as int % 4 * 16 + a[1] as int / 16,
                b[0] as int % 4 * 16 + b[1] as int / 16,
            );
            lemma_digits_differ(a[1] as int % 16 * 4, b[1] as int % 16 * 4);
            assert(a == b);
        } else {
            assert(b.len() == 1);
            lemma_digits_differ(a[0] as int % 4 * 16, b[0] as int % 4 * 16);
            assert(a == b);
        }
    } else {
        assert(a == b);
    }
}

/// The first group of a text is padded exactly as the bytes run out in it.
proof fn lemma_first_group(bytes: Seq<u8>)
    requires
        bytes.len() > 0,
    ensures
        base64_text(bytes).len() >= 4,
        base64_text(bytes)[0] == base64_digit(bytes[0] as int / 4),
        base64_text(bytes)[2] == '=' <==> bytes.len() == 1,
        base64_text(bytes)[3] == '=' <==> bytes.len() <= 2,
{
    lemma_text_len(bytes);
    if bytes.len() == 2 {
        lemma_digits_differ(bytes[1] as int % 16 * 4, 0);
    } else if bytes.len() > 2 {
        lemma_digits_differ(bytes[1] as int % 16 * 4 + bytes[2] as int / 64, 0);
        lemma_digits_differ(bytes[2] as int % 64, 0);
    }
}

/// Decodes a Base64 text. Only what `base64_text` writes is accepted.
pub fn decode_base64(text: &str) -> (r: Option<Vec<u8>>)
    ensures
        match r {
            Some(bytes) => text@ == base64_text(bytes@),
            None => forall|bytes: Seq<u8>| text@ != #[trigger] base64_text(bytes),
        },
{
    let chars: Vec<char> = chars_of(text);
    let mut out: Vec<u8> = Vec::new();
    let mut i: usize = 0;
    let ghost mut groups: nat = 0;
    proof {
        assert(text@.take(0) == Seq::<char>::empty());
    }
    while i < chars.len()
        invariant
            chars@ == text@,
            i <= chars@.len(),
            i == 4 * groups,
            out@.len() == 3 * groups,
            text@.take(i as int) == base64_text(out@),
        decreases chars@.len() - i,
    {
        let ghost rest = text@.skip(i as int);
        proof {
            assert forall|bytes: Seq<u8>| text@ == #[trigger] base64_text(
                bytes,
            ) implies 3 * groups < bytes.len() && rest == base64_text(
                bytes.skip(3 * groups as int),
            ) && rest.len() >= 4 by {
                lemma_text_skip(bytes, groups);
                lemma_first_group(bytes.skip(3 * groups as int));
            }
        }
        if chars.len() - i < 4 {
            return None;
        }
        let last: bool = chars.len() - i == 4;
        match decode_group(chars[i], chars[i + 1], chars[i + 2], chars[i + 3], last) {
            Some(bytes) => {
                proof {
                    lemma_text_append(out@, bytes@);
                    assert(text@.take(i + 4) == text@.take(i as int) + base64_text(bytes@));
                }
                let mut group = bytes;
                out.append(&mut group);
                i += 4;
                proof {
                    groups = groups + 1;
                }
                if last {
                    assert(text@.take(i as int) == text@);
                    return Some(out);
                }
            },
            None => {
                proof {
                    assert forall|bytes: Seq<u8>| text@ != #[trigger] base64_text(bytes) by {
                        if text@ == base64_text(bytes) {
                            let tail = bytes.skip(3 * groups as int);
                            lemma_head_is_group(tail, rest, last);
                        }
                    }
                }
                return None;
            },
        }
    }
    assert(text@.take(i as int) == text@);
    Some(out)
}

/// Whether `bytes` are what four characters of a text stand for; only the last four may be
/// padded.
pub open spec fn is_group(bytes: Seq<u8>, a: char, b: char, c: char, d: char, last: bool) -> bool {
    &&& 0 < bytes.len() <= 3
    &&& base64_text(bytes) == seq![a, b, c, d]
    &&& bytes.len() == 3 || last
}

/// Three bytes are one group.
proof fn lemma_three(bytes: Seq<u8>)
    requires
        bytes.len() == 3,
    ensures
        base64_text(bytes) == base64_group(bytes[0], bytes[1], bytes[2]),
{
    assert(bytes.skip(3) == Seq::<u8>::empty());
    assert(base64_text(Seq::<u8>::empty()) == Seq::<char>::empty());
    assert(base64_text(bytes) == base64_group(bytes[0], bytes[1], bytes[2]) + Seq::<char>::empty());
}

/// The text of the first bytes is the first group of the text.
proof fn lemma_head_is_group(bytes: Seq<u8>, text: Seq<char>, last: bool)
    requires
        bytes.len() > 0,
        base64_text(bytes) == text,
        last == (text.len() == 4),
    ensures
        exists|head: Seq<u8>| #[trigger] is_group(head, text[0], text[1], text[2], text[3], last),
{
    lemma_text_len(bytes);
    if bytes.len() >= 3 {
        let head = bytes.take(3);
        lemma_three(head);
        assert(base64_text(head) == seq![text[0], text[1], text[2], text[3]]);
        assert(is_group(head, text[0], text[1], text[2], text[3], last));
    } else {
        assert(text == seq![text[0], text[1], text[2], text[3]]);
        assert(is_group(bytes, text[0], text[1], text[2], text[3], last));
    }
}

/// The characters of a group, one by one.
proof fn lemma_group_digits(bytes: Seq<u8>, a: char, b: char, c: char, d: char, last: bool)
    requires
        is_group(bytes, a, b, c, d, last),
    ensures
        a == base64_digit(bytes[0] as int / 4),
        bytes.len() == 1 ==> b == base64_digit(bytes[0] as int % 4 * 16) && c == '=' && d == '=',
        bytes.len() == 2 ==> b == base64_digit(bytes[0] as int % 4 * 16 + bytes[1] as int / 16) && c
            == base64_digit(bytes[1] as int % 16 * 4) && d == '=',
        bytes.len() == 3 ==> seq![a, b, c, d] == base64_group(bytes[0], bytes[1], bytes[2]),
{
    let t = base64_text(bytes);
    assert(t[0] == a && t[1] == b && t[2] == c && t[3] == d);
    if bytes.len() == 3 {
        lemma_three(bytes);
    }
}

/// Decodes four characters of a text; only the last four may be padded.
fn decode_group(a: char, b: char, c: char, d: char, last: bool) -> (r: Option<Vec<u8>>)
    ensures
        match r {
            Some(bytes) => is_group(bytes@, a, b, c, d, last),
            None => forall|bytes: Seq<u8>| !#[trigger] is_group(bytes, a, b, c, d, last),
        },
{
    let mut out: Vec<u8> = Vec::new();
    let values = (digit_value(a), digit_value(b));
    let (va, vb): (u8, u8) = match values {
        (Some(va), Some(vb)) => (va, vb),
        _ => {
            proof {
                assert forall|bytes: Seq<u8>| !#[trigger] is_group(bytes, a, b, c, d, last) by {
                    if is_group(bytes, a, b, c, d, last) {
                        lemma_group_digits(bytes, a, b, c, d, last);
                        assert(b == base64_group(bytes[0], bytes[1], bytes[2])[1] || bytes.len()
                            < 3) by {
                            assert(seq![a, b, c, d][1] == b);
                        }
                    }
                }
            }
            return None;
        },
    };
    out.push(va * 4 + vb / 16);
    if last && c == '=' && d == '=' && vb % 16 == 0 {
        assert(base64_text(out@) == seq![a, b, c, d]);
        return Some(out);
    }
    let vc: u8 = match digit_value(c) {
        Some(vc) => vc,
        None => {
            proof {
                assert forall|bytes: Seq<u8>| !#[trigger] is_group(bytes, a, b, c, d, last) by {
                    if is_group(bytes, a, b, c, d, last) {
                        lemma_group_digits(bytes, a, b, c, d, last);
                        assert(seq![a, b, c, d][2] == c);
                        if bytes.len() == 1 {
                            lemma_digits_differ(bytes[0] as int % 4 * 16, vb as int);
                        }
                    }
                }
            }
            return None;
        },
    };
    out.push((vb % 16) * 16 + vc / 4);
    if last && d == '=' && vc % 4 == 0 {
        assert(base64_text(out@) == seq![a, b, c, d]);
        return Some(out);
    }
    let vd: u8 = match digit_value(d) {
        Some(vd) => vd,
        None => {
            proof {
                lemma_digits_differ(vc as int, 0);
                assert forall|bytes: Seq<u8>| !#[trigger] is_group(bytes, a, b, c, d, last) by {
                    if is_group(bytes, a, b, c, d, last) {
                        lemma_group_digits(bytes, a, b, c, d, last);
                        assert(seq![a, b, c, d][3] == d);
                        if bytes.len() == 2 {
                            lemma_digits_differ(bytes[1] as int % 16 * 4, vc as int);
                        }
                    }
                }
            }
            return None;
        },
    };
    out.push((vc % 4) * 64 + vd);
    proof {
        lemma_three(out@);
        assert(base64_text(out@) == seq![a, b, c, d]);
    }
    Some(out)
}

/// The digits stand in the order of the standard alphabet.
pub proof fn law_base64_alphabet(n: int)
    requires
        0 <= n < 64,
    ensures
        base64_digit(n)
            == "ABCDEFGHIJKLMNOPQRSTUVWXYZabcdefghijklmnopqrstuvwxyz0123456789+/"@[n],
{
    reveal_strlit("ABCDEFGHIJKLMNOPQRSTUVWXYZabcdefghijklmnopqrstuvwxyz0123456789+/");
    lemma_alphabet_ends(n);
}

proof fn lemma_alphabet_ends(n: int)
    requires
        0 <= n < 64,
    ensures
        n < 26 ==> base64_digit(n) as int == 0x41 + n,
        26 <= n < 52 ==> base64_digit(n) as int == 0x61 + (n - 26),
        52 <= n < 62 ==> base64_digit(n) as int == 0x30 + (n - 52),
{
}

/// Texts of whole groups of three bytes are put one behind the other, and the last bytes, one,
/// two or three, are four digits of which each holds the next six bits, padded where none are
/// left.
pub proof fn law_base64_groups(front: Seq<u8>, a: u8, b: u8, c: u8)
    requires
        front.len() % 3 == 0,
    ensures
        base64_text(Seq::<u8>::empty()) == Seq::<char>::empty(),
        base64_text(front + seq![a]) == base64_text(front) + seq![
            base64_digit(a as int / 4),
            base64_digit(a as int % 4 * 16),
            '=',
            '=',
        ],
        base64_text(front + seq![a, b]) == base64_text(front) + seq![
            base64_digit(a as int / 4),
            base64_digit(a as int % 4 * 16 + b as int / 16),
            base64_digit(b as int % 16 * 4),
            '=',
        ],
        base64_text(front + seq![a, b, c]) == base64_text(front) + seq![
            base64_digit(a as int / 4),
            base64_digit(a as int % 4 * 16 + b as int / 16),
            base64_digit(b as int % 16 * 4 + c as int / 64),
            base64_digit(c as int % 64),
        ],
{
    lemma_text_append(front, seq![a]);
    lemma_text_append(front, seq![a, b]);
    lemma_text_append(front, seq![a, b, c]);
    lemma_three(seq![a, b, c]);
}

} // verus!
