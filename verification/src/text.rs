//! Operations on strings, stated over sequences of characters.

use vstd::prelude::*;
use vstd::string::StrSliceExecFns;

verus! {

/// The characters of each string, in order.
pub open spec fn views(strings: Seq<String>) -> Seq<Seq<char>> {
    strings.map_values(|s: String| s@)
}

/// The characters of each pair of strings, in order.
pub open spec fn pair_views(pairs: Seq<(String, String)>) -> Seq<(Seq<char>, Seq<char>)> {
    pairs.map_values(|p: (String, String)| (p.0@, p.1@))
}

/// The characters of an optional string.
pub open spec fn option_view(s: Option<String>) -> Option<Seq<char>> {
    match s {
        Some(s) => Some(s@),
        None => None,
    }
}

/// Adding a string adds its characters.
pub proof fn lemma_views_push(strings: Seq<String>, s: String)
    ensures
        views(strings.push(s)) == views(strings).push(s@),
{
    assert(views(strings.push(s)) =~= views(strings).push(s@));
}

/// Adding a pair adds the characters of both its parts.
pub proof fn lemma_pair_views_push(pairs: Seq<(String, String)>, p: (String, String))
    ensures
        pair_views(pairs.push(p)) == pair_views(pairs).push((p.0@, p.1@)),
{
    assert(pair_views(pairs.push(p)) =~= pair_views(pairs).push((p.0@, p.1@)));
}

/// Collects the characters of `s`.
pub fn chars_of(s: &str) -> (r: Vec<char>)
    ensures
        r@ == s@,
{
    let mut out: Vec<char> = Vec::new();
    for c in iter: s.chars()
        invariant
            iter.seq() == s@,
            out@ == s@.take(iter.index() as int),
    {
        out.push(c);
    }
    out
}

/// Whether `s` begins with `prefix`.
pub fn starts_with(s: &str, prefix: &str) -> (r: bool)
    ensures
        r == prefix@.is_prefix_of(s@),
{
    let a: Vec<char> = chars_of(s);
    let b: Vec<char> = chars_of(prefix);
    if b.len() > a.len() {
        return false;
    }
    let mut i: usize = 0;
    while i < b.len()
        invariant
            i <= b.len() <= a.len(),
            a@ == s@,
            b@ == prefix@,
            forall|j: int| 0 <= j < i ==> a@[j] == b@[j],
        decreases b.len() - i,
    {
        if a[i] != b[i] {
            assert(s@.subrange(0, b.len() as int)[i as int] != b@[i as int]);
            return false;
        }
        i += 1;
    }
    true
}

/// Whether two strings are the same.
pub fn same_str(a: &str, b: &str) -> (r: bool)
    ensures
        r == (a@ == b@),
{
    a.to_owned() == b.to_owned()
}

/// `a` followed by `b`.
pub fn appended(a: &str, b: &str) -> (r: String)
    ensures
        r@ == a@ + b@,
{
    let mut out: String = a.to_owned();
    out.append(b);
    out
}

/// Whether `c` has the Unicode `White_Space` property.
pub open spec fn is_white_space(c: char) -> bool {
    ||| '\u{9}' <= c <= '\u{d}'
    ||| c == ' '
    ||| c == '\u{85}'
    ||| c == '\u{a0}'
    ||| c == '\u{1680}'
    ||| '\u{2000}' <= c <= '\u{200a}'
    ||| c == '\u{2028}'
    ||| c == '\u{2029}'
    ||| c == '\u{202f}'
    ||| c == '\u{205f}'
    ||| c == '\u{3000}'
}

/// Decides `is_white_space`.
pub fn white_space(c: char) -> (r: bool)
    ensures
        r == is_white_space(c),
{
    ('\u{9}' <= c && c <= '\u{d}') || c == ' ' || c == '\u{85}' || c == '\u{a0}' || c == '\u{1680}'
        || ('\u{2000}' <= c && c <= '\u{200a}') || c == '\u{2028}' || c == '\u{2029}'
        || c == '\u{202f}' || c == '\u{205f}' || c == '\u{3000}'
}

/// `s` without its leading white space.
pub open spec fn trim_start(s: Seq<char>) -> Seq<char>
    decreases s.len(),
{
    if s.len() > 0 && is_white_space(s[0]) {
        trim_start(s.drop_first())
    } else {
        s
    }
}

/// `s` without its trailing white space.
pub open spec fn trim_end(s: Seq<char>) -> Seq<char>
    decreases s.len(),
{
    if s.len() > 0 && is_white_space(s.last()) {
        trim_end(s.drop_last())
    } else {
        s
    }
}

/// `s` without leading and trailing white space.
pub open spec fn trim(s: Seq<char>) -> Seq<char> {
    trim_end(trim_start(s))
}

/// Finds the bounds that `trim` leaves of the part of `chars` from `from` up to `to`.
pub fn trim_bounds(chars: &Vec<char>, from: usize, to: usize) -> (r: (usize, usize))
    requires
        from <= to <= chars@.len(),
    ensures
        from <= r.0 <= r.1 <= to,
        chars@.subrange(r.0 as int, r.1 as int) == trim(chars@.subrange(from as int, to as int)),
{
    let mut i: usize = from;
    while i < to && white_space(chars[i])
        invariant
            from <= i <= to <= chars@.len(),
            trim_start(chars@.subrange(i as int, to as int)) == trim_start(
                chars@.subrange(from as int, to as int),
            ),
        decreases to - i,
    {
        assert(chars@.subrange(i as int, to as int).drop_first() == chars@.subrange(
            i + 1,
            to as int,
        ));
        i += 1;
    }
    let mut j: usize = to;
    while i < j && white_space(chars[j - 1])
        invariant
            i <= j <= to <= chars@.len(),
            trim_end(chars@.subrange(i as int, j as int)) == trim_end(
                chars@.subrange(i as int, to as int),
            ),
        decreases j - i,
    {
        assert(chars@.subrange(i as int, j as int).drop_last() == chars@.subrange(
            i as int,
            j - 1,
        ));
        j -= 1;
    }
    (i, j)
}

/// The pieces of `s` between the occurrences of `separator`.
pub open spec fn split(s: Seq<char>, separator: char) -> Seq<Seq<char>>
    decreases s.len(),
{
    if s.len() == 0 {
        seq![Seq::empty()]
    } else {
        let rest = split(s.drop_first(), separator);
        if s[0] == separator {
            seq![Seq::empty()] + rest
        } else {
            rest.update(0, seq![s[0]] + rest[0])
        }
    }
}

/// Before the first separator stands the first piece; the others are those of what follows it.
pub proof fn lemma_split_at(s: Seq<char>, separator: char, i: int)
    requires
        0 <= i < s.len(),
        s[i] == separator,
        forall|j: int| 0 <= j < i ==> s[j] != separator,
    ensures
        split(s, separator) == seq![s.take(i)] + split(s.skip(i + 1), separator),
    decreases i,
{
    if i == 0 {
        assert(s.skip(1) == s.drop_first());
        assert(s.take(0) == Seq::<char>::empty());
    } else {
        let t = s.drop_first();
        lemma_split_at(t, separator, i - 1);
        assert(t.skip(i) == s.skip(i + 1));
        assert(seq![s[0]] + t.take(i - 1) == s.take(i));
    }
}

/// Without a separator the whole is the only piece.
pub proof fn lemma_split_none(s: Seq<char>, separator: char)
    requires
        !s.contains(separator),
    ensures
        split(s, separator) == seq![s],
    decreases s.len(),
{
    if s.len() > 0 {
        let t = s.drop_first();
        assert forall|j: int| 0 <= j < t.len() implies t[j] != separator by {
            assert(s[j + 1] == t[j]);
        }
        assert(s.contains(s[0]));
        lemma_split_none(t, separator);
        assert(seq![s[0]] + t == s);
    } else {
        assert(s == Seq::<char>::empty());
    }
}

/// Splitting two parts with a separator between them splits each.
pub proof fn lemma_split_concat(a: Seq<char>, b: Seq<char>, separator: char)
    ensures
        split(a.push(separator) + b, separator) == split(a, separator) + split(b, separator),
    decreases a.len(),
{
    let whole = a.push(separator) + b;
    if a.len() == 0 {
        assert(whole.drop_first() == b);
        assert(split(a, separator) == seq![Seq::<char>::empty()]);
    } else {
        let rest = a.drop_first();
        lemma_split_concat(rest, b, separator);
        assert(whole.drop_first() == rest.push(separator) + b);
        assert(whole[0] == a[0]);
        lemma_split_nonempty(rest, separator);
        let left = split(rest, separator);
        let right = split(b, separator);
        if a[0] == separator {
            assert(seq![Seq::<char>::empty()] + (left + right) == (seq![Seq::<char>::empty()]
                + left) + right);
        } else {
            assert((left + right).update(0, seq![a[0]] + left[0]) == left.update(
                0,
                seq![a[0]] + left[0],
            ) + right);
        }
    }
}

/// There is always a piece.
proof fn lemma_split_nonempty(s: Seq<char>, separator: char)
    ensures
        split(s, separator).len() > 0,
    decreases s.len(),
{
    if s.len() > 0 {
        lemma_split_nonempty(s.drop_first(), separator);
    }
}

/// Where `separator` next occurs in `chars` at or after `from`; the end if it does not.
pub fn find_from(chars: &Vec<char>, from: usize, separator: char) -> (r: usize)
    requires
        from <= chars@.len(),
    ensures
        from <= r <= chars@.len(),
        r < chars@.len() ==> chars@[r as int] == separator,
        forall|j: int| from <= j < r ==> chars@[j] != separator,
{
    let mut i: usize = from;
    while i < chars.len() && chars[i] != separator
        invariant
            from <= i <= chars@.len(),
            forall|j: int| from <= j < i ==> chars@[j] != separator,
        decreases chars@.len() - i,
    {
        i += 1;
    }
    i
}

/// `s` after taking `prefix` off its front as often as it stands there.
pub open spec fn strip_repeated(s: Seq<char>, prefix: Seq<char>) -> Seq<char>
    decreases s.len(),
{
    if prefix.len() > 0 && prefix.is_prefix_of(s) {
        strip_repeated(s.skip(prefix.len() as int), prefix)
    } else {
        s
    }
}

/// Takes `prefix` off the front of `s` as often as it stands there.
pub fn trim_start_matches(s: &str, prefix: &str) -> (r: String)
    ensures
        r@ == strip_repeated(s@, prefix@),
{
    let total: usize = s.unicode_len();
    let step: usize = prefix.unicode_len();
    let mut at: usize = 0;
    proof {
        assert(s@.skip(0) == s@);
    }
    while step > 0 && starts_with(s.substring_char(at, total), prefix)
        invariant
            at <= total,
            total == s@.len(),
            step == prefix@.len(),
            strip_repeated(s@.skip(at as int), prefix@) == strip_repeated(s@, prefix@),
        decreases total - at,
    {
        assert(s@.subrange(at as int, total as int) == s@.skip(at as int));
        assert(s@.skip(at as int).skip(step as int) == s@.skip(at + step));
        at += step;
    }
    assert(s@.subrange(at as int, total as int) == s@.skip(at as int));
    s.substring_char(at, total).to_owned()
}

/// The strings of `parts` with `separator` between each two.
pub open spec fn joined(parts: Seq<Seq<char>>, separator: Seq<char>) -> Seq<char>
    decreases parts.len(),
{
    if parts.len() == 0 {
        Seq::empty()
    } else if parts.len() == 1 {
        parts[0]
    } else {
        joined(parts.drop_last(), separator) + separator + parts.last()
    }
}

/// Joins `parts` with `separator` between each two.
pub fn join(parts: &Vec<String>, separator: &str) -> (r: String)
    ensures
        r@ == joined(views(parts@), separator@),
{
    let mut out: String = String::new();
    let mut i: usize = 0;
    while i < parts.len()
        invariant
            i <= parts@.len(),
            out@ == joined(views(parts@).take(i as int), separator@),
        decreases parts@.len() - i,
    {
        let ghost before = views(parts@).take(i as int);
        let ghost after = views(parts@).take(i + 1);
        if i > 0 {
            out.append(separator);
        }
        out.append(parts[i].as_str());
        assert(after.drop_last() == before);
        assert(after.last() == parts@[i as int]@);
        i += 1;
    }
    assert(views(parts@).take(i as int) == views(parts@));
    out
}

/// Whether `list` holds a string equal to `item`.
pub fn list_contains(list: &Vec<String>, item: &String) -> (r: bool)
    ensures
        r == views(list@).contains(item@),
{
    let mut i: usize = 0;
    while i < list.len()
        invariant
            i <= list@.len(),
            forall|j: int| 0 <= j < i ==> list@[j]@ != item@,
        decreases list@.len() - i,
    {
        if list[i] == *item {
            assert(views(list@)[i as int] == item@);
            return true;
        }
        i += 1;
    }
    false
}

/// Copies a list of strings.
pub fn copy_list(list: &Vec<String>) -> (r: Vec<String>)
    ensures
        views(r@) == views(list@),
{
    let mut out: Vec<String> = Vec::new();
    let mut i: usize = 0;
    assert(views(out@) =~= views(list@).take(0));
    while i < list.len()
        invariant
            i <= list@.len(),
            views(out@) == views(list@).take(i as int),
        decreases list@.len() - i,
    {
        let copy: String = list[i].clone();
        proof {
            lemma_views_push(out@, copy);
            assert(views(list@).take(i + 1) == views(list@).take(i as int).push(
                list@[i as int]@,
            ));
        }
        out.push(copy);
        i += 1;
    }
    assert(views(list@).take(i as int) == views(list@));
    out
}

/// Copies an optional string.
pub fn copy_option(s: &Option<String>) -> (r: Option<String>)
    ensures
        r == *s,
{
    match s {
        Some(text) => Some(text.clone()),
        None => None,
    }
}

/// The decimal notation of `n`.
pub open spec fn decimal(n: nat) -> Seq<char>
    decreases n,
{
    let digit = ('0' as u32 + n % 10) as char;
    if n < 10 {
        seq![digit]
    } else {
        decimal(n / 10).push(digit)
    }
}

/// The characters of a list of strings are those of each string, one by one.
pub proof fn law_views_go_string_by_string(strings: Seq<String>, i: int)
    requires
        0 <= i < strings.len(),
    ensures
        views(strings).len() == strings.len(),
        views(strings)[i] == strings[i]@,
{
}

/// The characters of an empty list of strings are none.
pub proof fn law_no_strings_have_no_views(strings: Seq<String>, pairs: Seq<(String, String)>)
    ensures
        views(strings).len() == strings.len(),
        pair_views(pairs).len() == pairs.len(),
{
}

/// The characters of a list of pairs are those of both parts of each pair, one by one.
pub proof fn law_pair_views_go_pair_by_pair(pairs: Seq<(String, String)>, i: int)
    requires
        0 <= i < pairs.len(),
    ensures
        pair_views(pairs).len() == pairs.len(),
        pair_views(pairs)[i].0 == pairs[i].0@,
        pair_views(pairs)[i].1 == pairs[i].1@,
{
}

/// The characters of an optional string are those of the string, if there is one.
pub proof fn law_option_view_keeps_the_string(s: Option<String>)
    ensures
        s is None <==> option_view(s) is None,
        s is Some ==> option_view(s)->0 == (s->0)@,
{
}

/// Trimming takes away white space at both ends and nothing else: what is left stands between
/// two positions, before and after which there is only white space, and neither begins nor ends
/// with it.
pub proof fn law_trimming_takes_only_white_space(s: Seq<char>)
    ensures
        exists|from: int, to: int|
            #![trigger s.subrange(from, to)]
            0 <= from <= to <= s.len() && trim(s) == s.subrange(from, to) && (forall|i: int|
                0 <= i < from ==> is_white_space(#[trigger] s[i])) && (forall|i: int|
                to <= i < s.len() ==> is_white_space(#[trigger] s[i])),
        trim(s).len() > 0 ==> !is_white_space(trim(s)[0]) && !is_white_space(trim(s).last()),
{
    lemma_trim_start(s);
    let from = choose|from: int|
        #![trigger s.skip(from)]
        0 <= from <= s.len() && trim_start(s) == s.skip(from) && (forall|i: int|
            0 <= i < from ==> is_white_space(#[trigger] s[i]));
    let front = trim_start(s);
    lemma_trim_end(front);
    let n = choose|n: int|
        #![trigger front.take(n)]
        0 <= n <= front.len() && trim_end(front) == front.take(n) && (forall|i: int|
            n <= i < front.len() ==> is_white_space(#[trigger] front[i]));
    assert(front.take(n) == s.subrange(from, from + n));
    assert forall|i: int| from + n <= i < s.len() implies is_white_space(#[trigger] s[i]) by {
        assert(front[i - from] == s[i]);
    }
}

proof fn lemma_trim_start(s: Seq<char>)
    ensures
        exists|from: int|
            #![trigger s.skip(from)]
            0 <= from <= s.len() && trim_start(s) == s.skip(from) && (forall|i: int|
                0 <= i < from ==> is_white_space(#[trigger] s[i])),
        trim_start(s).len() > 0 ==> !is_white_space(trim_start(s)[0]),
    decreases s.len(),
{
    if s.len() > 0 && is_white_space(s[0]) {
        let rest = s.drop_first();
        lemma_trim_start(rest);
        let from = choose|from: int|
            #![trigger rest.skip(from)]
            0 <= from <= rest.len() && trim_start(rest) == rest.skip(from) && (forall|i: int|
                0 <= i < from ==> is_white_space(#[trigger] rest[i]));
        assert(rest.skip(from) == s.skip(from + 1));
        assert forall|i: int| 0 <= i < from + 1 implies is_white_space(#[trigger] s[i]) by {
            if i > 0 {
                assert(rest[i - 1] == s[i]);
            }
        }
    } else {
        assert(s.skip(0) == s);
    }
}

proof fn lemma_trim_end(s: Seq<char>)
    ensures
        exists|n: int|
            #![trigger s.take(n)]
            0 <= n <= s.len() && trim_end(s) == s.take(n) && (forall|i: int|
                n <= i < s.len() ==> is_white_space(#[trigger] s[i])),
        trim_end(s).len() > 0 ==> !is_white_space(trim_end(s).last()),
        trim_end(s).len() > 0 ==> trim_end(s)[0] == s[0],
    decreases s.len(),
{
    if s.len() > 0 && is_white_space(s.last()) {
        let rest = s.drop_last();
        lemma_trim_end(rest);
        let n = choose|n: int|
            #![trigger rest.take(n)]
            0 <= n <= rest.len() && trim_end(rest) == rest.take(n) && (forall|i: int|
                n <= i < rest.len() ==> is_white_space(#[trigger] rest[i]));
        assert(rest.take(n) == s.take(n));
        assert forall|i: int| n <= i < s.len() implies is_white_space(#[trigger] s[i]) by {
            if i < rest.len() {
                assert(rest[i] == s[i]);
            }
        }
    } else {
        assert(s.take(s.len() as int) == s);
    }
}

/// Text without the separator is one piece, and a separator parts what stands before it from
/// what stands after it.
pub proof fn law_splitting_parts_at_separators(a: Seq<char>, b: Seq<char>, separator: char)
    ensures
        !a.contains(separator) ==> split(a, separator) == seq![a],
        split(a.push(separator) + b, separator) == split(a, separator) + split(b, separator),
{
    if !a.contains(separator) {
        lemma_split_none(a, separator);
    }
    lemma_split_concat(a, b, separator);
}

/// A prefix is stripped as often as it stands in front, and what does not begin with it stays.
pub proof fn law_stripping_ends_where_the_prefix_does(s: Seq<char>, prefix: Seq<char>)
    requires
        prefix.len() > 0,
    ensures
        strip_repeated(prefix + s, prefix) == strip_repeated(s, prefix),
        !prefix.is_prefix_of(s) ==> strip_repeated(s, prefix) == s,
{
    let whole = prefix + s;
    assert(whole.subrange(0, prefix.len() as int) == prefix);
    assert(whole.skip(prefix.len() as int) == s);
}

/// Joining puts the separator between each two parts and nowhere else.
pub proof fn law_joining_separates_each_two_parts(
    parts: Seq<Seq<char>>,
    last: Seq<char>,
    separator: Seq<char>,
)
    ensures
        joined(Seq::empty(), separator) == Seq::<char>::empty(),
        parts.len() == 0 ==> joined(parts.push(last), separator) == last,
        parts.len() > 0 ==> joined(parts.push(last), separator) == joined(parts, separator)
            + separator + last,
{
    assert(parts.push(last).drop_last() == parts);
}

/// White space is what Unicode has as such: the controls from tab to carriage return, the next
/// line, the spaces of every width, and the separators of lines and paragraphs.
pub proof fn law_white_space(c: char)
    ensures
        is_white_space(c) <==> 0x9 <= c as int <= 0xd || 0x2000 <= c as int <= 0x200a || set![
            0x20int,
            0x85int,
            0xa0int,
            0x1680int,
            0x2028int,
            0x2029int,
            0x202fint,
            0x205fint,
            0x3000int,
        ].contains(c as int),
{
}

/// The decimal notation of a number is that of its tens, followed by its last digit.
pub proof fn law_decimal_notation(tens: nat, digit: nat)
    requires
        digit < 10,
    ensures
        decimal(digit) == seq![(0x30 + digit) as char],
        tens > 0 ==> decimal(10 * tens + digit) == decimal(tens).push((0x30 + digit) as char),
{
    assert((10 * tens + digit) % 10 == digit);
    assert((10 * tens + digit) / 10 == tens);
}

} // verus!
