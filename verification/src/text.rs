//! Text as sequences of characters: the line, word and number grammars that the manifests,
//! environment files and command outputs are read with.

use vstd::prelude::*;
use vstd::slice::slice_subrange;
use vstd::utf8::encode_utf8;

verus! {

/// The characters of a piece of text.
pub type Text = Seq<char>;

/// Appends one character to the end of a string (`String::push`).
pub assume_specification[ String::push ](text: &mut String, c: char)
    ensures
        final(text)@ == old(text)@.push(c),
;

// ---------------------------------------------------------------------------------------------
// Characters and copies
// ---------------------------------------------------------------------------------------------

/// The characters with the Unicode `White_Space` property.
pub open spec fn is_space(c: char) -> bool {
    let n = c as u32;
    ||| 9 <= n <= 13
    ||| n == 0x20
    ||| n == 0x85
    ||| n == 0xa0
    ||| n == 0x1680
    ||| 0x2000 <= n <= 0x200a
    ||| n == 0x2028
    ||| n == 0x2029
    ||| n == 0x202f
    ||| n == 0x205f
    ||| n == 0x3000
}

/// Whether a character is white space.
pub fn space(c: char) -> (r: bool)
    ensures
        r == is_space(c),
{
    let n: u32 = c as u32;
    (9 <= n && n <= 13) || n == 0x20 || n == 0x85 || n == 0xa0 || n == 0x1680 || (0x2000 <= n && n
        <= 0x200a) || n == 0x2028 || n == 0x2029 || n == 0x202f || n == 0x205f || n == 0x3000
}

/// The characters `0` to `9`.
pub open spec fn is_digit(c: char) -> bool {
    '0' <= c && c <= '9'
}

/// The characters `a` to `z` and `A` to `Z`.
pub open spec fn is_letter(c: char) -> bool {
    ('a' <= c && c <= 'z') || ('A' <= c && c <= 'Z')
}

/// The hexadecimal digits, in either case.
pub open spec fn is_hex_digit(c: char) -> bool {
    is_digit(c) || ('a' <= c && c <= 'f') || ('A' <= c && c <= 'F')
}

/// Whether a character is an ASCII digit.
pub fn digit(c: char) -> (r: bool)
    ensures
        r == is_digit(c),
{
    '0' <= c && c <= '9'
}

/// Whether a character is an ASCII letter.
pub fn letter(c: char) -> (r: bool)
    ensures
        r == is_letter(c),
{
    ('a' <= c && c <= 'z') || ('A' <= c && c <= 'Z')
}

/// The characters of a string, one element each.
pub fn chars(s: &str) -> (r: Vec<char>)
    ensures
        r@ == s@,
{
    let mut out: Vec<char> = Vec::new();
    for c in it: s.chars()
        invariant
            out@ == s@.take(it.index() as int),
            it.seq() == s@,
    {
        out.push(c);
        assert(s@.take(it.index() + 1) =~= s@.take(it.index() as int).push(c));
    }
    assert(s@.take(s@.len() as int) =~= s@);
    out
}

/// The string with the given characters.
pub fn string(cs: &[char]) -> (r: String)
    ensures
        r@ == cs@,
{
    let mut out = String::new();
    let mut i: usize = 0;
    while i < cs.len()
        invariant
            i <= cs@.len(),
            out@ == cs@.take(i as int),
        decreases cs@.len() - i,
    {
        out.push(cs[i]);
        i = i + 1;
        assert(cs@.take(i as int) =~= cs@.take(i - 1).push(cs@[i - 1]));
    }
    assert(cs@.take(i as int) =~= cs@);
    out
}

/// Whether two pieces of text are the same.
pub fn same(a: &str, b: &str) -> (r: bool)
    ensures
        r == (a@ == b@),
{
    a.to_owned() == b.to_owned()
}

/// An optional piece of text compared with another.
pub fn same_option(a: &Option<String>, b: &str) -> (r: bool)
    ensures
        r == (a.deep_view() == Some(b@)),
{
    match a {
        Some(text) => same(text.as_str(), b),
        None => false,
    }
}

/// Whether a piece of text has no characters.
pub fn empty(s: &str) -> (r: bool)
    ensures
        r == (s@.len() == 0),
{
    s.unicode_len() == 0
}

/// A copy of a list of strings.
pub fn copy_all(list: &Vec<String>) -> (r: Vec<String>)
    ensures
        r.deep_view() == list.deep_view(),
{
    let mut out: Vec<String> = Vec::new();
    let mut i: usize = 0;
    while i < list.len()
        invariant
            i <= list@.len(),
            out@.len() == i,
            forall|j: int| 0 <= j < i ==> #[trigger] out@[j]@ == list@[j]@,
        decreases list@.len() - i,
    {
        out.push(list[i].clone());
        i = i + 1;
    }
    assert(out.deep_view() =~= list.deep_view());
    out
}

/// A copy of an optional string.
pub fn copy_option(text: &Option<String>) -> (r: Option<String>)
    ensures
        r.deep_view() == text.deep_view(),
{
    match text {
        Some(value) => Some(value.clone()),
        None => None,
    }
}

/// Whether a list of strings holds a given one.
pub fn contains(list: &Vec<String>, text: &str) -> (r: bool)
    ensures
        r == list.deep_view().contains(text@),
{
    let mut i: usize = 0;
    while i < list.len()
        invariant
            i <= list@.len(),
            forall|j: int| 0 <= j < i ==> list.deep_view()[j] != text@,
        decreases list@.len() - i,
    {
        if same(list[i].as_str(), text) {
            assert(list.deep_view()[i as int] == text@);
            return true;
        }
        i = i + 1;
    }
    false
}

// ---------------------------------------------------------------------------------------------
// Prefixes, suffixes and separators
// ---------------------------------------------------------------------------------------------

/// Whether `prefix` stands at position `at` of `s`.
pub open spec fn occurs_at(s: Text, prefix: Text, at: int) -> bool {
    0 <= at && at + prefix.len() <= s.len() && s.subrange(at, at + prefix.len()) == prefix
}

fn occurs(s: &[char], prefix: &[char], at: usize) -> (r: bool)
    requires
        at <= s@.len(),
    ensures
        r == occurs_at(s@, prefix@, at as int),
{
    if prefix.len() > s.len() - at {
        return false;
    }
    let total: usize = s.len();
    let mut i: usize = 0;
    while i < prefix.len()
        invariant
            i <= prefix@.len(),
            at + prefix@.len() <= s@.len(),
            s@.len() == total,
            forall|j: int| 0 <= j < i ==> s@[at + j] == prefix@[j],
        decreases prefix@.len() - i,
    {
        if s[at + i] != prefix[i] {
            assert(s@.subrange(at as int, at + prefix@.len())[i as int] != prefix@[i as int]);
            return false;
        }
        i = i + 1;
    }
    assert(s@.subrange(at as int, at + prefix@.len()) =~= prefix@);
    true
}

/// Whether a piece of text begins with another.
pub open spec fn begins(s: Text, prefix: Text) -> bool {
    prefix.len() <= s.len() && s.take(prefix.len() as int) == prefix
}

/// Whether a piece of text ends with another.
pub open spec fn ends(s: Text, suffix: Text) -> bool {
    suffix.len() <= s.len() && s.skip(s.len() - suffix.len()) == suffix
}

/// Whether `s` begins with `prefix`.
pub fn starts_with(s: &str, prefix: &str) -> (r: bool)
    ensures
        r == begins(s@, prefix@),
{
    let a = chars(s);
    let b = chars(prefix);
    occurs(a.as_slice(), b.as_slice(), 0)
}

/// Whether `s` ends with `suffix`.
pub fn ends_with(s: &str, suffix: &str) -> (r: bool)
    ensures
        r == ends(s@, suffix@),
{
    let a = chars(s);
    let b = chars(suffix);
    if b.len() > a.len() {
        return false;
    }
    let at: usize = a.len() - b.len();
    assert(s@.subrange(at as int, at + suffix@.len()) =~= s@.skip(at as int));
    occurs(a.as_slice(), b.as_slice(), at)
}

/// What follows a prefix.
pub open spec fn after_prefix(s: Text, prefix: Text) -> Option<Text> {
    if begins(s, prefix) {
        Some(s.skip(prefix.len() as int))
    } else {
        None
    }
}

/// What follows `prefix` in `s`, where `s` begins with it.
pub fn strip_prefix(s: &str, prefix: &str) -> (r: Option<String>)
    ensures
        r.deep_view() == after_prefix(s@, prefix@),
{
    let a = chars(s);
    let b = chars(prefix);
    if occurs(a.as_slice(), b.as_slice(), 0) {
        assert(s@.subrange(prefix@.len() as int, s@.len() as int) =~= s@.skip(
            prefix@.len() as int,
        ));
        Some(string(slice_subrange(a.as_slice(), b.len(), a.len())))
    } else {
        None
    }
}

/// The position of the first occurrence of `pattern` in `s`, or `None`.
pub open spec fn find(s: Text, pattern: Text) -> Option<int>
    decreases s.len(),
{
    if begins(s, pattern) {
        Some(0)
    } else if s.len() == 0 {
        None
    } else {
        match find(s.skip(1), pattern) {
            Some(at) => Some(at + 1),
            None => None,
        }
    }
}

/// What [`find`] gives is the first occurrence, and it gives one exactly where there is one.
pub proof fn lemma_find(s: Text, pattern: Text)
    ensures
        match find(s, pattern) {
            Some(at) => occurs_at(s, pattern, at) && forall|i: int|
                0 <= i < at ==> !occurs_at(s, pattern, i),
            None => forall|i: int| !occurs_at(s, pattern, i),
        },
    decreases s.len(),
{
    if begins(s, pattern) {
        assert(s.take(pattern.len() as int) =~= s.subrange(0, pattern.len() as int));
    } else if s.len() == 0 {
        assert forall|i: int| !occurs_at(s, pattern, i) by {
            if occurs_at(s, pattern, i) {
                assert(s.take(0) =~= pattern);
            }
        }
    } else {
        lemma_find(s.skip(1), pattern);
        assert forall|i: int| 0 < i implies occurs_at(s, pattern, i) == occurs_at(
            s.skip(1),
            pattern,
            i - 1,
        ) by {
            if i + pattern.len() <= s.len() {
                assert(s.subrange(i, i + pattern.len()) =~= s.skip(1).subrange(
                    i - 1,
                    i - 1 + pattern.len(),
                ));
            }
        }
        assert(!occurs_at(s, pattern, 0)) by {
            if occurs_at(s, pattern, 0) {
                assert(s.take(pattern.len() as int) =~= s.subrange(0, pattern.len() as int));
            }
        }
    }
}

/// The text before and after the first occurrence of a separator.
pub open spec fn cut(s: Text, separator: Text) -> Option<(Text, Text)> {
    match find(s, separator) {
        Some(at) => Some((s.take(at), s.skip(at + separator.len()))),
        None => None,
    }
}

fn find_from(s: &[char], pattern: &[char]) -> (r: Option<usize>)
    ensures
        match r {
            Some(at) => find(s@, pattern@) == Some(at as int),
            None => find(s@, pattern@) is None,
        },
{
    let mut i: usize = 0;
    assert(s@.skip(0) =~= s@);
    while i < s.len()
        invariant
            i <= s@.len(),
            find(s@, pattern@) == match find(s@.skip(i as int), pattern@) {
                Some(at) => Some(at + i),
                None => None::<int>,
            },
        decreases s@.len() - i,
    {
        proof {
            let rest = s@.skip(i as int);
            assert(rest.skip(1) =~= s@.skip(i + 1));
            if i + pattern@.len() <= s@.len() {
                assert(rest.take(pattern@.len() as int) =~= s@.subrange(
                    i as int,
                    i + pattern@.len(),
                ));
            }
        }
        if occurs(s, pattern, i) {
            return Some(i);
        }
        i = i + 1;
    }
    proof {
        assert(s@.skip(i as int) =~= Seq::<char>::empty());
        if i + pattern@.len() <= s@.len() {
            assert(s@.skip(i as int).take(pattern@.len() as int) =~= s@.subrange(
                i as int,
                i + pattern@.len(),
            ));
        }
    }
    if occurs(s, pattern, i) {
        Some(i)
    } else {
        None
    }
}

/// Splits `s` at the first occurrence of `separator`.
pub fn split_once(s: &str, separator: &str) -> (r: Option<(String, String)>)
    ensures
        match r {
            Some(pair) => cut(s@, separator@) == Some((pair.0@, pair.1@)),
            None => cut(s@, separator@) is None,
        },
{
    let a = chars(s);
    let b = chars(separator);
    match find_from(a.as_slice(), b.as_slice()) {
        Some(at) => {
            proof {
                lemma_find(s@, separator@);
            }
            let total: usize = a.len();
            let before = string(slice_subrange(a.as_slice(), 0, at));
            let after = string(slice_subrange(a.as_slice(), at + b.len(), total));
            assert(before@ =~= s@.take(at as int));
            assert(after@ =~= s@.skip(at + separator@.len()));
            Some((before, after))
        },
        None => None,
    }
}

/// The text before and after the last occurrence of a character.
pub open spec fn cut_last(s: Text, separator: char) -> Option<(Text, Text)>
    decreases s.len(),
{
    if s.len() == 0 {
        None
    } else if s.last() == separator {
        Some((s.drop_last(), Seq::empty()))
    } else {
        match cut_last(s.drop_last(), separator) {
            Some(pair) => Some((pair.0, pair.1.push(s.last()))),
            None => None,
        }
    }
}

/// Text that is cut at the last separator is put back together around it, and the separator does
/// not occur in the second part; text that is not cut does not hold the separator.
pub proof fn law_cut_at_the_last_separator(s: Text, separator: char)
    ensures
        match cut_last(s, separator) {
            Some(pair) => s == pair.0.push(separator) + pair.1 && !pair.1.contains(separator),
            None => !s.contains(separator),
        },
    decreases s.len(),
{
    if s.len() > 0 && s.last() != separator {
        law_cut_at_the_last_separator(s.drop_last(), separator);
        match cut_last(s.drop_last(), separator) {
            Some(pair) => {
                assert(s =~= s.drop_last().push(s.last()));
                assert(s =~= pair.0.push(separator) + pair.1.push(s.last()));
                assert forall|i: int| 0 <= i < pair.1.len() + 1 implies pair.1.push(s.last())[i]
                    != separator by {
                    if i < pair.1.len() {
                        assert(pair.1[i] != separator);
                    }
                }
            },
            None => {
                assert forall|i: int| 0 <= i < s.len() implies s[i] != separator by {
                    if i < s.len() - 1 {
                        assert(s.drop_last()[i] != separator);
                    }
                }
            },
        }
    } else if s.len() > 0 {
        assert(s =~= s.drop_last().push(separator) + Seq::<char>::empty());
    }
}

/// Splits `s` at the last occurrence of `separator`.
pub fn rsplit_once(s: &str, separator: char) -> (r: Option<(String, String)>)
    ensures
        match r {
            Some(pair) => cut_last(s@, separator) == Some((pair.0@, pair.1@)),
            None => cut_last(s@, separator) is None,
        },
{
    let a = chars(s);
    let mut i: usize = a.len();
    assert(s@.take(i as int) =~= s@);
    while i > 0
        invariant
            i <= a@.len(),
            a@ == s@,
            cut_last(s@, separator) == match cut_last(s@.take(i as int), separator) {
                Some(pair) => Some((pair.0, pair.1 + s@.skip(i as int))),
                None => None::<(Text, Text)>,
            },
        decreases i,
    {
        assert(s@.take(i as int).drop_last() =~= s@.take(i - 1));
        if a[i - 1] == separator {
            let before = string(slice_subrange(a.as_slice(), 0, i - 1));
            let after = string(slice_subrange(a.as_slice(), i, a.len()));
            assert(before@ =~= s@.take(i as int).drop_last());
            assert(after@ =~= Seq::<char>::empty() + s@.skip(i as int));
            return Some((before, after));
        }
        proof {
            match cut_last(s@.take(i - 1), separator) {
                Some(pair) => {
                    assert(pair.1.push(s@[i - 1]) + s@.skip(i as int) =~= pair.1 + s@.skip(i - 1));
                },
                None => {},
            }
        }
        i = i - 1;
    }
    None
}


/// `s` with every occurrence of `from`, taken from the left without overlap, replaced by `to`.
pub open spec fn replaced(s: Text, from: Text, to: Text) -> Text
    decreases s.len(),
{
    if s.len() == 0 || from.len() == 0 {
        s
    } else if begins(s, from) {
        to + replaced(s.skip(from.len() as int), from, to)
    } else {
        seq![s[0]] + replaced(s.skip(1), from, to)
    }
}

/// Replaces every occurrence of `from` in `s` by `to`.
pub fn replace(s: &str, from: &str, to: &str) -> (r: String)
    requires
        from@.len() > 0,
    ensures
        r@ == replaced(s@, from@, to@),
{
    let a = chars(s);
    let b = chars(from);
    let total: usize = a.len();
    let mut out = String::new();
    let mut i: usize = 0;
    assert(s@.skip(0) =~= s@);
    assert(out@ + replaced(s@, from@, to@) =~= replaced(s@, from@, to@));
    while i < total
        invariant
            a@ == s@,
            b@ == from@,
            b@.len() > 0,
            total == a@.len(),
            i <= total,
            replaced(s@, from@, to@) == out@ + replaced(s@.skip(i as int), from@, to@),
        decreases total - i,
    {
        let ghost rest = s@.skip(i as int);
        let ghost before = out@;
        proof {
            if i + from@.len() <= s@.len() {
                assert(rest.take(from@.len() as int) =~= s@.subrange(i as int, i + from@.len()));
            }
        }
        if occurs(a.as_slice(), b.as_slice(), i) {
            out.append(to);
            assert(rest.skip(from@.len() as int) =~= s@.skip(i + from@.len()));
            assert(before + (to@ + replaced(s@.skip(i + from@.len()), from@, to@)) =~= out@
                + replaced(s@.skip(i + from@.len()), from@, to@));
            i = i + b.len();
        } else {
            out.push(a[i]);
            assert(rest.skip(1) =~= s@.skip(i + 1));
            assert(before + (seq![rest[0]] + replaced(s@.skip(i + 1), from@, to@)) =~= out@
                + replaced(s@.skip(i + 1), from@, to@));
            i = i + 1;
        }
    }
    assert(s@.skip(i as int) =~= Seq::<char>::empty());
    assert(out@ + Seq::<char>::empty() =~= out@);
    out
}

// ---------------------------------------------------------------------------------------------
// White space, words and lines
// ---------------------------------------------------------------------------------------------

/// The number of leading characters that are white space.
pub open spec fn leading(s: Text) -> nat
    decreases s.len(),
{
    if s.len() > 0 && is_space(s[0]) {
        1 + leading(s.skip(1))
    } else {
        0
    }
}

/// The number of leading characters that are not white space.
pub open spec fn word_length(s: Text) -> nat
    decreases s.len(),
{
    if s.len() > 0 && !is_space(s[0]) {
        1 + word_length(s.skip(1))
    } else {
        0
    }
}

/// `s` without its trailing white space.
pub open spec fn trimmed_end(s: Text) -> Text
    decreases s.len(),
{
    if s.len() > 0 && is_space(s.last()) {
        trimmed_end(s.drop_last())
    } else {
        s
    }
}

/// `s` without leading and trailing white space.
pub open spec fn trimmed(s: Text) -> Text {
    trimmed_end(s.skip(leading(s) as int))
}

/// Whether a piece of text is empty or white space alone.
pub open spec fn is_blank(s: Text) -> bool {
    forall|i: int| 0 <= i < s.len() ==> is_space(#[trigger] s[i])
}

proof fn lemma_trimmed_end(s: Text, n: int)
    requires
        0 <= n <= s.len(),
        forall|i: int| n <= i < s.len() ==> is_space(#[trigger] s[i]),
        n > 0 ==> !is_space(s[n - 1]),
    ensures
        trimmed_end(s) == s.take(n),
    decreases s.len(),
{
    if s.len() == n {
        assert(s.take(n) =~= s);
    } else {
        lemma_trimmed_end(s.drop_last(), n);
        assert(s.drop_last().take(n) =~= s.take(n));
    }
}

/// Whether `s` is empty or white space alone.
pub fn blank(s: &str) -> (r: bool)
    ensures
        r == is_blank(s@),
{
    let a = chars(s);
    let mut i: usize = 0;
    while i < a.len()
        invariant
            a@ == s@,
            i <= a@.len(),
            forall|j: int| 0 <= j < i ==> is_space(#[trigger] s@[j]),
        decreases a@.len() - i,
    {
        if !space(a[i]) {
            return false;
        }
        i = i + 1;
    }
    true
}

/// `s` without leading and trailing white space.
pub fn trim(s: &str) -> (r: String)
    ensures
        r@ == trimmed(s@),
{
    let a = chars(s);
    let mut start: usize = 0;
    assert(s@.skip(0) =~= s@);
    while start < a.len() && space(a[start])
        invariant
            a@ == s@,
            start <= a@.len(),
            leading(s@) == start + leading(s@.skip(start as int)),
        decreases a@.len() - start,
    {
        assert(s@.skip(start as int).skip(1) =~= s@.skip(start + 1));
        start = start + 1;
    }
    let ghost rest = s@.skip(start as int);
    let mut end: usize = a.len();
    while end > start && space(a[end - 1])
        invariant
            a@ == s@,
            start <= end <= a@.len(),
            rest == s@.skip(start as int),
            forall|j: int| end - start <= j < rest.len() ==> is_space(#[trigger] rest[j]),
        decreases end,
    {
        end = end - 1;
    }
    proof {
        lemma_trimmed_end(rest, end - start);
        assert(rest.take(end - start) =~= s@.subrange(start as int, end as int));
    }
    string(slice_subrange(a.as_slice(), start, end))
}

/// The maximal runs of characters that are not white space, in order.
pub open spec fn words_of(s: Text) -> Seq<Text>
    decreases s.len(),
{
    let rest = s.skip(leading(s) as int);
    let n = word_length(rest) as int;
    if leading(s) >= s.len() || n == 0 || n > rest.len() {
        Seq::empty()
    } else {
        seq![rest.take(n)] + words_of(rest.skip(n))
    }
}

/// The words of `s`, in order.
pub fn words(s: &str) -> (r: Vec<String>)
    ensures
        r.deep_view() == words_of(s@),
{
    let a = chars(s);
    let total: usize = a.len();
    let mut out: Vec<String> = Vec::new();
    let mut i: usize = 0;
    assert(s@.skip(0) =~= s@);
    assert(out.deep_view() + words_of(s@) =~= words_of(s@));
    while i < total
        invariant
            a@ == s@,
            total == a@.len(),
            i <= total,
            words_of(s@) == out.deep_view() + words_of(s@.skip(i as int)),
        decreases total - i,
    {
        let ghost rest = s@.skip(i as int);
        let ghost begin = i as int;
        while i < total && space(a[i])
            invariant
                a@ == s@,
                total == a@.len(),
                begin <= i <= total,
                rest == s@.skip(begin),
                leading(rest) == (i - begin) + leading(s@.skip(i as int)),
            decreases total - i,
        {
            assert(s@.skip(i as int).skip(1) =~= s@.skip(i + 1));
            i = i + 1;
        }
        assert(s@.skip(i as int) =~= rest.skip(leading(rest) as int));
        let start: usize = i;
        while i < total && !space(a[i])
            invariant
                a@ == s@,
                total == a@.len(),
                start <= i <= total,
                word_length(s@.skip(start as int)) == (i - start) + word_length(s@.skip(i as int)),
            decreases total - i,
        {
            assert(s@.skip(i as int).skip(1) =~= s@.skip(i + 1));
            i = i + 1;
        }
        let ghost tail = s@.skip(start as int);
        if i == start {
            assert(words_of(rest) =~= Seq::<Text>::empty());
            assert(out.deep_view() + Seq::<Text>::empty() =~= out.deep_view());
            return out;
        }
        let ghost before = out.deep_view();
        let word = string(slice_subrange(a.as_slice(), start, i));
        out.push(word);
        proof {
            assert(tail.take(i - start) =~= s@.subrange(start as int, i as int));
            assert(tail.skip(i - start) =~= s@.skip(i as int));
            assert(out.deep_view() =~= before.push(tail.take(i - start)));
            assert(before + words_of(rest) =~= out.deep_view() + words_of(s@.skip(i as int)));
        }
    }
    assert(s@.skip(i as int) =~= Seq::<char>::empty());
    assert(words_of(s@.skip(i as int)) =~= Seq::<Text>::empty());
    assert(out.deep_view() + Seq::<Text>::empty() =~= out.deep_view());
    out
}

/// The number of characters before the first line feed, or of all characters.
pub open spec fn line_length(s: Text) -> nat
    decreases s.len(),
{
    if s.len() == 0 || s[0] == '\n' {
        0
    } else {
        1 + line_length(s.skip(1))
    }
}

pub proof fn lemma_line_length(s: Text)
    ensures
        line_length(s) <= s.len(),
        forall|i: int| 0 <= i < line_length(s) ==> #[trigger] s[i] != '\n',
        line_length(s) < s.len() ==> s[line_length(s) as int] == '\n',
    decreases s.len(),
{
    if s.len() > 0 && s[0] != '\n' {
        lemma_line_length(s.skip(1));
        assert forall|i: int| 0 <= i < line_length(s) implies #[trigger] s[i] != '\n' by {
            if i > 0 {
                assert(s.skip(1)[i - 1] == s[i]);
            }
        }
    }
}

/// A line without the carriage return that stands before its line feed.
pub open spec fn without_return(s: Text) -> Text {
    if s.len() > 0 && s.last() == '\r' {
        s.drop_last()
    } else {
        s
    }
}

/// The lines of a piece of text. A line ends with a line feed or with a carriage return and a
/// line feed; the last line need not end.
pub open spec fn lines_of(s: Text) -> Seq<Text>
    decreases s.len(),
{
    let n = line_length(s) as int;
    if s.len() == 0 {
        Seq::empty()
    } else if n >= s.len() {
        seq![s]
    } else {
        seq![without_return(s.take(n))] + lines_of(s.skip(n + 1))
    }
}

/// The lines of `s`, in order, without their endings.
pub fn lines(s: &str) -> (r: Vec<String>)
    ensures
        r.deep_view() == lines_of(s@),
{
    let a = chars(s);
    let total: usize = a.len();
    let mut out: Vec<String> = Vec::new();
    let mut i: usize = 0;
    assert(s@.skip(0) =~= s@);
    assert(out.deep_view() + lines_of(s@) =~= lines_of(s@));
    while i < total
        invariant
            a@ == s@,
            total == a@.len(),
            i <= total,
            lines_of(s@) == out.deep_view() + lines_of(s@.skip(i as int)),
        decreases total - i,
    {
        let start: usize = i;
        let ghost rest = s@.skip(start as int);
        let ghost before = out.deep_view();
        while i < total && a[i] != '\n'
            invariant
                a@ == s@,
                total == a@.len(),
                start <= i <= total,
                rest == s@.skip(start as int),
                line_length(rest) == (i - start) + line_length(s@.skip(i as int)),
            decreases total - i,
        {
            assert(s@.skip(i as int).skip(1) =~= s@.skip(i + 1));
            i = i + 1;
        }
        if i == total {
            assert(s@.skip(i as int) =~= Seq::<char>::empty());
            let line = string(slice_subrange(a.as_slice(), start, i));
            out.push(line);
            assert(line@ =~= rest);
            assert(out.deep_view() =~= before.push(rest));
            assert(lines_of(rest) =~= seq![rest]);
            assert(before + lines_of(rest) =~= out.deep_view());
            return out;
        }
        let mut end: usize = i;
        if end > start && a[end - 1] == '\r' {
            end = end - 1;
        }
        let line = string(slice_subrange(a.as_slice(), start, end));
        out.push(line);
        proof {
            let n = i - start;
            assert(rest.take(n) =~= s@.subrange(start as int, i as int));
            assert(line@ =~= without_return(rest.take(n)));
            assert(rest.skip(n + 1) =~= s@.skip(i + 1));
            assert(out.deep_view() =~= before.push(line@));
            assert(before + lines_of(rest) =~= out.deep_view() + lines_of(s@.skip(i + 1)));
        }
        i = i + 1;
    }
    assert(s@.skip(i as int) =~= Seq::<char>::empty());
    assert(lines_of(s@.skip(i as int)) =~= Seq::<Text>::empty());
    assert(out.deep_view() + Seq::<Text>::empty() =~= out.deep_view());
    out
}

/// The parts, in order, with a separator between neighbours.
pub open spec fn joined(parts: Seq<Text>, separator: Text) -> Text
    decreases parts.len(),
{
    if parts.len() == 0 {
        Seq::empty()
    } else if parts.len() == 1 {
        parts[0]
    } else {
        joined(parts.drop_last(), separator) + separator + parts.last()
    }
}

/// Joins the parts with a separator.
pub fn join(parts: &Vec<String>, separator: &str) -> (r: String)
    ensures
        r@ == joined(parts.deep_view(), separator@),
{
    let mut out = String::new();
    let mut i: usize = 0;
    let ghost all = parts.deep_view();
    while i < parts.len()
        invariant
            all == parts.deep_view(),
            i <= parts@.len(),
            out@ == joined(all.take(i as int), separator@),
        decreases parts@.len() - i,
    {
        let ghost done = all.take(i as int);
        if i > 0 {
            out.append(separator);
        }
        out.append(parts[i].as_str());
        i = i + 1;
        assert(all.take(i as int).drop_last() =~= done);
        assert(all.take(i as int).last() == parts@[i - 1]@);
        assert(i == 1 ==> out@ =~= all.take(1)[0]);
    }
    assert(all.take(i as int) =~= all);
    out
}

/// The lines, in order, each followed by a line feed.
pub open spec fn ended(lines: Seq<Text>) -> Text
    decreases lines.len(),
{
    if lines.len() == 0 {
        Seq::empty()
    } else {
        ended(lines.drop_last()) + lines.last() + seq!['\n']
    }
}

/// The first of the ended lines stands in front of the others.
pub proof fn lemma_ended_first(lines: Seq<Text>)
    requires
        lines.len() > 0,
    ensures
        ended(lines) == lines[0] + seq!['\n'] + ended(lines.skip(1)),
    decreases lines.len(),
{
    if lines.len() == 1 {
        assert(lines.drop_last() =~= Seq::<Text>::empty());
        assert(lines.skip(1) =~= Seq::<Text>::empty());
        assert(ended(lines) =~= lines[0] + seq!['\n'] + ended(lines.skip(1)));
    } else {
        lemma_ended_first(lines.drop_last());
        assert(lines.drop_last().skip(1) =~= lines.skip(1).drop_last());
        assert(ended(lines) =~= lines[0] + seq!['\n'] + ended(lines.skip(1)));
    }
}

/// Reading ended lines gives them back, but for a carriage return at the end of one.
pub proof fn lemma_ended_lines(lines: Seq<Text>)
    requires
        forall|i: int| 0 <= i < lines.len() ==> !(#[trigger] lines[i]).contains('\n'),
    ensures
        lines_of(ended(lines)) == lines.map_values(|line: Text| without_return(line)),
    decreases lines.len(),
{
    let clean = lines.map_values(|line: Text| without_return(line));
    if lines.len() == 0 {
        assert(clean =~= Seq::<Text>::empty());
    } else {
        lemma_ended_first(lines);
        let all = ended(lines);
        let first = lines[0];
        let others = lines.skip(1);
        lemma_line_length(all);
        let n = line_length(all) as int;
        assert(all[first.len() as int] == '\n');
        assert forall|i: int| 0 <= i < first.len() implies all[i] != '\n' by {
            assert(all[i] == first[i]);
            assert(first.contains(first[i]));
        }
        assert(n == first.len());
        assert(all.take(n) =~= first);
        assert(all.skip(n + 1) =~= ended(others));
        assert forall|i: int| 0 <= i < others.len() implies !(#[trigger] others[i]).contains(
            '\n',
        ) by {
            assert(others[i] == lines[i + 1]);
        }
        lemma_ended_lines(others);
        assert(clean =~= seq![without_return(first)] + others.map_values(
            |line: Text| without_return(line),
        ));
    }
}

/// No line holds a line feed.
pub proof fn lemma_lines(s: Text)
    ensures
        forall|i: int| 0 <= i < lines_of(s).len() ==> !(#[trigger] lines_of(s)[i]).contains('\n'),
    decreases s.len(),
{
    let n = line_length(s) as int;
    lemma_line_length(s);
    if s.len() == 0 {
    } else if n >= s.len() {
        assert(!s.contains('\n'));
    } else {
        let rest = lines_of(s.skip(n + 1));
        lemma_lines(s.skip(n + 1));
        assert forall|i: int| 0 <= i < lines_of(s).len() implies !(#[trigger] lines_of(
            s,
        )[i]).contains('\n') by {
            if i > 0 {
                assert(lines_of(s)[i] == rest[i - 1]);
            } else {
                assert(lines_of(s)[0] == without_return(s.take(n)));
                assert(!s.take(n).contains('\n'));
            }
        }
    }
}

/// An ASCII letter in lower case; any other character as it is.
pub open spec fn lower(c: char) -> char {
    if 'A' <= c && c <= 'Z' {
        (c as u32 + 32) as char
    } else {
        c
    }
}

/// A piece of text with its ASCII letters in lower case.
pub open spec fn lowercase(s: Text) -> Text {
    s.map_values(|c: char| lower(c))
}

fn to_lower(c: char) -> (r: char)
    ensures
        r == lower(c),
{
    if 'A' <= c && c <= 'Z' {
        ((c as u8) + 32) as char
    } else {
        c
    }
}

/// Whether two pieces of text are equal but for the case of ASCII letters.
pub fn same_ignoring_case(a: &str, b: &str) -> (r: bool)
    ensures
        r == (lowercase(a@) == lowercase(b@)),
{
    let x = chars(a);
    let y = chars(b);
    if x.len() != y.len() {
        assert(lowercase(a@).len() != lowercase(b@).len());
        return false;
    }
    let mut i: usize = 0;
    while i < x.len()
        invariant
            x@ == a@,
            y@ == b@,
            x@.len() == y@.len(),
            i <= x@.len(),
            forall|j: int| 0 <= j < i ==> lower(#[trigger] x@[j]) == lower(y@[j]),
        decreases x@.len() - i,
    {
        if to_lower(x[i]) != to_lower(y[i]) {
            assert(lowercase(a@)[i as int] != lowercase(b@)[i as int]);
            return false;
        }
        i = i + 1;
    }
    assert(lowercase(a@) =~= lowercase(b@));
    true
}

/// The number of bytes of a piece of text in UTF-8.
pub open spec fn byte_length(s: Text) -> nat {
    encode_utf8(s).len()
}

/// The number of bytes of a piece of text in UTF-8.
pub fn bytes(s: &str) -> (r: usize)
    ensures
        r == byte_length(s@),
{
    s.as_bytes().len()
}

// ---------------------------------------------------------------------------------------------
// Parts
// ---------------------------------------------------------------------------------------------

/// Whether a piece of text holds another.
pub open spec fn holds_part(s: Text, part: Text) -> bool {
    exists|before: Text, behind: Text| s == #[trigger] (before + part + behind)
}

/// A piece of text holds itself, and what it begins or ends with.
pub proof fn lemma_holds(before: Text, part: Text, behind: Text)
    ensures
        holds_part(before + part + behind, part),
        holds_part(before + part, part),
        holds_part(part + behind, part),
        holds_part(part, part),
{
    let none = Seq::<char>::empty();
    assert(before + part =~= before + part + none);
    assert(part + behind =~= none + part + behind);
    assert(part =~= none + part + none);
}

/// What a piece of text holds is held by what begins with it, and by what ends with it.
pub proof fn lemma_parts_stay(s: Text, t: Text)
    ensures
        forall|part: Text| holds_part(s, part) ==> #[trigger] holds_part(s + t, part),
        forall|part: Text| holds_part(t, part) ==> #[trigger] holds_part(s + t, part),
{
    assert forall|part: Text| holds_part(s, part) implies #[trigger] holds_part(s + t, part) by {
        let (before, behind) = choose|before: Text, behind: Text|
            s == #[trigger] (before + part + behind);
        assert(s + t =~= before + part + (behind + t));
    }
    assert forall|part: Text| holds_part(t, part) implies #[trigger] holds_part(s + t, part) by {
        let (before, behind) = choose|before: Text, behind: Text|
            t == #[trigger] (before + part + behind);
        assert(s + t =~= (s + before) + part + behind);
    }
}

/// Two pieces of text at the end of another are held together.
pub proof fn lemma_holds_pair(s: Text, x: Text, y: Text)
    ensures
        holds_part(s + x + y, x + y),
{
    let none = Seq::<char>::empty();
    assert(s + x + y =~= s + (x + y) + none);
}

/// Parts that are joined are all held.
pub proof fn lemma_joined_holds(parts: Seq<Text>, separator: Text, k: int)
    requires
        0 <= k < parts.len(),
    ensures
        holds_part(joined(parts, separator), parts[k]),
    decreases parts.len(),
{
    if parts.len() == 1 {
        lemma_holds(Seq::empty(), parts[0], Seq::empty());
    } else {
        let before = joined(parts.drop_last(), separator);
        if k < parts.len() - 1 {
            lemma_joined_holds(parts.drop_last(), separator, k);
            lemma_parts_stay(before, separator);
            assert(holds_part(before + separator, parts[k]));
            lemma_parts_stay(before + separator, parts.last());
        } else {
            lemma_holds(before + separator, parts.last(), Seq::empty());
        }
    }
}

/// What a part of a piece of text holds, the whole holds.
pub proof fn lemma_holds_inner(s: Text, part: Text, inner: Text)
    requires
        holds_part(s, part),
        holds_part(part, inner),
    ensures
        holds_part(s, inner),
{
    let (before, behind) = choose|before: Text, behind: Text|
        s == #[trigger] (before + part + behind);
    lemma_parts_stay(before, part);
    assert(holds_part(before + part, inner));
    lemma_parts_stay(before + part, behind);
}

// ---------------------------------------------------------------------------------------------
// What the cuts keep
// ---------------------------------------------------------------------------------------------

/// Text that is cut at a separator is put back together around it, and the separator does not occur
/// before the cut; text that is not cut does not hold it.
pub proof fn law_cut_at_the_first_separator(s: Text, separator: Text)
    ensures
        match cut(s, separator) {
            Some((before, behind)) => s == before + separator + behind && forall|i: int|
                0 <= i < before.len() ==> !(#[trigger] occurs_at(s, separator, i)),
            None => forall|i: int| !(#[trigger] occurs_at(s, separator, i)),
        },
{
    lemma_find(s, separator);
    if let Some(at) = find(s, separator) {
        let pair = cut(s, separator)->0;
        assert(s =~= s.take(at) + s.subrange(at, at + separator.len()) + s.skip(
            at + separator.len(),
        ));
    }
}

proof fn lemma_leading(s: Text)
    ensures
        leading(s) <= s.len(),
        is_blank(s.take(leading(s) as int)),
        leading(s) < s.len() ==> !is_space(s[leading(s) as int]),
    decreases s.len(),
{
    if s.len() > 0 && is_space(s[0]) {
        let rest = s.skip(1);
        lemma_leading(rest);
        let n = leading(s) as int;
        assert forall|i: int| 0 <= i < n implies is_space(#[trigger] s.take(n)[i]) by {
            if i > 0 {
                assert(rest.take(n - 1)[i - 1] == s.take(n)[i]);
                assert(is_space(rest.take(n - 1)[i - 1]));
            }
        }
        if n < s.len() {
            assert(rest[n - 1] == s[n]);
        }
    }
}

proof fn lemma_trimmed_end_parts(s: Text)
    ensures
        trimmed_end(s).len() <= s.len(),
        s.take(trimmed_end(s).len() as int) == trimmed_end(s),
        is_blank(s.skip(trimmed_end(s).len() as int)),
        trimmed_end(s).len() > 0 ==> !is_space(trimmed_end(s).last()),
    decreases s.len(),
{
    if s.len() > 0 && is_space(s.last()) {
        let rest = s.drop_last();
        lemma_trimmed_end_parts(rest);
        let n = trimmed_end(s).len() as int;
        assert(s.take(n) =~= rest.take(n));
        assert forall|i: int| 0 <= i < s.len() - n implies is_space(#[trigger] s.skip(n)[i]) by {
            if i < rest.len() - n {
                assert(rest.skip(n)[i] == s.skip(n)[i]);
                assert(is_space(rest.skip(n)[i]));
            }
        }
    } else {
        assert(s.take(s.len() as int) =~= s);
    }
}

/// Text is trimmed of white space and of nothing else: what is left begins and ends with something
/// else, and what was taken off at both ends is blank.
pub proof fn law_trimming_takes_white_space_only(s: Text)
    ensures
        trimmed(s).len() > 0 ==> !is_space(trimmed(s)[0]) && !is_space(trimmed(s).last()),
        exists|before: Text, behind: Text|
            is_blank(before) && is_blank(behind) && s == #[trigger] (before + trimmed(s) + behind),
        is_blank(s) ==> trimmed(s).len() == 0,
{
    lemma_leading(s);
    let n = leading(s) as int;
    let rest = s.skip(n);
    lemma_trimmed_end_parts(rest);
    let t = trimmed(s);
    let before = s.take(n);
    let behind = rest.skip(t.len() as int);
    assert(rest =~= t + behind);
    assert(s =~= before + t + behind);
    if t.len() > 0 {
        assert(t[0] == rest[0]);
        assert(rest[0] == s[n]);
    }
    if is_blank(s) && t.len() > 0 {
        assert(is_space(s[n]));
    }
}

proof fn lemma_word_length(s: Text)
    ensures
        word_length(s) <= s.len(),
        forall|i: int| 0 <= i < word_length(s) ==> !is_space(#[trigger] s[i]),
        word_length(s) < s.len() ==> is_space(s[word_length(s) as int]),
    decreases s.len(),
{
    if s.len() > 0 && !is_space(s[0]) {
        let rest = s.skip(1);
        lemma_word_length(rest);
        assert forall|i: int| 0 <= i < word_length(s) implies !is_space(#[trigger] s[i]) by {
            if i > 0 {
                assert(rest[i - 1] == s[i]);
            }
        }
        if word_length(s) < s.len() {
            assert(rest[word_length(rest) as int] == s[word_length(s) as int]);
        }
    }
}

/// The words of a piece of text: one that begins with a run without white space, behind which white
/// space or nothing follows, has that run for its first word and the words of the rest behind it.
/// White space before the first word does not count.
pub proof fn law_words_are_what_stands_between_white_space(
    word: Text,
    space: char,
    rest: Text,
)
    requires
        word.len() > 0,
        forall|i: int| 0 <= i < word.len() ==> !is_space(#[trigger] word[i]),
        is_space(space),
    ensures
        words_of(Seq::empty()).len() == 0,
        words_of(word) == seq![word],
        words_of(seq![space] + rest) == words_of(rest),
        words_of(word + seq![space] + rest) == seq![word] + words_of(rest),
{
    let none = Seq::<char>::empty();
    lemma_first_word(word, none);
    assert(word + none =~= word);
    assert(words_of(none).len() == 0);
    assert(seq![word] + words_of(none) =~= seq![word]);
    lemma_space_before(space, rest);
    lemma_first_word(word, seq![space] + rest);
    assert(word + (seq![space] + rest) =~= word + seq![space] + rest);
}

proof fn lemma_space_before(space: char, rest: Text)
    requires
        is_space(space),
    ensures
        words_of(seq![space] + rest) == words_of(rest),
{
    let s = seq![space] + rest;
    lemma_leading(rest);
    assert(s.skip(1) =~= rest);
    assert(leading(s) == 1 + leading(rest));
    assert(s.skip(leading(s) as int) =~= rest.skip(leading(rest) as int));
}

proof fn lemma_first_word(word: Text, rest: Text)
    requires
        word.len() > 0,
        forall|i: int| 0 <= i < word.len() ==> !is_space(#[trigger] word[i]),
        rest.len() > 0 ==> is_space(rest[0]),
    ensures
        words_of(word + rest) == seq![word] + words_of(rest),
{
    let s = word + rest;
    assert(s[0] == word[0]);
    assert(leading(s) == 0);
    assert(s.skip(0) =~= s);
    lemma_word_length(s);
    let n = word_length(s) as int;
    if n < word.len() {
        assert(s[n] == word[n]);
    } else if n > word.len() {
        assert(s[word.len() as int] == rest[0]);
    }
    assert(n == word.len());
    assert(s.take(n) =~= word);
    assert(s.skip(n) =~= rest);
}

proof fn lemma_length_of_line(s: Text, n: int)
    requires
        0 <= n <= s.len(),
        forall|i: int| 0 <= i < n ==> #[trigger] s[i] != '\n',
        n < s.len() ==> s[n] == '\n',
    ensures
        line_length(s) == n,
    decreases n,
{
    if n > 0 {
        let rest = s.skip(1);
        assert(s[0] != '\n');
        assert forall|i: int| 0 <= i < n - 1 implies #[trigger] rest[i] != '\n' by {
            assert(rest[i] == s[i + 1]);
        }
        lemma_length_of_line(rest, n - 1);
    }
}

/// The lines of a piece of text: what stands before the first line end is the first, without a
/// carriage return at its end, and the lines of the rest follow. What stands behind the last line
/// end is a line where it is not empty.
pub proof fn law_lines_stand_between_line_ends(line: Text, rest: Text)
    requires
        forall|i: int| 0 <= i < line.len() ==> #[trigger] line[i] != '\n',
    ensures
        lines_of(Seq::empty()).len() == 0,
        line.len() > 0 ==> lines_of(line) == seq![line],
        (line.len() == 0 || line.last() != '\r') ==> lines_of(line + seq!['\n'] + rest) == seq![line]
            + lines_of(rest),
        lines_of(line + seq!['\r', '\n'] + rest) == seq![line] + lines_of(rest),
{
    if line.len() > 0 {
        lemma_length_of_line(line, line.len() as int);
    }
    let s = line + seq!['\n'] + rest;
    let n = line.len() as int;
    assert forall|i: int| 0 <= i < n implies #[trigger] s[i] != '\n' by {
        assert(s[i] == line[i]);
    }
    lemma_length_of_line(s, n);
    assert(s.take(n) =~= line);
    assert(s.skip(n + 1) =~= rest);
    let t = line + seq!['\r', '\n'] + rest;
    assert forall|i: int| 0 <= i < n + 1 implies #[trigger] t[i] != '\n' by {
        if i < n {
            assert(t[i] == line[i]);
        }
    }
    lemma_length_of_line(t, n + 1);
    assert(t.take(n + 1) =~= line.push('\r'));
    assert(line.push('\r').drop_last() =~= line);
    assert(t.skip(n + 2) =~= rest);
}

/// Two pieces of text are the same but for case exactly where each character is the same or the
/// two are an ASCII letter in both cases.
pub proof fn law_case_is_that_of_letters(a: char, b: char)
    ensures
        lower(a) == lower(b) <==> a == b || ('A' <= a <= 'Z' && b as int == a as int + 32) || ('A'
            <= b <= 'Z' && a as int == b as int + 32),
{
}

/// White space is what Unicode calls so: the tab, the line ends and what stands between them, the
/// space, the next line, the spaces that do not break, that of Ogham, those of printing, the
/// separators of lines and paragraphs, that of mathematics and the ideographic one.
pub proof fn law_white_space_is_that_of_unicode(c: char)
    ensures
        is_space(c) <==> c == '\t' || c == '\n' || c == '\u{b}' || c == '\u{c}' || c == '\r' || c
            == ' ' || c == '\u{85}' || c == '\u{a0}' || c == '\u{1680}' || '\u{2000}' <= c
            <= '\u{200a}' || c == '\u{2028}' || c == '\u{2029}' || c == '\u{202f}' || c == '\u{205f}'
            || c == '\u{3000}',
        is_digit(c) <==> '0' <= c <= '9',
        is_letter(c) <==> 'a' <= c <= 'z' || 'A' <= c <= 'Z',
{
}

} // verus!
