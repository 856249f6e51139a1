//! Text as sequences of characters: trimming, ASCII case, lines and decimal numbers.

use vstd::prelude::*;
use vstd::slice::slice_subrange;

verus! {

/// `String::push` appends one character to the end of the string.
pub assume_specification[ String::push ](s: &mut String, c: char)
    ensures
        final(s)@ == old(s)@.push(c),
;

// ---------------------------------------------------------------------------
// Leading and trailing runs
// ---------------------------------------------------------------------------
/// The length of the longest prefix of `s` whose elements all satisfy `p`.
pub open spec fn span<T>(s: Seq<T>, p: spec_fn(T) -> bool) -> nat
    decreases s.len(),
{
    if s.len() > 0 && p(s[0]) {
        1 + span(s.drop_first(), p)
    } else {
        0
    }
}

/// The length of the longest suffix of `s` whose elements all satisfy `p`.
pub open spec fn back_span<T>(s: Seq<T>, p: spec_fn(T) -> bool) -> nat
    decreases s.len(),
{
    if s.len() > 0 && p(s.last()) {
        1 + back_span(s.drop_last(), p)
    } else {
        0
    }
}

/// `span` counts exactly the elements before the first one that fails `p`.
pub proof fn lemma_span<T>(s: Seq<T>, p: spec_fn(T) -> bool)
    ensures
        span(s, p) <= s.len(),
        forall|i: int| 0 <= i < span(s, p) ==> p(#[trigger] s[i]),
        span(s, p) < s.len() ==> !p(s[span(s, p) as int]),
    decreases s.len(),
{
    if s.len() > 0 && p(s[0]) {
        let rest = s.drop_first();
        lemma_span(rest, p);
        assert forall|i: int| 0 <= i < span(s, p) implies p(#[trigger] s[i]) by {
            if i > 0 {
                assert(rest[i - 1] == s[i]);
            }
        }
    }
}

/// A prefix of elements that satisfy `p`, ended by one that does not, is as long as `span`.
pub proof fn lemma_span_is<T>(s: Seq<T>, p: spec_fn(T) -> bool, k: nat)
    requires
        k <= s.len(),
        forall|i: int| 0 <= i < k ==> p(#[trigger] s[i]),
        k == s.len() || !p(s[k as int]),
    ensures
        span(s, p) == k,
{
    lemma_span(s, p);
    let n = span(s, p);
    if n < k {
        assert(p(s[n as int]));
    }
    if k < n {
        assert(p(s[k as int]));
    }
}

/// `back_span` counts exactly the elements after the last one that fails `p`.
pub proof fn lemma_back_span<T>(s: Seq<T>, p: spec_fn(T) -> bool)
    ensures
        back_span(s, p) <= s.len(),
        forall|i: int| s.len() - back_span(s, p) <= i < s.len() ==> p(#[trigger] s[i]),
        back_span(s, p) < s.len() ==> !p(s[s.len() - back_span(s, p) - 1]),
    decreases s.len(),
{
    if s.len() > 0 && p(s.last()) {
        lemma_back_span(s.drop_last(), p);
        assert forall|i: int| s.len() - back_span(s, p) <= i < s.len() implies p(
            #[trigger] s[i],
        ) by {
            if i < s.len() - 1 {
                assert(s.drop_last()[i] == s[i]);
            }
        }
    }
}

/// A suffix of elements that satisfy `p`, preceded by one that does not, is as long as
/// `back_span`.
pub proof fn lemma_back_span_is<T>(s: Seq<T>, p: spec_fn(T) -> bool, k: nat)
    requires
        k <= s.len(),
        forall|i: int| s.len() - k <= i < s.len() ==> p(#[trigger] s[i]),
        k == s.len() || !p(s[s.len() - k - 1]),
    ensures
        back_span(s, p) == k,
{
    lemma_back_span(s, p);
    let n = back_span(s, p);
    if n < k {
        assert(p(s[s.len() - n - 1]));
    }
    if k < n {
        assert(p(s[s.len() - k - 1]));
    }
}

/// `s` without its longest prefix and then its longest suffix of elements that satisfy `p`.
pub open spec fn trim_while<T>(s: Seq<T>, p: spec_fn(T) -> bool) -> Seq<T> {
    trim_end_while(trim_start_while(s, p), p)
}

/// `s` without its longest prefix of elements that satisfy `p`.
pub open spec fn trim_start_while<T>(s: Seq<T>, p: spec_fn(T) -> bool) -> Seq<T> {
    s.skip(span(s, p) as int)
}

/// `s` without its longest suffix of elements that satisfy `p`.
pub open spec fn trim_end_while<T>(s: Seq<T>, p: spec_fn(T) -> bool) -> Seq<T> {
    s.take(s.len() - back_span(s, p))
}

/// Trimming leaves a sequence alone whose first and last elements do not satisfy `p`.
pub proof fn lemma_trim_while_clean<T>(s: Seq<T>, p: spec_fn(T) -> bool)
    requires
        s.len() > 0 ==> !p(s[0]) && !p(s.last()),
    ensures
        trim_while(s, p) == s,
{
    lemma_span_is(s, p, 0);
    assert(trim_start_while(s, p) =~= s);
    lemma_back_span_is(s, p, 0);
    assert(trim_end_while(s, p) =~= s);
}

// ---------------------------------------------------------------------------
// Characters
// ---------------------------------------------------------------------------
/// The characters with the Unicode property `White_Space`.
pub open spec fn is_white_space(c: char) -> bool {
    ||| '\u{9}' <= c <= '\u{d}'
    ||| c == ' '
    ||| c == '\u{85}'
    ||| c == '\u{a0}'
    ||| c == '\u{1680}'
    ||| '\u{2000}' <= c <= '\u{200a}'
    ||| c == '\u{2028}'
    ||| c == '\u{2029}'
    ||| c == '\u{202f}'
    ||| c == '\u{205f}'
    ||| c == '\u{3000}'
}

/// Whether `c` has the Unicode property `White_Space`.
pub fn white_space(c: char) -> (b: bool)
    ensures
        b == is_white_space(c),
{
    ('\u{9}' <= c && c <= '\u{d}') || c == ' ' || c == '\u{85}' || c == '\u{a0}' || c == '\u{1680}'
        || ('\u{2000}' <= c && c <= '\u{200a}') || c == '\u{2028}' || c == '\u{2029}' || c
        == '\u{202f}' || c == '\u{205f}' || c == '\u{3000}'
}

/// The predicate "is white space".
pub open spec fn white() -> spec_fn(char) -> bool {
    |c: char| is_white_space(c)
}

/// The predicate "is not white space".
pub open spec fn not_white() -> spec_fn(char) -> bool {
    |c: char| !is_white_space(c)
}

/// The predicate "is `d`".
pub open spec fn is_char(d: char) -> spec_fn(char) -> bool {
    |c: char| c == d
}

/// The predicate "is not `d`".
pub open spec fn is_not_char(d: char) -> spec_fn(char) -> bool {
    |c: char| c != d
}

/// `c` with an ASCII upper-case letter made lower case.
pub open spec fn lower_char(c: char) -> char {
    if 'A' <= c <= 'Z' {
        ((c as u8 + 32) as u8) as char
    } else {
        c
    }
}

/// Makes an ASCII upper-case letter lower case.
pub fn to_lower_char(c: char) -> (r: char)
    ensures
        r == lower_char(c),
{
    if 'A' <= c && c <= 'Z' {
        (c as u8 + 32) as char
    } else {
        c
    }
}

/// An ASCII letter or digit.
pub open spec fn is_ascii_alphanumeric(c: char) -> bool {
    'a' <= c <= 'z' || 'A' <= c <= 'Z' || '0' <= c <= '9'
}

/// The predicate "is an ASCII letter or digit".
pub open spec fn alphanumeric() -> spec_fn(char) -> bool {
    |c: char| is_ascii_alphanumeric(c)
}

/// Whether `c` is an ASCII letter or digit.
pub fn ascii_alphanumeric(c: char) -> (b: bool)
    ensures
        b == is_ascii_alphanumeric(c),
{
    ('a' <= c && c <= 'z') || ('A' <= c && c <= 'Z') || ('0' <= c && c <= '9')
}

// ---------------------------------------------------------------------------
// Strings
// ---------------------------------------------------------------------------
/// `s` without the white space at its ends.
pub open spec fn trim(s: Seq<char>) -> Seq<char> {
    trim_while(s, white())
}

/// `s` without the double quotes at its ends.
pub open spec fn trim_quotes(s: Seq<char>) -> Seq<char> {
    trim_while(s, is_char('"'))
}

/// `s` with its ASCII upper-case letters made lower case.
pub open spec fn lower(s: Seq<char>) -> Seq<char> {
    Seq::new(s.len(), |i: int| lower_char(s[i]))
}

/// `s` with every `from` turned into `to`.
pub open spec fn replace_char(s: Seq<char>, from: char, to: char) -> Seq<char> {
    Seq::new(
        s.len(),
        |i: int|
            if s[i] == from {
                to
            } else {
                s[i]
            },
    )
}

/// Whether `suffix` ends `s`.
pub open spec fn ends_with(s: Seq<char>, suffix: Seq<char>) -> bool {
    suffix.len() <= s.len() && s.skip(s.len() - suffix.len()) == suffix
}

/// Whether `prefix` starts `s`.
pub open spec fn starts_with(s: Seq<char>, prefix: Seq<char>) -> bool {
    prefix.len() <= s.len() && s.take(prefix.len() as int) == prefix
}

/// `s` without `suffix` where `suffix` ends it, else `s` as it is.
pub open spec fn without_suffix(s: Seq<char>, suffix: Seq<char>) -> Seq<char> {
    if ends_with(s, suffix) {
        s.take(s.len() - suffix.len())
    } else {
        s
    }
}

/// Whether `part` stands in `s` at position `i`.
pub open spec fn stands_at(s: Seq<char>, part: Seq<char>, i: int) -> bool {
    0 <= i && i + part.len() <= s.len() && s.subrange(i, i + part.len()) == part
}

/// Whether `part` stands somewhere in `s`.
pub open spec fn contains_text(s: Seq<char>, part: Seq<char>) -> bool {
    exists|i: int| stands_at(s, part, i)
}

/// The text inside an optional string.
pub open spec fn opt_view(o: Option<String>) -> Option<Seq<char>> {
    match o {
        Some(s) => Some(s@),
        None => None,
    }
}

/// The text inside an optional string slice.
pub open spec fn opt_str_view(o: Option<&str>) -> Option<Seq<char>> {
    match o {
        Some(s) => Some(s@),
        None => None,
    }
}

/// The texts that a vector of strings holds.
pub open spec fn views(v: Seq<String>) -> Seq<Seq<char>> {
    v.map_values(|s: String| s@)
}

/// The characters of `s`.
pub fn chars_of(s: &str) -> (v: Vec<char>)
    ensures
        v@ == s@,
{
    let mut v: Vec<char> = Vec::new();
    for c in it: s.chars()
        invariant
            it.seq() == s@,
            v@ == s@.take(it.index() as int),
    {
        v.push(c);
    }
    assert(v@ =~= s@);
    v
}

/// The string with the characters `v`.
pub fn string_of(v: &[char]) -> (s: String)
    ensures
        s@ == v@,
{
    let mut s: String = String::new();
    let mut i: usize = 0;
    while i < v.len()
        invariant
            i <= v@.len(),
            s@ == v@.take(i as int),
        decreases v@.len() - i,
    {
        s.push(v[i]);
        i = i + 1;
        assert(s@ =~= v@.take(i as int));
    }
    assert(s@ =~= v@);
    s
}

/// Whether two texts are the same.
pub fn same_chars(a: &[char], b: &[char]) -> (r: bool)
    ensures
        r == (a@ == b@),
{
    if a.len() != b.len() {
        return false;
    }
    let mut i: usize = 0;
    while i < a.len()
        invariant
            a@.len() == b@.len(),
            i <= a@.len(),
            forall|j: int| 0 <= j < i ==> a@[j] == b@[j],
        decreases a@.len() - i,
    {
        if a[i] != b[i] {
            return false;
        }
        i = i + 1;
    }
    assert(a@ =~= b@);
    true
}

/// Drops the white space at the start of `s`.
pub fn trim_white_start(s: &[char]) -> (r: &[char])
    ensures
        r@ == trim_start_while(s@, white()),
{
    let mut i: usize = 0;
    while i < s.len() && white_space(s[i])
        invariant
            i <= s@.len(),
            forall|j: int| 0 <= j < i ==> white()(#[trigger] s@[j]),
        decreases s@.len() - i,
    {
        i = i + 1;
    }
    proof {
        lemma_span_is(s@, white(), i as nat);
    }
    let r = slice_subrange(s, i, s.len());
    assert(r@ =~= s@.skip(i as int));
    r
}

/// Drops the white space at both ends of `s`.
pub fn trim_white(s: &[char]) -> (r: &[char])
    ensures
        r@ == trim(s@),
{
    let a = trim_white_start(s);
    let mut n: usize = a.len();
    while n > 0 && white_space(a[n - 1])
        invariant
            n <= a@.len(),
            forall|j: int| n <= j < a@.len() ==> white()(#[trigger] a@[j]),
        decreases n,
    {
        n = n - 1;
    }
    proof {
        lemma_back_span_is(a@, white(), (a@.len() - n) as nat);
    }
    let r = slice_subrange(a, 0, n);
    assert(r@ =~= a@.take(n as int));
    r
}

/// Drops the double quotes at both ends of `s`.
pub fn trim_double_quotes(s: &[char]) -> (r: &[char])
    ensures
        r@ == trim_quotes(s@),
{
    let ghost p = is_char('"');
    let mut i: usize = 0;
    while i < s.len() && s[i] == '"'
        invariant
            p == is_char('"'),
            i <= s@.len(),
            forall|j: int| 0 <= j < i ==> p(#[trigger] s@[j]),
        decreases s@.len() - i,
    {
        i = i + 1;
    }
    proof {
        lemma_span_is(s@, p, i as nat);
    }
    let a = slice_subrange(s, i, s.len());
    assert(a@ =~= s@.skip(i as int));
    let mut n: usize = a.len();
    while n > 0 && a[n - 1] == '"'
        invariant
            p == is_char('"'),
            n <= a@.len(),
            forall|j: int| n <= j < a@.len() ==> p(#[trigger] a@[j]),
        decreases n,
    {
        n = n - 1;
    }
    proof {
        lemma_back_span_is(a@, p, (a@.len() - n) as nat);
    }
    let r = slice_subrange(a, 0, n);
    assert(r@ =~= a@.take(n as int));
    r
}

/// Makes the ASCII upper-case letters of `s` lower case.
pub fn lower_chars(s: &[char]) -> (r: Vec<char>)
    ensures
        r@ == lower(s@),
{
    let mut r: Vec<char> = Vec::new();
    let mut i: usize = 0;
    while i < s.len()
        invariant
            i <= s@.len(),
            r@.len() == i,
            forall|j: int| 0 <= j < i ==> r@[j] == lower_char(s@[j]),
        decreases s@.len() - i,
    {
        r.push(to_lower_char(s[i]));
        i = i + 1;
    }
    assert(r@ =~= lower(s@));
    r
}

/// Turns every `from` in `s` into `to`.
pub fn replace_chars(s: &[char], from: char, to: char) -> (r: Vec<char>)
    ensures
        r@ == replace_char(s@, from, to),
{
    let mut r: Vec<char> = Vec::new();
    let mut i: usize = 0;
    while i < s.len()
        invariant
            i <= s@.len(),
            r@.len() == i,
            forall|j: int| 0 <= j < i ==> r@[j] == replace_char(s@, from, to)[j],
        decreases s@.len() - i,
    {
        if s[i] == from {
            r.push(to);
        } else {
            r.push(s[i]);
        }
        i = i + 1;
    }
    assert(r@ =~= replace_char(s@, from, to));
    r
}

/// Whether `c` occurs in `s`.
pub fn has_char(s: &[char], c: char) -> (r: bool)
    ensures
        r == s@.contains(c),
{
    let mut i: usize = 0;
    while i < s.len()
        invariant
            i <= s@.len(),
            forall|j: int| 0 <= j < i ==> s@[j] != c,
        decreases s@.len() - i,
    {
        if s[i] == c {
            return true;
        }
        i = i + 1;
    }
    false
}

/// Whether `suffix` ends `s`.
pub fn has_suffix(s: &[char], suffix: &[char]) -> (r: bool)
    ensures
        r == ends_with(s@, suffix@),
{
    if s.len() < suffix.len() {
        return false;
    }
    let tail = slice_subrange(s, s.len() - suffix.len(), s.len());
    assert(tail@ =~= s@.skip(s@.len() - suffix@.len()));
    same_chars(tail, suffix)
}

/// Whether `prefix` starts `s`.
pub fn has_prefix(s: &[char], prefix: &[char]) -> (r: bool)
    ensures
        r == starts_with(s@, prefix@),
{
    if s.len() < prefix.len() {
        return false;
    }
    let head = slice_subrange(s, 0, prefix.len());
    assert(head@ =~= s@.take(prefix@.len() as int));
    same_chars(head, prefix)
}

/// Drops `suffix` from the end of `s` where it stands there.
pub fn drop_suffix<'a>(s: &'a [char], suffix: &[char]) -> (r: &'a [char])
    ensures
        r@ == without_suffix(s@, suffix@),
{
    if has_suffix(s, suffix) {
        let r = slice_subrange(s, 0, s.len() - suffix.len());
        assert(r@ =~= s@.take(s@.len() - suffix@.len()));
        r
    } else {
        s
    }
}

/// Whether `part` stands somewhere in `s`.
pub fn has_text(s: &[char], part: &[char]) -> (r: bool)
    ensures
        r == contains_text(s@, part@),
{
    if s.len() < part.len() {
        return false;
    }
    let last: usize = s.len() - part.len();
    let mut i: usize = 0;
    while i < last
        invariant
            last == s.len() - part.len(),
            i <= last,
            forall|j: int| 0 <= j < i ==> !stands_at(s@, part@, j),
        decreases last - i,
    {
        if same_chars(slice_subrange(s, i, i + part.len()), part) {
            assert(stands_at(s@, part@, i as int));
            return true;
        }
        i = i + 1;
    }
    let found = same_chars(slice_subrange(s, last, s.len()), part);
    assert(found == stands_at(s@, part@, last as int));
    found
}

// ---------------------------------------------------------------------------
// Lines
// ---------------------------------------------------------------------------
/// A line as it stands before its line feed, without a carriage return at its end.
pub open spec fn without_carriage_return(s: Seq<char>) -> Seq<char> {
    if s.len() > 0 && s.last() == '\r' {
        s.drop_last()
    } else {
        s
    }
}

/// The lines of `s`. A line ends with a line feed, which a carriage return may precede; the end
/// of the text ends the last line. What follows the last line feed is a line only where it is
/// not empty.
pub open spec fn lines(s: Seq<char>) -> Seq<Seq<char>>
    decreases s.len(),
{
    if s.len() == 0 {
        Seq::empty()
    } else {
        let n = span(s, is_not_char('\n'));
        if n < s.len() {
            seq![without_carriage_return(s.take(n as int))] + lines(s.skip(n as int + 1))
        } else {
            seq![s]
        }
    }
}

/// Splits `s` into its lines.
pub fn lines_of(s: &str) -> (r: Vec<String>)
    ensures
        views(r@) == lines(s@),
{
    let all = chars_of(s);
    let mut r: Vec<String> = Vec::new();
    let mut start: usize = 0;
    let ghost p = is_not_char('\n');
    assert(all@.skip(0) =~= all@);
    assert(views(r@) + lines(all@) =~= lines(all@));
    while start < all.len()
        invariant
            p == is_not_char('\n'),
            start <= all@.len(),
            views(r@) + lines(all@.skip(start as int)) == lines(all@),
        decreases all@.len() - start,
    {
        let ghost rest = all@.skip(start as int);
        let mut end: usize = start;
        while end < all.len() && all[end] != '\n'
            invariant
                p == is_not_char('\n'),
                start <= end <= all@.len(),
                rest == all@.skip(start as int),
                forall|j: int| 0 <= j < end - start ==> p(#[trigger] rest[j]),
            decreases all@.len() - end,
        {
            end = end + 1;
        }
        proof {
            lemma_span_is(rest, p, (end - start) as nat);
        }
        let ghost before = views(r@);
        if end < all.len() {
            let mut stop: usize = end;
            if end > start && all[end - 1] == '\r' {
                stop = end - 1;
            }
            let line = string_of(slice_subrange(all.as_slice(), start, stop));
            assert(line@ =~= without_carriage_return(rest.take(end - start)));
            r.push(line);
            assert(views(r@) =~= before.push(line@));
            assert(rest.skip(end - start + 1) =~= all@.skip(end + 1));
            start = end + 1;
        } else {
            let line = string_of(slice_subrange(all.as_slice(), start, end));
            assert(line@ =~= rest);
            r.push(line);
            assert(views(r@) =~= before.push(line@));
            assert(all@.skip(end as int) =~= Seq::<char>::empty());
            start = end;
        }
        assert(views(r@) + lines(all@.skip(start as int)) =~= before + lines(rest));
    }
    assert(all@.skip(start as int) =~= Seq::<char>::empty());
    assert(views(r@) =~= lines(all@));
    r
}

// ---------------------------------------------------------------------------
// Decimal numbers
// ---------------------------------------------------------------------------
/// The character of one decimal digit.
pub open spec fn digit(d: nat) -> char {
    ((48 + d) as u8) as char
}

/// `n` in decimal digits, without leading zeros.
pub open spec fn decimal(n: nat) -> Seq<char>
    decreases n,
{
    if n < 10 {
        seq![digit(n)]
    } else {
        decimal(n / 10).push(digit(n % 10))
    }
}

/// `n` in decimal digits, with a minus sign where it is negative.
pub open spec fn signed_decimal(n: int) -> Seq<char> {
    if n < 0 {
        seq!['-'] + decimal((-n) as nat)
    } else {
        decimal(n as nat)
    }
}

/// Writes `n` in decimal digits at the end of `s`.
pub fn push_decimal(s: &mut String, n: u32)
    ensures
        final(s)@ == old(s)@ + decimal(n as nat),
    decreases n,
{
    if n >= 10 {
        push_decimal(s, n / 10);
    }
    let d: u8 = (n % 10) as u8;
    s.push((48 + d) as char);
    assert(s@ =~= old(s)@ + decimal(n as nat));
}

/// Writes `n` at the end of `s`, with a minus sign where it is negative.
pub fn push_signed_decimal(s: &mut String, n: i32)
    ensures
        final(s)@ == old(s)@ + signed_decimal(n as int),
{
    if n < 0 {
        s.push('-');
        let magnitude: u32 = (0 - n as i64) as u32;
        push_decimal(s, magnitude);
        assert(s@ =~= old(s)@ + signed_decimal(n as int));
    } else {
        push_decimal(s, n as u32);
    }
}

} // verus!
