//! What holds of texts: trimming, case, suffixes, lines and numbers.

use vstd::prelude::*;

use crate::text;

verus! {

// ---------------------------------------------------------------------------
// Trimming
// ---------------------------------------------------------------------------
/// Trimming takes off all that satisfies `p` at both ends, and nothing else: what is left is the
/// part between the longest such ends.
pub proof fn trimming_takes_off_both_ends<T>(
    front: Seq<T>,
    core: Seq<T>,
    back: Seq<T>,
    p: spec_fn(T) -> bool,
)
    requires
        forall|i: int| 0 <= i < front.len() ==> p(#[trigger] front[i]),
        forall|i: int| 0 <= i < back.len() ==> p(#[trigger] back[i]),
        core.len() > 0 ==> !p(core[0]) && !p(core.last()),
    ensures
        text::trim_while(front + core + back, p) == core,
        core.len() > 0 ==> text::trim_start_while(front + core + back, p) == core + back,
        text::trim_start_while(front, p) == Seq::<T>::empty(),
{
    let s = front + core + back;
    text::lemma_span_is(front, p, front.len());
    assert(text::trim_start_while(front, p) =~= Seq::<T>::empty());
    if core.len() > 0 {
        assert forall|i: int| 0 <= i < front.len() implies p(#[trigger] s[i]) by {
            assert(s[i] == front[i]);
        }
        assert(s[front.len() as int] == core[0]);
        text::lemma_span_is(s, p, front.len());
        let a = text::trim_start_while(s, p);
        assert(a =~= core + back);
        assert forall|i: int| a.len() - back.len() <= i < a.len() implies p(#[trigger] a[i]) by {
            assert(a[i] == back[i - core.len()]);
        }
        assert(a[a.len() - back.len() - 1] == core.last());
        text::lemma_back_span_is(a, p, back.len());
        assert(text::trim_end_while(a, p) =~= core);
    } else {
        assert forall|i: int| 0 <= i < s.len() implies p(#[trigger] s[i]) by {
            if i < front.len() {
                assert(s[i] == front[i]);
            } else {
                assert(s[i] == back[i - front.len()]);
            }
        }
        text::lemma_span_is(s, p, s.len());
        let a = text::trim_start_while(s, p);
        assert(a =~= Seq::<T>::empty());
        assert(text::trim_end_while(a, p) =~= core);
    }
}

/// Trimming a text takes off white space, and trimming quotes takes off double quotes, at both ends.
pub proof fn texts_lose_white_space_or_quotes(front: Seq<char>, core: Seq<char>, back: Seq<char>)
    ensures
        (forall|i: int| 0 <= i < front.len() ==> text::is_white_space(#[trigger] front[i])) && (forall|
            i: int,
        |
            0 <= i < back.len() ==> text::is_white_space(#[trigger] back[i])) && (core.len() > 0
            ==> !text::is_white_space(core[0]) && !text::is_white_space(core.last()))
            ==> text::trim(front + core + back) == core,
        (forall|i: int| 0 <= i < front.len() ==> #[trigger] front[i] == '"') && (forall|i: int|
            0 <= i < back.len() ==> #[trigger] back[i] == '"') && (core.len() > 0 ==> core[0] != '"'
            && core.last() != '"') ==> text::trim_quotes(front + core + back) == core,
{
    let white = text::white();
    let quote = text::is_char('"');
    if (forall|i: int| 0 <= i < front.len() ==> text::is_white_space(#[trigger] front[i])) && (forall|
        i: int,
    |
        0 <= i < back.len() ==> text::is_white_space(#[trigger] back[i])) && (core.len() > 0
        ==> !text::is_white_space(core[0]) && !text::is_white_space(core.last())) {
        trimming_takes_off_both_ends(front, core, back, white);
    }
    if (forall|i: int| 0 <= i < front.len() ==> #[trigger] front[i] == '"') && (forall|i: int|
        0 <= i < back.len() ==> #[trigger] back[i] == '"') && (core.len() > 0 ==> core[0] != '"'
        && core.last() != '"') {
        trimming_takes_off_both_ends(front, core, back, quote);
    }
}

// ---------------------------------------------------------------------------
// Case and characters
// ---------------------------------------------------------------------------
/// Lower case keeps every character where it stands, and changes the letters `A` to `Z` alone, each
/// to the letter 32 codes further.
pub proof fn lower_case_changes_ascii_letters_alone(s: Seq<char>)
    ensures
        text::lower(s).len() == s.len(),
        forall|i: int|
            0 <= i < s.len() ==> if 'A' <= #[trigger] s[i] <= 'Z' {
                text::lower(s)[i] as u32 == s[i] as u32 + 32
            } else {
                text::lower(s)[i] == s[i]
            },
{
}

/// Replacing keeps every character where it stands but the one that is replaced.
pub proof fn replacing_changes_one_character_alone(s: Seq<char>, from: char, to: char)
    ensures
        text::replace_char(s, from, to).len() == s.len(),
        forall|i: int|
            0 <= i < s.len() ==> text::replace_char(s, from, to)[i] == (if #[trigger] s[i] == from {
                to
            } else {
                s[i]
            }),
{
}

/// The texts of strings are those strings' texts, one for one.
pub proof fn views_are_one_for_one(v: Seq<String>)
    ensures
        text::views(v).len() == v.len(),
        forall|i: int| 0 <= i < v.len() ==> text::views(v)[i] == (#[trigger] v[i])@,
{
}

/// The text of an optional string is there where the string is.
pub proof fn optional_texts_are_there_where_the_strings_are(s: String, t: &str)
    ensures
        text::opt_view(Some(s)) == Some(s@),
        text::opt_view(None) is None,
        text::opt_str_view(Some(t)) == Some(t@),
        text::opt_str_view(None) is None,
{
}

// ---------------------------------------------------------------------------
// Parts
// ---------------------------------------------------------------------------
/// A text ends with a suffix exactly where it is something with the suffix behind it, and starts
/// with a prefix exactly where it is the prefix with something behind it.
pub proof fn ends_and_starts_are_parts(s: Seq<char>, part: Seq<char>)
    ensures
        text::ends_with(s, part) <==> exists|rest: Seq<char>| s == #[trigger] (rest + part),
        text::starts_with(s, part) <==> exists|rest: Seq<char>| s == #[trigger] (part + rest),
{
    if text::ends_with(s, part) {
        let rest = s.take(s.len() - part.len());
        assert(s =~= rest + s.skip(s.len() - part.len()));
        assert(s == rest + part);
    }
    if exists|rest: Seq<char>| s == #[trigger] (rest + part) {
        let rest = choose|rest: Seq<char>| s == #[trigger] (rest + part);
        assert(s.skip(s.len() - part.len()) =~= part);
    }
    if text::starts_with(s, part) {
        let rest = s.skip(part.len() as int);
        assert(s =~= s.take(part.len() as int) + rest);
        assert(s == part + rest);
    }
    if exists|rest: Seq<char>| s == #[trigger] (part + rest) {
        let rest = choose|rest: Seq<char>| s == #[trigger] (part + rest);
        assert(s.take(part.len() as int) =~= part);
    }
}

/// Taking a suffix off gives back what it stood behind, and changes nothing where it does not stand
/// at the end.
pub proof fn a_suffix_is_taken_off_once(s: Seq<char>, suffix: Seq<char>)
    ensures
        text::without_suffix(s + suffix, suffix) == s,
        (forall|rest: Seq<char>| s != #[trigger] (rest + suffix)) ==> text::without_suffix(s, suffix)
            == s,
{
    ends_and_starts_are_parts(s + suffix, suffix);
    ends_and_starts_are_parts(s, suffix);
    assert((s + suffix).take((s + suffix).len() - suffix.len()) =~= s);
}

/// A part stands in a text exactly where the text is something, the part, and something again.
pub proof fn a_contained_text_stands_between(s: Seq<char>, part: Seq<char>)
    ensures
        text::contains_text(s, part) <==> exists|a: Seq<char>, b: Seq<char>|
            s == #[trigger] (a + part + b),
{
    if text::contains_text(s, part) {
        let i = choose|i: int| text::stands_at(s, part, i);
        let a = s.take(i);
        let b = s.skip(i + part.len());
        assert(s =~= a + s.subrange(i, i + part.len()) + b);
        assert(s == a + part + b);
    }
    if exists|a: Seq<char>, b: Seq<char>| s == #[trigger] (a + part + b) {
        let (a, b) = choose|a: Seq<char>, b: Seq<char>| s == #[trigger] (a + part + b);
        assert(s.subrange(a.len() as int, a.len() as int + part.len()) =~= part);
        assert(text::stands_at(s, part, a.len() as int));
    }
}

// ---------------------------------------------------------------------------
// Lines
// ---------------------------------------------------------------------------
/// A line feed ends a line, and one carriage return before it belongs to that end. The lines behind
/// it are those of the rest. A text without a line feed is one line, or none where it is empty.
pub proof fn lines_end_at_line_feeds(line: Seq<char>, rest: Seq<char>)
    requires
        !line.contains('\n'),
    ensures
        line.len() == 0 || line.last() != '\r' ==> text::lines(line + seq!['\n'] + rest) == seq![line]
            + text::lines(rest),
        text::lines(line + seq!['\r', '\n'] + rest) == seq![line] + text::lines(rest),
        line.len() > 0 ==> text::lines(line) == seq![line],
        text::lines(Seq::empty()) == Seq::<Seq<char>>::empty(),
{
    let p = text::is_not_char('\n');
    assert forall|i: int| 0 <= i < line.len() implies p(#[trigger] line[i]) by {
        if line[i] == '\n' {
            assert(line.contains('\n'));
        }
    }
    text::lemma_span_is(line, p, line.len());
    let a = line + seq!['\n'] + rest;
    assert forall|i: int| 0 <= i < line.len() implies p(#[trigger] a[i]) by {
        assert(a[i] == line[i]);
    }
    assert(a[line.len() as int] == '\n');
    text::lemma_span_is(a, p, line.len());
    assert(a.take(line.len() as int) =~= line);
    assert(a.skip(line.len() as int + 1) =~= rest);
    let b = line + seq!['\r', '\n'] + rest;
    assert forall|i: int| 0 <= i < line.len() + 1 implies p(#[trigger] b[i]) by {
        if i < line.len() {
            assert(b[i] == line[i]);
        } else {
            assert(b[i] == '\r');
        }
    }
    assert(b[line.len() as int + 1] == '\n');
    text::lemma_span_is(b, p, line.len() + 1);
    assert(b.take(line.len() as int + 1) =~= line.push('\r'));
    assert(line.push('\r').drop_last() =~= line);
    assert(b.skip(line.len() as int + 2) =~= rest);
}

/// What follows a line feed does not change the lines before it.
pub proof fn lines_go_on_after_a_line_feed(head: Seq<char>, rest: Seq<char>)
    requires
        head.len() == 0 || head.last() == '\n',
    ensures
        text::lines(head + rest) == text::lines(head) + text::lines(rest),
    decreases head.len(),
{
    if head.len() == 0 {
        assert(head + rest =~= rest);
        assert(text::lines(head) + text::lines(rest) =~= text::lines(rest));
    } else {
        let p = text::is_not_char('\n');
        text::lemma_span(head, p);
        let n = text::span(head, p);
        if n == head.len() {
            assert(p(head[head.len() - 1]));
        }
        let whole = head + rest;
        assert forall|i: int| 0 <= i < n implies p(#[trigger] whole[i]) by {
            assert(p(head[i]));
        }
        assert(whole[n as int] == head[n as int]);
        text::lemma_span_is(whole, p, n);
        let next = head.skip(n as int + 1);
        assert(whole.skip(n as int + 1) =~= next + rest);
        assert(whole.take(n as int) =~= head.take(n as int));
        if next.len() > 0 {
            assert(next.last() == head.last());
        }
        lines_go_on_after_a_line_feed(next, rest);
        assert(text::lines(whole) =~= text::lines(head) + text::lines(rest));
    }
}

// ---------------------------------------------------------------------------
// Numbers
// ---------------------------------------------------------------------------
/// The number that decimal digits stand for.
pub open spec fn value_of(digits: Seq<char>) -> int
    decreases digits.len(),
{
    if digits.len() == 0 {
        0
    } else {
        10 * value_of(digits.drop_last()) + (digits.last() as u32 - '0' as u32)
    }
}

/// A number is written in digits that stand for it, with no zero in front of others.
pub proof fn decimal_digits_stand_for_the_number(n: nat)
    ensures
        value_of(text::decimal(n)) == n,
        text::decimal(n).len() > 0,
        forall|i: int|
            0 <= i < text::decimal(n).len() ==> '0' <= #[trigger] text::decimal(n)[i] <= '9',
        text::decimal(n)[0] == '0' ==> n == 0 && text::decimal(n).len() == 1,
    decreases n,
{
    reveal_with_fuel(value_of, 2);
    if n >= 10 {
        decimal_digits_stand_for_the_number(n / 10);
        let head = text::decimal(n / 10);
        let all = text::decimal(n);
        assert(all.drop_last() =~= head);
        assert(all[0] == head[0]);
        assert(n == 10 * (n / 10) + n % 10);
    } else {
        let all = text::decimal(n);
        assert(all.drop_last() =~= Seq::<char>::empty());
    }
}

/// A negative number has a minus sign before the digits of its opposite, any other number is its
/// digits.
pub proof fn a_minus_sign_marks_negative_numbers(n: int)
    ensures
        n < 0 ==> text::signed_decimal(n).len() > 1 && text::signed_decimal(n)[0] == '-' && value_of(
            text::signed_decimal(n).skip(1),
        ) == -n,
        n >= 0 ==> text::signed_decimal(n)[0] != '-' && value_of(text::signed_decimal(n)) == n,
{
    if n < 0 {
        decimal_digits_stand_for_the_number((-n) as nat);
        assert(text::signed_decimal(n).skip(1) =~= text::decimal((-n) as nat));
    } else {
        decimal_digits_stand_for_the_number(n as nat);
    }
}

} // verus!
