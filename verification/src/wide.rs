//! Wide strings: UTF-16 code units as Windows passes them.

use vstd::prelude::*;
use vstd::slice::slice_subrange;

use crate::text;
use crate::text::chars_of;

verus! {

/// `char::from_u32` gives the character with the code point `i`. There is one unless `i` is a
/// surrogate or above `0x10ffff`.
pub assume_specification[ char::from_u32 ](i: u32) -> (r: Option<char>)
    ensures
        r is Some <==> (i < 0xd800 || 0xe000 <= i <= 0x10ffff),
        r matches Some(c) ==> c as u32 == i,
;

/// The first unit of a surrogate pair.
pub open spec fn is_high_surrogate(u: u16) -> bool {
    0xd800 <= u <= 0xdbff
}

/// The second unit of a surrogate pair.
pub open spec fn is_low_surrogate(u: u16) -> bool {
    0xdc00 <= u <= 0xdfff
}

/// The character that a surrogate pair stands for.
pub open spec fn pair_char(high: u16, low: u16) -> char {
    (0x10000 + (high - 0xd800) * 0x400 + (low - 0xdc00)) as char
}

/// The text of a sequence of UTF-16 units, with U+FFFD in place of every surrogate that is not
/// part of a pair.
pub open spec fn decode_wide(s: Seq<u16>) -> Seq<char>
    decreases s.len(),
{
    if s.len() == 0 {
        Seq::empty()
    } else if is_high_surrogate(s[0]) && s.len() > 1 && is_low_surrogate(s[1]) {
        seq![pair_char(s[0], s[1])] + decode_wide(s.skip(2))
    } else if is_high_surrogate(s[0]) || is_low_surrogate(s[0]) {
        seq!['\u{fffd}'] + decode_wide(s.skip(1))
    } else {
        seq![s[0] as char] + decode_wide(s.skip(1))
    }
}

/// The UTF-16 units of one character.
pub open spec fn encode_wide_char(c: char) -> Seq<u16> {
    if (c as u32) < 0x10000 {
        seq![c as u16]
    } else {
        seq![
            (0xd800 + (c as u32 - 0x10000) / 0x400) as u16,
            (0xdc00 + (c as u32 - 0x10000) % 0x400) as u16,
        ]
    }
}

/// The UTF-16 units of a text.
pub open spec fn encode_wide(s: Seq<char>) -> Seq<u16>
    decreases s.len(),
{
    if s.len() == 0 {
        Seq::empty()
    } else {
        encode_wide_char(s[0]) + encode_wide(s.drop_first())
    }
}

/// A character and its code point determine each other.
proof fn lemma_char(c: char, n: u32)
    requires
        n == c as u32,
    ensures
        n < 0xd800 || 0xe000 <= n <= 0x10ffff,
        n as char == c,
        n < 0x10000 ==> n as u16 == c as u16,
{
}

/// The predicate "is not the unit zero".
pub open spec fn not_nul() -> spec_fn(u16) -> bool {
    |u: u16| u != 0
}

/// The units before the first zero, or all of them where none is zero.
pub open spec fn until_nul(s: Seq<u16>) -> Seq<u16> {
    s.take(text::span(s, not_nul()) as int)
}

/// Decodes UTF-16 units, with U+FFFD for what is not valid.
pub fn wide_to_string(v: &[u16]) -> (r: String)
    ensures
        r@ == decode_wide(v@),
{
    let mut r: String = String::new();
    let mut i: usize = 0;
    assert(v@.skip(0) =~= v@);
    assert(r@ + decode_wide(v@) =~= decode_wide(v@));
    while i < v.len()
        invariant
            i <= v@.len(),
            r@ + decode_wide(v@.skip(i as int)) == decode_wide(v@),
        decreases v@.len() - i,
    {
        let ghost rest = v@.skip(i as int);
        let ghost before = r@;
        let u: u16 = v[i];
        let mut c: char = '\u{fffd}';
        let mut step: usize = 1;
        if 0xd800 <= u && u <= 0xdbff {
            if v.len() - i > 1 {
                let w: u16 = v[i + 1];
                if 0xdc00 <= w && w <= 0xdfff {
                    let n: u32 = 0x10000 + (u as u32 - 0xd800) * 0x400 + (w as u32 - 0xdc00);
                    if let Some(d) = char::from_u32(n) {
                        proof {
                            lemma_char(d, n);
                        }
                        c = d;
                    }
                    step = 2;
                }
            }
        } else if !(0xdc00 <= u && u <= 0xdfff) {
            if let Some(d) = char::from_u32(u as u32) {
                proof {
                    lemma_char(d, u as u32);
                }
                c = d;
            }
        }
        r.push(c);
        assert(rest.skip(step as int) =~= v@.skip(i + step));
        assert(rest[0] == u);
        assert(step == 2 ==> rest[1] == v@[i + 1] && c == pair_char(rest[0], rest[1]));
        assert(step == 1 && !is_high_surrogate(u) && !is_low_surrogate(u) ==> c == u as char);
        assert(decode_wide(rest) == seq![c] + decode_wide(rest.skip(step as int)));
        i = i + step;
        assert(r@ + decode_wide(v@.skip(i as int)) =~= before + decode_wide(rest));
    }
    assert(v@.skip(i as int) =~= Seq::<u16>::empty());
    assert(r@ =~= decode_wide(v@));
    r
}

/// Encodes a text in UTF-16 units, with a zero unit after them.
pub fn to_wide_null(value: &str) -> (r: Vec<u16>)
    ensures
        r@ == encode_wide(value@).push(0),
{
    let all = chars_of(value);
    let mut r: Vec<u16> = Vec::new();
    let mut i: usize = 0;
    assert(all@.skip(0) =~= all@);
    assert(r@ + encode_wide(all@) =~= encode_wide(all@));
    while i < all.len()
        invariant
            all@ == value@,
            i <= all@.len(),
            r@ + encode_wide(all@.skip(i as int)) == encode_wide(all@),
        decreases all@.len() - i,
    {
        let ghost rest = all@.skip(i as int);
        let ghost before = r@;
        let c: char = all[i];
        let n: u32 = c as u32;
        assert(rest[0] == c);
        proof {
            lemma_char(c, n);
        }
        if n < 0x10000 {
            r.push(n as u16);
            assert(r@ =~= before + encode_wide_char(rest[0]));
        } else {
            let m: u32 = n - 0x10000;
            r.push((0xd800 + m / 0x400) as u16);
            r.push((0xdc00 + m % 0x400) as u16);
            assert(r@ =~= before + encode_wide_char(rest[0]));
        }
        i = i + 1;
        assert(rest.drop_first() =~= all@.skip(i as int));
        assert(r@ + encode_wide(all@.skip(i as int)) =~= before + encode_wide(rest));
    }
    assert(all@.skip(i as int) =~= Seq::<char>::empty());
    assert(r@ =~= encode_wide(all@));
    r.push(0);
    r
}

/// The number of units before the first zero.
fn nul_index(value: &[u16]) -> (n: usize)
    ensures
        n == text::span(value@, not_nul()),
        n <= value@.len(),
{
    let mut n: usize = 0;
    while n < value.len() && value[n] != 0
        invariant
            n <= value@.len(),
            forall|j: int| 0 <= j < n ==> not_nul()(#[trigger] value@[j]),
        decreases value@.len() - n,
    {
        n = n + 1;
    }
    proof {
        text::lemma_span_is(value@, not_nul(), n as nat);
    }
    n
}

/// The text in a fixed buffer: what stands before its first zero unit.
pub fn fixed_wide_to_string(value: &[u16]) -> (r: String)
    ensures
        r@ == decode_wide(until_nul(value@)),
{
    let n: usize = nul_index(value);
    let head = slice_subrange(value, 0, n);
    assert(head@ =~= until_nul(value@));
    wide_to_string(head)
}

/// A fixed buffer after `wide` has been written to its front and its last unit set to zero.
pub open spec fn fixed_copy(buffer: Seq<u16>, wide: Seq<u16>) -> Seq<u16> {
    Seq::new(
        buffer.len(),
        |i: int|
            if i == buffer.len() - 1 {
                0
            } else if i < wide.len() {
                wide[i]
            } else {
                buffer[i]
            },
    )
}

/// Copies `value` with its closing zero to the front of `target`, cut where `target` is too
/// short, and closes `target` with a zero unit.
pub fn copy_to_fixed_wide(target: &mut [u16], value: &str)
    ensures
        final(target)@ == fixed_copy(old(target)@, encode_wide(value@).push(0)),
{
    let n: usize = target.len();
    if n == 0 {
        assert(target@ =~= fixed_copy(old(target)@, encode_wide(value@).push(0)));
        return ;
    }
    let wide = to_wide_null(value);
    let mut i: usize = 0;
    while i < n && i < wide.len()
        invariant
            n == old(target)@.len(),
            target@.len() == n,
            i <= n,
            i <= wide@.len(),
            forall|j: int| 0 <= j < i ==> target@[j] == wide@[j],
            forall|j: int| i <= j < n ==> target@[j] == old(target)@[j],
        decreases n - i,
    {
        target[i] = wide[i];
        i = i + 1;
    }
    target[n - 1] = 0;
    assert(target@ =~= fixed_copy(old(target)@, wide@));
}

// ---------------------------------------------------------------------------
// Laws
// ---------------------------------------------------------------------------
/// What follows the units of one character does not change how that character decodes.
proof fn lemma_decode_encoded_char(c: char, rest: Seq<u16>)
    ensures
        decode_wide(encode_wide_char(c) + rest) == seq![c] + decode_wide(rest),
{
    let head = encode_wide_char(c);
    let all = head + rest;
    let n = c as u32;
    if n < 0x10000 {
        assert(all.skip(1) =~= rest);
        assert(all[0] as u32 == n);
    } else {
        let m = (n - 0x10000) as u32;
        assert(m / 0x400 < 0x400 && m == (m / 0x400) * 0x400 + m % 0x400);
        assert(all.skip(2) =~= rest);
        assert(all[0] == head[0] && all[1] == head[1]);
        assert(pair_char(all[0], all[1]) == c);
    }
}

/// Decoding gives back an encoded text, whatever follows it.
pub proof fn encoded_text_decodes_before_anything(s: Seq<char>, rest: Seq<u16>)
    ensures
        decode_wide(encode_wide(s) + rest) == s + decode_wide(rest),
    decreases s.len(),
{
    if s.len() == 0 {
        assert(encode_wide(s) + rest =~= rest);
        assert(s + decode_wide(rest) =~= decode_wide(rest));
    } else {
        let tail = encode_wide(s.drop_first()) + rest;
        assert(encode_wide(s) + rest =~= encode_wide_char(s[0]) + tail);
        lemma_decode_encoded_char(s[0], tail);
        encoded_text_decodes_before_anything(s.drop_first(), rest);
        assert(seq![s[0]] + (s.drop_first() + decode_wide(rest)) =~= s + decode_wide(rest));
    }
}

/// Decoding gives back what was encoded.
pub proof fn encoded_text_decodes(s: Seq<char>)
    ensures
        decode_wide(encode_wide(s)) == s,
{
    encoded_text_decodes_before_anything(s, Seq::empty());
    assert(encode_wide(s) + Seq::<u16>::empty() =~= encode_wide(s));
    assert(s + decode_wide(Seq::empty()) =~= s);
}

/// No unit of a character is zero but the one of NUL.
proof fn lemma_encoded_char_has_no_nul(c: char)
    requires
        c != '\0',
    ensures
        forall|i: int| 0 <= i < encode_wide_char(c).len() ==> encode_wide_char(c)[i] != 0,
{
}

/// A text without NUL has no zero unit.
pub proof fn encoded_text_has_no_nul(s: Seq<char>)
    requires
        !s.contains('\0'),
    ensures
        forall|i: int| 0 <= i < encode_wide(s).len() ==> encode_wide(s)[i] != 0,
    decreases s.len(),
{
    if s.len() > 0 {
        let rest = s.drop_first();
        assert(s.contains(s[0]));
        assert forall|c: char| rest.contains(c) implies s.contains(c) by {
            let j = choose|j: int| 0 <= j < rest.len() && rest[j] == c;
            assert(s[j + 1] == c);
        }
        encoded_text_has_no_nul(rest);
        let head = encode_wide_char(s[0]);
        lemma_encoded_char_has_no_nul(s[0]);
        assert forall|i: int| 0 <= i < encode_wide(s).len() implies encode_wide(s)[i] != 0 by {
            if i < head.len() {
                assert(encode_wide(s)[i] == head[i]);
            } else {
                assert(encode_wide(s)[i] == encode_wide(rest)[i - head.len()]);
            }
        }
    }
}

/// Cutting at the first zero unit takes off a zero and all that follows it.
pub proof fn lemma_until_nul(s: Seq<u16>, rest: Seq<u16>)
    requires
        forall|i: int| 0 <= i < s.len() ==> s[i] != 0,
    ensures
        until_nul(s + seq![0u16] + rest) == s,
        until_nul(s.push(0)) == s,
        until_nul(s) == s,
{
    let p = not_nul();
    let a = s + seq![0u16] + rest;
    assert forall|i: int| 0 <= i < s.len() implies p(#[trigger] a[i]) by {
        assert(a[i] == s[i]);
    }
    text::lemma_span_is(a, p, s.len());
    assert(until_nul(a) =~= s);
    let b = s.push(0);
    assert forall|i: int| 0 <= i < s.len() implies p(#[trigger] b[i]) by {
        assert(b[i] == s[i]);
    }
    text::lemma_span_is(b, p, s.len());
    assert(until_nul(b) =~= s);
    text::lemma_span_is(s, p, s.len());
    assert(until_nul(s) =~= s);
}

/// A text without NUL that fits a fixed buffer with its closing zero is read back from it
/// unchanged, whatever the buffer held before.
pub proof fn fixed_buffer_gives_the_text_back(buffer: Seq<u16>, value: Seq<char>)
    requires
        !value.contains('\0'),
        encode_wide(value).len() < buffer.len(),
    ensures
        decode_wide(until_nul(fixed_copy(buffer, encode_wide(value).push(0)))) == value,
{
    let w = encode_wide(value);
    encoded_text_has_no_nul(value);
    let a = fixed_copy(buffer, w.push(0));
    let rest = a.skip(w.len() as int + 1);
    assert(a =~= w + seq![0u16] + rest);
    lemma_until_nul(w, rest);
    encoded_text_decodes(value);
}

/// A fixed buffer that is not empty always ends with a zero unit, so that its text always ends.
pub proof fn fixed_buffer_is_closed(buffer: Seq<u16>, wide: Seq<u16>)
    requires
        buffer.len() > 0,
    ensures
        fixed_copy(buffer, wide).len() == buffer.len(),
        until_nul(fixed_copy(buffer, wide)).len() < buffer.len(),
{
    let a = fixed_copy(buffer, wide);
    text::lemma_span(a, not_nul());
    if text::span(a, not_nul()) == a.len() {
        assert(not_nul()(a[a.len() - 1]));
    }
}

/// Texts one after the other encode to their units one after the other.
pub proof fn encoding_goes_text_by_text(a: Seq<char>, b: Seq<char>)
    ensures
        encode_wide(a + b) == encode_wide(a) + encode_wide(b),
    decreases a.len(),
{
    if a.len() == 0 {
        assert(a + b =~= b);
        assert(encode_wide(a) + encode_wide(b) =~= encode_wide(b));
    } else {
        assert((a + b).drop_first() =~= a.drop_first() + b);
        encoding_goes_text_by_text(a.drop_first(), b);
        assert(encode_wide(a + b) =~= encode_wide(a) + encode_wide(b));
    }
}

/// Units decode one by one, but for a high surrogate with a low one behind it, which give one
/// character between them. A surrogate without its partner gives U+FFFD, any other unit its
/// character.
pub proof fn units_decode_one_by_one(u: u16, v: u16)
    ensures
        u < 0xd800 || u > 0xdfff ==> decode_wide(seq![u]).len() == 1 && decode_wide(seq![u])[0] as u32
            == u,
        0xd800 <= u <= 0xdfff ==> decode_wide(seq![u]) == seq!['\u{fffd}'],
        0xd800 <= u <= 0xdbff && 0xdc00 <= v <= 0xdfff ==> decode_wide(seq![u, v]).len() == 1
            && decode_wide(seq![u, v])[0] as u32 == 0x10000 + (u - 0xd800) * 0x400 + (v - 0xdc00),
{
    assert(seq![u].skip(1) =~= Seq::<u16>::empty());
    assert(seq![u, v].skip(2) =~= Seq::<u16>::empty());
    assert(decode_wide(Seq::empty()) =~= Seq::<char>::empty());
    assert(decode_wide(seq![u]).len() == 1);
    if 0xd800 <= u <= 0xdfff {
        assert(decode_wide(seq![u]) =~= seq!['\u{fffd}']);
    }
    if 0xd800 <= u <= 0xdbff && 0xdc00 <= v <= 0xdfff {
        assert(decode_wide(seq![u, v]) =~= seq![pair_char(u, v)]);
    }
}

/// Units can be decoded in two parts wherever no surrogate pair is torn apart.
pub proof fn decoding_goes_part_by_part(a: Seq<u16>, b: Seq<u16>)
    requires
        !(a.len() > 0 && b.len() > 0 && 0xd800 <= a.last() <= 0xdbff && 0xdc00 <= b[0] <= 0xdfff),
    ensures
        decode_wide(a + b) == decode_wide(a) + decode_wide(b),
    decreases a.len(),
{
    if a.len() == 0 {
        assert(a + b =~= b);
        assert(decode_wide(a) + decode_wide(b) =~= decode_wide(b));
    } else {
        let whole = a + b;
        assert(whole[0] == a[0]);
        let pair = is_high_surrogate(a[0]) && a.len() > 1 && is_low_surrogate(a[1]);
        let n: int = if pair {
            2
        } else {
            1
        };
        if a.len() > 1 {
            assert(whole[1] == a[1]);
        } else if b.len() > 0 {
            assert(whole[1] == b[0]);
            assert(a.last() == a[0]);
        }
        let rest = a.skip(n);
        assert(whole.skip(n) =~= rest + b);
        if rest.len() > 0 {
            assert(rest.last() == a.last());
        }
        decoding_goes_part_by_part(rest, b);
        assert(decode_wide(whole) =~= decode_wide(a) + decode_wide(b));
    }
}

/// A fixed buffer keeps its length, holds as many units of the text as stand before its last unit,
/// keeps what stood behind them, and ends with zero.
pub proof fn fixed_buffer_holds_what_fits(buffer: Seq<u16>, wide: Seq<u16>)
    ensures
        fixed_copy(buffer, wide).len() == buffer.len(),
        buffer.len() > 0 ==> fixed_copy(buffer, wide).last() == 0,
        forall|i: int|
            0 <= i < buffer.len() - 1 ==> #[trigger] fixed_copy(buffer, wide)[i] == (if i
                < wide.len() {
                wide[i]
            } else {
                buffer[i]
            }),
{
}

} // verus!
