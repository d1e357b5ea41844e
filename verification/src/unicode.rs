//! Characters and strings: building them, white space, and the case mappings
//! that the standard library keeps tables for.

use vstd::prelude::*;
use vstd::std_specs::iter::IteratorSpec;

verus! {

/// The upper-case mapping of a character: what `char::to_uppercase` yields.
pub uninterp spec fn uppercased(c: char) -> Seq<char>;

/// The lower-case form of a text: what `str::to_lowercase` returns.
pub uninterp spec fn lowercased(text: Seq<char>) -> Seq<char>;

/// Whether a character has Unicode's `White_Space` property.
pub open spec fn white(c: char) -> bool {
    let n = c as u32;
    ||| 0x9 <= n <= 0xd
    ||| n == 0x20
    ||| n == 0x85
    ||| n == 0xa0
    ||| n == 0x1680
    ||| 0x2000 <= n <= 0x200a
    ||| n == 0x2028
    ||| n == 0x2029
    ||| n == 0x202f
    ||| n == 0x205f
    ||| n == 0x3000
}

/// White space is the six characters of a plain text's layout, the next-line
/// character, the two no-break spaces, the spaces of a set width, and the two
/// separators; nothing printed is white space.
pub proof fn white_space_is_layout(c: char)
    ensures
        white('\t') && white('\n') && white('\u{b}') && white('\u{c}') && white('\r') && white(' '),
        '\0' <= c <= '\u{8}' || '\u{e}' <= c <= '\u{1f}' || '!' <= c <= '\u{84}' ==> !white(c),
        white('\u{85}') && white('\u{a0}') && white('\u{202f}') && white('\u{1680}'),
        '\u{86}' <= c <= '\u{9f}' || '\u{a1}' <= c <= '\u{167f}' || '\u{1681}' <= c <= '\u{1fff}'
            ==> !white(c),
        '\u{2000}' <= c <= '\u{200a}' ==> white(c),
        white('\u{2028}') && white('\u{2029}') && white('\u{205f}') && white('\u{3000}'),
        '\u{200b}' <= c <= '\u{2027}' || '\u{202a}' <= c <= '\u{202e}' || '\u{2030}' <= c
            <= '\u{205e}' || '\u{2060}' <= c <= '\u{2fff}' || '\u{3000}' < c ==> !white(c),
{
}

/// Whether a character has Unicode's `White_Space` property.
pub fn is_white(c: char) -> (r: bool)
    ensures
        r == white(c),
{
    let n: u32 = c as u32;
    (0x9 <= n && n <= 0xd) || n == 0x20 || n == 0x85 || n == 0xa0 || n == 0x1680 || (0x2000 <= n
        && n <= 0x200a) || n == 0x2028 || n == 0x2029 || n == 0x202f || n == 0x205f || n == 0x3000
}

/// `char::to_uppercase`, its characters collected. Claims that the result is
/// the character's upper-case mapping, which depends on the character alone and
/// is one or more characters.
#[verifier::external_body]
pub(crate) fn to_uppercase(c: char) -> (r: String)
    ensures
        r@ == uppercased(c),
        r@.len() >= 1,
{
    c.to_uppercase().collect::<String>()
}

/// `str::to_lowercase`. Claims that the result is the text's lower-case form,
/// which depends on the text alone.
#[verifier::external_body]
pub(crate) fn to_lowercase(text: &str) -> (r: String)
    ensures
        r@ == lowercased(text@),
{
    text.to_lowercase()
}

/// `String::push`. Claims that the character is appended to what the string
/// held.
pub assume_specification[ String::push ](s: &mut String, c: char)
    ensures
        final(s)@ == old(s)@.push(c),
;

/// The characters of a text.
pub fn to_chars(text: &str) -> (r: Vec<char>)
    ensures
        r@ == text@,
{
    let mut rest = text.chars();
    let mut out: Vec<char> = Vec::new();
    loop
        invariant
            out@.len() <= text@.len(),
            out@ == text@.take(out@.len() as int),
            rest.remaining() == text@.skip(out@.len() as int),
            rest.obeys_prophetic_iter_laws(),
        decreases text@.len() - out@.len(),
    {
        match rest.next() {
            Some(c) => {
                proof {
                    let n = out@.len() as int;
                    assert(text@[n] == c);
                    assert(text@.skip(n).drop_first() == text@.skip(n + 1));
                    assert(text@.take(n + 1) == text@.take(n).push(c));
                }
                out.push(c);
            },
            None => {
                assert(out@ == text@);
                return out;
            },
        }
    }
}

/// The text of a range of characters.
pub fn from_chars(chars: &Vec<char>, from: usize, to: usize) -> (r: String)
    requires
        from <= to <= chars@.len(),
    ensures
        r@ == chars@.subrange(from as int, to as int),
{
    let mut out = String::new();
    let mut i: usize = from;
    while i < to
        invariant
            from <= i <= to <= chars@.len(),
            out@ == chars@.subrange(from as int, i as int),
        decreases to - i,
    {
        out.push(chars[i]);
        assert(chars@.subrange(from as int, i + 1) == chars@.subrange(from as int, i as int).push(
            chars@[i as int],
        ));
        i += 1;
    }
    out
}

/// Appends a text to a string.
pub fn push_text(out: &mut String, text: &str)
    ensures
        final(out)@ == old(out)@ + text@,
{
    let chars = to_chars(text);
    let mut i: usize = 0;
    while i < chars.len()
        invariant
            i <= chars@.len(),
            chars@ == text@,
            out@ == old(out)@ + text@.take(i as int),
        decreases chars@.len() - i,
    {
        out.push(chars[i]);
        assert(text@.take(i + 1) == text@.take(i as int).push(text@[i as int]));
        i += 1;
    }
    assert(text@.take(i as int) == text@);
}

// ── Trimming ──

/// How many characters of white space a text starts with.
pub open spec fn leading_white(text: Seq<char>) -> int
    decreases text.len(),
{
    if text.len() > 0 && white(text[0]) {
        1 + leading_white(text.drop_first())
    } else {
        0
    }
}

/// How long a text is without the white space it ends with.
pub open spec fn without_trailing_white(text: Seq<char>) -> int
    decreases text.len(),
{
    if text.len() > 0 && white(text.last()) {
        without_trailing_white(text.drop_last())
    } else {
        text.len() as int
    }
}

/// A text without leading and trailing white space.
pub open spec fn trimmed(text: Seq<char>) -> Seq<char> {
    let rest = text.skip(leading_white(text));
    rest.take(without_trailing_white(rest))
}

proof fn leading_white_bounds(text: Seq<char>)
    ensures
        0 <= leading_white(text) <= text.len(),
    decreases text.len(),
{
    if text.len() > 0 && white(text[0]) {
        leading_white_bounds(text.drop_first());
    }
}

proof fn trailing_white_bounds(text: Seq<char>)
    ensures
        0 <= without_trailing_white(text) <= text.len(),
    decreases text.len(),
{
    if text.len() > 0 && white(text.last()) {
        trailing_white_bounds(text.drop_last());
    }
}

/// A text without leading and trailing white space.
pub fn trim(text: &str) -> (r: String)
    ensures
        r@ == trimmed(text@),
{
    let chars = to_chars(text);
    let ghost all = text@;
    let mut from: usize = 0;
    assert(all.skip(0) == all);
    while from < chars.len() && is_white(chars[from])
        invariant
            from <= chars@.len(),
            chars@ == all,
            leading_white(all) == from + leading_white(all.skip(from as int)),
        decreases chars@.len() - from,
    {
        assert(all.skip(from as int)[0] == all[from as int]);
        assert(all.skip(from as int).drop_first() == all.skip(from + 1));
        from += 1;
    }
    proof {
        leading_white_bounds(all);
        if from < chars@.len() {
            assert(all.skip(from as int)[0] == all[from as int]);
        }
        assert(leading_white(all) == from);
    }
    let ghost rest = all.skip(from as int);
    let mut to: usize = chars.len();
    assert(rest.take(rest.len() as int) == rest);
    while to > from && is_white(chars[to - 1])
        invariant
            from <= to <= chars@.len(),
            chars@ == all,
            rest == all.skip(from as int),
            without_trailing_white(rest) == without_trailing_white(rest.take(to - from)),
        decreases to,
    {
        assert(rest.take(to - from).last() == all[to - 1]);
        assert(rest.take(to - from).drop_last() == rest.take(to - from - 1));
        to -= 1;
    }
    proof {
        trailing_white_bounds(rest);
        if to > from {
            assert(rest.take(to - from).last() == all[to - 1]);
        }
        assert(without_trailing_white(rest) == to - from);
        assert(rest.take(to - from) == all.subrange(from as int, to as int));
    }
    from_chars(&chars, from, to)
}

} // verus!
