//! Reading and cutting scene text without parsing it.

use vstd::prelude::*;

use crate::dock::drop::option_text;
use crate::text::texts;
use crate::unicode::{from_chars, push_text, to_chars};

verus! {

broadcast use crate::text::texts_push;

// ── Searching ──

/// Whether `needle` stands in `text` at `at`.
pub open spec fn occurs_at(text: Seq<char>, needle: Seq<char>, at: int) -> bool {
    0 <= at && at + needle.len() <= text.len() && text.subrange(at, at + needle.len()) == needle
}

/// Where `needle` first stands in `text`, from `from` on.
pub open spec fn find_from(text: Seq<char>, needle: Seq<char>, from: int) -> Option<int>
    decreases text.len() - from + 1,
{
    if from < 0 || from + needle.len() > text.len() {
        None
    } else if occurs_at(text, needle, from) {
        Some(from)
    } else {
        find_from(text, needle, from + 1)
    }
}

/// What a found position is: an occurrence, and the first one.
pub proof fn found_is_first(text: Seq<char>, needle: Seq<char>, from: int)
    requires
        0 <= from,
    ensures
        match find_from(text, needle, from) {
            Some(at) => {
                &&& from <= at
                &&& occurs_at(text, needle, at)
                &&& forall|k: int| from <= k < at ==> !occurs_at(text, needle, k)
            },
            None => forall|k: int| from <= k ==> !occurs_at(text, needle, k),
        },
    decreases text.len() - from + 1,
{
    if from + needle.len() <= text.len() && !occurs_at(text, needle, from) {
        found_is_first(text, needle, from + 1);
        assert forall|k: int| from <= k && (match find_from(text, needle, from) {
            Some(at) => k < at,
            None => true,
        }) implies !occurs_at(text, needle, k) by {
            if k > from {
                assert(from + 1 <= k);
            }
        }
    }
}

fn is_at(text: &Vec<char>, needle: &Vec<char>, at: usize) -> (r: bool)
    requires
        at + needle@.len() <= text@.len(),
    ensures
        r == occurs_at(text@, needle@, at as int),
{
    let total: usize = text.len();
    let mut i: usize = 0;
    while i < needle.len()
        invariant
            i <= needle@.len(),
            total == text@.len(),
            at + needle@.len() <= text@.len(),
            forall|k: int| 0 <= k < i ==> text@[at + k] == needle@[k],
        decreases needle@.len() - i,
    {
        if text[at + i] != needle[i] {
            assert(text@.subrange(at as int, at + needle@.len())[i as int] != needle@[i as int]);
            return false;
        }
        i += 1;
    }
    assert(text@.subrange(at as int, at + needle@.len()) =~= needle@);
    true
}

/// Where `needle` first stands in `text`, from `from` on.
pub fn find_chars(text: &Vec<char>, needle: &Vec<char>, from: usize) -> (r: Option<usize>)
    ensures
        match r {
            Some(at) => find_from(text@, needle@, from as int) == Some(at as int) && from <= at
                && at + needle@.len() <= text@.len(),
            None => find_from(text@, needle@, from as int) is None,
        },
{
    if from > text.len() || needle.len() > text.len() - from {
        return None;
    }
    let mut at: usize = from;
    loop
        invariant
            from <= at,
            at + needle@.len() <= text@.len(),
            find_from(text@, needle@, from as int) == find_from(text@, needle@, at as int),
        decreases text@.len() - at,
    {
        if is_at(text, needle, at) {
            return Some(at);
        }
        if at == text.len() - needle.len() {
            assert(find_from(text@, needle@, at + 1) is None);
            return None;
        }
        at += 1;
    }
}

/// Where `c` first stands in `text` from `from` on, or the text's length.
pub open spec fn next_char(text: Seq<char>, c: char, from: int) -> int
    decreases text.len() - from,
{
    if from < 0 || from >= text.len() {
        text.len() as int
    } else if text[from] == c {
        from
    } else {
        next_char(text, c, from + 1)
    }
}

fn skip_to(text: &Vec<char>, c: char, from: usize) -> (r: usize)
    requires
        from <= text@.len(),
    ensures
        r == next_char(text@, c, from as int),
        from <= r <= text@.len(),
        r < text@.len() ==> text@[r as int] == c,
{
    let mut i: usize = from;
    while i < text.len() && text[i] != c
        invariant
            from <= i <= text@.len(),
            next_char(text@, c, from as int) == next_char(text@, c, i as int),
        decreases text@.len() - i,
    {
        i += 1;
    }
    i
}

/// A space or a tab.
pub open spec fn blank(c: char) -> bool {
    c == ' ' || c == '\t'
}

/// The first position from `from` on that is no space or tab.
pub open spec fn after_blanks(text: Seq<char>, from: int) -> int
    decreases text.len() - from,
{
    if 0 <= from < text.len() && blank(text[from]) {
        after_blanks(text, from + 1)
    } else {
        from
    }
}

fn skip_blanks(text: &Vec<char>, from: usize) -> (r: usize)
    requires
        from <= text@.len(),
    ensures
        r == after_blanks(text@, from as int),
        from <= r <= text@.len(),
{
    let mut i: usize = from;
    while i < text.len() && (text[i] == ' ' || text[i] == '\t')
        invariant
            from <= i <= text@.len(),
            after_blanks(text@, from as int) == after_blanks(text@, i as int),
        decreases text@.len() - i,
    {
        i += 1;
    }
    i
}

// ── Unregistered types ──

/// A text without a prefix, where it has it.
pub open spec fn without_prefix(text: Seq<char>, prefix: Seq<char>) -> Seq<char> {
    if occurs_at(text, prefix, 0) {
        text.skip(prefix.len() as int)
    } else {
        text
    }
}

/// The type path that a message names: what stands between backticks after
/// `no registration found for`, with the word `type` before it or not.
pub open spec fn named_type(message: Seq<char>) -> Option<Seq<char>> {
    match find_from(message, "no registration found for "@, 0) {
        None => None,
        Some(at) => {
            let rest = without_prefix(
                message.skip(at + "no registration found for "@.len()),
                "type "@,
            );
            let close = next_char(rest, '`', 1);
            if rest.len() > 0 && rest[0] == '`' && close < rest.len() {
                Some(rest.subrange(1, close))
            } else {
                None
            }
        },
    }
}

/// Pull the offending type path out of an error message of the form "no
/// registration found for `some::type::path`". Returns `None` if the error
/// isn't of that shape.
pub fn extract_unregistered_type(error_message: &str) -> (r: Option<String>)
    ensures
        option_text(r) == named_type(error_message@),
{
    let message = to_chars(error_message);
    let needle = to_chars("no registration found for ");
    let word = to_chars("type ");
    let at = match find_chars(&message, &needle, 0) {
        Some(at) => at,
        None => {
            return None;
        },
    };
    let ghost tail = message@.skip(at + needle@.len());
    let total: usize = message.len();
    let mut from: usize = at + needle.len();
    if word.len() <= message.len() - from && is_at(&message, &word, from) {
        assert(message@.subrange(from as int, from + word@.len()) =~= tail.subrange(
            0,
            word@.len() as int,
        ));
        from = from + word.len();
        assert(message@.skip(from as int) =~= tail.skip(word@.len() as int));
    } else {
        proof {
            if word@.len() <= tail.len() {
                assert(message@.subrange(from as int, from + word@.len()) =~= tail.subrange(
                    0,
                    word@.len() as int,
                ));
            }
        }
    }
    let ghost rest = without_prefix(tail, word@);
    assert(rest =~= message@.skip(from as int));
    if from < message.len() && message[from] == '`' {
        let close: usize = skip_to(&message, '`', from + 1);
        proof {
            next_char_shifted(message@, '`', from as int, 1);
        }
        if close < message.len() {
            assert(message@.subrange(from + 1, close as int) =~= rest.subrange(1, close - from));
            return Some(from_chars(&message, from + 1, close));
        }
    }
    None
}

proof fn next_char_shifted(text: Seq<char>, c: char, by: int, from: int)
    requires
        0 <= by <= text.len(),
        0 <= from,
    ensures
        next_char(text.skip(by), c, from) + by == next_char(text, c, from + by) || from + by
            > text.len(),
    decreases text.len() - from,
{
    let rest = text.skip(by);
    if from < rest.len() {
        assert(rest[from] == text[from + by]);
        if rest[from] != c {
            next_char_shifted(text, c, by, from + 1);
        }
    }
}

// ── Cutting an entry ──

/// The closing parenthesis of an entry whose opening one stands just before
/// `at`, inside `depth` parentheses. String literals don't count toward depth,
/// and an escaped quote doesn't end one.
pub open spec fn closing(
    text: Seq<char>,
    at: int,
    depth: nat,
    in_string: bool,
    escaped: bool,
) -> Option<int>
    decreases text.len() - at,
{
    if at < 0 || at >= text.len() {
        None
    } else if in_string {
        let ends = text[at] == '"' && !escaped;
        closing(text, at + 1, depth, !ends, text[at] == '\\' && !escaped)
    } else if text[at] == '"' {
        closing(text, at + 1, depth, true, false)
    } else if text[at] == '(' {
        closing(text, at + 1, depth + 1, false, false)
    } else if text[at] == ')' {
        if depth == 1 {
            Some(at)
        } else {
            closing(text, at + 1, (depth - 1) as nat, false, false)
        }
    } else {
        closing(text, at + 1, depth, false, false)
    }
}

/// Where a cut ends: after the trailing comma and the rest of the line.
pub open spec fn cut_end(text: Seq<char>, after: int) -> int {
    let blanks = after_blanks(text, after);
    let comma = if blanks < text.len() && text[blanks] == ',' {
        blanks + 1
    } else {
        blanks
    };
    let more = after_blanks(text, comma);
    if more < text.len() && text[more] == '\n' {
        more + 1
    } else {
        more
    }
}

/// ASCII white space other than a line break.
pub open spec fn indent(c: char) -> bool {
    c == ' ' || c == '\t' || c == '\r' || c == '\x0C'
}

/// Where a cut starts: at the indentation before the key.
pub open spec fn cut_start(text: Seq<char>, key: int) -> int
    decreases key,
{
    if 0 < key <= text.len() && indent(text[key - 1]) {
        cut_start(text, key - 1)
    } else {
        key
    }
}

/// A type path in quotes.
pub open spec fn quoted(type_path: Seq<char>) -> Seq<char> {
    seq!['"'] + type_path + seq!['"']
}

/// The range that an entry takes up: its line or lines, the trailing comma and
/// line break included.
pub open spec fn entry_range(text: Seq<char>, type_path: Seq<char>) -> Option<(int, int)> {
    let key = quoted(type_path);
    match find_from(text, key, 0) {
        None => None,
        Some(at) => {
            let open = next_char(text, '(', at + key.len());
            match closing(text, open + 1, 1, false, false) {
                Some(close) if open < text.len() => Some(
                    (cut_start(text, at), cut_end(text, close + 1)),
                ),
                _ => None,
            }
        },
    }
}

fn find_closing(text: &Vec<char>, from: usize) -> (r: Option<usize>)
    requires
        0 < from <= text@.len(),
    ensures
        match r {
            Some(at) => closing(text@, from as int, 1, false, false) == Some(at as int) && from
                <= at < text@.len(),
            None => closing(text@, from as int, 1, false, false) is None,
        },
{
    let total: usize = text.len();
    let mut depth: usize = 1;
    let mut in_string: bool = false;
    let mut escaped: bool = false;
    let mut i: usize = from;
    while i < text.len()
        invariant
            0 < from <= i <= text@.len(),
            total == text@.len(),
            1 <= depth <= 1 + i - from,
            closing(text@, from as int, 1, false, false) == closing(
                text@,
                i as int,
                depth as nat,
                in_string,
                escaped,
            ),
            !in_string ==> !escaped,
        decreases text@.len() - i,
    {
        let c: char = text[i];
        if in_string {
            let ends: bool = c == '"' && !escaped;
            escaped = c == '\\' && !escaped;
            in_string = !ends;
        } else if c == '"' {
            in_string = true;
        } else if c == '(' {
            depth += 1;
        } else if c == ')' {
            if depth == 1 {
                return Some(i);
            }
            depth -= 1;
        }
        i += 1;
    }
    None
}

/// Remove the entry `"<type_path>": ( ... )` (and its trailing comma / own
/// line) from a scene text, walking balanced parens to find the closing `)`
/// while respecting string literals. Returns `None` if the key isn't present or
/// paren-matching fails.
pub fn strip_component_entry(ron: &str, type_path: &str) -> (r: Option<String>)
    ensures
        match entry_range(ron@, type_path@) {
            Some((start, end)) => {
                &&& 0 <= start <= end <= ron@.len()
                &&& r matches Some(out)
                &&& out@ == ron@.take(start) + ron@.skip(end)
            },
            None => r is None,
        },
{
    let text = to_chars(ron);
    let name = to_chars(type_path);
    let mut key: Vec<char> = Vec::new();
    key.push('"');
    let mut n: usize = 0;
    while n < name.len()
        invariant
            n <= name@.len(),
            key@ == seq!['"'] + name@.take(n as int),
        decreases name@.len() - n,
    {
        key.push(name[n]);
        assert(name@.take(n + 1) == name@.take(n as int).push(name@[n as int]));
        n += 1;
    }
    key.push('"');
    assert(name@.take(n as int) == name@);
    assert(key@ =~= quoted(type_path@));
    let at = match find_chars(&text, &key, 0) {
        Some(at) => at,
        None => {
            return None;
        },
    };
    let open: usize = skip_to(&text, '(', at + key.len());
    if open >= text.len() {
        return None;
    }
    let close = match find_closing(&text, open + 1) {
        Some(close) => close,
        None => {
            return None;
        },
    };
    let mut end: usize = skip_blanks(&text, close + 1);
    if end < text.len() && text[end] == ',' {
        end += 1;
    }
    end = skip_blanks(&text, end);
    if end < text.len() && text[end] == '\n' {
        end += 1;
    }
    let mut start: usize = at;
    while start > 0 && (text[start - 1] == ' ' || text[start - 1] == '\t' || text[start - 1]
        == '\r' || text[start - 1] == '\x0C')
        invariant
            start <= at <= text@.len(),
            cut_start(text@, at as int) == cut_start(text@, start as int),
        decreases start,
    {
        start -= 1;
    }
    let mut out = from_chars(&text, 0, start);
    let tail = from_chars(&text, end, text.len());
    push_text(&mut out, &tail);
    assert(ron@.subrange(0, start as int) =~= ron@.take(start as int));
    assert(ron@.subrange(end as int, ron@.len() as int) =~= ron@.skip(end as int));
    Some(out)
}

// ── References to other scenes ──

/// The `source:` values of a scene text's instance components, from `from` on.
pub open spec fn sources_from(text: Seq<char>, from: int) -> Seq<Seq<char>>
    decreases text.len() - from,
{
    if from < 0 || from > text.len() {
        Seq::empty()
    } else {
        match find_from(text, "\"renzora::core::SceneInstance\""@, from) {
            None => Seq::empty(),
            Some(marker) => match find_from(text, "source:"@, marker) {
                None => Seq::empty(),
                Some(key) => {
                    let after = key + "source:"@.len();
                    let quote = after_blanks(text, after);
                    if from < after <= quote < text.len() && text[quote] == '"' {
                        let end = next_char(text, '"', quote + 1);
                        if quote < end <= text.len() {
                            seq![text.subrange(quote + 1, end)] + sources_from(text, end)
                        } else {
                            Seq::empty()
                        }
                    } else if from < after <= text.len() {
                        sources_from(text, after)
                    } else {
                        Seq::empty()
                    }
                },
            },
        }
    }
}

/// Scrape the scene instances' `source:` values out of a scene file's text, in
/// order. Intentionally avoids full parsing: it's faster and robust to unknown
/// components.
pub fn extract_scene_instance_sources(text: &str) -> (r: Vec<String>)
    ensures
        texts(r@) == sources_from(text@, 0),
{
    let chars = to_chars(text);
    let marker = to_chars("\"renzora::core::SceneInstance\"");
    let key = to_chars("source:");
    proof {
        reveal_strlit("source:");
    }
    let mut out: Vec<String> = Vec::new();
    let mut cursor: usize = 0;
    loop
        invariant
            cursor <= chars@.len(),
            chars@ == text@,
            marker@ == "\"renzora::core::SceneInstance\""@,
            key@ == "source:"@,
            key@.len() == 7,
            sources_from(text@, 0) == texts(out@) + sources_from(text@, cursor as int),
        decreases chars@.len() - cursor,
    {
        let at = match find_chars(&chars, &marker, cursor) {
            Some(at) => at,
            None => {
                assert(sources_from(text@, 0) =~= texts(out@));
                return out;
            },
        };
        let found = match find_chars(&chars, &key, at) {
            Some(found) => found,
            None => {
                assert(sources_from(text@, 0) =~= texts(out@));
                return out;
            },
        };
        let after: usize = found + key.len();
        let quote: usize = skip_blanks(&chars, after);
        if quote >= chars.len() || chars[quote] != '"' {
            cursor = after;
            continue;
        }
        let end: usize = skip_to(&chars, '"', quote + 1);
        let source = from_chars(&chars, quote + 1, end);
        let ghost before = texts(out@);
        let ghost rest = sources_from(text@, end as int);
        out.push(source);
        assert(before + (seq![source@] + rest) =~= before.push(source@) + rest);
        cursor = end;
    }
}

// ── What stripping leaves behind ──

/// Whether no two commas have nothing but blanks and line breaks between them.
pub open spec fn commas_apart(text: Seq<char>) -> bool {
    forall|i: int, j: int|
        0 <= i < j < text.len() && text[i] == ',' && text[j] == ',' ==> exists|k: int|
            i < k < j && !blank(#[trigger] text[k]) && text[k] != '\n'
}

/// Whether an entry stands right behind a comma, and its own comma at the start
/// of the next line.
pub open spec fn comma_left_over(text: Seq<char>, type_path: Seq<char>) -> bool {
    match entry_range(text, type_path) {
        Some((start, end)) => {
            &&& 0 < start <= text.len() && text[start - 1] == ','
            &&& 0 < end < text.len() && text[end - 1] == '\n' && text[end] == ','
        },
        None => false,
    }
}

proof fn blanks_are_blank(text: Seq<char>, from: int)
    requires
        0 <= from <= text.len(),
    ensures
        from <= after_blanks(text, from) <= text.len(),
        forall|k: int| from <= k < after_blanks(text, from) ==> blank(#[trigger] text[k]),
        after_blanks(text, from) < text.len() ==> !blank(text[after_blanks(text, from)]),
    decreases text.len() - from,
{
    if from < text.len() && blank(text[from]) {
        blanks_are_blank(text, from + 1);
    }
}

proof fn closing_is_inside(text: Seq<char>, at: int, depth: nat, in_string: bool, escaped: bool)
    requires
        0 <= at,
    ensures
        closing(text, at, depth, in_string, escaped) matches Some(c) ==> at <= c < text.len(),
    decreases text.len() - at,
{
    if at < text.len() {
        if in_string {
            let ends = text[at] == '"' && !escaped;
            closing_is_inside(text, at + 1, depth, !ends, text[at] == '\\' && !escaped);
        } else if text[at] == '"' {
            closing_is_inside(text, at + 1, depth, true, false);
        } else if text[at] == '(' {
            closing_is_inside(text, at + 1, depth + 1, false, false);
        } else if text[at] == ')' {
            if depth != 1 {
                closing_is_inside(text, at + 1, (depth - 1) as nat, false, false);
            }
        } else {
            closing_is_inside(text, at + 1, depth, false, false);
        }
    }
}

proof fn next_char_is_ahead(text: Seq<char>, c: char, from: int)
    requires
        0 <= from,
    ensures
        from <= next_char(text, c, from) || next_char(text, c, from) == text.len(),
    decreases text.len() - from,
{
    if from < text.len() && text[from] != c {
        next_char_is_ahead(text, c, from + 1);
    }
}

/// A cut ends at a comma only where two commas stood side by side, or where the
/// entry's comma stood on the next line.
proof fn cut_consumes_the_comma(text: Seq<char>, after: int)
    requires
        0 <= after <= text.len(),
        commas_apart(text),
    ensures
        ({
            let end = cut_end(text, after);
            end < text.len() && text[end] == ',' ==> 0 < end && text[end - 1] == '\n'
        }),
{
    let blanks = after_blanks(text, after);
    blanks_are_blank(text, after);
    let end = cut_end(text, after);
    if blanks < text.len() && text[blanks] == ',' {
        let more = after_blanks(text, blanks + 1);
        blanks_are_blank(text, blanks + 1);
        if end < text.len() && text[end] == ',' {
            let k = choose|k: int|
                blanks < k < end && !blank(#[trigger] text[k]) && text[k] != '\n';
            assert(k < more || k == more);
        }
    } else {
        blanks_are_blank(text, blanks);
    }
}

proof fn cut_starts_before(text: Seq<char>, key: int)
    requires
        0 <= key,
    ensures
        0 <= cut_start(text, key) <= key,
    decreases key,
{
    if 0 < key <= text.len() && indent(text[key - 1]) {
        cut_starts_before(text, key - 1);
    }
}

/// Stripping an entry leaves no two commas side by side: it takes the entry's
/// own comma with it, unless that was left over on the next line.
pub proof fn stripping_leaves_no_double_comma(text: Seq<char>, type_path: Seq<char>, i: int)
    requires
        commas_apart(text),
        !comma_left_over(text, type_path),
        entry_range(text, type_path) is Some,
    ensures
        ({
            let (start, end) = entry_range(text, type_path)->0;
            let out = text.take(start) + text.skip(end);
            0 <= i < out.len() - 1 ==> !(out[i] == ',' && out[i + 1] == ',')
        }),
{
    let (start, end) = entry_range(text, type_path)->0;
    let out = text.take(start) + text.skip(end);
    let key = quoted(type_path);
    let at = find_from(text, key, 0)->0;
    found_is_first(text, key, 0);
    let open = next_char(text, '(', at + key.len());
    let close = closing(text, open + 1, 1, false, false)->0;
    next_char_is_ahead(text, '(', at + key.len());
    closing_is_inside(text, open + 1, 1, false, false);
    assert(0 <= close + 1 <= text.len());
    cut_starts_before(text, at);
    blanks_are_blank(text, close + 1);
    let blanks = after_blanks(text, close + 1);
    blanks_are_blank(text, blanks);
    if blanks < text.len() {
        blanks_are_blank(text, blanks + 1);
    }
    assert(0 <= start <= end <= text.len());
    if 0 <= i < out.len() - 1 && out[i] == ',' && out[i + 1] == ',' {
        if i + 1 < start {
            assert(out[i] == text[i] && out[i + 1] == text[i + 1]);
        } else if i >= start {
            let j = i - start + end;
            assert(out[i] == text[j] && out[i + 1] == text[j + 1]);
        } else {
            assert(out[i + 1] == text[end]);
            cut_consumes_the_comma(text, close + 1);
        }
    }
}

} // verus!
