//! Titles and labels.

use vstd::prelude::*;

use crate::dock::tree::DockTree;
use crate::unicode::{
    from_chars, lowercased, push_text, to_chars, to_lowercase, to_uppercase, trim, trimmed,
    uppercased,
};

verus! {

/// The words of an id: what stands between its underscores.
pub open spec fn id_words(id: Seq<char>) -> Seq<Seq<char>>
    decreases id.len(),
{
    if id.len() == 0 {
        seq![Seq::empty()]
    } else {
        let before = id_words(id.drop_last());
        if id.last() == '_' {
            before.push(Seq::empty())
        } else {
            before.drop_last().push(before.last().push(id.last()))
        }
    }
}

/// A word with its first character in upper case.
pub open spec fn capitalized(word: Seq<char>) -> Seq<char> {
    if word.len() == 0 {
        word
    } else {
        uppercased(word[0]) + word.drop_first()
    }
}

/// Words with a space between each two.
pub open spec fn spaced(words: Seq<Seq<char>>) -> Seq<char>
    decreases words.len(),
{
    if words.len() == 0 {
        Seq::empty()
    } else if words.len() == 1 {
        words[0]
    } else {
        spaced(words.drop_last()).push(' ') + words.last()
    }
}

/// The title an id reads as.
pub open spec fn humanized(id: Seq<char>) -> Seq<char> {
    spaced(id_words(id).map_values(|w: Seq<char>| capitalized(w)))
}

proof fn id_words_nonempty(id: Seq<char>)
    ensures
        id_words(id).len() > 0,
    decreases id.len(),
{
    if id.len() > 0 {
        id_words_nonempty(id.drop_last());
    }
}

/// The words of an id.
pub fn split_words(id: &str) -> (r: Vec<Vec<char>>)
    ensures
        r@.map_values(|w: Vec<char>| w@) == id_words(id@),
{
    let chars = to_chars(id);
    let mut words: Vec<Vec<char>> = Vec::new();
    words.push(Vec::new());
    let mut i: usize = 0;
    assert(chars@.take(0).len() == 0);
    assert(words@.map_values(|w: Vec<char>| w@) == seq![Seq::<char>::empty()]);
    while i < chars.len()
        invariant
            i <= chars@.len(),
            chars@ == id@,
            words@.len() > 0,
            words@.map_values(|w: Vec<char>| w@) == id_words(chars@.take(i as int)),
        decreases chars@.len() - i,
    {
        let c: char = chars[i];
        let ghost before = words@.map_values(|w: Vec<char>| w@);
        proof {
            assert(chars@.take(i + 1).drop_last() == chars@.take(i as int));
            assert(chars@.take(i + 1).last() == c);
        }
        if c == '_' {
            words.push(Vec::new());
            assert(words@.map_values(|w: Vec<char>| w@) == before.push(Seq::<char>::empty()));
        } else {
            let last: usize = words.len() - 1;
            words[last].push(c);
            assert(words@.map_values(|w: Vec<char>| w@) == before.drop_last().push(
                before.last().push(c),
            ));
        }
        i += 1;
    }
    assert(chars@.take(i as int) == chars@);
    words
}

/// Words as one text: each initial in the form given for it, a space between
/// each two words.
pub fn join_words(initials: &Vec<String>, words: &Vec<Vec<char>>) -> (r: String)
    requires
        initials@.len() == words@.len(),
    ensures
        r@ == spaced(
            Seq::new(
                words@.len(),
                |i: int|
                    if words@[i]@.len() == 0 {
                        words@[i]@
                    } else {
                        initials@[i]@ + words@[i]@.drop_first()
                    },
            ),
        ),
{
    let ghost parts = Seq::new(
        words@.len(),
        |i: int|
            if words@[i]@.len() == 0 {
                words@[i]@
            } else {
                initials@[i]@ + words@[i]@.drop_first()
            },
    );
    let mut out = String::new();
    let mut i: usize = 0;
    while i < words.len()
        invariant
            i <= words@.len(),
            initials@.len() == words@.len(),
            parts.len() == words@.len(),
            forall|k: int|
                0 <= k < parts.len() ==> #[trigger] parts[k] == (if words@[k]@.len() == 0 {
                    words@[k]@
                } else {
                    initials@[k]@ + words@[k]@.drop_first()
                }),
            out@ == spaced(parts.take(i as int)),
        decreases words@.len() - i,
    {
        let ghost before = out@;
        proof {
            assert(parts.take(i + 1).drop_last() == parts.take(i as int));
            assert(parts.take(i + 1).last() == parts[i as int]);
        }
        if i > 0 {
            out.push(' ');
        }
        let ghost joint = out@;
        let word: &Vec<char> = &words[i];
        if word.len() > 0 {
            push_text(&mut out, &initials[i]);
            let tail = from_chars(word, 1, word.len());
            push_text(&mut out, &tail);
            assert(word@.subrange(1, word@.len() as int) == word@.drop_first());
        }
        assert(out@ == joint + parts[i as int]);
        if i == 0 {
            assert(joint + parts[0] == parts[0]);
            assert(parts.take(1)[0] == parts[0]);
        }
        i += 1;
    }
    assert(parts.take(i as int) == parts);
    out
}

/// `code_editor` becomes `Code Editor`.
pub fn humanize(id: &str) -> (r: String)
    ensures
        r@ == humanized(id@),
{
    let words = split_words(id);
    let mut initials: Vec<String> = Vec::new();
    let mut i: usize = 0;
    while i < words.len()
        invariant
            i <= words@.len(),
            initials@.len() == i,
            forall|k: int|
                0 <= k < i && words@[k]@.len() > 0 ==> (#[trigger] initials@[k])@ == uppercased(
                    words@[k]@[0],
                ),
        decreases words@.len() - i,
    {
        let initial = if words[i].len() > 0 {
            to_uppercase(words[i][0])
        } else {
            String::new()
        };
        initials.push(initial);
        i += 1;
    }
    let out = join_words(&initials, &words);
    proof {
        let parts = Seq::new(
            words@.len(),
            |i: int|
                if words@[i]@.len() == 0 {
                    words@[i]@
                } else {
                    initials@[i]@ + words@[i]@.drop_first()
                },
        );
        let views = words@.map_values(|w: Vec<char>| w@);
        let titled = id_words(id@).map_values(|w: Seq<char>| capitalized(w));
        assert(parts =~= titled) by {
            assert forall|k: int| 0 <= k < parts.len() implies parts[k] == titled[k] by {
                assert(views[k] == words@[k]@);
                assert(titled[k] == capitalized(views[k]));
                if words@[k]@.len() > 0 {
                    assert(initials@[k]@ == uppercased(words@[k]@[0]));
                }
            }
        }
    }
    out
}

/// Default tab title + icon for a panel id (humanized + a neutral dot).
pub fn tab_meta(id: &str) -> (r: (String, &'static str))
    ensures
        r.0@ == humanized(id@),
        r.1@ == "circle"@,
{
    (humanize(id), "circle")
}

/// A number's decimal digits.
pub open spec fn decimal(n: nat) -> Seq<char>
    decreases n,
{
    if n < 10 {
        seq![digit(n)]
    } else {
        decimal(n / 10).push(digit(n % 10))
    }
}

/// The character of a digit.
pub open spec fn digit(n: nat) -> char {
    if n == 0 {
        '0'
    } else if n == 1 {
        '1'
    } else if n == 2 {
        '2'
    } else if n == 3 {
        '3'
    } else if n == 4 {
        '4'
    } else if n == 5 {
        '5'
    } else if n == 6 {
        '6'
    } else if n == 7 {
        '7'
    } else if n == 8 {
        '8'
    } else {
        '9'
    }
}

fn digit_char(n: usize) -> (r: char)
    requires
        n < 10,
    ensures
        r == digit(n as nat),
{
    match n {
        0 => '0',
        1 => '1',
        2 => '2',
        3 => '3',
        4 => '4',
        5 => '5',
        6 => '6',
        7 => '7',
        8 => '8',
        _ => '9',
    }
}

/// Appends a number in decimal.
pub fn push_decimal(out: &mut String, n: usize)
    ensures
        final(out)@ == old(out)@ + decimal(n as nat),
    decreases n,
{
    if n < 10 {
        out.push(digit_char(n));
    } else {
        push_decimal(out, n / 10);
        out.push(digit_char(n % 10));
    }
}

/// The title of a drag's ghost: the panel's, and how many background tabs
/// travel with a whole leaf.
pub open spec fn ghost_label(id: Seq<char>, extra: nat) -> Seq<char> {
    if extra > 0 {
        humanized(id) + seq![' ', '+'] + decimal(extra)
    } else {
        humanized(id)
    }
}

/// The label of the ghost that follows a tab drag. A group ghost shows how many
/// background tabs ride along.
pub fn ghost_title(id: &str, group: bool, tabs: usize) -> (r: String)
    ensures
        r@ == ghost_label(
            id@,
            if group && tabs > 0 {
                (tabs - 1) as nat
            } else {
                0
            },
        ),
{
    let mut title = humanize(id);
    let extra: usize = if group && tabs > 0 {
        tabs - 1
    } else {
        0
    };
    if extra > 0 {
        title.push(' ');
        title.push('+');
        push_decimal(&mut title, extra);
        assert(title@ == humanized(id@) + seq![' ', '+'] + decimal(extra as nat));
    }
    title
}

/// The panel that names a floating window: its lead panel, or `panels`.
pub open spec fn window_lead(panels: Seq<Seq<char>>) -> Seq<char> {
    if panels.len() > 0 {
        panels[0]
    } else {
        "panels"@
    }
}

/// The panel that names a floating window.
pub fn lead_panel(tree: &DockTree) -> (r: String)
    ensures
        r@ == window_lead(tree@.panels()),
{
    match tree.first_panel() {
        Some(panel) => panel.to_owned(),
        None => "panels".to_owned(),
    }
}

/// A floating window's title: its lead panel's registered title, or the title
/// its id reads as.
pub fn float_title(lead: &str, registered: Option<&str>) -> (r: String)
    ensures
        r@ == (match registered {
            Some(title) => title@,
            None => humanized(lead@),
        }),
{
    match registered {
        Some(title) => title.to_owned(),
        None => humanize(lead),
    }
}

// ── The add-panel picker ──

/// Whether a character is an ASCII letter or digit.
pub open spec fn ascii_alphanumeric(c: char) -> bool {
    ('0' <= c && c <= '9') || ('a' <= c && c <= 'z') || ('A' <= c && c <= 'Z')
}

/// A text with every character but ASCII letters and digits replaced by `_`.
pub open spec fn underscored(text: Seq<char>) -> Seq<char> {
    text.map_values(
        |c: char|
            if ascii_alphanumeric(c) {
                c
            } else {
                '_'
            },
    )
}

/// A text with every character but ASCII letters and digits replaced by `_`.
pub fn underscore(text: &str) -> (r: String)
    ensures
        r@ == underscored(text@),
{
    let chars = to_chars(text);
    let mut out = String::new();
    let mut i: usize = 0;
    while i < chars.len()
        invariant
            i <= chars@.len(),
            chars@ == text@,
            out@ == underscored(text@).take(i as int),
        decreases chars@.len() - i,
    {
        let c: char = chars[i];
        let plain: bool = ('0' <= c && c <= '9') || ('a' <= c && c <= 'z') || ('A' <= c && c
            <= 'Z');
        out.push(
            if plain {
                c
            } else {
                '_'
            },
        );
        assert(underscored(text@).take(i + 1) == underscored(text@).take(i as int).push(
            underscored(text@)[i as int],
        ));
        i += 1;
    }
    assert(underscored(text@).take(i as int) == underscored(text@));
    out
}

/// The key under which a category is translated: trimmed, in lower case, with
/// `_` for what is not an ASCII letter or digit.
pub fn category_slug(category: &str) -> (r: String)
    ensures
        r@ == underscored(lowercased(trimmed(category@))),
{
    let text = trim(category);
    let lower = to_lowercase(&text);
    underscore(&lower)
}

} // verus!
