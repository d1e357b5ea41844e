//! Scene file paths.

use vstd::prelude::*;

use crate::text::{same_text, texts};
use crate::unicode::{from_chars, to_chars};

verus! {

/// A path to a scene file: its components as they are spelled, and those of the
/// file it resolves to, where there is such a file.
pub struct ScenePath {
    pub parts: Vec<String>,
    pub canonical: Option<Vec<String>>,
}

/// What a scene path holds.
pub struct PathModel {
    pub parts: Seq<Seq<char>>,
    pub canonical: Option<Seq<Seq<char>>>,
}

impl View for ScenePath {
    type V = PathModel;

    open spec fn view(&self) -> PathModel {
        PathModel {
            parts: texts(self.parts@),
            canonical: match self.canonical {
                Some(parts) => Some(texts(parts@)),
                None => None,
            },
        }
    }
}

impl PathModel {
    /// What a file is known by: where it resolves to, or how it is spelled.
    pub open spec fn key(self) -> Seq<Seq<char>> {
        match self.canonical {
            Some(parts) => parts,
            None => self.parts,
        }
    }
}

/// Whether two paths name one file: by where they resolve to where both do,
/// else by how they are spelled.
pub open spec fn same_file(a: PathModel, b: PathModel) -> bool {
    match (a.canonical, b.canonical) {
        (Some(x), Some(y)) => x == y,
        _ => a.parts == b.parts,
    }
}

/// Whether two lists hold the same texts in the same order.
pub fn same_texts(a: &Vec<String>, b: &Vec<String>) -> (r: bool)
    ensures
        r == (texts(a@) == texts(b@)),
{
    if a.len() != b.len() {
        assert(texts(a@).len() != texts(b@).len());
        return false;
    }
    let mut i: usize = 0;
    while i < a.len()
        invariant
            i <= a@.len(),
            a@.len() == b@.len(),
            forall|k: int| 0 <= k < i ==> texts(a@)[k] == texts(b@)[k],
        decreases a@.len() - i,
    {
        assert(texts(a@)[i as int] == a@[i as int]@);
        assert(texts(b@)[i as int] == b@[i as int]@);
        if !same_text(&a[i], &b[i]) {
            return false;
        }
        i += 1;
    }
    assert(texts(a@) =~= texts(b@));
    true
}

/// Whether two paths name one file.
pub fn paths_equal(a: &ScenePath, b: &ScenePath) -> (r: bool)
    ensures
        r == same_file(a@, b@),
{
    match (&a.canonical, &b.canonical) {
        (Some(x), Some(y)) => same_texts(x, y),
        _ => same_texts(&a.parts, &b.parts),
    }
}

/// `true` if `source_path` resolves to the same file as `host_scene_path`: a
/// direct self-reference. Used to reject a scene being dropped into itself.
pub fn is_self_reference(host_scene_path: &ScenePath, source_path: &ScenePath) -> (r: bool)
    ensures
        r == same_file(host_scene_path@, source_path@),
{
    paths_equal(host_scene_path, source_path)
}

/// Every path names the file it names, and naming one file goes both ways.
pub proof fn same_file_is_mutual(a: PathModel, b: PathModel)
    ensures
        same_file(a, a),
        same_file(a, b) == same_file(b, a),
{
}

impl ScenePath {
    /// What the file is known by.
    pub fn key(&self) -> (r: Vec<String>)
        ensures
            texts(r@) == self@.key(),
    {
        match &self.canonical {
            Some(parts) => crate::text::copy_texts(parts),
            None => crate::text::copy_texts(&self.parts),
        }
    }
}

impl Clone for ScenePath {
    fn clone(&self) -> (r: ScenePath)
        ensures
            r@ == self@,
    {
        let canonical: Option<Vec<String>> = match &self.canonical {
            Some(parts) => Some(crate::text::copy_texts(parts)),
            None => None,
        };
        ScenePath { parts: crate::text::copy_texts(&self.parts), canonical }
    }
}

// ── Archive keys ──

/// A path with `/` in place of `\`.
pub open spec fn forward_slashes(path: Seq<char>) -> Seq<char> {
    path.map_values(
        |c: char|
            if c == '\\' {
                '/'
            } else {
                c
            },
    )
}

/// Whether a text starts with `./`.
pub open spec fn dotted(text: Seq<char>) -> bool {
    text.len() >= 2 && text[0] == '.' && text[1] == '/'
}

/// Without one leading `./`.
pub open spec fn undotted(text: Seq<char>) -> Seq<char> {
    if dotted(text) {
        text.skip(2)
    } else {
        text
    }
}

/// Without any leading `./`.
pub open spec fn fully_undotted(text: Seq<char>) -> Seq<char>
    decreases text.len(),
{
    if dotted(text) {
        fully_undotted(text.skip(2))
    } else {
        text
    }
}

fn slashed(path: &str) -> (r: Vec<char>)
    ensures
        r@ == forward_slashes(path@),
{
    let chars = to_chars(path);
    let mut out: Vec<char> = Vec::new();
    let mut i: usize = 0;
    while i < chars.len()
        invariant
            i <= chars@.len(),
            chars@ == path@,
            out@ == forward_slashes(path@).take(i as int),
        decreases chars@.len() - i,
    {
        out.push(
            if chars[i] == '\\' {
                '/'
            } else {
                chars[i]
            },
        );
        assert(forward_slashes(path@).take(i + 1) == forward_slashes(path@).take(i as int).push(
            forward_slashes(path@)[i as int],
        ));
        i += 1;
    }
    assert(forward_slashes(path@).take(i as int) == forward_slashes(path@));
    out
}

/// The archive key of a scene path: forward slashes, without a leading `./`.
pub fn archive_key(path: &str) -> (r: String)
    ensures
        r@ == undotted(forward_slashes(path@)),
{
    let chars = slashed(path);
    let from: usize = if chars.len() >= 2 && chars[0] == '.' && chars[1] == '/' {
        2
    } else {
        0
    };
    assert(chars@.subrange(from as int, chars@.len() as int) =~= undotted(chars@));
    from_chars(&chars, from, chars.len())
}

/// The archive key of a script path: forward slashes, without any leading `./`.
pub fn script_key(path: &str) -> (r: String)
    ensures
        r@ == fully_undotted(forward_slashes(path@)),
{
    let chars = slashed(path);
    let mut from: usize = 0;
    assert(chars@.skip(0) == chars@);
    while chars.len() - from >= 2 && chars[from] == '.' && chars[from + 1] == '/'
        invariant
            from <= chars@.len(),
            fully_undotted(chars@) == fully_undotted(chars@.skip(from as int)),
        decreases chars@.len() - from,
    {
        assert(dotted(chars@.skip(from as int)));
        assert(chars@.skip(from as int).skip(2) =~= chars@.skip(from + 2));
        from += 2;
    }
    proof {
        if chars@.len() - from >= 2 {
            assert(chars@.skip(from as int)[0] == chars@[from as int]);
            assert(chars@.skip(from as int)[1] == chars@[from + 1]);
        }
        assert(!dotted(chars@.skip(from as int)));
        assert(chars@.subrange(from as int, chars@.len() as int) =~= chars@.skip(from as int));
    }
    from_chars(&chars, from, chars.len())
}

} // verus!
