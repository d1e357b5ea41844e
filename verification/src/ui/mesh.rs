//! World-space interfaces: the laid-out tree as geometry on the canvas's plane.
//!
//! The walk is cheap; recreating meshes is not. So each canvas keeps a print of
//! the geometry it last built, and a frame whose walk gives the same print
//! touches nothing.

use vstd::prelude::*;

use crate::scalar::{ONE_BITS, Point, Scalar, ZERO_BITS};
use crate::unicode::to_chars;

verus! {

// ── The vertex buffer ──

/// A colour, by its linear channels.
#[derive(Clone, Copy, Debug, PartialEq, Eq, Structural)]
pub struct Tint {
    pub red: Scalar,
    pub green: Scalar,
    pub blue: Scalar,
    pub alpha: Scalar,
}

/// A place in the panel's space, or a direction.
#[derive(Clone, Copy, Debug, PartialEq, Eq, Structural)]
pub struct Vertex {
    pub x: Scalar,
    pub y: Scalar,
    pub z: Scalar,
}

/// An upright rectangle: its lower left and upper right corners, its depth and
/// its colour.
#[derive(Clone, Copy, Debug, PartialEq, Eq, Structural)]
pub struct Quad {
    pub low: Point,
    pub high: Point,
    pub z: Scalar,
    pub color: Tint,
}

/// The four corners of a quad, counterclockwise from the lower left.
pub open spec fn corners(q: Quad) -> Seq<Vertex> {
    seq![
        Vertex { x: q.low.x, y: q.low.y, z: q.z },
        Vertex { x: q.high.x, y: q.low.y, z: q.z },
        Vertex { x: q.high.x, y: q.high.y, z: q.z },
        Vertex { x: q.low.x, y: q.high.y, z: q.z },
    ]
}

/// The two triangles of a quad whose first corner is vertex `base`.
pub open spec fn triangles(base: int) -> Seq<u32> {
    seq![
        base as u32,
        (base + 1) as u32,
        (base + 2) as u32,
        base as u32,
        (base + 2) as u32,
        (base + 3) as u32,
    ]
}

/// Facing the viewer: `(0, 0, 1)`.
pub open spec fn facing() -> Vertex {
    Vertex {
        x: Scalar { bits: ZERO_BITS },
        y: Scalar { bits: ZERO_BITS },
        z: Scalar { bits: ONE_BITS },
    }
}

/// The texture's corner: `(0, 0)`.
pub open spec fn no_texture() -> Point {
    Point { x: Scalar { bits: ZERO_BITS }, y: Scalar { bits: ZERO_BITS } }
}

/// A vertex buffer for one mesh: the background rectangles.
pub struct Buf {
    pub positions: Vec<Vertex>,
    pub colors: Vec<Tint>,
    pub normals: Vec<Vertex>,
    pub uvs: Vec<Point>,
    pub indices: Vec<u32>,
}

/// The corners of quads, one after another.
pub open spec fn all_corners(quads: Seq<Quad>) -> Seq<Vertex>
    decreases quads.len(),
{
    if quads.len() == 0 {
        Seq::empty()
    } else {
        all_corners(quads.drop_last()) + corners(quads.last())
    }
}

/// The triangles of `count` quads, one after another.
pub open spec fn all_triangles(count: nat) -> Seq<u32>
    decreases count,
{
    if count == 0 {
        Seq::empty()
    } else {
        all_triangles((count - 1) as nat) + triangles(4 * (count - 1))
    }
}

impl Buf {
    /// Whether the buffer draws exactly these quads.
    pub open spec fn draws(&self, quads: Seq<Quad>) -> bool {
        &&& self.positions@ == all_corners(quads)
        &&& self.colors@ == Seq::new(4 * quads.len(), |i: int| quads[i / 4].color)
        &&& self.normals@ == Seq::new(4 * quads.len(), |i: int| facing())
        &&& self.uvs@ == Seq::new(4 * quads.len(), |i: int| no_texture())
        &&& self.indices@ == all_triangles(quads.len())
    }

    /// An empty buffer.
    pub fn new() -> (r: Buf)
        ensures
            r.draws(Seq::empty()),
    {
        let r = Buf {
            positions: Vec::new(),
            colors: Vec::new(),
            normals: Vec::new(),
            uvs: Vec::new(),
            indices: Vec::new(),
        };
        assert(r.colors@ =~= Seq::new(0, |i: int| Seq::<Quad>::empty()[i / 4].color));
        assert(r.normals@ =~= Seq::new(0, |i: int| facing()));
        assert(r.uvs@ =~= Seq::new(0, |i: int| no_texture()));
        r
    }

    /// Empty the buffer.
    pub fn clear(&mut self)
        ensures
            final(self).draws(Seq::empty()),
    {
        self.positions.clear();
        self.colors.clear();
        self.normals.clear();
        self.uvs.clear();
        self.indices.clear();
        assert(self.colors@ =~= Seq::new(0, |i: int| Seq::<Quad>::empty()[i / 4].color));
        assert(self.normals@ =~= Seq::new(0, |i: int| facing()));
        assert(self.uvs@ =~= Seq::new(0, |i: int| no_texture()));
    }

    /// Add a quad.
    pub fn quad(&mut self, q: Quad)
        requires
            old(self).positions@.len() + 4 <= u32::MAX,
        ensures
            final(self).positions@ == old(self).positions@ + corners(q),
            final(self).colors@ == old(self).colors@ + seq![q.color, q.color, q.color, q.color],
            final(self).normals@ == old(self).normals@ + seq![
                facing(),
                facing(),
                facing(),
                facing(),
            ],
            final(self).uvs@ == old(self).uvs@ + seq![
                no_texture(),
                no_texture(),
                no_texture(),
                no_texture(),
            ],
            final(self).indices@ == old(self).indices@ + triangles(
                old(self).positions@.len() as int,
            ),
            forall|quads: Seq<Quad>| #[trigger]
                old(self).draws(quads) ==> final(self).draws(quads.push(q)),
    {
        let base: u32 = self.positions.len() as u32;
        self.positions.push(Vertex { x: q.low.x, y: q.low.y, z: q.z });
        self.positions.push(Vertex { x: q.high.x, y: q.low.y, z: q.z });
        self.positions.push(Vertex { x: q.high.x, y: q.high.y, z: q.z });
        self.positions.push(Vertex { x: q.low.x, y: q.high.y, z: q.z });
        let ghost start = *self;
        let mut i: usize = 0;
        while i < 4
            invariant
                i <= 4,
                self.positions == start.positions,
                self.indices == start.indices,
                self.colors@ == start.colors@ + Seq::new(i as nat, |k: int| q.color),
                self.normals@ == start.normals@ + Seq::new(i as nat, |k: int| facing()),
                self.uvs@ == start.uvs@ + Seq::new(i as nat, |k: int| no_texture()),
            decreases 4 - i,
        {
            self.colors.push(q.color);
            self.normals.push(
                Vertex {
                    x: Scalar { bits: ZERO_BITS },
                    y: Scalar { bits: ZERO_BITS },
                    z: Scalar { bits: ONE_BITS },
                },
            );
            self.uvs.push(Point { x: Scalar { bits: ZERO_BITS }, y: Scalar { bits: ZERO_BITS } });
            i += 1;
            assert(self.colors@ =~= start.colors@ + Seq::new(i as nat, |k: int| q.color));
            assert(self.normals@ =~= start.normals@ + Seq::new(i as nat, |k: int| facing()));
            assert(self.uvs@ =~= start.uvs@ + Seq::new(i as nat, |k: int| no_texture()));
        }
        self.indices.push(base);
        self.indices.push(base + 1);
        self.indices.push(base + 2);
        self.indices.push(base);
        self.indices.push(base + 2);
        self.indices.push(base + 3);
        proof {
            assert(self.positions@ =~= old(self).positions@ + corners(q));
            assert(self.colors@ =~= old(self).colors@ + seq![q.color, q.color, q.color, q.color]);
            assert(self.normals@ =~= old(self).normals@ + seq![
                facing(),
                facing(),
                facing(),
                facing(),
            ]);
            assert(self.uvs@ =~= old(self).uvs@ + seq![
                no_texture(),
                no_texture(),
                no_texture(),
                no_texture(),
            ]);
            assert(self.indices@ =~= old(self).indices@ + triangles(
                old(self).positions@.len() as int,
            ));
            assert forall|quads: Seq<Quad>| #[trigger] old(self).draws(quads) implies self.draws(
                quads.push(q),
            ) by {
                let more = quads.push(q);
                corners_count(quads);
                assert(more.drop_last() =~= quads);
                assert(self.colors@ =~= Seq::new(4 * more.len(), |i: int| more[i / 4].color));
                assert(self.normals@ =~= Seq::new(4 * more.len(), |i: int| facing()));
                assert(self.uvs@ =~= Seq::new(4 * more.len(), |i: int| no_texture()));
            }
        }
    }

    /// Whether there is nothing to draw.
    pub fn is_empty(&self) -> (r: bool)
        ensures
            r == (self.positions@.len() == 0),
    {
        self.positions.len() == 0
    }
}

/// Every quad has four corners.
pub proof fn corners_count(quads: Seq<Quad>)
    ensures
        all_corners(quads).len() == 4 * quads.len(),
    decreases quads.len(),
{
    if quads.len() > 0 {
        corners_count(quads.drop_last());
    }
}

/// No triangle refers past the last vertex: what is drawn is well-formed.
pub proof fn indices_are_in_range(count: nat, i: int)
    requires
        4 * count <= u32::MAX,
        0 <= i < all_triangles(count).len(),
    ensures
        all_triangles(count)[i] < 4 * count,
    decreases count,
{
    let rest = all_triangles((count - 1) as nat);
    if i < rest.len() {
        indices_are_in_range((count - 1) as nat, i);
    }
}

// ── Prints ──

/// Where a text's glyphs come from.
pub enum FontKey {
    /// A loaded font.
    Handle(u64),
    /// A family by its name.
    Family(String),
    Serif,
    SansSerif,
    /// Another of the generic families.
    Generic(u32),
}

/// What a font is.
pub enum FontModel {
    Handle(u64),
    Family(Seq<char>),
    Serif,
    SansSerif,
    Generic(u32),
}

impl View for FontKey {
    type V = FontModel;

    open spec fn view(&self) -> FontModel {
        match *self {
            FontKey::Handle(id) => FontModel::Handle(id),
            FontKey::Family(name) => FontModel::Family(name@),
            FontKey::Serif => FontModel::Serif,
            FontKey::SansSerif => FontModel::SansSerif,
            FontKey::Generic(which) => FontModel::Generic(which),
        }
    }
}

/// The end of a name in a print; no character has this number.
pub const NAME_END: u32 = 0xFFFF_FFFF;

/// The numbers of the characters of a text.
pub open spec fn char_print(text: Seq<char>) -> Seq<u32> {
    text.map_values(|c: char| c as u32)
}

/// The print of a font: which sort it is, and what it is within its sort.
pub open spec fn font_print(font: FontModel) -> Seq<u32> {
    match font {
        FontModel::Handle(id) => seq![0, (id / 0x1_0000_0000) as u32, (id % 0x1_0000_0000) as u32],
        FontModel::Family(name) => seq![1u32] + char_print(name) + seq![NAME_END],
        FontModel::Serif => seq![2],
        FontModel::SansSerif => seq![3],
        FontModel::Generic(which) => seq![4, which],
    }
}

/// The print of a text's style.
pub open spec fn style_print(center: Point, size: Scalar, color: Tint, font: FontModel) -> Seq<
    u32,
> {
    font_print(font) + seq![
        center.x.bits,
        center.y.bits,
        size.bits,
        color.red.bits,
        color.green.bits,
        color.blue.bits,
        color.alpha.bits,
    ]
}

/// Add the characters of a text to a print.
pub fn print_chars(out: &mut Vec<u32>, text: &str)
    ensures
        final(out)@ == old(out)@ + char_print(text@),
{
    let chars = to_chars(text);
    let mut i: usize = 0;
    assert(out@ + char_print(chars@.take(0)) =~= out@);
    while i < chars.len()
        invariant
            i <= chars@.len(),
            out@ == old(out)@ + char_print(chars@.take(i as int)),
        decreases chars@.len() - i,
    {
        out.push(chars[i] as u32);
        i += 1;
        assert(out@ =~= old(out)@ + char_print(chars@.take(i as int)));
    }
    assert(chars@.take(i as int) =~= text@);
}

/// Add a font to a print.
pub fn print_font(out: &mut Vec<u32>, font: &FontKey)
    ensures
        final(out)@ == old(out)@ + font_print(font@),
{
    match font {
        FontKey::Handle(id) => {
            out.push(0);
            out.push((*id / 0x1_0000_0000) as u32);
            out.push((*id % 0x1_0000_0000) as u32);
        },
        FontKey::Family(name) => {
            out.push(1);
            print_chars(out, name.as_str());
            out.push(NAME_END);
        },
        FontKey::Serif => {
            out.push(2);
        },
        FontKey::SansSerif => {
            out.push(3);
        },
        FontKey::Generic(which) => {
            out.push(4);
            out.push(*which);
        },
    }
    assert(out@ =~= old(out)@ + font_print(font@));
}

/// Add a text's style to a print.
pub fn print_text_style(
    out: &mut Vec<u32>,
    center: Point,
    size: Scalar,
    color: Tint,
    font: &FontKey,
)
    ensures
        final(out)@ == old(out)@ + style_print(center, size, color, font@),
{
    print_font(out, font);
    out.push(center.x.bits);
    out.push(center.y.bits);
    out.push(size.bits);
    out.push(color.red.bits);
    out.push(color.green.bits);
    out.push(color.blue.bits);
    out.push(color.alpha.bits);
    assert(out@ =~= old(out)@ + style_print(center, size, color, font@));
}

proof fn same_number(a: char, b: char)
    ensures
        a as u32 == b as u32 ==> a == b,
{
}

/// Texts with one print are one text.
pub proof fn texts_are_told_apart(a: Seq<char>, b: Seq<char>)
    requires
        char_print(a) == char_print(b),
    ensures
        a == b,
{
    assert(char_print(a).len() == a.len() && char_print(b).len() == b.len());
    assert forall|i: int| 0 <= i < a.len() implies a[i] == b[i] by {
        assert(char_print(a)[i] == a[i] as u32);
        assert(char_print(b)[i] == b[i] as u32);
        same_number(a[i], b[i]);
    }
    assert(a =~= b);
}

/// Fonts with one print are one font.
pub proof fn fonts_are_told_apart(a: FontModel, b: FontModel)
    requires
        font_print(a) == font_print(b),
    ensures
        a == b,
{
    let p = font_print(a);
    let q = font_print(b);
    assert(p[0] == q[0]);
    match (a, b) {
        (FontModel::Handle(x), FontModel::Handle(y)) => {
            assert(p[1] == q[1] && p[2] == q[2]);
            assert((x / 0x1_0000_0000) as u32 == x / 0x1_0000_0000);
            assert((y / 0x1_0000_0000) as u32 == y / 0x1_0000_0000);
        },
        (FontModel::Family(x), FontModel::Family(y)) => {
            assert(p.len() == x.len() + 2 && q.len() == y.len() + 2);
            assert forall|i: int| 0 <= i < x.len() implies x[i] == y[i] by {
                assert(p[i + 1] == char_print(x)[i]);
                assert(q[i + 1] == char_print(y)[i]);
                same_number(x[i], y[i]);
            }
            assert(x =~= y);
        },
        (FontModel::Generic(x), FontModel::Generic(y)) => {
            assert(p[1] == q[1]);
        },
        _ => {},
    }
}

/// Styles with one print are one style: font, place, size and colour all take
/// part.
pub proof fn styles_are_told_apart(
    a: (Point, Scalar, Tint, FontModel),
    b: (Point, Scalar, Tint, FontModel),
)
    requires
        style_print(a.0, a.1, a.2, a.3) == style_print(b.0, b.1, b.2, b.3),
    ensures
        a == b,
{
    let p = style_print(a.0, a.1, a.2, a.3);
    let q = style_print(b.0, b.1, b.2, b.3);
    let n = font_print(a.3).len() as int;
    let m = font_print(b.3).len() as int;
    assert(p.len() == n + 7 && q.len() == m + 7);
    assert(p.take(n) =~= font_print(a.3));
    assert(q.take(m) =~= font_print(b.3));
    fonts_are_told_apart(a.3, b.3);
    assert(p[n] == a.0.x.bits && q[n] == b.0.x.bits);
    assert(p[n + 1] == a.0.y.bits && q[n + 1] == b.0.y.bits);
    assert(p[n + 2] == a.1.bits && q[n + 2] == b.1.bits);
    assert(p[n + 3] == a.2.red.bits && q[n + 3] == b.2.red.bits);
    assert(p[n + 4] == a.2.green.bits && q[n + 4] == b.2.green.bits);
    assert(p[n + 5] == a.2.blue.bits && q[n + 5] == b.2.blue.bits);
    assert(p[n + 6] == a.2.alpha.bits && q[n + 6] == b.2.alpha.bits);
}

} // verus!
