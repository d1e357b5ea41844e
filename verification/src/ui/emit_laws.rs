//! What a canvas draws, told from the nodes that its walk visits.

use vstd::prelude::*;

use crate::lineage::Link;
use crate::scalar::{Point, Scalar};
use crate::ui::emit::{
    among, background_of, changes_are_noticed, contents, label_of, print_of, printed, quads_of,
    texts_of, Content, MarkModel, NodeModel, TextNode, VisitModel,
};
use crate::ui::mesh::{
    all_corners, all_triangles, char_print, corners, corners_count, facing, no_texture, style_print,
    triangles, Buf, Quad, Tint, Vertex,
};
use crate::ui::walk::{children_of, level_order, walked};
use crate::unicode::{leading_white, trimmed, white, without_trailing_white};

verus! {

// ── Nodes ──

/// A number that is not infinite.
pub open spec fn is_number(x: Scalar) -> bool {
    x.bits < 0x7F80_0000 || 0x8000_0000 <= x.bits < 0xFF80_0000
}

/// A number above zero.
pub open spec fn above_zero(x: Scalar) -> bool {
    0 < x.bits <= 0x7F80_0000
}

/// Whether a node has a background to see: its place is known, it has an extent,
/// and its colour is not all transparent.
pub open spec fn has_background(node: NodeModel) -> bool {
    &&& is_number(node.center.x) && is_number(node.center.y)
    &&& above_zero(node.size.x) && above_zero(node.size.y)
    &&& node.background matches Some(tint) && above_zero(tint.alpha)
}

/// Whether a node has a label to see: its place is known, it has a font, and
/// some character of its text is no white space.
pub open spec fn has_label(node: NodeModel) -> bool {
    &&& is_number(node.center.x) && is_number(node.center.y)
    &&& node.font is Some
    &&& node.text matches Some(text) && exists|k: int|
        0 <= k < text.len() && !white(#[trigger] text[k])
}

/// The colour of a node's label: its own, or opaque white where it has none.
pub open spec fn label_color(node: NodeModel) -> Tint {
    match node.text_color {
        Some(own) => own,
        None => Tint {
            red: Scalar { bits: 0x3F80_0000 },
            green: Scalar { bits: 0x3F80_0000 },
            blue: Scalar { bits: 0x3F80_0000 },
            alpha: Scalar { bits: 0x3F80_0000 },
        },
    }
}

/// The size of a node's label: its own, or that of the root where it has none.
pub open spec fn label_size(node: NodeModel, rem: Scalar) -> Scalar {
    match node.font_px {
        Some(own) => own,
        None => rem,
    }
}

proof fn leading_is_all(text: Seq<char>)
    ensures
        0 <= leading_white(text) <= text.len(),
        forall|k: int| 0 <= k < leading_white(text) ==> white(#[trigger] text[k]),
        leading_white(text) < text.len() ==> !white(text[leading_white(text)]),
    decreases text.len(),
{
    if text.len() > 0 && white(text[0]) {
        let rest = text.drop_first();
        leading_is_all(rest);
        assert forall|k: int| 0 <= k < leading_white(text) implies white(#[trigger] text[k]) by {
            if k > 0 {
                assert(text[k] == rest[k - 1]);
            }
        }
        if leading_white(text) < text.len() {
            assert(text[leading_white(text)] == rest[leading_white(rest)]);
        }
    }
}

proof fn trailing_is_all(text: Seq<char>)
    ensures
        0 <= without_trailing_white(text) <= text.len(),
        forall|k: int| without_trailing_white(text) <= k < text.len() ==> white(#[trigger] text[k]),
        without_trailing_white(text) > 0 ==> !white(text[without_trailing_white(text) - 1]),
    decreases text.len(),
{
    if text.len() > 0 && white(text.last()) {
        let rest = text.drop_last();
        trailing_is_all(rest);
        assert forall|k: int| without_trailing_white(text) <= k < text.len() implies white(
            #[trigger] text[k],
        ) by {
            if k < rest.len() {
                assert(text[k] == rest[k]);
            }
        }
    }
}

/// A trimmed text is a part of the text: it neither starts nor ends with white
/// space, and all that was left out before and behind it is white space.
pub proof fn trimming_takes_the_ends(text: Seq<char>)
    ensures
        exists|from: int, to: int|
            {
                &&& 0 <= from <= to <= text.len()
                &&& trimmed(text) == #[trigger] text.subrange(from, to)
                &&& forall|k: int|
                    0 <= k < from || to <= k < text.len() ==> white(#[trigger] text[k])
                &&& from < to ==> !white(text[from]) && !white(text[to - 1])
            },
{
    let from = leading_white(text);
    let rest = text.skip(from);
    let len = without_trailing_white(rest);
    leading_is_all(text);
    trailing_is_all(rest);
    assert(trimmed(text) =~= text.subrange(from, from + len));
    assert forall|k: int| 0 <= k < from || from + len <= k < text.len() implies white(
        #[trigger] text[k],
    ) by {
        if k >= from {
            assert(rest[k - from] == text[k]);
        }
    }
    if len > 0 {
        assert(rest[len - 1] == text[from + len - 1]);
        if from + 0 < text.len() {
            assert(!white(text[from]));
        }
    }
}

proof fn trimmed_is_something(text: Seq<char>)
    ensures
        trimmed(text).len() > 0 <==> exists|k: int| 0 <= k < text.len() && !white(#[trigger] text[k]),
{
    trimming_takes_the_ends(text);
    let (from, to) = choose|from: int, to: int|
        {
            &&& 0 <= from <= to <= text.len()
            &&& trimmed(text) == #[trigger] text.subrange(from, to)
            &&& forall|k: int| 0 <= k < from || to <= k < text.len() ==> white(#[trigger] text[k])
            &&& from < to ==> !white(text[from]) && !white(text[to - 1])
        };
    if trimmed(text).len() > 0 {
        assert(!white(text[from]));
    }
}

/// A node is drawn by what it holds: a background that can be seen in its own
/// place, extent, depth and colour, and a label that can be seen in its own
/// colour, size and place, with its trimmed text and its own font.
pub proof fn nodes_are_drawn_as_they_are(node: NodeModel, rem: Scalar)
    ensures
        node.draws_background() == has_background(node),
        node.draws_text() == has_label(node),
        has_background(node) ==> node.quad() == (Quad {
            low: node.low,
            high: node.high,
            z: node.z,
            color: node.background->0,
        }),
        node.tint() == label_color(node),
        node.text_size(rem) == label_size(node, rem),
{
    if let Some(text) = node.text {
        trimmed_is_something(text);
    }
}

// ── What a walk draws ──

/// One more visit adds one quad, if its node has a background to see, and one
/// label, if it has one, in the node's own place and colour; and changes nothing
/// of what the visits before it drew.
pub proof fn each_visit_adds_its_own(visits: Seq<VisitModel>, visit: VisitModel, rem: Scalar)
    ensures
        quads_of(Seq::empty()).len() == 0,
        texts_of(Seq::empty(), rem).len() == 0,
        visit.node is None ==> {
            &&& quads_of(visits.push(visit)) == quads_of(visits)
            &&& texts_of(visits.push(visit), rem) == texts_of(visits, rem)
        },
        visit.node matches Some(node) ==> {
            &&& has_background(node) ==> quads_of(visits.push(visit)) == quads_of(visits).push(
                Quad { low: node.low, high: node.high, z: node.z, color: node.background->0 },
            )
            &&& !has_background(node) ==> quads_of(visits.push(visit)) == quads_of(visits)
            &&& has_label(node) ==> texts_of(visits.push(visit), rem) == texts_of(
                visits,
                rem,
            ).push(
                TextNode {
                    center: node.local,
                    entity: visit.entity,
                    size_px: label_size(node, rem),
                    color: label_color(node),
                },
            )
            &&& !has_label(node) ==> texts_of(visits.push(visit), rem) == texts_of(visits, rem)
        },
{
    let more = visits.push(visit);
    assert(more.drop_last() =~= visits);
    if let Some(node) = visit.node {
        nodes_are_drawn_as_they_are(node, rem);
    }
}

/// One more visit adds to the print what it draws: a background by its place in
/// the walk, where it lies and its colour; then a label by its text, and by where
/// it lies, its size, its colour and its font.
pub proof fn each_visit_prints_its_own(visits: Seq<VisitModel>, visit: VisitModel, rem: Scalar)
    requires
        visits.len() <= u32::MAX,
    ensures
        contents(Seq::empty(), rem).len() == 0,
        visit.node is None ==> contents(visits.push(visit), rem) == contents(visits, rem),
        visit.node matches Some(node) ==> {
            let back = Content::Background {
                order: visits.len() as u32,
                center: node.local,
                size: node.size,
                color: node.background->0,
            };
            let label = Content::Label {
                text: trimmed(node.text->0),
                center: node.local,
                font_size: label_size(node, rem),
                color: label_color(node),
                font: node.font->0,
            };
            let before = contents(visits, rem);
            &&& has_background(node) && has_label(node) ==> contents(visits.push(visit), rem)
                == before.push(back).push(label)
            &&& has_background(node) && !has_label(node) ==> contents(visits.push(visit), rem)
                == before.push(back)
            &&& !has_background(node) && has_label(node) ==> contents(visits.push(visit), rem)
                == before.push(label)
            &&& !has_background(node) && !has_label(node) ==> contents(visits.push(visit), rem)
                == before
        },
{
    let more = visits.push(visit);
    assert(more.drop_last() =~= visits);
    let before = contents(visits, rem);
    let back = background_of(more.len() - 1, visit);
    let label = label_of(visit, rem);
    assert(contents(more, rem) == before + back + label);
    match visit.node {
        Some(node) => {
            nodes_are_drawn_as_they_are(node, rem);
            if back.len() == 1 && label.len() == 1 {
                assert(before + back + label =~= before.push(back[0]).push(label[0]));
            } else if back.len() == 1 {
                assert(before + back + label =~= before.push(back[0]));
            } else if label.len() == 1 {
                assert(before + back + label =~= before.push(label[0]));
            } else {
                assert(before + back + label =~= before);
            }
        },
        None => {
            assert(before + back + label =~= before);
        },
    }
}

/// The print has one mark for each thing that is drawn, in order: a background's
/// is all that is known of it, and a label's is the print of its text and that of
/// its style.
pub proof fn marks_tell_each_thing(visits: Seq<VisitModel>, rem: Scalar, i: int)
    requires
        0 <= i < contents(visits, rem).len(),
    ensures
        printed(visits, rem).len() == contents(visits, rem).len(),
        match contents(visits, rem)[i] {
            Content::Background { order, center, size, color } => printed(visits, rem)[i]
                == (MarkModel::Background { order, center, size, color }),
            Content::Label { text, center, font_size, color, font } => printed(visits, rem)[i]
                == (MarkModel::Label {
                text: char_print(text),
                style: style_print(center, font_size, color, font),
            }),
        },
{
}

/// Two panels that were walked alike up to a node, whose label can be seen and
/// differs in colour, size, place, text or font, have different prints: so the
/// panel is built anew.
pub proof fn a_label_changed_is_noticed(
    before: Seq<VisitModel>,
    a: VisitModel,
    b: VisitModel,
    rem: Scalar,
    panel: Point,
    resolution: Point,
)
    requires
        before.len() < u32::MAX,
        a.node is Some,
        b.node is Some,
        has_label(a.node->0),
        has_label(b.node->0),
        label_color(a.node->0) != label_color(b.node->0) || label_size(a.node->0, rem)
            != label_size(b.node->0, rem) || (a.node->0).local != (b.node->0).local || trimmed(
            (a.node->0).text->0,
        ) != trimmed((b.node->0).text->0) || (a.node->0).font != (b.node->0).font,
    ensures
        print_of(panel, resolution, before.push(a), rem) != print_of(
            panel,
            resolution,
            before.push(b),
            rem,
        ),
{
    each_visit_prints_its_own(before, a, rem);
    each_visit_prints_its_own(before, b, rem);
    let x = contents(before.push(a), rem);
    let y = contents(before.push(b), rem);
    assert(x.last() != y.last());
    if print_of(panel, resolution, before.push(a), rem) == print_of(
        panel,
        resolution,
        before.push(b),
        rem,
    ) {
        changes_are_noticed(
            (panel, resolution, before.push(a), rem),
            (panel, resolution, before.push(b), rem),
        );
    }
}

/// So with a background that can be seen: its colour, its place, its extent.
pub proof fn a_background_changed_is_noticed(
    before: Seq<VisitModel>,
    a: VisitModel,
    b: VisitModel,
    rem: Scalar,
    panel: Point,
    resolution: Point,
)
    requires
        before.len() < u32::MAX,
        a.node is Some,
        b.node is Some,
        has_background(a.node->0),
        has_background(b.node->0),
        (a.node->0).background != (b.node->0).background || (a.node->0).local != (b.node->0).local
            || (a.node->0).size != (b.node->0).size,
    ensures
        print_of(panel, resolution, before.push(a), rem) != print_of(
            panel,
            resolution,
            before.push(b),
            rem,
        ),
{
    each_visit_prints_its_own(before, a, rem);
    each_visit_prints_its_own(before, b, rem);
    let n = contents(before, rem).len() as int;
    let x = contents(before.push(a), rem);
    let y = contents(before.push(b), rem);
    assert(x[n] != y[n]);
    if print_of(panel, resolution, before.push(a), rem) == print_of(
        panel,
        resolution,
        before.push(b),
        rem,
    ) {
        changes_are_noticed(
            (panel, resolution, before.push(a), rem),
            (panel, resolution, before.push(b), rem),
        );
    }
}

/// A thing that can be seen and one that cannot have different prints.
pub proof fn what_comes_or_goes_is_noticed(
    before: Seq<VisitModel>,
    a: VisitModel,
    b: VisitModel,
    rem: Scalar,
    panel: Point,
    resolution: Point,
)
    requires
        before.len() < u32::MAX,
        a.node is Some,
        b.node is Some,
        has_background(a.node->0) != has_background(b.node->0) || has_label(a.node->0) != has_label(
            b.node->0,
        ),
    ensures
        print_of(panel, resolution, before.push(a), rem) != print_of(
            panel,
            resolution,
            before.push(b),
            rem,
        ),
{
    each_visit_prints_its_own(before, a, rem);
    each_visit_prints_its_own(before, b, rem);
    let n = contents(before, rem).len() as int;
    let x = contents(before.push(a), rem);
    let y = contents(before.push(b), rem);
    assert(x != y) by {
        if x.len() == y.len() {
            assert(x[n] != y[n]);
        }
    }
    if print_of(panel, resolution, before.push(a), rem) == print_of(
        panel,
        resolution,
        before.push(b),
        rem,
    ) {
        changes_are_noticed(
            (panel, resolution, before.push(a), rem),
            (panel, resolution, before.push(b), rem),
        );
    }
}

// ── Geometry ──

/// The corners of a quad are told counterclockwise from the lower left, each at
/// the quad's depth.
pub proof fn quads_have_their_corners(quads: Seq<Quad>, i: int)
    requires
        0 <= i < quads.len(),
    ensures
        ({
            let q = quads[i];
            let all = all_corners(quads);
            &&& all.len() == 4 * quads.len()
            &&& all[4 * i] == (Vertex { x: q.low.x, y: q.low.y, z: q.z })
            &&& all[4 * i + 1] == (Vertex { x: q.high.x, y: q.low.y, z: q.z })
            &&& all[4 * i + 2] == (Vertex { x: q.high.x, y: q.high.y, z: q.z })
            &&& all[4 * i + 3] == (Vertex { x: q.low.x, y: q.high.y, z: q.z })
        }),
    decreases quads.len(),
{
    let rest = quads.drop_last();
    corners_count(rest);
    corners_count(quads);
    let all = all_corners(quads);
    assert(all == all_corners(rest) + corners(quads.last()));
    if i < rest.len() {
        quads_have_their_corners(rest, i);
        assert(rest[i] == quads[i]);
    }
}

/// Each quad is two triangles of its own four corners, both counterclockwise.
pub proof fn quads_have_two_triangles(count: nat, i: int)
    requires
        4 * count <= u32::MAX,
        0 <= i < count,
    ensures
        ({
            let all = all_triangles(count);
            &&& all.len() == 6 * count
            &&& all[6 * i] == 4 * i
            &&& all[6 * i + 1] == 4 * i + 1
            &&& all[6 * i + 2] == 4 * i + 2
            &&& all[6 * i + 3] == 4 * i
            &&& all[6 * i + 4] == 4 * i + 2
            &&& all[6 * i + 5] == 4 * i + 3
        }),
    decreases count,
{
    let less = (count - 1) as nat;
    triangles_count(less);
    triangles_count(count);
    let all = all_triangles(count);
    assert(all == all_triangles(less) + triangles(4 * (count - 1)));
    if i < less {
        quads_have_two_triangles(less, i);
    }
}

proof fn triangles_count(count: nat)
    ensures
        all_triangles(count).len() == 6 * count,
    decreases count,
{
    if count > 0 {
        triangles_count((count - 1) as nat);
    }
}

/// A buffer that draws quads has, for each of them, its four corners in its own
/// colour, facing the viewer, and its two triangles; and nothing else.
pub proof fn buffers_hold_their_quads(buf: Buf, quads: Seq<Quad>, i: int, c: int)
    requires
        buf.draws(quads),
        0 <= i < quads.len(),
        0 <= c < 4,
        4 * quads.len() <= u32::MAX,
    ensures
        buf.positions@.len() == 4 * quads.len(),
        buf.colors@.len() == 4 * quads.len(),
        buf.normals@.len() == 4 * quads.len(),
        buf.uvs@.len() == 4 * quads.len(),
        buf.indices@.len() == 6 * quads.len(),
        buf.colors@[4 * i + c] == quads[i].color,
        buf.normals@[4 * i + c] == (Vertex {
            x: Scalar { bits: 0 },
            y: Scalar { bits: 0 },
            z: Scalar { bits: 0x3F80_0000 },
        }),
        buf.uvs@[4 * i + c] == (Point { x: Scalar { bits: 0 }, y: Scalar { bits: 0 } }),
        buf.positions@[4 * i + c].z == quads[i].z,
        buf.positions@[4 * i + c].x == (if c == 0 || c == 3 {
            quads[i].low.x
        } else {
            quads[i].high.x
        }),
        buf.positions@[4 * i + c].y == (if c < 2 {
            quads[i].low.y
        } else {
            quads[i].high.y
        }),
        buf.indices@[6 * i] == 4 * i && buf.indices@[6 * i + 1] == 4 * i + 1 && buf.indices@[6 * i
            + 2] == 4 * i + 2,
        buf.indices@[6 * i + 3] == 4 * i && buf.indices@[6 * i + 4] == 4 * i + 2
            && buf.indices@[6 * i + 5] == 4 * i + 3,
{
    quads_have_their_corners(quads, i);
    quads_have_two_triangles(quads.len(), i);
    assert((4 * i + c) / 4 == i);
}

/// The stale labels of a canvas are those of its children that are labels.
pub proof fn labels_among_children_are_stale(labels: Seq<u64>, child: u64)
    ensures
        among(labels)(child) == labels.contains(child),
{
}

/// Quads face the viewer and take nothing of a texture.
pub proof fn quads_face_the_viewer()
    ensures
        facing() == (Vertex {
            x: Scalar { bits: 0 },
            y: Scalar { bits: 0 },
            z: Scalar { bits: 0x3F80_0000 },
        }),
        no_texture() == (Point { x: Scalar { bits: 0 }, y: Scalar { bits: 0 } }),
{
}

// ── The walk ──

/// The children of an entity are told in the order of their links.
pub proof fn children_go_in_link_order(links: Seq<Link>, link: Link, id: u64)
    ensures
        children_of(Seq::empty(), id).len() == 0,
        link.parent == id ==> children_of(links.push(link), id) == children_of(links, id).push(
            link.child,
        ),
        link.parent != id ==> children_of(links.push(link), id) == children_of(links, id),
{
    assert(links.push(link).drop_last() =~= links);
}

/// A walk takes the front of its queue and puts that one's children behind all
/// the others: so it goes level by level. It starts at the root.
pub proof fn walk_goes_level_by_level(links: Seq<Link>, front: u64, rest: Seq<u64>, steps: nat)
    ensures
        walked(links, seq![front] + rest, steps + 1) == seq![front] + walked(
            links,
            rest + children_of(links, front),
            steps,
        ),
        walked(links, Seq::empty(), steps).len() == 0,
        walked(links, rest, 0).len() == 0,
        level_order(links, front) == seq![front] + walked(
            links,
            children_of(links, front),
            links.len(),
        ),
{
    let queue = seq![front] + rest;
    assert(queue.skip(1) =~= rest);
    let alone = seq![front];
    assert(alone.skip(1) + children_of(links, front) =~= children_of(links, front));
}

} // verus!
