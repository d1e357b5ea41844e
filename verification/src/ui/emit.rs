//! From laid-out nodes to geometry, and when to build it anew.

use vstd::prelude::*;

use crate::lineage::holds_id;
use crate::scalar::{INFINITY_BITS, ONE_BITS, Point, SIGN_BIT, Scalar, ZERO_BITS};
use crate::ui::mesh::{
    all_corners, char_print, corners_count, print_chars, print_text_style, style_print,
    styles_are_told_apart, texts_are_told_apart, Buf, FontKey, FontModel, Quad, Tint,
};
use crate::unicode::{trim, trimmed};

verus! {

// ── Nodes ──

/// A laid-out node.
pub struct NodeFacts {
    /// The centre of the node in the layout.
    pub center: Point,
    pub size: Point,
    /// The centre on the panel.
    pub local: Point,
    /// The lower left corner on the panel.
    pub low: Point,
    /// The upper right corner on the panel.
    pub high: Point,
    /// How far the node is lifted off the panel.
    pub z: Scalar,
    pub background: Option<Tint>,
    pub text: Option<String>,
    pub font: Option<FontKey>,
    /// The font's size where it is given in pixels.
    pub font_px: Option<Scalar>,
    pub text_color: Option<Tint>,
}

/// What a laid-out node is.
pub struct NodeModel {
    pub center: Point,
    pub size: Point,
    pub local: Point,
    pub low: Point,
    pub high: Point,
    pub z: Scalar,
    pub background: Option<Tint>,
    pub text: Option<Seq<char>>,
    pub font: Option<FontModel>,
    pub font_px: Option<Scalar>,
    pub text_color: Option<Tint>,
}

impl View for NodeFacts {
    type V = NodeModel;

    open spec fn view(&self) -> NodeModel {
        NodeModel {
            center: self.center,
            size: self.size,
            local: self.local,
            low: self.low,
            high: self.high,
            z: self.z,
            background: self.background,
            text: match self.text {
                Some(text) => Some(text@),
                None => None,
            },
            font: match self.font {
                Some(font) => Some(font@),
                None => None,
            },
            font_px: self.font_px,
            text_color: self.text_color,
        }
    }
}

/// An entity that the walk visits, with its node where it has one.
pub struct Visit {
    pub entity: u64,
    pub node: Option<NodeFacts>,
}

/// What a visit finds.
pub struct VisitModel {
    pub entity: u64,
    pub node: Option<NodeModel>,
}

impl View for Visit {
    type V = VisitModel;

    open spec fn view(&self) -> VisitModel {
        VisitModel {
            entity: self.entity,
            node: match self.node {
                Some(node) => Some(node@),
                None => None,
            },
        }
    }
}

/// What visits find.
pub open spec fn visits_of(visits: Seq<Visit>) -> Seq<VisitModel> {
    visits.map_values(|v: Visit| v@)
}

/// Being a number other than the infinities.
pub open spec fn finite(x: Scalar) -> bool {
    x.magnitude() < INFINITY_BITS
}

fn is_finite(x: Scalar) -> (r: bool)
    ensures
        r == finite(x),
{
    if x.bits >= SIGN_BIT {
        x.bits - SIGN_BIT < INFINITY_BITS
    } else {
        x.bits < INFINITY_BITS
    }
}

/// White.
pub open spec fn white_tint() -> Tint {
    Tint {
        red: Scalar { bits: ONE_BITS },
        green: Scalar { bits: ONE_BITS },
        blue: Scalar { bits: ONE_BITS },
        alpha: Scalar { bits: ONE_BITS },
    }
}

impl NodeModel {
    /// Whether the layout of the node is finished. An unfinished node would
    /// draw triangles that reach to infinity.
    pub open spec fn laid_out(self) -> bool {
        finite(self.center.x) && finite(self.center.y)
    }

    /// Whether the node's background is drawn: it is not fully transparent, and
    /// the node has an extent.
    pub open spec fn draws_background(self) -> bool {
        let zero = Scalar { bits: ZERO_BITS };
        &&& self.laid_out()
        &&& self.background matches Some(tint) && zero.less(tint.alpha)
        &&& zero.less(self.size.x)
        &&& zero.less(self.size.y)
    }

    /// The quad of the node's background.
    pub open spec fn quad(self) -> Quad {
        Quad { low: self.low, high: self.high, z: self.z, color: self.background->0 }
    }

    /// Whether the node's text is drawn: there is more to it than white space,
    /// and it has a font.
    pub open spec fn draws_text(self) -> bool {
        &&& self.laid_out()
        &&& self.text matches Some(text) && trimmed(text).len() > 0
        &&& self.font is Some
    }

    /// The size of the node's text, given the root's.
    pub open spec fn text_size(self, rem: Scalar) -> Scalar {
        match self.font_px {
            Some(px) => px,
            None => rem,
        }
    }

    /// The colour of the node's text.
    pub open spec fn tint(self) -> Tint {
        match self.text_color {
            Some(tint) => tint,
            None => white_tint(),
        }
    }
}

// ── What is drawn ──

/// A thing on the panel.
pub enum Content {
    Background { order: u32, center: Point, size: Point, color: Tint },
    Label { text: Seq<char>, center: Point, font_size: Scalar, color: Tint, font: FontModel },
}

/// The background that a visit draws, as a list of none or one.
pub open spec fn background_of(order: int, visit: VisitModel) -> Seq<Content> {
    match visit.node {
        Some(node) if node.draws_background() => seq![
            Content::Background {
                order: order as u32,
                center: node.local,
                size: node.size,
                color: node.background->0,
            },
        ],
        _ => Seq::empty(),
    }
}

/// The label that a visit draws, as a list of none or one.
pub open spec fn label_of(visit: VisitModel, rem: Scalar) -> Seq<Content> {
    match visit.node {
        Some(node) if node.draws_text() => seq![
            Content::Label {
                text: trimmed(node.text->0),
                center: node.local,
                font_size: node.text_size(rem),
                color: node.tint(),
                font: node.font->0,
            },
        ],
        _ => Seq::empty(),
    }
}

/// Everything the visits draw, in the order of the walk.
pub open spec fn contents(visits: Seq<VisitModel>, rem: Scalar) -> Seq<Content>
    decreases visits.len(),
{
    if visits.len() == 0 {
        Seq::empty()
    } else {
        contents(visits.drop_last(), rem) + background_of(visits.len() - 1, visits.last())
            + label_of(visits.last(), rem)
    }
}

/// The quads of the backgrounds.
pub open spec fn quads_of(visits: Seq<VisitModel>) -> Seq<Quad>
    decreases visits.len(),
{
    if visits.len() == 0 {
        Seq::empty()
    } else {
        match visits.last().node {
            Some(node) if node.draws_background() => quads_of(visits.drop_last()).push(
                node.quad(),
            ),
            _ => quads_of(visits.drop_last()),
        }
    }
}

/// A label to build a glyph mesh for.
#[derive(Clone, Copy, Debug, PartialEq, Eq, Structural)]
pub struct TextNode {
    pub center: Point,
    pub entity: u64,
    pub size_px: Scalar,
    pub color: Tint,
}

/// The labels.
pub open spec fn texts_of(visits: Seq<VisitModel>, rem: Scalar) -> Seq<TextNode>
    decreases visits.len(),
{
    if visits.len() == 0 {
        Seq::empty()
    } else {
        match visits.last().node {
            Some(node) if node.draws_text() => texts_of(visits.drop_last(), rem).push(
                TextNode {
                    center: node.local,
                    entity: visits.last().entity,
                    size_px: node.text_size(rem),
                    color: node.tint(),
                },
            ),
            _ => texts_of(visits.drop_last(), rem),
        }
    }
}

// ── Prints ──

/// The print of one thing on the panel.
pub enum Mark {
    Background { order: u32, center: Point, size: Point, color: Tint },
    Label { text: Vec<u32>, style: Vec<u32> },
}

/// What a mark is.
pub enum MarkModel {
    Background { order: u32, center: Point, size: Point, color: Tint },
    Label { text: Seq<u32>, style: Seq<u32> },
}

impl View for Mark {
    type V = MarkModel;

    open spec fn view(&self) -> MarkModel {
        match *self {
            Mark::Background { order, center, size, color } => MarkModel::Background {
                order,
                center,
                size,
                color,
            },
            Mark::Label { text, style } => MarkModel::Label { text: text@, style: style@ },
        }
    }
}

/// The print of a thing on the panel.
pub open spec fn mark_of(content: Content) -> MarkModel {
    match content {
        Content::Background { order, center, size, color } => MarkModel::Background {
            order,
            center,
            size,
            color,
        },
        Content::Label { text, center, font_size, color, font } => MarkModel::Label {
            text: char_print(text),
            style: style_print(center, font_size, color, font),
        },
    }
}

/// What marks are.
pub open spec fn marks_of(marks: Seq<Mark>) -> Seq<MarkModel> {
    marks.map_values(|m: Mark| m@)
}

/// The print of what visits draw.
pub open spec fn printed(visits: Seq<VisitModel>, rem: Scalar) -> Seq<MarkModel> {
    contents(visits, rem).map_values(|c: Content| mark_of(c))
}

/// Buffers that are kept from frame to frame.
pub struct WorldUiMeshScratch {
    pub rects: Buf,
    pub texts: Vec<TextNode>,
}

/// A quad more and a print more.
proof fn mark_added(marks: Seq<Mark>, mark: Mark)
    ensures
        marks_of(marks.push(mark)) == marks_of(marks).push(mark@),
{
    assert(marks_of(marks.push(mark)) =~= marks_of(marks).push(mark@));
}

fn emit_background(order: u32, node: &NodeFacts, rects: &mut Buf, marks: &mut Vec<Mark>)
    requires
        old(rects).positions@.len() + 4 <= u32::MAX,
    ensures
        node@.draws_background() ==> {
            &&& forall|quads: Seq<Quad>| #[trigger]
                old(rects).draws(quads) ==> final(rects).draws(quads.push(node@.quad()))
            &&& marks_of(final(marks)@) == marks_of(old(marks)@).push(
                MarkModel::Background {
                    order,
                    center: node@.local,
                    size: node@.size,
                    color: node@.background->0,
                },
            )
        },
        !node@.draws_background() ==> *final(rects) == *old(rects) && *final(marks) == *old(marks),
{
    if !is_finite(node.center.x) || !is_finite(node.center.y) {
        return ;
    }
    let zero = Scalar { bits: ZERO_BITS };
    if let Some(tint) = node.background {
        if zero.lt(tint.alpha) && zero.lt(node.size.x) && zero.lt(node.size.y) {
            rects.quad(Quad { low: node.low, high: node.high, z: node.z, color: tint });
            let mark = Mark::Background {
                order,
                center: node.local,
                size: node.size,
                color: tint,
            };
            proof {
                mark_added(marks@, mark);
            }
            marks.push(mark);
        }
    }
}

fn emit_text(
    entity: u64,
    node: &NodeFacts,
    rem: Scalar,
    texts: &mut Vec<TextNode>,
    marks: &mut Vec<Mark>,
)
    ensures
        node@.draws_text() ==> {
            &&& final(texts)@ == old(texts)@.push(
                TextNode {
                    center: node@.local,
                    entity,
                    size_px: node@.text_size(rem),
                    color: node@.tint(),
                },
            )
            &&& marks_of(final(marks)@) == marks_of(old(marks)@).push(
                MarkModel::Label {
                    text: char_print(trimmed(node@.text->0)),
                    style: style_print(
                        node@.local,
                        node@.text_size(rem),
                        node@.tint(),
                        node@.font->0,
                    ),
                },
            )
        },
        !node@.draws_text() ==> *final(texts) == *old(texts) && *final(marks) == *old(marks),
{
    if !is_finite(node.center.x) || !is_finite(node.center.y) {
        return ;
    }
    if let (Some(text), Some(font)) = (&node.text, &node.font) {
        let shown = trim(text.as_str());
        let mut letters: Vec<u32> = Vec::new();
        print_chars(&mut letters, shown.as_str());
        assert(letters@ =~= char_print(shown@));
        if letters.len() > 0 {
            let size_px = match node.font_px {
                Some(px) => px,
                None => rem,
            };
            let one = Scalar { bits: ONE_BITS };
            let color = match node.text_color {
                Some(tint) => tint,
                None => Tint { red: one, green: one, blue: one, alpha: one },
            };
            let mut style: Vec<u32> = Vec::new();
            print_text_style(&mut style, node.local, size_px, color, font);
            assert(style@ =~= style_print(node.local, size_px, color, font@));
            let mark = Mark::Label { text: letters, style };
            proof {
                mark_added(marks@, mark);
            }
            marks.push(mark);
            texts.push(TextNode { center: node.local, entity, size_px, color });
        }
    }
}

/// Collect what the visits draw: the background quads, the labels and the print
/// of both.
pub fn emit(visits: &Vec<Visit>, rem: Scalar, scratch: &mut WorldUiMeshScratch) -> (r: Vec<Mark>)
    requires
        4 * visits@.len() <= u32::MAX,
    ensures
        final(scratch).rects.draws(quads_of(visits_of(visits@))),
        final(scratch).texts@ == texts_of(visits_of(visits@), rem),
        marks_of(r@) == printed(visits_of(visits@), rem),
{
    scratch.rects.clear();
    scratch.texts.clear();
    let ghost all = visits_of(visits@);
    let mut marks: Vec<Mark> = Vec::new();
    let mut order: usize = 0;
    assert(marks_of(marks@) =~= printed(all.take(0), rem));
    assert(scratch.texts@ =~= texts_of(all.take(0), rem));
    assert(all.take(0).len() == 0);
    while order < visits.len()
        invariant
            all == visits_of(visits@),
            4 * visits@.len() <= u32::MAX,
            order <= visits@.len(),
            scratch.rects.draws(quads_of(all.take(order as int))),
            quads_of(all.take(order as int)).len() <= order,
            scratch.texts@ == texts_of(all.take(order as int), rem),
            marks_of(marks@) == printed(all.take(order as int), rem),
        decreases visits@.len() - order,
    {
        let visit: &Visit = &visits[order];
        let ghost done = all.take(order as int);
        let ghost more = all.take(order + 1);
        proof {
            assert(more.drop_last() == done);
            assert(more.last() == visit@);
            corners_count(quads_of(done));
        }
        if let Some(node) = &visit.node {
            emit_background(order as u32, node, &mut scratch.rects, &mut marks);
            emit_text(visit.entity, node, rem, &mut scratch.texts, &mut marks);
        }
        proof {
            assert(marks_of(marks@) =~= printed(done, rem) + background_of(
                order as int,
                visit@,
            ).map_values(|c: Content| mark_of(c)) + label_of(visit@, rem).map_values(
                |c: Content| mark_of(c),
            ));
            assert(printed(more, rem) =~= printed(done, rem) + background_of(
                order as int,
                visit@,
            ).map_values(|c: Content| mark_of(c)) + label_of(visit@, rem).map_values(
                |c: Content| mark_of(c),
            ));
        }
        order += 1;
    }
    assert(all.take(order as int) == all);
    marks
}

// ── Building anew ──

/// The print of the geometry that a canvas last built.
pub struct WorldUiMeshBuilt {
    pub panel: Point,
    pub resolution: Point,
    pub marks: Vec<Mark>,
}

/// What a print tells.
pub struct BuiltModel {
    pub panel: Point,
    pub resolution: Point,
    pub marks: Seq<MarkModel>,
}

impl View for WorldUiMeshBuilt {
    type V = BuiltModel;

    open spec fn view(&self) -> BuiltModel {
        BuiltModel {
            panel: self.panel,
            resolution: self.resolution,
            marks: marks_of(self.marks@),
        }
    }
}

/// The print of a panel whose walk makes these visits.
pub open spec fn print_of(
    panel: Point,
    resolution: Point,
    visits: Seq<VisitModel>,
    rem: Scalar,
) -> BuiltModel {
    BuiltModel { panel, resolution, marks: printed(visits, rem) }
}

fn same_numbers(a: &Vec<u32>, b: &Vec<u32>) -> (r: bool)
    ensures
        r == (a@ == b@),
{
    if a.len() != b.len() {
        return false;
    }
    let mut i: usize = 0;
    while i < a.len()
        invariant
            i <= a@.len(),
            a@.len() == b@.len(),
            forall|k: int| 0 <= k < i ==> a@[k] == b@[k],
        decreases a@.len() - i,
    {
        if a[i] != b[i] {
            return false;
        }
        i += 1;
    }
    assert(a@ =~= b@);
    true
}

fn same_mark(a: &Mark, b: &Mark) -> (r: bool)
    ensures
        r == (a@ == b@),
{
    match (a, b) {
        (
            Mark::Background { order: o1, center: c1, size: s1, color: t1 },
            Mark::Background { order: o2, center: c2, size: s2, color: t2 },
        ) => *o1 == *o2 && *c1 == *c2 && *s1 == *s2 && *t1 == *t2,
        (Mark::Label { text: x1, style: y1 }, Mark::Label { text: x2, style: y2 }) => same_numbers(
            x1,
            x2,
        ) && same_numbers(y1, y2),
        _ => false,
    }
}

fn same_marks(a: &Vec<Mark>, b: &Vec<Mark>) -> (r: bool)
    ensures
        r == (marks_of(a@) == marks_of(b@)),
{
    assert(marks_of(a@).len() == a@.len() && marks_of(b@).len() == b@.len());
    if a.len() != b.len() {
        return false;
    }
    let mut i: usize = 0;
    while i < a.len()
        invariant
            i <= a@.len(),
            a@.len() == b@.len(),
            forall|k: int| 0 <= k < i ==> #[trigger] marks_of(a@)[k] == marks_of(b@)[k],
        decreases a@.len() - i,
    {
        assert(marks_of(a@)[i as int] == a@[i as int]@);
        assert(marks_of(b@)[i as int] == b@[i as int]@);
        if !same_mark(&a[i], &b[i]) {
            return false;
        }
        i += 1;
    }
    assert(marks_of(a@) =~= marks_of(b@));
    true
}

/// What to do about a canvas in a frame.
#[derive(Clone, Copy, Debug, PartialEq, Eq, Structural)]
pub enum PanelStep {
    /// Not a world canvas in mesh mode, or one without pixels.
    Skip,
    /// No template any more: drop the labels it emitted, and its print.
    Clear,
    /// Walk its tree.
    Walk,
}

/// What to do about a canvas in a frame.
pub fn panel_step(world: bool, mesh_mode: bool, live: bool, resolution: Point) -> (r: PanelStep)
    ensures
        r == ({
            let zero = Scalar { bits: ZERO_BITS };
            if !world || !mesh_mode {
                PanelStep::Skip
            } else if !live {
                PanelStep::Clear
            } else if resolution.x.at_most(zero) || resolution.y.at_most(zero) {
                PanelStep::Skip
            } else {
                PanelStep::Walk
            }
        }),
{
    let zero = Scalar { bits: ZERO_BITS };
    if !world || !mesh_mode {
        PanelStep::Skip
    } else if !live {
        PanelStep::Clear
    } else if resolution.x.le(zero) || resolution.y.le(zero) {
        PanelStep::Skip
    } else {
        PanelStep::Walk
    }
}

/// Being one of `ids`.
pub open spec fn among(ids: Seq<u64>) -> spec_fn(u64) -> bool {
    |id: u64| ids.contains(id)
}

/// The children of a canvas that hold emitted labels, which go before new ones
/// are built.
pub fn stale_texts(children: &Vec<u64>, labels: &Vec<u64>) -> (r: Vec<u64>)
    ensures
        r@ == children@.filter(among(labels@)),
{
    let mut out: Vec<u64> = Vec::new();
    let mut i: usize = 0;
    proof {
        reveal(Seq::filter);
        assert(children@.take(0).filter(among(labels@)) =~= Seq::<u64>::empty());
    }
    while i < children.len()
        invariant
            i <= children@.len(),
            out@ == children@.take(i as int).filter(among(labels@)),
        decreases children@.len() - i,
    {
        proof {
            reveal(Seq::filter);
            assert(children@.take(i + 1).drop_last() == children@.take(i as int));
            assert(children@.take(i + 1).last() == children@[i as int]);
        }
        if holds_id(labels, children[i]) {
            out.push(children[i]);
        }
        i += 1;
    }
    assert(children@.take(i as int) == children@);
    out
}

/// A canvas's geometry: the print it was built from, and the background mesh.
pub struct PanelMesh {
    pub built: Option<WorldUiMeshBuilt>,
    pub mesh: Option<u64>,
}

/// What a canvas's geometry is.
pub struct PanelModel {
    pub built: Option<BuiltModel>,
    pub mesh: Option<u64>,
}

impl View for PanelMesh {
    type V = PanelModel;

    open spec fn view(&self) -> PanelModel {
        PanelModel {
            built: match self.built {
                Some(built) => Some(built@),
                None => None,
            },
            mesh: self.mesh,
        }
    }
}

impl PanelModel {
    /// After the template went: no print. The background stays.
    pub open spec fn cleared(self) -> PanelModel {
        PanelModel { built: None, ..self }
    }

    /// After a build: the fresh background where there is any to draw, and the
    /// print where every label could be built. A label whose font is still
    /// loading leaves the print out, so the next frame tries again.
    pub open spec fn rebuilt(
        self,
        print: BuiltModel,
        empty: bool,
        fresh: u64,
        ready: bool,
    ) -> PanelModel {
        PanelModel {
            built: if ready {
                Some(print)
            } else {
                None
            },
            mesh: if empty {
                None
            } else {
                Some(fresh)
            },
        }
    }
}

impl PanelMesh {
    /// Whether the geometry has to be built anew.
    pub fn needs_rebuild(&self, print: &WorldUiMeshBuilt) -> (r: bool)
        ensures
            r == (self@.built != Some(print@)),
    {
        match &self.built {
            Some(built) => !(built.panel == print.panel && built.resolution == print.resolution
                && same_marks(&built.marks, &print.marks)),
            None => true,
        }
    }

    /// The template went.
    pub fn clear(&mut self)
        ensures
            final(self)@ == old(self)@.cleared(),
    {
        self.built = None;
    }

    /// The geometry was built anew; `labels` tells of each label whether it
    /// could be built.
    pub fn rebuild(
        &mut self,
        print: WorldUiMeshBuilt,
        rects: &Buf,
        fresh: u64,
        labels: &Vec<bool>,
    )
        ensures
            final(self)@ == old(self)@.rebuilt(
                print@,
                rects.positions@.len() == 0,
                fresh,
                !labels@.contains(false),
            ),
    {
        let mut ready: bool = true;
        let mut i: usize = 0;
        while i < labels.len()
            invariant
                i <= labels@.len(),
                ready == !labels@.take(i as int).contains(false),
            decreases labels@.len() - i,
        {
            proof {
                assert(labels@.take(i + 1) =~= labels@.take(i as int).push(labels@[i as int]));
                assert(labels@.take(i + 1)[i as int] == labels@[i as int]);
                assert forall|b: bool| labels@.take(i as int).contains(b) implies labels@.take(
                    i + 1,
                ).contains(b) by {
                    let k = choose|k: int|
                        0 <= k < labels@.take(i as int).len() && labels@.take(i as int)[k] == b;
                    assert(labels@.take(i + 1)[k] == b);
                }
            }
            if !labels[i] {
                ready = false;
            }
            i += 1;
        }
        assert(labels@.take(i as int) == labels@);
        self.mesh = if rects.is_empty() {
            None
        } else {
            Some(fresh)
        };
        self.built = if ready {
            Some(print)
        } else {
            None
        };
    }
}

// ── Laws ──

proof fn marks_are_told_apart(a: Content, b: Content)
    requires
        mark_of(a) == mark_of(b),
    ensures
        a == b,
{
    match (a, b) {
        (
            Content::Label { text: t1, center: c1, font_size: s1, color: k1, font: f1 },
            Content::Label { text: t2, center: c2, font_size: s2, color: k2, font: f2 },
        ) => {
            texts_are_told_apart(t1, t2);
            styles_are_told_apart((c1, s1, k1, f1), (c2, s2, k2, f2));
        },
        _ => {},
    }
}

/// Panels with one print show the same things: every change of a text, a style,
/// a colour, a place or a size leads to a new build, and so does another size
/// or resolution of the panel.
pub proof fn changes_are_noticed(
    a: (Point, Point, Seq<VisitModel>, Scalar),
    b: (Point, Point, Seq<VisitModel>, Scalar),
)
    requires
        print_of(a.0, a.1, a.2, a.3) == print_of(b.0, b.1, b.2, b.3),
    ensures
        a.0 == b.0,
        a.1 == b.1,
        contents(a.2, a.3) == contents(b.2, b.3),
{
    let x = contents(a.2, a.3);
    let y = contents(b.2, b.3);
    let p = printed(a.2, a.3);
    let q = printed(b.2, b.3);
    assert(p.len() == x.len() && q.len() == y.len());
    assert forall|i: int| 0 <= i < x.len() implies x[i] == y[i] by {
        assert(p[i] == mark_of(x[i]));
        assert(q[i] == mark_of(y[i]));
        marks_are_told_apart(x[i], y[i]);
    }
    assert(x =~= y);
}

/// A canvas whose labels could all be built is left alone while its print stays
/// the same; one with a label missing is built again.
pub proof fn settled_panel_is_left_alone(
    panel: PanelModel,
    print: BuiltModel,
    empty: bool,
    fresh: u64,
)
    ensures
        panel.rebuilt(print, empty, fresh, true).built == Some(print),
        panel.rebuilt(print, empty, fresh, false).built != Some(print),
        panel.cleared().built != Some(print),
        panel.cleared().mesh == panel.mesh,
{
}

/// There is a background mesh after a build exactly when some background is
/// drawn.
pub proof fn background_is_shown(
    panel: PanelModel,
    print: BuiltModel,
    visits: Seq<VisitModel>,
    fresh: u64,
    ready: bool,
)
    ensures
        panel.rebuilt(print, all_corners(quads_of(visits)).len() == 0, fresh, ready).mesh is Some
            <==> quads_of(visits).len() > 0,
{
    corners_count(quads_of(visits));
}

} // verus!
