//! Serialized scenes, and the leaked editor interface that is pruned from them
//! on load.

use vstd::prelude::*;

use crate::lineage::{
    ancestor, ancestors_add, at_or_under_marked, has_marked_ancestor, holds_id,
    is_at_or_under_marked, parent_of, under_marked, Link,
};
use crate::text::{find_first, position, same_text};

verus! {

/// A component of a serialized entity.
pub struct SceneComponent {
    /// The component's type path.
    pub type_path: String,
    /// The entity in the first field, for a tuple struct that holds one there.
    pub target: Option<u64>,
}

/// A serialized entity.
pub struct SceneEntity {
    pub entity: u64,
    pub components: Vec<SceneComponent>,
}

/// What a serialized component holds.
pub struct ComponentModel {
    pub type_path: Seq<char>,
    pub target: Option<u64>,
}

/// What a serialized entity holds.
pub struct EntityModel {
    pub entity: u64,
    pub components: Seq<ComponentModel>,
}

impl View for SceneComponent {
    type V = ComponentModel;

    open spec fn view(&self) -> ComponentModel {
        ComponentModel { type_path: self.type_path@, target: self.target }
    }
}

impl View for SceneEntity {
    type V = EntityModel;

    open spec fn view(&self) -> EntityModel {
        EntityModel {
            entity: self.entity,
            components: self.components@.map_values(|c: SceneComponent| c@),
        }
    }
}

/// What a scene's entities hold.
pub open spec fn scene_models(scene: Seq<SceneEntity>) -> Seq<EntityModel> {
    scene.map_values(|e: SceneEntity| e@)
}

impl EntityModel {
    /// Whether the entity has a component of this type.
    pub open spec fn has(self, type_path: Seq<char>) -> bool {
        position(
            self.components.map_values(|c: ComponentModel| c.type_path == type_path),
            true,
        ) < self.components.len()
    }

    /// The parent recorded on the entity, if any.
    pub open spec fn parent(self) -> Option<u64> {
        let i = position(
            self.components.map_values(
                |c: ComponentModel|
                    c.type_path == "bevy_ecs::hierarchy::ChildOf"@ && c.target is Some,
            ),
            true,
        );
        if i < self.components.len() {
            self.components[i].target
        } else {
            None
        }
    }

    /// A node of the interface.
    pub open spec fn is_ui(self) -> bool {
        self.has("bevy_ui::ui_node::Node"@)
    }

    /// The root of a game's interface.
    pub open spec fn is_canvas(self) -> bool {
        self.has("renzora_ember::game_ui::components::canvas::UiCanvas"@)
    }
}

impl SceneEntity {
    /// Whether the entity has a component of this type.
    pub fn has_component(&self, type_path: &str) -> (r: bool)
        ensures
            r == self@.has(type_path@),
    {
        let test = |c: &SceneComponent| -> (b: bool)
            ensures
                b == (c@.type_path == type_path@),
            {
                same_text(&c.type_path, type_path)
            };
        let i: usize = find_first(
            &self.components,
            test,
            Ghost(self@.components.map_values(|c: ComponentModel| c.type_path == type_path@)),
        );
        i < self.components.len()
    }

    /// The `ChildOf` parent recorded on a serialized scene entity, if any. Read
    /// straight out of the components: the scene isn't in the world yet.
    pub fn scene_entity_parent(&self) -> (r: Option<u64>)
        ensures
            r == self@.parent(),
    {
        let test = |c: &SceneComponent| -> (b: bool)
            ensures
                b == (c@.type_path == "bevy_ecs::hierarchy::ChildOf"@ && c@.target is Some),
            {
                c.target.is_some() && same_text(&c.type_path, "bevy_ecs::hierarchy::ChildOf")
            };
        let i: usize = find_first(
            &self.components,
            test,
            Ghost(
                self@.components.map_values(
                    |c: ComponentModel|
                        c.type_path == "bevy_ecs::hierarchy::ChildOf"@ && c.target is Some,
                ),
            ),
        );
        if i < self.components.len() {
            self.components[i].target
        } else {
            None
        }
    }

    /// Whether a serialized scene entity is an interface node.
    pub fn scene_entity_is_ui(&self) -> (r: bool)
        ensures
            r == self@.is_ui(),
    {
        self.has_component("bevy_ui::ui_node::Node")
    }

    /// Whether a serialized scene entity is a game-interface root. Legitimate
    /// game interface lives under one of these.
    pub fn scene_entity_is_canvas(&self) -> (r: bool)
        ensures
            r == self@.is_canvas(),
    {
        self.has_component("renzora_ember::game_ui::components::canvas::UiCanvas")
    }
}

/// The ids of a scene's entities.
pub open spec fn scene_ids(scene: Seq<EntityModel>) -> Seq<u64> {
    scene.map_values(|e: EntityModel| e.entity)
}

/// The parent links recorded in a scene, in its order.
pub open spec fn scene_links(scene: Seq<EntityModel>) -> Seq<Link>
    decreases scene.len(),
{
    if scene.len() == 0 {
        Seq::empty()
    } else {
        let before = scene_links(scene.drop_last());
        match scene.last().parent() {
            Some(parent) => before.push(Link { child: scene.last().entity, parent }),
            None => before,
        }
    }
}

/// The ids of a scene's canvases.
pub open spec fn canvas_ids(scene: Seq<EntityModel>) -> Seq<u64>
    decreases scene.len(),
{
    if scene.len() == 0 {
        Seq::empty()
    } else {
        let before = canvas_ids(scene.drop_last());
        if scene.last().is_canvas() {
            before.push(scene.last().entity)
        } else {
            before
        }
    }
}

/// Whether an entity's chain of ancestors leads out of the scene.
pub open spec fn orphaned(scene: Seq<EntityModel>, id: u64) -> bool {
    exists|n: nat|
        n > 0 && (#[trigger] ancestor(scene_links(scene), id, n) matches Some(a) && !scene_ids(
            scene,
        ).contains(a))
}

/// Whether an entity is a canvas or has one among its ancestors.
pub open spec fn under_canvas(scene: Seq<EntityModel>, id: u64) -> bool {
    at_or_under_marked(scene_links(scene), id, canvas_ids(scene))
}

/// What survives the pruning of orphans: everything but interface nodes whose
/// chain of ancestors leads out of the scene.
pub open spec fn rooted(scene: Seq<EntityModel>) -> spec_fn(EntityModel) -> bool {
    |e: EntityModel| !(orphaned(scene, e.entity) && e.is_ui())
}

/// What survives the pruning of leaked interface: everything but interface
/// nodes outside every canvas.
pub open spec fn housed(scene: Seq<EntityModel>) -> spec_fn(EntityModel) -> bool {
    |e: EntityModel| !e.is_ui() || under_canvas(scene, e.entity)
}

fn collect_ids(scene: &Vec<SceneEntity>) -> (r: Vec<u64>)
    ensures
        r@ == scene_ids(scene_models(scene@)),
{
    let mut out: Vec<u64> = Vec::new();
    let mut i: usize = 0;
    while i < scene.len()
        invariant
            i <= scene@.len(),
            out@ == scene_ids(scene_models(scene@)).take(i as int),
        decreases scene@.len() - i,
    {
        out.push(scene[i].entity);
        assert(scene_ids(scene_models(scene@)).take(i + 1) == scene_ids(scene_models(scene@)).take(
            i as int,
        ).push(scene@[i as int].entity));
        i += 1;
    }
    assert(scene_ids(scene_models(scene@)).take(i as int) == scene_ids(scene_models(scene@)));
    out
}

fn collect_links(scene: &Vec<SceneEntity>) -> (r: Vec<Link>)
    ensures
        r@ == scene_links(scene_models(scene@)),
{
    let ghost models = scene_models(scene@);
    let mut out: Vec<Link> = Vec::new();
    let mut i: usize = 0;
    assert(models.take(0).len() == 0);
    while i < scene.len()
        invariant
            i <= scene@.len(),
            models == scene_models(scene@),
            out@ == scene_links(models.take(i as int)),
        decreases scene@.len() - i,
    {
        assert(models.take(i + 1).drop_last() == models.take(i as int));
        assert(models.take(i + 1).last() == scene@[i as int]@);
        if let Some(parent) = scene[i].scene_entity_parent() {
            out.push(Link { child: scene[i].entity, parent });
        }
        i += 1;
    }
    assert(models.take(i as int) == models);
    out
}

fn collect_canvases(scene: &Vec<SceneEntity>) -> (r: Vec<u64>)
    ensures
        r@ == canvas_ids(scene_models(scene@)),
{
    let ghost models = scene_models(scene@);
    let mut out: Vec<u64> = Vec::new();
    let mut i: usize = 0;
    assert(models.take(0).len() == 0);
    while i < scene.len()
        invariant
            i <= scene@.len(),
            models == scene_models(scene@),
            out@ == canvas_ids(models.take(i as int)),
        decreases scene@.len() - i,
    {
        assert(models.take(i + 1).drop_last() == models.take(i as int));
        assert(models.take(i + 1).last() == scene@[i as int]@);
        if scene[i].scene_entity_is_canvas() {
            out.push(scene[i].entity);
        }
        i += 1;
    }
    assert(models.take(i as int) == models);
    out
}

/// Parents that the links name and the ids lack.
pub open spec fn missing_parents(links: Seq<Link>, ids: Seq<u64>) -> Seq<u64>
    decreases links.len(),
{
    if links.len() == 0 {
        Seq::empty()
    } else {
        let before = missing_parents(links.drop_last(), ids);
        if ids.contains(links.last().parent) {
            before
        } else {
            before.push(links.last().parent)
        }
    }
}

proof fn missing_parent_found(links: Seq<Link>, ids: Seq<u64>, id: u64)
    ensures
        missing_parents(links, ids).contains(id) ==> !ids.contains(id),
        !ids.contains(id) && (exists|i: int|
            0 <= i < links.len() && (#[trigger] links[i]).parent == id) ==> missing_parents(
            links,
            ids,
        ).contains(id),
    decreases links.len(),
{
    if links.len() > 0 {
        let rest = links.drop_last();
        let before = missing_parents(rest, ids);
        let all = missing_parents(links, ids);
        missing_parent_found(rest, ids, id);
        if all.contains(id) {
            let k = choose|k: int| 0 <= k < all.len() && all[k] == id;
            if k < before.len() {
                assert(before[k] == id);
            }
        }
        if !ids.contains(id) && exists|i: int|
            0 <= i < links.len() && (#[trigger] links[i]).parent == id {
            let i = choose|i: int| 0 <= i < links.len() && (#[trigger] links[i]).parent == id;
            if i < rest.len() {
                assert(rest[i].parent == id);
                let k = choose|k: int| 0 <= k < before.len() && before[k] == id;
                assert(all[k] == id);
            } else {
                assert(all[all.len() - 1] == id);
            }
        }
    }
}

proof fn ancestor_is_parent(links: Seq<Link>, id: u64, n: nat)
    requires
        n > 0,
    ensures
        ancestor(links, id, n) matches Some(a) ==> exists|i: int|
            0 <= i < links.len() && (#[trigger] links[i]).parent == a,
{
    if let Some(c) = ancestor(links, id, (n - 1) as nat) {
        parent_is_linked(links, c);
    }
}

proof fn parent_is_linked(links: Seq<Link>, id: u64)
    ensures
        parent_of(links, id) matches Some(p) ==> exists|i: int|
            0 <= i < links.len() && (#[trigger] links[i]).parent == p,
    decreases links.len(),
{
    if links.len() > 0 {
        if links.last().child == id {
            assert(links[links.len() - 1].parent == links.last().parent);
        } else {
            parent_is_linked(links.drop_last(), id);
            if let Some(p) = parent_of(links.drop_last(), id) {
                let i = choose|i: int|
                    0 <= i < links.drop_last().len() && (#[trigger] links.drop_last()[i]).parent
                        == p;
                assert(links[i].parent == p);
            }
        }
    }
}

proof fn orphaned_is_under_missing(scene: Seq<EntityModel>, id: u64)
    ensures
        orphaned(scene, id) == under_marked(
            scene_links(scene),
            id,
            missing_parents(scene_links(scene), scene_ids(scene)),
        ),
{
    let links = scene_links(scene);
    let ids = scene_ids(scene);
    let missing = missing_parents(links, ids);
    if orphaned(scene, id) {
        let n = choose|n: nat|
            n > 0 && (#[trigger] ancestor(links, id, n) matches Some(a) && !ids.contains(a));
        ancestor_is_parent(links, id, n);
        missing_parent_found(links, ids, ancestor(links, id, n)->0);
        assert(missing.contains(ancestor(links, id, n)->0));
    }
    if under_marked(links, id, missing) {
        let n = choose|n: nat|
            n > 0 && (#[trigger] ancestor(links, id, n) matches Some(a) && missing.contains(a));
        missing_parent_found(links, ids, ancestor(links, id, n)->0);
    }
}

fn collect_missing(links: &Vec<Link>, ids: &Vec<u64>) -> (r: Vec<u64>)
    ensures
        r@ == missing_parents(links@, ids@),
{
    let mut out: Vec<u64> = Vec::new();
    let mut i: usize = 0;
    assert(links@.take(0).len() == 0);
    while i < links.len()
        invariant
            i <= links@.len(),
            out@ == missing_parents(links@.take(i as int), ids@),
        decreases links@.len() - i,
    {
        assert(links@.take(i + 1).drop_last() == links@.take(i as int));
        if !holds_id(ids, links[i].parent) {
            out.push(links[i].parent);
        }
        i += 1;
    }
    assert(links@.take(i as int) == links@);
    out
}

/// Keeps the entities whose flag is set. Returns how many went.
fn retain_flagged(scene: &mut Vec<SceneEntity>, flags: &Vec<bool>, Ghost(pass): Ghost<
    spec_fn(EntityModel) -> bool,
>) -> (r: usize)
    requires
        flags@.len() == old(scene)@.len(),
        forall|i: int|
            0 <= i < flags@.len() ==> #[trigger] flags@[i] == pass(scene_models(old(scene)@)[i]),
    ensures
        scene_models(final(scene)@) == scene_models(old(scene)@).filter(pass),
        r == old(scene)@.len() - final(scene)@.len(),
{
    let total: usize = scene.len();
    let ghost models = scene_models(scene@);
    let mut i: usize = total;
    assert(models.skip(i as int).filter(pass) =~= Seq::<EntityModel>::empty()) by {
        reveal(Seq::filter);
        assert(models.skip(i as int).len() == 0);
    }
    while i > 0
        invariant
            i <= total,
            total == flags@.len(),
            total == models.len(),
            i <= scene@.len() <= total,
            forall|k: int| 0 <= k < total ==> #[trigger] flags@[k] == pass(models[k]),
            forall|k: int| 0 <= k < i ==> (#[trigger] scene@[k])@ == models[k],
            scene_models(scene@).skip(i as int) == models.skip(i as int).filter(pass),
        decreases i,
    {
        i -= 1;
        let ghost before = scene@;
        let ghost tail = models.skip(i + 1);
        proof {
            let one = seq![models[i as int]];
            assert(models.skip(i as int) =~= one + tail);
            Seq::filter_distributes_over_add(one, tail, pass);
            assert(one.filter(pass) =~= if flags@[i as int] {
                one
            } else {
                Seq::empty()
            }) by {
                reveal(Seq::filter);
                assert(one.drop_last() =~= Seq::<EntityModel>::empty());
                assert(one.drop_last().filter(pass) =~= Seq::<EntityModel>::empty());
                assert(one.last() == models[i as int]);
                assert(flags@[i as int] == pass(models[i as int]));
            }
        }
        if !flags[i] {
            scene.remove(i);
            assert(scene_models(scene@).skip(i as int) =~= scene_models(before).skip(i + 1));
            assert(Seq::<EntityModel>::empty() + tail.filter(pass) =~= tail.filter(pass));
        } else {
            assert(scene_models(scene@).skip(i as int) =~= seq![models[i as int]] + scene_models(
                before,
            ).skip(i + 1));
        }
    }
    assert(scene_models(scene@).skip(0) =~= scene_models(scene@));
    assert(models.skip(0) =~= models);
    total - scene.len()
}

/// Drop interface entities whose `ChildOf` ancestor chain leads to a parent that
/// ISN'T in the scene. Such an entity is an orphan of a root that was excluded
/// at save time: almost always leaked editor widgets.
///
/// Cascades for free: a child of a pruned entity is pruned too, because its own
/// chain still climbs to the same missing root. Restricted to interface
/// entities, so it can never drop other scene data. Returns how many were
/// pruned.
pub fn prune_orphaned_entities(scene: &mut Vec<SceneEntity>) -> (r: usize)
    ensures
        scene_models(final(scene)@) == scene_models(old(scene)@).filter(
            rooted(scene_models(old(scene)@)),
        ),
        r == old(scene)@.len() - final(scene)@.len(),
{
    let ghost models = scene_models(scene@);
    let ids = collect_ids(scene);
    let links = collect_links(scene);
    let missing = collect_missing(&links, &ids);
    let mut flags: Vec<bool> = Vec::new();
    let mut i: usize = 0;
    while i < scene.len()
        invariant
            i <= scene@.len(),
            flags@.len() == i,
            models == scene_models(scene@),
            links@ == scene_links(models),
            missing@ == missing_parents(scene_links(models), scene_ids(models)),
            forall|k: int| 0 <= k < i ==> #[trigger] flags@[k] == rooted(models)(models[k]),
        decreases scene@.len() - i,
    {
        proof {
            orphaned_is_under_missing(models, scene@[i as int].entity);
            assert(models[i as int] == scene@[i as int]@);
        }
        let lost: bool = has_marked_ancestor(&links, scene[i].entity, &missing);
        flags.push(!(lost && scene[i].scene_entity_is_ui()));
        i += 1;
    }
    retain_flagged(scene, &flags, Ghost(rooted(models)))
}

/// Drop leaked editor interface: any interface node with no canvas
/// self-or-ancestor.
///
/// The only legitimate interface in a scene is the game's, which always sits
/// under a canvas root. So a node outside every canvas is editor chrome that a
/// save baked in. Unlike [`prune_orphaned_entities`] this also removes
/// *connected* chrome trees that kept an intact root. Returns how many were
/// pruned.
pub fn prune_leaked_ui(scene: &mut Vec<SceneEntity>) -> (r: usize)
    ensures
        scene_models(final(scene)@) == scene_models(old(scene)@).filter(
            housed(scene_models(old(scene)@)),
        ),
        r == old(scene)@.len() - final(scene)@.len(),
{
    let ghost models = scene_models(scene@);
    let links = collect_links(scene);
    let canvases = collect_canvases(scene);
    let mut flags: Vec<bool> = Vec::new();
    let mut i: usize = 0;
    while i < scene.len()
        invariant
            i <= scene@.len(),
            flags@.len() == i,
            models == scene_models(scene@),
            links@ == scene_links(models),
            canvases@ == canvas_ids(models),
            forall|k: int| 0 <= k < i ==> #[trigger] flags@[k] == housed(models)(models[k]),
        decreases scene@.len() - i,
    {
        assert(models[i as int] == scene@[i as int]@);
        let keep: bool = !scene[i].scene_entity_is_ui() || is_at_or_under_marked(
            &links,
            scene[i].entity,
            &canvases,
        );
        flags.push(keep);
        i += 1;
    }
    retain_flagged(scene, &flags, Ghost(housed(models)))
}

// ── Laws ──

/// Whether every parent that the scene records is in the scene.
pub open spec fn complete(scene: Seq<EntityModel>) -> bool {
    forall|i: int|
        0 <= i < scene.len() ==> ((#[trigger] scene[i]).parent() matches Some(p) ==> scene_ids(
            scene,
        ).contains(p))
}

proof fn links_are_recorded(scene: Seq<EntityModel>, k: int)
    requires
        0 <= k < scene_links(scene).len(),
    ensures
        exists|i: int|
            0 <= i < scene.len() && (#[trigger] scene[i]).parent() == Some(
                scene_links(scene)[k].parent,
            ),
    decreases scene.len(),
{
    if scene.len() > 0 {
        let rest = scene.drop_last();
        let link = scene_links(scene)[k];
        if k < scene_links(rest).len() {
            links_are_recorded(rest, k);
            let i = choose|i: int|
                0 <= i < rest.len() && (#[trigger] rest[i]).parent() == Some(link.parent);
            assert(scene[i] == rest[i]);
        } else {
            assert(scene[scene.len() - 1].parent() == Some(link.parent));
        }
    }
}

/// A scene whose hierarchies are complete loses nothing to the pruning of
/// orphans.
pub proof fn complete_scene_keeps_everything(scene: Seq<EntityModel>)
    requires
        complete(scene),
    ensures
        scene.filter(rooted(scene)) == scene,
{
    let links = scene_links(scene);
    assert forall|i: int| 0 <= i < scene.len() implies rooted(scene)(#[trigger] scene[i]) by {
        let id = scene[i].entity;
        if orphaned(scene, id) {
            let n = choose|n: nat|
                n > 0 && (#[trigger] ancestor(links, id, n) matches Some(a) && !scene_ids(
                    scene,
                ).contains(a));
            ancestor_is_parent(links, id, n);
            let a = ancestor(links, id, n)->0;
            let k = choose|k: int| 0 <= k < links.len() && (#[trigger] links[k]).parent == a;
            links_are_recorded(scene, k);
        }
    }
    keeps_all(scene, rooted(scene));
}

proof fn keeps_all(list: Seq<EntityModel>, pass: spec_fn(EntityModel) -> bool)
    requires
        forall|i: int| 0 <= i < list.len() ==> pass(#[trigger] list[i]),
    ensures
        list.filter(pass) == list,
    decreases list.len(),
{
    reveal(Seq::filter);
    if list.len() > 0 {
        let rest = list.drop_last();
        assert forall|i: int| 0 <= i < rest.len() implies pass(#[trigger] rest[i]) by {
            assert(rest[i] == list[i]);
        }
        keeps_all(rest, pass);
        assert(pass(list[list.len() - 1]));
        assert(list =~= rest.push(list.last()));
    } else {
        assert(list.filter(pass) =~= list);
    }
}

/// Pruning cascades: the child of an orphan is an orphan, and the child of an
/// entity inside a canvas is inside it too.
pub proof fn pruning_cascades(scene: Seq<EntityModel>, child: u64, parent: u64)
    requires
        parent_of(scene_links(scene), child) == Some(parent),
    ensures
        orphaned(scene, parent) ==> orphaned(scene, child),
        under_canvas(scene, parent) ==> under_canvas(scene, child),
{
    let links = scene_links(scene);
    assert(ancestor(links, child, 0) == Some(child));
    assert(ancestor(links, child, 1) == Some(parent));
    if orphaned(scene, parent) {
        let n = choose|n: nat|
            n > 0 && (#[trigger] ancestor(links, parent, n) matches Some(a) && !scene_ids(
                scene,
            ).contains(a));
        ancestors_add(links, child, 1, n);
        assert(ancestor(links, child, 1 + n) == ancestor(links, parent, n));
    }
    let marks = canvas_ids(scene);
    if marks.contains(parent) {
        assert(under_marked(links, child, marks));
    } else if under_marked(links, parent, marks) {
        let n = choose|n: nat|
            n > 0 && (#[trigger] ancestor(links, parent, n) matches Some(a) && marks.contains(a));
        ancestors_add(links, child, 1, n);
        assert(ancestor(links, child, 1 + n) == ancestor(links, parent, n));
    }
}

/// Whatever is no interface node survives both prunings.
pub proof fn only_interface_is_pruned(scene: Seq<EntityModel>, i: int)
    requires
        0 <= i < scene.len(),
        !scene[i].is_ui(),
    ensures
        scene.filter(rooted(scene)).contains(scene[i]),
        scene.filter(housed(scene)).contains(scene[i]),
{
    scene.lemma_filter_contains(rooted(scene), i);
    scene.lemma_filter_contains(housed(scene), i);
}

proof fn no_link(scene: Seq<EntityModel>, id: u64)
    requires
        !scene_ids(scene).contains(id),
    ensures
        parent_of(scene_links(scene), id) is None,
        !canvas_ids(scene).contains(id),
    decreases scene.len(),
{
    if scene.len() > 0 {
        let rest = scene.drop_last();
        assert(!scene_ids(rest).contains(id)) by {
            if scene_ids(rest).contains(id) {
                let k = choose|k: int| 0 <= k < rest.len() && scene_ids(rest)[k] == id;
                assert(scene_ids(scene)[k] == id);
            }
        }
        no_link(rest, id);
        assert(scene_ids(scene)[scene.len() - 1] == scene.last().entity);
        if let Some(parent) = scene.last().parent() {
            assert(scene_links(scene).drop_last() =~= scene_links(rest));
        }
        if canvas_ids(scene).contains(id) {
            let k = choose|k: int| 0 <= k < canvas_ids(scene).len() && canvas_ids(scene)[k] == id;
            assert(canvas_ids(rest)[k] == id);
        }
    }
}

proof fn own_link(scene: Seq<EntityModel>, i: int)
    requires
        scene_ids(scene).no_duplicates(),
        0 <= i < scene.len(),
    ensures
        parent_of(scene_links(scene), scene[i].entity) == scene[i].parent(),
        canvas_ids(scene).contains(scene[i].entity) == scene[i].is_canvas(),
    decreases scene.len(),
{
    let rest = scene.drop_last();
    let id = scene[i].entity;
    let last = scene.last();
    let ids = scene_ids(scene);
    assert(scene_ids(rest) =~= ids.drop_last());
    if let Some(parent) = last.parent() {
        assert(scene_links(scene).drop_last() =~= scene_links(rest));
    }
    let before = canvas_ids(rest);
    if last.is_canvas() {
        assert(canvas_ids(scene)[before.len() as int] == last.entity);
    }
    if i == scene.len() - 1 {
        assert(!scene_ids(rest).contains(id)) by {
            if scene_ids(rest).contains(id) {
                let k = choose|k: int| 0 <= k < rest.len() && scene_ids(rest)[k] == id;
                assert(ids[k] == ids[i]);
            }
        }
        no_link(rest, id);
    } else {
        own_link(rest, i);
        assert(rest[i] == scene[i]);
        assert(ids[i] != ids[scene.len() - 1]);
        if before.contains(id) {
            let k = choose|k: int| 0 <= k < before.len() && before[k] == id;
            assert(canvas_ids(scene)[k] == id);
        }
        if canvas_ids(scene).contains(id) {
            let k = choose|k: int| 0 <= k < canvas_ids(scene).len() && canvas_ids(scene)[k] == id;
            assert(before[k] == id);
        }
    }
}

proof fn kept_ids_are_distinct(scene: Seq<EntityModel>, pass: spec_fn(EntityModel) -> bool)
    requires
        scene_ids(scene).no_duplicates(),
    ensures
        scene_ids(scene.filter(pass)).no_duplicates(),
        forall|k: int|
            0 <= k < scene.filter(pass).len() ==> scene.contains(#[trigger] scene.filter(pass)[k])
                && pass(scene.filter(pass)[k]),
    decreases scene.len(),
{
    reveal(Seq::filter);
    if scene.len() > 0 {
        let rest = scene.drop_last();
        let kept = rest.filter(pass);
        let all = scene.filter(pass);
        assert(scene_ids(rest) =~= scene_ids(scene).drop_last());
        kept_ids_are_distinct(rest, pass);
        assert forall|k: int| 0 <= k < kept.len() implies scene.contains(#[trigger] kept[k])
            && kept[k].entity != scene.last().entity by {
            let j = choose|j: int| 0 <= j < rest.len() && rest[j] == kept[k];
            assert(scene[j] == kept[k]);
            assert(scene_ids(scene)[j] != scene_ids(scene)[scene.len() - 1]);
        }
        assert(scene[scene.len() - 1] == scene.last());
        assert forall|k: int| 0 <= k < all.len() implies scene.contains(#[trigger] all[k]) && pass(
            all[k],
        ) by {
            if k < kept.len() {
                assert(all[k] == kept[k]);
            }
        }
        assert forall|a: int, b: int| 0 <= a < b < all.len() implies scene_ids(all)[a]
            != scene_ids(all)[b] by {
            assert(all[a] == kept[a]);
            if b < kept.len() {
                assert(scene_ids(kept)[a] != scene_ids(kept)[b]);
            } else {
                assert(kept[a].entity != scene.last().entity);
            }
        }
    }
}

/// The chain from an entity inside a canvas up to that canvas survives the
/// pruning of leaked interface.
proof fn chain_survives(scene: Seq<EntityModel>, id: u64, n: nat, m: nat)
    requires
        scene_ids(scene).no_duplicates(),
        ancestor(scene_links(scene), id, n) matches Some(c) && canvas_ids(scene).contains(c),
        m <= n,
    ensures
        ancestor(scene_links(scene.filter(housed(scene))), id, m) == ancestor(
            scene_links(scene),
            id,
            m,
        ),
    decreases m,
{
    let links = scene_links(scene);
    let after = scene.filter(housed(scene));
    if m > 0 {
        let below = (m - 1) as nat;
        chain_survives(scene, id, n, below);
        ancestors_add(links, id, m, (n - m) as nat);
        let x = ancestor(links, id, below)->0;
        assert(ancestor(links, id, below) is Some);
        assert(parent_of(links, x) is Some);
        if !scene_ids(scene).contains(x) {
            no_link(scene, x);
        }
        let k = choose|k: int| 0 <= k < scene.len() && scene_ids(scene)[k] == x;
        assert(scene[k].entity == x);
        own_link(scene, k);
        ancestors_add(links, id, below, (n - below) as nat);
        assert((n - below) as nat > 0);
        assert(ancestor(links, x, (n - below) as nat) == ancestor(links, id, n));
        assert(under_canvas(scene, x));
        scene.lemma_filter_contains(housed(scene), k);
        kept_ids_are_distinct(scene, housed(scene));
        let j = choose|j: int| 0 <= j < after.len() && after[j] == scene[k];
        own_link(after, j);
    }
}

/// Pruning leaked interface is done once and for all: what is left has nothing
/// more to prune.
pub proof fn pruning_leaked_ui_settles(scene: Seq<EntityModel>)
    requires
        scene_ids(scene).no_duplicates(),
    ensures
        ({
            let after = scene.filter(housed(scene));
            after.filter(housed(after)) == after
        }),
{
    let links = scene_links(scene);
    let after = scene.filter(housed(scene));
    kept_ids_are_distinct(scene, housed(scene));
    assert forall|j: int| 0 <= j < after.len() implies housed(after)(#[trigger] after[j]) by {
        let e = after[j];
        if e.is_ui() {
            assert(under_canvas(scene, e.entity));
            let n: nat = if canvas_ids(scene).contains(e.entity) {
                0
            } else {
                choose|n: nat|
                    n > 0 && (#[trigger] ancestor(links, e.entity, n) matches Some(a)
                        && canvas_ids(scene).contains(a))
            };
            assert(ancestor(links, e.entity, 0) == Some(e.entity));
            let c = ancestor(links, e.entity, n)->0;
            chain_survives(scene, e.entity, n, n);
            if !scene_ids(scene).contains(c) {
                no_link(scene, c);
            }
            let k = choose|k: int| 0 <= k < scene.len() && scene_ids(scene)[k] == c;
            assert(scene[k].entity == c);
            own_link(scene, k);
            assert(under_canvas(scene, c));
            scene.lemma_filter_contains(housed(scene), k);
            let i = choose|i: int| 0 <= i < after.len() && after[i] == scene[k];
            own_link(after, i);
            assert(canvas_ids(after).contains(c));
            assert(ancestor(scene_links(after), e.entity, n) == Some(c));
            if n == 0 {
                assert(c == e.entity);
            } else {
                assert(under_marked(scene_links(after), e.entity, canvas_ids(after)));
            }
            assert(under_canvas(after, e.entity));
        }
    }
    keeps_all(after, housed(after));
}

} // verus!
