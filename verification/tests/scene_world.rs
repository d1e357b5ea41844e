//! Scenes in a world: what is saved, restored, pruned and looked through.

use renzora::lineage::Link;
use renzora::scalar::{Point, Scalar};
use renzora::scene::cameras::{
    enforce_single_active_camera, find_lead_camera, probe_face_size, rehydrate_cameras, should_sync,
    sync_actions, sync_play_mode_camera, sync_source, SceneCam, SceneCameraSyncState, SyncAction,
    SyncSource, SyncType,
};
use renzora::scene::instances::{
    expand_scene_instances, instance_name, new_roots, save_all_scene_instances, InstanceFacts,
    InstanceSource,
};
use renzora::scene::load::{prune_scene, scene_parsed};
use renzora::scene::meshes::{
    apply_edited_meshes, finish_mesh_instance_rehydrate, rehydrate_mesh_instances, rehydrate_meshes,
    MeshPlan, ModelFacts, ModelScenes, ModelStep,
};
use renzora::scene::prune::{prune_leaked_ui, prune_orphaned_entities, SceneComponent, SceneEntity};
use renzora::scene::restore::{outer_parents, spawn_entities_from_snapshot, Mapping};
use renzora::scene::save::{
    has_hidden_ancestor, save_prefab_source, save_scene, saved_entities, snapshot_entity_subtrees,
    EntityFacts, SavePlan,
};
use renzora::scene::sprites::{
    apply_sprite_atlas_region, apply_sprite_image_path, apply_sprite_sheet_crop, apply_y_sort,
    clamp_y_sort, mirror_sprite_custom_size, on_sprite_custom_size_inserted, settle_part,
    sprite_for_path, Corners, SheetCrop, SizeMirror, SpriteAtlasRegion, SpriteSheet, SpriteState, Tint,
};
use renzora::scene::subtree::TreeNode;

fn num(x: f32) -> Scalar {
    Scalar { bits: x.to_bits() }
}

fn at(x: f32, y: f32) -> Point {
    Point { x: num(x), y: num(y) }
}

fn float(x: Scalar) -> f32 {
    f32::from_bits(x.bits)
}

const CHILD_OF: &str = "bevy_ecs::hierarchy::ChildOf";
const NODE: &str = "bevy_ui::ui_node::Node";
const CANVAS: &str = "renzora_ember::game_ui::components::canvas::UiCanvas";

fn component(type_path: &str, target: Option<u64>) -> SceneComponent {
    SceneComponent { type_path: type_path.to_string(), target }
}

fn serialized(entity: u64, parent: Option<u64>, types: &[&str]) -> SceneEntity {
    let mut components: Vec<SceneComponent> = types.iter().map(|t| component(t, None)).collect();
    if parent.is_some() {
        components.push(component(CHILD_OF, parent));
    }
    SceneEntity { entity, components }
}

fn ids(scene: &Vec<SceneEntity>) -> Vec<u64> {
    scene.iter().map(|e| e.entity).collect()
}

fn node(id: u64, children: &[u64]) -> TreeNode {
    TreeNode { id, children: children.to_vec(), named: true, mesh_instance: false }
}

// ── Snapshots ──

#[test]
fn snapshot_restore_reattaches_root_to_its_original_parent() {
    let (parent, child, restored) = (1, 2, 3);
    let world = vec![node(parent, &[child]), node(child, &[])];
    let taken = snapshot_entity_subtrees(&world, &vec![child]).expect("snapshot");
    assert_eq!(taken, vec![child]);
    let snapshot = vec![serialized(child, Some(parent), &[])];

    // The child is gone; its parent is alive.
    let seeds = outer_parents(&snapshot, &vec![parent]);
    assert_eq!(seeds, vec![parent]);
    let mut map: Vec<Mapping> = seeds.iter().map(|p| Mapping { old: *p, new: *p }).collect();
    map.push(Mapping { old: child, new: restored });

    let result = spawn_entities_from_snapshot(&snapshot, &vec![parent], &map);
    assert_eq!(result.entities, vec![Mapping { old: child, new: restored }]);
    assert_eq!(
        result.links,
        vec![Link { child: restored, parent }],
        "restored entity must point at the original live parent"
    );
}

#[test]
fn snapshot_restore_remaps_internal_links_to_fresh_ids() {
    let (grandparent, root, leaf, new_root, new_leaf) = (1, 2, 3, 4, 5);
    let world = vec![node(grandparent, &[root]), node(root, &[leaf]), node(leaf, &[])];
    let taken = snapshot_entity_subtrees(&world, &vec![root]).expect("snapshot");
    assert_eq!(taken.len(), 2);
    let snapshot =
        vec![serialized(root, Some(grandparent), &[]), serialized(leaf, Some(root), &[])];

    let seeds = outer_parents(&snapshot, &vec![grandparent]);
    assert_eq!(seeds, vec![grandparent]);
    let mut map: Vec<Mapping> = seeds.iter().map(|p| Mapping { old: *p, new: *p }).collect();
    map.push(Mapping { old: root, new: new_root });
    map.push(Mapping { old: leaf, new: new_leaf });

    let result = spawn_entities_from_snapshot(&snapshot, &vec![grandparent], &map);
    assert!(result.entities.contains(&Mapping { old: root, new: new_root }));
    assert!(result.entities.contains(&Mapping { old: leaf, new: new_leaf }));
    let parent_of =
        |child: u64| result.links.iter().find(|l| l.child == child).map(|l| l.parent);
    assert_eq!(
        parent_of(new_root),
        Some(grandparent),
        "root reattaches to the untouched grandparent"
    );
    assert_eq!(
        parent_of(new_leaf),
        Some(new_root),
        "leaf follows the remap to the root's NEW id, not the stale one"
    );
    assert_eq!(
        result.entities.len(),
        2,
        "map reports only the restored entities, not the identity seeds"
    );
}

#[test]
fn a_dead_parent_is_not_restored() {
    let snapshot = vec![serialized(2, Some(1), &[]), serialized(3, Some(2), &[])];
    assert!(outer_parents(&snapshot, &vec![9]).is_empty());
    // The link to the dead parent leads nowhere, though the map has an entry.
    let map = vec![Mapping { old: 2, new: 12 }, Mapping { old: 1, new: 77 }];
    let result = spawn_entities_from_snapshot(&snapshot, &vec![9], &map);
    assert_eq!(result.entities, vec![Mapping { old: 2, new: 12 }]);
    assert!(result.links.is_empty());
}

#[test]
fn subtrees_stop_at_models_and_unnamed_entities() {
    let world = vec![
        node(1, &[2, 3]),
        TreeNode { mesh_instance: true, ..node(2, &[4]) },
        TreeNode { named: false, ..node(3, &[5]) },
        node(4, &[]),
        node(5, &[]),
    ];
    let mut taken = snapshot_entity_subtrees(&world, &vec![1]).expect("some");
    taken.sort();
    assert_eq!(taken, vec![1, 2, 3, 5]);
    let mut prefab = save_prefab_source(&world, &vec![2, 3]).expect("some");
    prefab.sort();
    assert_eq!(prefab, vec![2]);
    assert!(snapshot_entity_subtrees(&world, &vec![77]).is_none());
    assert!(save_prefab_source(&world, &vec![3]).is_none());
    // Overlapping roots are taken once.
    let mut both = snapshot_entity_subtrees(&world, &vec![1, 3, 3]).expect("some");
    both.sort();
    assert_eq!(both, vec![1, 2, 3, 5]);
}

// ── Saving ──

fn entity(id: u64, parent: Option<u64>) -> EntityFacts {
    EntityFacts {
        id,
        named: true,
        hidden: false,
        editor_camera: false,
        gamepad: false,
        persistent: false,
        scene_instance: false,
        mesh_instance: false,
        parent,
    }
}

#[test]
fn a_save_writes_the_scene_and_nothing_else() {
    let world = vec![
        entity(1, None),
        entity(2, Some(1)),
        EntityFacts { hidden: true, ..entity(3, None) },
        entity(4, Some(3)),
        EntityFacts { scene_instance: true, ..entity(5, Some(1)) },
        entity(6, Some(5)),
        EntityFacts { mesh_instance: true, ..entity(7, None) },
        entity(8, Some(7)),
        EntityFacts { named: false, ..entity(9, None) },
        EntityFacts { persistent: true, ..entity(10, None) },
        EntityFacts { gamepad: true, ..entity(11, None) },
        EntityFacts { editor_camera: true, ..entity(12, None) },
    ];
    assert_eq!(saved_entities(&world), vec![1, 2, 5, 7]);
    assert!(matches!(save_scene(&world), SavePlan::Entities(all) if all == [1, 2, 5, 7]));
    let chrome = vec![EntityFacts { hidden: true, ..entity(3, None) }];
    assert!(
        matches!(save_scene(&chrome), SavePlan::Empty(text) if text == "(entities: {}, resources: {})")
    );
    assert!(has_hidden_ancestor(&world, 4));
    assert!(!has_hidden_ancestor(&world, 3));
}

// ── Pruning ──

#[test]
fn leaked_interface_is_pruned_with_everything_under_it() {
    let mut scene = vec![
        serialized(1, None, &[]),
        // An orphan of a root that was not saved, and its child.
        serialized(2, Some(99), &[NODE]),
        serialized(3, Some(2), &[NODE]),
        // An orphan that is no interface stays.
        serialized(4, Some(99), &[]),
    ];
    assert_eq!(prune_orphaned_entities(&mut scene), 2);
    assert_eq!(ids(&scene), vec![1, 4]);
    assert_eq!(prune_orphaned_entities(&mut scene), 0);
}

#[test]
fn interface_outside_every_canvas_is_pruned() {
    let mut scene = vec![
        serialized(1, None, &[NODE, CANVAS]),
        serialized(2, Some(1), &[NODE]),
        serialized(3, None, &[NODE]),
        serialized(4, Some(3), &[NODE]),
        serialized(5, None, &[]),
    ];
    assert_eq!(prune_leaked_ui(&mut scene), 2);
    assert_eq!(ids(&scene), vec![1, 2, 5]);
}

#[test]
fn a_parsed_scene_is_cleaned_and_its_skipped_types_told() {
    let mut scene = vec![
        serialized(1, None, &[NODE, CANVAS]),
        serialized(2, Some(99), &[NODE]),
        serialized(3, None, &[NODE]),
        serialized(4, Some(1), &[NODE]),
    ];
    let parsed = scene_parsed("a.ron", &mut scene, &vec!["x::Y".to_string()]);
    assert_eq!(ids(&scene), vec![1, 4]);
    assert_eq!((parsed.orphans, parsed.leaked), (1, 1));
    assert_eq!(parsed.skipped.expect("one").skipped, vec!["x::Y".to_string()]);
    let again = scene_parsed("a.ron", &mut scene, &vec![]);
    assert_eq!((again.orphans, again.leaked), (0, 0));
    assert!(again.skipped.is_none());
}

#[test]
fn a_circle_of_parents_is_kept_by_the_one_and_dropped_by_the_other() {
    let mut scene = vec![serialized(1, Some(2), &[NODE]), serialized(2, Some(1), &[NODE])];
    assert_eq!(prune_orphaned_entities(&mut scene), 0);
    assert_eq!(prune_scene(&mut scene), (0, 2));
    assert!(scene.is_empty());
}

#[test]
fn the_parent_is_read_from_the_first_link_that_has_one() {
    let e = SceneEntity {
        entity: 1,
        components: vec![
            component("other::ChildOf", Some(5)),
            component(CHILD_OF, None),
            component(CHILD_OF, Some(6)),
        ],
    };
    assert_eq!(e.scene_entity_parent(), Some(6));
    assert!(!e.scene_entity_is_ui() && !e.scene_entity_is_canvas());
    assert!(serialized(1, None, &[NODE]).scene_entity_is_ui());
    assert!(serialized(1, None, &[CANVAS]).scene_entity_is_canvas());
}

// ── Instances ──

fn parts(path: &str) -> Vec<String> {
    path.split('/').map(|p| p.to_string()).collect()
}

#[test]
fn instances_are_expanded_unless_streamed_open_or_recursive() {
    let instance = |entity, source: &str, streamed, has_children| InstanceFacts {
        entity,
        source: parts(source),
        streamed,
        has_children,
    };
    let list = vec![
        instance(1, "a", false, false),
        instance(2, "b", true, false),
        instance(3, "c", false, true),
        instance(4, "d", false, false),
    ];
    assert_eq!(expand_scene_instances(&list, true, &vec![parts("d")]), vec![0]);
    assert_eq!(expand_scene_instances(&list, false, &vec![]), vec![0, 1, 3]);
    assert_eq!(new_roots(&vec![1, 2], &vec![3, 1, 9, 4], 9), vec![3, 4]);
    assert_eq!(instance_name(Some("car")), "car");
    assert_eq!(instance_name(None), "Scene");
}

#[test]
fn instances_are_saved_back_where_that_is_unambiguous() {
    let source = |entity, source: &str, canonical: Option<&str>| InstanceSource {
        entity,
        source: source.to_string(),
        canonical: canonical.map(parts),
    };
    let list = vec![
        source(1, "a", Some("/p/a")),
        source(2, "b", None),
        source(3, "b", None),
        source(4, "host", Some("/p/host")),
        source(5, "c", None),
    ];
    assert_eq!(save_all_scene_instances(&list, &Some(parts("/p/host"))), vec![0, 4]);
    assert_eq!(save_all_scene_instances(&list, &None), vec![0, 3, 4]);
}

// ── Cameras ──

fn cam(entity: u64, default: bool, active: bool) -> SceneCam {
    SceneCam { entity, default, active }
}

#[test]
fn one_camera_is_active_in_a_game_and_none_in_the_editor() {
    let mut cams = vec![cam(1, false, true), cam(2, true, false), cam(3, false, true)];
    assert_eq!(find_lead_camera(&cams), Some(2));
    assert_eq!(enforce_single_active_camera(&mut cams, false), vec![1, 2, 3]);
    assert_eq!(cams, vec![cam(1, false, false), cam(2, true, true), cam(3, false, false)]);
    assert!(enforce_single_active_camera(&mut cams, false).is_empty());
    assert_eq!(enforce_single_active_camera(&mut cams, true), vec![2]);
    assert_eq!(find_lead_camera(&vec![cam(4, false, false), cam(5, false, true)]), Some(4));
    assert_eq!(find_lead_camera(&vec![]), None);
}

#[test]
fn loaded_cameras_wait_for_play_in_the_editor() {
    let cams = vec![cam(1, false, false), cam(2, true, false)];
    let editing = rehydrate_cameras(&cams, Some(true), false);
    assert!(editing.iter().all(|c| !c.active && !c.play_camera));
    let playing = rehydrate_cameras(&cams, Some(true), true);
    assert!(!playing[0].active && playing[1].active && playing[1].play_camera);
    let game = rehydrate_cameras(&cams, None, false);
    assert!(game[1].active && !game[1].play_camera);
    assert_eq!(probe_face_size(None), 128);
    assert_eq!(probe_face_size(Some(64)), 64);
    let mut active = None;
    sync_play_mode_camera(&mut active, &vec![3, 4]);
    assert_eq!(active, Some(4));
    sync_play_mode_camera(&mut active, &vec![]);
    assert_eq!(active, Some(4));
}

#[test]
fn the_editor_camera_mirrors_settings() {
    assert!(should_sync("renzora::BloomSettings"));
    assert!(!should_sync("renzora::SettingsPanel"));
    let cams = vec![cam(1, false, false)];
    assert_eq!(sync_source(false, Some(9), &cams), SyncSource::Mirror { scene: 1, editor: 9 });
    assert_eq!(sync_source(false, Some(9), &vec![]), SyncSource::Clear { editor: 9 });
    assert_eq!(sync_source(true, Some(9), &cams), SyncSource::Idle);
    assert_eq!(sync_source(false, None, &cams), SyncSource::Idle);
    assert_eq!(sync_source(false, Some(1), &cams), SyncSource::Idle);
    let kind = |name: &str, on_scene, on_editor| SyncType {
        type_path: name.to_string(),
        on_scene,
        on_editor,
    };
    assert_eq!(
        sync_actions(&vec![
            kind("a::ASettings", true, true),
            kind("a::BSettings", true, false),
            kind("a::CSettings", false, true),
            kind("a::DSettings", false, false),
            kind("a::Other", false, true),
        ]),
        vec![
            SyncAction::Apply,
            SyncAction::Insert,
            SyncAction::Remove,
            SyncAction::Leave,
            SyncAction::Leave,
        ]
    );
    let names = |list: &[&str]| list.iter().map(|n| n.to_string()).collect::<Vec<_>>();
    let mut seen = SceneCameraSyncState { prev_src: None, prev_synced: Vec::new() };
    assert!(seen.note(1, names(&["a", "b"]), false));
    assert!(!seen.note(1, names(&["b", "a"]), false));
    assert!(seen.note(1, names(&["b", "a"]), true));
    assert!(seen.note(1, names(&["b"]), false));
    assert!(seen.note(2, names(&["b"]), false));
}

// ── Meshes ──

#[test]
fn saved_primitives_are_rebuilt() {
    assert_eq!(
        rehydrate_meshes(Some(7), false, true),
        MeshPlan::WithMaterial { mesh: 7, saved_color: true }
    );
    assert_eq!(
        rehydrate_meshes(Some(7), false, false),
        MeshPlan::WithMaterial { mesh: 7, saved_color: false }
    );
    assert_eq!(rehydrate_meshes(Some(7), true, true), MeshPlan::MeshOnly(7));
    assert_eq!(rehydrate_meshes(None, true, false), MeshPlan::Unknown);
    assert!(apply_edited_meshes(9, 3));
    assert!(!apply_edited_meshes(8, 3));
    assert!(!apply_edited_meshes(9, 2));
}

#[test]
fn models_wait_for_their_files() {
    assert_eq!(finish_mesh_instance_rehydrate(&None, false), ModelStep::Wait);
    assert_eq!(finish_mesh_instance_rehydrate(&None, true), ModelStep::Fail);
    let file = |default_scene, scenes: &[u64]| {
        Some(ModelScenes { default_scene, scenes: scenes.to_vec() })
    };
    assert_eq!(finish_mesh_instance_rehydrate(&file(Some(4), &[1]), false), ModelStep::Spawn(4));
    assert_eq!(finish_mesh_instance_rehydrate(&file(None, &[1, 2]), false), ModelStep::Spawn(1));
    assert_eq!(finish_mesh_instance_rehydrate(&file(None, &[]), false), ModelStep::Finish);
    let fresh = ModelFacts { has_path: true, has_children: false, pending: false };
    assert!(rehydrate_mesh_instances(fresh));
    assert!(!rehydrate_mesh_instances(ModelFacts { has_path: false, ..fresh }));
    assert!(!rehydrate_mesh_instances(ModelFacts { has_children: true, ..fresh }));
    assert!(!rehydrate_mesh_instances(ModelFacts { pending: true, ..fresh }));
}

// ── Sprites ──

/// The rectangle a region shows, inset so that neighbours do not bleed in.
fn part_of(region: SpriteAtlasRegion) -> Option<Corners> {
    let (left, top, right, bottom) = rect_of(region);
    Some(Corners { min: at(left, top), max: at(right, bottom) })
}

fn rect_of(region: SpriteAtlasRegion) -> (f32, f32, f32, f32) {
    let span = apply_sprite_atlas_region(region);
    let cell = span.cell_px as f32;
    (
        span.left as f32 * cell + 0.05,
        span.top as f32 * cell + 0.05,
        span.right as f32 * cell - 0.05,
        span.bottom as f32 * cell - 0.05,
    )
}

/// The depth of a sprite at height `y`.
fn depth(z_base: f32, y: f32) -> Scalar {
    num(z_base - float(clamp_y_sort(num(y * 1e-5))))
}

#[test]
fn settled_sprites_skip_derived_work_and_changes_repair_outputs() {
    let mut region = SpriteAtlasRegion { col: 1, row: 2, w: 2, h: 1, tile_px: 16 };
    let mut z = num(0.0);
    let mut part: Option<Corners> = None;
    assert!(apply_y_sort(&mut z, depth(1.0, 20.0)));
    assert!(settle_part(&mut part, part_of(region)));
    for _ in 0..1_000 {
        assert!(!apply_y_sort(&mut z, depth(1.0, 20.0)));
        assert!(!settle_part(&mut part, part_of(region)));
    }
    assert_eq!(part, Some(Corners { min: at(16.05, 32.05), max: at(47.95, 47.95) }));
    assert_eq!(float(z), 1.0 - 20.0 * 1e-5);
    region.col = 2;
    assert!(settle_part(&mut part, part_of(region)));
    assert_eq!(float(part.unwrap().min.x), 32.05);
    part = None;
    z = num(99.0);
    assert!(settle_part(&mut part, part_of(region)));
    assert!(part.is_some());
    assert!(apply_y_sort(&mut z, depth(1.0, 20.0)));
    assert_eq!(float(z), 1.0 - 20.0 * 1e-5);
    assert!(apply_y_sort(&mut z, depth(1.0, 40.0)));
    assert_eq!(float(z), 1.0 - 40.0 * 1e-5);
    assert!(apply_y_sort(&mut z, depth(2.0, 40.0)));
    assert_eq!(float(z), 2.0 - 40.0 * 1e-5);
    for col in [3u32, 4] {
        region.col = col;
        assert_ne!(float(z), col as f32 - 40.0 * 1e-5);
        assert!(settle_part(&mut part, part_of(region)));
        assert!(apply_y_sort(&mut z, depth(col as f32, 40.0)));
        assert_eq!(float(z), col as f32 - 40.0 * 1e-5);
        assert_eq!(float(part.unwrap().min.x), col as f32 * 16.0 + 0.05);
    }
}

#[test]
fn heights_far_away_share_a_depth() {
    assert_eq!(clamp_y_sort(num(7.0)), num(0.5));
    assert_eq!(clamp_y_sort(num(-7.0)), num(-0.5));
    assert_eq!(clamp_y_sort(num(0.25)), num(0.25));
}

#[test]
fn frames_wrap_through_a_sheet() {
    let sheet = SpriteSheet { hframes: 4, vframes: 2, frame: 6 };
    assert_eq!(
        apply_sprite_sheet_crop(sheet, true),
        SheetCrop::Cell { columns: 4, rows: 2, column: 2, row: 1 }
    );
    assert_eq!(
        apply_sprite_sheet_crop(SpriteSheet { frame: 8, ..sheet }, true),
        SheetCrop::Cell { columns: 4, rows: 2, column: 0, row: 0 }
    );
    assert_eq!(apply_sprite_sheet_crop(sheet, false), SheetCrop::Wait);
    assert_eq!(apply_sprite_sheet_crop(SpriteSheet { hframes: 0, vframes: 1, frame: 5 }, false), SheetCrop::Whole);
    let block = apply_sprite_atlas_region(SpriteAtlasRegion { col: 3, row: 4, w: 0, h: 0, tile_px: 0 });
    assert_eq!((block.right, block.bottom, block.cell_px), (4, 5, 1));
}

#[test]
fn an_image_path_binds_and_clears() {
    let bare = SpriteState { image: None, tint: Tint::Other, custom_size: None };
    let bound = apply_sprite_image_path(bare, Some(7), None);
    assert_eq!(bound, SpriteState { image: Some(7), tint: Tint::White, custom_size: None });
    assert_eq!(apply_sprite_image_path(bound, Some(7), None), bound);
    let cleared = apply_sprite_image_path(bound, None, None);
    assert_eq!(
        cleared,
        SpriteState { image: None, tint: Tint::Placeholder, custom_size: Some(at(100.0, 100.0)) }
    );
    assert_eq!(apply_sprite_image_path(cleared, None, None), cleared);
    let sized = apply_sprite_image_path(bound, Some(7), Some(at(3.0, 4.0)));
    assert_eq!(sized.custom_size, Some(at(3.0, 4.0)));
    assert_eq!(sprite_for_path(Some(7), Some(at(3.0, 4.0))).custom_size, Some(at(3.0, 4.0)));
    assert_eq!(sprite_for_path(None, None).tint, Tint::Placeholder);
}

#[test]
fn a_resized_sprite_keeps_its_size() {
    let size = Some(at(3.0, 4.0));
    assert_eq!(mirror_sprite_custom_size(true, false, size, None), SizeMirror::Save(at(3.0, 4.0)));
    assert_eq!(mirror_sprite_custom_size(true, false, size, size), SizeMirror::Leave);
    assert_eq!(mirror_sprite_custom_size(true, false, None, size), SizeMirror::Remove);
    assert_eq!(mirror_sprite_custom_size(true, true, None, size), SizeMirror::Leave);
    assert_eq!(mirror_sprite_custom_size(false, false, size, None), SizeMirror::Leave);
    assert_eq!(on_sprite_custom_size_inserted(None, at(1.0, 2.0)), Some(at(1.0, 2.0)));
    assert_eq!(on_sprite_custom_size_inserted(Some(at(1.0, 2.0)), at(1.0, 2.0)), None);
}
