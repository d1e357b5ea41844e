//! Progress, global scenes, start-up, routing and viewports.

use renzora::engine::autoload::{
    propagate_persistent_to_children, AutoloadedEntities,
};
use renzora::engine::boot::{
    follow_model_path, follow_project_scene_paths, parse_project_arg, project_source, runtime_setup,
    sync_rendering_mode_from_project, BuildParts, ProjectScenes, ProjectSource, RenderingMode,
};
use renzora::engine::progress::{
    publish_asset_progress_to_bridge, publish_scene_load_to_bridge, tick_asset_load_progress,
    AssetLoadProgress, AssetProgressSnapshot, Fraction, Moment, SceneLoadSnapshot, TrackedFile,
};
use renzora::engine::routing::{
    contact_shadows, entities_to_clear, failed_event, find_route_target, loaded_event,
    needs_deferred_prepass, scene_change, take_scene_request, EffectRouting, PassFacts, RouteCam,
    SceneChange, ShadowChange,
};
use renzora::engine::shapes::{all_shapes, find_shape, shape_entry, Hundredths, Shape};
use renzora::engine::slots::{spawn_editor_2d_camera, spawn_editor_camera};
use renzora::engine::viewports::{
    clamp_zoom, frame_2d_default, pans, share_sky_to_secondary_viewports, sync_2d_viewport_cameras,
    sync_viewport_camera_targets, wheel_move, zooms_about_cursor, Binding, CameraInput, Framing,
    SkyCamera, SlotCamera, WheelMove,
};
use renzora::lineage::Link;
use renzora::scalar::{Point, Scalar};
use renzora::scene::load::{LoadEnd, SceneLoadFailed, SceneLoadPhase, SceneLoadState, SceneLoaded};
use renzora::scene::paths::ScenePath;
use renzora::scene::save::EntityFacts;

fn num(x: f32) -> Scalar {
    Scalar { bits: x.to_bits() }
}

fn at(x: f32, y: f32) -> Point {
    Point { x: num(x), y: num(y) }
}

fn float(x: Scalar) -> f32 {
    f32::from_bits(x.bits)
}

fn moment(secs: f64) -> Moment {
    Moment { bits: secs.to_bits() }
}

fn spelled(path: &str) -> ScenePath {
    ScenePath { parts: path.split('/').map(|p| p.to_string()).collect(), canonical: None }
}

fn file(path: &str, bytes: Option<u64>) -> TrackedFile {
    TrackedFile { path: Some(path.to_string()), bytes }
}

fn fraction_of(progress: &AssetLoadProgress) -> Scalar {
    let f = progress.fraction();
    num((f.part as f64 / f.whole as f64) as f32)
}

// ── Progress ──

#[test]
fn unchanged_bridges_stay_quiet_but_elapsed_and_scene_edits_publish() {
    let mut progress = AssetLoadProgress::default();
    let mut assets: Option<AssetProgressSnapshot> = None;
    let mut scenes: Option<SceneLoadSnapshot> = None;
    let mut state = SceneLoadState {
        phase: SceneLoadPhase::Ready,
        current_path: Some("scene.ron".to_string()),
        progress: num(1.0),
    };
    publish_asset_progress_to_bridge(&mut assets, &progress, fraction_of(&progress));
    publish_scene_load_to_bridge(&mut scenes, &state);
    for _ in 0..1000 {
        assert!(!publish_asset_progress_to_bridge(&mut assets, &progress, fraction_of(&progress)));
        assert!(!publish_scene_load_to_bridge(&mut scenes, &state));
    }
    progress.elapsed_secs = num(3.0);
    state.current_path = None;
    assert!(publish_asset_progress_to_bridge(&mut assets, &progress, fraction_of(&progress)));
    assert!(publish_scene_load_to_bridge(&mut scenes, &state));
    assert_eq!(float(assets.as_ref().unwrap().elapsed_secs), 3.0);
    assert!(scenes.as_ref().unwrap().current_path.is_none());
}

#[test]
fn progress_retains_paths_without_changing_lifecycle_or_elapsed_time() {
    let mut progress = AssetLoadProgress::default();
    let mut assets: Option<AssetProgressSnapshot> = None;
    let mut scenes: Option<SceneLoadSnapshot> = None;
    let mut state = SceneLoadState {
        phase: SceneLoadPhase::Loading,
        current_path: Some("scene.ron".to_string()),
        progress: num(0.25),
    };
    let mut clock = 0.0f64;
    let mut models = vec![file("model.glb", None)];
    let mut pending = vec![file("model.glb", None)];

    fn frame(
        progress: &mut AssetLoadProgress,
        models: &Vec<TrackedFile>,
        pending: &Vec<TrackedFile>,
        clock: f64,
    ) {
        tick_asset_load_progress(progress, models, pending, moment(clock));
        let start = progress.started_at.map_or(clock, |s| f64::from_bits(s.bits));
        progress.set_elapsed(num((clock - start) as f32));
    }

    frame(&mut progress, &models, &pending, clock);
    publish_asset_progress_to_bridge(&mut assets, &progress, fraction_of(&progress));
    publish_scene_load_to_bridge(&mut scenes, &state);
    let storage = (
        progress.current_path.as_ref().unwrap().as_ptr(),
        assets.as_ref().unwrap().current_path.as_ref().unwrap().as_ptr(),
        scenes.as_ref().unwrap().current_path.as_ref().unwrap().as_ptr(),
    );
    for _ in 0..1_000 {
        clock += 0.01;
        frame(&mut progress, &models, &pending, clock);
        publish_asset_progress_to_bridge(&mut assets, &progress, fraction_of(&progress));
        publish_scene_load_to_bridge(&mut scenes, &state);
        assert_eq!(
            storage,
            (
                progress.current_path.as_ref().unwrap().as_ptr(),
                assets.as_ref().unwrap().current_path.as_ref().unwrap().as_ptr(),
                scenes.as_ref().unwrap().current_path.as_ref().unwrap().as_ptr(),
            )
        );
        assert!(progress.is_loading());
        assert_eq!(progress.total_files, 1);
        assert_eq!(progress.loaded_files, 0);
    }
    assert!(float(progress.elapsed_secs) >= 9.99);
    models = vec![file("other.glb", None)];
    pending = vec![file("other.glb", None)];
    frame(&mut progress, &models, &pending, clock);
    assert_eq!(progress.current_path.as_deref(), Some("other.glb"));
    pending.clear();
    frame(&mut progress, &models, &pending, clock);
    publish_asset_progress_to_bridge(&mut assets, &progress, fraction_of(&progress));
    assert!(progress.is_done());
    assert!(assets.as_ref().unwrap().current_path.is_none());
    let elapsed = float(progress.elapsed_secs);
    clock += 1.0;
    frame(&mut progress, &models, &pending, clock);
    assert!(progress.is_done());
    assert!(float(progress.elapsed_secs) > elapsed);
    state.current_path = None;
    publish_scene_load_to_bridge(&mut scenes, &state);
    assert!(scenes.as_ref().unwrap().current_path.is_none());
}

#[test]
fn progress_counts_bytes_where_it_can() {
    let mut progress = AssetLoadProgress::default();
    assert!(progress.is_idle());
    assert_eq!(progress.fraction(), Fraction { part: 1, whole: 1 });
    let all = vec![
        file("a.glb", Some(30)),
        TrackedFile { path: None, bytes: Some(7) },
        file("b.glb", Some(10)),
    ];
    tick_asset_load_progress(&mut progress, &all, &vec![file("b.glb", Some(10))], moment(5.0));
    assert!(progress.is_loading());
    assert_eq!((progress.total_files, progress.loaded_files), (2, 1));
    assert_eq!(progress.fraction(), Fraction { part: 30, whole: 40 });
    assert_eq!(progress.started_at, Some(moment(5.0)));
    // More pending than resident counts as nothing loaded.
    let stray = vec![file("x", Some(99)), file("y", None), file("z", None)];
    tick_asset_load_progress(&mut progress, &all, &stray, moment(6.0));
    assert_eq!((progress.loaded_files, progress.loaded_bytes), (0, 0));
    tick_asset_load_progress(&mut progress, &all, &vec![], moment(7.0));
    assert!(progress.is_done());
    assert_eq!(progress.started_at, Some(moment(5.0)));
    // Another load starts a new interval.
    tick_asset_load_progress(&mut progress, &all, &vec![file("b.glb", None)], moment(8.0));
    assert!(progress.is_loading());
    assert_eq!(progress.started_at, Some(moment(8.0)));
    let by_file = vec![file("a", None), file("b", None)];
    tick_asset_load_progress(&mut progress, &by_file, &vec![file("b", None)], moment(9.0));
    assert_eq!(progress.fraction(), Fraction { part: 1, whole: 2 });
}

#[test]
fn a_fraction_is_at_most_the_whole() {
    let mut progress = AssetLoadProgress::default();
    progress.total_bytes = 1;
    progress.loaded_bytes = 2;
    assert_eq!(progress.fraction(), Fraction { part: 1, whole: 1 });
    progress.total_bytes = 0;
    progress.total_files = 3;
    progress.loaded_files = 5;
    assert_eq!(progress.fraction(), Fraction { part: 3, whole: 3 });
    progress.loaded_files = 2;
    assert_eq!(progress.fraction(), Fraction { part: 2, whole: 3 });
}

#[test]
fn the_last_pending_file_is_the_current_one() {
    let mut progress = AssetLoadProgress::default();
    let all = vec![file("a.glb", None), file("b.glb", None), file("c.glb", None)];
    let pending = vec![
        file("a.glb", None),
        file("c.glb", None),
        TrackedFile { path: None, bytes: None },
    ];
    tick_asset_load_progress(&mut progress, &all, &pending, moment(0.0));
    assert_eq!(progress.current_path.as_deref(), Some("c.glb"));
    assert_eq!((progress.total_files, progress.loaded_files), (3, 1));
}

#[test]
fn elapsed_time_is_never_negative() {
    let mut progress = AssetLoadProgress::default();
    progress.set_elapsed(num(3.0));
    assert_eq!(progress.elapsed_secs, num(0.0));
    progress.started_at = Some(moment(1.0));
    progress.set_elapsed(num(-2.0));
    assert_eq!(progress.elapsed_secs, num(0.0));
    progress.set_elapsed(num(f32::NAN));
    assert_eq!(progress.elapsed_secs, num(0.0));
    progress.set_elapsed(num(2.5));
    assert_eq!(progress.elapsed_secs, num(2.5));
}

#[test]
fn published_states_go_by_name() {
    let mut assets: Option<AssetProgressSnapshot> = None;
    let mut progress = AssetLoadProgress::default();
    publish_asset_progress_to_bridge(&mut assets, &progress, num(1.0));
    assert_eq!(assets.as_ref().unwrap().state, "idle");
    tick_asset_load_progress(&mut progress, &vec![file("a", None)], &vec![file("a", None)], moment(0.0));
    publish_asset_progress_to_bridge(&mut assets, &progress, num(0.0));
    assert_eq!(assets.as_ref().unwrap().state, "loading");
    tick_asset_load_progress(&mut progress, &vec![file("a", None)], &vec![], moment(0.0));
    publish_asset_progress_to_bridge(&mut assets, &progress, num(1.0));
    assert_eq!(assets.as_ref().unwrap().state, "done");
    let mut scenes: Option<SceneLoadSnapshot> = None;
    for (phase, name) in [
        (SceneLoadPhase::Idle, "idle"),
        (SceneLoadPhase::Loading, "loading"),
        (SceneLoadPhase::Ready, "ready"),
        (SceneLoadPhase::Failed, "failed"),
    ] {
        let state = SceneLoadState { phase, current_path: None, progress: num(0.0) };
        assert!(publish_scene_load_to_bridge(&mut scenes, &state));
        assert_eq!(scenes.as_ref().unwrap().phase, name);
    }
}

// ── Global scenes ──

#[test]
fn residency_is_path_keyed_and_clearable() {
    let mut resident = AutoloadedEntities::default();
    assert!(!resident.is_resident(&spelled("/proj/scenes/ui.ron")));
    resident.paths.push(spelled("/proj/scenes/ui.ron"));
    assert!(resident.is_resident(&spelled("/proj/scenes/ui.ron")));
    assert!(!resident.is_resident(&spelled("/proj/scenes/other.ron")));
    resident.paths.clear();
    assert!(!resident.is_resident(&spelled("/proj/scenes/ui.ron")));
}

#[test]
fn an_autoload_leaves_the_open_document_alone() {
    let mut state = SceneLoadState {
        phase: SceneLoadPhase::Ready,
        current_path: Some("/proj/scenes/world.bsn".to_string()),
        progress: num(1.0),
    };
    let mut resident = AutoloadedEntities::default();
    let open = spelled("/proj/scenes/world.bsn");
    let global = spelled("/proj/scenes/globals.bsn");
    let pass = resident.load_autoloads(
        Some(open.clone()),
        &vec![global.clone(), open.clone(), global.clone()],
        Some(&state),
    );
    assert_eq!(pass.plan, vec![0]);
    // The file does not exist; the load stamps its state all the same.
    state.begin("/proj/scenes/globals.bsn");
    state.end(&LoadEnd::Unavailable);
    assert_eq!(state.current_path.as_deref(), Some("/proj/scenes/globals.bsn"));
    resident.record(global.clone(), &vec![1], &vec![1]);
    pass.finish(&mut state);
    assert_eq!(
        state.current_path.as_deref(),
        Some("/proj/scenes/world.bsn"),
        "the global scene overwrote the record of which document is open"
    );
    assert_eq!(state.phase, SceneLoadPhase::Ready);
    assert_eq!(state.progress, num(1.0));
    // A second pass loads nothing.
    let again = resident.load_autoloads(Some(open), &vec![global], Some(&state));
    assert!(again.plan.is_empty());
    again.finish(&mut state);
    assert_eq!(state.current_path.as_deref(), Some("/proj/scenes/world.bsn"));
    assert_eq!((resident.entities.len(), resident.paths.len()), (0, 1));
}

#[test]
fn a_pass_without_an_open_document_leaves_the_load_state() {
    let resident = AutoloadedEntities::default();
    let scenes = vec![spelled("a.bsn"), spelled("b.bsn"), spelled("a.bsn")];
    let pass = resident.load_autoloads(None, &scenes, None);
    assert_eq!(pass.plan, vec![0, 1]);
    let mut state = SceneLoadState::default();
    state.begin("b.bsn");
    pass.finish(&mut state);
    assert_eq!(state.current_path.as_deref(), Some("b.bsn"));
}

#[test]
fn a_global_scene_is_loaded_once_and_comes_back_after_a_stop() {
    let mut resident = AutoloadedEntities::default();
    let hud = spelled("hud.bsn");
    assert!(!resident.should_load(Some(&spelled("hud.bsn")), &hud));
    assert!(resident.should_load(None, &hud));
    let new = resident.record(spelled("hud.bsn"), &vec![1, 2], &vec![2, 7, 1, 8]);
    assert_eq!(new, vec![7, 8]);
    assert!(!resident.should_load(None, &hud));
    assert_eq!(resident.unload(), vec![7, 8]);
    assert!(resident.should_load(None, &hud));
    assert!(resident.entities.is_empty());
}

#[test]
fn children_of_a_persistent_entity_are_persistent() {
    let added = vec![
        Link { child: 2, parent: 1 },
        Link { child: 3, parent: 9 },
        Link { child: 4, parent: 2 },
        Link { child: 5, parent: 1 },
    ];
    assert_eq!(propagate_persistent_to_children(&added, &vec![1, 5]), vec![2]);
}

// ── Start-up ──

fn args(list: &[&str]) -> Vec<String> {
    list.iter().map(|a| a.to_string()).collect()
}

#[test]
fn the_project_comes_from_the_archive_the_arguments_or_here() {
    assert_eq!(parse_project_arg(&args(&["app", "--project", "demo", "x"])), Some("demo".into()));
    assert_eq!(parse_project_arg(&args(&["app", "--project"])), None);
    assert_eq!(
        parse_project_arg(&args(&["app", "--project", "--project", "a"])),
        Some("--project".into())
    );
    let named = args(&["app", "--project", "demo"]);
    assert!(matches!(project_source(true, &named, true), ProjectSource::Archive));
    assert!(matches!(project_source(false, &named, true), ProjectSource::Disk(p) if p == "demo"));
    assert!(
        matches!(project_source(false, &args(&["app"]), true), ProjectSource::Disk(p) if p == "project.toml")
    );
    assert!(matches!(project_source(false, &args(&["app"]), false), ProjectSource::Missing));
}

#[test]
fn renamed_scenes_are_followed() {
    let mut scenes = ProjectScenes { main_scene: "a.ron".into(), autoload: args(&["b.ron", "c.ron"]) };
    assert!(!follow_project_scene_paths(&mut scenes, None, &vec![None, None]));
    assert!(follow_project_scene_paths(&mut scenes, None, &vec![None, Some("d.ron".into())]));
    assert_eq!(scenes.autoload, args(&["b.ron", "d.ron"]));
    assert!(follow_project_scene_paths(&mut scenes, Some("m.ron".into()), &vec![None, None]));
    assert_eq!(scenes.main_scene, "m.ron");
    let mut model = Some("old.glb".to_string());
    assert!(!follow_model_path(&mut model, None));
    assert!(follow_model_path(&mut model, Some("new.glb".into())));
    assert_eq!(model.as_deref(), Some("new.glb"));
    let mut none = None;
    assert!(!follow_model_path(&mut none, Some("new.glb".into())));
    assert!(none.is_none());
}

#[test]
fn a_session_runs_what_it_is_for() {
    let all = BuildParts { render_2d: true, render_3d: true, models: true };
    let game = runtime_setup(None, false, all);
    assert!(game.boots_game && game.loads_models && game.routes_effects && game.enforces_quality);
    let editor = runtime_setup(Some(true), false, all);
    assert!(!editor.boots_game && !editor.routes_effects && !editor.rebuilds_meshes);
    assert!(editor.binds_sprites && editor.streams_detail);
    let server = runtime_setup(Some(false), true, all);
    assert!(server.boots_game && !server.loads_models && !server.streams_detail);
    let flat = runtime_setup(None, false, BuildParts { render_2d: true, render_3d: false, models: false });
    assert!(!flat.rebuilds_meshes && !flat.enforces_quality && flat.binds_sprites);
}

#[test]
fn the_rendering_mode_comes_with_the_project() {
    let mut mode = RenderingMode::Forward;
    assert_eq!(sync_rendering_mode_from_project(&mut mode, None), None);
    assert_eq!(mode, RenderingMode::Forward);
    assert_eq!(
        sync_rendering_mode_from_project(&mut mode, Some(RenderingMode::Deferred)),
        Some(true)
    );
    assert_eq!(mode, RenderingMode::Deferred);
    assert_eq!(sync_rendering_mode_from_project(&mut mode, Some(RenderingMode::Auto)), Some(false));
}

#[test]
fn shapes_go_by_their_names() {
    assert_eq!(all_shapes().len(), 30);
    for shape in all_shapes() {
        assert_eq!(find_shape(shape_entry(shape).id), Some(shape));
        assert_eq!(shape_entry(shape).category, "Shapes");
    }
    assert_eq!(find_shape("window_wall"), Some(Shape::WindowWall));
    assert_eq!(find_shape("teapot"), None);
    let plane = shape_entry(Shape::Plane);
    assert_eq!(plane.name, "Plane");
    assert_eq!(plane.default_color, Hundredths { red: 35, green: 35, blue: 35 });
    assert_eq!(plane.default_color.red as f32 / 100.0, 0.35);
}

// ── Routing ──

fn cam(entity: u64, default: bool, active: bool) -> RouteCam {
    RouteCam { entity, default, active }
}

#[test]
fn effects_go_to_the_active_camera() {
    assert_eq!(find_route_target(&vec![cam(1, false, true), cam(2, true, true)]), Some(2));
    assert_eq!(find_route_target(&vec![cam(1, false, true), cam(2, true, false)]), Some(1));
    assert_eq!(find_route_target(&vec![cam(1, true, false)]), None);
    let mut routing = EffectRouting { routes: Vec::new() };
    let cams = vec![cam(1, false, true)];
    assert!(routing.update(&cams, &vec![9, 3, 5]));
    assert_eq!(routing.routes[0].target, 1);
    assert_eq!(routing.routes[0].sources, vec![1, 3, 5, 9]);
    // Another order of the same entities changes nothing.
    assert!(!routing.update(&cams, &vec![5, 9, 3]));
    assert!(routing.update(&cams, &vec![5, 9]));
    assert!(routing.update(&vec![], &vec![5, 9]));
    assert!(routing.routes.is_empty());
    assert!(!routing.update(&vec![], &vec![5]));
}

#[test]
fn only_the_last_scene_asked_for_is_loaded() {
    let mut requests = args(&["a", "b"]);
    assert_eq!(take_scene_request(&mut requests), Some("b".into()));
    assert!(requests.is_empty());
    assert_eq!(take_scene_request(&mut requests), None);
    assert!(matches!(scene_change(None, true, false), SceneChange::Stay));
    assert!(matches!(scene_change(Some("b".into()), false, false), SceneChange::NoProject));
    assert!(
        matches!(scene_change(Some("b".into()), true, true), SceneChange::Resident(s) if s == "b")
    );
    assert!(matches!(scene_change(Some("b".into()), true, false), SceneChange::Load(s) if s == "b"));
}

fn entity(id: u64, parent: Option<u64>) -> EntityFacts {
    EntityFacts {
        id,
        named: true,
        hidden: false,
        editor_camera: false,
        gamepad: false,
        persistent: false,
        scene_instance: false,
        mesh_instance: false,
        parent,
    }
}

#[test]
fn a_scene_change_clears_the_scene_and_nothing_else() {
    let world = vec![
        entity(1, None),
        EntityFacts { hidden: true, ..entity(2, None) },
        entity(3, Some(2)),
        EntityFacts { persistent: true, ..entity(4, None) },
        EntityFacts { editor_camera: true, ..entity(5, None) },
        EntityFacts { named: false, ..entity(6, None) },
        entity(7, Some(1)),
    ];
    assert_eq!(entities_to_clear(&world), vec![1, 7]);
}

#[test]
fn scripts_hear_of_loads_and_failures() {
    let loaded = loaded_event(&SceneLoaded { path: "a.ron".into() });
    assert_eq!((loaded.path.as_str(), loaded.error), ("a.ron", None));
    let failed = failed_event(&SceneLoadFailed { path: "b.ron".into(), error: "bad".into() });
    assert_eq!((failed.path.as_str(), failed.error.as_deref()), ("b.ron", Some("bad")));
}

#[test]
fn contact_shadows_stay_on_forward_cameras() {
    let plain =
        PassFacts { three_d: true, deferred_prepass: false, contact_shadows: false, isolated: false };
    assert_eq!(contact_shadows(false, plain), ShadowChange::Grant);
    assert_eq!(contact_shadows(true, plain), ShadowChange::Leave);
    let shaded = PassFacts { contact_shadows: true, ..plain };
    assert_eq!(contact_shadows(false, shaded), ShadowChange::Leave);
    assert_eq!(
        contact_shadows(false, PassFacts { deferred_prepass: true, ..shaded }),
        ShadowChange::Strip
    );
    assert_eq!(contact_shadows(false, PassFacts { isolated: true, ..shaded }), ShadowChange::Strip);
    assert!(needs_deferred_prepass(true, plain));
    assert!(!needs_deferred_prepass(false, plain));
    assert!(!needs_deferred_prepass(true, PassFacts { three_d: false, ..plain }));
}

// ── Viewports ──

#[test]
fn viewport_cameras_are_bound_once() {
    let cameras = vec![SlotCamera { entity: 10, slot: 0 }, SlotCamera { entity: 11, slot: 1 }];
    let mut bound = false;
    let first = sync_viewport_camera_targets(&mut bound, &cameras, &vec![Some(5), None], 2);
    assert_eq!(first, vec![Binding { entity: 10, image: 5 }]);
    assert!(!bound);
    let second = sync_viewport_camera_targets(&mut bound, &cameras, &vec![Some(5), Some(6)], 2);
    assert_eq!(second.len(), 2);
    assert!(bound);
    assert!(sync_viewport_camera_targets(&mut bound, &cameras, &vec![Some(5), Some(6)], 2).is_empty());
}

#[test]
fn each_slot_has_its_own_cameras() {
    let first = spawn_editor_camera(0, 20);
    assert_eq!(first.name, "Editor Camera 0");
    assert_eq!(first.layers, vec![0, 1, 20]);
    assert!(first.active && first.primary && first.order == -1);
    let third = spawn_editor_camera(2, 20);
    assert_eq!(third.layers, vec![0, 1, 22]);
    assert!(!third.active && !third.primary);
    let flat = spawn_editor_2d_camera(12, 30);
    assert_eq!(flat.name, "Editor Camera 2D 12");
    assert_eq!(flat.layers, vec![0, 42]);
    assert!(!flat.active && !flat.primary && flat.order == 0);
    assert!(spawn_editor_2d_camera(0, 30).primary);
}

#[test]
fn unframed_views_start_from_the_focused_one() {
    let blank = Framing { pan: at(0.0, 0.0), zoom: num(0.0) };
    let seen = Framing { pan: at(3.0, 4.0), zoom: num(2.0) };
    let own = Framing { pan: at(9.0, 9.0), zoom: num(1.0) };
    let mut slots = vec![blank, blank, own];
    let others = vec![SlotCamera { entity: 11, slot: 1 }, SlotCamera { entity: 12, slot: 2 }];
    let changes = sync_2d_viewport_cameras(&mut slots, Some((0, seen)), &others);
    assert_eq!(slots, vec![seen, seen, own]);
    assert_eq!(changes.len(), 2);
    assert_eq!((changes[0].entity, changes[0].framing), (11, seen));
    assert_eq!((changes[1].entity, changes[1].framing), (12, own));
}

#[test]
fn the_wheel_scrolls_or_zooms() {
    let input = CameraInput {
        in_2d_view: true,
        hovered: true,
        dragging: false,
        shift: false,
        control: false,
        wheel: at(0.0, 1.0),
    };
    assert_eq!(wheel_move(input), WheelMove::Zoom);
    assert_eq!(wheel_move(CameraInput { shift: true, ..input }), WheelMove::Vertical);
    assert_eq!(wheel_move(CameraInput { control: true, ..input }), WheelMove::Horizontal);
    assert_eq!(wheel_move(CameraInput { wheel: at(1.0, 1.0), ..input }), WheelMove::Sideways);
    assert_eq!(wheel_move(CameraInput { wheel: at(0.0, 0.0), ..input }), WheelMove::Nothing);
    assert_eq!(wheel_move(CameraInput { hovered: false, ..input }), WheelMove::Nothing);
    assert!(pans(CameraInput { dragging: true, ..input }));
    assert!(!pans(input));
    assert_eq!(clamp_zoom(num(0.0)), num(0.01));
    assert_eq!(clamp_zoom(num(5000.0)), num(1000.0));
    assert_eq!(clamp_zoom(num(3.5)), num(3.5));
}

#[test]
fn a_zoom_needs_a_cursor_and_an_image() {
    let screen = at(100.0, 50.0);
    let image = at(200.0, 100.0);
    assert!(zooms_about_cursor(at(0.0, 0.0), screen, image));
    assert!(!zooms_about_cursor(at(-1.0, 0.0), screen, image));
    assert!(!zooms_about_cursor(at(100.0, 0.0), screen, image));
    assert!(!zooms_about_cursor(at(0.0, 0.0), screen, at(0.0, 100.0)));
    assert!(frame_2d_default(false, true, Some(at(2.0, 2.0)), true, true));
    assert!(!frame_2d_default(true, true, Some(at(2.0, 2.0)), true, true));
    assert!(!frame_2d_default(false, true, Some(at(1.0, 2.0)), true, true));
    assert!(!frame_2d_default(false, true, None, true, true));
    assert!(!frame_2d_default(false, false, Some(at(2.0, 2.0)), true, true));
}

#[test]
fn the_sky_is_shared_with_views_that_lack_it() {
    let cameras = vec![
        SkyCamera { entity: 1, sky: None },
        SkyCamera { entity: 2, sky: Some(7) },
        SkyCamera { entity: 3, sky: Some(8) },
    ];
    assert_eq!(share_sky_to_secondary_viewports(Some(7), &cameras), vec![1, 3]);
    assert!(share_sky_to_secondary_viewports(None, &cameras).is_empty());
}
