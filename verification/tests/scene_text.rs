//! Scene files: their text, their paths and their references.

use renzora::scene::circle::{would_create_reference_cycle, SceneRefs};
use renzora::scene::cycle::ReferenceSearch;
use renzora::scene::denied::{denied_types, Capture, RuntimeType};
use renzora::scene::load::{
    first_source, is_empty_scene, is_empty_trimmed, load_event, scene_written, skipped_event,
    text_fetched, Fetched, LoadEnd, LoadEvent, SceneLoadPhase, SceneLoadState,
};
use renzora::scene::paths::{archive_key, is_self_reference, paths_equal, script_key, ScenePath};
use renzora::scene::references::{SceneReferenceCache, Stamp};
use renzora::scene::save::{
    empty_scene_text, prefab_keeps_component, saves_component, snapshots_component,
};
use renzora::scene::surgery::{
    extract_scene_instance_sources, extract_unregistered_type, strip_component_entry,
};
use renzora::unicode::{is_white, trim};

fn parts(path: &str) -> Vec<String> {
    path.split('/').map(|p| p.to_string()).collect()
}

fn spelled(path: &str) -> ScenePath {
    ScenePath { parts: parts(path), canonical: None }
}

fn resolved(path: &str, to: &str) -> ScenePath {
    ScenePath { parts: parts(path), canonical: Some(parts(to)) }
}

// ── Unregistered types ──

#[test]
fn extract_type_basic_backtick_form() {
    let msg = "no registration found for `my::crate::Foo`";
    assert_eq!(extract_unregistered_type(msg), Some("my::crate::Foo".to_string()));
}

#[test]
fn extract_type_with_type_keyword() {
    let msg = "no registration found for type `bevy::pbr::StandardMaterial`";
    assert_eq!(extract_unregistered_type(msg), Some("bevy::pbr::StandardMaterial".to_string()));
}

#[test]
fn extract_type_embedded_in_larger_message() {
    let msg = "deserialization error at line 5: no registration found for `a::B`, aborting";
    assert_eq!(extract_unregistered_type(msg), Some("a::B".to_string()));
}

#[test]
fn extract_type_returns_none_when_pattern_absent() {
    assert_eq!(extract_unregistered_type("some unrelated error"), None);
}

#[test]
fn extract_type_returns_none_without_closing_backtick() {
    let msg = "no registration found for `unterminated";
    assert_eq!(extract_unregistered_type(msg), None);
}

#[test]
fn extract_type_returns_none_without_opening_backtick() {
    let msg = "no registration found for plainname";
    assert_eq!(extract_unregistered_type(msg), None);
}

// ── Stripping an entry ──

#[test]
fn strip_middle_entry_keeps_neighbors() {
    let ron = "(\n  \"a::A\": (x: 1),\n  \"b::B\": (y: 2),\n  \"c::C\": (z: 3),\n)";
    let out = strip_component_entry(ron, "b::B").expect("entry should be found");
    assert!(!out.contains("b::B"), "stripped key must be gone");
    assert!(out.contains("a::A"), "preceding entry must remain");
    assert!(out.contains("c::C"), "following entry must remain");
    assert!(!out.contains(",,"));
}

#[test]
fn strip_entry_with_nested_parens() {
    let ron = "(\n  \"t::T\": (inner: (a: 1, b: (2)), tail: 9),\n  \"u::U\": (k: 0),\n)";
    let out = strip_component_entry(ron, "t::T").expect("entry should be found");
    assert!(!out.contains("t::T"));
    assert!(out.contains("u::U"));
    assert!(out.contains("k: 0"));
}

#[test]
fn strip_entry_with_paren_inside_string_literal() {
    let ron = "(\n  \"s::S\": (label: \"a ) b ( c\"),\n  \"v::V\": (n: 1),\n)";
    let out = strip_component_entry(ron, "s::S").expect("entry should be found");
    assert!(!out.contains("s::S"));
    assert!(out.contains("v::V"));
    assert!(out.contains("n: 1"));
}

#[test]
fn strip_entry_with_escaped_quote_in_string() {
    let ron = "(\n  \"e::E\": (txt: \"x \\\" ) still in string\"),\n  \"w::W\": (m: 2),\n)";
    let out = strip_component_entry(ron, "e::E").expect("entry should be found");
    assert!(!out.contains("e::E"));
    assert!(out.contains("w::W"));
    assert!(out.contains("m: 2"));
}

#[test]
fn strip_returns_none_for_missing_key() {
    let ron = "(\n  \"a::A\": (x: 1),\n)";
    assert_eq!(strip_component_entry(ron, "z::Z"), None);
}

#[test]
fn strip_returns_none_on_unbalanced_parens() {
    let ron = "(\n  \"a::A\": (x: 1,\n";
    assert_eq!(strip_component_entry(ron, "a::A"), None);
}

#[test]
fn strip_last_entry_is_removed() {
    let ron = "(\n  \"a::A\": (x: 1),\n  \"b::B\": (y: 2),\n)";
    let out = strip_component_entry(ron, "b::B").expect("entry should be found");
    assert!(!out.contains("b::B"));
    assert!(out.contains("a::A"));
}

#[test]
fn strip_takes_the_entry_with_its_comma() {
    let on_one_line = "(\"a::A\": (x: 1),\"b::B\": (y: 2),\"c::C\": (z: 3),)";
    assert_eq!(
        strip_component_entry(on_one_line, "b::B").as_deref(),
        Some("(\"a::A\": (x: 1),\"c::C\": (z: 3),)")
    );
    assert_eq!(
        strip_component_entry("(\n  \"b::B\": (y: 2) ,\t\n  k,\n)", "b::B").as_deref(),
        Some("(\n  k,\n)")
    );
    // A comma that stands on the next line is left over.
    assert_eq!(strip_component_entry("a,\"b::B\": ()\n,c", "b::B").as_deref(), Some("a,,c"));
}

// ── Sources of scene instances ──

#[test]
fn extract_sources_single() {
    let text = r#"
        "renzora::core::SceneInstance": (
            source: "scenes/car.ron",
        ),
        "#;
    assert_eq!(extract_scene_instance_sources(text), vec!["scenes/car.ron".to_string()]);
}

#[test]
fn extract_sources_multiple_in_order() {
    let text = "\"renzora::core::SceneInstance\": ( source: \"a.ron\" ),\nother stuff,\n\
                \"renzora::core::SceneInstance\": ( source: \"b.ron\" ),\n";
    assert_eq!(
        extract_scene_instance_sources(text),
        vec!["a.ron".to_string(), "b.ron".to_string()]
    );
}

#[test]
fn extract_sources_none_when_marker_absent() {
    let text = "\"some::Other\": ( source: \"x.ron\" )";
    assert!(extract_scene_instance_sources(text).is_empty());
}

#[test]
fn extract_sources_empty_string_source() {
    let text = "\"renzora::core::SceneInstance\": ( source: \"\" )";
    assert_eq!(extract_scene_instance_sources(text), vec![String::new()]);
}

#[test]
fn extract_sources_tab_whitespace_before_quote() {
    let text = "\"renzora::core::SceneInstance\": (source:\t\"tabbed.ron\")";
    assert_eq!(extract_scene_instance_sources(text), vec!["tabbed.ron".to_string()]);
}

// ── Paths ──

#[test]
fn paths_equal_identical_uncanonicalizable_paths() {
    let a = spelled("/nonexistent/scenes/foo.ron");
    let b = spelled("/nonexistent/scenes/foo.ron");
    assert!(paths_equal(&a, &b));
    assert!(is_self_reference(&a, &b));
}

#[test]
fn paths_not_equal_different_uncanonicalizable_paths() {
    let a = spelled("/nonexistent/scenes/foo.ron");
    let b = spelled("/nonexistent/scenes/bar.ron");
    assert!(!paths_equal(&a, &b));
    assert!(!is_self_reference(&a, &b));
}

#[test]
fn paths_that_resolve_go_by_where_they_lead() {
    assert!(paths_equal(&resolved("x/a.ron", "/p/a.ron"), &resolved("./x/a.ron", "/p/a.ron")));
    assert!(!paths_equal(&resolved("a.ron", "/p/a.ron"), &resolved("a.ron", "/q/a.ron")));
    // Where only one resolves, both go by how they are spelled.
    assert!(paths_equal(&resolved("a.ron", "/p/a.ron"), &spelled("a.ron")));
    assert!(!paths_equal(&resolved("a.ron", "/p/a.ron"), &spelled("/p/a.ron")));
}

#[test]
fn archives_are_keyed_by_plain_forward_paths() {
    assert_eq!(archive_key(".\\scenes\\a.ron"), "scenes/a.ron");
    assert_eq!(archive_key("scenes/a.ron"), "scenes/a.ron");
    assert_eq!(archive_key("././a.ron"), "./a.ron");
    assert_eq!(script_key("./.\\a.lua"), "a.lua");
    assert_eq!(script_key("scripts\\a.lua"), "scripts/a.lua");
}

// ── References ──

const CAR: &str = "\"renzora::core::SceneInstance\": ( source: \"car.ron\" )";

#[test]
fn references_are_cached_until_the_file_changes() {
    let mut cache = SceneReferenceCache::default();
    let path = spelled("host.ron");
    let first = Some(Stamp { secs: 1, nanos: 0 });
    let second = Some(Stamp { secs: 2, nanos: 0 });
    assert!(cache.needs_reload(&path, first));
    assert_eq!(cache.references_for(&path, first, Some(CAR)), Some(vec!["car.ron".to_string()]));
    assert!(!cache.needs_reload(&path, first));
    // Fresh: the text is not looked at.
    assert_eq!(cache.references_for(&path, first, Some("")), Some(vec!["car.ron".to_string()]));
    assert!(cache.needs_reload(&path, second));
    assert_eq!(cache.references_for(&path, second, Some("")), Some(vec![]));
    assert_eq!(cache.references_for(&spelled("gone.ron"), None, None), None);
    cache.invalidate(&path);
    assert!(cache.needs_reload(&path, second));
    assert_eq!(cache.references_for(&path, second, Some(CAR)), Some(vec!["car.ron".to_string()]));
    cache.clear();
    assert!(cache.needs_reload(&path, second));
}

/// Searches `scenes`, a list of scenes with what each refers to.
fn search(scenes: &[(&str, &[&str])], host: &str, source: &str) -> (bool, usize) {
    let mut search = ReferenceSearch::start(spelled(host), spelled(source));
    let mut asked = 0;
    while let Some(path) = search.next() {
        asked += 1;
        let name = path.parts.join("/");
        let refs = scenes
            .iter()
            .filter(|(from, _)| *from == name)
            .flat_map(|(_, to)| to.iter().map(|t| spelled(t)))
            .collect();
        search.answer(refs);
    }
    (search.found(), asked)
}

#[test]
fn a_reference_that_closes_a_circle_is_found() {
    let scenes: [(&str, &[&str]); 4] =
        [("b", &["c", "d"]), ("c", &["b"]), ("d", &["e"]), ("e", &["a"])];
    assert!(search(&scenes, "a", "a").0);
    assert!(search(&scenes, "a", "b").0);
    assert!(!search(&scenes, "z", "b").0);
    // A circle that does not lead to the host is walked once.
    assert_eq!(search(&scenes, "z", "b"), (false, 5));
    assert_eq!(search(&[], "a", "b"), (false, 1));
}

/// Asks of `scenes`, a list of scenes with what each refers to.
fn closes(scenes: &[(&str, &[&str])], host: &str, source: &str) -> bool {
    let list: Vec<SceneRefs> = scenes
        .iter()
        .map(|(from, to)| SceneRefs {
            from: spelled(from),
            to: to.iter().map(|t| spelled(t)).collect(),
        })
        .collect();
    would_create_reference_cycle(&list, spelled(host), spelled(source))
}

#[test]
fn a_circle_is_seen_in_a_list_of_references() {
    let scenes: [(&str, &[&str]); 5] =
        [("b", &["c", "d"]), ("c", &["b"]), ("d", &["e"]), ("e", &[]), ("e", &["a"])];
    assert!(closes(&scenes, "a", "a"));
    assert!(closes(&scenes, "a", "b"));
    assert!(closes(&scenes, "a", "c"));
    assert!(closes(&scenes, "b", "c"));
    assert!(!closes(&scenes, "c", "e"));
    assert!(!closes(&scenes, "z", "b"));
    assert!(!closes(&[], "a", "b"));
}

// ── Loading ──

#[test]
fn empty_scenes_are_recognised() {
    assert!(is_empty_scene(""));
    assert!(is_empty_scene(" \n\t "));
    assert!(is_empty_scene("\n(entities: {}, resources: {})\u{3000}"));
    assert!(!is_empty_scene("(entities: {1: ()}, resources: {})"));
    assert!(is_empty_scene(empty_scene_text()));
    assert!(!is_empty_trimmed(" "));
}

#[test]
fn a_snapshot_keeps_what_a_saved_scene_rebuilds() {
    let scene = denied_types(Capture::Scene);
    let prefab = denied_types(Capture::Prefab);
    let snapshot = denied_types(Capture::Snapshot);
    assert_eq!((scene.len(), prefab.len(), snapshot.len()), (24, 25, 15));
    assert!(scene.contains(&RuntimeType::Camera) && !snapshot.contains(&RuntimeType::Camera));
    assert!(!scene.contains(&RuntimeType::GlobalTransform));
    assert!(snapshot.contains(&RuntimeType::GlobalTransform));
    assert!(snapshot.contains(&RuntimeType::Children));
    assert!(scene.iter().chain(&snapshot).all(|t| prefab.contains(t)));
}

#[test]
fn white_space_is_what_unicode_says_it_is() {
    for c in '\0'..=char::MAX {
        assert_eq!(is_white(c), c.is_whitespace(), "{c:?}");
    }
    assert_eq!(trim("\u{2003} a b\u{a0}"), "a b");
}

#[test]
fn a_load_ends_ready_failed_or_where_it_was() {
    let mut state = SceneLoadState::default();
    assert_eq!(state.phase, SceneLoadPhase::Idle);
    state.begin("a.ron");
    assert_eq!(state.phase, SceneLoadPhase::Loading);
    assert!(load_event("a.ron", &LoadEnd::Unavailable).is_none());
    state.end(&LoadEnd::Unavailable);
    assert_eq!(state.phase, SceneLoadPhase::Loading);
    state.end(&LoadEnd::Empty);
    assert_eq!((state.phase, state.progress.bits), (SceneLoadPhase::Ready, 1.0f32.to_bits()));
    assert!(
        matches!(load_event("a.ron", &LoadEnd::Written), Some(LoadEvent::Loaded(e)) if e.path == "a.ron")
    );
    state.begin("b.ron");
    assert_eq!(state.progress.bits, 0.0f32.to_bits());
    let end = LoadEnd::Rejected("no".to_string());
    state.end(&end);
    assert_eq!(state.phase, SceneLoadPhase::Failed);
    assert_eq!(state.current_path.as_deref(), Some("b.ron"));
    assert!(
        matches!(load_event("b.ron", &end), Some(LoadEvent::Failed(e)) if e.path == "b.ron" && e.error == "no")
    );
}

#[test]
fn a_scene_comes_from_the_archive_before_the_disk() {
    let some = |s: &str| Some(s.to_string());
    assert_eq!(first_source(some("a"), some("b"), some("c")), some("a"));
    assert_eq!(first_source(None, some("b"), some("c")), some("b"));
    assert_eq!(first_source(None, None, some("c")), some("c"));
    assert_eq!(first_source(None, None, None), None);
}

#[test]
fn a_load_goes_from_text_to_world() {
    let some = |s: &str| Some(s.to_string());
    let mut state = SceneLoadState::default();
    state.begin("a.ron");
    assert!(matches!(text_fetched(&mut state, "a.ron", None, None, None), Fetched::Missing));
    assert_eq!(state.phase, SceneLoadPhase::Loading);
    assert!(
        matches!(text_fetched(&mut state, "a.ron", None, None, some("(x)")), Fetched::Parse(t) if t == "(x)")
    );
    assert_eq!(state.phase, SceneLoadPhase::Loading);
    assert!(
        matches!(text_fetched(&mut state, "a.ron", some(" \n"), None, some("(x)")), Fetched::Done(LoadEvent::Loaded(e)) if e.path == "a.ron")
    );
    assert_eq!(state.phase, SceneLoadPhase::Ready);
    state.begin("b.ron");
    assert!(matches!(scene_written(&mut state, "b.ron", Ok(())), LoadEvent::Loaded(e) if e.path == "b.ron"));
    assert_eq!(state.phase, SceneLoadPhase::Ready);
    let failed = scene_written(&mut state, "b.ron", Err("no".to_string()));
    assert!(matches!(failed, LoadEvent::Failed(e) if e.error == "no"));
    assert_eq!(state.phase, SceneLoadPhase::Failed);
}

#[test]
fn skipped_types_are_announced() {
    assert!(skipped_event("a.ron", &vec![]).is_none());
    let event = skipped_event("a.ron", &vec!["x::Y".to_string()]).expect("one");
    assert_eq!((event.path.as_str(), event.skipped), ("a.ron", vec!["x::Y".to_string()]));
}

// ── Components ──

#[test]
fn runtime_components_are_not_saved() {
    assert!(saves_component("renzora::Sun", true));
    assert!(!saves_component("renzora::Sun", false));
    assert!(!saves_component("avian3d::prelude::Collider", true));
    assert!(!saves_component("avian2d::prelude::Collider", true));
    assert!(!saves_component("bevy_mod_outline::Outline", true));
    assert!(!saves_component("bevy_gaussian_splatting::Cloud", true));
    assert!(!saves_component("bevy_render::sync_world::RenderEntity", true));
    assert!(!saves_component("bevy_camera::visibility::InheritedVisibility", true));
    assert!(saves_component("bevy_ecs::hierarchy::ChildOf", true));
    assert!(snapshots_component("bevy_ecs::hierarchy::ChildOf", true));
    assert!(!snapshots_component("avian3d::prelude::Mass", true));
    assert!(!prefab_keeps_component("bevy_ecs::hierarchy::ChildOf", Some(7), 7, true));
    assert!(prefab_keeps_component("bevy_ecs::hierarchy::ChildOf", Some(8), 7, true));
    assert!(!prefab_keeps_component("my::ChildOf", Some(7), 7, true));
    assert!(prefab_keeps_component("my::Owner", Some(7), 7, true));
}
