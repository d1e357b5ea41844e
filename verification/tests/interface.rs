//! The game interface: scale, hierarchy, order, geometry and plots.

use std::collections::HashMap;

use renzora::lineage::Link;
use renzora::scalar::{Point, Scalar};
use renzora::ui::canvas::{
    apply_canvas_visibility_to, canvas_camera, canvases_to_route, counts_as_play, scale_sizes,
    update_ui_scale, CanvasTarget, UiCanvasPreviewEnabled, Visibility,
};
use renzora::ui::heal::{
    heal_canvas_root_geometry, heal_nested_ui_canvases, heal_orphaned_ui_widgets, orphan_candidates,
    Length, RootGeometry,
};
use renzora::ui::inspector::{
    added_value, canvas_fields, canvas_preset, canvas_starter, choice_options, component_icon,
    field_name, field_step, has_layout, hierarchy_icon, inspector_components, inspector_entry,
    widget_icon, AddedValue, CanvasChoice, FieldValue, IconOwner, Rgba, UiCanvas, UiComponent,
    UiWidgetType,
};
use renzora::ui::order::{
    custom_disabling, groups_to_order, root_order, sibling_order, sort_order_from_hierarchy,
    HierarchyCanvas, RootCanvas, Sibling, UiOrderChanges, ZChange,
};
use renzora::ui::plot::{
    chart_range, chart_window, clamp_unit, pack_samples, target_line, wave_plot, MAX_SAMPLES,
};

fn num(x: f32) -> Scalar {
    Scalar { bits: x.to_bits() }
}

fn at(x: f32, y: f32) -> Point {
    Point { x: num(x), y: num(y) }
}

fn float(x: Scalar) -> f32 {
    f32::from_bits(x.bits)
}

// ── Scale ──

#[test]
fn stable_frames_do_not_invalidate_scale_but_resize_and_canvas_changes_do() {
    let mut scale = num(1.0);
    let mut changes = 0;
    let mut frame = |canvas: Option<Point>, window: Point| {
        if let Some(sizes) = scale_sizes(canvas, None, Some(window)) {
            let across = num(float(sizes.actual.x) / float(sizes.reference.x));
            let down = num(float(sizes.actual.y) / float(sizes.reference.y));
            if update_ui_scale(&mut scale, across, down) {
                changes += 1;
            }
        }
        (float(scale), changes)
    };
    let (_, initial) = frame(None, at(1280.0, 720.0));
    for _ in 0..1000 {
        assert_eq!(frame(None, at(1280.0, 720.0)).1, initial);
    }
    assert_eq!(frame(None, at(2560.0, 1440.0)), (2.0, initial + 1));
    assert_eq!(frame(Some(at(2560.0, 1440.0)), at(2560.0, 1440.0)), (1.0, initial + 2));
    assert_eq!(frame(None, at(2560.0, 1440.0)), (2.0, initial + 3));
}

#[test]
fn the_scale_needs_two_sizes() {
    let window = Some(at(100.0, 100.0));
    let sizes = scale_sizes(None, Some(at(640.0, 360.0)), window).expect("both");
    assert_eq!((sizes.reference, sizes.actual), (at(1280.0, 720.0), at(640.0, 360.0)));
    assert!(scale_sizes(None, None, None).is_none());
    assert!(scale_sizes(Some(at(0.0, 10.0)), None, window).is_none());
    assert!(scale_sizes(None, Some(at(10.0, 0.0)), window).is_none());
    let mut scale = num(1.0);
    assert!(update_ui_scale(&mut scale, num(2.0), num(0.5)));
    assert_eq!(float(scale), 0.5);
}

// ── Visibility ──

#[test]
fn canvases_show_by_their_mode() {
    let mut vis = Visibility::Inherited;
    assert!(!apply_canvas_visibility_to(true, "always", &mut vis));
    assert!(apply_canvas_visibility_to(false, "play_only", &mut vis));
    assert_eq!(vis, Visibility::Hidden);
    assert!(!apply_canvas_visibility_to(true, "editor_only", &mut vis));
    assert!(apply_canvas_visibility_to(false, "editor_only", &mut vis));
    assert_eq!(vis, Visibility::Inherited);
    assert!(!apply_canvas_visibility_to(false, "sometimes", &mut vis));
    vis = Visibility::Visible;
    assert!(apply_canvas_visibility_to(true, "play_only", &mut vis));
    assert_eq!(vis, Visibility::Inherited);
    assert!(counts_as_play(None) && counts_as_play(Some(true)) && !counts_as_play(Some(false)));
    assert!(!UiCanvasPreviewEnabled::default().0);
}

#[test]
fn canvases_are_drawn_by_one_camera() {
    assert_eq!(canvas_camera(false, true, Some(1), Some(2), Some(3)), Some(3));
    assert_eq!(canvas_camera(true, true, Some(1), Some(2), Some(3)), Some(2));
    assert_eq!(canvas_camera(true, false, Some(1), Some(2), Some(3)), Some(1));
    let list = vec![
        CanvasTarget { entity: 10, camera: Some(3), world: false },
        CanvasTarget { entity: 11, camera: Some(4), world: false },
        CanvasTarget { entity: 12, camera: None, world: false },
        CanvasTarget { entity: 13, camera: None, world: true },
    ];
    assert_eq!(canvases_to_route(Some(3), &list), vec![11, 12]);
    assert!(canvases_to_route(None, &list).is_empty());
}

// ── The canvas invariant ──

/// A world of canvases and widgets.
struct World {
    links: Vec<Link>,
    canvases: Vec<u64>,
    widgets: Vec<u64>,
    next: u64,
}

impl World {
    fn new() -> World {
        World { links: Vec::new(), canvases: Vec::new(), widgets: Vec::new(), next: 1 }
    }

    fn spawn(&mut self, parent: Option<u64>) -> u64 {
        let id = self.next;
        self.next += 1;
        if let Some(parent) = parent {
            self.links.push(Link { child: id, parent });
        }
        id
    }

    fn canvas(&mut self, parent: Option<u64>) -> u64 {
        let id = self.spawn(parent);
        self.canvases.push(id);
        id
    }

    fn widget(&mut self, parent: Option<u64>) -> u64 {
        let id = self.spawn(parent);
        self.widgets.push(id);
        id
    }

    fn parent(&self, id: u64) -> Option<u64> {
        self.links.iter().rev().find(|l| l.child == id).map(|l| l.parent)
    }

    /// Both healers, over everything that was just put in place.
    fn heal(&mut self) {
        let roots: Vec<u64> =
            self.widgets.iter().copied().filter(|w| self.parent(*w).is_none()).collect();
        let moved: Vec<u64> =
            self.widgets.iter().copied().filter(|w| self.parent(*w).is_some()).collect();
        let nested = heal_nested_ui_canvases(&self.links, &self.widgets, &self.canvases);
        let candidates = orphan_candidates(&self.links, &self.canvases, &roots, &moved);
        let fresh: Vec<u64> = (0..candidates.len() as u64).map(|i| self.next + i).collect();
        self.next += fresh.len() as u64;
        heal_orphaned_ui_widgets(
            &mut self.links,
            &mut self.canvases,
            &self.widgets,
            &candidates,
            &fresh,
        );
        self.links.retain(|l| !nested.contains(&l.child));
    }
}

#[test]
fn orphan_widget_at_root_is_wrapped_in_a_canvas() {
    let mut world = World::new();
    let widget = world.widget(None);
    world.heal();
    let parent = world.parent(widget).expect("orphaned widget must be reparented");
    assert!(world.canvases.contains(&parent), "the widget's new parent must be a UiCanvas");
}

#[test]
fn widget_under_a_non_canvas_parent_is_rehomed() {
    let mut world = World::new();
    let empty = world.spawn(None);
    let widget = world.widget(Some(empty));
    world.heal();
    let parent = world.parent(widget).expect("widget must have a parent");
    assert_ne!(parent, empty, "widget must be moved off the non-UI parent");
    assert!(world.canvases.contains(&parent), "widget must land under a UiCanvas");
}

#[test]
fn widget_already_under_a_canvas_is_left_alone() {
    let mut world = World::new();
    let canvas = world.canvas(None);
    let widget = world.widget(Some(canvas));
    world.heal();
    assert_eq!(world.parent(widget), Some(canvas), "a validly parented widget must not move");
    assert_eq!(world.canvases.len(), 1, "no extra canvas should be spawned");
}

#[test]
fn canvas_nested_under_a_widget_is_popped_to_root() {
    let mut world = World::new();
    let root_canvas = world.canvas(None);
    let widget = world.widget(Some(root_canvas));
    let nested_canvas = world.canvas(Some(widget));
    world.heal();
    assert!(
        world.parent(nested_canvas).is_none(),
        "a canvas nested under a widget must be popped to the root"
    );
    assert_eq!(
        world.parent(widget),
        Some(root_canvas),
        "the widget must keep its own canvas parent"
    );
}

#[test]
fn a_tree_of_lost_widgets_moves_as_one() {
    let mut world = World::new();
    let top = world.widget(None);
    let below = world.widget(Some(top));
    world.heal();
    assert_eq!(world.canvases.len(), 1);
    assert_eq!(world.parent(top), Some(world.canvases[0]));
    assert_eq!(world.parent(below), Some(top));
}

#[test]
fn a_canvas_root_fills_its_target() {
    let want = RootGeometry {
        absolute: true,
        left: Length::Px(num(0.0)),
        top: Length::Px(num(0.0)),
        width: Length::Percent(num(100.0)),
        height: Length::Percent(num(100.0)),
    };
    let mut node = RootGeometry { width: Length::Px(num(100.0)), ..want };
    assert!(heal_canvas_root_geometry(&mut node, want));
    assert_eq!(node, want);
    assert!(!heal_canvas_root_geometry(&mut node, want));
    node.left = Length::Auto;
    assert!(heal_canvas_root_geometry(&mut node, want));
    node.absolute = false;
    assert!(heal_canvas_root_geometry(&mut node, want));
}

// ── Order ──

/// Sibling groups, and what changed in them since the last frame.
struct Groups {
    children: HashMap<u64, Vec<u64>>,
    ui: Vec<u64>,
    disabled: Vec<u64>,
    z: HashMap<u64, i32>,
    changes: UiOrderChanges,
    custom: bool,
    work: usize,
}

fn quiet() -> UiOrderChanges {
    UiOrderChanges { children: Vec::new(), items: Vec::new(), disabled: Vec::new() }
}

impl Groups {
    fn new(custom: bool) -> Groups {
        Groups {
            children: HashMap::new(),
            ui: Vec::new(),
            disabled: Vec::new(),
            z: HashMap::new(),
            changes: quiet(),
            custom,
            work: 0,
        }
    }

    fn links(&self) -> Vec<Link> {
        self.children
            .iter()
            .flat_map(|(parent, list)| list.iter().map(|c| Link { child: *c, parent: *parent }))
            .collect()
    }

    fn add(&mut self, id: u64, parent: u64, ui: bool) {
        self.children.entry(parent).or_default().push(id);
        self.changes.children.push(parent);
        if ui {
            self.ui.push(id);
            self.changes.items.push(id);
        }
    }

    fn disable(&mut self, id: u64) {
        self.disabled.push(id);
        if !self.custom {
            self.changes.disabled.push(id);
        }
    }

    fn enable(&mut self, id: u64) {
        self.disabled.retain(|d| *d != id);
        if !self.custom {
            self.changes.disabled.push(id);
        }
    }

    fn set_z(&mut self, id: u64, z: i32) {
        self.z.insert(id, z);
        self.changes.items.push(id);
    }

    fn update(&mut self) {
        let links = self.links();
        let changes = std::mem::replace(&mut self.changes, quiet());
        let live: Vec<u64> =
            self.ui.iter().copied().filter(|e| !self.disabled.contains(e)).collect();
        let parents = groups_to_order(changes, self.custom, &live, &links);
        self.work += parents.len();
        for parent in parents {
            if self.disabled.contains(&parent) {
                continue;
            }
            let Some(list) = self.children.get(&parent) else {
                continue;
            };
            let siblings: Vec<Sibling> = list
                .iter()
                .map(|c| Sibling { entity: *c, ui: live.contains(c), z: self.z.get(c).copied() })
                .collect();
            for change in sibling_order(&siblings) {
                self.set_z(change.entity, change.z);
            }
        }
    }

    fn place(&self, id: u64) -> Option<i32> {
        self.z.get(&id).copied()
    }
}

#[test]
fn settled_order_skips_sibling_work_and_lifecycle_changes_reorder() {
    let (first, second, a, decoration, b, c) = (1, 2, 3, 4, 5, 6);
    let mut canvas =
        vec![RootCanvas { entity: first, sort_order: 7, has_parent: false, z: None }];
    let mut app = Groups::new(false);
    app.ui.extend([first, second]);
    app.add(a, first, true);
    app.add(decoration, first, false);
    app.add(b, first, true);
    app.add(c, second, true);
    for _ in 0..3 {
        app.update();
    }
    assert_eq!(root_order(&canvas), vec![ZChange { entity: first, z: 7 }]);
    canvas[0].z = Some(7);
    let initial = app.work;
    for _ in 0..1_000 {
        app.update();
        assert!(root_order(&canvas).is_empty());
    }
    assert_eq!(app.work, initial);
    assert_eq!(app.place(a), Some(1));
    assert_eq!(app.place(b), Some(0));
    app.disable(b);
    app.update();
    assert_eq!(app.place(a), Some(0));
    app.enable(b);
    app.update();
    assert_eq!(app.place(a), Some(1));
    app.disable(first);
    app.set_z(a, 99);
    app.update();
    assert_eq!(app.place(a), Some(99));
    app.enable(first);
    app.update();
    assert_eq!(app.place(a), Some(1));
    app.children.get_mut(&first).unwrap().swap(0, 2);
    app.changes.children.push(first);
    app.update();
    assert_eq!(app.place(a), Some(0));
    assert_eq!(app.place(b), Some(1));
    app.children.get_mut(&first).unwrap().retain(|e| *e != b);
    app.changes.children.push(first);
    app.children.get_mut(&second).unwrap().push(b);
    app.changes.children.push(second);
    app.changes.items.push(b);
    app.update();
    assert_eq!(app.place(a), Some(0));
    assert_eq!(app.place(c), Some(1));
    assert_eq!(app.place(b), Some(0));
    app.ui.push(decoration);
    app.changes.items.push(decoration);
    app.update();
    assert_eq!(app.place(decoration), Some(1));
    app.ui.retain(|e| *e != b);
    app.changes.items.push(b);
    app.update();
    assert_eq!(app.place(c), Some(0));
    app.set_z(a, 99);
    app.update();
    assert_eq!(app.place(a), Some(0));
    app.z.remove(&a);
    app.changes.items.push(a);
    app.update();
    assert_eq!(app.place(a), Some(0));
    app.children.get_mut(&first).unwrap().retain(|e| *e != a);
    app.changes.children.push(first);
    app.ui.retain(|e| *e != a);
    app.update();
    assert_eq!(app.place(decoration), Some(0));
    canvas[0].sort_order = 8;
    assert_eq!(root_order(&canvas), vec![ZChange { entity: first, z: 8 }]);
}

#[test]
fn custom_disabling_keeps_original_sibling_eligibility() {
    assert!(custom_disabling(&vec![1, 7], 1));
    assert!(!custom_disabling(&vec![1], 1));
    let (parent, a, b) = (1, 2, 3);
    let mut app = Groups::new(true);
    app.add(a, parent, true);
    app.add(b, parent, true);
    for _ in 0..3 {
        app.update();
    }
    assert_eq!(app.place(a), Some(1));
    app.disable(b);
    app.update();
    assert_eq!(app.place(a), Some(0));
    app.enable(b);
    app.update();
    assert_eq!(app.place(a), Some(1));
}

#[test]
fn the_top_of_the_hierarchy_is_drawn_on_top() {
    let canvas = |entity, order, sort_order| HierarchyCanvas { entity, order, sort_order };
    assert_eq!(
        sort_order_from_hierarchy(&vec![canvas(1, 0, 5), canvas(2, 3, 0), canvas(3, 1, 2)]),
        vec![ZChange { entity: 1, z: 3 }]
    );
    assert!(sort_order_from_hierarchy(&vec![]).is_empty());
}

// ── Inspector ──

#[test]
fn widgets_have_icons() {
    assert_eq!(widget_icon(&UiWidgetType::Container), "squares-four");
    assert_eq!(widget_icon(&UiWidgetType::Wedge), "chart-pie-slice");
    assert_eq!(widget_icon(&UiWidgetType::BarFill), "battery-medium");
    assert_eq!(hierarchy_icon(Some(UiWidgetType::Line)).icon, "line-segment");
    assert_eq!(hierarchy_icon(None).icon, "frame-corners");
    assert!(hierarchy_icon(None).priority > hierarchy_icon(Some(UiWidgetType::Line)).priority);
    assert_eq!(hierarchy_icon(None).name, "UI Canvas");
    assert_eq!(hierarchy_icon(Some(UiWidgetType::Line)).name, "UI Widget");
    assert_eq!(hierarchy_icon(Some(UiWidgetType::Line)).color, (130, 200, 255));
    let widget = component_icon(IconOwner::Widget);
    assert_eq!((widget.icon, widget.priority, widget.entity_local), ("squares-four", 60, true));
    let canvas = component_icon(IconOwner::Canvas);
    assert_eq!((canvas.icon, canvas.priority, canvas.entity_local), ("frame-corners", 70, false));
}

#[test]
fn adding_a_component_inserts_its_value() {
    let grey = |x: f32| Rgba { red: num(x), green: num(x), blue: num(x), alpha: num(1.0) };
    assert_eq!(added_value(UiComponent::Fill), AddedValue::Fill(grey(0.2)));
    assert_eq!(
        added_value(UiComponent::Stroke),
        AddedValue::Border { color: grey(0.4), width: num(1.0) }
    );
    assert_eq!(added_value(UiComponent::Opacity), AddedValue::Opacity(num(1.0)));
    assert_eq!(added_value(UiComponent::Clip), AddedValue::Clip(true));
    assert_eq!(added_value(UiComponent::Cursor), AddedValue::PointerCursor);
    assert_eq!(added_value(UiComponent::Shadow), AddedValue::OwnDefault);
    assert_eq!(added_value(UiComponent::Layout), AddedValue::Nothing);
    let node = RootGeometry {
        absolute: true,
        left: Length::Auto,
        top: Length::Auto,
        width: Length::Percent(num(100.0)),
        height: Length::Percent(num(100.0)),
    };
    assert_eq!(added_value(UiComponent::Canvas), AddedValue::Canvas(node));
}

#[test]
fn every_component_is_registered_once() {
    let all = inspector_components();
    assert_eq!(all.len(), 23);
    assert_eq!((all[0], all[22]), (UiComponent::Canvas, UiComponent::DraggableWindow));
    for (i, c) in all.iter().enumerate() {
        let entry = inspector_entry(*c);
        assert_eq!((entry.category, entry.switchable), ("ui", false));
        assert!(all[i + 1..].iter().all(|d| inspector_entry(*d).type_id != entry.type_id));
    }
    assert!(inspector_entry(UiComponent::Text).has_fields);
    assert!(!inspector_entry(UiComponent::Dropdown).has_fields);
}

#[test]
fn a_canvas_can_be_added_and_started_with() {
    let preset = canvas_preset();
    assert_eq!((preset.id, preset.display_name), ("ui_canvas", "UI Canvas"));
    assert_eq!((preset.icon, preset.category), ("frame-corners", "ui"));
    let starter = canvas_starter();
    assert_eq!((starter.id, starter.title), ("ui", "New UI Canvas"));
    assert_eq!(starter.description, "A canvas to mount a UI template on");
    assert_eq!((starter.icon, starter.produces), ("frame-corners", "UiCanvas"));
}

#[test]
fn structural_components_cannot_be_removed() {
    let canvas = inspector_entry(UiComponent::Canvas);
    assert_eq!((canvas.type_id, canvas.display_name), ("ui_canvas", "UI Canvas"));
    assert!(canvas.addable && !canvas.removable);
    let layout = inspector_entry(UiComponent::Layout);
    assert!(!layout.addable && !layout.removable);
    let fill = inspector_entry(UiComponent::Fill);
    assert_eq!((fill.type_id, fill.icon), ("ui_fill", "drop-half"));
    assert!(fill.addable && fill.removable);
    assert!(has_layout(true, false, true));
    assert!(!has_layout(true, true, true));
}

#[test]
fn canvas_choices_are_read_back() {
    let mut canvas = UiCanvas {
        sort_order: 0,
        visibility_mode: "always".to_string(),
        reference_width: num(1280.0),
        reference_height: num(720.0),
        render_space: "screen".to_string(),
        render_mode: "texture".to_string(),
    };
    assert_eq!(choice_options(CanvasChoice::RenderSpace), vec!["screen", "world"]);
    assert_eq!(choice_options(CanvasChoice::RenderMode), vec!["texture", "mesh"]);
    assert_eq!(
        choice_options(CanvasChoice::Visibility),
        vec!["always", "play_only", "editor_only"]
    );
    canvas.set_choice(CanvasChoice::RenderSpace, FieldValue::Enum("world".to_string()));
    assert!(
        matches!(canvas.get_choice(CanvasChoice::RenderSpace), FieldValue::Enum(w) if w == "world")
    );
    assert_eq!(canvas.visibility_mode, "always");
    canvas.set_choice(CanvasChoice::RenderSpace, FieldValue::Int(3));
    assert_eq!(canvas.render_space, "world");
    let steps: Vec<Option<Scalar>> = canvas_fields().into_iter().map(field_step).collect();
    let one = Some(num(1.0));
    assert_eq!(steps, vec![one, None, one, one, None, None]);
    let names: Vec<&str> = canvas_fields().into_iter().map(|f| field_name(f)).collect();
    assert_eq!(
        names,
        vec!["Sort Order", "Visibility", "Ref Width", "Ref Height", "Render Space", "Render Mode"]
    );
}

// ── Plots ──

#[test]
fn a_chart_shows_the_most_recent_samples() {
    let series: Vec<Scalar> = (0..40).map(|i| num(i as f32)).collect();
    let window = chart_window(&series).expect("enough");
    assert_eq!(window.len(), MAX_SAMPLES);
    assert_eq!((window[0], window[31]), (num(8.0), num(39.0)));
    let range = chart_range(&window, None, None);
    assert_eq!((range.min, range.max), (num(8.0), num(39.0)));
    let fixed = chart_range(&window, Some(num(0.0)), Some(num(60.0)));
    assert_eq!((fixed.min, fixed.max), (num(0.0), num(60.0)));
    assert!(chart_window(&vec![num(1.0)]).is_none());
    let below = chart_range(&vec![num(-3.0), num(f32::NAN), num(-1.5)], None, None);
    assert_eq!((below.min, below.max), (num(-3.0), num(-1.5)));
    let none = chart_range(&vec![], None, None);
    assert_eq!((float(none.min), float(none.max)), (f32::MAX, f32::MIN));
}

#[test]
fn samples_are_packed_between_zero_and_one() {
    let packed = pack_samples(&vec![num(-1.0), num(0.5), num(7.0)]);
    assert_eq!(packed.len(), MAX_SAMPLES);
    assert_eq!(&packed[..4], &[num(0.0), num(0.5), num(1.0), num(0.0)]);
    let wave = wave_plot(&vec![num(0.25); 50], num(1.5)).expect("enough");
    assert_eq!((wave.count, wave.progress), (32, num(1.0)));
    assert!(wave.samples.iter().all(|s| *s == num(0.25)));
    assert!(wave_plot(&vec![num(0.25)], num(0.5)).is_none());
    assert_eq!(clamp_unit(num(0.3)), num(0.3));
    assert_eq!(target_line(Some(num(0.5))), num(0.5));
    assert_eq!(target_line(Some(num(1.5))), num(-1.0));
    assert_eq!(target_line(None), num(-1.0));
}
