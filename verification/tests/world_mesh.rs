//! World-space interfaces as geometry.

use renzora::lineage::Link;
use renzora::scalar::{Point, Scalar};
use renzora::ui::emit::{
    emit, panel_step, stale_texts, Mark, NodeFacts, PanelMesh, PanelStep, Visit, WorldUiMeshBuilt,
    WorldUiMeshScratch,
};
use renzora::ui::mesh::{print_text_style, Buf, FontKey, Quad, Tint, Vertex};
use renzora::ui::walk::visit_order;

fn num(x: f32) -> Scalar {
    Scalar { bits: x.to_bits() }
}

fn at(x: f32, y: f32) -> Point {
    Point { x: num(x), y: num(y) }
}

fn tint(alpha: f32) -> Tint {
    Tint { red: num(1.0), green: num(1.0), blue: num(1.0), alpha: num(alpha) }
}

/// A quad about `(cx, cy, z)` with these half extents.
fn quad(cx: f32, cy: f32, z: f32, hw: f32, hh: f32) -> Quad {
    Quad { low: at(cx - hw, cy - hh), high: at(cx + hw, cy + hh), z: num(z), color: tint(1.0) }
}

#[test]
fn scratch_rectangles_retain_all_five_allocations() {
    let mut buf = Buf::new();
    buf.quad(quad(1.0, 2.0, 3.0, 4.0, 5.0));
    let storage = (
        buf.positions.as_ptr(),
        buf.colors.as_ptr(),
        buf.normals.as_ptr(),
        buf.uvs.as_ptr(),
        buf.indices.as_ptr(),
    );
    for _ in 0..1_000 {
        buf.clear();
        assert!(buf.is_empty());
        buf.quad(quad(1.0, 2.0, 3.0, 4.0, 5.0));
        assert_eq!(
            storage,
            (
                buf.positions.as_ptr(),
                buf.colors.as_ptr(),
                buf.normals.as_ptr(),
                buf.uvs.as_ptr(),
                buf.indices.as_ptr(),
            )
        );
        assert_eq!(buf.positions.len(), 4);
        assert_eq!(buf.indices, [0, 1, 2, 0, 2, 3]);
    }
}

#[test]
fn quads_follow_each_other() {
    let mut buf = Buf::new();
    buf.quad(quad(0.0, 0.0, 0.0, 1.0, 2.0));
    buf.quad(quad(5.0, 0.0, 0.5, 1.0, 2.0));
    assert_eq!(buf.positions[0], Vertex { x: num(-1.0), y: num(-2.0), z: num(0.0) });
    assert_eq!(buf.positions[2], Vertex { x: num(1.0), y: num(2.0), z: num(0.0) });
    assert_eq!(buf.positions[5], Vertex { x: num(6.0), y: num(-2.0), z: num(0.5) });
    assert_eq!(&buf.indices[6..], [4, 5, 6, 4, 6, 7]);
    assert_eq!(buf.normals[7], Vertex { x: num(0.0), y: num(0.0), z: num(1.0) });
    assert_eq!((buf.colors.len(), buf.uvs[3]), (8, at(0.0, 0.0)));
}

#[test]
fn font_and_alpha_participate_in_text_hash() {
    let print = |font: FontKey, alpha: f32| {
        let mut out = Vec::new();
        print_text_style(&mut out, at(0.0, 0.0), num(24.0), tint(alpha), &font);
        out
    };
    let initial = print(FontKey::Serif, 1.0);
    assert_eq!(initial, print(FontKey::Serif, 1.0));
    assert_ne!(initial, print(FontKey::SansSerif, 1.0));
    assert_ne!(initial, print(FontKey::Serif, 0.5));
    assert_ne!(
        print(FontKey::Family("first".to_string()), 1.0),
        print(FontKey::Family("second".to_string()), 1.0)
    );
    assert_ne!(print(FontKey::Handle(1), 1.0), print(FontKey::Handle(1 << 32), 1.0));
    assert_ne!(print(FontKey::Generic(1), 1.0), print(FontKey::Generic(2), 1.0));
}

fn node(size: Point, background: Option<Tint>) -> NodeFacts {
    NodeFacts {
        center: at(0.0, 0.0),
        size,
        local: at(0.0, 0.0),
        low: at(-1.0, -1.0),
        high: at(1.0, 1.0),
        z: num(0.0),
        background,
        text: None,
        font: None,
        font_px: None,
        text_color: None,
    }
}

fn scratch() -> WorldUiMeshScratch {
    WorldUiMeshScratch { rects: Buf::new(), texts: Vec::new() }
}

/// One frame of a canvas in mesh mode whose tree is one node.
fn update(panel: &mut PanelMesh, live: bool, root: NodeFacts, fresh: &mut u64) {
    let resolution = at(1280.0, 720.0);
    match panel_step(true, true, live, resolution) {
        PanelStep::Skip => {}
        PanelStep::Clear => panel.clear(),
        PanelStep::Walk => {
            let mut scratch = scratch();
            let visits = vec![Visit { entity: 1, node: Some(root) }];
            let marks = emit(&visits, num(16.0), &mut scratch);
            let print = WorldUiMeshBuilt { panel: at(12.8, 7.2), resolution, marks };
            if panel.needs_rebuild(&print) {
                *fresh += 1;
                let labels = vec![true; scratch.texts.len()];
                panel.rebuild(print, &scratch.rects, *fresh, &labels);
            }
        }
    }
}

#[test]
fn settled_canvas_keeps_mesh_and_layout_edit_rebuilds() {
    let mut panel = PanelMesh { built: None, mesh: None };
    let mut fresh = 0;
    let white = Some(tint(1.0));
    let square = at(100.0, 100.0);
    update(&mut panel, true, node(square, white), &mut fresh);
    let first = panel.mesh.unwrap();
    for _ in 0..1_000 {
        update(&mut panel, true, node(square, white), &mut fresh);
        assert_eq!(panel.mesh.unwrap(), first);
    }
    update(&mut panel, true, node(at(200.0, 100.0), white), &mut fresh);
    assert_ne!(panel.mesh.unwrap(), first);

    // Each way to an empty background retires the mesh, and restoring it works
    // even after the empty print has settled.
    for empty_kind in 0..3 {
        let empty = || match empty_kind {
            0 => node(square, None),
            1 => node(square, Some(tint(0.0))),
            _ => node(at(0.0, 0.0), white),
        };
        for _ in 0..3 {
            update(&mut panel, true, empty(), &mut fresh);
            assert!(panel.mesh.is_none());
            assert!(panel.built.is_some());
        }
        update(&mut panel, true, node(square, white), &mut fresh);
        assert!(panel.mesh.is_some());
    }

    // Without a template the fallback stays.
    let fallback = panel.mesh.unwrap();
    update(&mut panel, false, node(square, None), &mut fresh);
    assert_eq!(panel.mesh.unwrap(), fallback);
    assert!(panel.built.is_none());
}

#[test]
fn a_missing_label_is_tried_again() {
    let mut panel = PanelMesh { built: None, mesh: None };
    let print = || WorldUiMeshBuilt { panel: at(1.0, 1.0), resolution: at(1.0, 1.0), marks: Vec::new() };
    panel.rebuild(print(), &Buf::new(), 1, &vec![true, false]);
    assert!(panel.needs_rebuild(&print()));
    panel.rebuild(print(), &Buf::new(), 2, &vec![true, true]);
    assert!(!panel.needs_rebuild(&print()));
}

#[test]
fn only_finished_visible_nodes_are_drawn() {
    let label = |text: &str, font: bool| NodeFacts {
        text: Some(text.to_string()),
        font: if font { Some(FontKey::Serif) } else { None },
        ..node(at(10.0, 10.0), None)
    };
    let visits = vec![
        Visit { entity: 1, node: None },
        Visit { entity: 2, node: Some(node(at(10.0, 10.0), Some(tint(0.5)))) },
        Visit {
            entity: 3,
            node: Some(NodeFacts {
                center: at(f32::INFINITY, 0.0),
                ..node(at(10.0, 10.0), Some(tint(0.5)))
            }),
        },
        Visit { entity: 4, node: Some(label(" \t", true)) },
        Visit { entity: 5, node: Some(label("\u{2003}hi ", true)) },
        Visit { entity: 6, node: Some(label("hi", false)) },
        Visit {
            entity: 7,
            node: Some(NodeFacts { font_px: Some(num(30.0)), ..label("yo", true) }),
        },
    ];
    let mut scratch = scratch();
    let marks = emit(&visits, num(16.0), &mut scratch);
    assert_eq!(scratch.rects.positions.len(), 4);
    assert_eq!(scratch.texts.len(), 2);
    assert_eq!((scratch.texts[0].entity, scratch.texts[0].size_px), (5, num(16.0)));
    assert_eq!((scratch.texts[1].entity, scratch.texts[1].size_px), (7, num(30.0)));
    assert_eq!(scratch.texts[0].color, tint(1.0));
    assert_eq!(marks.len(), 3);
    assert!(matches!(&marks[0], Mark::Background { order: 1, .. }));
    assert!(matches!(&marks[1], Mark::Label { text, .. } if text == &['h' as u32, 'i' as u32]));
}

#[test]
fn panels_without_pixels_or_out_of_mode_are_skipped() {
    assert_eq!(panel_step(false, true, true, at(1.0, 1.0)), PanelStep::Skip);
    assert_eq!(panel_step(true, false, true, at(1.0, 1.0)), PanelStep::Skip);
    assert_eq!(panel_step(true, true, false, at(0.0, 1.0)), PanelStep::Clear);
    assert_eq!(panel_step(true, true, true, at(0.0, 1.0)), PanelStep::Skip);
    assert_eq!(panel_step(true, true, true, at(1.0, 1.0)), PanelStep::Walk);
    assert_eq!(stale_texts(&vec![3, 1, 2], &vec![2, 3]), vec![3, 2]);
}

#[test]
fn the_walk_goes_level_by_level() {
    let link = |child, parent| Link { child, parent };
    let links = vec![link(2, 1), link(4, 2), link(3, 1), link(5, 3), link(6, 2), link(9, 8)];
    assert_eq!(visit_order(&links, 1), vec![1, 2, 3, 4, 6, 5]);
    assert_eq!(visit_order(&links, 5), vec![5]);
    // A circle ends.
    assert_eq!(visit_order(&vec![link(2, 1), link(1, 2)], 1), vec![1, 2, 1]);
}
