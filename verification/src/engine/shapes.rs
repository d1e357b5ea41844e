//! The shapes that the engine can build, by the names that scenes use.

use vstd::prelude::*;

use crate::text::same_text;

verus! {

/// A procedural shape.
#[derive(Clone, Copy, Debug, PartialEq, Eq, Structural)]
pub enum Shape {
    Cube,
    Sphere,
    Cylinder,
    Plane,
    Cone,
    Torus,
    Capsule,
    Hemisphere,
    Wedge,
    Stairs,
    Arch,
    HalfCylinder,
    QuarterPipe,
    Corner,
    Wall,
    Ramp,
    CurvedWall,
    Doorway,
    WindowWall,
    LShape,
    TShape,
    CrossShape,
    SpiralStairs,
    Pillar,
    Pipe,
    Ring,
    Funnel,
    Gutter,
    Prism,
    Pyramid,
}

/// A colour in hundredths of full intensity.
#[derive(Clone, Copy, Debug, PartialEq, Eq, Structural)]
pub struct Hundredths {
    pub red: u8,
    pub green: u8,
    pub blue: u8,
}

/// What the catalogue says of a shape.
pub struct ShapeEntry {
    /// The name that scenes use.
    pub id: &'static str,
    /// The name that people read.
    pub name: &'static str,
    pub category: &'static str,
    pub default_color: Hundredths,
}

/// The name that scenes use for a shape.
pub open spec fn id_of(shape: Shape) -> Seq<char> {
    match shape {
        Shape::Cube => "cube"@,
        Shape::Sphere => "sphere"@,
        Shape::Cylinder => "cylinder"@,
        Shape::Plane => "plane"@,
        Shape::Cone => "cone"@,
        Shape::Torus => "torus"@,
        Shape::Capsule => "capsule"@,
        Shape::Hemisphere => "hemisphere"@,
        Shape::Wedge => "wedge"@,
        Shape::Stairs => "stairs"@,
        Shape::Arch => "arch"@,
        Shape::HalfCylinder => "half_cylinder"@,
        Shape::QuarterPipe => "quarter_pipe"@,
        Shape::Corner => "corner"@,
        Shape::Wall => "wall"@,
        Shape::Ramp => "ramp"@,
        Shape::CurvedWall => "curved_wall"@,
        Shape::Doorway => "doorway"@,
        Shape::WindowWall => "window_wall"@,
        Shape::LShape => "l_shape"@,
        Shape::TShape => "t_shape"@,
        Shape::CrossShape => "cross_shape"@,
        Shape::SpiralStairs => "spiral_stairs"@,
        Shape::Pillar => "pillar"@,
        Shape::Pipe => "pipe"@,
        Shape::Ring => "ring"@,
        Shape::Funnel => "funnel"@,
        Shape::Gutter => "gutter"@,
        Shape::Prism => "prism"@,
        Shape::Pyramid => "pyramid"@,
    }
}

/// The name that people read for a shape.
pub open spec fn name_of(shape: Shape) -> Seq<char> {
    match shape {
        Shape::Cube => "Cube"@,
        Shape::Sphere => "Sphere"@,
        Shape::Cylinder => "Cylinder"@,
        Shape::Plane => "Plane"@,
        Shape::Cone => "Cone"@,
        Shape::Torus => "Torus"@,
        Shape::Capsule => "Capsule"@,
        Shape::Hemisphere => "Hemisphere"@,
        Shape::Wedge => "Wedge"@,
        Shape::Stairs => "Stairs"@,
        Shape::Arch => "Arch"@,
        Shape::HalfCylinder => "Half Cylinder"@,
        Shape::QuarterPipe => "Quarter Pipe"@,
        Shape::Corner => "Corner"@,
        Shape::Wall => "Wall"@,
        Shape::Ramp => "Ramp"@,
        Shape::CurvedWall => "Curved Wall"@,
        Shape::Doorway => "Doorway"@,
        Shape::WindowWall => "Window Wall"@,
        Shape::LShape => "L-Shape"@,
        Shape::TShape => "T-Shape"@,
        Shape::CrossShape => "Cross"@,
        Shape::SpiralStairs => "Spiral Stairs"@,
        Shape::Pillar => "Pillar"@,
        Shape::Pipe => "Pipe"@,
        Shape::Ring => "Ring"@,
        Shape::Funnel => "Funnel"@,
        Shape::Gutter => "Gutter"@,
        Shape::Prism => "Prism"@,
        Shape::Pyramid => "Pyramid"@,
    }
}

/// The colour of a shape that has none of its own.
pub open spec fn color_of(shape: Shape) -> Hundredths {
    match shape {
        Shape::Cube => Hundredths { red: 80, green: 30, blue: 20 },
        Shape::Sphere => Hundredths { red: 20, green: 50, blue: 80 },
        Shape::Cylinder => Hundredths { red: 30, green: 70, blue: 40 },
        Shape::Plane => Hundredths { red: 35, green: 35, blue: 35 },
        Shape::Cone => Hundredths { red: 70, green: 50, blue: 20 },
        Shape::Torus => Hundredths { red: 60, green: 30, blue: 70 },
        Shape::Capsule => Hundredths { red: 30, green: 60, blue: 60 },
        Shape::Hemisphere => Hundredths { red: 50, green: 40, blue: 70 },
        Shape::Wedge => Hundredths { red: 60, green: 60, blue: 50 },
        Shape::Stairs => Hundredths { red: 50, green: 50, blue: 60 },
        Shape::Arch => Hundredths { red: 60, green: 50, blue: 40 },
        Shape::HalfCylinder => Hundredths { red: 50, green: 60, blue: 50 },
        Shape::QuarterPipe => Hundredths { red: 55, green: 55, blue: 50 },
        Shape::Corner => Hundredths { red: 50, green: 50, blue: 55 },
        Shape::Wall => Hundredths { red: 55, green: 50, blue: 50 },
        Shape::Ramp => Hundredths { red: 50, green: 55, blue: 50 },
        Shape::CurvedWall => Hundredths { red: 55, green: 55, blue: 55 },
        Shape::Doorway => Hundredths { red: 50, green: 50, blue: 60 },
        Shape::WindowWall => Hundredths { red: 50, green: 55, blue: 55 },
        Shape::LShape => Hundredths { red: 55, green: 50, blue: 55 },
        Shape::TShape => Hundredths { red: 50, green: 55, blue: 60 },
        Shape::CrossShape => Hundredths { red: 55, green: 55, blue: 60 },
        Shape::SpiralStairs => Hundredths { red: 50, green: 50, blue: 55 },
        Shape::Pillar => Hundredths { red: 55, green: 50, blue: 50 },
        Shape::Pipe => Hundredths { red: 40, green: 50, blue: 60 },
        Shape::Ring => Hundredths { red: 50, green: 40, blue: 60 },
        Shape::Funnel => Hundredths { red: 60, green: 40, blue: 50 },
        Shape::Gutter => Hundredths { red: 40, green: 60, blue: 50 },
        Shape::Prism => Hundredths { red: 50, green: 50, blue: 70 },
        Shape::Pyramid => Hundredths { red: 70, green: 50, blue: 50 },
    }
}

/// The catalogue's order.
pub open spec fn catalogue() -> Seq<Shape> {
    seq![
        Shape::Cube,
        Shape::Sphere,
        Shape::Cylinder,
        Shape::Plane,
        Shape::Cone,
        Shape::Torus,
        Shape::Capsule,
        Shape::Hemisphere,
        Shape::Wedge,
        Shape::Stairs,
        Shape::Arch,
        Shape::HalfCylinder,
        Shape::QuarterPipe,
        Shape::Corner,
        Shape::Wall,
        Shape::Ramp,
        Shape::CurvedWall,
        Shape::Doorway,
        Shape::WindowWall,
        Shape::LShape,
        Shape::TShape,
        Shape::CrossShape,
        Shape::SpiralStairs,
        Shape::Pillar,
        Shape::Pipe,
        Shape::Ring,
        Shape::Funnel,
        Shape::Gutter,
        Shape::Prism,
        Shape::Pyramid,
    ]
}

/// What the catalogue says of a shape.
pub fn shape_entry(shape: Shape) -> (r: ShapeEntry)
    ensures
        r.id@ == id_of(shape),
        r.name@ == name_of(shape),
        r.category@ == "Shapes"@,
        r.default_color == color_of(shape),
{
    let (id, name, default_color) = match shape {
        Shape::Cube => ("cube", "Cube", Hundredths { red: 80, green: 30, blue: 20 }),
        Shape::Sphere => ("sphere", "Sphere", Hundredths { red: 20, green: 50, blue: 80 }),
        Shape::Cylinder => ("cylinder", "Cylinder", Hundredths { red: 30, green: 70, blue: 40 }),
        Shape::Plane => ("plane", "Plane", Hundredths { red: 35, green: 35, blue: 35 }),
        Shape::Cone => ("cone", "Cone", Hundredths { red: 70, green: 50, blue: 20 }),
        Shape::Torus => ("torus", "Torus", Hundredths { red: 60, green: 30, blue: 70 }),
        Shape::Capsule => ("capsule", "Capsule", Hundredths { red: 30, green: 60, blue: 60 }),
        Shape::Hemisphere => ("hemisphere", "Hemisphere", Hundredths { red: 50, green: 40, blue: 70 }),
        Shape::Wedge => ("wedge", "Wedge", Hundredths { red: 60, green: 60, blue: 50 }),
        Shape::Stairs => ("stairs", "Stairs", Hundredths { red: 50, green: 50, blue: 60 }),
        Shape::Arch => ("arch", "Arch", Hundredths { red: 60, green: 50, blue: 40 }),
        Shape::HalfCylinder => ("half_cylinder", "Half Cylinder", Hundredths { red: 50, green: 60, blue: 50 }),
        Shape::QuarterPipe => ("quarter_pipe", "Quarter Pipe", Hundredths { red: 55, green: 55, blue: 50 }),
        Shape::Corner => ("corner", "Corner", Hundredths { red: 50, green: 50, blue: 55 }),
        Shape::Wall => ("wall", "Wall", Hundredths { red: 55, green: 50, blue: 50 }),
        Shape::Ramp => ("ramp", "Ramp", Hundredths { red: 50, green: 55, blue: 50 }),
        Shape::CurvedWall => ("curved_wall", "Curved Wall", Hundredths { red: 55, green: 55, blue: 55 }),
        Shape::Doorway => ("doorway", "Doorway", Hundredths { red: 50, green: 50, blue: 60 }),
        Shape::WindowWall => ("window_wall", "Window Wall", Hundredths { red: 50, green: 55, blue: 55 }),
        Shape::LShape => ("l_shape", "L-Shape", Hundredths { red: 55, green: 50, blue: 55 }),
        Shape::TShape => ("t_shape", "T-Shape", Hundredths { red: 50, green: 55, blue: 60 }),
        Shape::CrossShape => ("cross_shape", "Cross", Hundredths { red: 55, green: 55, blue: 60 }),
        Shape::SpiralStairs => ("spiral_stairs", "Spiral Stairs", Hundredths { red: 50, green: 50, blue: 55 }),
        Shape::Pillar => ("pillar", "Pillar", Hundredths { red: 55, green: 50, blue: 50 }),
        Shape::Pipe => ("pipe", "Pipe", Hundredths { red: 40, green: 50, blue: 60 }),
        Shape::Ring => ("ring", "Ring", Hundredths { red: 50, green: 40, blue: 60 }),
        Shape::Funnel => ("funnel", "Funnel", Hundredths { red: 60, green: 40, blue: 50 }),
        Shape::Gutter => ("gutter", "Gutter", Hundredths { red: 40, green: 60, blue: 50 }),
        Shape::Prism => ("prism", "Prism", Hundredths { red: 50, green: 50, blue: 70 }),
        Shape::Pyramid => ("pyramid", "Pyramid", Hundredths { red: 70, green: 50, blue: 50 }),
    };
    ShapeEntry { id, name, category: "Shapes", default_color }
}

/// Every shape, in the catalogue's order.
pub fn all_shapes() -> (r: Vec<Shape>)
    ensures
        r@ == catalogue(),
{
    let out: Vec<Shape> = vec![
        Shape::Cube,
        Shape::Sphere,
        Shape::Cylinder,
        Shape::Plane,
        Shape::Cone,
        Shape::Torus,
        Shape::Capsule,
        Shape::Hemisphere,
        Shape::Wedge,
        Shape::Stairs,
        Shape::Arch,
        Shape::HalfCylinder,
        Shape::QuarterPipe,
        Shape::Corner,
        Shape::Wall,
        Shape::Ramp,
        Shape::CurvedWall,
        Shape::Doorway,
        Shape::WindowWall,
        Shape::LShape,
        Shape::TShape,
        Shape::CrossShape,
        Shape::SpiralStairs,
        Shape::Pillar,
        Shape::Pipe,
        Shape::Ring,
        Shape::Funnel,
        Shape::Gutter,
        Shape::Prism,
        Shape::Pyramid,
    ];
    assert(out@ =~= catalogue());
    out
}

/// The shape that a scene names, if there is one.
pub fn find_shape(id: &str) -> (r: Option<Shape>)
    ensures
        match r {
            Some(shape) => id_of(shape) == id@,
            None => forall|shape: Shape| #[trigger] id_of(shape) != id@,
        },
{
    let all = all_shapes();
    let mut i: usize = 0;
    while i < all.len()
        invariant
            i <= all@.len(),
            all@ == catalogue(),
            forall|k: int| 0 <= k < i ==> id_of(#[trigger] all@[k]) != id@,
        decreases all@.len() - i,
    {
        if same_text(shape_entry(all[i]).id, id) {
            return Some(all[i]);
        }
        i += 1;
    }
    proof {
        assert forall|shape: Shape| #[trigger] id_of(shape) != id@ by {
            every_shape_is_listed(shape);
            let k = choose|k: int| 0 <= k < catalogue().len() && catalogue()[k] == shape;
            assert(all@[k] == shape);
        }
    }
    None
}

/// The place of a shape in the catalogue.
pub open spec fn place_of(shape: Shape) -> int {
    match shape {
        Shape::Cube => 0,
        Shape::Sphere => 1,
        Shape::Cylinder => 2,
        Shape::Plane => 3,
        Shape::Cone => 4,
        Shape::Torus => 5,
        Shape::Capsule => 6,
        Shape::Hemisphere => 7,
        Shape::Wedge => 8,
        Shape::Stairs => 9,
        Shape::Arch => 10,
        Shape::HalfCylinder => 11,
        Shape::QuarterPipe => 12,
        Shape::Corner => 13,
        Shape::Wall => 14,
        Shape::Ramp => 15,
        Shape::CurvedWall => 16,
        Shape::Doorway => 17,
        Shape::WindowWall => 18,
        Shape::LShape => 19,
        Shape::TShape => 20,
        Shape::CrossShape => 21,
        Shape::SpiralStairs => 22,
        Shape::Pillar => 23,
        Shape::Pipe => 24,
        Shape::Ring => 25,
        Shape::Funnel => 26,
        Shape::Gutter => 27,
        Shape::Prism => 28,
        Shape::Pyramid => 29,
    }
}

/// The catalogue lists every shape, once.
pub proof fn every_shape_is_listed(shape: Shape)
    ensures
        catalogue().contains(shape),
        forall|i: int, j: int|
            0 <= i < j < catalogue().len() ==> catalogue()[i] != catalogue()[j],
{
    assert(catalogue()[place_of(shape)] == shape);
    assert forall|i: int| 0 <= i < catalogue().len() implies place_of(#[trigger] catalogue()[i])
        == i by {}
}

/// How a name starts, and how long it is.
spec fn start_of(shape: Shape) -> (int, char, char, char, char) {
    match shape {
        Shape::Cube => (4, 'c', 'u', 'b', 'e'),
        Shape::Sphere => (6, 's', 'p', 'h', 'e'),
        Shape::Cylinder => (8, 'c', 'y', 'l', 'i'),
        Shape::Plane => (5, 'p', 'l', 'a', 'n'),
        Shape::Cone => (4, 'c', 'o', 'n', 'e'),
        Shape::Torus => (5, 't', 'o', 'r', 'u'),
        Shape::Capsule => (7, 'c', 'a', 'p', 's'),
        Shape::Hemisphere => (10, 'h', 'e', 'm', 'i'),
        Shape::Wedge => (5, 'w', 'e', 'd', 'g'),
        Shape::Stairs => (6, 's', 't', 'a', 'i'),
        Shape::Arch => (4, 'a', 'r', 'c', 'h'),
        Shape::HalfCylinder => (13, 'h', 'a', 'l', 'f'),
        Shape::QuarterPipe => (12, 'q', 'u', 'a', 'r'),
        Shape::Corner => (6, 'c', 'o', 'r', 'n'),
        Shape::Wall => (4, 'w', 'a', 'l', 'l'),
        Shape::Ramp => (4, 'r', 'a', 'm', 'p'),
        Shape::CurvedWall => (11, 'c', 'u', 'r', 'v'),
        Shape::Doorway => (7, 'd', 'o', 'o', 'r'),
        Shape::WindowWall => (11, 'w', 'i', 'n', 'd'),
        Shape::LShape => (7, 'l', '_', 's', 'h'),
        Shape::TShape => (7, 't', '_', 's', 'h'),
        Shape::CrossShape => (11, 'c', 'r', 'o', 's'),
        Shape::SpiralStairs => (13, 's', 'p', 'i', 'r'),
        Shape::Pillar => (6, 'p', 'i', 'l', 'l'),
        Shape::Pipe => (4, 'p', 'i', 'p', 'e'),
        Shape::Ring => (4, 'r', 'i', 'n', 'g'),
        Shape::Funnel => (6, 'f', 'u', 'n', 'n'),
        Shape::Gutter => (6, 'g', 'u', 't', 't'),
        Shape::Prism => (5, 'p', 'r', 'i', 's'),
        Shape::Pyramid => (7, 'p', 'y', 'r', 'a'),
    }
}

proof fn names_start_as_told(shape: Shape)
    ensures
        ({
            let id = id_of(shape);
            (id.len() as int, id[0], id[1], id[2], id[3]) == start_of(shape)
        }),
{
    match shape {
        Shape::Cube => {
            reveal_strlit("cube");
        },
        Shape::Sphere => {
            reveal_strlit("sphere");
        },
        Shape::Cylinder => {
            reveal_strlit("cylinder");
        },
        Shape::Plane => {
            reveal_strlit("plane");
        },
        Shape::Cone => {
            reveal_strlit("cone");
        },
        Shape::Torus => {
            reveal_strlit("torus");
        },
        Shape::Capsule => {
            reveal_strlit("capsule");
        },
        Shape::Hemisphere => {
            reveal_strlit("hemisphere");
        },
        Shape::Wedge => {
            reveal_strlit("wedge");
        },
        Shape::Stairs => {
            reveal_strlit("stairs");
        },
        Shape::Arch => {
            reveal_strlit("arch");
        },
        Shape::HalfCylinder => {
            reveal_strlit("half_cylinder");
        },
        Shape::QuarterPipe => {
            reveal_strlit("quarter_pipe");
        },
        Shape::Corner => {
            reveal_strlit("corner");
        },
        Shape::Wall => {
            reveal_strlit("wall");
        },
        Shape::Ramp => {
            reveal_strlit("ramp");
        },
        Shape::CurvedWall => {
            reveal_strlit("curved_wall");
        },
        Shape::Doorway => {
            reveal_strlit("doorway");
        },
        Shape::WindowWall => {
            reveal_strlit("window_wall");
        },
        Shape::LShape => {
            reveal_strlit("l_shape");
        },
        Shape::TShape => {
            reveal_strlit("t_shape");
        },
        Shape::CrossShape => {
            reveal_strlit("cross_shape");
        },
        Shape::SpiralStairs => {
            reveal_strlit("spiral_stairs");
        },
        Shape::Pillar => {
            reveal_strlit("pillar");
        },
        Shape::Pipe => {
            reveal_strlit("pipe");
        },
        Shape::Ring => {
            reveal_strlit("ring");
        },
        Shape::Funnel => {
            reveal_strlit("funnel");
        },
        Shape::Gutter => {
            reveal_strlit("gutter");
        },
        Shape::Prism => {
            reveal_strlit("prism");
        },
        Shape::Pyramid => {
            reveal_strlit("pyramid");
        },
    }
}

proof fn starts_differ(a: Shape, b: Shape)
    requires
        start_of(a) == start_of(b),
    ensures
        a == b,
{
}

/// No two shapes go by one name: what a scene says names one shape.
pub proof fn names_are_unique(a: Shape, b: Shape)
    requires
        id_of(a) == id_of(b),
    ensures
        a == b,
{
    names_start_as_told(a);
    names_start_as_told(b);
    starts_differ(a, b);
}

} // verus!
