//! The catalogue of shapes, word by word.

use vstd::prelude::*;

use crate::engine::shapes::{catalogue, color_of, id_of, name_of, Hundredths, Shape};

verus! {

/// The name that scenes use for every shape.
pub proof fn shapes_have_their_ids()
    ensures
        id_of(Shape::Cube) == "cube"@,
        id_of(Shape::Sphere) == "sphere"@,
        id_of(Shape::Cylinder) == "cylinder"@,
        id_of(Shape::Plane) == "plane"@,
        id_of(Shape::Cone) == "cone"@,
        id_of(Shape::Torus) == "torus"@,
        id_of(Shape::Capsule) == "capsule"@,
        id_of(Shape::Hemisphere) == "hemisphere"@,
        id_of(Shape::Wedge) == "wedge"@,
        id_of(Shape::Stairs) == "stairs"@,
        id_of(Shape::Arch) == "arch"@,
        id_of(Shape::HalfCylinder) == "half_cylinder"@,
        id_of(Shape::QuarterPipe) == "quarter_pipe"@,
        id_of(Shape::Corner) == "corner"@,
        id_of(Shape::Wall) == "wall"@,
        id_of(Shape::Ramp) == "ramp"@,
        id_of(Shape::CurvedWall) == "curved_wall"@,
        id_of(Shape::Doorway) == "doorway"@,
        id_of(Shape::WindowWall) == "window_wall"@,
        id_of(Shape::LShape) == "l_shape"@,
        id_of(Shape::TShape) == "t_shape"@,
        id_of(Shape::CrossShape) == "cross_shape"@,
        id_of(Shape::SpiralStairs) == "spiral_stairs"@,
        id_of(Shape::Pillar) == "pillar"@,
        id_of(Shape::Pipe) == "pipe"@,
        id_of(Shape::Ring) == "ring"@,
        id_of(Shape::Funnel) == "funnel"@,
        id_of(Shape::Gutter) == "gutter"@,
        id_of(Shape::Prism) == "prism"@,
        id_of(Shape::Pyramid) == "pyramid"@,
{
}

/// The name that people read for every shape.
pub proof fn shapes_have_their_names()
    ensures
        name_of(Shape::Cube) == "Cube"@,
        name_of(Shape::Sphere) == "Sphere"@,
        name_of(Shape::Cylinder) == "Cylinder"@,
        name_of(Shape::Plane) == "Plane"@,
        name_of(Shape::Cone) == "Cone"@,
        name_of(Shape::Torus) == "Torus"@,
        name_of(Shape::Capsule) == "Capsule"@,
        name_of(Shape::Hemisphere) == "Hemisphere"@,
        name_of(Shape::Wedge) == "Wedge"@,
        name_of(Shape::Stairs) == "Stairs"@,
        name_of(Shape::Arch) == "Arch"@,
        name_of(Shape::HalfCylinder) == "Half Cylinder"@,
        name_of(Shape::QuarterPipe) == "Quarter Pipe"@,
        name_of(Shape::Corner) == "Corner"@,
        name_of(Shape::Wall) == "Wall"@,
        name_of(Shape::Ramp) == "Ramp"@,
        name_of(Shape::CurvedWall) == "Curved Wall"@,
        name_of(Shape::Doorway) == "Doorway"@,
        name_of(Shape::WindowWall) == "Window Wall"@,
        name_of(Shape::LShape) == "L-Shape"@,
        name_of(Shape::TShape) == "T-Shape"@,
        name_of(Shape::CrossShape) == "Cross"@,
        name_of(Shape::SpiralStairs) == "Spiral Stairs"@,
        name_of(Shape::Pillar) == "Pillar"@,
        name_of(Shape::Pipe) == "Pipe"@,
        name_of(Shape::Ring) == "Ring"@,
        name_of(Shape::Funnel) == "Funnel"@,
        name_of(Shape::Gutter) == "Gutter"@,
        name_of(Shape::Prism) == "Prism"@,
        name_of(Shape::Pyramid) == "Pyramid"@,
{
}

/// The colour that every shape starts with.
pub proof fn shapes_have_their_colors()
    ensures
        color_of(Shape::Cube) == (Hundredths { red: 80, green: 30, blue: 20 }),
        color_of(Shape::Sphere) == (Hundredths { red: 20, green: 50, blue: 80 }),
        color_of(Shape::Cylinder) == (Hundredths { red: 30, green: 70, blue: 40 }),
        color_of(Shape::Plane) == (Hundredths { red: 35, green: 35, blue: 35 }),
        color_of(Shape::Cone) == (Hundredths { red: 70, green: 50, blue: 20 }),
        color_of(Shape::Torus) == (Hundredths { red: 60, green: 30, blue: 70 }),
        color_of(Shape::Capsule) == (Hundredths { red: 30, green: 60, blue: 60 }),
        color_of(Shape::Hemisphere) == (Hundredths { red: 50, green: 40, blue: 70 }),
        color_of(Shape::Wedge) == (Hundredths { red: 60, green: 60, blue: 50 }),
        color_of(Shape::Stairs) == (Hundredths { red: 50, green: 50, blue: 60 }),
        color_of(Shape::Arch) == (Hundredths { red: 60, green: 50, blue: 40 }),
        color_of(Shape::HalfCylinder) == (Hundredths { red: 50, green: 60, blue: 50 }),
        color_of(Shape::QuarterPipe) == (Hundredths { red: 55, green: 55, blue: 50 }),
        color_of(Shape::Corner) == (Hundredths { red: 50, green: 50, blue: 55 }),
        color_of(Shape::Wall) == (Hundredths { red: 55, green: 50, blue: 50 }),
        color_of(Shape::Ramp) == (Hundredths { red: 50, green: 55, blue: 50 }),
        color_of(Shape::CurvedWall) == (Hundredths { red: 55, green: 55, blue: 55 }),
        color_of(Shape::Doorway) == (Hundredths { red: 50, green: 50, blue: 60 }),
        color_of(Shape::WindowWall) == (Hundredths { red: 50, green: 55, blue: 55 }),
        color_of(Shape::LShape) == (Hundredths { red: 55, green: 50, blue: 55 }),
        color_of(Shape::TShape) == (Hundredths { red: 50, green: 55, blue: 60 }),
        color_of(Shape::CrossShape) == (Hundredths { red: 55, green: 55, blue: 60 }),
        color_of(Shape::SpiralStairs) == (Hundredths { red: 50, green: 50, blue: 55 }),
        color_of(Shape::Pillar) == (Hundredths { red: 55, green: 50, blue: 50 }),
        color_of(Shape::Pipe) == (Hundredths { red: 40, green: 50, blue: 60 }),
        color_of(Shape::Ring) == (Hundredths { red: 50, green: 40, blue: 60 }),
        color_of(Shape::Funnel) == (Hundredths { red: 60, green: 40, blue: 50 }),
        color_of(Shape::Gutter) == (Hundredths { red: 40, green: 60, blue: 50 }),
        color_of(Shape::Prism) == (Hundredths { red: 50, green: 50, blue: 70 }),
        color_of(Shape::Pyramid) == (Hundredths { red: 70, green: 50, blue: 50 }),
{
}

/// The order of the catalogue.
pub proof fn shapes_have_their_places()
    ensures
        catalogue().len() == 30,
        catalogue()[0] == Shape::Cube,
        catalogue()[1] == Shape::Sphere,
        catalogue()[2] == Shape::Cylinder,
        catalogue()[3] == Shape::Plane,
        catalogue()[4] == Shape::Cone,
        catalogue()[5] == Shape::Torus,
        catalogue()[6] == Shape::Capsule,
        catalogue()[7] == Shape::Hemisphere,
        catalogue()[8] == Shape::Wedge,
        catalogue()[9] == Shape::Stairs,
        catalogue()[10] == Shape::Arch,
        catalogue()[11] == Shape::HalfCylinder,
        catalogue()[12] == Shape::QuarterPipe,
        catalogue()[13] == Shape::Corner,
        catalogue()[14] == Shape::Wall,
        catalogue()[15] == Shape::Ramp,
        catalogue()[16] == Shape::CurvedWall,
        catalogue()[17] == Shape::Doorway,
        catalogue()[18] == Shape::WindowWall,
        catalogue()[19] == Shape::LShape,
        catalogue()[20] == Shape::TShape,
        catalogue()[21] == Shape::CrossShape,
        catalogue()[22] == Shape::SpiralStairs,
        catalogue()[23] == Shape::Pillar,
        catalogue()[24] == Shape::Pipe,
        catalogue()[25] == Shape::Ring,
        catalogue()[26] == Shape::Funnel,
        catalogue()[27] == Shape::Gutter,
        catalogue()[28] == Shape::Prism,
        catalogue()[29] == Shape::Pyramid,
{
}

} // verus!
