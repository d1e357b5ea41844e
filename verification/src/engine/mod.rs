//! The running engine: loading progress, global scenes, scene changes and
//! viewport cameras.

pub mod autoload;
pub mod boot;
pub mod engine_laws;
pub mod progress;
pub mod routing;
pub mod shape_laws;
pub mod shapes;
pub mod slots;
pub mod viewports;
