//! The game interface: canvases, widgets and how they are drawn.

pub mod canvas;
pub mod emit;
pub mod emit_laws;
pub mod heal;
pub mod inspector;
pub mod mesh;
pub mod order;
pub mod plot;
pub mod table_laws;
pub mod ui_laws;
pub mod walk;
