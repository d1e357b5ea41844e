//! Scenes: what is saved, what is loaded, and how scenes refer to each other.

pub mod cameras;
pub mod circle;
pub mod cycle;
pub mod denied;
pub mod instances;
pub mod load;
pub mod meshes;
pub mod paths;
pub mod prune;
pub mod references;
pub mod restore;
pub mod save;
pub mod save_laws;
pub mod scene_laws;
pub mod source_laws;
pub mod sprites;
pub mod subtree;
pub mod surgery;
