//! Rebuilding what a scene does not store: meshes, models and light parts.

use vstd::prelude::*;

verus! {

/// How a saved primitive is rebuilt.
#[derive(Clone, Copy, Debug, PartialEq, Eq, Structural)]
pub enum MeshPlan {
    /// The scene names a shape that nobody registered.
    Unknown,
    /// Only the mesh: the material has a file of its own, and inserting one here
    /// would race with it.
    MeshOnly(u64),
    /// The mesh and the blockout material, in the saved colour or in white.
    WithMaterial { mesh: u64, saved_color: bool },
}

/// How a saved primitive is rebuilt. `mesh` is what the registry of shapes built
/// for the shape that the scene names, whoever registered it.
pub fn rehydrate_meshes(mesh: Option<u64>, has_material: bool, has_color: bool) -> (r: MeshPlan)
    ensures
        r == (match mesh {
            None => MeshPlan::Unknown,
            Some(mesh) => if has_material {
                MeshPlan::MeshOnly(mesh)
            } else {
                MeshPlan::WithMaterial { mesh, saved_color: has_color }
            },
        }),
{
    match mesh {
        None => MeshPlan::Unknown,
        Some(mesh) => if has_material {
            MeshPlan::MeshOnly(mesh)
        } else {
            MeshPlan::WithMaterial { mesh, saved_color: has_color }
        },
    }
}

/// Whether edited geometry is worth building: at least one triangle. A
/// degenerate payload must not replace its source with an empty mesh.
pub fn apply_edited_meshes(coordinates: usize, indices: usize) -> (r: bool)
    ensures
        r == (coordinates >= 9 && indices >= 3),
{
    coordinates >= 9 && indices >= 3
}

/// A loaded model file.
pub struct ModelScenes {
    pub default_scene: Option<u64>,
    pub scenes: Vec<u64>,
}

/// What becomes of a model instance that waits for its file.
#[derive(Clone, Copy, Debug, PartialEq, Eq, Structural)]
pub enum ModelStep {
    /// The file is still loading.
    Wait,
    /// The file could not be loaded. The instance stops waiting, so a missing
    /// file does not hold up the loading screen.
    Fail,
    /// Spawn this scene of the file under the instance.
    Spawn(u64),
    /// The file holds no scene.
    Finish,
}

/// What becomes of a model instance that waits for its file: the default scene
/// of a loaded file is spawned, else its first one.
pub fn finish_mesh_instance_rehydrate(loaded: &Option<ModelScenes>, failed: bool) -> (r: ModelStep)
    ensures
        r == (match *loaded {
            None => if failed {
                ModelStep::Fail
            } else {
                ModelStep::Wait
            },
            Some(file) => match file.default_scene {
                Some(scene) => ModelStep::Spawn(scene),
                None => if file.scenes@.len() > 0 {
                    ModelStep::Spawn(file.scenes@[0])
                } else {
                    ModelStep::Finish
                },
            },
        }),
{
    match loaded {
        None => if failed {
            ModelStep::Fail
        } else {
            ModelStep::Wait
        },
        Some(file) => match file.default_scene {
            Some(scene) => ModelStep::Spawn(scene),
            None => if file.scenes.len() > 0 {
                ModelStep::Spawn(file.scenes[0])
            } else {
                ModelStep::Finish
            },
        },
    }
}

/// A model instance in a scene.
#[derive(Clone, Copy, Debug, PartialEq, Eq, Structural)]
pub struct ModelFacts {
    pub has_path: bool,
    pub has_children: bool,
    pub pending: bool,
}

/// Whether a new model instance starts loading its file.
pub fn rehydrate_mesh_instances(model: ModelFacts) -> (r: bool)
    ensures
        r == (model.has_path && !model.has_children && !model.pending),
{
    model.has_path && !model.has_children && !model.pending
}

} // verus!
