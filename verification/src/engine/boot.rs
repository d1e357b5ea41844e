//! Starting up: where the project comes from, and following renamed scenes.

use vstd::prelude::*;

use crate::dock::drop::option_text;
use crate::text::{same_text, texts};

verus! {

/// Where a game's project comes from.
pub enum ProjectSource {
    /// The archive that ships with the game.
    Archive,
    /// A project file, or a directory that holds one.
    Disk(String),
    /// There is none.
    Missing,
}

/// The argument after the first `--project` that is followed by one.
pub open spec fn project_arg(args: Seq<Seq<char>>) -> Option<Seq<char>>
    decreases args.len(),
{
    if args.len() < 2 {
        None
    } else if args[0] == "--project"@ {
        Some(args[1])
    } else {
        project_arg(args.drop_first())
    }
}

/// The argument after the first `--project` that is followed by one.
pub fn parse_project_arg(args: &Vec<String>) -> (r: Option<String>)
    ensures
        option_text(r) == project_arg(texts(args@)),
{
    let ghost all = texts(args@);
    let mut i: usize = 0;
    assert(all.skip(0) == all);
    while args.len() - i >= 2
        invariant
            i <= args@.len(),
            all == texts(args@),
            project_arg(all) == project_arg(all.skip(i as int)),
        decreases args@.len() - i,
    {
        proof {
            assert(all.skip(i as int)[0] == args@[i as int]@);
            assert(all.skip(i as int)[1] == args@[i + 1]@);
            assert(all.skip(i as int).drop_first() == all.skip(i + 1));
        }
        if same_text(&args[i], "--project") {
            return Some(args[i + 1].clone());
        }
        i += 1;
    }
    None
}

/// Where a game's project comes from: the archive where there is one, else the
/// project named on the command line, else the one in the working directory.
pub fn project_source(has_archive: bool, args: &Vec<String>, local_exists: bool) -> (r:
    ProjectSource)
    ensures
        match r {
            ProjectSource::Archive => has_archive,
            ProjectSource::Disk(path) => !has_archive && (match project_arg(texts(args@)) {
                Some(named) => path@ == named,
                None => local_exists && path@ == "project.toml"@,
            }),
            ProjectSource::Missing => !has_archive && project_arg(texts(args@)) is None
                && !local_exists,
        },
{
    if has_archive {
        return ProjectSource::Archive;
    }
    match parse_project_arg(args) {
        Some(path) => ProjectSource::Disk(path),
        None => if local_exists {
            ProjectSource::Disk("project.toml".to_owned())
        } else {
            ProjectSource::Missing
        },
    }
}

// ── What a session runs ──

/// The parts of the engine that a build carries.
#[derive(Clone, Copy, Debug, PartialEq, Eq, Structural)]
pub struct BuildParts {
    pub render_2d: bool,
    pub render_3d: bool,
    /// Model files can be loaded.
    pub models: bool,
}

/// What a session runs besides what every session does.
#[derive(Clone, Copy, Debug, PartialEq, Eq, Structural)]
pub struct RuntimeSetup {
    /// Opens the project, loads the autoload scenes and the main scene, and
    /// rebuilds what they do not store. The editor's project flow does that
    /// itself.
    pub boots_game: bool,
    /// Rebuilds primitives and edited meshes.
    pub rebuilds_meshes: bool,
    /// Loads model files: purely visual, so not on a dedicated server.
    pub loads_models: bool,
    /// Routes effects to the play camera. The editor routes to its own cameras.
    pub routes_effects: bool,
    /// Holds the play camera to the quality tier of the project.
    pub enforces_quality: bool,
    /// Binds and crops sprites, in the editor too.
    pub binds_sprites: bool,
    /// Switches levels of detail and streams textures, in the editor too.
    pub streams_detail: bool,
}

/// What a session runs. A session that does not say is a game.
pub fn runtime_setup(editor: Option<bool>, server: bool, parts: BuildParts) -> (r: RuntimeSetup)
    ensures
        ({
            let game = editor != Some(true);
            &&& r.boots_game == game
            &&& r.rebuilds_meshes == (game && parts.render_3d)
            &&& r.loads_models == (game && parts.models && !server)
            &&& r.routes_effects == game
            &&& r.enforces_quality == (game && parts.render_3d)
            &&& r.binds_sprites == parts.render_2d
            &&& r.streams_detail == (parts.render_3d && !server)
        }),
{
    let game: bool = match editor {
        Some(is_editor) => !is_editor,
        None => true,
    };
    RuntimeSetup {
        boots_game: game,
        rebuilds_meshes: game && parts.render_3d,
        loads_models: game && parts.models && !server,
        routes_effects: game,
        enforces_quality: game && parts.render_3d,
        binds_sprites: parts.render_2d,
        streams_detail: parts.render_3d && !server,
    }
}

/// How opaque surfaces are shaded.
#[derive(Clone, Copy, Debug, PartialEq, Eq, Structural)]
pub enum RenderingMode {
    /// Not decided yet.
    Auto,
    Forward,
    Deferred,
}

/// Take over the mode of a project that was opened; without one the mode stays.
/// Returns whether opaque surfaces are deferred, where a project was opened:
/// whatever is not deferred is forward.
pub fn sync_rendering_mode_from_project(
    current: &mut RenderingMode,
    project: Option<RenderingMode>,
) -> (r: Option<bool>)
    ensures
        match project {
            Some(mode) => *final(current) == mode && r == Some(mode is Deferred),
            None => *final(current) == *old(current) && r is None,
        },
{
    match project {
        Some(mode) => {
            *current = mode;
            Some(mode == RenderingMode::Deferred)
        },
        None => None,
    }
}

// ── Following renamed scenes ──

/// The scenes a project names.
pub struct ProjectScenes {
    pub main_scene: String,
    pub autoload: Vec<String>,
}

/// A path, or what it was renamed to.
pub open spec fn followed(path: Seq<char>, renamed: Option<Seq<char>>) -> Seq<char> {
    match renamed {
        Some(new) => new,
        None => path,
    }
}

/// What optional strings hold.
pub open spec fn option_texts(list: Seq<Option<String>>) -> Seq<Option<Seq<char>>> {
    list.map_values(|s: Option<String>| option_text(s))
}

/// Follow a renamed or moved scene: `main` and `autoload` are what the project's
/// scenes are called now, where they were renamed. Returns whether the project
/// has to be saved.
pub fn follow_project_scene_paths(
    scenes: &mut ProjectScenes,
    main: Option<String>,
    autoload: &Vec<Option<String>>,
) -> (r: bool)
    requires
        autoload@.len() == old(scenes).autoload@.len(),
    ensures
        final(scenes).main_scene@ == followed(old(scenes).main_scene@, option_text(main)),
        texts(final(scenes).autoload@) == Seq::new(
            old(scenes).autoload@.len(),
            |i: int| followed(texts(old(scenes).autoload@)[i], option_texts(autoload@)[i]),
        ),
        r == (main is Some || exists|i: int|
            0 <= i < autoload@.len() && (#[trigger] autoload@[i]) is Some),
{
    let mut changed: bool = false;
    if let Some(new) = main {
        scenes.main_scene = new;
        changed = true;
    }
    let ghost before = texts(scenes.autoload@);
    let ghost main_now = scenes.main_scene@;
    let ghost main_changed = changed;
    let mut i: usize = 0;
    while i < autoload.len()
        invariant
            i <= autoload@.len(),
            autoload@.len() == before.len(),
            scenes.autoload@.len() == before.len(),
            scenes.main_scene@ == main_now,
            forall|k: int|
                0 <= k < i ==> (#[trigger] scenes.autoload@[k])@ == followed(
                    before[k],
                    option_text(autoload@[k]),
                ),
            forall|k: int| i <= k < before.len() ==> (#[trigger] scenes.autoload@[k])@ == before[k],
            changed == (main_changed || exists|k: int|
                0 <= k < i && (#[trigger] autoload@[k]) is Some),
        decreases autoload@.len() - i,
    {
        if let Some(new) = &autoload[i] {
            scenes.autoload.set(i, new.clone());
            changed = true;
        }
        i += 1;
    }
    assert(texts(scenes.autoload@) =~= Seq::new(
        old(scenes).autoload@.len(),
        |i: int| followed(texts(old(scenes).autoload@)[i], option_texts(autoload@)[i]),
    ));
    changed
}

/// Follow a renamed model file. Returns whether the reference changed.
pub fn follow_model_path(model_path: &mut Option<String>, renamed: Option<String>) -> (r: bool)
    ensures
        r == (*old(model_path) is Some && renamed is Some),
        option_text(*final(model_path)) == (if r {
            option_text(renamed)
        } else {
            option_text(*old(model_path))
        }),
{
    if model_path.is_some() && renamed.is_some() {
        *model_path = renamed;
        true
    } else {
        false
    }
}

} // verus!
