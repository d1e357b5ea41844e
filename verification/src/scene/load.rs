//! Loading a scene: its state, what its text comes to, and what is announced.

use vstd::prelude::*;

use crate::dock::drop::option_text;
use crate::scalar::{ONE_BITS, Scalar, ZERO_BITS};
use crate::scene::prune::{
    housed, prune_leaked_ui, prune_orphaned_entities, rooted, scene_models, SceneEntity,
};
use crate::text::{copy_texts, same_text, texts};
use crate::unicode::{trim, trimmed};

verus! {

/// Coarse phase of the most recent scene load.
#[derive(Clone, Copy, Debug, PartialEq, Eq, Structural)]
pub enum SceneLoadPhase {
    Idle,
    Loading,
    Ready,
    Failed,
}

/// Tracks the state of scene loading so UI can reflect progress.
///
/// `progress` is 0..1. Scene loading is synchronous, so the value jumps from 0
/// to 1 in a single frame.
pub struct SceneLoadState {
    pub phase: SceneLoadPhase,
    pub current_path: Option<String>,
    pub progress: Scalar,
}

/// What a load state holds.
pub struct LoadModel {
    pub phase: SceneLoadPhase,
    pub current_path: Option<Seq<char>>,
    pub progress: Scalar,
}

impl View for SceneLoadState {
    type V = LoadModel;

    open spec fn view(&self) -> LoadModel {
        LoadModel {
            phase: self.phase,
            current_path: option_text(self.current_path),
            progress: self.progress,
        }
    }
}

impl Default for SceneLoadState {
    fn default() -> (r: Self)
        ensures
            r@ == (LoadModel {
                phase: SceneLoadPhase::Idle,
                current_path: None,
                progress: Scalar { bits: ZERO_BITS },
            }),
    {
        SceneLoadState {
            phase: SceneLoadPhase::Idle,
            current_path: None,
            progress: Scalar { bits: ZERO_BITS },
        }
    }
}

/// A scene finished loading.
pub struct SceneLoaded {
    pub path: String,
}

/// A scene could not be written to the world.
pub struct SceneLoadFailed {
    pub path: String,
    pub error: String,
}

/// Component types of a scene were skipped because they aren't registered.
pub struct SceneLoadedWithSkippedTypes {
    pub path: String,
    pub skipped: Vec<String>,
}

/// How a load ended.
pub enum LoadEnd {
    /// The file does not exist, cannot be read, or cannot be parsed.
    Unavailable,
    /// The scene has no entities.
    Empty,
    /// The scene is in the world.
    Written,
    /// The world did not take the scene.
    Rejected(String),
}

/// What is announced when a load ended.
pub enum LoadEvent {
    Loaded(SceneLoaded),
    Failed(SceneLoadFailed),
}

/// What an announcement holds.
pub enum LoadEventModel {
    Loaded { path: Seq<char> },
    Failed { path: Seq<char>, error: Seq<char> },
}

impl View for LoadEvent {
    type V = LoadEventModel;

    open spec fn view(&self) -> LoadEventModel {
        match self {
            LoadEvent::Loaded(e) => LoadEventModel::Loaded { path: e.path@ },
            LoadEvent::Failed(e) => LoadEventModel::Failed { path: e.path@, error: e.error@ },
        }
    }
}

/// The state after a load ended. One that never got to the world leaves it as
/// it is.
pub open spec fn ended(state: LoadModel, end: LoadEnd) -> LoadModel {
    match end {
        LoadEnd::Unavailable => state,
        LoadEnd::Empty | LoadEnd::Written => LoadModel {
            phase: SceneLoadPhase::Ready,
            progress: Scalar { bits: ONE_BITS },
            ..state
        },
        LoadEnd::Rejected(_) => LoadModel { phase: SceneLoadPhase::Failed, ..state },
    }
}

/// What is announced after a load ended.
pub open spec fn announced(path: Seq<char>, end: LoadEnd) -> Option<LoadEventModel> {
    match end {
        LoadEnd::Unavailable => None,
        LoadEnd::Empty | LoadEnd::Written => Some(LoadEventModel::Loaded { path }),
        LoadEnd::Rejected(error) => Some(LoadEventModel::Failed { path, error: error@ }),
    }
}

impl SceneLoadState {
    /// A load of `path` begins.
    pub fn begin(&mut self, path: &str)
        ensures
            final(self)@ == (LoadModel {
                phase: SceneLoadPhase::Loading,
                current_path: Some(path@),
                progress: Scalar { bits: ZERO_BITS },
            }),
    {
        self.phase = SceneLoadPhase::Loading;
        self.current_path = Some(path.to_owned());
        self.progress = Scalar { bits: ZERO_BITS };
    }

    /// The load ended.
    pub fn end(&mut self, end: &LoadEnd)
        ensures
            final(self)@ == ended(old(self)@, *end),
    {
        match end {
            LoadEnd::Unavailable => {},
            LoadEnd::Empty | LoadEnd::Written => {
                self.phase = SceneLoadPhase::Ready;
                self.progress = Scalar { bits: ONE_BITS };
            },
            LoadEnd::Rejected(_) => {
                self.phase = SceneLoadPhase::Failed;
            },
        }
    }
}

/// What to announce after a load of `path` ended.
pub fn load_event(path: &str, end: &LoadEnd) -> (r: Option<LoadEvent>)
    ensures
        match r {
            Some(event) => announced(path@, *end) == Some(event@),
            None => announced(path@, *end) is None,
        },
{
    match end {
        LoadEnd::Unavailable => None,
        LoadEnd::Empty | LoadEnd::Written => Some(
            LoadEvent::Loaded(SceneLoaded { path: path.to_owned() }),
        ),
        LoadEnd::Rejected(error) => Some(
            LoadEvent::Failed(SceneLoadFailed { path: path.to_owned(), error: error.clone() }),
        ),
    }
}

/// Whether a scene text holds no entities: nothing but white space, or the
/// empty scene.
pub open spec fn empty_text(text: Seq<char>) -> bool {
    trimmed(text).len() == 0 || trimmed(text) == "(entities: {}, resources: {})"@
}

/// Whether a trimmed scene text is that of an empty scene.
pub fn is_empty_trimmed(text: &str) -> (r: bool)
    ensures
        r == (text@.len() == 0 || text@ == "(entities: {}, resources: {})"@),
{
    text.is_empty() || same_text(text, "(entities: {}, resources: {})")
}

/// Whether a scene text holds no entities.
pub fn is_empty_scene(text: &str) -> (r: bool)
    ensures
        r == empty_text(text@),
{
    let body = trim(text);
    is_empty_trimmed(&body)
}

/// Where a scene's text comes from: the archive first, then what was read ahead,
/// then the disk. `None` where nothing has it.
pub fn first_source(archive: Option<String>, ahead: Option<String>, disk: Option<String>) -> (r:
    Option<String>)
    ensures
        r == (if archive is Some {
            archive
        } else if ahead is Some {
            ahead
        } else {
            disk
        }),
{
    if archive.is_some() {
        archive
    } else if ahead.is_some() {
        ahead
    } else {
        disk
    }
}

/// What to announce where component types were skipped: nothing where none was.
pub fn skipped_event(path: &str, skipped: &Vec<String>) -> (r: Option<SceneLoadedWithSkippedTypes>)
    ensures
        match r {
            Some(event) => skipped@.len() > 0 && event.path@ == path@ && texts(event.skipped@)
                == texts(skipped@),
            None => skipped@.len() == 0,
        },
{
    if skipped.len() == 0 {
        None
    } else {
        Some(SceneLoadedWithSkippedTypes { path: path.to_owned(), skipped: copy_texts(skipped) })
    }
}

/// Clean a parsed scene before it goes into the world: first the orphans of
/// excluded roots, then leaked editor interface. Returns how many of each went.
pub fn prune_scene(scene: &mut Vec<SceneEntity>) -> (r: (usize, usize))
    ensures
        ({
            let before = scene_models(old(scene)@);
            let midway = before.filter(rooted(before));
            let after = midway.filter(housed(midway));
            &&& scene_models(final(scene)@) == after
            &&& r.0 == before.len() - midway.len()
            &&& r.1 == midway.len() - after.len()
        }),
{
    let ghost before = scene_models(scene@);
    let orphans: usize = prune_orphaned_entities(scene);
    let ghost midway = scene_models(scene@);
    let leaked: usize = prune_leaked_ui(scene);
    (orphans, leaked)
}

// ── A load, step by step ──

/// What comes after looking for a scene's text.
pub enum Fetched {
    /// Nothing has it, or it could not be read: the load is over.
    Missing,
    /// The scene is empty: the load is over, and this is announced.
    Done(LoadEvent),
    /// Parse this.
    Parse(String),
}

/// What optional texts hold.
pub open spec fn chosen_text(
    archive: Option<String>,
    ahead: Option<String>,
    disk: Option<String>,
) -> Option<Seq<char>> {
    match (archive, ahead, disk) {
        (Some(text), _, _) => Some(text@),
        (None, Some(text), _) => Some(text@),
        (None, None, Some(text)) => Some(text@),
        _ => None,
    }
}

/// A scene's text was looked for: in the archive, among what was read ahead, and
/// on the disk. An empty scene is loaded at once.
pub fn text_fetched(
    state: &mut SceneLoadState,
    path: &str,
    archive: Option<String>,
    ahead: Option<String>,
    disk: Option<String>,
) -> (r: Fetched)
    ensures
        match chosen_text(archive, ahead, disk) {
            None => r is Missing && final(state)@ == old(state)@,
            Some(text) => if empty_text(text) {
                &&& final(state)@ == ended(old(state)@, LoadEnd::Empty)
                &&& r matches Fetched::Done(event)
                &&& Some(event@) == announced(path@, LoadEnd::Empty)
            } else {
                &&& final(state)@ == old(state)@
                &&& r matches Fetched::Parse(parse)
                &&& parse@ == text
            },
        },
{
    match first_source(archive, ahead, disk) {
        None => Fetched::Missing,
        Some(text) => if is_empty_scene(&text) {
            state.end(&LoadEnd::Empty);
            Fetched::Done(LoadEvent::Loaded(SceneLoaded { path: path.to_owned() }))
        } else {
            Fetched::Parse(text)
        },
    }
}

/// What is known of a parsed scene once it is clean.
pub struct ParsedScene {
    /// To be announced before the scene goes into the world.
    pub skipped: Option<SceneLoadedWithSkippedTypes>,
    /// How many orphaned interface entities were dropped.
    pub orphans: usize,
    /// How many leaked interface entities were dropped.
    pub leaked: usize,
}

/// A scene was parsed: clean it, and announce the types that were skipped. A
/// scene that comes from a string has no path, and announces the empty one.
pub fn scene_parsed(path: &str, scene: &mut Vec<SceneEntity>, skipped: &Vec<String>) -> (r:
    ParsedScene)
    ensures
        ({
            let before = scene_models(old(scene)@);
            let midway = before.filter(rooted(before));
            let after = midway.filter(housed(midway));
            &&& scene_models(final(scene)@) == after
            &&& r.orphans == before.len() - midway.len()
            &&& r.leaked == midway.len() - after.len()
        }),
        match r.skipped {
            Some(event) => skipped@.len() > 0 && event.path@ == path@ && texts(event.skipped@)
                == texts(skipped@),
            None => skipped@.len() == 0,
        },
{
    let announced = skipped_event(path, skipped);
    let (orphans, leaked) = prune_scene(scene);
    ParsedScene { skipped: announced, orphans, leaked }
}

/// The world took a scene, or did not: the load is over, and this is announced.
pub fn scene_written(state: &mut SceneLoadState, path: &str, outcome: Result<(), String>) -> (r:
    LoadEvent)
    ensures
        ({
            let end = match outcome {
                Ok(_) => LoadEnd::Written,
                Err(error) => LoadEnd::Rejected(error),
            };
            &&& final(state)@ == ended(old(state)@, end)
            &&& Some(r@) == announced(path@, end)
        }),
{
    match outcome {
        Ok(_) => {
            state.end(&LoadEnd::Written);
            LoadEvent::Loaded(SceneLoaded { path: path.to_owned() })
        },
        Err(error) => {
            let event = LoadEvent::Failed(
                SceneLoadFailed { path: path.to_owned(), error: error.clone() },
            );
            state.end(&LoadEnd::Rejected(error));
            event
        },
    }
}

/// A load that began and went through to the world leaves its own path as the
/// open document, ready and complete; one that the world rejected leaves it
/// failed; one that found nothing leaves it loading.
pub proof fn a_load_leaves_its_mark(state: LoadModel, end: LoadEnd)
    ensures
        ended(state, end).current_path == state.current_path,
        (end is Empty || end is Written) ==> ended(state, end).phase == SceneLoadPhase::Ready
            && ended(state, end).progress == (Scalar { bits: ONE_BITS }),
        end is Rejected ==> ended(state, end).phase == SceneLoadPhase::Failed,
        end is Unavailable ==> ended(state, end) == state,
{
}

} // verus!
