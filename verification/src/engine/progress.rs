//! Asset-load progress, and its mirror for scripts.

use vstd::prelude::*;

use crate::dock::drop::option_text;
use crate::scalar::{Scalar, ZERO_BITS};
use crate::scene::load::{LoadModel, SceneLoadPhase, SceneLoadState};
use crate::text::same_text;

verus! {

/// Lifecycle state for the asset-load progress tracker.
#[derive(Clone, Copy, Debug, PartialEq, Eq, Structural)]
pub enum LoadProgressState {
    /// Nothing pending: either nothing ever started loading, or everything from
    /// the last load completed and the tracker is at rest.
    Idle,
    /// At least one asset is still loading.
    Loading,
    /// Every tracked asset finished. Persists until another pending load
    /// starts; this is a state, not a one-frame completion event.
    Done,
}

/// A moment, as the bit pattern of its double-precision seconds.
#[derive(Clone, Copy, Debug, PartialEq, Eq, Structural)]
pub struct Moment {
    pub bits: u64,
}

/// Snapshot of asset-load progress, refreshed each frame.
pub struct AssetLoadProgress {
    pub state: LoadProgressState,
    /// Total tracked files in the scene.
    pub total_files: u32,
    /// Files whose asset has finished loading.
    pub loaded_files: u32,
    /// Sum of compressed size for every tracked file. Zero when no archive is
    /// mounted.
    pub total_bytes: u64,
    /// Sum of compressed size for files that finished loading.
    pub loaded_bytes: u64,
    /// Path of the most recently observed pending file. Useful as
    /// "currently loading: X" text.
    pub current_path: Option<String>,
    /// Seconds since tracking began, including time after completion.
    pub elapsed_secs: Scalar,
    /// When the tracking interval started.
    pub started_at: Option<Moment>,
}

/// What a progress snapshot holds.
pub struct ProgressModel {
    pub state: LoadProgressState,
    pub total_files: u32,
    pub loaded_files: u32,
    pub total_bytes: u64,
    pub loaded_bytes: u64,
    pub current_path: Option<Seq<char>>,
    pub elapsed_secs: Scalar,
    pub started_at: Option<Moment>,
}

impl View for AssetLoadProgress {
    type V = ProgressModel;

    open spec fn view(&self) -> ProgressModel {
        ProgressModel {
            state: self.state,
            total_files: self.total_files,
            loaded_files: self.loaded_files,
            total_bytes: self.total_bytes,
            loaded_bytes: self.loaded_bytes,
            current_path: option_text(self.current_path),
            elapsed_secs: self.elapsed_secs,
            started_at: self.started_at,
        }
    }
}

impl Default for AssetLoadProgress {
    fn default() -> (r: Self)
        ensures
            r@ == (ProgressModel {
                state: LoadProgressState::Idle,
                total_files: 0,
                loaded_files: 0,
                total_bytes: 0,
                loaded_bytes: 0,
                current_path: None,
                elapsed_secs: Scalar { bits: ZERO_BITS },
                started_at: None,
            }),
    {
        AssetLoadProgress {
            state: LoadProgressState::Idle,
            total_files: 0,
            loaded_files: 0,
            total_bytes: 0,
            loaded_bytes: 0,
            current_path: None,
            elapsed_secs: Scalar { bits: ZERO_BITS },
            started_at: None,
        }
    }
}

/// A part of a whole.
#[derive(Clone, Copy, Debug, PartialEq, Eq, Structural)]
pub struct Fraction {
    pub part: u64,
    pub whole: u64,
}

/// A part of a whole, and no more than the whole.
pub open spec fn capped(part: u64, whole: u64) -> Fraction {
    Fraction {
        part: if part <= whole {
            part
        } else {
            whole
        },
        whole,
    }
}

fn cap(part: u64, whole: u64) -> (r: Fraction)
    ensures
        r == capped(part, whole),
{
    if part <= whole {
        Fraction { part, whole }
    } else {
        Fraction { part: whole, whole }
    }
}

/// A tracked file.
pub struct TrackedFile {
    /// `None` for an entity without an external model.
    pub path: Option<String>,
    /// Its compressed size, where an archive has it.
    pub bytes: Option<u64>,
}

/// How many of the files have a path.
pub open spec fn file_count(files: Seq<TrackedFile>) -> nat
    decreases files.len(),
{
    if files.len() == 0 {
        0
    } else {
        file_count(files.drop_last()) + if files.last().path is Some {
            1nat
        } else {
            0nat
        }
    }
}

/// The compressed size of the files that have a path.
pub open spec fn byte_count(files: Seq<TrackedFile>) -> nat
    decreases files.len(),
{
    if files.len() == 0 {
        0
    } else {
        byte_count(files.drop_last()) + match (files.last().path, files.last().bytes) {
            (Some(_), Some(n)) => n as nat,
            _ => 0,
        }
    }
}

/// The last path among the files.
pub open spec fn last_path(files: Seq<TrackedFile>) -> Option<Seq<char>>
    decreases files.len(),
{
    if files.len() == 0 {
        None
    } else {
        match files.last().path {
            Some(path) => Some(path@),
            None => last_path(files.drop_last()),
        }
    }
}

proof fn counts_grow(files: Seq<TrackedFile>, n: int)
    requires
        0 <= n <= files.len(),
    ensures
        file_count(files.take(n)) <= file_count(files),
        byte_count(files.take(n)) <= byte_count(files),
        file_count(files) <= files.len(),
    decreases files.len(),
{
    if files.len() > 0 {
        let rest = files.drop_last();
        if n < files.len() {
            counts_grow(rest, n);
            assert(files.take(n) =~= rest.take(n));
        } else {
            assert(files.take(n) =~= files);
            counts_grow(rest, rest.len() as int);
        }
    }
}

fn tally(files: &Vec<TrackedFile>) -> (r: (u32, u64))
    requires
        file_count(files@) <= u32::MAX,
        byte_count(files@) <= u64::MAX,
    ensures
        r.0 == file_count(files@),
        r.1 == byte_count(files@),
{
    let mut count: u32 = 0;
    let mut bytes: u64 = 0;
    let mut i: usize = 0;
    assert(files@.take(0).len() == 0);
    while i < files.len()
        invariant
            i <= files@.len(),
            file_count(files@) <= u32::MAX,
            byte_count(files@) <= u64::MAX,
            count == file_count(files@.take(i as int)),
            bytes == byte_count(files@.take(i as int)),
        decreases files@.len() - i,
    {
        proof {
            assert(files@.take(i + 1).drop_last() == files@.take(i as int));
            assert(files@.take(i + 1).last() == files@[i as int]);
            counts_grow(files@, i + 1);
        }
        if files[i].path.is_some() {
            count += 1;
            if let Some(n) = files[i].bytes {
                bytes += n;
            }
        }
        i += 1;
    }
    assert(files@.take(i as int) == files@);
    (count, bytes)
}

fn find_last_path(files: &Vec<TrackedFile>) -> (r: Option<&String>)
    ensures
        match r {
            Some(path) => last_path(files@) == Some(path@),
            None => last_path(files@) is None,
        },
{
    let mut i: usize = files.len();
    assert(files@.take(i as int) == files@);
    while i > 0
        invariant
            i <= files@.len(),
            last_path(files@) == last_path(files@.take(i as int)),
        decreases i,
    {
        proof {
            assert(files@.take(i as int).drop_last() == files@.take(i - 1));
            assert(files@.take(i as int).last() == files@[i - 1]);
        }
        i -= 1;
        if let Some(path) = &files[i].path {
            return Some(path);
        }
    }
    None
}

/// The next state of the tracker.
pub open spec fn next_state(state: LoadProgressState, total: nat, pending: nat) -> LoadProgressState {
    match state {
        LoadProgressState::Idle => if total == 0 {
            LoadProgressState::Idle
        } else if pending > 0 {
            LoadProgressState::Loading
        } else {
            LoadProgressState::Done
        },
        LoadProgressState::Loading => if pending == 0 {
            LoadProgressState::Done
        } else {
            LoadProgressState::Loading
        },
        LoadProgressState::Done => if pending > 0 {
            LoadProgressState::Loading
        } else {
            LoadProgressState::Done
        },
    }
}

/// Whether a new tracking interval starts.
pub open spec fn restarts(state: LoadProgressState, total: nat, pending: nat) -> bool {
    match state {
        LoadProgressState::Idle => total > 0,
        LoadProgressState::Loading => false,
        LoadProgressState::Done => pending > 0,
    }
}

/// The difference of two counts, not below zero.
pub open spec fn less_by(a: nat, b: nat) -> nat {
    if b <= a {
        (a - b) as nat
    } else {
        0
    }
}

/// A progress snapshot after a frame.
pub open spec fn ticked(
    before: ProgressModel,
    instances: Seq<TrackedFile>,
    pending: Seq<TrackedFile>,
    now: Moment,
) -> ProgressModel {
    let total = file_count(instances);
    let waiting = file_count(pending);
    ProgressModel {
        state: next_state(before.state, total, waiting),
        total_files: total as u32,
        loaded_files: less_by(total, waiting) as u32,
        total_bytes: byte_count(instances) as u64,
        loaded_bytes: less_by(byte_count(instances), byte_count(pending)) as u64,
        current_path: last_path(pending),
        elapsed_secs: before.elapsed_secs,
        started_at: if restarts(before.state, total, waiting) {
            Some(now)
        } else {
            before.started_at
        },
    }
}

/// Writes a path only where it differs.
pub fn update_progress_path(target: &mut Option<String>, source: Option<&str>) -> (r: bool)
    ensures
        option_text(*final(target)) == (match source {
            Some(path) => Some(path@),
            None => None,
        }),
        r == (option_text(*old(target)) != option_text(*final(target))),
        !r ==> *final(target) == *old(target),
{
    let same: bool = match (&*target, source) {
        (Some(a), Some(b)) => same_text(a, b),
        (None, None) => true,
        _ => false,
    };
    if same {
        return false;
    }
    *target = match source {
        Some(path) => Some(path.to_owned()),
        None => None,
    };
    true
}

impl AssetLoadProgress {
    /// Best-effort fraction in `[0, 1]`, as a part of a whole. Prefers byte-based
    /// progress when an archive is mounted (smoother across mixed-size assets);
    /// falls back to file-count when bytes are unavailable. With nothing to load
    /// it is complete.
    pub fn fraction(&self) -> (r: Fraction)
        ensures
            r == (if self.total_bytes > 0 {
                capped(self.loaded_bytes, self.total_bytes)
            } else if self.total_files > 0 {
                capped(self.loaded_files as u64, self.total_files as u64)
            } else {
                Fraction { part: 1, whole: 1 }
            }),
            0 < r.whole,
            r.part <= r.whole,
    {
        if self.total_bytes > 0 {
            cap(self.loaded_bytes, self.total_bytes)
        } else if self.total_files > 0 {
            cap(self.loaded_files as u64, self.total_files as u64)
        } else {
            Fraction { part: 1, whole: 1 }
        }
    }

    pub fn is_idle(&self) -> (r: bool)
        ensures
            r == (self.state == LoadProgressState::Idle),
    {
        self.state == LoadProgressState::Idle
    }

    pub fn is_loading(&self) -> (r: bool)
        ensures
            r == (self.state == LoadProgressState::Loading),
    {
        self.state == LoadProgressState::Loading
    }

    pub fn is_done(&self) -> (r: bool)
        ensures
            r == (self.state == LoadProgressState::Done),
    {
        self.state == LoadProgressState::Done
    }

    /// Note the seconds since tracking began: never less than zero, and zero
    /// while nothing was tracked.
    pub fn set_elapsed(&mut self, elapsed: Scalar)
        ensures
            final(self)@ == (ProgressModel {
                elapsed_secs: if old(self).started_at is Some && (Scalar {
                    bits: ZERO_BITS,
                }).less(elapsed) {
                    elapsed
                } else {
                    Scalar { bits: ZERO_BITS }
                },
                ..old(self)@
            }),
    {
        let zero = Scalar { bits: ZERO_BITS };
        self.elapsed_secs = if self.started_at.is_some() && zero.lt(elapsed) {
            elapsed
        } else {
            zero
        };
    }
}

/// Refresh the snapshot from the scene's files and those still pending.
pub fn tick_asset_load_progress(
    progress: &mut AssetLoadProgress,
    instances: &Vec<TrackedFile>,
    pending: &Vec<TrackedFile>,
    now: Moment,
)
    requires
        file_count(instances@) <= u32::MAX,
        byte_count(instances@) <= u64::MAX,
        file_count(pending@) <= u32::MAX,
        byte_count(pending@) <= u64::MAX,
    ensures
        final(progress)@ == ticked(old(progress)@, instances@, pending@, now),
{
    let (total_files, total_bytes) = tally(instances);
    let (pending_files, pending_bytes) = tally(pending);
    let loaded_files: u32 = if pending_files <= total_files {
        total_files - pending_files
    } else {
        0
    };
    let loaded_bytes: u64 = if pending_bytes <= total_bytes {
        total_bytes - pending_bytes
    } else {
        0
    };
    let next = match progress.state {
        LoadProgressState::Idle => if total_files == 0 {
            LoadProgressState::Idle
        } else {
            progress.started_at = Some(now);
            if pending_files > 0 {
                LoadProgressState::Loading
            } else {
                LoadProgressState::Done
            }
        },
        LoadProgressState::Loading => if pending_files == 0 {
            LoadProgressState::Done
        } else {
            LoadProgressState::Loading
        },
        LoadProgressState::Done => if pending_files > 0 {
            progress.started_at = Some(now);
            LoadProgressState::Loading
        } else {
            LoadProgressState::Done
        },
    };
    let current: Option<&str> = match find_last_path(pending) {
        Some(path) => Some(path.as_str()),
        None => None,
    };
    update_progress_path(&mut progress.current_path, current);
    progress.state = next;
    progress.total_files = total_files;
    progress.loaded_files = loaded_files;
    progress.total_bytes = total_bytes;
    progress.loaded_bytes = loaded_bytes;
}

/// The tracker is loading exactly while something is pending, once it has left
/// rest; loaded never exceeds total; and a tracker that is at rest with nothing
/// to track stays at rest.
pub proof fn tick_tells_the_truth(
    before: ProgressModel,
    instances: Seq<TrackedFile>,
    pending: Seq<TrackedFile>,
    now: Moment,
)
    requires
        file_count(instances) <= u32::MAX,
        byte_count(instances) <= u64::MAX,
    ensures
        ({
            let after = ticked(before, instances, pending, now);
            &&& after.state != LoadProgressState::Idle ==> ((after.state
                == LoadProgressState::Loading) <==> file_count(pending) > 0)
            &&& after.loaded_files <= after.total_files
            &&& after.loaded_bytes <= after.total_bytes
            &&& after.state == LoadProgressState::Idle <==> before.state == LoadProgressState::Idle
                && file_count(instances) == 0
        }),
{
}

/// The files that are marked.
pub open spec fn marked_files(files: Seq<TrackedFile>, marks: Seq<bool>) -> Seq<TrackedFile>
    decreases files.len(),
{
    if files.len() == 0 {
        Seq::empty()
    } else {
        let before = marked_files(files.drop_last(), marks);
        if marks[files.len() - 1] {
            before.push(files.last())
        } else {
            before
        }
    }
}

proof fn marked_are_fewer(files: Seq<TrackedFile>, marks: Seq<bool>)
    requires
        files.len() <= marks.len(),
    ensures
        file_count(marked_files(files, marks)) <= file_count(files),
        byte_count(marked_files(files, marks)) <= byte_count(files),
        forall|k: int|
            0 <= k < marked_files(files, marks).len() ==> exists|i: int|
                0 <= i < files.len() && marks[i] && #[trigger] files[i]
                    == #[trigger] marked_files(files, marks)[k],
    decreases files.len(),
{
    if files.len() > 0 {
        let rest = files.drop_last();
        let before = marked_files(rest, marks);
        let all = marked_files(files, marks);
        marked_are_fewer(rest, marks);
        if marks[files.len() - 1] {
            assert(all.drop_last() =~= before);
        }
        assert forall|k: int| 0 <= k < all.len() implies exists|i: int|
            0 <= i < files.len() && marks[i] && #[trigger] files[i] == #[trigger] all[k] by {
            if k < before.len() {
                let i = choose|i: int|
                    0 <= i < rest.len() && marks[i] && #[trigger] rest[i] == before[k];
                assert(files[i] == all[k]);
            } else {
                assert(files[files.len() - 1] == all[k]);
            }
        }
    }
}

proof fn last_path_is_one(files: Seq<TrackedFile>)
    ensures
        last_path(files) is None <==> file_count(files) == 0,
        last_path(files) matches Some(path) ==> exists|k: int|
            0 <= k < files.len() && option_text((#[trigger] files[k]).path) == Some(path),
    decreases files.len(),
{
    if files.len() > 0 {
        let rest = files.drop_last();
        last_path_is_one(rest);
        if let Some(path) = files.last().path {
            assert(option_text(files[files.len() - 1].path) == Some(path@));
        } else if let Some(path) = last_path(rest) {
            let k = choose|k: int|
                0 <= k < rest.len() && option_text((#[trigger] rest[k]).path) == Some(path);
            assert(option_text(files[k].path) == Some(path));
        }
    }
}

/// Where the pending files are some of the scene's, the tracker is loading
/// exactly while one of them is pending, at rest only where it was and nothing
/// is tracked, and done otherwise. It counts what is there and what is loaded,
/// and names one of the pending files exactly while there is one. A step into
/// loading starts a new interval, and so does the first step away from rest; a
/// load that goes on or completes keeps the one it has.
pub proof fn tick_follows_the_scene(
    before: ProgressModel,
    instances: Seq<TrackedFile>,
    marks: Seq<bool>,
    now: Moment,
)
    requires
        marks.len() == instances.len(),
        file_count(instances) <= u32::MAX,
        byte_count(instances) <= u64::MAX,
    ensures
        ({
            let pending = marked_files(instances, marks);
            let total = file_count(instances);
            let waiting = file_count(pending);
            let after = ticked(before, instances, pending, now);
            &&& after.state == (if waiting > 0 {
                LoadProgressState::Loading
            } else if before.state == LoadProgressState::Idle && total == 0 {
                LoadProgressState::Idle
            } else {
                LoadProgressState::Done
            })
            &&& after.total_files == total
            &&& after.loaded_files == total - waiting
            &&& after.total_bytes == byte_count(instances)
            &&& after.loaded_bytes == byte_count(instances) - byte_count(pending)
            &&& after.current_path is None <==> waiting == 0
            &&& after.current_path matches Some(path) ==> exists|i: int|
                0 <= i < instances.len() && marks[i] && option_text(
                    (#[trigger] instances[i]).path,
                ) == Some(path)
            &&& before.state != LoadProgressState::Loading && after.state
                == LoadProgressState::Loading ==> after.started_at == Some(now)
            &&& before.state == LoadProgressState::Idle && after.state != LoadProgressState::Idle
                ==> after.started_at == Some(now)
            &&& before.state == LoadProgressState::Loading ==> after.started_at
                == before.started_at
            &&& before.state == after.state ==> after.started_at == before.started_at
        }),
{
    let pending = marked_files(instances, marks);
    marked_are_fewer(instances, marks);
    last_path_is_one(pending);
    if let Some(path) = last_path(pending) {
        let k = choose|k: int|
            0 <= k < pending.len() && option_text((#[trigger] pending[k]).path) == Some(path);
        let i = choose|i: int|
            0 <= i < instances.len() && marks[i] && #[trigger] instances[i] == pending[k];
        assert(option_text(instances[i].path) == Some(path));
    }
}

// ── The mirror for scripts ──

/// What scripts see of the asset progress.
pub struct AssetProgressSnapshot {
    pub state: String,
    pub total_files: u32,
    pub loaded_files: u32,
    pub total_bytes: u64,
    pub loaded_bytes: u64,
    pub current_path: Option<String>,
    pub elapsed_secs: Scalar,
    pub fraction: Scalar,
}

/// What a snapshot for scripts holds.
pub struct SnapshotModel {
    pub state: Seq<char>,
    pub total_files: u32,
    pub loaded_files: u32,
    pub total_bytes: u64,
    pub loaded_bytes: u64,
    pub current_path: Option<Seq<char>>,
    pub elapsed_secs: Scalar,
    pub fraction: Scalar,
}

impl View for AssetProgressSnapshot {
    type V = SnapshotModel;

    open spec fn view(&self) -> SnapshotModel {
        SnapshotModel {
            state: self.state@,
            total_files: self.total_files,
            loaded_files: self.loaded_files,
            total_bytes: self.total_bytes,
            loaded_bytes: self.loaded_bytes,
            current_path: option_text(self.current_path),
            elapsed_secs: self.elapsed_secs,
            fraction: self.fraction,
        }
    }
}

/// The word scripts know a state by.
pub open spec fn state_word(state: LoadProgressState) -> Seq<char> {
    match state {
        LoadProgressState::Idle => "idle"@,
        LoadProgressState::Loading => "loading"@,
        LoadProgressState::Done => "done"@,
    }
}

/// The word scripts know a phase by.
pub open spec fn phase_word(phase: SceneLoadPhase) -> Seq<char> {
    match phase {
        SceneLoadPhase::Idle => "idle"@,
        SceneLoadPhase::Loading => "loading"@,
        SceneLoadPhase::Ready => "ready"@,
        SceneLoadPhase::Failed => "failed"@,
    }
}

fn state_name(state: LoadProgressState) -> (r: &'static str)
    ensures
        r@ == state_word(state),
{
    match state {
        LoadProgressState::Idle => "idle",
        LoadProgressState::Loading => "loading",
        LoadProgressState::Done => "done",
    }
}

fn phase_name(phase: SceneLoadPhase) -> (r: &'static str)
    ensures
        r@ == phase_word(phase),
{
    match phase {
        SceneLoadPhase::Idle => "idle",
        SceneLoadPhase::Loading => "loading",
        SceneLoadPhase::Ready => "ready",
        SceneLoadPhase::Failed => "failed",
    }
}

/// The snapshot of a progress.
pub open spec fn snapshot_of(progress: ProgressModel, fraction: Scalar) -> SnapshotModel {
    SnapshotModel {
        state: state_word(progress.state),
        total_files: progress.total_files,
        loaded_files: progress.loaded_files,
        total_bytes: progress.total_bytes,
        loaded_bytes: progress.loaded_bytes,
        current_path: progress.current_path,
        elapsed_secs: progress.elapsed_secs,
        fraction,
    }
}

/// Equality of two snapshots, numbers compared as numbers.
pub open spec fn same_snapshot(a: SnapshotModel, b: SnapshotModel) -> bool {
    &&& a.state == b.state
    &&& a.total_files == b.total_files
    &&& a.loaded_files == b.loaded_files
    &&& a.total_bytes == b.total_bytes
    &&& a.loaded_bytes == b.loaded_bytes
    &&& a.current_path == b.current_path
    &&& a.elapsed_secs.equal(b.elapsed_secs)
    &&& a.fraction.equal(b.fraction)
}

fn same_option(a: &Option<String>, b: &Option<String>) -> (r: bool)
    ensures
        r == (option_text(*a) == option_text(*b)),
{
    match (a, b) {
        (Some(x), Some(y)) => same_text(x, y),
        (None, None) => true,
        _ => false,
    }
}

/// The path kept in a published snapshot, rewritten only where it differs: a
/// long load does not allocate a path a frame.
fn kept_path(kept: Option<String>, now: &Option<String>) -> (r: Option<String>)
    ensures
        option_text(r) == option_text(*now),
{
    let mut path = kept;
    match now {
        Some(text) => {
            update_progress_path(&mut path, Some(text.as_str()));
        },
        None => {
            update_progress_path(&mut path, None);
        },
    }
    path
}

/// Publish the progress to scripts, unless they already have it. Returns
/// whether there was something to publish.
pub fn publish_asset_progress_to_bridge(
    bridge: &mut Option<AssetProgressSnapshot>,
    progress: &AssetLoadProgress,
    fraction: Scalar,
) -> (r: bool)
    ensures
        r == !(*old(bridge) matches Some(s) && same_snapshot(
            s@,
            snapshot_of(progress@, fraction),
        )),
        r ==> (*final(bridge) matches Some(s) && s@ == snapshot_of(progress@, fraction)),
        !r ==> *final(bridge) == *old(bridge),
{
    let state = state_name(progress.state);
    let known: bool = match &*bridge {
        Some(s) => same_text(&s.state, state) && s.total_files == progress.total_files
            && s.loaded_files == progress.loaded_files && s.total_bytes == progress.total_bytes
            && s.loaded_bytes == progress.loaded_bytes && same_option(
            &s.current_path,
            &progress.current_path,
        ) && s.elapsed_secs.same(progress.elapsed_secs) && s.fraction.same(fraction),
        None => false,
    };
    if !known {
        let kept: Option<String> = match bridge {
            Some(s) => s.current_path.take(),
            None => None,
        };
        *bridge = Some(
            AssetProgressSnapshot {
                state: state.to_owned(),
                total_files: progress.total_files,
                loaded_files: progress.loaded_files,
                total_bytes: progress.total_bytes,
                loaded_bytes: progress.loaded_bytes,
                current_path: kept_path(kept, &progress.current_path),
                elapsed_secs: progress.elapsed_secs,
                fraction,
            },
        );
    }
    !known
}

/// What scripts see of a scene load.
pub struct SceneLoadSnapshot {
    pub phase: String,
    pub current_path: Option<String>,
    pub progress: Scalar,
}

/// What a scene-load snapshot holds.
pub struct SceneSnapshotModel {
    pub phase: Seq<char>,
    pub current_path: Option<Seq<char>>,
    pub progress: Scalar,
}

impl View for SceneLoadSnapshot {
    type V = SceneSnapshotModel;

    open spec fn view(&self) -> SceneSnapshotModel {
        SceneSnapshotModel {
            phase: self.phase@,
            current_path: option_text(self.current_path),
            progress: self.progress,
        }
    }
}

/// The snapshot of a load state.
pub open spec fn scene_snapshot_of(state: LoadModel) -> SceneSnapshotModel {
    SceneSnapshotModel {
        phase: phase_word(state.phase),
        current_path: state.current_path,
        progress: state.progress,
    }
}

/// Equality of two scene-load snapshots, numbers compared as numbers.
pub open spec fn same_scene_snapshot(a: SceneSnapshotModel, b: SceneSnapshotModel) -> bool {
    a.phase == b.phase && a.current_path == b.current_path && a.progress.equal(b.progress)
}

/// Publish a scene load to scripts, unless they already have it. Returns whether
/// there was something to publish.
pub fn publish_scene_load_to_bridge(bridge: &mut Option<SceneLoadSnapshot>, state: &SceneLoadState) -> (r:
    bool)
    ensures
        r == !(*old(bridge) matches Some(s) && same_scene_snapshot(
            s@,
            scene_snapshot_of(state@),
        )),
        r ==> (*final(bridge) matches Some(s) && s@ == scene_snapshot_of(state@)),
        !r ==> *final(bridge) == *old(bridge),
{
    let phase = phase_name(state.phase);
    let known: bool = match &*bridge {
        Some(s) => same_text(&s.phase, phase) && same_option(&s.current_path, &state.current_path)
            && s.progress.same(state.progress),
        None => false,
    };
    if !known {
        let kept: Option<String> = match bridge {
            Some(s) => s.current_path.take(),
            None => None,
        };
        *bridge = Some(
            SceneLoadSnapshot {
                phase: phase.to_owned(),
                current_path: kept_path(kept, &state.current_path),
                progress: state.progress,
            },
        );
    }
    !known
}

/// Publishing twice is publishing once, where the numbers are numbers.
pub proof fn published_is_known(progress: ProgressModel, fraction: Scalar, state: LoadModel)
    requires
        !progress.elapsed_secs.nan(),
        !fraction.nan(),
        !state.progress.nan(),
    ensures
        same_snapshot(snapshot_of(progress, fraction), snapshot_of(progress, fraction)),
        same_scene_snapshot(scene_snapshot_of(state), scene_snapshot_of(state)),
{
}

} // verus!
