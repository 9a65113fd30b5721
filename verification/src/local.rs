//! Syncing into Studio's content folder on this machine.
//!
//! A run goes through the assets in the order of their identifiers and stops
//! wherever the file system has to be asked or changed. Each answer takes it
//! on to the next such place.
use crate::error::{PreprocessError, SessionError, SyncError};
use crate::paths::{join_path, path_joined, Platform};
use crate::session::{
    asset_decision, contents_stored, decide, lemma_still_valid, only_asset_changed,
    only_error_added, DecisionModel, SyncDecision, SyncSession,
};
use crate::state::TargetState;
use crate::text::{joined, replace_slashes, slashes_replaced};
use vstd::prelude::*;

verus! {

/// Syncs assets by copying them to a folder that Studio finds.
pub struct LocalSyncStrategy {
    /// The folder that files are written to.
    pub local_path: String,
}

/// What happened during a local run.
pub enum LocalEvent {
    /// Whether there is a file at the path that was asked for.
    Probed(bool),
    /// The asset was made ready, or could not be. `filename` is the name of
    /// its next copy, one that Studio has not seen yet.
    Prepared { filename: String, contents: Result<Vec<u8>, PreprocessError> },
    /// The copy was written, or could not be.
    Written(Result<(), std::io::Error>),
}

/// Where a local run stands with the asset that it has come to.
pub enum LocalStage {
    /// It matters whether there is a file at `path`.
    Probe { path: String },
    /// The asset has to be made ready.
    Prepare,
    /// The asset's contents go to `file_path`.
    Write { content_path: String, file_path: String },
    /// There is nothing left to do.
    Finished,
}

/// A local run.
pub struct LocalRun {
    /// The position of the asset that the run has come to.
    pub index: usize,
    pub ok_count: usize,
    pub err_count: usize,
    pub stage: LocalStage,
}

/// Where a local run stands with an asset, as a value.
pub enum LocalStageModel {
    Probe { path: Seq<char> },
    Prepare,
    Write { content_path: Seq<char>, file_path: Seq<char> },
    Finished,
}

/// A local run, as a value.
pub struct LocalModel {
    pub index: int,
    pub ok_count: int,
    pub err_count: int,
    pub stage: LocalStageModel,
}

impl View for LocalStage {
    type V = LocalStageModel;

    open spec fn view(&self) -> LocalStageModel {
        match *self {
            LocalStage::Probe { path } => LocalStageModel::Probe { path: path@ },
            LocalStage::Prepare => LocalStageModel::Prepare,
            LocalStage::Write { content_path, file_path } => LocalStageModel::Write {
                content_path: content_path@,
                file_path: file_path@,
            },
            LocalStage::Finished => LocalStageModel::Finished,
        }
    }
}

impl View for LocalRun {
    type V = LocalModel;

    open spec fn view(&self) -> LocalModel {
        LocalModel {
            index: self.index as int,
            ok_count: self.ok_count as int,
            err_count: self.err_count as int,
            stage: self.stage@,
        }
    }
}

/// What a local sync decides about the asset at position `i`.
pub open spec fn local_decision(session: SyncSession, i: int) -> DecisionModel {
    asset_decision(
        session.force_sync,
        session.assets,
        session.prev_state,
        session.target,
        true,
        i,
    )
}

/// A run at the first asset from position `i` on that something has to be done
/// about.
pub open spec fn settled(session: SyncSession, i: int, ok_count: int, err_count: int) -> LocalModel
    decreases session.assets.keys().len() - i,
{
    if i >= session.assets.keys().len() {
        LocalModel { index: i, ok_count, err_count, stage: LocalStageModel::Finished }
    } else {
        match local_decision(session, i) {
            DecisionModel::Sync => LocalModel {
                index: i,
                ok_count,
                err_count,
                stage: LocalStageModel::Prepare,
            },
            DecisionModel::CheckPath { path } => LocalModel {
                index: i,
                ok_count,
                err_count,
                stage: LocalStageModel::Probe { path },
            },
            DecisionModel::Skip => settled(session, i + 1, ok_count, err_count),
        }
    }
}

/// Where the copies of a project stand below Studio's content folder.
pub open spec fn content_base(platform: Platform, project: Seq<char>) -> Seq<char> {
    path_joined(platform, ".runway"@, project)
}

/// Where a file stands below Studio's content folder.
pub open spec fn content_path_of(
    platform: Platform,
    project: Seq<char>,
    filename: Seq<char>,
) -> Seq<char> {
    path_joined(platform, content_base(platform, project), filename)
}

/// Whether `known` says of an asset with the hash `hash` that its copy is at
/// `file_path` and that Studio finds it at `content_path`.
pub open spec fn is_local_target(
    known: TargetState,
    hash: Seq<char>,
    content_path: Seq<char>,
    file_path: Seq<char>,
) -> bool {
    &&& known.hash@ == hash
    &&& known.id@ == "rbxasset://"@ + slashes_replaced(content_path)
    &&& known.local_path matches Some(path)
    &&& path@ == file_path
}

/// Whether an event takes a run and its session to `next` and `after`. An
/// event that does not belong to the stage changes nothing.
pub open spec fn local_step(
    strategy: LocalSyncStrategy,
    run: LocalModel,
    before: SyncSession,
    event: LocalEvent,
    next: LocalModel,
    after: SyncSession,
) -> bool {
    let i = run.index;
    match (run.stage, event) {
        (LocalStageModel::Probe { path }, LocalEvent::Probed(exists)) => {
            &&& after == before
            &&& next == if exists {
                settled(before, i + 1, run.ok_count, run.err_count)
            } else {
                LocalModel { stage: LocalStageModel::Prepare, ..run }
            }
        },
        (
            LocalStageModel::Prepare,
            LocalEvent::Prepared { filename, contents: Ok(contents) },
        ) => {
            &&& contents_stored(before, after, i, contents)
            &&& next == (LocalModel {
                stage: LocalStageModel::Write {
                    content_path: content_path_of(
                        before.config.platform,
                        before.config.name@,
                        filename@,
                    ),
                    file_path: path_joined(
                        before.config.platform,
                        strategy.local_path@,
                        filename@,
                    ),
                },
                ..run
            })
        },
        (
            LocalStageModel::Prepare,
            LocalEvent::Prepared { filename, contents: Err(source) },
        ) => {
            &&& only_error_added(before, after, SyncError::Preprocess { source })
            &&& next == settled(after, i + 1, run.ok_count, run.err_count + 1)
        },
        (
            LocalStageModel::Write { content_path, file_path },
            LocalEvent::Written(Ok(_)),
        ) => {
            let old_targets = before.assets.values()[i].targets@;
            let new_targets = after.assets.values()[i].targets@;
            let key = before.target.key@;
            &&& only_asset_changed(before, after, i)
            &&& after.errors == before.errors
            &&& after.assets.values()[i].contents == before.assets.values()[i].contents
            &&& new_targets == old_targets.insert(key, new_targets[key])
            &&& is_local_target(
                new_targets[key],
                before.assets.values()[i].hash@,
                content_path,
                file_path,
            )
            &&& next == settled(after, i + 1, run.ok_count + 1, run.err_count)
        },
        (
            LocalStageModel::Write { content_path, file_path },
            LocalEvent::Written(Err(source)),
        ) => {
            &&& only_error_added(before, after, SyncError::Io { source })
            &&& next == settled(after, i + 1, run.ok_count, run.err_count + 1)
        },
        _ => after == before && next == run,
    }
}

impl LocalModel {
    /// Whether the run is somewhere among the assets of the session, and has
    /// counted no more than it has passed.
    pub open spec fn valid(self, session: SyncSession) -> bool {
        &&& 0 <= self.ok_count
        &&& 0 <= self.err_count
        &&& self.ok_count + self.err_count <= self.index <= session.assets.keys().len()
        &&& session.assets.values().len() == session.assets.keys().len()
        &&& self.index == session.assets.keys().len() <==> self.stage is Finished
    }
}

proof fn lemma_settled_valid(session: SyncSession, i: int, ok_count: int, err_count: int)
    requires
        0 <= ok_count,
        0 <= err_count,
        ok_count + err_count <= i <= session.assets.keys().len(),
        session.assets.values().len() == session.assets.keys().len(),
    ensures
        settled(session, i, ok_count, err_count).valid(session),
        settled(session, i, ok_count, err_count).index >= i,
        settled(session, i, ok_count, err_count).ok_count == ok_count,
        settled(session, i, ok_count, err_count).err_count == err_count,
    decreases session.assets.keys().len() - i,
{
    if i < session.assets.keys().len() && local_decision(session, i) is Skip {
        lemma_settled_valid(session, i + 1, ok_count, err_count);
    }
}

impl LocalRun {
    /// A run that goes on from position `from`.
    fn settle(session: &SyncSession, from: usize, ok_count: usize, err_count: usize) -> (r: Self)
        requires
            ok_count + err_count <= from <= session.assets.keys().len(),
        ensures
            r@ == settled(*session, from as int, ok_count as int, err_count as int),
            r@.valid(*session),
    {
        let count: usize = session.assets.len();
        let mut i: usize = from;
        proof {
            lemma_settled_valid(*session, from as int, ok_count as int, err_count as int);
        }
        while i < count
            invariant
                count == session.assets.keys().len(),
                count == session.assets.values().len(),
                from <= i <= count,
                settled(*session, from as int, ok_count as int, err_count as int) == settled(
                    *session,
                    i as int,
                    ok_count as int,
                    err_count as int,
                ),
                settled(*session, from as int, ok_count as int, err_count as int).valid(*session),
            decreases count - i,
        {
            match decide(
                session.force_sync,
                &session.prev_state,
                session.assets.key_at(i).as_str(),
                session.target.key.as_str(),
                &session.assets.value_at(i).hash,
                true,
            ) {
                SyncDecision::Sync => {
                    return LocalRun { index: i, ok_count, err_count, stage: LocalStage::Prepare };
                },
                SyncDecision::CheckPath { path } => {
                    return LocalRun {
                        index: i,
                        ok_count,
                        err_count,
                        stage: LocalStage::Probe { path },
                    };
                },
                SyncDecision::Skip => {},
            }
            i = i + 1;
        }
        LocalRun { index: i, ok_count, err_count, stage: LocalStage::Finished }
    }
}

impl LocalSyncStrategy {
    /// Syncs to the folder `local_path`.
    pub fn new(local_path: String) -> (r: Self)
        ensures
            r.local_path == local_path,
    {
        LocalSyncStrategy { local_path }
    }

    /// Begins a run.
    pub fn start(&self, session: &SyncSession) -> (r: LocalRun)
        ensures
            r@ == settled(*session, 0, 0, 0),
            r@.valid(*session),
    {
        LocalRun::settle(session, 0, 0, 0)
    }

    /// Takes a run on after an event.
    pub fn perform_sync(
        &self,
        session: &mut SyncSession,
        run: LocalRun,
        event: LocalEvent,
    ) -> (r: LocalRun)
        requires
            run@.valid(*old(session)),
        ensures
            local_step(*self, run@, *old(session), event, r@, *final(session)),
            r@.valid(*final(session)),
            old(session).valid() ==> final(session).valid(),
    {
        let _count: usize = session.assets.len();
        let LocalRun { index, ok_count, err_count, stage } = run;
        match (stage, event) {
            (LocalStage::Probe { path }, LocalEvent::Probed(exists)) => {
                if exists {
                    LocalRun::settle(session, index + 1, ok_count, err_count)
                } else {
                    LocalRun { index, ok_count, err_count, stage: LocalStage::Prepare }
                }
            },
            (
                LocalStage::Prepare,
                LocalEvent::Prepared { filename, contents: Ok(contents) },
            ) => {
                let platform = session.config.platform;
                let base = join_path(platform, ".runway", session.config.name.as_str());
                let content_path = join_path(platform, base.as_str(), filename.as_str());
                let file_path = join_path(platform, self.local_path.as_str(), filename.as_str());
                session.store_prepared(index, contents);
                LocalRun {
                    index,
                    ok_count,
                    err_count,
                    stage: LocalStage::Write { content_path, file_path },
                }
            },
            (
                LocalStage::Prepare,
                LocalEvent::Prepared { filename, contents: Err(source) },
            ) => {
                session.raise_error(SessionError::Sync(SyncError::Preprocess { source }));
                LocalRun::settle(session, index + 1, ok_count, err_count + 1)
            },
            (LocalStage::Write { content_path, file_path }, LocalEvent::Written(Ok(_))) => {
                let key = session.target.key.clone();
                let slashed = replace_slashes(content_path.as_str());
                let id = joined("rbxasset://", slashed.as_str());
                let asset = session.assets.value_mut(index);
                let hash = asset.hash.clone();
                asset.targets.insert(key, TargetState { hash, id, local_path: Some(file_path) });
                proof {
                    lemma_still_valid(*old(session), *session, index as int);
                }
                LocalRun::settle(session, index + 1, ok_count + 1, err_count)
            },
            (LocalStage::Write { content_path, file_path }, LocalEvent::Written(Err(source))) => {
                session.raise_error(SessionError::Sync(SyncError::Io { source }));
                LocalRun::settle(session, index + 1, ok_count, err_count + 1)
            },
            (stage, _) => LocalRun { index, ok_count, err_count, stage },
        }
    }
}

} // verus!
