//! What each answer of the file system means for a local run, and what stands
//! where in the end.
use crate::error::{SessionError, SyncError};
use crate::local::{
    content_path_of, local_step, settled, LocalEvent, LocalModel, LocalRun, LocalStage,
    LocalStageModel, LocalSyncStrategy,
};
use crate::local_laws::{
    copied_under, lemma_copy_recorded, lemma_local_progress, lemma_still_writing, local_history,
    LocalMoment,
};
use crate::paths::path_joined;
use crate::session::{DecisionModel, SyncDecision, SyncSession};
use crate::session_laws::well_ordered;
use crate::session_step_laws::known_unchanged;
use crate::text::slashes_replaced;
use vstd::prelude::*;

verus! {

/// A run is told by its position, its counts and its stage, and nothing of these
/// is hidden or made up.
pub proof fn law_runs_show_what_they_are(run: LocalRun)
    ensures
        run@.index == run.index,
        run@.ok_count == run.ok_count,
        run@.err_count == run.err_count,
        match run.stage {
            LocalStage::Probe { path } => run@.stage == (LocalStageModel::Probe { path: path@ }),
            LocalStage::Prepare => run@.stage == LocalStageModel::Prepare,
            LocalStage::Write { content_path, file_path } => run@.stage == (
            LocalStageModel::Write { content_path: content_path@, file_path: file_path@ }),
            LocalStage::Finished => run@.stage == LocalStageModel::Finished,
        },
{
}

/// What is decided about an asset is told by all that belongs to it.
pub proof fn law_decisions_show_what_they_are(decision: SyncDecision)
    ensures
        match decision {
            SyncDecision::Sync => decision@ == DecisionModel::Sync,
            SyncDecision::Skip => decision@ == DecisionModel::Skip,
            SyncDecision::CheckPath { path } => decision@ == (DecisionModel::CheckPath {
                path: path@,
            }),
        },
{
}

/// A run comes to the assets one after another and leaves none out. An asset
/// that is known to be copied, unchanged since, is looked for at its path, unless
/// all are to be copied; every other one is made ready.
pub proof fn law_runs_come_to_every_asset(
    session: SyncSession,
    i: int,
    ok_count: int,
    err_count: int,
)
    requires
        well_ordered(session),
        0 <= i <= session.assets.keys().len(),
    ensures
        ({
            let run = settled(session, i, ok_count, err_count);
            let ident = session.assets.keys()[i];
            let key = session.target.key@;
            let known = session.prev_state.assets@;
            let copy = known[ident].targets@[key].local_path;
            let kept = !session.force_sync && known_unchanged(
                known,
                ident,
                key,
                session.assets.values()[i].hash@,
            ) && copy is Some;
            &&& run.index == i
            &&& run.ok_count == ok_count
            &&& run.err_count == err_count
            &&& i == session.assets.keys().len() ==> run.stage is Finished
            &&& i < session.assets.keys().len() && kept ==> run.stage == (LocalStageModel::Probe {
                path: copy->0@,
            })
            &&& i < session.assets.keys().len() && !kept ==> run.stage is Prepare
        }),
{
}

/// A copy that is still there is left alone, and one that is gone is made again.
/// Looking changes nothing.
pub proof fn law_probes_decide(
    strategy: LocalSyncStrategy,
    run: LocalModel,
    before: SyncSession,
    exists: bool,
    next: LocalModel,
    after: SyncSession,
)
    requires
        well_ordered(before),
        run.valid(before),
        run.stage is Probe,
        local_step(strategy, run, before, LocalEvent::Probed(exists), next, after),
    ensures
        after == before,
        next.ok_count == run.ok_count,
        next.err_count == run.err_count,
        exists ==> next.index == run.index + 1,
        !exists ==> next.index == run.index && next.stage is Prepare,
{
    law_runs_come_to_every_asset(before, run.index + 1, run.ok_count, run.err_count);
}

/// An asset that could not be made ready, or whose copy could not be written, is
/// a failure: the very reason is noted down last, one more failure is counted,
/// nothing about the assets changes, and the run goes on with the next one.
pub proof fn law_failed_copies_are_noted(
    strategy: LocalSyncStrategy,
    run: LocalModel,
    before: SyncSession,
    event: LocalEvent,
    next: LocalModel,
    after: SyncSession,
)
    requires
        well_ordered(before),
        run.valid(before),
        local_step(strategy, run, before, event, next, after),
        match event {
            LocalEvent::Prepared { filename, contents } => run.stage is Prepare && contents is Err,
            LocalEvent::Written(written) => run.stage is Write && written is Err,
            LocalEvent::Probed(_) => false,
        },
    ensures
        after.assets == before.assets,
        after.errors@ == before.errors@.push(
            SessionError::Sync(
                match event {
                    LocalEvent::Prepared { filename, contents } => SyncError::Preprocess {
                        source: contents->Err_0,
                    },
                    _ => SyncError::Io { source: event->Written_0->Err_0 },
                },
            ),
        ),
        next.index == run.index + 1,
        next.ok_count == run.ok_count,
        next.err_count == run.err_count + 1,
{
    law_runs_come_to_every_asset(after, run.index + 1, run.ok_count, run.err_count + 1);
}

/// An asset that was made ready has the contents that it was made ready with,
/// and is to be written before anything else, whatever is known of it at its
/// targets. What is known of it does not change by that.
pub proof fn law_prepared_assets_are_written_next(
    strategy: LocalSyncStrategy,
    run: LocalModel,
    before: SyncSession,
    filename: String,
    contents: Vec<u8>,
    next: LocalModel,
    after: SyncSession,
    j: int,
)
    requires
        well_ordered(before),
        run.valid(before),
        run.stage is Prepare,
        local_step(
            strategy,
            run,
            before,
            LocalEvent::Prepared { filename, contents: Ok(contents) },
            next,
            after,
        ),
        0 <= j < before.assets.keys().len(),
    ensures
        next.stage is Write,
        ({
            let platform = before.config.platform;
            let base = path_joined(platform, ".runway"@, before.config.name@);
            &&& next.stage->Write_content_path == path_joined(platform, base, filename@)
            &&& next.stage->Write_file_path == path_joined(
                platform,
                strategy.local_path@,
                filename@,
            )
        }),
        next.index == run.index,
        next.ok_count == run.ok_count,
        next.err_count == run.err_count,
        after.errors == before.errors,
        after.assets.keys() == before.assets.keys(),
        after.assets.values()[run.index].contents == contents,
        after.assets.values()[j].ident == before.assets.values()[j].ident,
        after.assets.values()[j].path == before.assets.values()[j].path,
        after.assets.values()[j].hash == before.assets.values()[j].hash,
        after.assets.values()[j].targets == before.assets.values()[j].targets,
        j != run.index ==> after.assets.values()[j] == before.assets.values()[j],
{
}

/// In every local run, from when an asset was made ready until it is written, it
/// has the contents that it was made ready with: these are what the copy holds.
pub proof fn law_copies_hold_the_prepared_contents(
    strategy: LocalSyncStrategy,
    moments: Seq<LocalMoment>,
    events: Seq<LocalEvent>,
    p: int,
    m: int,
    filename: String,
    contents: Vec<u8>,
)
    requires
        local_history(strategy, moments, events),
        well_ordered(moments[0].session),
        0 <= p < events.len(),
        moments[p].run.stage is Prepare,
        events[p] == (LocalEvent::Prepared { filename, contents: Ok(contents) }),
        p < m < events.len(),
        moments[m].run.stage is Write,
        moments[m].run.index == moments[p].run.index,
    ensures
        moments[m].session.assets.values()[moments[p].run.index].contents == contents,
        moments[m].run == moments[p + 1].run,
{
    lemma_local_progress(strategy, moments, events, p);
    assert(local_step(
        strategy,
        moments[p].run,
        moments[p].session,
        events[p],
        moments[p + 1].run,
        moments[p + 1].session,
    ));
    lemma_still_writing(strategy, moments, events, p, m, m);
}

/// A copy that was written is known of: at the target of the run the asset has
/// its own hash, the path that was written to, and an id that leads Studio there.
/// What is known at other targets stays, and so do all other assets.
pub proof fn law_written_copies_are_known(
    strategy: LocalSyncStrategy,
    run: LocalModel,
    before: SyncSession,
    next: LocalModel,
    after: SyncSession,
    key: Seq<char>,
    j: int,
)
    requires
        well_ordered(before),
        run.valid(before),
        run.stage is Write,
        local_step(strategy, run, before, LocalEvent::Written(Ok(())), next, after),
        0 <= j < before.assets.keys().len(),
    ensures
        ({
            let i = run.index;
            let content_path = run.stage->Write_content_path;
            let old_asset = before.assets.values()[i];
            let new_asset = after.assets.values()[i];
            &&& next.index == i + 1
            &&& next.ok_count == run.ok_count + 1
            &&& next.err_count == run.err_count
            &&& after.errors == before.errors
            &&& after.assets.keys() == before.assets.keys()
            &&& j != i ==> after.assets.values()[j] == before.assets.values()[j]
            &&& new_asset.ident == old_asset.ident
            &&& new_asset.path == old_asset.path
            &&& new_asset.hash == old_asset.hash
            &&& new_asset.contents == old_asset.contents
            &&& key != before.target.key@ ==> {
                &&& new_asset.targets@.contains_key(key) <==> old_asset.targets@.contains_key(key)
                &&& new_asset.targets@.contains_key(key) ==> new_asset.targets@[key]
                    == old_asset.targets@[key]
            }
            &&& key == before.target.key@ ==> {
                let known = new_asset.targets@[key];
                let scheme = "rbxasset://"@;
                &&& new_asset.targets@.contains_key(key)
                &&& known.hash@ == old_asset.hash@
                &&& known.local_path is Some
                &&& known.local_path->0@ == run.stage->Write_file_path
                &&& known.id@.len() == scheme.len() + content_path.len()
                &&& known.id@.take(scheme.len() as int) == scheme
                &&& forall|n: int|
                    0 <= n < content_path.len() ==> #[trigger] known.id@[scheme.len() + n] == (
                    if content_path[n] == '\\' {
                        '/'
                    } else {
                        content_path[n]
                    })
            }
        }),
{
    law_runs_come_to_every_asset(after, run.index + 1, run.ok_count + 1, run.err_count);
    let i = run.index;
    if key == before.target.key@ {
        let scheme = "rbxasset://"@;
        let known = after.assets.values()[i].targets@[key];
        assert(known.id@.take(scheme.len() as int) =~= scheme);
    }
}

/// Whether an event answers what a run waits for.
pub open spec fn is_local_answer(run: LocalModel, event: LocalEvent) -> bool {
    match run.stage {
        LocalStageModel::Probe { .. } => event is Probed,
        LocalStageModel::Prepare => event is Prepared,
        LocalStageModel::Write { .. } => event is Written,
        LocalStageModel::Finished => false,
    }
}

/// What a run does not wait for changes nothing.
pub proof fn law_other_local_events_change_nothing(
    strategy: LocalSyncStrategy,
    run: LocalModel,
    before: SyncSession,
    event: LocalEvent,
    next: LocalModel,
    after: SyncSession,
)
    requires
        local_step(strategy, run, before, event, next, after),
        !is_local_answer(run, event),
    ensures
        after == before,
        next == run,
{
}

/// No event changes the project, the target, the earlier state or the force of a
/// session.
pub proof fn law_local_runs_keep_the_setup(
    strategy: LocalSyncStrategy,
    run: LocalModel,
    before: SyncSession,
    event: LocalEvent,
    next: LocalModel,
    after: SyncSession,
)
    requires
        local_step(strategy, run, before, event, next, after),
    ensures
        after.config == before.config,
        after.target == before.target,
        after.prev_state == before.prev_state,
        after.force_sync == before.force_sync,
{
}

/// Where a copy stands, in so many words: a run that copies an asset under
/// `filename` ends with the asset known at the file `filename` in the run's
/// folder, and at `.runway`, the project's name and `filename` below Studio's
/// content folder, each behind a slash.
pub proof fn law_copies_stand_where_studio_looks(
    strategy: LocalSyncStrategy,
    moments: Seq<LocalMoment>,
    events: Seq<LocalEvent>,
    p: int,
    w: int,
    filename: Seq<char>,
)
    requires
        local_history(strategy, moments, events),
        well_ordered(moments[0].session),
        copied_under(moments, events, p, w, filename),
        !moments[0].session.config.platform.backslash_separates(),
        !filename.contains('\\'),
        !moments[0].session.config.name@.contains('\\'),
        filename.len() > 0 && filename[0] != '/',
        ({
            let name = moments[0].session.config.name@;
            name.len() > 0 && name[0] != '/' && name.last() != '/'
        }),
        strategy.local_path@.len() > 0 && strategy.local_path@.last() != '/',
    ensures
        ({
            let start = moments[0].session;
            let asset = moments.last().session.assets.values()[moments[p].run.index];
            let known = asset.targets@[start.target.key@];
            &&& asset.targets@.contains_key(start.target.key@)
            &&& known.hash@ == asset.hash@
            &&& known.id@ == "rbxasset://.runway/"@ + start.config.name@ + "/"@ + filename
            &&& known.local_path is Some
            &&& known.local_path->0@ == strategy.local_path@ + "/"@ + filename
        }),
{
    lemma_copy_recorded(strategy, moments, events, p, w, filename);
    let start = moments[0].session;
    let name = start.config.name@;
    let asset = moments.last().session.assets.values()[moments[p].run.index];
    let known = asset.targets@[start.target.key@];
    reveal_strlit("/");
    reveal_strlit(".runway");
    reveal_strlit("rbxasset://");
    reveal_strlit("rbxasset://.runway/");
    let base = ".runway"@.push('/') + name;
    assert(base.last() == name.last());
    let content_path = base.push('/') + filename;
    assert(content_path_of(start.config.platform, name, filename) == content_path);
    assert forall|n: int| 0 <= n < content_path.len() implies content_path[n] != '\\' by {
        if 8 <= n < 8 + name.len() {
            assert(content_path[n] == name[n - 8]);
            assert(name.contains(name[n - 8]));
        } else if n > 8 + name.len() {
            let m = n - 9 - name.len();
            assert(content_path[n] == filename[m]);
            assert(filename.contains(filename[m]));
        }
    }
    assert(slashes_replaced(content_path) =~= content_path);
    assert("rbxasset://"@ + content_path =~= "rbxasset://.runway/"@ + name + "/"@ + filename);
    assert(strategy.local_path@.push('/') + filename =~= strategy.local_path@ + "/"@ + filename);
}

} // verus!
