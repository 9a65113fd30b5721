//! What holds of every local run, whatever the file system answers.
use crate::local::{
    content_base, content_path_of, is_local_target, local_decision, local_step, settled,
    LocalEvent, LocalModel, LocalStageModel, LocalSyncStrategy,
};
use crate::paths::{lemma_name_at_the_end, path_joined, stays_below, Platform};
use crate::session::{asset_decision, known_targets, records, same_file, DecisionModel, SyncSession};
use crate::session_laws::{
    law_synced_assets_are_left_alone, repeats, untouched, up_to_date, well_ordered,
};
use crate::state::State;
use crate::text::slashes_replaced;
use vstd::prelude::*;

verus! {

/// A local run and its session at one moment.
pub struct LocalMoment {
    pub run: LocalModel,
    pub session: SyncSession,
}

/// Whether the moments are those of one run from its start on, with an event
/// between each two.
pub open spec fn local_history(
    strategy: LocalSyncStrategy,
    moments: Seq<LocalMoment>,
    events: Seq<LocalEvent>,
) -> bool {
    &&& moments.len() == events.len() + 1
    &&& moments[0].run == settled(moments[0].session, 0, 0, 0)
    &&& forall|k: int|
        0 <= k < events.len() ==> local_step(
            strategy,
            moments[k].run,
            moments[k].session,
            #[trigger] events[k],
            moments[k + 1].run,
            moments[k + 1].session,
        )
}

/// Whether the asset at position `j` is copied and the copy is known of, with
/// the contents that the asset has.
pub open spec fn copied(session: SyncSession, j: int) -> bool {
    let asset = session.assets.values()[j];
    &&& up_to_date(asset, session.target)
    &&& asset.targets@[session.target.key@].local_path is Some
}

/// What is true of the asset at position `j` at each moment of a run, compared
/// with its start.
pub open spec fn asset_progress(start: SyncSession, moment: LocalMoment, j: int) -> bool {
    let asset = moment.session.assets.values()[j];
    let old_asset = start.assets.values()[j];
    let run = moment.run;
    &&& same_file(asset, old_asset)
    &&& forall|key: Seq<char>|
        key != start.target.key@ ==> {
            &&& asset.targets@.contains_key(key) == #[trigger] old_asset.targets@.contains_key(key)
            &&& asset.targets@.contains_key(key) ==> asset.targets@[key] == old_asset.targets@[key]
        }
    &&& run.index <= j ==> asset.targets@ == old_asset.targets@
    &&& untouched(start) && j < run.index ==> copied(moment.session, j) || (asset.targets@
        == old_asset.targets@ && run.err_count > 0)
}

/// What is true of a run at each moment, compared with its start.
pub open spec fn local_progress(start: SyncSession, moment: LocalMoment) -> bool {
    let now = moment.session;
    let run = moment.run;
    let count = start.assets.keys().len();
    &&& now.same_setup(start)
    &&& now.assets.keys() == start.assets.keys()
    &&& now.assets.values().len() == count
    &&& now.errors@.len() == start.errors@.len() + run.err_count
    &&& now.errors@.take(start.errors@.len() as int) == start.errors@
    &&& run.valid(now)
    &&& run.stage matches LocalStageModel::Probe { path } ==> local_decision(start, run.index) == (
    DecisionModel::CheckPath { path })
    &&& forall|j: int| 0 <= j < count ==> #[trigger] asset_progress(start, moment, j)
}

/// With a last known path in play no asset is skipped unseen, so a run settles
/// at the very position it is sent to.
proof fn lemma_settles_at(session: SyncSession, i: int, ok_count: int, err_count: int)
    requires
        0 <= i <= session.assets.keys().len(),
    ensures
        settled(session, i, ok_count, err_count).index == i,
        settled(session, i, ok_count, err_count).ok_count == ok_count,
        settled(session, i, ok_count, err_count).err_count == err_count,
        settled(session, i, ok_count, err_count).stage is Finished <==> i
            == session.assets.keys().len(),
        settled(session, i, ok_count, err_count).stage matches LocalStageModel::Probe { path }
            ==> i < session.assets.keys().len() && local_decision(session, i) == (
        DecisionModel::CheckPath { path }),
        !(settled(session, i, ok_count, err_count).stage is Write),
        settled(session, i, ok_count, err_count).stage is Prepare ==> local_decision(
            session,
            i,
        ) is Sync,
{
    if i < session.assets.keys().len() {
        assert(!(local_decision(session, i) is Skip));
    }
}

proof fn lemma_local_progress_starts(start: SyncSession)
    requires
        well_ordered(start),
    ensures
        local_progress(
            start,
            LocalMoment { run: settled(start, 0, 0, 0), session: start },
        ),
{
    lemma_settles_at(start, 0, 0, 0);
    assert(start.errors@.take(start.errors@.len() as int) =~= start.errors@);
}

#[verifier::spinoff_prover]
proof fn lemma_local_progress_goes_on(
    strategy: LocalSyncStrategy,
    start: SyncSession,
    before: LocalMoment,
    event: LocalEvent,
    after: LocalMoment,
)
    requires
        well_ordered(start),
        local_progress(start, before),
        local_step(strategy, before.run, before.session, event, after.run, after.session),
    ensures
        local_progress(start, after),
{
    let i = before.run.index;
    let old_session = before.session;
    let now = after.session;
    if before.run.stage is Finished {
        assert(now == old_session && after.run == before.run);
    } else {
        let next = i + 1;
        let noted = start.errors@.len() as int;
        assert(asset_progress(start, before, i));
        assert(now.errors@.take(noted) =~= old_session.errors@.take(noted));
        lemma_settles_at(now, next, before.run.ok_count, before.run.err_count);
        lemma_settles_at(now, next, before.run.ok_count + 1, before.run.err_count);
        lemma_settles_at(now, next, before.run.ok_count, before.run.err_count + 1);
        assert forall|j: int| 0 <= j < start.assets.keys().len() implies #[trigger] asset_progress(
            start,
            after,
            j,
        ) by {
            assert(asset_progress(start, before, j));
            if untouched(start) {
                assert(start.assets.values()[j].targets@ == known_targets(
                    start.prev_state.assets@,
                    start.assets.keys()[j],
                ));
            }
        }
        if next < start.assets.keys().len() {
            assert(asset_progress(start, after, next));
        }
    }
}

/// A run has made its progress at every moment.
pub proof fn lemma_local_progress(
    strategy: LocalSyncStrategy,
    moments: Seq<LocalMoment>,
    events: Seq<LocalEvent>,
    k: int,
)
    requires
        local_history(strategy, moments, events),
        well_ordered(moments[0].session),
        0 <= k < moments.len(),
    ensures
        local_progress(moments[0].session, moments[k]),
    decreases k,
{
    if k == 0 {
        lemma_local_progress_starts(moments[0].session);
    } else {
        lemma_local_progress(strategy, moments, events, k - 1);
        lemma_local_progress_goes_on(
            strategy,
            moments[0].session,
            moments[k - 1],
            events[k - 1],
            moments[k],
        );
    }
}

/// Every failed asset of a local run comes with an error, and no error comes
/// without one. Errors that were noted before stay in front. The run never
/// counts more assets than there are.
pub proof fn law_local_failures_are_noted(
    strategy: LocalSyncStrategy,
    moments: Seq<LocalMoment>,
    events: Seq<LocalEvent>,
)
    requires
        local_history(strategy, moments, events),
        well_ordered(moments[0].session),
    ensures
        ({
            let run = moments.last().run;
            &&& moments.last().session.errors@.len() == moments[0].session.errors@.len()
                + run.err_count
            &&& moments.last().session.errors@.take(moments[0].session.errors@.len() as int)
                == moments[0].session.errors@
            &&& run.ok_count + run.err_count <= moments[0].session.assets.keys().len()
        }),
{
    lemma_local_progress(strategy, moments, events, moments.len() - 1);
}

/// Whether `path_exists` says of each asset whose last known path was looked at
/// what came of that.
pub open spec fn probes_answered(
    moments: Seq<LocalMoment>,
    events: Seq<LocalEvent>,
    path_exists: Seq<bool>,
) -> bool {
    forall|k: int|
        0 <= k < events.len() && moments[k].run.stage is Probe ==> (
        #[trigger] events[k] matches LocalEvent::Probed(found) ==> found
            == path_exists[moments[k].run.index])
}

/// Whether the asset at position `j` has to be copied.
pub open spec fn selected(start: SyncSession, path_exists: Seq<bool>, j: int) -> bool {
    local_decision(start, j).needs_sync(path_exists[j])
}

/// How many of the first `n` assets have to be copied.
pub open spec fn selected_count(start: SyncSession, path_exists: Seq<bool>, n: int) -> int
    decreases n,
{
    if n <= 0 {
        0
    } else {
        selected_count(start, path_exists, n - 1) + if selected(start, path_exists, n - 1) {
            1int
        } else {
            0
        }
    }
}

proof fn lemma_counts_selected(
    strategy: LocalSyncStrategy,
    moments: Seq<LocalMoment>,
    events: Seq<LocalEvent>,
    path_exists: Seq<bool>,
    k: int,
)
    requires
        local_history(strategy, moments, events),
        well_ordered(moments[0].session),
        probes_answered(moments, events, path_exists),
        0 <= k < moments.len(),
    ensures
        ({
            let start = moments[0].session;
            let run = moments[k].run;
            &&& run.ok_count + run.err_count == selected_count(start, path_exists, run.index)
            &&& run.stage is Prepare || run.stage is Write ==> selected(
                start,
                path_exists,
                run.index,
            )
        }),
    decreases k,
{
    let start = moments[0].session;
    lemma_local_progress(strategy, moments, events, k);
    if k == 0 {
        lemma_settles_at(start, 0, 0, 0);
    } else {
        let n = k - 1;
        let before = moments[n].run;
        let session = moments[k].session;
        lemma_counts_selected(strategy, moments, events, path_exists, n);
        lemma_local_progress(strategy, moments, events, n);
        assert(local_step(
            strategy,
            before,
            moments[n].session,
            events[n],
            moments[k].run,
            session,
        ));
        if !(before.stage is Finished) {
            let next = before.index + 1;
            lemma_settles_at(session, next, before.ok_count, before.err_count);
            lemma_settles_at(session, next, before.ok_count + 1, before.err_count);
            lemma_settles_at(session, next, before.ok_count, before.err_count + 1);
            if next < start.assets.keys().len() {
                assert(asset_progress(start, moments[k], next));
                assert(local_decision(session, next) == local_decision(start, next));
            }
        }
    }
}

proof fn lemma_selected_count(
    start: SyncSession,
    path_exists: Seq<bool>,
    chosen: Seq<usize>,
    n: int,
)
    requires
        0 <= n <= usize::MAX,
        forall|a: int, b: int| 0 <= a < b < chosen.len() ==> chosen[a] < chosen[b],
        forall|i: usize|
            #![trigger chosen.contains(i)]
            chosen.contains(i) <==> i < n && selected(start, path_exists, i as int),
    ensures
        chosen.len() == selected_count(start, path_exists, n),
    decreases n,
{
    if n == 0 {
        if chosen.len() > 0 {
            assert(chosen.contains(chosen[0]));
        }
    } else {
        let last = (n - 1) as usize;
        if selected(start, path_exists, n - 1) {
            assert(chosen.contains(last));
            let at = chosen.index_of(last);
            let end = chosen.len() - 1;
            assert(chosen.contains(chosen[end]));
            assert(at == end);
            let front = chosen.drop_last();
            assert forall|i: usize|
                #![trigger front.contains(i)]
                front.contains(i) <==> i < n - 1 && selected(start, path_exists, i as int) by {
                if front.contains(i) {
                    let a = front.index_of(i);
                    assert(chosen[a] == i);
                    assert(chosen.contains(i));
                }
                if i < n - 1 && selected(start, path_exists, i as int) {
                    assert(chosen.contains(i));
                    let a = chosen.index_of(i);
                    assert(front[a] == i);
                }
            }
            lemma_selected_count(start, path_exists, front, n - 1);
        } else {
            assert forall|i: usize|
                #![trigger chosen.contains(i)]
                chosen.contains(i) <==> i < n - 1 && selected(start, path_exists, i as int) by {}
            lemma_selected_count(start, path_exists, chosen, n - 1);
        }
    }
}

/// A local run that has come to its end has counted each asset that has to be
/// copied, as copied or as failed, and no others: as many as are picked out when
/// the same is known of the last known paths.
pub proof fn law_local_runs_count_what_needs_a_sync(
    strategy: LocalSyncStrategy,
    moments: Seq<LocalMoment>,
    events: Seq<LocalEvent>,
    path_exists: Seq<bool>,
    chosen: Seq<usize>,
)
    requires
        local_history(strategy, moments, events),
        well_ordered(moments[0].session),
        moments[0].session.assets.keys().len() <= usize::MAX,
        moments.last().run.stage is Finished,
        probes_answered(moments, events, path_exists),
        forall|a: int, b: int| 0 <= a < b < chosen.len() ==> chosen[a] < chosen[b],
        forall|i: usize|
            #![trigger chosen.contains(i)]
            chosen.contains(i) <==> i < moments[0].session.assets.keys().len() && asset_decision(
                moments[0].session.force_sync,
                moments[0].session.assets,
                moments[0].session.prev_state,
                moments[0].session.target,
                true,
                i as int,
            ).needs_sync(path_exists[i as int]),
    ensures
        moments.last().run.ok_count + moments.last().run.err_count == chosen.len(),
{
    let start = moments[0].session;
    let last = moments.len() - 1;
    lemma_local_progress(strategy, moments, events, last);
    lemma_counts_selected(strategy, moments, events, path_exists, last);
    assert forall|i: usize|
        #![trigger chosen.contains(i)]
        chosen.contains(i) <==> i < start.assets.keys().len() && selected(
            start,
            path_exists,
            i as int,
        ) by {}
    lemma_selected_count(start, path_exists, chosen, start.assets.keys().len() as int);
}

/// A local run keeps to its own target: it adds and drops no assets, and what
/// stands at other targets stays as it is.
pub proof fn law_local_runs_keep_to_their_target(
    strategy: LocalSyncStrategy,
    moments: Seq<LocalMoment>,
    events: Seq<LocalEvent>,
    j: int,
    key: Seq<char>,
)
    requires
        local_history(strategy, moments, events),
        well_ordered(moments[0].session),
        0 <= j < moments[0].session.assets.keys().len(),
        key != moments[0].session.target.key@,
    ensures
        ({
            let start = moments[0].session;
            let end = moments.last().session;
            let before = start.assets.values()[j].targets@;
            let after = end.assets.values()[j].targets@;
            &&& end.assets.keys() == start.assets.keys()
            &&& same_file(end.assets.values()[j], start.assets.values()[j])
            &&& after.contains_key(key) == before.contains_key(key)
            &&& after.contains_key(key) ==> after[key] == before[key]
        }),
{
    lemma_local_progress(strategy, moments, events, moments.len() - 1);
    let asset = moments.last().session.assets.values()[j];
    assert(asset_progress(moments[0].session, moments.last(), j));
    assert(moments[0].session.assets.values()[j].targets@.contains_key(key)
        == asset.targets@.contains_key(key));
}

/// A local run that has come to its end without a failure leaves every asset
/// copied, with the contents that it has.
pub proof fn law_clean_local_runs_are_complete(
    strategy: LocalSyncStrategy,
    moments: Seq<LocalMoment>,
    events: Seq<LocalEvent>,
    j: int,
)
    requires
        local_history(strategy, moments, events),
        well_ordered(moments[0].session),
        untouched(moments[0].session),
        moments.last().run.stage is Finished,
        moments.last().run.err_count == 0,
        0 <= j < moments[0].session.assets.keys().len(),
    ensures
        copied(moments.last().session, j),
{
    lemma_local_progress(strategy, moments, events, moments.len() - 1);
    assert(asset_progress(moments[0].session, moments.last(), j));
}

/// Syncing the same assets once more only asks whether the copies are still
/// there.
pub proof fn law_second_sync_only_looks_for_copies(
    strategy: LocalSyncStrategy,
    moments: Seq<LocalMoment>,
    events: Seq<LocalEvent>,
    state: State,
    next: SyncSession,
    j: int,
)
    requires
        local_history(strategy, moments, events),
        well_ordered(moments[0].session),
        untouched(moments[0].session),
        moments.last().run.stage is Finished,
        moments.last().run.err_count == 0,
        records(state.assets@, moments.last().session.assets@),
        repeats(next, state, moments.last().session),
        !next.force_sync,
        0 <= j < next.assets.keys().len(),
    ensures
        ({
            let end = moments.last().session;
            let known = end.assets.values()[j].targets@[end.target.key@];
            known.local_path matches Some(path) && local_decision(next, j) == (
            DecisionModel::CheckPath { path: path@ })
        }),
{
    let end = moments.last().session;
    lemma_local_progress(strategy, moments, events, moments.len() - 1);
    law_clean_local_runs_are_complete(strategy, moments, events, j);
    law_synced_assets_are_left_alone(end, state, j);
    assert(next.assets.values()[j].hash@ == end.assets.values()[j].hash@);
}

/// Whether an event is the kind of answer that a run is waiting for.
pub open spec fn answers(event: LocalEvent, run: LocalModel) -> bool {
    match run.stage {
        LocalStageModel::Probe { .. } => event is Probed,
        LocalStageModel::Prepare => event is Prepared,
        LocalStageModel::Write { .. } => event is Written,
        LocalStageModel::Finished => false,
    }
}

/// How far a run has come.
pub open spec fn distance(run: LocalModel) -> int {
    3 * run.index + match run.stage {
        LocalStageModel::Probe { .. } => 0int,
        LocalStageModel::Prepare => 1,
        LocalStageModel::Write { .. } => 2,
        LocalStageModel::Finished => 0,
    }
}

/// A local run comes to an end: each answer that it waits for takes it
/// further, and there are at most three of these for each asset.
pub proof fn law_local_runs_end(
    strategy: LocalSyncStrategy,
    moments: Seq<LocalMoment>,
    events: Seq<LocalEvent>,
)
    requires
        local_history(strategy, moments, events),
        well_ordered(moments[0].session),
        forall|k: int| 0 <= k < events.len() ==> answers(#[trigger] events[k], moments[k].run),
    ensures
        events.len() <= 3 * moments[0].session.assets.keys().len(),
{
    lemma_distance(strategy, moments, events, events.len() as int);
    lemma_local_progress(strategy, moments, events, events.len() as int);
}

proof fn lemma_distance(
    strategy: LocalSyncStrategy,
    moments: Seq<LocalMoment>,
    events: Seq<LocalEvent>,
    k: int,
)
    requires
        local_history(strategy, moments, events),
        well_ordered(moments[0].session),
        forall|n: int| 0 <= n < events.len() ==> answers(#[trigger] events[n], moments[n].run),
        0 <= k < moments.len(),
    ensures
        distance(moments[k].run) >= k,
    decreases k,
{
    lemma_local_progress(strategy, moments, events, k);
    if k > 0 {
        lemma_distance(strategy, moments, events, k - 1);
        lemma_local_progress(strategy, moments, events, k - 1);
        let before = moments[k - 1].run;
        let session = moments[k].session;
        assert(answers(events[k - 1], before));
        lemma_settles_at(session, before.index + 1, before.ok_count, before.err_count);
        lemma_settles_at(session, before.index + 1, before.ok_count + 1, before.err_count);
        lemma_settles_at(session, before.index + 1, before.ok_count, before.err_count + 1);
    }
}

/// An event never takes a run back, and leaves the assets that the run has
/// passed as they are.
proof fn lemma_step_goes_on(
    strategy: LocalSyncStrategy,
    moments: Seq<LocalMoment>,
    events: Seq<LocalEvent>,
    k: int,
)
    requires
        local_history(strategy, moments, events),
        well_ordered(moments[0].session),
        0 <= k < events.len(),
    ensures
        moments[k].run.index <= moments[k + 1].run.index,
        moments[k].run.stage is Write ==> if events[k] is Written {
            moments[k + 1].run.index == moments[k].run.index + 1
        } else {
            moments[k + 1] == moments[k]
        },
        forall|j: int|
            0 <= j < moments[k].run.index ==> #[trigger] moments[k + 1].session.assets.values()[j]
                == moments[k].session.assets.values()[j],
{
    lemma_local_progress(strategy, moments, events, k);
    lemma_local_progress(strategy, moments, events, k + 1);
    let before = moments[k].run;
    let session = moments[k + 1].session;
    assert(local_step(
        strategy,
        before,
        moments[k].session,
        events[k],
        moments[k + 1].run,
        session,
    ));
    if !(before.stage is Finished) {
        lemma_settles_at(session, before.index + 1, before.ok_count, before.err_count);
        lemma_settles_at(session, before.index + 1, before.ok_count + 1, before.err_count);
        lemma_settles_at(session, before.index + 1, before.ok_count, before.err_count + 1);
    }
}

proof fn lemma_passed_assets_stay(
    strategy: LocalSyncStrategy,
    moments: Seq<LocalMoment>,
    events: Seq<LocalEvent>,
    from: int,
    to: int,
    j: int,
)
    requires
        local_history(strategy, moments, events),
        well_ordered(moments[0].session),
        0 <= from <= to < moments.len(),
    ensures
        moments[from].run.index <= moments[to].run.index,
        0 <= j < moments[from].run.index ==> moments[to].session.assets.values()[j]
            == moments[from].session.assets.values()[j],
    decreases to - from,
{
    if from < to {
        lemma_passed_assets_stay(strategy, moments, events, from, to - 1, j);
        lemma_step_goes_on(strategy, moments, events, to - 1);
    }
}

/// Whether a run made the asset that it had come to at moment `p` ready under
/// the name `filename`, and wrote it at moment `w`.
pub open spec fn copied_under(
    moments: Seq<LocalMoment>,
    events: Seq<LocalEvent>,
    p: int,
    w: int,
    filename: Seq<char>,
) -> bool {
    &&& 0 <= p < w < events.len()
    &&& moments[p].run.stage is Prepare
    &&& events[p] matches LocalEvent::Prepared { filename: name, contents }
    &&& contents is Ok
    &&& name@ == filename
    &&& moments[w].run.index == moments[p].run.index
    &&& moments[w].run.stage is Write
    &&& events[w] matches LocalEvent::Written(written)
    &&& written is Ok
}

/// A run that writes an asset goes on doing so until it hears of the end of that.
pub proof fn lemma_still_writing(
    strategy: LocalSyncStrategy,
    moments: Seq<LocalMoment>,
    events: Seq<LocalEvent>,
    p: int,
    w: int,
    m: int,
)
    requires
        local_history(strategy, moments, events),
        well_ordered(moments[0].session),
        0 <= p < m <= w < events.len(),
        moments[p + 1].run.stage is Write,
        moments[p + 1].run.index == moments[w].run.index,
    ensures
        moments[m] == moments[p + 1],
    decreases m,
{
    if m > p + 1 {
        lemma_still_writing(strategy, moments, events, p, w, m - 1);
        lemma_step_goes_on(strategy, moments, events, m - 1);
        lemma_passed_assets_stay(strategy, moments, events, m, w, 0);
    }
}

/// What a run records of a copy that it made is what stands there at its end.
pub proof fn lemma_copy_recorded(
    strategy: LocalSyncStrategy,
    moments: Seq<LocalMoment>,
    events: Seq<LocalEvent>,
    p: int,
    w: int,
    filename: Seq<char>,
)
    requires
        local_history(strategy, moments, events),
        well_ordered(moments[0].session),
        copied_under(moments, events, p, w, filename),
    ensures
        ({
            let start = moments[0].session;
            let asset = moments.last().session.assets.values()[moments[p].run.index];
            &&& asset.targets@.contains_key(start.target.key@)
            &&& is_local_target(
                asset.targets@[start.target.key@],
                asset.hash@,
                content_path_of(start.config.platform, start.config.name@, filename),
                path_joined(start.config.platform, strategy.local_path@, filename),
            )
        }),
{
    let i = moments[p].run.index;
    let last = moments.len() - 1;
    lemma_local_progress(strategy, moments, events, p);
    assert(local_step(
        strategy,
        moments[p].run,
        moments[p].session,
        events[p],
        moments[p + 1].run,
        moments[p + 1].session,
    ));
    lemma_still_writing(strategy, moments, events, p, w, w);
    lemma_local_progress(strategy, moments, events, w);
    lemma_step_goes_on(strategy, moments, events, w);
    assert(local_step(
        strategy,
        moments[w].run,
        moments[w].session,
        events[w],
        moments[w + 1].run,
        moments[w + 1].session,
    ));
    lemma_passed_assets_stay(strategy, moments, events, w + 1, last, i);
}

proof fn lemma_joined_names_differ(
    platform: Platform,
    base: Seq<char>,
    a: Seq<char>,
    b: Seq<char>,
)
    requires
        stays_below(platform, base, a),
        stays_below(platform, base, b),
        a != b,
    ensures
        path_joined(platform, base, a) != path_joined(platform, base, b),
        slashes_replaced(a) != slashes_replaced(b) ==> slashes_replaced(
            path_joined(platform, base, a),
        ) != slashes_replaced(path_joined(platform, base, b)),
{
    let front = lemma_name_at_the_end(platform, base, a, b);
    let n = front.len() as int;
    assert((front + a).skip(n) =~= a);
    assert((front + b).skip(n) =~= b);
    assert(slashes_replaced(front + a).skip(n) =~= slashes_replaced(a));
    assert(slashes_replaced(front + b).skip(n) =~= slashes_replaced(b));
}

/// Another file name makes another copy: an asset that two runs copy under two
/// names is recorded with two paths, and with two ids as long as the names do
/// not merely differ in the kind of their slashes. So Studio never takes an old
/// copy for a new one.
pub proof fn law_new_names_are_new_to_studio(
    strategy: LocalSyncStrategy,
    first: Seq<LocalMoment>,
    first_events: Seq<LocalEvent>,
    p1: int,
    w1: int,
    name1: Seq<char>,
    second: Seq<LocalMoment>,
    second_events: Seq<LocalEvent>,
    p2: int,
    w2: int,
    name2: Seq<char>,
)
    requires
        local_history(strategy, first, first_events),
        local_history(strategy, second, second_events),
        well_ordered(first[0].session),
        well_ordered(second[0].session),
        first[0].session.config.name@ == second[0].session.config.name@,
        first[0].session.config.platform == second[0].session.config.platform,
        copied_under(first, first_events, p1, w1, name1),
        copied_under(second, second_events, p2, w2, name2),
        ({
            let platform = first[0].session.config.platform;
            let base = content_base(platform, first[0].session.config.name@);
            &&& stays_below(platform, strategy.local_path@, name1)
            &&& stays_below(platform, strategy.local_path@, name2)
            &&& stays_below(platform, base, name1)
            &&& stays_below(platform, base, name2)
        }),
        name1 != name2,
    ensures
        ({
            let asset1 = first.last().session.assets.values()[first[p1].run.index];
            let asset2 = second.last().session.assets.values()[second[p2].run.index];
            let known1 = asset1.targets@[first[0].session.target.key@];
            let known2 = asset2.targets@[second[0].session.target.key@];
            &&& known1.local_path is Some
            &&& known2.local_path is Some
            &&& known1.local_path->0@ != known2.local_path->0@
            &&& slashes_replaced(name1) != slashes_replaced(name2) ==> known1.id@ != known2.id@
            &&& !name1.contains('\\') && !name2.contains('\\') ==> known1.id@ != known2.id@
        }),
{
    lemma_copy_recorded(strategy, first, first_events, p1, w1, name1);
    lemma_copy_recorded(strategy, second, second_events, p2, w2, name2);
    let project = first[0].session.config.name@;
    let platform = first[0].session.config.platform;
    let base = content_base(platform, project);
    lemma_joined_names_differ(platform, strategy.local_path@, name1, name2);
    lemma_joined_names_differ(platform, base, name1, name2);
    let scheme = "rbxasset://"@;
    let id1 = slashes_replaced(content_path_of(platform, project, name1));
    let id2 = slashes_replaced(content_path_of(platform, project, name2));
    assert((scheme + id1).skip(scheme.len() as int) =~= id1);
    assert((scheme + id2).skip(scheme.len() as int) =~= id2);
    if !name1.contains('\\') && !name2.contains('\\') {
        assert(slashes_replaced(name1) =~= name1);
        assert(slashes_replaced(name2) =~= name2);
    }
}

} // verus!
