//! How a sync begins, what its session is set up with, and why it ends.
use crate::asset::Asset;
use crate::config::{AssetCreator, Config, SyncOptions, TargetConfig};
use crate::error::SyncError;
use crate::flow::{begins, flow_step, SyncEvent, SyncFlow, SyncSetup, SyncStage};
use crate::flow_laws::{worked_on, SyncCourse};
use crate::local::{local_decision, settled, LocalStageModel};
use crate::roblox::{roblox_decision, waits_for_changes, RobloxTally};
use crate::session::{assets_found, known_targets, DecisionModel, SyncSession, WalkItem};
use crate::session_laws::{failures_in, law_walk_errors_are_noted, read_with};
use crate::session_step_laws::{
    error_in, found_last, law_found_assets_are_taken_in, law_only_found_assets_are_taken_in,
    law_walk_errors_are_kept,
};
use crate::state::State;
use vstd::prelude::*;

verus! {

/// An upload is made for the user that the command line names, by that user's
/// id, whether or not a group is named too; and for the group, by its id, only
/// where no user is named.
pub proof fn law_uploads_are_made_for_who_was_named<S>(
    options: SyncOptions<S>,
    config: Config,
    target: TargetConfig,
    begun: Result<SyncFlow, SyncError>,
)
    requires
        target.target_type is Roblox,
        begins(options, config, target, begun),
        begun is Ok,
    ensures
        options.upload.api_key is Some,
        options.upload.creator is Some,
        begun->Ok_0.strategy is Roblox,
        ({
            let named = options.upload.creator->0;
            let creator = begun->Ok_0.strategy->Roblox_creator;
            &&& creator is User <==> named.user_id is Some
            &&& creator matches AssetCreator::User { user_id } ==> Some(user_id) == named.user_id
            &&& creator matches AssetCreator::Group { group_id } ==> Some(group_id)
                == named.group_id
        }),
{
}

/// An upload begins if and only if the command line holds an API key and names a
/// creator. Without a key that is what is reported, and only with a key is a
/// missing creator.
pub proof fn law_uploads_begin_with_key_and_creator<S>(
    options: SyncOptions<S>,
    config: Config,
    target: TargetConfig,
    begun: Result<SyncFlow, SyncError>,
)
    requires
        target.target_type is Roblox,
        begins(options, config, target, begun),
    ensures
        begun is Ok <==> options.upload.api_key is Some && options.upload.creator is Some,
        options.upload.api_key is None ==> begun == Err::<SyncFlow, SyncError>(
            SyncError::MissingApiKey,
        ),
        options.upload.api_key is Some && options.upload.creator is None ==> begun == Err::<
            SyncFlow,
            SyncError,
        >(SyncError::MissingCreator),
{
}

/// A sync begins with the project and the target that it is given: one that
/// copies links the content folders to the folder that it copies to, one that
/// uploads reads the state first.
pub proof fn law_syncs_begin_with_their_project<S>(
    options: SyncOptions<S>,
    config: Config,
    target: TargetConfig,
    begun: Result<SyncFlow, SyncError>,
)
    requires
        begins(options, config, target, begun),
        begun is Ok,
    ensures
        ({
            let flow = begun->Ok_0;
            &&& target.target_type is Local ==> {
                &&& flow.strategy is Local
                &&& flow.stage is Link
                &&& flow.stage->Link_setup.config == config
                &&& flow.stage->Link_setup.target == target
                &&& flow.stage->Link_local_path@ == flow.strategy->Local_local_path@
            }
            &&& target.target_type is Roblox ==> {
                &&& flow.strategy is Roblox
                &&& flow.stage is Open
                &&& flow.stage->Open_setup.config == config
                &&& flow.stage->Open_setup.target == target
            }
        }),
{
}

/// Copies go to the folder `.runway` below the project's root.
pub proof fn law_copies_go_below_the_project<S>(
    options: SyncOptions<S>,
    config: Config,
    target: TargetConfig,
    begun: Result<SyncFlow, SyncError>,
)
    requires
        target.target_type is Local,
        begins(options, config, target, begun),
        !config.platform.backslash_separates(),
        config.root_path@.len() > 0,
        config.root_path@.last() != '/',
    ensures
        begun is Ok,
        begun->Ok_0.strategy is Local,
        begun->Ok_0.strategy->Local_local_path@ == config.root_path@ + "/.runway"@,
{
    reveal_strlit(".runway");
    reveal_strlit("/.runway");
    assert(config.root_path@.push('/') + ".runway"@ =~= config.root_path@ + "/.runway"@);
}

/// The session of a stage, where there is one.
pub open spec fn session_of(stage: SyncStage) -> Option<SyncSession> {
    match stage {
        SyncStage::Find { session } => Some(session),
        SyncStage::Sync { session } => Some(session),
        SyncStage::Write { session, state } => Some(session),
        SyncStage::Generate { session, state } => Some(session),
        _ => None,
    }
}

/// What a sync was begun with, as long as there is no session.
pub open spec fn setup_of(stage: SyncStage) -> Option<SyncSetup> {
    match stage {
        SyncStage::Link { setup, local_path } => Some(setup),
        SyncStage::Open { setup } => Some(setup),
        _ => None,
    }
}

/// Whether the event at position `r` is that `state` was read.
pub open spec fn state_read_at(course: SyncCourse, r: int, state: State) -> bool {
    &&& 0 <= r < course.events.len()
    &&& course.events[r] matches SyncEvent::StateRead(Ok(read))
    &&& read == state
}

/// Every session that a sync comes to is the one that was asked for: of the
/// project and the target that the sync began with, on the state that was read,
/// and forced if and only if the command line forces it.
pub proof fn law_sessions_are_what_was_asked_for(course: SyncCourse, force: bool, k: int)
    requires
        course.valid(force),
        0 <= k < course.reached.len(),
    ensures
        setup_of(course.reached[0]) is Some,
        setup_of(course.reached[k]) matches Some(setup) ==> Some(setup) == setup_of(
            course.reached[0],
        ),
        session_of(course.reached[k]) matches Some(session) ==> {
            let setup = setup_of(course.reached[0])->0;
            &&& session.force_sync == force
            &&& session.config == setup.config
            &&& session.target == setup.target
            &&& exists|r: int| r < k && #[trigger] state_read_at(course, r, session.prev_state)
        },
    decreases k,
{
    if k > 0 {
        let n = k - 1;
        law_sessions_are_what_was_asked_for(course, force, n);
        assert(worked_on(course.reached[n], course.left[n]));
        assert(flow_step(force, course.left[n], course.events[n], course.reached[k]));
        if let Some(session) = session_of(course.reached[k]) {
            if session_of(course.left[n]) is Some {
                let before = session_of(course.reached[n])->0;
                let r = choose|r: int|
                    r < n && #[trigger] state_read_at(course, r, before.prev_state);
                assert(state_read_at(course, r, session.prev_state));
            } else {
                assert(state_read_at(course, n, session.prev_state));
            }
        }
    }
}

/// Whether a state knows of the asset `ident` at the target `key` that it has
/// the hash `hash` there.
pub open spec fn known_with_hash(
    state: State,
    ident: Seq<char>,
    key: Seq<char>,
    hash: Seq<char>,
) -> bool {
    &&& state.assets@.contains_key(ident)
    &&& state.assets@[ident].targets@.contains_key(key)
    &&& state.assets@[ident].targets@[key].hash@ == hash
}

/// A sync that is not forced does not bring again what the state already knows
/// to be at the target: an unchanged asset is not among the uploads that are
/// waited for, and of an unchanged copy only the path is looked at.
pub proof fn law_unforced_syncs_skip_what_is_known(
    course: SyncCourse,
    state: State,
    k: int,
    tally: RobloxTally,
    j: usize,
)
    requires
        course.valid(false),
        forall|r: int, read: State| #[trigger] state_read_at(course, r, read) ==> read == state,
        0 <= k < course.reached.len(),
        course.reached[k] is Sync,
        j < course.reached[k]->Sync_session.assets.keys().len(),
        ({
            let session = course.reached[k]->Sync_session;
            &&& waits_for_changes(session, tally)
            &&& known_with_hash(
                state,
                session.assets.keys()[j as int],
                session.target.key@,
                session.assets.values()[j as int].hash@,
            )
        }),
    ensures
        ({
            let session = course.reached[k]->Sync_session;
            let ident = session.assets.keys()[j as int];
            let known = state.assets@[ident].targets@[session.target.key@];
            &&& roblox_decision(session, j as int) == DecisionModel::Skip
            &&& !tally.waiting@.contains(j)
            &&& known.local_path matches Some(path) ==> local_decision(session, j as int) == (
            DecisionModel::CheckPath { path: path@ })
            &&& forall|ok_count: int, err_count: int|
                known.local_path is Some ==> (#[trigger] settled(
                    session,
                    j as int,
                    ok_count,
                    err_count,
                )).stage == (LocalStageModel::Probe { path: known.local_path->0@ })
        }),
{
    let session = course.reached[k]->Sync_session;
    law_sessions_are_what_was_asked_for(course, false, k);
    let r = choose|r: int| r < k && #[trigger] state_read_at(course, r, session.prev_state);
    assert(state_read_at(course, r, session.prev_state));
    assert(session.prev_state == state);
}

/// A sync that is forced brings every asset again.
pub proof fn law_forced_syncs_bring_everything(
    course: SyncCourse,
    k: int,
    tally: RobloxTally,
    j: usize,
)
    requires
        course.valid(true),
        0 <= k < course.reached.len(),
        course.reached[k] is Sync,
        j < course.reached[k]->Sync_session.assets.keys().len(),
        waits_for_changes(course.reached[k]->Sync_session, tally),
    ensures
        tally.waiting@.contains(j),
        forall|ok_count: int, err_count: int|
            (#[trigger] settled(
                course.reached[k]->Sync_session,
                j as int,
                ok_count,
                err_count,
            )).stage is Prepare,
{
    law_sessions_are_what_was_asked_for(course, true, k);
}

/// A new session has no assets and no errors, and then has what the walk came
/// across: nothing is found but by looking.
pub proof fn law_sessions_begin_empty(course: SyncCourse, force: bool, k: int)
    requires
        course.valid(force),
        0 <= k < course.events.len(),
        course.reached[k] is Open,
        course.reached[k + 1] is Find,
    ensures
        course.reached[k + 1]->Find_session.assets@.dom() =~= Set::<Seq<char>>::empty(),
        course.reached[k + 1]->Find_session.errors@.len() == 0,
{
    assert(worked_on(course.reached[k], course.left[k]));
    assert(flow_step(force, course.left[k], course.events[k], course.reached[k + 1]));
}

/// What an asset stands at its targets with is what goes into the state: the
/// state that has to be written names the assets of the session and no others,
/// and at each target it has the hash, the id and the path that the asset has.
pub proof fn law_written_states_hold_what_is_known(
    course: SyncCourse,
    force: bool,
    k: int,
    ident: Seq<char>,
    key: Seq<char>,
)
    requires
        course.valid(force),
        0 <= k < course.events.len(),
        course.left[k] is Sync,
        course.reached[k + 1] is Write,
    ensures
        ({
            let session = course.left[k]->Sync_session;
            let state = course.reached[k + 1]->Write_state;
            &&& course.reached[k + 1]->Write_session == session
            &&& state.assets@.contains_key(ident) <==> session.assets@.contains_key(ident)
            &&& session.assets@.contains_key(ident) ==> {
                let has = session.assets@[ident].targets@;
                let says = state.assets@[ident].targets@;
                &&& says.contains_key(key) <==> has.contains_key(key)
                &&& has.contains_key(key) ==> says[key] == has[key]
            }
        }),
{
    assert(worked_on(course.reached[k], course.left[k]));
    assert(flow_step(force, course.left[k], course.events[k], course.reached[k + 1]));
    let session = course.left[k]->Sync_session;
    let state = course.reached[k + 1]->Write_state;
    assert(state.assets@.dom().contains(ident) == session.assets@.dom().contains(ident));
}

proof fn lemma_loaded_targets(found: Seq<WalkItem>, prev_state: State, ident: Seq<char>)
    requires
        read_with(found, prev_state),
        assets_found(Map::<Seq<char>, Asset>::empty(), found).contains_key(ident),
    ensures
        ({
            let has = assets_found(Map::<Seq<char>, Asset>::empty(), found)[ident].targets@;
            &&& prev_state.assets@.contains_key(ident) ==> has == prev_state.assets@[ident].targets@
            &&& !prev_state.assets@.contains_key(ident) ==> has.dom() =~= Set::<Seq<char>>::empty()
        }),
    decreases found.len(),
{
    if found.len() > 0 {
        let before = found.drop_last();
        assert forall|j: int| 0 <= j < before.len() implies (
        #[trigger] before[j] matches WalkItem::Entry(Ok(Some(asset))) ==> asset.targets@
            == known_targets(prev_state.assets@, asset.ident.text@)) by {
            assert(before[j] == found[j]);
        }
        assert(found[found.len() - 1] == found.last());
        if assets_found(Map::<Seq<char>, Asset>::empty(), before).contains_key(ident) {
            lemma_loaded_targets(before, prev_state, ident);
        }
    }
}

/// What a sync does not touch goes from one state to the next: an asset that was
/// found and whose targets did not change stands in the state that is written,
/// at each target, with the hash, the id and the path that it had in the state
/// that was read, and at no other targets. One that the earlier state does not
/// know stands at none.
pub proof fn law_untouched_assets_keep_their_ids(
    course: SyncCourse,
    force: bool,
    k: int,
    found: Seq<WalkItem>,
    ident: Seq<char>,
    key: Seq<char>,
)
    requires
        course.valid(force),
        0 <= k < course.events.len(),
        course.left[k] is Sync,
        course.reached[k + 1] is Write,
        ({
            let session = course.reached[k]->Sync_session;
            let worked = course.left[k]->Sync_session;
            &&& read_with(found, session.prev_state)
            &&& session.assets@ == assets_found(Map::empty(), found)
            &&& session.assets@.contains_key(ident)
            &&& worked.assets@.contains_key(ident)
            &&& worked.assets@[ident].targets@ == session.assets@[ident].targets@
        }),
    ensures
        ({
            let prev = course.reached[k]->Sync_session.prev_state.assets@;
            let says = course.reached[k + 1]->Write_state.assets@[ident].targets@;
            &&& course.reached[k + 1]->Write_state.assets@.contains_key(ident)
            &&& prev.contains_key(ident) ==> {
                &&& says.contains_key(key) <==> prev[ident].targets@.contains_key(key)
                &&& says.contains_key(key) ==> {
                    &&& says[key].hash == prev[ident].targets@[key].hash
                    &&& says[key].id == prev[ident].targets@[key].id
                    &&& says[key].local_path == prev[ident].targets@[key].local_path
                }
            }
            &&& !prev.contains_key(ident) ==> !says.contains_key(key)
        }),
{
    let session = course.reached[k]->Sync_session;
    law_written_states_hold_what_is_known(course, force, k, ident, key);
    assert(worked_on(course.reached[k], course.left[k]));
    lemma_loaded_targets(found, session.prev_state, ident);
}

/// Why a sync came to its end with an error: the very thing that could not be
/// done outside, or errors that were noted down.
pub open spec fn ends_because_of(
    left: SyncStage,
    event: SyncEvent,
    error: SyncError,
) -> bool {
    match error {
        SyncError::SymlinkError { source } => left is Link && event == SyncEvent::Linked(
            Err(source),
        ) || event == SyncEvent::Walked(Err(error)),
        SyncError::State { source } => left is Open && event == SyncEvent::StateRead(Err(source))
            || left is Write && event == SyncEvent::StateWritten(Err(source)) || event
            == SyncEvent::Walked(Err(error)),
        SyncError::HadErrors { error_count } => {
            ||| event == SyncEvent::Walked(Err(error))
            ||| left is Generate && event is Generated && error_count > 0 && error_count
                == left->Generate_session.errors@.len() + (if event->Generated_0 is Err {
                1int
            } else {
                0
            })
        },
        _ => left is Find && event == SyncEvent::Walked(Err(error)),
    }
}

/// A sync ends with an error only for a reason, and that reason is the error.
pub proof fn law_syncs_end_for_a_reason(course: SyncCourse, force: bool, k: int)
    requires
        course.valid(force),
        0 <= k < course.events.len(),
        !(course.reached[k] is Done),
        course.reached[k + 1] matches SyncStage::Done { outcome } && outcome is Err,
    ensures
        ends_because_of(
            course.left[k],
            course.events[k],
            course.reached[k + 1]->Done_outcome->Err_0,
        ),
{
    assert(worked_on(course.reached[k], course.left[k]));
    assert(flow_step(force, course.left[k], course.events[k], course.reached[k + 1]));
}

/// Whatever has to be done outside and cannot be ends the sync.
pub proof fn law_failures_outside_end_a_sync(course: SyncCourse, force: bool, k: int)
    requires
        course.valid(force),
        0 <= k < course.events.len(),
    ensures
        ({
            let stage = course.left[k];
            let after = course.reached[k + 1];
            match course.events[k] {
                SyncEvent::Linked(Err(source)) => stage is Link ==> after == (SyncStage::Done {
                    outcome: Err(SyncError::SymlinkError { source }),
                }),
                SyncEvent::StateRead(Err(source)) => stage is Open ==> after == (SyncStage::Done {
                    outcome: Err(SyncError::State { source }),
                }),
                SyncEvent::Walked(Err(error)) => stage is Find ==> after == (SyncStage::Done {
                    outcome: Err(error),
                }),
                SyncEvent::StateWritten(Err(source)) => stage is Write ==> after == (
                SyncStage::Done { outcome: Err(SyncError::State { source }) }),
                _ => true,
            }
        }),
{
    assert(worked_on(course.reached[k], course.left[k]));
    assert(flow_step(force, course.left[k], course.events[k], course.reached[k + 1]));
}

/// Whatever is done outside as it has to be takes the sync to its next stage:
/// linking, reading, looking, syncing, writing and generating follow each other
/// in this order, the written state is the one that code is generated from, and
/// code that was generated without an error before ends the sync well.
pub proof fn law_successes_outside_take_a_sync_on(course: SyncCourse, force: bool, k: int)
    requires
        course.valid(force),
        0 <= k < course.events.len(),
    ensures
        ({
            let stage = course.left[k];
            let after = course.reached[k + 1];
            match (stage, course.events[k]) {
                (SyncStage::Link { setup, local_path }, SyncEvent::Linked(Ok(_))) => after
                    is Open && after->Open_setup == setup,
                (SyncStage::Open { setup }, SyncEvent::StateRead(Ok(state))) => after is Find
                    && after->Find_session.prev_state == state,
                (SyncStage::Find { session }, SyncEvent::Walked(Ok(found))) => after is Sync,
                (SyncStage::Sync { session }, SyncEvent::Synced) => after is Write,
                (SyncStage::Write { session, state }, SyncEvent::StateWritten(Ok(_))) => after
                    is Generate && after->Generate_session == session && after->Generate_state
                    == state,
                (SyncStage::Generate { session, state }, SyncEvent::Generated(Ok(_))) =>
                    session.errors@.len() == 0 ==> after == (SyncStage::Done { outcome: Ok(()) }),
                (SyncStage::Done { outcome }, _) => after == stage,
                _ => true,
            }
        }),
{
    assert(worked_on(course.reached[k], course.left[k]));
    assert(flow_step(force, course.left[k], course.events[k], course.reached[k + 1]));
}

/// Whether an event answers what a stage waits for.
pub open spec fn is_answer(stage: SyncStage, event: SyncEvent) -> bool {
    match stage {
        SyncStage::Link { .. } => event is Linked,
        SyncStage::Open { .. } => event is StateRead,
        SyncStage::Find { .. } => event is Walked,
        SyncStage::Sync { .. } => event is Synced,
        SyncStage::Write { .. } => event is StateWritten,
        SyncStage::Generate { .. } => event is Generated,
        SyncStage::Done { .. } => false,
    }
}

/// What a stage does not wait for leaves it as it is.
pub proof fn law_other_events_change_nothing(
    force: bool,
    before: SyncStage,
    event: SyncEvent,
    after: SyncStage,
)
    requires
        flow_step(force, before, event, after),
        !is_answer(before, event),
    ensures
        after == before,
{
}

/// Looking for assets keeps the project, the target, the earlier state and the
/// force of the session.
pub proof fn law_looking_keeps_the_setup(
    force: bool,
    before: SyncSession,
    found: Vec<WalkItem>,
    after: SyncStage,
)
    requires
        flow_step(force, SyncStage::Find { session: before }, SyncEvent::Walked(Ok(found)), after),
    ensures
        after is Sync,
        after->Sync_session.config == before.config,
        after->Sync_session.target == before.target,
        after->Sync_session.prev_state == before.prev_state,
        after->Sync_session.force_sync == before.force_sync,
{
}

/// What the walk came across is in the session from then on: each asset that was
/// found, as it was found, the last of its identifier; and each error, behind
/// those noted before.
pub proof fn law_looking_takes_in_what_is_found(
    force: bool,
    before: SyncSession,
    found: Vec<WalkItem>,
    after: SyncStage,
    j: int,
)
    requires
        flow_step(force, SyncStage::Find { session: before }, SyncEvent::Walked(Ok(found)), after),
        0 <= j < found@.len(),
    ensures
        forall|asset: Asset| #[trigger]
            found_last(found@, j, asset) ==> {
                &&& after->Sync_session.assets@.contains_key(asset.ident.text@)
                &&& after->Sync_session.assets@[asset.ident.text@] == asset
            },
        after->Sync_session.errors@.len() == before.errors@.len() + failures_in(found@),
        after->Sync_session.errors@.take(before.errors@.len() as int) == before.errors@,
        error_in(found@[j]) matches Some(error) ==> {
            let at = before.errors@.len() + failures_in(found@.take(j));
            after->Sync_session.errors@[at as int] == error
        },
{
    law_walk_errors_are_noted(before.errors@, found@);
    if error_in(found@[j]) is Some {
        law_walk_errors_are_kept(before.errors@, found@, j);
    }
    assert forall|asset: Asset| #[trigger] found_last(found@, j, asset) implies {
        &&& after->Sync_session.assets@.contains_key(asset.ident.text@)
        &&& after->Sync_session.assets@[asset.ident.text@] == asset
    } by {
        law_found_assets_are_taken_in(before.assets@, found@, j, asset);
    }
}

/// What the walk did not come across is in the session only if it was there.
pub proof fn law_looking_takes_in_nothing_else(
    force: bool,
    before: SyncSession,
    found: Vec<WalkItem>,
    after: SyncStage,
    ident: Seq<char>,
)
    requires
        flow_step(force, SyncStage::Find { session: before }, SyncEvent::Walked(Ok(found)), after),
        forall|m: int|
            0 <= m < found@.len() ==> (#[trigger] found@[m] matches WalkItem::Entry(Ok(Some(other)))
                ==> other.ident.text@ != ident),
    ensures
        after->Sync_session.assets@.contains_key(ident) <==> before.assets@.contains_key(ident),
{
    law_only_found_assets_are_taken_in(before.assets@, found@, ident);
}

} // verus!
