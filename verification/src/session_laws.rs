//! What holds from one sync to the next.
use crate::asset::Asset;
use crate::config::TargetConfig;
use crate::error::SessionError;
use crate::hash::asset_hash;
use crate::ordered_map::{increasing, lemma_increasing_index};
use crate::session::{
    assets_found, decision, errors_found, known_targets, records, DecisionModel,
    SyncSession, WalkItem,
};
use crate::state::{AssetState, State, TargetState};
use vstd::prelude::*;

verus! {

/// Whether the assets of a session are in ascending order, none twice.
pub open spec fn well_ordered(session: SyncSession) -> bool {
    &&& increasing(session.assets.keys())
    &&& session.assets.keys().len() == session.assets.values().len()
}

/// Whether what is known of each asset's targets is what earlier syncs left
/// behind, as it is when nothing has been synced yet.
pub open spec fn untouched(session: SyncSession) -> bool {
    forall|j: int|
        0 <= j < session.assets.values().len() ==> (#[trigger] session.assets.values()[j]).targets@
            == known_targets(session.prev_state.assets@, session.assets.keys()[j])
}

/// Whether the asset stands at the target with the contents that it has.
pub open spec fn up_to_date(asset: Asset, target: TargetConfig) -> bool {
    &&& asset.targets@.contains_key(target.key@)
    &&& asset.targets@[target.key@].hash@ == asset.hash@
}

/// Whether two records say the same of an asset at a target.
pub open spec fn alike_target(a: TargetState, b: TargetState) -> bool {
    &&& a.hash@ == b.hash@
    &&& a.id@ == b.id@
    &&& match (a.local_path, b.local_path) {
        (Some(p), Some(q)) => p@ == q@,
        (None, None) => true,
        _ => false,
    }
}

/// Whether the same is known at the same targets.
pub open spec fn alike_targets(
    a: Map<Seq<char>, TargetState>,
    b: Map<Seq<char>, TargetState>,
) -> bool {
    &&& a.dom() == b.dom()
    &&& forall|key: Seq<char>| #[trigger] a.contains_key(key) ==> alike_target(a[key], b[key])
}

/// Whether `next` is a session in which `state` is what earlier syncs left
/// behind, and in which the same assets were found with the same contents.
pub open spec fn repeats(next: SyncSession, state: State, session: SyncSession) -> bool {
    &&& next.prev_state == state
    &&& next.target.key@ == session.target.key@
    &&& next.assets.keys() == session.assets.keys()
    &&& next.assets.values().len() == session.assets.values().len()
    &&& forall|j: int|
        0 <= j < session.assets.values().len() ==> (#[trigger] next.assets.values()[j]).hash@
            == session.assets.values()[j].hash@
}

/// An asset is found under its identifier.
pub proof fn lemma_asset_by_ident(session: SyncSession, i: int)
    requires
        well_ordered(session),
        0 <= i < session.assets.keys().len(),
    ensures
        session.assets@.contains_key(session.assets.keys()[i]),
        session.assets@[session.assets.keys()[i]] == session.assets.values()[i],
{
    lemma_increasing_index(session.assets.keys(), i);
}

/// What one sync brings to the target, the next one does not bring again: an
/// upload is left alone as long as its contents stay the same, and so is a
/// copy, as long as it is still there.
pub proof fn law_synced_assets_are_left_alone(session: SyncSession, state: State, i: int)
    requires
        well_ordered(session),
        0 <= i < session.assets.keys().len(),
        up_to_date(session.assets.values()[i], session.target),
        records(state.assets@, session.assets@),
    ensures
        ({
            let asset = session.assets.values()[i];
            let ident = session.assets.keys()[i];
            let key = session.target.key@;
            &&& decision(false, state.assets@, ident, key, asset.hash@, false) is Skip
            &&& asset.targets@[key].local_path matches Some(path) ==> decision(
                false,
                state.assets@,
                ident,
                key,
                asset.hash@,
                true,
            ) == (DecisionModel::CheckPath { path: path@ })
        }),
{
    lemma_asset_by_ident(session, i);
    let known = state.assets@[session.assets.keys()[i]];
    assert(known.targets@ == session.assets.values()[i].targets@);
}

/// An asset whose contents have changed since it was synced is synced again.
pub proof fn law_changed_assets_are_synced(
    session: SyncSession,
    state: State,
    i: int,
    hash: Seq<char>,
    check_local_path: bool,
)
    requires
        well_ordered(session),
        0 <= i < session.assets.keys().len(),
        up_to_date(session.assets.values()[i], session.target),
        records(state.assets@, session.assets@),
        hash != session.assets.values()[i].hash@,
    ensures
        decision(
            false,
            state.assets@,
            session.assets.keys()[i],
            session.target.key@,
            hash,
            check_local_path,
        ) is Sync,
{
    lemma_asset_by_ident(session, i);
    let known = state.assets@[session.assets.keys()[i]];
    assert(known.targets@ == session.assets.values()[i].targets@);
}

/// The next sync judges an asset that this one did not get to, or failed at,
/// as this one did.
pub proof fn law_failed_assets_are_tried_again(
    session: SyncSession,
    state: State,
    i: int,
    target_key: Seq<char>,
    hash: Seq<char>,
    check_local_path: bool,
)
    requires
        well_ordered(session),
        0 <= i < session.assets.keys().len(),
        session.assets.values()[i].targets@ == known_targets(
            session.prev_state.assets@,
            session.assets.keys()[i],
        ),
        records(state.assets@, session.assets@),
    ensures
        decision(
            false,
            state.assets@,
            session.assets.keys()[i],
            target_key,
            hash,
            check_local_path,
        ) == decision(
            false,
            session.prev_state.assets@,
            session.assets.keys()[i],
            target_key,
            hash,
            check_local_path,
        ),
{
    lemma_asset_by_ident(session, i);
    let known = state.assets@[session.assets.keys()[i]];
    assert(known.targets@ == session.assets.values()[i].targets@);
}

/// If that is forced, every asset is synced.
pub proof fn law_forced_syncs_leave_nothing_out(
    known: Map<Seq<char>, AssetState>,
    ident: Seq<char>,
    target_key: Seq<char>,
    hash: Seq<char>,
    check_local_path: bool,
    path_exists: bool,
)
    ensures
        decision(true, known, ident, target_key, hash, check_local_path).needs_sync(path_exists),
{
}

/// Whether the walk came across the asset that is identified by `ident`.
pub open spec fn was_found(found: Seq<WalkItem>, ident: Seq<char>) -> bool {
    exists|j: int|
        0 <= j < found.len() && (#[trigger] found[j] matches WalkItem::Entry(Ok(Some(asset)))
            && asset.ident.text@ == ident)
}

proof fn lemma_found_by_last(found: Seq<WalkItem>, ident: Seq<char>)
    requires
        found.len() > 0,
    ensures
        was_found(found, ident) == (was_found(found.drop_last(), ident) || (
        found.last() matches WalkItem::Entry(Ok(Some(asset))) && asset.ident.text@ == ident)),
{
    let before = found.drop_last();
    if was_found(before, ident) {
        let j = choose|j: int|
            0 <= j < before.len() && (#[trigger] before[j] matches WalkItem::Entry(Ok(Some(asset)))
                && asset.ident.text@ == ident);
        assert(found[j] == before[j]);
    }
    if was_found(found, ident) {
        let j = choose|j: int|
            0 <= j < found.len() && (#[trigger] found[j] matches WalkItem::Entry(Ok(Some(asset)))
                && asset.ident.text@ == ident);
        if j < before.len() {
            assert(before[j] == found[j]);
        }
    }
    assert(found[found.len() - 1] == found.last());
}

/// The state that a sync leaves behind names the assets that it found and no
/// others: what has gone from the project is forgotten.
pub proof fn law_state_names_what_was_found(
    found: Seq<WalkItem>,
    known: Map<Seq<char>, AssetState>,
    ident: Seq<char>,
)
    requires
        records(known, assets_found(Map::empty(), found)),
    ensures
        known.contains_key(ident) <==> was_found(found, ident),
{
    lemma_assets_found(found, ident);
    assert(known.dom().contains(ident) == assets_found(
        Map::<Seq<char>, Asset>::empty(),
        found,
    ).dom().contains(ident));
}

proof fn lemma_assets_found(found: Seq<WalkItem>, ident: Seq<char>)
    ensures
        assets_found(Map::<Seq<char>, Asset>::empty(), found).contains_key(ident) <==> was_found(
            found,
            ident,
        ),
    decreases found.len(),
{
    if found.len() > 0 {
        lemma_assets_found(found.drop_last(), ident);
        lemma_found_by_last(found, ident);
    }
}

/// Whether each asset that a walk came across was read with what earlier syncs
/// know of its targets.
pub open spec fn read_with(found: Seq<WalkItem>, prev_state: State) -> bool {
    forall|j: int|
        0 <= j < found.len() ==> (#[trigger] found[j] matches WalkItem::Entry(Ok(Some(asset)))
            ==> asset.targets@ == known_targets(prev_state.assets@, asset.ident.text@))
}

/// Looking for assets loses nothing that earlier syncs know of their targets.
pub proof fn law_found_assets_keep_their_targets(session: SyncSession, found: Seq<WalkItem>)
    requires
        well_ordered(session),
        read_with(found, session.prev_state),
        session.assets@ == assets_found(Map::empty(), found),
    ensures
        untouched(session),
{
    assert forall|j: int| 0 <= j < session.assets.values().len() implies (
    #[trigger] session.assets.values()[j]).targets@ == known_targets(
        session.prev_state.assets@,
        session.assets.keys()[j],
    ) by {
        lemma_asset_by_ident(session, j);
        lemma_found_targets(found, session.prev_state, session.assets.keys()[j]);
    }
}

proof fn lemma_found_targets(found: Seq<WalkItem>, prev_state: State, ident: Seq<char>)
    requires
        read_with(found, prev_state),
    ensures
        assets_found(Map::<Seq<char>, Asset>::empty(), found).contains_key(ident) ==> assets_found(
            Map::<Seq<char>, Asset>::empty(),
            found,
        )[ident].targets@ == known_targets(prev_state.assets@, ident),
    decreases found.len(),
{
    if found.len() > 0 {
        let before = found.drop_last();
        assert forall|j: int| 0 <= j < before.len() implies (
        #[trigger] before[j] matches WalkItem::Entry(Ok(Some(asset))) ==> asset.targets@
            == known_targets(prev_state.assets@, asset.ident.text@)) by {
            assert(before[j] == found[j]);
        }
        lemma_found_targets(before, prev_state, ident);
        assert(found[found.len() - 1] == found.last());
    }
}

/// Whether each asset that a walk came across has the hash of its contents, as
/// it has when it was just read.
pub open spec fn read_hashed(found: Seq<WalkItem>) -> bool {
    forall|j: int|
        0 <= j < found.len() ==> (#[trigger] found[j] matches WalkItem::Entry(Ok(Some(asset)))
            ==> asset.hash@ == asset_hash(asset.contents@))
}

/// Every asset that was found has the hash of its contents.
pub proof fn law_found_assets_are_hashed(found: Seq<WalkItem>, ident: Seq<char>)
    requires
        read_hashed(found),
        assets_found(Map::<Seq<char>, Asset>::empty(), found).contains_key(ident),
    ensures
        ({
            let asset = assets_found(Map::<Seq<char>, Asset>::empty(), found)[ident];
            asset.hash@ == asset_hash(asset.contents@)
        }),
    decreases found.len(),
{
    if found.len() > 0 {
        let before = found.drop_last();
        assert forall|j: int| 0 <= j < before.len() implies (
        #[trigger] before[j] matches WalkItem::Entry(Ok(Some(asset))) ==> asset.hash@
            == asset_hash(asset.contents@)) by {
            assert(before[j] == found[j]);
        }
        assert(found[found.len() - 1] == found.last());
        if assets_found(Map::<Seq<char>, Asset>::empty(), before).contains_key(ident) {
            law_found_assets_are_hashed(before, ident);
        }
    }
}

/// How many of the things that a walk came across are errors.
pub open spec fn failures_in(found: Seq<WalkItem>) -> nat
    decreases found.len(),
{
    if found.len() == 0 {
        0
    } else {
        failures_in(found.drop_last()) + if found.last() is Failed || (
        found.last() matches WalkItem::Entry(r) && r is Err) {
            1nat
        } else {
            0
        }
    }
}

/// Each error at a single entry is noted down, and nothing else is.
pub proof fn law_walk_errors_are_noted(errors: Seq<SessionError>, found: Seq<WalkItem>)
    ensures
        errors_found(errors, found).len() == errors.len() + failures_in(found),
        errors_found(errors, found).take(errors.len() as int) == errors,
    decreases found.len(),
{
    if found.len() > 0 {
        law_walk_errors_are_noted(errors, found.drop_last());
        let before = errors_found(errors, found.drop_last());
        assert(errors_found(errors, found).take(errors.len() as int) =~= before.take(
            errors.len() as int,
        ));
    }
}

} // verus!
