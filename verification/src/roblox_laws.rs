//! What holds of every sync to the Roblox cloud, in whatever order the uploads
//! come out.
use crate::asset::Asset;
use crate::error::SyncError;
use crate::roblox::{
    audio_ids, collected, is_roblox_target, roblox_decision, waits_for_changes, RobloxTally,
};
use crate::session::{contents_stored, known_targets, records, same_file, SyncSession};
use crate::session_laws::{
    alike_target, alike_targets, law_synced_assets_are_left_alone, repeats, untouched, up_to_date,
    well_ordered,
};
use crate::state::State;
use vstd::prelude::*;

verus! {

/// A session and the tally of its uploads at one moment.
pub struct RobloxMoment {
    pub session: SyncSession,
    pub tally: RobloxTally,
}

/// Whether two assets differ at most in their contents.
pub open spec fn same_but_contents(a: Asset, b: Asset) -> bool {
    &&& same_file(a, b)
    &&& a.targets == b.targets
}

/// Whether two sessions differ at most in the contents of their assets, as they
/// do after contents were made ready.
pub open spec fn only_contents_changed(before: SyncSession, after: SyncSession) -> bool {
    &&& after.same_setup(before)
    &&& after.errors == before.errors
    &&& after.assets.keys() == before.assets.keys()
    &&& after.assets.values().len() == before.assets.values().len()
    &&& forall|j: int|
        0 <= j < before.assets.values().len() ==> same_but_contents(
            #[trigger] after.assets.values()[j],
            before.assets.values()[j],
        )
}

/// Storing contents that were made ready changes nothing but contents.
pub proof fn law_preparing_changes_only_contents(
    before: SyncSession,
    after: SyncSession,
    i: int,
    contents: Vec<u8>,
)
    requires
        well_ordered(before),
        0 <= i < before.assets.keys().len(),
        contents_stored(before, after, i, contents),
    ensures
        only_contents_changed(before, after),
        after.assets.values()[i].contents == contents,
{
}

/// Whether the upload of the asset at position `index` comes out as `outcome`
/// between two moments, after contents may have been made ready.
pub open spec fn comes_out(
    force_permissions: bool,
    before: RobloxMoment,
    index: usize,
    outcome: Result<String, SyncError>,
    after: RobloxMoment,
) -> bool {
    exists|ready: SyncSession|
        #[trigger] only_contents_changed(before.session, ready) && collected(
            force_permissions,
            ready,
            before.tally,
            index,
            outcome,
            after.session,
            after.tally,
        )
}

/// Whether the moments are those of one sync: between the moments `k` and
/// `k + 1` the upload of the asset at position `order[k]` came out as
/// `outcomes[k]`.
pub open spec fn roblox_history(
    force_permissions: bool,
    moments: Seq<RobloxMoment>,
    order: Seq<usize>,
    outcomes: Seq<Result<String, SyncError>>,
) -> bool {
    &&& moments.len() == order.len() + 1
    &&& outcomes.len() == order.len()
    &&& forall|k: int|
        0 <= k < order.len() ==> {
            &&& #[trigger] order[k] < moments[0].session.assets.keys().len()
            &&& comes_out(force_permissions, moments[k], order[k], outcomes[k], moments[k + 1])
        }
}

/// Whether the upload of the asset at position `j` is one of the first `n` that
/// came out.
pub open spec fn came_out(order: Seq<usize>, n: int, j: int) -> bool {
    exists|k: int| 0 <= k < n && #[trigger] order[k] == j
}

/// How many of the outcomes are failures.
pub open spec fn failed_uploads(outcomes: Seq<Result<String, SyncError>>) -> nat
    decreases outcomes.len(),
{
    if outcomes.len() == 0 {
        0
    } else {
        failed_uploads(outcomes.drop_last()) + if outcomes.last() is Err {
            1nat
        } else {
            0
        }
    }
}

/// Whether an asset ended up as its outcome says: at the target under the id
/// that it got, or as it was. Its contents may have been made ready either way.
pub open spec fn recorded(
    before: SyncSession,
    after: SyncSession,
    j: int,
    outcome: Result<String, SyncError>,
) -> bool {
    let key = before.target.key@;
    let old_asset = before.assets.values()[j];
    let new_asset = after.assets.values()[j];
    match outcome {
        Ok(id) => {
            &&& same_file(new_asset, old_asset)
            &&& new_asset.targets@ == old_asset.targets@.insert(key, new_asset.targets@[key])
            &&& is_roblox_target(new_asset.targets@[key], old_asset.hash@, id@)
        },
        Err(_) => same_but_contents(new_asset, old_asset),
    }
}

/// What is true of a sync after the first `n` outcomes, compared with its
/// start.
pub open spec fn roblox_progress(
    force_permissions: bool,
    start: RobloxMoment,
    order: Seq<usize>,
    outcomes: Seq<Result<String, SyncError>>,
    n: int,
    now: RobloxMoment,
) -> bool {
    let failed = failed_uploads(outcomes.take(n));
    &&& now.session.same_setup(start.session)
    &&& now.session.assets.keys() == start.session.assets.keys()
    &&& now.session.assets.values().len() == start.session.assets.values().len()
    &&& failed <= n
    &&& now.session.errors@.len() == start.session.errors@.len() + failed
    &&& now.session.errors@.take(start.session.errors@.len() as int) == start.session.errors@
    &&& now.tally.planned == start.tally.planned
    &&& now.tally.ok_count == start.tally.ok_count + n - failed
    &&& now.tally.err_count == start.tally.err_count + failed
    &&& now.tally.waiting@.len() == start.tally.waiting@.len() - n
    &&& forall|j: usize|
        #![trigger now.tally.waiting@.contains(j)]
        now.tally.waiting@.contains(j) <==> start.tally.waiting@.contains(j) && !came_out(
            order,
            n,
            j as int,
        )
    &&& forall|j: int|
        0 <= j < start.session.assets.values().len() && !came_out(order, n, j)
            ==> same_but_contents(
            #[trigger] now.session.assets.values()[j],
            start.session.assets.values()[j],
        )
    &&& forall|k: int|
        0 <= k < n ==> {
            &&& recorded(start.session, now.session, #[trigger] order[k] as int, outcomes[k])
            &&& outcomes[k] matches Ok(id) ==> (!force_permissions
                && start.session.assets.values()[order[k] as int].ident.asset_type.audio()
                ==> now.tally.synced@.contains(id))
        }
}

proof fn lemma_roblox_progress(
    force_permissions: bool,
    moments: Seq<RobloxMoment>,
    order: Seq<usize>,
    outcomes: Seq<Result<String, SyncError>>,
    n: int,
)
    requires
        roblox_history(force_permissions, moments, order, outcomes),
        well_ordered(moments[0].session),
        0 <= n <= order.len(),
    ensures
        roblox_progress(force_permissions, moments[0], order, outcomes, n, moments[n]),
    decreases n,
{
    if n == 0 {
        let noted = moments[0].session.errors@;
        assert(outcomes.take(0).len() == 0);
        assert(noted.take(noted.len() as int) =~= noted);
    } else {
        lemma_roblox_progress(force_permissions, moments, order, outcomes, n - 1);
        let k = n - 1;
        assert(order[k] < moments[0].session.assets.keys().len());
        lemma_roblox_progress_goes_on(
            force_permissions,
            moments[0],
            order,
            outcomes,
            k,
            moments[k],
            moments[n],
        );
    }
}

proof fn lemma_roblox_progress_goes_on(
    force_permissions: bool,
    start: RobloxMoment,
    order: Seq<usize>,
    outcomes: Seq<Result<String, SyncError>>,
    n: int,
    before: RobloxMoment,
    after: RobloxMoment,
)
    requires
        well_ordered(start.session),
        0 <= n < order.len(),
        outcomes.len() == order.len(),
        forall|k: int|
            0 <= k < order.len() ==> #[trigger] order[k] < start.session.assets.keys().len(),
        roblox_progress(force_permissions, start, order, outcomes, n, before),
        comes_out(force_permissions, before, order[n], outcomes[n], after),
    ensures
        roblox_progress(force_permissions, start, order, outcomes, n + 1, after),
{
    let i = order[n];
    let ready = choose|ready: SyncSession|
        #[trigger] only_contents_changed(before.session, ready) && collected(
            force_permissions,
            ready,
            before.tally,
            i,
            outcomes[n],
            after.session,
            after.tally,
        );
    assert(outcomes.take(n + 1).drop_last() =~= outcomes.take(n));
    let noted = start.session.errors@.len() as int;
    assert(after.session.errors@.take(noted) =~= before.session.errors@.take(noted));
    assert(!came_out(order, n, i as int)) by {
        assert(before.tally.waiting@.contains(i));
    }
    assert forall|j: int| #[trigger]
        came_out(order, n + 1, j) <==> came_out(order, n, j) || j == i by {
        if came_out(order, n, j) {
            let k = choose|k: int| 0 <= k < n && #[trigger] order[k] == j;
            assert(order[k] == j);
        }
        assert(order[n] == i);
    }
    assert(same_but_contents(
        before.session.assets.values()[i as int],
        start.session.assets.values()[i as int],
    ));
    assert(same_but_contents(
        ready.assets.values()[i as int],
        before.session.assets.values()[i as int],
    ));
    assert forall|j: usize|
        #![trigger after.tally.waiting@.contains(j)]
        after.tally.waiting@.contains(j) <==> start.tally.waiting@.contains(j) && !came_out(
            order,
            n + 1,
            j as int,
        ) by {
        assert(before.tally.waiting@.contains(j) <==> start.tally.waiting@.contains(j)
            && !came_out(order, n, j as int));
        assert(came_out(order, n + 1, j as int) <==> came_out(order, n, j as int) || j == i);
    }
    assert forall|j: int|
        0 <= j < start.session.assets.values().len() && !came_out(
            order,
            n + 1,
            j,
        ) implies same_but_contents(
        #[trigger] after.session.assets.values()[j],
        start.session.assets.values()[j],
    ) by {
        assert(same_but_contents(
            before.session.assets.values()[j],
            start.session.assets.values()[j],
        ));
        assert(same_but_contents(ready.assets.values()[j], before.session.assets.values()[j]));
        assert(after.session.assets.values()[j] == ready.assets.values()[j]);
    }
    assert forall|k: int| 0 <= k < n + 1 implies {
        &&& recorded(start.session, after.session, #[trigger] order[k] as int, outcomes[k])
        &&& outcomes[k] matches Ok(id) ==> (!force_permissions
            && start.session.assets.values()[order[k] as int].ident.asset_type.audio()
            ==> after.tally.synced@.contains(id))
    } by {
        if k < n {
            assert(order[k] != i);
            assert(recorded(start.session, before.session, order[k] as int, outcomes[k]));
            let j = order[k] as int;
            assert(same_but_contents(ready.assets.values()[j], before.session.assets.values()[j]));
            assert(after.session.assets.values()[j] == ready.assets.values()[j]);
            if outcomes[k] is Ok && before.tally.synced@.contains(outcomes[k]->Ok_0) {
                let at = before.tally.synced@.index_of(outcomes[k]->Ok_0);
                assert(after.tally.synced@[at] == outcomes[k]->Ok_0);
            }
        } else if outcomes[n] is Ok {
            if !force_permissions
                && start.session.assets.values()[i as int].ident.asset_type.audio() {
                assert(after.tally.synced@[after.tally.synced@.len() - 1] == outcomes[n]->Ok_0);
            }
        }
    }
}

/// Uploads may come out in any order: each asset ends up as its own outcome
/// says. One that was uploaded stands at the target under the id that it got,
/// with what stands at other targets left there, and one that failed has at its
/// targets what it had.
pub proof fn law_uploads_are_recorded(
    force_permissions: bool,
    moments: Seq<RobloxMoment>,
    order: Seq<usize>,
    outcomes: Seq<Result<String, SyncError>>,
    k: int,
)
    requires
        roblox_history(force_permissions, moments, order, outcomes),
        well_ordered(moments[0].session),
        0 <= k < order.len(),
    ensures
        moments.last().session.assets.keys() == moments[0].session.assets.keys(),
        recorded(moments[0].session, moments.last().session, order[k] as int, outcomes[k]),
{
    lemma_roblox_progress(force_permissions, moments, order, outcomes, order.len() as int);
    assert(recorded(moments[0].session, moments.last().session, order[k] as int, outcomes[k]));
}

/// Only uploads that were waited for come out, none of them twice, and assets
/// whose uploads did not come out are as they were, but for contents that were
/// made ready.
pub proof fn law_uploads_come_out_once(
    force_permissions: bool,
    moments: Seq<RobloxMoment>,
    order: Seq<usize>,
    outcomes: Seq<Result<String, SyncError>>,
)
    requires
        roblox_history(force_permissions, moments, order, outcomes),
        well_ordered(moments[0].session),
    ensures
        order.no_duplicates(),
        forall|k: int|
            0 <= k < order.len() ==> moments[0].tally.waiting@.contains(#[trigger] order[k]),
        forall|j: int|
            0 <= j < moments[0].session.assets.keys().len() && !came_out(
                order,
                order.len() as int,
                j,
            ) ==> same_but_contents(
                #[trigger] moments.last().session.assets.values()[j],
                moments[0].session.assets.values()[j],
            ),
{
    lemma_roblox_progress(force_permissions, moments, order, outcomes, order.len() as int);
    assert forall|k: int| 0 <= k < order.len() implies moments[0].tally.waiting@.contains(
        #[trigger] order[k],
    ) && !came_out(order, k, order[k] as int) by {
        lemma_roblox_progress(force_permissions, moments, order, outcomes, k);
        assert(comes_out(
            force_permissions,
            moments[k],
            order[k],
            outcomes[k],
            moments[k + 1],
        ));
        assert(moments[k].tally.waiting@.contains(order[k]));
    }
    assert forall|a: int, b: int|
        0 <= a < order.len() && 0 <= b < order.len() && a != b implies order[a] != order[b] by {
        if a < b {
            assert(!came_out(order, b, order[b] as int));
        } else {
            assert(!came_out(order, a, order[a] as int));
        }
    }
}

/// Every failed upload comes with an error, and no error comes without one.
/// Errors that were noted before stay in front.
pub proof fn law_failed_uploads_are_noted(
    force_permissions: bool,
    moments: Seq<RobloxMoment>,
    order: Seq<usize>,
    outcomes: Seq<Result<String, SyncError>>,
)
    requires
        roblox_history(force_permissions, moments, order, outcomes),
        well_ordered(moments[0].session),
    ensures
        ({
            let failed = failed_uploads(outcomes);
            let start = moments[0];
            let end = moments.last();
            &&& end.session.errors@.len() == start.session.errors@.len() + failed
            &&& end.session.errors@.take(start.session.errors@.len() as int)
                == start.session.errors@
            &&& end.tally.err_count == start.tally.err_count + failed
            &&& end.tally.ok_count == start.tally.ok_count + outcomes.len() - failed
        }),
{
    let n = order.len() as int;
    lemma_roblox_progress(force_permissions, moments, order, outcomes, n);
    assert(outcomes.take(n) =~= outcomes);
}

proof fn lemma_none_failed(outcomes: Seq<Result<String, SyncError>>, k: int)
    requires
        failed_uploads(outcomes) == 0,
        0 <= k < outcomes.len(),
    ensures
        outcomes[k] is Ok,
    decreases outcomes.len(),
{
    if k < outcomes.len() - 1 {
        lemma_none_failed(outcomes.drop_last(), k);
    }
}

/// A sync whose uploads have all come out, without a failure, leaves every
/// asset at the target with the contents that it has.
pub proof fn law_clean_uploads_are_complete(
    force_permissions: bool,
    moments: Seq<RobloxMoment>,
    order: Seq<usize>,
    outcomes: Seq<Result<String, SyncError>>,
    j: int,
)
    requires
        roblox_history(force_permissions, moments, order, outcomes),
        well_ordered(moments[0].session),
        untouched(moments[0].session),
        waits_for_changes(moments[0].session, moments[0].tally),
        moments.last().tally.waiting@.len() == 0,
        moments.last().tally.err_count == moments[0].tally.err_count,
        0 <= j < moments[0].session.assets.keys().len() <= usize::MAX,
    ensures
        up_to_date(moments.last().session.assets.values()[j], moments[0].session.target),
{
    let start = moments[0].session;
    let n = order.len() as int;
    lemma_roblox_progress(force_permissions, moments, order, outcomes, n);
    assert(outcomes.take(n) =~= outcomes);
    let position = j as usize;
    assert(!moments.last().tally.waiting@.contains(position));
    if came_out(order, n, j) {
        let k = choose|k: int| 0 <= k < n && #[trigger] order[k] == j;
        lemma_none_failed(outcomes, k);
        assert(recorded(start, moments.last().session, order[k] as int, outcomes[k]));
    } else {
        assert(!moments[0].tally.waiting@.contains(position));
        assert(!(roblox_decision(start, j) is Sync));
        assert(same_but_contents(
            moments.last().session.assets.values()[j],
            start.assets.values()[j],
        ));
        assert(start.assets.values()[j].targets@ == known_targets(
            start.prev_state.assets@,
            start.assets.keys()[j],
        ));
    }
}

/// Syncing the same assets once more uploads nothing.
pub proof fn law_second_sync_uploads_nothing(
    force_permissions: bool,
    moments: Seq<RobloxMoment>,
    order: Seq<usize>,
    outcomes: Seq<Result<String, SyncError>>,
    state: State,
    next: SyncSession,
    j: int,
)
    requires
        roblox_history(force_permissions, moments, order, outcomes),
        well_ordered(moments[0].session),
        untouched(moments[0].session),
        waits_for_changes(moments[0].session, moments[0].tally),
        moments.last().tally.waiting@.len() == 0,
        moments.last().tally.err_count == moments[0].tally.err_count,
        records(state.assets@, moments.last().session.assets@),
        repeats(next, state, moments.last().session),
        !next.force_sync,
        0 <= j < next.assets.keys().len() <= usize::MAX,
    ensures
        roblox_decision(next, j) is Skip,
{
    let end = moments.last().session;
    lemma_roblox_progress(force_permissions, moments, order, outcomes, order.len() as int);
    law_clean_uploads_are_complete(force_permissions, moments, order, outcomes, j);
    law_synced_assets_are_left_alone(end, state, j);
    assert(next.assets.values()[j].hash@ == end.assets.values()[j].hash@);
}

proof fn lemma_audio_id_listed(session: SyncSession, j: int, n: int)
    requires
        0 <= j < n,
        session.assets.values()[j].ident.asset_type.audio(),
        session.assets.values()[j].targets@.contains_key(session.target.key@),
    ensures
        audio_ids(session, n).contains(
            session.assets.values()[j].targets@[session.target.key@].id@,
        ),
    decreases n,
{
    let id = session.assets.values()[j].targets@[session.target.key@].id@;
    if j == n - 1 {
        assert(audio_ids(session, n).last() == id);
    } else {
        lemma_audio_id_listed(session, j, n - 1);
        let at = audio_ids(session, n - 1).index_of(id);
        assert(audio_ids(session, n)[at] == id);
    }
}

/// Every sound that was uploaded is among those that permissions are granted
/// for: by its id, or, if that is forced for all sounds, as it stands at the
/// target.
pub proof fn law_uploaded_sounds_get_permissions(
    force_permissions: bool,
    moments: Seq<RobloxMoment>,
    order: Seq<usize>,
    outcomes: Seq<Result<String, SyncError>>,
    k: int,
)
    requires
        roblox_history(force_permissions, moments, order, outcomes),
        well_ordered(moments[0].session),
        0 <= k < order.len(),
        moments[0].session.assets.values()[order[k] as int].ident.asset_type.audio(),
        outcomes[k] is Ok,
    ensures
        ({
            let end = moments.last();
            let id = outcomes[k]->Ok_0;
            if force_permissions {
                audio_ids(end.session, end.session.assets.keys().len() as int).contains(
                    "rbxassetid://"@ + id@,
                )
            } else {
                end.tally.synced@.contains(id)
            }
        }),
{
    lemma_roblox_progress(force_permissions, moments, order, outcomes, order.len() as int);
    let end = moments.last();
    let j = order[k] as int;
    assert(recorded(moments[0].session, end.session, j, outcomes[k]));
    if force_permissions {
        lemma_audio_id_listed(end.session, j, end.session.assets.keys().len() as int);
    }
}

/// Whether two sessions hold the same assets, with the same known of them at
/// their targets, and sync to the same target.
pub open spec fn alike_but_contents(a: SyncSession, b: SyncSession) -> bool {
    &&& a.target.key@ == b.target.key@
    &&& a.assets.keys() == b.assets.keys()
    &&& a.assets.values().len() == b.assets.values().len()
    &&& forall|j: int|
        0 <= j < a.assets.values().len() ==> {
            &&& same_file(#[trigger] a.assets.values()[j], b.assets.values()[j])
            &&& alike_targets(a.assets.values()[j].targets@, b.assets.values()[j].targets@)
        }
}

/// What becomes of the assets does not depend on how permissions are granted:
/// two syncs that begin alike, and whose uploads come out alike, end with the
/// same counts, the same number of errors and the same known of each asset,
/// whatever the cookie, the universes and whether permissions are forced.
pub proof fn law_permissions_do_not_touch_assets(
    force1: bool,
    first: Seq<RobloxMoment>,
    force2: bool,
    second: Seq<RobloxMoment>,
    order: Seq<usize>,
    outcomes: Seq<Result<String, SyncError>>,
)
    requires
        roblox_history(force1, first, order, outcomes),
        roblox_history(force2, second, order, outcomes),
        well_ordered(first[0].session),
        well_ordered(second[0].session),
        alike_but_contents(first[0].session, second[0].session),
        first[0].session.errors@.len() == second[0].session.errors@.len(),
        first[0].tally.ok_count == second[0].tally.ok_count,
        first[0].tally.err_count == second[0].tally.err_count,
    ensures
        first.last().tally.ok_count == second.last().tally.ok_count,
        first.last().tally.err_count == second.last().tally.err_count,
        first.last().session.errors@.len() == second.last().session.errors@.len(),
        alike_but_contents(first.last().session, second.last().session),
{
    let n = order.len() as int;
    lemma_roblox_progress(force1, first, order, outcomes, n);
    lemma_roblox_progress(force2, second, order, outcomes, n);
    let start1 = first[0].session;
    let start2 = second[0].session;
    let end1 = first.last().session;
    let end2 = second.last().session;
    assert forall|j: int| 0 <= j < end1.assets.values().len() implies {
        &&& same_file(#[trigger] end1.assets.values()[j], end2.assets.values()[j])
        &&& alike_targets(end1.assets.values()[j].targets@, end2.assets.values()[j].targets@)
    } by {
        assert(same_file(start1.assets.values()[j], start2.assets.values()[j]));
        let old1 = start1.assets.values()[j].targets@;
        let old2 = start2.assets.values()[j].targets@;
        let new1 = end1.assets.values()[j].targets@;
        let new2 = end2.assets.values()[j].targets@;
        if came_out(order, n, j) {
            let k = choose|k: int| 0 <= k < n && #[trigger] order[k] == j;
            assert(recorded(start1, end1, order[k] as int, outcomes[k]));
            assert(recorded(start2, end2, order[k] as int, outcomes[k]));
            if outcomes[k] is Ok {
                assert(new1.dom() =~= new2.dom());
                assert forall|key: Seq<char>| #[trigger]
                    new1.contains_key(key) implies alike_target(new1[key], new2[key]) by {
                    if old1.contains_key(key) {
                        assert(alike_target(old1[key], old2[key]));
                    }
                }
            }
        } else {
            assert(same_but_contents(end1.assets.values()[j], start1.assets.values()[j]));
            assert(same_but_contents(end2.assets.values()[j], start2.assets.values()[j]));
        }
    }
}

} // verus!
