//! What a session takes in, whom it picks, and what it hands on.
use crate::asset::Asset;
use crate::error::SessionError;
use crate::roblox::{waits_for_changes, RobloxTally};
use crate::session::{
    assets_found, contents_stored, decision, errors_found, known_targets, records, SyncSession,
    WalkItem,
};
use crate::session_laws::{failures_in, law_walk_errors_are_noted, well_ordered};
use crate::state::{AssetState, State};
use vstd::prelude::*;

verus! {

/// Whether earlier syncs know the asset `ident` at the target `key` with the
/// hash `hash`.
pub open spec fn known_unchanged(
    known: Map<Seq<char>, AssetState>,
    ident: Seq<char>,
    key: Seq<char>,
    hash: Seq<char>,
) -> bool {
    &&& known.contains_key(ident)
    &&& known[ident].targets@.contains_key(key)
    &&& known[ident].targets@[key].hash@ == hash
}

/// An asset is left alone only if all is as it was: nothing is forced, earlier
/// syncs know the asset at this target, with the same contents, and, where
/// copies count, with a copy that is still there. In every other case it is
/// synced.
pub proof fn law_only_what_is_as_it_was_is_left_alone(
    force: bool,
    known: Map<Seq<char>, AssetState>,
    ident: Seq<char>,
    key: Seq<char>,
    hash: Seq<char>,
    check_local_path: bool,
    path_exists: bool,
)
    ensures
        ({
            let decided = decision(force, known, ident, key, hash, check_local_path);
            let synced = decided is Sync || decided is CheckPath && !path_exists;
            let copy = known[ident].targets@[key].local_path;
            &&& synced == decided.needs_sync(path_exists)
            &&& !synced <==> {
                &&& !force
                &&& known_unchanged(known, ident, key, hash)
                &&& check_local_path ==> copy is Some && path_exists
            }
            &&& decided is CheckPath ==> check_local_path && copy is Some && decided->path
                == copy->0@
            &&& decided is Skip ==> !check_local_path
        }),
{
}

/// Uploads are waited for of exactly those assets that are forced, unknown at
/// the target or changed since.
pub proof fn law_uploads_are_of_what_changed(
    session: SyncSession,
    tally: RobloxTally,
    i: usize,
)
    requires
        waits_for_changes(session, tally),
    ensures
        tally.waiting@.contains(i) <==> {
            &&& i < session.assets.keys().len()
            &&& session.force_sync || !known_unchanged(
                session.prev_state.assets@,
                session.assets.keys()[i as int],
                session.target.key@,
                session.assets.values()[i as int].hash@,
            )
        },
{
}

/// What earlier syncs know of an asset's targets is what a file of that asset is
/// loaded with, target by target. Nothing is known of a new one.
pub proof fn law_loading_recalls_what_was_known(
    known: Map<Seq<char>, AssetState>,
    ident: Seq<char>,
    key: Seq<char>,
)
    ensures
        ({
            let loaded = known_targets(known, ident);
            &&& known.contains_key(ident) && known[ident].targets@.contains_key(key)
                <==> loaded.contains_key(key)
            &&& loaded.contains_key(key) ==> {
                &&& loaded[key].hash == known[ident].targets@[key].hash
                &&& loaded[key].id == known[ident].targets@[key].id
                &&& loaded[key].local_path == known[ident].targets@[key].local_path
            }
        }),
{
}

/// What one sync writes, the next one loads: at each target an asset has again
/// what it had, and has it nowhere else.
pub proof fn law_loading_gives_back_what_was_written(
    state: State,
    assets: Map<Seq<char>, Asset>,
    ident: Seq<char>,
    key: Seq<char>,
)
    requires
        records(state.assets@, assets),
        assets.contains_key(ident),
    ensures
        ({
            let loaded = known_targets(state.assets@, ident);
            let had = assets[ident].targets@;
            &&& loaded.contains_key(key) <==> had.contains_key(key)
            &&& had.contains_key(key) ==> loaded[key] == had[key]
        }),
{
    assert(state.assets@.dom().contains(ident));
}

/// What a session wrote nothing of, the next one knows nothing of.
pub proof fn law_what_was_not_written_is_not_known(
    state: State,
    assets: Map<Seq<char>, Asset>,
    ident: Seq<char>,
    key: Seq<char>,
)
    requires
        records(state.assets@, assets),
        !assets.contains_key(ident),
    ensures
        !state.assets@.contains_key(ident),
        !known_targets(state.assets@, ident).contains_key(key),
{
    assert(!assets.dom().contains(ident));
}

/// Whether the asset found at position `j` is the last one found of its
/// identifier.
pub open spec fn found_last(found: Seq<WalkItem>, j: int, asset: Asset) -> bool {
    &&& 0 <= j < found.len()
    &&& found[j] == WalkItem::Entry(Ok(Some(asset)))
    &&& forall|m: int|
        j < m < found.len() ==> (#[trigger] found[m] matches WalkItem::Entry(Ok(Some(other)))
            ==> other.ident.text@ != asset.ident.text@)
}

/// Every asset that was found is in the session as it was found, the last one
/// found of an identifier in place of earlier ones.
pub proof fn law_found_assets_are_taken_in(
    assets: Map<Seq<char>, Asset>,
    found: Seq<WalkItem>,
    j: int,
    asset: Asset,
)
    requires
        found_last(found, j, asset),
    ensures
        assets_found(assets, found).contains_key(asset.ident.text@),
        assets_found(assets, found)[asset.ident.text@] == asset,
    decreases found.len(),
{
    if j < found.len() - 1 {
        let before = found.drop_last();
        assert(found_last(before, j, asset)) by {
            assert(before[j] == found[j]);
            assert forall|m: int| j < m < before.len() implies (
            #[trigger] before[m] matches WalkItem::Entry(Ok(Some(other))) ==> other.ident.text@
                != asset.ident.text@) by {
                assert(before[m] == found[m]);
            }
        }
        law_found_assets_are_taken_in(assets, before, j, asset);
        assert(found[found.len() - 1] == found.last());
    }
}

/// An asset that was not found is in the session only if it was there before,
/// and then as it was.
pub proof fn law_only_found_assets_are_taken_in(
    assets: Map<Seq<char>, Asset>,
    found: Seq<WalkItem>,
    ident: Seq<char>,
)
    requires
        forall|m: int|
            0 <= m < found.len() ==> (#[trigger] found[m] matches WalkItem::Entry(Ok(Some(other)))
                ==> other.ident.text@ != ident),
    ensures
        assets_found(assets, found).contains_key(ident) <==> assets.contains_key(ident),
        assets.contains_key(ident) ==> assets_found(assets, found)[ident] == assets[ident],
    decreases found.len(),
{
    if found.len() > 0 {
        let before = found.drop_last();
        assert forall|m: int| 0 <= m < before.len() implies (
        #[trigger] before[m] matches WalkItem::Entry(Ok(Some(other))) ==> other.ident.text@
            != ident) by {
            assert(before[m] == found[m]);
        }
        law_only_found_assets_are_taken_in(assets, before, ident);
        assert(found[found.len() - 1] == found.last());
    }
}

/// The error that a thing which the walk came across is, if it is one.
pub open spec fn error_in(item: WalkItem) -> Option<SessionError> {
    match item {
        WalkItem::Failed(e) => Some(SessionError::Walk(e)),
        WalkItem::Entry(Err(e)) => Some(SessionError::Sync(e)),
        WalkItem::Entry(Ok(_)) => None,
    }
}

/// Each error that the walk came across is noted down as it is, behind those
/// noted before, in the order of the walk.
pub proof fn law_walk_errors_are_kept(
    errors: Seq<SessionError>,
    found: Seq<WalkItem>,
    j: int,
)
    requires
        0 <= j < found.len(),
        error_in(found[j]) is Some,
    ensures
        ({
            let at = errors.len() + failures_in(found.take(j));
            let noted = errors_found(errors, found);
            &&& 0 <= at < noted.len()
            &&& Some(noted[at as int]) == error_in(found[j])
        }),
    decreases found.len(),
{
    let before = found.drop_last();
    law_walk_errors_are_noted(errors, before);
    law_walk_errors_are_noted(errors, found);
    if j < before.len() {
        assert(before.take(j) =~= found.take(j));
        assert(before[j] == found[j]);
        law_walk_errors_are_kept(errors, before, j);
        let at = (errors.len() + failures_in(found.take(j))) as int;
        assert(errors_found(errors, found)[at] == errors_found(errors, before)[at]);
    } else {
        assert(found.take(j) =~= before);
        assert(found[j] == found.last());
    }
}

/// Contents that were made ready are what the asset has from then on, and
/// nothing else about the session changes, whatever is known of the asset.
pub proof fn law_prepared_contents_are_kept(
    before: SyncSession,
    after: SyncSession,
    i: int,
    contents: Vec<u8>,
    j: int,
)
    requires
        well_ordered(before),
        0 <= i < before.assets.keys().len(),
        0 <= j < before.assets.keys().len(),
        contents_stored(before, after, i, contents),
    ensures
        after.assets.values()[i].contents == contents,
        after.config == before.config,
        after.target == before.target,
        after.prev_state == before.prev_state,
        after.force_sync == before.force_sync,
        after.errors == before.errors,
        after.assets.keys() == before.assets.keys(),
        after.assets.values()[j].ident == before.assets.values()[j].ident,
        after.assets.values()[j].path == before.assets.values()[j].path,
        after.assets.values()[j].hash == before.assets.values()[j].hash,
        after.assets.values()[j].targets == before.assets.values()[j].targets,
        j != i ==> after.assets.values()[j].contents == before.assets.values()[j].contents,
{
}

} // verus!
