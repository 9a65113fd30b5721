//! What each upload means for a sync to the Roblox cloud, and which sounds get
//! permissions.
use crate::asset::{Asset, AssetType};
use crate::error::{SessionError, SyncError};
use crate::roblox::{audio_ids, collected, RobloxTally};
use crate::session::SyncSession;
use crate::session_laws::well_ordered;
use vstd::prelude::*;

verus! {

/// Whether an asset is a sound.
pub open spec fn is_sound(kind: AssetType) -> bool {
    kind == AssetType::AudioMp3 || kind == AssetType::AudioOgg
}

/// An asset that was uploaded is known of: at the target of the sync it has its
/// own hash, the id that it got behind `rbxassetid://`, and no path. What is
/// known at other targets stays, and so do all other assets.
pub proof fn law_uploaded_assets_are_known(
    force_permissions: bool,
    before: SyncSession,
    before_tally: RobloxTally,
    index: usize,
    id: String,
    after: SyncSession,
    after_tally: RobloxTally,
    key: Seq<char>,
    j: int,
)
    requires
        well_ordered(before),
        index < before.assets.keys().len(),
        collected(
            force_permissions,
            before,
            before_tally,
            index,
            Ok(id),
            after,
            after_tally,
        ),
        0 <= j < before.assets.keys().len(),
    ensures
        ({
            let i = index as int;
            let old_asset = before.assets.values()[i];
            let new_asset = after.assets.values()[i];
            &&& after.errors == before.errors
            &&& after.assets.keys() == before.assets.keys()
            &&& j != i ==> after.assets.values()[j] == before.assets.values()[j]
            &&& new_asset.ident == old_asset.ident
            &&& new_asset.path == old_asset.path
            &&& new_asset.hash == old_asset.hash
            &&& new_asset.contents == old_asset.contents
            &&& key != before.target.key@ ==> {
                &&& new_asset.targets@.contains_key(key) <==> old_asset.targets@.contains_key(key)
                &&& new_asset.targets@.contains_key(key) ==> new_asset.targets@[key]
                    == old_asset.targets@[key]
            }
            &&& key == before.target.key@ ==> {
                let known = new_asset.targets@[key];
                &&& new_asset.targets@.contains_key(key)
                &&& known.hash@ == old_asset.hash@
                &&& known.id@ == "rbxassetid://"@ + id@
                &&& known.local_path is None
            }
        }),
{
}

/// An upload that failed is noted with its own reason, behind what was noted
/// before, and nothing about the assets changes.
pub proof fn law_failed_uploads_leave_assets_alone(
    force_permissions: bool,
    before: SyncSession,
    before_tally: RobloxTally,
    index: usize,
    error: SyncError,
    after: SyncSession,
    after_tally: RobloxTally,
)
    requires
        collected(
            force_permissions,
            before,
            before_tally,
            index,
            Err(error),
            after,
            after_tally,
        ),
    ensures
        after.assets == before.assets,
        after.errors@ == before.errors@.push(SessionError::Sync(error)),
{
}

/// Each upload that comes out is counted once, as it came out, and is no longer
/// waited for, while all others are. A sound that was uploaded is listed by the
/// id that it got, unless permissions are granted for all sounds anyway.
pub proof fn law_uploads_are_counted(
    force_permissions: bool,
    before: SyncSession,
    before_tally: RobloxTally,
    index: usize,
    outcome: Result<String, SyncError>,
    after: SyncSession,
    after_tally: RobloxTally,
    other: usize,
)
    requires
        well_ordered(before),
        index < before.assets.keys().len(),
        collected(
            force_permissions,
            before,
            before_tally,
            index,
            outcome,
            after,
            after_tally,
        ),
    ensures
        before_tally.waiting@.contains(index),
        !after_tally.waiting@.contains(index),
        other != index ==> (after_tally.waiting@.contains(other)
            <==> before_tally.waiting@.contains(other)),
        after_tally.waiting@.len() + 1 == before_tally.waiting@.len(),
        after_tally.planned == before_tally.planned,
        after_tally.ok_count + after_tally.err_count == before_tally.ok_count
            + before_tally.err_count + 1,
        outcome is Ok ==> after_tally.ok_count == before_tally.ok_count + 1,
        outcome is Err ==> after_tally.err_count == before_tally.err_count + 1,
        ({
            let listed = outcome is Ok && !force_permissions && is_sound(
                before.assets.values()[index as int].ident.asset_type,
            );
            &&& listed ==> after_tally.synced@ == before_tally.synced@.push(outcome->Ok_0)
            &&& !listed ==> after_tally.synced@ == before_tally.synced@
        }),
{
}

/// No upload changes the project, the target, the earlier state or the force of
/// a session.
pub proof fn law_uploads_keep_the_setup(
    force_permissions: bool,
    before: SyncSession,
    before_tally: RobloxTally,
    index: usize,
    outcome: Result<String, SyncError>,
    after: SyncSession,
    after_tally: RobloxTally,
)
    requires
        collected(
            force_permissions,
            before,
            before_tally,
            index,
            outcome,
            after,
            after_tally,
        ),
    ensures
        after.config == before.config,
        after.target == before.target,
        after.prev_state == before.prev_state,
        after.force_sync == before.force_sync,
{
}

/// Whether an asset is a sound that stands at the target under the id `id`.
pub open spec fn sound_at(asset: Asset, key: Seq<char>, id: Seq<char>) -> bool {
    &&& is_sound(asset.ident.asset_type)
    &&& asset.targets@.contains_key(key)
    &&& asset.targets@[key].id@ == id
}

/// If permissions are forced, they are granted for a sound exactly if it stands
/// at the target, under the id that it has there.
pub proof fn law_forced_permissions_are_for_all_sounds(
    session: SyncSession,
    n: int,
    id: Seq<char>,
)
    requires
        0 <= n <= session.assets.values().len(),
    ensures
        audio_ids(session, n).contains(id) <==> exists|j: int|
            0 <= j < n && sound_at(
                #[trigger] session.assets.values()[j],
                session.target.key@,
                id,
            ),
    decreases n,
{
    let key = session.target.key@;
    if n > 0 {
        law_forced_permissions_are_for_all_sounds(session, n - 1, id);
        let before = audio_ids(session, n - 1);
        let now = audio_ids(session, n);
        let last = session.assets.values()[n - 1];
        if before.contains(id) {
            let at = before.index_of(id);
            assert(now[at] == id);
        }
        if sound_at(last, key, id) {
            assert(now[now.len() - 1] == id);
        }
        if now.contains(id) {
            let at = now.index_of(id);
            if at < before.len() {
                assert(before[at] == id);
                let j = choose|j: int|
                    0 <= j < n - 1 && sound_at(#[trigger] session.assets.values()[j], key, id);
                assert(sound_at(session.assets.values()[j], key, id));
            } else {
                assert(sound_at(session.assets.values()[n - 1], key, id));
            }
        }
        if exists|j: int|
            0 <= j < n && sound_at(#[trigger] session.assets.values()[j], key, id) {
            let j = choose|j: int|
                0 <= j < n && sound_at(#[trigger] session.assets.values()[j], key, id);
            if j < n - 1 {
                assert(before.contains(id));
            }
        }
    }
}

/// How many of the first `n` assets are sounds that stand at the target.
pub open spec fn sounds_at(session: SyncSession, n: int) -> nat
    decreases n,
{
    if n <= 0 {
        0
    } else {
        let asset = session.assets.values()[n - 1];
        sounds_at(session, n - 1) + if is_sound(asset.ident.asset_type)
            && asset.targets@.contains_key(session.target.key@) {
            1nat
        } else {
            0
        }
    }
}

proof fn lemma_sounds_counted(session: SyncSession, n: int)
    requires
        0 <= n,
    ensures
        audio_ids(session, n).len() == sounds_at(session, n),
    decreases n,
{
    if n > 0 {
        lemma_sounds_counted(session, n - 1);
    }
}

/// The sounds are listed in the order of their identifiers, each once.
pub proof fn law_forced_permissions_are_in_order(session: SyncSession, n: int, j: int)
    requires
        0 <= j < n <= session.assets.values().len(),
    ensures
        audio_ids(session, n).len() == sounds_at(session, n),
        ({
            let asset = session.assets.values()[j];
            let key = session.target.key@;
            is_sound(asset.ident.asset_type) && asset.targets@.contains_key(key) ==> {
                let at = sounds_at(session, j) as int;
                &&& at < audio_ids(session, n).len()
                &&& audio_ids(session, n)[at] == asset.targets@[key].id@
            }
        }),
    decreases n,
{
    lemma_sounds_counted(session, n);
    lemma_sounds_counted(session, n - 1);
    if j < n - 1 {
        law_forced_permissions_are_in_order(session, n - 1, j);
    }
}

} // verus!
