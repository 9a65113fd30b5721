//! Syncing to the Roblox cloud.
use crate::asset::Asset;
use crate::asset::{AssetIdent, AssetType};
use crate::config::{AssetCreator, UploadOptions};
use crate::error::{SessionError, SyncError};
use crate::ordered_map::increasing;
use crate::session::{
    asset_decision, lemma_still_valid, only_asset_changed, only_error_added, DecisionModel,
    SyncSession,
};
use crate::state::TargetState;
use crate::text::joined;
use crate::upload::{UploadModel, UploadTask};
use rbxcloud::rbx::{RbxAssets, RbxCloud};
use vstd::prelude::*;

verus! {

/// The part of the Roblox cloud that deals with assets.
#[verifier::external_type_specification]
#[verifier::external_body]
pub struct ExRbxAssets(RbxAssets);

/// The Roblox cloud as a whole.
#[verifier::external_type_specification]
#[verifier::external_body]
pub struct ExRbxCloud(RbxCloud);

/// The API key that a client of the Roblox cloud holds.
pub uninterp spec fn cloud_key(cloud: RbxCloud) -> Seq<char>;

/// The API key that a client of the part that deals with assets holds.
pub uninterp spec fn client_key(client: RbxAssets) -> Seq<char>;

/// `rbxcloud`'s `RbxCloud::new` makes a client that holds the key it is given.
#[verifier::external_body]
fn cloud_client(api_key: &str) -> (r: RbxCloud)
    ensures
        cloud_key(r) == api_key@,
{
    RbxCloud::new(api_key)
}

/// `rbxcloud`'s `RbxCloud::assets` hands its key on to the part that deals with
/// assets.
#[verifier::external_body]
fn assets_client(cloud: &RbxCloud) -> (r: RbxAssets)
    ensures
        client_key(r) == cloud_key(*cloud),
{
    cloud.assets()
}

/// Syncs assets by uploading them. Secrets are of type `S`.
pub struct RobloxSyncStrategy<S> {
    pub assets: RbxAssets,
    pub creator: AssetCreator,
    /// The login cookie by which permissions are granted.
    pub cookie: Option<S>,
    /// Whether sounds synced earlier get permissions too.
    pub force_permissions: bool,
}

/// What is sent to the service to create an asset.
pub struct CreateAssetRequest {
    pub asset_type: AssetType,
    pub display_name: String,
    pub description: String,
    pub creator: AssetCreator,
    pub expected_price: Option<u64>,
    pub filepath: String,
}

/// How far the uploads of a sync have come.
pub struct RobloxTally {
    /// How many assets are uploaded in all.
    pub planned: usize,
    /// The positions of the assets whose uploads have not come out yet.
    pub waiting: Vec<usize>,
    pub ok_count: usize,
    pub err_count: usize,
    /// The ids of the sounds that were uploaded.
    pub synced: Vec<String>,
}

impl RobloxTally {
    /// Whether each upload that was planned is waited for once or has been
    /// counted.
    pub open spec fn valid(self) -> bool {
        &&& self.waiting@.no_duplicates()
        &&& self.ok_count + self.err_count + self.waiting@.len() == self.planned
    }
}

/// What an upload decides about the asset at position `i`.
pub open spec fn roblox_decision(session: SyncSession, i: int) -> DecisionModel {
    asset_decision(
        session.force_sync,
        session.assets,
        session.prev_state,
        session.target,
        false,
        i,
    )
}

/// Whether the uploads that a tally waits for are those of the assets that have
/// to be uploaded.
pub open spec fn waits_for_changes(session: SyncSession, tally: RobloxTally) -> bool {
    forall|i: usize|
        #![trigger tally.waiting@.contains(i)]
        tally.waiting@.contains(i) <==> i < session.assets.keys().len() && roblox_decision(
            session,
            i as int,
        ) is Sync
}

/// Whether `after` waits for what `before` waits for, but no longer for the
/// asset at position `i`.
pub open spec fn no_longer_waiting(before: RobloxTally, after: RobloxTally, i: usize) -> bool {
    &&& before.waiting@.contains(i)
    &&& after.waiting@.len() == before.waiting@.len() - 1
    &&& forall|j: usize|
        #![trigger after.waiting@.contains(j)]
        after.waiting@.contains(j) <==> before.waiting@.contains(j) && j != i
}

/// Whether `known` says of an asset with the hash `hash` that it was uploaded
/// and got the id `id`.
pub open spec fn is_roblox_target(known: TargetState, hash: Seq<char>, id: Seq<char>) -> bool {
    &&& known.hash@ == hash
    &&& known.id@ == "rbxassetid://"@ + id
    &&& known.local_path is None
}

/// Whether the upload of the asset at position `index` came out as `outcome`,
/// and that took the session and the tally to `after` and `after_tally`.
pub open spec fn collected(
    force_permissions: bool,
    before: SyncSession,
    before_tally: RobloxTally,
    index: usize,
    outcome: Result<String, SyncError>,
    after: SyncSession,
    after_tally: RobloxTally,
) -> bool {
    let i = index as int;
    &&& after_tally.planned == before_tally.planned
    &&& no_longer_waiting(before_tally, after_tally, index)
    &&& match outcome {
        Ok(id) => {
            let old_asset = before.assets.values()[i];
            let new_asset = after.assets.values()[i];
            let key = before.target.key@;
            &&& only_asset_changed(before, after, i)
            &&& after.errors == before.errors
            &&& new_asset.contents == old_asset.contents
            &&& new_asset.targets@ == old_asset.targets@.insert(key, new_asset.targets@[key])
            &&& is_roblox_target(new_asset.targets@[key], old_asset.hash@, id@)
            &&& after_tally.ok_count == before_tally.ok_count + 1
            &&& after_tally.err_count == before_tally.err_count
            &&& after_tally.synced@ == if !force_permissions && old_asset.ident.asset_type.audio() {
                before_tally.synced@.push(id)
            } else {
                before_tally.synced@
            }
        },
        Err(e) => {
            &&& only_error_added(before, after, e)
            &&& after_tally.ok_count == before_tally.ok_count
            &&& after_tally.err_count == before_tally.err_count + 1
            &&& after_tally.synced@ == before_tally.synced@
        },
    }
}

/// Whether `request` asks to create `asset`, of the kind that `ident` says, under
/// the name `name` and for `creator`, free of charge.
pub open spec fn asks_to_create(
    request: CreateAssetRequest,
    creator: AssetCreator,
    ident: AssetIdent,
    asset: Asset,
    name: Seq<char>,
) -> bool {
    &&& request.asset_type == ident.asset_type
    &&& request.display_name@ == name
    &&& request.description@ == "Uploaded by Runway."@
    &&& request.creator == creator
    &&& request.expected_price == Some(0u64)
    &&& request.filepath == asset.path
}

/// Whether an upload begins for `asset`: as an asset of its kind, under the last
/// part of its identifier.
pub open spec fn begins_for(upload: UploadModel, asset: Asset) -> bool {
    upload == UploadModel::start(asset.ident.asset_type, asset.ident.last_component@)
}

/// Whether `sounds` are those that permissions are granted for.
pub open spec fn are_granted(
    force_permissions: bool,
    session: SyncSession,
    synced: Seq<String>,
    sounds: Seq<String>,
) -> bool {
    texts(sounds) == if force_permissions {
        audio_ids(session, session.assets.keys().len() as int)
    } else {
        texts(synced)
    }
}

/// Whether a strategy has the key, the creator and the options that it is given,
/// and the cookie that goes first of the two.
pub open spec fn is_set_up<S>(
    strategy: RobloxSyncStrategy<S>,
    api_key: Seq<char>,
    creator: AssetCreator,
    options: UploadOptions<S>,
    found_cookie: Option<S>,
) -> bool {
    &&& client_key(strategy.assets) == api_key
    &&& strategy.creator == creator
    &&& strategy.cookie == match options.auth_cookie {
        Some(cookie) => Some(cookie),
        None => found_cookie,
    }
    &&& strategy.force_permissions == options.force_permissions
}

/// Some texts, as sequences of characters.
pub open spec fn texts(items: Seq<String>) -> Seq<Seq<char>> {
    items.map_values(|s: String| s@)
}

/// The ids under which the sounds among the first `n` assets stand at the
/// target, in order.
pub open spec fn audio_ids(session: SyncSession, n: int) -> Seq<Seq<char>>
    decreases n,
{
    if n <= 0 {
        Seq::empty()
    } else {
        let asset = session.assets.values()[n - 1];
        let key = session.target.key@;
        if asset.ident.asset_type.audio() && asset.targets@.contains_key(key) {
            audio_ids(session, n - 1).push(asset.targets@[key].id@)
        } else {
            audio_ids(session, n - 1)
        }
    }
}

impl RobloxTally {
    /// Stops waiting for the asset at position `index`.
    fn settle(&mut self, index: usize)
        requires
            old(self).waiting@.contains(index),
            old(self).waiting@.no_duplicates(),
        ensures
            no_longer_waiting(*old(self), *final(self), index),
            final(self).waiting@.no_duplicates(),
            final(self).planned == old(self).planned,
            final(self).ok_count == old(self).ok_count,
            final(self).err_count == old(self).err_count,
            final(self).synced == old(self).synced,
    {
        let ghost before = self.waiting@;
        let mut at: usize = 0;
        while self.waiting[at] != index
            invariant
                at < self.waiting.len(),
                self.waiting@.contains(index),
                forall|k: int| 0 <= k < at ==> self.waiting@[k] != index,
            decreases self.waiting.len() - at,
        {
            at = at + 1;
        }
        self.waiting.remove(at);
        proof {
            lemma_removed(before, at as int);
        }
    }
}

/// Of positions that are all different, taking one away leaves the others.
proof fn lemma_removed(positions: Seq<usize>, at: int)
    requires
        positions.no_duplicates(),
        0 <= at < positions.len(),
    ensures
        positions.remove(at).no_duplicates(),
        forall|j: usize|
            #![trigger positions.remove(at).contains(j)]
            positions.remove(at).contains(j) <==> positions.contains(j) && j != positions[at],
{
    let rest = positions.remove(at);
    assert forall|j: usize|
        #![trigger rest.contains(j)]
        rest.contains(j) <==> positions.contains(j) && j != positions[at] by {
        if rest.contains(j) {
            let k = rest.index_of(j);
            let from = if k < at {
                k
            } else {
                k + 1
            };
            assert(positions[from] == j);
        }
        if positions.contains(j) && j != positions[at] {
            let k = positions.index_of(j);
            let to = if k < at {
                k
            } else {
                k - 1
            };
            assert(rest[to] == j);
        }
    }
}

impl<S> RobloxSyncStrategy<S> {
    /// Uploads with the key `api_key` on behalf of `creator`. A cookie from
    /// the command line goes before `found_cookie`, the one that Studio is
    /// logged in with.
    pub fn new(
        api_key: &str,
        creator: AssetCreator,
        options: UploadOptions<S>,
        found_cookie: Option<S>,
    ) -> (r: Self)
        ensures
            is_set_up(r, api_key@, creator, options, found_cookie),
            client_key(r.assets) == api_key@,
            r.creator == creator,
            r.cookie == if options.auth_cookie is Some {
                options.auth_cookie
            } else {
                found_cookie
            },
            r.force_permissions == options.force_permissions,
    {
        let cloud = cloud_client(api_key);
        let assets = assets_client(&cloud);
        let cookie = match options.auth_cookie {
            Some(cookie) => Some(cookie),
            None => found_cookie,
        };
        RobloxSyncStrategy { assets, creator, cookie, force_permissions: options.force_permissions }
    }

    /// What is sent to the service to create `asset` under the name `name`.
    pub fn create_asset_request(&self, ident: &AssetIdent, asset: &Asset, name: &str) -> (r:
        CreateAssetRequest)
        ensures
            asks_to_create(r, self.creator, *ident, *asset, name@),
            r.asset_type == ident.asset_type,
            r.display_name@ == name@,
            r.description@ == "Uploaded by Runway."@,
            r.creator == self.creator,
            r.expected_price == Some(0u64),
            r.filepath == asset.path,
    {
        CreateAssetRequest {
            asset_type: ident.asset_type,
            display_name: name.to_owned(),
            description: "Uploaded by Runway.".to_owned(),
            creator: self.creator.clone(),
            expected_price: Some(0),
            filepath: asset.path.clone(),
        }
    }

    /// Begins the upload of an asset, under the last part of its identifier.
    pub fn begin_upload(&self, asset: &Asset) -> (r: UploadTask)
        ensures
            begins_for(r@, *asset),
            r@ == UploadModel::start(asset.ident.asset_type, asset.ident.last_component@),
            r@.valid(),
    {
        UploadTask::new(asset.ident.asset_type, asset.ident.last_component.clone())
    }

    /// Picks the assets that have to be uploaded, in the order of their
    /// identifiers, and begins the tally of their uploads.
    pub fn plan(&self, session: &SyncSession) -> (r: RobloxTally)
        ensures
            waits_for_changes(*session, r),
            increasing(session.assets.keys()),
            forall|a: int, b: int|
                0 <= a < b < r.waiting@.len() ==> r.waiting@[a] < r.waiting@[b],
            r.planned <= session.assets.keys().len(),
            r.ok_count == 0,
            r.err_count == 0,
            r.synced@.len() == 0,
            r.valid(),
    {
        let mut path_exists: Vec<bool> = Vec::new();
        let count: usize = session.assets.len();
        let mut i: usize = 0;
        while i < count
            invariant
                i <= count,
                path_exists.len() == i,
            decreases count - i,
        {
            path_exists.push(false);
            i = i + 1;
        }
        let waiting = SyncSession::iter_needs_sync(
            session.force_sync,
            &session.assets,
            &session.prev_state,
            &session.target,
            false,
            &path_exists,
        );
        proof {
            lemma_increasing_positions(waiting@, count as int);
        }
        RobloxTally {
            planned: waiting.len(),
            waiting,
            ok_count: 0,
            err_count: 0,
            synced: Vec::new(),
        }
    }

    /// Takes in how the upload of the asset at position `index` came out.
    pub fn collect(
        &self,
        session: &mut SyncSession,
        tally: &mut RobloxTally,
        index: usize,
        outcome: Result<String, SyncError>,
    )
        requires
            index < old(session).assets.keys().len(),
            old(tally).waiting@.contains(index),
            old(tally).valid(),
        ensures
            collected(
                self.force_permissions,
                *old(session),
                *old(tally),
                index,
                outcome,
                *final(session),
                *final(tally),
            ),
            final(tally).valid(),
            old(session).valid() ==> final(session).valid(),
    {
        tally.settle(index);
        match outcome {
            Ok(id) => {
                let key = session.target.key.clone();
                let full_id = joined("rbxassetid://", id.as_str());
                let asset = session.assets.value_mut(index);
                let hash = asset.hash.clone();
                let audio = asset.ident.asset_type.is_audio();
                asset.targets.insert(key, TargetState { hash, id: full_id, local_path: None });
                proof {
                    lemma_still_valid(*old(session), *session, index as int);
                }
                tally.ok_count = tally.ok_count + 1;
                if !self.force_permissions && audio {
                    tally.synced.push(id);
                }
            },
            Err(e) => {
                session.raise_error(SessionError::Sync(e));
                tally.err_count = tally.err_count + 1;
            },
        }
    }

    /// The sounds that permissions are granted for: those that were uploaded,
    /// or, if that is forced, all that stand at the target.
    pub fn permission_assets(&self, session: &SyncSession, synced: Vec<String>) -> (r: Vec<String>)
        ensures
            are_granted(self.force_permissions, *session, synced@, r@),
            texts(r@) == if self.force_permissions {
                audio_ids(*session, session.assets.keys().len() as int)
            } else {
                texts(synced@)
            },
    {
        if !self.force_permissions {
            return synced;
        }
        let mut r: Vec<String> = Vec::new();
        let count: usize = session.assets.len();
        let mut i: usize = 0;
        assert(texts(r@) =~= audio_ids(*session, 0));
        while i < count
            invariant
                count == session.assets.keys().len(),
                i <= count,
                texts(r@) == audio_ids(*session, i as int),
            decreases count - i,
        {
            let ghost before = r@;
            let asset = session.assets.value_at(i);
            if asset.ident.asset_type.is_audio() {
                if let Some(target) = asset.targets.get(session.target.key.as_str()) {
                    r.push(target.id.clone());
                    assert(texts(r@) =~= texts(before).push(target.id@));
                }
            }
            i = i + 1;
        }
        r
    }
}

/// Strictly ascending positions below `count` are at most `count` many.
proof fn lemma_increasing_positions(positions: Seq<usize>, count: int)
    requires
        forall|a: int, b: int|
            0 <= a < b < positions.len() ==> positions[a] < positions[b],
        forall|i: usize| #[trigger] positions.contains(i) ==> i < count,
        0 <= count,
    ensures
        positions.len() <= count,
    decreases positions.len(),
{
    if positions.len() > 0 {
        let last = positions.last();
        assert(positions[positions.len() - 1] == last);
        assert(positions.contains(last));
        let before = positions.drop_last();
        assert forall|i: usize| #[trigger] before.contains(i) implies i < last by {
            let a = before.index_of(i);
            assert(positions[a] == i);
        }
        lemma_increasing_positions(before, last as int);
    }
}

} // verus!
