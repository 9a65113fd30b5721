//! What single requests, files, targets and errors are.
use crate::asset::{Asset, AssetIdent, AssetType};
use crate::config::{
    first_target, AssetCreator, Config, SyncOptions, TargetConfig, UploadOptions,
};
use crate::error::{
    ConfigError, PreprocessError, RbxCloudError, SessionError, StateError, SymlinkError, SyncError,
};
use crate::flow::{begins, begins_as_named, SyncFlow};
use crate::hash::{asset_hash, blake3_digest};
use crate::ordered_map::OrderedMap;
use crate::roblox::{
    are_granted, asks_to_create, audio_ids, begins_for, client_key, is_set_up, texts,
    CreateAssetRequest, RobloxSyncStrategy,
};
use crate::session::{
    asset_decision, comes_to, decision, identified_as, loaded_from, picks, sums_up, PendingAsset,
    SyncSession, SyncSummary,
};
use crate::session_step_laws::known_unchanged;
use crate::state::{AssetState, State};
use crate::text::decimal_text;
use crate::upload::{StageModel, UploadModel};
use vstd::prelude::*;
use vstd::std_specs::convert::FromSpec;

verus! {

/// A creation is asked for with what the asset is: its kind, its own file, the
/// name that it goes under, and whom it is for. It costs nothing.
pub proof fn law_creations_say_what_the_asset_is(
    request: CreateAssetRequest,
    creator: AssetCreator,
    ident: AssetIdent,
    asset: Asset,
    name: Seq<char>,
)
    requires
        asks_to_create(request, creator, ident, asset, name),
    ensures
        request.asset_type == ident.asset_type,
        request.display_name@ == name,
        request.description@ == "Uploaded by Runway."@,
        request.creator == creator,
        request.expected_price == Some(0u64),
        request.filepath@ == asset.path@,
{
}

/// Uploads use the key and the creator that they are given. A cookie from the
/// command line is used even if another one was found, and that other one only
/// where the command line has none.
pub proof fn law_given_cookies_go_first<S>(
    strategy: RobloxSyncStrategy<S>,
    api_key: Seq<char>,
    creator: AssetCreator,
    options: UploadOptions<S>,
    found_cookie: Option<S>,
)
    requires
        is_set_up(strategy, api_key, creator, options, found_cookie),
    ensures
        client_key(strategy.assets) == api_key,
        strategy.creator == creator,
        strategy.force_permissions == options.force_permissions,
        options.auth_cookie is Some ==> strategy.cookie == options.auth_cookie,
        options.auth_cookie is None ==> strategy.cookie == found_cookie,
{
}

/// A file that was read is an asset with the file's own contents, and what
/// earlier syncs know of it at each target is known of it still.
pub proof fn law_files_are_loaded_as_they_are(
    known: Map<Seq<char>, AssetState>,
    pending: PendingAsset,
    contents: Vec<u8>,
    asset: Asset,
    key: Seq<char>,
)
    requires
        loaded_from(known, pending, contents, asset),
    ensures
        asset.ident == pending.ident,
        asset.path == pending.path,
        asset.contents@ == contents@,
        asset.hash@ == asset_hash(contents@),
        asset.hash@.len() == 2 * blake3_digest(contents@).len(),
        ({
            let ident = pending.ident.text@;
            let before = known[ident].targets@;
            &&& asset.targets@.contains_key(key) <==> known.contains_key(ident)
                && before.contains_key(key)
            &&& asset.targets@.contains_key(key) ==> {
                &&& asset.targets@[key].hash == before[key].hash
                &&& asset.targets@[key].id == before[key].id
                &&& asset.targets@[key].local_path == before[key].local_path
            }
        }),
{
}

/// Whichever assets are asked about, and with or without their paths, one is
/// picked exactly if syncing is forced, it is not known at the target with the
/// hash that it has, or its copy counts and is not there.
pub proof fn law_picked_assets_need_it(
    session: SyncSession,
    check_local_path: bool,
    path_exists: bool,
    i: int,
)
    ensures
        ({
            let ident = session.assets.keys()[i];
            let key = session.target.key@;
            let known = session.prev_state.assets@;
            let decided = asset_decision(
                session.force_sync,
                session.assets,
                session.prev_state,
                session.target,
                check_local_path,
                i,
            );
            decided.needs_sync(path_exists) <==> {
                ||| session.force_sync
                ||| !known_unchanged(known, ident, key, session.assets.values()[i].hash@)
                ||| check_local_path && (known[ident].targets@[key].local_path is None
                    || !path_exists)
            }
        }),
{
}

/// The assets that have to be synced are picked out one by one, none twice, in
/// the order of their identifiers: those that are forced, that are not known at
/// the target with the hash that they have, or whose copy counts and is not there.
pub proof fn law_assets_are_picked_for_a_reason(
    force: bool,
    assets: OrderedMap<Asset>,
    prev_state: State,
    target: TargetConfig,
    check_local_path: bool,
    path_exists: Seq<bool>,
    chosen: Seq<usize>,
    i: usize,
)
    requires
        picks(force, assets, prev_state, target, check_local_path, path_exists, chosen),
    ensures
        chosen.no_duplicates(),
        forall|a: int, b: int| 0 <= a < b < chosen.len() ==> chosen[a] < chosen[b],
        ({
            let ident = assets.keys()[i as int];
            let known = prev_state.assets@;
            let hash = assets.values()[i as int].hash@;
            chosen.contains(i) <==> i < assets.keys().len() && {
                ||| force
                ||| !known_unchanged(known, ident, target.key@, hash)
                ||| check_local_path && (known[ident].targets@[target.key@].local_path is None
                    || !path_exists[i as int])
            }
        }),
{
}

/// A sync begins as the command line names it: where the configuration cannot be
/// read, that is reported; where no target has the key, that is; otherwise it
/// begins to the first target that has it.
pub proof fn law_syncs_begin_to_the_named_target<S>(
    options: SyncOptions<S>,
    read: Result<Config, ConfigError>,
    r: Result<SyncFlow, SyncError>,
    at: int,
)
    requires
        begins_as_named(options, read, r),
    ensures
        read matches Err(source) ==> r == Err::<SyncFlow, SyncError>(SyncError::Config { source }),
        read matches Ok(config) ==> ((forall|i: int|
            0 <= i < config.targets@.len() ==> (#[trigger] config.targets@[i]).key@
                != options.project.target@) ==> r == Err::<SyncFlow, SyncError>(
            SyncError::Config { source: ConfigError::UnknownTarget },
        )),
        read matches Ok(config) ==> (0 <= at < config.targets@.len() && config.targets@[at].key@
            == options.project.target@ && (forall|i: int|
            0 <= i < at ==> (#[trigger] config.targets@[i]).key@ != options.project.target@)
            ==> begins(options, config, config.targets@[at], r)),
{
    if let Ok(config) = read {
        if 0 <= at < config.targets@.len() && config.targets@[at].key@ == options.project.target@
            && (forall|i: int|
            0 <= i < at ==> (#[trigger] config.targets@[i]).key@ != options.project.target@) {
            assert(first_target(config.targets@, options.project.target@, at));
        }
    }
}

/// Only one target can be the first one with a key, and no earlier one has it.
pub proof fn law_first_targets_are_first(
    targets: Seq<TargetConfig>,
    key: Seq<char>,
    at: int,
    other: int,
)
    requires
        first_target(targets, key, at),
        0 <= other < targets.len(),
        targets[other].key@ == key,
    ensures
        0 <= at < targets.len(),
        targets[at].key@ == key,
        at <= other,
        first_target(targets, key, other) ==> other == at,
{
}

/// Every kind of asset is an image, a sound or a model, and only one of these.
pub proof fn law_kinds_of_assets(kind: AssetType)
    ensures
        kind.decal() <==> kind == AssetType::DecalPng || kind == AssetType::DecalJpeg || kind
            == AssetType::DecalBmp || kind == AssetType::DecalTga,
        kind.audio() <==> kind == AssetType::AudioMp3 || kind == AssetType::AudioOgg,
        !(kind.decal() && kind.audio()),
        !kind.decal() && !kind.audio() <==> kind == AssetType::ModelFbx,
{
}

/// Errors read as what went wrong, with the path or the number that belongs to
/// them.
pub proof fn law_errors_say_what_went_wrong(error: SyncError)
    ensures
        error is MissingApiKey ==> error.text() == Some(
            "API key is required for Roblox sync targets"@,
        ),
        error is MissingCreator ==> error.text() == Some(
            "User ID or group ID is required for Roblox sync targets"@,
        ),
        error is UploadFailed ==> error.text() == Some("Failed to upload file"@),
        error is UploadNotDone ==> error.text() == Some("Upload not finished"@),
        error is RobloxApi ==> error.text() == Some("Roblox API error"@),
        error matches SyncError::Unsupported { path, source } ==> error.text() == Some(
            "Matched file at "@ + path@ + " is not supported"@,
        ),
        error matches SyncError::HadErrors { error_count } ==> error.text() == Some(
            "Sync finished with "@ + decimal_text(error_count as nat) + " error(s)"@,
        ),
        error matches SyncError::Preprocess { source } ==> error.text() == Some(source.message@),
        error matches SyncError::State { source } ==> error.text() == Some(source.message@),
        error matches SyncError::SymlinkError { source } ==> error.text() == Some(source.message@),
        error matches SyncError::Config { source: ConfigError::UnknownTarget } ==> error.text()
            == Some("Unknown target"@),
        error matches SyncError::Config { source: ConfigError::Unreadable { message } }
            ==> error.text() == Some(message@),
        error matches SyncError::RbxCloud { source: RbxCloudError::Other { message } }
            ==> error.text() == Some(message@),
        error matches SyncError::RbxCloud { source: RbxCloudError::HttpStatusError { code, msg } }
            ==> error.text() == Some("http "@ + decimal_text(code as nat) + ": "@ + msg@),
{
}

/// A noted error reads as the error that it is.
pub proof fn law_noted_errors_say_what_went_wrong(error: SessionError)
    ensures
        error matches SessionError::Sync(inner) ==> error.text() == inner.text(),
        error matches SessionError::Codegen { message } ==> error.text() == Some(message@),
{
}

/// A state that was never written knows nothing, so that every asset is new to
/// it.
pub proof fn law_empty_states_know_nothing(
    state: State,
    ident: Seq<char>,
    key: Seq<char>,
    hash: Seq<char>,
    check_local_path: bool,
)
    requires
        state.assets@.dom() =~= Set::<Seq<char>>::empty(),
    ensures
        decision(false, state.assets@, ident, key, hash, check_local_path) is Sync,
{
}

/// An upload begins with nothing done, as the asset's kind, under the last part
/// of the asset's identifier.
pub proof fn law_uploads_begin_as_their_asset(upload: UploadModel, asset: Asset)
    requires
        begins_for(upload, asset),
    ensures
        upload.asset_type == asset.ident.asset_type,
        upload.name == asset.ident.last_component@,
        upload.stage == StageModel::Preprocess,
{
}

/// Permissions are granted for the sounds that were uploaded, in their order, or,
/// if that is forced, for those that stand at the target.
pub proof fn law_permissions_are_for_the_right_sounds(
    force_permissions: bool,
    session: SyncSession,
    synced: Seq<String>,
    sounds: Seq<String>,
    i: int,
)
    requires
        are_granted(force_permissions, session, synced, sounds),
    ensures
        !force_permissions ==> sounds.len() == synced.len(),
        !force_permissions && 0 <= i < sounds.len() ==> sounds[i]@ == synced[i]@,
        force_permissions ==> sounds.len() == audio_ids(
            session,
            session.assets.keys().len() as int,
        ).len(),
        force_permissions && 0 <= i < sounds.len() ==> sounds[i]@ == audio_ids(
            session,
            session.assets.keys().len() as int,
        )[i],
{
    let shown = texts(sounds);
    let listed = texts(synced);
    assert(shown.len() == sounds.len() && listed.len() == synced.len());
    if 0 <= i < sounds.len() {
        assert(shown[i] == sounds[i]@);
        if !force_permissions {
            assert(listed[i] == synced[i]@);
        }
    }
}

/// A summary leaves no asset out and counts none twice.
pub proof fn law_summaries_add_up(
    summary: SyncSummary,
    count: nat,
    ok_count: usize,
    err_count: usize,
)
    requires
        sums_up(summary, count, ok_count, err_count),
    ensures
        summary.synced == ok_count,
        summary.failed == err_count,
        summary.synced + summary.failed + summary.skipped == count,
{
}

/// A session comes out well exactly if no error was noted down, and otherwise
/// says how many were.
pub proof fn law_sessions_report_their_errors(
    errors: Seq<SessionError>,
    outcome: Result<(), SyncError>,
)
    requires
        comes_to(errors, outcome),
    ensures
        outcome is Ok <==> errors.len() == 0,
        outcome is Err ==> outcome->Err_0 is HadErrors && outcome->Err_0->error_count
            == errors.len(),
{
}

/// A file is read as what it was identified as, at its own path. One that could
/// not be identified is reported with its path and the reason.
pub proof fn law_files_are_what_they_are_identified_as(
    path: String,
    ident: Result<AssetIdent, RbxCloudError>,
    r: Result<PendingAsset, SyncError>,
)
    requires
        identified_as(path, ident, r),
    ensures
        r is Ok <==> ident is Ok,
        r matches Ok(pending) ==> pending.path == path && Ok::<AssetIdent, RbxCloudError>(
            pending.ident,
        ) == ident,
        r matches Err(e) ==> e is Unsupported && e->Unsupported_path == path && Err::<
            AssetIdent,
            RbxCloudError,
        >(e->Unsupported_source) == ident,
{
}

/// An error of one part is the sync's error of that part, with nothing lost.
pub proof fn law_errors_keep_their_source(
    preprocess: PreprocessError,
    config: ConfigError,
    state: StateError,
    symlink: SymlinkError,
    cloud: RbxCloudError,
    io: std::io::Error,
    walk: ignore::Error,
    http: reqwest::Error,
)
    ensures
        <SyncError as FromSpec<PreprocessError>>::from_spec(preprocess) == (
        SyncError::Preprocess { source: preprocess }),
        <SyncError as FromSpec<ConfigError>>::from_spec(config) == (SyncError::Config {
            source: config,
        }),
        <SyncError as FromSpec<StateError>>::from_spec(state) == (SyncError::State {
            source: state,
        }),
        <SyncError as FromSpec<SymlinkError>>::from_spec(symlink) == (SyncError::SymlinkError {
            source: symlink,
        }),
        <SyncError as FromSpec<RbxCloudError>>::from_spec(cloud) == (SyncError::RbxCloud {
            source: cloud,
        }),
        <SyncError as FromSpec<std::io::Error>>::from_spec(io) == (SyncError::Io { source: io }),
        <SyncError as FromSpec<ignore::Error>>::from_spec(walk) == (SyncError::Ignore {
            source: walk,
        }),
        <SyncError as FromSpec<reqwest::Error>>::from_spec(http) == (SyncError::Reqwest {
            source: http,
        }),
        <SyncError as FromSpec<PreprocessError>>::obeys_from_spec(),
        <SyncError as FromSpec<ConfigError>>::obeys_from_spec(),
        <SyncError as FromSpec<StateError>>::obeys_from_spec(),
        <SyncError as FromSpec<SymlinkError>>::obeys_from_spec(),
        <SyncError as FromSpec<RbxCloudError>>::obeys_from_spec(),
        <SyncError as FromSpec<std::io::Error>>::obeys_from_spec(),
        <SyncError as FromSpec<ignore::Error>>::obeys_from_spec(),
        <SyncError as FromSpec<reqwest::Error>>::obeys_from_spec(),
{
}

} // verus!
