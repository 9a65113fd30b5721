use runway::asset::{Asset, AssetIdent, AssetType};
use runway::config::{
    Config, ProjectOptions, SyncOptions, TargetConfig, TargetType, UploadOptions,
};
use runway::error::{RbxCloudError, SessionError, StateError, SyncError};
use runway::hash::generate_asset_hash;
use runway::ordered_map::OrderedMap;
use runway::paths::Platform;
use runway::session::{decide, PendingAsset, SyncDecision, SyncSession, WalkItem};
use runway::state::{AssetState, State, TargetState};

fn options(force: bool) -> SyncOptions<String> {
    SyncOptions {
        project: ProjectOptions { config: None, target: "main".to_string() },
        upload: UploadOptions {
            api_key: None,
            creator: None,
            auth_cookie: None,
            force_permissions: false,
        },
        force,
    }
}

fn config() -> Config {
    Config {
        name: "demo".to_string(),
        platform: Platform::here(),
        root_path: "/project".to_string(),
        targets: vec![],
        inputs: vec![],
        universes: vec![],
    }
}

fn target() -> TargetConfig {
    TargetConfig { key: "main".to_string(), target_type: TargetType::Local }
}

fn ident(text: &str) -> AssetIdent {
    AssetIdent {
        text: text.to_string(),
        last_component: text.to_string(),
        asset_type: AssetType::DecalPng,
    }
}

fn asset(text: &str, hash: &str) -> Asset {
    Asset {
        ident: ident(text),
        path: format!("/project/{text}"),
        hash: hash.to_string(),
        contents: vec![],
        targets: OrderedMap::new(),
    }
}

fn target_state(hash: &str, local_path: Option<&str>) -> TargetState {
    TargetState {
        hash: hash.to_string(),
        id: format!("id of {hash}"),
        local_path: local_path.map(|p| p.to_string()),
    }
}

fn state(entries: &[(&str, &str, &str, Option<&str>)]) -> State {
    let mut state = State::default();
    for (ident, key, hash, local_path) in entries {
        let mut targets = OrderedMap::new();
        targets.insert(key.to_string(), target_state(hash, *local_path));
        state.assets.insert(ident.to_string(), AssetState { targets });
    }
    state
}

fn session(prev_state: State, force: bool) -> SyncSession {
    SyncSession::new(&options(force), config(), target(), Ok(prev_state)).unwrap_or_else(|_| {
        panic!("a readable state opens a session");
    })
}

#[test]
fn new_session_is_empty() {
    let session = session(state(&[("a", "main", "h", None)]), true);
    assert_eq!(session.config.name, "demo");
    assert_eq!(session.target.key, "main");
    assert!(session.force_sync);
    assert_eq!(session.assets.len(), 0);
    assert!(session.errors.is_empty());
    assert!(session.prev_state.assets.get("a").is_some());
}

#[test]
fn unreadable_state_opens_no_session() {
    let read = Err(StateError { message: "broken".to_string() });
    match SyncSession::new(&options(false), config(), target(), read) {
        Err(SyncError::State { source }) => assert_eq!(source.message, "broken"),
        _ => panic!("expected the state error"),
    }
}

#[test]
fn unknown_assets_are_synced() {
    let prev = state(&[("a", "main", "h", None)]);
    let hash = "h".to_string();
    assert!(matches!(decide(false, &prev, "b", "main", &hash, false), SyncDecision::Sync));
    assert!(matches!(decide(false, &prev, "a", "other", &hash, false), SyncDecision::Sync));
}

#[test]
fn unchanged_assets_are_skipped() {
    let prev = state(&[("a", "main", "h", None)]);
    let hash = "h".to_string();
    assert!(matches!(decide(false, &prev, "a", "main", &hash, false), SyncDecision::Skip));
}

#[test]
fn changed_assets_are_synced() {
    let prev = state(&[("a", "main", "h", Some("/copy"))]);
    let hash = "other".to_string();
    assert!(matches!(decide(false, &prev, "a", "main", &hash, false), SyncDecision::Sync));
    assert!(matches!(decide(false, &prev, "a", "main", &hash, true), SyncDecision::Sync));
}

#[test]
fn last_known_paths_count_where_asked_for() {
    let hash = "h".to_string();
    let with_path = state(&[("a", "main", "h", Some("/copy"))]);
    match decide(false, &with_path, "a", "main", &hash, true) {
        SyncDecision::CheckPath { path } => assert_eq!(path, "/copy"),
        _ => panic!("the path decides"),
    }
    assert!(matches!(decide(false, &with_path, "a", "main", &hash, false), SyncDecision::Skip));
    let without = state(&[("a", "main", "h", None)]);
    assert!(matches!(decide(false, &without, "a", "main", &hash, true), SyncDecision::Sync));
}

#[test]
fn forced_syncs_take_everything() {
    let prev = state(&[("a", "main", "h", None)]);
    let hash = "h".to_string();
    assert!(matches!(decide(true, &prev, "a", "main", &hash, false), SyncDecision::Sync));
}

#[test]
fn assets_that_need_a_sync_come_in_order() {
    let prev = state(&[
        ("a", "main", "1", Some("/a")),
        ("b", "main", "1", Some("/b")),
        ("c", "main", "old", Some("/c")),
        ("e", "main", "1", None),
    ]);
    let mut assets = OrderedMap::new();
    for (ident, hash) in [("d", "1"), ("c", "new"), ("b", "1"), ("a", "1"), ("e", "1")] {
        assets.insert(ident.to_string(), asset(ident, hash));
    }
    let exists = vec![true, false, true, true, true];
    let chosen = SyncSession::iter_needs_sync(false, &assets, &prev, &target(), true, &exists);
    assert_eq!(chosen, vec![1, 2, 3, 4]);
    let unchecked = SyncSession::iter_needs_sync(false, &assets, &prev, &target(), false, &exists);
    assert_eq!(unchecked, vec![2, 3]);
    let forced = SyncSession::iter_needs_sync(true, &assets, &prev, &target(), true, &exists);
    assert_eq!(forced, vec![0, 1, 2, 3, 4]);
}

#[test]
fn directories_are_no_assets() {
    assert!(matches!(SyncSession::classify_entry(Ok(true)), Ok(false)));
    assert!(matches!(SyncSession::classify_entry(Ok(false)), Ok(true)));
}

#[test]
fn entries_without_metadata_are_errors() {
    let lost = ignore::Error::Io(std::io::Error::new(std::io::ErrorKind::NotFound, "gone"));
    let r = SyncSession::classify_entry(Err(lost));
    assert!(matches!(r, Err(SyncError::Ignore { .. })));
}

#[test]
fn unsupported_files_are_errors() {
    let refusal = RbxCloudError::Other { message: "what is a .txt".to_string() };
    let r = SyncSession::identify_entry("/project/x.txt".to_string(), Err(refusal));
    match r {
        Err(SyncError::Unsupported { path, source: RbxCloudError::Other { message } }) => {
            assert_eq!(path, "/project/x.txt");
            assert_eq!(message, "what is a .txt");
        }
        _ => panic!("expected the file to be refused"),
    }
}

#[test]
fn files_become_assets() {
    let r = SyncSession::identify_entry("/project/a".to_string(), Ok(ident("a")));
    let pending = match r {
        Ok(pending) => pending,
        _ => panic!("a file is to be read"),
    };
    assert_eq!(pending.path, "/project/a");
    let prev = state(&[("a", "main", "h", None)]);
    let asset = SyncSession::process_entry(&prev, pending, Ok(b"abc".to_vec())).unwrap_or_else(
        |_| {
            panic!("a readable file is an asset");
        },
    );
    assert_eq!(asset.ident.text, "a");
    assert_eq!(asset.hash, generate_asset_hash(b"abc"));
    assert_eq!(asset.contents, b"abc".to_vec());
    assert_eq!(asset.targets.get("main").map(|t| t.hash.as_str()), Some("h"));
}

#[test]
fn new_files_have_no_targets() {
    let pending = PendingAsset { ident: ident("new"), path: "/project/new".to_string() };
    let asset = SyncSession::loaded_asset(&State::default(), pending, vec![1], "h".to_string());
    assert_eq!(asset.targets.len(), 0);
    assert_eq!(asset.path, "/project/new");
    assert_eq!(asset.hash, "h");
}

#[test]
fn unreadable_files_are_errors() {
    let pending = PendingAsset { ident: ident("a"), path: "/project/a".to_string() };
    let gone = std::io::Error::new(std::io::ErrorKind::NotFound, "gone");
    match SyncSession::process_entry(&State::default(), pending, Err(gone)) {
        Err(SyncError::Io { source }) => assert_eq!(source.kind(), std::io::ErrorKind::NotFound),
        _ => panic!("expected the read error"),
    }
}

#[test]
fn walk_errors_are_noted_and_assets_kept() {
    let mut session = session(State::default(), false);
    let lost = ignore::Error::Io(std::io::Error::new(std::io::ErrorKind::NotFound, "gone"));
    session.find_assets(vec![
        WalkItem::Entry(Ok(Some(asset("b", "1")))),
        WalkItem::Failed(lost),
        WalkItem::Entry(Ok(None)),
        WalkItem::Entry(Err(SyncError::UploadFailed)),
        WalkItem::Entry(Ok(Some(asset("a", "2")))),
        WalkItem::Entry(Ok(Some(asset("b", "3")))),
    ]);
    assert_eq!(session.assets.len(), 2);
    assert_eq!(session.assets.key_at(0), "a");
    assert_eq!(session.assets.get("b").map(|a| a.hash.as_str()), Some("3"));
    assert_eq!(session.errors.len(), 2);
    assert!(matches!(session.errors[0], SessionError::Walk(_)));
    assert!(matches!(session.errors[1], SessionError::Sync(SyncError::UploadFailed)));
}

#[test]
fn written_state_holds_the_assets_that_were_found() {
    let mut session = session(state(&[("gone", "main", "h", None)]), false);
    let mut found = asset("a", "2");
    found.targets.insert("main".to_string(), target_state("2", Some("/copy")));
    found.targets.insert("other".to_string(), target_state("1", None));
    session.find_assets(vec![
        WalkItem::Entry(Ok(Some(found))),
        WalkItem::Entry(Ok(Some(asset("b", "3")))),
    ]);
    let state = session.write_state();
    assert_eq!(state.assets.len(), 2);
    assert!(state.assets.get("gone").is_none());
    assert_eq!(state.assets.get("b").map(|s| s.targets.len()), Some(0));
    let known = state.assets.get("a").unwrap();
    assert_eq!(known.targets.get("main").unwrap().local_path, Some("/copy".to_string()));
    assert_eq!(known.targets.get("other").unwrap().hash, "1");
}

#[test]
fn what_was_synced_is_left_alone_next_time() {
    let mut first = session(State::default(), false);
    let mut found = asset("a", "2");
    found.targets.insert("main".to_string(), target_state("2", None));
    first.find_assets(vec![WalkItem::Entry(Ok(Some(found)))]);
    let state = first.write_state();
    let same = "2".to_string();
    let changed = "3".to_string();
    assert!(matches!(decide(false, &state, "a", "main", &same, false), SyncDecision::Skip));
    assert!(matches!(decide(false, &state, "a", "main", &changed, false), SyncDecision::Sync));
}

#[test]
fn summary_adds_up() {
    let mut session = session(State::default(), false);
    let found = ["a", "b", "c", "d"];
    session.find_assets(
        found.iter().map(|i| WalkItem::Entry(Ok(Some(asset(i, "1"))))).collect(),
    );
    let summary = session.perform_sync(2, 1);
    assert_eq!((summary.synced, summary.failed, summary.skipped), (2, 1, 1));
}

#[test]
fn sessions_without_errors_succeed() {
    let session = session(State::default(), false);
    assert!(session.finish().is_ok());
}

#[test]
fn sessions_with_errors_say_how_many() {
    let mut session = session(State::default(), false);
    session.raise_error(SessionError::Codegen { message: "no".to_string() });
    session.raise_error(SessionError::Sync(SyncError::RobloxApi));
    assert!(matches!(session.finish(), Err(SyncError::HadErrors { error_count: 2 })));
}

#[test]
fn raised_errors_keep_their_order() {
    let mut errors = Vec::new();
    runway::error::raise_error(SessionError::Sync(SyncError::UploadFailed), &mut errors);
    runway::error::raise_error(SessionError::Sync(SyncError::RobloxApi), &mut errors);
    assert_eq!(errors.len(), 2);
    assert!(matches!(errors[0], SessionError::Sync(SyncError::UploadFailed)));
    assert!(matches!(errors[1], SessionError::Sync(SyncError::RobloxApi)));
}

#[test]
fn found_assets_have_the_hash_of_their_contents() {
    let mut session = session(State::default(), false);
    let read = |text: &str, contents: &[u8]| {
        let pending = PendingAsset { ident: ident(text), path: format!("/project/{text}") };
        SyncSession::process_entry(&State::default(), pending, Ok(contents.to_vec())).map(Some)
    };
    session.find_assets(vec![
        WalkItem::Entry(read("a", b"one")),
        WalkItem::Entry(read("b", b"two")),
        WalkItem::Entry(read("a", b"three")),
    ]);
    for i in 0..session.assets.len() {
        let asset = session.assets.value_at(i);
        assert_eq!(asset.hash, generate_asset_hash(&asset.contents));
    }
    assert_eq!(session.assets.get("a").unwrap().contents, b"three".to_vec());
}
