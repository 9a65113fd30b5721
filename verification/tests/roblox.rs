use runway::asset::{Asset, AssetIdent, AssetType};
use runway::config::{
    AssetCreator, Config, ProjectOptions, SyncOptions, TargetConfig, TargetType, UploadOptions,
};
use runway::error::{SessionError, SyncError};
use runway::ordered_map::OrderedMap;
use runway::paths::Platform;
use runway::roblox::RobloxSyncStrategy;
use runway::session::{SyncSession, WalkItem};
use runway::state::{AssetState, State, TargetState};
use runway::upload::UploadAction;

fn upload_options(cookie: Option<&str>, force_permissions: bool) -> UploadOptions<String> {
    UploadOptions {
        api_key: Some("key".to_string()),
        creator: None,
        auth_cookie: cookie.map(|c| c.to_string()),
        force_permissions,
    }
}

fn strategy(force_permissions: bool) -> RobloxSyncStrategy<String> {
    RobloxSyncStrategy::new(
        "key",
        AssetCreator::User { user_id: "42".to_string() },
        upload_options(None, force_permissions),
        None,
    )
}

fn asset(text: &str, asset_type: AssetType, hash: &str) -> Asset {
    Asset {
        ident: AssetIdent {
            text: text.to_string(),
            last_component: format!("{text} (last)"),
            asset_type,
        },
        path: format!("/project/{text}"),
        hash: hash.to_string(),
        contents: vec![1],
        targets: OrderedMap::new(),
    }
}

fn session(prev_state: State, assets: Vec<Asset>) -> SyncSession {
    let options: SyncOptions<String> = SyncOptions {
        project: ProjectOptions { config: None, target: "cloud".to_string() },
        upload: upload_options(None, false),
        force: false,
    };
    let config = Config {
        name: "demo".to_string(),
        platform: Platform::here(),
        root_path: "/project".to_string(),
        targets: vec![],
        inputs: vec![],
        universes: vec![],
    };
    let target = TargetConfig { key: "cloud".to_string(), target_type: TargetType::Roblox };
    let mut session = match SyncSession::new(&options, config, target, Ok(prev_state)) {
        Ok(session) => session,
        Err(_) => panic!("a readable state opens a session"),
    };
    session.find_assets(assets.into_iter().map(|a| WalkItem::Entry(Ok(Some(a)))).collect());
    session
}

fn uploaded(hash: &str, id: &str) -> OrderedMap<TargetState> {
    let mut targets = OrderedMap::new();
    targets.insert(
        "cloud".to_string(),
        TargetState { hash: hash.to_string(), id: id.to_string(), local_path: None },
    );
    targets
}

#[test]
fn the_client_holds_the_key() {
    let strategy = RobloxSyncStrategy::new(
        "a secret key",
        AssetCreator::Group { group_id: "7".to_string() },
        upload_options(None, true),
        None,
    );
    assert_eq!(strategy.assets.api_key, "a secret key");
    assert!(matches!(strategy.creator, AssetCreator::Group { group_id } if group_id == "7"));
    assert!(strategy.force_permissions);
    assert!(strategy.cookie.is_none());
}

#[test]
fn cookies_from_the_command_line_go_first() {
    let make = |given: Option<&str>, found: Option<&str>| {
        RobloxSyncStrategy::new(
            "key",
            AssetCreator::User { user_id: "42".to_string() },
            upload_options(given, false),
            found.map(|c| c.to_string()),
        )
        .cookie
    };
    assert_eq!(make(Some("given"), Some("found")), Some("given".to_string()));
    assert_eq!(make(None, Some("found")), Some("found".to_string()));
    assert_eq!(make(Some("given"), None), Some("given".to_string()));
    assert_eq!(make(None, None), None);
}

#[test]
fn creations_describe_the_asset() {
    let strategy = strategy(false);
    let sound = asset("a", AssetType::AudioOgg, "1");
    let request = strategy.create_asset_request(&sound.ident, &sound, "Sword");
    assert_eq!(request.asset_type, AssetType::AudioOgg);
    assert_eq!(request.display_name, "Sword");
    assert_eq!(request.description, "Uploaded by Runway.");
    assert_eq!(request.expected_price, Some(0));
    assert_eq!(request.filepath, "/project/a");
    assert!(matches!(request.creator, AssetCreator::User { user_id } if user_id == "42"));
}

#[test]
fn uploads_go_under_the_last_part_of_the_identifier() {
    let strategy = strategy(false);
    let task = strategy.begin_upload(&asset("a", AssetType::AudioOgg, "1"));
    assert_eq!(task.name, "a (last)");
    assert!(matches!(task.action(), UploadAction::Preprocess));
}

#[test]
fn plans_take_what_has_changed() {
    let strategy = strategy(false);
    let mut prev = State::default();
    prev.assets.insert("a".to_string(), AssetState { targets: uploaded("1", "rbxassetid://5") });
    prev.assets.insert("b".to_string(), AssetState { targets: uploaded("1", "rbxassetid://6") });
    let session = session(
        prev,
        vec![
            asset("a", AssetType::DecalPng, "1"),
            asset("b", AssetType::DecalPng, "2"),
            asset("c", AssetType::DecalPng, "3"),
        ],
    );
    let tally = strategy.plan(&session);
    assert_eq!(tally.waiting, vec![1, 2]);
    assert_eq!((tally.planned, tally.ok_count, tally.err_count), (2, 0, 0));
    assert!(tally.synced.is_empty());
}

#[test]
fn outcomes_are_recorded_in_any_order() {
    let strategy = strategy(false);
    let assets = || {
        vec![
            asset("a", AssetType::AudioMp3, "1"),
            asset("b", AssetType::DecalPng, "2"),
            asset("c", AssetType::AudioOgg, "3"),
            asset("d", AssetType::AudioOgg, "4"),
        ]
    };
    let outcome = |index: usize| match index {
        0 => Ok("10".to_string()),
        1 => Ok("11".to_string()),
        2 => Ok("12".to_string()),
        _ => Err(SyncError::UploadFailed),
    };
    for order in [[0usize, 1, 2, 3], [3, 2, 1, 0], [2, 0, 3, 1]] {
        let mut session = session(State::default(), assets());
        let mut tally = strategy.plan(&session);
        for (done, index) in order.into_iter().enumerate() {
            assert_eq!(tally.waiting.len(), 4 - done);
            strategy.collect(&mut session, &mut tally, index, outcome(index));
            assert!(!tally.waiting.contains(&index));
        }
        assert!(tally.waiting.is_empty());
        assert_eq!((tally.ok_count, tally.err_count), (3, 1));
        let mut sounds = tally.synced.clone();
        sounds.sort();
        assert_eq!(sounds, vec!["10", "12"]);
        let b = session.assets.get("b").unwrap().targets.get("cloud").unwrap();
        assert_eq!((b.hash.as_str(), b.id.as_str()), ("2", "rbxassetid://11"));
        assert!(b.local_path.is_none());
        assert_eq!(session.assets.get("d").unwrap().targets.len(), 0);
        assert_eq!(session.errors.len(), 1);
        assert!(matches!(session.errors[0], SessionError::Sync(SyncError::UploadFailed)));
        let summary = session.perform_sync(tally.ok_count, tally.err_count);
        assert_eq!((summary.synced, summary.failed, summary.skipped), (3, 1, 0));
    }
}

#[test]
fn a_second_sync_uploads_nothing() {
    let strategy = strategy(false);
    let found =
        || vec![asset("a", AssetType::AudioMp3, "1"), asset("b", AssetType::DecalPng, "2")];
    let mut first = session(State::default(), found());
    let mut tally = strategy.plan(&first);
    for index in tally.waiting.clone() {
        strategy.collect(&mut first, &mut tally, index, Ok(format!("{index}")));
    }
    let second = session(first.write_state(), found());
    assert!(strategy.plan(&second).waiting.is_empty());
}

#[test]
fn failed_uploads_are_planned_again() {
    let strategy = strategy(false);
    let found = || vec![asset("a", AssetType::AudioMp3, "1")];
    let mut first = session(State::default(), found());
    let mut tally = strategy.plan(&first);
    strategy.collect(&mut first, &mut tally, 0, Err(SyncError::RobloxApi));
    let second = session(first.write_state(), found());
    assert_eq!(strategy.plan(&second).waiting, vec![0]);
}

#[test]
fn permissions_are_for_new_sounds() {
    let strategy = strategy(false);
    let mut old = asset("a", AssetType::AudioMp3, "1");
    old.targets = uploaded("1", "rbxassetid://5");
    let session = session(State::default(), vec![old]);
    let sounds = strategy.permission_assets(&session, vec!["10".to_string()]);
    assert_eq!(sounds, vec!["10".to_string()]);
}

#[test]
fn forced_permissions_are_for_all_sounds() {
    let strategy = strategy(true);
    let mut old = asset("b", AssetType::AudioMp3, "1");
    old.targets = uploaded("1", "rbxassetid://5");
    let mut image = asset("c", AssetType::DecalPng, "1");
    image.targets = uploaded("1", "rbxassetid://6");
    let mut session = session(
        State::default(),
        vec![
            asset("a", AssetType::AudioOgg, "1"),
            old,
            image,
            asset("d", AssetType::AudioOgg, "1"),
        ],
    );
    let mut tally = strategy.plan(&session);
    strategy.collect(&mut session, &mut tally, 0, Ok("10".to_string()));
    assert!(tally.synced.is_empty());
    let sounds = strategy.permission_assets(&session, tally.synced);
    assert_eq!(sounds, vec!["rbxassetid://10".to_string(), "rbxassetid://5".to_string()]);
}

#[test]
fn prepared_contents_stay_with_the_asset() {
    let strategy = strategy(false);
    let mut session = session(
        State::default(),
        vec![asset("a", AssetType::AudioMp3, "1"), asset("b", AssetType::AudioMp3, "2")],
    );
    let mut tally = strategy.plan(&session);
    session.store_prepared(0, vec![7, 8, 9]);
    strategy.collect(&mut session, &mut tally, 0, Err(SyncError::UploadFailed));
    session.store_prepared(1, vec![5]);
    strategy.collect(&mut session, &mut tally, 1, Ok("10".to_string()));
    let a = session.assets.get("a").unwrap();
    assert_eq!((a.contents.clone(), a.hash.as_str(), a.targets.len()), (vec![7, 8, 9], "1", 0));
    let b = session.assets.get("b").unwrap();
    assert_eq!((b.contents.clone(), b.hash.as_str(), b.targets.len()), (vec![5], "2", 1));
}

#[test]
fn permissions_do_not_touch_assets() {
    let run = |force_permissions: bool| {
        let strategy = strategy(force_permissions);
        let mut session = session(
            State::default(),
            vec![asset("a", AssetType::AudioMp3, "1"), asset("b", AssetType::DecalPng, "2")],
        );
        session.raise_error(SessionError::Codegen { message: "earlier".to_string() });
        let mut tally = strategy.plan(&session);
        strategy.collect(&mut session, &mut tally, 1, Err(SyncError::UploadFailed));
        strategy.collect(&mut session, &mut tally, 0, Ok("10".to_string()));
        let known = session.assets.get("a").unwrap().targets.get("cloud").unwrap().id.clone();
        let texts: Vec<String> = session.errors.iter().map(|e| e.message()).collect();
        (tally.ok_count, tally.err_count, texts, known)
    };
    assert_eq!(run(false), run(true));
    let (ok_count, err_count, texts, known) = run(true);
    assert_eq!((ok_count, err_count), (1, 1));
    assert_eq!(texts, vec!["earlier", "Failed to upload file"]);
    assert_eq!(known, "rbxassetid://10");
}
