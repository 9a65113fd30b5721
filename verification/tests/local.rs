use runway::asset::{Asset, AssetIdent, AssetType};
use runway::config::{
    Config, ProjectOptions, SyncOptions, TargetConfig, TargetType, UploadOptions,
};
use runway::error::{PreprocessError, SessionError, SyncError};
use runway::local::{LocalEvent, LocalRun, LocalStage, LocalSyncStrategy};
use runway::ordered_map::OrderedMap;
use runway::paths::Platform;
use runway::session::{SyncSession, WalkItem};
use runway::state::{AssetState, State, TargetState};

fn asset(text: &str, hash: &str) -> Asset {
    Asset {
        ident: AssetIdent {
            text: text.to_string(),
            last_component: text.to_string(),
            asset_type: AssetType::DecalPng,
        },
        path: format!("/project/{text}"),
        hash: hash.to_string(),
        contents: vec![0],
        targets: OrderedMap::new(),
    }
}

fn known(hash: &str, path: &str) -> AssetState {
    let mut targets = OrderedMap::new();
    targets.insert(
        "main".to_string(),
        TargetState {
            hash: hash.to_string(),
            id: "old".to_string(),
            local_path: Some(path.to_string()),
        },
    );
    AssetState { targets }
}

fn session(prev_state: State, assets: Vec<Asset>) -> SyncSession {
    let options: SyncOptions<String> = SyncOptions {
        project: ProjectOptions { config: None, target: "main".to_string() },
        upload: UploadOptions {
            api_key: None,
            creator: None,
            auth_cookie: None,
            force_permissions: false,
        },
        force: false,
    };
    let config = Config {
        name: "demo".to_string(),
        platform: Platform::here(),
        root_path: "/project".to_string(),
        targets: vec![],
        inputs: vec![],
        universes: vec![],
    };
    let target = TargetConfig { key: "main".to_string(), target_type: TargetType::Local };
    let mut session = match SyncSession::new(&options, config, target, Ok(prev_state)) {
        Ok(session) => session,
        Err(_) => panic!("a readable state opens a session"),
    };
    session.find_assets(assets.into_iter().map(|a| WalkItem::Entry(Ok(Some(a)))).collect());
    session
}

fn prepared(filename: &str, contents: &[u8]) -> LocalEvent {
    LocalEvent::Prepared { filename: filename.to_string(), contents: Ok(contents.to_vec()) }
}

fn strategy() -> LocalSyncStrategy {
    LocalSyncStrategy::new("/project/.runway".to_string())
}

fn counts(run: &LocalRun) -> (usize, usize, usize) {
    (run.index, run.ok_count, run.err_count)
}

#[test]
fn local_strategy_knows_its_folder() {
    assert_eq!(strategy().local_path, "/project/.runway");
}

#[test]
fn runs_without_assets_are_over() {
    let session = session(State::default(), vec![]);
    let run = strategy().start(&session);
    assert!(matches!(run.stage, LocalStage::Finished));
    assert_eq!(counts(&run), (0, 0, 0));
}

#[test]
fn new_assets_are_copied() {
    let strategy = strategy();
    let mut session = session(State::default(), vec![asset("a.png", "h1")]);
    let run = strategy.start(&session);
    assert!(matches!(run.stage, LocalStage::Prepare));
    let run = strategy.perform_sync(&mut session, run, prepared("a-123.png", &[7, 8]));
    match &run.stage {
        LocalStage::Write { content_path, file_path } => {
            assert_eq!(content_path, ".runway/demo/a-123.png");
            assert_eq!(file_path, "/project/.runway/a-123.png");
        }
        _ => panic!("the contents have to be written"),
    }
    assert_eq!(session.assets.get("a.png").unwrap().contents, vec![7, 8]);
    let run = strategy.perform_sync(&mut session, run, LocalEvent::Written(Ok(())));
    assert!(matches!(run.stage, LocalStage::Finished));
    assert_eq!(counts(&run), (1, 1, 0));
    let target = session.assets.get("a.png").unwrap().targets.get("main").unwrap();
    assert_eq!(target.hash, "h1");
    assert_eq!(target.id, "rbxasset://.runway/demo/a-123.png");
    assert_eq!(target.local_path, Some("/project/.runway/a-123.png".to_string()));
    assert!(session.errors.is_empty());
}

#[test]
fn backslashes_in_names_do_not_reach_the_id() {
    let strategy = strategy();
    let mut session = session(State::default(), vec![asset("a", "h1")]);
    let run = strategy.start(&session);
    let run = strategy.perform_sync(&mut session, run, prepared("sub\\a-1", &[]));
    let run = strategy.perform_sync(&mut session, run, LocalEvent::Written(Ok(())));
    assert!(matches!(run.stage, LocalStage::Finished));
    let target = session.assets.get("a").unwrap().targets.get("main").unwrap();
    assert_eq!(target.id, "rbxasset://.runway/demo/sub/a-1");
}

#[test]
fn copies_that_are_still_there_are_left_alone() {
    let strategy = strategy();
    let mut prev = State::default();
    prev.assets.insert("a".to_string(), known("h1", "/copy/a"));
    let mut session = session(prev, vec![asset("a", "h1"), asset("b", "h2")]);
    let run = strategy.start(&session);
    match &run.stage {
        LocalStage::Probe { path } => assert_eq!(path, "/copy/a"),
        _ => panic!("the copy has to be looked for"),
    }
    let run = strategy.perform_sync(&mut session, run, LocalEvent::Probed(true));
    assert_eq!(counts(&run), (1, 0, 0));
    assert!(matches!(run.stage, LocalStage::Prepare));
}

#[test]
fn copies_that_are_gone_are_made_again() {
    let strategy = strategy();
    let mut prev = State::default();
    prev.assets.insert("a".to_string(), known("h1", "/copy/a"));
    let mut session = session(prev, vec![asset("a", "h1")]);
    let run = strategy.start(&session);
    let run = strategy.perform_sync(&mut session, run, LocalEvent::Probed(false));
    assert_eq!(counts(&run), (0, 0, 0));
    assert!(matches!(run.stage, LocalStage::Prepare));
}

#[test]
fn changed_assets_are_copied_without_a_look() {
    let mut prev = State::default();
    prev.assets.insert("a".to_string(), known("old", "/copy/a"));
    let session = session(prev, vec![asset("a", "new")]);
    assert!(matches!(strategy().start(&session).stage, LocalStage::Prepare));
}

#[test]
fn failures_are_noted_and_the_run_goes_on() {
    let strategy = strategy();
    let mut session = session(
        State::default(),
        vec![asset("a", "1"), asset("b", "2"), asset("c", "3")],
    );
    let run = strategy.start(&session);
    let broken = PreprocessError { message: "broken".to_string() };
    let event = LocalEvent::Prepared { filename: "a-1".to_string(), contents: Err(broken) };
    let run = strategy.perform_sync(&mut session, run, event);
    assert_eq!(counts(&run), (1, 0, 1));
    let run = strategy.perform_sync(&mut session, run, prepared("b-1", &[]));
    let full = std::io::Error::new(std::io::ErrorKind::Other, "disk full");
    let run = strategy.perform_sync(&mut session, run, LocalEvent::Written(Err(full)));
    assert_eq!(counts(&run), (2, 0, 2));
    let run = strategy.perform_sync(&mut session, run, prepared("c-1", &[]));
    let run = strategy.perform_sync(&mut session, run, LocalEvent::Written(Ok(())));
    assert_eq!(counts(&run), (3, 1, 2));
    assert!(matches!(run.stage, LocalStage::Finished));
    assert_eq!(session.errors.len(), 2);
    assert!(matches!(session.errors[0], SessionError::Sync(SyncError::Preprocess { .. })));
    assert!(matches!(session.errors[1], SessionError::Sync(SyncError::Io { .. })));
    assert_eq!(session.assets.get("a").unwrap().targets.len(), 0);
    assert_eq!(session.assets.get("b").unwrap().targets.len(), 0);
    assert_eq!(session.assets.get("c").unwrap().targets.len(), 1);
}

#[test]
fn events_out_of_place_change_nothing() {
    let strategy = strategy();
    let mut session = session(State::default(), vec![asset("a", "1")]);
    let run = strategy.start(&session);
    let run = strategy.perform_sync(&mut session, run, LocalEvent::Written(Ok(())));
    let run = strategy.perform_sync(&mut session, run, LocalEvent::Probed(true));
    assert!(matches!(run.stage, LocalStage::Prepare));
    assert_eq!(counts(&run), (0, 0, 0));
    assert!(session.errors.is_empty());
}

#[test]
fn other_targets_keep_what_stands_there() {
    let strategy = strategy();
    let mut found = asset("a", "1");
    found.targets.insert(
        "elsewhere".to_string(),
        TargetState { hash: "0".to_string(), id: "x".to_string(), local_path: None },
    );
    let mut session = session(State::default(), vec![found]);
    let run = strategy.start(&session);
    let run = strategy.perform_sync(&mut session, run, prepared("a-1", &[]));
    strategy.perform_sync(&mut session, run, LocalEvent::Written(Ok(())));
    let targets = &session.assets.get("a").unwrap().targets;
    assert_eq!(targets.len(), 2);
    assert_eq!(targets.get("elsewhere").unwrap().id, "x");
}

#[test]
fn a_second_local_sync_only_looks_for_copies() {
    let strategy = strategy();
    let mut first = session(State::default(), vec![asset("a", "1"), asset("b", "2")]);
    let mut run = strategy.start(&first);
    for name in ["a-1", "b-1"] {
        run = strategy.perform_sync(&mut first, run, prepared(name, &[]));
        run = strategy.perform_sync(&mut first, run, LocalEvent::Written(Ok(())));
    }
    assert_eq!(counts(&run), (2, 2, 0));
    let mut second = session(first.write_state(), vec![asset("a", "1"), asset("b", "2")]);
    let mut run = strategy.start(&second);
    for expected in ["/project/.runway/a-1", "/project/.runway/b-1"] {
        match &run.stage {
            LocalStage::Probe { path } => assert_eq!(path, expected),
            _ => panic!("only the copy is looked for"),
        }
        run = strategy.perform_sync(&mut second, run, LocalEvent::Probed(true));
    }
    assert!(matches!(run.stage, LocalStage::Finished));
    assert_eq!(counts(&run), (2, 0, 0));
}

#[test]
fn another_name_gives_another_id_and_path() {
    let strategy = strategy();
    let copy = |name: &str| {
        let mut session = session(State::default(), vec![asset("a", "1")]);
        let run = strategy.start(&session);
        let run = strategy.perform_sync(&mut session, run, prepared(name, &[]));
        strategy.perform_sync(&mut session, run, LocalEvent::Written(Ok(())));
        session.assets.get("a").unwrap().targets.get("main").unwrap().clone()
    };
    let first = copy("a-1700000000.png");
    let second = copy("a-1700000001.png");
    assert_ne!(first.id, second.id);
    assert_ne!(first.local_path, second.local_path);
    assert_eq!(first.hash, second.hash);
}

#[test]
fn runs_count_what_needs_a_sync() {
    let strategy = strategy();
    let mut prev = State::default();
    for name in ["a", "b", "c"] {
        prev.assets.insert(name.to_string(), known("1", &format!("/copy/{name}")));
    }
    let mut session = session(
        prev,
        vec![asset("a", "1"), asset("b", "1"), asset("c", "2"), asset("d", "1")],
    );
    session.raise_error(SessionError::Codegen { message: "earlier".to_string() });
    let path_exists = vec![true, false, true, true];
    let chosen = SyncSession::iter_needs_sync(
        session.force_sync,
        &session.assets,
        &session.prev_state,
        &session.target,
        true,
        &path_exists,
    );
    assert_eq!(chosen, vec![1, 2, 3]);
    let mut run = strategy.start(&session);
    let end = loop {
        let event = match &run.stage {
            LocalStage::Probe { .. } => LocalEvent::Probed(path_exists[run.index]),
            LocalStage::Prepare => prepared(&format!("{}-1", run.index), &[]),
            LocalStage::Write { .. } if run.index == 2 => LocalEvent::Written(Err(
                std::io::Error::new(std::io::ErrorKind::Other, "disk full"),
            )),
            LocalStage::Write { .. } => LocalEvent::Written(Ok(())),
            LocalStage::Finished => break run,
        };
        run = strategy.perform_sync(&mut session, run, event);
    };
    assert_eq!((end.ok_count, end.err_count), (2, 1));
    assert_eq!(end.ok_count + end.err_count, chosen.len());
    assert_eq!(session.errors.len(), 2);
    assert_eq!(session.errors[0].message(), "earlier");
}
