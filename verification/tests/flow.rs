use runway::asset::{Asset, AssetIdent, AssetType};
use runway::config::{
    find_target, AssetCreator, Config, CreatorOptions, ProjectOptions, SyncOptions, TargetConfig,
    TargetType, UploadOptions,
};
use runway::error::{ConfigError, SessionError, StateError, SymlinkError, SyncError};
use runway::flow::{
    choose_strategy, sync, sync_with_config, StrategyChoice, SyncEvent, SyncFlow, SyncStage,
};
use runway::ordered_map::OrderedMap;
use runway::paths::Platform;
use runway::session::WalkItem;
use runway::state::{State, TargetState};

fn target(key: &str, target_type: TargetType) -> TargetConfig {
    TargetConfig { key: key.to_string(), target_type }
}

fn config() -> Config {
    Config {
        name: "demo".to_string(),
        platform: Platform::here(),
        root_path: "/project".to_string(),
        targets: vec![
            target("local", TargetType::Local),
            target("cloud", TargetType::Roblox),
            target("local", TargetType::Roblox),
        ],
        inputs: vec![],
        universes: vec![],
    }
}

fn options(
    target: &str,
    api_key: Option<&str>,
    creator: Option<CreatorOptions>,
) -> SyncOptions<String> {
    SyncOptions {
        project: ProjectOptions { config: None, target: target.to_string() },
        upload: UploadOptions {
            api_key: api_key.map(|k| k.to_string()),
            creator,
            auth_cookie: None,
            force_permissions: false,
        },
        force: true,
    }
}

fn creator(user: Option<&str>, group: Option<&str>) -> Option<CreatorOptions> {
    Some(CreatorOptions {
        user_id: user.map(|s| s.to_string()),
        group_id: group.map(|s| s.to_string()),
    })
}

fn begun(options: &SyncOptions<String>) -> SyncFlow {
    match sync(options, Ok(config())) {
        Ok(flow) => flow,
        Err(_) => panic!("the sync begins"),
    }
}

fn asset(text: &str) -> Asset {
    Asset {
        ident: AssetIdent {
            text: text.to_string(),
            last_component: text.to_string(),
            asset_type: AssetType::ModelFbx,
        },
        path: format!("/project/{text}"),
        hash: "1".to_string(),
        contents: vec![],
        targets: OrderedMap::new(),
    }
}

fn outcome(flow: SyncFlow) -> Result<(), SyncError> {
    match flow.stage {
        SyncStage::Done { outcome } => outcome,
        _ => panic!("the sync is not over"),
    }
}

#[test]
fn first_target_with_the_key_is_taken() {
    let found = find_target(&config(), "local").unwrap_or_else(|_| panic!("it is there"));
    assert_eq!(found.target_type, TargetType::Local);
    assert!(matches!(
        find_target(&config(), "nowhere"),
        Err(SyncError::Config { source: ConfigError::UnknownTarget })
    ));
}

#[test]
fn unknown_targets_are_errors() {
    assert!(matches!(
        sync(&options("nowhere", None, None), Ok(config())),
        Err(SyncError::Config { source: ConfigError::UnknownTarget })
    ));
}

#[test]
fn unreadable_configurations_are_errors() {
    let read = Err(ConfigError::Unreadable { message: "no such file".to_string() });
    match sync(&options("local", None, None), read) {
        Err(SyncError::Config { source: ConfigError::Unreadable { message } }) => {
            assert_eq!(message, "no such file");
        }
        _ => panic!("expected the configuration error"),
    }
}

#[test]
fn local_syncs_begin_by_linking() {
    let flow = begun(&options("local", None, None));
    match &flow.strategy {
        StrategyChoice::Local { local_path } => assert_eq!(local_path, "/project/.runway"),
        _ => panic!("assets are copied"),
    }
    match &flow.stage {
        SyncStage::Link { setup, local_path } => {
            assert_eq!(local_path, "/project/.runway");
            assert_eq!(setup.target.key, "local");
        }
        _ => panic!("the folders have to be linked"),
    }
}

#[test]
fn uploads_need_an_api_key() {
    let options = options("cloud", None, None);
    assert!(matches!(
        choose_strategy(&options, &config(), &target("cloud", TargetType::Roblox)),
        Err(SyncError::MissingApiKey)
    ));
}

#[test]
fn uploads_need_a_creator() {
    let options = options("cloud", Some("key"), None);
    assert!(matches!(
        sync_with_config(&options, config(), target("cloud", TargetType::Roblox)),
        Err(SyncError::MissingCreator)
    ));
}

#[test]
fn users_go_before_groups() {
    let chosen = |c: Option<CreatorOptions>| {
        match begun(&options("cloud", Some("key"), c)).strategy {
            StrategyChoice::Roblox { creator } => creator,
            _ => panic!("assets are uploaded"),
        }
    };
    assert!(matches!(
        chosen(creator(Some("1"), Some("2"))),
        AssetCreator::User { user_id } if user_id == "1"
    ));
    assert!(matches!(
        chosen(creator(None, Some("2"))),
        AssetCreator::Group { group_id } if group_id == "2"
    ));
}

#[test]
fn uploads_begin_by_reading_the_state() {
    let flow = begun(&options("cloud", Some("key"), creator(Some("1"), None)));
    assert!(matches!(flow.stage, SyncStage::Open { .. }));
}

#[test]
fn a_sync_without_errors_succeeds() {
    let options = options("local", None, None);
    let flow = begun(&options).step(&options, SyncEvent::Linked(Ok(())));
    assert!(matches!(flow.stage, SyncStage::Open { .. }));
    let flow = flow.step(&options, SyncEvent::StateRead(Ok(State::default())));
    match &flow.stage {
        SyncStage::Find { session } => assert!(session.force_sync),
        _ => panic!("assets have to be found"),
    }
    let found = vec![WalkItem::Entry(Ok(Some(asset("a")))), WalkItem::Entry(Ok(None))];
    let mut flow = flow.step(&options, SyncEvent::Walked(Ok(found)));
    match &mut flow.stage {
        SyncStage::Sync { session } => {
            assert_eq!(session.assets.len(), 1);
            session.assets.value_mut(0).targets.insert(
                "local".to_string(),
                TargetState {
                    hash: "1".to_string(),
                    id: "rbxasset://a".to_string(),
                    local_path: None,
                },
            );
        }
        _ => panic!("assets have to be synced"),
    }
    let flow = flow.step(&options, SyncEvent::Synced);
    match &flow.stage {
        SyncStage::Write { state, .. } => {
            let known = state.assets.get("a").unwrap().targets.get("local").unwrap();
            assert_eq!(known.id, "rbxasset://a");
        }
        _ => panic!("the state has to be written"),
    }
    let flow = flow.step(&options, SyncEvent::StateWritten(Ok(())));
    assert!(matches!(flow.stage, SyncStage::Generate { .. }));
    let flow = flow.step(&options, SyncEvent::Generated(Ok(())));
    assert!(outcome(flow).is_ok());
}

fn at_sync(options: &SyncOptions<String>, found: Vec<WalkItem>) -> SyncFlow {
    begun(options)
        .step(options, SyncEvent::Linked(Ok(())))
        .step(options, SyncEvent::StateRead(Ok(State::default())))
        .step(options, SyncEvent::Walked(Ok(found)))
}

#[test]
fn errors_on_the_way_are_counted_at_the_end() {
    let options = options("local", None, None);
    let mut flow = at_sync(&options, vec![WalkItem::Entry(Err(SyncError::UploadFailed))]);
    if let SyncStage::Sync { session } = &mut flow.stage {
        session.raise_error(SessionError::Sync(SyncError::RobloxApi));
    }
    let flow = flow
        .step(&options, SyncEvent::Synced)
        .step(&options, SyncEvent::StateWritten(Ok(())))
        .step(&options, SyncEvent::Generated(Err("no template".to_string())));
    assert!(matches!(outcome(flow), Err(SyncError::HadErrors { error_count: 3 })));
}

#[test]
fn code_generation_alone_can_fail_a_sync() {
    let options = options("local", None, None);
    let flow = at_sync(&options, vec![])
        .step(&options, SyncEvent::Synced)
        .step(&options, SyncEvent::StateWritten(Ok(())))
        .step(&options, SyncEvent::Generated(Err("no template".to_string())));
    assert!(matches!(outcome(flow), Err(SyncError::HadErrors { error_count: 1 })));
}

#[test]
fn folders_that_cannot_be_linked_end_a_sync() {
    let options = options("local", None, None);
    let broken = SymlinkError { message: "no folder".to_string() };
    let flow = begun(&options).step(&options, SyncEvent::Linked(Err(broken)));
    assert!(matches!(outcome(flow), Err(SyncError::SymlinkError { .. })));
}

#[test]
fn states_that_cannot_be_read_or_written_end_a_sync() {
    let options = options("local", None, None);
    let broken = || StateError { message: "broken".to_string() };
    let flow = begun(&options)
        .step(&options, SyncEvent::Linked(Ok(())))
        .step(&options, SyncEvent::StateRead(Err(broken())));
    assert!(matches!(outcome(flow), Err(SyncError::State { .. })));
    let flow = at_sync(&options, vec![])
        .step(&options, SyncEvent::Synced)
        .step(&options, SyncEvent::StateWritten(Err(broken())));
    assert!(matches!(outcome(flow), Err(SyncError::State { .. })));
}

#[test]
fn walks_that_cannot_begin_end_a_sync() {
    let options = options("local", None, None);
    let flow = begun(&options)
        .step(&options, SyncEvent::Linked(Ok(())))
        .step(&options, SyncEvent::StateRead(Ok(State::default())))
        .step(&options, SyncEvent::Walked(Err(SyncError::RobloxApi)));
    assert!(matches!(outcome(flow), Err(SyncError::RobloxApi)));
}

#[test]
fn stages_wait_for_their_own_events() {
    let options = options("local", None, None);
    let flow = begun(&options)
        .step(&options, SyncEvent::Synced)
        .step(&options, SyncEvent::Generated(Ok(())));
    assert!(matches!(flow.stage, SyncStage::Link { .. }));
}

#[test]
fn local_syncs_need_no_upload_options() {
    let run = |options: SyncOptions<String>| {
        let flow = at_sync(&options, vec![WalkItem::Entry(Ok(Some(asset("a"))))]);
        let local_path = match &flow.strategy {
            StrategyChoice::Local { local_path } => local_path.clone(),
            _ => panic!("assets are copied"),
        };
        let flow = flow.step(&options, SyncEvent::Synced);
        let idents = match &flow.stage {
            SyncStage::Write { state, .. } => (0..state.assets.len())
                .map(|i| state.assets.key_at(i).clone())
                .collect::<Vec<String>>(),
            _ => panic!("the state has to be written"),
        };
        let flow = flow
            .step(&options, SyncEvent::StateWritten(Ok(())))
            .step(&options, SyncEvent::Generated(Ok(())));
        (local_path, idents, outcome(flow).is_ok())
    };
    let bare = run(options("local", None, None));
    assert_eq!(bare, ("/project/.runway".to_string(), vec!["a".to_string()], true));
    assert_eq!(bare, run(options("local", Some("key"), None)));
    assert_eq!(bare, run(options("local", Some("key"), creator(None, None))));
    assert_eq!(bare, run(options("local", None, creator(Some("1"), Some("2")))));
}

#[test]
fn missing_keys_say_so() {
    let options = options("cloud", None, None);
    match sync_with_config(&options, config(), target("cloud", TargetType::Roblox)) {
        Err(e) => assert_eq!(e.message(), "API key is required for Roblox sync targets"),
        Ok(_) => panic!("expected the missing key"),
    }
}
