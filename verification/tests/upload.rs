use runway::asset::AssetType;
use runway::error::{PreprocessError, RbxCloudError, SyncError};
use runway::upload::{
    created_operation, is_name_refused, polled_asset, refuses_name, OperationReply, UploadAction,
    UploadEvent, UploadTask,
};

fn ready(asset_type: AssetType) -> UploadTask {
    UploadTask::new(asset_type, "Sword".to_string()).step(UploadEvent::Preprocessed(Ok(())))
}

fn created(path: &str) -> UploadEvent {
    UploadEvent::Created(Ok(Some(path.to_string())))
}

fn refused() -> RbxCloudError {
    RbxCloudError::HttpStatusError {
        code: 400,
        msg: "INVALID: Asset name and description is fully moderated. Sorry.".to_string(),
    }
}

fn outage() -> RbxCloudError {
    RbxCloudError::HttpStatusError { code: 503, msg: "try later".to_string() }
}

fn polled(asset_id: Option<&str>, done: Option<bool>) -> UploadEvent {
    UploadEvent::Polled(Ok(OperationReply { asset_id: asset_id.map(|s| s.to_string()), done }))
}

fn create_action(task: &UploadTask) -> (u64, String) {
    match task.action() {
        UploadAction::Create { wait, name } => (wait, name),
        _ => panic!("expected a creation"),
    }
}

fn poll_wait(task: &UploadTask) -> u64 {
    match task.action() {
        UploadAction::Poll { wait, .. } => wait,
        _ => panic!("expected a poll"),
    }
}

fn outcome(task: UploadTask) -> Result<String, SyncError> {
    match task.outcome() {
        Some(outcome) => outcome,
        None => panic!("the upload is not over"),
    }
}

#[test]
fn uploads_begin_by_making_the_asset_ready() {
    let task = UploadTask::new(AssetType::ModelFbx, "Sword".to_string());
    assert!(matches!(task.action(), UploadAction::Preprocess));
    assert!(task.outcome().is_none());
}

#[test]
fn assets_that_cannot_be_made_ready_fail() {
    let task = UploadTask::new(AssetType::ModelFbx, "Sword".to_string());
    let broken = PreprocessError { message: "broken".to_string() };
    let task = task.step(UploadEvent::Preprocessed(Err(broken)));
    assert!(matches!(task.action(), UploadAction::Finished));
    assert!(matches!(outcome(task), Err(SyncError::Preprocess { .. })));
}

#[test]
fn models_get_the_id_of_the_asset() {
    let task = ready(AssetType::ModelFbx);
    assert_eq!(create_action(&task), (0, "Sword".to_string()));
    let task = task.step(created("operations/abc"));
    match task.action() {
        UploadAction::Poll { wait, operation_id } => {
            assert_eq!((wait, operation_id.as_str()), (2, "abc"));
        }
        _ => panic!("expected a poll"),
    }
    let task = task.step(polled(Some("77"), Some(true)));
    assert!(matches!(task.action(), UploadAction::Finished));
    assert_eq!(outcome(task).ok(), Some("77".to_string()));
}

#[test]
fn decals_get_the_id_of_their_texture() {
    for kind in
        [AssetType::DecalPng, AssetType::DecalJpeg, AssetType::DecalBmp, AssetType::DecalTga]
    {
        let task = ready(kind).step(created("operations/abc")).step(polled(Some("77"), None));
        match task.action() {
            UploadAction::Texture { asset_id } => assert_eq!(asset_id, "77"),
            _ => panic!("expected the texture to be asked for"),
        }
        let task = task.step(UploadEvent::Textured(Some("78".to_string())));
        assert_eq!(outcome(task).ok(), Some("78".to_string()));
    }
}

#[test]
fn textures_are_asked_for_three_times() {
    let mut task = ready(AssetType::DecalPng)
        .step(created("operations/abc"))
        .step(polled(Some("77"), None));
    for _ in 0..2 {
        task = task.step(UploadEvent::Textured(None));
        assert!(matches!(task.action(), UploadAction::Texture { .. }));
    }
    let task = task.step(UploadEvent::Textured(None));
    assert!(matches!(outcome(task), Err(SyncError::RobloxApi)));
}

#[test]
fn creations_are_tried_three_times() {
    let mut task = ready(AssetType::AudioOgg);
    for _ in 0..2 {
        task = task.step(UploadEvent::Created(Err(outage())));
        assert_eq!(create_action(&task), (3, "Sword".to_string()));
    }
    let task = task.step(UploadEvent::Created(Err(outage())));
    assert!(matches!(outcome(task), Err(SyncError::UploadFailed)));
}

#[test]
fn answers_without_an_operation_are_failures() {
    let mut task = ready(AssetType::AudioOgg);
    for _ in 0..3 {
        task = task.step(UploadEvent::Created(Ok(None)));
    }
    assert!(matches!(outcome(task), Err(SyncError::UploadFailed)));
}

#[test]
fn refused_names_are_replaced() {
    let task = ready(AssetType::AudioMp3).step(UploadEvent::Created(Err(refused())));
    assert_eq!(create_action(&task), (3, "RunwayAsset".to_string()));
    let task = task.step(UploadEvent::Created(Err(outage())));
    assert_eq!(create_action(&task), (3, "RunwayAsset".to_string()));
    let task = task.step(UploadEvent::Created(Err(refused())));
    assert!(matches!(outcome(task), Err(SyncError::UploadFailed)));
}

#[test]
fn only_the_right_status_and_message_refuse_a_name() {
    let named = |code: u16, msg: &str| SyncError::RbxCloud {
        source: RbxCloudError::HttpStatusError { code, msg: msg.to_string() },
    };
    let words = "Asset name and description is fully moderated.";
    assert!(is_name_refused(&named(400, words)));
    assert!(is_name_refused(&named(400, &format!("[{words}]"))));
    assert!(!is_name_refused(&named(403, words)));
    assert!(!is_name_refused(&named(400, "Asset name is fine.")));
    assert!(!is_name_refused(&SyncError::RbxCloud {
        source: RbxCloudError::Other { message: words.to_string() },
    }));
    assert!(!is_name_refused(&SyncError::UploadFailed));
    assert!(refuses_name(&refused()));
    assert!(!refuses_name(&outage()));
}

#[test]
fn waits_between_polls_double() {
    let mut task = ready(AssetType::ModelFbx).step(created("operations/abc"));
    let mut waits = vec![];
    for _ in 0..6 {
        waits.push(poll_wait(&task));
        task = task.step(polled(None, Some(false)));
    }
    assert_eq!(waits, vec![2, 4, 8, 16, 32, 64]);
}

#[test]
fn unfinished_operations_are_no_failures() {
    let mut task = ready(AssetType::ModelFbx).step(created("operations/abc"));
    for i in 0..20 {
        let done = if i % 2 == 0 { None } else { Some(false) };
        task = task.step(polled(None, done));
    }
    assert_eq!(poll_wait(&task), 1 << 21);
    let task = task.step(polled(Some("77"), None));
    assert_eq!(outcome(task).ok(), Some("77".to_string()));
}

#[test]
fn waits_end_where_numbers_do() {
    let mut task = ready(AssetType::ModelFbx).step(created("operations/abc"));
    let mut longest = 0;
    while task.can_wait() {
        longest = poll_wait(&task);
        task = task.step(polled(None, None));
    }
    assert_eq!(longest, 1 << 63);
}

#[test]
fn three_failed_polls_are_too_many() {
    let mut task = ready(AssetType::ModelFbx).step(created("operations/abc"));
    task = task.step(UploadEvent::Polled(Err(outage())));
    task = task.step(polled(None, None));
    task = task.step(polled(None, Some(true)));
    assert_eq!(poll_wait(&task), 16);
    let task = task.step(UploadEvent::Polled(Err(outage())));
    assert!(matches!(outcome(task), Err(SyncError::UploadFailed)));
}

#[test]
fn finished_uploads_stay_finished() {
    let task = ready(AssetType::ModelFbx)
        .step(created("operations/abc"))
        .step(polled(Some("77"), None))
        .step(polled(Some("99"), None))
        .step(UploadEvent::Textured(Some("5".to_string())))
        .step(UploadEvent::Created(Err(outage())));
    assert_eq!(outcome(task).ok(), Some("77".to_string()));
}

#[test]
fn events_of_another_stage_are_ignored() {
    let task = ready(AssetType::ModelFbx).step(polled(Some("77"), None));
    assert_eq!(create_action(&task), (0, "Sword".to_string()));
}

#[test]
fn operation_ids_are_read_from_paths() {
    assert_eq!(
        created_operation(Ok(Some("operations/a/b".to_string()))).ok(),
        Some("a/b".to_string())
    );
    assert!(matches!(created_operation(Ok(None)), Err(SyncError::RobloxApi)));
    assert!(matches!(created_operation(Err(outage())), Err(SyncError::RbxCloud { .. })));
}

#[test]
fn asset_ids_are_read_from_replies() {
    let reply = |asset_id: Option<&str>, done: Option<bool>| {
        polled_asset(Ok(OperationReply { asset_id: asset_id.map(|s| s.to_string()), done }))
    };
    assert_eq!(reply(Some("1"), Some(false)).ok(), Some("1".to_string()));
    assert!(matches!(reply(None, None), Err(SyncError::UploadNotDone)));
    assert!(matches!(reply(None, Some(false)), Err(SyncError::UploadNotDone)));
    assert!(matches!(reply(None, Some(true)), Err(SyncError::UploadFailed)));
    assert!(matches!(polled_asset(Err(outage())), Err(SyncError::RbxCloud { .. })));
}
