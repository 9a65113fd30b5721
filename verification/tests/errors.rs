use runway::error::{
    raise_error, ConfigError, PreprocessError, RbxCloudError, SessionError, StateError,
    SymlinkError, SyncError,
};

#[test]
fn errors_of_single_parts_become_sync_errors() {
    let message = || "broken".to_string();
    assert!(matches!(
        SyncError::from(PreprocessError { message: message() }),
        SyncError::Preprocess { source } if source.message == "broken"
    ));
    assert!(matches!(
        SyncError::from(ConfigError::UnknownTarget),
        SyncError::Config { source: ConfigError::UnknownTarget }
    ));
    assert!(matches!(
        SyncError::from(StateError { message: message() }),
        SyncError::State { source } if source.message == "broken"
    ));
    assert!(matches!(
        SyncError::from(SymlinkError { message: message() }),
        SyncError::SymlinkError { source } if source.message == "broken"
    ));
    assert!(matches!(
        SyncError::from(RbxCloudError::Other { message: message() }),
        SyncError::RbxCloud { source: RbxCloudError::Other { message } } if message == "broken"
    ));
}

#[test]
fn outside_errors_become_sync_errors() {
    let gone = std::io::Error::new(std::io::ErrorKind::NotFound, "gone");
    assert!(matches!(SyncError::from(gone), SyncError::Io { .. }));
    let lost = ignore::Error::Io(std::io::Error::new(std::io::ErrorKind::NotFound, "gone"));
    assert!(matches!(SyncError::from(lost), SyncError::Ignore { .. }));
    let unusable = reqwest::Client::new().get("no url").build().err().unwrap();
    assert!(matches!(SyncError::from(unusable), SyncError::Reqwest { .. }));
}

#[test]
fn errors_have_their_texts() {
    let message = || "broken".to_string();
    let cases = vec![
        (SyncError::MissingApiKey, "API key is required for Roblox sync targets"),
        (SyncError::MissingCreator, "User ID or group ID is required for Roblox sync targets"),
        (
            SyncError::Unsupported {
                path: "a/b.txt".to_string(),
                source: RbxCloudError::Other { message: message() },
            },
            "Matched file at a/b.txt is not supported",
        ),
        (SyncError::UploadFailed, "Failed to upload file"),
        (SyncError::UploadNotDone, "Upload not finished"),
        (SyncError::HadErrors { error_count: 12 }, "Sync finished with 12 error(s)"),
        (SyncError::RobloxApi, "Roblox API error"),
        (PreprocessError { message: message() }.into(), "broken"),
        (ConfigError::Unreadable { message: message() }.into(), "broken"),
        (ConfigError::UnknownTarget.into(), "Unknown target"),
        (StateError { message: message() }.into(), "broken"),
        (SymlinkError { message: message() }.into(), "broken"),
        (RbxCloudError::Other { message: message() }.into(), "broken"),
        (RbxCloudError::HttpStatusError { code: 404, msg: message() }.into(), "http 404: broken"),
    ];
    for (error, text) in cases {
        assert_eq!(error.message(), text);
    }
}

#[test]
fn service_errors_read_as_the_client_words_them() {
    let outside =
        rbxcloud::rbx::error::Error::HttpStatusError { code: 503, msg: "later".to_string() };
    let own = RbxCloudError::HttpStatusError { code: 503, msg: "later".to_string() };
    assert_eq!(own.message(), outside.to_string());
}

#[test]
fn outside_errors_keep_their_texts() {
    let gone = || std::io::Error::new(std::io::ErrorKind::NotFound, "it is gone");
    assert_eq!(SyncError::from(gone()).message(), "it is gone");
    let lost = || ignore::Error::Io(gone());
    assert_eq!(SyncError::from(lost()).message(), lost().to_string());
    assert_eq!(SessionError::Walk(lost()).message(), lost().to_string());
    let unusable = reqwest::Client::new().get("no url").build().err().unwrap();
    let text = unusable.to_string();
    assert_eq!(SyncError::from(unusable).message(), text);
}

#[test]
fn noted_errors_read_as_they_were_raised() {
    let mut errors = vec![SessionError::Sync(SyncError::UploadNotDone)];
    raise_error(SessionError::Sync(SyncError::UploadFailed), &mut errors);
    raise_error(SessionError::Codegen { message: "no template".to_string() }, &mut errors);
    let texts: Vec<String> = errors.iter().map(|e| e.message()).collect();
    assert_eq!(texts, vec!["Upload not finished", "Failed to upload file", "no template"]);
}
