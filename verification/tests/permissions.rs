use runway::config::{AssetCreator, UniverseConfig, UploadOptions};
use runway::error::SyncError;
use runway::permissions::{
    after_first_answer, after_last_answer, cookie_header, csrf_header, keep_numeric,
    permission_report,
    permission_request, permission_requests, PermissionPlan, PermissionStep,
};
use runway::roblox::RobloxSyncStrategy;

fn universes(ids: &[u64]) -> Vec<UniverseConfig> {
    ids.iter().map(|id| UniverseConfig { id: *id }).collect()
}

fn sounds(ids: &[&str]) -> Vec<String> {
    ids.iter().map(|id| id.to_string()).collect()
}

fn strategy(cookie: Option<&str>) -> RobloxSyncStrategy<String> {
    let options = UploadOptions {
        api_key: None,
        creator: None,
        auth_cookie: cookie.map(|c| c.to_string()),
        force_permissions: false,
    };
    RobloxSyncStrategy::new("key", AssetCreator::User { user_id: "1".to_string() }, options, None)
}

#[test]
fn digits_are_kept() {
    assert_eq!(keep_numeric("rbxassetid://123456"), "123456");
    assert_eq!(keep_numeric("123456"), "123456");
    assert_eq!(keep_numeric(""), "");
    assert_eq!(keep_numeric("a-b"), "");
}

#[test]
fn numeric_means_what_the_standard_library_means() {
    let sample = "a1²Ⅷ½日٣๓一 -9\u{80}";
    let expected: String = sample.matches(char::is_numeric).collect();
    assert_eq!(keep_numeric(sample), expected);
    assert_eq!(expected, "1²Ⅷ½٣๓9");
    for code in 0u32..0x3000 {
        if let Some(c) = char::from_u32(code) {
            assert_eq!(keep_numeric(&c.to_string()).is_empty(), !c.is_numeric());
        }
    }
}

#[test]
fn requests_name_the_universe_and_the_sound() {
    let request = permission_request(987, "rbxassetid://123");
    assert_eq!(
        request.url,
        "https://apis.roblox.com/asset-permissions-api/v1/assets/123/permissions"
    );
    assert_eq!(request.method, "PATCH");
    assert_eq!(request.content_type, "application/json-patch+json");
    assert_eq!(request.timeout, 180);
    assert_eq!(request.body.requests.len(), 1);
    let entry = &request.body.requests[0];
    assert_eq!(entry.action, "Use");
    assert_eq!(entry.subject_type, "Universe");
    assert_eq!(entry.subject_id, "987");
}

#[test]
fn cookies_have_their_header() {
    assert_eq!(cookie_header("abc"), ".ROBLOSECURITY=abc");
}

#[test]
fn every_universe_gets_every_sound() {
    let requests = permission_requests(&universes(&[1, 2]), &sounds(&["10", "20", "30"]));
    let asked: Vec<(String, String)> = requests
        .iter()
        .map(|r| (r.body.requests[0].subject_id.clone(), keep_numeric(&r.url[56..])))
        .collect();
    let pair = |u: &str, s: &str| (u.to_string(), s.to_string());
    assert_eq!(
        asked,
        vec![
            pair("1", "10"),
            pair("1", "20"),
            pair("1", "30"),
            pair("2", "10"),
            pair("2", "20"),
            pair("2", "30"),
        ]
    );
}

#[test]
fn nothing_to_grant_needs_no_plan() {
    let with_cookie = strategy(Some("c"));
    let plan = with_cookie.plan_permissions(&universes(&[]), &sounds(&["1"]));
    assert!(matches!(plan, PermissionPlan::NotNeeded));
    let plan = with_cookie.plan_permissions(&universes(&[1]), &sounds(&[]));
    assert!(matches!(plan, PermissionPlan::NotNeeded));
    let plan = strategy(None).plan_permissions(&universes(&[]), &sounds(&[]));
    assert!(matches!(plan, PermissionPlan::NotNeeded));
}

#[test]
fn granting_needs_a_cookie() {
    let plan = strategy(None).plan_permissions(&universes(&[1]), &sounds(&["2"]));
    assert!(matches!(plan, PermissionPlan::MissingCookie));
    match strategy(Some("c")).plan_permissions(&universes(&[1]), &sounds(&["2", "3"])) {
        PermissionPlan::Send(requests) => assert_eq!(requests.len(), 2),
        _ => panic!("expected requests"),
    }
}

#[test]
fn challenges_are_answered_once() {
    assert_eq!(after_first_answer(403, true), PermissionStep::RetryWithToken);
    assert_eq!(after_first_answer(403, false), PermissionStep::Refused);
    assert_eq!(after_first_answer(401, true), PermissionStep::Refused);
    assert_eq!(after_first_answer(200, true), PermissionStep::Accepted);
    assert_eq!(after_last_answer(403), PermissionStep::Refused);
    assert_eq!(csrf_header(), "X-CSRF-Token");
}

#[test]
fn client_and_server_errors_refuse() {
    assert_eq!(after_last_answer(399), PermissionStep::Accepted);
    assert_eq!(after_last_answer(400), PermissionStep::Refused);
    assert_eq!(after_last_answer(599), PermissionStep::Refused);
    assert_eq!(after_last_answer(600), PermissionStep::Accepted);
}

#[test]
fn reports_name_what_failed() {
    let results = vec![
        Ok(()),
        Err(SyncError::RobloxApi),
        Ok(()),
        Err(SyncError::RobloxApi),
        Ok(()),
        Ok(()),
    ];
    let report = permission_report(&universes(&[7, 8]), &sounds(&["10", "20", "30"]), &results);
    assert_eq!(report.successes, 4);
    let warned: Vec<(u64, &str, usize)> =
        report.warnings.iter().map(|w| (w.universe_id, w.sound.as_str(), w.position)).collect();
    assert_eq!(warned, vec![(7, "20", 1), (8, "10", 3)]);
}

#[test]
fn reports_share_an_uneven_number_of_results_out() {
    let failed = || Err(SyncError::RobloxApi);
    let results = vec![failed(), failed(), failed(), failed(), failed()];
    let report = permission_report(&universes(&[7, 8]), &sounds(&["10", "20"]), &results);
    let warned: Vec<(u64, &str)> =
        report.warnings.iter().map(|w| (w.universe_id, w.sound.as_str())).collect();
    assert_eq!(warned, vec![(7, "10"), (7, "20"), (7, "10"), (8, "10"), (8, "20")]);
    assert_eq!(report.successes, 0);
}
