use runway::config::InputConfig;
use runway::error::SyncError;
use runway::walker::{build_overrides, configure_walker, input_walk};

fn inputs(globs: &[&str]) -> Vec<InputConfig> {
    globs.iter().map(|g| InputConfig { glob: g.to_string() }).collect()
}

#[test]
fn overrides_match_the_inputs() {
    let overrides = build_overrides("/project", &inputs(&["*.png", "sounds/**/*.ogg"])).unwrap();
    assert_eq!(overrides.path(), std::path::Path::new("/project"));
    assert_eq!(overrides.num_whitelists(), 2);
    assert!(overrides.matched("/project/a/b.png", false).is_whitelist());
    assert!(overrides.matched("/project/sounds/x/y.ogg", false).is_whitelist());
    assert!(overrides.matched("/project/music/y.ogg", false).is_ignore());
}

#[test]
fn inputs_may_be_taken_back() {
    let overrides = build_overrides("/project", &inputs(&["*.png", "!draft.png"])).unwrap();
    assert!(overrides.matched("/project/a.png", false).is_whitelist());
    assert!(overrides.matched("/project/draft.png", false).is_ignore());
}

#[test]
fn comments_and_blank_inputs_add_nothing() {
    let overrides = build_overrides("/project", &inputs(&["# *.png", "", "  "])).unwrap();
    assert!(overrides.is_empty());
    let overrides = build_overrides("/project", &inputs(&[])).unwrap();
    assert!(overrides.is_empty());
}

#[test]
fn broken_globs_are_errors() {
    match build_overrides("/project", &inputs(&["*.png", "[abc"])) {
        Err(SyncError::Ignore { .. }) => {}
        _ => panic!("expected the glob to be refused"),
    }
    assert!(matches!(
        input_walk("/project", &inputs(&["{a"])),
        Err(SyncError::Ignore { .. })
    ));
}

#[test]
fn walks_pay_no_heed_to_ignore_files() {
    let overrides = build_overrides("/project", &inputs(&["*.png"])).unwrap();
    let walk = configure_walker("/project", overrides);
    let shown = format!("{walk:?}");
    assert!(shown.contains("paths: [\"/project\"]"), "{shown}");
    assert!(shown.contains("hidden: true"), "{shown}");
    for off in [
        "ignore: false",
        "parents: false",
        "git_global: false",
        "git_ignore: false",
        "git_exclude: false",
    ] {
        assert!(shown.contains(off), "{off}: {shown}");
    }
    assert!(shown.contains("*.png"), "{shown}");
}

#[test]
fn input_walks_start_at_the_root() {
    let walk = input_walk("/project", &inputs(&["*.ogg"])).unwrap();
    let shown = format!("{walk:?}");
    assert!(shown.contains("paths: [\"/project\"]"), "{shown}");
    assert!(shown.contains("git_ignore: false"), "{shown}");
    assert!(shown.contains("*.ogg"), "{shown}");
}

#[test]
fn relative_roots_keep_their_globs_below_them() {
    for root in ["../proj", "..", ".hidden/x", "proj", "/proj"] {
        let overrides = build_overrides(root, &inputs(&["sounds/*.ogg"])).unwrap();
        assert_eq!(overrides.path().to_str(), Some(root));
    }
    let overrides = build_overrides("../proj", &inputs(&["sounds/*.ogg"])).unwrap();
    assert!(overrides.matched("../proj/sounds/a.ogg", false).is_whitelist());
    assert!(overrides.matched("../proj/music/sounds/a.ogg", false).is_ignore());
}

#[test]
fn roots_in_the_current_directory_lose_their_dot() {
    let overrides = build_overrides("./proj/game", &inputs(&["sounds/*.ogg"])).unwrap();
    assert_eq!(overrides.path().to_str(), Some("proj/game"));
    assert!(overrides.matched("./proj/game/sounds/a.ogg", false).is_whitelist());
    let here = build_overrides(".", &inputs(&["sounds/*.ogg"])).unwrap();
    assert!([".", ""].contains(&here.path().to_str().unwrap()));
}

#[test]
fn case_and_brackets_count() {
    let overrides = build_overrides("/project", &inputs(&["*.png", "[ab].ogg"])).unwrap();
    assert!(overrides.matched("/project/x.PNG", false).is_ignore());
    assert!(overrides.matched("/project/a.ogg", false).is_whitelist());
    assert!(build_overrides("/project", &inputs(&["[ab.ogg"])).is_err());
}

#[test]
fn relative_walks_start_at_their_root() {
    let walk = input_walk("../proj", &inputs(&["sounds/*.ogg"])).unwrap();
    let shown = format!("{walk:?}");
    assert!(shown.contains("paths: [\"../proj\"]"), "{shown}");
    assert!(shown.contains("root: \"../proj\""), "{shown}");
}
