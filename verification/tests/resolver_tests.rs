use lib_file::platform::{home_directory, EnvSnapshot, Platform};
use lib_file::resolver::{
    normalize_to_directory, resolve_existing_directory, PromptLoop, PromptPhase,
};

fn unix_env(home: &str) -> EnvSnapshot {
    EnvSnapshot { platform: Platform::Unix, home: Some(home.to_string()), user_profile: None }
}

#[test]
fn home_directory_unix_var() {
    let env = unix_env("/home/someone");
    assert_eq!(home_directory(&env), "/home/someone");
}

#[test]
fn home_directory_unix_fallback() {
    let env = EnvSnapshot { platform: Platform::Unix, home: None, user_profile: None };
    assert_eq!(home_directory(&env), "/home");
}

#[test]
fn home_directory_macos_fallback() {
    let env = EnvSnapshot { platform: Platform::MacOs, home: None, user_profile: None };
    assert_eq!(home_directory(&env), "/Users");
}

#[test]
fn home_directory_windows_var_and_fallback() {
    let env = EnvSnapshot {
        platform: Platform::Windows,
        home: Some("/ignored".to_string()),
        user_profile: Some("C:\\Users\\someone".to_string()),
    };
    assert_eq!(home_directory(&env), "C:\\Users\\someone");
    let bare = EnvSnapshot { platform: Platform::Windows, home: None, user_profile: None };
    assert_eq!(home_directory(&bare), "C:\\");
}

#[test]
fn resolve_keeps_existing_directory() {
    let dir = tempfile::tempdir().unwrap();
    let dir_str = dir.path().to_str().unwrap();
    let env = unix_env("/home/elsewhere");
    let r = resolve_existing_directory(dir_str, &env);
    assert!(!r.fell_back);
    assert_eq!(r.directory, dir_str);
}

#[test]
fn resolve_missing_falls_back_to_home_with_diagnostic() {
    let dir = tempfile::tempdir().unwrap();
    let missing = dir.path().join("missing_child");
    let env = unix_env("/home/elsewhere");
    let r = resolve_existing_directory(missing.to_str().unwrap(), &env);
    assert!(r.fell_back);
    assert_eq!(r.directory, "/home/elsewhere");
}

#[test]
fn resolve_rejects_a_file() {
    let dir = tempfile::tempdir().unwrap();
    let file = tempfile::NamedTempFile::new_in(dir.path()).unwrap();
    let env = unix_env("/home/elsewhere");
    let r = resolve_existing_directory(file.path().to_str().unwrap(), &env);
    assert!(r.fell_back);
    assert_eq!(r.directory, "/home/elsewhere");
}

#[test]
fn normalize_keeps_existing_directory() {
    let dir = tempfile::tempdir().unwrap();
    let dir_str = dir.path().to_str().unwrap();
    let env = unix_env("/home/elsewhere");
    let r = normalize_to_directory(dir_str, &env);
    assert!(!r.fell_back);
    assert_eq!(r.directory, dir_str);
}

#[test]
fn normalize_existing_file_yields_parent() {
    let dir = tempfile::tempdir().unwrap();
    let file = tempfile::NamedTempFile::new_in(dir.path()).unwrap();
    let env = unix_env("/home/elsewhere");
    let r = normalize_to_directory(file.path().to_str().unwrap(), &env);
    assert!(!r.fell_back);
    assert_eq!(r.directory, dir.path().to_str().unwrap());
}

#[test]
fn normalize_stray_trailing_segment_yields_parent() {
    let dir = tempfile::tempdir().unwrap();
    let typo = dir.path().join("typo_file_that_does_not_exist");
    let env = unix_env("/home/elsewhere");
    let r = normalize_to_directory(typo.to_str().unwrap(), &env);
    assert!(!r.fell_back);
    assert_eq!(r.directory, dir.path().to_str().unwrap());
}

#[test]
fn normalize_unresolvable_falls_back_to_home() {
    let dir = tempfile::tempdir().unwrap();
    let nonsense = dir.path().join("missing_middle").join("missing_leaf");
    let env = unix_env("/home/elsewhere");
    let r = normalize_to_directory(nonsense.to_str().unwrap(), &env);
    assert!(r.fell_back);
    assert_eq!(r.directory, "/home/elsewhere");
}

#[test]
fn prompt_loop_abandons_after_one_reprompt() {
    let mut lp = PromptLoop::new("/nowhere/that/exists");
    let first = lp.on_probe(false);
    assert!(first.is_none());
    let outcome = lp.on_reply("");
    assert_eq!(outcome, Some((false, String::new())));
    assert_eq!(lp.phase, PromptPhase::Finished);
}

#[test]
fn prompt_loop_accepts_existing_reply() {
    let dir = tempfile::tempdir().unwrap();
    let dir_str = dir.path().to_str().unwrap();
    let missing = dir.path().join("missing_child");
    let mut lp = PromptLoop::new(missing.to_str().unwrap());
    let first = lp.probe_current().unwrap();
    assert!(first.is_none());
    assert_eq!(lp.phase, PromptPhase::AwaitingReply);
    let step = lp.on_reply(dir_str);
    assert!(step.is_none());
    let outcome = lp.probe_current().unwrap();
    assert_eq!(outcome, Some((true, dir_str.to_string())));
}
