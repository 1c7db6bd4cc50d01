use lib_file::policy::{
    claim_save_path, ensure_extension, normalize_extension, OverwriteConfirm, SaveDecision,
};

struct Always(bool);

impl OverwriteConfirm for Always {
    fn confirm_overwrite(&mut self) -> bool {
        self.0
    }
}

struct NeverAsked;

impl OverwriteConfirm for NeverAsked {
    fn confirm_overwrite(&mut self) -> bool {
        panic!("confirm_overwrite must not be consulted");
    }
}

#[test]
fn normalize_extension_bare() {
    assert_eq!(normalize_extension("txt"), "txt");
}

#[test]
fn normalize_extension_glob() {
    assert_eq!(normalize_extension("*.txt"), "txt");
}

#[test]
fn normalize_extension_dotted() {
    assert_eq!(normalize_extension(".txt"), "txt");
}

#[test]
fn normalize_extension_empty() {
    assert_eq!(normalize_extension(""), "");
}

#[test]
fn normalize_extension_short_forms() {
    assert_eq!(normalize_extension("*.x"), "x");
    assert_eq!(normalize_extension("."), "");
    assert_eq!(normalize_extension("*."), "");
    assert_eq!(normalize_extension("x"), "x");
}

#[test]
fn ensure_extension_appends() {
    assert_eq!(ensure_extension("report", "txt"), "report.txt");
}

#[test]
fn ensure_extension_keeps_matching() {
    assert_eq!(ensure_extension("report.txt", "txt"), "report.txt");
}

#[test]
fn ensure_extension_appends_on_mismatch() {
    assert_eq!(ensure_extension("report.csv", "txt"), "report.csv.txt");
}

#[test]
fn ensure_extension_empty_name() {
    assert_eq!(ensure_extension("", "txt"), ".txt");
}

#[test]
fn ensure_extension_empty_ext_without_dot() {
    assert_eq!(ensure_extension("report", ""), "report");
}

#[test]
fn ensure_extension_idempotent_samples() {
    for name in ["report", "report.txt", "report.csv", "", "a.b.c", "txt"] {
        for ext in ["txt", "lst", ""] {
            let once = ensure_extension(name, ext);
            let twice = ensure_extension(&once, ext);
            assert_eq!(twice, once);
        }
    }
}

#[test]
fn claim_in_empty_dir_proceeds() {
    let dir = tempfile::tempdir().unwrap();
    let dir_str = dir.path().to_str().unwrap();
    let mut confirm = NeverAsked;
    let claim = claim_save_path(dir_str, "out.txt", &mut confirm).unwrap();
    assert_eq!(claim.decision, SaveDecision::Proceed);
    assert_eq!(claim.path, format!("{}/out.txt", dir_str));
    assert!(!claim.existed);
    assert!(claim.confirmed.is_none());
}

#[test]
fn claim_existing_retries_when_declined() {
    let dir = tempfile::tempdir().unwrap();
    let dir_str = dir.path().to_str().unwrap();
    let file = tempfile::NamedTempFile::new_in(dir.path()).unwrap();
    let name = file.path().file_name().unwrap().to_str().unwrap().to_string();
    let mut confirm = Always(false);
    let claim = claim_save_path(dir_str, &name, &mut confirm).unwrap();
    assert_eq!(claim.decision, SaveDecision::Retry);
    assert!(claim.existed);
    assert_eq!(claim.confirmed, Some(false));
}

#[test]
fn claim_existing_proceeds_when_confirmed() {
    let dir = tempfile::tempdir().unwrap();
    let dir_str = dir.path().to_str().unwrap();
    let file = tempfile::NamedTempFile::new_in(dir.path()).unwrap();
    let name = file.path().file_name().unwrap().to_str().unwrap().to_string();
    let mut confirm = Always(true);
    let claim = claim_save_path(dir_str, &name, &mut confirm).unwrap();
    assert_eq!(claim.decision, SaveDecision::Proceed);
    assert!(claim.existed);
    assert_eq!(claim.confirmed, Some(true));
}

#[test]
fn claim_empty_name_aborts() {
    let dir = tempfile::tempdir().unwrap();
    let dir_str = dir.path().to_str().unwrap();
    let mut confirm = NeverAsked;
    let claim = claim_save_path(dir_str, "", &mut confirm).unwrap();
    assert_eq!(claim.decision, SaveDecision::Abort);
    assert!(claim.confirmed.is_none());
}

#[test]
fn claim_through_file_reports_access_error() {
    let dir = tempfile::tempdir().unwrap();
    let file = tempfile::NamedTempFile::new_in(dir.path()).unwrap();
    let file_str = file.path().to_str().unwrap();
    let mut confirm = NeverAsked;
    let r = claim_save_path(file_str, "inner.txt", &mut confirm);
    assert!(r.is_err());
    assert!(!r.unwrap_err().message.is_empty());
}
