use std::path::Path;
use submodule_kit::commands::is::conditions::populated::{check, populated_status};
use submodule_kit::submodule::SubmoduleInfo;
use tempfile::tempdir;

fn create_dir<P: AsRef<Path>>(path: P) {
    let path = path.as_ref();
    let parent = path.parent().unwrap();
    let name = path.file_name().unwrap().to_str().unwrap();
    tempfile::Builder::new()
        .prefix(name)
        .rand_bytes(0)
        .tempdir_in(parent)
        .unwrap()
        .keep();
}


fn make_sub(path: &str) -> SubmoduleInfo {
    SubmoduleInfo {
        path: path.to_string(),
        url: "https://example.com/repo.git".to_string(),
        branch: None,
    }
}

#[test]
fn populated_tests_empty_submodules_returns_true() {
    let dir = tempdir().unwrap();
    assert!(check(&[], dir.path().to_str().unwrap(), &mut Vec::new()));
}

#[test]
fn populated_submodule_returns_true() {
    let dir = tempdir().unwrap();
    let sub_path = dir.path().join("sub");
    create_dir(&sub_path);
    create_dir(sub_path.join(".git"));

    let subs = [make_sub("sub")];
    assert!(check(&subs, dir.path().to_str().unwrap(), &mut Vec::new()));
}

#[test]
fn missing_submodule_returns_false() {
    let dir = tempdir().unwrap();

    let subs = [make_sub("sub")];
    assert!(!check(&subs, dir.path().to_str().unwrap(), &mut Vec::new()));
}

#[test]
fn mixed_returns_false() {
    let dir = tempdir().unwrap();
    let sub_a = dir.path().join("a");
    create_dir(&sub_a);
    create_dir(sub_a.join(".git"));

    let subs = [make_sub("a"), make_sub("b")];
    assert!(!check(&subs, dir.path().to_str().unwrap(), &mut Vec::new()));
}

#[test]
fn col_width_aligns_correctly() {
    let dir = tempdir().unwrap();
    let long_name = dir.path().join("longname");
    create_dir(&long_name);
    create_dir(long_name.join(".git"));

    let subs = [make_sub("longname"), make_sub("s")];
    let mut out = Vec::new();
    let result = check(&subs, dir.path().to_str().unwrap(), &mut out);
    assert!(!result); // "s" is missing
    assert_eq!(out, vec!["longname  populated".to_string(), "s         missing".to_string()]);
}

#[test]
fn populated_status_lines() {
    assert_eq!(populated_status("ab", 4, true), ("ab    populated".to_string(), true));
    assert_eq!(populated_status("ab", 1, false), ("ab  missing".to_string(), false));
}
