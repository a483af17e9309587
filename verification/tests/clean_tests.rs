use std::io::Write;
use std::path::Path;
use submodule_kit::commands::is::conditions::clean::{check, clean_status, CleanProbe};
use submodule_kit::submodule::SubmoduleInfo;
use tempfile::tempdir;

fn create_dir<P: AsRef<Path>>(path: P) {
    let path = path.as_ref();
    let parent = path.parent().unwrap();
    let name = path.file_name().unwrap().to_str().unwrap();
    tempfile::Builder::new()
        .prefix(name)
        .rand_bytes(0)
        .tempdir_in(parent)
        .unwrap()
        .keep();
}

fn write_file<P: AsRef<Path>>(path: P, contents: &str) {
    let path = path.as_ref();
    let mut file = tempfile::NamedTempFile::new_in(path.parent().unwrap()).unwrap();
    file.write_all(contents.as_bytes()).unwrap();
    file.persist(path).unwrap();
}


fn make_sub(path: &str) -> SubmoduleInfo {
    SubmoduleInfo {
        path: path.to_string(),
        url: "https://example.com/repo.git".to_string(),
        branch: None,
    }
}

fn init_repo_with_commit(path: &Path) -> git2::Repository {
    let repo = git2::Repository::init(path).unwrap();
    {
        let sig = git2::Signature::now("Test", "test@test.com").unwrap();
        let tree_id = {
            let mut index = repo.index().unwrap();
            index.write_tree().unwrap()
        };
        let tree = repo.find_tree(tree_id).unwrap();
        repo.commit(Some("HEAD"), &sig, &sig, "Initial", &tree, &[])
            .unwrap();
    }
    repo
}

#[test]
fn clean_tests_empty_submodules_returns_true() {
    let dir = tempdir().unwrap();
    assert!(check(&[], dir.path().to_str().unwrap(), &mut Vec::new()).unwrap());
}

#[test]
fn clean_tests_not_populated_is_skipped() {
    let dir = tempdir().unwrap();
    let subs = [make_sub("sub")];
    // "sub" has no .git, should be skipped → still true
    assert!(check(&subs, dir.path().to_str().unwrap(), &mut Vec::new()).unwrap());
}

#[test]
fn clean_repo_returns_true() {
    let dir = tempdir().unwrap();
    let sub_path = dir.path().join("sub");
    create_dir(&sub_path);
    init_repo_with_commit(&sub_path);

    let subs = [make_sub("sub")];
    assert!(check(&subs, dir.path().to_str().unwrap(), &mut Vec::new()).unwrap());
}

#[test]
fn dirty_repo_returns_false() {
    let dir = tempdir().unwrap();
    let sub_path = dir.path().join("sub");
    create_dir(&sub_path);
    init_repo_with_commit(&sub_path);

    // Create a tracked modified file
    let file = sub_path.join("file.txt");
    write_file(&file, "initial");
    {
        let repo = git2::Repository::open(&sub_path).unwrap();
        let mut index = repo.index().unwrap();
        index.add_path(Path::new("file.txt")).unwrap();
        index.write().unwrap();
        let sig = git2::Signature::now("Test", "test@test.com").unwrap();
        let tree_id = index.write_tree().unwrap();
        let tree = repo.find_tree(tree_id).unwrap();
        let parent = repo
            .find_commit(repo.head().unwrap().target().unwrap())
            .unwrap();
        repo.commit(Some("HEAD"), &sig, &sig, "Add file", &tree, &[&parent])
            .unwrap();
    }
    // Modify the tracked file to make it dirty
    write_file(file, "modified");

    let subs = [make_sub("sub")];
    let mut out = Vec::new();
    assert!(!check(&subs, dir.path().to_str().unwrap(), &mut out).unwrap());
    assert_eq!(out, vec!["sub  dirty (1 changed file(s))".to_string()]);
}

#[test]
fn clean_tests_invalid_repo_returns_error() {
    let dir = tempdir().unwrap();
    let sub_path = dir.path().join("sub");
    create_dir(&sub_path);
    // Create a .git dir that is NOT a valid git repo
    create_dir(sub_path.join(".git"));

    let subs = [make_sub("sub")];
    let err = check(&subs, dir.path().to_str().unwrap(), &mut Vec::new()).unwrap_err();
    assert!(err.starts_with("failed to open submodule 'sub': "));
}

#[test]
fn clean_status_lines() {
    assert_eq!(
        clean_status("a", 3, &CleanProbe::NotPopulated),
        Ok(("a    not populated (skipped)".to_string(), true))
    );
    assert_eq!(clean_status("a", 0, &CleanProbe::Changes(0)), Ok(("a  clean".to_string(), true)));
    assert_eq!(
        clean_status("a", 0, &CleanProbe::Changes(12)),
        Ok(("a  dirty (12 changed file(s))".to_string(), false))
    );
    assert_eq!(
        clean_status("a", 0, &CleanProbe::OpenFailed("x".to_string())),
        Err("failed to open submodule 'a': x".to_string())
    );
    assert_eq!(
        clean_status("a", 0, &CleanProbe::StatusFailed("y".to_string())),
        Err("failed to get status of submodule 'a': y".to_string())
    );
}

#[test]
fn untracked_files_do_not_make_a_submodule_dirty() {
    let dir = tempdir().unwrap();
    let sub_path = dir.path().join("sub");
    create_dir(&sub_path);
    init_repo_with_commit(&sub_path);
    write_file(sub_path.join("new.txt"), "untracked");

    let subs = [make_sub("sub")];
    let mut out = Vec::new();
    assert!(check(&subs, dir.path().to_str().unwrap(), &mut out).unwrap());
    assert_eq!(out, vec!["sub  clean".to_string()]);
}
