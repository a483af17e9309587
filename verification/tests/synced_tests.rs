use std::path::Path;
use submodule_kit::commands::is::conditions::synced::{check, sync_status, SyncProbe};
use submodule_kit::submodule::SubmoduleInfo;
use tempfile::tempdir;

fn create_dir<P: AsRef<Path>>(path: P) {
    let path = path.as_ref();
    let parent = path.parent().unwrap();
    let name = path.file_name().unwrap().to_str().unwrap();
    tempfile::Builder::new()
        .prefix(name)
        .rand_bytes(0)
        .tempdir_in(parent)
        .unwrap()
        .keep();
}


fn make_sub(path: &str) -> SubmoduleInfo {
    SubmoduleInfo {
        path: path.to_string(),
        url: "https://example.com/repo.git".to_string(),
        branch: None,
    }
}

fn make_commit(repo: &git2::Repository, msg: &str, parents: &[&git2::Commit]) -> git2::Oid {
    let sig = git2::Signature::now("Test", "test@test.com").unwrap();
    let tree_id = repo.index().unwrap().write_tree().unwrap();
    let tree = repo.find_tree(tree_id).unwrap();
    repo.commit(Some("HEAD"), &sig, &sig, msg, &tree, parents)
        .unwrap()
}

fn add_submodule_to_index(parent_repo: &git2::Repository, sub_path: &str, oid: git2::Oid) {
    let mut index = parent_repo.index().unwrap();
    let entry = git2::IndexEntry {
        ctime: git2::IndexTime::new(0, 0),
        mtime: git2::IndexTime::new(0, 0),
        dev: 0,
        ino: 0,
        mode: 0o160000,
        uid: 0,
        gid: 0,
        file_size: 0,
        id: oid,
        flags: 0,
        flags_extended: 0,
        path: sub_path.as_bytes().to_vec(),
    };
    index.add(&entry).unwrap();
    index.write().unwrap();
}

#[test]
fn synced_tests_empty_submodules_returns_true() {
    let dir = tempdir().unwrap();
    let repo = git2::Repository::init(dir.path()).unwrap();
    assert!(check(&[], &repo, dir.path().to_str().unwrap(), &mut Vec::new()).unwrap());
}

#[test]
fn synced_tests_not_populated_is_skipped() {
    let dir = tempdir().unwrap();
    let repo = git2::Repository::init(dir.path()).unwrap();
    let subs = [make_sub("sub")];
    assert!(check(&subs, &repo, dir.path().to_str().unwrap(), &mut Vec::new()).unwrap());
}

#[test]
fn synced_returns_true() {
    let parent_dir = tempdir().unwrap();
    let parent_repo = git2::Repository::init(parent_dir.path()).unwrap();

    let sub_dir = parent_dir.path().join("sub");
    create_dir(&sub_dir);
    let sub_repo = git2::Repository::init(&sub_dir).unwrap();
    let commit_oid = make_commit(&sub_repo, "Initial", &[]);

    add_submodule_to_index(&parent_repo, "sub", commit_oid);

    let subs = [make_sub("sub")];
    let mut out = Vec::new();
    assert!(check(&subs, &parent_repo, parent_dir.path().to_str().unwrap(), &mut out).unwrap());
    assert_eq!(out, vec![format!("sub  synced      {}", &commit_oid.to_string()[..7])]);
}

#[test]
fn out_of_sync_returns_false() {
    let parent_dir = tempdir().unwrap();
    let parent_repo = git2::Repository::init(parent_dir.path()).unwrap();

    let sub_dir = parent_dir.path().join("sub");
    create_dir(&sub_dir);
    let sub_repo = git2::Repository::init(&sub_dir).unwrap();
    let commit_oid = make_commit(&sub_repo, "Initial", &[]);

    // Record an older (empty tree) OID in the parent index
    let different_oid = {
        let sig = git2::Signature::now("Test", "test@test.com").unwrap();
        let tree_id = sub_repo.index().unwrap().write_tree().unwrap();
        let tree = sub_repo.find_tree(tree_id).unwrap();
        // We'll just store commit_oid offset by creating a second commit in sub
        let parent_commit = sub_repo.find_commit(commit_oid).unwrap();
        sub_repo
            .commit(None, &sig, &sig, "Second", &tree, &[&parent_commit])
            .unwrap()
    };

    add_submodule_to_index(&parent_repo, "sub", different_oid);

    let subs = [make_sub("sub")];
    assert!(!check(&subs, &parent_repo, parent_dir.path().to_str().unwrap(), &mut Vec::new()).unwrap());
}

#[test]
fn synced_tests_missing_index_entry_returns_error() {
    let parent_dir = tempdir().unwrap();
    let parent_repo = git2::Repository::init(parent_dir.path()).unwrap();

    let sub_dir = parent_dir.path().join("sub");
    create_dir(&sub_dir);
    let sub_repo = git2::Repository::init(&sub_dir).unwrap();
    make_commit(&sub_repo, "Initial", &[]);
    // Create .git so it looks populated but don't add to parent index

    let subs = [make_sub("sub")];
    assert!(check(&subs, &parent_repo, parent_dir.path().to_str().unwrap(), &mut Vec::new()).is_err());
}

#[test]
fn sync_status_lines() {
    let a = "0123456789abcdef0123456789abcdef01234567".to_string();
    let b = "fedcba9876543210fedcba9876543210fedcba98".to_string();
    assert_eq!(
        sync_status("s", 0, &SyncProbe::Compared(a.clone(), a.clone())),
        Ok(("s  synced      0123456".to_string(), true))
    );
    assert_eq!(
        sync_status("s", 0, &SyncProbe::Compared(a.clone(), b)),
        Ok(("s  out-of-sync  recorded=0123456  local=fedcba9".to_string(), false))
    );
    assert_eq!(
        sync_status("s", 0, &SyncProbe::Compared(a, String::new())),
        Ok(("s  out-of-sync  recorded=0123456  local=".to_string(), false))
    );
}

#[test]
fn synced_unborn_head_is_an_error() {
    let parent_dir = tempdir().unwrap();
    let parent_repo = git2::Repository::init(parent_dir.path()).unwrap();
    let sub_dir = parent_dir.path().join("sub");
    create_dir(&sub_dir);
    git2::Repository::init(&sub_dir).unwrap();
    let oid = git2::Oid::from_str("0123456789abcdef0123456789abcdef01234567").unwrap();
    add_submodule_to_index(&parent_repo, "sub", oid);

    let subs = [make_sub("sub")];
    let err = check(&subs, &parent_repo, parent_dir.path().to_str().unwrap(), &mut Vec::new())
        .unwrap_err();
    assert!(err.starts_with("failed to read HEAD of submodule 'sub': "), "{err}");
}

#[test]
fn missing_index_entry_names_the_path() {
    let parent_dir = tempdir().unwrap();
    let parent_repo = git2::Repository::init(parent_dir.path()).unwrap();
    let sub_dir = parent_dir.path().join("sub");
    create_dir(&sub_dir);
    let sub_repo = git2::Repository::init(&sub_dir).unwrap();
    make_commit(&sub_repo, "Initial", &[]);

    let subs = [make_sub("sub")];
    let err = check(&subs, &parent_repo, parent_dir.path().to_str().unwrap(), &mut Vec::new())
        .unwrap_err();
    assert_eq!(err, "submodule 'sub' not found in index");
}

#[test]
fn out_of_sync_line_shows_both_commits() {
    let parent_dir = tempdir().unwrap();
    let parent_repo = git2::Repository::init(parent_dir.path()).unwrap();
    let sub_dir = parent_dir.path().join("sub");
    create_dir(&sub_dir);
    let sub_repo = git2::Repository::init(&sub_dir).unwrap();
    let head = make_commit(&sub_repo, "Initial", &[]);
    let recorded = git2::Oid::from_str("0123456789abcdef0123456789abcdef01234567").unwrap();
    add_submodule_to_index(&parent_repo, "sub", recorded);

    let subs = [make_sub("sub")];
    let mut out = Vec::new();
    assert!(!check(&subs, &parent_repo, parent_dir.path().to_str().unwrap(), &mut out).unwrap());
    assert_eq!(
        out,
        vec![format!("sub  out-of-sync  recorded=0123456  local={}", &head.to_string()[..7])]
    );
}

#[test]
fn unpopulated_submodules_with_any_path_are_skipped() {
    let dir = tempdir().unwrap();
    let repo = git2::Repository::init(dir.path()).unwrap();
    let subs = [make_sub("/nowhere/at/all"), make_sub("../x-missing"), make_sub("./gone")];
    let mut out = Vec::new();
    assert!(check(&subs, &repo, dir.path().to_str().unwrap(), &mut out).unwrap());
    assert_eq!(out.len(), 3);
    assert!(out.iter().all(|l| l.ends_with("not populated (skipped)")));
}

#[test]
fn a_populated_submodule_the_index_cannot_take_is_an_error() {
    let parent_dir = tempdir().unwrap();
    let parent_repo = git2::Repository::init(parent_dir.path()).unwrap();
    let sub_dir = parent_dir.path().join("sub");
    create_dir(&sub_dir);
    let sub_repo = git2::Repository::init(&sub_dir).unwrap();
    make_commit(&sub_repo, "Initial", &[]);
    let subs = [make_sub("./sub")];
    let err = check(&subs, &parent_repo, parent_dir.path().to_str().unwrap(), &mut Vec::new())
        .unwrap_err();
    assert_eq!(err, "submodule path './sub' cannot be looked up in the index");
}
