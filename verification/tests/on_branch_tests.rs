use std::path::Path;
use submodule_kit::commands::is::conditions::on_branch::{branch_status, check, BranchProbe};
use submodule_kit::submodule::SubmoduleInfo;
use tempfile::tempdir;

fn create_dir<P: AsRef<Path>>(path: P) {
    let path = path.as_ref();
    let parent = path.parent().unwrap();
    let name = path.file_name().unwrap().to_str().unwrap();
    tempfile::Builder::new()
        .prefix(name)
        .rand_bytes(0)
        .tempdir_in(parent)
        .unwrap()
        .keep();
}


fn make_sub(path: &str, branch: Option<&str>) -> SubmoduleInfo {
    SubmoduleInfo {
        path: path.to_string(),
        url: "https://example.com/repo.git".to_string(),
        branch: branch.map(str::to_string),
    }
}

fn init_repo_with_commit(path: &Path) -> git2::Repository {
    let repo = git2::Repository::init(path).unwrap();
    {
        let sig = git2::Signature::now("Test", "test@test.com").unwrap();
        let tree_id = {
            let mut index = repo.index().unwrap();
            index.write_tree().unwrap()
        };
        let tree = repo.find_tree(tree_id).unwrap();
        repo.commit(Some("HEAD"), &sig, &sig, "Initial", &tree, &[])
            .unwrap();
    }
    repo
}

#[test]
fn on_branch_tests_empty_submodules_returns_true() {
    let dir = tempdir().unwrap();
    assert!(check(&[], dir.path().to_str().unwrap(), &mut Vec::new()).unwrap());
}

#[test]
fn on_branch_tests_not_populated_is_skipped() {
    let dir = tempdir().unwrap();
    let subs = [make_sub("sub", Some("main"))];
    assert!(check(&subs, dir.path().to_str().unwrap(), &mut Vec::new()).unwrap());
}

#[test]
fn on_correct_branch_returns_true() {
    let dir = tempdir().unwrap();
    let sub_path = dir.path().join("sub");
    create_dir(&sub_path);
    let repo = init_repo_with_commit(&sub_path);
    let head_branch = repo.head().unwrap().shorthand().unwrap().to_string();

    let subs = [make_sub("sub", Some(&head_branch))];
    assert!(check(&subs, dir.path().to_str().unwrap(), &mut Vec::new()).unwrap());
}

#[test]
fn on_branch_no_expected_returns_true() {
    let dir = tempdir().unwrap();
    let sub_path = dir.path().join("sub");
    create_dir(&sub_path);
    init_repo_with_commit(&sub_path);

    let subs = [make_sub("sub", None)];
    assert!(check(&subs, dir.path().to_str().unwrap(), &mut Vec::new()).unwrap());
}

#[test]
fn wrong_branch_returns_false() {
    let dir = tempdir().unwrap();
    let sub_path = dir.path().join("sub");
    create_dir(&sub_path);
    init_repo_with_commit(&sub_path);

    let subs = [make_sub("sub", Some("nonexistent-branch"))];
    assert!(!check(&subs, dir.path().to_str().unwrap(), &mut Vec::new()).unwrap());
}

#[test]
fn detached_head_returns_false() {
    let dir = tempdir().unwrap();
    let sub_path = dir.path().join("sub");
    create_dir(&sub_path);
    let repo = init_repo_with_commit(&sub_path);
    let oid = repo.head().unwrap().target().unwrap();
    repo.set_head_detached(oid).unwrap();

    let subs = [make_sub("sub", Some("main"))];
    let mut out = Vec::new();
    assert!(!check(&subs, dir.path().to_str().unwrap(), &mut out).unwrap());
    assert_eq!(out, vec![format!("sub  detached-head  {}", &oid.to_string()[..7])]);
}

#[test]
fn on_branch_tests_invalid_repo_returns_error() {
    let dir = tempdir().unwrap();
    let sub_path = dir.path().join("sub");
    create_dir(&sub_path);
    create_dir(sub_path.join(".git"));

    let subs = [make_sub("sub", Some("main"))];
    assert!(check(&subs, dir.path().to_str().unwrap(), &mut Vec::new()).is_err());
}

#[test]
fn branch_status_lines() {
    let expected = Some("main".to_string());
    assert_eq!(
        branch_status("s", &expected, 0, &BranchProbe::OnBranch(Some("dev".to_string()))),
        Ok(("s  wrong-branch  current=dev  expected=main".to_string(), false))
    );
    assert_eq!(
        branch_status("s", &expected, 0, &BranchProbe::OnBranch(Some("main".to_string()))),
        Ok(("s  on-branch  main".to_string(), true))
    );
    assert_eq!(
        branch_status("s", &None, 0, &BranchProbe::OnBranch(None)),
        Ok(("s  on-branch  unknown".to_string(), true))
    );
    assert_eq!(
        branch_status("s", &expected, 0, &BranchProbe::Detached(None)),
        Ok(("s  detached-head  unknown".to_string(), false))
    );
    assert_eq!(
        branch_status("s", &expected, 0, &BranchProbe::HeadFailed("h".to_string())),
        Err("failed to read HEAD of submodule 's': h".to_string())
    );
}

#[test]
fn on_branch_unborn_head_is_an_error() {
    let dir = tempdir().unwrap();
    let sub_path = dir.path().join("sub");
    create_dir(&sub_path);
    git2::Repository::init(&sub_path).unwrap();

    let subs = [make_sub("sub", Some("main"))];
    let mut out = Vec::new();
    let err = check(&subs, dir.path().to_str().unwrap(), &mut out).unwrap_err();
    assert!(err.starts_with("failed to read HEAD of submodule 'sub': "), "{err}");
    assert!(out.is_empty());
}

#[test]
fn lines_before_an_error_are_kept() {
    let dir = tempdir().unwrap();
    let sub_path = dir.path().join("sub");
    create_dir(&sub_path);
    git2::Repository::init(&sub_path).unwrap();

    let subs = [make_sub("absent", None), make_sub("sub", None), make_sub("later", None)];
    let mut out = Vec::new();
    assert!(check(&subs, dir.path().to_str().unwrap(), &mut out).is_err());
    assert_eq!(out, vec!["absent  not populated (skipped)".to_string()]);
}
