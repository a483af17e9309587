use submodule_kit::commands::is::conditions::all_up_to_date::{
    check, upstream_status, UpstreamAction, UpstreamProbe,
};
use submodule_kit::submodule::SubmoduleInfo;
use tempfile::tempdir;

fn make_sub(path: &str, url: &str, branch: Option<&str>) -> SubmoduleInfo {
    SubmoduleInfo {
        path: path.to_string(),
        url: url.to_string(),
        branch: branch.map(str::to_string),
    }
}

fn add_submodule_to_index(parent_repo: &git2::Repository, sub_path: &str, oid: git2::Oid) {
    let mut index = parent_repo.index().unwrap();
    let entry = git2::IndexEntry {
        ctime: git2::IndexTime::new(0, 0),
        mtime: git2::IndexTime::new(0, 0),
        dev: 0,
        ino: 0,
        mode: 0o160000,
        uid: 0,
        gid: 0,
        file_size: 0,
        id: oid,
        flags: 0,
        flags_extended: 0,
        path: sub_path.as_bytes().to_vec(),
    };
    index.add(&entry).unwrap();
    index.write().unwrap();
}

fn make_commit_in_bare(repo: &git2::Repository, branch: &str) -> git2::Oid {
    let sig = git2::Signature::now("Test", "test@test.com").unwrap();
    let tree_id = {
        let builder = repo.treebuilder(None).unwrap();
        builder.write().unwrap()
    };
    let tree = repo.find_tree(tree_id).unwrap();
    let refname = format!("refs/heads/{branch}");
    repo.commit(Some(&refname), &sig, &sig, "Initial", &tree, &[])
        .unwrap()
}

/// What `git ls-remote <url> <refspec>` gives for a local repository: one line
/// with the id and the name of the reference when it exists, and git's complaint
/// when the URL names no repository.
fn ls_remote_as_git(url: &str, refspec: &str) -> Result<(bool, String, String), String> {
    let path = url.strip_prefix("file://").unwrap_or(url);
    match git2::Repository::open(path) {
        Err(_) => Ok((
            false,
            String::new(),
            format!("fatal: '{path}' does not appear to be a git repository\n"),
        )),
        Ok(repo) => match repo.find_reference(refspec) {
            Ok(r) => Ok((true, format!("{}\t{refspec}\n", r.target().unwrap()), String::new())),
            Err(_) => Ok((true, String::new(), String::new())),
        },
    }
}

/// Runs the walk to its end, answering each question as `git ls-remote` would.
fn drive(
    subs: Vec<SubmoduleInfo>,
    repo: git2::Repository,
    out: &mut Vec<String>,
) -> Result<bool, String> {
    let mut walk = check(subs, repo, out)?;
    loop {
        match walk.proceed(out) {
            UpstreamAction::Finished(r) => return r,
            UpstreamAction::LsRemote { url, refspec } => {
                let reply = ls_remote_as_git(&url, &refspec);
                walk.answer(&reply, out);
            }
        }
    }
}

#[test]
fn all_up_to_date_tests_empty_submodules_returns_true() {
    let dir = tempdir().unwrap();
    let repo = git2::Repository::init(dir.path()).unwrap();
    assert!(drive(vec![], repo, &mut Vec::new()).unwrap());
}

#[test]
fn missing_branch_returns_error() {
    let dir = tempdir().unwrap();
    let repo = git2::Repository::init(dir.path()).unwrap();
    let subs = vec![make_sub("sub", "https://example.com/repo.git", None)];
    let err = drive(subs, repo, &mut Vec::new()).unwrap_err();
    assert!(err.contains("branch"));
}

#[test]
fn up_to_date_returns_true() {
    let remote_dir = tempdir().unwrap();
    let remote_repo = git2::Repository::init_bare(remote_dir.path()).unwrap();
    let commit_oid = make_commit_in_bare(&remote_repo, "main");

    let parent_dir = tempdir().unwrap();
    let parent_repo = git2::Repository::init(parent_dir.path()).unwrap();
    add_submodule_to_index(&parent_repo, "sub", commit_oid);

    let remote_url = format!("file://{}", remote_dir.path().display());
    let subs = vec![make_sub("sub", &remote_url, Some("main"))];
    let mut out = Vec::new();
    assert!(drive(subs, parent_repo, &mut out).unwrap());
    let short = &commit_oid.to_string()[..7];
    assert_eq!(out, vec![format!("sub  up-to-date  {short}")]);
}

#[test]
fn behind_returns_false() {
    let remote_dir = tempdir().unwrap();
    let remote_repo = git2::Repository::init_bare(remote_dir.path()).unwrap();
    let commit_oid = make_commit_in_bare(&remote_repo, "main");

    let parent_dir = tempdir().unwrap();
    let parent_repo = git2::Repository::init(parent_dir.path()).unwrap();

    // Record a different (older) OID in parent index
    let different_oid = {
        let sig = git2::Signature::now("Test", "test@test.com").unwrap();
        let tree_id = remote_repo.treebuilder(None).unwrap().write().unwrap();
        let tree = remote_repo.find_tree(tree_id).unwrap();
        let parent_commit = remote_repo.find_commit(commit_oid).unwrap();
        remote_repo
            .commit(
                Some("refs/heads/main"),
                &sig,
                &sig,
                "Second",
                &tree,
                &[&parent_commit],
            )
            .unwrap()
    };
    // Parent index still points to first commit, remote now has second
    add_submodule_to_index(&parent_repo, "sub", commit_oid);

    let remote_url = format!("file://{}", remote_dir.path().display());
    let subs = vec![make_sub("sub", &remote_url, Some("main"))];
    // remote tip is different_oid, parent records commit_oid → behind
    let mut out = Vec::new();
    assert!(!drive(subs, parent_repo, &mut out).unwrap());
    let parent = &commit_oid.to_string()[..7];
    let remote = &different_oid.to_string()[..7];
    assert_eq!(out, vec![format!("sub  behind      parent={parent}  remote={remote}")]);
}

#[test]
fn bad_url_returns_error() {
    let parent_dir = tempdir().unwrap();
    let parent_repo = git2::Repository::init(parent_dir.path()).unwrap();

    // Add a fake OID to the index so git_rev_parse_submodule succeeds
    let fake_oid = git2::Oid::from_str("0000000000000000000000000000000000000000").unwrap();
    add_submodule_to_index(&parent_repo, "sub", fake_oid);

    let subs = vec![make_sub(
        "sub",
        "file:///nonexistent/path/to/repo",
        Some("main"),
    )];
    assert!(drive(subs, parent_repo, &mut Vec::new()).is_err());
}

#[test]
fn all_up_to_date_tests_missing_index_entry_returns_error() {
    let remote_dir = tempdir().unwrap();
    let remote_repo = git2::Repository::init_bare(remote_dir.path()).unwrap();
    make_commit_in_bare(&remote_repo, "main");

    let parent_dir = tempdir().unwrap();
    let parent_repo = git2::Repository::init(parent_dir.path()).unwrap();
    // Don't add submodule to index

    let remote_url = format!("file://{}", remote_dir.path().display());
    let subs = vec![make_sub("sub", &remote_url, Some("main"))];
    assert!(drive(subs, parent_repo, &mut Vec::new()).is_err());
}

#[test]
fn missing_branch_is_reported_before_any_lookup() {
    let dir = tempdir().unwrap();
    let repo = git2::Repository::init(dir.path()).unwrap();
    let subs = vec![
        make_sub("a", "file:///nonexistent", Some("main")),
        make_sub("b", "file:///nonexistent", None),
    ];
    let mut out = Vec::new();
    assert_eq!(
        drive(subs, repo, &mut out),
        Err("submodule 'b' is missing 'branch =' in .gitmodules".to_string())
    );
    assert!(out.is_empty());
}

#[test]
fn upstream_status_lines() {
    let a = "0123456789abcdef0123456789abcdef01234567".to_string();
    let b = "fedcba9876543210fedcba9876543210fedcba98".to_string();
    assert_eq!(
        upstream_status("libs/foo", "u", 8, &UpstreamProbe::Compared(a.clone(), a.clone())),
        Ok(("libs/foo  up-to-date  0123456".to_string(), true))
    );
    assert_eq!(
        upstream_status("bar", "u", 8, &UpstreamProbe::Compared(a.clone(), b)),
        Ok(("bar       behind      parent=0123456  remote=fedcba9".to_string(), false))
    );
    assert_eq!(
        upstream_status("bar", "u", 0, &UpstreamProbe::ParentFailed("no".to_string())),
        Err("no".to_string())
    );
    assert_eq!(
        upstream_status("bar", "u", 0, &UpstreamProbe::RemoteFailed("down".to_string())),
        Err("down".to_string())
    );
}

#[test]
fn a_tip_that_cannot_be_shortened_is_an_error() {
    let a = "0123456789abcdef0123456789abcdef01234567".to_string();
    // "abcdef" followed by a two-byte character: the seventh byte is inside it.
    let tip = "abcdefé".to_string();
    assert_eq!(
        upstream_status("s", "u", 0, &UpstreamProbe::Compared(a.clone(), tip)),
        Err("tip 'abcdefé' at u is not a commit id".to_string())
    );
    assert_eq!(
        upstream_status("s", "u", 0, &UpstreamProbe::Compared(a, "xyzé".to_string())),
        Ok(("s  behind      parent=0123456  remote=xyzé".to_string(), false))
    );
}

#[test]
fn the_walk_asks_for_each_submodule_in_order() {
    let remote_dir = tempdir().unwrap();
    let remote_repo = git2::Repository::init_bare(remote_dir.path()).unwrap();
    let tip = make_commit_in_bare(&remote_repo, "main");
    let parent_dir = tempdir().unwrap();
    let parent_repo = git2::Repository::init(parent_dir.path()).unwrap();
    add_submodule_to_index(&parent_repo, "a", tip);
    add_submodule_to_index(&parent_repo, "b", tip);
    let url = format!("file://{}", remote_dir.path().display());
    let subs = vec![make_sub("a", &url, Some("main")), make_sub("b", &url, Some("dev"))];
    let mut out = Vec::new();
    let mut walk = check(subs, parent_repo, &out).unwrap();
    match walk.proceed(&out) {
        UpstreamAction::LsRemote { url: u, refspec } => {
            assert_eq!(u, url);
            assert_eq!(refspec, "refs/heads/main");
        }
        UpstreamAction::Finished(_) => panic!("a remote was expected"),
    }
    walk.answer(&Ok((true, format!("{tip}\trefs/heads/main\n"), String::new())), &mut out);
    assert_eq!(out, vec![format!("a  up-to-date  {}", &tip.to_string()[..7])]);
    match walk.proceed(&out) {
        UpstreamAction::LsRemote { refspec, .. } => assert_eq!(refspec, "refs/heads/dev"),
        UpstreamAction::Finished(_) => panic!("a remote was expected"),
    }
    walk.answer(&Err("No such file or directory (os error 2)".to_string()), &mut out);
    match walk.proceed(&out) {
        UpstreamAction::Finished(r) => assert_eq!(
            r,
            Err(format!("failed to connect to {url}: No such file or directory (os error 2)"))
        ),
        UpstreamAction::LsRemote { .. } => panic!("the walk should be over"),
    }
    assert_eq!(out.len(), 1);
}

#[test]
fn a_path_the_index_cannot_take_is_an_error_when_reached() {
    let dir = tempdir().unwrap();
    let repo = git2::Repository::init(dir.path()).unwrap();
    let subs = vec![make_sub("../up", "file:///nonexistent", Some("main"))];
    let mut out = Vec::new();
    assert_eq!(
        drive(subs, repo, &mut out),
        Err("submodule path '../up' cannot be looked up in the index".to_string())
    );
    assert!(out.is_empty());
}
