use submodule_kit::commands::is::{list, run, IsAction, IsCondition};
use submodule_kit::submodule::{
    git_ls_remote, git_rev_parse_submodule, parse_gitmodules_str, short,
};
use tempfile::tempdir;

/// What `git ls-remote <url> <refspec>` prints for a repository: one line per
/// reference, its id and its name.
fn ls_remote_output(repo: &git2::Repository) -> String {
    let mut text = String::new();
    for r in repo.references().unwrap() {
        let r = r.unwrap();
        text.push_str(&format!("{}\t{}\n", r.target().unwrap(), r.name().unwrap()));
    }
    text
}

/// Runs `is` to its end; none of these runs needs a remote.
fn drive(
    conditions: Vec<IsCondition>,
    gitmodules: &Result<String, String>,
    out: &mut Vec<String>,
) -> Result<bool, String> {
    let mut r = run(conditions, gitmodules.clone(), out);
    match r.proceed(out) {
        IsAction::Finished(outcome) => outcome,
        IsAction::LsRemote { .. } => panic!("no remote was expected"),
    }
}


#[test]
fn mod_tests_short_truncates_long_sha() {
    assert_eq!(short("abcdef1234567890"), "abcdef1");
}

#[test]
fn mod_tests_short_preserves_short_string() {
    assert_eq!(short("abc"), "abc");
}

#[test]
fn mod_tests_short_empty_string() {
    assert_eq!(short(""), "");
}

#[test]
fn parse_empty_content() {
    let result = parse_gitmodules_str("").unwrap();
    assert!(result.is_empty());
}

#[test]
fn parse_single_submodule_with_branch() {
    let content = r#"
[submodule "foo"]
    path = foo
    url = https://example.com/foo.git
    branch = main
"#;
    let subs = parse_gitmodules_str(content).unwrap();
    assert_eq!(subs.len(), 1);
    assert_eq!(subs[0].path, "foo");
    assert_eq!(subs[0].url, "https://example.com/foo.git");
    assert_eq!(subs[0].branch.as_deref(), Some("main"));
}

#[test]
fn parse_single_submodule_without_branch() {
    let content = r#"
[submodule "bar"]
    path = bar
    url = https://example.com/bar.git
"#;
    let subs = parse_gitmodules_str(content).unwrap();
    assert_eq!(subs.len(), 1);
    assert_eq!(subs[0].path, "bar");
    assert_eq!(subs[0].url, "https://example.com/bar.git");
    assert!(subs[0].branch.is_none());
}

#[test]
fn parse_multiple_submodules() {
    let content = r#"
[submodule "a"]
    path = a
    url = https://example.com/a.git
    branch = main
[submodule "b"]
    path = b
    url = https://example.com/b.git
"#;
    let subs = parse_gitmodules_str(content).unwrap();
    assert_eq!(subs.len(), 2);
    assert_eq!(subs[0].path, "a");
    assert_eq!(subs[1].path, "b");
}

#[test]
fn parse_missing_path_returns_error() {
    let content = r#"
[submodule "bad"]
    url = https://example.com/bad.git
"#;
    let err = parse_gitmodules_str(content).unwrap_err();
    assert!(err.contains("bad"));
    assert!(err.contains("path"));
}

#[test]
fn parse_missing_url_returns_error() {
    let content = r#"
[submodule "bad"]
    path = bad
"#;
    let err = parse_gitmodules_str(content).unwrap_err();
    assert!(err.contains("bad"));
    assert!(err.contains("url"));
}

#[test]
fn parse_ignores_non_submodule_lines() {
    let content = r#"
[core]
    repositoryformatversion = 0
[submodule "x"]
    path = x
    url = https://example.com/x.git
"#;
    let subs = parse_gitmodules_str(content).unwrap();
    assert_eq!(subs.len(), 1);
    assert_eq!(subs[0].path, "x");
}

// The `.gitmodules` file is read by the caller; a missing file reaches the
// library as the read's error.

#[test]
fn mod_tests_list_with_submodules_branch_and_no_branch() {
    let gitmodules = "[submodule \"with\"]\n    path = with\n    url = https://example.com/with.git\n    branch = main\n[submodule \"without\"]\n    path = without\n    url = https://example.com/without.git\n";
    let mut out = Vec::new();
    let result = list(&Ok(gitmodules.to_string()), &mut out);
    assert!(result.is_ok());
    assert_eq!(
        out,
        vec![
            "with     https://example.com/with.git  (branch: main)".to_string(),
            "without  https://example.com/without.git".to_string(),
        ]
    );
}

#[test]
fn mod_tests_list_fails_when_no_gitmodules_file() {
    let mut out = Vec::new();
    let result = list(&Err("No such file or directory (os error 2)".to_string()), &mut out);
    assert!(result.is_err());
    assert!(out.is_empty());
}

#[test]
fn run_fails_on_a_failed_read_of_gitmodules() {
    let missing = Err("No such file or directory (os error 2)".to_string());
    for cond in [IsCondition::OnBranch, IsCondition::Synced, IsCondition::AllUpToDate] {
        let mut out = Vec::new();
        assert!(drive(vec![cond], &missing, &mut out).is_err());
    }
}

#[test]
fn run_with_no_conditions_is_true() {
    let mut out = Vec::new();
    assert_eq!(drive(vec![], &Ok(String::new()), &mut out), Ok(true));
    assert!(out.is_empty());
}

#[test]
fn run_on_branch_with_empty_gitmodules_is_true() {
    let mut out = Vec::new();
    assert_eq!(drive(vec![IsCondition::OnBranch], &Ok(String::new()), &mut out), Ok(true));
}

#[test]
fn mod_tests_git_ls_remote_returns_error_when_branch_not_found() {
    let remote_dir = tempdir().unwrap();
    let remote_repo = git2::Repository::init_bare(remote_dir.path()).unwrap();
    let sig = git2::Signature::now("Test", "test@test.com").unwrap();
    let tree_id = remote_repo.treebuilder(None).unwrap().write().unwrap();
    let tree = remote_repo.find_tree(tree_id).unwrap();
    remote_repo
        .commit(Some("refs/heads/other"), &sig, &sig, "Init", &tree, &[])
        .unwrap();

    let parent_dir = tempdir().unwrap();
    let _parent_repo = git2::Repository::init(parent_dir.path()).unwrap();
    let remote_url = format!("file://{}", remote_dir.path().display());
    let err = git_ls_remote(&remote_url, "main", &Ok((true, ls_remote_output(&remote_repo), String::new()))).unwrap_err();
    assert!(err.contains("main"));
}

#[test]
fn mod_tests_git_rev_parse_submodule_on_bare_repo_returns_error() {
    let dir = tempdir().unwrap();
    let bare_repo = git2::Repository::init_bare(dir.path()).unwrap();
    let result = git_rev_parse_submodule(&bare_repo, "sub");
    assert!(result.is_err());
}
