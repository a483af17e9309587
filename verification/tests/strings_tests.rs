use submodule_kit::strings::{
    err_connect_remote, err_create_remote, err_get_status, err_list_refs, err_missing_branch,
    err_missing_path, err_missing_url, err_not_in_index, err_open_index, err_open_repo,
    err_open_submodule, err_read_gitmodules, err_read_head, err_ref_not_found,
};

#[test]
fn err_read_gitmodules_contains_error() {
    let msg = err_read_gitmodules(&"disk error");
    assert!(msg.contains("disk error"));
    assert!(msg.contains(".gitmodules"));
}

#[test]
fn err_missing_path_contains_name() {
    let msg = err_missing_path("mymod");
    assert!(msg.contains("mymod"));
    assert!(msg.contains("path"));
}

#[test]
fn err_missing_url_contains_name() {
    let msg = err_missing_url("mymod");
    assert!(msg.contains("mymod"));
    assert!(msg.contains("url"));
}

#[test]
fn err_missing_branch_contains_path() {
    let msg = err_missing_branch("mypath");
    assert!(msg.contains("mypath"));
    assert!(msg.contains("branch"));
}

#[test]
fn err_open_index_contains_error() {
    let msg = err_open_index(&"io error");
    assert!(msg.contains("io error"));
    assert!(msg.contains("index"));
}

#[test]
fn err_not_in_index_contains_path() {
    let msg = err_not_in_index("mypath");
    assert!(msg.contains("mypath"));
    assert!(msg.contains("index"));
}

#[test]
fn err_create_remote_contains_url_and_error() {
    let msg = err_create_remote("https://example.com", &"net error");
    assert!(msg.contains("https://example.com"));
    assert!(msg.contains("net error"));
}

#[test]
fn err_connect_remote_contains_url_and_error() {
    let msg = err_connect_remote("https://example.com", &"timeout");
    assert!(msg.contains("https://example.com"));
    assert!(msg.contains("timeout"));
}

#[test]
fn err_list_refs_contains_url_and_error() {
    let msg = err_list_refs("https://example.com", &"refused");
    assert!(msg.contains("https://example.com"));
    assert!(msg.contains("refused"));
}

#[test]
fn err_ref_not_found_contains_refspec_and_url() {
    let msg = err_ref_not_found("refs/heads/main", "https://example.com");
    assert!(msg.contains("refs/heads/main"));
    assert!(msg.contains("https://example.com"));
}

#[test]
fn err_open_repo_contains_error() {
    let msg = err_open_repo(&"not a repo");
    assert!(msg.contains("not a repo"));
    assert!(msg.contains("repository"));
}

#[test]
fn err_open_submodule_contains_path_and_error() {
    let msg = err_open_submodule("mymod", &"missing");
    assert!(msg.contains("mymod"));
    assert!(msg.contains("missing"));
}

#[test]
fn err_get_status_contains_path_and_error() {
    let msg = err_get_status("mymod", &"locked");
    assert!(msg.contains("mymod"));
    assert!(msg.contains("locked"));
}

#[test]
fn err_read_head_contains_path_and_error() {
    let msg = err_read_head("mymod", &"unborn");
    assert!(msg.contains("mymod"));
    assert!(msg.contains("unborn"));
}

// ── exact texts ──────────────────────────────────────────────────────────────

#[test]
fn error_messages_exact_texts() {
    assert_eq!(err_read_gitmodules("boom"), "Failed to read .gitmodules: boom");
    assert_eq!(err_missing_path("m"), "submodule 'm' is missing 'path =' in .gitmodules");
    assert_eq!(err_missing_url("m"), "submodule 'm' is missing 'url =' in .gitmodules");
    assert_eq!(err_missing_branch("p"), "submodule 'p' is missing 'branch =' in .gitmodules");
    assert_eq!(err_open_index("e"), "failed to open index: e");
    assert_eq!(err_not_in_index("p"), "submodule 'p' not found in index");
    assert_eq!(err_create_remote("u", "e"), "failed to create remote for u: e");
    assert_eq!(err_connect_remote("u", "e"), "failed to connect to u: e");
    assert_eq!(err_list_refs("u", "e"), "failed to list refs at u: e");
    assert_eq!(err_ref_not_found("r", "u"), "ref r not found at u");
    assert_eq!(err_open_repo("e"), "failed to open git repository: e");
    assert_eq!(err_open_submodule("p", "e"), "failed to open submodule 'p': e");
    assert_eq!(err_get_status("p", "e"), "failed to get status of submodule 'p': e");
    assert_eq!(err_read_head("p", "e"), "failed to read HEAD of submodule 'p': e");
}
