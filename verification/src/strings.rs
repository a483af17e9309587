//! File names, parsing tokens, status labels and the error messages of the tool.
use vstd::prelude::*;
use vstd::string::*;

verus! {

// ── file paths ───────────────────────────────────────────────────────────────
pub const GITMODULES_FILE: &'static str = ".gitmodules";

// ── .gitmodules parsing tokens ───────────────────────────────────────────────
pub const SUBMODULE_SECTION_CHECK: &'static str = "[submodule";
pub const SUBMODULE_SECTION_PREFIX: &'static str = "[submodule \"";
pub const SUBMODULE_SECTION_SUFFIX: &'static str = "\"]";
pub const KEY_PATH: &'static str = "path = ";
pub const KEY_URL: &'static str = "url = ";
pub const KEY_BRANCH: &'static str = "branch = ";

// ── git refs ─────────────────────────────────────────────────────────────────
pub const REFS_HEADS_PREFIX: &'static str = "refs/heads/";

// ── status labels ────────────────────────────────────────────────────────────
pub const STATUS_UP_TO_DATE: &'static str = "up-to-date";
pub const STATUS_BEHIND: &'static str = "behind";
pub const STATUS_POPULATED: &'static str = "populated";
pub const STATUS_MISSING: &'static str = "missing";
pub const STATUS_NOT_POPULATED_SKIPPED: &'static str = "not populated (skipped)";
pub const STATUS_CLEAN: &'static str = "clean";
pub const STATUS_DIRTY: &'static str = "dirty";
pub const STATUS_ON_BRANCH: &'static str = "on-branch";
pub const STATUS_WRONG_BRANCH: &'static str = "wrong-branch";
pub const STATUS_DETACHED_HEAD: &'static str = "detached-head";
pub const STATUS_SYNCED: &'static str = "synced";
pub const STATUS_OUT_OF_SYNC: &'static str = "out-of-sync";
pub const LABEL_PARENT: &'static str = "parent";
pub const LABEL_REMOTE: &'static str = "remote";
pub const LABEL_CURRENT: &'static str = "current";
pub const LABEL_EXPECTED: &'static str = "expected";
pub const LABEL_UNKNOWN: &'static str = "unknown";
pub const LABEL_RECORDED: &'static str = "recorded";
pub const LABEL_LOCAL: &'static str = "local";

// ── progress messages ────────────────────────────────────────────────────────
pub const MSG_LISTING_SUBMODULES: &'static str = "Listing submodules...";

// ── string building ──────────────────────────────────────────────────────────
/// Builds `a + b` as a new string.
pub fn concat2(a: &str, b: &str) -> (res: String)
    ensures
        res@ == a@ + b@,
{
    let mut s = String::from_str(a);
    s.append(b);
    s
}

/// Builds `a + b + c` as a new string.
pub fn concat3(a: &str, b: &str, c: &str) -> (res: String)
    ensures
        res@ == a@ + b@ + c@,
{
    let mut s = concat2(a, b);
    s.append(c);
    s
}

/// Builds `a + b + c + d` as a new string.
pub fn concat4(a: &str, b: &str, c: &str, d: &str) -> (res: String)
    ensures
        res@ == a@ + b@ + c@ + d@,
{
    let mut s = concat3(a, b, c);
    s.append(d);
    s
}

// ── error messages ───────────────────────────────────────────────────────────
// Every error built from an underlying failure takes that failure's text.

pub open spec fn spec_err_read_gitmodules(e: Seq<char>) -> Seq<char> {
    "Failed to read .gitmodules: "@ + e
}

/// The message for a `.gitmodules` file that could not be read.
pub fn err_read_gitmodules(e: &str) -> (res: String)
    ensures
        res@ == spec_err_read_gitmodules(e@),
{
    concat2("Failed to read .gitmodules: ", e)
}

pub open spec fn spec_err_missing_path(name: Seq<char>) -> Seq<char> {
    "submodule '"@ + name + "' is missing 'path =' in .gitmodules"@
}

/// The message for a submodule section without a `path =` line.
pub fn err_missing_path(name: &str) -> (res: String)
    ensures
        res@ == spec_err_missing_path(name@),
{
    concat3("submodule '", name, "' is missing 'path =' in .gitmodules")
}

pub open spec fn spec_err_missing_url(name: Seq<char>) -> Seq<char> {
    "submodule '"@ + name + "' is missing 'url =' in .gitmodules"@
}

/// The message for a submodule section without a `url =` line.
pub fn err_missing_url(name: &str) -> (res: String)
    ensures
        res@ == spec_err_missing_url(name@),
{
    concat3("submodule '", name, "' is missing 'url =' in .gitmodules")
}

pub open spec fn spec_err_missing_branch(path: Seq<char>) -> Seq<char> {
    "submodule '"@ + path + "' is missing 'branch =' in .gitmodules"@
}

/// The message for a submodule without a configured branch.
pub fn err_missing_branch(path: &str) -> (res: String)
    ensures
        res@ == spec_err_missing_branch(path@),
{
    concat3("submodule '", path, "' is missing 'branch =' in .gitmodules")
}

pub open spec fn spec_err_open_index(e: Seq<char>) -> Seq<char> {
    "failed to open index: "@ + e
}

/// The message for an index that could not be opened.
pub fn err_open_index(e: &str) -> (res: String)
    ensures
        res@ == spec_err_open_index(e@),
{
    concat2("failed to open index: ", e)
}

pub open spec fn spec_err_not_in_index(path: Seq<char>) -> Seq<char> {
    "submodule '"@ + path + "' not found in index"@
}

/// The message for a submodule path that has no index entry.
pub fn err_not_in_index(path: &str) -> (res: String)
    ensures
        res@ == spec_err_not_in_index(path@),
{
    concat3("submodule '", path, "' not found in index")
}

pub open spec fn spec_err_create_remote(url: Seq<char>, e: Seq<char>) -> Seq<char> {
    "failed to create remote for "@ + url + ": "@ + e
}

/// The message for a remote that could not be created.
pub fn err_create_remote(url: &str, e: &str) -> (res: String)
    ensures
        res@ == spec_err_create_remote(url@, e@),
{
    concat4("failed to create remote for ", url, ": ", e)
}

pub open spec fn spec_err_connect_remote(url: Seq<char>, e: Seq<char>) -> Seq<char> {
    "failed to connect to "@ + url + ": "@ + e
}

/// The message for a remote that could not be reached.
pub fn err_connect_remote(url: &str, e: &str) -> (res: String)
    ensures
        res@ == spec_err_connect_remote(url@, e@),
{
    concat4("failed to connect to ", url, ": ", e)
}

pub open spec fn spec_err_list_refs(url: Seq<char>, e: Seq<char>) -> Seq<char> {
    "failed to list refs at "@ + url + ": "@ + e
}

/// The message for a remote whose references could not be listed.
pub fn err_list_refs(url: &str, e: &str) -> (res: String)
    ensures
        res@ == spec_err_list_refs(url@, e@),
{
    concat4("failed to list refs at ", url, ": ", e)
}

pub open spec fn spec_err_ref_not_found(refspec: Seq<char>, url: Seq<char>) -> Seq<char> {
    "ref "@ + refspec + " not found at "@ + url
}

/// The message for a reference that the remote does not advertise.
pub fn err_ref_not_found(refspec: &str, url: &str) -> (res: String)
    ensures
        res@ == spec_err_ref_not_found(refspec@, url@),
{
    concat4("ref ", refspec, " not found at ", url)
}

pub open spec fn spec_err_open_repo(e: Seq<char>) -> Seq<char> {
    "failed to open git repository: "@ + e
}

/// The message for a repository that could not be opened.
pub fn err_open_repo(e: &str) -> (res: String)
    ensures
        res@ == spec_err_open_repo(e@),
{
    concat2("failed to open git repository: ", e)
}

pub open spec fn spec_err_read_submodules(e: Seq<char>) -> Seq<char> {
    "failed to read submodules: "@ + e
}

/// The message for a submodule list that the repository could not produce.
pub fn err_read_submodules(e: &str) -> (res: String)
    ensures
        res@ == spec_err_read_submodules(e@),
{
    concat2("failed to read submodules: ", e)
}

pub open spec fn spec_err_open_submodule(path: Seq<char>, e: Seq<char>) -> Seq<char> {
    "failed to open submodule '"@ + path + "': "@ + e
}

/// The message for a submodule repository that could not be opened.
pub fn err_open_submodule(path: &str, e: &str) -> (res: String)
    ensures
        res@ == spec_err_open_submodule(path@, e@),
{
    concat4("failed to open submodule '", path, "': ", e)
}

pub open spec fn spec_err_get_status(path: Seq<char>, e: Seq<char>) -> Seq<char> {
    "failed to get status of submodule '"@ + path + "': "@ + e
}

/// The message for a submodule whose working-tree status could not be read.
pub fn err_get_status(path: &str, e: &str) -> (res: String)
    ensures
        res@ == spec_err_get_status(path@, e@),
{
    concat4("failed to get status of submodule '", path, "': ", e)
}

pub open spec fn spec_err_read_head(path: Seq<char>, e: Seq<char>) -> Seq<char> {
    "failed to read HEAD of submodule '"@ + path + "': "@ + e
}

/// The message for a submodule whose HEAD could not be resolved.
pub fn err_read_head(path: &str, e: &str) -> (res: String)
    ensures
        res@ == spec_err_read_head(path@, e@),
{
    concat4("failed to read HEAD of submodule '", path, "': ", e)
}

pub open spec fn spec_err_index_path(path: Seq<char>) -> Seq<char> {
    "submodule path '"@ + path + "' cannot be looked up in the index"@
}

/// The message for a populated submodule whose path is not repository-relative,
/// so that the parent's index cannot be asked about it.
pub fn err_index_path(path: &str) -> (res: String)
    ensures
        res@ == spec_err_index_path(path@),
{
    concat3("submodule path '", path, "' cannot be looked up in the index")
}

pub open spec fn spec_err_bad_tip(id: Seq<char>, url: Seq<char>) -> Seq<char> {
    "tip '"@ + id + "' at "@ + url + " is not a commit id"@
}

/// The message for a branch tip, reported by a remote, whose first seven bytes
/// do not end on a character boundary.
pub fn err_bad_tip(id: &str, url: &str) -> (res: String)
    ensures
        res@ == spec_err_bad_tip(id@, url@),
{
    let mut s = concat4("tip '", id, "' at ", url);
    s.append(" is not a commit id");
    s
}

} // verus!
