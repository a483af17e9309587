//! The calls into `git2` and into `std::path` that the library makes. Each item
//! here is trusted: its contract is believed, not proved, and states no more than
//! the called function's source shows. Results that depend on what is on disk
//! carry no `ensures` beyond what holds of every outcome.
use vstd::prelude::*;
use crate::text::{is_index_path, is_oid_hex};

verus! {

#[verifier::external_type_specification]
#[verifier::external_body]
pub struct ExRepository(git2::Repository);

#[verifier::external_type_specification]
#[verifier::external_body]
pub struct ExError(git2::Error);

#[verifier::external_type_specification]
#[verifier::external_body]
pub struct ExIndex(git2::Index);

#[verifier::external_type_specification]
#[verifier::external_body]
pub struct ExReference<'a>(git2::Reference<'a>);

/// `git2::Repository::open`: opens the repository at `path`. Whether it succeeds
/// depends on the file system; nothing is stated of the result.
#[verifier::external_body]
pub(crate) fn open_repository(path: &str) -> (r: Result<git2::Repository, git2::Error>) {
    git2::Repository::open(path)
}

/// The `Display` text of a `git2::Error` (its message, class and code). The text
/// is not stated.
#[verifier::external_body]
pub(crate) fn error_text(e: &git2::Error) -> (r: String) {
    e.to_string()
}

/// `git2::Repository::submodules`: for every submodule the repository
/// configures, its path (converted lossily to UTF-8), its URL and its branch
/// (each `None` when absent or not UTF-8). What the list holds depends on the
/// repository on disk and is not stated.
#[verifier::external_body]
pub(crate) fn repository_submodules(repo: &git2::Repository) -> (r: Result<
    Vec<(String, Option<String>, Option<String>)>,
    git2::Error,
>) {
    repo.submodules().map(
        |subs| {
            subs.iter().map(
                |sm| {
                    (
                        sm.path().to_string_lossy().into_owned(),
                        sm.url().map(|u| u.to_string()),
                        sm.branch().map(|b| b.to_string()),
                    )
                },
            ).collect()
        },
    )
}

/// `git2::Repository::index`: the repository's index. Nothing is stated of it.
#[verifier::external_body]
pub(crate) fn repository_index(repo: &git2::Repository) -> (r: Result<git2::Index, git2::Error>) {
    repo.index()
}

/// What an in-memory `git2::Index` holds: for each path and stage at which
/// `Index::get_path` finds an entry, that entry's id as text.
pub uninterp spec fn index_entries(index: git2::Index) -> Map<(Seq<char>, i32), Seq<char>>;

/// `git2::Index::get_path` at `stage`, with the entry's id written as text: the
/// entry that `index` holds for `path` at `stage`, when it holds one.
/// `get_path` panics unless `path` is a non-empty relative path free of NUL whose
/// first component is a plain name, hence the `requires`. An id is written by
/// `Oid`'s `Display` as forty lower-case hexadecimal digits.
#[verifier::external_body]
pub(crate) fn index_entry_id(index: &git2::Index, path: &str, stage: i32) -> (r: Option<String>)
    requires
        is_index_path(path@),
    ensures
        match r {
            Some(id) => is_oid_hex(id@) && index_entries(*index).dom().contains((path@, stage))
                && index_entries(*index)[(path@, stage)] == id@,
            None => !index_entries(*index).dom().contains((path@, stage)),
        },
{
    index.get_path(std::path::Path::new(path), stage).map(|entry| entry.id.to_string())
}

/// `git2::Repository::statuses`, with `StatusOptions::include_untracked` and
/// `StatusOptions::exclude_submodules` set as given: the number of entries in the
/// status list. The number is not stated.
#[verifier::external_body]
pub(crate) fn changed_file_count(
    repo: &git2::Repository,
    include_untracked: bool,
    exclude_submodules: bool,
) -> (r: Result<usize, git2::Error>) {
    let mut opts = git2::StatusOptions::new();
    opts.include_untracked(include_untracked).exclude_submodules(exclude_submodules);
    repo.statuses(Some(&mut opts)).map(|statuses| statuses.len())
}

/// `git2::Repository::head`: the reference HEAD resolves to. Nothing is stated
/// of it.
#[verifier::external_body]
pub(crate) fn repository_head<'a>(repo: &'a git2::Repository) -> (r: Result<
    git2::Reference<'a>,
    git2::Error,
>) {
    repo.head()
}

/// `git2::Reference::is_branch`: whether the reference is a local branch. Not
/// stated.
#[verifier::external_body]
pub(crate) fn reference_is_branch(reference: &git2::Reference) -> (r: bool) {
    reference.is_branch()
}

/// `git2::Reference::shorthand`: the short name of the reference, `None` when it
/// is not UTF-8. Not stated.
#[verifier::external_body]
pub(crate) fn reference_shorthand(reference: &git2::Reference) -> (r: Option<String>) {
    reference.shorthand().map(|s| s.to_string())
}

/// `git2::Reference::peel_to_commit`, with the commit's id written as text by
/// `Oid`'s `Display`: forty lower-case hexadecimal digits. Which commit it is is
/// not stated.
#[verifier::external_body]
pub(crate) fn reference_commit_id(reference: &git2::Reference) -> (r: Result<String, git2::Error>)
    ensures
        r matches Ok(id) ==> is_oid_hex(id@),
{
    reference.peel_to_commit().map(|c| c.id().to_string())
}

/// `std::path::Path::exists`: whether something exists at `path`. It depends on
/// the file system and is not stated.
#[verifier::external_body]
pub(crate) fn path_exists(path: &str) -> (r: bool) {
    std::path::Path::new(path).exists()
}

} // verus!
