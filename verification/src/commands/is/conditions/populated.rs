//! `populated`: every submodule has been initialised and cloned locally, which is
//! to say that its directory holds a `.git`.
use vstd::prelude::*;
use super::{fold_steps, lemma_fold_err, lemma_report_push, lemma_verdict, lines_view, reports, Step};
use crate::git::{error_text, open_repository, path_exists};
use crate::strings::{
    concat3, err_open_repo, spec_err_open_repo, spec_err_read_submodules,
    STATUS_MISSING, STATUS_POPULATED,
};
use crate::submodule::{
    col_width, column_width, infos_view, submodules, SubmoduleInfo, SubmoduleSpec,
};
use crate::text::{join_path, pad, pad_right};

verus! {

/// The status line of the submodule at `path`, given whether its `.git` exists.
pub open spec fn populated_step(path: Seq<char>, width: nat, git_dir_exists: bool) -> Step {
    let status = if git_dir_exists {
        STATUS_POPULATED@
    } else {
        STATUS_MISSING@
    };
    Ok((pad_right(path, width) + "  "@ + status, git_dir_exists))
}

/// The steps of the check, given for each submodule whether its `.git` exists.
pub open spec fn populated_steps(subs: Seq<SubmoduleSpec>, found: Seq<bool>) -> Seq<Step> {
    Seq::new(found.len(), |i: int| populated_step(subs[i].path, col_width(subs), found[i]))
}

/// The status line of the submodule at `path` and whether it passed, given
/// whether its `.git` exists.
pub fn populated_status(path: &str, width: usize, git_dir_exists: bool) -> (r: (String, bool))
    ensures
        populated_step(path@, width as nat, git_dir_exists) == Ok::<(Seq<char>, bool), Seq<char>>(
            (r.0@, r.1),
        ),
{
    let padded = pad(path, width);
    let status = if git_dir_exists {
        STATUS_POPULATED
    } else {
        STATUS_MISSING
    };
    (concat3(padded.as_str(), "  ", status), git_dir_exists)
}

/// Checks that each submodule's directory under `base_path` holds a `.git`,
/// appending one status line per submodule to `out`. Whether each `.git` exists
/// depends on the file system; whatever was found, the lines and the verdict are
/// those of [`populated_steps`] for it.
pub fn check(submodules: &[SubmoduleInfo], base_path: &str, out: &mut Vec<String>) -> (r: bool)
    ensures
        exists|found: Seq<bool>|
            found.len() == submodules@.len() && reports(
                old(out)@,
                final(out)@,
                populated_steps(infos_view(submodules@), found),
                Ok(r),
            ),
{
    let width = column_width(submodules);
    let ghost subs = infos_view(submodules@);
    let ghost before = out@;
    let ghost mut found: Seq<bool> = Seq::empty();
    let mut all_ok = true;
    assert(populated_steps(subs, found) =~= Seq::<Step>::empty());
    assert(lines_view(before) + fold_steps(populated_steps(subs, found)).0 =~= lines_view(out@));
    let mut i: usize = 0;
    while i < submodules.len()
        invariant
            i <= submodules@.len(),
            subs == infos_view(submodules@),
            width == col_width(subs),
            found.len() == i,
            reports(before, out@, populated_steps(subs, found), Ok(all_ok)),
        decreases submodules@.len() - i,
    {
        let sub_path = join_path(base_path, submodules[i].path.as_str());
        let git_dir = join_path(sub_path.as_str(), ".git");
        let exists = path_exists(git_dir.as_str());
        let (line, ok) = populated_status(submodules[i].path.as_str(), width, exists);
        proof {
            lemma_report_push(before, out@, populated_steps(subs, found), all_ok, line, ok);
            assert(populated_steps(subs, found.push(exists)) =~= populated_steps(subs, found).push(
                Ok((line@, ok)),
            ));
            found = found.push(exists);
        }
        out.push(line);
        all_ok = all_ok && ok;
        i = i + 1;
    }
    all_ok
}

/// What a run of `populated` in the current directory can give.
pub open spec fn run_outcome(before: Seq<String>, after: Seq<String>, r: Result<bool, String>) -> bool {
    match r {
        Err(m) => {
            &&& after == before
            &&& (exists|t: Seq<char>| m@ == spec_err_open_repo(t)) || (exists|t: Seq<char>|
                m@ == spec_err_read_submodules(t))
        },
        Ok(b) => exists|subs: Seq<SubmoduleInfo>, found: Seq<bool>|
            found.len() == subs.len() && reports(
                before,
                after,
                populated_steps(infos_view(subs), found),
                Ok(b),
            ),
    }
}

/// Checks `populated` on the repository in the current directory, with the
/// submodules that libgit2 reads for it.
pub fn run(out: &mut Vec<String>) -> (r: Result<bool, String>)
    ensures
        run_outcome(old(out)@, final(out)@, r),
{
    let repo = match open_repository(".") {
        Err(e) => {
            let t = error_text(&e);
            return Err(err_open_repo(t.as_str()));
        },
        Ok(repo) => repo,
    };
    let subs = match submodules(&repo) {
        Err(m) => {
            return Err(m);
        },
        Ok(subs) => subs,
    };
    let b = check(subs.as_slice(), ".", out);
    Ok(b)
}

/// `populated` never ends in an error, and it holds exactly when the `.git` of
/// every submodule was found.
pub proof fn lemma_populated_holds(subs: Seq<SubmoduleSpec>, found: Seq<bool>)
    ensures
        fold_steps(populated_steps(subs, found)).1 is Ok,
        fold_steps(populated_steps(subs, found)).1 == Ok::<bool, Seq<char>>(true) <==> forall|i: int|
            0 <= i < found.len() ==> #[trigger] found[i],
{
    let steps = populated_steps(subs, found);
    lemma_verdict(steps);
    lemma_fold_err(steps);
    assert forall|i: int| 0 <= i < steps.len() implies !(#[trigger] steps[i] is Err) by {}
    if forall|i: int| 0 <= i < found.len() ==> #[trigger] found[i] {
        assert forall|i: int| 0 <= i < steps.len() implies (#[trigger] steps[i] matches Ok(
            (_, ok),
        ) && ok) by {
            assert(found[i]);
        }
    }
    if fold_steps(steps).1 == Ok::<bool, Seq<char>>(true) {
        assert forall|i: int| 0 <= i < found.len() implies #[trigger] found[i] by {
            assert(steps[i] matches Ok((_, ok)) && ok);
        }
    }
}

} // verus!
