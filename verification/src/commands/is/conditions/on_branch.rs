//! `on-branch`: every populated submodule has a branch checked out (no detached
//! HEAD), and the configured one where a branch is configured.
use vstd::prelude::*;
use super::{
    fold_steps, lemma_fold_err, lemma_report_err, lemma_report_push, lemma_verdict, lines_view,
    reports, result_view, Step,
};
use crate::git::{
    error_text, open_repository, path_exists, reference_commit_id, reference_is_branch,
    reference_shorthand, repository_head,
};
use crate::strings::{
    err_open_submodule, err_read_head, spec_err_open_submodule, spec_err_read_head,
    LABEL_CURRENT, LABEL_EXPECTED, LABEL_UNKNOWN, STATUS_DETACHED_HEAD,
    STATUS_NOT_POPULATED_SKIPPED, STATUS_ON_BRANCH, STATUS_WRONG_BRANCH,
};
use crate::submodule::{
    col_width, column_width, infos_view, lemma_oid_hex_ascii, load_gitmodules, loaded_spec,
    short_id, text_view, SubmoduleInfo, SubmoduleSpec,
};
use crate::text::{is_oid_hex, join_path, pad, pad_right, short_of, str_eq};

verus! {

/// What was found for one submodule.
pub enum BranchProbe {
    /// Its directory holds no `.git`; it is skipped.
    NotPopulated,
    /// Its repository could not be opened; the error's text.
    OpenFailed(String),
    /// Its HEAD could not be resolved; the error's text.
    HeadFailed(String),
    /// HEAD is a branch, with its short name when that is UTF-8.
    OnBranch(Option<String>),
    /// HEAD is detached, with the id of its commit when it peels to one.
    Detached(Option<String>),
}

/// A detached HEAD's commit id is a full hexadecimal id.
pub open spec fn branch_probe_wf(probe: BranchProbe) -> bool {
    match probe {
        BranchProbe::Detached(Some(id)) => is_oid_hex(id@),
        _ => true,
    }
}

/// The name shown for the branch HEAD is on: its short name, or `unknown` when
/// that is not UTF-8.
pub open spec fn current_branch(name: Option<String>) -> Seq<char> {
    match name {
        Some(n) => n@,
        None => LABEL_UNKNOWN@,
    }
}

/// Whether a submodule configured with branch `expected` passes, given what was
/// found for it: it is not populated, or it is on a branch, which is `expected`
/// when that is given.
pub open spec fn on_expected_branch(expected: Option<Seq<char>>, probe: BranchProbe) -> bool {
    ||| probe is NotPopulated
    ||| probe matches BranchProbe::OnBranch(name) && (expected matches Some(e) ==> current_branch(
        name,
    ) == e)
}

/// The contribution of the submodule at `path`, configured with branch
/// `expected`, given what was found for it.
pub open spec fn branch_step(
    path: Seq<char>,
    expected: Option<Seq<char>>,
    width: nat,
    probe: BranchProbe,
) -> Step {
    let head = pad_right(path, width) + "  "@;
    match probe {
        BranchProbe::NotPopulated => Ok((head + STATUS_NOT_POPULATED_SKIPPED@, true)),
        BranchProbe::OpenFailed(t) => Err(spec_err_open_submodule(path, t@)),
        BranchProbe::HeadFailed(t) => Err(spec_err_read_head(path, t@)),
        BranchProbe::OnBranch(name) => {
            let current = current_branch(name);
            match expected {
                Some(e) if current != e => Ok(
                    (
                        head + STATUS_WRONG_BRANCH@ + "  "@ + LABEL_CURRENT@ + "="@ + current
                            + "  "@ + LABEL_EXPECTED@ + "="@ + e,
                        false,
                    ),
                ),
                _ => Ok((head + STATUS_ON_BRANCH@ + "  "@ + current, true)),
            }
        },
        BranchProbe::Detached(id) => {
            let sha = match id {
                Some(s) => short_of(s@),
                None => LABEL_UNKNOWN@,
            };
            Ok((head + STATUS_DETACHED_HEAD@ + "  "@ + sha, false))
        },
    }
}

/// The steps of the check, given what was found for each submodule.
pub open spec fn branch_steps(subs: Seq<SubmoduleSpec>, probes: Seq<BranchProbe>) -> Seq<Step> {
    Seq::new(
        probes.len(),
        |i: int| branch_step(subs[i].path, subs[i].branch, col_width(subs), probes[i]),
    )
}

/// The status line of the submodule at `path`, configured with branch
/// `expected`, and whether it passed, or the error that stops the check.
pub fn branch_status(path: &str, expected: &Option<String>, width: usize, probe: &BranchProbe) -> (r:
    Result<(String, bool), String>)
    requires
        branch_probe_wf(*probe),
    ensures
        super::step_view(r) == branch_step(path@, expected.deep_view(), width as nat, *probe),
{
    let mut line = pad(path, width);
    line.append("  ");
    match probe {
        BranchProbe::NotPopulated => {
            line.append(STATUS_NOT_POPULATED_SKIPPED);
            Ok((line, true))
        },
        BranchProbe::OpenFailed(t) => Err(err_open_submodule(path, t.as_str())),
        BranchProbe::HeadFailed(t) => Err(err_read_head(path, t.as_str())),
        BranchProbe::OnBranch(name) => {
            let current: &str = match name {
                Some(n) => n.as_str(),
                None => LABEL_UNKNOWN,
            };
            let wrong = match expected {
                Some(e) => !str_eq(current, e.as_str()),
                None => false,
            };
            if wrong {
                let e = expected.as_ref().unwrap();
                line.append(STATUS_WRONG_BRANCH);
                line.append("  ");
                line.append(LABEL_CURRENT);
                line.append("=");
                line.append(current);
                line.append("  ");
                line.append(LABEL_EXPECTED);
                line.append("=");
                line.append(e.as_str());
                Ok((line, false))
            } else {
                line.append(STATUS_ON_BRANCH);
                line.append("  ");
                line.append(current);
                Ok((line, true))
            }
        },
        BranchProbe::Detached(id) => {
            line.append(STATUS_DETACHED_HEAD);
            line.append("  ");
            match id {
                Some(s) => {
                    proof {
                        lemma_oid_hex_ascii(s@);
                    }
                    let sha = short_id(s.as_str());
                    line.append(sha.as_str());
                },
                None => {
                    line.append(LABEL_UNKNOWN);
                },
            }
            Ok((line, false))
        },
    }
}

/// Looks at the submodule whose directory is `sub_path`.
fn probe_submodule(sub_path: &str) -> (p: BranchProbe)
    ensures
        branch_probe_wf(p),
{
    let git_dir = join_path(sub_path, ".git");
    if !path_exists(git_dir.as_str()) {
        return BranchProbe::NotPopulated;
    }
    let repo = match open_repository(sub_path) {
        Err(e) => {
            return BranchProbe::OpenFailed(error_text(&e));
        },
        Ok(repo) => repo,
    };
    let head = match repository_head(&repo) {
        Err(e) => {
            return BranchProbe::HeadFailed(error_text(&e));
        },
        Ok(head) => head,
    };
    if reference_is_branch(&head) {
        BranchProbe::OnBranch(reference_shorthand(&head))
    } else {
        match reference_commit_id(&head) {
            Ok(id) => BranchProbe::Detached(Some(id)),
            Err(_) => BranchProbe::Detached(None),
        }
    }
}

/// Checks that every populated submodule under `base_path` is on a branch, and
/// on its configured one where it has one, appending one status line per
/// submodule to `out` until an error stops the check. What is found on disk is
/// not stated; whatever it was, the lines and the outcome are those of
/// [`branch_steps`] for it.
pub fn check(submodules: &[SubmoduleInfo], base_path: &str, out: &mut Vec<String>) -> (r: Result<
    bool,
    String,
>)
    ensures
        exists|probes: Seq<BranchProbe>|
            probes.len() == submodules@.len() && (forall|i: int|
                0 <= i < probes.len() ==> branch_probe_wf(#[trigger] probes[i])) && reports(
                old(out)@,
                final(out)@,
                branch_steps(infos_view(submodules@), probes),
                result_view(r),
            ),
{
    let width = column_width(submodules);
    let ghost subs = infos_view(submodules@);
    let ghost before = out@;
    let ghost mut probes: Seq<BranchProbe> = Seq::empty();
    let mut all_ok = true;
    assert(branch_steps(subs, probes) =~= Seq::<Step>::empty());
    assert(lines_view(before) + fold_steps(branch_steps(subs, probes)).0 =~= lines_view(out@));
    let n = submodules.len();
    let mut i: usize = 0;
    while i < n
        invariant
            n == submodules@.len(),
            i <= n,
            subs == infos_view(submodules@),
            width == col_width(subs),
            probes.len() == i,
            forall|k: int| 0 <= k < probes.len() ==> branch_probe_wf(#[trigger] probes[k]),
            before == old(out)@,
            reports(before, out@, branch_steps(subs, probes), Ok(all_ok)),
        decreases n - i,
    {
        let sub_path = join_path(base_path, submodules[i].path.as_str());
        let probe = probe_submodule(sub_path.as_str());
        let status = branch_status(
            submodules[i].path.as_str(),
            &submodules[i].branch,
            width,
            &probe,
        );
        match status {
            Err(m) => {
                proof {
                    let full = probes.push(probe) + Seq::new(
                        (n - i - 1) as nat,
                        |j: int| BranchProbe::NotPopulated,
                    );
                    let more = branch_steps(subs, full).subrange(i + 1, n as int);
                    lemma_report_err(before, out@, branch_steps(subs, probes), all_ok, m@, more);
                    assert(branch_steps(subs, full) =~= branch_steps(subs, probes).push(Err(m@))
                        + more);
                    assert(full.len() == n);
                    assert forall|k: int| 0 <= k < full.len() implies branch_probe_wf(
                        #[trigger] full[k],
                    ) by {
                        if k < i {
                            assert(full[k] == probes[k]);
                        }
                    }
                    assert(reports(before, out@, branch_steps(subs, full), result_view(Err(m))));
                }
                return Err(m);
            },
            Ok((line, ok)) => {
                proof {
                    lemma_report_push(before, out@, branch_steps(subs, probes), all_ok, line, ok);
                    assert(branch_steps(subs, probes.push(probe)) =~= branch_steps(
                        subs,
                        probes,
                    ).push(Ok((line@, ok))));
                    probes = probes.push(probe);
                }
                out.push(line);
                all_ok = all_ok && ok;
            },
        }
        i = i + 1;
    }
    Ok(all_ok)
}

/// What a run of `on-branch` in the current directory can give, for the given read of
/// `.gitmodules`.
pub open spec fn run_outcome(gitmodules: Result<Seq<char>, Seq<char>>, before: Seq<String>, after: Seq<String>, r: Result<bool, String>) -> bool {
    match loaded_spec(gitmodules) {
        Err(e) => r matches Err(m) && m@ == e && after == before,
        Ok(subs) => exists|probes: Seq<BranchProbe>|
            probes.len() == subs.len() && reports(
                before,
                after,
                branch_steps(subs, probes),
                result_view(r),
            ),
    }
}

/// Checks `on-branch` in the current directory, with the submodules that the
/// given read of `.gitmodules` describes.
pub fn run(gitmodules: &Result<String, String>, out: &mut Vec<String>) -> (r: Result<bool, String>)
    ensures
        run_outcome(text_view(*gitmodules), old(out)@, final(out)@, r),
{
    let subs = match load_gitmodules(gitmodules) {
        Err(m) => {
            return Err(m);
        },
        Ok(subs) => subs,
    };
    check(subs.as_slice(), ".", out)
}

/// `on-branch` ends in an error exactly when a populated submodule could not be
/// opened or its HEAD read, and holds exactly when every submodule is either not
/// populated or on a branch, its configured one where it has one (a detached
/// HEAD never passes).
pub proof fn lemma_on_branch_holds(subs: Seq<SubmoduleSpec>, probes: Seq<BranchProbe>)
    ensures
        fold_steps(branch_steps(subs, probes)).1 is Err <==> exists|i: int|
            0 <= i < probes.len() && (#[trigger] probes[i] is OpenFailed || probes[i] is HeadFailed),
        fold_steps(branch_steps(subs, probes)).1 == Ok::<bool, Seq<char>>(true) <==> forall|i: int|
            0 <= i < probes.len() ==> on_expected_branch(subs[i].branch, #[trigger] probes[i]),
{
    let steps = branch_steps(subs, probes);
    lemma_verdict(steps);
    lemma_fold_err(steps);
    assert forall|i: int| 0 <= i < probes.len() implies (#[trigger] steps[i] is Err <==> (
    probes[i] is OpenFailed || probes[i] is HeadFailed)) by {}
    assert forall|i: int| 0 <= i < probes.len() implies ((#[trigger] steps[i] matches Ok((_, ok))
        && ok) <==> on_expected_branch(subs[i].branch, probes[i])) by {}
    if exists|i: int|
        0 <= i < probes.len() && (#[trigger] probes[i] is OpenFailed || probes[i] is HeadFailed) {
        let i = choose|i: int|
            0 <= i < probes.len() && (#[trigger] probes[i] is OpenFailed || probes[i] is HeadFailed);
        assert(steps[i] is Err);
    }
    if forall|i: int| 0 <= i < probes.len() ==> on_expected_branch(subs[i].branch, #[trigger] probes[i]) {
        assert forall|i: int| 0 <= i < steps.len() implies (#[trigger] steps[i] matches Ok(
            (_, ok),
        ) && ok) by {
            assert(on_expected_branch(subs[i].branch, probes[i]));
        }
    }
    if fold_steps(steps).1 == Ok::<bool, Seq<char>>(true) {
        assert forall|i: int| 0 <= i < probes.len() implies on_expected_branch(
            subs[i].branch,
            #[trigger] probes[i],
        ) by {
            assert(steps[i] matches Ok((_, ok)) && ok);
        }
    }
}

} // verus!
