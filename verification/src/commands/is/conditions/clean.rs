//! `clean`: no populated submodule has uncommitted changes to tracked files.
use vstd::prelude::*;
use super::{
    fold_steps, lemma_fold_err, lemma_report_err, lemma_report_push, lemma_verdict, lines_view,
    reports, result_view, Step,
};
use crate::git::{changed_file_count, error_text, open_repository, path_exists};
use crate::strings::{
    err_get_status, err_open_repo, err_open_submodule, spec_err_get_status, spec_err_open_repo,
    spec_err_open_submodule, spec_err_read_submodules, STATUS_CLEAN, STATUS_DIRTY,
    STATUS_NOT_POPULATED_SKIPPED,
};
use crate::submodule::{
    col_width, column_width, infos_view, submodules, SubmoduleInfo, SubmoduleSpec,
};
use crate::text::{decimal, decimal_string, join_path, pad, pad_right};

verus! {

/// What was found for one submodule.
pub enum CleanProbe {
    /// Its directory holds no `.git`; it is skipped.
    NotPopulated,
    /// Its repository could not be opened; the error's text.
    OpenFailed(String),
    /// Its status could not be read; the error's text.
    StatusFailed(String),
    /// The number of tracked files with changes.
    Changes(usize),
}

/// The contribution of the submodule at `path`, given what was found for it.
pub open spec fn clean_step(path: Seq<char>, width: nat, probe: CleanProbe) -> Step {
    let head = pad_right(path, width) + "  "@;
    match probe {
        CleanProbe::NotPopulated => Ok((head + STATUS_NOT_POPULATED_SKIPPED@, true)),
        CleanProbe::OpenFailed(t) => Err(spec_err_open_submodule(path, t@)),
        CleanProbe::StatusFailed(t) => Err(spec_err_get_status(path, t@)),
        CleanProbe::Changes(n) => if n == 0 {
            Ok((head + STATUS_CLEAN@, true))
        } else {
            Ok(
                (
                    head + STATUS_DIRTY@ + " ("@ + decimal(n as nat) + " changed file(s))"@,
                    false,
                ),
            )
        },
    }
}

/// The steps of the check, given what was found for each submodule.
pub open spec fn clean_steps(subs: Seq<SubmoduleSpec>, probes: Seq<CleanProbe>) -> Seq<Step> {
    Seq::new(probes.len(), |i: int| clean_step(subs[i].path, col_width(subs), probes[i]))
}

/// The status line of the submodule at `path` and whether it passed, or the error
/// that stops the check, given what was found for it.
pub fn clean_status(path: &str, width: usize, probe: &CleanProbe) -> (r: Result<(String, bool), String>)
    ensures
        super::step_view(r) == clean_step(path@, width as nat, *probe),
{
    let mut line = pad(path, width);
    line.append("  ");
    match probe {
        CleanProbe::NotPopulated => {
            line.append(STATUS_NOT_POPULATED_SKIPPED);
            Ok((line, true))
        },
        CleanProbe::OpenFailed(t) => Err(err_open_submodule(path, t.as_str())),
        CleanProbe::StatusFailed(t) => Err(err_get_status(path, t.as_str())),
        CleanProbe::Changes(n) => {
            if *n == 0 {
                line.append(STATUS_CLEAN);
                Ok((line, true))
            } else {
                line.append(STATUS_DIRTY);
                line.append(" (");
                let digits = decimal_string(*n);
                line.append(digits.as_str());
                line.append(" changed file(s))");
                Ok((line, false))
            }
        },
    }
}

/// Whether untracked files count as changes: they do not.
pub const INCLUDE_UNTRACKED: bool = false;

/// Whether changes inside nested submodules are left out of the count: they are.
pub const EXCLUDE_SUBMODULES: bool = true;

/// Looks at the submodule whose directory is `sub_path`, counting its changed
/// files with the given status options.
fn probe_submodule(sub_path: &str, include_untracked: bool, exclude_submodules: bool) -> (p:
    CleanProbe) {
    let git_dir = join_path(sub_path, ".git");
    if !path_exists(git_dir.as_str()) {
        return CleanProbe::NotPopulated;
    }
    let repo = match open_repository(sub_path) {
        Err(e) => {
            return CleanProbe::OpenFailed(error_text(&e));
        },
        Ok(repo) => repo,
    };
    match changed_file_count(&repo, include_untracked, exclude_submodules) {
        Err(e) => CleanProbe::StatusFailed(error_text(&e)),
        Ok(n) => CleanProbe::Changes(n),
    }
}

/// Checks that no populated submodule under `base_path` has changes to tracked
/// files, appending one status line per submodule to `out` until an error stops
/// the check. Changes are counted by libgit2's status list with
/// [`INCLUDE_UNTRACKED`] and [`EXCLUDE_SUBMODULES`]. What is found on disk is not
/// stated; whatever it was, the lines and the outcome are those of
/// [`clean_steps`] for it.
pub fn check(submodules: &[SubmoduleInfo], base_path: &str, out: &mut Vec<String>) -> (r: Result<
    bool,
    String,
>)
    ensures
        exists|probes: Seq<CleanProbe>|
            probes.len() == submodules@.len() && reports(
                old(out)@,
                final(out)@,
                clean_steps(infos_view(submodules@), probes),
                result_view(r),
            ),
{
    let width = column_width(submodules);
    let ghost subs = infos_view(submodules@);
    let ghost before = out@;
    let ghost mut probes: Seq<CleanProbe> = Seq::empty();
    let mut all_ok = true;
    assert(clean_steps(subs, probes) =~= Seq::<Step>::empty());
    assert(lines_view(before) + fold_steps(clean_steps(subs, probes)).0 =~= lines_view(out@));
    let n = submodules.len();
    let mut i: usize = 0;
    while i < n
        invariant
            n == submodules@.len(),
            i <= n,
            subs == infos_view(submodules@),
            width == col_width(subs),
            probes.len() == i,
            before == old(out)@,
            reports(before, out@, clean_steps(subs, probes), Ok(all_ok)),
        decreases n - i,
    {
        let sub_path = join_path(base_path, submodules[i].path.as_str());
        let probe = probe_submodule(sub_path.as_str(), INCLUDE_UNTRACKED, EXCLUDE_SUBMODULES);
        let status = clean_status(submodules[i].path.as_str(), width, &probe);
        match status {
            Err(m) => {
                proof {
                    let full = probes.push(probe) + Seq::new(
                        (n - i - 1) as nat,
                        |j: int| CleanProbe::NotPopulated,
                    );
                    let more = clean_steps(subs, full).subrange(i + 1, n as int);
                    lemma_report_err(before, out@, clean_steps(subs, probes), all_ok, m@, more);
                    assert(clean_steps(subs, full) =~= clean_steps(subs, probes).push(Err(m@))
                        + more);
                    assert(full.len() == n);
                    assert(reports(before, out@, clean_steps(subs, full), result_view(Err(m))));
                }
                return Err(m);
            },
            Ok((line, ok)) => {
                proof {
                    lemma_report_push(before, out@, clean_steps(subs, probes), all_ok, line, ok);
                    assert(clean_steps(subs, probes.push(probe)) =~= clean_steps(subs, probes).push(
                        Ok((line@, ok)),
                    ));
                    probes = probes.push(probe);
                }
                out.push(line);
                all_ok = all_ok && ok;
            },
        }
        i = i + 1;
    }
    Ok(all_ok)
}

/// What a run of `clean` in the current directory can give.
pub open spec fn run_outcome(before: Seq<String>, after: Seq<String>, r: Result<bool, String>) -> bool {
    (exists|subs: Seq<SubmoduleInfo>, probes: Seq<CleanProbe>|
        probes.len() == subs.len() && reports(
            before,
            after,
            clean_steps(infos_view(subs), probes),
            result_view(r),
        )) || {
            &&& after == before
            &&& r matches Err(m)
            &&& (exists|t: Seq<char>| m@ == spec_err_open_repo(t)) || (exists|t: Seq<char>|
                m@ == spec_err_read_submodules(t))
        }
}

/// Checks `clean` on the repository in the current directory, with the
/// submodules that libgit2 reads for it.
pub fn run(out: &mut Vec<String>) -> (r: Result<bool, String>)
    ensures
        run_outcome(old(out)@, final(out)@, r),
{
    let repo = match open_repository(".") {
        Err(e) => {
            let t = error_text(&e);
            return Err(err_open_repo(t.as_str()));
        },
        Ok(repo) => repo,
    };
    let subs = match submodules(&repo) {
        Err(m) => {
            return Err(m);
        },
        Ok(subs) => subs,
    };
    check(subs.as_slice(), ".", out)
}

/// `clean` ends in an error exactly when a populated submodule could not be
/// opened or its status read, and holds exactly when every submodule is either
/// not populated or has no changed tracked file.
pub proof fn lemma_clean_holds(subs: Seq<SubmoduleSpec>, probes: Seq<CleanProbe>)
    ensures
        fold_steps(clean_steps(subs, probes)).1 is Err <==> exists|i: int|
            0 <= i < probes.len() && (#[trigger] probes[i] is OpenFailed || probes[i] is StatusFailed),
        fold_steps(clean_steps(subs, probes)).1 == Ok::<bool, Seq<char>>(true) <==> forall|i: int|
            0 <= i < probes.len() ==> (#[trigger] probes[i] is NotPopulated || probes[i]
                == CleanProbe::Changes(0)),
{
    let steps = clean_steps(subs, probes);
    lemma_verdict(steps);
    lemma_fold_err(steps);
    assert forall|i: int| 0 <= i < probes.len() implies (#[trigger] steps[i] is Err <==> (
    probes[i] is OpenFailed || probes[i] is StatusFailed)) by {}
    if exists|i: int|
        0 <= i < probes.len() && (#[trigger] probes[i] is OpenFailed || probes[i] is StatusFailed) {
        let i = choose|i: int|
            0 <= i < probes.len() && (#[trigger] probes[i] is OpenFailed || probes[i] is StatusFailed);
        assert(steps[i] is Err);
    }
    if forall|i: int|
        0 <= i < probes.len() ==> (#[trigger] probes[i] is NotPopulated || probes[i]
            == CleanProbe::Changes(0)) {
        assert forall|i: int| 0 <= i < steps.len() implies (#[trigger] steps[i] matches Ok(
            (_, ok),
        ) && ok) by {
            assert(probes[i] is NotPopulated || probes[i] == CleanProbe::Changes(0));
        }
    }
    if fold_steps(steps).1 == Ok::<bool, Seq<char>>(true) {
        assert forall|i: int| 0 <= i < probes.len() implies (#[trigger] probes[i] is NotPopulated
            || probes[i] == CleanProbe::Changes(0)) by {
            assert(steps[i] matches Ok((_, ok)) && ok);
            if let CleanProbe::Changes(n) = probes[i] {
                assert(n == 0);
            }
        }
    }
}

} // verus!
