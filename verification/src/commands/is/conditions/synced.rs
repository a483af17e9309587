//! `synced`: every populated submodule has checked out the commit that the parent
//! repository records for it.
use vstd::prelude::*;
use super::{
    fold_steps, lemma_fold_err, lemma_report_err, lemma_report_push, lemma_verdict, lines_view,
    reports, result_view, Step,
};
use crate::git::{
    error_text, open_repository, path_exists, reference_commit_id, repository_head,
};
use crate::strings::{
    err_index_path, err_open_repo, err_open_submodule, err_read_head, spec_err_index_path, spec_err_not_in_index, spec_err_open_index,
    spec_err_open_repo, spec_err_open_submodule, spec_err_read_head, LABEL_LOCAL,
    LABEL_RECORDED, STATUS_NOT_POPULATED_SKIPPED, STATUS_OUT_OF_SYNC, STATUS_SYNCED,
};
use crate::submodule::{
    col_width, column_width, git_rev_parse_submodule, infos_view, lemma_oid_hex_ascii,
    load_gitmodules, loaded_spec, short_id, text_view, index_lacks, index_records, SubmoduleInfo, SubmoduleSpec,
};
use crate::text::{index_path_ok, is_oid_hex, join_path, pad, pad_right, short_of, str_eq};

verus! {

/// What was found for one submodule.
pub enum SyncProbe {
    /// Its directory holds no `.git`; it is skipped.
    NotPopulated,
    /// It is populated, but its path is not one the parent's index can be asked
    /// about (not repository-relative).
    BadPath,
    /// The parent's index gave no commit for it; the error.
    RecordFailed(String),
    /// Its repository could not be opened; the error's text.
    OpenFailed(String),
    /// Its HEAD could not be resolved; the error's text.
    HeadFailed(String),
    /// The commit the parent records, and the one its HEAD peels to (empty when
    /// HEAD does not peel to a commit).
    Compared(String, String),
}

/// What can be found for the submodule at `path`: errors of the index lookup
/// have their two forms (no entry for the path, or an index that could not be
/// opened), the recorded commit is a full hexadecimal id that an index holds for
/// the path at stage 0, and the local one is a full id or empty.
pub open spec fn sync_probe_wf(path: Seq<char>, probe: SyncProbe) -> bool {
    match probe {
        SyncProbe::RecordFailed(m) => (m@ == spec_err_not_in_index(path) && index_lacks(path))
            || exists|t: Seq<char>| m@ == spec_err_open_index(t),
        SyncProbe::Compared(recorded, local) => is_oid_hex(recorded@) && index_records(
            path,
            recorded@,
        ) && (is_oid_hex(local@) || local@.len() == 0),
        _ => true,
    }
}

/// The contribution of the submodule at `path`, given what was found for it.
pub open spec fn sync_step(path: Seq<char>, width: nat, probe: SyncProbe) -> Step {
    let head = pad_right(path, width) + "  "@;
    match probe {
        SyncProbe::NotPopulated => Ok((head + STATUS_NOT_POPULATED_SKIPPED@, true)),
        SyncProbe::BadPath => Err(spec_err_index_path(path)),
        SyncProbe::RecordFailed(m) => Err(m@),
        SyncProbe::OpenFailed(t) => Err(spec_err_open_submodule(path, t@)),
        SyncProbe::HeadFailed(t) => Err(spec_err_read_head(path, t@)),
        SyncProbe::Compared(recorded, local) => if recorded@ == local@ {
            Ok((head + STATUS_SYNCED@ + "      "@ + short_of(recorded@), true))
        } else {
            Ok(
                (
                    head + STATUS_OUT_OF_SYNC@ + "  "@ + LABEL_RECORDED@ + "="@ + short_of(
                        recorded@,
                    ) + "  "@ + LABEL_LOCAL@ + "="@ + short_of(local@),
                    false,
                ),
            )
        },
    }
}

/// The steps of the check, given what was found for each submodule.
pub open spec fn sync_steps(subs: Seq<SubmoduleSpec>, probes: Seq<SyncProbe>) -> Seq<Step> {
    Seq::new(probes.len(), |i: int| sync_step(subs[i].path, col_width(subs), probes[i]))
}

/// The status line of the submodule at `path` and whether it passed, or the error
/// that stops the check, given what was found for it.
pub fn sync_status(path: &str, width: usize, probe: &SyncProbe) -> (r: Result<(String, bool), String>)
    requires
        sync_probe_wf(path@, *probe),
    ensures
        super::step_view(r) == sync_step(path@, width as nat, *probe),
{
    let mut line = pad(path, width);
    line.append("  ");
    match probe {
        SyncProbe::NotPopulated => {
            line.append(STATUS_NOT_POPULATED_SKIPPED);
            Ok((line, true))
        },
        SyncProbe::BadPath => Err(err_index_path(path)),
        SyncProbe::RecordFailed(m) => Err(m.clone()),
        SyncProbe::OpenFailed(t) => Err(err_open_submodule(path, t.as_str())),
        SyncProbe::HeadFailed(t) => Err(err_read_head(path, t.as_str())),
        SyncProbe::Compared(recorded, local) => {
            proof {
                lemma_oid_hex_ascii(recorded@);
                if local@.len() > 0 {
                    lemma_oid_hex_ascii(local@);
                }
            }
            let rec_short = short_id(recorded.as_str());
            if str_eq(recorded.as_str(), local.as_str()) {
                line.append(STATUS_SYNCED);
                line.append("      ");
                line.append(rec_short.as_str());
                Ok((line, true))
            } else {
                let local_short = short_id(local.as_str());
                line.append(STATUS_OUT_OF_SYNC);
                line.append("  ");
                line.append(LABEL_RECORDED);
                line.append("=");
                line.append(rec_short.as_str());
                line.append("  ");
                line.append(LABEL_LOCAL);
                line.append("=");
                line.append(local_short.as_str());
                Ok((line, false))
            }
        },
    }
}

/// Looks at the submodule at `path`, whose directory is `sub_path`.
fn probe_submodule(repo: &git2::Repository, path: &str, sub_path: &str) -> (p: SyncProbe)
    ensures
        sync_probe_wf(path@, p),
{
    let git_dir = join_path(sub_path, ".git");
    if !path_exists(git_dir.as_str()) {
        return SyncProbe::NotPopulated;
    }
    if !index_path_ok(path) {
        return SyncProbe::BadPath;
    }
    let recorded = match git_rev_parse_submodule(repo, path) {
        Err(m) => {
            return SyncProbe::RecordFailed(m);
        },
        Ok(id) => id,
    };
    let sub_repo = match open_repository(sub_path) {
        Err(e) => {
            return SyncProbe::OpenFailed(error_text(&e));
        },
        Ok(r) => r,
    };
    let head = match repository_head(&sub_repo) {
        Err(e) => {
            return SyncProbe::HeadFailed(error_text(&e));
        },
        Ok(h) => h,
    };
    let local = match reference_commit_id(&head) {
        Ok(id) => id,
        Err(_) => String::new(),
    };
    SyncProbe::Compared(recorded, local)
}

/// Checks that every populated submodule under `base_path` has checked out the
/// commit that `repo`'s index records for it, appending one status line per
/// submodule to `out` until an error stops the check. What is found on disk is
/// not stated; whatever it was, the lines and the outcome are those of
/// [`sync_steps`] for it. A populated submodule whose path the index cannot be
/// asked about is an error.
pub fn check(
    submodules: &[SubmoduleInfo],
    repo: &git2::Repository,
    base_path: &str,
    out: &mut Vec<String>,
) -> (r: Result<bool, String>)
    ensures
        exists|probes: Seq<SyncProbe>|
            probes.len() == submodules@.len() && (forall|i: int|
                0 <= i < probes.len() ==> sync_probe_wf(submodules@[i].path@, #[trigger] probes[i]))
                && reports(
                old(out)@,
                final(out)@,
                sync_steps(infos_view(submodules@), probes),
                result_view(r),
            ),
{
    let width = column_width(submodules);
    let ghost subs = infos_view(submodules@);
    let ghost before = out@;
    let ghost mut probes: Seq<SyncProbe> = Seq::empty();
    let mut all_ok = true;
    assert(sync_steps(subs, probes) =~= Seq::<Step>::empty());
    assert(lines_view(before) + fold_steps(sync_steps(subs, probes)).0 =~= lines_view(out@));
    let n = submodules.len();
    let mut i: usize = 0;
    while i < n
        invariant
            n == submodules@.len(),
            i <= n,
            subs == infos_view(submodules@),
            width == col_width(subs),
            probes.len() == i,
            forall|k: int|
                0 <= k < probes.len() ==> sync_probe_wf(submodules@[k].path@, #[trigger] probes[k]),
            before == old(out)@,
            reports(before, out@, sync_steps(subs, probes), Ok(all_ok)),
        decreases n - i,
    {
        let path = submodules[i].path.as_str();
        let sub_path = join_path(base_path, path);
        let probe = probe_submodule(repo, path, sub_path.as_str());
        let status = sync_status(path, width, &probe);
        match status {
            Err(m) => {
                proof {
                    let full = probes.push(probe) + Seq::new(
                        (n - i - 1) as nat,
                        |j: int| SyncProbe::NotPopulated,
                    );
                    let more = sync_steps(subs, full).subrange(i + 1, n as int);
                    lemma_report_err(before, out@, sync_steps(subs, probes), all_ok, m@, more);
                    assert(sync_steps(subs, full) =~= sync_steps(subs, probes).push(Err(m@))
                        + more);
                    assert(full.len() == n);
                    assert forall|k: int| 0 <= k < full.len() implies sync_probe_wf(
                        submodules@[k].path@,
                        #[trigger] full[k],
                    ) by {
                        if k < i {
                            assert(full[k] == probes[k]);
                        }
                    }
                    assert(reports(before, out@, sync_steps(subs, full), result_view(Err(m))));
                }
                return Err(m);
            },
            Ok((line, ok)) => {
                proof {
                    lemma_report_push(before, out@, sync_steps(subs, probes), all_ok, line, ok);
                    assert(sync_steps(subs, probes.push(probe)) =~= sync_steps(subs, probes).push(
                        Ok((line@, ok)),
                    ));
                    probes = probes.push(probe);
                }
                out.push(line);
                all_ok = all_ok && ok;
            },
        }
        i = i + 1;
    }
    Ok(all_ok)
}

/// What a run of `synced` in the current directory can give, for the given read of
/// `.gitmodules`.
pub open spec fn run_outcome(gitmodules: Result<Seq<char>, Seq<char>>, before: Seq<String>, after: Seq<String>, r: Result<bool, String>) -> bool {
    match loaded_spec(gitmodules) {
        Err(e) => r matches Err(m) && m@ == e && after == before,
        Ok(subs) => (exists|probes: Seq<SyncProbe>|
            probes.len() == subs.len() && reports(
                before,
                after,
                sync_steps(subs, probes),
                result_view(r),
            )) || {
            &&& after == before
            &&& r matches Err(m)
            &&& exists|t: Seq<char>| m@ == spec_err_open_repo(t)
        },
    }
}

/// Checks `synced` on the repository in the current directory, with the
/// submodules that the given read of `.gitmodules` describes.
pub fn run(gitmodules: &Result<String, String>, out: &mut Vec<String>) -> (r: Result<bool, String>)
    ensures
        run_outcome(text_view(*gitmodules), old(out)@, final(out)@, r),
{
    let subs = match load_gitmodules(gitmodules) {
        Err(m) => {
            return Err(m);
        },
        Ok(subs) => subs,
    };
    let repo = match open_repository(".") {
        Err(e) => {
            let t = error_text(&e);
            return Err(err_open_repo(t.as_str()));
        },
        Ok(repo) => repo,
    };
    check(subs.as_slice(), &repo, ".", out)
}

/// Whether a submodule passes `synced`, given what was found for it: it is not
/// populated, or it has checked out the commit the parent records.
pub open spec fn in_sync(probe: SyncProbe) -> bool {
    ||| probe is NotPopulated
    ||| probe matches SyncProbe::Compared(recorded, local) && recorded@ == local@
}

/// `synced` ends in an error exactly when, for a populated submodule, its path
/// cannot be looked up in the index, or the parent's record, its repository or
/// its HEAD could not be read, and holds
/// exactly when every submodule is either not populated or has checked out the
/// commit the parent records.
pub proof fn lemma_synced_holds(subs: Seq<SubmoduleSpec>, probes: Seq<SyncProbe>)
    ensures
        fold_steps(sync_steps(subs, probes)).1 is Err <==> exists|i: int|
            0 <= i < probes.len() && (#[trigger] probes[i] is BadPath || probes[i] is RecordFailed || probes[i] is OpenFailed
                || probes[i] is HeadFailed),
        fold_steps(sync_steps(subs, probes)).1 == Ok::<bool, Seq<char>>(true) <==> forall|i: int|
            0 <= i < probes.len() ==> in_sync(#[trigger] probes[i]),
{
    let steps = sync_steps(subs, probes);
    lemma_verdict(steps);
    lemma_fold_err(steps);
    assert forall|i: int| 0 <= i < probes.len() implies (#[trigger] steps[i] is Err <==> (
    probes[i] is BadPath || probes[i] is RecordFailed || probes[i] is OpenFailed || probes[i] is HeadFailed)) by {}
    assert forall|i: int| 0 <= i < probes.len() implies ((#[trigger] steps[i] matches Ok((_, ok))
        && ok) <==> in_sync(probes[i])) by {}
    if exists|i: int|
        0 <= i < probes.len() && (#[trigger] probes[i] is BadPath || probes[i] is RecordFailed || probes[i] is OpenFailed
            || probes[i] is HeadFailed) {
        let i = choose|i: int|
            0 <= i < probes.len() && (#[trigger] probes[i] is BadPath || probes[i] is RecordFailed || probes[i] is OpenFailed
                || probes[i] is HeadFailed);
        assert(steps[i] is Err);
    }
    if forall|i: int| 0 <= i < probes.len() ==> in_sync(#[trigger] probes[i]) {
        assert forall|i: int| 0 <= i < steps.len() implies (#[trigger] steps[i] matches Ok(
            (_, ok),
        ) && ok) by {
            assert(in_sync(probes[i]));
        }
    }
    if fold_steps(steps).1 == Ok::<bool, Seq<char>>(true) {
        assert forall|i: int| 0 <= i < probes.len() implies in_sync(#[trigger] probes[i]) by {
            assert(steps[i] matches Ok((_, ok)) && ok);
        }
    }
}

} // verus!
