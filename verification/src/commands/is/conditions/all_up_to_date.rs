//! `all-up-to-date`: every submodule's commit recorded by the parent is the tip of
//! its configured branch at its remote.
//!
//! The tip at a remote is what `git ls-remote` reports, and running it is left to
//! the caller: the check is a walk over the submodules that stops whenever it
//! needs a tip ([`UpstreamAction::LsRemote`]) and goes on with the reply it is
//! given ([`UpstreamWalk::answer`]).
use vstd::prelude::*;
use super::{
    fold_steps, lemma_fold_err, lemma_report_err, lemma_report_push, lemma_verdict, lines_view,
    reports, result_view, Step,
};
use crate::git::{error_text, open_repository};
use crate::strings::{
    err_bad_tip, err_index_path, err_missing_branch, err_open_repo, spec_err_bad_tip,
    spec_err_index_path, spec_err_missing_branch,
    spec_err_not_in_index, spec_err_open_index, spec_err_open_repo, LABEL_PARENT, LABEL_REMOTE,
    REFS_HEADS_PREFIX, STATUS_BEHIND, STATUS_UP_TO_DATE,
};
use crate::submodule::{
    col_width, column_width, git_rev_parse_submodule, infos_view, lemma_oid_hex_ascii,
    load_gitmodules, loaded_spec, ls_remote_refspec, ls_remote_spec, ls_remote_tip, outcome_view,
    short_checked, short_id, text_view, index_lacks, index_records, SubmoduleInfo, SubmoduleSpec,
};
use crate::text::{index_path_ok, is_index_path, is_oid_hex, pad, pad_right, short_fits, short_of, short_text, str_eq};

verus! {

/// What was found for one submodule.
pub enum UpstreamProbe {
    /// The parent's index gave no commit for it, or its path cannot be looked up
    /// there; the error.
    ParentFailed(String),
    /// The reply of `git ls-remote` gave no tip for its branch; the error.
    RemoteFailed(String),
    /// The commit the parent records and the tip that the remote reported.
    Compared(String, String),
}

/// The reference asked about for `sub`, whose branch is given.
pub open spec fn refspec_of(sub: SubmoduleSpec) -> Seq<char> {
    REFS_HEADS_PREFIX@ + sub.branch->0
}

/// What can be found for `sub` when `git ls-remote` replied `reply` for it: the
/// errors of the index lookup have their forms (a path the index cannot be asked
/// about, an index without an entry for the path, or an index that could not be
/// opened), the commit the parent records is a full hexadecimal id that an
/// index holds for the path at stage 0, and what the remote gave is what
/// [`ls_remote_spec`] reads from the reply.
pub open spec fn upstream_probe_wf(
    sub: SubmoduleSpec,
    probe: UpstreamProbe,
    reply: Result<(bool, Seq<char>, Seq<char>), Seq<char>>,
) -> bool {
    match probe {
        UpstreamProbe::ParentFailed(m) => {
            ||| m@ == spec_err_not_in_index(sub.path) && index_lacks(sub.path)
            ||| exists|t: Seq<char>| m@ == spec_err_open_index(t)
            ||| m@ == spec_err_index_path(sub.path) && !is_index_path(sub.path)
        },
        UpstreamProbe::RemoteFailed(m) => ls_remote_spec(sub.url, refspec_of(sub), reply) == Err::<
            Seq<char>,
            Seq<char>,
        >(m@),
        UpstreamProbe::Compared(parent, remote) => is_oid_hex(parent@) && index_records(
            sub.path,
            parent@,
        ) && ls_remote_spec(
            sub.url,
            refspec_of(sub),
            reply,
        ) == Ok::<Seq<char>, Seq<char>>(remote@),
    }
}

/// The contribution of the submodule at `path` with URL `url`, given what was
/// found for it. A tip whose first seven bytes do not end on a character boundary
/// cannot be shown shortened, and is an error.
pub open spec fn upstream_step(path: Seq<char>, url: Seq<char>, width: nat, probe: UpstreamProbe) -> Step {
    let head = pad_right(path, width) + "  "@;
    match probe {
        UpstreamProbe::ParentFailed(m) => Err(m@),
        UpstreamProbe::RemoteFailed(m) => Err(m@),
        UpstreamProbe::Compared(parent, remote) => if parent@ == remote@ {
            Ok((head + STATUS_UP_TO_DATE@ + "  "@ + short_of(parent@), true))
        } else if short_fits(remote@) {
            Ok(
                (
                    head + STATUS_BEHIND@ + "      "@ + LABEL_PARENT@ + "="@ + short_of(parent@)
                        + "  "@ + LABEL_REMOTE@ + "="@ + short_text(remote@),
                    false,
                ),
            )
        } else {
            Err(spec_err_bad_tip(remote@, url))
        },
    }
}

/// The steps of the check, given what was found for each submodule.
pub open spec fn upstream_steps(subs: Seq<SubmoduleSpec>, probes: Seq<UpstreamProbe>) -> Seq<Step> {
    Seq::new(
        probes.len(),
        |i: int| upstream_step(subs[i].path, subs[i].url, col_width(subs), probes[i]),
    )
}

/// The path of the first submodule without a configured branch.
pub open spec fn first_missing_branch(subs: Seq<SubmoduleSpec>) -> Option<Seq<char>>
    decreases subs.len(),
{
    if subs.len() == 0 {
        None
    } else if subs[0].branch is None {
        Some(subs[0].path)
    } else {
        first_missing_branch(subs.drop_first())
    }
}

pub proof fn lemma_first_missing_branch(subs: Seq<SubmoduleSpec>)
    ensures
        first_missing_branch(subs) is None <==> forall|i: int|
            0 <= i < subs.len() ==> #[trigger] subs[i].branch is Some,
    decreases subs.len(),
{
    if subs.len() > 0 {
        lemma_first_missing_branch(subs.drop_first());
        if first_missing_branch(subs) is None {
            assert forall|i: int| 0 <= i < subs.len() implies #[trigger] subs[i].branch is Some by {
                if i > 0 {
                    assert(subs[i] == subs.drop_first()[i - 1]);
                }
            }
        }
    }
}

/// The status line of the submodule at `path` with URL `url` and whether it
/// passed, or the error that stops the check, given what was found for it.
pub fn upstream_status(path: &str, url: &str, width: usize, probe: &UpstreamProbe) -> (r: Result<
    (String, bool),
    String,
>)
    requires
        probe matches UpstreamProbe::Compared(p, q) ==> is_oid_hex(p@),
    ensures
        super::step_view(r) == upstream_step(path@, url@, width as nat, *probe),
{
    match probe {
        UpstreamProbe::ParentFailed(m) => Err(m.clone()),
        UpstreamProbe::RemoteFailed(m) => Err(m.clone()),
        UpstreamProbe::Compared(parent, remote) => {
            proof {
                lemma_oid_hex_ascii(parent@);
            }
            let mut line = pad(path, width);
            line.append("  ");
            let parent_short = short_id(parent.as_str());
            if str_eq(parent.as_str(), remote.as_str()) {
                line.append(STATUS_UP_TO_DATE);
                line.append("  ");
                line.append(parent_short.as_str());
                Ok((line, true))
            } else {
                match short_checked(remote.as_str()) {
                    None => Err(err_bad_tip(remote.as_str(), url)),
                    Some(remote_short) => {
                        line.append(STATUS_BEHIND);
                        line.append("      ");
                        line.append(LABEL_PARENT);
                        line.append("=");
                        line.append(parent_short.as_str());
                        line.append("  ");
                        line.append(LABEL_REMOTE);
                        line.append("=");
                        line.append(remote_short.as_str());
                        Ok((line, false))
                    },
                }
            }
        },
    }
}

/// The walk so far, for `subs` started when the output was `before`: one finding
/// per submodule walked, each agreeing with the reply of `git ls-remote` given
/// for it, and `after` holding the lines of those findings, whose outcome is
/// `res`.
pub open spec fn walked(
    subs: Seq<SubmoduleSpec>,
    before: Seq<String>,
    after: Seq<String>,
    probes: Seq<UpstreamProbe>,
    replies: Seq<Result<(bool, Seq<char>, Seq<char>), Seq<char>>>,
    res: Result<bool, Seq<char>>,
) -> bool {
    &&& probes.len() <= subs.len()
    &&& probes.len() == replies.len()
    &&& forall|i: int|
        0 <= i < probes.len() ==> upstream_probe_wf(subs[i], #[trigger] probes[i], replies[i])
    &&& reports(before, after, upstream_steps(subs, probes), res)
}

/// The finding that the reply `reply` gives for `sub`, whose commit recorded by
/// the parent is `parent`: the tip that `git ls-remote` reported compared with
/// `parent`, or the error read from the reply.
pub open spec fn reply_finding(
    sub: SubmoduleSpec,
    parent: Seq<char>,
    reply: Result<(bool, Seq<char>, Seq<char>), Seq<char>>,
    probe: UpstreamProbe,
) -> bool {
    match ls_remote_spec(sub.url, refspec_of(sub), reply) {
        Ok(tip) => probe matches UpstreamProbe::Compared(p, q) && p@ == parent && q@ == tip,
        Err(m) => probe matches UpstreamProbe::RemoteFailed(e) && e@ == m,
    }
}

/// `after` is `before` with the reply `reply` taken: the submodule asked about
/// gets the finding the reply gives for it, and the walk no longer waits.
pub open spec fn answered(
    before: UpstreamWalk,
    after: UpstreamWalk,
    reply: Result<(bool, Seq<char>, Seq<char>), Seq<char>>,
) -> bool {
    let k = before.probes().len();
    &&& after.subs() == before.subs()
    &&& after.started() == before.started()
    &&& !after.awaiting()
    &&& after.probes().len() == k + 1
    &&& after.probes().subrange(0, k as int) == before.probes()
    &&& after.replies() == before.replies().push(reply)
    &&& reply_finding(before.subs()[k as int], before.pending_parent(), reply, after.probes()[k as int])
}

/// `w` waits for the tip of a branch, and the question is `git ls-remote <url>
/// <refspec>` for the submodule the reply will be recorded for: the next one
/// walked, its own URL and its own configured branch.
pub open spec fn asks(w: UpstreamWalk, url: Seq<char>, refspec: Seq<char>) -> bool {
    let k = w.probes().len();
    &&& w.awaiting()
    &&& k < w.subs().len()
    &&& url == w.subs()[k as int].url
    &&& refspec == REFS_HEADS_PREFIX@ + w.subs()[k as int].branch->0
    &&& w.subs()[k as int].branch is Some
}

/// The reply to a question is recorded for the submodule asked about: when the
/// walk asked `git ls-remote <url> <refspec>` and then took `reply`, the new
/// finding compares the commit the parent records for that submodule with the
/// tip that the reply gives for exactly that URL and reference, or is the error
/// the reply gives for them.
pub proof fn lemma_reply_is_for_question(
    w0: UpstreamWalk,
    w1: UpstreamWalk,
    url: Seq<char>,
    refspec: Seq<char>,
    reply: Result<(bool, Seq<char>, Seq<char>), Seq<char>>,
)
    requires
        asks(w0, url, refspec),
        answered(w0, w1, reply),
    ensures
        w1.probes().len() == w0.probes().len() + 1,
        match ls_remote_spec(url, refspec, reply) {
            Ok(tip) => w1.probes().last() matches UpstreamProbe::Compared(p, q) && p@
                == w0.pending_parent() && q@ == tip,
            Err(m) => w1.probes().last() matches UpstreamProbe::RemoteFailed(e) && e@ == m,
        },
{
}

/// What the walk needs next.
pub enum UpstreamAction {
    /// The tip of `refspec` at `url`: run `git ls-remote <url> <refspec>` and
    /// hand its outcome to [`UpstreamWalk::answer`].
    LsRemote { url: String, refspec: String },
    /// The walk is over, with this outcome.
    Finished(Result<bool, String>),
}

/// An `all-up-to-date` check under way.
pub struct UpstreamWalk {
    repo: git2::Repository,
    subs: Vec<SubmoduleInfo>,
    width: usize,
    next: usize,
    parent: Option<String>,
    failure: Option<String>,
    all_ok: bool,
    probes: Ghost<Seq<UpstreamProbe>>,
    replies: Ghost<Seq<Result<(bool, Seq<char>, Seq<char>), Seq<char>>>>,
    before: Ghost<Seq<String>>,
}

impl UpstreamWalk {
    /// The submodules walked over.
    pub closed spec fn subs(&self) -> Seq<SubmoduleSpec> {
        infos_view(self.subs@)
    }

    /// What was found so far, one finding per submodule walked.
    pub closed spec fn probes(&self) -> Seq<UpstreamProbe> {
        self.probes@
    }

    /// The replies of `git ls-remote` given so far, one per finding (that of a
    /// finding made before any reply is of no account).
    pub closed spec fn replies(&self) -> Seq<Result<(bool, Seq<char>, Seq<char>), Seq<char>>> {
        self.replies@
    }

    /// The output when the walk started.
    pub closed spec fn started(&self) -> Seq<String> {
        self.before@
    }

    /// The outcome of the findings so far.
    pub closed spec fn progress(&self) -> Result<bool, Seq<char>> {
        match self.failure {
            Some(m) => Err(m@),
            None => Ok(self.all_ok),
        }
    }

    /// Whether the walk waits for the reply about a remote.
    pub closed spec fn awaiting(&self) -> bool {
        self.parent is Some
    }

    /// While the walk waits for a reply, the commit that the parent's index
    /// records for the submodule asked about.
    pub closed spec fn pending_parent(&self) -> Seq<char> {
        match self.parent {
            Some(p) => p@,
            None => Seq::empty(),
        }
    }

    /// The walk is consistent with `out`, the output so far.
    pub closed spec fn wf(&self, out: Seq<String>) -> bool {
        let subs = infos_view(self.subs@);
        &&& first_missing_branch(subs) is None
        &&& self.width == col_width(subs)
        &&& self.next <= subs.len()
        &&& walked(subs, self.before@, out, self.probes@, self.replies@, self.progress())
        &&& match self.failure {
            Some(m) => self.probes@.len() == self.next + 1 && self.parent is None,
            None => self.probes@.len() == self.next,
        }
        &&& self.parent matches Some(id) ==> self.next < subs.len() && is_oid_hex(id@)
            && index_records(subs[self.next as int].path, id@)
    }

    /// Goes on with the walk: asks the parent's index about the next submodule
    /// and then needs its tip at the remote, or finishes. Nothing is written.
    pub fn proceed(&mut self, out: &Vec<String>) -> (a: UpstreamAction)
        requires
            old(self).wf(out@),
            !old(self).awaiting(),
        ensures
            final(self).subs() == old(self).subs(),
            final(self).started() == old(self).started(),
            match a {
                UpstreamAction::Finished(r) => walked(
                    final(self).subs(),
                    final(self).started(),
                    out@,
                    final(self).probes(),
                    final(self).replies(),
                    result_view(r),
                ) && (final(self).probes().len() < final(self).subs().len() ==> r is Err),
                UpstreamAction::LsRemote { url, refspec } => final(self).wf(out@)
                    && final(self).awaiting() && is_oid_hex(final(self).pending_parent())
                    && index_records(
                    final(self).subs()[final(self).probes().len() as int].path,
                    final(self).pending_parent(),
                )
                    && walked(
                    final(self).subs(),
                    final(self).started(),
                    out@,
                    final(self).probes(),
                    final(self).replies(),
                    final(self).progress(),
                ) && final(self).probes() == old(self).probes()
                    && final(self).progress() == old(self).progress() && final(self).probes().len()
                    < final(self).subs().len() && url@ == final(self).subs()[final(self).probes().len() as int].url
                    && refspec@ == refspec_of(
                    final(self).subs()[final(self).probes().len() as int],
                ) && asks(*final(self), url@, refspec@),
            },
    {
        let ghost subs = infos_view(self.subs@);
        match &self.failure {
            Some(m) => {
                return UpstreamAction::Finished(Err(m.clone()));
            },
            None => {},
        }
        if self.next == self.subs.len() {
            return UpstreamAction::Finished(Ok(self.all_ok));
        }
        let i = self.next;
        assert(subs[i as int] == self.subs@[i as int]@);
        let looked_up = if index_path_ok(self.subs[i].path.as_str()) {
            git_rev_parse_submodule(&self.repo, self.subs[i].path.as_str())
        } else {
            Err(err_index_path(self.subs[i].path.as_str()))
        };
        match looked_up {
            Err(m) => {
                let probe = UpstreamProbe::ParentFailed(m.clone());
                proof {
                    let probes = self.probes@;
                    lemma_report_err(
                        self.before@,
                        out@,
                        upstream_steps(subs, probes),
                        self.all_ok,
                        m@,
                        Seq::empty(),
                    );
                    assert(upstream_steps(subs, probes.push(probe)) =~= upstream_steps(
                        subs,
                        probes,
                    ).push(Err(m@)) + Seq::empty());
                    let reply = Err::<(bool, Seq<char>, Seq<char>), Seq<char>>(Seq::empty());
                    self.probes@ = probes.push(probe);
                    self.replies@ = self.replies@.push(reply);
                    assert forall|j: int| 0 <= j < self.probes@.len() implies upstream_probe_wf(
                        subs[j],
                        #[trigger] self.probes@[j],
                        self.replies@[j],
                    ) by {
                        if j < i {
                            assert(self.probes@[j] == probes[j]);
                        }
                    }
                }
                UpstreamAction::Finished(Err(m))
            },
            Ok(id) => {
                proof {
                    lemma_first_missing_branch(subs);
                }
                assert(subs[i as int].branch is Some);
                let branch = match &self.subs[i].branch {
                    Some(b) => b.as_str(),
                    None => "",
                };
                let refspec = ls_remote_refspec(branch);
                let url = self.subs[i].url.clone();
                self.parent = Some(id);
                assert(url@ == self.subs()[i as int].url && refspec@ == refspec_of(self.subs()[i as int]));
                assert(self.wf(out@));
                UpstreamAction::LsRemote { url, refspec }
            },
        }
    }

    /// Takes the outcome of running `git ls-remote` for the remote the walk needs,
    /// and records what it gives for the submodule, writing its line when that is
    /// not an error.
    pub fn answer(&mut self, reply: &Result<(bool, String, String), String>, out: &mut Vec<String>)
        requires
            old(self).wf(old(out)@),
            old(self).awaiting(),
        ensures
            final(self).wf(final(out)@),
            answered(*old(self), *final(self), outcome_view(*reply)),
            walked(
                final(self).subs(),
                final(self).started(),
                final(out)@,
                final(self).probes(),
                final(self).replies(),
                final(self).progress(),
            ),
    {
        let ghost subs = infos_view(self.subs@);
        let i = self.next;
        let n = self.subs.len();
        assert(i < n);
        let parent = match self.parent.take() {
            Some(p) => p,
            None => {
                assert(false);
                String::new()
            },
        };
        proof {
            lemma_first_missing_branch(subs);
        }
        assert(subs[i as int] == self.subs@[i as int]@);
        assert(subs[i as int].branch is Some);
        let branch = match &self.subs[i].branch {
            Some(b) => b.as_str(),
            None => "",
        };
        let refspec = ls_remote_refspec(branch);
        let probe = match ls_remote_tip(self.subs[i].url.as_str(), refspec.as_str(), reply) {
            Err(m) => UpstreamProbe::RemoteFailed(m),
            Ok(tip) => UpstreamProbe::Compared(parent, tip),
        };
        let status = upstream_status(
            self.subs[i].path.as_str(),
            self.subs[i].url.as_str(),
            self.width,
            &probe,
        );
        let ghost probes = self.probes@;
        proof {
            self.replies@ = self.replies@.push(outcome_view(*reply));
            self.probes@ = probes.push(probe);
            assert forall|j: int| 0 <= j < self.probes@.len() implies upstream_probe_wf(
                subs[j],
                #[trigger] self.probes@[j],
                self.replies@[j],
            ) by {
                if j < i {
                    assert(self.probes@[j] == probes[j]);
                }
            }
            assert(self.probes@.subrange(0, probes.len() as int) =~= probes);
        }
        match status {
            Err(m) => {
                proof {
                    lemma_report_err(
                        self.before@,
                        out@,
                        upstream_steps(subs, probes),
                        self.all_ok,
                        m@,
                        Seq::empty(),
                    );
                    assert(upstream_steps(subs, probes.push(probe)) =~= upstream_steps(
                        subs,
                        probes,
                    ).push(Err(m@)) + Seq::empty());
                }
                self.failure = Some(m);
            },
            Ok((line, ok)) => {
                proof {
                    lemma_report_push(
                        self.before@,
                        out@,
                        upstream_steps(subs, probes),
                        self.all_ok,
                        line,
                        ok,
                    );
                    assert(upstream_steps(subs, probes.push(probe)) =~= upstream_steps(
                        subs,
                        probes,
                    ).push(Ok((line@, ok))));
                }
                out.push(line);
                self.all_ok = self.all_ok && ok;
                self.next = i + 1;
            },
        }
    }
}

/// Starts the walk over `submodules` in the repository `repo`. A submodule
/// without a branch is an error before anything is asked; a submodule whose path
/// the index cannot be asked about is an error when the walk reaches it.
pub fn check(submodules: Vec<SubmoduleInfo>, repo: git2::Repository, out: &Vec<String>) -> (r:
    Result<UpstreamWalk, String>)
    ensures
        match first_missing_branch(infos_view(submodules@)) {
            Some(path) => r matches Err(m) && m@ == spec_err_missing_branch(path),
            None => r matches Ok(w) && w.wf(out@) && !w.awaiting() && w.started() == out@
                && w.subs() == infos_view(submodules@) && w.probes().len() == 0
                && w.progress() == Ok::<bool, Seq<char>>(true),
        },
{
    let ghost subs = infos_view(submodules@);
    let n = submodules.len();
    let mut k: usize = 0;
    assert(subs.subrange(k as int, n as int) =~= subs);
    while k < n
        invariant
            n == submodules@.len(),
            k <= n,
            subs == infos_view(submodules@),
            first_missing_branch(subs) == first_missing_branch(
                subs.subrange(k as int, n as int),
            ),
        decreases n - k,
    {
        assert(subs.subrange(k as int, n as int).drop_first() =~= subs.subrange(
            k + 1,
            n as int,
        ));
        if submodules[k].branch.is_none() {
            return Err(err_missing_branch(submodules[k].path.as_str()));
        }
        k = k + 1;
    }
    proof {
        assert(subs.subrange(n as int, n as int) =~= Seq::<SubmoduleSpec>::empty());
    }
    let width = column_width(&submodules);
    let w = UpstreamWalk {
        repo,
        subs: submodules,
        width,
        next: 0,
        parent: None,
        failure: None,
        all_ok: true,
        probes: Ghost(Seq::empty()),
        replies: Ghost(Seq::empty()),
        before: Ghost(out@),
    };
    assert(upstream_steps(subs, Seq::empty()) =~= Seq::<Step>::empty());
    assert(lines_view(out@) + fold_steps(upstream_steps(subs, Seq::empty())).0 =~= lines_view(
        out@,
    ));
    Ok(w)
}

/// Starts the walk on the repository in the current directory, with the
/// submodules that the given read of `.gitmodules` describes.
pub fn run(gitmodules: &Result<String, String>, out: &Vec<String>) -> (r: Result<
    UpstreamWalk,
    String,
>)
    ensures
        match loaded_spec(text_view(*gitmodules)) {
            Err(e) => r matches Err(m) && m@ == e,
            Ok(subs) => match r {
                Err(m) => (exists|t: Seq<char>| m@ == spec_err_open_repo(t)) || (
                first_missing_branch(subs) matches Some(path) && m@
                    == spec_err_missing_branch(path)),
                Ok(w) => first_missing_branch(subs) is None && w.wf(out@) && !w.awaiting()
                    && w.started() == out@ && w.subs() == subs && w.probes().len() == 0
                    && w.progress() == Ok::<bool, Seq<char>>(true),
            },
        },
{
    let subs = match load_gitmodules(gitmodules) {
        Err(m) => {
            return Err(m);
        },
        Ok(subs) => subs,
    };
    let repo = match open_repository(".") {
        Err(e) => {
            let t = error_text(&e);
            return Err(err_open_repo(t.as_str()));
        },
        Ok(repo) => repo,
    };
    check(subs, repo, out)
}

/// What a run of `all-up-to-date` in the current directory can give, for the given read of
/// `.gitmodules`: the error of reading it, of opening the repository or of a
/// missing branch, with nothing written; or the lines and outcome of a walk over
/// its submodules, given some replies of `git ls-remote`.
pub open spec fn run_outcome(gitmodules: Result<Seq<char>, Seq<char>>, before: Seq<String>, after: Seq<String>, r: Result<bool, String>) -> bool {
    match loaded_spec(gitmodules) {
        Err(e) => r matches Err(m) && m@ == e && after == before,
        Ok(subs) => {
            ||| (r matches Err(m) && after == before && exists|t: Seq<char>|
                m@ == spec_err_open_repo(t))
            ||| (first_missing_branch(subs) matches Some(path) && r matches Err(m) && m@
                == spec_err_missing_branch(path) && after == before)
            ||| (first_missing_branch(subs) is None && exists|
                probes: Seq<UpstreamProbe>,
                replies: Seq<Result<(bool, Seq<char>, Seq<char>), Seq<char>>>,
            |
                walked(subs, before, after, probes, replies, result_view(r)) && (probes.len()
                    < subs.len() ==> r is Err))
        },
    }
}

/// Whether a submodule passes `all-up-to-date`, given what was found for it: the
/// commit the parent records is the tip of its branch at its remote.
pub open spec fn up_to_date(probe: UpstreamProbe) -> bool {
    probe matches UpstreamProbe::Compared(parent, remote) && parent@ == remote@
}

/// Whether what was found for a submodule stops the check with an error: the
/// parent's record or the remote's tip could not be had, or a differing tip
/// cannot be shown.
pub open spec fn upstream_fails(probe: UpstreamProbe) -> bool {
    ||| probe is ParentFailed
    ||| probe is RemoteFailed
    ||| probe matches UpstreamProbe::Compared(parent, remote) && parent@ != remote@ && !short_fits(
        remote@,
    )
}

/// `all-up-to-date` ends in an error exactly when the parent's record or the
/// remote's tip could not be had for a submodule (or a differing tip cannot be
/// shown), and holds exactly when, for every submodule, the commit the parent
/// records is the tip of its branch at its remote.
pub proof fn lemma_all_up_to_date_holds(subs: Seq<SubmoduleSpec>, probes: Seq<UpstreamProbe>)
    ensures
        fold_steps(upstream_steps(subs, probes)).1 is Err <==> exists|i: int|
            0 <= i < probes.len() && upstream_fails(#[trigger] probes[i]),
        fold_steps(upstream_steps(subs, probes)).1 == Ok::<bool, Seq<char>>(true) <==> forall|i: int|
            0 <= i < probes.len() ==> up_to_date(#[trigger] probes[i]),
{
    let steps = upstream_steps(subs, probes);
    lemma_verdict(steps);
    lemma_fold_err(steps);
    assert forall|i: int| 0 <= i < probes.len() implies (#[trigger] steps[i] is Err
        <==> upstream_fails(probes[i])) by {}
    assert forall|i: int| 0 <= i < probes.len() implies ((#[trigger] steps[i] matches Ok((_, ok))
        && ok) <==> up_to_date(probes[i])) by {}
    if exists|i: int| 0 <= i < probes.len() && upstream_fails(#[trigger] probes[i]) {
        let i = choose|i: int| 0 <= i < probes.len() && upstream_fails(#[trigger] probes[i]);
        assert(steps[i] is Err);
    }
    if forall|i: int| 0 <= i < probes.len() ==> up_to_date(#[trigger] probes[i]) {
        assert forall|i: int| 0 <= i < steps.len() implies (#[trigger] steps[i] matches Ok(
            (_, ok),
        ) && ok) by {
            assert(up_to_date(probes[i]));
        }
    }
    if fold_steps(steps).1 == Ok::<bool, Seq<char>>(true) {
        assert forall|i: int| 0 <= i < probes.len() implies up_to_date(#[trigger] probes[i]) by {
            assert(steps[i] matches Ok((_, ok)) && ok);
        }
    }
}

/// A finished walk in which no submodule's finding is an error has walked every
/// submodule, and holds exactly when, for each one, the commit that the parent's
/// index records is the tip that `git ls-remote` reported for its branch.
pub proof fn lemma_walk_verdict(
    subs: Seq<SubmoduleSpec>,
    before: Seq<String>,
    after: Seq<String>,
    probes: Seq<UpstreamProbe>,
    replies: Seq<Result<(bool, Seq<char>, Seq<char>), Seq<char>>>,
    r: Result<bool, String>,
)
    requires
        walked(subs, before, after, probes, replies, result_view(r)),
        probes.len() < subs.len() ==> r is Err,
        forall|i: int| 0 <= i < probes.len() ==> !upstream_fails(#[trigger] probes[i]),
    ensures
        probes.len() == subs.len(),
        r is Ok,
        r == Ok::<bool, String>(true) <==> forall|i: int|
            0 <= i < probes.len() ==> up_to_date(#[trigger] probes[i]),
{
    lemma_all_up_to_date_holds(subs, probes);
}

} // verus!
