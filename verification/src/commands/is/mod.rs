//! The `is` command: checks one or more conditions about the submodules; it
//! holds when every condition holds.
use vstd::prelude::*;
use crate::commands::{list, status_of};
use crate::submodule::{
    load_gitmodules, loaded_spec, outcome_view, text_view, SubmoduleSpec,
};
use conditions::{all_up_to_date, clean, on_branch, populated, synced};

pub mod conditions;

verus! {

/// A condition about the submodules.
#[derive(Clone, Copy, Debug)]
pub enum IsCondition {
    /// Every submodule's parent-recorded commit is the tip of its remote branch.
    AllUpToDate,
    /// Every submodule has been initialised and cloned locally.
    Populated,
    /// No submodule has uncommitted changes.
    Clean,
    /// Every submodule has checked out the commit the parent records.
    Synced,
    /// Every submodule is checked out on its configured branch (no detached HEAD).
    OnBranch,
}

/// What checking `condition` in the current directory can give.
pub open spec fn condition_outcome(
    condition: IsCondition,
    gitmodules: Result<Seq<char>, Seq<char>>,
    before: Seq<String>,
    after: Seq<String>,
    r: Result<bool, String>,
) -> bool {
    match condition {
        IsCondition::AllUpToDate => all_up_to_date::run_outcome(gitmodules, before, after, r),
        IsCondition::Populated => populated::run_outcome(before, after, r),
        IsCondition::Clean => clean::run_outcome(before, after, r),
        IsCondition::Synced => synced::run_outcome(gitmodules, before, after, r),
        IsCondition::OnBranch => on_branch::run_outcome(gitmodules, before, after, r),
    }
}

/// Lists the submodules that the given read of `.gitmodules` describes, appending
/// their lines to `out`; a failed read or a malformed file is the error.
pub fn list(gitmodules: &Result<String, String>, out: &mut Vec<String>) -> (r: Result<(), String>)
    ensures
        match loaded_spec(text_view(*gitmodules)) {
            Err(e) => r matches Err(m) && m@ == e && final(out)@ == old(out)@,
            Ok(subs) => r is Ok && conditions::lines_view(final(out)@) == conditions::lines_view(
                old(out)@,
            ) + list::list_lines(subs),
        },
{
    let subs = match load_gitmodules(gitmodules) {
        Err(m) => {
            return Err(m);
        },
        Ok(subs) => subs,
    };
    list::list_submodules(subs.as_slice(), out);
    Ok(())
}

/// The verdict of conditions checked in order: the first error, or whether all
/// of them held.
pub open spec fn combine(results: Seq<Result<bool, String>>) -> Result<bool, Seq<char>>
    decreases results.len(),
{
    if results.len() == 0 {
        Ok(true)
    } else {
        match combine(results.drop_last()) {
            Err(e) => Err(e),
            Ok(b) => match results.last() {
                Err(m) => Err(m@),
                Ok(c) => Ok(b && c),
            },
        }
    }
}

/// What checking `conditions` in order can give: each one checked gives an
/// outcome of its own, the output growing from one to the next; the checking
/// stops at the first error; the verdict combines the outcomes.
pub open spec fn run_outcome(
    conditions: Seq<IsCondition>,
    gitmodules: Result<Seq<char>, Seq<char>>,
    before: Seq<String>,
    after: Seq<String>,
    results: Seq<Result<bool, String>>,
    outs: Seq<Seq<String>>,
    r: Result<bool, String>,
) -> bool {
    &&& results.len() <= conditions.len()
    &&& outs.len() == results.len() + 1
    &&& outs[0] == before
    &&& outs.last() == after
    &&& forall|k: int|
        0 <= k < results.len() ==> condition_outcome(
            #[trigger] conditions[k],
            gitmodules,
            outs[k],
            outs[k + 1],
            results[k],
        )
    &&& forall|k: int| 0 <= k < results.len() - 1 ==> #[trigger] results[k] is Ok
    &&& results.len() < conditions.len() ==> results.len() > 0 && results.last() is Err
    &&& conditions::result_view(r) == combine(results)
}

/// What the run of `is` needs next.
pub enum IsAction {
    /// The tip of `refspec` at `url`: run `git ls-remote <url> <refspec>` and hand
    /// its outcome to [`IsRun::answer`].
    LsRemote { url: String, refspec: String },
    /// Every condition was checked, or one gave an error: the outcome.
    Finished(Result<bool, String>),
}

/// A run of `is` under way: the conditions are checked in order, each appending
/// its status lines; the run stops whenever `all-up-to-date` needs the tip of a
/// branch at a remote.
pub struct IsRun {
    conditions: Vec<IsCondition>,
    gitmodules: Result<String, String>,
    k: usize,
    all_ok: bool,
    walk: Option<all_up_to_date::UpstreamWalk>,
    results: Ghost<Seq<Result<bool, String>>>,
    outs: Ghost<Seq<Seq<String>>>,
    before: Ghost<Seq<String>>,
}

impl IsRun {
    /// The conditions to check.
    pub closed spec fn conditions(&self) -> Seq<IsCondition> {
        self.conditions@
    }

    /// The read of `.gitmodules` the run was given.
    pub closed spec fn gitmodules(&self) -> Result<Seq<char>, Seq<char>> {
        text_view(self.gitmodules)
    }

    /// The output when the run started.
    pub closed spec fn started(&self) -> Seq<String> {
        self.before@
    }

    /// The `all-up-to-date` walk under way, if any.
    pub closed spec fn walk(&self) -> Option<all_up_to_date::UpstreamWalk> {
        self.walk
    }

    /// Whether the run waits for the reply about a remote.
    pub closed spec fn awaiting(&self) -> bool {
        self.walk matches Some(w) && w.awaiting()
    }

    /// The run is consistent with `out`, the output so far.
    pub closed spec fn wf(&self, out: Seq<String>) -> bool {
        let conditions = self.conditions@;
        let gm = text_view(self.gitmodules);
        let results = self.results@;
        let outs = self.outs@;
        &&& self.k <= conditions.len()
        &&& results.len() == self.k
        &&& outs.len() == self.k + 1
        &&& outs[0] == self.before@
        &&& forall|j: int|
            0 <= j < results.len() ==> condition_outcome(
                #[trigger] conditions[j],
                gm,
                outs[j],
                outs[j + 1],
                results[j],
            )
        &&& forall|j: int| 0 <= j < results.len() ==> #[trigger] results[j] is Ok
        &&& combine(results) == Ok::<bool, Seq<char>>(self.all_ok)
        &&& match self.walk {
            None => out == outs.last(),
            Some(w) => {
                &&& self.k < conditions.len()
                &&& conditions[self.k as int] is AllUpToDate
                &&& w.wf(out)
                &&& w.started() == outs.last()
                &&& loaded_spec(gm) == Ok::<Seq<SubmoduleSpec>, Seq<char>>(w.subs())
                &&& all_up_to_date::first_missing_branch(w.subs()) is None
            },
        }
    }

    /// Goes on with the run until every condition was checked, one gave an error,
    /// or `all-up-to-date` needs the tip of a branch at a remote.
    pub fn proceed(&mut self, out: &mut Vec<String>) -> (a: IsAction)
        requires
            old(self).wf(old(out)@),
            !old(self).awaiting(),
        ensures
            final(self).conditions() == old(self).conditions(),
            final(self).gitmodules() == old(self).gitmodules(),
            final(self).started() == old(self).started(),
            match a {
                IsAction::Finished(r) => exists|
                    results: Seq<Result<bool, String>>,
                    outs: Seq<Seq<String>>,
                |
                    run_outcome(
                        final(self).conditions(),
                        final(self).gitmodules(),
                        final(self).started(),
                        final(out)@,
                        results,
                        outs,
                        r,
                    ),
                IsAction::LsRemote { url, refspec } => {
                    &&& final(self).wf(final(out)@)
                    &&& final(self).awaiting()
                    &&& loaded_spec(final(self).gitmodules()) matches Ok(subs) && exists|i: int|
                        0 <= i < subs.len() && url@ == #[trigger] subs[i].url && refspec@
                            == all_up_to_date::refspec_of(subs[i])
                    &&& final(self).walk() is Some
                    &&& all_up_to_date::asks(final(self).walk()->Some_0, url@, refspec@)
                },
            },
    {
        let ghost gm = text_view(self.gitmodules);
        let ghost conds = self.conditions@;
        loop
            invariant
                self.wf(out@),
                !self.awaiting(),
                self.conditions@ == conds,
                text_view(self.gitmodules) == gm,
                self.before@ == old(self).before@,
                conds == old(self).conditions@,
                gm == text_view(old(self).gitmodules),
            decreases 2 * (self.conditions@.len() - self.k) + (if self.walk is None {
                1int
            } else {
                0int
            }),
        {
            let n = self.conditions.len();
            let k = self.k;
            let walk = self.walk.take();
            let finished: Result<bool, String> = match walk {
                Some(mut w) => {
                    match w.proceed(out) {
                        all_up_to_date::UpstreamAction::LsRemote { url, refspec } => {
                            self.walk = Some(w);
                            proof {
                                let subs = w.subs();
                                let i = w.probes().len() as int;
                                assert(url@ == subs[i].url);
                            }
                            assert(loaded_spec(self.gitmodules()) matches Ok(subs) && exists|j: int|
                                0 <= j < subs.len() && url@ == #[trigger] subs[j].url && refspec@
                                    == all_up_to_date::refspec_of(subs[j]));
                            let a = IsAction::LsRemote { url, refspec };
                            return a;
                        },
                        all_up_to_date::UpstreamAction::Finished(r) => {
                            proof {
                                assert(all_up_to_date::walked(
                                    w.subs(),
                                    w.started(),
                                    out@,
                                    w.probes(),
                                    w.replies(),
                                    conditions::result_view(r),
                                ));
                                assert(condition_outcome(
                                    conds[k as int],
                                    gm,
                                    self.outs@.last(),
                                    out@,
                                    r,
                                ));
                            }
                            r
                        },
                    }
                },
                None => {
                    if k == n {
                        proof {
                            assert(run_outcome(
                                conds,
                                gm,
                                self.before@,
                                out@,
                                self.results@,
                                self.outs@,
                                Ok(self.all_ok),
                            ));
                            assert(self.conditions() == conds);
                            assert(self.gitmodules() == gm);
                            assert(self.started() == self.before@);
                        }
                        return IsAction::Finished(Ok(self.all_ok));
                    }
                    let condition = self.conditions[k];
                    match condition {
                        IsCondition::AllUpToDate => {
                            match all_up_to_date::run(&self.gitmodules, out) {
                                Ok(w) => {
                                    self.walk = Some(w);
                                    continue ;
                                },
                                Err(m) => Err(m),
                            }
                        },
                        IsCondition::Populated => populated::run(out),
                        IsCondition::Clean => clean::run(out),
                        IsCondition::Synced => synced::run(&self.gitmodules, out),
                        IsCondition::OnBranch => on_branch::run(&self.gitmodules, out),
                    }
                },
            };
            assert(condition_outcome(conds[k as int], gm, self.outs@.last(), out@, finished));
            proof {
                let prev = self.results@;
                let prev_outs = self.outs@;
                self.results@ = prev.push(finished);
                self.outs@ = prev_outs.push(out@);
                assert(self.results@.drop_last() =~= prev);
                assert forall|j: int| 0 <= j < self.results@.len() implies condition_outcome(
                    #[trigger] conds[j],
                    gm,
                    self.outs@[j],
                    self.outs@[j + 1],
                    self.results@[j],
                ) by {
                    if j < k {
                        assert(self.results@[j] == prev[j]);
                        assert(self.outs@[j] == prev_outs[j]);
                        assert(self.outs@[j + 1] == prev_outs[j + 1]);
                    }
                }
            }
            match finished {
                Err(m) => {
                    proof {
                        assert(run_outcome(
                            conds,
                            gm,
                            self.before@,
                            out@,
                            self.results@,
                            self.outs@,
                            Err(m),
                        ));
                        assert(self.conditions() == conds);
                        assert(self.gitmodules() == gm);
                        assert(self.started() == self.before@);
                    }
                    return IsAction::Finished(Err(m));
                },
                Ok(b) => {
                    self.all_ok = self.all_ok && b;
                    self.k = k + 1;
                },
            }
        }
    }

    /// Takes the outcome of running `git ls-remote` for the remote the run needs.
    pub fn answer(&mut self, reply: &Result<(bool, String, String), String>, out: &mut Vec<String>)
        requires
            old(self).wf(old(out)@),
            old(self).awaiting(),
        ensures
            final(self).wf(final(out)@),
            !final(self).awaiting(),
            final(self).conditions() == old(self).conditions(),
            final(self).gitmodules() == old(self).gitmodules(),
            final(self).started() == old(self).started(),
            old(self).walk() is Some,
            final(self).walk() is Some,
            all_up_to_date::answered(
                old(self).walk()->Some_0,
                final(self).walk()->Some_0,
                outcome_view(*reply),
            ),
    {
        let walk = self.walk.take();
        match walk {
            Some(mut w) => {
                w.answer(reply, out);
                self.walk = Some(w);
            },
            None => {},
        }
    }
}

/// Starts checking `conditions` in order in the current directory, with the
/// given read of `.gitmodules`; [`IsRun::proceed`] drives it. The verdict is
/// `true` when every condition held, `false` when one did not; the first error
/// stops the checking.
pub fn run(conditions: Vec<IsCondition>, gitmodules: Result<String, String>, out: &Vec<String>) -> (r:
    IsRun)
    ensures
        r.wf(out@),
        !r.awaiting(),
        r.conditions() == conditions@,
        r.gitmodules() == text_view(gitmodules),
        r.started() == out@,
{
    let ghost first_outs: Seq<Seq<String>> = seq![out@];
    let r = IsRun {
        conditions,
        gitmodules,
        k: 0,
        all_ok: true,
        walk: None,
        results: Ghost(Seq::empty()),
        outs: Ghost(first_outs),
        before: Ghost(out@),
    };
    assert(combine(Seq::<Result<bool, String>>::empty()) == Ok::<bool, Seq<char>>(true));
    r
}

/// The verdict of a sequence of checks is `true` exactly when every check gave
/// `true`.
pub proof fn lemma_combine_all_true(results: Seq<Result<bool, String>>)
    ensures
        combine(results) == Ok::<bool, Seq<char>>(true) <==> forall|k: int|
            0 <= k < results.len() ==> #[trigger] results[k] == Ok::<bool, String>(true),
    decreases results.len(),
{
    if results.len() > 0 {
        let init = results.drop_last();
        lemma_combine_all_true(init);
        if combine(results) == Ok::<bool, Seq<char>>(true) {
            assert forall|k: int| 0 <= k < results.len() implies #[trigger] results[k] == Ok::<
                bool,
                String,
            >(true) by {
                if k < results.len() - 1 {
                    assert(results[k] == init[k]);
                }
            }
        }
        if forall|k: int| 0 <= k < results.len() ==> #[trigger] results[k] == Ok::<bool, String>(true) {
            assert forall|k: int| 0 <= k < init.len() implies #[trigger] init[k] == Ok::<
                bool,
                String,
            >(true) by {
                assert(init[k] == results[k]);
            }
            assert(results[results.len() - 1] == Ok::<bool, String>(true));
        }
    }
}

/// The verdict of a sequence of checks is an error exactly when one of them gave
/// an error.
pub proof fn lemma_combine_err(results: Seq<Result<bool, String>>)
    ensures
        combine(results) is Err <==> exists|k: int| 0 <= k < results.len() && #[trigger] results[k] is Err,
    decreases results.len(),
{
    if results.len() > 0 {
        let init = results.drop_last();
        lemma_combine_err(init);
        if exists|k: int| 0 <= k < init.len() && #[trigger] init[k] is Err {
            let k = choose|k: int| 0 <= k < init.len() && #[trigger] init[k] is Err;
            assert(results[k] == init[k]);
        }
        if exists|k: int| 0 <= k < results.len() && #[trigger] results[k] is Err {
            let k = choose|k: int| 0 <= k < results.len() && #[trigger] results[k] is Err;
            if k < init.len() {
                assert(init[k] == results[k]);
            }
        }
    }
}

/// The `is` command exits with 0 exactly when every condition was checked and
/// held, with 1 exactly when every condition was checked without an error and
/// one of them did not hold, and with 2 exactly when a check gave an error.
pub proof fn lemma_exit_status(
    conditions: Seq<IsCondition>,
    gitmodules: Result<Seq<char>, Seq<char>>,
    before: Seq<String>,
    after: Seq<String>,
    results: Seq<Result<bool, String>>,
    outs: Seq<Seq<String>>,
    r: Result<bool, String>,
)
    requires
        run_outcome(conditions, gitmodules, before, after, results, outs, r),
    ensures
        status_of(r) == 0 <==> results.len() == conditions.len() && forall|k: int|
            0 <= k < results.len() ==> #[trigger] results[k] == Ok::<bool, String>(true),
        status_of(r) == 1 <==> results.len() == conditions.len() && (forall|k: int|
            0 <= k < results.len() ==> #[trigger] results[k] is Ok) && exists|k: int|
            0 <= k < results.len() && #[trigger] results[k] == Ok::<bool, String>(false),
        status_of(r) == 2 <==> exists|k: int| 0 <= k < results.len() && #[trigger] results[k] is Err,
{
    lemma_combine_all_true(results);
    lemma_combine_err(results);
    if results.len() < conditions.len() {
        assert(results[results.len() - 1] is Err);
    }
    if status_of(r) == 1 {
        assert(combine(results) == Ok::<bool, Seq<char>>(false));
        if exists|k: int| 0 <= k < results.len() && #[trigger] results[k] is Err {
            assert(false);
        }
        assert(forall|k: int| 0 <= k < results.len() ==> #[trigger] results[k] is Ok);
        if forall|k: int| 0 <= k < results.len() ==> #[trigger] results[k] == Ok::<bool, String>(true) {
            assert(false);
        }
        let k = choose|k: int|
            0 <= k < results.len() && !(#[trigger] results[k] == Ok::<bool, String>(true));
        assert(results[k] is Ok);
        assert(results[k] == Ok::<bool, String>(results[k]->Ok_0));
        assert(results[k] == Ok::<bool, String>(false));
    }
    if results.len() == conditions.len() && (forall|k: int|
        0 <= k < results.len() ==> #[trigger] results[k] is Ok) && exists|k: int|
        0 <= k < results.len() && #[trigger] results[k] == Ok::<bool, String>(false) {
        let k = choose|k: int|
            0 <= k < results.len() && #[trigger] results[k] == Ok::<bool, String>(false);
        assert(!(results[k] is Err));
        assert(combine(results) is Ok);
        assert(combine(results) != Ok::<bool, Seq<char>>(true));
    }
}

/// When no condition of a run gave an error, every condition was checked, in
/// order, and the run holds exactly when every one of them held (`true` for no
/// conditions at all).
pub proof fn lemma_run_conjunction(
    conditions: Seq<IsCondition>,
    gitmodules: Result<Seq<char>, Seq<char>>,
    before: Seq<String>,
    after: Seq<String>,
    results: Seq<Result<bool, String>>,
    outs: Seq<Seq<String>>,
    r: Result<bool, String>,
)
    requires
        run_outcome(conditions, gitmodules, before, after, results, outs, r),
        forall|k: int| 0 <= k < results.len() ==> #[trigger] results[k] is Ok,
    ensures
        results.len() == conditions.len(),
        r is Ok,
        r == Ok::<bool, String>(true) <==> forall|k: int|
            0 <= k < results.len() ==> #[trigger] results[k] == Ok::<bool, String>(true),
{
    lemma_combine_all_true(results);
    lemma_combine_err(results);
    if results.len() < conditions.len() {
        assert(results[results.len() - 1] is Err);
    }
}

} // verus!
