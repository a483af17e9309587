//! The conditions that `is` checks. Each check walks the submodules in order and,
//! for each, contributes a status line and a verdict, or an error that stops it.
use vstd::prelude::*;

pub mod all_up_to_date;
pub mod clean;
pub mod on_branch;
pub mod populated;
pub mod synced;

verus! {

/// What one submodule contributes: its status line and whether it passed, or the
/// error that stops the check.
pub type Step = Result<(Seq<char>, bool), Seq<char>>;

/// The lines written and the outcome of a check made of `steps`: the steps are
/// taken in order up to the first error; the outcome is that error, or whether
/// every step passed.
pub open spec fn fold_steps(steps: Seq<Step>) -> (Seq<Seq<char>>, Result<bool, Seq<char>>)
    decreases steps.len(),
{
    if steps.len() == 0 {
        (Seq::empty(), Ok(true))
    } else {
        let (lines, outcome) = fold_steps(steps.drop_last());
        match outcome {
            Err(e) => (lines, Err(e)),
            Ok(b) => match steps.last() {
                Err(e) => (lines, Err(e)),
                Ok((line, ok)) => (lines.push(line), Ok(b && ok)),
            },
        }
    }
}

pub open spec fn lines_view(v: Seq<String>) -> Seq<Seq<char>> {
    v.map_values(|s: String| s@)
}

pub open spec fn result_view(r: Result<bool, String>) -> Result<bool, Seq<char>> {
    match r {
        Ok(b) => Ok(b),
        Err(m) => Err(m@),
    }
}

pub open spec fn step_view(r: Result<(String, bool), String>) -> Step {
    match r {
        Ok((line, ok)) => Ok((line@, ok)),
        Err(m) => Err(m@),
    }
}

/// `after` is `before` followed by the lines of `steps`, and `res` is their outcome.
pub open spec fn reports(
    before: Seq<String>,
    after: Seq<String>,
    steps: Seq<Step>,
    res: Result<bool, Seq<char>>,
) -> bool {
    &&& lines_view(after) == lines_view(before) + fold_steps(steps).0
    &&& res == fold_steps(steps).1
}

/// Taking one more step after the outcome so far was a verdict.
pub proof fn lemma_fold_push(steps: Seq<Step>, s: Step)
    ensures
        fold_steps(steps.push(s)) == (match fold_steps(steps).1 {
            Err(e) => (fold_steps(steps).0, Err(e)),
            Ok(b) => match s {
                Err(e) => (fold_steps(steps).0, Err(e)),
                Ok((line, ok)) => (fold_steps(steps).0.push(line), Ok(b && ok)),
            },
        }),
{
    assert(steps.push(s).drop_last() =~= steps);
}

/// Once a check has failed with an error, further steps change nothing.
pub proof fn lemma_fold_err_absorbs(steps: Seq<Step>, more: Seq<Step>)
    requires
        fold_steps(steps).1 is Err,
    ensures
        fold_steps(steps + more) == fold_steps(steps),
    decreases more.len(),
{
    if more.len() > 0 {
        let init = more.drop_last();
        lemma_fold_err_absorbs(steps, init);
        assert((steps + more).drop_last() =~= steps + init);
    }
}

/// Records in `out` the line of a step that passed or failed.
pub proof fn lemma_report_push(
    before: Seq<String>,
    out: Seq<String>,
    steps: Seq<Step>,
    acc: bool,
    line: String,
    ok: bool,
)
    requires
        reports(before, out, steps, Ok(acc)),
    ensures
        reports(before, out.push(line), steps.push(Ok((line@, ok))), Ok(acc && ok)),
{
    lemma_fold_push(steps, Ok((line@, ok)));
    assert(lines_view(out.push(line)) =~= lines_view(out).push(line@));
    assert(lines_view(before) + fold_steps(steps).0.push(line@) =~= (lines_view(before)
        + fold_steps(steps).0).push(line@));
}

/// Ends a check with the error of its last step, padding the steps it did not
/// take to one per submodule.
pub proof fn lemma_report_err(
    before: Seq<String>,
    out: Seq<String>,
    steps: Seq<Step>,
    acc: bool,
    e: Seq<char>,
    more: Seq<Step>,
)
    requires
        reports(before, out, steps, Ok(acc)),
    ensures
        reports(before, out, steps.push(Err(e)) + more, Err(e)),
{
    lemma_fold_push(steps, Err(e));
    lemma_fold_err_absorbs(steps.push(Err(e)), more);
}

/// A check holds exactly when every submodule passed, and then every submodule
/// has its line: one line per submodule, in order.
pub proof fn lemma_verdict(steps: Seq<Step>)
    ensures
        fold_steps(steps).1 == Ok::<bool, Seq<char>>(true) <==> forall|i: int|
            0 <= i < steps.len() ==> (#[trigger] steps[i] matches Ok((_, ok)) && ok),
        fold_steps(steps).1 is Ok ==> fold_steps(steps).0.len() == steps.len() && forall|i: int|
            0 <= i < steps.len() ==> (#[trigger] steps[i] matches Ok((line, _))
                && fold_steps(steps).0[i] == line),
    decreases steps.len(),
{
    if steps.len() > 0 {
        let init = steps.drop_last();
        lemma_verdict(init);
        assert forall|i: int| 0 <= i < init.len() implies #[trigger] init[i] == steps[i] by {}
        if fold_steps(steps).1 is Ok {
            assert forall|i: int| 0 <= i < steps.len() implies (#[trigger] steps[i] matches Ok(
                (line, _),
            ) && fold_steps(steps).0[i] == line) by {
                if i < init.len() {
                    assert(init[i] == steps[i]);
                }
            }
        }
        if fold_steps(steps).1 == Ok::<bool, Seq<char>>(true) {
            assert(fold_steps(init).1 == Ok::<bool, Seq<char>>(true));
            assert forall|i: int| 0 <= i < steps.len() implies (#[trigger] steps[i] matches Ok(
                (_, ok),
            ) && ok) by {
                if i < init.len() {
                    assert(init[i] == steps[i]);
                }
            }
        }
        if forall|i: int| 0 <= i < steps.len() ==> (#[trigger] steps[i] matches Ok((_, ok)) && ok) {
            assert forall|i: int| 0 <= i < init.len() implies (#[trigger] init[i] matches Ok(
                (_, ok),
            ) && ok) by {
                assert(init[i] == steps[i]);
            }
            assert(steps[steps.len() - 1] matches Ok((_, ok)) && ok);
        }
    }
}

/// A check ends in an error exactly when one of its steps is an error.
pub proof fn lemma_fold_err(steps: Seq<Step>)
    ensures
        fold_steps(steps).1 is Err <==> exists|i: int| 0 <= i < steps.len() && #[trigger] steps[i] is Err,
    decreases steps.len(),
{
    if steps.len() > 0 {
        let init = steps.drop_last();
        lemma_fold_err(init);
        if exists|i: int| 0 <= i < init.len() && #[trigger] init[i] is Err {
            let i = choose|i: int| 0 <= i < init.len() && #[trigger] init[i] is Err;
            assert(steps[i] == init[i]);
        }
        if exists|i: int| 0 <= i < steps.len() && #[trigger] steps[i] is Err {
            let i = choose|i: int| 0 <= i < steps.len() && #[trigger] steps[i] is Err;
            if i < init.len() {
                assert(init[i] == steps[i]);
            }
        }
    }
}

} // verus!
