//! The `list` command: one line per configured submodule.
use vstd::prelude::*;
use crate::commands::is::conditions::lines_view;
use crate::git::{error_text, open_repository};
use crate::strings::{err_open_repo, spec_err_open_repo, spec_err_read_submodules};
use crate::submodule::{
    col_width, column_width, infos_view, submodules, SubmoduleInfo, SubmoduleSpec,
};
use crate::text::{ends_with, pad, pad_right, starts_with};

verus! {

/// The line of `sub`: its path padded to `width`, its URL and, when it has one,
/// its branch.
pub open spec fn list_line(sub: SubmoduleSpec, width: nat) -> Seq<char> {
    let head = pad_right(sub.path, width) + "  "@ + sub.url;
    match sub.branch {
        Some(b) => head + "  (branch: "@ + b + ")"@,
        None => head,
    }
}

/// The lines of `subs`, with every path padded to the widest one.
pub open spec fn list_lines(subs: Seq<SubmoduleSpec>) -> Seq<Seq<char>> {
    Seq::new(subs.len(), |i: int| list_line(subs[i], col_width(subs)))
}

/// Every submodule gets one line, in order, starting with its path; a submodule
/// with a configured branch shows that branch at the end of its line, and one
/// without ends its line with its URL.
pub proof fn lemma_list_shows_branch(subs: Seq<SubmoduleSpec>, i: int)
    requires
        0 <= i < subs.len(),
    ensures
        list_lines(subs).len() == subs.len(),
        starts_with(list_lines(subs)[i], subs[i].path),
        match subs[i].branch {
            Some(b) => ends_with(list_lines(subs)[i], "  (branch: "@ + b + ")"@),
            None => ends_with(list_lines(subs)[i], "  "@ + subs[i].url),
        },
{
    let sub = subs[i];
    let w = col_width(subs);
    let pre = pad_right(sub.path, w);
    let head = pre + "  "@ + sub.url;
    let line = list_lines(subs)[i];
    assert(line == list_line(sub, w));
    assert(pre.subrange(0, sub.path.len() as int) =~= sub.path);
    match sub.branch {
        Some(b) => {
            let tail = "  (branch: "@ + b + ")"@;
            assert(line =~= head + tail);
            assert(line.subrange(0, sub.path.len() as int) =~= sub.path);
            assert(line.subrange(line.len() - tail.len(), line.len() as int) =~= tail);
        },
        None => {
            let tail = "  "@ + sub.url;
            assert(line =~= pre + tail);
            assert(line.subrange(0, sub.path.len() as int) =~= sub.path);
            assert(line.subrange(line.len() - tail.len(), line.len() as int) =~= tail);
        },
    }
}

/// The line of `sub`, its path padded to `width`.
pub fn submodule_line(sub: &SubmoduleInfo, width: usize) -> (r: String)
    ensures
        r@ == list_line(sub@, width as nat),
{
    let mut line = pad(sub.path.as_str(), width);
    line.append("  ");
    line.append(sub.url.as_str());
    match &sub.branch {
        Some(b) => {
            line.append("  (branch: ");
            line.append(b.as_str());
            line.append(")");
        },
        None => {},
    }
    line
}

/// The lines of `submodules`, appended to `out`.
pub fn list_submodules(submodules: &[SubmoduleInfo], out: &mut Vec<String>)
    ensures
        lines_view(final(out)@) == lines_view(old(out)@) + list_lines(infos_view(submodules@)),
{
    let width = column_width(submodules);
    let ghost subs = infos_view(submodules@);
    let ghost before = out@;
    let n = submodules.len();
    let mut i: usize = 0;
    assert(lines_view(out@) =~= lines_view(before) + list_lines(subs).subrange(0, 0));
    while i < n
        invariant
            n == submodules@.len(),
            i <= n,
            subs == infos_view(submodules@),
            width == col_width(subs),
            lines_view(out@) == lines_view(before) + list_lines(subs).subrange(0, i as int),
        decreases n - i,
    {
        let line = submodule_line(&submodules[i], width);
        let ghost prev = out@;
        out.push(line);
        assert(lines_view(out@) =~= lines_view(prev).push(line@));
        assert(list_lines(subs).subrange(0, i + 1) =~= list_lines(subs).subrange(0, i as int).push(
            line@,
        ));
        i = i + 1;
    }
    assert(list_lines(subs).subrange(0, n as int) =~= list_lines(subs));
}

/// What listing the submodules of the repository in the current directory can
/// give: the lines of the submodules that libgit2 reports (which they are is not
/// stated), or the error of opening the repository or of reading its submodules,
/// with nothing written.
pub open spec fn run_outcome(before: Seq<String>, after: Seq<String>, r: Result<(), String>) -> bool {
    match r {
        Err(m) => {
            &&& after == before
            &&& (exists|t: Seq<char>| m@ == spec_err_open_repo(t)) || (exists|t: Seq<char>|
                m@ == spec_err_read_submodules(t))
        },
        Ok(()) => exists|subs: Seq<SubmoduleSpec>|
            lines_view(after) == lines_view(before) + #[trigger] list_lines(subs),
    }
}

/// Lists the submodules of the repository in the current directory, as libgit2
/// reads them, appending their lines to `out`.
pub fn run(out: &mut Vec<String>) -> (r: Result<(), String>)
    ensures
        run_outcome(old(out)@, final(out)@, r),
{
    let repo = match open_repository(".") {
        Err(e) => {
            let t = error_text(&e);
            return Err(err_open_repo(t.as_str()));
        },
        Ok(repo) => repo,
    };
    let subs = match submodules(&repo) {
        Err(m) => {
            return Err(m);
        },
        Ok(subs) => subs,
    };
    list_submodules(subs.as_slice(), out);
    Ok(())
}

} // verus!
