//! Submodule descriptions: the `.gitmodules` parser, the list that the repository
//! configures, and the commit ids that the parent index and a remote record.
use vstd::prelude::*;
use crate::git::{error_text, index_entries, index_entry_id, repository_index, repository_submodules};
use crate::strings::{
    err_read_gitmodules, spec_err_read_gitmodules,
    concat2, err_connect_remote, err_not_in_index, err_open_index,
    err_read_submodules, err_ref_not_found, spec_err_connect_remote,
    spec_err_not_in_index, spec_err_open_index, spec_err_read_submodules,
    spec_err_ref_not_found, REFS_HEADS_PREFIX,
    err_missing_path, err_missing_url, spec_err_missing_path, spec_err_missing_url, KEY_BRANCH,
    KEY_PATH, KEY_URL, SUBMODULE_SECTION_CHECK, SUBMODULE_SECTION_PREFIX,
    SUBMODULE_SECTION_SUFFIX,
};
use vstd::string::*;
use vstd::utf8::*;
use crate::text::{
    first_word_of_line_ending, is_index_path, is_lower_hex, is_oid_hex, lemma_ascii_char_boundary,
    short_fits, short_len, short_of, short_text, word_of_line_ending,
    chars_of, first_index_of, lines_of, lemma_first_index_of, lemma_first_index_of_bound, range_ends_with, range_starts_with, ends_with,
    starts_with, string_of_range, strip_all_prefix, strip_all_suffix, strip_prefixes,
    strip_suffixes, trim, trim_range,
};

verus! {

/// One configured submodule.
#[derive(Debug)]
pub struct SubmoduleInfo {
    pub path: String,
    pub url: String,
    pub branch: Option<String>,
}

/// The mathematical value of a [`SubmoduleInfo`].
pub struct SubmoduleSpec {
    pub path: Seq<char>,
    pub url: Seq<char>,
    pub branch: Option<Seq<char>>,
}

impl View for SubmoduleInfo {
    type V = SubmoduleSpec;

    open spec fn view(&self) -> SubmoduleSpec {
        SubmoduleSpec { path: self.path@, url: self.url@, branch: self.branch.deep_view() }
    }
}

pub open spec fn infos_view(v: Seq<SubmoduleInfo>) -> Seq<SubmoduleSpec> {
    v.map_values(|s: SubmoduleInfo| s@)
}

// ── column width ─────────────────────────────────────────────────────────────

/// The byte length of `s` as `String::len` returns it.
pub open spec fn byte_len(s: Seq<char>) -> nat {
    (encode_utf8(s).len() as usize) as nat
}

/// The widest path of `subs`, in bytes (0 when there is none): the column width
/// that the status lines pad each path to.
pub open spec fn col_width(subs: Seq<SubmoduleSpec>) -> nat
    decreases subs.len(),
{
    if subs.len() == 0 {
        0
    } else {
        let w = col_width(subs.drop_last());
        let b = byte_len(subs.last().path);
        if b > w {
            b
        } else {
            w
        }
    }
}

/// The widest path of `submodules`, in bytes.
pub fn column_width(submodules: &[SubmoduleInfo]) -> (w: usize)
    ensures
        w == col_width(infos_view(submodules@)),
{
    let mut w: usize = 0;
    let mut i: usize = 0;
    assert(infos_view(submodules@).subrange(0, 0) =~= Seq::<SubmoduleSpec>::empty());
    while i < submodules.len()
        invariant
            i <= submodules@.len(),
            w == col_width(infos_view(submodules@).subrange(0, i as int)),
        decreases submodules@.len() - i,
    {
        let b = submodules[i].path.as_str().len();
        assert(infos_view(submodules@).subrange(0, i + 1).drop_last() =~= infos_view(
            submodules@,
        ).subrange(0, i as int));
        if b > w {
            w = b;
        }
        i = i + 1;
    }
    assert(infos_view(submodules@).subrange(0, submodules@.len() as int) =~= infos_view(
        submodules@,
    ));
    w
}

// ── the .gitmodules grammar ──────────────────────────────────────────────────

/// What a line of `.gitmodules` says, once trimmed.
pub enum GitmodulesLine {
    /// `[submodule "<name>"]`, carrying the name.
    Section(Seq<char>),
    /// `path = <value>`, carrying the trimmed value.
    Path(Seq<char>),
    /// `url = <value>`, carrying the trimmed value.
    Url(Seq<char>),
    /// `branch = <value>`, carrying the trimmed value.
    Branch(Seq<char>),
    /// Anything else; such lines are ignored.
    Other,
}

pub open spec fn classify_line(raw: Seq<char>) -> GitmodulesLine {
    let t = trim(raw);
    if starts_with(t, SUBMODULE_SECTION_CHECK@) && ends_with(t, seq![']']) {
        GitmodulesLine::Section(
            strip_all_suffix(
                strip_all_prefix(t, SUBMODULE_SECTION_PREFIX@),
                SUBMODULE_SECTION_SUFFIX@,
            ),
        )
    } else if starts_with(t, KEY_PATH@) {
        GitmodulesLine::Path(trim(t.subrange(KEY_PATH@.len() as int, t.len() as int)))
    } else if starts_with(t, KEY_URL@) {
        GitmodulesLine::Url(trim(t.subrange(KEY_URL@.len() as int, t.len() as int)))
    } else if starts_with(t, KEY_BRANCH@) {
        GitmodulesLine::Branch(trim(t.subrange(KEY_BRANCH@.len() as int, t.len() as int)))
    } else {
        GitmodulesLine::Other
    }
}

/// The section being read: its name once a header was seen, and the values
/// seen since the last completed section (values before the first header are
/// kept for it).
pub struct Pending {
    pub name: Option<Seq<char>>,
    pub path: Option<Seq<char>>,
    pub url: Option<Seq<char>>,
    pub branch: Option<Seq<char>>,
}

pub open spec fn no_pending() -> Pending {
    Pending { name: None, path: None, url: None, branch: None }
}

/// Completes the section `name`: it needs a path and a URL.
pub open spec fn close_section(name: Seq<char>, p: Pending) -> Result<SubmoduleSpec, Seq<char>> {
    match p.path {
        None => Err(spec_err_missing_path(name)),
        Some(path) => match p.url {
            None => Err(spec_err_missing_url(name)),
            Some(url) => Ok(SubmoduleSpec { path, url, branch: p.branch }),
        },
    }
}

/// The entries read so far and the section being read.
pub type ParseState = Result<(Seq<SubmoduleSpec>, Pending), Seq<char>>;

/// Reads one line.
pub open spec fn step_line(acc: Seq<SubmoduleSpec>, p: Pending, raw: Seq<char>) -> ParseState {
    match classify_line(raw) {
        GitmodulesLine::Section(n) => match p.name {
            Some(old) => match close_section(old, p) {
                Err(e) => Err(e),
                Ok(sm) => Ok((acc.push(sm), Pending { name: Some(n), ..no_pending() })),
            },
            None => Ok((acc, Pending { name: Some(n), ..p })),
        },
        GitmodulesLine::Path(v) => Ok((acc, Pending { path: Some(v), ..p })),
        GitmodulesLine::Url(v) => Ok((acc, Pending { url: Some(v), ..p })),
        GitmodulesLine::Branch(v) => Ok((acc, Pending { branch: Some(v), ..p })),
        GitmodulesLine::Other => Ok((acc, p)),
    }
}

pub open spec fn next_state(st: ParseState, raw: Seq<char>) -> ParseState {
    match st {
        Err(e) => Err(e),
        Ok((acc, p)) => step_line(acc, p, raw),
    }
}

/// Reads `lines` in order from `st`; the first error stops the reading.
pub open spec fn run_lines(st: ParseState, lines: Seq<Seq<char>>) -> ParseState
    decreases lines.len(),
{
    if lines.len() == 0 {
        st
    } else {
        run_lines(next_state(st, lines[0]), lines.drop_first())
    }
}

/// Completes the reading: the last section, if any, is closed.
pub open spec fn finish(st: ParseState) -> Result<Seq<SubmoduleSpec>, Seq<char>> {
    match st {
        Err(e) => Err(e),
        Ok((acc, p)) => match p.name {
            None => Ok(acc),
            Some(n) => match close_section(n, p) {
                Err(e) => Err(e),
                Ok(sm) => Ok(acc.push(sm)),
            },
        },
    }
}

/// The submodules that a `.gitmodules` text describes, or the error for the
/// first section that lacks a path or a URL.
pub open spec fn gitmodules_spec(content: Seq<char>) -> Result<Seq<SubmoduleSpec>, Seq<char>> {
    finish(run_lines(Ok((Seq::empty(), no_pending())), lines_of(content)))
}

pub proof fn lemma_run_lines_err(e: Seq<char>, lines: Seq<Seq<char>>)
    ensures
        run_lines(Err(e), lines) == Err::<(Seq<SubmoduleSpec>, Pending), Seq<char>>(e),
    decreases lines.len(),
{
    if lines.len() > 0 {
        lemma_run_lines_err(e, lines.drop_first());
    }
}

pub proof fn lemma_run_lines_cons(st: ParseState, l: Seq<char>, rest: Seq<Seq<char>>)
    ensures
        run_lines(st, seq![l] + rest) == run_lines(next_state(st, l), rest),
{
    let ls = seq![l] + rest;
    assert(ls[0] == l);
    assert(ls.drop_first() =~= rest);
}

// ── laws of the grammar ──────────────────────────────────────────────────────

/// The number of section headers among `lines`.
pub open spec fn section_count(lines: Seq<Seq<char>>) -> nat
    decreases lines.len(),
{
    if lines.len() == 0 {
        0
    } else {
        (if classify_line(lines[0]) is Section {
            1nat
        } else {
            0nat
        }) + section_count(lines.drop_first())
    }
}

pub open spec fn open_sections(p: Pending) -> nat {
    if p.name is Some {
        1
    } else {
        0
    }
}

proof fn lemma_run_lines_count(acc: Seq<SubmoduleSpec>, p: Pending, lines: Seq<Seq<char>>)
    ensures
        run_lines(Ok((acc, p)), lines) matches Ok((acc2, p2)) ==> acc2.len() + open_sections(p2)
            == acc.len() + open_sections(p) + section_count(lines),
    decreases lines.len(),
{
    if lines.len() > 0 {
        match step_line(acc, p, lines[0]) {
            Err(e) => {
                lemma_run_lines_err(e, lines.drop_first());
            },
            Ok((acc1, p1)) => {
                lemma_run_lines_count(acc1, p1, lines.drop_first());
            },
        }
    }
}

/// A `.gitmodules` text that parses gives exactly one submodule per section
/// header.
pub proof fn lemma_one_submodule_per_section(content: Seq<char>)
    ensures
        gitmodules_spec(content) matches Ok(subs) ==> subs.len() == section_count(
            lines_of(content),
        ),
{
    lemma_run_lines_count(Seq::empty(), no_pending(), lines_of(content));
}

proof fn lemma_lines_of_concat(x: Seq<char>, y: Seq<char>)
    ensures
        lines_of(x + seq!['\n'] + y) == lines_of(x) + lines_of(y),
    decreases x.len(),
{
    let s = x + seq!['\n'] + y;
    lemma_first_index_of_bound(x, '\n');
    let k0 = first_index_of(x, '\n');
    if k0 < x.len() {
        assert forall|i: int| 0 <= i < k0 implies s[i] != '\n' by {
            assert(s[i] == x[i]);
        }
        lemma_first_index_of(s, '\n', k0 as int);
        let xr = x.subrange(k0 as int + 1, x.len() as int);
        lemma_lines_of_concat(xr, y);
        assert(s.subrange(0, k0 as int) =~= x.subrange(0, k0 as int));
        assert(s.subrange(k0 as int + 1, s.len() as int) =~= xr + seq!['\n'] + y);
        assert(lines_of(x) == seq![x.subrange(0, k0 as int)] + lines_of(xr));
        assert(lines_of(s) == seq![x.subrange(0, k0 as int)] + lines_of(xr + seq!['\n'] + y));
        assert(lines_of(s) =~= lines_of(x) + lines_of(y));
    } else {
        assert forall|i: int| 0 <= i < x.len() implies s[i] != '\n' by {
            assert(s[i] == x[i]);
        }
        lemma_first_index_of(s, '\n', x.len() as int);
        assert(s.subrange(0, x.len() as int) =~= x);
        assert(s.subrange(x.len() as int + 1, s.len() as int) =~= y);
        assert(lines_of(x) == seq![x]);
        assert(lines_of(s) =~= lines_of(x) + lines_of(y));
    }
}

proof fn lemma_run_lines_append(st: ParseState, l1: Seq<Seq<char>>, l2: Seq<Seq<char>>)
    ensures
        run_lines(st, l1 + l2) == run_lines(run_lines(st, l1), l2),
    decreases l1.len(),
{
    if l1.len() > 0 {
        assert((l1 + l2)[0] == l1[0]);
        assert((l1 + l2).drop_first() =~= l1.drop_first() + l2);
        lemma_run_lines_append(next_state(st, l1[0]), l1.drop_first(), l2);
    } else {
        assert(l1 + l2 =~= l2);
    }
}

/// A line that is neither a section header nor a `path`, `url` or `branch` line
/// changes nothing: removing it from anywhere leaves the result of parsing as it
/// was.
pub proof fn lemma_other_line_ignored(before: Seq<char>, line: Seq<char>, after: Seq<char>)
    requires
        forall|i: int| 0 <= i < line.len() ==> line[i] != '\n',
        classify_line(line) is Other,
    ensures
        gitmodules_spec(before + seq!['\n'] + line + seq!['\n'] + after) == gitmodules_spec(
            before + seq!['\n'] + after,
        ),
{
    let rest = line + seq!['\n'] + after;
    assert(before + seq!['\n'] + line + seq!['\n'] + after =~= before + seq!['\n'] + rest);
    lemma_lines_of_concat(before, rest);
    lemma_lines_of_concat(line, after);
    lemma_first_index_of(line, '\n', line.len() as int);
    assert(lines_of(line) == seq![line]);
    lemma_lines_of_concat(before, after);
    let init = Ok((Seq::<SubmoduleSpec>::empty(), no_pending()));
    let la = lines_of(before);
    let lb = lines_of(after);
    assert(la + (seq![line] + lb) =~= (la + seq![line]) + lb);
    lemma_run_lines_append(init, la + seq![line], lb);
    lemma_run_lines_append(init, la, seq![line]);
    lemma_run_lines_append(init, la, lb);
    let mid = run_lines(init, la);
    assert(seq![line].drop_first() =~= Seq::<Seq<char>>::empty());
    assert(run_lines(mid, seq![line]) == run_lines(next_state(mid, line), Seq::empty()));
}

/// What the key lines of a section's body set: the value of its last `path`,
/// `url` and `branch` line each, and none where it has no such line.
pub open spec fn section_values(body: Seq<Seq<char>>) -> Pending
    decreases body.len(),
{
    if body.len() == 0 {
        no_pending()
    } else {
        let p = section_values(body.drop_last());
        match classify_line(body.last()) {
            GitmodulesLine::Path(v) => Pending { path: Some(v), ..p },
            GitmodulesLine::Url(v) => Pending { url: Some(v), ..p },
            GitmodulesLine::Branch(v) => Pending { branch: Some(v), ..p },
            _ => p,
        }
    }
}

/// The sections of `lines`, in order: each section header's name with the lines
/// after it up to the next header. Lines before the first header belong to none.
pub open spec fn sections(lines: Seq<Seq<char>>) -> Seq<(Seq<char>, Seq<Seq<char>>)>
    decreases lines.len(),
{
    if lines.len() == 0 {
        Seq::empty()
    } else {
        let secs = sections(lines.drop_last());
        match classify_line(lines.last()) {
            GitmodulesLine::Section(n) => secs.push((n, Seq::empty())),
            _ => if secs.len() == 0 {
                secs
            } else {
                secs.update(secs.len() - 1, (secs.last().0, secs.last().1.push(lines.last())))
            },
        }
    }
}

/// The submodules of `secs`, in order, each made of its section's values, or the
/// error of the first section that lacks a path or a URL.
pub open spec fn close_sections(secs: Seq<(Seq<char>, Seq<Seq<char>>)>) -> Result<
    Seq<SubmoduleSpec>,
    Seq<char>,
>
    decreases secs.len(),
{
    if secs.len() == 0 {
        Ok(Seq::empty())
    } else {
        match close_sections(secs.drop_last()) {
            Err(e) => Err(e),
            Ok(v) => match close_section(secs.last().0, section_values(secs.last().1)) {
                Err(e) => Err(e),
                Ok(sm) => Ok(v.push(sm)),
            },
        }
    }
}

/// No `path`, `url` or `branch` line comes before the first section header.
pub open spec fn no_keys_before_sections(lines: Seq<Seq<char>>) -> bool {
    forall|i: int|
        0 <= i < lines.len() && (forall|j: int|
            0 <= j < i ==> !(#[trigger] classify_line(lines[j]) is Section)) ==> (
        #[trigger] classify_line(lines[i]) is Section || classify_line(lines[i]) is Other)
}

/// The state of the reading after `lines`, in terms of their sections.
pub open spec fn sections_state(lines: Seq<Seq<char>>) -> ParseState {
    let secs = sections(lines);
    if secs.len() == 0 {
        Ok((Seq::empty(), no_pending()))
    } else {
        match close_sections(secs.drop_last()) {
            Err(e) => Err(e),
            Ok(v) => Ok((v, Pending { name: Some(secs.last().0), ..section_values(secs.last().1) })),
        }
    }
}

proof fn lemma_run_sections(lines: Seq<Seq<char>>)
    requires
        no_keys_before_sections(lines),
    ensures
        (sections(lines).len() == 0) == (forall|j: int|
            0 <= j < lines.len() ==> !(#[trigger] classify_line(lines[j]) is Section)),
        run_lines(Ok((Seq::empty(), no_pending())), lines) == sections_state(lines),
    decreases lines.len(),
{
    let init = Ok::<(Seq<SubmoduleSpec>, Pending), Seq<char>>((Seq::empty(), no_pending()));
    if lines.len() == 0 {
        assert(run_lines(init, lines) == init);
    } else {
        let prev = lines.drop_last();
        let l = lines.last();
        assert forall|i: int|
            0 <= i < prev.len() && (forall|j: int|
                0 <= j < i ==> !(#[trigger] classify_line(prev[j]) is Section)) implies (
        #[trigger] classify_line(prev[i]) is Section || classify_line(prev[i]) is Other) by {
            assert(prev[i] == lines[i]);
            assert forall|j: int| 0 <= j < i implies !(#[trigger] classify_line(lines[j]) is Section) by {
                assert(prev[j] == lines[j]);
            }
        }
        lemma_run_sections(prev);
        assert(prev + seq![l] =~= lines);
        lemma_run_lines_append(init, prev, seq![l]);
        lemma_run_lines_cons(run_lines(init, prev), l, Seq::empty());
        assert(seq![l] + Seq::<Seq<char>>::empty() =~= seq![l]);
        let after = next_state(run_lines(init, prev), l);
        assert(run_lines(after, Seq::<Seq<char>>::empty()) == after);
        let secs = sections(prev);
        if forall|j: int| 0 <= j < prev.len() ==> !(#[trigger] classify_line(prev[j]) is Section) {
            assert forall|j: int| 0 <= j < prev.len() implies !(#[trigger] classify_line(
                lines[j],
            ) is Section) by {
                assert(prev[j] == lines[j]);
            }
            if !(classify_line(l) is Section) {
                assert(classify_line(lines[lines.len() - 1]) is Section || classify_line(
                    lines[lines.len() - 1],
                ) is Other);
            }
        } else {
            let j = choose|j: int| 0 <= j < prev.len() && classify_line(prev[j]) is Section;
            assert(prev[j] == lines[j]);
            assert(classify_line(lines[j]) is Section);
        }
        if !(classify_line(l) is Section) && secs.len() > 0 {
            let last = secs.last();
            let nsecs = secs.update(secs.len() - 1, (last.0, last.1.push(l)));
            assert(nsecs.drop_last() =~= secs.drop_last());
            assert(last.1.push(l).drop_last() =~= last.1);
        }
        if classify_line(l) is Section {
            assert(secs.push((classify_line(l)->Section_0, Seq::<Seq<char>>::empty())).drop_last()
                =~= secs);
        }
    }
}

/// A `.gitmodules` text in which no `path`, `url` or `branch` line comes before
/// the first section header parses to one entry per section, in order, each made
/// of its section's name and the values of its last `path`, `url` and `branch`
/// lines (a branch is never carried over from an earlier section); or, when a
/// section lacks a path or a URL, to the error of the first such section. (Keys
/// before the first header are kept for it, so the law does not hold there.)
pub proof fn lemma_sections(content: Seq<char>)
    requires
        no_keys_before_sections(lines_of(content)),
    ensures
        gitmodules_spec(content) == close_sections(sections(lines_of(content))),
{
    let lines = lines_of(content);
    lemma_run_sections(lines);
    let secs = sections(lines);
    if secs.len() > 0 {
        assert(secs.drop_last().push(secs.last()) =~= secs);
    }
}

/// The submodules of sections that all close are those sections' entries, one
/// per section in order; otherwise the error is that of the first section that
/// does not close, every earlier one closing.
pub proof fn lemma_close_sections(secs: Seq<(Seq<char>, Seq<Seq<char>>)>)
    ensures
        close_sections(secs) is Ok <==> forall|i: int|
            0 <= i < secs.len() ==> (#[trigger] close_section(secs[i].0, section_values(secs[i].1)))
                is Ok,
        close_sections(secs) matches Ok(v) ==> v.len() == secs.len() && forall|i: int|
            0 <= i < secs.len() ==> #[trigger] close_section(secs[i].0, section_values(secs[i].1))
                == Ok::<SubmoduleSpec, Seq<char>>(v[i]),
        close_sections(secs) matches Err(e) ==> exists|i: int|
            0 <= i < secs.len() && #[trigger] close_section(secs[i].0, section_values(secs[i].1))
                == Err::<SubmoduleSpec, Seq<char>>(e) && forall|j: int|
                0 <= j < i ==> (#[trigger] close_section(secs[j].0, section_values(secs[j].1))) is Ok,
    decreases secs.len(),
{
    if secs.len() > 0 {
        let prev = secs.drop_last();
        lemma_close_sections(prev);
        assert forall|i: int| 0 <= i < prev.len() implies #[trigger] prev[i] == secs[i] by {}
        let k = secs.len() - 1;
        match close_sections(prev) {
            Err(e) => {
                let i = choose|i: int|
                    0 <= i < prev.len() && #[trigger] close_section(prev[i].0, section_values(prev[i].1))
                        == Err::<SubmoduleSpec, Seq<char>>(e) && forall|j: int|
                        0 <= j < i ==> (#[trigger] close_section(prev[j].0, section_values(prev[j].1))) is Ok;
                assert(prev[i] == secs[i]);
                assert forall|j: int| 0 <= j < i implies (#[trigger] close_section(
                    secs[j].0,
                    section_values(secs[j].1),
                )) is Ok by {
                    assert(prev[j] == secs[j]);
                }
            },
            Ok(v) => {
                if close_sections(secs) is Ok {
                    let w = close_sections(secs)->Ok_0;
                    assert forall|i: int| 0 <= i < secs.len() implies #[trigger] close_section(
                        secs[i].0,
                        section_values(secs[i].1),
                    ) == Ok::<SubmoduleSpec, Seq<char>>(w[i]) by {
                        if i < k {
                            assert(prev[i] == secs[i]);
                        }
                    }
                } else {
                    assert forall|j: int| 0 <= j < k implies (#[trigger] close_section(
                        secs[j].0,
                        section_values(secs[j].1),
                    )) is Ok by {
                        assert(prev[j] == secs[j]);
                    }
                }
                if forall|i: int|
                    0 <= i < secs.len() ==> (#[trigger] close_section(
                        secs[i].0,
                        section_values(secs[i].1),
                    )) is Ok {
                    assert(close_section(secs[k].0, section_values(secs[k].1)) is Ok);
                }
            },
        }
    }
}

// ── the parser ───────────────────────────────────────────────────────────────

/// The characters of the grammar's tokens.
struct Tokens {
    check: Vec<char>,
    prefix: Vec<char>,
    suffix: Vec<char>,
    close: Vec<char>,
    key_path: Vec<char>,
    key_url: Vec<char>,
    key_branch: Vec<char>,
}

impl Tokens {
    spec fn wf(&self) -> bool {
        &&& self.check@ == SUBMODULE_SECTION_CHECK@
        &&& self.prefix@ == SUBMODULE_SECTION_PREFIX@
        &&& self.suffix@ == SUBMODULE_SECTION_SUFFIX@
        &&& self.close@ == seq![']']
        &&& self.key_path@ == KEY_PATH@
        &&& self.key_url@ == KEY_URL@
        &&& self.key_branch@ == KEY_BRANCH@
    }

    fn new() -> (t: Tokens)
        ensures
            t.wf(),
    {
        let close: Vec<char> = vec![']'];
        assert(close@ =~= seq![']']);
        Tokens {
            check: chars_of(SUBMODULE_SECTION_CHECK),
            prefix: chars_of(SUBMODULE_SECTION_PREFIX),
            suffix: chars_of(SUBMODULE_SECTION_SUFFIX),
            close,
            key_path: chars_of(KEY_PATH),
            key_url: chars_of(KEY_URL),
            key_branch: chars_of(KEY_BRANCH),
        }
    }
}

/// The parser's state while it reads the lines.
struct Parser {
    acc: Vec<SubmoduleInfo>,
    name: Option<String>,
    path: Option<String>,
    url: Option<String>,
    branch: Option<String>,
}

impl Parser {
    spec fn pending(&self) -> Pending {
        Pending {
            name: self.name.deep_view(),
            path: self.path.deep_view(),
            url: self.url.deep_view(),
            branch: self.branch.deep_view(),
        }
    }

    spec fn state(&self) -> (Seq<SubmoduleSpec>, Pending) {
        (infos_view(self.acc@), self.pending())
    }
}

/// Closes the section `name` with the values read for it.
fn close_entry(name: String, path: Option<String>, url: Option<String>, branch: Option<String>) -> (r:
    Result<SubmoduleInfo, String>)
    ensures
        match close_section(
            name@,
            Pending {
                name: None,
                path: path.deep_view(),
                url: url.deep_view(),
                branch: branch.deep_view(),
            },
        ) {
            Ok(sm) => r matches Ok(info) && info@ == sm,
            Err(e) => r matches Err(m) && m@ == e,
        },
{
    match path {
        None => Err(err_missing_path(name.as_str())),
        Some(path) => match url {
            None => Err(err_missing_url(name.as_str())),
            Some(url) => Ok(SubmoduleInfo { path, url, branch }),
        },
    }
}

/// Reads the line `chars[a..b]`.
fn feed_line(
    p: &mut Parser,
    content: &str,
    chars: &Vec<char>,
    t: &Tokens,
    a: usize,
    b: usize,
) -> (r: Result<(), String>)
    requires
        chars@ == content@,
        a <= b <= chars@.len(),
        t.wf(),
    ensures
        match step_line(old(p).state().0, old(p).state().1, chars@.subrange(a as int, b as int)) {
            Ok(st) => r is Ok && final(p).state() == st,
            Err(e) => r matches Err(m) && m@ == e,
        },
{
    let ghost raw = chars@.subrange(a as int, b as int);
    let (lo, hi) = trim_range(chars, a, b);
    let ghost tl = chars@.subrange(lo as int, hi as int);
    assert(tl == trim(raw));
    if range_starts_with(chars, lo, hi, &t.check) && range_ends_with(chars, lo, hi, &t.close) {
        let s = strip_prefixes(chars, lo, hi, &t.prefix);
        let e = strip_suffixes(chars, s, hi, &t.suffix);
        let new_name = string_of_range(content, chars, s, e);
        assert(classify_line(raw) == GitmodulesLine::Section(new_name@));
        match p.name.take() {
            Some(old_name) => {
                let path = p.path.take();
                let url = p.url.take();
                let branch = p.branch.take();
                match close_entry(old_name, path, url, branch) {
                    Err(m) => {
                        return Err(m);
                    },
                    Ok(info) => {
                        let ghost before = infos_view(p.acc@);
                        p.acc.push(info);
                        assert(infos_view(p.acc@) =~= before.push(info@));
                        p.name = Some(new_name);
                    },
                }
            },
            None => {
                p.name = Some(new_name);
            },
        }
        return Ok(());
    }
    let kp = t.key_path.len();
    if range_starts_with(chars, lo, hi, &t.key_path) {
        assert(tl.subrange(kp as int, tl.len() as int) =~= chars@.subrange(lo + kp, hi as int));
        let (vs, ve) = trim_range(chars, lo + kp, hi);
        p.path = Some(string_of_range(content, chars, vs, ve));
        return Ok(());
    }
    let ku = t.key_url.len();
    if range_starts_with(chars, lo, hi, &t.key_url) {
        assert(tl.subrange(ku as int, tl.len() as int) =~= chars@.subrange(lo + ku, hi as int));
        let (vs, ve) = trim_range(chars, lo + ku, hi);
        p.url = Some(string_of_range(content, chars, vs, ve));
        return Ok(());
    }
    let kb = t.key_branch.len();
    if range_starts_with(chars, lo, hi, &t.key_branch) {
        assert(tl.subrange(kb as int, tl.len() as int) =~= chars@.subrange(lo + kb, hi as int));
        let (vs, ve) = trim_range(chars, lo + kb, hi);
        p.branch = Some(string_of_range(content, chars, vs, ve));
        return Ok(());
    }
    Ok(())
}

/// Parses the text of a `.gitmodules` file: every `[submodule "<name>"]` section
/// gives one submodule with the `path = `, `url = ` and optional `branch = `
/// values read for it, in the order of the sections; other lines are ignored.
/// A section without a path or a URL is an error.
pub fn parse_gitmodules_str(content: &str) -> (r: Result<Vec<SubmoduleInfo>, String>)
    ensures
        match gitmodules_spec(content@) {
            Ok(subs) => r matches Ok(v) && infos_view(v@) == subs,
            Err(e) => r matches Err(m) && m@ == e,
        },
{
    let chars = chars_of(content);
    let t = Tokens::new();
    let n = chars.len();
    let mut p = Parser { acc: Vec::new(), name: None, path: None, url: None, branch: None };
    assert(infos_view(p.acc@) =~= Seq::<SubmoduleSpec>::empty());
    assert(chars@.subrange(0, n as int) =~= content@);
    let mut start: usize = 0;
    loop
        invariant_except_break
            gitmodules_spec(content@) == finish(
                run_lines(Ok(p.state()), lines_of(chars@.subrange(start as int, n as int))),
            ),
        invariant
            chars@ == content@,
            n == chars@.len(),
            start <= n,
            t.wf(),
        ensures
            gitmodules_spec(content@) == finish(Ok(p.state())),
        decreases n - start,
    {
        let mut j = start;
        while j < n && chars[j] != '\n'
            invariant
                chars@ == content@,
                n == chars@.len(),
                start <= j <= n,
                forall|i: int| start <= i < j ==> chars@[i] != '\n',
            decreases n - j,
        {
            j = j + 1;
        }
        let ghost rest = chars@.subrange(start as int, n as int);
        let ghost line = chars@.subrange(start as int, j as int);
        proof {
            lemma_first_index_of(rest, '\n', j - start);
            assert(rest.subrange(0, j - start) =~= line);
            if j < n {
                assert(rest.subrange(j - start + 1, rest.len() as int) =~= chars@.subrange(
                    j + 1,
                    n as int,
                ));
                lemma_run_lines_cons(
                    Ok(p.state()),
                    line,
                    lines_of(chars@.subrange(j + 1, n as int)),
                );
            } else {
                assert(rest =~= line);
                lemma_run_lines_cons(Ok(p.state()), line, Seq::empty());
                assert(seq![line] + Seq::<Seq<char>>::empty() =~= seq![line]);
            }
        }
        let ghost before = p.state();
        match feed_line(&mut p, content, &chars, &t, start, j) {
            Err(m) => {
                proof {
                    let rest_lines = if j < n {
                        lines_of(chars@.subrange(j + 1, n as int))
                    } else {
                        Seq::empty()
                    };
                    lemma_run_lines_err(m@, rest_lines);
                }
                return Err(m);
            },
            Ok(()) => {},
        }
        if j == n {
            break ;
        }
        start = j + 1;
    }
    match p.name {
        None => Ok(p.acc),
        Some(name) => {
            let ghost pend = p.pending();
            match close_entry(name, p.path, p.url, p.branch) {
                Err(m) => Err(m),
                Ok(info) => {
                    let mut acc = p.acc;
                    let ghost before = infos_view(acc@);
                    acc.push(info);
                    assert(infos_view(acc@) =~= before.push(info@));
                    Ok(acc)
                },
            }
        },
    }
}

/// The text of `.gitmodules`, or the text of the error that reading it gave.
pub open spec fn text_view(g: Result<String, String>) -> Result<Seq<char>, Seq<char>> {
    match g {
        Ok(c) => Ok(c@),
        Err(t) => Err(t@),
    }
}

/// The submodules that a read of `.gitmodules` gives: the read's error, or what
/// its text parses to.
pub open spec fn loaded_spec(g: Result<Seq<char>, Seq<char>>) -> Result<Seq<SubmoduleSpec>, Seq<char>> {
    match g {
        Err(t) => Err(spec_err_read_gitmodules(t)),
        Ok(c) => gitmodules_spec(c),
    }
}

/// Parses the result of reading `.gitmodules`; a failed read becomes the error
/// for it.
pub fn load_gitmodules(gitmodules: &Result<String, String>) -> (r: Result<Vec<SubmoduleInfo>, String>)
    ensures
        match loaded_spec(text_view(*gitmodules)) {
            Ok(subs) => r matches Ok(v) && infos_view(v@) == subs,
            Err(e) => r matches Err(m) && m@ == e,
        },
{
    match gitmodules {
        Err(t) => Err(err_read_gitmodules(t.as_str())),
        Ok(c) => parse_gitmodules_str(c.as_str()),
    }
}

// ── the repository's own list ───────────────────────────────────────────────

/// A submodule as the repository reports it: a missing URL reads as empty.
pub fn submodule_from_record(path: String, url: Option<String>, branch: Option<String>) -> (r:
    SubmoduleInfo)
    ensures
        r.path@ == path@,
        r.url@ == (match url {
            Some(u) => u@,
            None => Seq::<char>::empty(),
        }),
        r.branch.deep_view() == branch.deep_view(),
{
    let url = match url {
        Some(u) => u,
        None => String::new(),
    };
    SubmoduleInfo { path, url, branch }
}

/// The submodule of a record `(path, url, branch)` as the repository reports it.
pub open spec fn record_spec(rec: (String, Option<String>, Option<String>)) -> SubmoduleSpec {
    SubmoduleSpec {
        path: rec.0@,
        url: match rec.1 {
            Some(u) => u@,
            None => Seq::<char>::empty(),
        },
        branch: rec.2.deep_view(),
    }
}

/// The submodules of `records`, in order.
pub open spec fn records_view(records: Seq<(String, Option<String>, Option<String>)>) -> Seq<
    SubmoduleSpec,
> {
    records.map_values(|rec: (String, Option<String>, Option<String>)| record_spec(rec))
}

/// The submodules of the records `(path, url, branch)` that the repository
/// reports, in order.
pub fn submodules_from_records(records: &Vec<(String, Option<String>, Option<String>)>) -> (r: Vec<
    SubmoduleInfo,
>)
    ensures
        infos_view(r@) == records_view(records@),
{
    let ghost want = records_view(records@);
    let mut out: Vec<SubmoduleInfo> = Vec::new();
    let mut i: usize = 0;
    while i < records.len()
        invariant
            i <= records@.len(),
            want == records_view(records@),
            infos_view(out@) == want.subrange(0, i as int),
        decreases records@.len() - i,
    {
        let path = records[i].0.clone();
        let url = match &records[i].1 {
            Some(u) => Some(u.clone()),
            None => None,
        };
        let branch = match &records[i].2 {
            Some(b) => Some(b.clone()),
            None => None,
        };
        let sub = submodule_from_record(path, url, branch);
        assert(sub@ == want[i as int]);
        let ghost prev = out@;
        out.push(sub);
        assert(infos_view(out@) =~= infos_view(prev).push(sub@));
        assert(want.subrange(0, i + 1) =~= want.subrange(0, i as int).push(want[i as int]));
        i = i + 1;
    }
    assert(want.subrange(0, records@.len() as int) =~= want);
    out
}

/// The submodules that the repository configures (read by libgit2 from
/// `.gitmodules` and the repository's config), made by [`submodules_from_records`]
/// of what libgit2 reports. Which they are depends on the repository on disk and
/// is not stated; an error carries the text of libgit2's error.
pub fn submodules(repo: &git2::Repository) -> (r: Result<Vec<SubmoduleInfo>, String>)
    ensures
        r matches Err(m) ==> exists|t: Seq<char>| m@ == spec_err_read_submodules(t),
{
    match repository_submodules(repo) {
        Err(e) => {
            let t = error_text(&e);
            Err(err_read_submodules(t.as_str()))
        },
        Ok(records) => Ok(submodules_from_records(&records)),
    }
}

// ── commit ids ───────────────────────────────────────────────────────────────

/// `id` is the id of the entry for `path` at stage 0 (the stage of an entry
/// without conflict) in an index.
pub open spec fn index_records(path: Seq<char>, id: Seq<char>) -> bool {
    exists|ix: git2::Index|
        #[trigger] index_entries(ix).dom().contains((path, 0i32)) && index_entries(ix)[(path, 0i32)]
            == id
}

/// An index holds no entry for `path` at stage 0.
pub open spec fn index_lacks(path: Seq<char>) -> bool {
    exists|ix: git2::Index| !(#[trigger] index_entries(ix).dom().contains((path, 0i32)))
}

/// The commit id that the parent repository's index records for `path` (its
/// entry at stage 0, the stage of an entry without conflict): the not-in-index
/// error when the index has no such entry, or the error of opening the index.
/// Which index the repository has on disk is not stated.
/// `path` must be a repository-relative path (the index lookup panics otherwise).
pub fn git_rev_parse_submodule(repo: &git2::Repository, path: &str) -> (r: Result<String, String>)
    requires
        is_index_path(path@),
    ensures
        match r {
            Ok(id) => is_oid_hex(id@) && index_records(path@, id@),
            Err(m) => (m@ == spec_err_not_in_index(path@) && index_lacks(path@)) || exists|
                t: Seq<char>,
            | m@ == spec_err_open_index(t),
        },
{
    let index = match repository_index(repo) {
        Err(e) => {
            let t = error_text(&e);
            return Err(err_open_index(t.as_str()));
        },
        Ok(index) => index,
    };
    match index_entry_id(&index, path, 0) {
        None => Err(err_not_in_index(path)),
        Some(id) => Ok(id),
    }
}

/// What running `git ls-remote` gave: the error of starting it, or whether it
/// exited successfully, with its standard output and standard error as text.
pub open spec fn outcome_view(o: Result<(bool, String, String), String>) -> Result<
    (bool, Seq<char>, Seq<char>),
    Seq<char>,
> {
    match o {
        Ok((ok, out, err)) => Ok((ok, out@, err@)),
        Err(e) => Err(e@),
    }
}

/// The id that `git ls-remote <url> <refspec>` reports for `refspec`, given how
/// the run went: a failure to start it or a failing exit is an error carrying
/// git's message (its standard error, trimmed); otherwise the id is the first word
/// of the first output line that ends with `refspec`, and without such a line the
/// reference is missing.
pub open spec fn ls_remote_spec(
    url: Seq<char>,
    refspec: Seq<char>,
    outcome: Result<(bool, Seq<char>, Seq<char>), Seq<char>>,
) -> Result<Seq<char>, Seq<char>> {
    match outcome {
        Err(e) => Err(spec_err_connect_remote(url, e)),
        Ok((false, _, err)) => Err(spec_err_connect_remote(url, trim(err))),
        Ok((true, out, _)) => match word_of_line_ending(out, refspec) {
            Some(id) => Ok(id),
            None => Err(spec_err_ref_not_found(refspec, url)),
        },
    }
}

/// The reference that `git ls-remote` is asked about for `branch`.
pub fn ls_remote_refspec(branch: &str) -> (r: String)
    ensures
        r@ == REFS_HEADS_PREFIX@ + branch@,
{
    concat2(REFS_HEADS_PREFIX, branch)
}

/// The arguments of `git` that ask `url` for the tip of `refspec`.
pub fn ls_remote_args(url: &str, refspec: &str) -> (r: Vec<String>)
    ensures
        r@.len() == 3,
        r@[0]@ == "ls-remote"@,
        r@[1]@ == url@,
        r@[2]@ == refspec@,
{
    let mut v: Vec<String> = Vec::new();
    v.push(String::from_str("ls-remote"));
    v.push(String::from_str(url));
    v.push(String::from_str(refspec));
    v
}

/// Reads the tip of `refspec` at `url` from what running `git ls-remote` gave.
pub fn ls_remote_tip(url: &str, refspec: &str, outcome: &Result<(bool, String, String), String>) -> (r:
    Result<String, String>)
    ensures
        match r {
            Ok(id) => ls_remote_spec(url@, refspec@, outcome_view(*outcome)) == Ok::<
                Seq<char>,
                Seq<char>,
            >(id@),
            Err(m) => ls_remote_spec(url@, refspec@, outcome_view(*outcome)) == Err::<
                Seq<char>,
                Seq<char>,
            >(m@),
        },
{
    match outcome {
        Err(e) => Err(err_connect_remote(url, e.as_str())),
        Ok((false, _, err)) => {
            let chars = chars_of(err.as_str());
            let (a, b) = trim_range(&chars, 0, chars.len());
            assert(chars@.subrange(0, chars@.len() as int) =~= err@);
            let text = string_of_range(err.as_str(), &chars, a, b);
            Err(err_connect_remote(url, text.as_str()))
        },
        Ok((true, out, _)) => match first_word_of_line_ending(out.as_str(), refspec) {
            Some(id) => Ok(id),
            None => Err(err_ref_not_found(refspec, url)),
        },
    }
}

/// The tip of `branch` at `url`, read from what running
/// `git ls-remote <url> refs/heads/<branch>` gave.
pub fn git_ls_remote(url: &str, branch: &str, outcome: &Result<(bool, String, String), String>) -> (r:
    Result<String, String>)
    ensures
        match r {
            Ok(id) => ls_remote_spec(url@, REFS_HEADS_PREFIX@ + branch@, outcome_view(*outcome))
                == Ok::<Seq<char>, Seq<char>>(id@),
            Err(m) => ls_remote_spec(url@, REFS_HEADS_PREFIX@ + branch@, outcome_view(*outcome))
                == Err::<Seq<char>, Seq<char>>(m@),
        },
{
    let refspec = ls_remote_refspec(branch);
    ls_remote_tip(url, refspec.as_str(), outcome)
}

/// The shortened form of `id` that a status line shows (`&id[..7]`), when its
/// first seven bytes end on a character boundary.
pub fn short_checked(id: &str) -> (r: Option<String>)
    ensures
        r is Some <==> short_fits(id@),
        r matches Some(t) ==> t@ == short_text(id@),
{
    let bytes = id.as_bytes();
    let n = bytes.len();
    let k = if n < 7 {
        n
    } else {
        7
    };
    proof {
        encode_utf8_valid_utf8(id@);
        if k == n {
            is_char_boundary_start_end_of_seq(bytes@);
        } else {
            is_char_boundary_iff_not_is_continuation_byte(bytes@, k as int);
        }
    }
    let fits = k == n || !(0x80 <= bytes[k] && bytes[k] <= 0xbf);
    if fits {
        let head = short(id);
        proof {
            encode_utf8_decode_utf8(head@);
        }
        Some(String::from_str(head))
    } else {
        None
    }
}

/// A commit id is ASCII text.
pub proof fn lemma_oid_hex_ascii(id: Seq<char>)
    requires
        is_oid_hex(id),
    ensures
        is_ascii_chars(id),
{
    assert forall|i: int| 0 <= i < id.len() implies '\0' <= #[trigger] id[i] <= '\u{7f}' by {
        assert(is_lower_hex(id[i]));
    }
}

/// The first seven characters of the ASCII text `id` (all of it when shorter), as
/// a new string.
pub fn short_id(id: &str) -> (r: String)
    requires
        is_ascii_chars(id@),
        id@.len() <= usize::MAX,
    ensures
        r@ == short_of(id@),
{
    proof {
        is_ascii_spec_bytes(id);
        is_ascii_chars_encode_utf8(id@);
        lemma_ascii_char_boundary(id, short_len(id@.len()) as int);
    }
    String::from_str(short(id))
}

/// The first seven bytes of `sha`, or all of it when it is shorter.
pub fn short(sha: &str) -> (r: &str)
    requires
        sha.spec_bytes().len() <= usize::MAX,
        is_char_boundary(sha.spec_bytes(), short_len(sha.spec_bytes().len()) as int),
    ensures
        r.spec_bytes() == sha.spec_bytes().subrange(0, short_len(sha.spec_bytes().len()) as int),
        is_ascii(sha) ==> r@ == short_of(sha@),
{
    proof {
        encode_utf8_valid_utf8(sha@);
    }
    let n = sha.len();
    let k = if n < 7 {
        n
    } else {
        7
    };
    let (head, tail) = sha.split_at(k);
    proof {
        encode_utf8_valid_utf8(sha@);
        encode_utf8_decode_utf8(sha@);
        encode_utf8_decode_utf8(head@);
        encode_utf8_decode_utf8(tail@);
        decode_utf8_split(sha.spec_bytes(), k as int);
        assert(sha.spec_bytes().subrange(k as int, sha.spec_bytes().len() as int) =~= tail.spec_bytes());
        assert(sha@ == head@ + tail@);
        if is_ascii(sha) {
            is_ascii_concat(sha, head, tail);
            is_ascii_spec_bytes(sha);
            is_ascii_spec_bytes(head);
            assert(head@.len() == head.spec_bytes().len());
            assert(head@ =~= short_of(sha@));
        }
    }
    head
}

} // verus!
