//! Character-level text operations with their mathematical meaning:
//! whitespace trimming, prefix and suffix tests, line splitting, padding,
//! decimal digits, commit-id shortening and path joining.
use vstd::prelude::*;
use vstd::string::*;
use vstd::utf8::*;

verus! {

// ── whitespace and trimming ─────────────────────────────────────────────────

/// The Unicode `White_Space` property, which `char::is_whitespace` tests.
pub open spec fn is_ws(c: char) -> bool {
    ||| ('\u{9}' <= c && c <= '\u{d}')
    ||| c == ' '
    ||| c == '\u{85}'
    ||| c == '\u{a0}'
    ||| c == '\u{1680}'
    ||| ('\u{2000}' <= c && c <= '\u{200a}')
    ||| c == '\u{2028}'
    ||| c == '\u{2029}'
    ||| c == '\u{202f}'
    ||| c == '\u{205f}'
    ||| c == '\u{3000}'
}

/// `s` without its leading whitespace.
pub open spec fn trim_start(s: Seq<char>) -> Seq<char>
    decreases s.len(),
{
    if s.len() > 0 && is_ws(s[0]) {
        trim_start(s.drop_first())
    } else {
        s
    }
}

/// `s` without its trailing whitespace.
pub open spec fn trim_end(s: Seq<char>) -> Seq<char>
    decreases s.len(),
{
    if s.len() > 0 && is_ws(s.last()) {
        trim_end(s.drop_last())
    } else {
        s
    }
}

/// `s` without leading and trailing whitespace (what `str::trim` returns).
pub open spec fn trim(s: Seq<char>) -> Seq<char> {
    trim_end(trim_start(s))
}

/// Tests the Unicode `White_Space` property of `c`.
pub fn char_is_whitespace(c: char) -> (b: bool)
    ensures
        b == is_ws(c),
{
    ('\u{9}' <= c && c <= '\u{d}') || c == ' ' || c == '\u{85}' || c == '\u{a0}' || c
        == '\u{1680}' || ('\u{2000}' <= c && c <= '\u{200a}') || c == '\u{2028}' || c
        == '\u{2029}' || c == '\u{202f}' || c == '\u{205f}' || c == '\u{3000}'
}

/// The bounds of the trimmed part of `chars[a..b]`.
pub fn trim_range(chars: &Vec<char>, a: usize, b: usize) -> (r: (usize, usize))
    requires
        a <= b <= chars@.len(),
    ensures
        a <= r.0 <= r.1 <= b,
        chars@.subrange(r.0 as int, r.1 as int) == trim(chars@.subrange(a as int, b as int)),
{
    let mut lo = a;
    while lo < b && char_is_whitespace(chars[lo])
        invariant
            a <= lo <= b <= chars@.len(),
            trim_start(chars@.subrange(a as int, b as int)) == trim_start(
                chars@.subrange(lo as int, b as int),
            ),
        decreases b - lo,
    {
        assert(chars@.subrange(lo as int, b as int).drop_first() =~= chars@.subrange(
            lo + 1,
            b as int,
        ));
        lo = lo + 1;
    }
    let mut hi = b;
    while lo < hi && char_is_whitespace(chars[hi - 1])
        invariant
            a <= lo <= hi <= b <= chars@.len(),
            trim_end(chars@.subrange(lo as int, b as int)) == trim_end(
                chars@.subrange(lo as int, hi as int),
            ),
        decreases hi - lo,
    {
        assert(chars@.subrange(lo as int, hi as int).drop_last() =~= chars@.subrange(
            lo as int,
            hi - 1,
        ));
        hi = hi - 1;
    }
    (lo, hi)
}

// ── prefixes and suffixes ───────────────────────────────────────────────────

pub open spec fn starts_with(s: Seq<char>, p: Seq<char>) -> bool {
    p.len() <= s.len() && s.subrange(0, p.len() as int) == p
}

pub open spec fn ends_with(s: Seq<char>, p: Seq<char>) -> bool {
    p.len() <= s.len() && s.subrange(s.len() - p.len(), s.len() as int) == p
}

/// `s` with every leading repetition of a non-empty `p` removed
/// (what `str::trim_start_matches` returns).
pub open spec fn strip_all_prefix(s: Seq<char>, p: Seq<char>) -> Seq<char>
    decreases s.len(),
{
    if p.len() > 0 && starts_with(s, p) {
        strip_all_prefix(s.subrange(p.len() as int, s.len() as int), p)
    } else {
        s
    }
}

/// `s` with every trailing repetition of a non-empty `p` removed
/// (what `str::trim_end_matches` returns).
pub open spec fn strip_all_suffix(s: Seq<char>, p: Seq<char>) -> Seq<char>
    decreases s.len(),
{
    if p.len() > 0 && ends_with(s, p) {
        strip_all_suffix(s.subrange(0, s.len() - p.len()), p)
    } else {
        s
    }
}

/// Whether `chars[a..b]` starts with `p`.
pub fn range_starts_with(chars: &Vec<char>, a: usize, b: usize, p: &Vec<char>) -> (r: bool)
    requires
        a <= b <= chars@.len(),
    ensures
        r == starts_with(chars@.subrange(a as int, b as int), p@),
{
    if p.len() > b - a {
        return false;
    }
    let mut k: usize = 0;
    while k < p.len()
        invariant
            a <= b <= chars@.len(),
            p@.len() <= b - a,
            k <= p@.len(),
            forall|j: int| 0 <= j < k ==> chars@[a + j] == p@[j],
        decreases p@.len() - k,
    {
        if chars[a + k] != p[k] {
            assert(chars@.subrange(a as int, b as int).subrange(0, p@.len() as int)[k as int]
                != p@[k as int]);
            return false;
        }
        k = k + 1;
    }
    assert(chars@.subrange(a as int, b as int).subrange(0, p@.len() as int) =~= p@);
    true
}

/// Whether `chars[a..b]` ends with `p`.
pub fn range_ends_with(chars: &Vec<char>, a: usize, b: usize, p: &Vec<char>) -> (r: bool)
    requires
        a <= b <= chars@.len(),
    ensures
        r == ends_with(chars@.subrange(a as int, b as int), p@),
{
    if p.len() > b - a {
        return false;
    }
    let start = b - p.len();
    let r = range_starts_with(chars, start, b, p);
    let ghost s = chars@.subrange(a as int, b as int);
    assert(s.subrange(s.len() - p@.len(), s.len() as int) =~= chars@.subrange(
        start as int,
        b as int,
    ));
    assert(chars@.subrange(start as int, b as int).subrange(0, p@.len() as int) =~= chars@.subrange(
        start as int,
        b as int,
    ));
    r
}

/// The start of what is left of `chars[a..b]` after every leading repetition of `p`
/// is removed.
pub fn strip_prefixes(chars: &Vec<char>, a: usize, b: usize, p: &Vec<char>) -> (r: usize)
    requires
        a <= b <= chars@.len(),
    ensures
        a <= r <= b,
        chars@.subrange(r as int, b as int) == strip_all_prefix(
            chars@.subrange(a as int, b as int),
            p@,
        ),
{
    if p.len() == 0 {
        return a;
    }
    let mut lo = a;
    while range_starts_with(chars, lo, b, p)
        invariant
            a <= lo <= b <= chars@.len(),
            p@.len() > 0,
            strip_all_prefix(chars@.subrange(a as int, b as int), p@) == strip_all_prefix(
                chars@.subrange(lo as int, b as int),
                p@,
            ),
        decreases b - lo,
    {
        let ghost s = chars@.subrange(lo as int, b as int);
        assert(s.subrange(p@.len() as int, s.len() as int) =~= chars@.subrange(
            lo + p@.len(),
            b as int,
        ));
        lo = lo + p.len();
    }
    lo
}

/// The end of what is left of `chars[a..b]` after every trailing repetition of `p`
/// is removed.
pub fn strip_suffixes(chars: &Vec<char>, a: usize, b: usize, p: &Vec<char>) -> (r: usize)
    requires
        a <= b <= chars@.len(),
    ensures
        a <= r <= b,
        chars@.subrange(a as int, r as int) == strip_all_suffix(
            chars@.subrange(a as int, b as int),
            p@,
        ),
{
    if p.len() == 0 {
        return b;
    }
    let mut hi = b;
    while range_ends_with(chars, a, hi, p)
        invariant
            a <= hi <= b <= chars@.len(),
            p@.len() > 0,
            strip_all_suffix(chars@.subrange(a as int, b as int), p@) == strip_all_suffix(
                chars@.subrange(a as int, hi as int),
                p@,
            ),
        decreases hi - a,
    {
        let ghost s = chars@.subrange(a as int, hi as int);
        assert(s.subrange(0, s.len() - p@.len()) =~= chars@.subrange(
            a as int,
            hi - p@.len(),
        ));
        hi = hi - p.len();
    }
    hi
}

/// The characters of `s`, in order.
pub fn chars_of(s: &str) -> (v: Vec<char>)
    ensures
        v@ == s@,
{
    let mut v: Vec<char> = Vec::new();
    for c in it: s.chars()
        invariant
            v@ == it.seq().take(it.index() as int),
    {
        v.push(c);
    }
    v
}

/// A new string holding `chars[a..b]`, where `chars` are the characters of `s`.
pub fn string_of_range(s: &str, chars: &Vec<char>, a: usize, b: usize) -> (r: String)
    requires
        chars@ == s@,
        a <= b <= chars@.len(),
    ensures
        r@ == chars@.subrange(a as int, b as int),
{
    String::from_str(s.substring_char(a, b))
}

/// Whether two strings hold the same characters.
pub fn str_eq(a: &str, b: &str) -> (r: bool)
    ensures
        r == (a@ == b@),
{
    let x = String::from_str(a);
    let y = String::from_str(b);
    x == y
}

// ── lines ───────────────────────────────────────────────────────────────────

/// The index of the first `c` in `s`, or `s.len()` when there is none.
pub open spec fn first_index_of(s: Seq<char>, c: char) -> nat
    decreases s.len(),
{
    if s.len() == 0 {
        0
    } else if s[0] == c {
        0
    } else {
        1 + first_index_of(s.drop_first(), c)
    }
}

/// The `'\n'`-separated lines of `s`. Every line that `str::lines` yields is one
/// of them, up to a trailing `'\r'`; this split may add one empty line at the end.
pub open spec fn lines_of(s: Seq<char>) -> Seq<Seq<char>>
    decreases s.len(),
{
    let k = first_index_of(s, '\n');
    if k < s.len() {
        seq![s.subrange(0, k as int)] + lines_of(s.subrange(k as int + 1, s.len() as int))
    } else {
        seq![s]
    }
}

/// `l` without one trailing `'\r'`.
pub open spec fn drop_cr(l: Seq<char>) -> Seq<char> {
    if l.len() > 0 && l.last() == '\r' {
        l.drop_last()
    } else {
        l
    }
}

/// The lines of `s` as `str::lines` yields them: `s` is cut after each `'\n'`,
/// each line loses its ending `"\n"` or `"\r\n"`, and a final `'\n'` starts no
/// further line.
pub open spec fn str_lines(s: Seq<char>) -> Seq<Seq<char>>
    decreases s.len(),
{
    if s.len() == 0 {
        Seq::empty()
    } else {
        let k = first_index_of(s, '\n');
        if k < s.len() {
            seq![drop_cr(s.subrange(0, k as int))] + str_lines(s.subrange(k as int + 1, s.len() as int))
        } else {
            seq![s]
        }
    }
}

/// The first of `lines` that ends with `p`.
pub open spec fn first_ending(lines: Seq<Seq<char>>, p: Seq<char>) -> Option<Seq<char>>
    decreases lines.len(),
{
    if lines.len() == 0 {
        None
    } else if ends_with(lines[0], p) {
        Some(lines[0])
    } else {
        first_ending(lines.drop_first(), p)
    }
}

/// The index of the first whitespace character of `s`, or its length.
pub open spec fn first_ws(s: Seq<char>) -> nat
    decreases s.len(),
{
    if s.len() == 0 {
        0
    } else if is_ws(s[0]) {
        0
    } else {
        1 + first_ws(s.drop_first())
    }
}

/// The first whitespace-separated word of `l` (what `split_whitespace().next()`
/// gives), `None` when `l` is all whitespace.
pub open spec fn first_word(l: Seq<char>) -> Option<Seq<char>> {
    let t = trim_start(l);
    if t.len() == 0 {
        None
    } else {
        Some(t.subrange(0, first_ws(t) as int))
    }
}

/// The first word of the first line of `text` that ends with `p`.
pub open spec fn word_of_line_ending(text: Seq<char>, p: Seq<char>) -> Option<Seq<char>> {
    match first_ending(str_lines(text), p) {
        Some(l) => first_word(l),
        None => None,
    }
}

/// The first whitespace-separated word of `chars[a..b]`.
fn range_first_word(s: &str, chars: &Vec<char>, a: usize, b: usize) -> (r: Option<String>)
    requires
        chars@ == s@,
        a <= b <= chars@.len(),
    ensures
        r.deep_view() == first_word(chars@.subrange(a as int, b as int)),
{
    let mut lo = a;
    while lo < b && char_is_whitespace(chars[lo])
        invariant
            chars@ == s@,
            a <= lo <= b <= chars@.len(),
            trim_start(chars@.subrange(a as int, b as int)) == trim_start(
                chars@.subrange(lo as int, b as int),
            ),
        decreases b - lo,
    {
        assert(chars@.subrange(lo as int, b as int).drop_first() =~= chars@.subrange(
            lo + 1,
            b as int,
        ));
        lo = lo + 1;
    }
    let ghost t = chars@.subrange(lo as int, b as int);
    assert(trim_start(t) == t) by {
        if t.len() > 0 {
            assert(t[0] == chars@[lo as int]);
        }
    }
    if lo == b {
        return None;
    }
    let mut hi = lo;
    while hi < b && !char_is_whitespace(chars[hi])
        invariant
            chars@ == s@,
            lo <= hi <= b <= chars@.len(),
            t == chars@.subrange(lo as int, b as int),
            first_ws(t) == (hi - lo) + first_ws(chars@.subrange(hi as int, b as int)),
        decreases b - hi,
    {
        assert(chars@.subrange(hi as int, b as int).drop_first() =~= chars@.subrange(
            hi + 1,
            b as int,
        ));
        hi = hi + 1;
    }
    assert(first_ws(chars@.subrange(hi as int, b as int)) == 0) by {
        if hi < b {
            assert(chars@.subrange(hi as int, b as int)[0] == chars@[hi as int]);
        }
    }
    assert(t.subrange(0, (hi - lo) as int) =~= chars@.subrange(lo as int, hi as int));
    Some(string_of_range(s, chars, lo, hi))
}

/// The first word of the first line of `text` that ends with `p`.
pub fn first_word_of_line_ending(text: &str, p: &str) -> (r: Option<String>)
    ensures
        r.deep_view() == word_of_line_ending(text@, p@),
{
    let chars = chars_of(text);
    let pc = chars_of(p);
    let n = chars.len();
    let mut start: usize = 0;
    assert(text@.subrange(0, n as int) =~= text@);
    while start < n
        invariant
            chars@ == text@,
            pc@ == p@,
            n == chars@.len(),
            start <= n,
            first_ending(str_lines(text@), p@) == first_ending(
                str_lines(text@.subrange(start as int, n as int)),
                p@,
            ),
        decreases n - start,
    {
        let mut k = start;
        while k < n && chars[k] != '\n'
            invariant
                chars@ == text@,
                n == chars@.len(),
                start <= k <= n,
                forall|j: int| start <= j < k ==> chars@[j] != '\n',
            decreases n - k,
        {
            k = k + 1;
        }
        let ghost rest = text@.subrange(start as int, n as int);
        proof {
            assert forall|j: int| 0 <= j < k - start implies rest[j] != '\n' by {
                assert(rest[j] == chars@[start + j]);
            }
            lemma_first_index_of(rest, '\n', k - start);
        }
        let mut end = k;
        if k < n && k > start && chars[k - 1] == '\r' {
            end = k - 1;
        }
        proof {
            if k < n {
                assert(rest.subrange(0, k - start) =~= chars@.subrange(start as int, k as int));
                assert(rest.subrange(k - start + 1, rest.len() as int) =~= text@.subrange(
                    k + 1,
                    n as int,
                ));
                assert(drop_cr(rest.subrange(0, k - start)) =~= chars@.subrange(
                    start as int,
                    end as int,
                ));
            } else {
                assert(rest =~= chars@.subrange(start as int, end as int));
            }
            let lines = str_lines(rest);
            assert(lines[0] == chars@.subrange(start as int, end as int));
            if k < n {
                assert(lines.drop_first() =~= str_lines(text@.subrange(k + 1, n as int)));
            } else {
                assert(lines.drop_first() =~= Seq::<Seq<char>>::empty());
            }
        }
        if range_ends_with(&chars, start, end, &pc) {
            return range_first_word(text, &chars, start, end);
        }
        if k == n {
            assert(first_ending(Seq::<Seq<char>>::empty(), p@) is None);
            return None;
        }
        start = k + 1;
    }
    None
}

pub proof fn lemma_first_index_of(s: Seq<char>, c: char, k: int)
    requires
        0 <= k <= s.len(),
        forall|i: int| 0 <= i < k ==> s[i] != c,
        k == s.len() || s[k] == c,
    ensures
        first_index_of(s, c) == k,
    decreases s.len(),
{
    if s.len() > 0 && s[0] != c {
        lemma_first_index_of(s.drop_first(), c, k - 1);
    }
}

pub proof fn lemma_first_index_of_bound(s: Seq<char>, c: char)
    ensures
        first_index_of(s, c) <= s.len(),
        first_index_of(s, c) < s.len() ==> s[first_index_of(s, c) as int] == c,
        forall|i: int| 0 <= i < first_index_of(s, c) ==> s[i] != c,
    decreases s.len(),
{
    if s.len() > 0 && s[0] != c {
        lemma_first_index_of_bound(s.drop_first(), c);
        assert forall|i: int| 0 <= i < first_index_of(s, c) implies s[i] != c by {
            if i > 0 {
                assert(s[i] == s.drop_first()[i - 1]);
            }
        }
    }
}

// ── padding and numbers ─────────────────────────────────────────────────────

pub open spec fn spaces(n: nat) -> Seq<char> {
    Seq::new(n, |i: int| ' ')
}

/// `s` padded on the right with spaces up to `width` characters
/// (what the format `{:<width$}` writes).
pub open spec fn pad_right(s: Seq<char>, width: nat) -> Seq<char> {
    if s.len() < width {
        s + spaces((width - s.len()) as nat)
    } else {
        s
    }
}

/// Pads `s` on the right with spaces up to `width` characters.
pub fn pad(s: &str, width: usize) -> (r: String)
    ensures
        r@ == pad_right(s@, width as nat),
{
    let n = s.unicode_len();
    let mut r = String::from_str(s);
    if n < width {
        let mut k: usize = 0;
        while k < width - n
            invariant
                n == s@.len(),
                n < width,
                k <= width - n,
                r@ == s@ + spaces(k as nat),
            decreases width - n - k,
        {
            proof {
                reveal_strlit(" ");
            }
            r.append(" ");
            assert(s@ + spaces(k as nat) + " "@ =~= s@ + spaces((k + 1) as nat));
            k = k + 1;
        }
    } else {
        assert(r@ == pad_right(s@, width as nat));
    }
    r
}

pub open spec fn digit_char(d: nat) -> char {
    "0123456789"@[d as int]
}

/// The decimal digits of `n`, most significant first, without leading zeros.
pub open spec fn decimal(n: nat) -> Seq<char>
    decreases n,
{
    if n < 10 {
        seq![digit_char(n)]
    } else {
        decimal(n / 10) + seq![digit_char(n % 10)]
    }
}

/// The decimal representation of `n` (what `n.to_string()` writes).
pub fn decimal_string(n: usize) -> (r: String)
    ensures
        r@ == decimal(n as nat),
    decreases n,
{
    let digits = "0123456789";
    proof {
        reveal_strlit("0123456789");
    }
    if n < 10 {
        let r = String::from_str(digits.substring_char(n, n + 1));
        assert(r@ =~= seq![digit_char(n as nat)]);
        r
    } else {
        let mut r = decimal_string(n / 10);
        let d = n % 10;
        let s = digits.substring_char(d, d + 1);
        assert(s@ =~= seq![digit_char(d as nat)]);
        r.append(s);
        r
    }
}

// ── commit ids ──────────────────────────────────────────────────────────────

pub open spec fn is_lower_hex(c: char) -> bool {
    ('0' <= c && c <= '9') || ('a' <= c && c <= 'f')
}

/// A full commit id as git writes it: forty lower-case hexadecimal digits.
pub open spec fn is_oid_hex(s: Seq<char>) -> bool {
    s.len() == 40 && forall|i: int| 0 <= i < s.len() ==> is_lower_hex(#[trigger] s[i])
}

/// The first seven characters of an ASCII `s`, or all of it when it is shorter.
pub open spec fn short_of(s: Seq<char>) -> Seq<char> {
    if s.len() < 7 {
        s
    } else {
        s.subrange(0, 7)
    }
}

pub open spec fn short_len(n: nat) -> nat {
    if n < 7 {
        n
    } else {
        7
    }
}

/// What `&s[..min(len, 7)]` holds: the text of the first seven bytes of `s`, or
/// all of it when it is shorter.
pub open spec fn short_text(s: Seq<char>) -> Seq<char> {
    decode_utf8(encode_utf8(s).subrange(0, short_len(encode_utf8(s).len()) as int))
}

/// Whether the first seven bytes of `s` (all of it when it is shorter) end on a
/// character boundary, so that `&s[..min(len, 7)]` does not panic.
pub open spec fn short_fits(s: Seq<char>) -> bool {
    is_char_boundary(encode_utf8(s), short_len(encode_utf8(s).len()) as int)
}

/// In an ASCII string every byte index up to its length is a character boundary.
pub proof fn lemma_ascii_char_boundary(s: &str, k: int)
    requires
        is_ascii(s),
        0 <= k <= s@.len(),
    ensures
        s.spec_bytes().len() == s@.len(),
        is_char_boundary(s.spec_bytes(), k),
{
    is_ascii_spec_bytes(s);
    is_ascii_chars_encode_utf8(s@);
    encode_utf8_valid_utf8(s@);
    let bytes = s.spec_bytes();
    if k == bytes.len() {
        is_char_boundary_start_end_of_seq(bytes);
    } else {
        is_char_boundary_iff_not_is_continuation_byte(bytes, k);
        let b = bytes[k];
        assert(b < 128);
        assert(!is_continuation_byte(b)) by (bit_vector)
            requires
                b < 128,
        ;
    }
}

// ── paths ───────────────────────────────────────────────────────────────────

/// `base` joined with `rel` as `Path::join` does on Unix: an absolute `rel`
/// replaces `base`, and a `'/'` separates the two when `base` is non-empty and
/// does not already end with one.
pub open spec fn path_join(base: Seq<char>, rel: Seq<char>) -> Seq<char> {
    if rel.len() > 0 && rel[0] == '/' {
        rel
    } else if base.len() == 0 || base.last() == '/' {
        base + rel
    } else {
        base + seq!['/'] + rel
    }
}

/// Joins `rel` onto `base` as `Path::join` does on Unix.
pub fn join_path(base: &str, rel: &str) -> (r: String)
    ensures
        r@ == path_join(base@, rel@),
{
    let rn = rel.unicode_len();
    if rn > 0 && rel.get_char(0) == '/' {
        return String::from_str(rel);
    }
    let bn = base.unicode_len();
    if bn == 0 || base.get_char(bn - 1) == '/' {
        concat_two(base, rel)
    } else {
        proof {
            reveal_strlit("/");
        }
        let mut r = concat_two(base, "/");
        r.append(rel);
        r
    }
}

fn concat_two(a: &str, b: &str) -> (r: String)
    ensures
        r@ == a@ + b@,
{
    let mut r = String::from_str(a);
    r.append(b);
    r
}

/// A path that `git2::Index::get_path` accepts: non-empty, relative, not starting
/// with a `.` or `..` component, and free of NUL characters.
pub open spec fn is_index_path(p: Seq<char>) -> bool {
    let first = p.subrange(0, first_index_of(p, '/') as int);
    &&& p.len() > 0
    &&& p[0] != '/'
    &&& first != seq!['.']
    &&& first != seq!['.', '.']
    &&& forall|i: int| 0 <= i < p.len() ==> #[trigger] p[i] != '\0'
}

/// Tests [`is_index_path`].
pub fn index_path_ok(p: &str) -> (r: bool)
    ensures
        r == is_index_path(p@),
{
    let chars = chars_of(p);
    let n = chars.len();
    if n == 0 || chars[0] == '/' {
        return false;
    }
    let mut k: usize = 0;
    while k < n && chars[k] != '/'
        invariant
            chars@ == p@,
            n == chars@.len(),
            k <= n,
            forall|i: int| 0 <= i < k ==> chars@[i] != '/',
        decreases n - k,
    {
        k = k + 1;
    }
    proof {
        lemma_first_index_of(p@, '/', k as int);
    }
    let is_dot = k == 1 && chars[0] == '.';
    let is_dot_dot = k == 2 && chars[0] == '.' && chars[1] == '.';
    assert(is_dot == (p@.subrange(0, k as int) == seq!['.'])) by {
        if p@.subrange(0, k as int) == seq!['.'] {
            assert(p@.subrange(0, k as int).len() == 1);
            assert(p@.subrange(0, k as int)[0] == '.');
        }
        if is_dot {
            assert(p@.subrange(0, k as int) =~= seq!['.']);
        }
    }
    assert(is_dot_dot == (p@.subrange(0, k as int) == seq!['.', '.'])) by {
        if p@.subrange(0, k as int) == seq!['.', '.'] {
            assert(p@.subrange(0, k as int).len() == 2);
            assert(p@.subrange(0, k as int)[0] == '.');
            assert(p@.subrange(0, k as int)[1] == '.');
        }
        if is_dot_dot {
            assert(p@.subrange(0, k as int) =~= seq!['.', '.']);
        }
    }
    if is_dot || is_dot_dot {
        return false;
    }
    let mut j: usize = 0;
    while j < n
        invariant
            chars@ == p@,
            n == chars@.len(),
            j <= n,
            forall|i: int| 0 <= i < j ==> chars@[i] != '\0',
        decreases n - j,
    {
        if chars[j] == '\0' {
            return false;
        }
        j = j + 1;
    }
    true
}

} // verus!
