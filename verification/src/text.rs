//! Character-level text model shared by the whole crate: visible width of
//! text carrying ANSI escapes, line splitting, trimming, decimal numbers,
//! padding and substring search, each with an executable counterpart.
use vstd::prelude::*;
use vstd::string::StringExecFns;

verus! {

broadcast use vstd::string::group_string_axioms;

// ---------------------------------------------------------------------------
// Visible width
// ---------------------------------------------------------------------------

/// Scanner state after reading `s`: the number of visible characters seen and
/// whether the scanner is inside an escape sequence (an ESC was read and the
/// terminating `m` has not been read yet).
pub open spec fn scan(s: Seq<char>) -> (nat, bool)
    decreases s.len(),
{
    if s.len() == 0 {
        (0, false)
    } else {
        let prev = scan(s.drop_last());
        let ch = s.last();
        if prev.1 {
            (prev.0, ch != 'm')
        } else if ch == '\x1b' {
            (prev.0, true)
        } else {
            (prev.0 + 1, false)
        }
    }
}

/// Scanner state after reading `s` starting from state `st`.
pub open spec fn scan_from(st: (nat, bool), s: Seq<char>) -> (nat, bool)
    decreases s.len(),
{
    if s.len() == 0 {
        st
    } else {
        let prev = scan_from(st, s.drop_last());
        let ch = s.last();
        if prev.1 {
            (prev.0, ch != 'm')
        } else if ch == '\x1b' {
            (prev.0, true)
        } else {
            (prev.0 + 1, false)
        }
    }
}

/// Number of terminal columns that `s` occupies: every character counts one,
/// except an ESC and everything after it up to and including the next `m`.
pub open spec fn vis(s: Seq<char>) -> nat {
    scan(s).0
}

/// `s` leaves the scanner outside any escape sequence.
pub open spec fn closed(s: Seq<char>) -> bool {
    !scan(s).1
}

pub proof fn lemma_scan_concat(a: Seq<char>, b: Seq<char>)
    ensures
        scan(a + b) == scan_from(scan(a), b),
    decreases b.len(),
{
    if b.len() == 0 {
        assert(a + b =~= a);
    } else {
        lemma_scan_concat(a, b.drop_last());
        assert((a + b).drop_last() =~= a + b.drop_last());
        assert((a + b).last() == b.last());
    }
}

/// Starting from a plain (non-escape) state only shifts the count.
pub proof fn lemma_scan_from_shift(n: nat, s: Seq<char>)
    ensures
        scan_from((n, false), s).0 == n + scan(s).0,
        scan_from((n, false), s).1 == scan(s).1,
    decreases s.len(),
{
    if s.len() > 0 {
        lemma_scan_from_shift(n, s.drop_last());
    }
}

/// `visible_len` adds up over concatenation when the first part closes every
/// escape it opens (each ESC in it is followed by its `m`): the columns of
/// `a + b` are those of `a` and those of `b`.
pub proof fn lemma_vis_concat(a: Seq<char>, b: Seq<char>)
    requires
        closed(a),
    ensures
        vis(a + b) == vis(a) + vis(b),
        closed(a + b) == closed(b),
{
    lemma_scan_concat(a, b);
    lemma_scan_from_shift(vis(a), b);
}

/// `visible_len` of text without ESC is its number of characters.
pub proof fn lemma_vis_plain(s: Seq<char>)
    requires
        forall|i: int| 0 <= i < s.len() ==> s[i] != '\x1b',
    ensures
        vis(s) == s.len(),
        closed(s),
    decreases s.len(),
{
    if s.len() > 0 {
        lemma_vis_plain(s.drop_last());
    }
}

/// A piece that opens an escape and closes it with `m`, with no `m` in
/// between, adds no columns.
pub proof fn lemma_vis_escape(s: Seq<char>)
    requires
        s.len() >= 2,
        s[0] == '\x1b',
        s.last() == 'm',
        forall|i: int| 0 < i < s.len() - 1 ==> s[i] != 'm',
    ensures
        vis(s) == 0,
        closed(s),
{
    lemma_escape_prefix(s, s.len() - 1);
    assert(s.take(s.len() - 1) =~= s.drop_last());
}

proof fn lemma_escape_prefix(s: Seq<char>, k: int)
    requires
        s.len() >= 2,
        s[0] == '\x1b',
        forall|i: int| 0 < i < s.len() - 1 ==> s[i] != 'm',
        1 <= k < s.len(),
    ensures
        scan(s.take(k)) == (0nat, true),
    decreases k,
{
    let t = s.take(k);
    assert(t.len() == k);
    assert(t.last() == s[k - 1]);
    if k > 1 {
        lemma_escape_prefix(s, k - 1);
        assert(t.drop_last() =~= s.take(k - 1));
        assert(s[k - 1] != 'm');
        let prev = scan(t.drop_last());
        assert(prev == (0nat, true));
        assert(scan(t) == (prev.0, t.last() != 'm'));
    } else {
        assert(t.drop_last() =~= Seq::<char>::empty());
        assert(scan(t.drop_last()) == (0nat, false));
        assert(scan(t) == (0nat, true));
    }
}

/// Appending a complete escape whose body holds no `m` after any text adds no
/// columns and leaves the scanner outside escapes.
pub proof fn lemma_vis_append_escape(a: Seq<char>, e: Seq<char>)
    requires
        e.len() >= 2,
        e[0] == '\x1b',
        e.last() == 'm',
        forall|i: int| 0 < i < e.len() - 1 ==> e[i] != 'm',
    ensures
        vis(a + e) == vis(a),
        closed(a + e),
{
    lemma_scan_concat(a, e);
    lemma_scan_from_escape(scan(a), e, e.len() as int);
    assert(e.take(e.len() as int) =~= e);
}

proof fn lemma_scan_from_escape(st: (nat, bool), e: Seq<char>, k: int)
    requires
        e.len() >= 2,
        e[0] == '\x1b',
        e.last() == 'm',
        forall|i: int| 0 < i < e.len() - 1 ==> e[i] != 'm',
        1 <= k <= e.len(),
    ensures
        scan_from(st, e.take(k)).0 == st.0,
        k < e.len() ==> scan_from(st, e.take(k)).1,
        k == e.len() ==> !scan_from(st, e.take(k)).1,
    decreases k,
{
    let t = e.take(k);
    assert(t.len() == k);
    assert(t.last() == e[k - 1]);
    if k > 1 {
        lemma_scan_from_escape(st, e, k - 1);
        assert(t.drop_last() =~= e.take(k - 1));
        let prev = scan_from(st, t.drop_last());
        assert(prev.1);
        assert(scan_from(st, t) == (prev.0, t.last() != 'm'));
    } else {
        assert(t.drop_last() =~= Seq::<char>::empty());
        assert(scan_from(st, t.drop_last()) == st);
        assert(scan_from(st, t).0 == st.0);
    }
    if k == e.len() {
        assert(e.take(k) =~= e);
    }
}

/// `s` ends with the reset sequence `ESC [ 0 m`.
pub open spec fn ends_reset(s: Seq<char>) -> bool {
    s.len() >= 4 && s.subrange(s.len() - 4, s.len() as int) == "\x1b[0m"@
}

pub proof fn lemma_vis_le_len(s: Seq<char>)
    ensures
        vis(s) <= s.len(),
    decreases s.len(),
{
    if s.len() > 0 {
        lemma_vis_le_len(s.drop_last());
    }
}

/// The characters of the reset sequence.
pub proof fn lemma_reset_chars()
    ensures
        "\x1b[0m"@ == seq!['\x1b', '[', '0', 'm'],
{
    reveal_strlit("\x1b[0m");
    assert("\x1b[0m"@ =~= seq!['\x1b', '[', '0', 'm']);
}

/// The reset sequence is an escape: it adds no columns.
pub proof fn lemma_reset_is_escape(a: Seq<char>)
    ensures
        vis(a + "\x1b[0m"@) == vis(a),
        closed(a + "\x1b[0m"@),
{
    reveal_strlit("\x1b[0m");
    lemma_vis_append_escape(a, "\x1b[0m"@);
}

/// Text ending in a reset has at least four invisible characters.
pub proof fn lemma_vis_reset_suffix(s: Seq<char>)
    requires
        ends_reset(s),
    ensures
        vis(s) + 4 <= s.len(),
        closed(s),
{
    let a = s.subrange(0, s.len() - 4);
    assert(s =~= a + "\x1b[0m"@);
    lemma_reset_is_escape(a);
    lemma_vis_le_len(a);
}

pub proof fn lemma_ends_reset_concat(a: Seq<char>)
    ensures
        ends_reset(a + "\x1b[0m"@),
{
    reveal_strlit("\x1b[0m");
    assert((a + "\x1b[0m"@).subrange(a.len() as int, a.len() + 4int) =~= "\x1b[0m"@);
}

/// An escape sequence: ESC, then no `m` until the closing `m`.
pub open spec fn is_escape(e: Seq<char>) -> bool {
    e.len() >= 2 && e[0] == '\x1b' && e.last() == 'm' && forall|i: int| 0 < i < e.len() - 1 ==> e[i] != 'm'
}

/// Text without ESC.
pub open spec fn plain(s: Seq<char>) -> bool {
    forall|i: int| 0 <= i < s.len() ==> s[i] != '\x1b'
}

/// Width facts of a piece: its width and that it closes its escapes.
pub open spec fn piece(s: Seq<char>, w: nat) -> bool {
    vis(s) == w && closed(s)
}

pub proof fn lemma_piece_escape(e: Seq<char>)
    requires
        is_escape(e),
    ensures
        piece(e, 0),
{
    lemma_vis_escape(e);
}

pub proof fn lemma_piece_plain(s: Seq<char>)
    requires
        plain(s),
    ensures
        piece(s, s.len()),
{
    lemma_vis_plain(s);
}

pub proof fn lemma_piece_concat(a: Seq<char>, wa: nat, b: Seq<char>, wb: nat)
    requires
        piece(a, wa),
        piece(b, wb),
    ensures
        piece(a + b, wa + wb),
{
    lemma_vis_concat(a, b);
}

pub proof fn lemma_piece_rep(c: char, n: nat)
    requires
        c != '\x1b',
    ensures
        piece(rep(c, n), n),
{
    lemma_vis_plain(rep(c, n));
}

// ---------------------------------------------------------------------------
// Whitespace, trimming
// ---------------------------------------------------------------------------

/// Unicode `White_Space`, the property that `char::is_whitespace` tests.
pub open spec fn is_ws(c: char) -> bool {
    ||| ('\t' <= c && c <= '\r')
    ||| c == ' '
    ||| c == '\u{85}'
    ||| c == '\u{a0}'
    ||| c == '\u{1680}'
    ||| ('\u{2000}' <= c && c <= '\u{200a}')
    ||| c == '\u{2028}'
    ||| c == '\u{2029}'
    ||| c == '\u{202f}'
    ||| c == '\u{205f}'
    ||| c == '\u{3000}'
}

pub fn is_whitespace_char(c: char) -> (b: bool)
    ensures
        b == is_ws(c),
{
    ('\t' <= c && c <= '\r') || c == ' ' || c == '\u{85}' || c == '\u{a0}' || c == '\u{1680}' || (
    '\u{2000}' <= c && c <= '\u{200a}') || c == '\u{2028}' || c == '\u{2029}' || c == '\u{202f}'
        || c == '\u{205f}' || c == '\u{3000}'
}

pub open spec fn trim_start(s: Seq<char>) -> Seq<char>
    decreases s.len(),
{
    if s.len() > 0 && is_ws(s[0]) {
        trim_start(s.drop_first())
    } else {
        s
    }
}

pub open spec fn trim_end(s: Seq<char>) -> Seq<char>
    decreases s.len(),
{
    if s.len() > 0 && is_ws(s.last()) {
        trim_end(s.drop_last())
    } else {
        s
    }
}

/// `str::trim`: leading and trailing whitespace removed.
pub open spec fn trim(s: Seq<char>) -> Seq<char> {
    trim_end(trim_start(s))
}

/// Bounds of `trim(v[lo..hi])` inside `v`.
pub fn trim_bounds(v: &Vec<char>, lo: usize, hi: usize) -> (r: (usize, usize))
    requires
        lo <= hi <= v.len(),
    ensures
        lo <= r.0 <= r.1 <= hi,
        v@.subrange(r.0 as int, r.1 as int) == trim(v@.subrange(lo as int, hi as int)),
{
    let mut a = lo;
    while a < hi && is_whitespace_char(v[a])
        invariant
            lo <= a <= hi <= v.len(),
            trim_start(v@.subrange(lo as int, hi as int)) == trim_start(
                v@.subrange(a as int, hi as int),
            ),
        decreases hi - a,
    {
        assert(v@.subrange(a as int, hi as int).drop_first() =~= v@.subrange(a + 1, hi as int));
        a = a + 1;
    }
    let mut b = hi;
    while b > a && is_whitespace_char(v[b - 1])
        invariant
            lo <= a <= b <= hi <= v.len(),
            trim_end(v@.subrange(a as int, hi as int)) == trim_end(v@.subrange(a as int, b as int)),
        decreases b - a,
    {
        assert(v@.subrange(a as int, b as int).drop_last() =~= v@.subrange(a as int, b - 1));
        b = b - 1;
    }
    (a, b)
}

// ---------------------------------------------------------------------------
// Lines
// ---------------------------------------------------------------------------

/// Index of the first `c` in `s` at or after `i`, or `s.len()` when there is none.
pub open spec fn next_char(s: Seq<char>, c: char, i: int) -> int
    decreases s.len() - i,
{
    if i >= s.len() {
        s.len() as int
    } else if s[i] == c {
        i
    } else {
        next_char(s, c, i + 1)
    }
}

/// A line without its line terminator's `\r`.
pub open spec fn strip_cr(l: Seq<char>) -> Seq<char> {
    if l.len() > 0 && l.last() == '\r' {
        l.drop_last()
    } else {
        l
    }
}

/// `str::lines`: pieces between `\n`s, a `\r` before a `\n` removed, and no
/// empty piece after a final `\n`.
pub open spec fn lines_from(s: Seq<char>, i: int) -> Seq<Seq<char>>
    decreases s.len() - i,
{
    if i >= s.len() || i < 0 {
        Seq::empty()
    } else {
        let e = next_char(s, '\n', i);
        proof {
            lemma_next_char_bounds(s, '\n', i);
        }
        if e >= s.len() {
            seq![s.subrange(i, s.len() as int)]
        } else {
            seq![strip_cr(s.subrange(i, e))] + lines_from(s, e + 1)
        }
    }
}

pub open spec fn lines(s: Seq<char>) -> Seq<Seq<char>> {
    lines_from(s, 0)
}

pub proof fn lemma_next_char_bounds(s: Seq<char>, c: char, i: int)
    requires
        0 <= i,
    ensures
        i <= s.len() ==> i <= next_char(s, c, i) <= s.len(),
        next_char(s, c, i) < s.len() ==> s[next_char(s, c, i)] == c,
        forall|j: int| i <= j < next_char(s, c, i) ==> s[j] != c,
    decreases s.len() - i,
{
    if i < s.len() && s[i] != c {
        lemma_next_char_bounds(s, c, i + 1);
    }
}

/// Index of the first `c` in `v[i..]`, or `v.len()`.
pub fn find_char_from(v: &Vec<char>, c: char, i: usize) -> (r: usize)
    requires
        i <= v.len(),
    ensures
        r == next_char(v@, c, i as int),
        i <= r <= v.len(),
{
    proof {
        lemma_next_char_bounds(v@, c, i as int);
    }
    let mut j = i;
    while j < v.len() && v[j] != c
        invariant
            i <= j <= v.len(),
            next_char(v@, c, i as int) == next_char(v@, c, j as int),
        decreases v.len() - j,
    {
        j = j + 1;
    }
    j
}

/// Bounds of each line of `v`, as `str::lines` yields them.
pub fn line_bounds(v: &Vec<char>) -> (r: Vec<(usize, usize)>)
    ensures
        r@.len() == lines(v@).len(),
        forall|k: int|
            0 <= k < r@.len() ==> (#[trigger] r@[k]).0 <= r@[k].1 <= v@.len() && v@.subrange(
                r@[k].0 as int,
                r@[k].1 as int,
            ) == lines(v@)[k],
{
    let mut r: Vec<(usize, usize)> = Vec::new();
    let mut i: usize = 0;
    while i < v.len()
        invariant
            i <= v.len(),
            lines(v@) == Seq::new(r@.len(), |k: int| v@.subrange(r@[k].0 as int, r@[k].1 as int))
                + lines_from(v@, i as int),
            forall|k: int| 0 <= k < r@.len() ==> (#[trigger] r@[k]).0 <= r@[k].1 <= v@.len(),
        decreases v.len() - i,
    {
        let e = find_char_from(v, '\n', i);
        let ghost old_r = r@;
        if e >= v.len() {
            r.push((i, v.len()));
            assert(lines_from(v@, v.len() as int) =~= Seq::<Seq<char>>::empty());
            assert(Seq::new(r@.len(), |k: int| v@.subrange(r@[k].0 as int, r@[k].1 as int))
                =~= Seq::new(old_r.len(), |k: int| v@.subrange(old_r[k].0 as int, old_r[k].1 as int))
                + seq![v@.subrange(i as int, v.len() as int)]);
            i = v.len();
        } else {
            let end = if e > i && v[e - 1] == '\r' {
                e - 1
            } else {
                e
            };
            assert(v@.subrange(i as int, end as int) == strip_cr(v@.subrange(i as int, e as int)))
                by {
                if e > i && v@[e - 1] == '\r' {
                    assert(v@.subrange(i as int, e as int).drop_last() =~= v@.subrange(
                        i as int,
                        e - 1,
                    ));
                }
            }
            r.push((i, end));
            assert(Seq::new(r@.len(), |k: int| v@.subrange(r@[k].0 as int, r@[k].1 as int))
                =~= Seq::new(old_r.len(), |k: int| v@.subrange(old_r[k].0 as int, old_r[k].1 as int))
                + seq![v@.subrange(i as int, end as int)]);
            i = e + 1;
        }
    }
    assert(lines_from(v@, i as int) =~= Seq::<Seq<char>>::empty());
    r
}

/// Lines each followed by a newline.
pub open spec fn terminated(ls: Seq<Seq<char>>) -> Seq<char>
    decreases ls.len(),
{
    if ls.len() == 0 {
        Seq::empty()
    } else {
        ls[0] + seq!['\n'] + terminated(ls.drop_first())
    }
}

pub proof fn lemma_terminated_push(ls: Seq<Seq<char>>, l: Seq<char>)
    ensures
        terminated(ls.push(l)) == terminated(ls) + l + seq!['\n'],
    decreases ls.len(),
{
    if ls.len() == 0 {
        assert(ls.push(l).drop_first() =~= Seq::<Seq<char>>::empty());
        assert(terminated(ls.push(l).drop_first()) =~= Seq::<char>::empty());
        assert(terminated(ls) =~= Seq::<char>::empty());
        assert(ls.push(l)[0] == l);
        assert(terminated(ls.push(l)) =~= terminated(ls) + l + seq!['\n']);
    } else {
        lemma_terminated_push(ls.drop_first(), l);
        assert(ls.push(l).drop_first() =~= ls.drop_first().push(l));
        assert(ls.push(l)[0] == ls[0]);
        assert(terminated(ls.push(l)) == ls[0] + seq!['\n'] + terminated(ls.drop_first().push(l)));
        assert(terminated(ls.push(l)) =~= terminated(ls) + l + seq!['\n']);
    }
}

/// A line that `str::lines` gives back as it is: no newline in it, and no
/// carriage return at its end.
pub open spec fn clean_line(l: Seq<char>) -> bool {
    !l.contains('\n') && !(l.len() > 0 && l.last() == '\r')
}

proof fn lemma_next_char_run(s: Seq<char>, c: char, i: int, e: int)
    requires
        0 <= i <= e < s.len(),
        s[e] == c,
        forall|j: int| i <= j < e ==> s[j] != c,
    ensures
        next_char(s, c, i) == e,
    decreases e - i,
{
    if i < e {
        lemma_next_char_run(s, c, i + 1, e);
    }
}

/// Lines of text that starts with terminated clean lines: those lines, then
/// the lines of what follows.
pub proof fn lemma_lines_prefix(p: Seq<char>, ls: Seq<Seq<char>>, r: Seq<char>)
    requires
        forall|k: int| 0 <= k < ls.len() ==> clean_line(#[trigger] ls[k]),
    ensures
        lines_from(p + terminated(ls) + r, p.len() as int) == ls + lines_from(
            p + terminated(ls) + r,
            (p + terminated(ls)).len() as int,
        ),
    decreases ls.len(),
{
    let s = p + terminated(ls) + r;
    if ls.len() == 0 {
        assert(terminated(ls) =~= Seq::<char>::empty());
        assert(ls + lines_from(s, (p + terminated(ls)).len() as int) =~= lines_from(s, p.len() as int));
    } else {
        let l = ls[0];
        let i = p.len() as int;
        let e = i + l.len();
        let rest = ls.drop_first();
        let p2 = p + l + seq!['\n'];
        assert(s =~= p2 + terminated(rest) + r);
        assert(p2 + terminated(rest) =~= p + terminated(ls));
        assert(clean_line(l));
        assert forall|j: int| i <= j < e implies s[j] != '\n' by {
            assert(s[j] == l[j - i]);
        }
        assert(s[e] == '\n');
        lemma_next_char_run(s, '\n', i, e);
        assert(s.subrange(i, e) =~= l);
        assert(strip_cr(l) == l);
        assert forall|k: int| 0 <= k < rest.len() implies clean_line(#[trigger] rest[k]) by {
            assert(rest[k] == ls[k + 1]);
        }
        lemma_lines_prefix(p2, rest, r);
        assert(p2.len() == e + 1);
        assert(lines_from(s, i) == seq![l] + lines_from(s, e + 1));
        assert(ls =~= seq![l] + rest);
    }
}

/// Splitting newline-terminated clean lines gives the lines back.
pub proof fn lemma_lines_terminated(p: Seq<char>, ls: Seq<Seq<char>>)
    requires
        forall|k: int| 0 <= k < ls.len() ==> clean_line(#[trigger] ls[k]),
    ensures
        lines_from(p + terminated(ls), p.len() as int) == ls,
    decreases ls.len(),
{
    let s = p + terminated(ls);
    if ls.len() == 0 {
        assert(s =~= p);
        assert(ls =~= Seq::<Seq<char>>::empty());
    } else {
        let l = ls[0];
        let i = p.len() as int;
        let e = i + l.len();
        let rest = ls.drop_first();
        let p2 = p + l + seq!['\n'];
        assert(s =~= p2 + terminated(rest));
        assert(clean_line(l));
        assert forall|j: int| i <= j < e implies s[j] != '\n' by {
            assert(s[j] == l[j - i]);
        }
        assert(s[e] == '\n');
        lemma_next_char_run(s, '\n', i, e);
        assert(s.subrange(i, e) =~= l);
        assert(strip_cr(l) == l);
        assert forall|k: int| 0 <= k < rest.len() implies clean_line(#[trigger] rest[k]) by {
            assert(rest[k] == ls[k + 1]);
        }
        lemma_lines_terminated(p2, rest);
        assert(p2.len() == e + 1);
        assert(lines_from(s, i) == seq![l] + lines_from(s, e + 1));
        assert(ls =~= seq![l] + rest);
    }
}

// ---------------------------------------------------------------------------
// Substring search
// ---------------------------------------------------------------------------

pub open spec fn matches_at(s: Seq<char>, pat: Seq<char>, i: int) -> bool {
    0 <= i && i + pat.len() <= s.len() && s.subrange(i, i + pat.len()) == pat
}

/// `str::find` on `s[i..]`, in absolute positions: the first `j >= i` where
/// `pat` occurs in `s`.
pub open spec fn find_from(s: Seq<char>, pat: Seq<char>, i: int) -> Option<int>
    decreases s.len() + 1 - i,
{
    if i < 0 || i + pat.len() > s.len() {
        None
    } else if matches_at(s, pat, i) {
        Some(i)
    } else {
        find_from(s, pat, i + 1)
    }
}

pub proof fn lemma_find_from_facts(s: Seq<char>, pat: Seq<char>, i: int)
    requires
        0 <= i,
    ensures
        find_from(s, pat, i) matches Some(j) ==> i <= j && j + pat.len() <= s.len()
            && matches_at(s, pat, j) && (forall|k: int| i <= k < j ==> !matches_at(s, pat, k)),
        find_from(s, pat, i) is None ==> forall|k: int| i <= k ==> !matches_at(s, pat, k),
    decreases s.len() + 1 - i,
{
    if i + pat.len() <= s.len() && !matches_at(s, pat, i) {
        lemma_find_from_facts(s, pat, i + 1);
    }
}

/// The first occurrence of `pat` in `v[..hi]` at or after `i`.
pub fn find_in(v: &Vec<char>, hi: usize, pat: &Vec<char>, i: usize) -> (r: Option<usize>)
    requires
        hi <= v.len(),
    ensures
        r matches Some(j) ==> find_from(v@.subrange(0, hi as int), pat@, i as int) == Some(
            j as int,
        ),
        r is None ==> find_from(v@.subrange(0, hi as int), pat@, i as int) is None,
{
    let ghost s = v@.subrange(0, hi as int);
    let mut j = i;
    if pat.len() > hi {
        return None;
    }
    let last = hi - pat.len();
    while j <= last
        invariant
            hi <= v.len(),
            s == v@.subrange(0, hi as int),
            last + pat.len() == hi,
            i <= j,
            find_from(s, pat@, i as int) == find_from(s, pat@, j as int),
        decreases last + 1 - j,
    {
        let mut k: usize = 0;
        let mut ok = true;
        while k < pat.len() && ok
            invariant
                j <= last,
                last + pat.len() == hi,
                hi <= v.len(),
                s == v@.subrange(0, hi as int),
                k <= pat.len(),
                ok ==> forall|t: int| 0 <= t < k ==> v@[j + t] == pat@[t],
                !ok ==> !matches_at(s, pat@, j as int),
            decreases pat.len() - k + (if ok { 1int } else { 0int }),
        {
            if v[j + k] != pat[k] {
                ok = false;
                assert(s.subrange(j as int, j + pat.len())[k as int] != pat@[k as int]);
            } else {
                k = k + 1;
            }
        }
        if ok {
            assert forall|t: int| 0 <= t < pat@.len() implies s.subrange(j as int, j + pat.len())[t]
                == pat@[t] by {
                assert(v@[j + t] == pat@[t]);
            }
            assert(s.subrange(j as int, j + pat.len()) =~= pat@);
            return Some(j);
        }
        if j == last {
            assert(find_from(s, pat@, j + 1) is None);
            return None;
        }
        j = j + 1;
    }
    None
}

// ---------------------------------------------------------------------------
// Decimal numbers
// ---------------------------------------------------------------------------

pub open spec fn digit_char(d: nat) -> char {
    ((d % 10) + 48) as char
}

/// Decimal notation of `n`, as `{}` formats an unsigned integer.
pub open spec fn dec(n: nat) -> Seq<char>
    decreases n,
{
    if n < 10 {
        seq![digit_char(n)]
    } else {
        dec(n / 10).push(digit_char(n % 10))
    }
}

pub open spec fn is_digit(c: char) -> bool {
    '0' <= c && c <= '9'
}

/// Value of a run of decimal digits.
pub open spec fn digits_value(s: Seq<char>) -> nat
    decreases s.len(),
{
    if s.len() == 0 {
        0
    } else {
        digits_value(s.drop_last()) * 10 + ((s.last() as int - 48) as nat)
    }
}

pub open spec fn all_digits(s: Seq<char>) -> bool {
    forall|i: int| 0 <= i < s.len() ==> is_digit(#[trigger] s[i])
}

/// The digits that `parse` reads: `s` without one leading `+`.
pub open spec fn unsigned_body(s: Seq<char>) -> Seq<char> {
    if s.len() > 0 && s[0] == '+' {
        s.drop_first()
    } else {
        s
    }
}

/// `str::parse::<u32>`: an optional `+`, then at least one digit, with a
/// value that fits.
pub open spec fn parse_u32(s: Seq<char>) -> Option<u32> {
    let b = unsigned_body(s);
    if b.len() > 0 && all_digits(b) && digits_value(b) <= u32::MAX {
        Some(digits_value(b) as u32)
    } else {
        None
    }
}

/// `str::parse::<usize>`, as `parse_u32` with the wider bound.
pub open spec fn parse_usize(s: Seq<char>) -> Option<usize> {
    let b = unsigned_body(s);
    if b.len() > 0 && all_digits(b) && digits_value(b) <= usize::MAX {
        Some(digits_value(b) as usize)
    } else {
        None
    }
}

pub proof fn lemma_dec_facts(n: nat)
    ensures
        dec(n).len() >= 1,
        all_digits(dec(n)),
        digits_value(dec(n)) == n,
        forall|i: int| 0 <= i < dec(n).len() ==> dec(n)[i] != '\x1b' && dec(n)[i] != '\n' && dec(n)[i] != '\r',
        n < 10 <==> dec(n).len() == 1,
        n < 100 <==> dec(n).len() <= 2,
        n < 1000 <==> dec(n).len() <= 3,
    decreases n,
{
    if n >= 10 {
        lemma_dec_facts(n / 10);
        let d = dec(n);
        assert(d.drop_last() =~= dec(n / 10));
        assert(d.last() == digit_char(n % 10));
        assert((n % 10) % 10 == n % 10);
        assert(digit_char(n % 10) as int == n % 10 + 48);
        assert(n == (n / 10) * 10 + n % 10);
        assert(digits_value(d) == digits_value(dec(n / 10)) * 10 + ((d.last() as int - 48) as nat));
        assert forall|i: int| 0 <= i < d.len() implies is_digit(#[trigger] d[i]) by {
            if i < d.len() - 1 {
                assert(d[i] == dec(n / 10)[i]);
            }
        }
    } else {
        let d = dec(n);
        assert(d.drop_last() =~= Seq::<char>::empty());
        assert(n % 10 == n);
        assert(digit_char(n) as int == n + 48);
        assert(digits_value(d) == digits_value(d.drop_last()) * 10 + ((d.last() as int - 48) as nat));
    }
}

/// Value of the digits `v[lo..hi]`, when every one of them is a digit and the
/// value fits in `u64`.
fn digits_value_exec(v: &Vec<char>, lo: usize, hi: usize, limit: u64) -> (r: Option<u64>)
    requires
        lo <= hi <= v.len(),
        limit >= 9,
    ensures
        r matches Some(x) ==> all_digits(v@.subrange(lo as int, hi as int)) && x == digits_value(
            v@.subrange(lo as int, hi as int),
        ) && x <= limit,
        r is None ==> !all_digits(v@.subrange(lo as int, hi as int)) || digits_value(
            v@.subrange(lo as int, hi as int),
        ) > limit,
{
    let mut acc: u64 = 0;
    let mut i = lo;
    while i < hi
        invariant
            lo <= i <= hi <= v.len(),
            all_digits(v@.subrange(lo as int, i as int)),
            acc == digits_value(v@.subrange(lo as int, i as int)),
            acc <= limit,
            limit >= 9,
        decreases hi - i,
    {
        let c = v[i];
        assert(v@.subrange(lo as int, i + 1).drop_last() =~= v@.subrange(lo as int, i as int));
        if !('0' <= c && c <= '9') {
            assert(v@.subrange(lo as int, hi as int)[i - lo] == c);
            return None;
        }
        assert(c as u32 >= 48 && c as u32 <= 57);
        let d = (c as u32 - 48) as u64;
        if acc > (limit - d) / 10 {
            proof {
                if all_digits(v@.subrange(lo as int, hi as int)) {
                    lemma_digits_value_prefix_mono(v@.subrange(lo as int, hi as int), i + 1 - lo);
                    assert(v@.subrange(lo as int, hi as int).take(i + 1 - lo) =~= v@.subrange(
                        lo as int,
                        i + 1,
                    ));
                    assert(acc * 10 + d > limit) by (nonlinear_arith)
                        requires
                            acc > (limit - d) / 10,
                            d <= 9,
                            d <= limit,
                    ;
                }
            }
            return None;
        }
        assert(acc * 10 + d <= limit) by (nonlinear_arith)
            requires
                acc <= (limit - d) / 10,
                d <= limit,
        ;
        acc = acc * 10 + d;
        i = i + 1;
    }
    Some(acc)
}

proof fn lemma_digits_value_prefix_mono(s: Seq<char>, k: int)
    requires
        0 <= k <= s.len(),
        all_digits(s),
    ensures
        digits_value(s.take(k)) <= digits_value(s),
    decreases s.len() - k,
{
    if k < s.len() {
        lemma_digits_value_prefix_mono(s, k + 1);
        assert(s.take(k + 1).drop_last() =~= s.take(k));
        assert(s.take(k + 1).last() == s[k]);
        assert(is_digit(s[k]));
        assert(digits_value(s.take(k + 1)) >= digits_value(s.take(k))) by (nonlinear_arith)
            requires
                digits_value(s.take(k + 1)) == digits_value(s.take(k)) * 10 + ((s.take(k + 1).last() as int - 48) as nat),
        ;
    } else {
        assert(s.take(k) =~= s);
    }
}

/// `v[lo..hi].parse::<u32>()`.
pub fn parse_u32_at(v: &Vec<char>, lo: usize, hi: usize) -> (r: Option<u32>)
    requires
        lo <= hi <= v.len(),
    ensures
        r == parse_u32(v@.subrange(lo as int, hi as int)),
{
    let mut a = lo;
    if a < hi && v[a] == '+' {
        a = a + 1;
    }
    assert(unsigned_body(v@.subrange(lo as int, hi as int)) =~= v@.subrange(a as int, hi as int));
    if a == hi {
        return None;
    }
    match digits_value_exec(v, a, hi, 0xFFFF_FFFF) {
        Some(x) => Some(x as u32),
        None => None,
    }
}

/// `v[lo..hi].parse::<usize>()`.
pub fn parse_usize_at(v: &Vec<char>, lo: usize, hi: usize) -> (r: Option<usize>)
    requires
        lo <= hi <= v.len(),
    ensures
        r == parse_usize(v@.subrange(lo as int, hi as int)),
{
    let mut a = lo;
    if a < hi && v[a] == '+' {
        a = a + 1;
    }
    assert(unsigned_body(v@.subrange(lo as int, hi as int)) =~= v@.subrange(a as int, hi as int));
    if a == hi {
        return None;
    }
    match digits_value_exec(v, a, hi, usize::MAX as u64) {
        Some(x) => Some(x as usize),
        None => None,
    }
}

// ---------------------------------------------------------------------------
// Building strings
// ---------------------------------------------------------------------------

/// `n` copies of `c`.
pub open spec fn rep(c: char, n: nat) -> Seq<char> {
    Seq::new(n, |i: int| c)
}

/// `n` copies of `s`, as `str::repeat` builds them.
pub open spec fn repeat(s: Seq<char>, n: nat) -> Seq<char>
    decreases n,
{
    if n == 0 {
        Seq::empty()
    } else {
        repeat(s, (n - 1) as nat) + s
    }
}

/// `format!("{:<w$}", s)`: `s` followed by spaces up to `w` characters.
pub open spec fn pad_right(s: Seq<char>, w: nat) -> Seq<char> {
    if s.len() >= w {
        s
    } else {
        s + rep(' ', (w - s.len()) as nat)
    }
}

/// `format!("{:>w$}", s)` with fill `f`: fill characters, then `s`, up to `w`
/// characters.
pub open spec fn pad_left(s: Seq<char>, w: nat, f: char) -> Seq<char> {
    if s.len() >= w {
        s
    } else {
        rep(f, (w - s.len()) as nat) + s
    }
}

/// Calls `String::push`: the text gains `c` at its end.
#[verifier::external_body]
pub(crate) fn push_char(s: &mut String, c: char)
    ensures
        final(s)@ == old(s)@.push(c),
{
    s.push(c);
}

pub fn push_str(s: &mut String, t: &str)
    ensures
        final(s)@ == old(s)@ + t@,
{
    s.append(t);
}

/// Appends `v[lo..hi]`.
pub fn push_range(s: &mut String, v: &Vec<char>, lo: usize, hi: usize)
    requires
        lo <= hi <= v.len(),
    ensures
        final(s)@ == old(s)@ + v@.subrange(lo as int, hi as int),
{
    let mut i = lo;
    while i < hi
        invariant
            lo <= i <= hi <= v.len(),
            s@ == old(s)@ + v@.subrange(lo as int, i as int),
        decreases hi - i,
    {
        push_char(s, v[i]);
        assert(v@.subrange(lo as int, i + 1) =~= v@.subrange(lo as int, i as int).push(v@[i as int]));
        i = i + 1;
    }
}

/// Appends `n` copies of `c`.
pub fn push_rep(s: &mut String, c: char, n: usize)
    ensures
        final(s)@ == old(s)@ + rep(c, n as nat),
{
    let mut i: usize = 0;
    while i < n
        invariant
            i <= n,
            s@ == old(s)@ + rep(c, i as nat),
        decreases n - i,
    {
        push_char(s, c);
        assert(rep(c, (i + 1) as nat) =~= rep(c, i as nat).push(c));
        i = i + 1;
    }
    assert(rep(c, n as nat) =~= rep(c, i as nat));
}

/// Appends the decimal notation of `n`.
pub fn push_dec(s: &mut String, n: u64)
    ensures
        final(s)@ == old(s)@ + dec(n as nat),
{
    let mut digits: Vec<char> = Vec::new();
    let mut m = n;
    // digits holds the reversed notation of the part already consumed.
    while m >= 10
        invariant
            dec(n as nat) == dec(m as nat) + digits@.reverse(),
        decreases m,
    {
        let d = m % 10;
        let c = ((d as u32) + 48) as u8 as char;
        assert(c == digit_char(d as nat));
        assert(dec(m as nat) == dec((m / 10) as nat).push(digit_char((m % 10) as nat)));
        let ghost old_digits = digits@;
        digits.push(c);
        assert(digits@.reverse() =~= seq![c] + old_digits.reverse());
        m = m / 10;
    }
    let c0 = ((m as u32) + 48) as u8 as char;
    assert(c0 == digit_char(m as nat));
    push_char(s, c0);
    let mut k = digits.len();
    while k > 0
        invariant
            k <= digits.len(),
            dec(n as nat) == seq![c0] + digits@.reverse(),
            s@ == old(s)@ + seq![c0] + digits@.reverse().take((digits.len() - k) as int),
        decreases k,
    {
        k = k - 1;
        push_char(s, digits[k]);
        assert(digits@.reverse().take((digits.len() - k) as int) =~= digits@.reverse().take(
            (digits.len() - k - 1) as int,
        ).push(digits@[k as int]));
    }
    assert(digits@.reverse().take(digits.len() as int) =~= digits@.reverse());
    assert(s@ =~= old(s)@ + dec(n as nat));
}

/// The decimal notation of `n`, as characters.
pub fn dec_chars(n: u64) -> (v: Vec<char>)
    ensures
        v@ == dec(n as nat),
{
    let mut s = String::new();
    push_dec(&mut s, n);
    chars_of(s.as_str())
}

/// Appends `format!("{:>w$}", n)` with fill `f`.
pub fn push_dec_padded(s: &mut String, n: u64, w: usize, f: char)
    ensures
        final(s)@ == old(s)@ + pad_left(dec(n as nat), w as nat, f),
{
    let d = dec_chars(n);
    if d.len() < w {
        push_rep(s, f, w - d.len());
    }
    push_range(s, &d, 0, d.len());
    assert(d@.subrange(0, d@.len() as int) =~= d@);
    assert(s@ =~= old(s)@ + pad_left(dec(n as nat), w as nat, f));
}

/// Appends `format!("{:<w$}", t)`.
pub fn push_str_padded(s: &mut String, t: &str, w: usize)
    ensures
        final(s)@ == old(s)@ + pad_right(t@, w as nat),
{
    let n = t.unicode_len();
    push_str(s, t);
    if n < w {
        push_rep(s, ' ', w - n);
    }
    assert(s@ =~= old(s)@ + pad_right(t@, w as nat));
}

/// The characters of `s`, in order.
pub fn chars_of(s: &str) -> (out: Vec<char>)
    ensures
        out@ == s@,
{
    let mut out: Vec<char> = Vec::new();
    for c in it: s.chars()
        invariant
            out@ == it.seq().take(it.index() as int),
            it.seq() == s@,
    {
        out.push(c);
    }
    out
}

/// A string holding `v[lo..hi]`.
pub fn string_of_range(v: &Vec<char>, lo: usize, hi: usize) -> (s: String)
    requires
        lo <= hi <= v.len(),
    ensures
        s@ == v@.subrange(lo as int, hi as int),
{
    let mut s = String::new();
    push_range(&mut s, v, lo, hi);
    s
}

/// Index of the first `c` in `v[lo..hi]`, or `hi`.
pub fn find_char_in(v: &Vec<char>, c: char, lo: usize, hi: usize) -> (r: usize)
    requires
        lo <= hi <= v.len(),
    ensures
        lo <= r <= hi,
        r - lo == next_char(v@.subrange(lo as int, hi as int), c, 0),
{
    let ghost sub = v@.subrange(lo as int, hi as int);
    let mut j = lo;
    while j < hi && v[j] != c
        invariant
            lo <= j <= hi <= v.len(),
            sub == v@.subrange(lo as int, hi as int),
            next_char(sub, c, 0) == next_char(sub, c, j - lo),
        decreases hi - j,
    {
        assert(sub[j - lo] == v@[j as int]);
        j = j + 1;
    }
    if j < hi {
        assert(sub[j - lo] == v@[j as int]);
    }
    j
}

/// Whether `a` and `b` hold the same characters.
pub fn str_eq(a: &str, b: &str) -> (r: bool)
    ensures
        r == (a@ == b@),
{
    let x = chars_of(a);
    let y = chars_of(b);
    if x.len() != y.len() {
        return false;
    }
    let mut i: usize = 0;
    while i < x.len()
        invariant
            x@ == a@,
            y@ == b@,
            x.len() == y.len(),
            i <= x.len(),
            forall|k: int| 0 <= k < i ==> x@[k] == y@[k],
        decreases x.len() - i,
    {
        if x[i] != y[i] {
            assert(x@[i as int] != y@[i as int]);
            return false;
        }
        i = i + 1;
    }
    assert(x@ =~= y@);
    true
}

/// `str::find` in absolute positions: the first occurrence of `pat` in `v`
/// at or after `i`.
pub fn find_at(v: &Vec<char>, pat: &Vec<char>, i: usize) -> (r: Option<usize>)
    ensures
        r matches Some(j) ==> find_from(v@, pat@, i as int) == Some(j as int) && i <= j && j
            + pat@.len() <= v@.len(),
        r is None ==> find_from(v@, pat@, i as int) is None,
        v@.len() <= usize::MAX,
{
    let _ = v.len();
    assert(v@.subrange(0, v@.len() as int) =~= v@);
    proof {
        lemma_find_from_facts(v@, pat@, i as int);
    }
    find_in(v, v.len(), pat, i)
}

/// A copy of `v[lo..hi]`.
pub fn sub_vec(v: &Vec<char>, lo: usize, hi: usize) -> (r: Vec<char>)
    requires
        lo <= hi <= v.len(),
    ensures
        r@ == v@.subrange(lo as int, hi as int),
{
    let mut r: Vec<char> = Vec::new();
    let mut i = lo;
    while i < hi
        invariant
            lo <= i <= hi <= v.len(),
            r@ == v@.subrange(lo as int, i as int),
        decreases hi - i,
    {
        r.push(v[i]);
        assert(v@.subrange(lo as int, i + 1) =~= v@.subrange(lo as int, i as int).push(v@[i as int]));
        i = i + 1;
    }
    r
}

/// Whether `c` occurs in `v[lo..hi]`.
pub fn range_contains(v: &Vec<char>, lo: usize, hi: usize, c: char) -> (r: bool)
    requires
        lo <= hi <= v.len(),
    ensures
        r == v@.subrange(lo as int, hi as int).contains(c),
{
    let mut i = lo;
    while i < hi
        invariant
            lo <= i <= hi <= v.len(),
            forall|k: int| lo <= k < i ==> v@[k] != c,
        decreases hi - i,
    {
        if v[i] == c {
            assert(v@.subrange(lo as int, hi as int)[i - lo] == c);
            return true;
        }
        i = i + 1;
    }
    assert forall|k: int| 0 <= k < hi - lo implies v@.subrange(lo as int, hi as int)[k] != c by {
        assert(v@.subrange(lo as int, hi as int)[k] == v@[lo + k]);
    }
    false
}

// ---------------------------------------------------------------------------
// Visible width, executable
// ---------------------------------------------------------------------------

/// Returns the number of visible terminal columns in `s`, ignoring ANSI escape
/// sequences of the form `\x1b[...m`.
pub fn visible_len(s: &str) -> (n: usize)
    ensures
        n == vis(s@),
{
    let v = chars_of(s);
    let mut len: usize = 0;
    let mut esc = false;
    let mut i: usize = 0;
    while i < v.len()
        invariant
            i <= v.len(),
            (len as nat, esc) == scan(v@.take(i as int)),
            len <= i,
        decreases v.len() - i,
    {
        let ch = v[i];
        assert(v@.take(i + 1).drop_last() =~= v@.take(i as int));
        if esc {
            if ch == 'm' {
                esc = false;
            }
        } else if ch == '\x1b' {
            esc = true;
        } else {
            len = len + 1;
        }
        i = i + 1;
    }
    assert(v@.take(v.len() as int) =~= v@);
    len
}

/// The texts of the strings, in order.
pub open spec fn views(v: Seq<String>) -> Seq<Seq<char>> {
    Seq::new(v.len(), |k: int| v[k]@)
}

/// The text if there is one, else `d`.
pub open spec fn or_else(o: Option<Seq<char>>, d: Seq<char>) -> Seq<char> {
    match o {
        Some(s) => s,
        None => d,
    }
}

/// Lines each followed by a newline, over a concatenation.
pub proof fn lemma_terminated_concat(a: Seq<Seq<char>>, b: Seq<Seq<char>>)
    ensures
        terminated(a + b) == terminated(a) + terminated(b),
    decreases b.len(),
{
    if b.len() == 0 {
        assert(a + b =~= a);
        assert(terminated(b) =~= Seq::<char>::empty());
        assert(terminated(a) + terminated(b) =~= terminated(a));
    } else {
        let c = b.drop_last();
        let x = b.last();
        lemma_terminated_concat(a, c);
        lemma_terminated_push(a + c, x);
        lemma_terminated_push(c, x);
        assert(a + b =~= (a + c).push(x));
        assert(b =~= c.push(x));
        assert(terminated(a + b) =~= terminated(a) + terminated(b));
    }
}

} // verus!
