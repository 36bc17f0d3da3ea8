//! The stats sheet (the text format of a Pokemon's base stats) and the boxed
//! side panel drawn from it.
use vstd::prelude::*;
use crate::text::{or_else};
use crate::text::{views};
use crate::text::{
    chars_of, dec, ends_reset, find_char_from, find_char_in, lemma_ends_reset_concat,
    lemma_next_char_bounds, lemma_vis_reset_suffix, line_bounds, lines, next_char, pad_left,
    pad_right, parse_u32, parse_u32_at, push_dec_padded, push_rep, push_str, push_str_padded, rep,
    str_eq, string_of_range, trim, trim_bounds, vis, visible_len,
};

verus! {

broadcast use vstd::string::group_string_axioms;

// ---------------------------------------------------------------------------
// Colors
// ---------------------------------------------------------------------------

/// ANSI color of each Pokemon type name.
pub open spec fn type_color_spec(t: Seq<char>) -> Seq<char> {
    if t == "Normal"@ {
        "\x1b[37m"@
    } else if t == "Fire"@ {
        "\x1b[38;5;202m"@
    } else if t == "Water"@ {
        "\x1b[34;1m"@
    } else if t == "Electric"@ {
        "\x1b[33;1m"@
    } else if t == "Grass"@ {
        "\x1b[32;1m"@
    } else if t == "Ice"@ {
        "\x1b[96m"@
    } else if t == "Fighting"@ {
        "\x1b[31;1m"@
    } else if t == "Poison"@ {
        "\x1b[35m"@
    } else if t == "Ground"@ {
        "\x1b[33m"@
    } else if t == "Flying"@ {
        "\x1b[94m"@
    } else if t == "Psychic"@ {
        "\x1b[35;1m"@
    } else if t == "Bug"@ {
        "\x1b[32m"@
    } else if t == "Rock"@ {
        "\x1b[33;2m"@
    } else if t == "Ghost"@ {
        "\x1b[35;2m"@
    } else if t == "Dragon"@ {
        "\x1b[34;1m"@
    } else if t == "Dark"@ {
        "\x1b[90;1m"@
    } else if t == "Steel"@ {
        "\x1b[37;1m"@
    } else if t == "Fairy"@ {
        "\x1b[95m"@
    } else {
        "\x1b[37m"@
    }
}

/// Returns an ANSI color code matching a Pokemon type name.
pub fn type_color(t: &str) -> (c: &'static str)
    ensures
        c@ == type_color_spec(t@),
{
    if str_eq(t, "Normal") {
        "\x1b[37m"
    } else if str_eq(t, "Fire") {
        "\x1b[38;5;202m"
    } else if str_eq(t, "Water") {
        "\x1b[34;1m"
    } else if str_eq(t, "Electric") {
        "\x1b[33;1m"
    } else if str_eq(t, "Grass") {
        "\x1b[32;1m"
    } else if str_eq(t, "Ice") {
        "\x1b[96m"
    } else if str_eq(t, "Fighting") {
        "\x1b[31;1m"
    } else if str_eq(t, "Poison") {
        "\x1b[35m"
    } else if str_eq(t, "Ground") {
        "\x1b[33m"
    } else if str_eq(t, "Flying") {
        "\x1b[94m"
    } else if str_eq(t, "Psychic") {
        "\x1b[35;1m"
    } else if str_eq(t, "Bug") {
        "\x1b[32m"
    } else if str_eq(t, "Rock") {
        "\x1b[33;2m"
    } else if str_eq(t, "Ghost") {
        "\x1b[35;2m"
    } else if str_eq(t, "Dragon") {
        "\x1b[34;1m"
    } else if str_eq(t, "Dark") {
        "\x1b[90;1m"
    } else if str_eq(t, "Steel") {
        "\x1b[37;1m"
    } else if str_eq(t, "Fairy") {
        "\x1b[95m"
    } else {
        "\x1b[37m"
    }
}

/// Color of a stat bar by the stat's magnitude: red below 50, yellow below
/// 80, green below 110, bright green from there on.
pub open spec fn stat_bar_color_spec(val: u32) -> Seq<char> {
    if val < 50 {
        "\x1b[31m"@
    } else if val < 80 {
        "\x1b[33m"@
    } else if val < 110 {
        "\x1b[32m"@
    } else {
        "\x1b[92m"@
    }
}

/// Returns a color for a stat bar based on the stat's magnitude.
pub fn stat_bar_color(val: u32) -> (c: &'static str)
    ensures
        c@ == stat_bar_color_spec(val),
{
    if val < 50 {
        "\x1b[31m"
    } else if val < 80 {
        "\x1b[33m"
    } else if val < 110 {
        "\x1b[32m"
    } else {
        "\x1b[92m"
    }
}

// ---------------------------------------------------------------------------
// Bars
// ---------------------------------------------------------------------------

/// Number of filled cells: `val / max * width` rounded half away from zero,
/// at most `width`; with `max == 0` the ratio is infinite (all filled) for a
/// positive `val` and undefined (nothing filled) for zero.
pub open spec fn bar_filled(val: u32, max: u32, width: nat) -> nat {
    if max == 0 {
        if val > 0 {
            width
        } else {
            0
        }
    } else {
        let r = ((2 * val * width + max) / (2 * max)) as nat;
        if r < width {
            r
        } else {
            width
        }
    }
}

pub open spec fn bar_spec(val: u32, max: u32, width: nat) -> Seq<char> {
    rep('█', bar_filled(val, max, width)) + rep('░', (width - bar_filled(val, max, width)) as nat)
}

/// Builds a proportional bar of `width` characters using `█` / `░`.
pub fn make_bar(val: u32, max: u32, width: usize) -> (bar: String)
    ensures
        bar@ == bar_spec(val, max, width as nat),
{
    let filled: usize = if max == 0 {
        if val > 0 {
            width
        } else {
            0
        }
    } else {
        let v2: u128 = 2 * (val as u128);
        assert(v2 <= 0x2_0000_0000);
        assert(v2 * (width as u128) <= 0x2_0000_0000 * 0x1_0000_0000_0000_0000) by (nonlinear_arith)
            requires
                v2 <= 0x2_0000_0000,
                width <= 0xffff_ffff_ffff_ffff,
        ;
        let r: u128 = (v2 * (width as u128) + (max as u128)) / (2 * (max as u128));
        if r < width as u128 {
            r as usize
        } else {
            width
        }
    };
    let mut bar = String::new();
    push_rep(&mut bar, '█', filled);
    push_rep(&mut bar, '░', width - filled);
    bar
}

// ---------------------------------------------------------------------------
// The stats sheet
// ---------------------------------------------------------------------------

/// The value on a stat line: the text after the first `:`, trimmed and read
/// as a `u32`.
pub open spec fn line_stat(l: Seq<char>) -> Option<u32> {
    let c = next_char(l, ':', 0);
    if c < l.len() {
        parse_u32(trim(l.subrange(c + 1, l.len() as int)))
    } else {
        None
    }
}

/// The values read from stat lines, in order; lines without a value are
/// passed over.
pub open spec fn stat_values(ls: Seq<Seq<char>>) -> Seq<u32>
    decreases ls.len(),
{
    if ls.len() == 0 {
        Seq::empty()
    } else {
        let prev = stat_values(ls.drop_last());
        match line_stat(ls.last()) {
            Some(v) => prev.push(v),
            None => prev,
        }
    }
}

pub open spec fn line_at(ls: Seq<Seq<char>>, k: int) -> Option<Seq<char>> {
    if 0 <= k < ls.len() {
        Some(ls[k])
    } else {
        None
    }
}

pub open spec fn opt_view(o: Option<String>) -> Option<Seq<char>> {
    match o {
        Some(s) => Some(s@),
        None => None,
    }
}

pub open spec fn sum(vs: Seq<u32>) -> nat
    decreases vs.len(),
{
    if vs.len() == 0 {
        0
    } else {
        sum(vs.drop_last()) + (vs.last() as nat)
    }
}

/// The lines after the first three.
pub open spec fn after_header(ls: Seq<Seq<char>>) -> Seq<Seq<char>> {
    if ls.len() >= 3 {
        ls.skip(3)
    } else {
        Seq::empty()
    }
}

/// A stats sheet as read: its first three lines (dex number, display name,
/// types) where present, and the stat values of the lines after them.
pub struct StatsSheet {
    pub dex_num: Option<String>,
    pub display_name: Option<String>,
    pub types_raw: Option<String>,
    pub values: Vec<u32>,
}

impl StatsSheet {
    /// The sheet read from `text`.
    pub open spec fn reads(self, text: Seq<char>) -> bool {
        &&& opt_view(self.dex_num) == line_at(lines(text), 0)
        &&& opt_view(self.display_name) == line_at(lines(text), 1)
        &&& opt_view(self.types_raw) == line_at(lines(text), 2)
        &&& self.values@ == stat_values(after_header(lines(text)))
    }
}

/// Reads a stats sheet: line 1 is the dex number, line 2 the display name,
/// line 3 the types, and each later line of the form `Label:value` gives one
/// stat.
pub fn parse_stats_text(text: &str) -> (sheet: StatsSheet)
    ensures
        sheet.reads(text@),
{
    let v = chars_of(text);
    let b = line_bounds(&v);
    let ghost ls = lines(v@);
    let dex_num = if b.len() > 0 {
        Some(string_of_range(&v, b[0].0, b[0].1))
    } else {
        None
    };
    let display_name = if b.len() > 1 {
        Some(string_of_range(&v, b[1].0, b[1].1))
    } else {
        None
    };
    let types_raw = if b.len() > 2 {
        Some(string_of_range(&v, b[2].0, b[2].1))
    } else {
        None
    };
    let mut values: Vec<u32> = Vec::new();
    let mut k: usize = 3;
    if b.len() < 3 {
        k = b.len();
    }
    assert(ls.skip(k as int).take(0) =~= Seq::<Seq<char>>::empty());
    let ghost k0 = k;
    while k < b.len()
        invariant
            k0 <= k <= b.len(),
            b@.len() == ls.len(),
            ls == lines(v@),
            v@ == text@,
            forall|j: int|
                0 <= j < b@.len() ==> (#[trigger] b@[j]).0 <= b@[j].1 <= v@.len()
                    && v@.subrange(b@[j].0 as int, b@[j].1 as int) == ls[j],
            values@ == stat_values(ls.skip(k0 as int).take(k - k0)),
        decreases b.len() - k,
    {
        let (lo, hi) = b[k];
        let ghost line = ls[k as int];
        assert(v@.subrange(lo as int, hi as int) == line);
        let c = find_char_in(&v, ':', lo, hi);
        let ghost old_values = values@;
        let mut got: Option<u32> = None;
        if c < hi {
            let (a, z) = trim_bounds(&v, c + 1, hi);
            assert(line.subrange(c - lo + 1, line.len() as int) =~= v@.subrange(c + 1, hi as int));
            got = parse_u32_at(&v, a, z);
        }
        assert(got == line_stat(line));
        match got {
            Some(x) => values.push(x),
            None => {},
        }
        assert(ls.skip(k0 as int).take(k + 1 - k0).drop_last() =~= ls.skip(k0 as int).take(
            k - k0,
        ));
        assert(ls.skip(k0 as int).take(k + 1 - k0).last() == line);
        k = k + 1;
    }
    assert(ls.skip(k0 as int).take(k - k0) =~= after_header(ls));
    StatsSheet { dex_num, display_name, types_raw, values }
}

/// Sum of the stat values, or `None` when it does not fit in a `u32`.
pub fn stats_total(values: &Vec<u32>) -> (r: Option<u32>)
    ensures
        r matches Some(t) ==> t == sum(values@),
        r is None ==> sum(values@) > u32::MAX,
{
    let mut t: u32 = 0;
    let mut i: usize = 0;
    while i < values.len()
        invariant
            i <= values.len(),
            t == sum(values@.take(i as int)),
        decreases values.len() - i,
    {
        assert(values@.take(i + 1).drop_last() =~= values@.take(i as int));
        if t > u32::MAX - values[i] {
            proof {
                lemma_sum_prefix(values@, i + 1);
            }
            return None;
        }
        t = t + values[i];
        i = i + 1;
    }
    assert(values@.take(i as int) =~= values@);
    Some(t)
}

proof fn lemma_sum_prefix(vs: Seq<u32>, k: int)
    requires
        0 <= k <= vs.len(),
    ensures
        sum(vs.take(k)) <= sum(vs),
    decreases vs.len() - k,
{
    if k < vs.len() {
        lemma_sum_prefix(vs, k + 1);
        assert(vs.take(k + 1).drop_last() =~= vs.take(k));
    } else {
        assert(vs.take(k) =~= vs);
    }
}

// ---------------------------------------------------------------------------
// Types row
// ---------------------------------------------------------------------------

/// `str::split` on one separator character: the pieces between separators,
/// from index `i` on.
pub open spec fn split_from(s: Seq<char>, c: char, i: int) -> Seq<Seq<char>>
    decreases s.len() + 1 - i,
{
    if i < 0 || i > s.len() {
        Seq::empty()
    } else {
        let e = next_char(s, c, i);
        proof {
            lemma_next_char_bounds(s, c, i);
        }
        if e >= s.len() {
            seq![s.subrange(i, s.len() as int)]
        } else {
            seq![s.subrange(i, e)] + split_from(s, c, e + 1)
        }
    }
}

pub open spec fn split(s: Seq<char>, c: char) -> Seq<Seq<char>> {
    split_from(s, c, 0)
}

/// Bounds of each piece of `v` split on `c`, as `str::split` yields them.
pub fn split_bounds(v: &Vec<char>, c: char) -> (r: Vec<(usize, usize)>)
    ensures
        r@.len() == split(v@, c).len(),
        forall|k: int|
            0 <= k < r@.len() ==> (#[trigger] r@[k]).0 <= r@[k].1 <= v@.len() && v@.subrange(
                r@[k].0 as int,
                r@[k].1 as int,
            ) == split(v@, c)[k],
{
    let ghost ps = split(v@, c);
    let mut r: Vec<(usize, usize)> = Vec::new();
    let mut i: usize = 0;
    proof {
        lemma_split_len(v@, c, 0);
    }
    loop
        invariant
            ps == split(v@, c),
            i <= v.len(),
            r@.len() <= ps.len(),
            ps.skip(r@.len() as int) == split_from(v@, c, i as int),
            forall|k: int|
                0 <= k < r@.len() ==> (#[trigger] r@[k]).0 <= r@[k].1 <= v@.len() && v@.subrange(
                    r@[k].0 as int,
                    r@[k].1 as int,
                ) == ps[k],
            split_from(v@, c, i as int).len() <= v@.len() + 1 - i,
            ps.len() <= v@.len() + 1,
        decreases v.len() - i,
    {
        let e = find_char_from(v, c, i);
        proof {
            lemma_next_char_bounds(v@, c, i as int);
            assert(ps.skip(r@.len() as int)[0] == ps[r@.len() as int]);
        }
        let ghost k = r@.len();
        r.push((i, e));
        if e >= v.len() {
            assert(ps.skip(k as int).len() == 1);
            return r;
        }
        proof {
            lemma_split_nonempty(v@, c, e + 1);
            lemma_split_len(v@, c, e + 1);
            assert(split_from(v@, c, i as int) == seq![v@.subrange(i as int, e as int)] + split_from(v@, c, e + 1));
        }
        assert(ps.skip(k + 1int) =~= ps.skip(k as int).drop_first());
        i = e + 1;
    }
}

/// One colored type: separator (none before the first), the type's color,
/// the trimmed name, a reset.
pub open spec fn colored_type(k: int, t: Seq<char>) -> Seq<char> {
    (if k == 0 {
        Seq::<char>::empty()
    } else {
        " / "@
    }) + type_color_spec(trim(t)) + trim(t) + "\x1b[0m"@
}

pub open spec fn colored_types_upto(ps: Seq<Seq<char>>, n: int) -> Seq<char>
    decreases n,
{
    if n <= 0 {
        Seq::empty()
    } else {
        colored_types_upto(ps, n - 1) + colored_type(n - 1, ps[n - 1])
    }
}

/// `"Fire/Flying"` with every type in its color, separated by `" / "`.
pub open spec fn colored_types(types_raw: Seq<char>) -> Seq<char> {
    colored_types_upto(split(types_raw, '/'), split(types_raw, '/').len() as int)
}

/// Appends the colored form of `t` (see `colored_types`).
pub fn push_colored_types(out: &mut String, t: &str)
    ensures
        final(out)@ == old(out)@ + colored_types(t@),
{
    let v = chars_of(t);
    let ghost ps = split(v@, '/');
    let mut i: usize = 0;
    let mut k: usize = 0;
    let ghost start = old(out)@;
    proof {
        lemma_split_len(v@, '/', 0);
        lemma_split_nonempty(v@, '/', 0);
    }
    assert(ps.skip(0) =~= ps);
    loop
        invariant
            v@ == t@,
            ps == split(v@, '/'),
            i <= v.len(),
            k < ps.len(),
            ps.skip(k as int) == split_from(v@, '/', i as int),
            split_from(v@, '/', i as int).len() <= v@.len() + 1 - i,
            ps.len() <= v@.len() + 1,
            start == old(out)@,
            out@ == start + colored_types_upto(ps, k as int),
        decreases v.len() - i,
    {
        let e = find_char_from(&v, '/', i);
        proof {
            lemma_next_char_bounds(v@, '/', i as int);
        }
        let ghost piece = v@.subrange(i as int, e as int);
        assert(ps[k as int] == piece) by {
            assert(ps.skip(k as int)[0] == ps[k as int]);
        }
        assert(colored_types_upto(ps, k + 1) == colored_types_upto(ps, k as int) + colored_type(
            k as int,
            ps[k as int],
        ));
        let (a, z) = trim_bounds(&v, i, e);
        let name = string_of_range(&v, a, z);
        if k > 0 {
            push_str(out, " / ");
        }
        push_str(out, type_color(name.as_str()));
        push_str(out, name.as_str());
        push_str(out, "\x1b[0m");
        assert(out@ =~= start + colored_types_upto(ps, k as int) + colored_type(k as int, piece));
        if e >= v.len() {
            assert(ps.skip(k as int).len() == 1);
            assert(ps.len() == k + 1);
            assert(out@ =~= start + colored_types_upto(ps, k + 1));
            assert(colored_types(t@) == colored_types_upto(ps, k + 1));
            assert(start == old(out)@);
            return;
        }
        proof {
            lemma_split_nonempty(v@, '/', e + 1);
            lemma_split_len(v@, '/', e + 1);
            assert(split_from(v@, '/', i as int) == seq![piece] + split_from(v@, '/', e + 1));
        }
        assert(ps.skip(k as int + 1) =~= ps.skip(k as int).drop_first());
        k = k + 1;
        i = e + 1;
    }
}

// ---------------------------------------------------------------------------
// The side panel
// ---------------------------------------------------------------------------

/// Label of the `k`-th stat line.
pub open spec fn stat_label(k: int) -> Seq<char> {
    if k == 0 {
        "HP"@
    } else if k == 1 {
        "Atk"@
    } else if k == 2 {
        "Def"@
    } else if k == 3 {
        "SpA"@
    } else if k == 4 {
        "SpD"@
    } else if k == 5 {
        "Spe"@
    } else {
        "???"@
    }
}

pub fn stat_label_str(k: usize) -> (l: &'static str)
    ensures
        l@ == stat_label(k as int),
{
    if k == 0 {
        "HP"
    } else if k == 1 {
        "Atk"
    } else if k == 2 {
        "Def"
    } else if k == 3 {
        "SpA"
    } else if k == 4 {
        "SpD"
    } else if k == 5 {
        "Spe"
    } else {
        "???"
    }
}

/// Header row: dimmed dex number, bold display name.
pub open spec fn panel_header(dex: Seq<char>, name: Seq<char>) -> Seq<char> {
    " \x1b[2m"@ + dex + "\x1b[0m · \x1b[1m"@ + name + "\x1b[0m"@
}

/// Row of the `k`-th stat: dimmed label, colored value and bar.
pub open spec fn panel_stat_row(k: int, val: u32) -> Seq<char> {
    " \x1b[2m"@ + pad_right(stat_label(k), 4) + "\x1b[0m"@ + stat_bar_color_spec(val) + pad_left(
        dec(val as nat),
        3,
        ' ',
    ) + "  "@ + bar_spec(val, 255, 15) + "\x1b[0m"@
}

pub open spec fn panel_bst_row(bst: nat) -> Seq<char> {
    " \x1b[2mBST\x1b[0m \x1b[1m"@ + pad_left(dec(bst), 3, ' ') + "\x1b[0m"@
}

/// The content rows of the panel; `None` stands for a separator.
pub open spec fn panel_rows(dex: Seq<char>, name: Seq<char>, types: Seq<char>, vals: Seq<u32>) -> Seq<
    Option<Seq<char>>,
> {
    seq![Some(panel_header(dex, name)), Some(" "@ + colored_types(types)), None] + Seq::new(
        vals.len(),
        |k: int| Some(panel_stat_row(k, vals[k])),
    ) + seq![None, Some(panel_bst_row(sum(vals)))]
}

/// Largest width among the text rows.
pub open spec fn max_vis(rows: Seq<Option<Seq<char>>>) -> nat
    decreases rows.len(),
{
    if rows.len() == 0 {
        0
    } else {
        let m = max_vis(rows.drop_last());
        match rows.last() {
            Some(s) => if vis(s) > m {
                vis(s)
            } else {
                m
            },
            None => m,
        }
    }
}

pub open spec fn panel_top(w: nat) -> Seq<char> {
    "\x1b[1;37m╔"@ + rep('═', w) + "╗\x1b[0m"@
}

pub open spec fn panel_mid(w: nat) -> Seq<char> {
    "\x1b[1;37m╠"@ + rep('═', w) + "╣\x1b[0m"@
}

pub open spec fn panel_bot(w: nat) -> Seq<char> {
    "\x1b[1;37m╚"@ + rep('═', w) + "╝\x1b[0m"@
}

pub open spec fn panel_line(w: nat, row: Option<Seq<char>>) -> Seq<char> {
    match row {
        None => panel_mid(w),
        Some(s) => "\x1b[1;37m║\x1b[0m"@ + s + rep(' ', (w - vis(s)) as nat) + "\x1b[1;37m║\x1b[0m"@,
    }
}

/// The whole panel drawn around `rows` with inner width `w`.
pub open spec fn boxed(w: nat, rows: Seq<Option<Seq<char>>>) -> Seq<Seq<char>> {
    seq![panel_top(w)] + Seq::new(rows.len(), |k: int| panel_line(w, rows[k])) + seq![panel_bot(w)]
}

/// The panel lines for a stats text: header, types, stats and total framed
/// in a double-line box one column wider than the widest row.
pub open spec fn stats_panel_spec(text: Seq<char>) -> Seq<Seq<char>> {
    let ls = lines(text);
    let rows = panel_rows(
        or_else(line_at(ls, 0), "#???"@),
        or_else(line_at(ls, 1), "???"@),
        or_else(line_at(ls, 2), Seq::empty()),
        stat_values(after_header(ls)),
    );
    boxed(max_vis(rows) + 1, rows)
}

/// A row of the panel before framing.
enum Row {
    Text(String),
    Sep,
}

spec fn row_view(r: Row) -> Option<Seq<char>> {
    match r {
        Row::Text(s) => Some(s@),
        Row::Sep => None,
    }
}

spec fn rows_view(rs: Seq<Row>) -> Seq<Option<Seq<char>>> {
    Seq::new(rs.len(), |k: int| row_view(rs[k]))
}

/// Every text row ends with a reset.
pub open spec fn rows_end_reset(rows: Seq<Option<Seq<char>>>) -> bool {
    forall|k: int| 0 <= k < rows.len() ==> ((#[trigger] rows[k]) matches Some(s) ==> ends_reset(s))
}

/// Widest text row, plus one.
fn inner_width(rows: &Vec<Row>) -> (w: usize)
    requires
        rows_end_reset(rows_view(rows@)),
    ensures
        w == max_vis(rows_view(rows@)) + 1,
{
    let mut m: usize = 0;
    let mut i: usize = 0;
    while i < rows.len()
        invariant
            i <= rows.len(),
            m == max_vis(rows_view(rows@).take(i as int)),
            rows_end_reset(rows_view(rows@)),
            m < usize::MAX,
        decreases rows.len() - i,
    {
        assert(rows_view(rows@).take(i + 1).drop_last() =~= rows_view(rows@).take(i as int));
        assert(rows_view(rows@).take(i + 1).last() == rows_view(rows@)[i as int]);
        match &rows[i] {
            Row::Text(s) => {
                assert(rows_view(rows@)[i as int] == Some(s@));
                let n = visible_len(s.as_str());
                let len = s.as_str().unicode_len();
                proof {
                    lemma_vis_reset_suffix(s@);
                }
                assert(n + 4 <= len);
                if n > m {
                    m = n;
                }
            },
            Row::Sep => {},
        }
        i = i + 1;
    }
    assert(rows_view(rows@).take(i as int) =~= rows_view(rows@));
    m + 1
}

/// Every text row is at most `max_vis` wide.
pub proof fn lemma_max_vis_bound(rows: Seq<Option<Seq<char>>>, k: int)
    requires
        0 <= k < rows.len(),
        rows[k] is Some,
    ensures
        vis(rows[k]->0) <= max_vis(rows),
    decreases rows.len(),
{
    if k < rows.len() - 1 {
        lemma_max_vis_bound(rows.drop_last(), k);
    }
}

/// Frames `rows` into panel lines of inner width `w`.
fn frame_rows(rows: &Vec<Row>, w: usize) -> (panel: Vec<String>)
    requires
        forall|k: int| 0 <= k < rows@.len() ==> ((#[trigger] rows_view(rows@)[k]) matches Some(s) ==> vis(s) <= w),
    ensures
        views(panel@) == boxed(w as nat, rows_view(rows@)),
{
    let mut panel: Vec<String> = Vec::new();
    let mut top = String::new();
    push_str(&mut top, "\x1b[1;37m╔");
    push_rep(&mut top, '═', w);
    push_str(&mut top, "╗\x1b[0m");
    panel.push(top);
    assert(views(panel@) =~= seq![panel_top(w as nat)] + Seq::new(
        0nat,
        |k: int| panel_line(w as nat, rows_view(rows@)[k]),
    ));
    let mut i: usize = 0;
    while i < rows.len()
        invariant
            i <= rows.len(),
            forall|k: int| 0 <= k < rows@.len() ==> ((#[trigger] rows_view(rows@)[k]) matches Some(s) ==> vis(s) <= w),
            views(panel@) == seq![panel_top(w as nat)] + Seq::new(
                i as nat,
                |k: int| panel_line(w as nat, rows_view(rows@)[k]),
            ),
        decreases rows.len() - i,
    {
        let ghost old_panel = panel@;
        let mut line = String::new();
        match &rows[i] {
            Row::Sep => {
                push_str(&mut line, "\x1b[1;37m╠");
                push_rep(&mut line, '═', w);
                push_str(&mut line, "╣\x1b[0m");
            },
            Row::Text(s) => {
                assert(rows_view(rows@)[i as int] == Some(s@));
                let n = visible_len(s.as_str());
                push_str(&mut line, "\x1b[1;37m║\x1b[0m");
                push_str(&mut line, s.as_str());
                push_rep(&mut line, ' ', w - n);
                push_str(&mut line, "\x1b[1;37m║\x1b[0m");
            },
        }
        assert(line@ =~= panel_line(w as nat, rows_view(rows@)[i as int]));
        panel.push(line);
        assert(views(panel@) =~= views(old_panel).push(line@));
        assert(views(panel@) =~= seq![panel_top(w as nat)] + Seq::new(
            (i + 1) as nat,
            |k: int| panel_line(w as nat, rows_view(rows@)[k]),
        ));
        i = i + 1;
    }
    let mut bot = String::new();
    push_str(&mut bot, "\x1b[1;37m╚");
    push_rep(&mut bot, '═', w);
    push_str(&mut bot, "╝\x1b[0m");
    let ghost before = panel@;
    panel.push(bot);
    assert(views(panel@) =~= views(before).push(panel_bot(w as nat)));
    assert(views(panel@) =~= boxed(w as nat, rows_view(rows@)));
    panel
}

/// Builds the stats panel lines from the embedded stats text.
///
/// Uses double-line box-drawing characters and ANSI colors; the width adapts
/// to the longest content line.
pub fn build_stats_panel(stats_text: &str) -> (panel: Vec<String>)
    requires
        sum(stat_values(after_header(lines(stats_text@)))) <= u32::MAX,
    ensures
        views(panel@) == stats_panel_spec(stats_text@),
{
    let sheet = parse_stats_text(stats_text);
    let dex = match &sheet.dex_num {
        Some(s) => s.clone(),
        None => String::from_str("#???"),
    };
    let name = match &sheet.display_name {
        Some(s) => s.clone(),
        None => String::from_str("???"),
    };
    let types = match &sheet.types_raw {
        Some(s) => s.clone(),
        None => String::new(),
    };
    let bst = match stats_total(&sheet.values) {
        Some(t) => t,
        None => 0,
    };
    let ghost ls = lines(stats_text@);
    assert(dex@ == or_else(line_at(ls, 0), "#???"@));
    assert(name@ == or_else(line_at(ls, 1), "???"@));
    assert(types@ == or_else(line_at(ls, 2), Seq::empty()));
    let rows = panel_content_rows(dex.as_str(), name.as_str(), types.as_str(), &sheet.values, bst);
    let ghost rv = rows_view(rows@);
    proof {
        assert forall|k: int| 0 <= k < rows@.len() implies ((#[trigger] rows_view(rows@)[k]) matches Some(s) ==> vis(s) <= max_vis(rv) + 1) by {
            if rv[k] is Some {
                lemma_max_vis_bound(rv, k);
            }
        }
    }
    let w = inner_width(&rows);
    frame_rows(&rows, w)
}

/// The content rows, before framing.
fn panel_content_rows(dex: &str, name: &str, types: &str, vals: &Vec<u32>, bst: u32) -> (rows: Vec<Row>)
    requires
        bst == sum(vals@),
    ensures
        rows_view(rows@) == panel_rows(dex@, name@, types@, vals@),
        rows_end_reset(rows_view(rows@)),
{
    let mut rows: Vec<Row> = Vec::new();
    let mut h = String::new();
    push_str(&mut h, " \x1b[2m");
    push_str(&mut h, dex);
    push_str(&mut h, "\x1b[0m · \x1b[1m");
    push_str(&mut h, name);
    push_str(&mut h, "\x1b[0m");
    rows.push(Row::Text(h));
    let mut t = String::new();
    push_str(&mut t, " ");
    push_colored_types(&mut t, types);
    rows.push(Row::Text(t));
    rows.push(Row::Sep);
    let mut i: usize = 0;
    while i < vals.len()
        invariant
            i <= vals.len(),
            rows_view(rows@) == seq![Some(panel_header(dex@, name@)), Some(" "@ + colored_types(types@)), None]
                + Seq::new(i as nat, |k: int| Some(panel_stat_row(k, vals@[k]))),
        decreases vals.len() - i,
    {
        let val = vals[i];
        let mut r = String::new();
        push_str(&mut r, " \x1b[2m");
        push_str_padded(&mut r, stat_label_str(i), 4);
        push_str(&mut r, "\x1b[0m");
        push_str(&mut r, stat_bar_color(val));
        push_dec_padded(&mut r, val as u64, 3, ' ');
        push_str(&mut r, "  ");
        let bar = make_bar(val, 255, 15);
        push_str(&mut r, bar.as_str());
        push_str(&mut r, "\x1b[0m");
        assert(r@ =~= panel_stat_row(i as int, val));
        let ghost before = rows@;
        rows.push(Row::Text(r));
        assert(rows_view(rows@) =~= rows_view(before).push(Some(panel_stat_row(i as int, val))));
        assert(rows_view(rows@) =~= seq![Some(panel_header(dex@, name@)), Some(" "@ + colored_types(types@)), None]
            + Seq::new((i + 1) as nat, |k: int| Some(panel_stat_row(k, vals@[k]))));
        i = i + 1;
    }
    rows.push(Row::Sep);
    let mut b = String::new();
    push_str(&mut b, " \x1b[2mBST\x1b[0m \x1b[1m");
    push_dec_padded(&mut b, bst as u64, 3, ' ');
    push_str(&mut b, "\x1b[0m");
    rows.push(Row::Text(b));
    assert(rows_view(rows@) =~= panel_rows(dex@, name@, types@, vals@));
    proof {
        lemma_panel_rows_end_reset(dex@, name@, types@, vals@);
    }
    rows
}

pub proof fn lemma_panel_rows_end_reset(dex: Seq<char>, name: Seq<char>, types: Seq<char>, vals: Seq<u32>)
    ensures
        rows_end_reset(panel_rows(dex, name, types, vals)),
{
    let rows = panel_rows(dex, name, types, vals);
    assert forall|k: int| 0 <= k < rows.len() implies ((#[trigger] rows[k]) matches Some(s) ==> ends_reset(s)) by {
        if k == 0 {
            lemma_ends_reset_concat(" \x1b[2m"@ + dex + "\x1b[0m · \x1b[1m"@ + name);
        } else if k == 1 {
            lemma_colored_types_ends_reset(types);
            let c = colored_types(types);
            assert((" "@ + c).subrange((" "@ + c).len() - 4, (" "@ + c).len() as int) =~= c.subrange(c.len() - 4, c.len() as int));
        } else if 3 <= k < 3 + vals.len() {
            let v = vals[k - 3];
            lemma_ends_reset_concat(" \x1b[2m"@ + pad_right(stat_label(k - 3), 4) + "\x1b[0m"@ + stat_bar_color_spec(v) + pad_left(
                dec(v as nat), 3, ' ') + "  "@ + bar_spec(v, 255, 15));
        } else if k == rows.len() - 1 {
            lemma_ends_reset_concat(" \x1b[2mBST\x1b[0m \x1b[1m"@ + pad_left(dec(sum(vals)), 3, ' '));
        }
    }
}

pub proof fn lemma_colored_types_ends_reset(types: Seq<char>)
    ensures
        ends_reset(colored_types(types)),
{
    lemma_split_nonempty(types, '/', 0);
    let ps = split(types, '/');
    let n = ps.len() as int;
    let t = trim(ps[n - 1]);
    lemma_ends_reset_concat(colored_types_upto(ps, n - 1) + (if n - 1 == 0 {
        Seq::<char>::empty()
    } else {
        " / "@
    }) + type_color_spec(t) + t);
    assert(colored_types_upto(ps, n) =~= colored_types_upto(ps, n - 1) + (if n - 1 == 0 {
        Seq::<char>::empty()
    } else {
        " / "@
    }) + type_color_spec(t) + t + "\x1b[0m"@);
}

pub proof fn lemma_split_len(s: Seq<char>, c: char, i: int)
    requires
        0 <= i <= s.len(),
    ensures
        split_from(s, c, i).len() <= s.len() + 1 - i,
    decreases s.len() + 1 - i,
{
    lemma_next_char_bounds(s, c, i);
    let e = next_char(s, c, i);
    if e < s.len() {
        lemma_split_len(s, c, e + 1);
    }
}

pub proof fn lemma_split_nonempty(s: Seq<char>, c: char, i: int)
    requires
        0 <= i <= s.len(),
    ensures
        split_from(s, c, i).len() >= 1,
    decreases s.len() + 1 - i,
{
    lemma_next_char_bounds(s, c, i);
    let e = next_char(s, c, i);
    if e < s.len() {
        lemma_split_nonempty(s, c, e + 1);
    }
}

/// Extracts the display name (line 2) from embedded stats text, falling back
/// to the slug `name` if stats are not available or the line is empty.
pub open spec fn display_name_spec(name: Seq<char>, stats_text: Option<Seq<char>>) -> Seq<char> {
    match stats_text {
        Some(t) => if lines(t).len() > 1 && lines(t)[1].len() > 0 {
            lines(t)[1]
        } else {
            name
        },
        None => name,
    }
}

pub open spec fn opt_str_view(o: Option<&str>) -> Option<Seq<char>> {
    match o {
        Some(s) => Some(s@),
        None => None,
    }
}

pub fn display_name_from_stats(name: &str, stats_text: Option<&str>) -> (r: String)
    ensures
        r@ == display_name_spec(name@, opt_str_view(stats_text)),
{
    match stats_text {
        Some(t) => {
            let v = chars_of(t);
            let b = line_bounds(&v);
            if b.len() > 1 && b[1].0 < b[1].1 {
                return string_of_range(&v, b[1].0, b[1].1);
            }
            String::from_str(name)
        },
        None => String::from_str(name),
    }
}

} // verus!
