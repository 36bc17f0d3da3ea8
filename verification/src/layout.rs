//! Screen layouts: the sprite with the stats panel at its side, and the full
//! Pokédex frame.
use vstd::prelude::*;
use crate::panel::{after_header, bar_spec, build_stats_panel, colored_types, display_name_from_stats, display_name_spec, line_at, make_bar, opt_str_view, parse_stats_text, push_colored_types, split, split_bounds, stat_bar_color, stat_bar_color_spec, stat_label, stat_label_str, stat_values, stats_panel_spec, stats_total, sum};
use crate::text::{or_else, views};
use crate::text::{dec, pad_left, pad_right, push_dec, push_dec_padded, push_str_padded};
use vstd::string::StringSliceAdditionalSpecFns;
use crate::text::{
    chars_of, ends_reset, lines, push_char, push_range, push_rep, push_str, rep, string_of_range,
    vis, visible_len,
};

verus! {

broadcast use vstd::string::group_string_axioms;

// ---------------------------------------------------------------------------
// Art lines
// ---------------------------------------------------------------------------

/// The sprite's rows: art is `"\n[row0]\n[row1]\n...\n[rowN]\x1b[0m\n"`, so
/// the rows are the pieces between the first and the last newline.
pub open spec fn art_lines_of(art: Seq<char>) -> Seq<Seq<char>> {
    let ps = split(art, '\n');
    if ps.len() >= 2 {
        ps.subrange(1, ps.len() - 1)
    } else {
        Seq::empty()
    }
}

/// Widest of the lines, 0 for none.
pub open spec fn max_line_vis(ls: Seq<Seq<char>>) -> nat
    decreases ls.len(),
{
    if ls.len() == 0 {
        0
    } else {
        let m = max_line_vis(ls.drop_last());
        if vis(ls.last()) > m {
            vis(ls.last())
        } else {
            m
        }
    }
}

pub proof fn lemma_max_line_vis(ls: Seq<Seq<char>>, k: int)
    requires
        0 <= k < ls.len(),
    ensures
        vis(ls[k]) <= max_line_vis(ls),
    decreases ls.len(),
{
    if k < ls.len() - 1 {
        lemma_max_line_vis(ls.drop_last(), k);
    }
}

/// `str::trim_end_matches("\x1b[0m")`: every trailing reset removed.
pub open spec fn strip_resets(s: Seq<char>) -> Seq<char>
    decreases s.len(),
{
    if ends_reset(s) {
        strip_resets(s.subrange(0, s.len() - 4))
    } else {
        s
    }
}

/// Line `i`, or nothing past the end.
pub open spec fn get_line(ls: Seq<Seq<char>>, i: int) -> Seq<char> {
    if 0 <= i < ls.len() {
        ls[i]
    } else {
        Seq::empty()
    }
}

/// The rows of `art`, as strings.
pub fn art_lines(art: &str) -> (ls: Vec<String>)
    ensures
        views(ls@) == art_lines_of(art@),
{
    let v = chars_of(art);
    let b = split_bounds(&v, '\n');
    let mut ls: Vec<String> = Vec::new();
    if b.len() < 2 {
        return ls;
    }
    let ghost ps = split(v@, '\n');
    let mut k: usize = 1;
    while k < b.len() - 1
        invariant
            2 <= b@.len(),
            1 <= k <= b@.len() - 1,
            b@.len() == ps.len(),
            ps == split(v@, '\n'),
            v@ == art@,
            forall|j: int|
                0 <= j < b@.len() ==> (#[trigger] b@[j]).0 <= b@[j].1 <= v@.len() && v@.subrange(
                    b@[j].0 as int,
                    b@[j].1 as int,
                ) == ps[j],
            views(ls@) == ps.subrange(1, k as int),
        decreases b.len() - k,
    {
        let (lo, hi) = b[k];
        let ghost before = ls@;
        ls.push(string_of_range(&v, lo, hi));
        assert(views(ls@) =~= views(before).push(ps[k as int]));
        assert(ps.subrange(1, k + 1) =~= ps.subrange(1, k as int).push(ps[k as int]));
        k = k + 1;
    }
    ls
}

/// Widest of the lines.
pub fn max_visible(ls: &Vec<String>) -> (m: usize)
    ensures
        m == max_line_vis(views(ls@)),
{
    let mut m: usize = 0;
    let mut i: usize = 0;
    while i < ls.len()
        invariant
            i <= ls.len(),
            m == max_line_vis(views(ls@).take(i as int)),
        decreases ls.len() - i,
    {
        let n = visible_len(ls[i].as_str());
        assert(views(ls@).take(i + 1).drop_last() =~= views(ls@).take(i as int));
        assert(views(ls@).take(i + 1).last() == ls@[i as int]@);
        if n > m {
            m = n;
        }
        i = i + 1;
    }
    assert(views(ls@).take(i as int) =~= views(ls@));
    m
}

/// Appends `s` without its trailing resets.
fn push_stripped(out: &mut String, s: &str)
    ensures
        final(out)@ == old(out)@ + strip_resets(s@),
{
    let v = chars_of(s);
    let mut hi = v.len();
    proof {
        crate::text::lemma_reset_chars();
        assert(v@.subrange(0, hi as int) =~= v@);
    }
    while hi >= 4 && v[hi - 4] == '\x1b' && v[hi - 3] == '[' && v[hi - 2] == '0' && v[hi - 1] == 'm'
        invariant
            hi <= v.len(),
            "\x1b[0m"@ == seq!['\x1b', '[', '0', 'm'],
            strip_resets(s@) == strip_resets(v@.subrange(0, hi as int)),
            v@ == s@,
        decreases hi,
    {
        let ghost t = v@.subrange(0, hi as int);
        assert(t.subrange(t.len() - 4, t.len() as int) =~= "\x1b[0m"@);
        assert(t.subrange(0, t.len() - 4) =~= v@.subrange(0, hi - 4));
        hi = hi - 4;
    }
    proof {
        let t = v@.subrange(0, hi as int);
        if ends_reset(t) {
            let u = t.subrange(t.len() - 4, t.len() as int);
            assert(u[0] == v@[hi - 4]);
            assert(u[1] == v@[hi - 3]);
            assert(u[2] == v@[hi - 2]);
            assert(u[3] == v@[hi - 1]);
        }
    }
    push_range(out, &v, 0, hi);
}

// ---------------------------------------------------------------------------
// Sprite with side panel
// ---------------------------------------------------------------------------

fn push_info_row(out: &mut String, al: &str, pl: &str, w: usize)
    requires
        vis(al@) <= w,
        w + 3 <= usize::MAX,
    ensures
        final(out)@ == old(out)@ + info_row(al@, pl@, w as nat),
{
    let vis_w = visible_len(al);
    let padding = w + 3 - vis_w;
    push_stripped(out, al);
    push_str(out, "\x1b[0m");
    push_rep(out, ' ', padding);
    push_str(out, pl);
    push_char(out, '\n');
    assert(out@ =~= old(out)@ + info_row(al@, pl@, w as nat));
}

/// Rows above the panel so that it sits vertically centered on the sprite.
pub open spec fn v_offset(art_height: nat, panel_height: nat) -> nat {
    if art_height > panel_height {
        ((art_height - panel_height) as nat / 2) as nat
    } else {
        0
    }
}

/// One output row: the sprite row without its trailing resets, a reset,
/// padding to the widest sprite row plus a gap of 3, then the panel line.
pub open spec fn info_row(al: Seq<char>, pl: Seq<char>, w: nat) -> Seq<char> {
    strip_resets(al) + "\x1b[0m"@ + rep(' ', (w + 3 - vis(al)) as nat) + pl + seq!['\n']
}

/// The first `n` rows of the sprite with the panel beside it.
pub open spec fn info_rows(als: Seq<Seq<char>>, panel: Seq<Seq<char>>, n: nat) -> Seq<char>
    decreases n,
{
    if n == 0 {
        Seq::empty()
    } else {
        let i = n - 1;
        let off = v_offset(als.len(), panel.len());
        let pl = if i >= off {
            get_line(panel, i - off)
        } else {
            Seq::empty()
        };
        info_rows(als, panel, (n - 1) as nat) + info_row(get_line(als, i), pl, max_line_vis(als))
    }
}

pub open spec fn info_total(als: Seq<Seq<char>>, panel: Seq<Seq<char>>) -> nat {
    let t = v_offset(als.len(), panel.len()) + panel.len();
    if als.len() > t {
        als.len()
    } else {
        t
    }
}

/// What `render_with_info` prints: the title line unless suppressed (the
/// display name from the stats, else the slug), then the art; with the info
/// panel asked for and stats present, the sprite's rows side by side with
/// the panel.
pub open spec fn render_with_info_spec(
    name: Seq<char>,
    art: Seq<char>,
    show_info: bool,
    no_title: bool,
    stats_text: Option<Seq<char>>,
) -> Seq<char> {
    let panel = if show_info && stats_text is Some {
        stats_panel_spec(stats_text->0)
    } else {
        Seq::empty()
    };
    let head = if no_title {
        Seq::empty()
    } else {
        display_name_spec(name, stats_text) + seq!['\n']
    };
    if panel.len() == 0 {
        head + art
    } else {
        let als = art_lines_of(art);
        head + info_rows(als, panel, info_total(als, panel))
    }
}

/// The stats text leaves a total that fits in `u32` when a panel is drawn.
pub open spec fn info_stats_ok(show_info: bool, stats_text: Option<Seq<char>>) -> bool {
    show_info && stats_text is Some ==> sum(stat_values(after_header(lines(stats_text->0))))
        <= u32::MAX
}

/// Renders the pokemon art with an optional side stats panel.
///
/// When `show_info` is true and stats are available for this pokemon, the
/// panel is placed to the right of the sprite, vertically centered.
pub fn render_with_info(
    name: &str,
    art: &str,
    show_info: bool,
    no_title: bool,
    stats_text: Option<&str>,
) -> (out: String)
    requires
        info_stats_ok(show_info, opt_str_view(stats_text)),
        max_line_vis(art_lines_of(art@)) + 3 <= usize::MAX,
    ensures
        out@ == render_with_info_spec(name@, art@, show_info, no_title, opt_str_view(stats_text)),
{
    let stats_panel: Vec<String> = if show_info {
        match stats_text {
            Some(t) => build_stats_panel(t),
            None => Vec::new(),
        }
    } else {
        Vec::new()
    };
    let ghost panel = views(stats_panel@);
    assert(panel == (if show_info && opt_str_view(stats_text) is Some {
        stats_panel_spec(opt_str_view(stats_text)->0)
    } else {
        Seq::<Seq<char>>::empty()
    }));
    let title = display_name_from_stats(name, stats_text);
    let mut out = String::new();
    if !no_title {
        push_str(&mut out, title.as_str());
        push_char(&mut out, '\n');
    }
    let ghost head = out@;
    if stats_panel.len() == 0 {
        push_str(&mut out, art);
        return out;
    }
    let als = art_lines(art);
    let max_w = max_visible(&als);
    let art_h = als.len();
    let panel_h = stats_panel.len();
    let v_off = if art_h > panel_h {
        (art_h - panel_h) / 2
    } else {
        0
    };
    let total = if art_h > v_off + panel_h {
        art_h
    } else {
        v_off + panel_h
    };
    let empty = String::new();
    let mut i: usize = 0;
    while i < total
        invariant
            i <= total,
            total == info_total(views(als@), panel),
            v_off == v_offset(views(als@).len(), panel.len()),
            art_h == als@.len(),
            panel_h == stats_panel@.len(),
            panel == views(stats_panel@),
            max_w == max_line_vis(views(als@)),
            max_w + 3 <= usize::MAX,
            empty@ == Seq::<char>::empty(),
            out@ == head + info_rows(views(als@), panel, i as nat),
        decreases total - i,
    {
        let art_line: &String = if i < art_h {
            &als[i]
        } else {
            &empty
        };
        let panel_line: &String = if i >= v_off && i - v_off < panel_h {
            &stats_panel[i - v_off]
        } else {
            &empty
        };
        assert(art_line@ == get_line(views(als@), i as int));
        proof {
            if i < art_h {
                lemma_max_line_vis(views(als@), i as int);
            }
        }
        assert(panel_line@ == (if i >= v_off {
            get_line(panel, i - v_off)
        } else {
            Seq::<char>::empty()
        }));
        push_info_row(&mut out, art_line.as_str(), panel_line.as_str(), max_w);
        assert(out@ =~= head + info_rows(views(als@), panel, (i + 1) as nat));
        i = i + 1;
    }
    out
}

// ---------------------------------------------------------------------------
// Pokédex frame
// ---------------------------------------------------------------------------

/// `a.saturating_sub(b)`.
pub open spec fn sat_sub(a: nat, b: nat) -> nat {
    if a >= b {
        (a - b) as nat
    } else {
        0
    }
}

pub open spec fn nat_max(a: nat, b: nat) -> nat {
    if a >= b {
        a
    } else {
        b
    }
}

/// Width of the sprite cell: the widest row plus two columns on each side.
pub open spec fn dex_left_w(art: Seq<char>) -> nat {
    max_line_vis(art_lines_of(art)) + 4
}

/// Width of the info cell: what the terminal leaves beside the sprite cell
/// and the three frame columns, at least 30.
pub open spec fn dex_right_w(art: Seq<char>, term_w: nat) -> nat {
    nat_max(sat_sub(term_w, dex_left_w(art) + 3), 30)
}

/// Width of a stat bar: the info cell less 13 fixed columns, at least 5.
pub open spec fn dex_bar_w(art: Seq<char>, term_w: nat) -> nat {
    nat_max(sat_sub(dex_right_w(art, term_w), 13), 5)
}

pub open spec fn dex_dex(name: Seq<char>, t: Seq<char>) -> Seq<char> {
    or_else(line_at(lines(t), 0), "#???"@)
}

pub open spec fn dex_display(name: Seq<char>, t: Seq<char>) -> Seq<char> {
    or_else(line_at(lines(t), 1), name)
}

pub open spec fn dex_types(t: Seq<char>) -> Seq<char> {
    or_else(line_at(lines(t), 2), Seq::empty())
}

pub open spec fn dex_vals(t: Seq<char>) -> Seq<u32> {
    stat_values(after_header(lines(t)))
}

/// The row with the dex number on the left and the types on the right.
pub open spec fn dex_number_row(dex: Seq<char>, types: Seq<char>, right_w: nat) -> Seq<char> {
    let tc = colored_types(types);
    "  \x1b[2m"@ + dex + "\x1b[0m"@ + rep(' ', sat_sub(right_w, 2 + vis(dex) + vis(tc) + 2)) + " "@
        + tc + "\x1b[0m "@
}

pub open spec fn dex_stat_row(k: int, val: u32, bar_w: nat) -> Seq<char> {
    "  \x1b[2m"@ + pad_right(stat_label(k), 4) + "\x1b[0m "@ + stat_bar_color_spec(val) + pad_left(
        dec(val as nat),
        3,
        ' ',
    ) + "  "@ + bar_spec(val, 255, bar_w) + "\x1b[0m "@
}

/// Rows of the info cell; `None` is a divider.
pub open spec fn dex_rows(
    dex: Seq<char>,
    display: Seq<char>,
    types: Seq<char>,
    vals: Seq<u32>,
    right_w: nat,
    bar_w: nat,
) -> Seq<Option<Seq<char>>> {
    seq![
        Some("  \x1b[1;97m"@ + display + "\x1b[0m"@),
        Some(dex_number_row(dex, types, right_w)),
        None,
    ] + Seq::new(vals.len(), |k: int| Some(dex_stat_row(k, vals[k], bar_w))) + seq![
        None,
        Some("  \x1b[2mBST\x1b[0m  \x1b[1m"@ + dec(sum(vals)) + "\x1b[0m"@),
    ]
}

/// One body line without its newline: the sprite cell, then the info
/// cell's row (a divider, a text padded to the cell's width, or blank).
pub open spec fn dex_body_line(al: Seq<char>, row: Option<Option<Seq<char>>>, left_w: nat, right_w: nat) -> Seq<char> {
    let left_cell = "  "@ + strip_resets(al) + "\x1b[0m"@ + rep(' ', sat_sub(left_w, 2 + vis(al)));
    match row {
        Some(None) => "\x1b[31;1m║\x1b[0m"@ + left_cell + "\x1b[96m╠\x1b[31;1m"@ + rep('═', right_w) + "╣\x1b[0m"@,
        Some(Some(s)) => "\x1b[31;1m║\x1b[0m"@ + left_cell + "\x1b[96m║\x1b[0m"@ + s + rep(
            ' ',
            sat_sub(right_w, vis(s)),
        ) + "\x1b[31;1m║\x1b[0m"@,
        None => "\x1b[31;1m║\x1b[0m"@ + left_cell + "\x1b[96m║\x1b[0m"@ + rep(' ', right_w)
            + "\x1b[31;1m║\x1b[0m"@,
    }
}

/// One body line with its newline.
pub open spec fn dex_body_row(al: Seq<char>, row: Option<Option<Seq<char>>>, left_w: nat, right_w: nat) -> Seq<char> {
    dex_body_line(al, row, left_w, right_w) + seq!['\n']
}

pub open spec fn get_row(rs: Seq<Option<Seq<char>>>, i: int) -> Option<Option<Seq<char>>> {
    if 0 <= i < rs.len() {
        Some(rs[i])
    } else {
        None
    }
}

pub open spec fn dex_body(als: Seq<Seq<char>>, rs: Seq<Option<Seq<char>>>, left_w: nat, right_w: nat, n: nat) -> Seq<char>
    decreases n,
{
    if n == 0 {
        Seq::empty()
    } else {
        dex_body(als, rs, left_w, right_w, (n - 1) as nat) + dex_body_row(
            get_line(als, n - 1),
            get_row(rs, n - 1),
            left_w,
            right_w,
        )
    }
}

/// Top edge of the frame, `inner` columns between the corners.
pub open spec fn dex_top_line(inner: nat) -> Seq<char> {
    "\x1b[31;1m╔"@ + rep('═', inner) + "╗\x1b[0m"@
}

/// Title line: `[ POKÉDEX ]` on the left, dex number and name on the right.
pub open spec fn dex_title_line(dex: Seq<char>, display: Seq<char>, inner: nat) -> Seq<char> {
    let name_vis = vis(dex) + 3 + vis(display) + 1;
    let hdr_gap = sat_sub(inner, 1 + 11 + 1 + name_vis);
    "\x1b[31;1m║\x1b[0m \x1b[0m\x1b[92;1m[ POKÉDEX ]\x1b[0m "@ + rep(' ', hdr_gap) + "\x1b[0m\x1b[2m"@ + dex
        + "\x1b[0m · \x1b[1m"@ + display + "\x1b[0m \x1b[31;1m║\x1b[0m"@
}

/// The edge under the title, opening the two cells.
pub open spec fn dex_split_line(left_w: nat, right_w: nat) -> Seq<char> {
    "\x1b[31;1m╠"@ + rep('═', left_w) + "\x1b[96m╦\x1b[31;1m"@ + rep('═', right_w) + "╣\x1b[0m"@
}

/// Bottom edge, closing the two cells.
pub open spec fn dex_bottom_line(left_w: nat, right_w: nat) -> Seq<char> {
    "\x1b[31;1m╚"@ + rep('═', left_w) + "\x1b[96m╩\x1b[31;1m"@ + rep('═', right_w) + "╝\x1b[0m"@
}

pub open spec fn dex_header(dex: Seq<char>, display: Seq<char>, left_w: nat, right_w: nat) -> Seq<char> {
    dex_top_line(left_w + 1 + right_w) + seq!['\n'] + dex_title_line(dex, display, left_w + 1 + right_w)
        + seq!['\n'] + dex_split_line(left_w, right_w) + seq!['\n']
}

pub open spec fn dex_footer(left_w: nat, right_w: nat) -> Seq<char> {
    dex_bottom_line(left_w, right_w) + seq!['\n']
}

/// What `render_pokedex` prints: without stats, the name and the art; with
/// them, the full frame: header with title, dex number and name, then the
/// sprite cell beside the info cell row by row, then the bottom edge.
pub open spec fn render_pokedex_spec(name: Seq<char>, art: Seq<char>, stats_text: Option<Seq<char>>, term_w: nat) -> Seq<char> {
    match stats_text {
        None => name + seq!['\n'] + art,
        Some(t) => {
            let als = art_lines_of(art);
            let left_w = dex_left_w(art);
            let right_w = dex_right_w(art, term_w);
            let rs = dex_rows(
                dex_dex(name, t),
                dex_display(name, t),
                dex_types(t),
                dex_vals(t),
                right_w,
                dex_bar_w(art, term_w),
            );
            dex_header(dex_dex(name, t), dex_display(name, t), left_w, right_w) + dex_body(
                als,
                rs,
                left_w,
                right_w,
                nat_max(als.len(), rs.len()),
            ) + dex_footer(left_w, right_w)
        },
    }
}

/// The sums the frame layout computes stay within `usize`, and the stat
/// total within `u32`.
pub open spec fn pokedex_fits(name: Seq<char>, art: Seq<char>, t: Seq<char>, term_w: nat) -> bool {
    let left_w = dex_left_w(art);
    let right_w = dex_right_w(art, term_w);
    &&& left_w + 3 <= usize::MAX
    &&& 2 + vis(dex_dex(name, t)) + vis(colored_types(dex_types(t))) + 2 <= usize::MAX
    &&& left_w + 1 + right_w <= usize::MAX
    &&& 1 + 11 + 1 + vis(dex_dex(name, t)) + 3 + vis(dex_display(name, t)) + 1 <= usize::MAX
    &&& sum(dex_vals(t)) <= u32::MAX
}

pub open spec fn opt_rows_view(v: Seq<Option<String>>) -> Seq<Option<Seq<char>>> {
    Seq::new(
        v.len(),
        |k: int|
            match v[k] {
                Some(s) => Some(s@),
                None => None,
            },
    )
}

/// The info cell's rows.
fn dex_info_rows(
    dex: &str,
    display: &str,
    types: &str,
    vals: &Vec<u32>,
    bst: u32,
    right_w: usize,
    bar_w: usize,
) -> (rs: Vec<Option<String>>)
    requires
        bst == sum(vals@),
        2 + vis(dex@) + vis(colored_types(types@)) + 2 <= usize::MAX,
    ensures
        opt_rows_view(rs@) == dex_rows(dex@, display@, types@, vals@, right_w as nat, bar_w as nat),
{
    let mut rs: Vec<Option<String>> = Vec::new();
    let mut r0 = String::new();
    push_str(&mut r0, "  \x1b[1;97m");
    push_str(&mut r0, display);
    push_str(&mut r0, "\x1b[0m");
    rs.push(Some(r0));
    let mut tc = String::new();
    push_colored_types(&mut tc, types);
    let types_vis = visible_len(tc.as_str());
    let left_vis = 2 + visible_len(dex);
    let gap = if right_w >= left_vis + types_vis + 2 {
        right_w - (left_vis + types_vis + 2)
    } else {
        0
    };
    let mut r1 = String::new();
    push_str(&mut r1, "  \x1b[2m");
    push_str(&mut r1, dex);
    push_str(&mut r1, "\x1b[0m");
    push_rep(&mut r1, ' ', gap);
    push_str(&mut r1, " ");
    push_str(&mut r1, tc.as_str());
    push_str(&mut r1, "\x1b[0m ");
    assert(r1@ =~= dex_number_row(dex@, types@, right_w as nat));
    rs.push(Some(r1));
    rs.push(None);
    let ghost first = seq![
        Some("  \x1b[1;97m"@ + display@ + "\x1b[0m"@),
        Some(dex_number_row(dex@, types@, right_w as nat)),
        None,
    ];
    assert(opt_rows_view(rs@) =~= first);
    let mut i: usize = 0;
    while i < vals.len()
        invariant
            i <= vals.len(),
            opt_rows_view(rs@) == first + Seq::new(i as nat, |k: int| Some(dex_stat_row(k, vals@[k], bar_w as nat))),
        decreases vals.len() - i,
    {
        let val = vals[i];
        let mut r = String::new();
        push_str(&mut r, "  \x1b[2m");
        push_str_padded(&mut r, stat_label_str(i), 4);
        push_str(&mut r, "\x1b[0m ");
        push_str(&mut r, stat_bar_color(val));
        push_dec_padded(&mut r, val as u64, 3, ' ');
        push_str(&mut r, "  ");
        let bar = make_bar(val, 255, bar_w);
        push_str(&mut r, bar.as_str());
        push_str(&mut r, "\x1b[0m ");
        assert(r@ =~= dex_stat_row(i as int, val, bar_w as nat));
        let ghost before = rs@;
        rs.push(Some(r));
        assert(opt_rows_view(rs@) =~= opt_rows_view(before).push(Some(dex_stat_row(i as int, val, bar_w as nat))));
        assert(opt_rows_view(rs@) =~= first + Seq::new((i + 1) as nat, |k: int| Some(dex_stat_row(k, vals@[k], bar_w as nat))));
        i = i + 1;
    }
    let ghost before = rs@;
    rs.push(None);
    let mut b = String::new();
    push_str(&mut b, "  \x1b[2mBST\x1b[0m  \x1b[1m");
    push_dec(&mut b, bst as u64);
    push_str(&mut b, "\x1b[0m");
    rs.push(Some(b));
    assert(opt_rows_view(rs@) =~= opt_rows_view(before) + seq![None, Some("  \x1b[2mBST\x1b[0m  \x1b[1m"@ + dec(sum(vals@)) + "\x1b[0m"@)]);
    assert(opt_rows_view(rs@) =~= dex_rows(dex@, display@, types@, vals@, right_w as nat, bar_w as nat));
    rs
}

fn push_dex_body_row(out: &mut String, al: &str, row: Option<&Option<String>>, left_w: usize, right_w: usize)
    requires
        vis(al@) + 2 <= usize::MAX,
    ensures
        final(out)@ == old(out)@ + dex_body_row(
            al@,
            match row {
                Some(Some(s)) => Some(Some(s@)),
                Some(None) => Some(None),
                None => None,
            },
            left_w as nat,
            right_w as nat,
        ),
{
    let art_vis = visible_len(al);
    let r_pad = if left_w >= 2 + art_vis {
        left_w - (2 + art_vis)
    } else {
        0
    };
    let mut cell = String::new();
    push_str(&mut cell, "  ");
    push_stripped(&mut cell, al);
    push_str(&mut cell, "\x1b[0m");
    push_rep(&mut cell, ' ', r_pad);
    let ghost rv = match row {
        Some(Some(s)) => Some(Some(s@)),
        Some(None) => Some(None),
        None => None,
    };
    let ghost lc = "  "@ + strip_resets(al@) + "\x1b[0m"@ + rep(' ', sat_sub(left_w as nat, 2 + vis(al@)));
    assert(cell@ =~= lc);
    let mut line = String::new();
    push_str(&mut line, "\x1b[31;1m║\x1b[0m");
    push_str(&mut line, cell.as_str());
    let ghost mid = line@;
    match row {
        Some(None) => {
            push_str(&mut line, "\x1b[96m╠\x1b[31;1m");
            push_rep(&mut line, '═', right_w);
            push_str(&mut line, "╣\x1b[0m");
            assert(line@ =~= mid + "\x1b[96m╠\x1b[31;1m"@ + rep('═', right_w as nat) + "╣\x1b[0m"@);
        },
        Some(Some(s)) => {
            let n = visible_len(s.as_str());
            let rpad = if right_w >= n {
                right_w - n
            } else {
                0
            };
            push_str(&mut line, "\x1b[96m║\x1b[0m");
            push_str(&mut line, s.as_str());
            push_rep(&mut line, ' ', rpad);
            push_str(&mut line, "\x1b[31;1m║\x1b[0m");
            assert(line@ =~= mid + "\x1b[96m║\x1b[0m"@ + s@ + rep(' ', sat_sub(right_w as nat, vis(s@)))
                + "\x1b[31;1m║\x1b[0m"@);
        },
        None => {
            push_str(&mut line, "\x1b[96m║\x1b[0m");
            push_rep(&mut line, ' ', right_w);
            push_str(&mut line, "\x1b[31;1m║\x1b[0m");
            assert(line@ =~= mid + "\x1b[96m║\x1b[0m"@ + rep(' ', right_w as nat) + "\x1b[31;1m║\x1b[0m"@);
        },
    }
    assert(line@ =~= dex_body_line(al@, rv, left_w as nat, right_w as nat));
    push_str(out, line.as_str());
    push_char(out, '\n');
    assert(out@ =~= old(out)@ + dex_body_row(al@, rv, left_w as nat, right_w as nat));
}

fn push_dex_header(out: &mut String, dex: &str, display: &str, left_w: usize, right_w: usize)
    requires
        left_w + 1 + right_w <= usize::MAX,
        1 + 11 + 1 + vis(dex@) + 3 + vis(display@) + 1 <= usize::MAX,
    ensures
        final(out)@ == old(out)@ + dex_header(dex@, display@, left_w as nat, right_w as nat),
{
    let total_inner = left_w + 1 + right_w;
    let name_vis = visible_len(dex) + 3 + visible_len(display) + 1;
    let hdr_gap = if total_inner >= 1 + 11 + 1 + name_vis {
        total_inner - (1 + 11 + 1 + name_vis)
    } else {
        0
    };
    let mut top = String::new();
    push_str(&mut top, "\x1b[31;1m╔");
    push_rep(&mut top, '═', total_inner);
    push_str(&mut top, "╗\x1b[0m");
    assert(top@ =~= dex_top_line(total_inner as nat));
    let mut title = String::new();
    push_str(&mut title, "\x1b[31;1m║\x1b[0m \x1b[0m\x1b[92;1m[ POKÉDEX ]\x1b[0m ");
    push_rep(&mut title, ' ', hdr_gap);
    push_str(&mut title, "\x1b[0m\x1b[2m");
    push_str(&mut title, dex);
    push_str(&mut title, "\x1b[0m · \x1b[1m");
    push_str(&mut title, display);
    push_str(&mut title, "\x1b[0m \x1b[31;1m║\x1b[0m");
    assert(title@ =~= dex_title_line(dex@, display@, total_inner as nat));
    let mut split_line = String::new();
    push_str(&mut split_line, "\x1b[31;1m╠");
    push_rep(&mut split_line, '═', left_w);
    push_str(&mut split_line, "\x1b[96m╦\x1b[31;1m");
    push_rep(&mut split_line, '═', right_w);
    push_str(&mut split_line, "╣\x1b[0m");
    assert(split_line@ =~= dex_split_line(left_w as nat, right_w as nat));
    push_str(out, top.as_str());
    push_char(out, '\n');
    push_str(out, title.as_str());
    push_char(out, '\n');
    push_str(out, split_line.as_str());
    push_char(out, '\n');
    assert(out@ =~= old(out)@ + dex_header(dex@, display@, left_w as nat, right_w as nat));
}

fn push_dex_body(out: &mut String, als: &Vec<String>, rs: &Vec<Option<String>>, left_w: usize, right_w: usize)
    requires
        max_line_vis(views(als@)) + 4 == left_w,
        left_w + 3 <= usize::MAX,
    ensures
        final(out)@ == old(out)@ + dex_body(
            views(als@),
            opt_rows_view(rs@),
            left_w as nat,
            right_w as nat,
            nat_max(views(als@).len(), opt_rows_view(rs@).len()),
        ),
{
    let ghost head = old(out)@;
    let total_rows = if als.len() > rs.len() {
        als.len()
    } else {
        rs.len()
    };
    let empty = String::new();
    let mut i: usize = 0;
    while i < total_rows
        invariant
            i <= total_rows,
            total_rows == nat_max(views(als@).len(), opt_rows_view(rs@).len()),
            empty@ == Seq::<char>::empty(),
            max_line_vis(views(als@)) + 4 == left_w,
            left_w + 3 <= usize::MAX,
            head == old(out)@,
            out@ == head + dex_body(views(als@), opt_rows_view(rs@), left_w as nat, right_w as nat, i as nat),
        decreases total_rows - i,
    {
        let art_line: &String = if i < als.len() {
            &als[i]
        } else {
            &empty
        };
        assert(art_line@ == get_line(views(als@), i as int));
        proof {
            if i < als.len() {
                lemma_max_line_vis(views(als@), i as int);
            }
        }
        let row: Option<&Option<String>> = if i < rs.len() {
            Some(&rs[i])
        } else {
            None
        };
        assert((match row {
            Some(Some(s)) => Some(Some(s@)),
            Some(None) => Some(None),
            None => None,
        }) == get_row(opt_rows_view(rs@), i as int));
        push_dex_body_row(out, art_line.as_str(), row, left_w, right_w);
        assert(out@ =~= head + dex_body(views(als@), opt_rows_view(rs@), left_w as nat, right_w as nat, (i + 1) as nat));
        i = i + 1;
    }
}

fn push_dex_footer(out: &mut String, left_w: usize, right_w: usize)
    ensures
        final(out)@ == old(out)@ + dex_footer(left_w as nat, right_w as nat),
{
    push_str(out, "\x1b[31;1m╚");
    push_rep(out, '═', left_w);
    push_str(out, "\x1b[96m╩\x1b[31;1m");
    push_rep(out, '═', right_w);
    push_str(out, "╝\x1b[0m");
    push_char(out, '\n');
    assert(out@ =~= old(out)@ + dex_footer(left_w as nat, right_w as nat));
}

/// Sprite cell, info cell and bar widths.
fn dex_widths(art: &str, als: &Vec<String>, term_w: usize) -> (r: (usize, usize, usize))
    requires
        views(als@) == art_lines_of(art@),
        dex_left_w(art@) + 3 <= usize::MAX,
    ensures
        r.0 == dex_left_w(art@),
        r.1 == dex_right_w(art@, term_w as nat),
        r.2 == dex_bar_w(art@, term_w as nat),
{
    let max_art_w = max_visible(als);
    let left_w = max_art_w + 4;
    let right_w = if term_w >= left_w + 3 && term_w - (left_w + 3) > 30 {
        term_w - (left_w + 3)
    } else {
        30
    };
    let bar_w = if right_w >= 13 && right_w - 13 > 5 {
        right_w - 13
    } else {
        5
    };
    (left_w, right_w, bar_w)
}

/// Full-frame Pokédex view: sprite on the left, info panel on the right.
/// The right panel expands to fill the terminal width `term_w`.
pub fn render_pokedex(name: &str, art: &str, stats_text: Option<&str>, term_w: usize) -> (out: String)
    requires
        stats_text matches Some(t) ==> pokedex_fits(name@, art@, t@, term_w as nat),
    ensures
        out@ == render_pokedex_spec(name@, art@, opt_str_view(stats_text), term_w as nat),
{
    let t = match stats_text {
        Some(t) => t,
        None => {
            let mut out = String::new();
            push_str(&mut out, name);
            push_char(&mut out, '\n');
            push_str(&mut out, art);
            return out;
        },
    };
    let sheet = parse_stats_text(t);
    let dex = match &sheet.dex_num {
        Some(s) => s.clone(),
        None => String::from_str("#???"),
    };
    let display = match &sheet.display_name {
        Some(s) => s.clone(),
        None => String::from_str(name),
    };
    let types = match &sheet.types_raw {
        Some(s) => s.clone(),
        None => String::new(),
    };
    assert(dex@ == dex_dex(name@, t@));
    assert(display@ == dex_display(name@, t@));
    assert(types@ == dex_types(t@));
    let bst = match stats_total(&sheet.values) {
        Some(b) => b,
        None => 0,
    };
    let als = art_lines(art);
    let (left_w, right_w, bar_w) = dex_widths(art, &als, term_w);
    let rs = dex_info_rows(dex.as_str(), display.as_str(), types.as_str(), &sheet.values, bst, right_w, bar_w);
    let mut out = String::new();
    push_dex_header(&mut out, dex.as_str(), display.as_str(), left_w, right_w);
    push_dex_body(&mut out, &als, &rs, left_w, right_w);
    push_dex_footer(&mut out, left_w, right_w);
    out
}

} // verus!
