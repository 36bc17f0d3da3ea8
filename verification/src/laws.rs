//! Properties that tie several parts of the library together.
use vstd::prelude::*;
use crate::panel::{after_header, boxed, lemma_max_vis_bound, lemma_panel_rows_end_reset, line_at, line_stat, max_vis, panel_bot, panel_line, panel_rows, panel_top, stat_values, stats_panel_spec};
use crate::text::{or_else};
use crate::text::{
    closed, ends_reset, is_escape, lemma_piece_concat, lemma_piece_escape, lemma_piece_plain,
    lemma_piece_rep, lemma_vis_reset_suffix, piece, vis,
};
use crate::ansi::{
    art_row, art_rows, art_spec, bg_code, cell, fg_code, row_cells, text_rows, Pen, Rgb,
};
use crate::layout::{art_lines_of, max_line_vis};
use crate::panel::{split, split_from, type_color_spec};
use crate::sprite::Rgba;
use crate::cli::{generation_range_spec, random_index_spec};
use crate::layout::strip_resets;
use crate::scrape::{is_pokemon_slug, slug_candidates, slug_prefix, unique_slugs};
use crate::scrape::{join, listed_names, nameslist_spec, sheet_lines, stats_sheet_text};
use crate::text::{
    lines_from, find_from, clean_line, dec, is_digit, is_ws, lemma_dec_facts, lemma_lines_terminated, lines, next_char,
    pad_left, parse_u32, rep, terminated, trim, trim_end, trim_start, unsigned_body,
};

verus! {

proof fn lemma_next_char_at(s: Seq<char>, c: char, e: int)
    requires
        0 <= e < s.len(),
        s[e] == c,
        forall|j: int| 0 <= j < e ==> s[j] != c,
    ensures
        next_char(s, c, 0) == e,
{
    lemma_next_char_from(s, c, 0, e);
}

proof fn lemma_next_char_from(s: Seq<char>, c: char, i: int, e: int)
    requires
        0 <= i <= e < s.len(),
        s[e] == c,
        forall|j: int| i <= j < e ==> s[j] != c,
    ensures
        next_char(s, c, i) == e,
    decreases e - i,
{
    if i < e {
        lemma_next_char_from(s, c, i + 1, e);
    }
}

/// Trimming leaves text that starts and ends with non-whitespace unchanged.
pub proof fn lemma_trim_noop(s: Seq<char>)
    requires
        s.len() > 0,
        !is_ws(s[0]),
        !is_ws(s.last()),
    ensures
        trim(s) == s,
{
}

/// Decimal notation reads back as its number.
pub proof fn lemma_parse_dec(v: u32)
    ensures
        parse_u32(trim(dec(v as nat))) == Some(v),
{
    lemma_dec_facts(v as nat);
    let d = dec(v as nat);
    assert(is_digit(d[0]));
    assert(is_digit(d.last()));
    lemma_trim_noop(d);
    assert(unsigned_body(d) == d);
}

/// A `label:value` line gives its value back.
pub proof fn lemma_stat_line(label: Seq<char>, v: u32)
    requires
        !label.contains(':'),
    ensures
        line_stat(label + seq![':'] + dec(v as nat)) == Some(v),
{
    let l = label + seq![':'] + dec(v as nat);
    assert forall|j: int| 0 <= j < label.len() implies l[j] != ':' by {
        assert(l[j] == label[j]);
    }
    lemma_next_char_at(l, ':', label.len() as int);
    assert(l.subrange(label.len() + 1int, l.len() as int) =~= dec(v as nat));
    lemma_parse_dec(v);
}

proof fn lemma_clean_number_line(lead: Seq<char>, d: Seq<char>)
    requires
        !lead.contains('\n'),
        d.len() > 0,
        forall|i: int| 0 <= i < d.len() ==> d[i] != '\n' && d[i] != '\r',
    ensures
        clean_line(lead + d),
{
    let l = lead + d;
    assert forall|i: int| 0 <= i < l.len() implies l[i] != '\n' by {
        if i < lead.len() {
            assert(l[i] == lead[i]);
        } else {
            assert(l[i] == d[i - lead.len()]);
        }
    }
    assert(l.last() == d.last());
}

proof fn lemma_sheet_clean(num: nat, name: Seq<char>, types: Seq<Seq<char>>, st: Seq<u32>)
    requires
        st.len() == 6,
        clean_line(name),
        clean_line(join(types, seq!['/'])),
    ensures
        forall|k: int|
            0 <= k < sheet_lines(num, name, types, st).len() ==> clean_line(
                #[trigger] sheet_lines(num, name, types, st)[k],
            ),
{
    let ls = sheet_lines(num, name, types, st);
    lemma_number_line_clean(num);
    lemma_dec_facts(st[0] as nat);
    lemma_dec_facts(st[1] as nat);
    lemma_dec_facts(st[2] as nat);
    lemma_dec_facts(st[3] as nat);
    lemma_dec_facts(st[4] as nat);
    lemma_dec_facts(st[5] as nat);
    lemma_clean_number_line(seq!['H', 'P', ':'], dec(st[0] as nat));
    lemma_clean_number_line(seq!['A', 't', 'k', ':'], dec(st[1] as nat));
    lemma_clean_number_line(seq!['D', 'e', 'f', ':'], dec(st[2] as nat));
    lemma_clean_number_line(seq!['S', 'p', 'A', ':'], dec(st[3] as nat));
    lemma_clean_number_line(seq!['S', 'p', 'D', ':'], dec(st[4] as nat));
    lemma_clean_number_line(seq!['S', 'p', 'e', ':'], dec(st[5] as nat));
}

/// The dex number line of a sheet is a clean line.
proof fn lemma_number_line_clean(num: nat)
    ensures
        clean_line(seq!['#'] + pad_left(dec(num), 3, '0')),
{
    lemma_dec_facts(num);
    let zeros = if dec(num).len() >= 3 {
        Seq::<char>::empty()
    } else {
        rep('0', (3 - dec(num).len()) as nat)
    };
    assert(pad_left(dec(num), 3, '0') =~= zeros + dec(num));
    assert(!(seq!['#'] + zeros).contains('\n')) by {
        assert forall|i: int| 0 <= i < (seq!['#'] + zeros).len() implies (seq!['#'] + zeros)[i] != '\n' by {
            if i > 0 {
                assert((seq!['#'] + zeros)[i] == zeros[i - 1]);
            }
        }
    }
    lemma_clean_number_line(seq!['#'] + zeros, dec(num));
    assert(seq!['#'] + pad_left(dec(num), 3, '0') =~= (seq!['#'] + zeros) + dec(num));
}

proof fn lemma_sheet_stats(num: nat, name: Seq<char>, types: Seq<Seq<char>>, st: Seq<u32>)
    requires
        st.len() == 6,
    ensures
        stat_values(after_header(sheet_lines(num, name, types, st))) == st,
{
    let ls = sheet_lines(num, name, types, st);
    lemma_stat_line(seq!['H', 'P'], st[0]);
    lemma_stat_line(seq!['A', 't', 'k'], st[1]);
    lemma_stat_line(seq!['D', 'e', 'f'], st[2]);
    lemma_stat_line(seq!['S', 'p', 'A'], st[3]);
    lemma_stat_line(seq!['S', 'p', 'D'], st[4]);
    lemma_stat_line(seq!['S', 'p', 'e'], st[5]);
    assert(seq!['H', 'P'] + seq![':'] + dec(st[0] as nat) =~= ls[3]);
    assert(seq!['A', 't', 'k'] + seq![':'] + dec(st[1] as nat) =~= ls[4]);
    assert(seq!['D', 'e', 'f'] + seq![':'] + dec(st[2] as nat) =~= ls[5]);
    assert(seq!['S', 'p', 'A'] + seq![':'] + dec(st[3] as nat) =~= ls[6]);
    assert(seq!['S', 'p', 'D'] + seq![':'] + dec(st[4] as nat) =~= ls[7]);
    assert(seq!['S', 'p', 'e'] + seq![':'] + dec(st[5] as nat) =~= ls[8]);
    let tail = ls.skip(3);
    assert(tail =~= seq![ls[3], ls[4], ls[5], ls[6], ls[7], ls[8]]);
    let t5 = tail.drop_last();
    let t4 = t5.drop_last();
    let t3 = t4.drop_last();
    let t2 = t3.drop_last();
    let t1 = t2.drop_last();
    assert(t1 =~= seq![ls[3]]);
    assert(t1.drop_last() =~= Seq::<Seq<char>>::empty());
    assert(stat_values(t1.drop_last()) =~= Seq::<u32>::empty());
    assert(line_stat(t1.last()) == Some(st[0]));
    assert(stat_values(t1) =~= seq![st[0]]);
    assert(line_stat(t2.last()) == Some(st[1]));
    assert(line_stat(t3.last()) == Some(st[2]));
    assert(line_stat(t4.last()) == Some(st[3]));
    assert(line_stat(t5.last()) == Some(st[4]));
    assert(line_stat(tail.last()) == Some(st[5]));
    assert(stat_values(t2) =~= seq![st[0], st[1]]);
    assert(stat_values(t3) =~= seq![st[0], st[1], st[2]]);
    assert(stat_values(t4) =~= seq![st[0], st[1], st[2], st[3]]);
    assert(stat_values(t5) =~= seq![st[0], st[1], st[2], st[3], st[4]]);
    assert(stat_values(tail) =~= st);
}

/// A stats sheet as `fetch_pokemon_stats` writes it reads back, line by line,
/// as `build_stats_panel` and `render_pokedex` read it: the dex number, the
/// display name, the joined types, and the six stats in order.
pub proof fn law_stats_sheet_read_back(num: nat, name: Seq<char>, types: Seq<Seq<char>>, st: Seq<u32>)
    requires
        st.len() == 6,
        clean_line(name),
        clean_line(join(types, seq!['/'])),
    ensures
        lines(stats_sheet_text(num, name, types, st)).len() == 9,
        line_at(lines(stats_sheet_text(num, name, types, st)), 0) == Some(
            seq!['#'] + pad_left(dec(num), 3, '0'),
        ),
        line_at(lines(stats_sheet_text(num, name, types, st)), 1) == Some(name),
        line_at(lines(stats_sheet_text(num, name, types, st)), 2) == Some(join(types, seq!['/'])),
        stat_values(after_header(lines(stats_sheet_text(num, name, types, st)))) == st,
{
    let ls = sheet_lines(num, name, types, st);
    lemma_sheet_clean(num, name, types, st);
    lemma_lines_terminated(Seq::empty(), ls);
    assert(Seq::<char>::empty() + terminated(ls) =~= terminated(ls));
    lemma_sheet_stats(num, name, types, st);
}

/// The title the viewer prints for a sheet that `fetch_pokemon_stats` wrote
/// is the display name the sheet was written with, whatever the slug and
/// whatever the other lines hold, when that name is a non-empty line.
pub proof fn law_display_name_read_back(
    num: nat,
    name: Seq<char>,
    types: Seq<Seq<char>>,
    st: Seq<u32>,
    slug: Seq<char>,
)
    requires
        st.len() == 6,
        name.len() > 0,
        clean_line(name),
    ensures
        crate::panel::display_name_spec(slug, Some(stats_sheet_text(num, name, types, st))) == name,
{
    let ls = sheet_lines(num, name, types, st);
    let head = seq![ls[0], name];
    let tail = ls.subrange(2, 9);
    assert(ls =~= head + tail);
    crate::text::lemma_terminated_concat(head, tail);
    lemma_number_line_clean(num);
    assert forall|k: int| 0 <= k < head.len() implies clean_line(#[trigger] head[k]) by {}
    let p = Seq::<char>::empty();
    crate::text::lemma_lines_prefix(p, head, terminated(tail));
    assert(p + terminated(head) + terminated(tail) =~= stats_sheet_text(num, name, types, st));
    let more = lines_from(p + terminated(head) + terminated(tail), (p + terminated(head)).len() as int);
    assert(lines(stats_sheet_text(num, name, types, st)) == head + more);
    assert((head + more)[1] == name);
}

/// The stats panel drawn from a sheet that `fetch_pokemon_stats` wrote
/// shows what the sheet was written from: the dex number and name in the
/// header, the types, the six stats in order and their total, boxed in
/// thirteen lines.
pub proof fn law_sheet_panel(num: nat, name: Seq<char>, types: Seq<Seq<char>>, st: Seq<u32>)
    requires
        st.len() == 6,
        clean_line(name),
        clean_line(join(types, seq!['/'])),
    ensures
        stats_panel_spec(stats_sheet_text(num, name, types, st)) == boxed(
            max_vis(panel_rows(seq!['#'] + pad_left(dec(num), 3, '0'), name, join(types, seq!['/']), st)) + 1,
            panel_rows(seq!['#'] + pad_left(dec(num), 3, '0'), name, join(types, seq!['/']), st),
        ),
        stats_panel_spec(stats_sheet_text(num, name, types, st)).len() == 13,
{
    law_stats_sheet_read_back(num, name, types, st);
}

proof fn lemma_join_terminated(ns: Seq<Seq<char>>)
    requires
        ns.len() >= 1,
    ensures
        join(ns, seq!['\n']) + seq!['\n'] == terminated(ns),
    decreases ns.len(),
{
    if ns.len() == 1 {
        assert(ns.drop_first() =~= Seq::<Seq<char>>::empty());
        assert(terminated(ns.drop_first()) =~= Seq::<char>::empty());
        assert(terminated(ns) =~= ns[0] + seq!['\n']);
    } else {
        lemma_join_terminated(ns.drop_last());
        crate::text::lemma_terminated_push(ns.drop_last(), ns.last());
        assert(ns.drop_last().push(ns.last()) =~= ns);
        assert(join(ns, seq!['\n']) + seq!['\n'] =~= (join(ns.drop_last(), seq!['\n']) + seq!['\n'])
            + ns.last() + seq!['\n']);
    }
}

proof fn lemma_listed_names_clean(ns: Seq<Seq<char>>)
    requires
        forall|k: int| 0 <= k < ns.len() ==> (#[trigger] ns[k]).len() > 0 && trim(ns[k]) == ns[k],
    ensures
        listed_names(ns) == ns,
    decreases ns.len(),
{
    if ns.len() > 0 {
        assert forall|k: int| 0 <= k < ns.drop_last().len() implies (#[trigger] ns.drop_last()[k]).len()
            > 0 && trim(ns.drop_last()[k]) == ns.drop_last()[k] by {
            assert(ns.drop_last()[k] == ns[k]);
        }
        lemma_listed_names_clean(ns.drop_last());
        assert(ns.drop_last().push(ns.last()) =~= ns);
    }
}

/// The names list that `update-names` writes reads back, by the reading that
/// `scrape` and `scrape-one` make of it, as the same names in the same order.
pub proof fn law_nameslist_read_back(names: Seq<Seq<char>>)
    requires
        forall|k: int|
            0 <= k < names.len() ==> clean_line(#[trigger] names[k]) && names[k].len() > 0 && trim(
                names[k],
            ) == names[k],
    ensures
        listed_names(lines(nameslist_spec(names))) == names,
{
    if names.len() == 0 {
        let t = nameslist_spec(names);
        assert(t =~= seq!['\n']);
        let one = seq![Seq::<char>::empty()];
        assert(terminated(one) =~= seq!['\n']) by {
            assert(one.drop_first() =~= Seq::<Seq<char>>::empty());
            assert(terminated(one.drop_first()) =~= Seq::<char>::empty());
            assert(terminated(one) == one[0] + seq!['\n'] + terminated(one.drop_first()));
        }
        assert(clean_line(Seq::<char>::empty()));
        lemma_lines_terminated(Seq::empty(), seq![Seq::<char>::empty()]);
        assert(Seq::<char>::empty() + terminated(seq![Seq::<char>::empty()]) =~= t);
        let ls = lines(t);
        assert(ls == seq![Seq::<char>::empty()]);
        assert(ls.drop_last() =~= Seq::<Seq<char>>::empty());
        let e = Seq::<char>::empty();
        assert(trim_start(e) == e);
        assert(trim_end(e) == e);
        assert(trim(ls.last()) == e);
        assert(listed_names(ls.drop_last()) =~= Seq::<Seq<char>>::empty());
        assert(listed_names(ls) =~= names);
    } else {
        lemma_join_terminated(names);
        lemma_lines_terminated(Seq::empty(), names);
        assert(Seq::<char>::empty() + terminated(names) =~= terminated(names));
        lemma_listed_names_clean(names);
    }
}

/// `ESC [ 1 ; 3 7 m`, the bold-white frame color.
spec fn frame_color() -> Seq<char> {
    seq!['\x1b', '[', '1', ';', '3', '7', 'm']
}

spec fn reset() -> Seq<char> {
    seq!['\x1b', '[', '0', 'm']
}

proof fn lemma_frame_pieces()
    ensures
        piece(frame_color(), 0),
        piece(reset(), 0),
{
    lemma_piece_escape(frame_color());
    lemma_piece_escape(reset());
}

/// A frame color, one box character, a reset: one column.
proof fn lemma_framed_char(c: char)
    requires
        c != '\x1b',
    ensures
        piece(frame_color() + seq![c], 1),
        piece(seq![c] + reset(), 1),
        piece(frame_color() + seq![c] + reset(), 1),
{
    lemma_frame_pieces();
    lemma_piece_plain(seq![c]);
    lemma_piece_concat(frame_color(), 0, seq![c], 1);
    lemma_piece_concat(seq![c], 1, reset(), 0);
    lemma_piece_concat(frame_color() + seq![c], 1, reset(), 0);
}

proof fn lemma_edge(left: Seq<char>, right: Seq<char>, lc: char, rc: char, w: nat)
    requires
        left == frame_color() + seq![lc],
        right == seq![rc] + reset(),
        lc != '\x1b',
        rc != '\x1b',
    ensures
        piece(left + rep('═', w) + right, w + 2),
{
    lemma_framed_char(lc);
    lemma_framed_char(rc);
    lemma_piece_rep('═', w);
    lemma_piece_concat(left, 1, rep('═', w), w);
    lemma_piece_concat(left + rep('═', w), 1 + w, right, 1);
}

/// Every line of a framed panel is `w + 2` columns wide when every text row
/// is closed and at most `w` wide.
proof fn lemma_boxed_aligned(w: nat, rows: Seq<Option<Seq<char>>>)
    requires
        forall|k: int| 0 <= k < rows.len() ==> ((#[trigger] rows[k]) matches Some(s) ==> closed(s) && vis(s) <= w),
    ensures
        forall|k: int| 0 <= k < boxed(w, rows).len() ==> vis(#[trigger] boxed(w, rows)[k]) == w + 2,
{
    reveal_strlit("\x1b[1;37m╔");
    reveal_strlit("╗\x1b[0m");
    reveal_strlit("\x1b[1;37m╠");
    reveal_strlit("╣\x1b[0m");
    reveal_strlit("\x1b[1;37m╚");
    reveal_strlit("╝\x1b[0m");
    reveal_strlit("\x1b[1;37m║\x1b[0m");
    assert("\x1b[1;37m╔"@ =~= frame_color() + seq!['╔']);
    assert("╗\x1b[0m"@ =~= seq!['╗'] + reset());
    assert("\x1b[1;37m╠"@ =~= frame_color() + seq!['╠']);
    assert("╣\x1b[0m"@ =~= seq!['╣'] + reset());
    assert("\x1b[1;37m╚"@ =~= frame_color() + seq!['╚']);
    assert("╝\x1b[0m"@ =~= seq!['╝'] + reset());
    assert("\x1b[1;37m║\x1b[0m"@ =~= frame_color() + seq!['║'] + reset());
    lemma_edge("\x1b[1;37m╔"@, "╗\x1b[0m"@, '╔', '╗', w);
    lemma_edge("\x1b[1;37m╠"@, "╣\x1b[0m"@, '╠', '╣', w);
    lemma_edge("\x1b[1;37m╚"@, "╝\x1b[0m"@, '╚', '╝', w);
    lemma_framed_char('║');
    let side = "\x1b[1;37m║\x1b[0m"@;
    let b = boxed(w, rows);
    assert forall|k: int| 0 <= k < b.len() implies vis(#[trigger] b[k]) == w + 2 by {
        if k == 0 {
            assert(b[k] == panel_top(w));
        } else if k == b.len() - 1 {
            assert(b[k] == panel_bot(w));
        } else {
            assert(b[k] == panel_line(w, rows[k - 1]));
            match rows[k - 1] {
                None => {},
                Some(s) => {
                    assert(closed(s) && vis(s) <= w);
                    let pad = rep(' ', (w - vis(s)) as nat);
                    lemma_piece_rep(' ', (w - vis(s)) as nat);
                    lemma_piece_concat(side, 1, s, vis(s));
                    lemma_piece_concat(side + s, 1 + vis(s), pad, (w - vis(s)) as nat);
                    lemma_piece_concat(side + s + pad, w + 1, side, 1);
                },
            }
        }
    }
}

/// The stats panel is a box of at least seven lines: every line of it,
/// frame and rows alike, has the same visible width, one column wider than
/// its widest row plus the two borders.
pub proof fn law_panel_aligned(text: Seq<char>)
    ensures
        stats_panel_spec(text).len() >= 7,
        forall|k: int|
            0 <= k < stats_panel_spec(text).len() ==> vis(#[trigger] stats_panel_spec(text)[k]) == max_vis(
                panel_rows(
                    or_else(line_at(lines(text), 0), "#???"@),
                    or_else(line_at(lines(text), 1), "???"@),
                    or_else(line_at(lines(text), 2), Seq::empty()),
                    stat_values(after_header(lines(text))),
                ),
            ) + 3,
{
    let ls = lines(text);
    let dex = or_else(line_at(ls, 0), "#???"@);
    let name = or_else(line_at(ls, 1), "???"@);
    let types = or_else(line_at(ls, 2), Seq::empty());
    let vals = stat_values(after_header(ls));
    let rows = panel_rows(dex, name, types, vals);
    let w = max_vis(rows) + 1;
    lemma_panel_rows_end_reset(dex, name, types, vals);
    assert forall|k: int| 0 <= k < rows.len() implies ((#[trigger] rows[k]) matches Some(s) ==> closed(s)
        && vis(s) <= w) by {
        if rows[k] is Some {
            lemma_vis_reset_suffix(rows[k]->0);
            lemma_max_vis_bound(rows, k);
        }
    }
    lemma_boxed_aligned(w, rows);
}

proof fn lemma_color_code(lead: Seq<char>, c: Rgb)
    requires
        lead.len() >= 2,
        lead[0] == '\x1b',
        forall|i: int| 0 <= i < lead.len() ==> lead[i] != 'm',
    ensures
        is_escape(lead + dec(c.0 as nat) + seq![';'] + dec(c.1 as nat) + seq![';'] + dec(c.2 as nat) + seq!['m']),
{
    lemma_dec_facts(c.0 as nat);
    lemma_dec_facts(c.1 as nat);
    lemma_dec_facts(c.2 as nat);
    let d0 = dec(c.0 as nat);
    let d1 = dec(c.1 as nat);
    let d2 = dec(c.2 as nat);
    let e = lead + d0 + seq![';'] + d1 + seq![';'] + d2 + seq!['m'];
    assert forall|i: int| 0 < i < e.len() - 1 implies e[i] != 'm' by {
        let a = lead.len() as int;
        let b = a + d0.len();
        let c1 = b + 1 + d1.len();
        if i < a {
            assert(e[i] == lead[i]);
        } else if i < b {
            assert(e[i] == d0[i - a]);
            assert(is_digit(d0[i - a]));
        } else if i == b {
        } else if i < c1 {
            assert(e[i] == d1[i - b - 1]);
            assert(is_digit(d1[i - b - 1]));
        } else if i == c1 {
        } else {
            assert(e[i] == d2[i - c1 - 1]);
            assert(is_digit(d2[i - c1 - 1]));
        }
    }
}

proof fn lemma_codes()
    ensures
        forall|c: Rgb| #[trigger] is_escape(fg_code(c)),
        forall|c: Rgb| #[trigger] is_escape(bg_code(c)),
        is_escape("\x1b[49m"@),
        "\x1b[0m"@ == reset(),
{
    reveal_strlit("\x1b[38;2;");
    reveal_strlit("\x1b[48;2;");
    reveal_strlit("\x1b[49m");
    reveal_strlit("\x1b[0m");
    assert forall|c: Rgb| #[trigger] is_escape(fg_code(c)) by {
        lemma_color_code("\x1b[38;2;"@, c);
    }
    assert forall|c: Rgb| #[trigger] is_escape(bg_code(c)) by {
        lemma_color_code("\x1b[48;2;"@, c);
    }
    assert("\x1b[0m"@ =~= reset());
}

proof fn lemma_optional_escape(e: Seq<char>, present: bool)
    requires
        is_escape(e),
    ensures
        piece(if present { e } else { Seq::<char>::empty() }, 0),
{
    lemma_piece_escape(e);
    lemma_piece_plain(Seq::<char>::empty());
}

/// Every cell of the art is one column wide, whatever codes precede it.
proof fn lemma_cell_width(pen: Pen, top: Option<Rgb>, bot: Option<Rgb>)
    ensures
        piece(cell(pen, top, bot).0, 1),
{
    lemma_codes();
    let (fg, bg) = pen;
    let r49 = "\x1b[49m"@;
    match (top, bot) {
        (None, None) => {
            lemma_optional_escape(r49, bg is Some);
            lemma_piece_plain(seq![' ']);
            lemma_piece_concat(if bg is Some { r49 } else { Seq::<char>::empty() }, 0, seq![' '], 1);
        },
        (Some(tc), None) => {
            lemma_optional_escape(fg_code(tc), fg != Some(tc));
            lemma_optional_escape(r49, bg is Some);
            lemma_piece_plain(seq!['▀']);
            let f = if fg != Some(tc) { fg_code(tc) } else { Seq::<char>::empty() };
            let z = if bg is Some { r49 } else { Seq::<char>::empty() };
            lemma_piece_concat(f, 0, z, 0);
            lemma_piece_concat(f + z, 0, seq!['▀'], 1);
        },
        (None, Some(bc)) => {
            lemma_optional_escape(fg_code(bc), fg != Some(bc));
            lemma_optional_escape(r49, bg is Some);
            lemma_piece_plain(seq!['▄']);
            let f = if fg != Some(bc) { fg_code(bc) } else { Seq::<char>::empty() };
            let z = if bg is Some { r49 } else { Seq::<char>::empty() };
            lemma_piece_concat(f, 0, z, 0);
            lemma_piece_concat(f + z, 0, seq!['▄'], 1);
        },
        (Some(tc), Some(bc)) => {
            lemma_optional_escape(fg_code(tc), fg != Some(tc));
            lemma_optional_escape(bg_code(bc), bg != Some(bc));
            lemma_piece_plain(seq!['▀']);
            let f = if fg != Some(tc) { fg_code(tc) } else { Seq::<char>::empty() };
            let z = if bg != Some(bc) { bg_code(bc) } else { Seq::<char>::empty() };
            lemma_piece_concat(f, 0, z, 0);
            lemma_piece_concat(f + z, 0, seq!['▀'], 1);
        },
    }
}

proof fn lemma_row_cells_width(m: Rgba, r: int, n: nat)
    ensures
        piece(row_cells(m, r, n).0, n),
    decreases n,
{
    if n == 0 {
        lemma_piece_plain(Seq::<char>::empty());
    } else {
        lemma_row_cells_width(m, r, (n - 1) as nat);
        let prev = row_cells(m, r, (n - 1) as nat);
        lemma_cell_width(prev.1, crate::ansi::top_of(m, n - 1, r), crate::ansi::bot_of(m, n - 1, r));
        lemma_piece_concat(
            prev.0,
            (n - 1) as nat,
            cell(prev.1, crate::ansi::top_of(m, n - 1, r), crate::ansi::bot_of(m, n - 1, r)).0,
            1,
        );
    }
}

/// Every row of a colorscript is exactly as many columns wide as the
/// sprite is pixels wide: each cell packs two pixels into one character,
/// and the color codes take no columns.
pub proof fn law_art_row_width(m: Rgba, r: int)
    ensures
        vis(art_row(m, r)) == m.width,
        closed(art_row(m, r)),
{
    lemma_row_cells_width(m, r, m.width as nat);
    lemma_codes();
    lemma_frame_pieces();
    lemma_piece_concat(row_cells(m, r, m.width as nat).0, m.width as nat, reset(), 0);
}

/// Generations follow one another: each starts where the one before ends,
/// the first starts at the head of the list, the last ends at entry 1025
/// (or the list's end), and none runs backwards.
pub proof fn law_generations_contiguous(g: usize, total: usize)
    requires
        1 <= g <= 9,
    ensures
        generation_range_spec(g, total).0 <= generation_range_spec(g, total).1 <= total,
        g < 9 ==> generation_range_spec(g, total).1 == generation_range_spec((g + 1) as usize, total).0,
        generation_range_spec(1, total).0 == 0,
        generation_range_spec(9, total).1 == (if total < 1025 {
            total
        } else {
            1025
        }),
{
}

/// The random pick lies in the generation asked for.
pub proof fn law_random_in_generation(g: usize, total: usize, nanos: usize)
    requires
        1 <= g <= 9,
    ensures
        random_index_spec(Some(g), total, nanos) matches Some(i) ==> generation_range_spec(g, total).0 <= i
            < generation_range_spec(g, total).1,
        random_index_spec(Some(g), total, nanos) is None <==> generation_range_spec(g, total).0
            >= generation_range_spec(g, total).1,
{
    let (start, end) = generation_range_spec(g, total);
    if start < end {
        assert(nanos % ((end - start) as usize) < end - start);
    }
}

/// The Pokemon list holds each slug once, only slugs of Pokemon pages, and
/// every Pokemon slug among the candidates.
pub proof fn law_unique_slugs(cands: Seq<Seq<char>>)
    ensures
        forall|i: int|
            0 <= i < cands.len() && is_pokemon_slug(#[trigger] cands[i]) ==> unique_slugs(cands).contains(
                cands[i],
            ),
        forall|i: int, j: int|
            0 <= i < j < unique_slugs(cands).len() ==> unique_slugs(cands)[i] != unique_slugs(cands)[j],
        forall|i: int| 0 <= i < unique_slugs(cands).len() ==> is_pokemon_slug(#[trigger] unique_slugs(cands)[i]),
        forall|i: int| 0 <= i < unique_slugs(cands).len() ==> cands.contains(#[trigger] unique_slugs(cands)[i]),
    decreases cands.len(),
{
    if cands.len() > 0 {
        law_unique_slugs(cands.drop_last());
        let prev = unique_slugs(cands.drop_last());
        let t = cands.last();
        assert forall|i: int| 0 <= i < prev.len() implies cands.contains(#[trigger] prev[i]) by {
            let k = choose|k: int| 0 <= k < cands.drop_last().len() && cands.drop_last()[k] == prev[i];
            assert(cands[k] == prev[i]);
        }
        let u = unique_slugs(cands);
        assert forall|i: int| 0 <= i < cands.len() && is_pokemon_slug(#[trigger] cands[i]) implies u.contains(
            cands[i],
        ) by {
            if i < cands.len() - 1 {
                assert(cands.drop_last()[i] == cands[i]);
                let k = choose|k: int| 0 <= k < prev.len() && prev[k] == cands[i];
                if is_pokemon_slug(t) && !prev.contains(t) {
                    assert(u[k] == prev[k]);
                } else {
                    assert(u[k] == prev[k]);
                }
            } else {
                if is_pokemon_slug(t) && !prev.contains(t) {
                    assert(u[u.len() - 1] == t);
                } else {
                    let k = choose|k: int| 0 <= k < prev.len() && prev[k] == t;
                    assert(u[k] == t);
                }
            }
        }
        if is_pokemon_slug(t) && !prev.contains(t) {
            let u = prev.push(t);
            assert(cands[cands.len() - 1] == t);
            assert forall|i: int, j: int| 0 <= i < j < u.len() implies u[i] != u[j] by {
                if j == u.len() - 1 {
                    assert(u[i] == prev[i]);
                }
            }
        }
    }
}

/// No slug candidate holds a quote: each runs up to the first `"` after its
/// `href="/sprites/`.
pub proof fn law_slugs_unquoted(s: Seq<char>, pos: int)
    ensures
        forall|k: int|
            0 <= k < slug_candidates(s, pos).len() ==> !(#[trigger] slug_candidates(s, pos)[k]).contains('"'),
    decreases s.len() + 1 - pos,
{
    if 0 <= pos <= s.len() {
        match find_from(s, slug_prefix(), pos) {
            None => {},
            Some(rel) => {
                reveal_strlit("href=\"/sprites/");
                crate::text::lemma_find_from_facts(s, slug_prefix(), pos);
                let start = rel + slug_prefix().len();
                let end = next_char(s, '"', start);
                crate::text::lemma_next_char_bounds(s, '"', start);
                if end < s.len() {
                    law_slugs_unquoted(s, end);
                    let c = slug_candidates(s, pos);
                    let slug = s.subrange(start, end);
                    assert(c == seq![slug] + slug_candidates(s, end));
                    assert forall|k: int| 0 <= k < c.len() implies !(#[trigger] c[k]).contains('"') by {
                        if k == 0 {
                            assert forall|j: int| 0 <= j < slug.len() implies slug[j] != '"' by {
                                assert(slug[j] == s[start + j]);
                            }
                        } else {
                            assert(c[k] == slug_candidates(s, end)[k - 1]);
                        }
                    }
                }
            },
        }
    }
}

/// Every type color is one complete SGR escape (`ESC [ ... m`): it takes no
/// columns and closes itself, so coloring a type never changes the width of
/// what follows it.
pub proof fn law_type_color_invisible(t: Seq<char>, s: Seq<char>)
    ensures
        is_escape(type_color_spec(t)),
        vis(type_color_spec(t)) == 0,
        closed(type_color_spec(t)),
        vis(type_color_spec(t) + s) == vis(s),
{
    reveal_strlit("\x1b[31;1m");
    reveal_strlit("\x1b[32;1m");
    reveal_strlit("\x1b[32m");
    reveal_strlit("\x1b[33;1m");
    reveal_strlit("\x1b[33;2m");
    reveal_strlit("\x1b[33m");
    reveal_strlit("\x1b[34;1m");
    reveal_strlit("\x1b[35;1m");
    reveal_strlit("\x1b[35;2m");
    reveal_strlit("\x1b[35m");
    reveal_strlit("\x1b[37;1m");
    reveal_strlit("\x1b[37m");
    reveal_strlit("\x1b[38;5;202m");
    reveal_strlit("\x1b[90;1m");
    reveal_strlit("\x1b[94m");
    reveal_strlit("\x1b[95m");
    reveal_strlit("\x1b[96m");
    let c = type_color_spec(t);
    assert(is_escape(c));
    crate::text::lemma_vis_escape(c);
    crate::text::lemma_vis_concat(c, s);
}

/// `e` is the foreground code of `c`.
pub open spec fn is_fg(e: Seq<char>, c: Rgb) -> bool {
    e == fg_code(c)
}

/// `e` is the background code of `c`.
pub open spec fn is_bg(e: Seq<char>, c: Rgb) -> bool {
    e == bg_code(c)
}

/// The codes the art writes: a 24-bit foreground color, a 24-bit background
/// color, or the background reset.
pub open spec fn art_code(e: Seq<char>) -> bool {
    ||| exists|c: Rgb| #[trigger] is_fg(e, c)
    ||| exists|c: Rgb| #[trigger] is_bg(e, c)
    ||| e == "\x1b[49m"@
}

/// Nothing, or one code of the art.
pub open spec fn code_or_none(e: Seq<char>) -> bool {
    e.len() == 0 || art_code(e)
}

/// The characters a cell shows: a space, an upper or a lower half block.
pub open spec fn is_glyph(g: char) -> bool {
    g == ' ' || g == '▀' || g == '▄'
}

/// `t` is the code `a`, the code `b` (each possibly absent), then glyph `g`.
pub open spec fn cell_parts(t: Seq<char>, a: Seq<char>, b: Seq<char>, g: char) -> bool {
    t == a + b + seq![g] && code_or_none(a) && code_or_none(b) && is_glyph(g)
}

/// A cell as the art writes it: at most two codes, then one glyph.
pub open spec fn cell_shaped(t: Seq<char>) -> bool {
    exists|a: Seq<char>, b: Seq<char>, g: char| #[trigger] cell_parts(t, a, b, g)
}

/// The text of the cell at column `x` of text row `r`.
pub open spec fn art_cell(m: Rgba, r: int, x: int) -> Seq<char> {
    cell(row_cells(m, r, x as nat).1, crate::ansi::top_of(m, x, r), crate::ansi::bot_of(m, x, r)).0
}

/// The first `n` cells of text row `r`, one after the other.
pub open spec fn art_cells(m: Rgba, r: int, n: nat) -> Seq<char>
    decreases n,
{
    if n == 0 {
        Seq::empty()
    } else {
        art_cells(m, r, (n - 1) as nat) + art_cell(m, r, n - 1)
    }
}

proof fn lemma_cell_shaped(pen: Pen, top: Option<Rgb>, bot: Option<Rgb>)
    ensures
        cell_shaped(cell(pen, top, bot).0),
{
    let t = cell(pen, top, bot).0;
    let e = Seq::<char>::empty();
    let r49 = "\x1b[49m"@;
    let reset = if pen.1 is Some { r49 } else { e };
    assert(code_or_none(reset));
    match (top, bot) {
        (None, None) => {
            assert(t =~= reset + e + seq![' ']);
            assert(cell_parts(t, reset, e, ' '));
        },
        (Some(tc), None) => {
            let f = if pen.0 != Some(tc) { fg_code(tc) } else { e };
            assert(is_fg(fg_code(tc), tc));
            assert(code_or_none(f));
            assert(cell_parts(t, f, reset, '▀'));
        },
        (None, Some(bc)) => {
            let f = if pen.0 != Some(bc) { fg_code(bc) } else { e };
            assert(is_fg(fg_code(bc), bc));
            assert(code_or_none(f));
            assert(cell_parts(t, f, reset, '▄'));
        },
        (Some(tc), Some(bc)) => {
            let f = if pen.0 != Some(tc) { fg_code(tc) } else { e };
            let b = if pen.1 != Some(bc) { bg_code(bc) } else { e };
            assert(is_fg(fg_code(tc), tc));
            assert(is_bg(bg_code(bc), bc));
            assert(code_or_none(f));
            assert(code_or_none(b));
            assert(cell_parts(t, f, b, '▀'));
        },
    }
}

proof fn lemma_art_cells(m: Rgba, r: int, n: nat)
    ensures
        art_cells(m, r, n) == row_cells(m, r, n).0,
    decreases n,
{
    if n > 0 {
        lemma_art_cells(m, r, (n - 1) as nat);
    }
}

/// A row of the art is its cells, one per pixel column, then a reset; each
/// cell shows a space or a half block, preceded by at most two codes, each a
/// 24-bit foreground color, a 24-bit background color or the background
/// reset.
pub proof fn law_art_row_cells(m: Rgba, r: int)
    ensures
        art_row(m, r) == art_cells(m, r, m.width as nat) + "\x1b[0m"@,
        forall|x: int| 0 <= x < m.width ==> cell_shaped(#[trigger] art_cell(m, r, x)),
{
    lemma_art_cells(m, r, m.width as nat);
    assert forall|x: int| 0 <= x < m.width implies cell_shaped(#[trigger] art_cell(m, r, x)) by {
        lemma_cell_shaped(row_cells(m, r, x as nat).1, crate::ansi::top_of(m, x, r), crate::ansi::bot_of(m, x, r));
    }
}

/// Dropping a line's trailing resets and closing it with one reset keeps its
/// width.
pub proof fn lemma_strip_resets_vis(al: Seq<char>)
    ensures
        piece(strip_resets(al) + "\x1b[0m"@, vis(al)),
    decreases al.len(),
{
    lemma_codes();
    if ends_reset(al) {
        let a = al.subrange(0, al.len() - 4);
        assert(al =~= a + reset());
        lemma_strip_resets_vis(a);
        crate::text::lemma_reset_is_escape(a);
    } else {
        crate::text::lemma_reset_is_escape(al);
    }
}

/// Beside the side panel, every sprite row is padded to the same width:
/// the panel starts three columns after the widest row on every line.
pub proof fn law_info_rows_aligned(al: Seq<char>, w: nat)
    requires
        vis(al) <= w,
    ensures
        vis(strip_resets(al) + "\x1b[0m"@ + rep(' ', (w + 3 - vis(al)) as nat)) == w + 3,
        closed(strip_resets(al) + "\x1b[0m"@ + rep(' ', (w + 3 - vis(al)) as nat)),
{
    lemma_codes();
    lemma_strip_resets_vis(al);
    lemma_piece_rep(' ', (w + 3 - vis(al)) as nat);
    lemma_piece_concat(strip_resets(al) + reset(), vis(al), rep(' ', (w + 3 - vis(al)) as nat), (w + 3 - vis(al)) as nat);
}

/// Text without a newline.
spec fn no_nl(s: Seq<char>) -> bool {
    forall|i: int| 0 <= i < s.len() ==> s[i] != '\n'
}

proof fn lemma_no_nl_concat(a: Seq<char>, b: Seq<char>)
    requires
        no_nl(a),
        no_nl(b),
    ensures
        no_nl(a + b),
{
    assert forall|i: int| 0 <= i < (a + b).len() implies (a + b)[i] != '\n' by {
        if i < a.len() {
            assert((a + b)[i] == a[i]);
        } else {
            assert((a + b)[i] == b[i - a.len()]);
        }
    }
}

proof fn lemma_code_no_nl(lead: Seq<char>, c: Rgb)
    requires
        no_nl(lead),
    ensures
        no_nl(lead + dec(c.0 as nat) + seq![';'] + dec(c.1 as nat) + seq![';'] + dec(c.2 as nat) + seq!['m']),
{
    lemma_dec_facts(c.0 as nat);
    lemma_dec_facts(c.1 as nat);
    lemma_dec_facts(c.2 as nat);
    lemma_no_nl_concat(lead, dec(c.0 as nat));
    lemma_no_nl_concat(lead + dec(c.0 as nat), seq![';']);
    lemma_no_nl_concat(lead + dec(c.0 as nat) + seq![';'], dec(c.1 as nat));
    lemma_no_nl_concat(lead + dec(c.0 as nat) + seq![';'] + dec(c.1 as nat), seq![';']);
    lemma_no_nl_concat(lead + dec(c.0 as nat) + seq![';'] + dec(c.1 as nat) + seq![';'], dec(c.2 as nat));
    lemma_no_nl_concat(lead + dec(c.0 as nat) + seq![';'] + dec(c.1 as nat) + seq![';'] + dec(c.2 as nat), seq!['m']);
}

proof fn lemma_cell_no_nl(pen: Pen, top: Option<Rgb>, bot: Option<Rgb>)
    ensures
        no_nl(cell(pen, top, bot).0),
{
    reveal_strlit("\x1b[38;2;");
    reveal_strlit("\x1b[48;2;");
    reveal_strlit("\x1b[49m");
    let e = Seq::<char>::empty();
    let r49 = "\x1b[49m"@;
    assert(no_nl(r49));
    assert(no_nl(e));
    let (fg, bg) = pen;
    let z = if bg is Some { r49 } else { e };
    match (top, bot) {
        (None, None) => {
            lemma_no_nl_concat(z, seq![' ']);
        },
        (Some(tc), None) => {
            lemma_code_no_nl("\x1b[38;2;"@, tc);
            let f = if fg != Some(tc) { fg_code(tc) } else { e };
            lemma_no_nl_concat(f, z);
            lemma_no_nl_concat(f + z, seq!['▀']);
        },
        (None, Some(bc)) => {
            lemma_code_no_nl("\x1b[38;2;"@, bc);
            let f = if fg != Some(bc) { fg_code(bc) } else { e };
            lemma_no_nl_concat(f, z);
            lemma_no_nl_concat(f + z, seq!['▄']);
        },
        (Some(tc), Some(bc)) => {
            lemma_code_no_nl("\x1b[38;2;"@, tc);
            lemma_code_no_nl("\x1b[48;2;"@, bc);
            let f = if fg != Some(tc) { fg_code(tc) } else { e };
            let b = if bg != Some(bc) { bg_code(bc) } else { e };
            lemma_no_nl_concat(f, b);
            lemma_no_nl_concat(f + b, seq!['▀']);
        },
    }
}

proof fn lemma_row_cells_no_nl(m: Rgba, r: int, n: nat)
    ensures
        no_nl(row_cells(m, r, n).0),
    decreases n,
{
    if n > 0 {
        lemma_row_cells_no_nl(m, r, (n - 1) as nat);
        let prev = row_cells(m, r, (n - 1) as nat);
        lemma_cell_no_nl(prev.1, crate::ansi::top_of(m, n - 1, r), crate::ansi::bot_of(m, n - 1, r));
        lemma_no_nl_concat(prev.0, cell(prev.1, crate::ansi::top_of(m, n - 1, r), crate::ansi::bot_of(m, n - 1, r)).0);
    }
}

proof fn lemma_art_row_no_nl(m: Rgba, r: int)
    ensures
        no_nl(art_row(m, r)),
{
    lemma_row_cells_no_nl(m, r, m.width as nat);
    lemma_codes();
    assert(no_nl(reset()));
    lemma_no_nl_concat(row_cells(m, r, m.width as nat).0, reset());
}

/// The rows of a colorscript, in order.
pub open spec fn art_row_seq(m: Rgba, n: nat) -> Seq<Seq<char>> {
    Seq::new(n, |r: int| art_row(m, r))
}

proof fn lemma_art_rows_terminated(m: Rgba, n: nat)
    ensures
        art_rows(m, n) + seq!['\n'] == seq!['\n'] + terminated(art_row_seq(m, n)),
    decreases n,
{
    if n == 0 {
        assert(art_row_seq(m, 0) =~= Seq::<Seq<char>>::empty());
        assert(art_rows(m, 0) + seq!['\n'] =~= seq!['\n'] + terminated(art_row_seq(m, 0)));
    } else {
        lemma_art_rows_terminated(m, (n - 1) as nat);
        crate::text::lemma_terminated_push(art_row_seq(m, (n - 1) as nat), art_row(m, n - 1));
        assert(art_row_seq(m, (n - 1) as nat).push(art_row(m, n - 1)) =~= art_row_seq(m, n));
        assert(art_rows(m, n) + seq!['\n'] =~= (art_rows(m, (n - 1) as nat) + seq!['\n']) + art_row(m, n - 1)
            + seq!['\n']);
    }
}

proof fn lemma_split_terminated(p: Seq<char>, ls: Seq<Seq<char>>)
    requires
        forall|k: int| 0 <= k < ls.len() ==> no_nl(#[trigger] ls[k]),
    ensures
        split_from(p + terminated(ls), '\n', p.len() as int) == ls.push(Seq::<char>::empty()),
    decreases ls.len(),
{
    let s = p + terminated(ls);
    let i = p.len() as int;
    crate::text::lemma_next_char_bounds(s, '\n', i);
    if ls.len() == 0 {
        assert(s =~= p);
        assert(s.subrange(i, s.len() as int) =~= Seq::<char>::empty());
        assert(ls.push(Seq::<char>::empty()) =~= seq![Seq::<char>::empty()]);
    } else {
        let l = ls[0];
        let e = i + l.len();
        let rest = ls.drop_first();
        let p2 = p + l + seq!['\n'];
        assert(s =~= p2 + terminated(rest));
        assert(no_nl(l));
        assert forall|j: int| i <= j < e implies s[j] != '\n' by {
            assert(s[j] == l[j - i]);
        }
        assert(s[e] == '\n');
        lemma_next_char_from(s, '\n', i, e);
        assert(s.subrange(i, e) =~= l);
        assert forall|k: int| 0 <= k < rest.len() implies no_nl(#[trigger] rest[k]) by {
            assert(rest[k] == ls[k + 1]);
        }
        lemma_split_terminated(p2, rest);
        assert(p2.len() == e + 1);
        assert(ls.push(Seq::<char>::empty()) =~= seq![l] + rest.push(Seq::<char>::empty()));
    }
}

/// A colorscript, as `render_with_info` and `render_pokedex` cut it into
/// rows, gives back exactly the rows `image_to_ansi_art` drew, one per pair
/// of pixel rows; so beside a panel each of them is the sprite's width.
pub proof fn law_art_lines_read_back(m: Rgba)
    ensures
        art_lines_of(art_spec(m)) == art_row_seq(m, text_rows(m)),
        text_rows(m) > 0 ==> max_line_vis(art_lines_of(art_spec(m))) == m.width,
{
    let n = text_rows(m);
    let rows = art_row_seq(m, n);
    lemma_art_rows_terminated(m, n);
    assert forall|k: int| 0 <= k < rows.len() implies no_nl(#[trigger] rows[k]) by {
        lemma_art_row_no_nl(m, k);
    }
    let art = art_spec(m);
    assert(art == seq!['\n'] + terminated(rows));
    lemma_split_terminated(seq!['\n'], rows);
    crate::text::lemma_next_char_bounds(art, '\n', 0);
    assert(art[0] == '\n');
    assert(crate::text::next_char(art, '\n', 0) == 0);
    assert(art.subrange(0, 0) =~= Seq::<char>::empty());
    assert(split(art, '\n') == seq![Seq::<char>::empty()] + rows.push(Seq::<char>::empty()));
    assert(art_lines_of(art) =~= rows);
    if n > 0 {
        lemma_max_vis_rows(m, n);
    }
}

proof fn lemma_max_vis_rows(m: Rgba, n: nat)
    requires
        n > 0,
    ensures
        max_line_vis(art_row_seq(m, n)) == m.width,
    decreases n,
{
    let s = art_row_seq(m, n);
    law_art_row_width(m, n - 1);
    assert(s.last() == art_row(m, n - 1));
    assert(vis(s.last()) == m.width);
    assert(s.drop_last() =~= art_row_seq(m, (n - 1) as nat));
    if n > 1 {
        lemma_max_vis_rows(m, (n - 1) as nat);
    } else {
        assert(s.drop_last() =~= Seq::<Seq<char>>::empty());
        assert(max_line_vis(s.drop_last()) == 0);
    }
    assert(max_line_vis(s) == (if vis(s.last()) > max_line_vis(s.drop_last()) {
        vis(s.last())
    } else {
        max_line_vis(s.drop_last())
    }));
}

} // verus!
