//! The shape of the Pokédex frame: every line of it is equally wide, and as
//! wide as the terminal when the terminal leaves room for it.
use vstd::prelude::*;
use crate::laws::lemma_strip_resets_vis;
use crate::layout::{
    art_lines_of, dex_bar_w, dex_body, dex_body_line, dex_bottom_line, dex_display, dex_dex,
    dex_left_w, dex_right_w, dex_rows, dex_split_line, dex_stat_row, dex_title_line, dex_top_line,
    dex_types, dex_vals, get_line, get_row, lemma_max_line_vis, nat_max, render_pokedex_spec,
    sat_sub, strip_resets,
};
use crate::panel::{bar_filled, bar_spec, colored_types, lemma_colored_types_ends_reset, stat_bar_color_spec, stat_label, sum};
use crate::text::{
    closed, dec, lemma_dec_facts, lemma_piece_concat, lemma_piece_escape, lemma_piece_plain,
    lemma_piece_rep, lemma_terminated_concat, lemma_terminated_push, lemma_vis_reset_suffix, pad_left, pad_right, piece,
    plain, rep, terminated, vis,
};

verus! {

/// The lines of the full frame in the order `render_pokedex` prints them,
/// each without its newline.
pub open spec fn dex_frame_lines(name: Seq<char>, art: Seq<char>, t: Seq<char>, term_w: nat) -> Seq<Seq<char>> {
    let als = art_lines_of(art);
    let left_w = dex_left_w(art);
    let right_w = dex_right_w(art, term_w);
    let dex = dex_dex(name, t);
    let display = dex_display(name, t);
    let rs = dex_rows(dex, display, dex_types(t), dex_vals(t), right_w, dex_bar_w(art, term_w));
    seq![
        dex_top_line(left_w + 1 + right_w),
        dex_title_line(dex, display, left_w + 1 + right_w),
        dex_split_line(left_w, right_w),
    ] + Seq::new(
        nat_max(als.len(), rs.len()),
        |i: int| dex_body_line(get_line(als, i), get_row(rs, i), left_w, right_w),
    ) + seq![dex_bottom_line(left_w, right_w)]
}

/// What the frame needs to come out aligned: the title fits the frame, and
/// every row of the info cell fits the cell (the name row, the number row,
/// the total row, and the stat rows, each stat having at most three
/// digits).
pub open spec fn dex_frame_fits(name: Seq<char>, art: Seq<char>, t: Seq<char>, term_w: nat) -> bool {
    let dex = dex_dex(name, t);
    let display = dex_display(name, t);
    let left_w = dex_left_w(art);
    let right_w = dex_right_w(art, term_w);
    &&& 17 + vis(dex) + vis(display) <= left_w + 1 + right_w
    &&& 2 + vis(display) <= right_w
    &&& 4 + vis(dex) + vis(colored_types(dex_types(t))) <= right_w
    &&& forall|k: int| 0 <= k < dex_vals(t).len() ==> #[trigger] dex_vals(t)[k] <= 999
    &&& 7 + dec(sum(dex_vals(t))).len() <= right_w
}

// ---------------------------------------------------------------------------
// The pieces the frame is made of
// ---------------------------------------------------------------------------

spec fn red() -> Seq<char> {
    seq!['\x1b', '[', '3', '1', ';', '1', 'm']
}

spec fn cyan() -> Seq<char> {
    seq!['\x1b', '[', '9', '6', 'm']
}

spec fn green() -> Seq<char> {
    seq!['\x1b', '[', '9', '2', ';', '1', 'm']
}

spec fn dim() -> Seq<char> {
    seq!['\x1b', '[', '2', 'm']
}

spec fn bold() -> Seq<char> {
    seq!['\x1b', '[', '1', 'm']
}

spec fn white() -> Seq<char> {
    seq!['\x1b', '[', '1', ';', '9', '7', 'm']
}

spec fn rst() -> Seq<char> {
    seq!['\x1b', '[', '0', 'm']
}

proof fn lemma_escapes()
    ensures
        piece(red(), 0),
        piece(cyan(), 0),
        piece(green(), 0),
        piece(dim(), 0),
        piece(bold(), 0),
        piece(white(), 0),
        piece(rst(), 0),
{
    lemma_piece_escape(red());
    lemma_piece_escape(cyan());
    lemma_piece_escape(green());
    lemma_piece_escape(dim());
    lemma_piece_escape(bold());
    lemma_piece_escape(white());
    lemma_piece_escape(rst());
}

proof fn lemma_glyph(c: char)
    requires
        c != '\x1b',
    ensures
        piece(seq![c], 1),
{
    lemma_piece_plain(seq![c]);
}

/// A color, a glyph, a color: one column.
proof fn lemma_colored_glyph(a: Seq<char>, c: char, b: Seq<char>)
    requires
        piece(a, 0),
        piece(b, 0),
        c != '\x1b',
    ensures
        piece(a + seq![c], 1),
        piece(seq![c] + b, 1),
        piece(a + seq![c] + b, 1),
{
    lemma_glyph(c);
    lemma_piece_concat(a, 0, seq![c], 1);
    lemma_piece_concat(seq![c], 1, b, 0);
    lemma_piece_concat(a + seq![c], 1, b, 0);
}

proof fn lemma_edge_literals()
    ensures
        piece("\x1b[31;1m╔"@, 1),
        piece("╗\x1b[0m"@, 1),
        piece("\x1b[31;1m╠"@, 1),
        piece("\x1b[96m╦\x1b[31;1m"@, 1),
        piece("╣\x1b[0m"@, 1),
        piece("\x1b[31;1m╚"@, 1),
        piece("\x1b[96m╩\x1b[31;1m"@, 1),
        piece("╝\x1b[0m"@, 1),
        piece("\x1b[31;1m║\x1b[0m"@, 1),
        piece("\x1b[96m║\x1b[0m"@, 1),
        piece("\x1b[96m╠\x1b[31;1m"@, 1),
{
    lemma_escapes();
    reveal_strlit("\x1b[31;1m╔");
    reveal_strlit("╗\x1b[0m");
    reveal_strlit("\x1b[31;1m╠");
    reveal_strlit("\x1b[96m╦\x1b[31;1m");
    reveal_strlit("╣\x1b[0m");
    reveal_strlit("\x1b[31;1m╚");
    reveal_strlit("\x1b[96m╩\x1b[31;1m");
    reveal_strlit("╝\x1b[0m");
    reveal_strlit("\x1b[31;1m║\x1b[0m");
    reveal_strlit("\x1b[96m║\x1b[0m");
    reveal_strlit("\x1b[96m╠\x1b[31;1m");
    lemma_colored_glyph(red(), '╔', rst());
    lemma_colored_glyph(red(), '╗', rst());
    lemma_colored_glyph(red(), '╠', rst());
    lemma_colored_glyph(cyan(), '╦', red());
    lemma_colored_glyph(red(), '╣', rst());
    lemma_colored_glyph(red(), '╚', rst());
    lemma_colored_glyph(cyan(), '╩', red());
    lemma_colored_glyph(red(), '╝', rst());
    lemma_colored_glyph(red(), '║', rst());
    lemma_colored_glyph(cyan(), '║', rst());
    lemma_colored_glyph(cyan(), '╠', red());
    assert("\x1b[31;1m╔"@ =~= red() + seq!['╔']);
    assert("╗\x1b[0m"@ =~= seq!['╗'] + rst());
    assert("\x1b[31;1m╠"@ =~= red() + seq!['╠']);
    assert("\x1b[96m╦\x1b[31;1m"@ =~= cyan() + seq!['╦'] + red());
    assert("╣\x1b[0m"@ =~= seq!['╣'] + rst());
    assert("\x1b[31;1m╚"@ =~= red() + seq!['╚']);
    assert("\x1b[96m╩\x1b[31;1m"@ =~= cyan() + seq!['╩'] + red());
    assert("╝\x1b[0m"@ =~= seq!['╝'] + rst());
    assert("\x1b[31;1m║\x1b[0m"@ =~= red() + seq!['║'] + rst());
    assert("\x1b[96m║\x1b[0m"@ =~= cyan() + seq!['║'] + rst());
    assert("\x1b[96m╠\x1b[31;1m"@ =~= cyan() + seq!['╠'] + red());
}

proof fn lemma_text_literals()
    ensures
        piece("\x1b[31;1m║\x1b[0m \x1b[0m\x1b[92;1m[ POKÉDEX ]\x1b[0m "@, 14),
        piece("\x1b[0m\x1b[2m"@, 0),
        piece("\x1b[0m · \x1b[1m"@, 3),
        piece("\x1b[0m \x1b[31;1m║\x1b[0m"@, 2),
        piece("  "@, 2),
        piece(" "@, 1),
        piece("\x1b[0m"@, 0),
        piece("\x1b[0m "@, 1),
        piece("  \x1b[1;97m"@, 2),
        piece("  \x1b[2m"@, 2),
        piece("  \x1b[2mBST\x1b[0m  \x1b[1m"@, 7),
        "\x1b[0m"@ == rst(),
        "\x1b[0m · \x1b[1m"@ == rst() + (seq![' ', '·', ' '] + bold()),
        piece(seq![' ', '·', ' '] + bold(), 3),
        "\x1b[0m \x1b[31;1m║\x1b[0m"@ == rst() + (seq![' '] + red() + seq!['║'] + rst()),
        piece(seq![' '] + red() + seq!['║'] + rst(), 2),
{
    lemma_escapes();
    reveal_strlit("\x1b[31;1m║\x1b[0m \x1b[0m\x1b[92;1m[ POKÉDEX ]\x1b[0m ");
    reveal_strlit("\x1b[0m\x1b[2m");
    reveal_strlit("\x1b[0m · \x1b[1m");
    reveal_strlit("\x1b[0m \x1b[31;1m║\x1b[0m");
    reveal_strlit("  ");
    reveal_strlit(" ");
    reveal_strlit("\x1b[0m");
    reveal_strlit("\x1b[0m ");
    reveal_strlit("  \x1b[1;97m");
    reveal_strlit("  \x1b[2m");
    reveal_strlit("  \x1b[2mBST\x1b[0m  \x1b[1m");
    let sp = seq![' '];
    let sp2 = seq![' ', ' '];
    let title = seq!['[', ' ', 'P', 'O', 'K', 'É', 'D', 'E', 'X', ' ', ']'];
    let mid = seq![' ', '·', ' '];
    let bst = seq!['B', 'S', 'T'];
    lemma_piece_plain(sp);
    lemma_piece_plain(sp2);
    lemma_piece_plain(title);
    lemma_piece_plain(mid);
    lemma_piece_plain(bst);
    lemma_colored_glyph(red(), '║', rst());
    // the title's opening
    let a = red() + seq!['║'] + rst();
    lemma_piece_concat(a, 1, sp, 1);
    lemma_piece_concat(a + sp, 2, rst(), 0);
    lemma_piece_concat(a + sp + rst(), 2, green(), 0);
    lemma_piece_concat(a + sp + rst() + green(), 2, title, 11);
    lemma_piece_concat(a + sp + rst() + green() + title, 13, rst(), 0);
    lemma_piece_concat(a + sp + rst() + green() + title + rst(), 13, sp, 1);
    assert("\x1b[31;1m║\x1b[0m \x1b[0m\x1b[92;1m[ POKÉDEX ]\x1b[0m "@ =~= a + sp + rst() + green() + title + rst() + sp);
    // the pieces around the dex number and the name
    lemma_piece_concat(rst(), 0, dim(), 0);
    assert("\x1b[0m\x1b[2m"@ =~= rst() + dim());
    lemma_piece_concat(rst(), 0, mid, 3);
    lemma_piece_concat(rst() + mid, 3, bold(), 0);
    assert("\x1b[0m · \x1b[1m"@ =~= rst() + mid + bold());
    assert("\x1b[0m · \x1b[1m"@ =~= rst() + (mid + bold()));
    lemma_piece_concat(mid, 3, bold(), 0);
    lemma_piece_concat(rst(), 0, sp, 1);
    lemma_piece_concat(rst() + sp, 1, a, 1);
    assert("\x1b[0m \x1b[31;1m║\x1b[0m"@ =~= rst() + sp + a);
    assert("\x1b[0m \x1b[31;1m║\x1b[0m"@ =~= rst() + (sp + red() + seq!['║'] + rst()));
    lemma_piece_concat(sp, 1, red(), 0);
    lemma_glyph('║');
    lemma_piece_concat(sp + red(), 1, seq!['║'], 1);
    lemma_piece_concat(sp + red() + seq!['║'], 2, rst(), 0);
    // the rows' pieces
    assert("  "@ =~= sp2);
    assert(" "@ =~= sp);
    assert("\x1b[0m"@ =~= rst());
    assert("\x1b[0m "@ =~= rst() + sp);
    lemma_piece_concat(sp2, 2, white(), 0);
    assert("  \x1b[1;97m"@ =~= sp2 + white());
    lemma_piece_concat(sp2, 2, dim(), 0);
    assert("  \x1b[2m"@ =~= sp2 + dim());
    lemma_piece_concat(sp2 + dim(), 2, bst, 3);
    lemma_piece_concat(sp2 + dim() + bst, 5, rst(), 0);
    lemma_piece_concat(sp2 + dim() + bst + rst(), 5, sp2, 2);
    lemma_piece_concat(sp2 + dim() + bst + rst() + sp2, 7, bold(), 0);
    assert("  \x1b[2mBST\x1b[0m  \x1b[1m"@ =~= sp2 + dim() + bst + rst() + sp2 + bold());
}

/// A stat label padded to four columns.
proof fn lemma_label_cell(k: int)
    ensures
        piece(pad_right(stat_label(k), 4), 4),
{
    reveal_strlit("HP");
    reveal_strlit("Atk");
    reveal_strlit("Def");
    reveal_strlit("SpA");
    reveal_strlit("SpD");
    reveal_strlit("Spe");
    reveal_strlit("???");
    let l = stat_label(k);
    assert(l.len() <= 4);
    assert(plain(l));
    lemma_piece_plain(l);
    lemma_piece_rep(' ', (4 - l.len()) as nat);
    lemma_piece_concat(l, l.len(), rep(' ', (4 - l.len()) as nat), (4 - l.len()) as nat);
}

/// The color of a stat's value takes no columns.
proof fn lemma_bar_color(v: u32)
    ensures
        piece(stat_bar_color_spec(v), 0),
{
    reveal_strlit("\x1b[31m");
    reveal_strlit("\x1b[33m");
    reveal_strlit("\x1b[32m");
    reveal_strlit("\x1b[92m");
    if v < 50 {
        lemma_piece_escape("\x1b[31m"@);
    } else if v < 80 {
        lemma_piece_escape("\x1b[33m"@);
    } else if v < 110 {
        lemma_piece_escape("\x1b[32m"@);
    } else {
        lemma_piece_escape("\x1b[92m"@);
    }
}

/// A stat of at most three digits, right-aligned in three columns.
proof fn lemma_stat_value(v: u32)
    requires
        v <= 999,
    ensures
        piece(pad_left(dec(v as nat), 3, ' '), 3),
{
    lemma_dec_facts(v as nat);
    let d = dec(v as nat);
    assert(plain(d));
    lemma_piece_plain(d);
    lemma_piece_rep(' ', (3 - d.len()) as nat);
    lemma_piece_concat(rep(' ', (3 - d.len()) as nat), (3 - d.len()) as nat, d, d.len());
}

proof fn lemma_bar(v: u32, w: nat)
    ensures
        piece(bar_spec(v, 255, w), w),
{
    let f = bar_filled(v, 255, w);
    lemma_piece_rep('█', f);
    lemma_piece_rep('░', (w - f) as nat);
    lemma_piece_concat(rep('█', f), f, rep('░', (w - f) as nat), (w - f) as nat);
}

/// Any text followed by a reset: as wide as the text, and closed, whatever
/// escapes the text leaves open.
proof fn lemma_then_reset(a: Seq<char>)
    ensures
        piece(a + rst(), vis(a)),
{
    crate::text::lemma_vis_append_escape(a, rst());
}

/// Every text row of the info cell closes its colors and fits the cell.
proof fn lemma_dex_rows_fit(
    dex: Seq<char>,
    display: Seq<char>,
    types: Seq<char>,
    vals: Seq<u32>,
    right_w: nat,
    bar_w: nat,
)
    requires
        2 + vis(display) <= right_w,
        4 + vis(dex) + vis(colored_types(types)) <= right_w,
        forall|k: int| 0 <= k < vals.len() ==> #[trigger] vals[k] <= 999,
        7 + dec(sum(vals)).len() <= right_w,
        30 <= right_w,
        bar_w + 13 == right_w,
    ensures
        forall|k: int|
            0 <= k < dex_rows(dex, display, types, vals, right_w, bar_w).len() ==> (
            #[trigger] dex_rows(dex, display, types, vals, right_w, bar_w)[k] matches Some(s) ==> closed(s)
                && vis(s) <= right_w),
{
    let rs = dex_rows(dex, display, types, vals, right_w, bar_w);
    let n = vals.len() as int;
    lemma_text_literals();
    lemma_then_reset(dex);
    lemma_then_reset(display);
    assert forall|k: int| 0 <= k < rs.len() implies (#[trigger] rs[k] matches Some(s) ==> closed(s) && vis(s)
        <= right_w) by {
        if k == 0 {
            lemma_piece_concat("  \x1b[1;97m"@, 2, display + rst(), vis(display));
            assert("  \x1b[1;97m"@ + display + "\x1b[0m"@ =~= "  \x1b[1;97m"@ + (display + rst()));
        } else if k == 1 {
            let tc = colored_types(types);
            lemma_colored_types_ends_reset(types);
            lemma_vis_reset_suffix(tc);
            let gap = sat_sub(right_w, 2 + vis(dex) + vis(tc) + 2);
            lemma_piece_rep(' ', gap);
            let a = "  \x1b[2m"@ + (dex + rst());
            let w = vis(dex);
            lemma_piece_concat("  \x1b[2m"@, 2, dex + rst(), w);
            lemma_piece_concat(a, 2 + w, rep(' ', gap), gap);
            lemma_piece_concat(a + rep(' ', gap), 2 + w + gap, " "@, 1);
            lemma_piece_concat(a + rep(' ', gap) + " "@, 3 + w + gap, tc, vis(tc));
            lemma_piece_concat(a + rep(' ', gap) + " "@ + tc, 3 + w + gap + vis(tc), "\x1b[0m "@, 1);
            assert(crate::layout::dex_number_row(dex, types, right_w) =~= a + rep(' ', gap) + " "@ + tc
                + "\x1b[0m "@);
        } else if 3 <= k < 3 + n {
            let j = k - 3;
            let v = vals[j];
            assert(rs[k] == Some(dex_stat_row(j, v, bar_w)));
            lemma_label_cell(j);
            lemma_bar_color(v);
            lemma_stat_value(v);
            lemma_bar(v, bar_w);
            let l = pad_right(stat_label(j), 4);
            let c = stat_bar_color_spec(v);
            let d = pad_left(dec(v as nat), 3, ' ');
            let b = bar_spec(v, 255, bar_w);
            lemma_piece_concat("  \x1b[2m"@, 2, l, 4);
            lemma_piece_concat("  \x1b[2m"@ + l, 6, "\x1b[0m "@, 1);
            lemma_piece_concat("  \x1b[2m"@ + l + "\x1b[0m "@, 7, c, 0);
            lemma_piece_concat("  \x1b[2m"@ + l + "\x1b[0m "@ + c, 7, d, 3);
            lemma_piece_concat("  \x1b[2m"@ + l + "\x1b[0m "@ + c + d, 10, "  "@, 2);
            lemma_piece_concat("  \x1b[2m"@ + l + "\x1b[0m "@ + c + d + "  "@, 12, b, bar_w);
            lemma_piece_concat("  \x1b[2m"@ + l + "\x1b[0m "@ + c + d + "  "@ + b, 12 + bar_w, "\x1b[0m "@, 1);
        } else if k == 4 + n {
            let d = dec(sum(vals));
            lemma_dec_facts(sum(vals));
            assert(plain(d));
            lemma_piece_plain(d);
            lemma_piece_concat("  \x1b[2mBST\x1b[0m  \x1b[1m"@, 7, d, d.len());
            lemma_piece_concat("  \x1b[2mBST\x1b[0m  \x1b[1m"@ + d, 7 + d.len(), "\x1b[0m"@, 0);
        }
    }
}

/// A body line is the sprite cell and the info cell between three borders.
proof fn lemma_body_line(al: Seq<char>, row: Option<Option<Seq<char>>>, left_w: nat, right_w: nat)
    requires
        vis(al) + 4 <= left_w,
        row matches Some(Some(s)) ==> closed(s) && vis(s) <= right_w,
    ensures
        vis(dex_body_line(al, row, left_w, right_w)) == left_w + right_w + 3,
{
    lemma_edge_literals();
    lemma_text_literals();
    lemma_strip_resets_vis(al);
    let pad = sat_sub(left_w, 2 + vis(al));
    lemma_piece_rep(' ', pad);
    let sr = strip_resets(al) + "\x1b[0m"@;
    lemma_piece_concat("  "@, 2, sr, vis(al));
    lemma_piece_concat("  "@ + sr, 2 + vis(al), rep(' ', pad), pad);
    assert("  "@ + strip_resets(al) + "\x1b[0m"@ + rep(' ', pad) =~= "  "@ + sr + rep(' ', pad));
    let cell = "  "@ + strip_resets(al) + "\x1b[0m"@ + rep(' ', pad);
    let side = "\x1b[31;1m║\x1b[0m"@;
    lemma_piece_concat(side, 1, cell, left_w);
    lemma_piece_rep('═', right_w);
    lemma_piece_rep(' ', right_w);
    match row {
        Some(None) => {
            lemma_piece_concat(side + cell, 1 + left_w, "\x1b[96m╠\x1b[31;1m"@, 1);
            lemma_piece_concat(side + cell + "\x1b[96m╠\x1b[31;1m"@, 2 + left_w, rep('═', right_w), right_w);
            lemma_piece_concat(
                side + cell + "\x1b[96m╠\x1b[31;1m"@ + rep('═', right_w),
                2 + left_w + right_w,
                "╣\x1b[0m"@,
                1,
            );
        },
        Some(Some(s)) => {
            let rp = sat_sub(right_w, vis(s));
            lemma_piece_rep(' ', rp);
            let inner = "\x1b[96m║\x1b[0m"@;
            lemma_piece_concat(side + cell, 1 + left_w, inner, 1);
            lemma_piece_concat(side + cell + inner, 2 + left_w, s, vis(s));
            lemma_piece_concat(side + cell + inner + s, 2 + left_w + vis(s), rep(' ', rp), rp);
            lemma_piece_concat(side + cell + inner + s + rep(' ', rp), 2 + left_w + right_w, side, 1);
        },
        None => {
            let inner = "\x1b[96m║\x1b[0m"@;
            lemma_piece_concat(side + cell, 1 + left_w, inner, 1);
            lemma_piece_concat(side + cell + inner, 2 + left_w, rep(' ', right_w), right_w);
            lemma_piece_concat(side + cell + inner + rep(' ', right_w), 2 + left_w + right_w, side, 1);
        },
    }
}

/// The edges and the title line are as wide as the body lines.
proof fn lemma_frame_edges(dex: Seq<char>, display: Seq<char>, left_w: nat, right_w: nat)
    requires
        17 + vis(dex) + vis(display) <= left_w + 1 + right_w,
    ensures
        vis(dex_top_line(left_w + 1 + right_w)) == left_w + right_w + 3,
        vis(dex_title_line(dex, display, left_w + 1 + right_w)) == left_w + right_w + 3,
        vis(dex_split_line(left_w, right_w)) == left_w + right_w + 3,
        vis(dex_bottom_line(left_w, right_w)) == left_w + right_w + 3,
{
    lemma_edge_literals();
    lemma_text_literals();
    let inner = left_w + 1 + right_w;
    lemma_piece_rep('═', inner);
    lemma_piece_rep('═', left_w);
    lemma_piece_rep('═', right_w);
    lemma_piece_concat("\x1b[31;1m╔"@, 1, rep('═', inner), inner);
    lemma_piece_concat("\x1b[31;1m╔"@ + rep('═', inner), 1 + inner, "╗\x1b[0m"@, 1);
    let l = "\x1b[31;1m╠"@;
    lemma_piece_concat(l, 1, rep('═', left_w), left_w);
    lemma_piece_concat(l + rep('═', left_w), 1 + left_w, "\x1b[96m╦\x1b[31;1m"@, 1);
    lemma_piece_concat(l + rep('═', left_w) + "\x1b[96m╦\x1b[31;1m"@, 2 + left_w, rep('═', right_w), right_w);
    lemma_piece_concat(
        l + rep('═', left_w) + "\x1b[96m╦\x1b[31;1m"@ + rep('═', right_w),
        2 + left_w + right_w,
        "╣\x1b[0m"@,
        1,
    );
    let b = "\x1b[31;1m╚"@;
    lemma_piece_concat(b, 1, rep('═', left_w), left_w);
    lemma_piece_concat(b + rep('═', left_w), 1 + left_w, "\x1b[96m╩\x1b[31;1m"@, 1);
    lemma_piece_concat(b + rep('═', left_w) + "\x1b[96m╩\x1b[31;1m"@, 2 + left_w, rep('═', right_w), right_w);
    lemma_piece_concat(
        b + rep('═', left_w) + "\x1b[96m╩\x1b[31;1m"@ + rep('═', right_w),
        2 + left_w + right_w,
        "╝\x1b[0m"@,
        1,
    );
    let gap = sat_sub(inner, 1 + 11 + 1 + (vis(dex) + 3 + vis(display) + 1));
    lemma_piece_rep(' ', gap);
    lemma_then_reset(dex);
    lemma_then_reset(display);
    let t0 = "\x1b[31;1m║\x1b[0m \x1b[0m\x1b[92;1m[ POKÉDEX ]\x1b[0m "@;
    let l0 = "\x1b[0m\x1b[2m"@;
    let m = seq![' ', '·', ' '] + bold();
    let n = seq![' '] + red() + seq!['║'] + rst();
    let (wd, wn) = (vis(dex), vis(display));
    lemma_piece_concat(t0, 14, rep(' ', gap), gap);
    lemma_piece_concat(t0 + rep(' ', gap), 14 + gap, l0, 0);
    let p1 = t0 + rep(' ', gap) + l0;
    lemma_piece_concat(p1, 14 + gap, dex + rst(), wd);
    lemma_piece_concat(p1 + (dex + rst()), 14 + gap + wd, m, 3);
    lemma_piece_concat(p1 + (dex + rst()) + m, 17 + gap + wd, display + rst(), wn);
    lemma_piece_concat(p1 + (dex + rst()) + m + (display + rst()), 17 + gap + wd + wn, n, 2);
    assert(dex_title_line(dex, display, inner) =~= p1 + (dex + rst()) + m + (display + rst()) + n);
}

proof fn lemma_body_terminated(als: Seq<Seq<char>>, rs: Seq<Option<Seq<char>>>, left_w: nat, right_w: nat, n: nat)
    ensures
        dex_body(als, rs, left_w, right_w, n) == terminated(
            Seq::new(n, |i: int| dex_body_line(get_line(als, i), get_row(rs, i), left_w, right_w)),
        ),
    decreases n,
{
    let ls = Seq::new(n, |i: int| dex_body_line(get_line(als, i), get_row(rs, i), left_w, right_w));
    if n == 0 {
        assert(ls =~= Seq::<Seq<char>>::empty());
    } else {
        let prev = Seq::new(
            (n - 1) as nat,
            |i: int| dex_body_line(get_line(als, i), get_row(rs, i), left_w, right_w),
        );
        lemma_body_terminated(als, rs, left_w, right_w, (n - 1) as nat);
        lemma_terminated_push(prev, ls[n - 1]);
        assert(ls =~= prev.push(ls[n - 1]));
    }
}

/// The Pokédex frame fills the terminal: `render_pokedex` prints exactly the
/// frame's lines, every one of them (edges, title and body alike) is the
/// sprite cell's width plus the info cell's plus three borders, and when the
/// terminal leaves the info cell at least its 30 columns, that is the
/// terminal's width.
pub proof fn law_pokedex_fills_width(name: Seq<char>, art: Seq<char>, t: Seq<char>, term_w: nat)
    requires
        dex_frame_fits(name, art, t, term_w),
    ensures
        render_pokedex_spec(name, art, Some(t), term_w) == terminated(dex_frame_lines(name, art, t, term_w)),
        forall|k: int|
            0 <= k < dex_frame_lines(name, art, t, term_w).len() ==> vis(
                #[trigger] dex_frame_lines(name, art, t, term_w)[k],
            ) == dex_left_w(art) + dex_right_w(art, term_w) + 3,
        dex_left_w(art) + 33 <= term_w ==> dex_left_w(art) + dex_right_w(art, term_w) + 3 == term_w,
{
    let als = art_lines_of(art);
    let left_w = dex_left_w(art);
    let right_w = dex_right_w(art, term_w);
    let bar_w = dex_bar_w(art, term_w);
    let dex = dex_dex(name, t);
    let display = dex_display(name, t);
    let vals = dex_vals(t);
    let rs = dex_rows(dex, display, dex_types(t), vals, right_w, bar_w);
    let n = nat_max(als.len(), rs.len());
    let head = seq![
        dex_top_line(left_w + 1 + right_w),
        dex_title_line(dex, display, left_w + 1 + right_w),
        dex_split_line(left_w, right_w),
    ];
    let body = Seq::new(n, |i: int| dex_body_line(get_line(als, i), get_row(rs, i), left_w, right_w));
    let foot = seq![dex_bottom_line(left_w, right_w)];
    let ls = dex_frame_lines(name, art, t, term_w);
    assert(ls == head + body + foot);
    // the text is the lines, each with its newline
    lemma_body_terminated(als, rs, left_w, right_w, n);
    lemma_terminated_concat(head, body);
    lemma_terminated_concat(head + body, foot);
    assert(terminated(head) =~= crate::layout::dex_header(dex, display, left_w, right_w)) by {
        let h1 = head.drop_first();
        let h2 = h1.drop_first();
        let h3 = h2.drop_first();
        assert(h3 =~= Seq::<Seq<char>>::empty());
        assert(terminated(h3) =~= Seq::<char>::empty());
        assert(terminated(h2) == h2[0] + seq!['\n'] + terminated(h3));
        assert(terminated(h1) == h1[0] + seq!['\n'] + terminated(h2));
        assert(terminated(head) == head[0] + seq!['\n'] + terminated(h1));
        assert(h1[0] == head[1]);
        assert(h2[0] == head[2]);
    }
    assert(terminated(foot) =~= crate::layout::dex_footer(left_w, right_w)) by {
        let f1 = foot.drop_first();
        assert(f1 =~= Seq::<Seq<char>>::empty());
        assert(terminated(f1) =~= Seq::<char>::empty());
        assert(terminated(foot) == foot[0] + seq!['\n'] + terminated(f1));
    }
    // every line has the frame's width
    lemma_frame_edges(dex, display, left_w, right_w);
    lemma_dex_rows_fit(dex, display, dex_types(t), vals, right_w, bar_w);
    assert forall|k: int| 0 <= k < ls.len() implies vis(#[trigger] ls[k]) == left_w + right_w + 3 by {
        if 3 <= k < 3 + n {
            let i = k - 3;
            assert(ls[k] == body[i]);
            if i < als.len() {
                lemma_max_line_vis(als, i);
            }
            assert(vis(get_line(als, i)) + 4 <= left_w) by {
                if i >= als.len() {
                    crate::text::lemma_vis_plain(Seq::<char>::empty());
                }
            }
            lemma_body_line(get_line(als, i), get_row(rs, i), left_w, right_w);
        }
    }
}

} // verus!
