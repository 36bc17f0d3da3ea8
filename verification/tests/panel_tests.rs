use pokemon_colorscripts::panel::{
    build_stats_panel, display_name_from_stats, make_bar, parse_stats_text, stat_bar_color,
    stats_total, type_color,
};
use pokemon_colorscripts::text::visible_len;

const PIKACHU: &str = "#025\nPikachu\nElectric\nHP:35\nAtk:55\nDef:40\nSpA:50\nSpD:50\nSpe:90\n";

#[test]
fn type_colors() {
    assert_eq!(type_color("Fire"), "\x1b[38;5;202m");
    assert_eq!(type_color("Electric"), "\x1b[33;1m");
    assert_eq!(type_color("Fairy"), "\x1b[95m");
    assert_eq!(type_color("Dragon"), "\x1b[34;1m");
    assert_eq!(type_color("Unknown"), "\x1b[37m");
    assert_eq!(type_color("fire"), "\x1b[37m");
}

#[test]
fn stat_bar_colors_by_magnitude() {
    assert_eq!(stat_bar_color(0), "\x1b[31m");
    assert_eq!(stat_bar_color(49), "\x1b[31m");
    assert_eq!(stat_bar_color(50), "\x1b[33m");
    assert_eq!(stat_bar_color(79), "\x1b[33m");
    assert_eq!(stat_bar_color(80), "\x1b[32m");
    assert_eq!(stat_bar_color(109), "\x1b[32m");
    assert_eq!(stat_bar_color(110), "\x1b[92m");
    assert_eq!(stat_bar_color(255), "\x1b[92m");
}

#[test]
fn make_bar_rounds_to_nearest() {
    assert_eq!(make_bar(35, 255, 15), format!("{}{}", "█".repeat(2), "░".repeat(13)));
    assert_eq!(make_bar(50, 255, 15), format!("{}{}", "█".repeat(3), "░".repeat(12)));
    assert_eq!(make_bar(90, 255, 15), format!("{}{}", "█".repeat(5), "░".repeat(10)));
    // exactly half a cell rounds up
    assert_eq!(make_bar(1, 2, 1), "█");
    assert_eq!(make_bar(1, 4, 2), "█░");
}

#[test]
fn make_bar_edges() {
    assert_eq!(make_bar(0, 255, 15), "░".repeat(15));
    assert_eq!(make_bar(255, 255, 15), "█".repeat(15));
    assert_eq!(make_bar(300, 255, 4), "████");
    assert_eq!(make_bar(7, 255, 0), "");
    assert_eq!(make_bar(5, 0, 4), "████");
    assert_eq!(make_bar(0, 0, 4), "░░░░");
}

#[test]
fn parse_stats_text_reads_header_and_values() {
    let s = parse_stats_text(PIKACHU);
    assert_eq!(s.dex_num.as_deref(), Some("#025"));
    assert_eq!(s.display_name.as_deref(), Some("Pikachu"));
    assert_eq!(s.types_raw.as_deref(), Some("Electric"));
    assert_eq!(s.values, vec![35, 55, 40, 50, 50, 90]);
}

#[test]
fn parse_stats_text_skips_lines_without_numbers() {
    let s = parse_stats_text("#001\nBulbasaur\nGrass/Poison\nHP: 45 \nnot a stat\nAtk:x\nDef:-1\nSpe:+7\r\n");
    assert_eq!(s.values, vec![45, 7]);
    let e = parse_stats_text("");
    assert!(e.dex_num.is_none());
    assert!(e.display_name.is_none());
    assert!(e.types_raw.is_none());
    assert!(e.values.is_empty());
}

#[test]
fn stats_total_sums_or_overflows() {
    assert_eq!(stats_total(&vec![35, 55, 40, 50, 50, 90]), Some(320));
    assert_eq!(stats_total(&vec![]), Some(0));
    assert_eq!(stats_total(&vec![u32::MAX, 1]), None);
}

fn framed(s: &str, inner: usize) -> String {
    format!(
        "\x1b[1;37m║\x1b[0m{}{}\x1b[1;37m║\x1b[0m",
        s,
        " ".repeat(inner - visible_len(s))
    )
}

#[test]
fn build_stats_panel_pikachu() {
    let panel = build_stats_panel(PIKACHU);
    let inner = 26;
    let eq = "═".repeat(inner);
    let bar = |f: usize| format!("{}{}", "█".repeat(f), "░".repeat(15 - f));
    let expected = vec![
        format!("\x1b[1;37m╔{}╗\x1b[0m", eq),
        framed(" \x1b[2m#025\x1b[0m · \x1b[1mPikachu\x1b[0m", inner),
        framed(" \x1b[33;1mElectric\x1b[0m", inner),
        format!("\x1b[1;37m╠{}╣\x1b[0m", eq),
        framed(&format!(" \x1b[2mHP  \x1b[0m\x1b[31m 35  {}\x1b[0m", bar(2)), inner),
        framed(&format!(" \x1b[2mAtk \x1b[0m\x1b[33m 55  {}\x1b[0m", bar(3)), inner),
        framed(&format!(" \x1b[2mDef \x1b[0m\x1b[31m 40  {}\x1b[0m", bar(2)), inner),
        framed(&format!(" \x1b[2mSpA \x1b[0m\x1b[33m 50  {}\x1b[0m", bar(3)), inner),
        framed(&format!(" \x1b[2mSpD \x1b[0m\x1b[33m 50  {}\x1b[0m", bar(3)), inner),
        framed(&format!(" \x1b[2mSpe \x1b[0m\x1b[32m 90  {}\x1b[0m", bar(5)), inner),
        format!("\x1b[1;37m╠{}╣\x1b[0m", eq),
        framed(" \x1b[2mBST\x1b[0m \x1b[1m320\x1b[0m", inner),
        format!("\x1b[1;37m╚{}╝\x1b[0m", eq),
    ];
    assert_eq!(panel, expected);
}

#[test]
fn build_stats_panel_two_types_and_defaults() {
    let panel = build_stats_panel("#001\nBulbasaur\nGrass/ Poison\n");
    // no stats: header rows, two dividers and a BST of zero
    assert_eq!(panel.len(), 7);
    assert_eq!(
        panel[2],
        framed(" \x1b[32;1mGrass\x1b[0m / \x1b[35mPoison\x1b[0m", 18)
    );
    assert_eq!(panel[5], framed(" \x1b[2mBST\x1b[0m \x1b[1m  0\x1b[0m", 18));
    let empty = build_stats_panel("");
    assert_eq!(empty[1], framed(" \x1b[2m#???\x1b[0m · \x1b[1m???\x1b[0m", 12));
}

#[test]
fn build_stats_panel_more_than_six_stats() {
    let panel = build_stats_panel("#1\nX\nNormal\nA:1\nB:2\nC:3\nD:4\nE:5\nF:6\nG:7\n");
    assert!(panel[10].contains("\x1b[2m??? \x1b[0m"));
}

#[test]
fn display_name_from_stats_cases() {
    assert_eq!(display_name_from_stats("pikachu", Some(PIKACHU)), "Pikachu");
    assert_eq!(display_name_from_stats("pikachu", None), "pikachu");
    assert_eq!(display_name_from_stats("pikachu", Some("#025\n\nElectric\n")), "pikachu");
    assert_eq!(display_name_from_stats("pikachu", Some("#025")), "pikachu");
    assert_eq!(display_name_from_stats("mr-mime", Some("#122\nMr. Mime\n")), "Mr. Mime");
}
