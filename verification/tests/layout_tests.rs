use pokemon_colorscripts::layout::{art_lines, max_visible, render_pokedex, render_with_info};
use pokemon_colorscripts::panel::build_stats_panel;
use pokemon_colorscripts::text::visible_len;

const BULBASAUR: &str =
    "#001\nBulbasaur\nGrass/Poison\nHP:45\nAtk:49\nDef:49\nSpA:65\nSpD:65\nSpe:45\n";

#[test]
fn art_lines_between_first_and_last_newline() {
    assert_eq!(art_lines("\nab\nc\x1b[0m\n"), vec!["ab", "c\x1b[0m"]);
    assert_eq!(art_lines("\n\n"), vec![""]);
    assert!(art_lines("\n").is_empty());
    assert!(art_lines("").is_empty());
    assert!(art_lines("no newline").is_empty());
}

#[test]
fn max_visible_of_lines() {
    let ls = vec!["ab".to_string(), "\x1b[31mabcd\x1b[0m".to_string(), "".to_string()];
    assert_eq!(max_visible(&ls), 4);
    assert_eq!(max_visible(&vec![]), 0);
}

#[test]
fn render_with_info_without_panel() {
    let art = "\nab\x1b[0m\n";
    assert_eq!(render_with_info("bulbasaur", art, false, false, Some(BULBASAUR)), format!("Bulbasaur\n{}", art));
    assert_eq!(render_with_info("bulbasaur", art, true, false, None), format!("bulbasaur\n{}", art));
    assert_eq!(render_with_info("bulbasaur", art, true, true, None), art);
}

#[test]
fn render_with_info_panel_beside_short_art() {
    let art = "\nAB\x1b[0m\nC\x1b[0m\n";
    let panel = build_stats_panel(BULBASAUR);
    let out = render_with_info("bulbasaur", art, true, false, Some(BULBASAUR));
    let mut expected = String::from("Bulbasaur\n");
    // the art (two rows, widest 2) is shorter than the panel: no offset
    let arts = ["AB", "C"];
    for (i, p) in panel.iter().enumerate() {
        let a = if i < arts.len() { arts[i] } else { "" };
        expected.push_str(&format!("{}\x1b[0m{}{}\n", a, " ".repeat(2 + 3 - visible_len(a)), p));
    }
    assert_eq!(out, expected);
}

#[test]
fn render_with_info_panel_centered_beside_tall_art() {
    let rows: Vec<String> = (0..20).map(|i| format!("{}\x1b[0m", "x".repeat(i % 5))).collect();
    let art = format!("\n{}\n", rows.join("\n"));
    let stats = "#132\nDitto\nNormal\nHP:48\n";
    let panel = build_stats_panel(stats);
    assert_eq!(panel.len(), 8);
    let out = render_with_info("ditto", &art, true, true, Some(stats));
    let lines: Vec<&str> = out.split('\n').collect();
    assert_eq!(lines.len(), 21);
    let off = (20 - 8) / 2;
    for i in 0..20 {
        let a = "x".repeat(i % 5);
        let p = if i >= off && i - off < 8 { panel[i - off].as_str() } else { "" };
        assert_eq!(lines[i], format!("{}\x1b[0m{}{}", a, " ".repeat(4 + 3 - (i % 5)), p));
    }
    assert_eq!(lines[20], "");
}

#[test]
fn render_pokedex_without_stats_prints_name_and_art() {
    let art = "\nAB\x1b[0m\n";
    assert_eq!(render_pokedex("bulbasaur", art, None, 80), format!("bulbasaur\n{}", art));
}

#[test]
fn render_pokedex_frame() {
    let art = "\nAB\x1b[0m\n";
    let out = render_pokedex("bulbasaur", art, Some(BULBASAUR), 80);
    let lines: Vec<&str> = out.split('\n').collect();
    // header 3, body 11 (rows of the info cell), bottom 1, then the final newline
    assert_eq!(lines.len(), 16);
    assert_eq!(lines[15], "");
    assert_eq!(lines[0], format!("\x1b[31;1m╔{}╗\x1b[0m", "═".repeat(78)));
    assert_eq!(
        lines[1],
        format!(
            "\x1b[31;1m║\x1b[0m \x1b[0m\x1b[92;1m[ POKÉDEX ]\x1b[0m {}\x1b[0m\x1b[2m#001\x1b[0m · \x1b[1mBulbasaur\x1b[0m \x1b[31;1m║\x1b[0m",
            " ".repeat(48)
        )
    );
    assert_eq!(lines[2], format!("\x1b[31;1m╠{}\x1b[96m╦\x1b[31;1m{}╣\x1b[0m", "═".repeat(6), "═".repeat(71)));
    assert_eq!(
        lines[3],
        format!(
            "\x1b[31;1m║\x1b[0m  AB\x1b[0m  \x1b[96m║\x1b[0m  \x1b[1;97mBulbasaur\x1b[0m{}\x1b[31;1m║\x1b[0m",
            " ".repeat(60)
        )
    );
    let types = "\x1b[32;1mGrass\x1b[0m / \x1b[35mPoison\x1b[0m";
    assert_eq!(
        lines[4],
        format!(
            "\x1b[31;1m║\x1b[0m{}\x1b[0m{}\x1b[96m║\x1b[0m  \x1b[2m#001\x1b[0m{} {}\x1b[0m \x1b[31;1m║\x1b[0m",
            "  ",
            "    ",
            " ".repeat(71 - (2 + 4 + 14 + 2)),
            types
        )
    );
    assert_eq!(lines[5], format!("\x1b[31;1m║\x1b[0m  \x1b[0m    \x1b[96m╠\x1b[31;1m{}╣\x1b[0m", "═".repeat(71)));
    let bar = format!("{}{}", "█".repeat(10), "░".repeat(48));
    assert_eq!(
        lines[6],
        format!("\x1b[31;1m║\x1b[0m  \x1b[0m    \x1b[96m║\x1b[0m  \x1b[2mHP  \x1b[0m \x1b[31m 45  {}\x1b[0m \x1b[31;1m║\x1b[0m", bar)
    );
    assert_eq!(
        lines[13],
        format!("\x1b[31;1m║\x1b[0m  \x1b[0m    \x1b[96m║\x1b[0m  \x1b[2mBST\x1b[0m  \x1b[1m318\x1b[0m{}\x1b[31;1m║\x1b[0m", " ".repeat(71 - 10))
    );
    assert_eq!(lines[14], format!("\x1b[31;1m╚{}\x1b[96m╩\x1b[31;1m{}╝\x1b[0m", "═".repeat(6), "═".repeat(71)));
}

fn strip_escapes(s: &str) -> String {
    let mut out = String::new();
    let mut esc = false;
    for c in s.chars() {
        if esc {
            if c == 'm' {
                esc = false;
            }
        } else if c == '\x1b' {
            esc = true;
        } else {
            out.push(c);
        }
    }
    out
}

#[test]
fn render_pokedex_frame_with_a_non_ascii_name() {
    let stats = "#669\nFlabébé\nFairy\nHP:44\nAtk:38\nDef:39\nSpA:61\nSpD:79\nSpe:42\n";
    let out = render_pokedex("flabebe", "\nX\n", Some(stats), 40);
    let lines: Vec<&str> = out.lines().collect();
    assert_eq!(lines.len(), 15);
    assert!(lines.iter().all(|l| visible_len(l) == 40));
    assert_eq!(
        strip_escapes(lines[1]),
        format!("║ [ POKÉDEX ] {}#669 · Flabébé ║", " ".repeat(10))
    );
}
