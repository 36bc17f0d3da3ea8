use pokemon_colorscripts::ansi::image_to_ansi_art;
use pokemon_colorscripts::cli::{generation_range, random_index};
use pokemon_colorscripts::layout::{art_lines, render_pokedex, render_with_info};
use pokemon_colorscripts::panel::{build_stats_panel, display_name_from_stats, parse_stats_text, type_color};
use pokemon_colorscripts::scrape::{extract_pokemon_slugs, fetch_pokemon_stats, names_from_list, nameslist_content};
use pokemon_colorscripts::sprite::Sprite;
use pokemon_colorscripts::text::visible_len;

const PAGE: &str = "<title>Farfetch'd Pokédex: stats</title>\
    <th>Type</th><a class=\"type-icon type-normal\"></a><a class=\"type-icon type-flying\"></a></tr>\
    <th>HP</th><td class=\"cell-num\">52</td><th>Attack</th><td class=\"cell-num\">90</td>\
    <th>Defense</th><td class=\"cell-num\">55</td><th>Sp. Atk</th><td class=\"cell-num\">58</td>\
    <th>Sp. Def</th><td class=\"cell-num\">62</td><th>Speed</th><td class=\"cell-num\">60</td>";

#[test]
fn stats_sheet_reads_back() {
    let t = fetch_pokemon_stats(PAGE, "farfetchd", 83).ok().unwrap();
    let s = parse_stats_text(&t);
    assert_eq!(s.dex_num.as_deref(), Some("#083"));
    assert_eq!(s.display_name.as_deref(), Some("Farfetch'd"));
    assert_eq!(s.types_raw.as_deref(), Some("Normal/Flying"));
    assert_eq!(s.values, vec![52, 90, 55, 58, 62, 60]);
    assert_eq!(display_name_from_stats("farfetchd", Some(&t)), "Farfetch'd");
}

#[test]
fn names_list_reads_back() {
    let names: Vec<String> = vec!["mr-mime", "type-null", "nidoran-f"].into_iter().map(String::from).collect();
    assert_eq!(names_from_list(&nameslist_content(&names)), names);
}

#[test]
fn slugs_are_unique() {
    let html = "<a href=\"/sprites/a\"><a href=\"/sprites/b\"><a href=\"/sprites/a\"><a href=\"/sprites/b\">";
    let s = extract_pokemon_slugs(html);
    assert_eq!(s, vec!["a", "b"]);
}

#[test]
fn generations_follow_one_another() {
    for total in [0usize, 151, 500, 1025, 2000] {
        assert_eq!(generation_range(1, total).0, 0);
        for g in 1..9 {
            assert_eq!(generation_range(g, total).1, generation_range(g + 1, total).0);
        }
        assert_eq!(generation_range(9, total).1, total.min(1025));
    }
}

#[test]
fn random_pick_stays_in_its_generation() {
    for g in 1..=9usize {
        let (start, end) = generation_range(g, 1025);
        for nanos in [0usize, 1, 999_999_999, 123_456_789] {
            let i = random_index(Some(g), 1025, nanos).unwrap();
            assert!(start <= i && i < end);
        }
    }
}

#[test]
fn stats_panel_is_a_box() {
    for text in [
        "#025\nPikachu\nElectric\nHP:35\nAtk:55\nDef:40\nSpA:50\nSpD:50\nSpe:90\n",
        "#122\nMr. Mime\nPsychic/Fairy\nHP:40\n",
        "",
    ] {
        let panel = build_stats_panel(text);
        let w = visible_len(&panel[0]);
        assert!(panel.iter().all(|l| visible_len(l) == w));
    }
}

fn sprite(w: u32, h: u32) -> Sprite {
    let mut data = Vec::new();
    for i in 0..(w * h) {
        let a = if i % 3 == 0 { 0 } else { 255 };
        data.extend_from_slice(&[(i % 256) as u8, 7, 9, a]);
    }
    Sprite::from_raw(w, h, data).unwrap()
}

#[test]
fn art_rows_read_back_at_the_sprite_width() {
    let s = sprite(5, 7);
    let art = image_to_ansi_art(&s);
    let rows = art_lines(&art);
    assert_eq!(rows.len(), 4);
    assert!(rows.iter().all(|r| visible_len(r) == 5 && r.ends_with("\x1b[0m")));
}

#[test]
fn info_panel_starts_in_one_column() {
    let art = image_to_ansi_art(&sprite(6, 30));
    let stats = "#025\nPikachu\nElectric\nHP:35\nAtk:55\nDef:40\nSpA:50\nSpD:50\nSpe:90\n";
    let panel = build_stats_panel(stats);
    let out = render_with_info("pikachu", &art, true, true, Some(stats));
    let lines: Vec<&str> = out.lines().collect();
    assert_eq!(lines.len(), 15);
    let off = (15 - panel.len()) / 2;
    for (i, l) in lines.iter().enumerate() {
        let p = if i >= off && i - off < panel.len() { visible_len(&panel[i - off]) } else { 0 };
        assert_eq!(visible_len(l), 6 + 3 + p);
    }
}

#[test]
fn pokedex_frame_fills_the_terminal() {
    let art = image_to_ansi_art(&sprite(20, 30));
    let stats = "#006\nCharizard\nFire/Flying\nHP:78\nAtk:84\nDef:78\nSpA:109\nSpD:85\nSpe:100\n";
    for term_w in [57usize, 80, 120, 200] {
        let out = render_pokedex("charizard", &art, Some(stats), term_w);
        let lines: Vec<&str> = out.lines().collect();
        assert_eq!(lines.len(), 3 + 15 + 1);
        assert!(lines.iter().all(|l| visible_len(l) == term_w));
    }
    // narrower than the sprite cell and the info cell's minimum: the frame keeps 30 columns
    let out = render_pokedex("charizard", &art, Some(stats), 40);
    assert!(out.lines().all(|l| visible_len(l) == 24 + 30 + 3));
}

#[test]
fn type_colors_take_no_columns() {
    for t in ["Normal", "Fire", "Water", "Electric", "Grass", "Ice", "Fighting", "Poison", "Ground",
        "Flying", "Psychic", "Bug", "Rock", "Ghost", "Dragon", "Dark", "Steel", "Fairy", "???"] {
        let c = type_color(t);
        assert_eq!(visible_len(c), 0);
        assert_eq!(visible_len(&format!("{}{}", c, t)), t.chars().count());
    }
}

#[test]
fn art_rows_show_only_spaces_and_half_blocks() {
    let art = image_to_ansi_art(&sprite(7, 9));
    for row in art_lines(&art) {
        let mut esc = false;
        for c in row.chars() {
            if esc {
                if c == 'm' {
                    esc = false;
                }
            } else if c == '\x1b' {
                esc = true;
            } else {
                assert!(c == ' ' || c == '▀' || c == '▄');
            }
        }
    }
}

#[test]
fn a_written_sheet_reads_back_into_the_panel() {
    let t = fetch_pokemon_stats(PAGE, "farfetchd", 83).ok().unwrap();
    let panel = build_stats_panel(&t);
    assert_eq!(panel.len(), 13);
    assert!(panel[1].contains("#083\x1b[0m · \x1b[1mFarfetch'd"));
    assert!(panel[4].contains("HP  ") && panel[4].contains(" 52"));
    assert!(panel[9].contains("Spe ") && panel[9].contains(" 60"));
    assert!(panel[11].contains("377"));
}
