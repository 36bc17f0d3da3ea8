use pokemon_colorscripts::scrape::{
    capitalize, extract_base_stats, extract_display_name, extract_pokemon_slugs, extract_types,
    fetch_pokemon_stats, names_from_list, nameslist_content, output_path, pokedex_index,
    pokedex_url, progress_label, should_generate, summary_line, tally, Outcome, StatsError,
};

const CHARIZARD_PAGE: &str = "<html><head><title>Charizard Pokédex: stats, moves, evolution &amp; locations | Pokémon Database</title></head>\
    <body><table class=\"vitals-table\"><tr><th>National №</th><td>0006</td></tr>\
    <tr><th>Type</th>\n<td>\n<a class=\"type-icon type-fire\" href=\"/type/fire\">Fire</a>\n\
    <a class=\"type-icon type-flying\" href=\"/type/flying\">Flying</a>\n</td>\n</tr></table>\
    <table><tr><th>HP</th>\n<td class=\"cell-num\">78</td></tr>\
    <tr><th>Attack</th>\n<td class=\"cell-num\">84</td></tr>\
    <tr><th>Defense</th>\n<td class=\"cell-num\">78</td></tr>\
    <tr><th>Sp. Atk</th>\n<td class=\"cell-num\">109</td></tr>\
    <tr><th>Sp. Def</th>\n<td class=\"cell-num\">85</td></tr>\
    <tr><th>Speed</th>\n<td class=\"cell-num\">100</td></tr></table>\
    <table><tr><th>HP</th>\n<td class=\"cell-num\">1</td></tr></table></body></html>";

#[test]
fn capitalize_first_character() {
    assert_eq!(capitalize("pikachu"), "Pikachu");
    assert_eq!(capitalize("fire"), "Fire");
    assert_eq!(capitalize(""), "");
    assert_eq!(capitalize("Mew"), "Mew");
    assert_eq!(capitalize("1abc"), "1abc");
}

#[test]
fn capitalize_non_ascii() {
    assert_eq!(capitalize("élan"), "Élan");
    assert_eq!(capitalize("ßx"), "SSx");
}

#[test]
fn slugs_in_page_order_without_duplicates() {
    let html = "<a class=\"infocard\" href=\"/sprites/bulbasaur\">x</a>\
        <a href=\"/sprites/ivysaur\">y</a>\
        <a href=\"/sprites/bulbasaur\">z</a>\
        <a href=\"/sprites/#gen1\">g</a>\
        <a href=\"/sprites/sub/page\">s</a>\
        <a href=\"/sprites/\">e</a>\
        <a href=\"/sprites/venusaur\">v</a>";
    assert_eq!(extract_pokemon_slugs(html), vec!["bulbasaur", "ivysaur", "venusaur"]);
}

#[test]
fn slugs_edge_cases() {
    assert!(extract_pokemon_slugs("").is_empty());
    assert!(extract_pokemon_slugs("no links here").is_empty());
    // an unterminated href ends the scan
    assert_eq!(
        extract_pokemon_slugs("<a href=\"/sprites/mew\"></a><a href=\"/sprites/mewtwo"),
        vec!["mew"]
    );
}

#[test]
fn display_name_from_title() {
    assert_eq!(extract_display_name(CHARIZARD_PAGE), Some("Charizard".to_string()));
    assert_eq!(
        extract_display_name("<title>Mr. Mime Pokédex: stats</title>"),
        Some("Mr. Mime".to_string())
    );
    assert_eq!(
        extract_display_name("<title>Nidoran♂ Pokemon list</title>"),
        Some("Nidoran♂".to_string())
    );
    assert_eq!(extract_display_name("<title>  Abra Pokédex"), Some("Abra".to_string()));
}

#[test]
fn display_name_missing() {
    assert_eq!(extract_display_name("<html>no title</html>"), None);
    assert_eq!(extract_display_name("<title>Database</title>"), None);
    assert_eq!(extract_display_name("<title>Abra</title> Pokédex"), None);
}

#[test]
fn types_from_the_type_row() {
    assert_eq!(extract_types(CHARIZARD_PAGE), vec!["Fire", "Flying"]);
    let one = "<th>Type</th><td><a class=\"type-icon type-electric\" href=\"/type/electric\">E</a></td></tr>";
    assert_eq!(extract_types(one), vec!["Electric"]);
}

#[test]
fn types_at_most_two_and_only_in_the_row() {
    let three = "<th>Type</th><a class=\"type-icon type-a\"></a><a class=\"type-icon type-b\"></a>\
        <a class=\"type-icon type-c\"></a></tr>";
    assert_eq!(extract_types(three), vec!["A", "B"]);
    let after_row = "<th>Type</th><td></td></tr><a class=\"type-icon type-fire\"></a>";
    assert!(extract_types(after_row).is_empty());
    assert!(extract_types("<a class=\"type-icon type-fire\"></a>").is_empty());
    let empty_slug = "<th>Type</th><a class=\"type-icon type-\"></a><a class=\"type-icon type-ice\"></a>";
    assert_eq!(extract_types(empty_slug), vec!["Ice"]);
}

#[test]
fn base_stats_in_order() {
    assert_eq!(extract_base_stats(CHARIZARD_PAGE), vec![78, 84, 78, 109, 85, 100]);
}

#[test]
fn base_stats_missing_ones_are_zero() {
    let html = "<th>HP</th><td class=\"cell-num\">45</td>\
        <th>Attack</th><td class=\"cell-num\">x</td>\
        <th>Defense</th><td class=\"cell-num\"> 49 </td>\
        <th>Speed</th><td class=\"cell-num\">45</td>";
    assert_eq!(extract_base_stats(html), vec![45, 0, 49, 0, 0, 45]);
    assert_eq!(extract_base_stats(""), vec![0, 0, 0, 0, 0, 0]);
}

#[test]
fn stats_sheet_from_a_page() {
    let t = fetch_pokemon_stats(CHARIZARD_PAGE, "charizard", 6).ok().unwrap();
    assert_eq!(t, "#006\nCharizard\nFire/Flying\nHP:78\nAtk:84\nDef:78\nSpA:109\nSpD:85\nSpe:100\n");
}

#[test]
fn stats_sheet_number_and_name_fallback() {
    let page = "<th>Type</th><a class=\"type-icon type-grass\"></a></tr>";
    let t = fetch_pokemon_stats(page, "bulbasaur", 1234).ok().unwrap();
    assert_eq!(t, "#1234\nBulbasaur\nGrass\nHP:0\nAtk:0\nDef:0\nSpA:0\nSpD:0\nSpe:0\n");
}

#[test]
fn stats_sheet_without_types_is_an_error() {
    let r = fetch_pokemon_stats("<title>Mew Pokédex</title>", "mew", 151);
    assert!(matches!(r, Err(StatsError::NoTypes)));
    match r {
        Err(e) => assert_eq!(e.message(), "Could not parse types — page structure may have changed"),
        Ok(_) => panic!("expected an error"),
    }
}

#[test]
fn nameslist_round_trip() {
    let names = vec!["bulbasaur".to_string(), "ivysaur".to_string(), "mr-mime".to_string()];
    let content = nameslist_content(&names);
    assert_eq!(content, "bulbasaur\nivysaur\nmr-mime\n");
    assert_eq!(names_from_list(&content), names);
    assert_eq!(nameslist_content(&vec![]), "\n");
}

#[test]
fn names_list_is_trimmed() {
    assert_eq!(names_from_list("a\n  b \n\n c\r\n"), vec!["a", "b", "c"]);
    assert!(names_from_list("").is_empty());
}

#[test]
fn pokedex_index_is_one_based() {
    let content = "bulbasaur\n\nivysaur\nvenusaur\n";
    assert_eq!(pokedex_index(content, "bulbasaur"), 1);
    assert_eq!(pokedex_index(content, "venusaur"), 3);
    assert_eq!(pokedex_index(content, "mew"), 1);
}

#[test]
fn file_names_and_messages() {
    assert_eq!(output_path("colorscripts", "pikachu"), "colorscripts/pikachu.txt");
    assert_eq!(pokedex_url("charizard"), "https://pokemondb.net/pokedex/charizard");
    assert_eq!(progress_label(0, 10, "bulbasaur", ""), "[1/10] bulbasaur... ");
    assert_eq!(progress_label(4, 10, "pikachu", " stats"), "[5/10] pikachu stats... ");
    assert_eq!(summary_line("\nDone. ", 3, 2, 1), "\nDone. 3 generated, 2 skipped, 1 failed.");
    assert_eq!(summary_line("Stats: ", 0, 0, 0), "Stats: 0 generated, 0 skipped, 0 failed.");
}

#[test]
fn generate_when_forced_or_missing() {
    assert!(should_generate(true, true));
    assert!(should_generate(true, false));
    assert!(should_generate(false, false));
    assert!(!should_generate(false, true));
}

#[test]
fn types_of_a_row_are_capitalized() {
    let h1 = "<th>Type</th><td><a class=\"type-icon type-grass\">G</a></td></tr><tr><td><a class=\"type-icon type-poison\">P</a>";
    assert_eq!(extract_types(h1), vec!["Grass"]);
    assert!(extract_types("<p>no types</p>").is_empty());
    assert_eq!(capitalize("mr-mime"), "Mr-mime");
    assert_eq!(capitalize("F"), "F");
}

#[test]
fn tally_counts_each_outcome() {
    let os = vec![Outcome::Generated, Outcome::Skipped, Outcome::Failed, Outcome::Generated, Outcome::Skipped];
    assert_eq!(tally(&os), (2, 2, 1));
    assert_eq!(tally(&vec![]), (0, 0, 0));
}
