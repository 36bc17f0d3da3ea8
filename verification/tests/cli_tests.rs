use pokemon_colorscripts::cli::{
    generation_range, parse_args, random_index, render_pokemon, terminal_width_from, Command,
};

fn args(v: &[&str]) -> Vec<String> {
    v.iter().map(|s| s.to_string()).collect()
}

#[test]
fn generation_ranges_of_the_full_list() {
    assert_eq!(generation_range(1, 1025), (0, 151));
    assert_eq!(generation_range(2, 1025), (151, 251));
    assert_eq!(generation_range(3, 1025), (251, 386));
    assert_eq!(generation_range(4, 1025), (386, 493));
    assert_eq!(generation_range(5, 1025), (493, 649));
    assert_eq!(generation_range(6, 1025), (649, 721));
    assert_eq!(generation_range(7, 1025), (721, 809));
    assert_eq!(generation_range(8, 1025), (809, 905));
    assert_eq!(generation_range(9, 1025), (905, 1025));
}

#[test]
fn generation_ranges_are_clipped_to_the_list() {
    assert_eq!(generation_range(9, 1000), (905, 1000));
    assert_eq!(generation_range(3, 200), (200, 200));
    assert_eq!(generation_range(1, 0), (0, 0));
    assert_eq!(generation_range(10, 1100), (1025, 1100));
}

#[test]
fn random_index_picks_within_the_generation() {
    assert_eq!(random_index(Some(1), 1025, 1000), Some(94));
    assert_eq!(random_index(Some(2), 1025, 250), Some(151 + 50));
    assert_eq!(random_index(None, 10, 23), Some(3));
    assert_eq!(random_index(None, 0, 5), None);
    assert_eq!(random_index(Some(3), 200, 7), None);
}

#[test]
fn parse_args_name_with_flags_anywhere() {
    let inv = parse_args(&args(&["--info", "--name", "pikachu", "--no-title"]));
    assert!(inv.show_info);
    assert!(inv.no_title);
    assert!(!inv.show_pokedex);
    assert!(matches!(inv.command, Command::Name(ref n) if n == "pikachu"));
    let inv = parse_args(&args(&["name", "-p", "mew"]));
    assert!(inv.show_pokedex);
    assert!(matches!(inv.command, Command::Name(ref n) if n == "mew"));
}

#[test]
fn parse_args_help_and_list() {
    assert!(matches!(parse_args(&args(&[])).command, Command::Help));
    assert!(matches!(parse_args(&args(&["-h"])).command, Command::Help));
    assert!(matches!(parse_args(&args(&["--help"])).command, Command::Help));
    assert!(matches!(parse_args(&args(&["help", "-i"])).command, Command::Help));
    assert!(matches!(parse_args(&args(&["--no-title"])).command, Command::Help));
    assert!(matches!(parse_args(&args(&["-l"])).command, Command::List));
    assert!(matches!(parse_args(&args(&["list"])).command, Command::List));
}

#[test]
fn parse_args_random() {
    assert!(matches!(parse_args(&args(&["-r"])).command, Command::Random(None)));
    assert!(matches!(parse_args(&args(&["random", "--pokedex"])).command, Command::Random(None)));
    assert!(matches!(parse_args(&args(&["--random", "3"])).command, Command::Random(Some(3))));
    assert!(matches!(parse_args(&args(&["-r", "9"])).command, Command::Random(Some(9))));
    assert!(matches!(parse_args(&args(&["-r", "+1"])).command, Command::Random(Some(1))));
}

#[test]
fn parse_args_invalid_generation() {
    assert!(matches!(parse_args(&args(&["-r", "0"])).command, Command::InvalidGeneration(ref g) if g == "0"));
    assert!(matches!(parse_args(&args(&["-r", "10"])).command, Command::InvalidGeneration(ref g) if g == "10"));
    assert!(matches!(parse_args(&args(&["-r", "x"])).command, Command::InvalidGeneration(ref g) if g == "x"));
    assert!(matches!(parse_args(&args(&["-r", ""])).command, Command::InvalidGeneration(ref g) if g.is_empty()));
}

#[test]
fn parse_args_input_errors() {
    assert!(matches!(parse_args(&args(&["pikachu"])).command, Command::InputError));
    assert!(matches!(parse_args(&args(&["-n"])).command, Command::InputError));
    assert!(matches!(parse_args(&args(&["-n", "a", "b"])).command, Command::InputError));
    assert!(matches!(parse_args(&args(&["-l", "x"])).command, Command::InputError));
}

#[test]
fn terminal_width_sources_in_order() {
    assert_eq!(terminal_width_from(Some(120), Some("90")), 120);
    assert_eq!(terminal_width_from(Some(0), Some("100")), 100);
    assert_eq!(terminal_width_from(None, Some("100")), 100);
    assert_eq!(terminal_width_from(None, Some("+90")), 90);
    assert_eq!(terminal_width_from(None, Some("0")), 80);
    assert_eq!(terminal_width_from(None, Some("abc")), 80);
    assert_eq!(terminal_width_from(None, Some(" 90")), 80);
    assert_eq!(terminal_width_from(None, None), 80);
}

#[test]
fn render_pokemon_without_stats() {
    let art = "\nab\x1b[0m\n";
    assert_eq!(
        render_pokemon("pikachu", art, None, false, true, false, 80),
        Some(format!("pikachu\n{}", art))
    );
    assert_eq!(
        render_pokemon("pikachu", art, None, true, false, false, 80),
        Some(art.to_string())
    );
    assert_eq!(
        render_pokemon("pikachu", art, None, false, false, true, 80),
        Some(format!("pikachu\n{}", art))
    );
}

#[test]
fn render_pokemon_refuses_an_overflowing_total() {
    let art = "\nab\x1b[0m\n";
    let stats = "#1\nX\nNormal\nHP:4294967295\nAtk:1\n";
    assert_eq!(render_pokemon("x", art, Some(stats), false, true, false, 80), None);
    assert_eq!(render_pokemon("x", art, Some(stats), false, false, true, 80), None);
    // without the panel the stats are not summed
    assert!(render_pokemon("x", art, Some(stats), false, false, false, 80).is_some());
}
