//! What the library's choices are, stated over their inputs: the color of
//! each type, the command each command line asks for, the random pick, the
//! Pokemon list, and how a colorscript cell leaves the terminal.
use vstd::prelude::*;
use crate::panel::{stat_bar_color_spec, type_color_spec};
use crate::cli::{command_spec, generation_range_spec, positional, random_index_spec, CommandView};
use crate::text::parse_usize;
use crate::scrape::unique_slugs;
use crate::ansi::{cell, row_cells, text_rows, Pen, Rgb};
use crate::sprite::{px, Rgba};
use crate::laws::art_cell;
use crate::panel::{bar_filled, bar_spec, stat_label};
use crate::pipeline::{resized, scaled};
use crate::cli::terminal_width_spec;
use crate::text::dec;

verus! {

/// The color of each of the eighteen types, and white for any other name.
pub proof fn law_type_colors()
    ensures
        type_color_spec("Normal"@) == "\x1b[37m"@,
        type_color_spec("Fire"@) == "\x1b[38;5;202m"@,
        type_color_spec("Water"@) == "\x1b[34;1m"@,
        type_color_spec("Electric"@) == "\x1b[33;1m"@,
        type_color_spec("Grass"@) == "\x1b[32;1m"@,
        type_color_spec("Ice"@) == "\x1b[96m"@,
        type_color_spec("Fighting"@) == "\x1b[31;1m"@,
        type_color_spec("Poison"@) == "\x1b[35m"@,
        type_color_spec("Ground"@) == "\x1b[33m"@,
        type_color_spec("Flying"@) == "\x1b[94m"@,
        type_color_spec("Psychic"@) == "\x1b[35;1m"@,
        type_color_spec("Bug"@) == "\x1b[32m"@,
        type_color_spec("Rock"@) == "\x1b[33;2m"@,
        type_color_spec("Ghost"@) == "\x1b[35;2m"@,
        type_color_spec("Dragon"@) == "\x1b[34;1m"@,
        type_color_spec("Dark"@) == "\x1b[90;1m"@,
        type_color_spec("Steel"@) == "\x1b[37;1m"@,
        type_color_spec("Fairy"@) == "\x1b[95m"@,
        forall|t: Seq<char>| t != "Normal"@ && t != "Fire"@ && t != "Water"@ && t != "Electric"@ && t != "Grass"@ && t != "Ice"@ && t != "Fighting"@ && t != "Poison"@ && t != "Ground"@ && t != "Flying"@ && t != "Psychic"@ && t != "Bug"@ && t != "Rock"@ && t != "Ghost"@ && t != "Dragon"@ && t != "Dark"@ && t != "Steel"@ && t != "Fairy"@ ==> type_color_spec(t) == "\x1b[37m"@,
{
    reveal_strlit("Normal");
    reveal_strlit("Fire");
    reveal_strlit("Water");
    reveal_strlit("Electric");
    reveal_strlit("Grass");
    reveal_strlit("Ice");
    reveal_strlit("Fighting");
    reveal_strlit("Poison");
    reveal_strlit("Ground");
    reveal_strlit("Flying");
    reveal_strlit("Psychic");
    reveal_strlit("Bug");
    reveal_strlit("Rock");
    reveal_strlit("Ghost");
    reveal_strlit("Dragon");
    reveal_strlit("Dark");
    reveal_strlit("Steel");
    reveal_strlit("Fairy");
    assert("Fire"@.len() != "Normal"@.len());
    assert("Water"@.len() != "Normal"@.len());
    assert("Water"@.len() != "Fire"@.len());
    assert("Electric"@.len() != "Normal"@.len());
    assert("Electric"@.len() != "Fire"@.len());
    assert("Electric"@.len() != "Water"@.len());
    assert("Grass"@.len() != "Normal"@.len());
    assert("Grass"@.len() != "Fire"@.len());
    assert("Grass"@[0] != "Water"@[0]);
    assert("Grass"@.len() != "Electric"@.len());
    assert("Ice"@.len() != "Normal"@.len());
    assert("Ice"@.len() != "Fire"@.len());
    assert("Ice"@.len() != "Water"@.len());
    assert("Ice"@.len() != "Electric"@.len());
    assert("Ice"@.len() != "Grass"@.len());
    assert("Fighting"@.len() != "Normal"@.len());
    assert("Fighting"@.len() != "Fire"@.len());
    assert("Fighting"@.len() != "Water"@.len());
    assert("Fighting"@[0] != "Electric"@[0]);
    assert("Fighting"@.len() != "Grass"@.len());
    assert("Fighting"@.len() != "Ice"@.len());
    assert("Poison"@[0] != "Normal"@[0]);
    assert("Poison"@.len() != "Fire"@.len());
    assert("Poison"@.len() != "Water"@.len());
    assert("Poison"@.len() != "Electric"@.len());
    assert("Poison"@.len() != "Grass"@.len());
    assert("Poison"@.len() != "Ice"@.len());
    assert("Poison"@.len() != "Fighting"@.len());
    assert("Ground"@[0] != "Normal"@[0]);
    assert("Ground"@.len() != "Fire"@.len());
    assert("Ground"@.len() != "Water"@.len());
    assert("Ground"@.len() != "Electric"@.len());
    assert("Ground"@.len() != "Grass"@.len());
    assert("Ground"@.len() != "Ice"@.len());
    assert("Ground"@.len() != "Fighting"@.len());
    assert("Ground"@[0] != "Poison"@[0]);
    assert("Flying"@[0] != "Normal"@[0]);
    assert("Flying"@.len() != "Fire"@.len());
    assert("Flying"@.len() != "Water"@.len());
    assert("Flying"@.len() != "Electric"@.len());
    assert("Flying"@.len() != "Grass"@.len());
    assert("Flying"@.len() != "Ice"@.len());
    assert("Flying"@.len() != "Fighting"@.len());
    assert("Flying"@[0] != "Poison"@[0]);
    assert("Flying"@[0] != "Ground"@[0]);
    assert("Psychic"@.len() != "Normal"@.len());
    assert("Psychic"@.len() != "Fire"@.len());
    assert("Psychic"@.len() != "Water"@.len());
    assert("Psychic"@.len() != "Electric"@.len());
    assert("Psychic"@.len() != "Grass"@.len());
    assert("Psychic"@.len() != "Ice"@.len());
    assert("Psychic"@.len() != "Fighting"@.len());
    assert("Psychic"@.len() != "Poison"@.len());
    assert("Psychic"@.len() != "Ground"@.len());
    assert("Psychic"@.len() != "Flying"@.len());
    assert("Bug"@.len() != "Normal"@.len());
    assert("Bug"@.len() != "Fire"@.len());
    assert("Bug"@.len() != "Water"@.len());
    assert("Bug"@.len() != "Electric"@.len());
    assert("Bug"@.len() != "Grass"@.len());
    assert("Bug"@[0] != "Ice"@[0]);
    assert("Bug"@.len() != "Fighting"@.len());
    assert("Bug"@.len() != "Poison"@.len());
    assert("Bug"@.len() != "Ground"@.len());
    assert("Bug"@.len() != "Flying"@.len());
    assert("Bug"@.len() != "Psychic"@.len());
    assert("Rock"@.len() != "Normal"@.len());
    assert("Rock"@[0] != "Fire"@[0]);
    assert("Rock"@.len() != "Water"@.len());
    assert("Rock"@.len() != "Electric"@.len());
    assert("Rock"@.len() != "Grass"@.len());
    assert("Rock"@.len() != "Ice"@.len());
    assert("Rock"@.len() != "Fighting"@.len());
    assert("Rock"@.len() != "Poison"@.len());
    assert("Rock"@.len() != "Ground"@.len());
    assert("Rock"@.len() != "Flying"@.len());
    assert("Rock"@.len() != "Psychic"@.len());
    assert("Rock"@.len() != "Bug"@.len());
    assert("Ghost"@.len() != "Normal"@.len());
    assert("Ghost"@.len() != "Fire"@.len());
    assert("Ghost"@[0] != "Water"@[0]);
    assert("Ghost"@.len() != "Electric"@.len());
    assert("Ghost"@[1] != "Grass"@[1]);
    assert("Ghost"@.len() != "Ice"@.len());
    assert("Ghost"@.len() != "Fighting"@.len());
    assert("Ghost"@.len() != "Poison"@.len());
    assert("Ghost"@.len() != "Ground"@.len());
    assert("Ghost"@.len() != "Flying"@.len());
    assert("Ghost"@.len() != "Psychic"@.len());
    assert("Ghost"@.len() != "Bug"@.len());
    assert("Ghost"@.len() != "Rock"@.len());
    assert("Dragon"@[0] != "Normal"@[0]);
    assert("Dragon"@.len() != "Fire"@.len());
    assert("Dragon"@.len() != "Water"@.len());
    assert("Dragon"@.len() != "Electric"@.len());
    assert("Dragon"@.len() != "Grass"@.len());
    assert("Dragon"@.len() != "Ice"@.len());
    assert("Dragon"@.len() != "Fighting"@.len());
    assert("Dragon"@[0] != "Poison"@[0]);
    assert("Dragon"@[0] != "Ground"@[0]);
    assert("Dragon"@[0] != "Flying"@[0]);
    assert("Dragon"@.len() != "Psychic"@.len());
    assert("Dragon"@.len() != "Bug"@.len());
    assert("Dragon"@.len() != "Rock"@.len());
    assert("Dragon"@.len() != "Ghost"@.len());
    assert("Dark"@.len() != "Normal"@.len());
    assert("Dark"@[0] != "Fire"@[0]);
    assert("Dark"@.len() != "Water"@.len());
    assert("Dark"@.len() != "Electric"@.len());
    assert("Dark"@.len() != "Grass"@.len());
    assert("Dark"@.len() != "Ice"@.len());
    assert("Dark"@.len() != "Fighting"@.len());
    assert("Dark"@.len() != "Poison"@.len());
    assert("Dark"@.len() != "Ground"@.len());
    assert("Dark"@.len() != "Flying"@.len());
    assert("Dark"@.len() != "Psychic"@.len());
    assert("Dark"@.len() != "Bug"@.len());
    assert("Dark"@[0] != "Rock"@[0]);
    assert("Dark"@.len() != "Ghost"@.len());
    assert("Dark"@.len() != "Dragon"@.len());
    assert("Steel"@.len() != "Normal"@.len());
    assert("Steel"@.len() != "Fire"@.len());
    assert("Steel"@[0] != "Water"@[0]);
    assert("Steel"@.len() != "Electric"@.len());
    assert("Steel"@[0] != "Grass"@[0]);
    assert("Steel"@.len() != "Ice"@.len());
    assert("Steel"@.len() != "Fighting"@.len());
    assert("Steel"@.len() != "Poison"@.len());
    assert("Steel"@.len() != "Ground"@.len());
    assert("Steel"@.len() != "Flying"@.len());
    assert("Steel"@.len() != "Psychic"@.len());
    assert("Steel"@.len() != "Bug"@.len());
    assert("Steel"@.len() != "Rock"@.len());
    assert("Steel"@[0] != "Ghost"@[0]);
    assert("Steel"@.len() != "Dragon"@.len());
    assert("Steel"@.len() != "Dark"@.len());
    assert("Fairy"@.len() != "Normal"@.len());
    assert("Fairy"@.len() != "Fire"@.len());
    assert("Fairy"@[0] != "Water"@[0]);
    assert("Fairy"@.len() != "Electric"@.len());
    assert("Fairy"@[0] != "Grass"@[0]);
    assert("Fairy"@.len() != "Ice"@.len());
    assert("Fairy"@.len() != "Fighting"@.len());
    assert("Fairy"@.len() != "Poison"@.len());
    assert("Fairy"@.len() != "Ground"@.len());
    assert("Fairy"@.len() != "Flying"@.len());
    assert("Fairy"@.len() != "Psychic"@.len());
    assert("Fairy"@.len() != "Bug"@.len());
    assert("Fairy"@.len() != "Rock"@.len());
    assert("Fairy"@[0] != "Ghost"@[0]);
    assert("Fairy"@.len() != "Dragon"@.len());
    assert("Fairy"@.len() != "Dark"@.len());
    assert("Fairy"@[0] != "Steel"@[0]);
}

/// Stat values are colored red below 50, yellow below 80, green below 110
/// and bright green from 110 on.
pub proof fn law_stat_bar_colors(v: u32)
    ensures
        v < 50 ==> stat_bar_color_spec(v) == "\x1b[31m"@,
        50 <= v < 80 ==> stat_bar_color_spec(v) == "\x1b[33m"@,
        80 <= v < 110 ==> stat_bar_color_spec(v) == "\x1b[32m"@,
        110 <= v ==> stat_bar_color_spec(v) == "\x1b[92m"@,
{
}

/// The generations in a list of `total` Pokemon in Pokedex order: 1 to 151,
/// 152 to 251, 252 to 386, 387 to 493, 494 to 649, 650 to 721, 722 to 809,
/// 810 to 905 and 906 to 1025, each cut at the list's end; past the ninth,
/// whatever follows entry 1025.
pub proof fn law_generation_table(total: usize)
    ensures
        generation_range_spec(1, total) == (0usize, (if total < 151 { total } else { 151 })),
        generation_range_spec(2, total) == ((if total < 151 { total } else { 151 }), (if total < 251 { total } else { 251 })),
        generation_range_spec(3, total) == ((if total < 251 { total } else { 251 }), (if total < 386 { total } else { 386 })),
        generation_range_spec(4, total) == ((if total < 386 { total } else { 386 }), (if total < 493 { total } else { 493 })),
        generation_range_spec(5, total) == ((if total < 493 { total } else { 493 }), (if total < 649 { total } else { 649 })),
        generation_range_spec(6, total) == ((if total < 649 { total } else { 649 }), (if total < 721 { total } else { 721 })),
        generation_range_spec(7, total) == ((if total < 721 { total } else { 721 }), (if total < 809 { total } else { 809 })),
        generation_range_spec(8, total) == ((if total < 809 { total } else { 809 }), (if total < 905 { total } else { 905 })),
        generation_range_spec(9, total) == ((if total < 905 { total } else { 905 }), (if total < 1025 { total } else { 1025 })),
        generation_range_spec(10, total) == ((if total < 1025 { total } else { 1025 }), total),
{
}

/// Without a generation the pick ranges over the whole list: it is the
/// clock's nanoseconds modulo the list's length, so every entry can come
/// up; an empty list gives nothing.
pub proof fn law_random_whole_list(total: usize, nanos: usize)
    ensures
        total > 0 ==> random_index_spec(None, total, nanos) == Some((nanos % total) as usize),
        total == 0 ==> random_index_spec(None, total, nanos) is None,
        nanos < total ==> random_index_spec(None, total, nanos) == Some(nanos),
{
    if nanos < total {
        assert(nanos % total == nanos) by (nonlinear_arith)
            requires
                nanos < total,
        ;
    }
}

/// An argument that is none of the five flags.
pub open spec fn not_a_flag(x: Seq<char>) -> bool {
    x != "--no-title"@ && x != "--info"@ && x != "-i"@ && x != "--pokedex"@ && x != "-p"@
}

/// The spellings of the flags and commands are all different.
proof fn lemma_words_differ()
    ensures
        "--name"@ != "-n"@,
        "name"@ != "-n"@,
        "name"@ != "--name"@,
        "-h"@ != "-n"@,
        "-h"@ != "--name"@,
        "-h"@ != "name"@,
        "--help"@ != "-n"@,
        "--help"@ != "--name"@,
        "--help"@ != "name"@,
        "--help"@ != "-h"@,
        "help"@ != "-n"@,
        "help"@ != "--name"@,
        "help"@ != "name"@,
        "help"@ != "-h"@,
        "help"@ != "--help"@,
        "-l"@ != "-n"@,
        "-l"@ != "--name"@,
        "-l"@ != "name"@,
        "-l"@ != "-h"@,
        "-l"@ != "--help"@,
        "-l"@ != "help"@,
        "--list"@ != "-n"@,
        "--list"@ != "--name"@,
        "--list"@ != "name"@,
        "--list"@ != "-h"@,
        "--list"@ != "--help"@,
        "--list"@ != "help"@,
        "--list"@ != "-l"@,
        "list"@ != "-n"@,
        "list"@ != "--name"@,
        "list"@ != "name"@,
        "list"@ != "-h"@,
        "list"@ != "--help"@,
        "list"@ != "help"@,
        "list"@ != "-l"@,
        "list"@ != "--list"@,
        "-r"@ != "-n"@,
        "-r"@ != "--name"@,
        "-r"@ != "name"@,
        "-r"@ != "-h"@,
        "-r"@ != "--help"@,
        "-r"@ != "help"@,
        "-r"@ != "-l"@,
        "-r"@ != "--list"@,
        "-r"@ != "list"@,
        "--random"@ != "-n"@,
        "--random"@ != "--name"@,
        "--random"@ != "name"@,
        "--random"@ != "-h"@,
        "--random"@ != "--help"@,
        "--random"@ != "help"@,
        "--random"@ != "-l"@,
        "--random"@ != "--list"@,
        "--random"@ != "list"@,
        "--random"@ != "-r"@,
        "random"@ != "-n"@,
        "random"@ != "--name"@,
        "random"@ != "name"@,
        "random"@ != "-h"@,
        "random"@ != "--help"@,
        "random"@ != "help"@,
        "random"@ != "-l"@,
        "random"@ != "--list"@,
        "random"@ != "list"@,
        "random"@ != "-r"@,
        "random"@ != "--random"@,
        "--no-title"@ != "-n"@,
        "--no-title"@ != "--name"@,
        "--no-title"@ != "name"@,
        "--no-title"@ != "-h"@,
        "--no-title"@ != "--help"@,
        "--no-title"@ != "help"@,
        "--no-title"@ != "-l"@,
        "--no-title"@ != "--list"@,
        "--no-title"@ != "list"@,
        "--no-title"@ != "-r"@,
        "--no-title"@ != "--random"@,
        "--no-title"@ != "random"@,
        "--info"@ != "-n"@,
        "--info"@ != "--name"@,
        "--info"@ != "name"@,
        "--info"@ != "-h"@,
        "--info"@ != "--help"@,
        "--info"@ != "help"@,
        "--info"@ != "-l"@,
        "--info"@ != "--list"@,
        "--info"@ != "list"@,
        "--info"@ != "-r"@,
        "--info"@ != "--random"@,
        "--info"@ != "random"@,
        "--info"@ != "--no-title"@,
        "-i"@ != "-n"@,
        "-i"@ != "--name"@,
        "-i"@ != "name"@,
        "-i"@ != "-h"@,
        "-i"@ != "--help"@,
        "-i"@ != "help"@,
        "-i"@ != "-l"@,
        "-i"@ != "--list"@,
        "-i"@ != "list"@,
        "-i"@ != "-r"@,
        "-i"@ != "--random"@,
        "-i"@ != "random"@,
        "-i"@ != "--no-title"@,
        "-i"@ != "--info"@,
        "--pokedex"@ != "-n"@,
        "--pokedex"@ != "--name"@,
        "--pokedex"@ != "name"@,
        "--pokedex"@ != "-h"@,
        "--pokedex"@ != "--help"@,
        "--pokedex"@ != "help"@,
        "--pokedex"@ != "-l"@,
        "--pokedex"@ != "--list"@,
        "--pokedex"@ != "list"@,
        "--pokedex"@ != "-r"@,
        "--pokedex"@ != "--random"@,
        "--pokedex"@ != "random"@,
        "--pokedex"@ != "--no-title"@,
        "--pokedex"@ != "--info"@,
        "--pokedex"@ != "-i"@,
        "-p"@ != "-n"@,
        "-p"@ != "--name"@,
        "-p"@ != "name"@,
        "-p"@ != "-h"@,
        "-p"@ != "--help"@,
        "-p"@ != "help"@,
        "-p"@ != "-l"@,
        "-p"@ != "--list"@,
        "-p"@ != "list"@,
        "-p"@ != "-r"@,
        "-p"@ != "--random"@,
        "-p"@ != "random"@,
        "-p"@ != "--no-title"@,
        "-p"@ != "--info"@,
        "-p"@ != "-i"@,
        "-p"@ != "--pokedex"@,
{
    reveal_strlit("-n");
    reveal_strlit("--name");
    reveal_strlit("name");
    reveal_strlit("-h");
    reveal_strlit("--help");
    reveal_strlit("help");
    reveal_strlit("-l");
    reveal_strlit("--list");
    reveal_strlit("list");
    reveal_strlit("-r");
    reveal_strlit("--random");
    reveal_strlit("random");
    reveal_strlit("--no-title");
    reveal_strlit("--info");
    reveal_strlit("-i");
    reveal_strlit("--pokedex");
    reveal_strlit("-p");
    assert("--name"@.len() != "-n"@.len());
    assert("name"@.len() != "-n"@.len());
    assert("name"@.len() != "--name"@.len());
    assert("-h"@[1] != "-n"@[1]);
    assert("-h"@.len() != "--name"@.len());
    assert("-h"@.len() != "name"@.len());
    assert("--help"@.len() != "-n"@.len());
    assert("--help"@[2] != "--name"@[2]);
    assert("--help"@.len() != "name"@.len());
    assert("--help"@.len() != "-h"@.len());
    assert("help"@.len() != "-n"@.len());
    assert("help"@.len() != "--name"@.len());
    assert("help"@[0] != "name"@[0]);
    assert("help"@.len() != "-h"@.len());
    assert("help"@.len() != "--help"@.len());
    assert("-l"@[1] != "-n"@[1]);
    assert("-l"@.len() != "--name"@.len());
    assert("-l"@.len() != "name"@.len());
    assert("-l"@[1] != "-h"@[1]);
    assert("-l"@.len() != "--help"@.len());
    assert("-l"@.len() != "help"@.len());
    assert("--list"@.len() != "-n"@.len());
    assert("--list"@[2] != "--name"@[2]);
    assert("--list"@.len() != "name"@.len());
    assert("--list"@.len() != "-h"@.len());
    assert("--list"@[2] != "--help"@[2]);
    assert("--list"@.len() != "help"@.len());
    assert("--list"@.len() != "-l"@.len());
    assert("list"@.len() != "-n"@.len());
    assert("list"@.len() != "--name"@.len());
    assert("list"@[0] != "name"@[0]);
    assert("list"@.len() != "-h"@.len());
    assert("list"@.len() != "--help"@.len());
    assert("list"@[0] != "help"@[0]);
    assert("list"@.len() != "-l"@.len());
    assert("list"@.len() != "--list"@.len());
    assert("-r"@[1] != "-n"@[1]);
    assert("-r"@.len() != "--name"@.len());
    assert("-r"@.len() != "name"@.len());
    assert("-r"@[1] != "-h"@[1]);
    assert("-r"@.len() != "--help"@.len());
    assert("-r"@.len() != "help"@.len());
    assert("-r"@[1] != "-l"@[1]);
    assert("-r"@.len() != "--list"@.len());
    assert("-r"@.len() != "list"@.len());
    assert("--random"@.len() != "-n"@.len());
    assert("--random"@.len() != "--name"@.len());
    assert("--random"@.len() != "name"@.len());
    assert("--random"@.len() != "-h"@.len());
    assert("--random"@.len() != "--help"@.len());
    assert("--random"@.len() != "help"@.len());
    assert("--random"@.len() != "-l"@.len());
    assert("--random"@.len() != "--list"@.len());
    assert("--random"@.len() != "list"@.len());
    assert("--random"@.len() != "-r"@.len());
    assert("random"@.len() != "-n"@.len());
    assert("random"@[0] != "--name"@[0]);
    assert("random"@.len() != "name"@.len());
    assert("random"@.len() != "-h"@.len());
    assert("random"@[0] != "--help"@[0]);
    assert("random"@.len() != "help"@.len());
    assert("random"@.len() != "-l"@.len());
    assert("random"@[0] != "--list"@[0]);
    assert("random"@.len() != "list"@.len());
    assert("random"@.len() != "-r"@.len());
    assert("random"@.len() != "--random"@.len());
    assert("--no-title"@.len() != "-n"@.len());
    assert("--no-title"@.len() != "--name"@.len());
    assert("--no-title"@.len() != "name"@.len());
    assert("--no-title"@.len() != "-h"@.len());
    assert("--no-title"@.len() != "--help"@.len());
    assert("--no-title"@.len() != "help"@.len());
    assert("--no-title"@.len() != "-l"@.len());
    assert("--no-title"@.len() != "--list"@.len());
    assert("--no-title"@.len() != "list"@.len());
    assert("--no-title"@.len() != "-r"@.len());
    assert("--no-title"@.len() != "--random"@.len());
    assert("--no-title"@.len() != "random"@.len());
    assert("--info"@.len() != "-n"@.len());
    assert("--info"@[2] != "--name"@[2]);
    assert("--info"@.len() != "name"@.len());
    assert("--info"@.len() != "-h"@.len());
    assert("--info"@[2] != "--help"@[2]);
    assert("--info"@.len() != "help"@.len());
    assert("--info"@.len() != "-l"@.len());
    assert("--info"@[2] != "--list"@[2]);
    assert("--info"@.len() != "list"@.len());
    assert("--info"@.len() != "-r"@.len());
    assert("--info"@.len() != "--random"@.len());
    assert("--info"@[0] != "random"@[0]);
    assert("--info"@.len() != "--no-title"@.len());
    assert("-i"@[1] != "-n"@[1]);
    assert("-i"@.len() != "--name"@.len());
    assert("-i"@.len() != "name"@.len());
    assert("-i"@[1] != "-h"@[1]);
    assert("-i"@.len() != "--help"@.len());
    assert("-i"@.len() != "help"@.len());
    assert("-i"@[1] != "-l"@[1]);
    assert("-i"@.len() != "--list"@.len());
    assert("-i"@.len() != "list"@.len());
    assert("-i"@[1] != "-r"@[1]);
    assert("-i"@.len() != "--random"@.len());
    assert("-i"@.len() != "random"@.len());
    assert("-i"@.len() != "--no-title"@.len());
    assert("-i"@.len() != "--info"@.len());
    assert("--pokedex"@.len() != "-n"@.len());
    assert("--pokedex"@.len() != "--name"@.len());
    assert("--pokedex"@.len() != "name"@.len());
    assert("--pokedex"@.len() != "-h"@.len());
    assert("--pokedex"@.len() != "--help"@.len());
    assert("--pokedex"@.len() != "help"@.len());
    assert("--pokedex"@.len() != "-l"@.len());
    assert("--pokedex"@.len() != "--list"@.len());
    assert("--pokedex"@.len() != "list"@.len());
    assert("--pokedex"@.len() != "-r"@.len());
    assert("--pokedex"@.len() != "--random"@.len());
    assert("--pokedex"@.len() != "random"@.len());
    assert("--pokedex"@.len() != "--no-title"@.len());
    assert("--pokedex"@.len() != "--info"@.len());
    assert("--pokedex"@.len() != "-i"@.len());
    assert("-p"@[1] != "-n"@[1]);
    assert("-p"@.len() != "--name"@.len());
    assert("-p"@.len() != "name"@.len());
    assert("-p"@[1] != "-h"@[1]);
    assert("-p"@.len() != "--help"@.len());
    assert("-p"@.len() != "help"@.len());
    assert("-p"@[1] != "-l"@[1]);
    assert("-p"@.len() != "--list"@.len());
    assert("-p"@.len() != "list"@.len());
    assert("-p"@[1] != "-r"@[1]);
    assert("-p"@.len() != "--random"@.len());
    assert("-p"@.len() != "random"@.len());
    assert("-p"@.len() != "--no-title"@.len());
    assert("-p"@.len() != "--info"@.len());
    assert("-p"@[1] != "-i"@[1]);
    assert("-p"@.len() != "--pokedex"@.len());
}

proof fn lemma_cli_words()
    ensures
        not_a_flag("-n"@),
        not_a_flag("--name"@),
        not_a_flag("name"@),
        not_a_flag("-h"@),
        not_a_flag("--help"@),
        not_a_flag("help"@),
        not_a_flag("-l"@),
        not_a_flag("--list"@),
        not_a_flag("list"@),
        not_a_flag("-r"@),
        not_a_flag("--random"@),
        not_a_flag("random"@),
{
    lemma_words_differ();
}

/// Positional arguments as the command reads them: two plain arguments
/// stay as they are.
proof fn lemma_two_positional(a: Seq<char>, x: Seq<char>)
    requires
        not_a_flag(a),
        not_a_flag(x),
    ensures
        positional(seq![a, x]) == seq![a, x],
        positional(seq![a]) == seq![a],
{
    assert(seq![a, x].drop_last() =~= seq![a]);
    assert(seq![a].drop_last() =~= Seq::<Seq<char>>::empty());
    assert(positional(Seq::<Seq<char>>::empty()) =~= Seq::<Seq<char>>::empty());
    assert(positional(seq![a]) =~= seq![a]);
    assert(positional(seq![a, x]) =~= seq![a, x]);
}

/// `-n`, `--name` and `name` followed by any argument that is not a flag
/// ask for that Pokemon by name.
pub proof fn law_parse_name(x: Seq<char>)
    requires
        not_a_flag(x),
    ensures
        command_spec(positional(seq!["-n"@, x])) == CommandView::Name(x),
        command_spec(positional(seq!["--name"@, x])) == CommandView::Name(x),
        command_spec(positional(seq!["name"@, x])) == CommandView::Name(x),
{
    lemma_cli_words();
    lemma_words_differ();
    lemma_two_positional("-n"@, x);
    lemma_two_positional("--name"@, x);
    lemma_two_positional("name"@, x);
}

/// No arguments, or `-h`, `--help` or `help` alone, ask for help; `-l`,
/// `--list` or `list` alone for the list; `-r`, `--random` or `random` alone
/// for a random Pokemon of any generation, and followed by an argument for
/// one of that generation when it reads as a number from 1 to 9, else for
/// the invalid generation error.
pub proof fn law_parse_commands(x: Seq<char>)
    requires
        not_a_flag(x),
    ensures
        command_spec(positional(Seq::empty())) == CommandView::Help,
        command_spec(positional(seq!["-h"@])) == CommandView::Help,
        command_spec(positional(seq!["--help"@])) == CommandView::Help,
        command_spec(positional(seq!["help"@])) == CommandView::Help,
        command_spec(positional(seq!["-l"@])) == CommandView::List,
        command_spec(positional(seq!["--list"@])) == CommandView::List,
        command_spec(positional(seq!["list"@])) == CommandView::List,
        command_spec(positional(seq!["-r"@])) == CommandView::Random(None),
        command_spec(positional(seq!["--random"@])) == CommandView::Random(None),
        command_spec(positional(seq!["random"@])) == CommandView::Random(None),
        parse_usize(x) matches Some(g) ==> (1 <= g <= 9 ==> command_spec(positional(seq!["-r"@, x]))
            == CommandView::Random(Some(g))),
        !(parse_usize(x) matches Some(g) && 1 <= g <= 9) ==> command_spec(positional(seq!["-r"@, x]))
            == CommandView::InvalidGeneration(x),
{
    lemma_cli_words();
    lemma_words_differ();
    lemma_two_positional("-h"@, x);
    lemma_two_positional("--help"@, x);
    lemma_two_positional("help"@, x);
    lemma_two_positional("-l"@, x);
    lemma_two_positional("--list"@, x);
    lemma_two_positional("list"@, x);
    lemma_two_positional("-r"@, x);
    lemma_two_positional("--random"@, x);
    lemma_two_positional("random"@, x);
    assert(positional(Seq::<Seq<char>>::empty()) =~= Seq::<Seq<char>>::empty());
}

/// The Pokemon list keeps a candidate slug exactly when it is not empty and
/// holds neither `/` nor `#` (any other character, a hyphen too, is fine):
/// every such candidate is in the list, and everything in the list is such
/// a candidate, once.
pub proof fn law_pokemon_list(cands: Seq<Seq<char>>)
    ensures
        forall|i: int|
            0 <= i < cands.len() && (#[trigger] cands[i]).len() > 0 && !cands[i].contains('/')
                && !cands[i].contains('#') ==> unique_slugs(cands).contains(cands[i]),
        forall|i: int|
            0 <= i < unique_slugs(cands).len() ==> (#[trigger] unique_slugs(cands)[i]).len() > 0
                && !unique_slugs(cands)[i].contains('/') && !unique_slugs(cands)[i].contains('#')
                && cands.contains(unique_slugs(cands)[i]),
        forall|i: int, j: int|
            0 <= i < j < unique_slugs(cands).len() ==> unique_slugs(cands)[i] != unique_slugs(cands)[j],
{
    crate::laws::law_unique_slugs(cands);
}

/// A color code of the art: a 24-bit foreground, a 24-bit background, or
/// the terminal's default background.
pub enum Sgr {
    Fg(Rgb),
    Bg(Rgb),
    BgDefault,
}

/// The escape sequence of a code: `ESC[38;2;R;G;Bm`, `ESC[48;2;R;G;Bm` or
/// `ESC[49m`.
pub open spec fn sgr_text(c: Sgr) -> Seq<char> {
    match c {
        Sgr::Fg(x) => seq!['\x1b', '[', '3', '8', ';', '2', ';'] + dec(x.0 as nat) + seq![';'] + dec(x.1 as nat)
            + seq![';'] + dec(x.2 as nat) + seq!['m'],
        Sgr::Bg(x) => seq!['\x1b', '[', '4', '8', ';', '2', ';'] + dec(x.0 as nat) + seq![';'] + dec(x.1 as nat)
            + seq![';'] + dec(x.2 as nat) + seq!['m'],
        Sgr::BgDefault => seq!['\x1b', '[', '4', '9', 'm'],
    }
}

/// The terminal's foreground and background after it reads a code.
pub open spec fn sgr_effect(pen: Pen, c: Sgr) -> Pen {
    match c {
        Sgr::Fg(x) => (Some(x), pen.1),
        Sgr::Bg(x) => (pen.0, Some(x)),
        Sgr::BgDefault => (pen.0, None),
    }
}

/// The text of several codes, one after the other.
pub open spec fn codes_text(cs: Seq<Sgr>) -> Seq<char>
    decreases cs.len(),
{
    if cs.len() == 0 {
        Seq::empty()
    } else {
        codes_text(cs.drop_last()) + sgr_text(cs.last())
    }
}

/// The terminal's colors after it reads several codes.
pub open spec fn codes_effect(pen: Pen, cs: Seq<Sgr>) -> Pen
    decreases cs.len(),
{
    if cs.len() == 0 {
        pen
    } else {
        sgr_effect(codes_effect(pen, cs.drop_last()), cs.last())
    }
}

/// The colors a terminal shows in the top and bottom half of a cell holding
/// `g`: `▀` paints the top half in the foreground, `▄` the bottom half, and
/// the rest of the cell (all of a space) shows the background; `None` is the
/// terminal's own background.
pub open spec fn halves(pen: Pen, g: char) -> (Option<Rgb>, Option<Rgb>) {
    if g == '▀' {
        (pen.0, pen.1)
    } else if g == '▄' {
        (pen.1, pen.0)
    } else {
        (pen.1, pen.1)
    }
}

/// The cell for pixels `top` and `bot` drawn with the terminal at `pen` is
/// the codes `cs` then the glyph `g`; the pen it hands on is the terminal's
/// state after those codes, and in that state the glyph shows exactly the
/// two pixels (a transparent one as the terminal's own background).
pub open spec fn renders(pen: Pen, top: Option<Rgb>, bot: Option<Rgb>, cs: Seq<Sgr>, g: char) -> bool {
    &&& cs.len() <= 2
    &&& (g == ' ' || g == '▀' || g == '▄')
    &&& cell(pen, top, bot).0 == codes_text(cs) + seq![g]
    &&& cell(pen, top, bot).1 == codes_effect(pen, cs)
    &&& halves(cell(pen, top, bot).1, g) == (top, bot)
}

proof fn lemma_codes_two(pen: Pen, a: Sgr, b: Sgr)
    ensures
        codes_text(Seq::<Sgr>::empty()) == Seq::<char>::empty(),
        codes_text(seq![a]) == sgr_text(a),
        codes_text(seq![a, b]) == sgr_text(a) + sgr_text(b),
        codes_effect(pen, Seq::<Sgr>::empty()) == pen,
        codes_effect(pen, seq![a]) == sgr_effect(pen, a),
        codes_effect(pen, seq![a, b]) == sgr_effect(sgr_effect(pen, a), b),
{
    let one = seq![a];
    let two = seq![a, b];
    assert(one.drop_last() =~= Seq::<Sgr>::empty());
    assert(two.drop_last() =~= one);
    assert(one.last() == a);
    assert(two.last() == b);
    assert(codes_text(Seq::<Sgr>::empty()) =~= Seq::<char>::empty());
    assert(codes_text(one) == codes_text(one.drop_last()) + sgr_text(a));
    assert(codes_text(one) =~= sgr_text(a));
    assert(codes_effect(pen, one) == sgr_effect(codes_effect(pen, one.drop_last()), a));
    assert(codes_effect(pen, two) == sgr_effect(codes_effect(pen, two.drop_last()), b));
    assert(codes_text(two) == codes_text(two.drop_last()) + sgr_text(b));
}

/// Every cell of a colorscript draws its two pixels: its text is at most two
/// color codes and one glyph, the pen it hands to the next cell is what the
/// terminal holds after those codes (a background reset leaves no
/// background), and in that state the glyph shows the top pixel in the
/// top half and the bottom pixel in the bottom half.
pub proof fn law_cell_renders(pen: Pen, top: Option<Rgb>, bot: Option<Rgb>)
    ensures
        exists|cs: Seq<Sgr>, g: char| #[trigger] renders(pen, top, bot, cs, g),
{
    reveal_strlit("\x1b[38;2;");
    reveal_strlit("\x1b[48;2;");
    reveal_strlit("\x1b[49m");
    let (fg, bg) = pen;
    let e = Seq::<char>::empty();
    let t = cell(pen, top, bot).0;
    assert("\x1b[38;2;"@ =~= seq!['\x1b', '[', '3', '8', ';', '2', ';']);
    assert("\x1b[48;2;"@ =~= seq!['\x1b', '[', '4', '8', ';', '2', ';']);
    assert("\x1b[49m"@ =~= sgr_text(Sgr::BgDefault));
    match (top, bot) {
        (None, None) => {
            if bg is Some {
                lemma_codes_two(pen, Sgr::BgDefault, Sgr::BgDefault);
                assert(t =~= codes_text(seq![Sgr::BgDefault]) + seq![' ']);
                assert(renders(pen, top, bot, seq![Sgr::BgDefault], ' '));
            } else {
                lemma_codes_two(pen, Sgr::BgDefault, Sgr::BgDefault);
                assert(t =~= codes_text(Seq::<Sgr>::empty()) + seq![' ']);
                assert(renders(pen, top, bot, Seq::<Sgr>::empty(), ' '));
            }
        },
        (Some(c), None) | (None, Some(c)) => {
            let g = if top is Some { '▀' } else { '▄' };
            let f = Sgr::Fg(c);
            let r = Sgr::BgDefault;
            lemma_codes_two(pen, f, r);
            lemma_codes_two(pen, r, r);
            lemma_codes_two(sgr_effect(pen, f), r, r);
            assert(sgr_text(f) =~= crate::ansi::fg_code(c));
            if fg != Some(c) && bg is Some {
                assert(t =~= codes_text(seq![f, r]) + seq![g]);
                assert(renders(pen, top, bot, seq![f, r], g));
            } else if fg != Some(c) {
                assert(t =~= codes_text(seq![f]) + seq![g]);
                assert(renders(pen, top, bot, seq![f], g));
            } else if bg is Some {
                assert(t =~= codes_text(seq![r]) + seq![g]);
                assert(renders(pen, top, bot, seq![r], g));
            } else {
                assert(t =~= codes_text(Seq::<Sgr>::empty()) + seq![g]);
                assert(renders(pen, top, bot, Seq::<Sgr>::empty(), g));
            }
        },
        (Some(tc), Some(bc)) => {
            let f = Sgr::Fg(tc);
            let b = Sgr::Bg(bc);
            lemma_codes_two(pen, f, b);
            lemma_codes_two(pen, b, b);
            assert(sgr_text(f) =~= crate::ansi::fg_code(tc));
            assert(sgr_text(b) =~= crate::ansi::bg_code(bc));
            if fg != Some(tc) && bg != Some(bc) {
                assert(t =~= codes_text(seq![f, b]) + seq!['▀']);
                assert(renders(pen, top, bot, seq![f, b], '▀'));
            } else if fg != Some(tc) {
                assert(t =~= codes_text(seq![f]) + seq!['▀']);
                assert(renders(pen, top, bot, seq![f], '▀'));
            } else if bg != Some(bc) {
                assert(t =~= codes_text(seq![b]) + seq!['▀']);
                assert(renders(pen, top, bot, seq![b], '▀'));
            } else {
                assert(t =~= codes_text(Seq::<Sgr>::empty()) + seq!['▀']);
                assert(renders(pen, top, bot, Seq::<Sgr>::empty(), '▀'));
            }
        },
    }
}

/// The color a pixel shows: none when it is fully transparent, else its own.
pub open spec fn shown_color(p: (u8, u8, u8, u8)) -> Option<Rgb> {
    if p.3 == 0 {
        None
    } else {
        Some((p.0, p.1, p.2))
    }
}

/// The color pixel `(x, 2r + 1)` shows, or none below the last pixel row.
pub open spec fn shown_below(m: Rgba, x: int, r: int) -> Option<Rgb> {
    if 2 * r + 1 < m.height {
        shown_color(px(m, x, 2 * r + 1))
    } else {
        None
    }
}

/// Each row of a colorscript starts with the terminal's own colors (the row
/// before ended with a full reset), and the cell at column `x` of text row
/// `r` draws pixel `(x, 2r)` in its top half and pixel `(x, 2r + 1)` (none
/// below the last pixel row) in its bottom half.
pub proof fn law_row_renders(m: Rgba, r: int, x: int)
    requires
        0 <= x < m.width,
        0 <= r < text_rows(m),
    ensures
        row_cells(m, r, 0).1 == (None::<Rgb>, None::<Rgb>),
        exists|cs: Seq<Sgr>, g: char|
            #[trigger] renders(
                row_cells(m, r, x as nat).1,
                shown_color(px(m, x, 2 * r)),
                shown_below(m, x, r),
                cs,
                g,
            ) && art_cell(m, r, x) == codes_text(cs) + seq![g],
{
    let top = shown_color(px(m, x, 2 * r));
    let bot = shown_below(m, x, r);
    assert(top == crate::ansi::top_of(m, x, r));
    assert(bot == crate::ansi::bot_of(m, x, r));
    law_cell_renders(row_cells(m, r, x as nat).1, top, bot);
}

/// Witness form of a bar: `f` full blocks, then empty ones up to `width`.
pub open spec fn bar_of(b: Seq<char>, f: nat, width: nat) -> bool {
    &&& f <= width
    &&& b.len() == width
    &&& forall|i: int| 0 <= i < f ==> b[i] == '█'
    &&& forall|i: int| f <= i < width ==> b[i] == '░'
}

/// A stat bar of `width` cells is `f` full blocks then empty ones, where `f`
/// is `val / max` of the width rounded to the nearest cell (a half rounds
/// up) and capped at the width; with `max` zero the bar is full for any
/// positive value and empty for zero.
pub proof fn law_bar(val: u32, max: u32, width: nat)
    ensures
        exists|f: nat|
            #[trigger] bar_of(bar_spec(val, max, width), f, width) && (if max == 0 {
                f == (if val > 0 {
                    width
                } else {
                    0
                })
            } else if f < width {
                (2 * f - 1) * max <= 2 * val * width < (2 * f + 1) * max
            } else {
                (2 * width - 1) * max <= 2 * val * width
            }),
{
    let f = bar_filled(val, max, width);
    let b = bar_spec(val, max, width);
    assert(bar_of(b, f, width));
    if max > 0 {
        let n = 2 * val * width + max;
        let d = 2 * max;
        let q = (n / d) as nat;
        assert(q * d <= n < (q + 1) * d) by (nonlinear_arith)
            requires
                d > 0,
                n >= 0,
                q == n / d,
        ;
        if f < width {
            assert(f == q);
            assert((2 * f - 1) * max <= 2 * val * width < (2 * f + 1) * max) by (nonlinear_arith)
                requires
                    f * (2 * max) <= 2 * val * width + max < (f + 1) * (2 * max),
            ;
        } else {
            assert(q >= width);
            assert((2 * width - 1) * max <= 2 * val * width) by (nonlinear_arith)
                requires
                    q * (2 * max) <= 2 * val * width + max,
                    q >= width,
                    max > 0,
            ;
        }
    }
}

/// The stat labels: HP, Atk, Def, SpA, SpD, Spe for the six stats in order,
/// `???` for any further one.
pub proof fn law_stat_labels(k: int)
    ensures
        stat_label(0) == "HP"@,
        stat_label(1) == "Atk"@,
        stat_label(2) == "Def"@,
        stat_label(3) == "SpA"@,
        stat_label(4) == "SpD"@,
        stat_label(5) == "Spe"@,
        !(0 <= k < 6) ==> stat_label(k) == "???"@,
{
}

/// Scaling by 1.5 rounds to the nearest pixel: `2n / 3` is never a tie, and
/// the result is within a third of a pixel of it. Only images taller than 64
/// pixels are scaled.
pub proof fn law_scale(m: Rgba, n: u32)
    ensures
        -1 <= 3 * scaled(n) - 2 * n <= 1,
        m.height > 64 ==> resized(m).width == scaled(m.width) && resized(m).height == scaled(m.height),
        m.height <= 64 ==> resized(m) == m,
{
}

/// The terminal's width: what the terminal reports when that is positive,
/// else a positive number in `COLUMNS`, else 80 columns.
pub proof fn law_terminal_width(c: u16, columns: Option<Seq<char>>, s: Seq<char>, n: usize)
    ensures
        c > 0 ==> terminal_width_spec(Some(c), columns) == c,
        terminal_width_spec(None, None) == 80,
        terminal_width_spec(Some(0), None) == 80,
        parse_usize(s) == Some(n) && n > 0 ==> terminal_width_spec(None, Some(s)) == n,
        parse_usize(s) == Some(n) && n > 0 ==> terminal_width_spec(Some(0), Some(s)) == n,
        parse_usize(s) is None || parse_usize(s) == Some(0usize) ==> terminal_width_spec(None, Some(s)) == 80,
        parse_usize(s) is None || parse_usize(s) == Some(0usize) ==> terminal_width_spec(Some(0), Some(s)) == 80,
{
}

} // verus!
