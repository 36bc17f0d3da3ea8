//! The command line: arguments, generations, the random pick, the terminal
//! width, and the choice of layout.
use vstd::prelude::*;
use crate::layout::{
    art_lines, art_lines_of, dex_dex, dex_display, dex_left_w, dex_right_w, dex_types, dex_vals,
    max_line_vis, max_visible, pokedex_fits, render_pokedex, render_pokedex_spec, render_with_info,
    render_with_info_spec, info_stats_ok,
};
use crate::panel::{colored_types, opt_str_view, parse_stats_text, push_colored_types, stats_total};
use crate::text::{views};
use crate::text::{vis, chars_of, parse_usize, parse_usize_at, str_eq, visible_len};

verus! {

broadcast use vstd::string::group_string_axioms;

// ---------------------------------------------------------------------------
// Generations
// ---------------------------------------------------------------------------

/// Cumulative Pokedex count at the end of generation `i + 1` (exclusive end
/// index into the Pokemon list): Gen 1 = 0..151, Gen 2 = 151..251, etc.
pub open spec fn gen_end(i: int) -> Option<usize> {
    if i == 0 {
        Some(151)
    } else if i == 1 {
        Some(251)
    } else if i == 2 {
        Some(386)
    } else if i == 3 {
        Some(493)
    } else if i == 4 {
        Some(649)
    } else if i == 5 {
        Some(721)
    } else if i == 6 {
        Some(809)
    } else if i == 7 {
        Some(905)
    } else if i == 8 {
        Some(1025)
    } else {
        None
    }
}

fn gen_end_at(i: usize) -> (r: Option<usize>)
    ensures
        r == gen_end(i as int),
{
    if i == 0 {
        Some(151)
    } else if i == 1 {
        Some(251)
    } else if i == 2 {
        Some(386)
    } else if i == 3 {
        Some(493)
    } else if i == 4 {
        Some(649)
    } else if i == 5 {
        Some(721)
    } else if i == 6 {
        Some(809)
    } else if i == 7 {
        Some(905)
    } else if i == 8 {
        Some(1025)
    } else {
        None
    }
}

pub open spec fn min_usize(a: usize, b: usize) -> usize {
    if a <= b {
        a
    } else {
        b
    }
}

/// Start and end indices of generation `gen` in a list of `total` Pokemon
/// in Pokedex order, both capped at `total`; past the last generation the
/// end is `total`.
pub open spec fn generation_range_spec(gen: usize, total: usize) -> (usize, usize) {
    let start = if gen <= 1 {
        0
    } else {
        min_usize(gen_end(gen - 2)->0, total)
    };
    let end = match gen_end(gen - 1) {
        Some(e) => min_usize(e, total),
        None => total,
    };
    (start, end)
}

pub fn generation_range(gen: usize, total: usize) -> (r: (usize, usize))
    requires
        1 <= gen <= 10,
    ensures
        r == generation_range_spec(gen, total),
{
    let start = if gen <= 1 {
        0
    } else {
        let e = gen_end_at(gen - 2).unwrap();
        if e <= total {
            e
        } else {
            total
        }
    };
    let end = match gen_end_at(gen - 1) {
        Some(e) => if e <= total {
            e
        } else {
            total
        },
        None => total,
    };
    (start, end)
}

/// Index of the random Pokemon: `nanos` reduced into the generation's range
/// (the whole list without a generation); `None` when the range is empty.
pub open spec fn random_index_spec(gen: Option<usize>, total: usize, nanos: usize) -> Option<usize> {
    let (start, end) = match gen {
        None => (0usize, total),
        Some(g) => generation_range_spec(g, total),
    };
    if start >= end {
        None
    } else {
        Some((start + nanos % ((end - start) as usize)) as usize)
    }
}

pub fn random_index(gen: Option<usize>, total: usize, nanos: usize) -> (r: Option<usize>)
    requires
        gen matches Some(g) ==> 1 <= g <= 10,
    ensures
        r == random_index_spec(gen, total, nanos),
        r matches Some(i) ==> i < total,
{
    let (start, end) = match gen {
        None => (0, total),
        Some(g) => generation_range(g, total),
    };
    if start >= end {
        return None;
    }
    Some(start + nanos % (end - start))
}

// ---------------------------------------------------------------------------
// Arguments
// ---------------------------------------------------------------------------

/// What the command line asks for.
pub enum Command {
    Help,
    List,
    /// A random Pokemon, of one generation (1 to 9) or of all.
    Random(Option<usize>),
    /// `--random` with a generation that is not a number from 1 to 9.
    InvalidGeneration(String),
    Name(String),
    InputError,
}

pub struct Invocation {
    pub no_title: bool,
    pub show_info: bool,
    pub show_pokedex: bool,
    pub command: Command,
}

pub open spec fn is_flag(a: Seq<char>) -> bool {
    a == "--no-title"@ || a == "--info"@ || a == "-i"@ || a == "--pokedex"@ || a == "-p"@
}

pub open spec fn any_is(args: Seq<Seq<char>>, x: Seq<char>, y: Seq<char>) -> bool {
    exists|k: int| 0 <= k < args.len() && (args[k] == x || args[k] == y)
}

/// The arguments that are not flags, in order.
pub open spec fn positional(args: Seq<Seq<char>>) -> Seq<Seq<char>>
    decreases args.len(),
{
    if args.len() == 0 {
        Seq::empty()
    } else if is_flag(args.last()) {
        positional(args.drop_last())
    } else {
        positional(args.drop_last()).push(args.last())
    }
}

pub open spec fn is_help(a: Seq<char>) -> bool {
    a == "-h"@ || a == "--help"@ || a == "help"@
}

pub open spec fn is_list(a: Seq<char>) -> bool {
    a == "-l"@ || a == "--list"@ || a == "list"@
}

pub open spec fn is_random(a: Seq<char>) -> bool {
    a == "-r"@ || a == "--random"@ || a == "random"@
}

pub open spec fn is_name(a: Seq<char>) -> bool {
    a == "-n"@ || a == "--name"@ || a == "name"@
}

/// The command for the positional arguments.
pub open spec fn command_spec(pos: Seq<Seq<char>>) -> CommandView {
    if pos.len() == 0 {
        CommandView::Help
    } else if pos.len() == 1 && is_help(pos[0]) {
        CommandView::Help
    } else if pos.len() == 1 && is_list(pos[0]) {
        CommandView::List
    } else if pos.len() == 1 && is_random(pos[0]) {
        CommandView::Random(None)
    } else if pos.len() == 2 && is_random(pos[0]) {
        match parse_usize(pos[1]) {
            Some(g) => if 1 <= g <= 9 {
                CommandView::Random(Some(g))
            } else {
                CommandView::InvalidGeneration(pos[1])
            },
            None => CommandView::InvalidGeneration(pos[1]),
        }
    } else if pos.len() == 2 && is_name(pos[0]) {
        CommandView::Name(pos[1])
    } else {
        CommandView::InputError
    }
}

/// A command as the contracts see it.
pub enum CommandView {
    Help,
    List,
    Random(Option<usize>),
    InvalidGeneration(Seq<char>),
    Name(Seq<char>),
    InputError,
}

pub open spec fn command_view(c: Command) -> CommandView {
    match c {
        Command::Help => CommandView::Help,
        Command::List => CommandView::List,
        Command::Random(g) => CommandView::Random(g),
        Command::InvalidGeneration(s) => CommandView::InvalidGeneration(s@),
        Command::Name(s) => CommandView::Name(s@),
        Command::InputError => CommandView::InputError,
    }
}

fn any_arg(args: &Vec<String>, x: &str, y: &str) -> (r: bool)
    ensures
        r == any_is(views(args@), x@, y@),
{
    let mut i: usize = 0;
    while i < args.len()
        invariant
            i <= args.len(),
            forall|k: int| 0 <= k < i ==> !(args@[k]@ == x@ || args@[k]@ == y@),
        decreases args.len() - i,
    {
        if str_eq(args[i].as_str(), x) || str_eq(args[i].as_str(), y) {
            assert(views(args@)[i as int] == args@[i as int]@);
            return true;
        }
        i = i + 1;
    }
    assert forall|k: int| 0 <= k < views(args@).len() implies !(views(args@)[k] == x@ || views(args@)[k] == y@) by {
        assert(views(args@)[k] == args@[k]@);
    }
    false
}

fn flag_arg(a: &str) -> (r: bool)
    ensures
        r == is_flag(a@),
{
    str_eq(a, "--no-title") || str_eq(a, "--info") || str_eq(a, "-i") || str_eq(a, "--pokedex")
        || str_eq(a, "-p")
}

fn one_of(a: &str, x: &str, y: &str, z: &str) -> (r: bool)
    ensures
        r == (a@ == x@ || a@ == y@ || a@ == z@),
{
    str_eq(a, x) || str_eq(a, y) || str_eq(a, z)
}

/// Reads the command line (without the program name): flags anywhere, then
/// the command from the remaining arguments.
pub fn parse_args(args: &Vec<String>) -> (inv: Invocation)
    ensures
        inv.no_title == any_is(views(args@), "--no-title"@, "--no-title"@),
        inv.show_info == any_is(views(args@), "--info"@, "-i"@),
        inv.show_pokedex == any_is(views(args@), "--pokedex"@, "-p"@),
        command_view(inv.command) == command_spec(positional(views(args@))),
{
    let no_title = any_arg(args, "--no-title", "--no-title");
    let show_info = any_arg(args, "--info", "-i");
    let show_pokedex = any_arg(args, "--pokedex", "-p");
    let mut pos: Vec<String> = Vec::new();
    let mut i: usize = 0;
    while i < args.len()
        invariant
            i <= args.len(),
            views(pos@) == positional(views(args@).take(i as int)),
        decreases args.len() - i,
    {
        let ghost before = pos@;
        assert(views(args@).take(i + 1).drop_last() =~= views(args@).take(i as int));
        assert(views(args@).take(i + 1).last() == args@[i as int]@);
        if !flag_arg(args[i].as_str()) {
            pos.push(args[i].clone());
            assert(views(pos@) =~= views(before).push(args@[i as int]@));
        }
        i = i + 1;
    }
    assert(views(args@).take(i as int) =~= views(args@));
    let ghost p = views(pos@);
    let command = if pos.len() == 0 {
        Command::Help
    } else if pos.len() == 1 && one_of(pos[0].as_str(), "-h", "--help", "help") {
        Command::Help
    } else if pos.len() == 1 && one_of(pos[0].as_str(), "-l", "--list", "list") {
        Command::List
    } else if pos.len() == 1 && one_of(pos[0].as_str(), "-r", "--random", "random") {
        Command::Random(None)
    } else if pos.len() == 2 && one_of(pos[0].as_str(), "-r", "--random", "random") {
        let g = pos[1].as_str();
        let gv = chars_of(g);
        assert(gv@.subrange(0, gv@.len() as int) =~= gv@);
        match parse_usize_at(&gv, 0, gv.len()) {
            Some(n) => if 1 <= n && n <= 9 {
                Command::Random(Some(n))
            } else {
                Command::InvalidGeneration(pos[1].clone())
            },
            None => Command::InvalidGeneration(pos[1].clone()),
        }
    } else if pos.len() == 2 && one_of(pos[0].as_str(), "-n", "--name", "name") {
        Command::Name(pos[1].clone())
    } else {
        Command::InputError
    };
    assert(p.len() > 0 ==> p[0] == pos@[0]@);
    assert(p.len() > 1 ==> p[1] == pos@[1]@);
    Invocation { no_title, show_info, show_pokedex, command }
}

// ---------------------------------------------------------------------------
// Terminal width
// ---------------------------------------------------------------------------

/// Columns of the terminal: what the terminal reports when it reports a
/// positive width, else a positive `COLUMNS` value, else 80.
pub open spec fn terminal_width_spec(reported: Option<u16>, columns: Option<Seq<char>>) -> usize {
    match reported {
        Some(c) if c > 0 => c as usize,
        _ => match columns {
            Some(s) => match parse_usize(s) {
                Some(n) => if n > 0 {
                    n
                } else {
                    80
                },
                None => 80,
            },
            None => 80,
        },
    }
}

pub fn terminal_width_from(reported: Option<u16>, columns: Option<&str>) -> (w: usize)
    ensures
        w == terminal_width_spec(reported, opt_str_view(columns)),
{
    match reported {
        Some(c) => {
            if c > 0 {
                return c as usize;
            }
        },
        None => {},
    }
    match columns {
        Some(s) => {
            let v = chars_of(s);
            assert(v@.subrange(0, v@.len() as int) =~= v@);
            match parse_usize_at(&v, 0, v.len()) {
                Some(n) => if n > 0 {
                    n
                } else {
                    80
                },
                None => 80,
            }
        },
        None => 80,
    }
}

// ---------------------------------------------------------------------------
// Choosing the layout
// ---------------------------------------------------------------------------

/// Whether the side-panel layout's sums fit (see `render_with_info`).
pub fn info_fits(art: &str, stats_text: Option<&str>, show_info: bool) -> (r: bool)
    ensures
        r == (info_stats_ok(show_info, opt_str_view(stats_text)) && max_line_vis(art_lines_of(art@))
            + 3 <= usize::MAX),
{
    let als = art_lines(art);
    let m = max_visible(&als);
    if m > usize::MAX - 3 {
        return false;
    }
    if show_info {
        match stats_text {
            Some(t) => {
                let sheet = parse_stats_text(t);
                return stats_total(&sheet.values).is_some();
            },
            None => {},
        }
    }
    true
}

/// Whether the Pokédex layout's sums fit (see `render_pokedex`).
pub fn pokedex_fits_check(name: &str, art: &str, t: &str, term_w: usize) -> (r: bool)
    ensures
        r == pokedex_fits(name@, art@, t@, term_w as nat),
{
    let als = art_lines(art);
    let m = max_visible(&als) as u128;
    let left_w = m + 4;
    let right_w: u128 = if (term_w as u128) >= left_w + 3 && (term_w as u128) - (left_w + 3) > 30 {
        (term_w as u128) - (left_w + 3)
    } else {
        30
    };
    let sheet = parse_stats_text(t);
    let dex_len: u128 = match &sheet.dex_num {
        Some(s) => visible_len(s.as_str()) as u128,
        None => visible_len(String::from_str("#???").as_str()) as u128,
    };
    let display_len: u128 = match &sheet.display_name {
        Some(s) => visible_len(s.as_str()) as u128,
        None => visible_len(name) as u128,
    };
    let mut tc = String::new();
    match &sheet.types_raw {
        Some(s) => push_colored_types(&mut tc, s.as_str()),
        None => {
            let e = String::new();
            push_colored_types(&mut tc, e.as_str());
        },
    }
    let types_vis = visible_len(tc.as_str()) as u128;
    let max = usize::MAX as u128;
    assert(left_w == dex_left_w(art@));
    assert(right_w == dex_right_w(art@, term_w as nat));
    assert(dex_len == vis(dex_dex(name@, t@)));
    assert(display_len == vis(dex_display(name@, t@)));
    assert(tc@ == colored_types(dex_types(t@)));
    assert(sheet.values@ == dex_vals(t@));
    left_w + 3 <= max && 2 + dex_len + types_vis + 2 <= max && left_w + 1 + right_w <= max && 1 + 11
        + 1 + dex_len + 3 + display_len + 1 <= max && stats_total(&sheet.values).is_some()
}

/// Draws the Pokemon as asked: the Pokédex frame for `show_pokedex`, else
/// the sprite with the optional side panel; `None` where the chosen
/// layout's sums would overflow.
pub fn render_pokemon(
    name: &str,
    art: &str,
    stats_text: Option<&str>,
    no_title: bool,
    show_info: bool,
    show_pokedex: bool,
    term_w: usize,
) -> (r: Option<String>)
    ensures
        show_pokedex ==> (r is Some <==> (stats_text matches Some(t) ==> pokedex_fits(
            name@,
            art@,
            t@,
            term_w as nat,
        ))),
        show_pokedex ==> (r matches Some(o) ==> o@ == render_pokedex_spec(
            name@,
            art@,
            opt_str_view(stats_text),
            term_w as nat,
        )),
        !show_pokedex ==> (r is Some <==> (info_stats_ok(show_info, opt_str_view(stats_text))
            && max_line_vis(art_lines_of(art@)) + 3 <= usize::MAX)),
        !show_pokedex ==> (r matches Some(o) ==> o@ == render_with_info_spec(
            name@,
            art@,
            show_info,
            no_title,
            opt_str_view(stats_text),
        )),
{
    if show_pokedex {
        match stats_text {
            Some(t) => {
                if !pokedex_fits_check(name, art, t, term_w) {
                    return None;
                }
            },
            None => {},
        }
        Some(render_pokedex(name, art, stats_text, term_w))
    } else {
        if !info_fits(art, stats_text, show_info) {
            return None;
        }
        Some(render_with_info(name, art, show_info, no_title, stats_text))
    }
}

} // verus!
