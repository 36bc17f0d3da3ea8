//! Reading pokemondb pages: the Pokemon list, display names, types and base
//! stats, and the stats sheet written from them.
use vstd::prelude::*;
use crate::text::{or_else};
use crate::text::{views};
use crate::text::{
    chars_of, dec, find_at, find_char_from, find_from, lemma_find_from_facts,
    lemma_next_char_bounds, lemma_terminated_push, next_char, pad_left, parse_u32, parse_u32_at,
    terminated, push_char, push_dec, push_dec_padded, push_range, push_str, range_contains,
    string_of_range, sub_vec, trim, trim_bounds,
};

verus! {

broadcast use vstd::string::group_string_axioms;

// ---------------------------------------------------------------------------
// Capitalization
// ---------------------------------------------------------------------------

/// What `char::to_uppercase` yields for `c`.
pub uninterp spec fn uppercase_of(c: char) -> Seq<char>;

/// The upper case of an ASCII character: `a`..`z` become `A`..`Z`, every
/// other ASCII character stays as it is.
pub open spec fn ascii_upper(c: char) -> char {
    if 'a' <= c && c <= 'z' {
        ((c as u32) - 32) as char
    } else {
        c
    }
}

/// Calls `char::to_uppercase` and collects the characters it yields. The
/// contract names the result; of an ASCII character it claims its ASCII
/// upper case (lowercase letters map to uppercase ones, and the other ASCII
/// characters have no uppercase mapping, so they are yielded unchanged).
#[verifier::external_body]
fn char_uppercase(c: char) -> (r: String)
    ensures
        r@ == uppercase_of(c),
        (c as u32) < 128 ==> r@ == seq![ascii_upper(c)],
{
    c.to_uppercase().collect::<String>()
}

/// First character in upper case, the rest as it is.
pub open spec fn capitalize_spec(s: Seq<char>) -> Seq<char> {
    if s.len() == 0 {
        Seq::empty()
    } else {
        uppercase_of(s[0]) + s.drop_first()
    }
}

/// Text that is empty or starts with an ASCII character.
pub open spec fn starts_ascii(s: Seq<char>) -> bool {
    s.len() == 0 || (s[0] as u32) < 128
}

/// `capitalize_spec` where the first character is ASCII.
pub open spec fn capitalize_ascii(s: Seq<char>) -> Seq<char> {
    if s.len() == 0 {
        Seq::empty()
    } else {
        seq![ascii_upper(s[0])] + s.drop_first()
    }
}

pub fn capitalize(s: &str) -> (r: String)
    ensures
        r@ == capitalize_spec(s@),
        starts_ascii(s@) ==> r@ == capitalize_ascii(s@),
{
    let v = chars_of(s);
    if v.len() == 0 {
        return String::new();
    }
    let mut r = char_uppercase(v[0]);
    push_range(&mut r, &v, 1, v.len());
    assert(v@.subrange(1, v@.len() as int) =~= v@.drop_first());
    r
}

// ---------------------------------------------------------------------------
// The Pokemon list
// ---------------------------------------------------------------------------

pub open spec fn slug_prefix() -> Seq<char> {
    "href=\"/sprites/"@
}

/// The text between each `href="/sprites/` and the next `"`, from `pos` on.
pub open spec fn slug_candidates(s: Seq<char>, pos: int) -> Seq<Seq<char>>
    decreases s.len() + 1 - pos,
{
    if pos < 0 || pos > s.len() {
        Seq::empty()
    } else {
        match find_from(s, slug_prefix(), pos) {
            None => Seq::empty(),
            Some(rel) => {
                let start = rel + slug_prefix().len();
                let end = next_char(s, '"', start);
                proof {
                    reveal_strlit("href=\"/sprites/");
                    lemma_find_from_facts(s, slug_prefix(), pos);
                    lemma_next_char_bounds(s, '"', start);
                }
                if end >= s.len() {
                    Seq::empty()
                } else {
                    seq![s.subrange(start, end)] + slug_candidates(s, end)
                }
            },
        }
    }
}

/// A slug names a Pokemon page: not empty, no `/` (a sub-page), no `#` (an
/// anchor).
pub open spec fn is_pokemon_slug(t: Seq<char>) -> bool {
    !t.contains('/') && !t.contains('#') && t.len() > 0
}

/// Valid slugs in order, each kept at its first occurrence.
pub open spec fn unique_slugs(cands: Seq<Seq<char>>) -> Seq<Seq<char>>
    decreases cands.len(),
{
    if cands.len() == 0 {
        Seq::empty()
    } else {
        let prev = unique_slugs(cands.drop_last());
        let t = cands.last();
        if is_pokemon_slug(t) && !prev.contains(t) {
            prev.push(t)
        } else {
            prev
        }
    }
}

fn contains_string(names: &Vec<String>, t: &String) -> (r: bool)
    ensures
        r == views(names@).contains(t@),
{
    let mut i: usize = 0;
    while i < names.len()
        invariant
            i <= names.len(),
            forall|k: int| 0 <= k < i ==> names@[k]@ != t@,
        decreases names.len() - i,
    {
        if names[i] == *t {
            assert(views(names@)[i as int] == t@);
            return true;
        }
        i = i + 1;
    }
    assert forall|k: int| 0 <= k < views(names@).len() implies views(names@)[k] != t@ by {}
    false
}

/// Extracts Pokemon slugs from pokemondb HTML.
///
/// Each Pokemon infocard looks like:
///   <a class="infocard" href="/sprites/bulbasaur">...</a>
///
/// The path segment after "/sprites/" is taken; hrefs with extra slashes,
/// anchors and empty ones are skipped, and each slug is kept once, in page
/// order.
pub fn extract_pokemon_slugs(html: &str) -> (names: Vec<String>)
    ensures
        views(names@) == unique_slugs(slug_candidates(html@, 0)),
{
    let v = chars_of(html);
    let prefix = chars_of("href=\"/sprites/");
    proof {
        reveal_strlit("href=\"/sprites/");
    }
    let mut names: Vec<String> = Vec::new();
    let mut pos: usize = 0;
    let ghost all = slug_candidates(v@, 0);
    let ghost mut taken: int = 0;
    assert(all.take(0) =~= Seq::<Seq<char>>::empty());
    loop
        invariant
            v@ == html@,
            prefix@ == slug_prefix(),
            prefix@.len() == 15,
            all == slug_candidates(v@, 0),
            pos <= v.len(),
            0 <= taken <= all.len(),
            all.skip(taken) == slug_candidates(v@, pos as int),
            views(names@) == unique_slugs(all.take(taken)),
        decreases v.len() - pos,
    {
        let ghost rest = slug_candidates(v@, pos as int);
        match find_at(&v, &prefix, pos) {
            None => {
                assert(rest =~= Seq::<Seq<char>>::empty());
                assert(all.take(taken) =~= all);
                return names;
            },
            Some(rel) => {
                let start = rel + prefix.len();
                let end = find_char_from(&v, '"', start);
                if end >= v.len() {
                    assert(rest =~= Seq::<Seq<char>>::empty());
                    assert(all.take(taken) =~= all);
                    return names;
                }
                let slug = string_of_range(&v, start, end);
                assert(rest == seq![slug@] + slug_candidates(v@, end as int));
                assert(all[taken] == slug@) by {
                    assert(all.skip(taken)[0] == all[taken]);
                }
                let ok = !range_contains(&v, start, end, '/') && !range_contains(&v, start, end, '#')
                    && start < end;
                let ghost before = names@;
                if ok {
                    if !contains_string(&names, &slug) {
                        names.push(slug);
                        assert(views(names@) =~= views(before).push(v@.subrange(start as int, end as int)));
                    }
                }
                assert(all.take(taken + 1).drop_last() =~= all.take(taken));
                assert(all.take(taken + 1).last() == all[taken]);
                assert(all.skip(taken + 1) =~= all.skip(taken).drop_first());
                proof {
                    taken = taken + 1;
                }
                pos = end;
            },
        }
    }
}

// ---------------------------------------------------------------------------
// Display name
// ---------------------------------------------------------------------------

/// The display name in a page's `<title>`: the title text up to the first
/// ` Pokédex` (or, failing that, ` Pok`), trimmed. `None` without a title or
/// without either marker.
pub open spec fn display_name_in(s: Seq<char>) -> Option<Seq<char>> {
    match find_from(s, "<title>"@, 0) {
        None => None,
        Some(pos) => {
            let a = pos + "<title>"@.len();
            let e = match find_from(s, "</title>"@, a) {
                Some(t) => t,
                None => s.len() as int,
            };
            let title = s.subrange(a, e);
            let sep = match find_from(title, " Pokédex"@, 0) {
                Some(p) => Some(p),
                None => find_from(title, " Pok"@, 0),
            };
            match sep {
                Some(p) => Some(trim(title.subrange(0, p))),
                None => None,
            }
        },
    }
}

pub open spec fn opt_string_view(o: Option<String>) -> Option<Seq<char>> {
    match o {
        Some(s) => Some(s@),
        None => None,
    }
}

/// Extracts the Pokemon's proper display name from the page title.
///
/// The `<title>` is like:
///   `Charizard Pokédex: stats, moves, evolution & locations | Pokémon Database`
///
/// Everything before the first " Pokédex" is taken, which preserves names
/// like "Mr. Mime", "Mime Jr.", "Farfetch'd", "Nidoran♂".
pub fn extract_display_name(html: &str) -> (r: Option<String>)
    ensures
        opt_string_view(r) == display_name_in(html@),
{
    let v = chars_of(html);
    let open_tag = chars_of("<title>");
    let close_tag = chars_of("</title>");
    let pos = match find_at(&v, &open_tag, 0) {
        Some(p) => p,
        None => return None,
    };
    let a = pos + open_tag.len();
    let e = match find_at(&v, &close_tag, a) {
        Some(t) => {
            proof {
                lemma_find_from_facts(v@, close_tag@, a as int);
            }
            t
        },
        None => v.len(),
    };
    let title = sub_vec(&v, a, e);
    let long_sep = chars_of(" Pokédex");
    let short_sep = chars_of(" Pok");
    let sep = match find_at(&title, &long_sep, 0) {
        Some(p) => p,
        None => match find_at(&title, &short_sep, 0) {
            Some(p) => p,
            None => return None,
        },
    };
    let (x, y) = trim_bounds(&title, 0, sep);
    Some(string_of_range(&title, x, y))
}

// ---------------------------------------------------------------------------
// Types
// ---------------------------------------------------------------------------

pub open spec fn type_prefix() -> Seq<char> {
    "class=\"type-icon type-"@
}

/// Type slugs of a row section from `pos` on, with `n` already taken: the
/// text between each `class="type-icon type-` and the next `"`, empty ones
/// passed over, stopping after the second.
pub open spec fn type_slugs(sec: Seq<char>, pos: int, n: nat) -> Seq<Seq<char>>
    decreases sec.len() + 1 - pos,
{
    if pos < 0 || pos > sec.len() {
        Seq::empty()
    } else {
        match find_from(sec, type_prefix(), pos) {
            None => Seq::empty(),
            Some(rel) => {
                let start = rel + type_prefix().len();
                let end = next_char(sec, '"', start);
                proof {
                    reveal_strlit("class=\"type-icon type-");
                    lemma_find_from_facts(sec, type_prefix(), pos);
                    lemma_next_char_bounds(sec, '"', start);
                }
                if end >= sec.len() {
                    Seq::empty()
                } else {
                    let slug = sec.subrange(start, end);
                    if slug.len() > 0 {
                        if n + 1 >= 2 {
                            seq![slug]
                        } else {
                            seq![slug] + type_slugs(sec, end, n + 1)
                        }
                    } else {
                        type_slugs(sec, end, n)
                    }
                }
            },
        }
    }
}

/// The part of the page from the first `Type</th>` to the end of its table
/// row (or of the page).
pub open spec fn type_section(s: Seq<char>) -> Option<Seq<char>> {
    match find_from(s, "Type</th>"@, 0) {
        None => None,
        Some(p) => {
            let e = match find_from(s, "</tr>"@, p) {
                Some(t) => t,
                None => s.len() as int,
            };
            Some(s.subrange(p, e))
        },
    }
}

/// Up to two type slugs from the first Type row.
pub open spec fn type_slug_list(s: Seq<char>) -> Seq<Seq<char>> {
    match type_section(s) {
        None => Seq::empty(),
        Some(sec) => type_slugs(sec, 0, 0),
    }
}

/// Up to two type names from the first Type row, capitalized.
pub open spec fn types_in(s: Seq<char>) -> Seq<Seq<char>> {
    Seq::new(type_slug_list(s).len(), |k: int| capitalize_spec(type_slug_list(s)[k]))
}

/// Extracts up to two type names from the "Type" row of the first vitals table.
///
/// Pokemondb HTML looks like:
/// ```html
/// <th>Type</th>
/// <td>
///   <a class="type-icon type-fire" href="/type/fire">Fire</a>
///   <a class="type-icon type-flying" href="/type/flying">Flying</a>
/// </td>
/// ```
pub fn extract_types(html: &str) -> (types: Vec<String>)
    ensures
        views(types@) == types_in(html@),
        forall|k: int|
            0 <= k < types@.len() && starts_ascii(#[trigger] type_slug_list(html@)[k]) ==> types@[k]@
                == capitalize_ascii(type_slug_list(html@)[k]),
{
    let v = chars_of(html);
    let header = chars_of("Type</th>");
    let row_close = chars_of("</tr>");
    let type_pos = match find_at(&v, &header, 0) {
        Some(p) => p,
        None => return Vec::new(),
    };
    let row_end = match find_at(&v, &row_close, type_pos) {
        Some(t) => t,
        None => v.len(),
    };
    proof {
        lemma_find_from_facts(v@, row_close@, type_pos as int);
    }
    let sec = sub_vec(&v, type_pos, row_end);
    assert(type_section(html@) == Some(sec@));
    let prefix = chars_of("class=\"type-icon type-");
    proof {
        reveal_strlit("class=\"type-icon type-");
    }
    let mut types: Vec<String> = Vec::new();
    let mut pos: usize = 0;
    let ghost all = type_slugs(sec@, 0, 0);
    assert(types_in(html@) == Seq::new(all.len(), |k: int| capitalize_spec(all[k])));
    assert(all =~= Seq::new(0nat, |k: int| all[k]) + type_slugs(sec@, 0, 0));
    loop
        invariant
            types_in(html@) == Seq::new(all.len(), |k: int| capitalize_spec(all[k])),
            prefix@ == type_prefix(),
            prefix@.len() == 22,
            all == type_slugs(sec@, 0, 0),
            pos <= sec.len(),
            types@.len() < 2,
            all == Seq::new(types@.len() as nat, |k: int| all[k]) + type_slugs(sec@, pos as int, types@.len() as nat),
            views(types@) == Seq::new(types@.len() as nat, |k: int| capitalize_spec(all[k])),
            all == type_slug_list(html@),
            forall|k: int|
                0 <= k < types@.len() && starts_ascii(#[trigger] all[k]) ==> types@[k]@ == capitalize_ascii(
                    all[k],
                ),
        decreases sec.len() - pos,
    {
        let ghost n = types@.len();
        let ghost rest = type_slugs(sec@, pos as int, n as nat);
        match find_at(&sec, &prefix, pos) {
            None => {
                assert(rest =~= Seq::<Seq<char>>::empty());
                assert(all =~= Seq::new(n as nat, |k: int| all[k]));
                return types;
            },
            Some(rel) => {
                let start = rel + prefix.len();
                let end_q = find_char_from(&sec, '"', start);
                if end_q >= sec.len() {
                    assert(rest =~= Seq::<Seq<char>>::empty());
                    assert(all =~= Seq::new(n as nat, |k: int| all[k]));
                    return types;
                }
                if start < end_q {
                    let slug = string_of_range(&sec, start, end_q);
                    let t = capitalize(slug.as_str());
                    let ghost before = types@;
                    types.push(t);
                    assert(views(types@) =~= views(before).push(capitalize_spec(slug@)));
                    assert(all[n as int] == slug@) by {
                        if types.len() >= 2 {
                            assert(rest == seq![slug@]);
                        } else {
                            assert(rest == seq![slug@] + type_slugs(sec@, end_q as int, (n + 1) as nat));
                        }
                        assert(all[n as int] == rest[0]);
                    }
                    if types.len() >= 2 {
                        assert(rest == seq![slug@]);
                        assert(all =~= Seq::new(n as nat, |k: int| all[k]) + seq![slug@]);
                        assert(views(types@) =~= Seq::new(all.len(), |k: int| capitalize_spec(all[k])));
                        return types;
                    }
                    assert(rest == seq![slug@] + type_slugs(sec@, end_q as int, (n + 1) as nat));
                    assert(all =~= Seq::new((n + 1) as nat, |k: int| all[k]) + type_slugs(sec@, end_q as int, (n + 1) as nat));
                    assert(views(types@) =~= Seq::new((n + 1) as nat, |k: int| capitalize_spec(all[k])));
                } else {
                    assert(rest == type_slugs(sec@, end_q as int, n as nat));
                }
                pos = end_q;
            },
        }
    }
}

// ---------------------------------------------------------------------------
// Base stats
// ---------------------------------------------------------------------------

/// Header cell of the `k`-th base stat.
pub open spec fn stat_header(k: int) -> Seq<char> {
    if k == 0 {
        "<th>HP</th>"@
    } else if k == 1 {
        "<th>Attack</th>"@
    } else if k == 2 {
        "<th>Defense</th>"@
    } else if k == 3 {
        "<th>Sp. Atk</th>"@
    } else if k == 4 {
        "<th>Sp. Def</th>"@
    } else {
        "<th>Speed</th>"@
    }
}

pub fn stat_header_str(k: usize) -> (h: &'static str)
    ensures
        h@ == stat_header(k as int),
{
    if k == 0 {
        "<th>HP</th>"
    } else if k == 1 {
        "<th>Attack</th>"
    } else if k == 2 {
        "<th>Defense</th>"
    } else if k == 3 {
        "<th>Sp. Atk</th>"
    } else if k == 4 {
        "<th>Sp. Def</th>"
    } else {
        "<th>Speed</th>"
    }
}

pub open spec fn cell_marker() -> Seq<char> {
    "<td class=\"cell-num\">"@
}

/// Value of the `k`-th stat searched from `pos`: the number in the first
/// `cell-num` cell after the stat's header, and where the next search starts
/// (just after that header); `None` where the header, the cell, the cell's
/// end or the number is missing.
pub open spec fn stat_at(s: Seq<char>, k: int, pos: int) -> Option<(u32, int)> {
    match find_from(s, stat_header(k), pos) {
        None => None,
        Some(abs) => {
            let after = abs + stat_header(k).len();
            match find_from(s, cell_marker(), after) {
                None => None,
                Some(c) => {
                    let val_start = c + cell_marker().len();
                    let tag_end = next_char(s, '<', val_start);
                    if tag_end < s.len() {
                        match parse_u32(trim(s.subrange(val_start, tag_end))) {
                            Some(v) => Some((v, after)),
                            None => None,
                        }
                    } else {
                        None
                    }
                },
            }
        },
    }
}

/// The stats from the `k`-th on, searching from `pos`; a stat that cannot
/// be read is 0 and leaves the search position where it was.
pub open spec fn stats_from(s: Seq<char>, k: nat, pos: int) -> Seq<u32>
    decreases 6 - k,
{
    if k >= 6 {
        Seq::empty()
    } else {
        match stat_at(s, k as int, pos) {
            Some((v, next)) => seq![v] + stats_from(s, k + 1, next),
            None => seq![0u32] + stats_from(s, k + 1, pos),
        }
    }
}

/// Extracts the six base stats (HP, Attack, Defense, Sp. Atk, Sp. Def, Speed)
/// from the first stats table on the page (base form); a stat that cannot be
/// read is 0.
pub fn extract_base_stats(html: &str) -> (stats: Vec<u32>)
    ensures
        stats@ == stats_from(html@, 0, 0),
        stats@.len() == 6,
{
    let v = chars_of(html);
    let marker = chars_of("<td class=\"cell-num\">");
    let mut result: Vec<u32> = Vec::new();
    let mut search_pos: usize = 0;
    let mut k: usize = 0;
    while k < 6
        invariant
            v@ == html@,
            marker@ == cell_marker(),
            k <= 6,
            result@.len() == k,
            stats_from(v@, 0, 0) == result@ + stats_from(v@, k as nat, search_pos as int),
        decreases 6 - k,
    {
        let header = chars_of(stat_header_str(k));
        let mut got: Option<(u32, usize)> = None;
        match find_at(&v, &header, search_pos) {
            Some(abs) => {
                let after = abs + header.len();
                match find_at(&v, &marker, after) {
                    Some(c) => {
                        let val_start = c + marker.len();
                        let tag_end = find_char_from(&v, '<', val_start);
                        if tag_end < v.len() {
                            let (x, y) = trim_bounds(&v, val_start, tag_end);
                            match parse_u32_at(&v, x, y) {
                                Some(val) => {
                                    got = Some((val, after));
                                },
                                None => {},
                            }
                        }
                    },
                    None => {},
                }
            },
            None => {},
        }
        let ghost before = result@;
        match got {
            Some((val, next)) => {
                assert(stat_at(v@, k as int, search_pos as int) == Some((val, next as int)));
                result.push(val);
                search_pos = next;
            },
            None => {
                assert(stat_at(v@, k as int, search_pos as int) is None);
                result.push(0);
            },
        }
        assert(result@ =~= before + seq![result@.last()]);
        k = k + 1;
    }
    assert(stats_from(v@, 6, search_pos as int) =~= Seq::<u32>::empty());
    assert(result@ =~= result@ + Seq::<u32>::empty());
    result
}

// ---------------------------------------------------------------------------
// The stats sheet written from a page
// ---------------------------------------------------------------------------

/// The pieces joined with `sep` between each two.
pub open spec fn join(ps: Seq<Seq<char>>, sep: Seq<char>) -> Seq<char>
    decreases ps.len(),
{
    if ps.len() == 0 {
        Seq::empty()
    } else if ps.len() == 1 {
        ps[0]
    } else {
        join(ps.drop_last(), sep) + sep + ps.last()
    }
}

/// Appends `parts` joined with `sep`.
pub fn push_joined(out: &mut String, parts: &Vec<String>, sep: &str)
    ensures
        final(out)@ == old(out)@ + join(views(parts@), sep@),
{
    let mut i: usize = 0;
    while i < parts.len()
        invariant
            i <= parts.len(),
            out@ == old(out)@ + join(views(parts@).take(i as int), sep@),
        decreases parts.len() - i,
    {
        let ghost before = out@;
        if i > 0 {
            push_str(out, sep);
        }
        push_str(out, parts[i].as_str());
        let ghost t = views(parts@).take(i + 1);
        assert(t.drop_last() =~= views(parts@).take(i as int));
        assert(t.last() == parts@[i as int]@);
        if i == 0 {
            assert(views(parts@).take(0) =~= Seq::<Seq<char>>::empty());
            assert(join(t, sep@) == t[0]);
        }
        assert(out@ =~= old(out)@ + join(t, sep@));
        i = i + 1;
    }
    assert(views(parts@).take(i as int) =~= views(parts@));
}

/// The lines of a stats sheet: dex number with three digits at least,
/// display name, types joined by `/`, then one `Label:value` line per base
/// stat.
pub open spec fn sheet_lines(num: nat, name: Seq<char>, types: Seq<Seq<char>>, st: Seq<u32>) -> Seq<Seq<char>> {
    seq![
        seq!['#'] + pad_left(dec(num), 3, '0'),
        name,
        join(types, seq!['/']),
        seq!['H', 'P', ':'] + dec(st[0] as nat),
        seq!['A', 't', 'k', ':'] + dec(st[1] as nat),
        seq!['D', 'e', 'f', ':'] + dec(st[2] as nat),
        seq!['S', 'p', 'A', ':'] + dec(st[3] as nat),
        seq!['S', 'p', 'D', ':'] + dec(st[4] as nat),
        seq!['S', 'p', 'e', ':'] + dec(st[5] as nat),
    ]
}

/// The stats sheet: its lines, each followed by a newline.
pub open spec fn stats_sheet_text(num: nat, name: Seq<char>, types: Seq<Seq<char>>, st: Seq<u32>) -> Seq<char> {
    terminated(sheet_lines(num, name, types, st))
}

/// Why a page gave no stats sheet.
pub enum StatsError {
    /// The page has no type names where they are expected.
    NoTypes,
}

impl StatsError {
    pub fn message(&self) -> (m: String)
        ensures
            m@ == "Could not parse types — page structure may have changed"@,
    {
        String::from_str("Could not parse types — page structure may have changed")
    }
}

fn stat_line(label: &str, v: u32) -> (l: String)
    ensures
        l@ == label@ + dec(v as nat),
{
    let mut l = String::new();
    push_str(&mut l, label);
    push_dec(&mut l, v as u64);
    l
}

/// The lines, each followed by a newline.
pub fn terminate_lines(ls: &Vec<String>) -> (out: String)
    ensures
        out@ == terminated(views(ls@)),
{
    let mut out = String::new();
    let mut i: usize = 0;
    while i < ls.len()
        invariant
            i <= ls.len(),
            out@ == terminated(views(ls@).take(i as int)),
        decreases ls.len() - i,
    {
        push_str(&mut out, ls[i].as_str());
        push_char(&mut out, '\n');
        proof {
            lemma_terminated_push(views(ls@).take(i as int), ls@[i as int]@);
            assert(views(ls@).take(i + 1) =~= views(ls@).take(i as int).push(ls@[i as int]@));
        }
        i = i + 1;
    }
    assert(views(ls@).take(i as int) =~= views(ls@));
    out
}

/// Address of a Pokemon's pokedex page on pokemondb.
pub open spec fn pokedex_url_spec(name: Seq<char>) -> Seq<char> {
    "https://pokemondb.net/pokedex/"@ + name
}

pub fn pokedex_url(name: &str) -> (url: String)
    ensures
        url@ == pokedex_url_spec(name@),
{
    let mut url = String::new();
    push_str(&mut url, "https://pokemondb.net/pokedex/");
    push_str(&mut url, name);
    url
}

/// Builds the stats sheet of a Pokemon from its pokedex page: the display
/// name from the title (the capitalized slug when the title has none), the
/// types and the six base stats, numbered `pokedex_num`.
pub fn fetch_pokemon_stats(html: &str, name: &str, pokedex_num: usize) -> (r: Result<String, StatsError>)
    ensures
        types_in(html@).len() == 0 <==> r is Err,
        r matches Ok(t) ==> t@ == stats_sheet_text(
            pokedex_num as nat,
            or_else(display_name_in(html@), capitalize_spec(name@)),
            types_in(html@),
            stats_from(html@, 0, 0),
        ),
        r matches Ok(t) ==> (starts_ascii(name@) && (forall|k: int|
            0 <= k < type_slug_list(html@).len() ==> starts_ascii(#[trigger] type_slug_list(html@)[k]))
            ==> t@ == stats_sheet_text(
            pokedex_num as nat,
            or_else(display_name_in(html@), capitalize_ascii(name@)),
            Seq::new(type_slug_list(html@).len(), |k: int| capitalize_ascii(type_slug_list(html@)[k])),
            stats_from(html@, 0, 0),
        )),
{
    let display_name = match extract_display_name(html) {
        Some(d) => d,
        None => capitalize(name),
    };
    assert(display_name_in(html@) is None ==> display_name@ == capitalize_spec(name@) && (starts_ascii(name@)
        ==> display_name@ == capitalize_ascii(name@)));
    let types = extract_types(html);
    proof {
        let sl = type_slug_list(html@);
        if starts_ascii(name@) && (forall|k: int| 0 <= k < sl.len() ==> starts_ascii(#[trigger] sl[k])) {
            assert(types_in(html@) =~= Seq::new(sl.len(), |k: int| capitalize_ascii(sl[k]))) by {
                assert forall|k: int| 0 <= k < sl.len() implies types_in(html@)[k] == capitalize_ascii(sl[k]) by {
                    assert(views(types@)[k] == types@[k]@);
                }
            }
            assert(or_else(display_name_in(html@), capitalize_spec(name@)) == or_else(
                display_name_in(html@),
                capitalize_ascii(name@),
            ));
        }
    }
    let stats = extract_base_stats(html);
    if types.len() == 0 {
        return Err(StatsError::NoTypes);
    }
    let mut ls: Vec<String> = Vec::new();
    let mut l0 = String::new();
    push_char(&mut l0, '#');
    push_dec_padded(&mut l0, pokedex_num as u64, 3, '0');
    ls.push(l0);
    ls.push(display_name);
    let mut l2 = String::new();
    push_joined(&mut l2, &types, "/");
    ls.push(l2);
    ls.push(stat_line("HP:", stats[0]));
    ls.push(stat_line("Atk:", stats[1]));
    ls.push(stat_line("Def:", stats[2]));
    ls.push(stat_line("SpA:", stats[3]));
    ls.push(stat_line("SpD:", stats[4]));
    ls.push(stat_line("Spe:", stats[5]));
    proof {
        reveal_strlit("/");
        reveal_strlit("HP:");
        reveal_strlit("Atk:");
        reveal_strlit("Def:");
        reveal_strlit("SpA:");
        reveal_strlit("SpD:");
        reveal_strlit("Spe:");
        assert("/"@ =~= seq!['/']);
    }
    let ghost expect = sheet_lines(
        pokedex_num as nat,
        or_else(display_name_in(html@), capitalize_spec(name@)),
        types_in(html@),
        stats_from(html@, 0, 0),
    );
    assert(ls@.len() == 9);
    assert(ls@[0]@ == expect[0]);
    assert(ls@[1]@ == expect[1]);
    assert(ls@[2]@ == expect[2]);
    assert(ls@[3]@ == expect[3]);
    assert(ls@[4]@ == expect[4]);
    assert(ls@[5]@ == expect[5]);
    assert(ls@[6]@ == expect[6]);
    assert(ls@[7]@ == expect[7]);
    assert(ls@[8]@ == expect[8]);
    assert(views(ls@) =~= sheet_lines(
        pokedex_num as nat,
        or_else(display_name_in(html@), capitalize_spec(name@)),
        types_in(html@),
        stats_from(html@, 0, 0),
    ));
    let out = terminate_lines(&ls);
    Ok(out)
}

// ---------------------------------------------------------------------------
// The names list file
// ---------------------------------------------------------------------------

/// The names list file: the names one per line, each line ended by a newline.
pub open spec fn nameslist_spec(names: Seq<Seq<char>>) -> Seq<char> {
    join(names, seq!['\n']) + seq!['\n']
}

pub fn nameslist_content(names: &Vec<String>) -> (content: String)
    ensures
        content@ == nameslist_spec(views(names@)),
{
    let mut out = String::new();
    push_joined(&mut out, names, "\n");
    push_char(&mut out, '\n');
    proof {
        reveal_strlit("\n");
        assert("\n"@ =~= seq!['\n']);
    }
    assert(out@ =~= nameslist_spec(views(names@)));
    out
}

/// The names in a names list: each line trimmed, blank lines passed over.
pub open spec fn listed_names(ls: Seq<Seq<char>>) -> Seq<Seq<char>>
    decreases ls.len(),
{
    if ls.len() == 0 {
        Seq::empty()
    } else {
        let prev = listed_names(ls.drop_last());
        let t = trim(ls.last());
        if t.len() > 0 {
            prev.push(t)
        } else {
            prev
        }
    }
}

pub fn names_from_list(content: &str) -> (names: Vec<String>)
    ensures
        views(names@) == listed_names(crate::text::lines(content@)),
{
    let v = chars_of(content);
    let b = crate::text::line_bounds(&v);
    let ghost ls = crate::text::lines(v@);
    let mut names: Vec<String> = Vec::new();
    let mut k: usize = 0;
    while k < b.len()
        invariant
            k <= b.len(),
            b@.len() == ls.len(),
            ls == crate::text::lines(v@),
            v@ == content@,
            forall|j: int|
                0 <= j < b@.len() ==> (#[trigger] b@[j]).0 <= b@[j].1 <= v@.len()
                    && v@.subrange(b@[j].0 as int, b@[j].1 as int) == ls[j],
            views(names@) == listed_names(ls.take(k as int)),
        decreases b.len() - k,
    {
        let (lo, hi) = b[k];
        let (x, y) = trim_bounds(&v, lo, hi);
        let ghost before = names@;
        if x < y {
            names.push(string_of_range(&v, x, y));
            assert(views(names@) =~= views(before).push(v@.subrange(x as int, y as int)));
        }
        assert(ls.take(k + 1).drop_last() =~= ls.take(k as int));
        assert(ls.take(k + 1).last() == ls[k as int]);
        k = k + 1;
    }
    assert(ls.take(k as int) =~= ls);
    names
}

/// Position of `t` in `ns` from `i` on.
pub open spec fn position_from(ns: Seq<Seq<char>>, t: Seq<char>, i: int) -> Option<int>
    decreases ns.len() - i,
{
    if i < 0 || i >= ns.len() {
        None
    } else if ns[i] == t {
        Some(i)
    } else {
        position_from(ns, t, i + 1)
    }
}

/// The Pokedex number of `name` in a names list: its 1-based position, or 1
/// when it is not listed.
pub open spec fn pokedex_index_spec(content: Seq<char>, name: Seq<char>) -> nat {
    match position_from(listed_names(crate::text::lines(content)), name, 0) {
        Some(i) => (i + 1) as nat,
        None => 1,
    }
}

pub fn pokedex_index(content: &str, name: &str) -> (n: usize)
    ensures
        n == pokedex_index_spec(content@, name@),
{
    let names = names_from_list(content);
    let target = String::from_str(name);
    let ghost ns = views(names@);
    let mut i: usize = 0;
    while i < names.len()
        invariant
            i <= names.len(),
            ns == views(names@),
            ns == listed_names(crate::text::lines(content@)),
            target@ == name@,
            position_from(ns, name@, 0) == position_from(ns, name@, i as int),
        decreases names.len() - i,
    {
        if names[i] == target {
            return i + 1;
        }
        i = i + 1;
    }
    1
}

/// `{dir}/{name}.txt`.
pub open spec fn output_path_spec(dir: Seq<char>, name: Seq<char>) -> Seq<char> {
    dir + seq!['/'] + name + ".txt"@
}

pub fn output_path(dir: &str, name: &str) -> (p: String)
    ensures
        p@ == output_path_spec(dir@, name@),
{
    let mut p = String::new();
    push_str(&mut p, dir);
    push_char(&mut p, '/');
    push_str(&mut p, name);
    push_str(&mut p, ".txt");
    assert(p@ =~= output_path_spec(dir@, name@));
    p
}

/// A Pokemon's file is (re)generated when forced or when it does not exist.
pub fn should_generate(force: bool, exists: bool) -> (r: bool)
    ensures
        r == (force || !exists),
{
    force || !exists
}

/// `[{i}/{total}] {name}... ` with `i` counted from one.
pub open spec fn progress_spec(i: nat, total: nat, name: Seq<char>, what: Seq<char>) -> Seq<char> {
    seq!['['] + dec(i + 1) + seq!['/'] + dec(total) + "] "@ + name + what + "... "@
}

/// The progress prefix printed before a Pokemon is processed; `what` is
/// inserted after the name (`" stats"` for the stats pass, empty otherwise).
pub fn progress_label(i: usize, total: usize, name: &str, what: &str) -> (r: String)
    requires
        i < usize::MAX,
    ensures
        r@ == progress_spec(i as nat, total as nat, name@, what@),
{
    let mut r = String::new();
    push_char(&mut r, '[');
    push_dec(&mut r, (i + 1) as u64);
    push_char(&mut r, '/');
    push_dec(&mut r, total as u64);
    push_str(&mut r, "] ");
    push_str(&mut r, name);
    push_str(&mut r, what);
    push_str(&mut r, "... ");
    assert(r@ =~= progress_spec(i as nat, total as nat, name@, what@));
    r
}

/// What became of one Pokemon in a pass.
#[derive(Clone, Copy)]
pub enum Outcome {
    Generated,
    Skipped,
    Failed,
}

/// How many outcomes are `o`.
pub open spec fn count_of(os: Seq<Outcome>, o: Outcome) -> nat
    decreases os.len(),
{
    if os.len() == 0 {
        0
    } else {
        count_of(os.drop_last(), o) + if os.last() == o {
            1nat
        } else {
            0nat
        }
    }
}

/// The counts of a pass: generated, skipped and failed.
pub fn tally(outcomes: &Vec<Outcome>) -> (r: (usize, usize, usize))
    ensures
        r.0 == count_of(outcomes@, Outcome::Generated),
        r.1 == count_of(outcomes@, Outcome::Skipped),
        r.2 == count_of(outcomes@, Outcome::Failed),
{
    let mut ok: usize = 0;
    let mut skipped: usize = 0;
    let mut failed: usize = 0;
    let mut i: usize = 0;
    while i < outcomes.len()
        invariant
            i <= outcomes.len(),
            ok + skipped + failed == i,
            ok == count_of(outcomes@.take(i as int), Outcome::Generated),
            skipped == count_of(outcomes@.take(i as int), Outcome::Skipped),
            failed == count_of(outcomes@.take(i as int), Outcome::Failed),
        decreases outcomes.len() - i,
    {
        assert(outcomes@.take(i + 1).drop_last() =~= outcomes@.take(i as int));
        assert(outcomes@.take(i + 1).last() == outcomes@[i as int]);
        match outcomes[i] {
            Outcome::Generated => ok = ok + 1,
            Outcome::Skipped => skipped = skipped + 1,
            Outcome::Failed => failed = failed + 1,
        }
        i = i + 1;
    }
    assert(outcomes@.take(i as int) =~= outcomes@);
    (ok, skipped, failed)
}

/// `{lead}{ok} generated, {skipped} skipped, {failed} failed.`
pub open spec fn summary_spec(lead: Seq<char>, ok: nat, skipped: nat, failed: nat) -> Seq<char> {
    lead + dec(ok) + " generated, "@ + dec(skipped) + " skipped, "@ + dec(failed) + " failed."@
}

/// The closing summary of a pass (`"\nDone. "` after sprites, `"Stats: "`
/// after stats).
pub fn summary_line(lead: &str, ok: usize, skipped: usize, failed: usize) -> (r: String)
    ensures
        r@ == summary_spec(lead@, ok as nat, skipped as nat, failed as nat),
{
    let mut r = String::new();
    push_str(&mut r, lead);
    push_dec(&mut r, ok as u64);
    push_str(&mut r, " generated, ");
    push_dec(&mut r, skipped as u64);
    push_str(&mut r, " skipped, ");
    push_dec(&mut r, failed as u64);
    push_str(&mut r, " failed.");
    assert(r@ =~= summary_spec(lead@, ok as nat, skipped as nat, failed as nat));
    r
}

} // verus!
