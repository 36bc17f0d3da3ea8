# pokemon_colorscripts

Colored Unicode sprites of Pokemon for the terminal, with a stats panel
beside them or a full Pokédex frame around them, and the generator that
scrapes the sprites, names and base stats from pokemondb.net.

The library under `src/` is verified with Verus:

- `text` — visible width of ANSI-colored text, lines, trimming, numbers.
- `sprite`, `pipeline`, `ansi` — RGBA sprites; cropping, scaling and padding
  through the `image` crate; conversion to half-block ANSI art.
- `panel`, `layout`, `frame` — the stats sheet, the side panel and the
  Pokédex frame, with proofs that the side panel is a box and that the
  Pokédex frame lines up and fills the terminal whenever its rows fit.
- `scrape` — reading pokemondb pages and writing the stats sheets and the
  names list.
- `cli` — arguments, generations, the random pick, the terminal width.
- `laws` — properties that tie these together (what is written reads back,
  generations are contiguous, panels are boxes, art rows have the sprite's
  width).

`app/` holds the program around it: file and network I/O, the terminal, the
pager. Run as `generator` it scrapes; otherwise it is `pokemon-colorscripts`,
reading `colorscripts/`, `stats/` and `nameslist.txt` from
`$POKEMON_COLORSCRIPTS_DIR` (the current directory by default).
