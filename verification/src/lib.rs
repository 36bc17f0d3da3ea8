//! Pokemon colorscripts: colored Unicode sprites of Pokemon for the terminal,
//! the stats panels and Pokédex frames drawn beside them, and the scraping of
//! sprites, names and base stats from pokemondb.

pub mod ansi;
pub mod cli;
pub mod layout;
pub mod panel;
pub mod pipeline;
pub mod scrape;
pub mod sprite;
pub mod text;
pub mod laws;
pub mod frame;
pub mod behavior;
