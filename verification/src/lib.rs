//! Startup configuration of a tile server: validation and normalisation of
//! the raw command-line values into the configuration the server runs with.
//!
//! [`Args`] holds the configuration, and [`Args::post_parse`] resolves it:
//! it refuses a missing tiles directory, names the tilesets to serve, tidies
//! the allowed hosts, reads the custom headers and counts the reload
//! interval in seconds. The modules hold the rules for each of these, stated
//! over sequences of characters and proved of the code that applies them.
//!
//! The library looks at no file and writes no log. Whether the tiles
//! directory exists is an argument of `post_parse`, and what there is to
//! warn about is a value, [`Args::warnings`].

pub mod config;
pub mod duration;
pub mod errors;
pub mod headers;
pub mod hosts;
pub mod text;
pub mod tiles;

pub use config::Args;
pub use errors::Error;
pub use tiles::Tilesets;
