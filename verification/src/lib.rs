//! Extraction of structured metadata from saved HTML pages of game-release
//! posts: the site variant, the fields of page, post and release, the links
//! and the collapsible blocks of each document, under a configuration that
//! switches every field on or off.
//!
//! Parsing of HTML, URLs and regular expressions and hashing are the work of
//! the `scraper`, `url`, `regex`, `sha2` and `hex` crates, called through
//! small functions whose contracts are taken on trust; they stand in
//! [`dom`], [`links`], [`pattern`], [`digest`] and [`input`]. Everything
//! else is verified.

pub mod config;
pub mod digest;
pub mod dom;
pub mod extract;
pub mod input;
pub mod links;
pub mod model;
pub mod parser;
pub mod pattern;
pub mod segment;
pub mod sorted;
pub mod spoiler;
pub mod text;
pub mod textmap;
