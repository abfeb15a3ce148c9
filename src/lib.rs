//! Annotates recipe search results with two flags: whether a hit's domain is on
//! an allow-list of sites with known structured recipe data, and whether the
//! fetched page actually embeds a schema.org `Recipe` in its JSON-LD blocks.

mod chars;
pub mod domain;
pub mod sniff;
pub mod fetch;
pub mod recipe;
pub mod response;
