//! Browser record extraction and ranking: bookmarks and search engines read
//! from a browser profile, a disk cache with a staleness policy, and a fuzzy
//! ranker that orders records against what the user typed.
pub mod bookmarks;
pub mod browser;
pub mod cache;
pub mod config;
pub mod engines;
pub mod error;
pub mod index;
pub mod json;
pub mod pages;
pub mod rank;
pub mod text;
pub mod types;
pub mod websearch;
