//! Turns a video channel into a podcast feed and finds a playable audio
//! source for each episode.
//!
//! The crate holds the rules of the gateway: how a byte range is cut out of
//! a chunked stream, which of several extraction attempts wins, how the
//! cache of downloaded audio files allocates and evicts its entries, and how
//! a response is laid out. Network, disk and process handling are left to
//! the program that embeds it.

pub mod atom;
pub mod audio;
pub mod audio_store;
pub mod date;
pub mod error;
pub mod extractor;
pub mod feed;
pub mod harvestor;
pub mod pattern;
pub mod piped;
pub mod podcast;
pub mod rss;
pub mod text;
pub mod util;
pub mod web;
