//! A reader for the `.osu` beatmap text format.
//!
//! The format is line oriented: an optional version header, then bracketed
//! sections that hold either `key: value` pairs or comma separated records.
//! [`beatmap::Beatmap::load_from_string`] turns such a text into a typed
//! document. What the reader does is stated over plain sequences of bytes,
//! in the contracts of its functions, and proved there.

pub mod args;
pub mod beatmap;
pub mod file;
