//! Song library cache: the record of one song, the parsers that fill it from a
//! song folder, and the binary cache format that stores a list of records.
//!
//! - [`entry`]: the record, its defaults and the bitmask of playable charts
//! - [`text`]: decoding of text files and operations on runs of characters
//! - [`ini`], [`chart`], [`midi`]: the parsers of `song.ini`, `notes.chart`
//!   and `notes.mid`
//! - [`folder`]: what a folder holds, told from the names of its files
//! - [`hash`]: the MD5 digest
//! - [`scanner`]: from folders to the list of songs, without duplicates
//! - [`wire`]: the binary primitives of the cache format
//! - [`cache`]: the layout of a cache file
//! - [`writer`], [`reader`]: writing and reading a cache file
//! - [`round_trip`]: the proof that reading undoes writing

pub mod cache;
pub mod chart;
pub mod entry;
pub mod folder;
pub mod hash;
pub mod ini;
pub mod midi;
pub mod reader;
pub mod round_trip;
pub mod scanner;
pub mod text;
pub mod wire;
pub mod writer;

use vstd::prelude::*;

verus! {

/// Format version written at the head of every cache file.
pub const VERSION: i32 = 20220812;

} // verus!
