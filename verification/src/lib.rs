//! Verified core of a media bot and its video downloader: request signing,
//! the reading of replies and messages, the decisions of the bot's features
//! and the data they store.
use vstd::prelude::*;

pub mod abogus;
pub mod bili;
pub mod bili_post;
pub mod buttons;
pub mod bvid;
pub mod cli;
pub mod clock;
pub mod console;
pub mod digest;
pub mod douyin;
pub mod download;
pub mod ffmpeg;
pub mod merge;
pub mod parse;
pub mod pattern;
pub mod store;
pub mod streams;
pub mod twitter;
pub mod urlencode;
pub mod text;
pub mod verify;

verus! {

} // verus!
