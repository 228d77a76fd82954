use vstd::prelude::*;

pub mod text;
pub mod document;
pub mod namemap;
pub mod config;
pub mod config_parse;
pub mod config_emit;
pub mod hotkey;
pub mod hook;
pub mod buff;
pub mod keys;
pub mod platform;
pub mod pixels;
pub mod engine;
pub mod json;
pub mod procinfo;
pub mod profile;
pub mod ui;
pub mod roundtrip;

verus! {

} // verus!
