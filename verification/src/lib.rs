//! Verified core of the martty terminal client: settings interpretation,
//! picker and selection logic, composer staging, key decoding and the
//! session bookkeeping that the interactive shell drives.
use vstd::prelude::*;

pub mod text;
pub mod json;
pub mod harness;
pub mod picker;
pub mod slash_catalog;
pub mod selection;
pub mod numfmt;
pub mod staging;
pub mod shell;
pub mod keys;
pub mod mcp;
pub mod acp;
pub mod tabs;
pub mod modes;
pub mod settings;
pub mod chrome;
pub mod slash;
pub mod options;
pub mod menu;
pub mod history;
pub mod queue;
pub mod agents;
pub mod pickers;
pub mod route;
pub mod pointer;
pub mod prompt_queue;
pub mod ui_route;
pub mod binds;
pub mod overlays;
pub mod turns;
pub mod info;
pub mod asks;
pub mod palettes;
pub mod auth;
pub mod resume;
pub mod mentions;
pub mod lanes;
pub mod paste;
pub mod yaml;
pub mod delivery;

verus! {
}
