use vstd::prelude::*;

pub mod text;
pub mod notes;
pub mod input;
pub mod sort;
pub mod search;
pub mod integration;
pub mod ranking;
pub mod content;
pub mod fmt;
pub mod paths;
pub mod remote;
pub mod nav;
pub mod dialogs;
pub mod git;
pub mod archive;
pub mod meta;
pub mod quote;
pub mod sqlite;
pub mod images;
pub mod overlay;
pub mod preview;
pub mod shell;
pub mod transfer;
pub mod filetypes;
pub mod entries;
pub mod selection;
pub mod columns;
pub mod walk;
pub mod browse;

verus! {
} // verus!
