//! Verified core of a terminal chat front end: text and cursor arithmetic,
//! the line editor with its history and kill ring, the filtering pickers,
//! the chat view (scrolling, selection, writing streamed text), markdown
//! rendering, and the status line with its items and colors.
use vstd::prelude::*;

pub mod text;
pub mod cursor;
pub mod color;
pub mod filter;
pub mod fuzzy;
pub mod picker;
pub mod list_view;
pub mod walk;
pub mod edit;
pub mod editor;
pub mod picker_keys;
pub mod renderer;
pub mod output;
pub mod statusline;
pub mod items;
pub mod patterns;
pub mod commands;
pub mod sessions;
pub mod dispatch;
pub mod advisor;
pub mod models;
pub mod stream;
pub mod permission;
pub mod transcript;
pub mod events;
pub mod markdown;
pub mod table;
pub mod styled;

verus! {

} // verus!
