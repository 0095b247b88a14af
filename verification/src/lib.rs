//! A text document model for code editors: a rope of chars, multi-cursor
//! selections, undo history, indentation and column arithmetic, together
//! with the small state machines of the editor front-ends (shortcuts,
//! settings, filtered lists, palettes and scrolling).
use vstd::prelude::*;

pub mod file_info;
pub mod text;
pub mod rope_utils;
pub mod selection;
pub mod history;
pub mod document;
pub mod motion;
pub mod doc_view;
pub mod indent;
pub mod doc_file;
pub mod shortcut;
pub mod settings;
pub mod commands;
pub mod filter;
pub mod palette;
pub mod scroll;
pub mod editor_input;
pub mod widgets;
pub mod syntax;

verus! {

} // verus!
