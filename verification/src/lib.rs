//! Editing core of a source-code editor: text positions, cursor and selection
//! state, and the application of incremental text changes to a versioned buffer.
//!
//! The core does no input or output. A command changes the state of a view
//! and returns what the program around it is asked to do: requests to the
//! language server, commands for the window, entries for the log. Answers
//! come back as calls, and are thrown away where the text has changed since
//! they were asked for.
//!
//! - `buffer`, `edit`: the text with its revision, the questions asked of
//!   it, and edits of several stretches at once.
//! - `delta`: the change that an edit makes, and how offsets are carried
//!   over it.
//! - `selection`, `cursor`, `movement`: regions kept in order and apart,
//!   the cursor by mode, and the movements.
//! - `position`: the ways of naming a place and their resolution.
//! - `nav`, `navigate`, `history`: the next change or error, and the jumps
//!   of a view.
//! - `path`, `text`: the order of file paths, part by part, and the bytes
//!   of strings.
//! - `completion`, `assist`, `apply`, `snippet`: the completion session,
//!   its requests, and the items and snippets that are applied.
//! - `workspace_edit`, `code_action`: edits of several files.
//! - `editor`, `typing`, `pointer`, `dispatch`, `respond`: the view with
//!   its commands and the answers it takes.

pub mod apply;
pub mod assist;
pub mod buffer;
pub mod code_action;
pub mod command;
pub mod completion;
pub mod cursor;
pub mod data;
pub mod delta;
pub mod dispatch;
pub mod edit;
pub mod editor;
pub mod error;
pub mod find;
pub mod history;
pub mod lsp;
pub mod movement;
pub mod nav;
pub mod navigate;
pub mod path;
pub mod pointer;
pub mod position;
pub mod respond;
pub mod selection;
pub mod snippet;
pub mod text;
pub mod typing;
pub mod workspace_edit;

use vstd::prelude::*;

verus! {

/// Marker for the user-interface root.
pub struct LapceUI {}

/// An optional repeat count typed before a command.
#[derive(Copy, Clone)]
pub struct EditorCount(pub Option<usize>);

/// An operator that waits for a motion, with the count typed before it.
#[derive(Copy, Clone)]
pub enum EditorOperator {
    Delete(EditorCount),
    Yank(EditorCount),
}

} // verus!
