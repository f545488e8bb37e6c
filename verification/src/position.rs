//! The ways in which a place in a text is named, and how each is resolved
//! to an offset against one state of the buffer.

use vstd::prelude::*;
use crate::buffer::{Buffer, line_col_offset, line_start, next_newline, position_offset, skip_blanks};
use crate::nav::Position;

verus! {

/// How far a view is scrolled, in whole pixels.
#[derive(Clone, Copy, Debug, PartialEq, Eq, Structural)]
pub struct ScrollOffset {
    pub x: i64,
    pub y: i64,
}

/// Which way of naming a place a pending location uses.
#[derive(Clone, Copy, Debug, PartialEq, Eq, Structural)]
pub enum PositionKind {
    Offset,
    Line,
    LineCol,
    Lsp,
}

/// A file's text on its way into a buffer, with the places to go to in the
/// views that wait for it.
pub struct InitBufferContent<P> {
    pub path: String,
    pub content: Vec<u8>,
    pub locations: Vec<(u64, EditorLocation<P>)>,
    pub edits: Option<Vec<u8>>,
}

/// The command that hands a loaded file to the buffer; the variant tells in
/// which way its locations name their places.
pub enum InitBufferContentCmd {
    InitBufferContent(InitBufferContent<usize>),
    InitBufferContentLine(InitBufferContent<Line>),
    InitBufferContentLineCol(InitBufferContent<LineCol>),
    InitBufferContentLsp(InitBufferContent<Position>),
}

impl InitBufferContentCmd {
    /// In which way the locations of the command name their places.
    pub open spec fn kind(self) -> PositionKind {
        match self {
            InitBufferContentCmd::InitBufferContent(_) => PositionKind::Offset,
            InitBufferContentCmd::InitBufferContentLine(_) => PositionKind::Line,
            InitBufferContentCmd::InitBufferContentLineCol(_) => PositionKind::LineCol,
            InitBufferContentCmd::InitBufferContentLsp(_) => PositionKind::Lsp,
        }
    }

    /// In which way the locations of the command name their places.
    pub fn position_kind(&self) -> (r: PositionKind)
        ensures
            r == self.kind(),
    {
        match self {
            InitBufferContentCmd::InitBufferContent(_) => PositionKind::Offset,
            InitBufferContentCmd::InitBufferContentLine(_) => PositionKind::Line,
            InitBufferContentCmd::InitBufferContentLineCol(_) => PositionKind::LineCol,
            InitBufferContentCmd::InitBufferContentLsp(_) => PositionKind::Lsp,
        }
    }
}

/// A way of naming a place in a text.
pub trait EditorPosition: Sized {
    /// The offset of the place in `text`, where it has one.
    spec fn offset_in(&self, text: Seq<u8>) -> Option<usize>;

    /// Whether `cmd` is the command of this way of naming and carries `init`.
    spec fn carried_by(cmd: InitBufferContentCmd, init: InitBufferContent<Self>) -> bool;

    /// Convert the position to a utf8 offset
    fn to_utf8_offset(&self, buffer: &Buffer) -> (r: Option<usize>)
        ensures
            r == self.offset_in(buffer@),
    ;

    /// The command that hands over a loaded file whose locations are named
    /// in this way.
    fn init_buffer_content_cmd(
        path: String,
        content: Vec<u8>,
        locations: Vec<(u64, EditorLocation<Self>)>,
        edits: Option<Vec<u8>>,
    ) -> (r: InitBufferContentCmd)
        ensures
            Self::carried_by(r, InitBufferContent { path, content, locations, edits }),
    ;
}

// Usize is always a utf8 offset
impl EditorPosition for usize {
    open spec fn offset_in(&self, text: Seq<u8>) -> Option<usize> {
        Some(*self)
    }

    open spec fn carried_by(cmd: InitBufferContentCmd, init: InitBufferContent<usize>) -> bool {
        cmd == InitBufferContentCmd::InitBufferContent(init)
    }

    fn to_utf8_offset(&self, _buffer: &Buffer) -> (r: Option<usize>) {
        Some(*self)
    }

    fn init_buffer_content_cmd(
        path: String,
        content: Vec<u8>,
        locations: Vec<(u64, EditorLocation<usize>)>,
        edits: Option<Vec<u8>>,
    ) -> (r: InitBufferContentCmd) {
        InitBufferContentCmd::InitBufferContent(InitBufferContent { path, content, locations, edits })
    }
}

/// Jump to first non blank character on a line
/// (If you want to jump to the very first character then use `LineCol` with column set to 0)
#[derive(Debug, Clone, Copy)]
pub struct Line(pub usize);

/// The number of the line, counted from 0, that the line number `line`,
/// counted from 1, names; 0 names the first line too.
pub open spec fn line_index(line: usize) -> nat {
    if line == 0 {
        0
    } else {
        (line - 1) as nat
    }
}

impl EditorPosition for Line {
    open spec fn offset_in(&self, text: Seq<u8>) -> Option<usize> {
        let start = line_start(text, line_index(self.0));
        Some(skip_blanks(text, start, next_newline(text, start)) as usize)
    }

    open spec fn carried_by(cmd: InitBufferContentCmd, init: InitBufferContent<Line>) -> bool {
        cmd == InitBufferContentCmd::InitBufferContentLine(init)
    }

    fn to_utf8_offset(&self, buffer: &Buffer) -> (r: Option<usize>) {
        Some(buffer.first_non_blank_character_on_line(self.0.saturating_sub(1)))
    }

    fn init_buffer_content_cmd(
        path: String,
        content: Vec<u8>,
        locations: Vec<(u64, EditorLocation<Line>)>,
        edits: Option<Vec<u8>>,
    ) -> (r: InitBufferContentCmd) {
        InitBufferContentCmd::InitBufferContentLine(
            InitBufferContent { path, content, locations, edits },
        )
    }
}

/// UTF8 line and column-offset
#[derive(Debug, Clone, Copy)]
pub struct LineCol {
    pub line: usize,
    pub column: usize,
}

impl EditorPosition for LineCol {
    open spec fn offset_in(&self, text: Seq<u8>) -> Option<usize> {
        Some(line_col_offset(text, self.line as nat, self.column as int) as usize)
    }

    open spec fn carried_by(cmd: InitBufferContentCmd, init: InitBufferContent<LineCol>) -> bool {
        cmd == InitBufferContentCmd::InitBufferContentLineCol(init)
    }

    fn to_utf8_offset(&self, buffer: &Buffer) -> (r: Option<usize>) {
        Some(buffer.offset_of_line_col(self.line, self.column))
    }

    fn init_buffer_content_cmd(
        path: String,
        content: Vec<u8>,
        locations: Vec<(u64, EditorLocation<LineCol>)>,
        edits: Option<Vec<u8>>,
    ) -> (r: InitBufferContentCmd) {
        InitBufferContentCmd::InitBufferContentLineCol(
            InitBufferContent { path, content, locations, edits },
        )
    }
}

impl EditorPosition for Position {
    open spec fn offset_in(&self, text: Seq<u8>) -> Option<usize> {
        match position_offset(text, *self) {
            Some(o) => Some(o as usize),
            None => None,
        }
    }

    open spec fn carried_by(cmd: InitBufferContentCmd, init: InitBufferContent<Position>) -> bool {
        cmd == InitBufferContentCmd::InitBufferContentLsp(init)
    }

    fn to_utf8_offset(&self, buffer: &Buffer) -> (r: Option<usize>) {
        buffer.offset_of_position(self)
    }

    fn init_buffer_content_cmd(
        path: String,
        content: Vec<u8>,
        locations: Vec<(u64, EditorLocation<Position>)>,
        edits: Option<Vec<u8>>,
    ) -> (r: InitBufferContentCmd) {
        InitBufferContentCmd::InitBufferContentLsp(
            InitBufferContent { path, content, locations, edits },
        )
    }
}

/// A place to go to: a file, a position in it, and how the view is to be
/// scrolled; `history` names the earlier state of the file that is meant.
#[derive(Debug)]
pub struct EditorLocation<P = usize> {
    pub path: String,
    pub position: Option<P>,
    pub scroll_offset: Option<ScrollOffset>,
    pub history: Option<String>,
}

impl<P: EditorPosition> EditorLocation<P> {
    /// The same place with its position resolved against `buffer`; a
    /// position that the buffer does not hold is dropped.
    pub fn into_utf8_location(self, buffer: &Buffer) -> (r: EditorLocation<usize>)
        ensures
            r.path == self.path,
            r.position == (match self.position {
                Some(p) => p.offset_in(buffer@),
                None => None,
            }),
            r.scroll_offset == self.scroll_offset,
            r.history == self.history,
    {
        let position = match &self.position {
            Some(p) => p.to_utf8_offset(buffer),
            None => None,
        };
        EditorLocation {
            path: self.path,
            position,
            scroll_offset: self.scroll_offset,
            history: self.history,
        }
    }
}

impl EditorLocation<usize> {
    /// A copy of the location.
    pub fn duplicate(&self) -> (r: EditorLocation<usize>)
        ensures
            r == *self,
    {
        EditorLocation {
            path: self.path.clone(),
            position: self.position,
            scroll_offset: self.scroll_offset,
            history: match &self.history {
                Some(h) => Some(h.clone()),
                None => None,
            },
        }
    }
}

} // verus!
