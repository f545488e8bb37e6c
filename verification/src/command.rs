//! The commands that the editor takes, and what it asks of the program
//! around it in return.

use vstd::prelude::*;
use crate::completion::{CompletionRequest, CompletionRequestView};
use crate::cursor::MotionMode;
use crate::data::HoverRequest;
use crate::lsp::{CompletionItem, CompletionTextEdit, InsertTextFormat, Location, TextEdit};
use crate::movement::Movement;
use crate::nav::Position;
use crate::position::{EditorLocation, ScrollOffset};

verus! {

/// Whether a command was one of the editor's.
#[derive(Clone, Copy, Debug, PartialEq, Eq, Structural)]
pub enum CommandExecuted {
    Yes,
    No,
}

/// To which widget a command goes.
#[derive(Clone, Copy, Debug, PartialEq, Eq, Structural)]
pub enum Target {
    Auto,
    Widget(u64),
}

/// The keys that were held while a key or button was pressed.
#[derive(Clone, Copy, Debug, PartialEq, Eq, Structural)]
pub struct Modifiers {
    pub shift: bool,
    pub alt: bool,
    pub ctrl: bool,
    pub meta: bool,
}

impl Modifiers {
    pub fn empty() -> (m: Modifiers)
        ensures
            m == (Modifiers { shift: false, alt: false, ctrl: false, meta: false }),
    {
        Modifiers { shift: false, alt: false, ctrl: false, meta: false }
    }
}

/// Where in the window the line of the cursor is to be shown.
#[derive(Clone, Copy, Debug, PartialEq, Eq, Structural)]
pub enum EnsureVisiblePosition {
    CenterOfWindow,
    TopOfWindow,
    BottomOfWindow,
}

#[derive(Clone, Copy, Debug, PartialEq, Eq, Structural)]
pub enum SplitDirection {
    Vertical,
    Horizontal,
}

#[derive(Clone, Copy, Debug, PartialEq, Eq, Structural)]
pub enum SplitMoveDirection {
    Up,
    Down,
    Right,
    Left,
}

/// A rectangle in whole pixels, by its left upper corner and its size.
#[derive(Clone, Copy, Debug, PartialEq, Eq, Structural)]
pub struct Rect {
    pub x: i64,
    pub y: i64,
    pub width: u32,
    pub height: u32,
}

/// The commands that act on the view that has the focus.
#[derive(Clone, Copy, Debug, PartialEq, Eq, Structural)]
pub enum FocusCommand {
    ModalClose,
    SplitVertical,
    SplitHorizontal,
    SplitExchange,
    SplitLeft,
    SplitRight,
    SplitUp,
    SplitDown,
    SplitClose,
    ForceExit,
    SearchWholeWordForward,
    SearchForward,
    SearchBackward,
    GlobalSearchRefresh,
    ClearSearch,
    SearchInView,
    ListSelect,
    ListNext,
    ListNextPage,
    ListPrevious,
    ListPreviousPage,
    JumpToNextSnippetPlaceholder,
    JumpToPrevSnippetPlaceholder,
    PageUp,
    PageDown,
    ScrollUp,
    ScrollDown,
    CenterOfWindow,
    TopOfWindow,
    BottomOfWindow,
    ShowCodeActions,
    GetCompletion,
    GotoDefinition,
    GotoTypeDefinition,
    JumpLocationBackward,
    JumpLocationForward,
    NextError,
    NextDiff,
    ToggleCodeLens,
    FormatDocument,
    Search,
    InlineFindLeft,
    InlineFindRight,
    RepeatLastInlineFind,
    SaveAndExit,
    Save,
    /// Commands of other parts of the program.
    Rename,
    GetReferences,
}

/// The commands that change the text.
#[derive(Clone, Copy, Debug, PartialEq, Eq, Structural)]
pub enum EditCommand {
    InsertNewLine,
    InsertTab,
    NewLineAbove,
    NewLineBelow,
    DeleteBackward,
    DeleteForward,
    NormalMode,
    InsertMode,
}

/// The commands that move the cursor.
#[derive(Clone, Copy, Debug, PartialEq, Eq, Structural)]
pub enum MoveCommand {
    Left,
    Right,
    Up,
    Down,
    LineStart,
    LineEnd,
    LineStartNonBlank,
    DocumentStart,
    DocumentEnd,
    /// To the line of the count, or to the first line without a count.
    GotoLineDefaultFirst,
    /// To the line of the count, or to the last line without a count.
    GotoLineDefaultLast,
    WordForward,
    WordBackward,
}

impl MoveCommand {
    pub open spec fn movement(self, count: Option<usize>) -> Movement {
        match self {
            MoveCommand::Left => Movement::Left,
            MoveCommand::Right => Movement::Right,
            MoveCommand::Up => Movement::Up,
            MoveCommand::Down => Movement::Down,
            MoveCommand::LineStart => Movement::StartOfLine,
            MoveCommand::LineEnd => Movement::EndOfLine,
            MoveCommand::LineStartNonBlank => Movement::FirstNonBlank,
            MoveCommand::DocumentStart => Movement::DocumentStart,
            MoveCommand::DocumentEnd => Movement::DocumentEnd,
            MoveCommand::GotoLineDefaultFirst => match count {
                Some(n) => Movement::Line(n),
                None => Movement::Line(1),
            },
            MoveCommand::GotoLineDefaultLast => match count {
                Some(n) => Movement::Line(n),
                None => Movement::Line(usize::MAX),
            },
            MoveCommand::WordForward => Movement::WordForward,
            MoveCommand::WordBackward => Movement::WordBackward,
        }
    }

    /// The movement that the command stands for.
    pub fn to_movement(&self, count: Option<usize>) -> (r: Movement)
        ensures
            r == self.movement(count),
    {
        match self {
            MoveCommand::Left => Movement::Left,
            MoveCommand::Right => Movement::Right,
            MoveCommand::Up => Movement::Up,
            MoveCommand::Down => Movement::Down,
            MoveCommand::LineStart => Movement::StartOfLine,
            MoveCommand::LineEnd => Movement::EndOfLine,
            MoveCommand::LineStartNonBlank => Movement::FirstNonBlank,
            MoveCommand::DocumentStart => Movement::DocumentStart,
            MoveCommand::DocumentEnd => Movement::DocumentEnd,
            MoveCommand::GotoLineDefaultFirst => match count {
                Some(n) => Movement::Line(n),
                None => Movement::Line(1),
            },
            MoveCommand::GotoLineDefaultLast => match count {
                Some(n) => Movement::Line(n),
                None => Movement::Line(usize::MAX),
            },
            MoveCommand::WordForward => Movement::WordForward,
            MoveCommand::WordBackward => Movement::WordBackward,
        }
    }
}

#[derive(Clone, Copy, Debug, PartialEq, Eq, Structural)]
pub enum MotionModeCommand {
    MotionModeDelete,
    MotionModeIndent,
    MotionModeOutdent,
    MotionModeYank,
}

impl MotionModeCommand {
    pub open spec fn motion_mode(self) -> MotionMode {
        match self {
            MotionModeCommand::MotionModeDelete => MotionMode::Delete,
            MotionModeCommand::MotionModeIndent => MotionMode::Indent,
            MotionModeCommand::MotionModeOutdent => MotionMode::Outdent,
            MotionModeCommand::MotionModeYank => MotionMode::Yank,
        }
    }
}

#[derive(Clone, Copy, Debug, PartialEq, Eq, Structural)]
pub enum MultiSelectionCommand {
    SelectAll,
    SelectCurrentLine,
}

/// Commands of the window, which the editor passes over.
#[derive(Clone, Copy, Debug, PartialEq, Eq, Structural)]
pub enum WorkbenchCommand {
    OpenFolder,
    CloseFolder,
    OpenFile,
    PaletteCommand,
}

#[derive(Clone, Copy, Debug, PartialEq, Eq, Structural)]
pub enum CommandKind {
    Workbench(WorkbenchCommand),
    Edit(EditCommand),
    Move(MoveCommand),
    Focus(FocusCommand),
    MotionMode(MotionModeCommand),
    MultiSelection(MultiSelectionCommand),
}

#[derive(Clone, Copy, Debug, PartialEq, Eq, Structural)]
pub struct LapceCommand {
    pub kind: CommandKind,
}

/// What is shown or moved in the window.
#[derive(Clone, Copy, Debug, PartialEq, Eq, Structural)]
pub enum UiCommand {
    Focus,
    EnsureCursorPosition(EnsureVisiblePosition),
    EnsureRectVisible(Rect),
    ScrollTo(i64, i64),
    ShowCodeActions,
}

/// What is done to the split of the window.
#[derive(Clone, Copy, Debug, PartialEq, Eq, Structural)]
#[allow(inconsistent_fields)]
pub enum SplitCommand {
    Split { view_id: u64, direction: SplitDirection },
    Exchange { tab_id: u64 },
    Move { tab_id: u64, direction: SplitMoveDirection },
    Close { view_id: u64, force: bool },
}

/// What went wrong, to be written to the log.
#[derive(Clone, Copy, Debug, PartialEq, Eq, Structural)]
pub enum LogMessage {
    /// An offset has no position in the server's count.
    OffsetWithoutPosition { offset: usize },
    /// A position of the server names no offset.
    PositionWithoutOffset { position: Position },
    /// The edits of a file could not be made.
    EditsRejected,
    /// A file was opened and is not among the open documents.
    FileNotLoaded,
    /// A URI names no file.
    UriWithoutFile,
    /// A change of an edit of several files was passed over: it is no edit of text.
    UnsupportedChange { count: usize },
}

#[derive(Clone, Copy, Debug, PartialEq, Eq, Structural)]
pub enum LogLevel {
    Error,
    Warn,
}

/// What the editor asks of the language server.
#[derive(Debug)]
pub enum ProxyRequest {
    GetCodeActions { buffer_id: u64, position: Position, path: String, rev: u64, offset: usize },
    GetCompletion(CompletionRequest),
    CompletionResolve { buffer_id: u64, rev: u64, offset: usize, view_id: u64, item: CompletionItem },
    GetHover(HoverRequest),
    GetDefinition {
        offset: usize,
        buffer_id: u64,
        position: Position,
        start_position: Position,
        editor_view_id: u64,
    },
    GetTypeDefinition { offset: usize, buffer_id: u64, position: Position, editor_view_id: u64 },
    GetReferences { offset: usize, buffer_id: u64, position: Position },
    /// Format the document; the answer is waited for no longer than a moment.
    GetDocumentFormatting { buffer_id: u64, path: String, rev: u64, tab_id: u64 },
    /// Format the document, then save it, formatted or, where the answer
    /// does not come in time, as it is; `exit` names the view to close.
    FormatAndSave {
        buffer_id: u64,
        path: String,
        rev: u64,
        format_on_save: bool,
        exit: Option<u64>,
        tab_id: u64,
    },
}

/// What the editor asks of the program around it.
#[derive(Debug)]
#[allow(inconsistent_fields)]
pub enum EditorAction {
    Command { cmd: FocusCommand, target: Target },
    MultiSelection { cmd: MultiSelectionCommand, target: Target },
    Ui { cmd: UiCommand, target: Target },
    Split(SplitCommand),
    UpdateSearchInput { pattern: Vec<u8>, target: Target },
    UpdateSearch { pattern: Vec<u8>, target: Target },
    JumpToLocation { location: EditorLocation<usize>, target: Target },
    JumpToLspLocation { location: EditorLocation<Position> },
    /// Go to a position in the file that a URI names.
    JumpToLspUri { uri: String, position: Position },
    GoToLocationNew { view_id: u64, location: EditorLocation<usize> },
    GotoDefinition { editor_view_id: u64, offset: usize, uri: String, position: Position },
    PaletteReferences { offset: usize, locations: Vec<Location> },
    Request(ProxyRequest),
    /// Open the file, go to the position, and report when the file is there.
    OpenFile { path: String, position: Option<Position> },
    ShowSavePanel,
    SetActive,
    Log { level: LogLevel, message: LogMessage },
}


/// A place to go to, as a value of specifications.
pub struct LocationView<P> {
    pub path: Seq<char>,
    pub position: Option<P>,
    pub scroll_offset: Option<ScrollOffset>,
    pub history: Option<Seq<char>>,
}

/// The view of a place to go to.
pub open spec fn location_view<P>(location: EditorLocation<P>) -> LocationView<P> {
    LocationView {
        path: location.path@,
        position: location.position,
        scroll_offset: location.scroll_offset,
        history: match location.history {
            Some(h) => Some(h@),
            None => None,
        },
    }
}

/// A completion item as a value of specifications.
pub struct CompletionItemView {
    pub label: Seq<char>,
    pub insert_text: Option<Seq<char>>,
    pub insert_text_format: Option<InsertTextFormat>,
    pub text_edit: Option<CompletionTextEdit>,
    pub additional_text_edits: Option<Seq<TextEdit>>,
    pub has_data: bool,
}

/// The view of a completion item.
pub open spec fn item_view(item: CompletionItem) -> CompletionItemView {
    CompletionItemView {
        label: item.label@,
        insert_text: match item.insert_text {
            Some(t) => Some(t@),
            None => None,
        },
        insert_text_format: item.insert_text_format,
        text_edit: item.text_edit,
        additional_text_edits: match item.additional_text_edits {
            Some(edits) => Some(edits@),
            None => None,
        },
        has_data: item.has_data,
    }
}

/// What is asked of the language server, as a value of specifications.
#[allow(inconsistent_fields)]
pub enum RequestView {
    GetCodeActions { buffer_id: u64, position: Position, path: Seq<char>, rev: u64, offset: usize },
    GetCompletion(CompletionRequestView),
    CompletionResolve {
        buffer_id: u64,
        rev: u64,
        offset: usize,
        view_id: u64,
        item: CompletionItemView,
    },
    GetHover(HoverRequest),
    GetDefinition {
        offset: usize,
        buffer_id: u64,
        position: Position,
        start_position: Position,
        editor_view_id: u64,
    },
    GetTypeDefinition { offset: usize, buffer_id: u64, position: Position, editor_view_id: u64 },
    GetReferences { offset: usize, buffer_id: u64, position: Position },
    GetDocumentFormatting { buffer_id: u64, path: Seq<char>, rev: u64, tab_id: u64 },
    FormatAndSave {
        buffer_id: u64,
        path: Seq<char>,
        rev: u64,
        format_on_save: bool,
        exit: Option<u64>,
        tab_id: u64,
    },
}

impl View for ProxyRequest {
    type V = RequestView;

    open spec fn view(&self) -> RequestView {
        match *self {
            ProxyRequest::GetCodeActions {
                buffer_id,
                position,
                path,
                rev,
                offset,
            } => RequestView::GetCodeActions { buffer_id, position, path: path@, rev, offset },
            ProxyRequest::GetCompletion(r) => RequestView::GetCompletion(r@),
            ProxyRequest::CompletionResolve {
                buffer_id,
                rev,
                offset,
                view_id,
                item,
            } => RequestView::CompletionResolve {
                buffer_id,
                rev,
                offset,
                view_id,
                item: item_view(item),
            },
            ProxyRequest::GetHover(r) => RequestView::GetHover(r),
            ProxyRequest::GetDefinition {
                offset,
                buffer_id,
                position,
                start_position,
                editor_view_id,
            } => RequestView::GetDefinition {
                offset,
                buffer_id,
                position,
                start_position,
                editor_view_id,
            },
            ProxyRequest::GetTypeDefinition {
                offset,
                buffer_id,
                position,
                editor_view_id,
            } => RequestView::GetTypeDefinition { offset, buffer_id, position, editor_view_id },
            ProxyRequest::GetReferences {
                offset,
                buffer_id,
                position,
            } => RequestView::GetReferences { offset, buffer_id, position },
            ProxyRequest::GetDocumentFormatting {
                buffer_id,
                path,
                rev,
                tab_id,
            } => RequestView::GetDocumentFormatting { buffer_id, path: path@, rev, tab_id },
            ProxyRequest::FormatAndSave {
                buffer_id,
                path,
                rev,
                format_on_save,
                exit,
                tab_id,
            } => RequestView::FormatAndSave {
                buffer_id,
                path: path@,
                rev,
                format_on_save,
                exit,
                tab_id,
            },
        }
    }
}

/// What the editor asks of the program around it, as a value of
/// specifications.
#[allow(inconsistent_fields)]
pub enum ActionView {
    Command { cmd: FocusCommand, target: Target },
    MultiSelection { cmd: MultiSelectionCommand, target: Target },
    Ui { cmd: UiCommand, target: Target },
    Split(SplitCommand),
    UpdateSearchInput { pattern: Seq<u8>, target: Target },
    UpdateSearch { pattern: Seq<u8>, target: Target },
    JumpToLocation { location: LocationView<usize>, target: Target },
    JumpToLspLocation { location: LocationView<Position> },
    JumpToLspUri { uri: Seq<char>, position: Position },
    GoToLocationNew { view_id: u64, location: LocationView<usize> },
    GotoDefinition { editor_view_id: u64, offset: usize, uri: Seq<char>, position: Position },
    PaletteReferences { offset: usize, locations: Seq<Location> },
    Request(RequestView),
    OpenFile { path: Seq<char>, position: Option<Position> },
    ShowSavePanel,
    SetActive,
    Log { level: LogLevel, message: LogMessage },
}

impl View for EditorAction {
    type V = ActionView;

    open spec fn view(&self) -> ActionView {
        match *self {
            EditorAction::Command { cmd, target } => ActionView::Command { cmd, target },
            EditorAction::MultiSelection { cmd, target } => ActionView::MultiSelection {
                cmd,
                target,
            },
            EditorAction::Ui { cmd, target } => ActionView::Ui { cmd, target },
            EditorAction::Split(c) => ActionView::Split(c),
            EditorAction::UpdateSearchInput { pattern, target } => ActionView::UpdateSearchInput {
                pattern: pattern@,
                target,
            },
            EditorAction::UpdateSearch { pattern, target } => ActionView::UpdateSearch {
                pattern: pattern@,
                target,
            },
            EditorAction::JumpToLocation { location, target } => ActionView::JumpToLocation {
                location: location_view(location),
                target,
            },
            EditorAction::JumpToLspLocation { location } => ActionView::JumpToLspLocation {
                location: location_view(location),
            },
            EditorAction::JumpToLspUri { uri, position } => ActionView::JumpToLspUri {
                uri: uri@,
                position,
            },
            EditorAction::GoToLocationNew { view_id, location } => ActionView::GoToLocationNew {
                view_id,
                location: location_view(location),
            },
            EditorAction::GotoDefinition {
                editor_view_id,
                offset,
                uri,
                position,
            } => ActionView::GotoDefinition { editor_view_id, offset, uri: uri@, position },
            EditorAction::PaletteReferences { offset, locations } => ActionView::PaletteReferences {
                offset,
                locations: locations@,
            },
            EditorAction::Request(r) => ActionView::Request(r@),
            EditorAction::OpenFile { path, position } => ActionView::OpenFile {
                path: path@,
                position,
            },
            EditorAction::ShowSavePanel => ActionView::ShowSavePanel,
            EditorAction::SetActive => ActionView::SetActive,
            EditorAction::Log { level, message } => ActionView::Log { level, message },
        }
    }
}

/// The views of a list of actions.
pub open spec fn actions_view(actions: Seq<EditorAction>) -> Seq<ActionView> {
    Seq::new(actions.len(), |i: int| actions[i]@)
}

/// What pushing an action does to the views of a list of actions.
pub proof fn lemma_actions_push(actions: Seq<EditorAction>, action: EditorAction)
    ensures
        actions_view(actions.push(action)) == actions_view(actions).push(action@),
{
    assert(actions_view(actions.push(action)) =~= actions_view(actions).push(action@));
}

/// Adds `action` to `actions`.
pub fn push_action(actions: &mut Vec<EditorAction>, action: EditorAction)
    ensures
        actions_view(final(actions)@) == actions_view(old(actions)@).push(action@),
        final(actions)@.len() == old(actions)@.len() + 1,
{
    proof {
        lemma_actions_push(actions@, action);
    }
    actions.push(action);
}

/// A list without actions.
pub fn no_actions() -> (r: Vec<EditorAction>)
    ensures
        actions_view(r@) == Seq::<ActionView>::empty(),
        r@.len() == 0,
{
    let r: Vec<EditorAction> = Vec::new();
    assert(actions_view(r@) =~= Seq::<ActionView>::empty());
    r
}

} // verus!
