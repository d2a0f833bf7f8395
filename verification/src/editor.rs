//! What the parts of the editor tell each other.

use vstd::prelude::*;

use vstd::string::*;

use crate::buffer::{all_displayable, all_hits, file_text, SaveRequest};
use crate::cmdline_commands::{parsed, texts, CmdlineCommands, CommandView};
use crate::command_bar::{prompt_of, BarDrawing, CommandBar, CommandBarView};
use crate::editor_command::{
    CmdlineModeCommand, CmdlineSubmode, Direction, EditorMode, Event, InsertModeCommand,
    NormalModeCommand,
};
use crate::filetype::FileType;
use crate::grapheme::displayable;
use crate::status_bar::{status_text, StatusBar, StatusBarView};
use crate::terminal::{Position, Size};
use crate::text::{str_eq, text_lines, whitespace_words};
use crate::window::{Frame, Window, WindowView};

verus! {

/// What the status bar shows of a document.
#[derive(Debug)]
pub struct DocumentStatus {
    pub total_lines: usize,
    pub current_line_index: usize,
    pub file_type: FileType,
    pub is_modified: bool,
    pub file_name: Option<String>,
}

/// What contracts say of a document status.
pub struct DocumentStatusView {
    pub total_lines: usize,
    pub current_line_index: usize,
    pub file_type: FileType,
    pub is_modified: bool,
    pub file_name: Option<Seq<char>>,
}

impl View for DocumentStatus {
    type V = DocumentStatusView;

    open spec fn view(&self) -> DocumentStatusView {
        DocumentStatusView {
            total_lines: self.total_lines,
            current_line_index: self.current_line_index,
            file_type: self.file_type,
            is_modified: self.is_modified,
            file_name: match self.file_name {
                Some(name) => Some(name@),
                None => None,
            },
        }
    }
}

impl DocumentStatusView {
    /// The status of an empty document without a name.
    pub open spec fn empty() -> DocumentStatusView {
        DocumentStatusView {
            total_lines: 0,
            current_line_index: 0,
            file_type: FileType::Text,
            is_modified: false,
            file_name: None,
        }
    }
}

impl Default for DocumentStatus {
    fn default() -> (r: Self)
        ensures
            r@ == DocumentStatusView::empty(),
    {
        DocumentStatus {
            total_lines: 0,
            current_line_index: 0,
            file_type: FileType::Text,
            is_modified: false,
            file_name: None,
        }
    }
}

impl DocumentStatus {
    /// Whether both say the same of their documents.
    pub fn same_as(&self, other: &DocumentStatus) -> (r: bool)
        ensures
            r == (self@ == other@),
    {
        let same_name = match (&self.file_name, &other.file_name) {
            (Some(a), Some(b)) => str_eq(a.as_str(), b.as_str()),
            (None, None) => true,
            _ => false,
        };
        let same_type = match (self.file_type, other.file_type) {
            (FileType::Rust, FileType::Rust) => true,
            (FileType::Text, FileType::Text) => true,
            _ => false,
        };
        self.total_lines == other.total_lines && self.current_line_index
            == other.current_line_index && same_type && self.is_modified == other.is_modified
            && same_name
    }
}

/// Which way a search goes from the cursor.
#[derive(Clone, Copy, Debug, PartialEq, Eq, Structural)]
pub enum SearchDirection {
    Forward,
    Backward,
}

/// What a drawing of the screen depends on besides the document.
pub struct RenderContext {
    pub search_pattern: Option<String>,
    pub file_type: FileType,
}

impl RenderContext {
    /// The search pattern, if there is one.
    pub open spec fn pattern(&self) -> Option<Seq<char>> {
        match self.search_pattern {
            Some(p) => Some(p@),
            None => None,
        }
    }
}

/// What is left to do outside the editor after an event.
pub enum Effect {
    /// Nothing.
    Nothing,
    /// Write the file, and tell the editor when it is written.
    Write(SaveRequest),
    /// Tell the user.
    Log(String),
    /// The event asked for an edit whose result cannot be laid out in
    /// columns; the editor is as it was.
    Rejected,
}

/// What contracts say of an effect.
pub enum EffectView {
    Nothing,
    Write { filename: Seq<char>, contents: Seq<char> },
    Log(Seq<char>),
    Rejected,
}

impl View for Effect {
    type V = EffectView;

    open spec fn view(&self) -> EffectView {
        match self {
            Effect::Nothing => EffectView::Nothing,
            Effect::Write(request) => EffectView::Write {
                filename: request.filename@,
                contents: request.contents@,
            },
            Effect::Log(msg) => EffectView::Log(msg@),
            Effect::Rejected => EffectView::Rejected,
        }
    }
}

/// What the editor says when a search finds nothing.
pub open spec fn not_found_message(pattern: Seq<char>) -> Seq<char> {
    "Pattern not found: "@ + pattern
}

/// What there is to draw: a farewell once the editor has been quit, and
/// else what each part of the screen draws and the cell of the cursor.
pub enum Screen {
    Goodbye,
    Draw {
        window: Option<Frame>,
        status: Option<BarDrawing>,
        command: Option<BarDrawing>,
        cursor: Position,
    },
}

/// What contracts say of an editor.
pub struct EditorView {
    pub should_quit: bool,
    pub mode: EditorMode,
    pub window: WindowView,
    pub status_bar: StatusBarView,
    pub command_bar: CommandBarView,
    pub last_search_pattern: Option<Seq<char>>,
}

impl EditorView {
    /// The editor after a search for `pattern`, and what is left to do.
    pub open spec fn after_search(
        self,
        pattern: Option<Seq<char>>,
        direction: SearchDirection,
    ) -> (EditorView, EffectView) {
        (
            EditorView { window: self.window.after_search(pattern, direction), ..self },
            match pattern {
                Some(p) => if all_hits(
                    self.window.buffer.lines,
                    p,
                    self.window.buffer.lines.len() as int,
                ).len() == 0 {
                    EffectView::Log(not_found_message(p))
                } else {
                    EffectView::Nothing
                },
                None => EffectView::Nothing,
            },
        )
    }

    /// The editor after `command` in normal mode, and what is left to do.
    pub open spec fn after_normal(self, command: NormalModeCommand) -> (EditorView, EffectView) {
        match command {
            NormalModeCommand::CursorMove(direction) => (
                EditorView { window: self.window.after_move(direction, false), ..self },
                EffectView::Nothing,
            ),
            NormalModeCommand::EnterInsertMode => (
                EditorView { mode: EditorMode::InsertMode, ..self },
                EffectView::Nothing,
            ),
            NormalModeCommand::EnterInsertModeAppend => (
                EditorView {
                    window: self.window.after_move(Direction::Right, true),
                    mode: EditorMode::InsertMode,
                    ..self
                },
                EffectView::Nothing,
            ),
            NormalModeCommand::EnterInsertModeBeginNewLineAbove => (
                EditorView {
                    window: self.window.after_new_line(self.window.cursor.line_idx as int),
                    mode: EditorMode::InsertMode,
                    ..self
                },
                EffectView::Nothing,
            ),
            NormalModeCommand::EnterInsertModeBeginNewLineBelow => (
                EditorView {
                    window: self.window.after_new_line(self.window.cursor.line_idx + 1),
                    mode: EditorMode::InsertMode,
                    ..self
                },
                EffectView::Nothing,
            ),
            NormalModeCommand::EnterCmdlineMode(submode) => (
                EditorView {
                    mode: EditorMode::CmdlineMode(submode),
                    command_bar: CommandBarView {
                        prompt: prompt_of(submode),
                        ..self.command_bar.cleared(Seq::<char>::empty())
                    },
                    ..self
                },
                EffectView::Nothing,
            ),
            NormalModeCommand::SearchNext => self.after_search(
                self.last_search_pattern,
                SearchDirection::Forward,
            ),
            NormalModeCommand::SearchPrev => self.after_search(
                self.last_search_pattern,
                SearchDirection::Backward,
            ),
            NormalModeCommand::Nop => (self, EffectView::Nothing),
        }
    }

    /// The editor after `command` in insert mode, and what is left to do.
    pub open spec fn after_insert(self, command: InsertModeCommand) -> (EditorView, EffectView) {
        match command {
            InsertModeCommand::LeaveInsertMode => (
                EditorView {
                    mode: EditorMode::NormalMode,
                    window: self.window.after_normalize(false),
                    ..self
                },
                EffectView::Nothing,
            ),
            InsertModeCommand::Insert(c) => if self.window.can_insert_char(c) {
                (
                    EditorView { window: self.window.after_insert_char(c), ..self },
                    EffectView::Nothing,
                )
            } else {
                (self, EffectView::Rejected)
            },
            InsertModeCommand::Backspace => if self.window.can_backspace() {
                (EditorView { window: self.window.after_backspace(), ..self }, EffectView::Nothing)
            } else {
                (self, EffectView::Rejected)
            },
            InsertModeCommand::InsertNewLine => if self.window.can_insert_newline() {
                (
                    EditorView { window: self.window.after_insert_newline(), ..self },
                    EffectView::Nothing,
                )
            } else {
                (self, EffectView::Rejected)
            },
            InsertModeCommand::Nop => (self, EffectView::Nothing),
        }
    }

    /// What there is to write to save the document under the name `filename`.
    pub open spec fn write_effect(self, filename: Seq<char>) -> EffectView {
        EffectView::Write {
            filename,
            contents: file_text(
                self.window.buffer.lines,
                self.window.buffer.lines.len() as int,
            ),
        }
    }

    /// The editor after the command `command` of the command line, and
    /// what is left to do.
    pub open spec fn after_cmdline_command(self, command: CommandView) -> (EditorView, EffectView) {
        match command {
            CommandView::Quit => (EditorView { should_quit: true, ..self }, EffectView::Nothing),
            CommandView::Write => (
                self,
                match self.window.buffer.filename {
                    Some(name) => self.write_effect(name),
                    None => EffectView::Nothing,
                },
            ),
            CommandView::Saveas(name) => (self, self.write_effect(name)),
            CommandView::StopHighlighting => (
                EditorView { last_search_pattern: None, window: self.window.redrawn(), ..self },
                EffectView::Nothing,
            ),
        }
    }

    /// The editor after the command line was parsed and executed, and
    /// what is left to do: nothing happens for a command line without
    /// words; a command that the editor knows is executed and the command
    /// line cleared; for every other the command bar says what is wrong.
    pub open spec fn after_parse_and_execute(self) -> (EditorView, EffectView) {
        let words = whitespace_words(self.command_bar.cmdline);
        if words.len() >= 1 {
            match parsed(words) {
                Ok(command) => {
                    let (next, effect) = self.after_cmdline_command(command);
                    (
                        EditorView {
                            command_bar: next.command_bar.cleared(Seq::<char>::empty()),
                            ..next
                        },
                        effect,
                    )
                },
                Err(msg) => if displayable(msg) {
                    (
                        EditorView { command_bar: self.command_bar.cleared(msg), ..self },
                        EffectView::Nothing,
                    )
                } else {
                    (self, EffectView::Rejected)
                },
            }
        } else {
            (self, EffectView::Nothing)
        }
    }

    /// The editor after a search for the text of the command line, and
    /// what is left to do.
    pub open spec fn after_execute_search(self, direction: SearchDirection) -> (
        EditorView,
        EffectView,
    ) {
        let pattern = Some(self.command_bar.cmdline);
        let (next, effect) = self.after_search(pattern, direction);
        (
            EditorView {
                last_search_pattern: pattern,
                command_bar: next.command_bar.cleared(Seq::<char>::empty()),
                ..next
            },
            effect,
        )
    }

    /// The editor after `command` in command-line mode, where the command
    /// line is used for `submode`, and what is left to do.
    pub open spec fn after_cmdline(
        self,
        command: CmdlineModeCommand,
        submode: CmdlineSubmode,
    ) -> (EditorView, EffectView) {
        match command {
            CmdlineModeCommand::LeaveCmdlineMode => (
                EditorView {
                    mode: EditorMode::NormalMode,
                    command_bar: self.command_bar.cleared(Seq::<char>::empty()),
                    ..self
                },
                EffectView::Nothing,
            ),
            CmdlineModeCommand::Execute => {
                let (next, effect) = match submode {
                    CmdlineSubmode::Cmdline => self.after_parse_and_execute(),
                    CmdlineSubmode::Search => self.after_execute_search(SearchDirection::Forward),
                };
                (EditorView { mode: EditorMode::NormalMode, ..next }, effect)
            },
            CmdlineModeCommand::Insert(c) => if displayable(self.command_bar.cmdline_with(c)) {
                (
                    EditorView {
                        command_bar: self.command_bar.with_cmdline(
                            self.command_bar.cmdline_with(c),
                        ),
                        ..self
                    },
                    EffectView::Nothing,
                )
            } else {
                (self, EffectView::Rejected)
            },
            CmdlineModeCommand::Backspace => if crate::grapheme::cluster_count(
                self.command_bar.cmdline,
            ) > 0 ==> displayable(self.command_bar.cmdline_without_last()) {
                (
                    EditorView { command_bar: self.command_bar.after_backspace(), ..self },
                    EffectView::Nothing,
                )
            } else {
                (self, EffectView::Rejected)
            },
            CmdlineModeCommand::Nop => (self, EffectView::Nothing),
        }
    }

    /// The editor after `event`, and what is left to do: the event stands
    /// for a command of the mode that the editor is in.
    pub open spec fn after_event(self, event: Event) -> (EditorView, EffectView) {
        match self.mode {
            EditorMode::NormalMode => self.after_normal(NormalModeCommand::of_event(event)),
            EditorMode::InsertMode => self.after_insert(InsertModeCommand::of_event(event)),
            EditorMode::CmdlineMode(submode) => self.after_cmdline(
                CmdlineModeCommand::of_event(event),
                submode,
            ),
        }
    }

    /// The status bar after it took over the status of the window.
    pub open spec fn with_status(self) -> EditorView {
        EditorView {
            status_bar: StatusBarView {
                current_status: self.window.status(),
                needs_redraw: self.status_bar.needs_redraw || self.window.status()
                    != self.status_bar.current_status,
                ..self.status_bar
            },
            ..self
        }
    }

    /// The screen can be drawn: each part that would draw can do so, and
    /// the window shows the cursor.
    pub open spec fn can_refresh(self) -> bool {
        self.should_quit || {
            &&& self.window.can_render()
            &&& self.status_bar.needs_redraw ==> self.status_bar.can_render()
            &&& self.window.cursor_visible()
        }
    }

    /// An editor in normal mode on an empty document, for a screen of the
    /// size `size`, whose last two rows show the status bar and the command bar.
    pub open spec fn initial(size: Size) -> EditorView {
        EditorView {
            should_quit: false,
            mode: EditorMode::NormalMode,
            window: WindowView::initial(size, 2),
            status_bar: StatusBarView {
                current_status: DocumentStatusView::empty(),
                needs_redraw: true,
                width: size.width,
                position_y: (size.height - 2) as usize,
            },
            command_bar: CommandBarView {
                prompt: Seq::<char>::empty(),
                cmdline: Seq::<char>::empty(),
                needs_redraw: true,
                pos_y: (size.height - 1) as usize,
            },
            last_search_pattern: None,
        }
    }

    /// The editor after the screen was drawn: no part is marked for drawing.
    pub open spec fn after_refresh(self) -> EditorView {
        if self.should_quit {
            self
        } else {
            EditorView {
                window: WindowView { needs_redraw: false, ..self.window },
                status_bar: StatusBarView { needs_redraw: false, ..self.status_bar },
                command_bar: CommandBarView { needs_redraw: false, ..self.command_bar },
                ..self
            }
        }
    }
}

/// The editor: the window on the document, the two bars, and the mode.
pub struct Editor {
    should_quit: bool,
    mode: EditorMode,
    window: Window,
    status_bar: StatusBar,
    command_bar: CommandBar,
    last_search_pattern: Option<String>,
}

impl View for Editor {
    type V = EditorView;

    closed spec fn view(&self) -> EditorView {
        EditorView {
            should_quit: self.should_quit,
            mode: self.mode,
            window: self.window@,
            status_bar: self.status_bar@,
            command_bar: self.command_bar@,
            last_search_pattern: match self.last_search_pattern {
                Some(p) => Some(p@),
                None => None,
            },
        }
    }
}

impl Editor {
    /// The window and the command bar are valid.
    pub closed spec fn wf(&self) -> bool {
        &&& self.window.wf()
        &&& self.command_bar.wf()
    }

    /// An editor in normal mode on an empty document, for a screen of the
    /// size `size`, whose last two rows show the status bar and the command bar.
    pub fn new(size: Size) -> (r: Self)
        requires
            size.height >= 2,
        ensures
            r.wf(),
            r@ == EditorView::initial(size),
    {
        let status_bar_height: usize = 1;
        let message_bar_height: usize = 1;
        Self {
            should_quit: false,
            mode: EditorMode::NormalMode,
            window: Window::new(size, status_bar_height + message_bar_height),
            status_bar: StatusBar::new(
                size.width,
                size.height - status_bar_height - message_bar_height,
            ),
            command_bar: CommandBar::new(size.height - message_bar_height),
            last_search_pattern: None,
        }
    }

    /// Whether the editor was told to quit.
    pub fn should_quit(&self) -> (r: bool)
        ensures
            r == self@.should_quit,
    {
        self.should_quit
    }

    /// Shows the file called `filename`, whose contents are `contents`.
    pub fn load_file(&mut self, filename: &str, contents: &str)
        requires
            old(self).wf(),
            all_displayable(text_lines(contents@)),
        ensures
            final(self).wf(),
            final(self)@ == (EditorView {
                window: old(self)@.window.after_load(
                    filename@,
                    final(self)@.window.buffer.file_type,
                    text_lines(contents@),
                ),
                ..old(self)@
            }).with_status(),
            final(self)@.window.buffer.file_type.told_by(filename@),
    {
        self.window.load_file(filename, contents);
        self.update_status();
    }

    /// Loads as `load_file` does where every line of the contents can be
    /// laid out in columns, and leaves the editor as it is where not.
    pub fn try_load_file(&mut self, filename: &str, contents: &str) -> (done: bool)
        requires
            old(self).wf(),
        ensures
            final(self).wf(),
            done == all_displayable(text_lines(contents@)),
            done ==> final(self)@ == (EditorView {
                window: old(self)@.window.after_load(
                    filename@,
                    final(self)@.window.buffer.file_type,
                    text_lines(contents@),
                ),
                ..old(self)@
            }).with_status() && final(self)@.window.buffer.file_type.told_by(filename@),
            !done ==> final(self)@ == old(self)@,
    {
        if Window::can_load(contents) {
            self.load_file(filename, contents);
            true
        } else {
            false
        }
    }

    /// Has the status bar take over the status of the window.
    pub fn update_status(&mut self)
        requires
            old(self).wf(),
        ensures
            final(self).wf(),
            final(self)@ == old(self)@.with_status(),
    {
        let status = self.window.get_status();
        self.status_bar.update_status(status);
    }

    /// Records that the document was written to the file called
    /// `filename`: the document belongs to that file from now on, is of
    /// the kind that the name tells, and is unchanged.
    pub fn file_saved(&mut self, filename: &str)
        requires
            old(self).wf(),
        ensures
            final(self).wf(),
            final(self)@ == (EditorView {
                window: WindowView {
                    buffer: crate::buffer::BufferView {
                        filename: Some(filename@),
                        file_type: final(self)@.window.buffer.file_type,
                        modified: false,
                        ..old(self)@.window.buffer
                    },
                    ..old(self)@.window
                },
                ..old(self)@
            }),
            final(self)@.window.buffer.file_type.told_by(filename@),
    {
        self.window.mark_saved(filename);
    }

    /// Carries out what `event` stands for in the mode that the editor is in.
    pub fn evaluate_evnet(&mut self, event: &Event) -> (r: Effect)
        requires
            old(self).wf(),
        ensures
            final(self).wf(),
            (final(self)@, r@) == old(self)@.after_event(*event),
    {
        match self.mode {
            EditorMode::NormalMode => self.evaluate_evnet_in_normal_mode(event),
            EditorMode::InsertMode => self.evaluate_evnet_in_insert_mode(event),
            EditorMode::CmdlineMode(submode) => self.evalueate_event_in_cmdline_mode(
                event,
                submode,
            ),
        }
    }

    /// Carries out what `event` stands for in normal mode.
    pub fn evaluate_evnet_in_normal_mode(&mut self, event: &Event) -> (r: Effect)
        requires
            old(self).wf(),
        ensures
            final(self).wf(),
            (final(self)@, r@) == old(self)@.after_normal(NormalModeCommand::of_event(*event)),
    {
        let command = NormalModeCommand::from_key_event(event);
        match command {
            NormalModeCommand::CursorMove(direction) => {
                self.window.handle_move(direction, false);
                Effect::Nothing
            },
            NormalModeCommand::EnterInsertMode => {
                self.mode = EditorMode::InsertMode;
                Effect::Nothing
            },
            NormalModeCommand::EnterInsertModeAppend => {
                self.window.handle_move(Direction::Right, true);
                self.mode = EditorMode::InsertMode;
                Effect::Nothing
            },
            NormalModeCommand::EnterInsertModeBeginNewLineAbove => {
                self.window.begin_newline_above();
                self.mode = EditorMode::InsertMode;
                Effect::Nothing
            },
            NormalModeCommand::EnterInsertModeBeginNewLineBelow => {
                self.window.begin_newline_below();
                self.mode = EditorMode::InsertMode;
                Effect::Nothing
            },
            NormalModeCommand::EnterCmdlineMode(submode) => {
                self.mode = EditorMode::CmdlineMode(submode);
                self.command_bar.clear_cmdline();
                self.command_bar.set_cmdline_prompt(submode);
                Effect::Nothing
            },
            NormalModeCommand::SearchNext => self.search_again(SearchDirection::Forward),
            NormalModeCommand::SearchPrev => self.search_again(SearchDirection::Backward),
            NormalModeCommand::Nop => Effect::Nothing,
        }
    }

    fn search_again(&mut self, direction: SearchDirection) -> (r: Effect)
        requires
            old(self).wf(),
        ensures
            final(self).wf(),
            (final(self)@, r@) == old(self)@.after_search(
                old(self)@.last_search_pattern,
                direction,
            ),
    {
        match &self.last_search_pattern {
            Some(pattern) => {
                let not_found = self.window.search(Some(pattern.as_str()), direction);
                if not_found {
                    Effect::Log(Self::not_found(pattern.as_str()))
                } else {
                    Effect::Nothing
                }
            },
            None => {
                let not_found = self.window.search(None, direction);
                Effect::Nothing
            },
        }
    }

    fn not_found(pattern: &str) -> (r: String)
        ensures
            r@ == not_found_message(pattern@),
    {
        let mut msg = String::from_str("Pattern not found: ");
        msg.append(pattern);
        msg
    }

    /// Carries out what `event` stands for in insert mode.
    pub fn evaluate_evnet_in_insert_mode(&mut self, event: &Event) -> (r: Effect)
        requires
            old(self).wf(),
        ensures
            final(self).wf(),
            (final(self)@, r@) == old(self)@.after_insert(InsertModeCommand::of_event(*event)),
    {
        let command = InsertModeCommand::from_key_event(event);
        let done = match command {
            InsertModeCommand::LeaveInsertMode => {
                self.mode = EditorMode::NormalMode;
                self.window.normalize_cursor_position(false);
                true
            },
            InsertModeCommand::Insert(c) => self.window.try_insert_char(c),
            InsertModeCommand::Backspace => self.window.try_handle_backspace(),
            InsertModeCommand::InsertNewLine => self.window.try_insert_newline(),
            InsertModeCommand::Nop => true,
        };
        if done {
            Effect::Nothing
        } else {
            Effect::Rejected
        }
    }

    /// Carries out what `event` stands for in command-line mode, where
    /// the command line is used for `submode`.
    pub fn evalueate_event_in_cmdline_mode(
        &mut self,
        event: &Event,
        submode: CmdlineSubmode,
    ) -> (r: Effect)
        requires
            old(self).wf(),
        ensures
            final(self).wf(),
            (final(self)@, r@) == old(self)@.after_cmdline(
                CmdlineModeCommand::of_event(*event),
                submode,
            ),
    {
        let command = CmdlineModeCommand::from_key_event(event);
        match command {
            CmdlineModeCommand::LeaveCmdlineMode => {
                self.mode = EditorMode::NormalMode;
                self.command_bar.clear_cmdline();
                Effect::Nothing
            },
            CmdlineModeCommand::Execute => {
                let effect = match submode {
                    CmdlineSubmode::Cmdline => self.parse_and_execute_cmdline_command(),
                    CmdlineSubmode::Search => self.execute_search(SearchDirection::Forward),
                };
                self.mode = EditorMode::NormalMode;
                effect
            },
            CmdlineModeCommand::Insert(c) => {
                if self.command_bar.try_insert_char(c) {
                    Effect::Nothing
                } else {
                    Effect::Rejected
                }
            },
            CmdlineModeCommand::Backspace => {
                if self.command_bar.try_handle_backspace() {
                    Effect::Nothing
                } else {
                    Effect::Rejected
                }
            },
            CmdlineModeCommand::Nop => Effect::Nothing,
        }
    }

    /// Parses the command line and executes the command that it spells.
    pub fn parse_and_execute_cmdline_command(&mut self) -> (r: Effect)
        requires
            old(self).wf(),
        ensures
            final(self).wf(),
            (final(self)@, r@) == old(self)@.after_parse_and_execute(),
    {
        let raw_cmdline = self.command_bar.get_current_cmdline();
        proof {
            assert(texts(raw_cmdline@) =~= whitespace_words(self@.command_bar.cmdline));
        }
        if raw_cmdline.len() >= 1 {
            let cmd = CmdlineCommands::parse_cmdline(&raw_cmdline);
            match cmd {
                Ok(cmd) => {
                    let effect = self.execute_cmdline_command(cmd);
                    self.command_bar.clear_cmdline();
                    effect
                },
                Err(msg) => {
                    if self.command_bar.try_set_error_message(msg.as_str()) {
                        Effect::Nothing
                    } else {
                        Effect::Rejected
                    }
                },
            }
        } else {
            Effect::Nothing
        }
    }

    /// Executes a command of the command line.
    pub fn execute_cmdline_command(&mut self, cmd: CmdlineCommands) -> (r: Effect)
        requires
            old(self).wf(),
        ensures
            final(self).wf(),
            (final(self)@, r@) == old(self)@.after_cmdline_command(cmd@),
    {
        match cmd {
            CmdlineCommands::Quit => {
                self.should_quit = true;
                Effect::Nothing
            },
            CmdlineCommands::Write => match self.window.save_buffer() {
                Some(request) => Effect::Write(request),
                None => Effect::Nothing,
            },
            CmdlineCommands::Saveas(filename) => Effect::Write(
                self.window.save_buffer_with_filename(filename.as_str()),
            ),
            CmdlineCommands::StopHighlighting => {
                self.last_search_pattern = None;
                self.window.set_needs_redraw();
                Effect::Nothing
            },
        }
    }

    /// Searches for the text of the command line and keeps it as the
    /// pattern of later searches.
    pub fn execute_search(&mut self, direction: SearchDirection) -> (r: Effect)
        requires
            old(self).wf(),
        ensures
            final(self).wf(),
            (final(self)@, r@) == old(self)@.after_execute_search(direction),
    {
        let pattern = self.command_bar.get_raw_cmdline();
        let not_found = self.window.search(Some(pattern.as_str()), direction);
        let effect = if not_found {
            Effect::Log(Self::not_found(pattern.as_str()))
        } else {
            Effect::Nothing
        };
        self.last_search_pattern = Some(pattern);
        self.command_bar.clear_cmdline();
        effect
    }

    /// Whether `refresh_screen` may be called.
    pub fn can_refresh(&self) -> (r: bool)
        requires
            self.wf(),
        ensures
            r == self@.can_refresh(),
    {
        if self.should_quit {
            return true;
        }
        let status_fits = !self.status_bar.needs_redraw() || self.status_bar.can_render();
        self.window.can_render() && status_fits && self.window.is_cursor_visible()
    }

    /// What there is to draw.
    pub fn refresh_screen(&mut self) -> (r: Screen)
        requires
            old(self).wf(),
            old(self)@.can_refresh(),
        ensures
            final(self).wf(),
            final(self)@ == old(self)@.after_refresh(),
            r is Goodbye <==> old(self)@.should_quit,
            r matches Screen::Draw { window, status, command, cursor } ==> {
                &&& window is Some <==> old(self)@.window.needs_redraw
                &&& window matches Some(frame) ==> old(self)@.window.drawn_as(
                    old(self)@.last_search_pattern,
                    old(self)@.window.buffer.file_type,
                    frame,
                )
                &&& status is Some <==> old(self)@.status_bar.needs_redraw
                &&& status matches Some(drawing) ==> drawing.text@ == status_text(
                    old(self)@.status_bar.current_status,
                    old(self)@.status_bar.width as nat,
                ) && drawing.position == (Position {
                    col: 0,
                    row: old(self)@.status_bar.position_y,
                })
                &&& command is Some <==> old(self)@.command_bar.needs_redraw
                &&& command matches Some(drawing) ==> drawing.text@
                    == old(self)@.command_bar.prompt + old(self)@.command_bar.cmdline
                    && drawing.position == (Position {
                    row: old(self)@.command_bar.pos_y,
                    col: 0,
                })
                &&& cursor.col == old(self)@.window.absolute_position().col
                    - old(self)@.window.scroll_offset.col
                &&& cursor.row == old(self)@.window.absolute_position().row
                    - old(self)@.window.scroll_offset.row
            },
    {
        if self.should_quit {
            Screen::Goodbye
        } else {
            let context = RenderContext {
                search_pattern: self.last_search_pattern.clone(),
                file_type: self.window.get_status().file_type,
            };
            let window = self.window.render(&context);
            let status = self.status_bar.render();
            let command = self.command_bar.render();
            let cursor = self.window.get_relative_position();
            Screen::Draw { window, status, command, cursor }
        }
    }
}

} // verus!
