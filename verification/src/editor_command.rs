//! The commands that key presses stand for in each mode of the editor.

use vstd::prelude::*;

verus! {

/// A key of the keyboard, as far as the editor tells keys apart.
#[derive(Clone, Copy, Debug, PartialEq, Eq, Structural)]
pub enum KeyCode {
    Char(char),
    Tab,
    Backspace,
    Enter,
    Esc,
    Other,
}

/// What happened to a key.
#[derive(Clone, Copy, Debug, PartialEq, Eq, Structural)]
pub enum KeyEventKind {
    Press,
    Other,
}

/// A key event: the key, whether no modifier key was held with it, and
/// what happened to it.
#[derive(Clone, Copy, Debug, PartialEq, Eq, Structural)]
pub struct KeyEvent {
    pub code: KeyCode,
    pub no_modifiers: bool,
    pub kind: KeyEventKind,
}

/// An event of the terminal.
#[derive(Clone, Copy, Debug, PartialEq, Eq, Structural)]
pub enum Event {
    Key(KeyEvent),
    Other,
}

impl Event {
    /// The key that was pressed, where the event is the press of a key.
    pub open spec fn pressed(self) -> Option<KeyEvent> {
        match self {
            Event::Key(key) => if key.kind == KeyEventKind::Press {
                Some(key)
            } else {
                None
            },
            Event::Other => None,
        }
    }

    /// The key that was pressed, where the event is the press of a key.
    pub fn pressed_key(&self) -> (r: Option<KeyEvent>)
        ensures
            r == self.pressed(),
    {
        match self {
            Event::Key(key) => match key.kind {
                KeyEventKind::Press => Some(*key),
                KeyEventKind::Other => None,
            },
            Event::Other => None,
        }
    }
}

/// What the command line is used for.
#[derive(Clone, Copy, Debug, PartialEq, Eq, Structural)]
pub enum CmdlineSubmode {
    Cmdline,
    Search,
}

/// The mode that the editor is in.
#[derive(Clone, Copy, Debug, PartialEq, Eq, Structural)]
pub enum EditorMode {
    NormalMode,
    InsertMode,
    CmdlineMode(CmdlineSubmode),
}

impl Default for EditorMode {
    fn default() -> (r: Self)
        ensures
            r == EditorMode::NormalMode,
    {
        Self::NormalMode
    }
}

/// A direction in which the cursor moves.
#[derive(Clone, Copy, Debug, PartialEq, Eq, Structural)]
pub enum Direction {
    Left,
    Right,
    Up,
    Down,
}

/// What a key stands for in normal mode.
#[derive(Clone, Copy, Debug, PartialEq, Eq, Structural)]
pub enum NormalModeCommand {
    CursorMove(Direction),
    EnterInsertMode,
    EnterInsertModeAppend,
    EnterInsertModeBeginNewLineAbove,
    EnterInsertModeBeginNewLineBelow,
    EnterCmdlineMode(CmdlineSubmode),
    SearchNext,
    SearchPrev,
    Nop,
}

impl NormalModeCommand {
    /// What `event` stands for in normal mode. Held modifier keys make no difference.
    pub open spec fn of_event(event: Event) -> NormalModeCommand {
        match event.pressed() {
            Some(key) => match key.code {
                KeyCode::Char(c) => if c == 'h' {
                    NormalModeCommand::CursorMove(Direction::Left)
                } else if c == 'j' {
                    NormalModeCommand::CursorMove(Direction::Down)
                } else if c == 'k' {
                    NormalModeCommand::CursorMove(Direction::Up)
                } else if c == 'l' {
                    NormalModeCommand::CursorMove(Direction::Right)
                } else if c == 'i' {
                    NormalModeCommand::EnterInsertMode
                } else if c == 'a' {
                    NormalModeCommand::EnterInsertModeAppend
                } else if c == ':' {
                    NormalModeCommand::EnterCmdlineMode(CmdlineSubmode::Cmdline)
                } else if c == '/' {
                    NormalModeCommand::EnterCmdlineMode(CmdlineSubmode::Search)
                } else if c == 'n' {
                    NormalModeCommand::SearchNext
                } else if c == 'N' {
                    NormalModeCommand::SearchPrev
                } else {
                    NormalModeCommand::Nop
                },
                _ => NormalModeCommand::Nop,
            },
            None => NormalModeCommand::Nop,
        }
    }

    /// What `event` stands for in this mode.
    pub fn from_key_event(event: &Event) -> (r: Self)
        ensures
            r == Self::of_event(*event),
    {
        match event.pressed_key() {
            Some(key) => match key.code {
                KeyCode::Char('h') => Self::CursorMove(Direction::Left),
                KeyCode::Char('j') => Self::CursorMove(Direction::Down),
                KeyCode::Char('k') => Self::CursorMove(Direction::Up),
                KeyCode::Char('l') => Self::CursorMove(Direction::Right),
                KeyCode::Char('i') => Self::EnterInsertMode,
                KeyCode::Char('a') => Self::EnterInsertModeAppend,
                KeyCode::Char(':') => Self::EnterCmdlineMode(CmdlineSubmode::Cmdline),
                KeyCode::Char('/') => Self::EnterCmdlineMode(CmdlineSubmode::Search),
                KeyCode::Char('n') => Self::SearchNext,
                KeyCode::Char('N') => Self::SearchPrev,
                _ => Self::Nop,
            },
            None => Self::Nop,
        }
    }
}

/// What a key stands for in insert mode.
#[derive(Clone, Copy, Debug, PartialEq, Eq, Structural)]
pub enum InsertModeCommand {
    LeaveInsertMode,
    Insert(char),
    Backspace,
    InsertNewLine,
    Nop,
}

impl InsertModeCommand {
    /// What `event` stands for in insert mode. Only the escape key counts
    /// while a modifier key is held.
    pub open spec fn of_event(event: Event) -> InsertModeCommand {
        match event.pressed() {
            Some(key) => match key.code {
                KeyCode::Char(c) => if key.no_modifiers {
                    InsertModeCommand::Insert(c)
                } else {
                    InsertModeCommand::Nop
                },
                KeyCode::Tab => if key.no_modifiers {
                    InsertModeCommand::Insert('\t')
                } else {
                    InsertModeCommand::Nop
                },
                KeyCode::Backspace => if key.no_modifiers {
                    InsertModeCommand::Backspace
                } else {
                    InsertModeCommand::Nop
                },
                KeyCode::Enter => if key.no_modifiers {
                    InsertModeCommand::InsertNewLine
                } else {
                    InsertModeCommand::Nop
                },
                KeyCode::Esc => InsertModeCommand::LeaveInsertMode,
                KeyCode::Other => InsertModeCommand::Nop,
            },
            None => InsertModeCommand::Nop,
        }
    }

    /// What `event` stands for in this mode.
    pub fn from_key_event(event: &Event) -> (r: Self)
        ensures
            r == Self::of_event(*event),
    {
        match event.pressed_key() {
            Some(key) => match key.code {
                KeyCode::Char(c) if key.no_modifiers => Self::Insert(c),
                KeyCode::Tab if key.no_modifiers => Self::Insert('\t'),
                KeyCode::Backspace if key.no_modifiers => Self::Backspace,
                KeyCode::Enter if key.no_modifiers => Self::InsertNewLine,
                KeyCode::Esc => Self::LeaveInsertMode,
                _ => Self::Nop,
            },
            None => Self::Nop,
        }
    }
}

/// What a key stands for in command-line mode.
#[derive(Clone, Copy, Debug, PartialEq, Eq, Structural)]
pub enum CmdlineModeCommand {
    LeaveCmdlineMode,
    Execute,
    Insert(char),
    Backspace,
    Nop,
}

impl CmdlineModeCommand {
    /// What `event` stands for in command-line mode. No key counts while a
    /// modifier key is held.
    pub open spec fn of_event(event: Event) -> CmdlineModeCommand {
        match event.pressed() {
            Some(key) => if key.no_modifiers {
                match key.code {
                    KeyCode::Esc => CmdlineModeCommand::LeaveCmdlineMode,
                    KeyCode::Enter => CmdlineModeCommand::Execute,
                    KeyCode::Char(c) => CmdlineModeCommand::Insert(c),
                    KeyCode::Backspace => CmdlineModeCommand::Backspace,
                    _ => CmdlineModeCommand::Nop,
                }
            } else {
                CmdlineModeCommand::Nop
            },
            None => CmdlineModeCommand::Nop,
        }
    }

    /// What `event` stands for in this mode.
    pub fn from_key_event(event: &Event) -> (r: Self)
        ensures
            r == Self::of_event(*event),
    {
        match event.pressed_key() {
            Some(key) => if key.no_modifiers {
                match key.code {
                    KeyCode::Esc => Self::LeaveCmdlineMode,
                    KeyCode::Enter => Self::Execute,
                    KeyCode::Char(c) => Self::Insert(c),
                    KeyCode::Backspace => Self::Backspace,
                    _ => Self::Nop,
                }
            } else {
                Self::Nop
            },
            None => Self::Nop,
        }
    }
}

} // verus!
