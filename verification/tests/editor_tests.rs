use modal_editor::cmdline_commands::CmdlineCommands;
use modal_editor::command_bar::CommandBar;
use modal_editor::editor::{DocumentStatus, Editor, Effect, Screen};
use modal_editor::editor_command::{
    CmdlineModeCommand, CmdlineSubmode, Direction, EditorMode, Event, InsertModeCommand, KeyCode,
    KeyEvent, KeyEventKind, NormalModeCommand,
};
use modal_editor::filetype::FileType;
use modal_editor::status_bar::StatusBar;
use modal_editor::terminal::{Position, Size};
use modal_editor::text::usize_to_string;

fn key(code: KeyCode) -> Event {
    Event::Key(KeyEvent { code, no_modifiers: true, kind: KeyEventKind::Press })
}

fn held(code: KeyCode) -> Event {
    Event::Key(KeyEvent { code, no_modifiers: false, kind: KeyEventKind::Press })
}

fn released(code: KeyCode) -> Event {
    Event::Key(KeyEvent { code, no_modifiers: true, kind: KeyEventKind::Other })
}

fn words(v: &[&str]) -> Vec<String> {
    v.iter().map(|s| String::from(*s)).collect()
}

fn type_keys(editor: &mut Editor, text: &str) {
    for c in text.chars() {
        let code = if c == '\n' { KeyCode::Enter } else { KeyCode::Char(c) };
        assert!(matches!(editor.evaluate_evnet(&key(code)), Effect::Nothing));
    }
}

#[test]
fn normal_mode_keys() {
    assert_eq!(
        NormalModeCommand::from_key_event(&key(KeyCode::Char('h'))),
        NormalModeCommand::CursorMove(Direction::Left)
    );
    assert_eq!(
        NormalModeCommand::from_key_event(&key(KeyCode::Char('j'))),
        NormalModeCommand::CursorMove(Direction::Down)
    );
    assert_eq!(
        NormalModeCommand::from_key_event(&key(KeyCode::Char('k'))),
        NormalModeCommand::CursorMove(Direction::Up)
    );
    assert_eq!(
        NormalModeCommand::from_key_event(&held(KeyCode::Char('l'))),
        NormalModeCommand::CursorMove(Direction::Right)
    );
    assert_eq!(
        NormalModeCommand::from_key_event(&key(KeyCode::Char('i'))),
        NormalModeCommand::EnterInsertMode
    );
    assert_eq!(
        NormalModeCommand::from_key_event(&key(KeyCode::Char('a'))),
        NormalModeCommand::EnterInsertModeAppend
    );
    assert_eq!(
        NormalModeCommand::from_key_event(&key(KeyCode::Char(':'))),
        NormalModeCommand::EnterCmdlineMode(CmdlineSubmode::Cmdline)
    );
    assert_eq!(
        NormalModeCommand::from_key_event(&key(KeyCode::Char('/'))),
        NormalModeCommand::EnterCmdlineMode(CmdlineSubmode::Search)
    );
    assert_eq!(
        NormalModeCommand::from_key_event(&key(KeyCode::Char('n'))),
        NormalModeCommand::SearchNext
    );
    assert_eq!(
        NormalModeCommand::from_key_event(&key(KeyCode::Char('N'))),
        NormalModeCommand::SearchPrev
    );
    assert_eq!(NormalModeCommand::from_key_event(&key(KeyCode::Char('x'))), NormalModeCommand::Nop);
    assert_eq!(NormalModeCommand::from_key_event(&key(KeyCode::Enter)), NormalModeCommand::Nop);
    assert_eq!(
        NormalModeCommand::from_key_event(&released(KeyCode::Char('h'))),
        NormalModeCommand::Nop
    );
    assert_eq!(NormalModeCommand::from_key_event(&Event::Other), NormalModeCommand::Nop);
}

#[test]
fn insert_mode_keys() {
    assert_eq!(
        InsertModeCommand::from_key_event(&key(KeyCode::Char('x'))),
        InsertModeCommand::Insert('x')
    );
    assert_eq!(InsertModeCommand::from_key_event(&key(KeyCode::Tab)), InsertModeCommand::Insert('\t'));
    assert_eq!(
        InsertModeCommand::from_key_event(&key(KeyCode::Backspace)),
        InsertModeCommand::Backspace
    );
    assert_eq!(
        InsertModeCommand::from_key_event(&key(KeyCode::Enter)),
        InsertModeCommand::InsertNewLine
    );
    assert_eq!(
        InsertModeCommand::from_key_event(&key(KeyCode::Esc)),
        InsertModeCommand::LeaveInsertMode
    );
    assert_eq!(
        InsertModeCommand::from_key_event(&held(KeyCode::Esc)),
        InsertModeCommand::LeaveInsertMode
    );
    assert_eq!(InsertModeCommand::from_key_event(&held(KeyCode::Char('x'))), InsertModeCommand::Nop);
    assert_eq!(InsertModeCommand::from_key_event(&held(KeyCode::Enter)), InsertModeCommand::Nop);
    assert_eq!(InsertModeCommand::from_key_event(&key(KeyCode::Other)), InsertModeCommand::Nop);
    assert_eq!(InsertModeCommand::from_key_event(&released(KeyCode::Esc)), InsertModeCommand::Nop);
}

#[test]
fn cmdline_mode_keys() {
    assert_eq!(
        CmdlineModeCommand::from_key_event(&key(KeyCode::Esc)),
        CmdlineModeCommand::LeaveCmdlineMode
    );
    assert_eq!(CmdlineModeCommand::from_key_event(&key(KeyCode::Enter)), CmdlineModeCommand::Execute);
    assert_eq!(
        CmdlineModeCommand::from_key_event(&key(KeyCode::Char('q'))),
        CmdlineModeCommand::Insert('q')
    );
    assert_eq!(
        CmdlineModeCommand::from_key_event(&key(KeyCode::Backspace)),
        CmdlineModeCommand::Backspace
    );
    assert_eq!(CmdlineModeCommand::from_key_event(&key(KeyCode::Tab)), CmdlineModeCommand::Nop);
    assert_eq!(CmdlineModeCommand::from_key_event(&held(KeyCode::Esc)), CmdlineModeCommand::Nop);
    assert_eq!(CmdlineModeCommand::from_key_event(&Event::Other), CmdlineModeCommand::Nop);
    assert_eq!(EditorMode::default(), EditorMode::NormalMode);
}

#[test]
fn command_lines_are_parsed() {
    assert!(matches!(CmdlineCommands::parse_cmdline(&words(&["q"])), Ok(CmdlineCommands::Quit)));
    assert!(matches!(CmdlineCommands::parse_cmdline(&words(&["w"])), Ok(CmdlineCommands::Write)));
    match CmdlineCommands::parse_cmdline(&words(&["saveas", "a.txt", "more"])) {
        Ok(CmdlineCommands::Saveas(name)) => assert_eq!(name, "a.txt"),
        other => panic!("unexpected: {:?}", other),
    }
    match CmdlineCommands::parse_cmdline(&words(&["saveas"])) {
        Err(msg) => assert_eq!(msg, "No filename provided for `saveas` command."),
        other => panic!("unexpected: {:?}", other),
    }
    match CmdlineCommands::parse_cmdline(&words(&["wq"])) {
        Err(msg) => assert_eq!(msg, "No such command: wq"),
        other => panic!("unexpected: {:?}", other),
    }
}

#[test]
fn command_bar_edits_and_draws() {
    let mut bar = CommandBar::new(23);
    let first = bar.render().unwrap();
    assert_eq!(first.text, "");
    assert_eq!(first.position, Position { row: 23, col: 0 });
    assert!(bar.render().is_none());
    bar.set_cmdline_prompt(CmdlineSubmode::Cmdline);
    bar.insert_char('s');
    bar.insert_char('x');
    bar.handle_backspace();
    assert!(bar.try_insert_char('a'));
    assert_eq!(bar.get_raw_cmdline(), "sa");
    assert_eq!(bar.render().unwrap().text, ":sa");
    bar.set_cmdline_prompt(CmdlineSubmode::Search);
    assert_eq!(bar.render().unwrap().text, "/sa");
    bar.clear_cmdline();
    assert_eq!(bar.render().unwrap().text, "");
    bar.handle_backspace();
    assert!(bar.render().is_none());
    assert!(bar.try_handle_backspace());
    bar.set_error_message("No such command: x");
    assert_eq!(bar.render().unwrap().text, "No such command: x");
    assert!(bar.try_set_error_message("other"));
    assert_eq!(bar.get_raw_cmdline(), "other");
}

#[test]
fn command_line_words() {
    let mut bar = CommandBar::new(0);
    for c in "  saveas   my file ".chars() {
        bar.insert_char(c);
    }
    assert_eq!(bar.get_current_cmdline(), vec!["saveas", "my", "file"]);
    bar.clear_cmdline();
    assert!(bar.get_current_cmdline().is_empty());
}

#[test]
fn numbers_in_decimal() {
    assert_eq!(usize_to_string(0), "0");
    assert_eq!(usize_to_string(7), "7");
    assert_eq!(usize_to_string(10), "10");
    assert_eq!(usize_to_string(1234567890), "1234567890");
}

fn status(name: Option<&str>, modified: bool, line: usize, total: usize) -> DocumentStatus {
    DocumentStatus {
        total_lines: total,
        current_line_index: line,
        file_type: if name.map_or(false, |n| n.ends_with(".rs")) {
            FileType::Rust
        } else {
            FileType::Text
        },
        is_modified: modified,
        file_name: name.map(String::from),
    }
}

#[test]
fn status_bar_fills_the_row() {
    let mut bar = StatusBar::new(30, 22);
    let first = bar.render().unwrap();
    assert_eq!(first.text, "[No Name]           [text] 1/1");
    assert_eq!(first.position, Position { row: 22, col: 0 });
    assert!(bar.render().is_none());
    bar.update_status(DocumentStatus::default());
    assert!(bar.render().is_none());
    bar.update_status(status(Some("main.rs"), true, 4, 120));
    assert!(bar.can_render());
    assert_eq!(bar.render().unwrap().text, "main.rs [+]       [rust] 5/120");
}

#[test]
fn status_bar_cuts_what_is_too_long() {
    let mut bar = StatusBar::new(12, 0);
    bar.update_status(status(Some("a_long_name.txt"), false, 0, 3));
    assert_eq!(bar.status_line(), "a_long_name.txt [text] 1/3");
    assert_eq!(bar.render().unwrap().text, "a_long_name.");
    let mut narrow = StatusBar::new(1, 0);
    narrow.update_status(status(Some("日本.txt"), false, 0, 3));
    assert!(!narrow.can_render());
}

#[test]
fn same_status() {
    assert!(status(Some("a"), true, 1, 2).same_as(&status(Some("a"), true, 1, 2)));
    assert!(!status(Some("a"), true, 1, 2).same_as(&status(Some("b"), true, 1, 2)));
    assert!(!status(Some("a"), true, 1, 2).same_as(&status(None, true, 1, 2)));
    assert!(!status(None, true, 1, 2).same_as(&status(None, false, 1, 2)));
    assert!(!status(None, true, 1, 2).same_as(&status(None, true, 0, 2)));
    assert!(!status(None, true, 1, 2).same_as(&status(None, true, 1, 3)));
}

#[test]
fn typing_a_document() {
    let mut editor = Editor::new(Size { height: 12, width: 40 });
    type_keys(&mut editor, "i");
    type_keys(&mut editor, "ab\ncd");
    assert!(matches!(editor.evaluate_evnet(&key(KeyCode::Backspace)), Effect::Nothing));
    assert!(matches!(editor.evaluate_evnet(&key(KeyCode::Esc)), Effect::Nothing));
    editor.update_status();
    match editor.evaluate_evnet(&key(KeyCode::Char(':'))) {
        Effect::Nothing => {}
        _ => panic!("unexpected effect"),
    }
    type_keys(&mut editor, "w");
    match editor.evaluate_evnet(&key(KeyCode::Enter)) {
        Effect::Nothing => {}
        _ => panic!("a document without a name is not written"),
    }
}

#[test]
fn saveas_asks_for_a_write() {
    let mut editor = Editor::new(Size { height: 12, width: 40 });
    type_keys(&mut editor, "iab\ncd");
    editor.evaluate_evnet(&key(KeyCode::Esc));
    type_keys(&mut editor, ":saveas out.txt");
    match editor.evaluate_evnet(&key(KeyCode::Enter)) {
        Effect::Write(request) => {
            assert_eq!(request.filename, "out.txt");
            assert_eq!(request.contents, "ab\ncd\n");
            editor.file_saved(&request.filename);
        }
        _ => panic!("expected a write"),
    }
    type_keys(&mut editor, ":w");
    match editor.evaluate_evnet(&key(KeyCode::Enter)) {
        Effect::Write(request) => assert_eq!(request.filename, "out.txt"),
        _ => panic!("expected a write"),
    }
}

#[test]
fn quit_and_unknown_commands() {
    let mut editor = Editor::new(Size { height: 12, width: 40 });
    type_keys(&mut editor, ":nonsense\n");
    assert!(!editor.should_quit());
    match editor.refresh_screen() {
        Screen::Draw { command, .. } => {
            assert_eq!(command.unwrap().text, "No such command: nonsense");
        }
        Screen::Goodbye => panic!("not quit yet"),
    }
    type_keys(&mut editor, ":q\n");
    assert!(editor.should_quit());
    assert!(matches!(editor.refresh_screen(), Screen::Goodbye));
}

#[test]
fn search_from_the_command_line() {
    let mut editor = Editor::new(Size { height: 12, width: 40 });
    editor.load_file("a.txt", "one two\nthree two");
    type_keys(&mut editor, "/two\n");
    assert!(editor.can_refresh());
    match editor.refresh_screen() {
        Screen::Draw { cursor, window, status, .. } => {
            assert_eq!(cursor, Position { row: 0, col: 4 });
            assert!(window.is_some());
            assert_eq!(status.unwrap().text, "a.txt                         [text] 1/2");
        }
        Screen::Goodbye => panic!("not quit yet"),
    }
    type_keys(&mut editor, "n");
    match editor.refresh_screen() {
        Screen::Draw { cursor, window, .. } => {
            assert_eq!(cursor, Position { row: 1, col: 6 });
            assert!(window.is_some());
        }
        Screen::Goodbye => panic!("not quit yet"),
    }
    type_keys(&mut editor, "N");
    match editor.refresh_screen() {
        Screen::Draw { cursor, .. } => assert_eq!(cursor, Position { row: 0, col: 4 }),
        Screen::Goodbye => panic!("not quit yet"),
    }
    type_keys(&mut editor, "/zzz");
    match editor.evaluate_evnet(&key(KeyCode::Enter)) {
        Effect::Log(msg) => assert_eq!(msg, "Pattern not found: zzz"),
        _ => panic!("expected a message"),
    }
    match editor.evaluate_evnet(&key(KeyCode::Char('n'))) {
        Effect::Log(msg) => assert_eq!(msg, "Pattern not found: zzz"),
        _ => panic!("expected a message"),
    }
}

#[test]
fn append_goes_behind_the_last_grapheme() {
    let mut editor = Editor::new(Size { height: 12, width: 40 });
    editor.load_file("a.txt", "ab");
    type_keys(&mut editor, "l");
    type_keys(&mut editor, "a");
    type_keys(&mut editor, "c");
    editor.evaluate_evnet(&key(KeyCode::Esc));
    type_keys(&mut editor, ":saveas x");
    match editor.evaluate_evnet(&key(KeyCode::Enter)) {
        Effect::Write(request) => assert_eq!(request.contents, "abc\n"),
        _ => panic!("expected a write"),
    }
    assert!(editor.try_load_file("b.txt", "x\ny"));
}
