use modal_editor::buffer::Buffer;
use modal_editor::command_bar::CommandBar;
use modal_editor::editor::{Editor, Effect};
use modal_editor::editor_command::{Event, KeyCode, KeyEvent, KeyEventKind};
use modal_editor::grapheme::{displayed_len, is_displayable, try_str_to_graphemes};
use modal_editor::line::Line;
use modal_editor::terminal::Size;
use modal_editor::window::{TextLocation, Window};

const WIDE: &str = "क्षि";
const NARROW: &str = "क्ष";
const LAST: char = 'ि';

fn key(c: char) -> Event {
    Event::Key(KeyEvent { code: KeyCode::Char(c), no_modifiers: true, kind: KeyEventKind::Press })
}

#[test]
fn cluster_of_three_columns_cannot_be_laid_out() {
    assert!(!is_displayable(WIDE));
    assert_eq!(displayed_len(WIDE), None);
    assert!(try_str_to_graphemes(WIDE).is_none());
    assert!(Line::try_from_str(WIDE).is_none());
    assert!(is_displayable(NARROW));
    assert_eq!(displayed_len(NARROW), Some(1));
    assert_eq!(Line::try_from_str(NARROW).unwrap().len(), 1);
    assert_eq!(try_str_to_graphemes("ab").unwrap().1, vec![0, 1]);
}

#[test]
fn line_refuses_edits_that_cannot_be_laid_out() {
    let mut line = Line::from_str(NARROW);
    assert_eq!(line.len_after_insert(LAST, 1), None);
    assert!(!line.try_insert_char(LAST, 1));
    assert_eq!(line.to_string(), NARROW);
    assert!(line.try_insert_char('a', 1));
    assert_eq!(line.len(), 2);
    let tail = Line::from_str("ि");
    assert_eq!(tail.len(), 1);
    assert_eq!(line.len_after_push(&tail), Some(2));
    let mut head = Line::from_str(NARROW);
    assert_eq!(head.len_after_push(&tail), None);
    assert!(!head.try_push_line(&tail));
    assert_eq!(head.to_string(), NARROW);
    let mut apart = Line::from_str("क्ष\tि");
    assert_eq!(apart.len(), 3);
    assert_eq!(apart.len_after_delete(1), None);
    assert!(!apart.try_delete_grapheme(1));
    assert_eq!(apart.len(), 3);
    assert!(apart.try_delete_grapheme(2));
    assert_eq!(apart.to_string(), "क्ष\t");
}

#[test]
fn buffer_tells_which_edits_can_be_laid_out() {
    let mut buffer = Buffer::default();
    assert!(!Buffer::can_load("fine\nक्षि\nfine"));
    buffer.load("क्ष\nि");
    let at_end = TextLocation { grapheme_idx: 1, line_idx: 0 };
    assert_eq!(buffer.len_after_insert_char(LAST, at_end), None);
    assert_eq!(buffer.len_after_insert_char('x', at_end), Some(2));
    assert_eq!(buffer.len_after_join(0), None);
    buffer.load("क्ष\tि");
    assert_eq!(
        buffer.len_after_delete_grapheme(TextLocation { grapheme_idx: 1, line_idx: 0 }),
        None
    );
}

#[test]
fn buffer_stays_as_it_is_when_an_edit_is_refused() {
    let mut buffer = Buffer::default();
    assert!(!buffer.try_load("fine\nक्षि"));
    assert!(buffer.is_empty());
    assert!(buffer.try_load("क्ष\nि\nक्ष\tि"));
    assert!(!buffer.is_modified());
    assert!(!buffer.try_insert_char(LAST, TextLocation { grapheme_idx: 1, line_idx: 0 }));
    assert!(!buffer.try_join_adjacent_rows(0));
    assert!(!buffer.try_delete_grapheme(TextLocation { grapheme_idx: 1, line_idx: 2 }));
    assert!(!buffer.try_delete_grapheme(TextLocation { grapheme_idx: 0, line_idx: 3 }));
    assert!(!buffer.try_insert_newline(TextLocation { grapheme_idx: 2, line_idx: 0 }));
    assert!(!buffer.is_modified());
    assert_eq!(buffer.get_n_lines(), 3);
    assert!(buffer.try_insert_char('x', TextLocation { grapheme_idx: 1, line_idx: 0 }));
    assert!(buffer.try_join_adjacent_rows(1));
    assert!(buffer.try_delete_grapheme(TextLocation { grapheme_idx: 0, line_idx: 0 }));
    assert!(buffer.try_insert_newline(TextLocation { grapheme_idx: 1, line_idx: 0 }));
    assert_eq!(buffer.save_as_filename("x").contents, "x\n\nिक्ष\tि\n");
    let mut line = Line::from_str("ab");
    assert!(line.try_split_off(3).is_none());
    assert_eq!(line.try_split_off(1).unwrap().to_string(), "b");
    assert_eq!(line.to_string(), "a");
}

#[test]
fn window_stays_as_it_is_when_an_edit_is_refused() {
    let mut w = Window::new(Size { height: 10, width: 40 }, 2);
    assert!(!w.try_load_file("wide.txt", WIDE));
    assert_eq!(w.get_status().total_lines, 0);
    assert_eq!(w.get_status().file_name, None);
    assert!(w.try_load_file("narrow.txt", "क्ष\nि"));
    w.handle_move(modal_editor::editor_command::Direction::Right, true);
    assert!(!w.can_insert_char(LAST));
    assert!(!w.try_insert_char(LAST));
    assert!(!w.get_status().is_modified);
    w.handle_move(modal_editor::editor_command::Direction::Down, true);
    w.handle_move(modal_editor::editor_command::Direction::Left, true);
    assert!(!w.can_backspace());
    assert!(!w.try_handle_backspace());
    assert_eq!(w.get_status().total_lines, 2);
    assert!(w.can_insert_newline());
}

#[test]
fn command_bar_stays_as_it_is_when_an_edit_is_refused() {
    let mut bar = CommandBar::new(0);
    for c in NARROW.chars() {
        assert!(bar.try_insert_char(c));
    }
    assert!(!bar.try_insert_char(LAST));
    assert_eq!(bar.get_raw_cmdline(), NARROW);
    assert!(!bar.try_set_error_message(WIDE));
    assert_eq!(bar.get_raw_cmdline(), NARROW);
}

#[test]
fn editor_rejects_what_cannot_be_laid_out() {
    let mut editor = Editor::new(Size { height: 12, width: 40 });
    assert!(!editor.try_load_file("wide.txt", WIDE));
    assert!(matches!(editor.evaluate_evnet(&key('i')), Effect::Nothing));
    for c in NARROW.chars() {
        assert!(matches!(editor.evaluate_evnet(&key(c)), Effect::Nothing));
    }
    assert!(matches!(editor.evaluate_evnet(&key(LAST)), Effect::Rejected));
}
