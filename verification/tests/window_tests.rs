use modal_editor::editor::SearchDirection;
use modal_editor::editor_command::Direction;
use modal_editor::terminal::{Position, Size};
use modal_editor::window::{TextLocation, Window};

fn window(height: usize, width: usize, contents: &str) -> Window {
    let mut w = Window::new(Size { height: height + 2, width }, 2);
    w.load_file("test.txt", contents);
    w
}

fn pos(row: usize, col: usize) -> Position {
    Position { row, col }
}

fn cursor(w: &Window) -> (usize, usize) {
    let status = w.get_status();
    (status.current_line_index, w.get_absolute_position().col)
}

#[test]
fn new_window_is_empty() {
    let w = Window::new(Size { height: 24, width: 80 }, 2);
    let status = w.get_status();
    assert_eq!(status.total_lines, 0);
    assert_eq!(status.current_line_index, 0);
    assert!(!status.is_modified);
    assert_eq!(status.file_name, None);
    assert_eq!(w.get_absolute_position(), pos(0, 0));
    assert_eq!(w.get_relative_position(), pos(0, 0));
}

#[test]
fn moves_stop_at_the_edges_of_the_text() {
    let mut w = window(10, 80, "abc\nde");
    w.handle_move(Direction::Left, false);
    assert_eq!(cursor(&w), (0, 0));
    w.handle_move(Direction::Up, false);
    assert_eq!(cursor(&w), (0, 0));
    w.handle_move(Direction::Right, false);
    w.handle_move(Direction::Right, false);
    w.handle_move(Direction::Right, false);
    assert_eq!(cursor(&w), (0, 2));
    w.handle_move(Direction::Right, true);
    assert_eq!(cursor(&w), (0, 3));
    w.handle_move(Direction::Down, false);
    assert_eq!(cursor(&w), (1, 1));
    w.handle_move(Direction::Down, false);
    assert_eq!(cursor(&w), (1, 1));
}

#[test]
fn cursor_on_tab_sits_at_its_last_column() {
    let mut w = window(10, 80, "ab\tcd");
    w.handle_move(Direction::Right, false);
    w.handle_move(Direction::Right, false);
    assert_eq!(w.get_absolute_position(), pos(0, 7));
    w.handle_move(Direction::Right, false);
    assert_eq!(w.get_absolute_position(), pos(0, 8));
}

#[test]
fn window_follows_the_cursor_by_the_least_shift() {
    let mut w = window(3, 4, "abcdefgh\n1\n2\n3\n4\n5");
    for _ in 0..3 {
        w.handle_move(Direction::Right, false);
    }
    assert_eq!(w.get_relative_position(), pos(0, 3));
    w.handle_move(Direction::Right, false);
    assert_eq!(w.get_absolute_position(), pos(0, 4));
    assert_eq!(w.get_relative_position(), pos(0, 3));
    w.handle_move(Direction::Left, false);
    assert_eq!(w.get_relative_position(), pos(0, 2));
    for _ in 0..3 {
        w.handle_move(Direction::Left, false);
    }
    assert_eq!(w.get_absolute_position(), pos(0, 0));
    assert_eq!(w.get_relative_position(), pos(0, 0));
    for _ in 0..4 {
        w.handle_move(Direction::Down, false);
    }
    assert_eq!(w.get_absolute_position(), pos(4, 0));
    assert_eq!(w.get_relative_position(), pos(2, 0));
    w.handle_move(Direction::Up, false);
    assert_eq!(w.get_relative_position(), pos(1, 0));
}

#[test]
fn cursor_stays_visible_through_moves_and_resizes() {
    let mut w = window(4, 10, "ab\tcd日本語efgh\n\nxyz\n日本語日本語日本語\n\t\t\t\n1\n2\n3");
    let moves = [
        Direction::Right,
        Direction::Right,
        Direction::Right,
        Direction::Down,
        Direction::Down,
        Direction::Down,
        Direction::Right,
        Direction::Right,
        Direction::Right,
        Direction::Right,
        Direction::Right,
        Direction::Right,
        Direction::Down,
        Direction::Down,
        Direction::Down,
        Direction::Down,
        Direction::Up,
        Direction::Up,
        Direction::Up,
        Direction::Left,
        Direction::Up,
        Direction::Up,
        Direction::Up,
        Direction::Right,
    ];
    let sizes = [(4usize, 10usize), (2, 8), (1, 9), (6, 30)];
    for (step, direction) in moves.iter().enumerate() {
        if step % 5 == 0 {
            let (height, width) = sizes[(step / 5) % sizes.len()];
            w.resize(Size { height, width });
            check_visible(&w, height, width);
        }
        w.handle_move(*direction, step % 2 == 0);
    }
    w.resize(Size { height: 3, width: 8 });
    check_visible(&w, 3, 8);
}

fn check_visible(w: &Window, height: usize, width: usize) {
    let rel = w.get_relative_position();
    assert!(rel.row < height);
    assert!(rel.col <= width);
}

#[test]
fn scrolling_again_changes_nothing() {
    let mut w = window(3, 4, "abcdefgh\n1\n2\n3\n4\n5");
    for _ in 0..6 {
        w.handle_move(Direction::Right, false);
    }
    for _ in 0..4 {
        w.handle_move(Direction::Down, false);
    }
    let before = w.get_relative_position();
    w.update_scroll_offset();
    assert_eq!(w.get_relative_position(), before);
    assert!(w.is_cursor_visible());
}

#[test]
fn plain_text_can_always_be_edited() {
    let mut w = window(10, 80, "abc\ndef");
    assert!(w.can_insert_char('x'));
    assert!(w.can_insert_newline());
    w.handle_move(Direction::Down, false);
    assert!(w.can_backspace());
    w.handle_move(Direction::Right, true);
    assert!(w.can_backspace());
}

#[test]
fn insert_moves_the_cursor_on() {
    let mut w = Window::new(Size { height: 10, width: 80 }, 2);
    w.insert_char('a');
    w.insert_char('日');
    w.insert_char('b');
    let status = w.get_status();
    assert_eq!(status.total_lines, 1);
    assert!(status.is_modified);
    assert_eq!(w.get_absolute_position(), pos(0, 4));
    let request = w.save_buffer_with_filename("x.txt");
    assert_eq!(request.contents, "a日b\n");
}

#[test]
fn insert_into_empty_window_makes_one_line() {
    let mut w = Window::new(Size { height: 10, width: 80 }, 2);
    assert_eq!(w.get_status().total_lines, 0);
    assert!(w.try_insert_char('x'));
    assert_eq!(w.get_status().total_lines, 1);
}

#[test]
fn backspace_takes_out_the_grapheme_before_the_cursor() {
    let mut w = window(10, 80, "abc");
    w.handle_move(Direction::Right, true);
    w.handle_move(Direction::Right, true);
    w.handle_backspace();
    assert_eq!(w.save_buffer_with_filename("x").contents, "ac\n");
    assert_eq!(w.get_absolute_position(), pos(0, 1));
}

#[test]
fn backspace_at_line_start_joins_with_previous_line() {
    let mut w = window(10, 80, "abc\nde\nf");
    w.handle_move(Direction::Down, false);
    w.handle_backspace();
    assert_eq!(w.save_buffer_with_filename("x").contents, "abcde\nf\n");
    assert_eq!(w.get_status().current_line_index, 0);
    assert_eq!(w.get_absolute_position(), pos(0, 3));
    assert_eq!(w.get_status().total_lines, 2);
}

#[test]
fn backspace_at_document_start_does_nothing() {
    let mut w = window(10, 80, "abc");
    assert!(w.try_handle_backspace());
    assert_eq!(w.save_buffer_with_filename("x").contents, "abc\n");
    assert!(!w.get_status().is_modified);
    let mut empty = Window::new(Size { height: 10, width: 80 }, 2);
    empty.handle_backspace();
    assert_eq!(empty.get_status().total_lines, 0);
}

#[test]
fn new_lines_put_the_cursor_at_their_start() {
    let mut w = window(10, 80, "abc\ndef");
    w.handle_move(Direction::Right, false);
    w.begin_newline_below();
    assert_eq!(w.get_absolute_position(), pos(1, 0));
    assert_eq!(w.save_buffer_with_filename("x").contents, "abc\n\ndef\n");
    w.begin_newline_above();
    assert_eq!(w.get_absolute_position(), pos(1, 0));
    assert_eq!(w.save_buffer_with_filename("x").contents, "abc\n\n\ndef\n");
    w.handle_move(Direction::Up, false);
    w.handle_move(Direction::Right, false);
    w.handle_move(Direction::Right, false);
    w.insert_newline();
    assert_eq!(w.get_absolute_position(), pos(1, 0));
    assert_eq!(w.save_buffer_with_filename("x").contents, "ab\nc\n\n\ndef\n");
    assert!(w.try_insert_newline());
}

#[test]
fn search_moves_to_next_and_previous_hit() {
    let mut w = window(10, 80, "ab ab\nxx\nab");
    assert!(!w.search(Some("ab"), SearchDirection::Forward));
    assert_eq!(w.get_absolute_position(), pos(0, 3));
    assert!(!w.search(Some("ab"), SearchDirection::Forward));
    assert_eq!(w.get_absolute_position(), pos(2, 0));
    assert!(!w.search(Some("ab"), SearchDirection::Forward));
    assert_eq!(w.get_absolute_position(), pos(2, 0));
    assert!(!w.search(Some("ab"), SearchDirection::Backward));
    assert_eq!(w.get_absolute_position(), pos(0, 3));
    assert!(!w.search(Some("ab"), SearchDirection::Backward));
    assert_eq!(w.get_absolute_position(), pos(0, 0));
    assert!(w.search(Some("zz"), SearchDirection::Forward));
    assert!(!w.search(None, SearchDirection::Forward));
    assert_eq!(w.get_absolute_position(), pos(0, 0));
}

#[test]
fn save_follows_the_file_name() {
    let mut w = Window::new(Size { height: 10, width: 80 }, 2);
    assert!(w.save_buffer().is_none());
    w.insert_char('a');
    w.mark_saved("a.rs");
    let status = w.get_status();
    assert!(!status.is_modified);
    assert_eq!(status.file_name, Some(String::from("a.rs")));
    assert_eq!(w.save_buffer().unwrap().contents, "a\n");
    assert!(w.try_load_file("b.txt", "x\ny"));
    assert_eq!(w.get_status().total_lines, 2);
    assert_eq!(TextLocation::default(), TextLocation { grapheme_idx: 0, line_idx: 0 });
}

#[test]
fn load_brings_the_cursor_back_into_the_text() {
    let mut w = window(10, 80, "abc\ndef\nghi");
    w.handle_move(Direction::Down, false);
    w.handle_move(Direction::Down, false);
    w.handle_move(Direction::Right, false);
    w.handle_move(Direction::Right, false);
    w.load_file("other.txt", "x");
    assert_eq!(w.get_absolute_position(), pos(0, 0));
}
