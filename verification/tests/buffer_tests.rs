use modal_editor::buffer::Buffer;
use modal_editor::filetype::FileType;
use modal_editor::window::TextLocation;

fn loc(line_idx: usize, grapheme_idx: usize) -> TextLocation {
    TextLocation { grapheme_idx, line_idx }
}

fn lines_of(buffer: &Buffer) -> Vec<String> {
    (0..buffer.get_n_lines()).map(|i| buffer.get_line(i).unwrap().to_string()).collect()
}

#[test]
fn empty_buffer_has_no_lines() {
    let buffer = Buffer::default();
    assert!(buffer.is_empty());
    assert_eq!(buffer.get_n_lines(), 0);
    assert_eq!(buffer.get_line_length(0), 0);
    assert_eq!(buffer.get_filename(), None);
    assert_eq!(buffer.get_filetype(), FileType::Text);
    assert!(!buffer.is_modified());
}

#[test]
fn load_splits_on_line_feeds() {
    let mut buffer = Buffer::default();
    buffer.load("one\ntwo\r\n\nfour");
    assert_eq!(lines_of(&buffer), vec!["one", "two", "", "four"]);
    buffer.load("one\n");
    assert_eq!(lines_of(&buffer), vec!["one"]);
    buffer.load("\n");
    assert_eq!(lines_of(&buffer), vec![""]);
    buffer.load("");
    assert!(buffer.is_empty());
    buffer.load("a\r");
    assert_eq!(lines_of(&buffer), vec!["a\r"]);
    buffer.load("\n\n");
    assert_eq!(lines_of(&buffer), vec!["", ""]);
    buffer.load("a\r\r\nb\rc\n\r\n");
    assert_eq!(lines_of(&buffer), vec!["a\r", "b\rc", ""]);
    buffer.load("\r");
    assert_eq!(lines_of(&buffer), vec!["\r"]);
}

#[test]
fn load_resets_the_modified_flag() {
    let mut buffer = Buffer::default();
    buffer.insert_char('x', loc(0, 0));
    assert!(buffer.is_modified());
    buffer.load("abc");
    assert!(!buffer.is_modified());
}

#[test]
fn load_file_sets_name_and_type() {
    let mut buffer = Buffer::default();
    buffer.load_file("src/main.rs", "fn main() {}\n");
    assert_eq!(buffer.get_filename(), Some(String::from("src/main.rs")));
    assert_eq!(buffer.get_filetype(), FileType::Rust);
    buffer.load_file("notes.txt", "");
    assert_eq!(buffer.get_filetype(), FileType::Text);
}

#[test]
fn insert_into_empty_buffer_makes_one_line() {
    let mut buffer = Buffer::default();
    buffer.insert_char('a', loc(0, 0));
    assert_eq!(buffer.get_n_lines(), 1);
    assert_eq!(lines_of(&buffer), vec!["a"]);
    assert!(buffer.is_modified());
}

#[test]
fn insert_behind_last_line_changes_no_line() {
    let mut buffer = Buffer::default();
    buffer.load("abc");
    buffer.insert_char('x', loc(5, 0));
    assert_eq!(lines_of(&buffer), vec!["abc"]);
    assert!(!buffer.is_modified());
    let mut empty = Buffer::default();
    empty.insert_char('x', loc(3, 0));
    assert_eq!(lines_of(&empty), vec![""]);
}

#[test]
fn delete_and_join() {
    let mut buffer = Buffer::default();
    buffer.load("abc\ndef\nghi");
    buffer.delete_grapheme(loc(1, 1));
    assert_eq!(lines_of(&buffer), vec!["abc", "df", "ghi"]);
    buffer.join_adjacent_rows(0);
    assert_eq!(lines_of(&buffer), vec!["abcdf", "ghi"]);
    assert!(buffer.is_modified());
}

#[test]
fn new_lines_above_and_below() {
    let mut buffer = Buffer::default();
    buffer.load("a\nb");
    buffer.begin_newline_above(loc(0, 0));
    assert_eq!(lines_of(&buffer), vec!["", "a", "b"]);
    buffer.begin_newline_below(loc(2, 0));
    assert_eq!(lines_of(&buffer), vec!["", "a", "b", ""]);
    let mut empty = Buffer::default();
    empty.begin_newline_below(loc(0, 0));
    assert_eq!(lines_of(&empty), vec!["", ""]);
}

#[test]
fn insert_newline_cuts_the_line() {
    let mut buffer = Buffer::default();
    buffer.load("hello\nworld");
    buffer.insert_newline(loc(0, 2));
    assert_eq!(lines_of(&buffer), vec!["he", "llo", "world"]);
    buffer.insert_newline(loc(2, 5));
    assert_eq!(lines_of(&buffer), vec!["he", "llo", "world", ""]);
    let mut empty = Buffer::default();
    empty.insert_newline(loc(0, 0));
    assert_eq!(lines_of(&empty), vec!["", ""]);
}

#[test]
fn search_lists_hits_in_document_order() {
    let mut buffer = Buffer::default();
    buffer.load("abab\nxx\nba");
    assert_eq!(buffer.search("a"), vec![loc(0, 0), loc(0, 2), loc(2, 1)]);
    assert_eq!(buffer.search("b"), vec![loc(0, 1), loc(0, 3), loc(2, 0)]);
    assert_eq!(buffer.search("zz"), vec![]);
    assert_eq!(buffer.search(""), vec![]);
}

#[test]
fn finds_do_not_reach_into_each_other() {
    let mut buffer = Buffer::default();
    buffer.load("aaaa");
    assert_eq!(buffer.search("aa"), vec![loc(0, 0), loc(0, 2)]);
    buffer.load("aaaaa\nababab\n日日日日日");
    assert_eq!(buffer.search("aa"), vec![loc(0, 0), loc(0, 2)]);
    assert_eq!(buffer.search("aba"), vec![loc(1, 0)]);
    assert_eq!(buffer.search("ab"), vec![loc(1, 0), loc(1, 2), loc(1, 4)]);
    assert_eq!(buffer.search("日日"), vec![loc(2, 0), loc(2, 2)]);
    assert_eq!(buffer.search("a"), vec![
        loc(0, 0),
        loc(0, 1),
        loc(0, 2),
        loc(0, 3),
        loc(0, 4),
        loc(1, 0),
        loc(1, 2),
        loc(1, 4),
    ]);
}

#[test]
fn save_request_holds_every_line_with_line_feed() {
    let mut buffer = Buffer::default();
    buffer.load("a\nbc");
    assert!(buffer.save().is_none());
    let request = buffer.save_as_filename("out.txt");
    assert_eq!(request.filename, "out.txt");
    assert_eq!(request.contents, "a\nbc\n");
    buffer.insert_char('x', loc(0, 0));
    buffer.mark_saved("out.txt");
    assert!(!buffer.is_modified());
    let request = buffer.save().unwrap();
    assert_eq!(request.filename, "out.txt");
    assert_eq!(request.contents, "xa\nbc\n");
}

#[test]
fn checks_before_edits() {
    let mut buffer = Buffer::default();
    buffer.load("ab\ncd");
    assert_eq!(buffer.len_after_insert_char('x', loc(0, 1)), Some(3));
    assert_eq!(buffer.len_after_insert_char('x', loc(9, 1)), Some(0));
    assert_eq!(buffer.len_after_delete_grapheme(loc(1, 0)), Some(1));
    assert_eq!(buffer.len_after_delete_grapheme(loc(2, 0)), None);
    assert_eq!(buffer.len_after_join(0), Some(4));
    assert_eq!(buffer.len_after_join(1), None);
    assert!(buffer.can_insert_newline(loc(1, 2)));
    assert!(!buffer.can_insert_newline(loc(1, 3)));
    assert!(!buffer.can_insert_newline(loc(2, 0)));
    assert!(Buffer::can_load("any\ntext"));
}

#[test]
fn file_type_of_names() {
    assert_eq!(FileType::from_filename("a.rs"), FileType::Rust);
    assert_eq!(FileType::from_filename("a.txt"), FileType::Text);
    assert_eq!(FileType::from_filename("rs"), FileType::Text);
    assert_eq!(FileType::from_filename(".rs"), FileType::Text);
    assert_eq!(FileType::from_filename("Makefile"), FileType::Text);
    assert_eq!(FileType::from_filename("notes."), FileType::Text);
    assert_eq!(FileType::from_filename("src.rs/notes"), FileType::Text);
    assert_eq!(FileType::from_filename("src/archive.tar.rs"), FileType::Rust);
    assert_eq!(FileType::from_extension(Some("rs")), FileType::Rust);
    assert_eq!(FileType::from_extension(Some("RS")), FileType::Text);
    assert_eq!(FileType::from_extension(None), FileType::Text);
    assert_eq!(FileType::default(), FileType::Text);
    assert_eq!(FileType::Rust.to_string(), "rust");
    assert_eq!(FileType::Text.to_string(), "text");
}
