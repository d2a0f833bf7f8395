use modal_editor::grapheme::{calc_tab_width, is_displayable, GraphemeWidth};
use modal_editor::line::Line;

#[test]
fn tab_width_reaches_next_stop() {
    assert_eq!(calc_tab_width(0), 8);
    assert_eq!(calc_tab_width(2), 6);
    assert_eq!(calc_tab_width(7), 1);
    assert_eq!(calc_tab_width(8), 8);
}

#[test]
fn width_class_from_columns() {
    assert_eq!(GraphemeWidth::from_usize(0), GraphemeWidth::Half);
    assert_eq!(GraphemeWidth::from_usize(1), GraphemeWidth::Half);
    assert_eq!(GraphemeWidth::from_usize(2), GraphemeWidth::Full);
    assert_eq!(GraphemeWidth::Half.to_usize(), 1);
    assert_eq!(GraphemeWidth::Full.to_usize(), 2);
}

#[test]
fn ascii_line_is_as_wide_as_long() {
    let line = Line::from_str("hello, world");
    assert_eq!(line.len(), 12);
    assert_eq!(line.calc_width_until_grapheme_index(line.len()), 12);
    assert_eq!(line.calc_width_until_grapheme_index(5), 5);
    assert_eq!(line.calc_width_until_grapheme_index(100), 12);
}

#[test]
fn printable_ascii_is_one_grapheme_and_one_column_each() {
    let all: String = (0x20u8..=0x7e).map(char::from).collect();
    assert_eq!(all.len(), 95);
    let line = Line::from_str(&all);
    assert_eq!(line.len(), 95);
    for k in 0..=95usize {
        assert_eq!(line.calc_width_until_grapheme_index(k), k);
    }
    for c in all.chars() {
        let one = Line::from_str(&c.to_string());
        assert_eq!(one.len(), 1);
        assert_eq!(one.calc_width_until_grapheme_index(1), 1);
    }
    assert_eq!(line.len_after_insert('x', 40), Some(96));
    assert_eq!(line.len_after_delete(40), Some(94));
    assert_eq!(line.len_after_delete(95), Some(95));
    assert_eq!(line.len_after_push(&line), Some(190));
    for at in 0..=95usize {
        assert!(line.can_split_off(at));
    }
}

#[test]
fn tab_expands_to_next_stop() {
    let line = Line::from_str("ab\tcd");
    assert_eq!(line.len(), 5);
    assert_eq!(line.calc_width_until_grapheme_index(2), 2);
    assert_eq!(line.calc_width_until_grapheme_index(3), 8);
    assert_eq!(line.calc_width_until_grapheme_index(5), 10);
}

#[test]
fn full_width_graphemes_take_two_columns() {
    let line = Line::from_str("日本語");
    assert_eq!(line.len(), 3);
    assert_eq!(line.byte_len(), 9);
    assert_eq!(line.calc_width_until_grapheme_index(3), 6);
}

#[test]
fn visible_slice_marks_cut_graphemes() {
    let line = Line::from_str("日本語");
    assert_eq!(line.get_visible_graphemes(0, 6), "日本語");
    assert_eq!(line.get_visible_graphemes(0, 5), "日本>");
    assert_eq!(line.get_visible_graphemes(1, 6), "<本語");
    assert_eq!(line.get_visible_graphemes(1, 5), "<本>");
    assert_eq!(line.get_visible_graphemes(2, 4), "本");
    assert_eq!(line.get_visible_graphemes(0, 0), "");
}

#[test]
fn visible_slice_of_tab_line() {
    let line = Line::from_str("ab\tcd");
    assert_eq!(line.get_visible_graphemes(0, 10), "ab\tcd");
    assert_eq!(line.get_visible_graphemes(0, 5), "ab>");
    assert_eq!(line.get_visible_graphemes(3, 10), "<cd");
}

#[test]
fn insert_and_delete() {
    let mut line = Line::from_str("ac");
    line.insert_char('b', 1);
    assert_eq!(line.to_string(), "abc");
    line.insert_char('d', 3);
    assert_eq!(line.to_string(), "abcd");
    line.insert_char('e', 100);
    assert_eq!(line.to_string(), "abcde");
    line.delete_grapheme(0);
    assert_eq!(line.to_string(), "bcde");
    line.delete_grapheme(100);
    assert_eq!(line.to_string(), "bcde");
    assert_eq!(line.len(), 4);
}

#[test]
fn insert_between_multibyte_graphemes() {
    let mut line = Line::from_str("日語");
    line.insert_char('本', 1);
    assert_eq!(line.to_string(), "日本語");
    line.delete_grapheme(1);
    assert_eq!(line.to_string(), "日語");
}

#[test]
fn split_then_join_gives_text_back() {
    for at in 0..=5usize {
        let mut line = Line::from_str("ab\t日d");
        let rest = line.split_off(at);
        assert_eq!(line.len(), at);
        assert_eq!(rest.len(), 5 - at);
        line.push_line(&rest);
        assert_eq!(line.to_string(), "ab\t日d");
    }
}

#[test]
fn split_at_end_leaves_empty_rest() {
    let mut line = Line::from_str("abc");
    let rest = line.split_off(3);
    assert!(rest.is_empty());
    assert_eq!(line.to_string(), "abc");
}

#[test]
fn search_finds_first_occurrence_from_start() {
    let line = Line::from_str("abcabc");
    assert_eq!(line.search("bc", 0), Some(1));
    assert_eq!(line.search("bc", 1), Some(1));
    assert_eq!(line.search("bc", 2), Some(4));
    assert_eq!(line.search("bc", 5), None);
    assert_eq!(line.search("bc", 6), None);
    assert_eq!(line.search("x", 0), None);
    assert_eq!(line.search("", 0), None);
    assert_eq!(Line::from_str("").search("a", 0), None);
}

#[test]
fn search_goes_on_behind_the_occurrence() {
    let line = Line::from_str("aaaa");
    assert_eq!(line.search_on("aa", 0), Some((0, 2)));
    assert_eq!(line.search_on("aa", 1), Some((1, 3)));
    assert_eq!(line.search_on("aa", 2), Some((2, 4)));
    assert_eq!(line.search_on("aa", 3), None);
    assert_eq!(line.search_on("aa", 4), None);
    assert_eq!(line.search_on("", 0), None);
    let wide = Line::from_str("a日本b日本");
    assert_eq!(wide.search_on("日本", 0), Some((1, 3)));
    assert_eq!(wide.search_on("日本", 3), Some((4, 6)));
    let joined = Line::from_str("\r\n\n");
    assert_eq!(joined.len(), 2);
    assert_eq!(joined.search_on("\n", 0), Some((1, 2)));
}

#[test]
fn search_counts_graphemes_not_bytes() {
    let line = Line::from_str("日本語日本語");
    assert_eq!(line.search("本", 0), Some(1));
    assert_eq!(line.search("本", 2), Some(4));
}

#[test]
fn occurrences_do_not_overlap() {
    let line = Line::from_str("aaaa");
    assert_eq!(line.search_all_occurence("aa"), vec![(0, 2), (2, 4)]);
    assert_eq!(line.search_all_occurence(""), vec![]);
    assert_eq!(Line::from_str("aaaaa").search_all_occurence("aa"), vec![(0, 2), (2, 4)]);
}

#[test]
fn word_pieces_cover_the_line() {
    let line = Line::from_str("let x = 12;");
    assert_eq!(line.split_word_bound_indices(), vec![0, 3, 4, 5, 6, 7, 8, 10]);
}

#[test]
fn wide_clusters_cannot_be_laid_out() {
    assert!(is_displayable("plain"));
    assert!(is_displayable(""));
    assert!(Line::try_from_str("plain").is_some());
}

#[test]
fn nth_grapheme() {
    let line = Line::from_str("a\tb");
    assert!(line.get_nth_grapheme(1).unwrap().is_tab());
    assert!(!line.get_nth_grapheme(0).unwrap().is_tab());
    assert_eq!(line.get_nth_grapheme(2).unwrap().to_string(), "b");
    assert!(line.get_nth_grapheme(3).is_none());
    assert_eq!(line.get_nth_grapheme(1).unwrap().get_width_at_current_pos(3), 5);
}
