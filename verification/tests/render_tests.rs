use modal_editor::annotated_string::{AnnotatedString, Style};
use modal_editor::editor::RenderContext;
use modal_editor::editor_command::Direction;
use modal_editor::filetype::FileType;
use modal_editor::highlighter::{HighlighterBundler, LineHighlighter};
use modal_editor::line::Line;
use modal_editor::line_view::LineView;
use modal_editor::terminal::{Position, Size};
use modal_editor::window::Window;

fn context(pattern: Option<&str>, file_type: FileType) -> RenderContext {
    RenderContext { search_pattern: pattern.map(String::from), file_type }
}

fn annots(s: &AnnotatedString) -> Vec<(Style, usize, usize)> {
    s.get_annotations().iter().map(|a| (a.style, a.start_idx, a.end_idx)).collect()
}

fn rows(w: &mut Window, ctx: &RenderContext) -> Vec<String> {
    w.set_needs_redraw();
    let frame = w.render(ctx).unwrap();
    frame.rows.iter().map(|row| String::from(row.get_str())).collect()
}

#[test]
fn two_line_document_in_narrow_window() {
    let mut w = Window::new(Size { height: 5, width: 5 }, 2);
    w.load_file("doc.txt", "ab\tcd\n日本語");
    let ctx = context(None, FileType::Text);
    assert_eq!(rows(&mut w, &ctx), vec!["ab>", "日本>", "~"]);
    let tabbed = Line::from_str("ab\tcd");
    assert_eq!(tabbed.calc_width_until_grapheme_index(2), 2);
    assert_eq!(tabbed.calc_width_until_grapheme_index(3), 8);
    let wide = Line::from_str("日本語");
    assert_eq!(wide.get_visible_graphemes(0, 1), ">");
    assert_eq!(wide.get_visible_graphemes(0, 2), "日");
    assert_eq!(wide.get_visible_graphemes(0, 3), "日>");
    assert_eq!(wide.get_visible_graphemes(0, 5), "日本>");
    assert_eq!(tabbed.get_visible_graphemes(0, 8), "ab\t");
    assert_eq!(tabbed.get_visible_graphemes(0, 7), "ab>");
}

#[test]
fn render_is_skipped_when_nothing_changed() {
    let mut w = Window::new(Size { height: 4, width: 40 }, 2);
    w.load_file("doc.txt", "abc");
    let ctx = context(None, FileType::Text);
    assert!(w.render(&ctx).is_some());
    assert!(w.render(&ctx).is_none());
    w.handle_move(Direction::Right, false);
    assert!(w.render(&ctx).is_none());
    w.set_needs_redraw();
    let frame = w.render(&ctx).unwrap();
    assert_eq!(frame.rows.len(), 2);
    assert!(frame.banner.is_none());
}

#[test]
fn empty_document_shows_the_banner() {
    let mut w = Window::new(Size { height: 11, width: 41 }, 2);
    let ctx = context(None, FileType::Text);
    let frame = w.render(&ctx).unwrap();
    assert_eq!(frame.rows.len(), 9);
    assert!(frame.rows.iter().all(|row| row.get_str() == "~"));
    let banner = frame.banner.unwrap();
    assert_eq!(banner.message, "modal_editor editor -- v0.1.0");
    assert_eq!(banner.position, Position { row: 3, col: 6 });
}

#[test]
fn window_scrolled_right_cuts_on_the_left() {
    let mut w = Window::new(Size { height: 3, width: 4 }, 2);
    w.load_file("doc.txt", "日本語abc");
    for _ in 0..5 {
        w.handle_move(Direction::Right, false);
    }
    let ctx = context(None, FileType::Text);
    assert_eq!(w.get_absolute_position(), Position { row: 0, col: 8 });
    assert_eq!(rows(&mut w, &ctx), vec!["<abc"]);
}

#[test]
fn highlights_are_clipped_to_what_is_shown() {
    let ctx = context(Some("本語a"), FileType::Text);
    let mut bundler = HighlighterBundler::new(&ctx);
    let line = Line::from_str("日本語abc");
    bundler.highlight_line(&line);
    let asked = LineHighlighter::new(&bundler, 0);
    let whole = LineView::new(&line, 0, 80).build_rendered_str(&asked);
    assert_eq!(whole.get_str(), "日本語abc");
    assert_eq!(annots(&whole), vec![(Style::SearchHit, 3, 10)]);
    let cut = LineView::new(&line, 3, 8).build_rendered_str(&asked);
    assert_eq!(cut.get_str(), "<語ab");
    assert_eq!(annots(&cut), vec![(Style::SearchHit, 1, 5)]);
    let right = LineView::new(&line, 0, 5).build_rendered_str(&asked);
    assert_eq!(right.get_str(), "日本>");
    assert_eq!(annots(&right), vec![(Style::SearchHit, 3, 6)]);
    let none = LineView::new(&line, 20, 30).build_rendered_str(&asked);
    assert_eq!(none.get_str(), "");
    assert!(annots(&none).is_empty());
}

#[test]
fn rendered_rows_carry_syntax_highlights() {
    let mut w = Window::new(Size { height: 4, width: 20 }, 2);
    w.load_file("main.rs", "fn f() {}\n// x");
    let ctx = context(None, FileType::Rust);
    let frame = w.render(&ctx).unwrap();
    assert_eq!(annots(&frame.rows[0]), vec![(Style::Keywords, 0, 2)]);
    assert_eq!(annots(&frame.rows[1]), vec![(Style::Comment, 0, 4)]);
    let segments = frame.rows[0].into_segments();
    assert_eq!(segments[0].style, Some(Style::Keywords));
    assert_eq!(segments[1].style, Some(Style::Keywords));
    assert_eq!(segments[2].style, None);
}

#[test]
fn visible_parts_of_a_line() {
    let line = Line::from_str("日本語");
    let parts = line.visible_parts(1, 5);
    assert!(parts.left_cut);
    assert!(parts.right_cut);
    assert_eq!((parts.core_start, parts.core_end), (3, 6));
    let parts = line.visible_parts(0, 6);
    assert!(!parts.left_cut);
    assert!(!parts.right_cut);
    assert_eq!((parts.core_start, parts.core_end), (0, 9));
}
