use modal_editor::annotated_string::Style;
use modal_editor::buffer::Buffer;
use modal_editor::editor::RenderContext;
use modal_editor::filetype::FileType;
use modal_editor::highlighter::rust::{
    is_keyword, is_multi_line_comment_end, is_multi_line_comment_start, is_number,
    is_single_line_comment_start, is_type_name, is_variant_name,
};
use modal_editor::highlighter::{create_syntax_highlighter, HighlighterBundler, LineHighlighter};
use modal_editor::line::Line;

fn context(pattern: Option<&str>, file_type: FileType) -> RenderContext {
    RenderContext { search_pattern: pattern.map(String::from), file_type }
}

fn annots(bundler: &HighlighterBundler, line_idx: usize) -> Vec<(Style, usize, usize)> {
    bundler
        .get_annotations(line_idx)
        .iter()
        .map(|a| (a.style, a.start_idx, a.end_idx))
        .collect()
}

#[test]
fn word_classes() {
    assert!(is_number("123"));
    assert!(!is_number("12a"));
    assert!(is_keyword("fn"));
    assert!(is_keyword("match"));
    assert!(!is_keyword("fnord"));
    assert!(is_type_name("usize"));
    assert!(is_type_name("Vec"));
    assert!(!is_type_name("vec"));
    assert!(is_variant_name("None"));
    assert!(!is_variant_name("none"));
    assert!(is_single_line_comment_start("// x"));
    assert!(!is_single_line_comment_start("/ x"));
    assert!(is_multi_line_comment_start("/* x"));
    assert!(is_multi_line_comment_end("*/ x"));
    assert!(!is_multi_line_comment_end("*"));
}

#[test]
fn search_hits_do_not_overlap() {
    let ctx = context(Some("aa"), FileType::Text);
    let mut bundler = HighlighterBundler::new(&ctx);
    bundler.highlight_line(&Line::from_str("aaaa"));
    assert_eq!(annots(&bundler, 0), vec![(Style::SearchHit, 0, 2), (Style::SearchHit, 2, 4)]);
}

#[test]
fn no_pattern_no_search_hits() {
    let ctx = context(None, FileType::Text);
    let mut bundler = HighlighterBundler::new(&ctx);
    bundler.highlight_line(&Line::from_str("aaaa"));
    assert!(annots(&bundler, 0).is_empty());
    let empty = context(Some(""), FileType::Text);
    let mut bundler = HighlighterBundler::new(&empty);
    bundler.highlight_line(&Line::from_str("aaaa"));
    assert!(annots(&bundler, 0).is_empty());
}

#[test]
fn plain_text_has_no_syntax_highlighter() {
    assert!(create_syntax_highlighter(FileType::Text).is_none());
    assert!(create_syntax_highlighter(FileType::Rust).is_some());
    let ctx = context(None, FileType::Text);
    let mut bundler = HighlighterBundler::new(&ctx);
    bundler.highlight_line(&Line::from_str("let x = 1;"));
    assert!(annots(&bundler, 0).is_empty());
}

#[test]
fn rust_words_are_classified() {
    let ctx = context(None, FileType::Rust);
    let mut bundler = HighlighterBundler::new(&ctx);
    bundler.highlight_line(&Line::from_str("let x: usize = 12; // done"));
    assert_eq!(
        annots(&bundler, 0),
        vec![
            (Style::Keywords, 0, 3),
            (Style::TypeName, 7, 12),
            (Style::Digit, 15, 17),
            (Style::Comment, 19, 26),
        ]
    );
}

#[test]
fn variants_and_strings() {
    let ctx = context(None, FileType::Rust);
    let mut bundler = HighlighterBundler::new(&ctx);
    bundler.highlight_line(&Line::from_str("Some(\"hi\")"));
    assert_eq!(
        annots(&bundler, 0),
        vec![
            (Style::VarinatName, 0, 4),
            (Style::String, 5, 6),
            (Style::String, 6, 8),
            (Style::String, 8, 9),
        ]
    );
}

#[test]
fn block_comment_runs_over_lines() {
    let ctx = context(None, FileType::Rust);
    let mut bundler = HighlighterBundler::new(&ctx);
    bundler.highlight_line(&Line::from_str("a /* b"));
    bundler.highlight_line(&Line::from_str("fn */ fn"));
    assert_eq!(
        annots(&bundler, 0),
        vec![(Style::Comment, 2, 4), (Style::Comment, 3, 4), (Style::Comment, 4, 5), (Style::Comment, 5, 6)]
    );
    assert_eq!(
        annots(&bundler, 1),
        vec![
            (Style::Comment, 0, 2),
            (Style::Comment, 2, 3),
            (Style::Comment, 3, 5),
            (Style::Keywords, 6, 8),
        ]
    );
}

#[test]
fn string_literal_runs_over_lines() {
    let ctx = context(None, FileType::Rust);
    let mut bundler = HighlighterBundler::new(&ctx);
    bundler.highlight_line(&Line::from_str("\""));
    bundler.highlight_line(&Line::from_str("fn\" fn"));
    assert_eq!(annots(&bundler, 0), vec![(Style::String, 0, 1)]);
    assert_eq!(
        annots(&bundler, 1),
        vec![(Style::String, 0, 2), (Style::String, 2, 3), (Style::Keywords, 4, 6)]
    );
    let mut wide = HighlighterBundler::new(&ctx);
    wide.highlight_line(&Line::from_str("\"日\"/*日"));
    assert_eq!(
        annots(&wide, 0),
        vec![
            (Style::String, 0, 1),
            (Style::String, 1, 4),
            (Style::String, 4, 5),
            (Style::Comment, 5, 7),
            (Style::Comment, 6, 7),
            (Style::Comment, 7, 10),
        ]
    );
}

#[test]
fn search_annotations_come_before_syntax_annotations() {
    let ctx = context(Some("fn"), FileType::Rust);
    let mut bundler = HighlighterBundler::new(&ctx);
    let mut buffer = Buffer::default();
    buffer.load("x\nfn f");
    buffer.highlight(&mut bundler);
    assert!(annots(&bundler, 0).is_empty());
    assert_eq!(annots(&bundler, 1), vec![(Style::SearchHit, 0, 2), (Style::Keywords, 0, 2)]);
    let asked = LineHighlighter::new(&bundler, 1);
    assert_eq!(asked.get_annotations().len(), 2);
}
