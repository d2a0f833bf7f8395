use modal_editor::annotated_string::{AnnotatedString, Annotation, Color, Style};

fn annots(s: &AnnotatedString) -> Vec<(Style, usize, usize)> {
    s.get_annotations().iter().map(|a| (a.style, a.start_idx, a.end_idx)).collect()
}

#[test]
fn substr_clips_and_rebases() {
    let mut s = AnnotatedString::from_str("0123456789");
    s.add_annotation(Annotation::new(Style::Digit, 0, 2));
    s.add_annotation(Annotation::new(Style::Keywords, 2, 5));
    s.add_annotation(Annotation::new(Style::String, 4, 6));
    s.add_annotation(Annotation::new(Style::Comment, 6, 9));
    s.add_annotation(Annotation::new(Style::TypeName, 8, 10));
    s.add_annotation(Annotation::new(Style::SearchHit, 0, 10));
    let sub = s.substr(3, 8);
    assert_eq!(sub.get_str(), "34567");
    assert_eq!(
        annots(&sub),
        vec![
            (Style::Keywords, 0, 2),
            (Style::String, 1, 3),
            (Style::Comment, 3, 5),
            (Style::SearchHit, 0, 5),
        ]
    );
}

#[test]
fn substr_of_empty_range_keeps_nothing() {
    let mut s = AnnotatedString::from_str("abcdef");
    s.add_annotation(Annotation::new(Style::Digit, 0, 6));
    let sub = s.substr(3, 3);
    assert_eq!(sub.get_str(), "");
    assert!(sub.get_annotations().is_empty());
}

#[test]
fn substr_at_multibyte_boundaries() {
    let mut s = AnnotatedString::from_str("日本語");
    s.add_annotation(Annotation::new(Style::String, 0, 9));
    let sub = s.substr(3, 6);
    assert_eq!(sub.get_str(), "本");
    assert_eq!(annots(&sub), vec![(Style::String, 0, 3)]);
}

#[test]
fn concat_rebases_right_operand() {
    let mut left = AnnotatedString::from_str("<");
    let mut right = AnnotatedString::from_str("abc");
    right.add_annotation(Annotation::new(Style::Digit, 1, 3));
    left.add_annotation(Annotation::new(Style::Comment, 0, 1));
    left.push_annot_str(&right);
    assert_eq!(left.get_str(), "<abc");
    assert_eq!(annots(&left), vec![(Style::Comment, 0, 1), (Style::Digit, 2, 4)]);
}

#[test]
fn segments_take_style_of_last_covering_annotation() {
    let mut s = AnnotatedString::from_str("a日b");
    s.add_annotation(Annotation::new(Style::Digit, 0, 4));
    s.add_annotation(Annotation::new(Style::Comment, 1, 4));
    let segments = s.into_segments();
    let got: Vec<(Option<Style>, &str)> =
        segments.iter().map(|seg| (seg.style, seg.string.as_str())).collect();
    assert_eq!(
        got,
        vec![(Some(Style::Digit), "a"), (Some(Style::Comment), "日"), (None, "b")]
    );
    assert_eq!(s.into_segments().len(), 3);
    assert_eq!(s.style_of_byte(0), Some(Style::Digit));
    assert_eq!(s.style_of_byte(4), None);
}

#[test]
fn segments_give_the_text_back() {
    for text in ["", "abc", "ab\tcd", "日本語", "e\u{301}x\r\ny", "क्षि 👨\u{200d}👩 ok"] {
        let s = AnnotatedString::from_str(text);
        let joined: String = s.into_segments().iter().map(|seg| seg.string.as_str()).collect();
        assert_eq!(joined, text);
        assert!(s.into_segments().iter().all(|seg| !seg.string.is_empty()));
    }
}

#[test]
fn segments_of_empty_string() {
    assert!(AnnotatedString::from_str("").into_segments().is_empty());
    assert!(AnnotatedString::default().get_str().is_empty());
}

#[test]
fn drawing_options_of_styles() {
    let hit = Style::SearchHit.get_drawing_options();
    assert_eq!(hit.foreground_color, Color::White);
    assert_eq!(hit.background_color, Color::Rgb { r: 104, g: 83, b: 0 });
    let digit = Style::Digit.get_drawing_options();
    assert_eq!(digit.foreground_color, Color::Rgb { r: 234, g: 156, b: 88 });
    assert_eq!(digit.background_color, Color::Reset);
    assert_eq!(
        Style::String.get_drawing_options().foreground_color,
        Color::Rgb { r: 136, g: 178, b: 152 }
    );
    assert_eq!(
        Style::Keywords.get_drawing_options().foreground_color,
        Color::Rgb { r: 151, g: 118, b: 216 }
    );
    assert_eq!(
        Style::TypeName.get_drawing_options().foreground_color,
        Color::Rgb { r: 215, g: 189, b: 108 }
    );
    assert_eq!(
        Style::VarinatName.get_drawing_options().foreground_color,
        Color::Rgb { r: 234, g: 156, b: 88 }
    );
    assert_eq!(
        Style::Comment.get_drawing_options().foreground_color,
        Color::Rgb { r: 116, g: 128, b: 145 }
    );
}
