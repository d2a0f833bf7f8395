//! Text with style spans laid over it.

use vstd::prelude::*;
use vstd::string::*;
use vstd::utf8::*;

use crate::grapheme::{
    grapheme_offsets, grapheme_starts, is_segmentation, joined_pieces, lemma_piece_bounds,
    lemma_pieces_cover, piece,
};
use crate::text::{
    byte_len, is_boundary, lemma_boundary_in_concat, lemma_boundary_in_range,
    lemma_text_range_bytes, lemma_utf8_concat, substring, text_range, utf8,
};

verus! {

/// What a span of text is highlighted as.
#[derive(Clone, Copy, Debug, PartialEq, Eq, Structural)]
pub enum Style {
    SearchHit,
    Digit,
    String,
    Keywords,
    TypeName,
    VarinatName,
    Comment,
}

/// A terminal color.
#[derive(Clone, Copy, Debug, PartialEq, Eq, Structural)]
pub enum Color {
    Reset,
    White,
    Rgb { r: u8, g: u8, b: u8 },
}

/// The colors in which a style is drawn.
#[derive(Clone, Copy, Debug, PartialEq, Eq, Structural)]
pub struct DrawingOptions {
    pub foreground_color: Color,
    pub background_color: Color,
}

impl Style {
    /// The colors of each style.
    pub open spec fn drawing_options(self) -> DrawingOptions {
        match self {
            Style::SearchHit => DrawingOptions {
                foreground_color: Color::White,
                background_color: Color::Rgb { r: 104, g: 83, b: 0 },
            },
            Style::Digit => DrawingOptions {
                foreground_color: Color::Rgb { r: 234, g: 156, b: 88 },
                background_color: Color::Reset,
            },
            Style::String => DrawingOptions {
                foreground_color: Color::Rgb { r: 136, g: 178, b: 152 },
                background_color: Color::Reset,
            },
            Style::Keywords => DrawingOptions {
                foreground_color: Color::Rgb { r: 151, g: 118, b: 216 },
                background_color: Color::Reset,
            },
            Style::TypeName => DrawingOptions {
                foreground_color: Color::Rgb { r: 215, g: 189, b: 108 },
                background_color: Color::Reset,
            },
            Style::VarinatName => DrawingOptions {
                foreground_color: Color::Rgb { r: 234, g: 156, b: 88 },
                background_color: Color::Reset,
            },
            Style::Comment => DrawingOptions {
                foreground_color: Color::Rgb { r: 116, g: 128, b: 145 },
                background_color: Color::Reset,
            },
        }
    }

    /// The colors in which the style is drawn.
    pub fn get_drawing_options(&self) -> (r: DrawingOptions)
        ensures
            r == self.drawing_options(),
    {
        match self {
            Self::SearchHit => DrawingOptions {
                foreground_color: Color::White,
                background_color: Color::Rgb { r: 104, g: 83, b: 0 },
            },
            Self::Digit => DrawingOptions {
                foreground_color: Color::Rgb { r: 234, g: 156, b: 88 },
                background_color: Color::Reset,
            },
            Self::String => DrawingOptions {
                foreground_color: Color::Rgb { r: 136, g: 178, b: 152 },
                background_color: Color::Reset,
            },
            Self::Keywords => DrawingOptions {
                foreground_color: Color::Rgb { r: 151, g: 118, b: 216 },
                background_color: Color::Reset,
            },
            Self::TypeName => DrawingOptions {
                foreground_color: Color::Rgb { r: 215, g: 189, b: 108 },
                background_color: Color::Reset,
            },
            Self::VarinatName => DrawingOptions {
                foreground_color: Color::Rgb { r: 234, g: 156, b: 88 },
                background_color: Color::Reset,
            },
            Self::Comment => DrawingOptions {
                foreground_color: Color::Rgb { r: 116, g: 128, b: 145 },
                background_color: Color::Reset,
            },
        }
    }
}

/// A style laid over the bytes `[start_idx, end_idx)` of a text.
#[derive(Clone, Copy, Debug, PartialEq, Eq, Structural)]
pub struct Annotation {
    pub style: Style,
    pub start_idx: usize,
    pub end_idx: usize,
}

impl Annotation {
    /// The style `style` laid over the bytes `[start_idx, end_idx)`.
    pub fn new(style: Style, start_idx: usize, end_idx: usize) -> (r: Self)
        ensures
            r == (Annotation { style, start_idx, end_idx }),
    {
        Self { style, start_idx, end_idx }
    }

    /// The annotation reaches into the bytes `[start, end)`, of which there is at least one.
    pub open spec fn overlaps(self, start: int, end: int) -> bool {
        start < end && start < self.end_idx && self.start_idx < end
    }

    /// The part of the annotation inside the bytes `[start, end)`, counted from `start`.
    pub open spec fn clipped(self, start: int, end: int) -> Annotation {
        Annotation {
            style: self.style,
            start_idx: (if self.start_idx <= start {
                0
            } else {
                self.start_idx - start
            }) as usize,
            end_idx: (if self.end_idx >= end {
                end - start
            } else {
                self.end_idx - start
            }) as usize,
        }
    }

    /// The annotation moved `by` bytes to the right.
    pub open spec fn shifted(self, by: int) -> Annotation {
        Annotation {
            style: self.style,
            start_idx: (self.start_idx + by) as usize,
            end_idx: (self.end_idx + by) as usize,
        }
    }

    /// Both ends of the annotation are character boundaries of `text`.
    pub open spec fn within(self, text: Seq<char>) -> bool {
        is_boundary(text, self.start_idx as int) && is_boundary(text, self.end_idx as int)
    }

    /// The annotation covers byte `idx`.
    pub open spec fn covers(self, idx: int) -> bool {
        self.start_idx <= idx < self.end_idx
    }
}

/// The first `n` annotations clipped to the bytes `[start, end)`: those that
/// reach into the range, in their order, each cut to the range and counted
/// from `start`.
pub open spec fn clip_all(annots: Seq<Annotation>, start: int, end: int, n: int) -> Seq<Annotation>
    decreases n,
{
    if n <= 0 {
        seq![]
    } else if annots[n - 1].overlaps(start, end) {
        clip_all(annots, start, end, n - 1).push(annots[n - 1].clipped(start, end))
    } else {
        clip_all(annots, start, end, n - 1)
    }
}

/// Every clipped annotation lies inside the range it was clipped to, and
/// is the clipped form of an annotation that reached into the range.
pub proof fn lemma_clip_all(annots: Seq<Annotation>, start: int, end: int, n: int)
    requires
        0 <= start <= end <= usize::MAX,
        0 <= n <= annots.len(),
    ensures
        forall|i: int|
            0 <= i < clip_all(annots, start, end, n).len() ==> {
                let a = #[trigger] clip_all(annots, start, end, n)[i];
                &&& a.start_idx < end - start
                &&& 0 < a.end_idx <= end - start
                &&& exists|j: int|
                    0 <= j < n && annots[j].overlaps(start, end) && a == annots[j].clipped(
                        start,
                        end,
                    )
            },
    decreases n,
{
    if n > 0 {
        lemma_clip_all(annots, start, end, n - 1);
        let before = clip_all(annots, start, end, n - 1);
        let now = clip_all(annots, start, end, n);
        assert forall|i: int| 0 <= i < now.len() implies {
            let a = #[trigger] now[i];
            &&& a.start_idx < end - start
            &&& 0 < a.end_idx <= end - start
            &&& exists|j: int|
                0 <= j < n && annots[j].overlaps(start, end) && a == annots[j].clipped(start, end)
        } by {
            if i < before.len() {
                assert(now[i] == before[i]);
                let j = choose|j: int|
                    0 <= j < n - 1 && annots[j].overlaps(start, end) && before[i]
                        == annots[j].clipped(start, end);
                assert(0 <= j < n && annots[j].overlaps(start, end) && now[i]
                    == annots[j].clipped(start, end));
            } else {
                assert(annots[n - 1].overlaps(start, end));
                assert(now[i] == annots[n - 1].clipped(start, end));
            }
        }
    }
}

/// The first `n` annotations, each moved `by` bytes to the right.
pub open spec fn shift_all(annots: Seq<Annotation>, by: int, n: int) -> Seq<Annotation> {
    Seq::new(if n <= 0 { 0nat } else { n as nat }, |i: int| annots[i].shifted(by))
}

/// The style of the last annotation among the first `n` that covers byte `idx`.
pub open spec fn style_at(annots: Seq<Annotation>, idx: int, n: int) -> Option<Style>
    decreases n,
{
    if n <= 0 {
        None
    } else if annots[n - 1].covers(idx) {
        Some(annots[n - 1].style)
    } else {
        style_at(annots, idx, n - 1)
    }
}

/// A piece of text to draw in one style, or in none.
#[derive(Debug)]
pub struct Segment {
    pub style: Option<Style>,
    pub string: String,
}

/// What contracts say of an annotated string.
pub struct AnnotatedStringView {
    pub text: Seq<char>,
    pub annots: Seq<Annotation>,
}

/// Both ends of each of the annotations `annots` are character boundaries of `text`.
pub open spec fn all_within(annots: Seq<Annotation>, text: Seq<char>) -> bool {
    forall|i: int| 0 <= i < annots.len() ==> (#[trigger] annots[i]).within(text)
}

impl AnnotatedStringView {
    /// Both ends of each annotation are character boundaries of the text.
    pub open spec fn wf(self) -> bool {
        all_within(self.annots, self.text)
    }
}

/// Annotations clipped to a piece of a text begin and end at character
/// boundaries of the piece.
pub proof fn lemma_clip_all_within(
    annots: Seq<Annotation>,
    text: Seq<char>,
    start: int,
    end: int,
    n: int,
)
    requires
        0 <= start <= end <= usize::MAX,
        0 <= n <= annots.len(),
        is_boundary(text, start),
        is_boundary(text, end),
        all_within(annots, text),
    ensures
        all_within(clip_all(annots, start, end, n), text_range(text, start, end)),
    decreases n,
{
    if n > 0 {
        lemma_clip_all_within(annots, text, start, end, n - 1);
        let a = annots[n - 1];
        assert(a.within(text));
        if a.overlaps(start, end) {
            lemma_boundary_in_range(text, start, end, start);
            lemma_boundary_in_range(text, start, end, end);
            if a.start_idx > start {
                lemma_boundary_in_range(text, start, end, a.start_idx as int);
            }
            if a.end_idx < end {
                lemma_boundary_in_range(text, start, end, a.end_idx as int);
            }
            assert(a.clipped(start, end).within(text_range(text, start, end)));
        }
    }
}

/// A string with a collection of annotations over it.
#[derive(Debug)]
pub struct AnnotatedString {
    string: String,
    annots: Vec<Annotation>,
}

impl View for AnnotatedString {
    type V = AnnotatedStringView;

    closed spec fn view(&self) -> AnnotatedStringView {
        AnnotatedStringView { text: self.string@, annots: self.annots@ }
    }
}

impl Default for AnnotatedString {
    fn default() -> (r: Self)
        ensures
            r@.wf(),
            r@.text == Seq::<char>::empty(),
            r@.annots == Seq::<Annotation>::empty(),
    {
        Self { string: String::new(), annots: Vec::new() }
    }
}

impl AnnotatedString {
    /// The text `s` without annotations.
    pub fn from_str(s: &str) -> (r: Self)
        ensures
            r@.wf(),
            r@.text == s@,
            r@.annots == Seq::<Annotation>::empty(),
    {
        Self { string: String::from_str(s), annots: Vec::new() }
    }

    /// Adds `annot`, which begins and ends at character boundaries of the
    /// text, behind the annotations that the string has.
    pub fn add_annotation(&mut self, annot: Annotation)
        requires
            old(self)@.wf(),
            annot.within(old(self)@.text),
        ensures
            final(self)@.wf(),
            final(self)@.text == old(self)@.text,
            final(self)@.annots == old(self)@.annots.push(annot),
    {
        self.annots.push(annot);
    }

    /// The text.
    pub fn get_str(&self) -> (r: &str)
        ensures
            r@ == self@.text,
    {
        self.string.as_str()
    }

    /// The annotations, in the order in which they were added.
    pub fn get_annotations(&self) -> (r: &Vec<Annotation>)
        ensures
            r@ == self@.annots,
    {
        &self.annots
    }

    /// The bytes `[start, end)` of the string, with the annotations that
    /// reach into them, each clipped to the range and counted from `start`.
    pub fn substr(&self, start: usize, end: usize) -> (r: Self)
        requires
            self@.wf(),
            start <= end,
            is_boundary(self@.text, start as int),
            is_boundary(self@.text, end as int),
        ensures
            r@.wf(),
            r@.text == text_range(self@.text, start as int, end as int),
            utf8(r@.text).len() == end - start,
            r@.annots == clip_all(
                self@.annots,
                start as int,
                end as int,
                self@.annots.len() as int,
            ),
            forall|i: int|
                0 <= i < r@.annots.len() ==> {
                    let a = #[trigger] r@.annots[i];
                    &&& a.start_idx < end - start
                    &&& 0 < a.end_idx <= end - start
                    &&& exists|j: int|
                        0 <= j < self@.annots.len() && self@.annots[j].overlaps(
                            start as int,
                            end as int,
                        ) && a == self@.annots[j].clipped(start as int, end as int)
                },
    {
        let sub = String::from_str(substring(self.string.as_str(), start, end));
        let mut annots: Vec<Annotation> = Vec::new();
        let n: usize = self.annots.len();
        let mut i: usize = 0;
        while i < n
            invariant
                i <= n,
                n == self.annots.len(),
                start <= end,
                annots@ == clip_all(self@.annots, start as int, end as int, i as int),
            decreases n - i,
        {
            let annot = self.annots[i];
            if start < end && start < annot.end_idx && annot.start_idx < end {
                let clipped_start: usize = if annot.start_idx <= start {
                    0
                } else {
                    annot.start_idx - start
                };
                let clipped_end: usize = if annot.end_idx >= end {
                    end - start
                } else {
                    annot.end_idx - start
                };
                annots.push(Annotation::new(annot.style, clipped_start, clipped_end));
            }
            i += 1;
        }
        proof {
            lemma_clip_all(self@.annots, start as int, end as int, n as int);
            lemma_clip_all_within(self@.annots, self@.text, start as int, end as int, n as int);
            lemma_text_range_bytes(self@.text, start as int, end as int);
        }
        Self { string: sub, annots }
    }

    /// Appends `rhs`: its text behind the text, and its annotations, moved
    /// by the byte length that the text had, behind the annotations.
    pub fn push_annot_str(&mut self, rhs: &AnnotatedString)
        requires
            old(self)@.wf(),
            rhs@.wf(),
        ensures
            final(self)@.wf(),
            final(self)@.text == old(self)@.text + rhs@.text,
            final(self)@.annots == old(self)@.annots + shift_all(
                rhs@.annots,
                utf8(old(self)@.text).len() as int,
                rhs@.annots.len() as int,
            ),
    {
        let orig_len: usize = byte_len(self.string.as_str());
        self.string.append(rhs.string.as_str());
        let new_len: usize = byte_len(self.string.as_str());
        proof {
            lemma_utf8_concat(old(self)@.text, rhs@.text);
            assert forall|k: int| 0 <= k < self@.annots.len() implies (
            #[trigger] self@.annots[k]).within(self@.text) by {
                let a = old(self)@.annots[k];
                assert(a.within(old(self)@.text));
                lemma_boundary_in_concat(old(self)@.text, rhs@.text, a.start_idx as int);
                lemma_boundary_in_concat(old(self)@.text, rhs@.text, a.end_idx as int);
            }
        }
        let n: usize = rhs.annots.len();
        let mut i: usize = 0;
        while i < n
            invariant
                i <= n,
                n == rhs.annots.len(),
                orig_len == utf8(old(self)@.text).len(),
                new_len == orig_len + utf8(rhs@.text).len(),
                rhs@.wf(),
                self@.wf(),
                self@.text == old(self)@.text + rhs@.text,
                self@.annots == old(self)@.annots + shift_all(
                    rhs@.annots,
                    orig_len as int,
                    i as int,
                ),
            decreases n - i,
        {
            let annot = rhs.annots[i];
            proof {
                assert(annot == rhs@.annots[i as int]);
                assert(annot.within(rhs@.text));
                lemma_boundary_in_concat(old(self)@.text, rhs@.text, annot.start_idx as int);
                lemma_boundary_in_concat(old(self)@.text, rhs@.text, annot.end_idx as int);
            }
            self.add_annotation(
                Annotation::new(annot.style, annot.start_idx + orig_len, annot.end_idx + orig_len),
            );
            proof {
                assert(self@.annots =~= old(self)@.annots + shift_all(
                    rhs@.annots,
                    orig_len as int,
                    i as int + 1,
                ));
            }
            i += 1;
        }
    }

    /// The graphemes of the string in order, each with the style of the
    /// last annotation that covers its first byte. The graphemes cut the
    /// text into pieces that cover it: one behind the other, the strings
    /// of the segments are the text.
    pub fn into_segments(&self) -> (r: Vec<Segment>)
        ensures
            r.len() == grapheme_starts(self@.text).len(),
            is_segmentation(grapheme_starts(self@.text), self@.text),
            joined_pieces(grapheme_starts(self@.text), self@.text, r.len() as int)
                == self@.text,
            forall|i: int|
                0 <= i < r.len() ==> {
                    &&& (#[trigger] r[i]).string@ == piece(
                        grapheme_starts(self@.text),
                        self@.text,
                        i,
                    )
                    &&& r[i].style == style_at(
                        self@.annots,
                        grapheme_starts(self@.text)[i] as int,
                        self@.annots.len() as int,
                    )
                },
    {
        let s = self.string.as_str();
        let starts = grapheme_offsets(s);
        let n: usize = starts.len();
        proof {
            lemma_pieces_cover(starts@, self@.text, n as int);
        }
        let mut result: Vec<Segment> = Vec::new();
        let mut i: usize = 0;
        while i < n
            invariant
                i <= n,
                n == starts.len(),
                s@ == self@.text,
                starts@ == grapheme_starts(self@.text),
                is_segmentation(starts@, self@.text),
                result.len() == i,
                forall|k: int|
                    0 <= k < i ==> {
                        &&& (#[trigger] result[k]).string@ == piece(starts@, self@.text, k)
                        &&& result[k].style == style_at(
                            self@.annots,
                            starts@[k] as int,
                            self@.annots.len() as int,
                        )
                    },
            decreases n - i,
        {
            proof {
                lemma_piece_bounds(starts@, self@.text, i as int);
            }
            let idx: usize = starts[i];
            let end: usize = if i + 1 < n {
                starts[i + 1]
            } else {
                byte_len(s)
            };
            let style = self.style_of_byte(idx);
            result.push(Segment { style, string: String::from_str(substring(s, idx, end)) });
            i += 1;
        }
        result
    }

    /// The style of the last annotation that covers byte `idx`.
    pub fn style_of_byte(&self, idx: usize) -> (r: Option<Style>)
        ensures
            r == style_at(self@.annots, idx as int, self@.annots.len() as int),
    {
        let mut style: Option<Style> = None;
        let m: usize = self.annots.len();
        let mut j: usize = 0;
        while j < m
            invariant
                j <= m,
                m == self.annots.len(),
                style == style_at(self@.annots, idx as int, j as int),
            decreases m - j,
        {
            let annot = self.annots[j];
            if annot.start_idx <= idx && idx < annot.end_idx {
                style = Some(annot.style);
            }
            j += 1;
        }
        style
    }
}

} // verus!
