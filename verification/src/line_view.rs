//! What a window shows of one line, with its highlights.

use vstd::prelude::*;
use vstd::string::*;

use crate::annotated_string::{
    clip_all, shift_all, AnnotatedString, AnnotatedStringView, Annotation,
};
use crate::highlighter::LineHighlighter;
use crate::line::{byte_offset_in, cells_of, layout, visible, Line};
use crate::text::{lemma_utf8_of_ascii, utf8};

verus! {

/// What the window of columns `[left, right)` shows of a line whose text
/// is `text` and whose annotations are `annots`: the text that it shows of
/// the line, and the annotations that reach into the graphemes that lie
/// inside the window, each clipped to them and counted from the start of
/// what is shown.
pub open spec fn rendered(text: Seq<char>, annots: Seq<Annotation>, left: nat, right: nat)
    -> AnnotatedStringView {
    let cells = cells_of(text);
    let l = layout(cells, left, right, cells.len() as int);
    let core = clip_all(
        annots,
        byte_offset_in(text, l.first),
        byte_offset_in(text, l.last),
        annots.len() as int,
    );
    AnnotatedStringView {
        text: visible(cells, left, right, cells.len() as int),
        annots: shift_all(
            core,
            if l.left_cut {
                1
            } else {
                0
            },
            core.len() as int,
        ),
    }
}

/// A line seen through a window of columns.
pub struct LineView<'a> {
    line: &'a Line,
    left: usize,
    right: usize,
}

impl<'a> LineView<'a> {
    /// The line that is seen.
    pub closed spec fn line(&self) -> &Line {
        self.line
    }

    /// The first column of the window.
    pub closed spec fn left(&self) -> usize {
        self.left
    }

    /// The column behind the last column of the window.
    pub closed spec fn right(&self) -> usize {
        self.right
    }

    /// The line `line` seen through the window of columns `[left, right)`.
    pub fn new(line: &'a Line, left: usize, right: usize) -> (r: Self)
        ensures
            r.line() == line,
            r.left() == left,
            r.right() == right,
    {
        Self { line, left, right }
    }

    /// What the window shows of the line, with the annotations that
    /// `highlighter` has for it. The line is the one that the highlighter
    /// is asked for.
    pub fn build_rendered_str(&self, highlighter: &LineHighlighter) -> (r: AnnotatedString)
        requires
            self.line().wf(),
            highlighter.bundler().wf(),
            highlighter.line() < highlighter.bundler().len(),
            highlighter.bundler().texts[highlighter.line() as int] == self.line()@,
        ensures
            r@.wf(),
            r@ == rendered(
                self.line()@,
                highlighter.bundler().annotations(highlighter.line() as int),
                self.left() as nat,
                self.right() as nat,
            ),
    {
        let parts = self.line.visible_parts(self.left, self.right);
        let mut annotated = AnnotatedString::from_str(self.line.get_raw_str());
        let annotations = highlighter.get_annotations();
        let n: usize = annotations.len();
        let mut i: usize = 0;
        while i < n
            invariant
                i <= n,
                n == annotations@.len(),
                crate::annotated_string::all_within(annotations@, self.line()@),
                annotated@.wf(),
                annotated@.text == self.line()@,
                annotated@.annots == annotations@.subrange(0, i as int),
            decreases n - i,
        {
            annotated.add_annotation(annotations[i]);
            proof {
                assert(annotated@.annots =~= annotations@.subrange(0, i as int + 1));
            }
            i += 1;
        }
        assert(annotated@.annots =~= annotations@);
        let core = annotated.substr(parts.core_start, parts.core_end);
        let left_mark = if parts.left_cut {
            "<"
        } else {
            ""
        };
        let right_mark = if parts.right_cut {
            ">"
        } else {
            ""
        };
        proof {
            reveal_strlit("<");
            reveal_strlit(">");
            reveal_strlit("");
            lemma_utf8_of_ascii('<');
            assert("<"@ =~= seq!['<']);
            assert(">"@ =~= seq!['>']);
            assert(""@ =~= Seq::<char>::empty());
            assert(utf8(""@).len() == 0);
        }
        let mut result = AnnotatedString::from_str(left_mark);
        result.push_annot_str(&core);
        let tail = AnnotatedString::from_str(right_mark);
        result.push_annot_str(&tail);
        proof {
            let shown = rendered(
                self.line()@,
                annotations@,
                self.left() as nat,
                self.right() as nat,
            );
            assert(result@.text =~= shown.text);
            assert(result@.annots =~= shown.annots);
        }
        result
    }
}

} // verus!
