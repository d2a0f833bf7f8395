//! Highlighting of the places where the search pattern occurs.

use vstd::prelude::*;
use vstd::string::*;

use crate::annotated_string::{all_within, Annotation, Style};
use crate::line::Line;
use crate::text::{occurrences, utf8};
use crate::editor::RenderContext;

verus! {

/// The annotations that mark the first `n` of the occurrences `found`.
pub open spec fn hit_annotations(found: Seq<(usize, usize)>, n: int) -> Seq<Annotation> {
    Seq::new(
        if n <= 0 {
            0nat
        } else {
            n as nat
        },
        |i: int| Annotation { style: Style::SearchHit, start_idx: found[i].0, end_idx: found[i].1 },
    )
}

/// The annotations that mark the occurrences of `pattern` in `text`: one
/// for each, none overlapping another, and none without a pattern or for
/// an empty one.
pub open spec fn search_annotations(text: Seq<char>, pattern: Option<Seq<char>>) -> Seq<
    Annotation,
> {
    match pattern {
        Some(p) => {
            let found = occurrences(utf8(text), utf8(p), 0);
            hit_annotations(found, found.len() as int)
        },
        None => seq![],
    }
}

/// What contracts say of a search highlighter.
pub struct SearchHighlighterView {
    pub highlights: Seq<Seq<Annotation>>,
    pub pattern: Option<Seq<char>>,
}

/// The search pattern, and the annotations of the lines that were
/// highlighted so far.
pub struct SearchHighlighter {
    highlights: Vec<Vec<Annotation>>,
    search_pattern: Option<String>,
}

impl View for SearchHighlighter {
    type V = SearchHighlighterView;

    closed spec fn view(&self) -> SearchHighlighterView {
        SearchHighlighterView {
            highlights: Seq::new(self.highlights@.len(), |i: int| self.highlights@[i]@),
            pattern: match self.search_pattern {
                Some(p) => Some(p@),
                None => None,
            },
        }
    }
}

impl SearchHighlighter {
    /// A highlighter for the search pattern of `render_context` that has
    /// highlighted no line yet.
    pub fn new(render_context: &RenderContext) -> (r: Self)
        ensures
            r@.highlights.len() == 0,
            r@.pattern == render_context.pattern(),
    {
        Self { highlights: Vec::new(), search_pattern: render_context.search_pattern.clone() }
    }

    /// Adds to `annotations` one annotation for each occurrence of the
    /// pattern in `line`. Each begins and ends at a character boundary of
    /// the line.
    pub fn highlight_search(&self, line: &Line, annotations: &mut Vec<Annotation>)
        ensures
            final(annotations)@ == old(annotations)@ + search_annotations(line@, self@.pattern),
            all_within(search_annotations(line@, self@.pattern), line@),
    {
        let search_hits = match &self.search_pattern {
            Some(s) => line.search_all_occurence(s.as_str()),
            None => Vec::new(),
        };
        let n: usize = search_hits.len();
        let mut i: usize = 0;
        assert(all_within(hit_annotations(search_hits@, n as int), line@));
        while i < n
            invariant
                i <= n,
                n == search_hits@.len(),
                annotations@ == old(annotations)@ + hit_annotations(search_hits@, i as int),
            decreases n - i,
        {
            let (match_start, match_end) = search_hits[i];
            annotations.push(Annotation::new(Style::SearchHit, match_start, match_end));
            proof {
                assert(annotations@ =~= old(annotations)@ + hit_annotations(
                    search_hits@,
                    i as int + 1,
                ));
            }
            i += 1;
        }
        proof {
            assert(self@.pattern is None ==> hit_annotations(search_hits@, n as int) =~= seq![]);
        }
    }

    /// Highlights the next line. Each of its annotations begins and ends
    /// at a character boundary of the line.
    pub fn highlight_line(&mut self, line: &Line)
        ensures
            final(self)@.pattern == old(self)@.pattern,
            final(self)@.highlights == old(self)@.highlights.push(
                search_annotations(line@, old(self)@.pattern),
            ),
            all_within(search_annotations(line@, old(self)@.pattern), line@),
    {
        let mut annotations: Vec<Annotation> = Vec::new();
        self.highlight_search(line, &mut annotations);
        self.highlights.push(annotations);
        assert(self@.highlights =~= old(self)@.highlights.push(
            search_annotations(line@, old(self)@.pattern),
        ));
    }

    /// The annotations of line `line_idx`.
    pub fn get_annotations(&self, line_idx: usize) -> (r: Vec<Annotation>)
        requires
            line_idx < self@.highlights.len(),
        ensures
            r@ == self@.highlights[line_idx as int],
    {
        self.highlights[line_idx].clone()
    }
}

} // verus!
