//! The highlighters that annotate the lines of a document for one drawing of the screen.

pub mod rust;
pub mod search_highlight;

use vstd::prelude::*;

use crate::annotated_string::{all_within, Annotation};
use crate::filetype::FileType;
use crate::highlighter::rust::{scan_whole_line, RustSyntaxHighlighter};
use crate::highlighter::search_highlight::{search_annotations, SearchHighlighter};
use crate::line::Line;
use crate::editor::RenderContext;

verus! {

/// What one line leaves to the next: whether a block comment or a string
/// literal is still open at its end.
#[derive(Clone, Copy, Debug, PartialEq, Eq, Structural)]
pub struct HighlightContext {
    pub in_multiline_comment: bool,
    pub in_string_literal: bool,
}

/// The syntax highlighter of a kind of file.
pub enum SyntaxHighlighter {
    Rust(RustSyntaxHighlighter),
}

impl View for SyntaxHighlighter {
    type V = Seq<Seq<Annotation>>;

    open spec fn view(&self) -> Seq<Seq<Annotation>> {
        match self {
            SyntaxHighlighter::Rust(h) => h@,
        }
    }
}

impl SyntaxHighlighter {
    /// Highlights the next line, from the context that the line before
    /// left. Each of its annotations begins and ends at a character
    /// boundary of the line.
    pub fn highlight_line(&mut self, line: &Line, ctx: &mut HighlightContext)
        ensures
            final(self)@ == old(self)@.push(scan_whole_line(line@, *old(ctx)).annots),
            *final(ctx) == scan_whole_line(line@, *old(ctx)).ctx,
            all_within(scan_whole_line(line@, *old(ctx)).annots, line@),
    {
        match self {
            SyntaxHighlighter::Rust(h) => h.highlight_line(line, ctx),
        }
    }

    /// The annotations of line `line_idx`.
    pub fn get_annotations(&self, line_idx: usize) -> (r: Vec<Annotation>)
        requires
            line_idx < self@.len(),
        ensures
            r@ == self@[line_idx as int],
    {
        match self {
            SyntaxHighlighter::Rust(h) => h.get_annotations(line_idx),
        }
    }
}

/// The syntax highlighter for files of the kind `file_type`; none for plain text.
pub fn create_syntax_highlighter(file_type: FileType) -> (r: Option<SyntaxHighlighter>)
    ensures
        r is Some <==> file_type == FileType::Rust,
        r matches Some(h) ==> h@.len() == 0,
{
    match file_type {
        FileType::Rust => Some(SyntaxHighlighter::Rust(RustSyntaxHighlighter::new())),
        FileType::Text => None,
    }
}

/// What contracts say of the highlighters of one drawing: the texts of
/// the lines that were highlighted, the annotations that each highlighter
/// has for them, the search pattern, and the context that the last line left.
pub struct BundlerView {
    pub texts: Seq<Seq<char>>,
    pub syntax: Option<Seq<Seq<Annotation>>>,
    pub search: Seq<Seq<Annotation>>,
    pub pattern: Option<Seq<char>>,
    pub ctx: HighlightContext,
}

impl BundlerView {
    /// The highlighters at the start of a drawing of a file of the kind
    /// `file_type` in which `pattern` is searched for: no line is
    /// highlighted yet, and no comment or string literal is open.
    pub open spec fn initial(pattern: Option<Seq<char>>, file_type: FileType) -> BundlerView {
        BundlerView {
            texts: Seq::<Seq<char>>::empty(),
            syntax: if file_type == FileType::Rust {
                Some(Seq::<Seq<Annotation>>::empty())
            } else {
                None
            },
            search: Seq::<Seq<Annotation>>::empty(),
            pattern,
            ctx: HighlightContext { in_multiline_comment: false, in_string_literal: false },
        }
    }

    /// The highlighters have annotated the same lines.
    pub open spec fn in_step(self) -> bool {
        &&& self.search.len() == self.texts.len()
        &&& self.syntax matches Some(s) ==> s.len() == self.texts.len()
    }

    /// The highlighters have annotated the same lines, and each
    /// annotation begins and ends at a character boundary of its line.
    pub open spec fn wf(self) -> bool {
        &&& self.in_step()
        &&& forall|i: int|
            0 <= i < self.texts.len() ==> all_within(
                #[trigger] self.annotations(i),
                self.texts[i],
            )
    }

    /// Number of lines highlighted so far.
    pub open spec fn len(self) -> nat {
        self.texts.len()
    }

    /// The highlighters after the next line, whose text is `text`.
    pub open spec fn after_line(self, text: Seq<char>) -> BundlerView {
        BundlerView {
            texts: self.texts.push(text),
            syntax: match self.syntax {
                Some(s) => Some(s.push(scan_whole_line(text, self.ctx).annots)),
                None => None,
            },
            search: self.search.push(search_annotations(text, self.pattern)),
            pattern: self.pattern,
            ctx: match self.syntax {
                Some(_) => scan_whole_line(text, self.ctx).ctx,
                None => self.ctx,
            },
        }
    }

    /// The highlighters after the first `n` of `lines`.
    pub open spec fn after_lines(self, lines: Seq<Seq<char>>, n: int) -> BundlerView
        decreases n,
    {
        if n <= 0 {
            self
        } else {
            self.after_lines(lines, n - 1).after_line(lines[n - 1])
        }
    }

    /// The annotations of line `idx`: those of the search first, then those of the syntax.
    pub open spec fn annotations(self, idx: int) -> Seq<Annotation> {
        match self.syntax {
            Some(s) => self.search[idx] + s[idx],
            None => self.search[idx],
        }
    }
}

/// Highlighting keeps the highlighters in step and adds the lines to
/// those that were highlighted.
pub proof fn lemma_after_lines(b: BundlerView, lines: Seq<Seq<char>>, n: int)
    requires
        b.in_step(),
        0 <= n <= lines.len(),
    ensures
        b.after_lines(lines, n).in_step(),
        b.after_lines(lines, n).texts == b.texts + lines.subrange(0, n),
        b.after_lines(lines, n).pattern == b.pattern,
        b.after_lines(lines, n).syntax is Some <==> b.syntax is Some,
    decreases n,
{
    if n > 0 {
        lemma_after_lines(b, lines, n - 1);
        assert(b.after_lines(lines, n).texts =~= b.texts + lines.subrange(0, n));
    } else {
        assert(b.texts + lines.subrange(0, n) =~= b.texts);
    }
}

/// The search highlighter and the syntax highlighter of one drawing of the screen.
pub struct HighlighterBundler {
    syntax_highlighter: Option<SyntaxHighlighter>,
    search_highlighter: SearchHighlighter,
    highlight_context: HighlightContext,
    texts: Ghost<Seq<Seq<char>>>,
}

impl View for HighlighterBundler {
    type V = BundlerView;

    closed spec fn view(&self) -> BundlerView {
        BundlerView {
            texts: self.texts@,
            syntax: match self.syntax_highlighter {
                Some(h) => Some(h@),
                None => None,
            },
            search: self.search_highlighter@.highlights,
            pattern: self.search_highlighter@.pattern,
            ctx: self.highlight_context,
        }
    }
}

impl HighlighterBundler {
    /// The highlighters of a drawing that depends on `context`.
    pub fn new(context: &RenderContext) -> (r: Self)
        ensures
            r@.wf(),
            r@ == BundlerView::initial(context.pattern(), context.file_type),
    {
        let r = Self {
            syntax_highlighter: create_syntax_highlighter(context.file_type),
            search_highlighter: SearchHighlighter::new(context),
            highlight_context: HighlightContext {
                in_multiline_comment: false,
                in_string_literal: false,
            },
            texts: Ghost(Seq::<Seq<char>>::empty()),
        };
        proof {
            assert(r@.search =~= Seq::<Seq<Annotation>>::empty());
            if context.file_type == FileType::Rust {
                assert(r@.syntax->0 =~= Seq::<Seq<Annotation>>::empty());
            }
        }
        r
    }

    /// Has each highlighter highlight the next line.
    pub fn highlight_line(&mut self, line: &Line)
        requires
            old(self)@.wf(),
        ensures
            final(self)@.wf(),
            final(self)@ == old(self)@.after_line(line@),
    {
        match &mut self.syntax_highlighter {
            Some(h) => {
                h.highlight_line(line, &mut self.highlight_context);
            },
            None => {},
        }
        self.search_highlighter.highlight_line(line);
        self.texts = Ghost(self.texts@.push(line@));
        proof {
            let before = old(self)@;
            let now = self@;
            assert(now.texts =~= before.texts.push(line@));
            assert forall|i: int| 0 <= i < now.texts.len() implies all_within(
                #[trigger] now.annotations(i),
                now.texts[i],
            ) by {
                if i < before.texts.len() {
                    assert(now.annotations(i) =~= before.annotations(i));
                    assert(all_within(before.annotations(i), before.texts[i]));
                } else {
                    let found = search_annotations(line@, before.pattern);
                    assert(all_within(found, line@));
                    match before.syntax {
                        Some(s) => {
                            let scanned = scan_whole_line(line@, before.ctx).annots;
                            assert(all_within(scanned, line@));
                            assert(now.annotations(i) =~= found + scanned);
                        },
                        None => {
                            assert(now.annotations(i) =~= found);
                        },
                    }
                }
            }
        }
    }

    /// The annotations of line `line_idx`: those of the search first, then
    /// those of the syntax.
    pub fn get_annotations(&self, line_idx: usize) -> (r: Vec<Annotation>)
        requires
            self@.wf(),
            line_idx < self@.len(),
        ensures
            r@ == self@.annotations(line_idx as int),
            all_within(r@, self@.texts[line_idx as int]),
    {
        let mut annotations = self.search_highlighter.get_annotations(line_idx);
        match &self.syntax_highlighter {
            Some(h) => {
                let mut more = h.get_annotations(line_idx);
                annotations.append(&mut more);
            },
            None => {},
        }
        proof {
            assert(annotations@ =~= self@.annotations(line_idx as int));
            assert(all_within(self@.annotations(line_idx as int), self@.texts[line_idx as int]));
        }
        annotations
    }
}

/// The highlighters of a drawing, asked for one line.
pub struct LineHighlighter<'a> {
    highlighter: &'a HighlighterBundler,
    line_idx: usize,
}

impl<'a> LineHighlighter<'a> {
    /// The highlighters that are asked.
    pub closed spec fn bundler(&self) -> BundlerView {
        self.highlighter@
    }

    /// The line that is asked for.
    pub closed spec fn line(&self) -> usize {
        self.line_idx
    }

    /// The highlighters `highlighter`, asked for line `line_idx`.
    pub fn new(highlighter: &'a HighlighterBundler, line_idx: usize) -> (r: Self)
        ensures
            r.bundler() == highlighter@,
            r.line() == line_idx,
    {
        Self { highlighter, line_idx }
    }

    /// The annotations of the line.
    pub fn get_annotations(&self) -> (r: Vec<Annotation>)
        requires
            self.bundler().wf(),
            self.line() < self.bundler().len(),
        ensures
            r@ == self.bundler().annotations(self.line() as int),
            all_within(r@, self.bundler().texts[self.line() as int]),
    {
        self.highlighter.get_annotations(self.line_idx)
    }
}

} // verus!
