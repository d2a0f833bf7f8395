//! Syntax highlighting of Rust source, one line at a time.

use vstd::prelude::*;
use vstd::string::*;
use vstd::utf8::*;

use crate::annotated_string::{all_within, Annotation, Style};
use crate::grapheme::{is_segmentation, lemma_piece_bounds, piece_start, word_starts};
use crate::highlighter::HighlightContext;
use crate::line::Line;
use crate::text::{byte_len, matches_at, occurs_at, substring, utf8};

verus! {

/// `bytes` begins with `prefix`.
pub open spec fn has_prefix(bytes: Seq<u8>, prefix: Seq<u8>) -> bool {
    occurs_at(bytes, prefix, 0)
}

/// Every one of `bytes` is an ASCII digit.
pub open spec fn all_digits(bytes: Seq<u8>) -> bool {
    forall|i: int| 0 <= i < bytes.len() ==> 48 <= #[trigger] bytes[i] <= 57
}

/// `word` is a reserved keyword.
pub open spec fn reserved_word(word: Seq<char>) -> bool {
    ||| word == "fn"@
    ||| word == "mod"@
    ||| word == "use"@
    ||| word == "pub"@
    ||| word == "if"@
    ||| word == "else"@
    ||| word == "for"@
    ||| word == "in"@
    ||| word == "struct"@
    ||| word == "impl"@
    ||| word == "let"@
    ||| word == "match"@
}

/// `word` names a built-in type or a type of the prelude.
pub open spec fn known_type(word: Seq<char>) -> bool {
    ||| word == "i8"@
    ||| word == "i16"@
    ||| word == "i32"@
    ||| word == "i64"@
    ||| word == "i128"@
    ||| word == "isize"@
    ||| word == "u8"@
    ||| word == "u16"@
    ||| word == "u32"@
    ||| word == "u64"@
    ||| word == "u128"@
    ||| word == "usize"@
    ||| word == "f32"@
    ||| word == "f64"@
    ||| word == "bool"@
    ||| word == "char"@
    ||| word == "str"@
    ||| word == "Option"@
    ||| word == "Result"@
    ||| word == "String"@
    ||| word == "Vec"@
}

/// `word` names a constant or a variant of the prelude.
pub open spec fn known_variant(word: Seq<char>) -> bool {
    ||| word == "true"@
    ||| word == "false"@
    ||| word == "Some"@
    ||| word == "None"@
    ||| word == "Ok"@
    ||| word == "Err"@
}

/// Whether `s` begins with `prefix`.
pub fn begins_with(s: &str, prefix: &str) -> (r: bool)
    ensures
        r == has_prefix(utf8(s@), utf8(prefix@)),
{
    let bytes = s.as_bytes();
    let head = prefix.as_bytes();
    head.len() <= bytes.len() && matches_at(bytes, head, 0)
}

/// Whether `word` holds ASCII digits only.
pub fn is_number(word: &str) -> (r: bool)
    ensures
        r == all_digits(utf8(word@)),
{
    let bytes = word.as_bytes();
    let n: usize = bytes.len();
    let mut i: usize = 0;
    while i < n
        invariant
            i <= n,
            n == bytes@.len(),
            bytes@ == utf8(word@),
            forall|k: int| 0 <= k < i ==> 48 <= #[trigger] bytes@[k] <= 57,
        decreases n - i,
    {
        if bytes[i] < 48 || bytes[i] > 57 {
            return false;
        }
        i += 1;
    }
    true
}

/// Whether `word` is a reserved keyword.
pub fn is_keyword(word: &str) -> (r: bool)
    ensures
        r == reserved_word(word@),
{
    crate::text::str_eq(word, "fn") || crate::text::str_eq(word, "mod") || crate::text::str_eq(
        word,
        "use",
    ) || crate::text::str_eq(word, "pub") || crate::text::str_eq(word, "if")
        || crate::text::str_eq(word, "else") || crate::text::str_eq(word, "for")
        || crate::text::str_eq(word, "in") || crate::text::str_eq(word, "struct")
        || crate::text::str_eq(word, "impl") || crate::text::str_eq(word, "let")
        || crate::text::str_eq(word, "match")
}

/// Whether `word` names a built-in type or a type of the prelude.
pub fn is_type_name(word: &str) -> (r: bool)
    ensures
        r == known_type(word@),
{
    crate::text::str_eq(word, "i8") || crate::text::str_eq(word, "i16") || crate::text::str_eq(
        word,
        "i32",
    ) || crate::text::str_eq(word, "i64") || crate::text::str_eq(word, "i128")
        || crate::text::str_eq(word, "isize") || crate::text::str_eq(word, "u8")
        || crate::text::str_eq(word, "u16") || crate::text::str_eq(word, "u32")
        || crate::text::str_eq(word, "u64") || crate::text::str_eq(word, "u128")
        || crate::text::str_eq(word, "usize") || crate::text::str_eq(word, "f32")
        || crate::text::str_eq(word, "f64") || crate::text::str_eq(word, "bool")
        || crate::text::str_eq(word, "char") || crate::text::str_eq(word, "str")
        || crate::text::str_eq(word, "Option") || crate::text::str_eq(word, "Result")
        || crate::text::str_eq(word, "String") || crate::text::str_eq(word, "Vec")
}

/// Whether `word` names a constant or a variant of the prelude.
pub fn is_variant_name(word: &str) -> (r: bool)
    ensures
        r == known_variant(word@),
{
    crate::text::str_eq(word, "true") || crate::text::str_eq(word, "false") || crate::text::str_eq(
        word,
        "Some",
    ) || crate::text::str_eq(word, "None") || crate::text::str_eq(word, "Ok")
        || crate::text::str_eq(word, "Err")
}

/// Whether `word` begins with `//`.
pub fn is_single_line_comment_start(word: &str) -> (r: bool)
    ensures
        r == has_prefix(utf8(word@), utf8("//"@)),
{
    begins_with(word, "//")
}

/// Whether `word` begins with `/*`.
pub fn is_multi_line_comment_start(word: &str) -> (r: bool)
    ensures
        r == has_prefix(utf8(word@), utf8("/*"@)),
{
    begins_with(word, "/*")
}

/// Whether `word` begins with `*/`.
pub fn is_multi_line_comment_end(word: &str) -> (r: bool)
    ensures
        r == has_prefix(utf8(word@), utf8("*/"@)),
{
    begins_with(word, "*/")
}

/// Whether `word` begins with a double quote.
pub fn is_string_delimiter(word: &str) -> (r: bool)
    ensures
        r == has_prefix(utf8(word@), utf8("\""@)),
{
    begins_with(word, "\"")
}

/// How far the scan of a line has come: the context, the annotations so
/// far, and whether a line comment has ended the scan.
pub struct LineScan {
    pub ctx: HighlightContext,
    pub annots: Seq<Annotation>,
    pub in_line_comment: bool,
}

/// The scan after one more piece of the line, which starts at byte `idx`
/// and ends before byte `end`. `word` is the piece, `rest` the line from
/// the piece on, and `len` the byte length of the line. The first rule
/// that applies decides:
/// inside a string literal every piece is string, and a quote ends the literal;
/// inside a block comment every piece is comment, and `*/` ends the comment;
/// `/*` begins a block comment; a quote begins a string literal;
/// `//` makes the rest of the line a comment and ends the scan;
/// then come numbers, keywords, type names and variant names.
/// A quote is annotated by itself, and so are `/*` and `*/`.
pub open spec fn scan_piece(
    st: LineScan,
    word: Seq<char>,
    rest: Seq<char>,
    idx: usize,
    end: usize,
    len: usize,
) -> LineScan {
    let one = (idx + 1) as usize;
    let two = (idx + 2) as usize;
    if st.ctx.in_string_literal {
        if has_prefix(utf8(rest), utf8("\""@)) {
            LineScan {
                ctx: HighlightContext { in_string_literal: false, ..st.ctx },
                annots: st.annots.push(
                    Annotation { style: Style::String, start_idx: idx, end_idx: one },
                ),
                ..st
            }
        } else {
            LineScan {
                annots: st.annots.push(
                    Annotation { style: Style::String, start_idx: idx, end_idx: end },
                ),
                ..st
            }
        }
    } else if st.ctx.in_multiline_comment {
        if has_prefix(utf8(rest), utf8("*/"@)) {
            LineScan {
                ctx: HighlightContext { in_multiline_comment: false, ..st.ctx },
                annots: st.annots.push(
                    Annotation { style: Style::Comment, start_idx: idx, end_idx: two },
                ),
                ..st
            }
        } else {
            LineScan {
                annots: st.annots.push(
                    Annotation { style: Style::Comment, start_idx: idx, end_idx: end },
                ),
                ..st
            }
        }
    } else if has_prefix(utf8(rest), utf8("/*"@)) {
        LineScan {
            ctx: HighlightContext { in_multiline_comment: true, ..st.ctx },
            annots: st.annots.push(
                Annotation { style: Style::Comment, start_idx: idx, end_idx: two },
            ),
            ..st
        }
    } else if has_prefix(utf8(rest), utf8("\""@)) {
        LineScan {
            ctx: HighlightContext { in_string_literal: true, ..st.ctx },
            annots: st.annots.push(
                Annotation { style: Style::String, start_idx: idx, end_idx: one },
            ),
            ..st
        }
    } else if has_prefix(utf8(rest), utf8("//"@)) {
        LineScan {
            annots: st.annots.push(
                Annotation { style: Style::Comment, start_idx: idx, end_idx: len },
            ),
            in_line_comment: true,
            ..st
        }
    } else if all_digits(utf8(word)) {
        LineScan {
            annots: st.annots.push(
                Annotation { style: Style::Digit, start_idx: idx, end_idx: end },
            ),
            ..st
        }
    } else if reserved_word(word) {
        LineScan {
            annots: st.annots.push(
                Annotation { style: Style::Keywords, start_idx: idx, end_idx: end },
            ),
            ..st
        }
    } else if known_type(word) {
        LineScan {
            annots: st.annots.push(
                Annotation { style: Style::TypeName, start_idx: idx, end_idx: end },
            ),
            ..st
        }
    } else if known_variant(word) {
        LineScan {
            annots: st.annots.push(
                Annotation { style: Style::VarinatName, start_idx: idx, end_idx: end },
            ),
            ..st
        }
    } else {
        st
    }
}

/// The scan of the line `text` after its first `n` pieces, begun in the
/// context `ctx`. A line comment ends the scan.
pub open spec fn scan_line(text: Seq<char>, ctx: HighlightContext, n: int) -> LineScan
    decreases n,
{
    if n <= 0 {
        LineScan { ctx, annots: seq![], in_line_comment: false }
    } else {
        let before = scan_line(text, ctx, n - 1);
        if before.in_line_comment {
            before
        } else {
            let starts = word_starts(text);
            let idx = piece_start(starts, text, n - 1);
            let end = piece_start(starts, text, n);
            let len = utf8(text).len() as int;
            scan_piece(
                before,
                crate::text::text_range(text, idx, end),
                crate::text::text_range(text, idx, len),
                idx as usize,
                end as usize,
                len as usize,
            )
        }
    }
}

/// The scan of the whole line `text`, begun in the context `ctx`.
pub open spec fn scan_whole_line(text: Seq<char>, ctx: HighlightContext) -> LineScan {
    scan_line(text, ctx, word_starts(text).len() as int)
}

/// Once a line comment has ended the scan, further pieces change nothing.
pub proof fn lemma_scan_stops(text: Seq<char>, ctx: HighlightContext, k: int, n: int)
    requires
        0 <= k <= n,
        scan_line(text, ctx, k).in_line_comment,
    ensures
        scan_line(text, ctx, n) == scan_line(text, ctx, k),
    decreases n - k,
{
    if k < n {
        lemma_scan_stops(text, ctx, k, n - 1);
    }
}

/// Where the rest of a line from a boundary on begins with a non-empty
/// text, that text ends at a boundary of the line.
pub proof fn lemma_prefix_end(text: Seq<char>, idx: int, prefix: Seq<char>)
    requires
        0 <= idx <= utf8(text).len(),
        utf8(prefix).len() > 0,
    ensures
        has_prefix(utf8(text).subrange(idx, utf8(text).len() as int), utf8(prefix)) ==> {
            &&& idx + utf8(prefix).len() <= utf8(text).len()
            &&& crate::text::is_boundary(text, idx + utf8(prefix).len())
        },
{
    let bytes = utf8(text);
    let head = utf8(prefix);
    let rest = bytes.subrange(idx, bytes.len() as int);
    if has_prefix(rest, head) {
        assert(bytes.subrange(idx, idx + head.len()) =~= rest.subrange(0, head.len() as int));
        crate::text::lemma_occurrence_bounds(text, prefix, idx);
    }
}

/// The marks of string literals and block comments take one byte for each of their characters.
pub proof fn lemma_marks()
    ensures
        utf8("\""@).len() == 1,
        utf8("/*"@).len() == 2,
        utf8("*/"@).len() == 2,
{
    reveal_strlit("\"");
    reveal_strlit("/*");
    reveal_strlit("*/");
    assert(is_ascii_chars("\""@));
    assert(is_ascii_chars("/*"@));
    assert(is_ascii_chars("*/"@));
    is_ascii_chars_encode_utf8("\""@);
    is_ascii_chars_encode_utf8("/*"@);
    is_ascii_chars_encode_utf8("*/"@);
}

/// The annotations of the lines of Rust source that were highlighted so far.
pub struct RustSyntaxHighlighter {
    highlights: Vec<Vec<Annotation>>,
}

impl View for RustSyntaxHighlighter {
    type V = Seq<Seq<Annotation>>;

    closed spec fn view(&self) -> Seq<Seq<Annotation>> {
        Seq::new(self.highlights@.len(), |i: int| self.highlights@[i]@)
    }
}

impl RustSyntaxHighlighter {
    /// A highlighter that has highlighted no line yet.
    pub fn new() -> (r: Self)
        ensures
            r@.len() == 0,
    {
        Self { highlights: Vec::new() }
    }

    /// Highlights the next line: scans its pieces between word boundaries
    /// in order, from the context that the line before left. Each of its
    /// annotations begins and ends at a character boundary of the line.
    pub fn highlight_line(&mut self, line: &Line, ctx: &mut HighlightContext)
        ensures
            final(self)@ == old(self)@.push(scan_whole_line(line@, *old(ctx)).annots),
            *final(ctx) == scan_whole_line(line@, *old(ctx)).ctx,
            all_within(scan_whole_line(line@, *old(ctx)).annots, line@),
    {
        let raw = line.get_raw_str();
        let starts = line.split_word_bound_indices();
        let len: usize = byte_len(raw);
        let n: usize = starts.len();
        let mut annotations: Vec<Annotation> = Vec::new();
        let mut in_sigle_line_comment = false;
        let mut k: usize = 0;
        proof {
            encode_utf8_valid_utf8(line@);
            is_char_boundary_start_end_of_seq(utf8(line@));
        }
        while k < n && !in_sigle_line_comment
            invariant
                k <= n,
                n == starts@.len(),
                raw@ == line@,
                len == utf8(line@).len(),
                starts@ == word_starts(line@),
                is_segmentation(starts@, line@),
                crate::text::is_boundary(line@, len as int),
                all_within(annotations@, line@),
                scan_line(line@, *old(ctx), k as int) == (LineScan {
                    ctx: *ctx,
                    annots: annotations@,
                    in_line_comment: in_sigle_line_comment,
                }),
            decreases n - k,
        {
            proof {
                lemma_piece_bounds(starts@, line@, k as int);
            }
            let idx: usize = starts[k];
            let end: usize = if k + 1 < n {
                starts[k + 1]
            } else {
                len
            };
            let word = substring(raw, idx, end);
            let remainder = substring(raw, idx, len);
            proof {
                lemma_marks();
                lemma_prefix_end(line@, idx as int, "\""@);
                lemma_prefix_end(line@, idx as int, "/*"@);
                lemma_prefix_end(line@, idx as int, "*/"@);
            }
            if ctx.in_string_literal {
                if is_string_delimiter(remainder) {
                    ctx.in_string_literal = false;
                    annotations.push(Annotation::new(Style::String, idx, idx + 1));
                } else {
                    annotations.push(Annotation::new(Style::String, idx, end));
                }
            } else if ctx.in_multiline_comment {
                if is_multi_line_comment_end(remainder) {
                    ctx.in_multiline_comment = false;
                    annotations.push(Annotation::new(Style::Comment, idx, idx + 2));
                } else {
                    annotations.push(Annotation::new(Style::Comment, idx, end));
                }
            } else if is_multi_line_comment_start(remainder) {
                ctx.in_multiline_comment = true;
                annotations.push(Annotation::new(Style::Comment, idx, idx + 2));
            } else if is_string_delimiter(remainder) {
                ctx.in_string_literal = true;
                annotations.push(Annotation::new(Style::String, idx, idx + 1));
            } else if is_single_line_comment_start(remainder) {
                in_sigle_line_comment = true;
                annotations.push(Annotation::new(Style::Comment, idx, len));
            } else if is_number(word) {
                annotations.push(Annotation::new(Style::Digit, idx, end));
            } else if is_keyword(word) {
                annotations.push(Annotation::new(Style::Keywords, idx, end));
            } else if is_type_name(word) {
                annotations.push(Annotation::new(Style::TypeName, idx, end));
            } else if is_variant_name(word) {
                annotations.push(Annotation::new(Style::VarinatName, idx, end));
            }
            k += 1;
        }
        proof {
            if k < n {
                lemma_scan_stops(line@, *old(ctx), k as int, n as int);
            }
        }
        self.highlights.push(annotations);
        assert(self@ =~= old(self)@.push(scan_whole_line(line@, *old(ctx)).annots));
    }

    /// The annotations of line `line_idx`.
    pub fn get_annotations(&self, line_idx: usize) -> (r: Vec<Annotation>)
        requires
            line_idx < self@.len(),
        ensures
            r@ == self@[line_idx as int],
    {
        self.highlights[line_idx].clone()
    }

    /// Number of lines highlighted so far.
    pub fn len(&self) -> (r: usize)
        ensures
            r == self@.len(),
    {
        self.highlights.len()
    }
}

} // verus!
