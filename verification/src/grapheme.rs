//! One user-perceived character and the number of screen columns it takes.

use unicode_segmentation::UnicodeSegmentation;
use unicode_width::UnicodeWidthStr;
use vstd::prelude::*;
use vstd::string::*;
use vstd::utf8::*;

use crate::text::{
    byte_len, is_boundary, lemma_ascii_range, lemma_boundary_of_pieces, printable_ascii,
    substring, text_range, utf8,
};

verus! {

/// Distance between two tab stops, in columns.
pub const TABSTOP: usize = 8;

/// Width class of a grapheme: one column or two.
#[derive(Copy, Clone, Debug, PartialEq, Eq, Structural)]
pub enum GraphemeWidth {
    Half,
    Full,
}

impl GraphemeWidth {
    /// The class of a cluster that measures `w` columns: zero-width clusters
    /// still take one column on screen.
    pub open spec fn of_width(w: nat) -> GraphemeWidth {
        if w <= 1 {
            GraphemeWidth::Half
        } else {
            GraphemeWidth::Full
        }
    }

    /// Number of columns of the class.
    pub open spec fn columns(self) -> nat {
        match self {
            GraphemeWidth::Half => 1,
            GraphemeWidth::Full => 2,
        }
    }

    /// The class of a cluster that measures `w` columns.
    pub fn from_usize(w: usize) -> (r: Self)
        requires
            w <= 2,
        ensures
            r == Self::of_width(w as nat),
    {
        if w <= 1 {
            GraphemeWidth::Half
        } else {
            GraphemeWidth::Full
        }
    }

    /// Number of columns of the class.
    pub fn to_usize(&self) -> (r: usize)
        ensures
            r == self.columns(),
            1 <= r <= 2,
    {
        match self {
            GraphemeWidth::Half => 1,
            GraphemeWidth::Full => 2,
        }
    }
}

/// Columns that a tab takes when it starts at column `col`: up to the next tab stop.
pub open spec fn tab_width(col: nat) -> nat {
    (TABSTOP - col % (TABSTOP as nat)) as nat
}

/// Columns that a tab takes when it starts at column `current_pos`.
pub fn calc_tab_width(current_pos: usize) -> (r: usize)
    ensures
        r == tab_width(current_pos as nat),
        1 <= r <= TABSTOP,
        (current_pos + r) % (TABSTOP as int) == 0,
{
    TABSTOP - current_pos % TABSTOP
}

/// What contracts say of a grapheme: its text and its width class.
pub struct GraphemeView {
    pub text: Seq<char>,
    pub width: GraphemeWidth,
}

impl GraphemeView {
    /// A grapheme holds at least one character.
    pub open spec fn wf(self) -> bool {
        self.text.len() > 0
    }

    /// The grapheme begins with a tab.
    pub open spec fn is_tab(self) -> bool {
        self.text[0] == '\t'
    }

    /// Columns taken when the grapheme starts at column `col`.
    pub open spec fn width_at(self, col: nat) -> nat {
        if self.is_tab() {
            tab_width(col)
        } else {
            self.width.columns()
        }
    }
}

/// One grapheme cluster with its width class.
#[derive(Debug)]
pub struct Grapheme {
    string: String,
    width: GraphemeWidth,
}

impl View for Grapheme {
    type V = GraphemeView;

    closed spec fn view(&self) -> GraphemeView {
        GraphemeView { text: self.string@, width: self.width }
    }
}

impl Clone for Grapheme {
    fn clone(&self) -> (r: Self)
        ensures
            r@ == self@,
    {
        Grapheme { string: self.string.clone(), width: self.width }
    }
}

impl Grapheme {
    /// Whether the grapheme begins with a tab.
    pub fn is_tab(&self) -> (r: bool)
        requires
            self@.wf(),
        ensures
            r == self@.is_tab(),
    {
        self.string.as_str().get_char(0) == '\t'
    }

    /// Columns that the grapheme takes when it starts at column `current_pos`.
    pub fn get_width_at_current_pos(&self, current_pos: usize) -> (r: usize)
        requires
            self@.wf(),
        ensures
            r == self@.width_at(current_pos as nat),
            1 <= r <= TABSTOP,
    {
        if self.is_tab() {
            calc_tab_width(current_pos)
        } else {
            self.width.to_usize()
        }
    }

    /// The text of the grapheme.
    pub fn as_str(&self) -> (r: &str)
        ensures
            r@ == self@.text,
    {
        self.string.as_str()
    }

    /// An owned copy of the text of the grapheme.
    pub fn to_string(&self) -> (r: String)
        ensures
            r@ == self@.text,
    {
        self.string.clone()
    }
}

/// Byte offsets at which the extended grapheme clusters of `text` start, in order.
pub uninterp spec fn grapheme_starts(text: Seq<char>) -> Seq<usize>;

/// Byte offsets at which the pieces of `text` between word boundaries start, in order.
pub uninterp spec fn word_starts(text: Seq<char>) -> Seq<usize>;

/// Display width of `text` in columns, counting ambiguous characters as wide.
pub uninterp spec fn cjk_width(text: Seq<char>) -> nat;

/// `starts` cuts `text` into consecutive non-empty pieces that cover it:
/// the first piece starts at byte 0, each piece starts at a character
/// boundary inside the text, and the offsets grow strictly.
pub open spec fn is_segmentation(starts: Seq<usize>, text: Seq<char>) -> bool {
    &&& (starts.len() == 0 <==> utf8(text).len() == 0)
    &&& starts.len() > 0 ==> starts[0] == 0
    &&& forall|i: int, j: int| 0 <= i < j < starts.len() ==> starts[i] < starts[j]
    &&& forall|i: int|
        0 <= i < starts.len() ==> starts[i] < utf8(text).len() && #[trigger] is_boundary(
            text,
            starts[i] as int,
        )
}

/// The offsets 0, 1, 2 and so on, `n` of them.
pub open spec fn one_by_one(n: nat) -> Seq<usize> {
    Seq::new(n, |i: int| i as usize)
}

/// Where `text` holds printable ASCII characters only, each of them is a
/// grapheme cluster of its own and one column wide.
pub open spec fn plain_where_ascii(text: Seq<char>) -> bool {
    printable_ascii(text) ==> {
        &&& grapheme_starts(text) == one_by_one(text.len())
        &&& forall|i: int| 0 <= i < text.len() ==> cjk_width(seq![#[trigger] text[i]]) == 1
    }
}

/// Byte offset at which piece `i` of a segmentation starts; the byte length
/// of the text for every `i` past the last piece.
pub open spec fn piece_start(starts: Seq<usize>, text: Seq<char>, i: int) -> int {
    if 0 <= i < starts.len() {
        starts[i] as int
    } else {
        utf8(text).len() as int
    }
}

/// Piece `i` of a segmentation of `text`.
pub open spec fn piece(starts: Seq<usize>, text: Seq<char>, i: int) -> Seq<char> {
    text_range(text, piece_start(starts, text, i), piece_start(starts, text, i + 1))
}

/// Grapheme cluster `i` of `text`.
pub open spec fn cluster(text: Seq<char>, i: int) -> Seq<char> {
    piece(grapheme_starts(text), text, i)
}

/// Number of grapheme clusters of `text`.
pub open spec fn cluster_count(text: Seq<char>) -> nat {
    grapheme_starts(text).len()
}

/// What a grapheme built from cluster `i` of `text` holds.
pub open spec fn cluster_view(text: Seq<char>, i: int) -> GraphemeView {
    GraphemeView {
        text: cluster(text, i),
        width: GraphemeWidth::of_width(cjk_width(cluster(text, i))),
    }
}

/// A text can be laid out in columns: none of its clusters is wider than
/// two columns, and the widest layout of them fits in `usize`.
pub open spec fn displayable(text: Seq<char>) -> bool {
    &&& cluster_count(text) * TABSTOP <= usize::MAX
    &&& forall|i: int| 0 <= i < cluster_count(text) ==> cjk_width(#[trigger] cluster(text, i)) <= 2
}

/// Calls `grapheme_indices(true)` of `unicode_segmentation` and keeps the
/// byte offsets. Trusted: the offsets are those of the extended grapheme
/// clusters of `s`, which are consecutive non-empty slices of `s` that
/// start at byte 0 and cover it; and between two printable ASCII
/// characters there is always a boundary, so that a text of such
/// characters only has a cluster at each byte.
#[verifier::external_body]
pub(crate) fn grapheme_offsets(s: &str) -> (r: Vec<usize>)
    ensures
        r@ == grapheme_starts(s@),
        is_segmentation(r@, s@),
        printable_ascii(s@) ==> r@ == one_by_one(s@.len()),
{
    s.grapheme_indices(true).map(|(offset, _)| offset).collect()
}

/// Calls `split_word_bound_indices` of `unicode_segmentation` and keeps the
/// byte offsets. Trusted: the offsets are those of the pieces into which
/// word boundaries cut `s`, which are consecutive non-empty slices of `s`
/// that start at byte 0 and cover it.
#[verifier::external_body]
pub(crate) fn word_offsets(s: &str) -> (r: Vec<usize>)
    ensures
        r@ == word_starts(s@),
        is_segmentation(r@, s@),
{
    s.split_word_bound_indices().map(|(offset, _)| offset).collect()
}

/// Calls `width_cjk` of `unicode_width`. Trusted: the result is the
/// display width of `s` in a CJK context, which is 1 for a text of one
/// printable ASCII character.
#[verifier::external_body]
fn display_width_cjk(s: &str) -> (r: usize)
    ensures
        r == cjk_width(s@),
        s@.len() == 1 && printable_ascii(s@) ==> r == 1,
{
    s.width_cjk()
}

/// Each piece of a segmentation lies between two character boundaries and is not empty.
pub proof fn lemma_piece_bounds(starts: Seq<usize>, text: Seq<char>, i: int)
    requires
        is_segmentation(starts, text),
        0 <= i < starts.len(),
    ensures
        0 <= piece_start(starts, text, i) < piece_start(starts, text, i + 1) <= utf8(text).len(),
        is_boundary(text, piece_start(starts, text, i)),
        is_boundary(text, piece_start(starts, text, i + 1)),
        utf8(piece(starts, text, i)) == utf8(text).subrange(
            piece_start(starts, text, i),
            piece_start(starts, text, i + 1),
        ),
        piece(starts, text, i).len() > 0,
{
    let bytes = utf8(text);
    let a = piece_start(starts, text, i);
    let b = piece_start(starts, text, i + 1);
    encode_utf8_valid_utf8(text);
    is_char_boundary_start_end_of_seq(bytes);
    assert(is_boundary(text, starts[i] as int));
    if i + 1 < starts.len() {
        assert(is_boundary(text, starts[i + 1] as int));
    }
    lemma_boundary_of_pieces(bytes, b, a);
    valid_utf8_split(bytes, b);
    let head = bytes.subrange(0, b);
    valid_utf8_split(head, a);
    assert(head.subrange(a, head.len() as int) =~= bytes.subrange(a, b));
    decode_utf8_encode_utf8(bytes.subrange(a, b));
    if piece(starts, text, i).len() == 0 {
        assert(utf8(piece(starts, text, i)).len() == 0);
    }
}

/// The first `n` pieces of a segmentation, one behind the other.
pub open spec fn joined_pieces(starts: Seq<usize>, text: Seq<char>, n: int) -> Seq<char>
    decreases n,
{
    if n <= 0 {
        seq![]
    } else {
        joined_pieces(starts, text, n - 1) + piece(starts, text, n - 1)
    }
}

/// The pieces of a segmentation, one behind the other, are the text.
pub proof fn lemma_pieces_cover(starts: Seq<usize>, text: Seq<char>, n: int)
    requires
        is_segmentation(starts, text),
        0 <= n <= starts.len(),
    ensures
        joined_pieces(starts, text, n) == text_range(text, 0, piece_start(starts, text, n)),
        is_boundary(text, piece_start(starts, text, n)),
        n == starts.len() ==> joined_pieces(starts, text, n) == text,
    decreases n,
{
    let bytes = utf8(text);
    encode_utf8_valid_utf8(text);
    is_char_boundary_start_end_of_seq(bytes);
    if n == 0 {
        assert(bytes.subrange(0, 0) =~= Seq::<u8>::empty());
        assert(piece_start(starts, text, 0) == 0);
    } else {
        lemma_pieces_cover(starts, text, n - 1);
        lemma_piece_bounds(starts, text, n - 1);
        crate::text::lemma_text_range_concat(
            text,
            0,
            piece_start(starts, text, n - 1),
            piece_start(starts, text, n),
        );
    }
    if n == starts.len() {
        assert(bytes.subrange(0, bytes.len() as int) =~= bytes);
        encode_utf8_decode_utf8(text);
    }
}

/// In a text of printable ASCII characters whose clusters start at each
/// byte, cluster `i` is character `i`.
pub proof fn lemma_ascii_cluster(text: Seq<char>, i: int)
    requires
        0 <= i < grapheme_starts(text).len() <= usize::MAX,
    ensures
        printable_ascii(text) && grapheme_starts(text) == one_by_one(text.len()) ==> cluster(
            text,
            i,
        ) == seq![text[i]] && printable_ascii(cluster(text, i)) && text[i] != '\t',
{
    if printable_ascii(text) && grapheme_starts(text) == one_by_one(text.len()) {
        let starts = grapheme_starts(text);
        lemma_ascii_range(text, i, i + 1);
        assert(text.subrange(i, i + 1) =~= seq![text[i]]);
        assert(starts[i] == i);
        assert(piece_start(starts, text, i) == i);
        assert(piece_start(starts, text, i + 1) == i + 1) by {
            if i + 1 < starts.len() {
                assert(starts[i + 1] == i + 1);
            }
        }
        assert(' ' <= text[i]);
    }
}

/// A text with a cluster that is not one column wide is not one of
/// printable ASCII characters with a cluster at each byte.
pub proof fn lemma_no_plain_text(text: Seq<char>, i: int)
    requires
        0 <= i < grapheme_starts(text).len() <= usize::MAX,
        cjk_width(cluster(text, i)) != 1,
        cluster(text, i).len() == 1 && printable_ascii(cluster(text, i)) ==> cjk_width(
            cluster(text, i),
        ) == 1,
    ensures
        !(printable_ascii(text) && grapheme_starts(text) == one_by_one(text.len())),
{
    lemma_ascii_cluster(text, i);
}

/// Number of graphemes of `s`, where `s` can be laid out in columns.
pub fn displayed_len(s: &str) -> (r: Option<usize>)
    ensures
        r is Some <==> displayable(s@),
        r matches Some(n) ==> n == cluster_count(s@),
        plain_where_ascii(s@),
        printable_ascii(s@) && s@.len() * TABSTOP <= usize::MAX ==> r == Some(s@.len() as usize),
{
    let starts = grapheme_offsets(s);
    let n: usize = starts.len();
    let mut i: usize = 0;
    while i < n
        invariant
            i <= n,
            n == starts.len(),
            starts@ == grapheme_starts(s@),
            is_segmentation(starts@, s@),
            printable_ascii(s@) ==> starts@ == one_by_one(s@.len()),
            forall|j: int| 0 <= j < i ==> cjk_width(#[trigger] cluster(s@, j)) <= 2,
            printable_ascii(s@) ==> forall|j: int|
                0 <= j < i ==> cjk_width(seq![#[trigger] s@[j]]) == 1,
        decreases n - i,
    {
        proof {
            lemma_piece_bounds(starts@, s@, i as int);
            lemma_ascii_cluster(s@, i as int);
        }
        let end: usize = if i + 1 < n {
            starts[i + 1]
        } else {
            byte_len(s)
        };
        let part = substring(s, starts[i], end);
        if display_width_cjk(part) > 2 {
            assert(cjk_width(cluster(s@, i as int)) > 2);
            proof {
                lemma_no_plain_text(s@, i as int);
            }
            return None;
        }
        i += 1;
    }
    if n > usize::MAX / TABSTOP {
        return None;
    }
    Some(n)
}

/// Whether `s` can be laid out in columns. A text of printable ASCII
/// characters can, unless it is too long for its columns to be counted.
pub fn is_displayable(s: &str) -> (r: bool)
    ensures
        r == displayable(s@),
        plain_where_ascii(s@),
        printable_ascii(s@) && s@.len() * TABSTOP <= usize::MAX ==> r,
{
    displayed_len(s).is_some()
}

/// Cuts `s` into its graphemes. The second vector holds the byte offset at
/// which each grapheme starts.
pub fn str_to_graphemes(s: &str) -> (r: (Vec<Grapheme>, Vec<usize>))
    requires
        displayable(s@),
    ensures
        r.1@ == grapheme_starts(s@),
        is_segmentation(r.1@, s@),
        plain_where_ascii(s@),
        r.0.len() == r.1.len(),
        forall|i: int| 0 <= i < r.0.len() ==> (#[trigger] r.0[i])@ == cluster_view(s@, i),
        forall|i: int| 0 <= i < r.0.len() ==> (#[trigger] r.0[i])@.wf(),
{
    let starts = grapheme_offsets(s);
    let n: usize = starts.len();
    let mut graphemes: Vec<Grapheme> = Vec::new();
    let mut i: usize = 0;
    while i < n
        invariant
            i <= n,
            n == starts.len(),
            starts@ == grapheme_starts(s@),
            is_segmentation(starts@, s@),
            printable_ascii(s@) ==> starts@ == one_by_one(s@.len()),
            printable_ascii(s@) ==> forall|j: int|
                0 <= j < i ==> cjk_width(seq![#[trigger] s@[j]]) == 1,
            displayable(s@),
            graphemes.len() == i,
            forall|j: int| 0 <= j < i ==> (#[trigger] graphemes[j])@ == cluster_view(s@, j),
            forall|j: int| 0 <= j < i ==> (#[trigger] graphemes[j])@.wf(),
        decreases n - i,
    {
        proof {
            lemma_piece_bounds(starts@, s@, i as int);
            lemma_ascii_cluster(s@, i as int);
        }
        let end: usize = if i + 1 < n {
            starts[i + 1]
        } else {
            byte_len(s)
        };
        let part = substring(s, starts[i], end);
        assert(part@ == cluster(s@, i as int));
        let w: usize = display_width_cjk(part);
        let grapheme = Grapheme {
            string: String::from_str(part),
            width: GraphemeWidth::from_usize(w),
        };
        graphemes.push(grapheme);
        i += 1;
    }
    (graphemes, starts)
}

/// The graphemes of the empty text: there are none.
pub fn no_graphemes() -> (r: (Vec<Grapheme>, Vec<usize>))
    ensures
        displayable(Seq::<char>::empty()),
        cluster_count(Seq::<char>::empty()) == 0,
        r.0.len() == 0,
        r.1@ == grapheme_starts(Seq::<char>::empty()),
        is_segmentation(r.1@, Seq::<char>::empty()),
        plain_where_ascii(Seq::<char>::empty()),
{
    let empty = String::new();
    let starts = grapheme_offsets(empty.as_str());
    assert(utf8(Seq::<char>::empty()).len() == 0);
    (Vec::new(), starts)
}

/// Cuts `s` into its graphemes where it can be laid out in columns.
pub fn try_str_to_graphemes(s: &str) -> (r: Option<(Vec<Grapheme>, Vec<usize>)>)
    ensures
        r is Some <==> displayable(s@),
        printable_ascii(s@) && s@.len() * TABSTOP <= usize::MAX ==> r is Some,
        plain_where_ascii(s@),
        r matches Some(p) ==> {
            &&& p.1@ == grapheme_starts(s@)
            &&& is_segmentation(p.1@, s@)
            &&& p.0.len() == p.1.len()
            &&& forall|i: int| 0 <= i < p.0.len() ==> (#[trigger] p.0[i])@ == cluster_view(s@, i)
        },
{
    if is_displayable(s) {
        Some(str_to_graphemes(s))
    } else {
        None
    }
}

} // verus!
