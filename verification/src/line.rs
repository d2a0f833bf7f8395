//! An editable line of text, kept together with its graphemes.

use vstd::prelude::*;
use vstd::string::*;
use vstd::utf8::*;

use crate::grapheme::{
    cjk_width, cluster_count, cluster_view, displayable, displayed_len, grapheme_starts,
    is_displayable, is_segmentation, lemma_ascii_cluster, lemma_piece_bounds, no_graphemes,
    one_by_one, piece_start, plain_where_ascii, str_to_graphemes, word_offsets, word_starts,
    Grapheme, GraphemeView, GraphemeWidth, TABSTOP,
};
use crate::text::{
    byte_len, find_all_bytes, find_bytes, first_occurrence, is_boundary, lemma_ascii_range,
    lemma_first_occurrence,
    lemma_occurrences_bounds, lemma_text_range_split, occurrences, printable_ascii, push_char,
    splice, spliced, substring, text_range, utf8,
};

verus! {

/// The graphemes of `text` as contracts see them.
pub open spec fn cells_of(text: Seq<char>) -> Seq<GraphemeView> {
    Seq::new(cluster_count(text), |i: int| cluster_view(text, i))
}

/// Column at which cell `i` starts: the columns taken by the cells before
/// it, each laid out where the one before ends. Past the last cell this is
/// the width of the whole line.
pub open spec fn width_until(cells: Seq<GraphemeView>, i: int) -> nat
    decreases i,
{
    if i <= 0 {
        0
    } else if i > cells.len() {
        width_until(cells, cells.len() as int)
    } else {
        let before = width_until(cells, i - 1);
        before + cells[i - 1].width_at(before)
    }
}

/// What one cell that starts at column `start` shows in the window of
/// columns `[left, right)`: nothing when it lies outside, `>` when it
/// reaches past the right edge, `<` when it starts before the left edge,
/// and its own text when it lies inside.
pub open spec fn cell_shown(cell: GraphemeView, start: nat, left: nat, right: nat) -> Seq<char> {
    let end = start + cell.width_at(start);
    if start >= right || end <= left {
        seq![]
    } else if end > right {
        seq!['>']
    } else if start < left {
        seq!['<']
    } else {
        cell.text
    }
}

/// What the first `n` cells show in the window of columns `[left, right)`.
pub open spec fn visible(cells: Seq<GraphemeView>, left: nat, right: nat, n: int) -> Seq<char>
    decreases n,
{
    if n <= 0 {
        seq![]
    } else {
        visible(cells, left, right, n - 1) + cell_shown(
            cells[n - 1],
            width_until(cells, n - 1),
            left,
            right,
        )
    }
}

/// Every cell takes between one column and a tab stop.
pub proof fn lemma_width_until_step(cells: Seq<GraphemeView>, i: int)
    requires
        0 <= i < cells.len(),
    ensures
        width_until(cells, i) + 1 <= width_until(cells, i + 1) <= width_until(cells, i) + TABSTOP,
        width_until(cells, i + 1) == width_until(cells, i) + cells[i].width_at(
            width_until(cells, i),
        ),
{
}

/// A line without graphemes has no width.
pub proof fn lemma_width_until_empty(cells: Seq<GraphemeView>, i: int)
    requires
        cells.len() == 0,
    ensures
        width_until(cells, i) == 0,
{
    reveal_with_fuel(width_until, 2);
}

/// Columns grow with the cell index, by at most a tab stop per cell.
pub proof fn lemma_width_until_bounds(cells: Seq<GraphemeView>, i: int, j: int)
    requires
        0 <= i <= j <= cells.len(),
    ensures
        width_until(cells, i) + (j - i) <= width_until(cells, j) <= width_until(cells, i) + (j
            - i) * TABSTOP,
    decreases j - i,
{
    if i < j {
        lemma_width_until_bounds(cells, i, j - 1);
        lemma_width_until_step(cells, j - 1);
        assert((j - i) * TABSTOP == (j - 1 - i) * TABSTOP + TABSTOP) by (nonlinear_arith);
    }
}

/// Cells that start at or right of the right edge show nothing.
pub proof fn lemma_visible_stops(
    cells: Seq<GraphemeView>,
    left: nat,
    right: nat,
    k: int,
    n: int,
)
    requires
        0 <= k <= n <= cells.len(),
        width_until(cells, k) >= right,
    ensures
        visible(cells, left, right, n) == visible(cells, left, right, k),
    decreases n - k,
{
    if k < n {
        lemma_visible_stops(cells, left, right, k, n - 1);
        lemma_width_until_bounds(cells, k, n - 1);
        assert(cell_shown(cells[n - 1], width_until(cells, n - 1), left, right) =~= seq![]);
        assert(visible(cells, left, right, n) =~= visible(cells, left, right, n - 1));
    }
}

/// Index of the first piece, from piece `g` on, that starts at or after byte `p`.
pub open spec fn piece_at_or_after(starts: Seq<usize>, p: int, g: int) -> Option<int>
    decreases starts.len() as int + 1 - g,
{
    if g < 0 || g >= starts.len() {
        None
    } else if starts[g] >= p {
        Some(g)
    } else {
        piece_at_or_after(starts, p, g + 1)
    }
}

/// How the cells of a line fall into a window of columns: whether a cell
/// is cut by the left edge, which cells `[first, last)` lie inside, and
/// whether a cell is cut by the right edge.
pub struct SliceLayout {
    pub left_cut: bool,
    pub first: int,
    pub last: int,
    pub right_cut: bool,
}

/// How the first `n` cells fall into the window of columns `[left, right)`.
pub open spec fn layout(cells: Seq<GraphemeView>, left: nat, right: nat, n: int) -> SliceLayout
    decreases n,
{
    if n <= 0 {
        SliceLayout { left_cut: false, first: 0, last: 0, right_cut: false }
    } else {
        let before = layout(cells, left, right, n - 1);
        let start = width_until(cells, n - 1);
        let end = start + cells[n - 1].width_at(start);
        if start >= right || end <= left {
            before
        } else if end > right {
            SliceLayout { right_cut: true, ..before }
        } else if start < left {
            SliceLayout { left_cut: true, ..before }
        } else if before.first == before.last {
            SliceLayout { first: n - 1, last: n, ..before }
        } else {
            SliceLayout { last: n, ..before }
        }
    }
}

/// The texts of the cells `[a, b)`, one behind the other.
pub open spec fn concat_texts(cells: Seq<GraphemeView>, a: int, b: int) -> Seq<char>
    decreases b - a,
{
    if b <= a {
        seq![]
    } else {
        concat_texts(cells, a, b - 1) + cells[b - 1].text
    }
}

/// What a window shows of a line that falls into it as `l` says: the mark
/// of a cell cut on the left, the cells inside, the mark of a cell cut on
/// the right.
pub open spec fn layout_text(cells: Seq<GraphemeView>, l: SliceLayout) -> Seq<char> {
    (if l.left_cut {
        seq!['<']
    } else {
        seq![]
    }) + concat_texts(cells, l.first, l.last) + (if l.right_cut {
        seq!['>']
    } else {
        seq![]
    })
}

/// What a window shows of a line is at most one cell cut on the left, then
/// the cells inside, which follow one another, then at most one cell cut
/// on the right.
pub proof fn lemma_layout(cells: Seq<GraphemeView>, left: nat, right: nat, n: int)
    requires
        0 <= n <= cells.len(),
    ensures
        visible(cells, left, right, n) == layout_text(cells, layout(cells, left, right, n)),
        0 <= layout(cells, left, right, n).first <= layout(cells, left, right, n).last <= n,
        layout(cells, left, right, n).right_cut ==> width_until(cells, n) > right,
        layout(cells, left, right, n).first < layout(cells, left, right, n).last && layout(
            cells,
            left,
            right,
            n,
        ).last < n ==> width_until(cells, n) >= right,
        layout(cells, left, right, n).left_cut ==> width_until(cells, n) > left && n >= 1,
        layout(cells, left, right, n).first < layout(cells, left, right, n).last ==> width_until(
            cells,
            n,
        ) > left,
        layout(cells, left, right, n).left_cut && layout(cells, left, right, n).first < layout(
            cells,
            left,
            right,
            n,
        ).last ==> layout(cells, left, right, n).first >= 1,
    decreases n,
{
    if n > 0 {
        lemma_layout(cells, left, right, n - 1);
        lemma_width_until_step(cells, n - 1);
        let before = layout(cells, left, right, n - 1);
        let now = layout(cells, left, right, n);
        let start = width_until(cells, n - 1);
        let end = start + cells[n - 1].width_at(start);
        let shown = cell_shown(cells[n - 1], start, left, right);
        assert(visible(cells, left, right, n) == layout_text(cells, before) + shown);
        if start >= right || end <= left {
            assert(shown =~= seq![]);
            assert(layout_text(cells, before) + shown =~= layout_text(cells, now));
        } else if end > right {
            assert(layout_text(cells, before) + shown =~= layout_text(cells, now));
        } else if start < left {
            assert(concat_texts(cells, before.first, before.last) =~= seq![]);
            assert(layout_text(cells, before) + shown =~= layout_text(cells, now));
        } else if before.first == before.last {
            assert(concat_texts(cells, before.first, before.last) =~= seq![]);
            assert(concat_texts(cells, n - 1, n - 1) =~= seq![]);
            assert(concat_texts(cells, n - 1, n) =~= cells[n - 1].text);
            assert(layout_text(cells, before) + shown =~= layout_text(cells, now));
        } else {
            assert(before.last == n - 1);
            assert(layout_text(cells, before) + shown =~= layout_text(cells, now));
        }
    }
}

/// Cells that start at or right of the right edge do not change how the
/// line falls into the window.
pub proof fn lemma_layout_stops(cells: Seq<GraphemeView>, left: nat, right: nat, k: int, n: int)
    requires
        0 <= k <= n <= cells.len(),
        width_until(cells, k) >= right,
    ensures
        layout(cells, left, right, n) == layout(cells, left, right, k),
    decreases n - k,
{
    if k < n {
        lemma_layout_stops(cells, left, right, k, n - 1);
        lemma_width_until_bounds(cells, k, n - 1);
    }
}

/// The texts of the graphemes `[a, b)` of `text`, one behind the other, are
/// the text between the bytes at which grapheme `a` and grapheme `b` start.
pub proof fn lemma_concat_texts(text: Seq<char>, a: int, b: int)
    requires
        is_segmentation(grapheme_starts(text), text),
        0 <= a <= b <= cluster_count(text),
    ensures
        concat_texts(cells_of(text), a, b) == text_range(
            text,
            byte_offset_in(text, a),
            byte_offset_in(text, b),
        ),
        byte_offset_in(text, a) <= byte_offset_in(text, b) <= utf8(text).len(),
        is_boundary(text, byte_offset_in(text, a)),
        is_boundary(text, byte_offset_in(text, b)),
        a < b ==> byte_offset_in(text, a) < byte_offset_in(text, b),
        a >= 1 ==> byte_offset_in(text, a) >= 1,
    decreases b - a,
{
    let starts = grapheme_starts(text);
    encode_utf8_valid_utf8(text);
    is_char_boundary_start_end_of_seq(utf8(text));
    if a < cluster_count(text) {
        lemma_piece_bounds(starts, text, a);
    }
    if a >= 1 {
        lemma_piece_bounds(starts, text, a - 1);
    }
    if a == b {
        assert(utf8(text).subrange(byte_offset_in(text, a), byte_offset_in(text, a)) =~= seq![]);
        assert(concat_texts(cells_of(text), a, b) =~= text_range(
            text,
            byte_offset_in(text, a),
            byte_offset_in(text, b),
        ));
    } else {
        lemma_concat_texts(text, a, b - 1);
        lemma_piece_bounds(starts, text, b - 1);
        crate::text::lemma_text_range_concat(
            text,
            byte_offset_in(text, a),
            byte_offset_in(text, b - 1),
            byte_offset_in(text, b),
        );
    }
}

/// How a line falls into a window of columns, in bytes of its text.
pub struct VisibleParts {
    pub left_cut: bool,
    pub core_start: usize,
    pub core_end: usize,
    pub right_cut: bool,
}

/// A line whose graphemes are all one column wide, none of them a tab,
/// takes as many columns as it has graphemes.
pub proof fn lemma_single_width_line(cells: Seq<GraphemeView>, i: int)
    requires
        0 <= i <= cells.len(),
        forall|k: int|
            0 <= k < cells.len() ==> !(#[trigger] cells[k]).is_tab() && cells[k].width
                == GraphemeWidth::Half,
    ensures
        width_until(cells, i) == i,
    decreases i,
{
    if i > 0 {
        lemma_single_width_line(cells, i - 1);
    }
}

/// Byte offset at which grapheme `i` of `text` starts; the byte length of
/// `text` for every `i` past the last grapheme.
pub open spec fn byte_offset_in(text: Seq<char>, i: int) -> int {
    piece_start(grapheme_starts(text), text, i)
}

/// `text` after `c` is put in front of grapheme `idx`, or at the end
/// where there is no such grapheme.
pub open spec fn insert_at(text: Seq<char>, c: char, idx: int) -> Seq<char> {
    spliced(text, byte_offset_in(text, idx), byte_offset_in(text, idx), seq![c])
}

/// `text` after grapheme `idx` is taken out; the same text where there is
/// no such grapheme.
pub open spec fn delete_at(text: Seq<char>, idx: int) -> Seq<char> {
    if 0 <= idx < cluster_count(text) {
        spliced(text, byte_offset_in(text, idx), byte_offset_in(text, idx + 1), seq![])
    } else {
        text
    }
}

/// The text of the graphemes of `text` before grapheme `at`.
pub open spec fn head_of(text: Seq<char>, at: int) -> Seq<char> {
    text_range(text, 0, byte_offset_in(text, at))
}

/// The text of the graphemes of `text` from grapheme `at` on.
pub open spec fn tail_of(text: Seq<char>, at: int) -> Seq<char> {
    text_range(text, byte_offset_in(text, at), utf8(text).len() as int)
}

/// Index of the grapheme at which the first occurrence of `pattern` in
/// `text` at or after grapheme `start` is found: the first grapheme that
/// starts at or after the first byte of the occurrence. Nothing is found
/// for an empty pattern, nor from a grapheme that the text does not have.
pub open spec fn search_in(text: Seq<char>, pattern: Seq<char>, start: int) -> Option<int> {
    if pattern.len() == 0 || start < 0 || start >= cluster_count(text) {
        None
    } else {
        match first_occurrence(utf8(text), utf8(pattern), byte_offset_in(text, start)) {
            None => None,
            Some(p) => piece_at_or_after(grapheme_starts(text), p, 0),
        }
    }
}

/// `i`, or `n` where `i` is more.
pub open spec fn at_most(i: int, n: nat) -> int {
    if i <= n {
        i
    } else {
        n as int
    }
}

/// What the edits make of a text of printable ASCII characters that has a
/// grapheme for each of them: graphemes are counted as characters are,
/// and each edit leaves such a text again.
pub proof fn lemma_ascii_edits(text: Seq<char>, c: char, idx: int)
    requires
        printable_ascii(text),
        grapheme_starts(text) == one_by_one(text.len()),
        text.len() <= usize::MAX,
        0 <= idx,
    ensures
        head_of(text, idx) == text.subrange(0, at_most(idx, text.len())),
        tail_of(text, idx) == text.subrange(at_most(idx, text.len()), text.len() as int),
        printable_ascii(head_of(text, idx)),
        printable_ascii(tail_of(text, idx)),
        insert_at(text, c, idx).len() == text.len() + 1,
        ' ' <= c <= '~' ==> printable_ascii(insert_at(text, c, idx)),
        printable_ascii(delete_at(text, idx)),
        delete_at(text, idx).len() == text.len() - (if idx < text.len() {
            1int
        } else {
            0int
        }),
{
    let n = text.len() as int;
    let at = if idx <= n { idx } else { n };
    lemma_ascii_range(text, 0, at);
    lemma_ascii_range(text, at, n);
    assert(byte_offset_in(text, idx) == at);
    if idx < n {
        lemma_ascii_range(text, idx + 1, n);
        lemma_ascii_range(text, 0, idx);
        assert(byte_offset_in(text, idx + 1) == idx + 1);
        assert(delete_at(text, idx) =~= text.subrange(0, idx) + text.subrange(idx + 1, n));
    }
    assert(insert_at(text, c, idx) =~= text.subrange(0, at) + seq![c] + text.subrange(at, n));
}

/// The byte behind the occurrence of `pattern` that `search_in` finds from
/// grapheme `start`.
pub open spec fn search_end_in(text: Seq<char>, pattern: Seq<char>, start: int) -> int {
    first_occurrence(utf8(text), utf8(pattern), byte_offset_in(text, start))->0 + utf8(
        pattern,
    ).len()
}

/// The grapheme from which a search goes on after the find that
/// `search_in` makes from grapheme `start`, so that no later find reaches
/// into this one: the first grapheme behind the found one that starts at
/// or behind the end of the occurrence. Where there is no such grapheme,
/// and where nothing is found, it is the number of graphemes.
pub open spec fn search_resume_in(text: Seq<char>, pattern: Seq<char>, start: int) -> int {
    match search_in(text, pattern, start) {
        Some(g) => match piece_at_or_after(
            grapheme_starts(text),
            search_end_in(text, pattern, start),
            g + 1,
        ) {
            Some(h) => h,
            None => cluster_count(text) as int,
        },
        None => cluster_count(text) as int,
    }
}

/// A search goes on behind the grapheme that was found, at a grapheme
/// that starts at or behind the end of the occurrence; every grapheme
/// between the two starts inside the occurrence.
pub proof fn lemma_search_resume(text: Seq<char>, pattern: Seq<char>, start: int)
    requires
        search_in(text, pattern, start) is Some,
    ensures
        search_in(text, pattern, start)->0 < search_resume_in(text, pattern, start)
            <= cluster_count(text),
        search_resume_in(text, pattern, start) < cluster_count(text) ==> byte_offset_in(
            text,
            search_resume_in(text, pattern, start),
        ) >= search_end_in(text, pattern, start),
{
    let g = search_in(text, pattern, start)->0;
    lemma_piece_after(
        grapheme_starts(text),
        first_occurrence(utf8(text), utf8(pattern), byte_offset_in(text, start))->0,
        0,
    );
    lemma_piece_after(grapheme_starts(text), search_end_in(text, pattern, start), g + 1);
}

/// A line of text: the raw string, its graphemes, and the byte offset at
/// which each grapheme starts.
pub struct Line {
    graphemes: Vec<Grapheme>,
    raw_string: String,
    to_str_idx: Vec<usize>,
}

impl View for Line {
    type V = Seq<char>;

    closed spec fn view(&self) -> Seq<char> {
        self.raw_string@
    }
}

impl Line {
    /// The graphemes and the offset table are those of the text, and the
    /// text can be laid out in columns.
    pub closed spec fn wf(&self) -> bool {
        &&& displayable(self@)
        &&& self.to_str_idx@ == grapheme_starts(self@)
        &&& is_segmentation(self.to_str_idx@, self@)
        &&& plain_where_ascii(self@)
        &&& self.graphemes.len() == self.to_str_idx.len()
        &&& forall|i: int|
            0 <= i < self.graphemes.len() ==> (#[trigger] self.graphemes[i])@ == cluster_view(
                self@,
                i,
            )
        &&& forall|i: int| 0 <= i < self.graphemes.len() ==> (#[trigger] self.graphemes[i])@.wf()
    }

    /// The graphemes of the line.
    pub open spec fn cells(&self) -> Seq<GraphemeView> {
        cells_of(self@)
    }

    /// Number of graphemes.
    pub open spec fn spec_len(&self) -> nat {
        cluster_count(self@)
    }

    /// Byte offset at which grapheme `i` starts; the byte length of the
    /// text for every `i` past the last grapheme.
    pub open spec fn byte_offset(&self, i: int) -> int {
        byte_offset_in(self@, i)
    }

    /// What a valid line guarantees about its text.
    pub proof fn lemma_wf(&self)
        requires
            self.wf(),
        ensures
            displayable(self@),
            is_segmentation(grapheme_starts(self@), self@),
            plain_where_ascii(self@),
            self.spec_len() * TABSTOP <= usize::MAX,
            forall|i: int| 0 <= i < self.spec_len() ==> (#[trigger] self.cells()[i]).wf(),
    {
        assert forall|i: int| 0 <= i < self.spec_len() implies (
        #[trigger] self.cells()[i]).wf() by {
            assert(self.graphemes[i]@.wf());
        }
    }

    /// The text after `c` is put in front of grapheme `idx`.
    pub open spec fn with_insert(&self, c: char, idx: int) -> Seq<char> {
        insert_at(self@, c, idx)
    }

    /// The text after grapheme `idx` is taken out.
    pub open spec fn with_delete(&self, idx: int) -> Seq<char> {
        delete_at(self@, idx)
    }

    /// The text of the graphemes before grapheme `at`.
    pub open spec fn head(&self, at: int) -> Seq<char> {
        head_of(self@, at)
    }

    /// The text of the graphemes from grapheme `at` on.
    pub open spec fn tail(&self, at: int) -> Seq<char> {
        tail_of(self@, at)
    }

    /// Where `search` finds `pattern` from grapheme `start` on.
    pub open spec fn spec_search(&self, pattern: Seq<char>, start: int) -> Option<int> {
        search_in(self@, pattern, start)
    }

    /// A line of printable ASCII characters has a grapheme for each of
    /// them, and each takes one column: grapheme `k` starts at column `k`.
    pub proof fn lemma_ascii_width(&self, k: int)
        requires
            self.wf(),
            printable_ascii(self@),
            0 <= k <= self@.len(),
        ensures
            self.spec_len() == self@.len(),
            width_until(self.cells(), k) == k,
    {
        let text = self@;
        let cells = self.cells();
        assert(grapheme_starts(text).len() == text.len());
        assert forall|i: int| 0 <= i < cells.len() implies !(#[trigger] cells[i]).is_tab()
            && cells[i].width == GraphemeWidth::Half by {
            lemma_ascii_cluster(text, i);
            assert(cells[i] == cluster_view(text, i));
            assert(cjk_width(seq![text[i]]) == 1);
        }
        lemma_single_width_line(cells, k);
    }

    /// A line of printable ASCII characters has a grapheme for each of them.
    pub proof fn lemma_ascii_line(&self)
        requires
            self.wf(),
        ensures
            printable_ascii(self@) ==> {
                &&& grapheme_starts(self@) == one_by_one(self@.len())
                &&& self.spec_len() == self@.len()
                &&& self@.len() * TABSTOP <= usize::MAX
            },
    {
    }

    /// Every byte offset of the table is a character boundary of the text.
    pub proof fn lemma_byte_offset(&self, i: int)
        requires
            self.wf(),
        ensures
            0 <= self.byte_offset(i) <= utf8(self@).len(),
            is_boundary(self@, self.byte_offset(i)),
            0 <= i < self.spec_len() ==> self.byte_offset(i) < self.byte_offset(i + 1),
    {
        encode_utf8_valid_utf8(self@);
        is_char_boundary_start_end_of_seq(utf8(self@));
        if 0 <= i < self.spec_len() {
            lemma_piece_bounds(grapheme_starts(self@), self@, i);
        }
    }

    /// Cutting a line in front of a grapheme and joining the two parts
    /// again gives the text back.
    pub proof fn lemma_split_join(&self, at: int)
        requires
            self.wf(),
        ensures
            self.head(at) + self.tail(at) == self@,
    {
        self.lemma_byte_offset(at);
        lemma_text_range_split(self@, self.byte_offset(at));
    }

    fn offset_of(&self, idx: usize) -> (r: usize)
        requires
            self.wf(),
        ensures
            r == self.byte_offset(idx as int),
    {
        if idx < self.to_str_idx.len() {
            self.to_str_idx[idx]
        } else {
            byte_len(self.raw_string.as_str())
        }
    }

    fn text_with_insert(&self, c: char, idx: usize) -> (r: String)
        requires
            self.wf(),
        ensures
            r@ == self.with_insert(c, idx as int),
    {
        proof {
            self.lemma_byte_offset(idx as int);
        }
        let at: usize = self.offset_of(idx);
        let mut mid = String::new();
        push_char(&mut mid, c);
        assert(mid@ =~= seq![c]);
        splice(self.raw_string.as_str(), at, at, mid.as_str())
    }

    fn text_with_delete(&self, idx: usize) -> (r: String)
        requires
            self.wf(),
        ensures
            r@ == self.with_delete(idx as int),
    {
        if idx < self.graphemes.len() {
            proof {
                self.lemma_byte_offset(idx as int);
                self.lemma_byte_offset(idx as int + 1);
            }
            let start: usize = self.offset_of(idx);
            let end: usize = self.offset_of(idx + 1);
            let empty = String::new();
            splice(self.raw_string.as_str(), start, end, empty.as_str())
        } else {
            self.raw_string.clone()
        }
    }

    fn text_head(&self, at: usize) -> (r: &str)
        requires
            self.wf(),
        ensures
            r@ == self.head(at as int),
    {
        proof {
            self.lemma_byte_offset(at as int);
            self.lemma_byte_offset(0);
            encode_utf8_valid_utf8(self@);
            is_char_boundary_start_end_of_seq(utf8(self@));
        }
        substring(self.raw_string.as_str(), 0, self.offset_of(at))
    }

    fn text_tail(&self, at: usize) -> (r: &str)
        requires
            self.wf(),
        ensures
            r@ == self.tail(at as int),
    {
        proof {
            self.lemma_byte_offset(at as int);
            encode_utf8_valid_utf8(self@);
            is_char_boundary_start_end_of_seq(utf8(self@));
        }
        let n: usize = byte_len(self.raw_string.as_str());
        substring(self.raw_string.as_str(), self.offset_of(at), n)
    }

    fn rebuild_fragments(&mut self)
        requires
            displayable(old(self)@),
        ensures
            final(self).wf(),
            final(self)@ == old(self)@,
    {
        let (graphemes, to_str_idx) = str_to_graphemes(self.raw_string.as_str());
        self.graphemes = graphemes;
        self.to_str_idx = to_str_idx;
    }

    /// The line that holds `s`.
    pub fn from_str(s: &str) -> (r: Self)
        requires
            displayable(s@),
        ensures
            r.wf(),
            r@ == s@,
    {
        let (graphemes, to_str_idx) = str_to_graphemes(s);
        Self { graphemes, raw_string: String::from_str(s), to_str_idx }
    }

    /// The line that holds `s`, where `s` can be laid out in columns. A
    /// text of printable ASCII characters can, unless it is too long for
    /// its columns to be counted.
    pub fn try_from_str(s: &str) -> (r: Option<Self>)
        ensures
            r is Some <==> displayable(s@),
            printable_ascii(s@) && s@.len() * TABSTOP <= usize::MAX ==> r is Some,
            r matches Some(line) ==> line.wf() && line@ == s@,
    {
        if is_displayable(s) {
            Some(Self::from_str(s))
        } else {
            None
        }
    }

    /// A copy of grapheme `index`, where the line has it.
    pub fn get_nth_grapheme(&self, index: usize) -> (r: Option<Grapheme>)
        requires
            self.wf(),
        ensures
            r is Some <==> index < self.spec_len(),
            r matches Some(g) ==> g@ == self.cells()[index as int] && g@.wf(),
    {
        if index < self.graphemes.len() {
            Some(self.graphemes[index].clone())
        } else {
            None
        }
    }

    /// Number of graphemes.
    pub fn len(&self) -> (r: usize)
        requires
            self.wf(),
        ensures
            r == self.spec_len(),
    {
        self.graphemes.len()
    }

    /// Whether the line has no graphemes, which is to say no text.
    pub fn is_empty(&self) -> (r: bool)
        requires
            self.wf(),
        ensures
            r == (self.spec_len() == 0),
            r == (self@.len() == 0),
    {
        proof {
            if self@.len() == 0 {
                assert(utf8(self@).len() == 0);
            } else {
                encode_utf8_first_scalar(self@);
            }
        }
        self.len() == 0
    }

    /// Column at which grapheme `graphme_index` starts; the width of the
    /// line for an index past its last grapheme.
    pub fn calc_width_until_grapheme_index(&self, graphme_index: usize) -> (r: usize)
        requires
            self.wf(),
        ensures
            r == width_until(self.cells(), graphme_index as int),
    {
        let n: usize = self.graphemes.len();
        let stop: usize = if graphme_index < n {
            graphme_index
        } else {
            n
        };
        let mut current_pos: usize = 0;
        let mut i: usize = 0;
        while i < stop
            invariant
                self.wf(),
                i <= stop <= n,
                n == self.graphemes.len(),
                n == self.spec_len(),
                n * TABSTOP <= usize::MAX,
                current_pos == width_until(self.cells(), i as int),
            decreases stop - i,
        {
            proof {
                lemma_width_until_step(self.cells(), i as int);
                lemma_width_until_bounds(self.cells(), 0, i as int + 1);
                assert((i + 1) * TABSTOP <= n * TABSTOP) by (nonlinear_arith)
                    requires
                        i + 1 <= n,
                ;
            }
            current_pos += self.graphemes[i].get_width_at_current_pos(current_pos);
            i += 1;
        }
        current_pos
    }

    /// What the window of columns `[left, right)` shows of the line:
    /// graphemes inside it as they are, `<` for one that the left edge
    /// cuts, and `>` for one that the right edge cuts.
    pub fn get_visible_graphemes(&self, left: usize, right: usize) -> (r: String)
        requires
            self.wf(),
        ensures
            r@ == visible(self.cells(), left as nat, right as nat, self.spec_len() as int),
    {
        let n: usize = self.graphemes.len();
        let mut result = String::new();
        let mut current_pos: usize = 0;
        let mut i: usize = 0;
        while i < n && current_pos < right
            invariant
                self.wf(),
                i <= n,
                n == self.graphemes.len(),
                n == self.spec_len(),
                n * TABSTOP <= usize::MAX,
                current_pos == width_until(self.cells(), i as int),
                result@ == visible(self.cells(), left as nat, right as nat, i as int),
            decreases n - i,
        {
            proof {
                lemma_width_until_step(self.cells(), i as int);
                lemma_width_until_bounds(self.cells(), 0, i as int + 1);
                assert((i + 1) * TABSTOP <= n * TABSTOP) by (nonlinear_arith)
                    requires
                        i + 1 <= n,
                ;
            }
            let grapheme = &self.graphemes[i];
            let next_pos: usize = current_pos + grapheme.get_width_at_current_pos(current_pos);
            if next_pos > left {
                if next_pos > right {
                    result.append(">");
                    proof {
                        reveal_strlit(">");
                        assert(">"@ =~= seq!['>']);
                    }
                } else if current_pos < left {
                    result.append("<");
                    proof {
                        reveal_strlit("<");
                        assert("<"@ =~= seq!['<']);
                    }
                } else {
                    result.append(grapheme.as_str());
                }
            }
            proof {
                assert(result@ =~= visible(
                    self.cells(),
                    left as nat,
                    right as nat,
                    i as int + 1,
                ));
            }
            current_pos = next_pos;
            i += 1;
        }
        proof {
            if i < n {
                lemma_visible_stops(self.cells(), left as nat, right as nat, i as int, n as int);
            }
        }
        result
    }
}

impl Line {
    /// Number of graphemes that the line has once `c` stands in front of
    /// grapheme `idx`, where it can then still be laid out in columns.
    pub fn len_after_insert(&self, c: char, idx: usize) -> (r: Option<usize>)
        requires
            self.wf(),
        ensures
            r is Some <==> displayable(self.with_insert(c, idx as int)),
            r matches Some(n) ==> n == cluster_count(self.with_insert(c, idx as int)),
            printable_ascii(self@) && ' ' <= c <= '~' && (self@.len() + 1) * TABSTOP
                <= usize::MAX ==> r == Some((self@.len() + 1) as usize),
    {
        proof {
            self.lemma_ascii_line();
            if printable_ascii(self@) {
                lemma_ascii_edits(self@, c, idx as int);
            }
        }
        let text = self.text_with_insert(c, idx);
        displayed_len(text.as_str())
    }

    /// Puts `c` in front of grapheme `idx`, or at the end where there is no
    /// such grapheme.
    pub fn insert_char(&mut self, c: char, idx: usize)
        requires
            old(self).wf(),
            displayable(old(self).with_insert(c, idx as int)),
        ensures
            final(self).wf(),
            final(self)@ == old(self).with_insert(c, idx as int),
    {
        self.raw_string = self.text_with_insert(c, idx);
        self.rebuild_fragments();
    }

    /// Inserts as `insert_char` does where the result can be laid out in
    /// columns, and leaves the line as it is where it cannot.
    pub fn try_insert_char(&mut self, c: char, idx: usize) -> (done: bool)
        requires
            old(self).wf(),
        ensures
            final(self).wf(),
            done == displayable(old(self).with_insert(c, idx as int)),
            printable_ascii(old(self)@) && ' ' <= c <= '~' && (old(self)@.len() + 1) * TABSTOP
                <= usize::MAX ==> done,
            done ==> final(self)@ == old(self).with_insert(c, idx as int),
            !done ==> final(self)@ == old(self)@,
    {
        if self.len_after_insert(c, idx).is_some() {
            self.insert_char(c, idx);
            true
        } else {
            false
        }
    }

    /// Number of graphemes that the line has once grapheme `idx` is taken
    /// out, where it can then still be laid out in columns.
    pub fn len_after_delete(&self, idx: usize) -> (r: Option<usize>)
        requires
            self.wf(),
        ensures
            r is Some <==> displayable(self.with_delete(idx as int)),
            r matches Some(n) ==> n == cluster_count(self.with_delete(idx as int)),
            printable_ascii(self@) ==> r == Some(
                (if idx < self@.len() {
                    self@.len() - 1
                } else {
                    self@.len() as int
                }) as usize,
            ),
    {
        proof {
            self.lemma_ascii_line();
            if printable_ascii(self@) {
                lemma_ascii_edits(self@, ' ', idx as int);
            }
        }
        let text = self.text_with_delete(idx);
        displayed_len(text.as_str())
    }

    /// Takes out grapheme `idx`; nothing where there is no such grapheme.
    pub fn delete_grapheme(&mut self, idx: usize)
        requires
            old(self).wf(),
            displayable(old(self).with_delete(idx as int)),
        ensures
            final(self).wf(),
            final(self)@ == old(self).with_delete(idx as int),
    {
        if idx < self.graphemes.len() {
            self.raw_string = self.text_with_delete(idx);
            self.rebuild_fragments();
        }
    }

    /// Deletes as `delete_grapheme` does where the result can be laid out
    /// in columns, and leaves the line as it is where it cannot.
    pub fn try_delete_grapheme(&mut self, idx: usize) -> (done: bool)
        requires
            old(self).wf(),
        ensures
            final(self).wf(),
            done == displayable(old(self).with_delete(idx as int)),
            printable_ascii(old(self)@) ==> done,
            done ==> final(self)@ == old(self).with_delete(idx as int),
            !done ==> final(self)@ == old(self)@,
    {
        if self.len_after_delete(idx).is_some() {
            self.delete_grapheme(idx);
            true
        } else {
            false
        }
    }

    /// Number of graphemes of the line followed by `other`, where that
    /// can be laid out in columns.
    pub fn len_after_push(&self, other: &Self) -> (r: Option<usize>)
        ensures
            r is Some <==> displayable(self@ + other@),
            r matches Some(n) ==> n == cluster_count(self@ + other@),
            printable_ascii(self@) && printable_ascii(other@) && (self@.len() + other@.len())
                * TABSTOP <= usize::MAX ==> r == Some((self@.len() + other@.len()) as usize),
    {
        let mut text = self.raw_string.clone();
        text.append(other.raw_string.as_str());
        displayed_len(text.as_str())
    }

    /// Joins as `push_line` does where the result can be laid out in
    /// columns, and leaves the line as it is where it cannot.
    pub fn try_push_line(&mut self, other: &Self) -> (done: bool)
        requires
            old(self).wf(),
            other.wf(),
        ensures
            final(self).wf(),
            done == displayable(old(self)@ + other@),
            printable_ascii(old(self)@) && printable_ascii(other@) && (old(self)@.len()
                + other@.len()) * TABSTOP <= usize::MAX ==> done,
            done ==> final(self)@ == old(self)@ + other@,
            !done ==> final(self)@ == old(self)@,
    {
        if self.len_after_push(other).is_some() {
            self.push_line(other);
            true
        } else {
            false
        }
    }

    /// Puts the text of `other` behind the text of the line.
    pub fn push_line(&mut self, other: &Self)
        requires
            old(self).wf(),
            other.wf(),
            displayable(old(self)@ + other@),
        ensures
            final(self).wf(),
            final(self)@ == old(self)@ + other@,
    {
        self.raw_string.append(other.raw_string.as_str());
        self.rebuild_fragments();
    }

    /// Whether both parts of the line, cut in front of grapheme `at`, can
    /// be laid out in columns.
    pub fn can_split_off(&self, at: usize) -> (r: bool)
        requires
            self.wf(),
        ensures
            r == (at <= self.spec_len() && displayable(self.head(at as int)) && displayable(
                self.tail(at as int),
            )),
            printable_ascii(self@) && at <= self@.len() ==> r,
    {
        proof {
            self.lemma_ascii_line();
            if printable_ascii(self@) {
                lemma_ascii_edits(self@, ' ', at as int);
            }
        }
        at <= self.graphemes.len() && is_displayable(self.text_head(at)) && is_displayable(
            self.text_tail(at),
        )
    }

    /// Cuts the line in front of grapheme `at`: the line keeps what stands
    /// before it and the result holds the rest.
    pub fn split_off(&mut self, at: usize) -> (r: Self)
        requires
            old(self).wf(),
            at <= old(self).spec_len(),
            displayable(old(self).head(at as int)),
            displayable(old(self).tail(at as int)),
        ensures
            final(self).wf(),
            r.wf(),
            final(self)@ == old(self).head(at as int),
            r@ == old(self).tail(at as int),
            final(self)@ + r@ == old(self)@,
    {
        proof {
            self.lemma_split_join(at as int);
        }
        let remainder = Self::from_str(self.text_tail(at));
        self.raw_string = String::from_str(self.text_head(at));
        self.rebuild_fragments();
        remainder
    }

    /// Cuts as `split_off` does where both parts can be laid out in
    /// columns, and leaves the line as it is where not.
    pub fn try_split_off(&mut self, at: usize) -> (r: Option<Self>)
        requires
            old(self).wf(),
        ensures
            final(self).wf(),
            r is Some <==> (at <= old(self).spec_len() && displayable(old(self).head(at as int))
                && displayable(old(self).tail(at as int))),
            printable_ascii(old(self)@) && at <= old(self)@.len() ==> r is Some,
            r matches Some(rest) ==> rest.wf() && final(self)@ == old(self).head(at as int)
                && rest@ == old(self).tail(at as int),
            r is None ==> final(self)@ == old(self)@,
    {
        if self.can_split_off(at) {
            Some(self.split_off(at))
        } else {
            None
        }
    }

    /// Index of the first grapheme that starts at or after byte `str_idx`.
    pub fn to_grapheme_idx(&self, str_idx: usize) -> (r: usize)
        requires
            self.wf(),
            piece_at_or_after(grapheme_starts(self@), str_idx as int, 0) is Some,
        ensures
            piece_at_or_after(grapheme_starts(self@), str_idx as int, 0) == Some(r as int),
            r < self.spec_len(),
    {
        let n: usize = self.to_str_idx.len();
        let mut g: usize = 0;
        while g < n && self.to_str_idx[g] < str_idx
            invariant
                self.wf(),
                n == self.to_str_idx.len(),
                g <= n,
                piece_at_or_after(grapheme_starts(self@), str_idx as int, 0) == piece_at_or_after(
                    grapheme_starts(self@),
                    str_idx as int,
                    g as int,
                ),
            decreases n - g,
        {
            g += 1;
        }
        g
    }

    /// Index of the grapheme at which `pattern` is first found at or after
    /// grapheme `start_idx`. Nothing is found for an empty pattern.
    pub fn search(&self, pattern: &str, start_idx: usize) -> (r: Option<usize>)
        requires
            self.wf(),
        ensures
            match r {
                Some(g) => self.spec_search(pattern@, start_idx as int) == Some(g as int),
                None => self.spec_search(pattern@, start_idx as int) is None,
            },
            r matches Some(g) ==> start_idx <= g < self.spec_len(),
    {
        match self.find_from(pattern, start_idx) {
            Some((g, _)) => Some(g),
            None => None,
        }
    }

    /// Index of the grapheme at which `pattern` is first found at or after
    /// grapheme `start_idx`, and the byte behind the occurrence.
    fn find_from(&self, pattern: &str, start_idx: usize) -> (r: Option<(usize, usize)>)
        requires
            self.wf(),
        ensures
            match r {
                Some((g, end)) => search_in(self@, pattern@, start_idx as int) == Some(g as int)
                    && end == search_end_in(self@, pattern@, start_idx as int),
                None => search_in(self@, pattern@, start_idx as int) is None,
            },
            r matches Some((g, end)) ==> start_idx <= g < self.spec_len(),
    {
        let n: usize = self.to_str_idx.len();
        if start_idx >= n {
            return None;
        }
        let needle = pattern.as_bytes();
        if needle.len() == 0 {
            proof {
                if pattern@.len() > 0 {
                    encode_utf8_first_scalar(pattern@);
                }
            }
            return None;
        }
        assert(pattern@.len() > 0) by {
            if pattern@.len() == 0 {
                assert(utf8(pattern@).len() == 0);
            }
        }
        let byte_index: usize = self.to_str_idx[start_idx];
        let hay = self.raw_string.as_str().as_bytes();
        let hay_len: usize = hay.len();
        match find_bytes(hay, needle, byte_index) {
            None => None,
            Some(p) => {
                proof {
                    lemma_first_occurrence(utf8(self@), utf8(pattern@), byte_index as int);
                }
                if p > self.to_str_idx[n - 1] {
                    proof {
                        lemma_no_piece_after(self.to_str_idx@, p as int, 0);
                    }
                    None
                } else {
                    proof {
                        lemma_piece_found(self.to_str_idx@, p as int, 0, n - 1);
                    }
                    let g: usize = self.to_grapheme_idx(p);
                    proof {
                        lemma_piece_not_before(self.to_str_idx@, p as int, start_idx as int, 0);
                    }
                    Some((g, p + needle.len()))
                }
            },
        }
    }

    /// Index of the grapheme at which `pattern` is first found at or after
    /// grapheme `start_idx`, and the grapheme from which to search on so
    /// that no later find reaches into this one: the first grapheme
    /// behind the found one that starts at or behind the end of the
    /// occurrence, and the number of graphemes where there is none.
    pub fn search_on(&self, pattern: &str, start_idx: usize) -> (r: Option<(usize, usize)>)
        requires
            self.wf(),
        ensures
            match r {
                Some((g, next)) => self.spec_search(pattern@, start_idx as int) == Some(g as int)
                    && next == search_resume_in(self@, pattern@, start_idx as int),
                None => self.spec_search(pattern@, start_idx as int) is None,
            },
            r matches Some((g, next)) ==> start_idx <= g < next <= self.spec_len(),
    {
        match self.find_from(pattern, start_idx) {
            Some((g, end)) => {
                let n: usize = self.to_str_idx.len();
                let mut next: usize = g + 1;
                while next < n && self.to_str_idx[next] < end
                    invariant
                        self.wf(),
                        n == self.to_str_idx.len(),
                        g < next <= n,
                        piece_at_or_after(grapheme_starts(self@), end as int, g + 1)
                            == piece_at_or_after(grapheme_starts(self@), end as int, next as int),
                    decreases n - next,
                {
                    next += 1;
                }
                Some((g, next))
            },
            None => None,
        }
    }

    /// All occurrences of a non-empty `pattern` in the line, none
    /// overlapping another, each as the byte offsets of its first byte
    /// and of the byte after its last.
    pub fn search_all_occurence(&self, pattern: &str) -> (r: Vec<(usize, usize)>)
        ensures
            r@ == occurrences(utf8(self@), utf8(pattern@), 0),
            forall|k: int|
                0 <= k < r@.len() ==> is_boundary(self@, (#[trigger] r@[k]).0 as int)
                    && is_boundary(self@, r@[k].1 as int) && r@[k].0 < r@[k].1,
    {
        let hay = self.raw_string.as_str().as_bytes();
        let n: usize = hay.len();
        proof {
            lemma_occurrences_bounds(self@, pattern@, 0);
        }
        find_all_bytes(hay, pattern.as_bytes())
    }

    /// Byte offsets at which the pieces of the line between word
    /// boundaries start.
    pub fn split_word_bound_indices(&self) -> (r: Vec<usize>)
        ensures
            r@ == word_starts(self@),
            is_segmentation(r@, self@),
    {
        word_offsets(self.raw_string.as_str())
    }

    /// The text of the line.
    pub fn get_raw_str(&self) -> (r: &str)
        ensures
            r@ == self@,
    {
        self.raw_string.as_str()
    }

    /// An owned copy of the text of the line.
    pub fn to_string(&self) -> (r: String)
        ensures
            r@ == self@,
    {
        self.raw_string.clone()
    }

    /// Length of the text in bytes.
    pub fn byte_len(&self) -> (r: usize)
        ensures
            r == utf8(self@).len(),
    {
        byte_len(self.raw_string.as_str())
    }
}

/// No piece starts at or after a byte that lies behind the start of the last piece.
pub proof fn lemma_no_piece_after(starts: Seq<usize>, p: int, g: int)
    requires
        forall|i: int, j: int| 0 <= i < j < starts.len() ==> starts[i] < starts[j],
        starts.len() > 0,
        starts[starts.len() - 1] < p,
        0 <= g,
    ensures
        piece_at_or_after(starts, p, g) is None,
    decreases starts.len() - g,
{
    if g < starts.len() {
        lemma_no_piece_after(starts, p, g + 1);
    }
}

/// Some piece from `g` on starts at or after `p` when piece `k` does.
pub proof fn lemma_piece_found(starts: Seq<usize>, p: int, g: int, k: int)
    requires
        0 <= g <= k < starts.len(),
        starts[k] >= p,
    ensures
        piece_at_or_after(starts, p, g) is Some,
    decreases k - g,
{
    if starts[g] < p {
        lemma_piece_found(starts, p, g + 1, k);
    }
}

/// The first piece that starts at or after `p` is not before piece `s`
/// when piece `s` starts at or before `p`.
pub proof fn lemma_piece_not_before(starts: Seq<usize>, p: int, s: int, g: int)
    requires
        forall|i: int, j: int| 0 <= i < j < starts.len() ==> starts[i] < starts[j],
        0 <= g <= s < starts.len(),
        starts[s] <= p,
    ensures
        piece_at_or_after(starts, p, g) matches Some(r) ==> s <= r < starts.len() && starts[r] >= p,
    decreases starts.len() - g,
{
    if starts[g] < p {
        if g + 1 < starts.len() {
            if g < s {
                lemma_piece_not_before(starts, p, s, g + 1);
            } else {
                lemma_piece_after(starts, p, g + 1);
            }
        }
    }
}

/// What `piece_at_or_after` finds is a piece from `g` on that starts at or after `p`.
pub proof fn lemma_piece_after(starts: Seq<usize>, p: int, g: int)
    requires
        0 <= g,
    ensures
        piece_at_or_after(starts, p, g) matches Some(r) ==> g <= r < starts.len() && starts[r] >= p,
    decreases starts.len() - g,
{
    if g < starts.len() && starts[g] < p {
        lemma_piece_after(starts, p, g + 1);
    }
}

impl Line {
    /// How the line falls into the window of columns `[left, right)`.
    pub open spec fn spec_layout(&self, left: nat, right: nat) -> SliceLayout {
        layout(self.cells(), left, right, self.spec_len() as int)
    }

    /// How the line falls into the window of columns `[left, right)`:
    /// whether a grapheme is cut by the left edge, the bytes of the
    /// graphemes that lie inside, and whether a grapheme is cut by the
    /// right edge.
    pub fn visible_parts(&self, left: usize, right: usize) -> (r: VisibleParts)
        requires
            self.wf(),
        ensures
            r.left_cut == self.spec_layout(left as nat, right as nat).left_cut,
            r.right_cut == self.spec_layout(left as nat, right as nat).right_cut,
            r.core_start == self.byte_offset(self.spec_layout(left as nat, right as nat).first),
            r.core_end == self.byte_offset(self.spec_layout(left as nat, right as nat).last),
            r.core_start <= r.core_end,
            is_boundary(self@, r.core_start as int),
            is_boundary(self@, r.core_end as int),
            r.left_cut && r.core_start < r.core_end ==> r.core_start >= 1,
            visible(self.cells(), left as nat, right as nat, self.spec_len() as int) == (
            if r.left_cut {
                seq!['<']
            } else {
                seq![]
            }) + text_range(self@, r.core_start as int, r.core_end as int) + (if r.right_cut {
                seq!['>']
            } else {
                seq![]
            }),
    {
        let n: usize = self.graphemes.len();
        let mut left_cut = false;
        let mut right_cut = false;
        let mut first: usize = 0;
        let mut last: usize = 0;
        let mut current_pos: usize = 0;
        let mut i: usize = 0;
        while i < n && current_pos < right
            invariant
                self.wf(),
                i <= n,
                n == self.graphemes.len(),
                n == self.spec_len(),
                n * TABSTOP <= usize::MAX,
                current_pos == width_until(self.cells(), i as int),
                layout(self.cells(), left as nat, right as nat, i as int) == (SliceLayout {
                    left_cut,
                    first: first as int,
                    last: last as int,
                    right_cut,
                }),
            decreases n - i,
        {
            proof {
                lemma_width_until_step(self.cells(), i as int);
                lemma_width_until_bounds(self.cells(), 0, i as int + 1);
                assert((i + 1) * TABSTOP <= n * TABSTOP) by (nonlinear_arith)
                    requires
                        i + 1 <= n,
                ;
            }
            let next_pos: usize = current_pos + self.graphemes[i].get_width_at_current_pos(
                current_pos,
            );
            if next_pos > left {
                if next_pos > right {
                    right_cut = true;
                } else if current_pos < left {
                    left_cut = true;
                } else if first == last {
                    first = i;
                    last = i + 1;
                } else {
                    last = i + 1;
                }
            }
            current_pos = next_pos;
            i += 1;
        }
        proof {
            if i < n {
                lemma_layout_stops(self.cells(), left as nat, right as nat, i as int, n as int);
            }
            lemma_layout(self.cells(), left as nat, right as nat, n as int);
            lemma_concat_texts(self@, first as int, last as int);
        }
        VisibleParts {
            left_cut,
            core_start: self.offset_of(first),
            core_end: self.offset_of(last),
            right_cut,
        }
    }
}

impl Default for Line {
    fn default() -> (r: Self)
        ensures
            r.wf(),
            r@ == Seq::<char>::empty(),
    {
        let (graphemes, to_str_idx) = no_graphemes();
        Self { graphemes, raw_string: String::new(), to_str_idx }
    }
}

} // verus!
