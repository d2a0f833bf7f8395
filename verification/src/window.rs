//! The viewport: a buffer, a cursor in it, and the part of it that the screen shows.

use vstd::prelude::*;
use vstd::string::*;

use crate::annotated_string::{AnnotatedString, AnnotatedStringView, Annotation};
use crate::buffer::{all_displayable, all_hits, Buffer, BufferView, SaveRequest};
use crate::editor::{DocumentStatus, DocumentStatusView, RenderContext, SearchDirection};
use crate::highlighter::{lemma_after_lines, BundlerView, HighlighterBundler, LineHighlighter};
use crate::line_view::{rendered, LineView};
use crate::text::{byte_len, printable_ascii, utf8};
use crate::editor_command::Direction;
use crate::filetype::FileType;
use crate::grapheme::{cluster_count, displayable, Grapheme, GraphemeView};
use crate::line::{
    cells_of, lemma_width_until_bounds, lemma_width_until_empty, lemma_width_until_step,
    width_until,
};
use crate::terminal::{Position, Size};
use crate::text::text_lines;

verus! {

/// A place in a document: a grapheme of a line.
#[derive(Copy, Clone, Debug, PartialEq, Eq, Structural)]
pub struct TextLocation {
    pub grapheme_idx: usize,
    pub line_idx: usize,
}

impl Default for TextLocation {
    fn default() -> (r: Self)
        ensures
            r == (TextLocation { grapheme_idx: 0, line_idx: 0 }),
    {
        TextLocation { grapheme_idx: 0, line_idx: 0 }
    }
}

impl TextLocation {
    /// The place comes behind `other` in document order.
    pub open spec fn is_after(self, other: TextLocation) -> bool {
        other.line_idx < self.line_idx || (other.line_idx == self.line_idx && other.grapheme_idx
            < self.grapheme_idx)
    }

    /// The place one step in `direction`, not leaving the range of `usize`.
    pub open spec fn moved(self, direction: Direction) -> TextLocation {
        match direction {
            Direction::Left => TextLocation {
                grapheme_idx: if self.grapheme_idx == 0 {
                    0
                } else {
                    (self.grapheme_idx - 1) as usize
                },
                ..self
            },
            Direction::Right => TextLocation {
                grapheme_idx: if self.grapheme_idx == usize::MAX {
                    usize::MAX
                } else {
                    (self.grapheme_idx + 1) as usize
                },
                ..self
            },
            Direction::Up => TextLocation {
                line_idx: if self.line_idx == 0 {
                    0
                } else {
                    (self.line_idx - 1) as usize
                },
                ..self
            },
            Direction::Down => TextLocation {
                line_idx: if self.line_idx == usize::MAX {
                    usize::MAX
                } else {
                    (self.line_idx + 1) as usize
                },
                ..self
            },
        }
    }
}

/// The row at which the window begins once row `row` has to be in it: the
/// row at which it began where `row` is among its `height` rows, and else
/// the nearest row to that for which it is.
pub open spec fn scrolled_row(offset: nat, row: nat, height: nat) -> nat {
    if row < offset {
        row
    } else if row >= offset + height {
        (row - height + 1) as nat
    } else {
        offset
    }
}

/// The column at which the window begins once the columns `[left, right)`
/// have to be in it: the column at which it began where they are among
/// its `width` columns, and else the nearest column to that which puts
/// `left` at its left edge or `right` at its right edge.
pub open spec fn scrolled_col(offset: nat, left: nat, right: nat, width: nat) -> nat {
    if left < offset {
        left
    } else if right > offset + width {
        (right - width) as nat
    } else {
        offset
    }
}

/// Distance between two rows or two columns.
pub open spec fn distance(a: nat, b: nat) -> nat {
    if a <= b {
        (b - a) as nat
    } else {
        (a - b) as nat
    }
}

/// No window that has row `row` among its `height` rows begins nearer to
/// the row `offset` than the one that `scrolled_row` gives.
pub proof fn lemma_scrolled_row_is_nearest(offset: nat, row: nat, height: nat, other: nat)
    requires
        other <= row < other + height,
    ensures
        scrolled_row(offset, row, height) <= row < scrolled_row(offset, row, height) + height,
        distance(offset, scrolled_row(offset, row, height)) <= distance(offset, other),
{
}

/// No window that has the columns `[left, right)` among its `width`
/// columns begins nearer to the column `offset` than the one that
/// `scrolled_col` gives.
pub proof fn lemma_scrolled_col_is_nearest(
    offset: nat,
    left: nat,
    right: nat,
    width: nat,
    other: nat,
)
    requires
        left <= right,
        other <= left,
        right <= other + width,
    ensures
        scrolled_col(offset, left, right, width) <= left,
        right <= scrolled_col(offset, left, right, width) + width,
        distance(offset, scrolled_col(offset, left, right, width)) <= distance(offset, other),
{
}

/// The first of the places `hits`, from index `i` on, that comes behind `cursor`.
pub open spec fn first_after(hits: Seq<TextLocation>, cursor: TextLocation, i: int) -> Option<
    TextLocation,
>
    decreases hits.len() - i,
{
    if i < 0 || i >= hits.len() {
        None
    } else if hits[i].is_after(cursor) {
        Some(hits[i])
    } else {
        first_after(hits, cursor, i + 1)
    }
}

/// The last of the first `n` places `hits` that comes before `cursor`.
pub open spec fn last_before(hits: Seq<TextLocation>, cursor: TextLocation, n: int) -> Option<
    TextLocation,
>
    decreases n,
{
    if n <= 0 || n > hits.len() {
        None
    } else if cursor.is_after(hits[n - 1]) {
        Some(hits[n - 1])
    } else {
        last_before(hits, cursor, n - 1)
    }
}

/// Name of the editor, as the welcome banner shows it.
pub const NAME: &'static str = "modal_editor";

/// Version of the editor, as the welcome banner shows it.
pub const VERSION: &'static str = "0.1.0";

/// The text of the welcome banner.
pub open spec fn welcome_text() -> Seq<char> {
    NAME@ + " editor -- v"@ + VERSION@
}

/// The welcome banner: a message and the cell of the window at which it begins.
pub struct Banner {
    pub position: Position,
    pub message: String,
}

/// What a window draws: one annotated string for each of its rows, from
/// the top, and the welcome banner where the document is empty.
pub struct Frame {
    pub rows: Vec<AnnotatedString>,
    pub banner: Option<Banner>,
}

/// What contracts say of a window.
pub struct WindowView {
    pub buffer: BufferView,
    pub needs_redraw: bool,
    pub cursor: TextLocation,
    pub scroll_offset: Position,
    pub size: Size,
}

impl WindowView {
    /// The graphemes of the line that the cursor is in; none where the
    /// buffer has no such line.
    pub open spec fn line_cells(self) -> Seq<GraphemeView> {
        if self.cursor.line_idx < self.buffer.lines.len() {
            cells_of(self.buffer.lines[self.cursor.line_idx as int])
        } else {
            Seq::empty()
        }
    }

    /// The column at which the grapheme under the cursor starts.
    pub open spec fn col_start(self) -> nat {
        width_until(self.line_cells(), self.cursor.grapheme_idx as int)
    }

    /// The column at which the grapheme behind the one under the cursor starts.
    pub open spec fn col_end(self) -> nat {
        width_until(self.line_cells(), self.cursor.grapheme_idx + 1)
    }

    /// The grapheme under the cursor is a tab.
    pub open spec fn cursor_on_tab(self) -> bool {
        self.cursor.grapheme_idx < self.line_cells().len()
            && self.line_cells()[self.cursor.grapheme_idx as int].is_tab()
    }

    /// The cell of the unbounded canvas at which the cursor is drawn: the
    /// first column of the grapheme under it, and the last column of that
    /// grapheme where it is a tab.
    pub open spec fn absolute_position(self) -> Position {
        Position {
            row: self.cursor.line_idx,
            col: if self.cursor_on_tab() {
                (self.col_end() - 1) as usize
            } else {
                self.col_start() as usize
            },
        }
    }

    /// The cursor names a line of the buffer, the only line where the
    /// buffer has none yet, and a grapheme of that line or the place
    /// behind its last.
    pub open spec fn cursor_valid(self) -> bool {
        &&& self.cursor.line_idx < self.buffer.materialized().lines.len()
        &&& self.cursor.grapheme_idx <= self.buffer.line_length(self.cursor.line_idx as int)
    }

    /// The columns of the grapheme under the cursor and its row lie in the
    /// part of the canvas that the window shows.
    pub open spec fn cursor_visible(self) -> bool {
        &&& self.scroll_offset.row <= self.cursor.line_idx < self.scroll_offset.row
            + self.size.height
        &&& self.scroll_offset.col <= self.col_start()
        &&& self.col_end() <= self.scroll_offset.col + self.size.width
    }

    /// The window has a row, and columns enough for the grapheme under the cursor.
    pub open spec fn fits(self) -> bool {
        &&& self.size.height >= 1
        &&& self.col_end() - self.col_start() <= self.size.width
    }

    /// The window moved by as little as brings the cursor into it, and
    /// marked for drawing where it moved.
    pub open spec fn scrolled(self) -> WindowView {
        let row = scrolled_row(
            self.scroll_offset.row as nat,
            self.cursor.line_idx as nat,
            self.size.height as nat,
        );
        let col = scrolled_col(
            self.scroll_offset.col as nat,
            self.col_start(),
            self.col_end(),
            self.size.width as nat,
        );
        WindowView {
            scroll_offset: Position { row: row as usize, col: col as usize },
            needs_redraw: self.needs_redraw || row != self.scroll_offset.row || col
                != self.scroll_offset.col,
            ..self
        }
    }

    /// The column behind the last column that the window shows, as far as
    /// columns are counted.
    pub open spec fn right_edge(self) -> nat {
        if self.scroll_offset.col + self.size.width <= usize::MAX {
            (self.scroll_offset.col + self.size.width) as nat
        } else {
            usize::MAX as nat
        }
    }

    /// What row `i` of the window shows once `bundler` has highlighted the
    /// document: the line that falls into the row, as the columns of the
    /// window show it, and a tilde where no line falls into the row.
    pub open spec fn row_shown(self, bundler: BundlerView, i: int) -> AnnotatedStringView {
        let line_idx = self.scroll_offset.row + i;
        if line_idx < self.buffer.lines.len() {
            rendered(
                self.buffer.lines[line_idx],
                bundler.annotations(line_idx),
                self.scroll_offset.col as nat,
                self.right_edge(),
            )
        } else {
            AnnotatedStringView { text: "~"@, annots: Seq::<Annotation>::empty() }
        }
    }

    /// `frame` is what the window draws of a file of the kind `file_type`
    /// in which `pattern` is searched for: a row for each row of the
    /// window, and the welcome banner where the document is empty.
    pub open spec fn drawn_as(self, pattern: Option<Seq<char>>, file_type: FileType, frame: Frame)
        -> bool {
        let bundler = BundlerView::initial(pattern, file_type).after_lines(
            self.buffer.lines,
            self.buffer.lines.len() as int,
        );
        &&& frame.rows@.len() == self.size.height
        &&& forall|i: int|
            0 <= i < frame.rows@.len() ==> (#[trigger] frame.rows@[i])@ == self.row_shown(
                bundler,
                i,
            ) && frame.rows@[i]@.wf()
        &&& frame.banner is Some <==> self.buffer.lines.len() == 0
        &&& frame.banner matches Some(banner) ==> banner.message@ == welcome_text()
            && banner.position == self.banner_position()
    }

    /// The welcome banner does not have to be drawn, or the window is wide
    /// enough for it.
    pub open spec fn can_render(self) -> bool {
        self.needs_redraw && self.buffer.lines.len() == 0 ==> utf8(welcome_text()).len()
            <= self.size.width
    }

    /// A window of the size `size` without the `margin` last rows, on an
    /// empty document, not moved, with the cursor at the start.
    pub open spec fn initial(size: Size, margin: usize) -> WindowView {
        WindowView {
            buffer: BufferView::empty(),
            needs_redraw: true,
            cursor: TextLocation { grapheme_idx: 0, line_idx: 0 },
            scroll_offset: Position { col: 0, row: 0 },
            size: Size { width: size.width, height: (size.height - margin) as usize },
        }
    }

    /// The cell of the window at which the welcome banner begins: a third
    /// down the window, and as far from the left edge as from the right.
    pub open spec fn banner_position(self) -> Position {
        Position {
            row: self.size.height / 3,
            col: ((self.size.width - utf8(welcome_text()).len()) / 2) as usize,
        }
    }

    /// What the status bar shows of the document of the window.
    pub open spec fn status(self) -> DocumentStatusView {
        DocumentStatusView {
            total_lines: self.buffer.lines.len() as usize,
            current_line_index: self.cursor.line_idx,
            file_type: self.buffer.file_type,
            is_modified: self.buffer.modified,
            file_name: self.buffer.filename,
        }
    }

    /// The window after an empty line was opened at line index `at` and
    /// the cursor was put in it.
    pub open spec fn after_new_line(self, at: int) -> WindowView {
        WindowView { buffer: self.buffer.after_new_line(at), ..self }.after_jump(at as usize)
    }

    /// The window after `insert_newline`.
    pub open spec fn after_insert_newline(self) -> WindowView {
        WindowView {
            buffer: self.buffer.after_insert_newline(self.cursor),
            ..self
        }.after_jump((self.cursor.line_idx + 1) as usize)
    }

    /// The window after the file called `filename` was loaded and told to
    /// be of the kind `file_type`: the lines of the buffer are `lines`, the
    /// buffer is unchanged, and the cursor is at the nearest place that it
    /// may rest at.
    pub open spec fn after_load(
        self,
        filename: Seq<char>,
        file_type: FileType,
        lines: Seq<Seq<char>>,
    ) -> WindowView {
        WindowView {
            buffer: BufferView { lines, filename: Some(filename), file_type, modified: false },
            ..self
        }.after_normalize(false).redrawn()
    }

    /// The window with the cursor at `cursor`.
    pub open spec fn with_cursor(self, cursor: TextLocation) -> WindowView {
        WindowView { cursor, ..self }
    }

    /// The window marked for drawing.
    pub open spec fn redrawn(self) -> WindowView {
        WindowView { needs_redraw: true, ..self }
    }

    /// The place nearest to `cursor` that it may rest at: in the last line
    /// where it names a line behind that, and on the last grapheme of the
    /// line where it names a grapheme behind that, or behind the last
    /// grapheme where `allow_past_end` says so.
    pub open spec fn normalized_cursor(self, cursor: TextLocation, allow_past_end: bool)
        -> TextLocation {
        let n_line = self.buffer.lines.len();
        let last_line = if n_line == 0 {
            0
        } else {
            n_line - 1
        };
        let line_idx = if cursor.line_idx <= last_line {
            cursor.line_idx as int
        } else {
            last_line
        };
        let line_length = self.buffer.line_length(line_idx);
        let idx_lim = if allow_past_end || line_length == 0 {
            line_length
        } else {
            (line_length - 1) as nat
        };
        TextLocation {
            grapheme_idx: if cursor.grapheme_idx <= idx_lim {
                cursor.grapheme_idx
            } else {
                idx_lim as usize
            },
            line_idx: line_idx as usize,
        }
    }

    /// The window after `normalize_cursor_position`.
    pub open spec fn after_normalize(self, allow_past_end: bool) -> WindowView {
        self.with_cursor(self.normalized_cursor(self.cursor, allow_past_end)).scrolled()
    }

    /// The window after `handle_move`.
    pub open spec fn after_move(self, direction: Direction, allow_past_end: bool) -> WindowView {
        self.with_cursor(self.cursor.moved(direction)).after_normalize(allow_past_end).scrolled()
    }

    /// The window after the cursor jumped to the start of line `line_idx`.
    pub open spec fn after_jump(self, line_idx: usize) -> WindowView {
        self.with_cursor(TextLocation { grapheme_idx: 0, line_idx }).scrolled().redrawn()
    }

    /// Number of graphemes of the line of the cursor once `c` is inserted at the cursor.
    pub open spec fn len_with_insert(self, c: char) -> nat {
        self.buffer.after_insert_char(c, self.cursor).line_length(self.cursor.line_idx as int)
    }

    /// `insert_char` may be called: the line of the cursor can be laid out
    /// in columns with `c` in it, and the cursor is then still in the line.
    pub open spec fn can_insert_char(self, c: char) -> bool {
        &&& self.buffer.can_insert_char(c, self.cursor)
        &&& self.len_with_insert(c) <= self.buffer.line_length(self.cursor.line_idx as int)
            ==> self.cursor.grapheme_idx <= self.len_with_insert(c)
    }

    /// The window after `insert_char`: the cursor goes one grapheme on
    /// where the line has grown.
    pub open spec fn after_insert_char(self, c: char) -> WindowView {
        let grown = self.len_with_insert(c) > self.buffer.line_length(
            self.cursor.line_idx as int,
        );
        WindowView {
            buffer: self.buffer.after_insert_char(c, self.cursor),
            cursor: TextLocation {
                grapheme_idx: if grown {
                    (self.cursor.grapheme_idx + 1) as usize
                } else {
                    self.cursor.grapheme_idx
                },
                ..self.cursor
            },
            ..self
        }.scrolled().redrawn()
    }

    /// The place in front of the cursor.
    pub open spec fn before_cursor(self) -> TextLocation {
        TextLocation { grapheme_idx: (self.cursor.grapheme_idx - 1) as usize, ..self.cursor }
    }

    /// Number of graphemes of the line in front of the line of the cursor.
    pub open spec fn previous_line_length(self) -> nat {
        self.buffer.line_length(self.cursor.line_idx - 1)
    }

    /// `handle_backspace` may be called: what it leaves of the lines that
    /// it changes can be laid out in columns, and the cursor is then still
    /// in its line.
    pub open spec fn can_backspace(self) -> bool {
        if self.cursor.grapheme_idx > 0 {
            &&& self.buffer.can_delete_grapheme(self.before_cursor())
            &&& self.cursor.grapheme_idx - 1 <= cluster_count(
                self.buffer.line_with_delete(self.before_cursor()),
            )
        } else if self.cursor.line_idx > 0 {
            &&& self.buffer.can_join(self.cursor.line_idx - 1)
            &&& self.previous_line_length() <= cluster_count(
                self.buffer.joined_line(self.cursor.line_idx - 1),
            )
        } else {
            true
        }
    }

    /// The lines that `handle_backspace` changes hold printable ASCII
    /// characters only: the line of the cursor, and at its start the line
    /// in front of it too, the two together so short that their columns
    /// can be counted.
    pub open spec fn plain_for_backspace(self) -> bool {
        if self.cursor.grapheme_idx > 0 {
            self.buffer.plain_line(self.cursor.line_idx as int, 0)
        } else if self.cursor.line_idx > 0 {
            self.buffer.plain_pair(self.cursor.line_idx - 1)
        } else {
            true
        }
    }

    /// The window after `handle_backspace`: the grapheme in front of the
    /// cursor is gone and the cursor stands where it was; at the start of
    /// a line, the line is joined to the one in front of it and the cursor
    /// stands where that line ended; at the start of the document nothing
    /// happens.
    pub open spec fn after_backspace(self) -> WindowView {
        if self.cursor.grapheme_idx > 0 {
            WindowView {
                buffer: self.buffer.after_delete_grapheme(self.before_cursor()),
                cursor: self.before_cursor(),
                ..self
            }.scrolled().redrawn()
        } else if self.cursor.line_idx > 0 {
            WindowView {
                buffer: self.buffer.after_join(self.cursor.line_idx - 1),
                cursor: TextLocation {
                    grapheme_idx: self.previous_line_length() as usize,
                    line_idx: (self.cursor.line_idx - 1) as usize,
                },
                ..self
            }.scrolled().redrawn()
        } else {
            self
        }
    }

    /// `insert_newline` may be called: both parts of the line of the
    /// cursor, cut at the cursor, can be laid out in columns.
    pub open spec fn can_insert_newline(self) -> bool {
        self.buffer.can_insert_newline(self.cursor)
    }

    /// The window after a search for `pattern`: the cursor stands at the
    /// first place behind it where the pattern is found, or at the last
    /// place before it for a search backward, and stays where there is no
    /// such place. The window is marked for drawing in every case.
    pub open spec fn after_search(self, pattern: Option<Seq<char>>, direction: SearchDirection)
        -> WindowView {
        match pattern {
            None => self.redrawn(),
            Some(p) => {
                let hits = all_hits(self.buffer.lines, p, self.buffer.lines.len() as int);
                let target = match direction {
                    SearchDirection::Forward => first_after(hits, self.cursor, 0),
                    SearchDirection::Backward => last_before(
                        hits,
                        self.cursor,
                        hits.len() as int,
                    ),
                };
                match target {
                    Some(loc) => self.redrawn().with_cursor(loc).scrolled(),
                    None => self.redrawn(),
                }
            },
        }
    }
}

/// After the window has moved to the cursor, the cursor is in it, provided
/// that the window has a row and columns enough for the grapheme under
/// the cursor.
pub proof fn lemma_scrolled_shows_cursor(v: WindowView)
    requires
        v.fits(),
        v.col_end() <= usize::MAX,
    ensures
        v.scrolled().cursor_visible(),
        v.scrolled().fits(),
{
    let s = v.scrolled();
    assert(s.line_cells() == v.line_cells());
    assert(s.col_start() == v.col_start());
    assert(s.col_end() == v.col_end());
    lemma_col_order(v);
}

/// The grapheme under the cursor ends where it starts or right of that.
pub proof fn lemma_col_order(v: WindowView)
    ensures
        v.col_start() <= v.col_end(),
{
    let cells = v.line_cells();
    let g = v.cursor.grapheme_idx as int;
    if g < cells.len() {
        lemma_width_until_step(cells, g);
    }
}

/// The window does not move while the cursor is in it.
pub proof fn lemma_scrolled_is_minimal(v: WindowView)
    requires
        v.cursor_visible(),
    ensures
        v.scrolled() == v,
{
}

/// What is known of the cursor: the grapheme under it, if there is one,
/// its row, and the columns of the canvas that the grapheme takes.
pub struct CursorInfo {
    pub grapheme: Option<Grapheme>,
    pub row: usize,
    pub col_start: usize,
    pub col_end: usize,
}

/// The viewport on a document.
pub struct Window {
    buffer: Buffer,
    needs_redraw: bool,
    cursor_location: TextLocation,
    scroll_offset: Position,
    size: Size,
}

impl View for Window {
    type V = WindowView;

    closed spec fn view(&self) -> WindowView {
        WindowView {
            buffer: self.buffer@,
            needs_redraw: self.needs_redraw,
            cursor: self.cursor_location,
            scroll_offset: self.scroll_offset,
            size: self.size,
        }
    }
}

impl Window {
    /// The buffer is valid and the cursor is in it. Nothing is said of
    /// where the window stands.
    pub closed spec fn holds_cursor(&self) -> bool {
        &&& self.buffer.wf()
        &&& self@.cursor_valid()
    }

    /// The buffer is valid, the cursor is in it, and the window shows the
    /// cursor where it has room for it.
    pub closed spec fn wf(&self) -> bool {
        &&& self.holds_cursor()
        &&& self@.fits() ==> self@.cursor_visible()
    }

    /// What a valid window guarantees.
    pub proof fn lemma_wf(&self)
        requires
            self.wf(),
        ensures
            self.holds_cursor(),
            self@.cursor_valid(),
            self@.fits() ==> self@.cursor_visible(),
            all_displayable(self@.buffer.lines),
            self@.buffer.kind_told(),
            forall|i: int|
                0 <= i < self@.buffer.lines.len() && printable_ascii(
                    #[trigger] self@.buffer.lines[i],
                ) ==> cluster_count(self@.buffer.lines[i]) == self@.buffer.lines[i].len(),
            self@.col_start() <= self@.col_end() <= usize::MAX,
    {
        self.buffer.lemma_wf();
        lemma_col_order(self@);
        self.lemma_columns_fit();
    }

    proof fn lemma_columns_fit(&self)
        requires
            self.buffer.wf(),
        ensures
            self@.col_end() <= usize::MAX,
            self@.col_start() <= usize::MAX,
    {
        self.buffer.lemma_wf();
        let v = self@;
        let cells = v.line_cells();
        if v.cursor.line_idx < v.buffer.lines.len() {
            let text = v.buffer.lines[v.cursor.line_idx as int];
            assert(displayable(text));
            lemma_width_until_bounds(cells, 0, cells.len() as int);
            let g = v.cursor.grapheme_idx as int;
            if g < cells.len() {
                lemma_width_until_bounds(cells, g, cells.len() as int);
                lemma_width_until_bounds(cells, g + 1, cells.len() as int);
            }
        }
    }

    /// A window on an empty document, for a screen of the size `size` of
    /// which the `margin` last rows are kept for other things.
    pub fn new(size: Size, margin: usize) -> (r: Self)
        requires
            margin <= size.height,
        ensures
            r.wf(),
            r@ == WindowView::initial(size, margin),
    {
        Self {
            buffer: Buffer::default(),
            needs_redraw: true,
            cursor_location: TextLocation::default(),
            scroll_offset: Position::default(),
            size: Size { width: size.width, height: size.height - margin },
        }
    }

    /// Gives the window the size `size` and moves it to the cursor.
    pub fn resize(&mut self, size: Size)
        requires
            old(self).wf(),
        ensures
            final(self).wf(),
            final(self)@ == (WindowView { size, ..old(self)@ }).scrolled().redrawn(),
            final(self)@.fits() ==> final(self)@.cursor_visible(),
    {
        self.size = size;
        self.update_scroll_offset();
        self.needs_redraw = true;
    }

    /// Whether `load_file` may be called with these contents.
    pub fn can_load(contents: &str) -> (r: bool)
        ensures
            r == all_displayable(text_lines(contents@)),
    {
        Buffer::can_load(contents)
    }

    /// Shows the file called `filename`, whose contents are `contents`:
    /// the lines of the buffer become those of the contents, and the
    /// cursor goes to the nearest place that it may rest at.
    pub fn load_file(&mut self, filename: &str, contents: &str)
        requires
            old(self).wf(),
            all_displayable(text_lines(contents@)),
        ensures
            final(self).wf(),
            final(self)@ == old(self)@.after_load(
                filename@,
                final(self)@.buffer.file_type,
                text_lines(contents@),
            ),
            final(self)@.buffer.file_type.told_by(filename@),
            final(self)@.fits() ==> final(self)@.cursor_visible(),
    {
        self.buffer.load_file(filename, contents);
        self.clamp_cursor(false);
        self.needs_redraw = true;
    }

    /// Loads as `load_file` does where every line of the contents can be
    /// laid out in columns, and leaves the window as it is where not.
    pub fn try_load_file(&mut self, filename: &str, contents: &str) -> (done: bool)
        requires
            old(self).wf(),
        ensures
            final(self).wf(),
            done == all_displayable(text_lines(contents@)),
            done ==> final(self)@ == old(self)@.after_load(
                filename@,
                final(self)@.buffer.file_type,
                text_lines(contents@),
            ) && final(self)@.buffer.file_type.told_by(filename@),
            !done ==> final(self)@ == old(self)@,
    {
        if Self::can_load(contents) {
            self.load_file(filename, contents);
            true
        } else {
            false
        }
    }

    /// What the status bar shows of the document.
    pub fn get_status(&self) -> (r: DocumentStatus)
        ensures
            r@ == self@.status(),
    {
        DocumentStatus {
            total_lines: self.buffer.get_n_lines(),
            current_line_index: self.cursor_location.line_idx,
            file_type: self.buffer.get_filetype(),
            is_modified: self.buffer.is_modified(),
            file_name: self.buffer.get_filename(),
        }
    }

    /// Marks the window for drawing.
    pub fn set_needs_redraw(&mut self)
        ensures
            final(self).wf() == old(self).wf(),
            final(self)@ == old(self)@.redrawn(),
    {
        self.needs_redraw = true;
    }

    /// What the window draws, where it is marked for drawing; nothing
    /// where it is not. After that it is not marked for drawing.
    pub fn render(&mut self, context: &RenderContext) -> (r: Option<Frame>)
        requires
            old(self).wf(),
            old(self)@.can_render(),
        ensures
            final(self).wf(),
            final(self)@ == (WindowView { needs_redraw: false, ..old(self)@ }),
            r is Some <==> old(self)@.needs_redraw,
            r matches Some(frame) ==> old(self)@.drawn_as(
                context.pattern(),
                context.file_type,
                frame,
            ),
    {
        if !self.needs_redraw {
            return None;
        }
        let mut highlighter = HighlighterBundler::new(context);
        self.buffer.highlight(&mut highlighter);
        proof {
            lemma_after_lines(
                BundlerView::initial(context.pattern(), context.file_type),
                self@.buffer.lines,
                self@.buffer.lines.len() as int,
            );
            assert(highlighter@.texts =~= self@.buffer.lines);
        }
        let top: usize = self.scroll_offset.row;
        let Size { height, width } = self.size;
        let left: usize = self.scroll_offset.col;
        let right: usize = left.saturating_add(width);
        let mut rows: Vec<AnnotatedString> = Vec::new();
        let mut i: usize = 0;
        while i < height
            invariant
                i <= height,
                self.wf(),
                self@ == old(self)@,
                top == self@.scroll_offset.row,
                left == self@.scroll_offset.col,
                right == self@.right_edge(),
                height == self@.size.height,
                highlighter@.wf(),
                highlighter@.texts == self@.buffer.lines,
                rows@.len() == i,
                forall|k: int|
                    0 <= k < i ==> (#[trigger] rows@[k])@ == self@.row_shown(highlighter@, k)
                        && rows@[k]@.wf(),
            decreases height - i,
        {
            let line = match top.checked_add(i) {
                Some(idx) => self.buffer.get_line(idx),
                None => {
                    let n_lines: usize = self.buffer.get_n_lines();
                    None
                },
            };
            match line {
                Some(line) => {
                    let view = LineView::new(line, left, right);
                    let line_highlighter = LineHighlighter::new(&highlighter, i + top);
                    rows.push(view.build_rendered_str(&line_highlighter));
                },
                None => {
                    rows.push(AnnotatedString::from_str("~"));
                },
            }
            i += 1;
        }
        let banner = if self.buffer.is_empty() {
            Some(self.draw_welcom_message())
        } else {
            None
        };
        self.needs_redraw = false;
        Some(Frame { rows, banner })
    }

    /// Whether `render` may be called.
    pub fn can_render(&self) -> (r: bool)
        ensures
            r == self@.can_render(),
    {
        if self.needs_redraw && self.buffer.is_empty() {
            byte_len(Self::welcome_message().as_str()) <= self.size.width
        } else {
            true
        }
    }

    /// The text of the welcome banner.
    pub fn welcome_message() -> (r: String)
        ensures
            r@ == welcome_text(),
    {
        let mut message = String::from_str(NAME);
        message.append(" editor -- v");
        message.append(VERSION);
        message
    }

    /// Whether the window shows the cursor.
    pub fn is_cursor_visible(&self) -> (r: bool)
        requires
            self.wf(),
        ensures
            r == self@.cursor_visible(),
    {
        proof {
            self.lemma_wf();
            self.lemma_line_length_bound();
        }
        let CursorInfo { row, col_start: left, col_end: right, .. } = self.get_cursor_info();
        self.scroll_offset.row <= row && row - self.scroll_offset.row < self.size.height
            && self.scroll_offset.col <= left && right - self.scroll_offset.col
            <= self.size.width
    }

    /// The welcome banner and the cell of the window at which it begins.
    pub fn draw_welcom_message(&self) -> (r: Banner)
        requires
            utf8(welcome_text()).len() <= self@.size.width,
        ensures
            r.message@ == welcome_text(),
            r.position == self@.banner_position(),
    {
        let message = Self::welcome_message();
        let Size { height, width } = self.size;
        let row: usize = height / 3;
        let col: usize = (width - byte_len(message.as_str())) / 2;
        Banner { position: Position { row, col }, message }
    }

    /// What to write to save the buffer under its own file name; nothing
    /// while it has none.
    pub fn save_buffer(&self) -> (r: Option<SaveRequest>)
        ensures
            r is Some <==> self@.buffer.filename is Some,
            r matches Some(request) ==> Some(request.filename@) == self@.buffer.filename
                && request.contents@ == crate::buffer::file_text(
                self@.buffer.lines,
                self@.buffer.lines.len() as int,
            ),
    {
        self.buffer.save()
    }

    /// What to write to save the buffer under the name `filename`.
    pub fn save_buffer_with_filename(&self, filename: &str) -> (r: SaveRequest)
        ensures
            r.filename@ == filename@,
            r.contents@ == crate::buffer::file_text(
                self@.buffer.lines,
                self@.buffer.lines.len() as int,
            ),
    {
        self.buffer.save_as_filename(filename)
    }

    /// Records that the buffer was written to the file called `filename`.
    pub fn mark_saved(&mut self, filename: &str)
        requires
            old(self).wf(),
        ensures
            final(self).wf(),
            final(self)@ == (WindowView {
                buffer: BufferView {
                    filename: Some(filename@),
                    file_type: final(self)@.buffer.file_type,
                    modified: false,
                    ..old(self)@.buffer
                },
                ..old(self)@
            }),
            final(self)@.buffer.file_type.told_by(filename@),
    {
        self.buffer.mark_saved(filename);
    }

    /// Searches for `pattern` from the cursor in `direction` and moves the
    /// cursor to what it finds. The result says whether a pattern was
    /// given that occurs nowhere in the document.
    pub fn search(&mut self, pattern: Option<&str>, direction: SearchDirection) -> (not_found: bool)
        requires
            old(self).wf(),
        ensures
            final(self).wf(),
            final(self)@ == old(self)@.after_search(
                match pattern {
                    Some(p) => Some(p@),
                    None => None,
                },
                direction,
            ),
            not_found == (pattern matches Some(p) && all_hits(
                old(self)@.buffer.lines,
                p@,
                old(self)@.buffer.lines.len() as int,
            ).len() == 0),
    {
        self.needs_redraw = true;
        let needle = match pattern {
            Some(p) => p,
            None => {
                return false;
            },
        };
        let result_list = self.buffer.search(needle);
        let n: usize = result_list.len();
        if n == 0 {
            return true;
        }
        match direction {
            SearchDirection::Forward => {
                let mut i: usize = 0;
                while i < n
                    invariant
                        i <= n,
                        n == result_list@.len(),
                        self@ == old(self)@.redrawn(),
                        self.wf(),
                        n > 0,
                        pattern == Some(needle),
                        direction == SearchDirection::Forward,
                        result_list@ == all_hits(
                            self@.buffer.lines,
                            needle@,
                            self@.buffer.lines.len() as int,
                        ),
                        forall|k: int|
                            0 <= k < result_list@.len() ==> (#[trigger] result_list@[k]).line_idx
                                < self@.buffer.lines.len() && result_list@[k].grapheme_idx
                                < cluster_count(
                                self@.buffer.lines[result_list@[k].line_idx as int],
                            ),
                        first_after(result_list@, self@.cursor, 0) == first_after(
                            result_list@,
                            self@.cursor,
                            i as int,
                        ),
                    decreases n - i,
                {
                    let loc = result_list[i];
                    if self.cursor_location.line_idx < loc.line_idx || (
                    self.cursor_location.line_idx == loc.line_idx
                        && self.cursor_location.grapheme_idx < loc.grapheme_idx) {
                        self.cursor_location = loc;
                        self.update_scroll_offset();
                        return false;
                    }
                    i += 1;
                }
            },
            SearchDirection::Backward => {
                let mut i: usize = n;
                while i > 0
                    invariant
                        i <= n,
                        n == result_list@.len(),
                        self@ == old(self)@.redrawn(),
                        self.wf(),
                        n > 0,
                        pattern == Some(needle),
                        direction == SearchDirection::Backward,
                        result_list@ == all_hits(
                            self@.buffer.lines,
                            needle@,
                            self@.buffer.lines.len() as int,
                        ),
                        forall|k: int|
                            0 <= k < result_list@.len() ==> (#[trigger] result_list@[k]).line_idx
                                < self@.buffer.lines.len() && result_list@[k].grapheme_idx
                                < cluster_count(
                                self@.buffer.lines[result_list@[k].line_idx as int],
                            ),
                        last_before(result_list@, self@.cursor, n as int) == last_before(
                            result_list@,
                            self@.cursor,
                            i as int,
                        ),
                    decreases i,
                {
                    let loc = result_list[i - 1];
                    if loc.line_idx < self.cursor_location.line_idx || (loc.line_idx
                        == self.cursor_location.line_idx && loc.grapheme_idx
                        < self.cursor_location.grapheme_idx) {
                        self.cursor_location = loc;
                        self.update_scroll_offset();
                        return false;
                    }
                    i -= 1;
                }
            },
        }
        false
    }

    /// Moves the cursor one step in `direction`, as far as the document
    /// goes, and the window after it.
    pub fn handle_move(&mut self, direction: Direction, allow_past_end: bool)
        requires
            old(self).wf(),
        ensures
            final(self).wf(),
            final(self)@ == old(self)@.after_move(direction, allow_past_end),
            final(self)@.fits() ==> final(self)@.cursor_visible(),
    {
        let TextLocation { mut grapheme_idx, mut line_idx } = self.cursor_location;
        match direction {
            Direction::Left => {
                grapheme_idx = grapheme_idx.saturating_sub(1);
            },
            Direction::Down => {
                line_idx = line_idx.saturating_add(1);
            },
            Direction::Up => {
                line_idx = line_idx.saturating_sub(1);
            },
            Direction::Right => {
                grapheme_idx = grapheme_idx.saturating_add(1);
            },
        }
        self.cursor_location = TextLocation { grapheme_idx, line_idx };
        self.clamp_cursor(allow_past_end);
        self.update_scroll_offset();
    }

    /// Brings the cursor to the nearest place that it may rest at, and
    /// the window after it.
    pub fn normalize_cursor_position(&mut self, allow_past_end: bool)
        requires
            old(self).wf(),
        ensures
            final(self).wf(),
            final(self)@ == old(self)@.after_normalize(allow_past_end),
            final(self)@.fits() ==> final(self)@.cursor_visible(),
    {
        self.clamp_cursor(allow_past_end);
    }

    fn clamp_cursor(&mut self, allow_past_end: bool)
        requires
            old(self).buffer.wf(),
        ensures
            final(self).wf(),
            final(self)@ == old(self)@.after_normalize(allow_past_end),
            final(self)@.fits() ==> final(self)@.cursor_visible(),
    {
        let TextLocation { mut grapheme_idx, mut line_idx } = self.cursor_location;
        let n_line: usize = self.buffer.get_n_lines();
        let last_line: usize = n_line.saturating_sub(1);
        if line_idx > last_line {
            line_idx = last_line;
        }
        let line_length: usize = self.buffer.get_line_length(line_idx);
        let idx_lim: usize = if allow_past_end {
            line_length
        } else {
            line_length.saturating_sub(1)
        };
        if grapheme_idx > idx_lim {
            grapheme_idx = idx_lim;
        }
        self.cursor_location = TextLocation { grapheme_idx, line_idx };
        self.update_scroll_offset();
    }

    /// Whether `insert_char` may be called with this character.
    pub fn can_insert_char(&self, c: char) -> (r: bool)
        requires
            self.wf(),
        ensures
            r == self@.can_insert_char(c),
            self@.buffer.plain_line(self@.cursor.line_idx as int, 1) && ' ' <= c <= '~' ==> r,
    {
        proof {
            self.buffer.lemma_wf();
        }
        let orig_len: usize = self.buffer.get_line_length(self.cursor_location.line_idx);
        match self.buffer.len_after_insert_char(c, self.cursor_location) {
            Some(new_len) => new_len > orig_len || self.cursor_location.grapheme_idx <= new_len,
            None => false,
        }
    }

    /// Puts `c` in front of the grapheme under the cursor.
    pub fn insert_char(&mut self, c: char)
        requires
            old(self).wf(),
            old(self)@.can_insert_char(c),
        ensures
            final(self).wf(),
            final(self)@ == old(self)@.after_insert_char(c),
            final(self)@.fits() ==> final(self)@.cursor_visible(),
            old(self)@.buffer.lines.len() == 0 ==> final(self)@.buffer.lines.len() == 1,
    {
        proof {
            self.buffer.lemma_wf();
        }
        let orig_len: usize = self.buffer.get_line_length(self.cursor_location.line_idx);
        self.buffer.insert_char(c, self.cursor_location);
        let new_len: usize = self.buffer.get_line_length(self.cursor_location.line_idx);
        if new_len > orig_len {
            self.cursor_location.grapheme_idx += 1;
        }
        self.update_scroll_offset();
        self.needs_redraw = true;
    }

    /// Inserts as `insert_char` does where it may be called, and leaves
    /// the window as it is where not.
    pub fn try_insert_char(&mut self, c: char) -> (done: bool)
        requires
            old(self).wf(),
        ensures
            final(self).wf(),
            done == old(self)@.can_insert_char(c),
            old(self)@.buffer.plain_line(old(self)@.cursor.line_idx as int, 1) && ' ' <= c <= '~'
                ==> done,
            done ==> final(self)@ == old(self)@.after_insert_char(c),
            !done ==> final(self)@ == old(self)@,
    {
        if self.can_insert_char(c) {
            self.insert_char(c);
            true
        } else {
            false
        }
    }

    /// Whether `handle_backspace` may be called.
    pub fn can_backspace(&self) -> (r: bool)
        requires
            self.wf(),
        ensures
            r == self@.can_backspace(),
            self@.plain_for_backspace() ==> r,
    {
        proof {
            self.buffer.lemma_wf();
        }
        let TextLocation { grapheme_idx, line_idx } = self.cursor_location;
        if grapheme_idx > 0 {
            let loc = TextLocation { grapheme_idx: grapheme_idx - 1, line_idx };
            match self.buffer.len_after_delete_grapheme(loc) {
                Some(new_len) => grapheme_idx - 1 <= new_len,
                None => false,
            }
        } else if line_idx > 0 {
            let orig_len: usize = self.buffer.get_line_length(line_idx - 1);
            match self.buffer.len_after_join(line_idx - 1) {
                Some(new_len) => orig_len <= new_len,
                None => false,
            }
        } else {
            true
        }
    }

    /// Takes out the grapheme in front of the cursor; at the start of a
    /// line, joins the line to the one in front of it.
    pub fn handle_backspace(&mut self)
        requires
            old(self).wf(),
            old(self)@.can_backspace(),
        ensures
            final(self).wf(),
            final(self)@ == old(self)@.after_backspace(),
            final(self)@.fits() ==> final(self)@.cursor_visible(),
            old(self)@.cursor.grapheme_idx == 0 && old(self)@.cursor.line_idx > 0 ==> {
                &&& final(self)@.cursor.grapheme_idx == old(self)@.previous_line_length()
                &&& final(self)@.cursor.line_idx == old(self)@.cursor.line_idx - 1
                &&& final(self)@.buffer.lines.len() == old(self)@.buffer.lines.len() - 1
            },
    {
        if self.cursor_location.grapheme_idx > 0 {
            self.cursor_location.grapheme_idx -= 1;
            self.buffer.delete_grapheme(self.cursor_location);
            self.update_scroll_offset();
            self.needs_redraw = true;
        } else if self.cursor_location.grapheme_idx == 0 {
            if self.cursor_location.line_idx == 0 {
                return ;
            }
            let orig_len: usize = self.buffer.get_line_length(self.cursor_location.line_idx - 1);
            self.buffer.join_adjacent_rows(self.cursor_location.line_idx - 1);
            self.cursor_location = TextLocation {
                grapheme_idx: orig_len,
                line_idx: self.cursor_location.line_idx - 1,
            };
            self.update_scroll_offset();
            self.needs_redraw = true;
        }
    }

    /// Goes back as `handle_backspace` does where it may be called, and
    /// leaves the window as it is where not.
    pub fn try_handle_backspace(&mut self) -> (done: bool)
        requires
            old(self).wf(),
        ensures
            final(self).wf(),
            done == old(self)@.can_backspace(),
            old(self)@.plain_for_backspace() ==> done,
            done ==> final(self)@ == old(self)@.after_backspace(),
            !done ==> final(self)@ == old(self)@,
    {
        if self.can_backspace() {
            self.handle_backspace();
            true
        } else {
            false
        }
    }

    /// Opens an empty line above the line of the cursor and puts the cursor in it.
    pub fn begin_newline_above(&mut self)
        requires
            old(self).wf(),
        ensures
            final(self).wf(),
            final(self)@ == old(self)@.after_new_line(old(self)@.cursor.line_idx as int),
            final(self)@.fits() ==> final(self)@.cursor_visible(),
    {
        self.buffer.begin_newline_above(self.cursor_location);
        self.jump_to_line_start(self.cursor_location.line_idx);
    }

    /// Opens an empty line below the line of the cursor and puts the cursor in it.
    pub fn begin_newline_below(&mut self)
        requires
            old(self).wf(),
        ensures
            final(self).wf(),
            final(self)@ == old(self)@.after_new_line(old(self)@.cursor.line_idx + 1),
            final(self)@.fits() ==> final(self)@.cursor_visible(),
    {
        self.buffer.begin_newline_below(self.cursor_location);
        let n: usize = self.buffer.get_n_lines();
        self.jump_to_line_start(self.cursor_location.line_idx + 1);
    }

    /// Whether `insert_newline` may be called.
    pub fn can_insert_newline(&self) -> (r: bool)
        requires
            self.wf(),
        ensures
            r == self@.can_insert_newline(),
            self@.buffer.plain_line(self@.cursor.line_idx as int, 0) ==> r,
    {
        proof {
            self.buffer.lemma_wf();
        }
        self.buffer.can_insert_newline(self.cursor_location)
    }

    /// Cuts the line of the cursor in front of the cursor and puts the
    /// cursor at the start of the second part.
    pub fn insert_newline(&mut self)
        requires
            old(self).wf(),
            old(self)@.can_insert_newline(),
        ensures
            final(self).wf(),
            final(self)@ == old(self)@.after_insert_newline(),
            final(self)@.fits() ==> final(self)@.cursor_visible(),
    {
        self.buffer.insert_newline(self.cursor_location);
        let n: usize = self.buffer.get_n_lines();
        self.jump_to_line_start(self.cursor_location.line_idx + 1);
    }

    /// Cuts as `insert_newline` does where it may be called, and leaves
    /// the window as it is where not.
    pub fn try_insert_newline(&mut self) -> (done: bool)
        requires
            old(self).wf(),
        ensures
            final(self).wf(),
            done == old(self)@.can_insert_newline(),
            old(self)@.buffer.plain_line(old(self)@.cursor.line_idx as int, 0) ==> done,
            done ==> final(self)@ == old(self)@.after_insert_newline(),
            !done ==> final(self)@ == old(self)@,
    {
        if self.can_insert_newline() {
            self.insert_newline();
            true
        } else {
            false
        }
    }

    fn jump_to_line_start(&mut self, line_idx: usize)
        requires
            old(self).buffer.wf(),
            line_idx < old(self)@.buffer.materialized().lines.len(),
        ensures
            final(self).wf(),
            final(self)@ == old(self)@.after_jump(line_idx),
            final(self)@.fits() ==> final(self)@.cursor_visible(),
    {
        self.cursor_location = TextLocation { grapheme_idx: 0, line_idx };
        self.update_scroll_offset();
        self.needs_redraw = true;
    }

    /// The cell of the window at which the cursor is drawn.
    pub fn get_relative_position(&self) -> (r: Position)
        requires
            self.wf(),
            self@.cursor_visible(),
        ensures
            r.col == self@.absolute_position().col - self@.scroll_offset.col,
            r.row == self@.absolute_position().row - self@.scroll_offset.row,
            self@.fits() ==> r.row < self@.size.height,
    {
        let Position { row, col } = self.get_absolute_position();
        proof {
            self.lemma_wf();
            let cells = self@.line_cells();
            let g = self@.cursor.grapheme_idx as int;
            if g < cells.len() {
                lemma_width_until_step(cells, g);
            }
        }
        Position { col: col - self.scroll_offset.col, row: row - self.scroll_offset.row }
    }

    /// The cell of the unbounded canvas at which the cursor is drawn.
    pub fn get_absolute_position(&self) -> (r: Position)
        requires
            self.wf(),
        ensures
            r == self@.absolute_position(),
    {
        proof {
            self.lemma_line_length_bound();
        }
        let cursor_info = self.get_cursor_info();
        let on_tab = match &cursor_info.grapheme {
            Some(grapheme) => grapheme.is_tab(),
            None => false,
        };
        proof {
            let cells = self@.line_cells();
            let g = self@.cursor.grapheme_idx as int;
            if g < cells.len() {
                lemma_width_until_step(cells, g);
            }
        }
        if on_tab {
            Position { row: cursor_info.row, col: cursor_info.col_end - 1 }
        } else {
            Position { row: cursor_info.row, col: cursor_info.col_start }
        }
    }

    fn get_cursor_info(&self) -> (r: CursorInfo)
        requires
            self.buffer.wf(),
            self@.cursor.grapheme_idx < usize::MAX,
        ensures
            r.row == self@.cursor.line_idx,
            r.col_start == self@.col_start(),
            r.col_end == self@.col_end(),
            r.grapheme is Some <==> self@.cursor.grapheme_idx < self@.line_cells().len(),
            r.grapheme matches Some(g) ==> g@.wf() && g@
                == self@.line_cells()[self@.cursor.grapheme_idx as int],
    {
        let TextLocation { grapheme_idx, line_idx } = self.cursor_location;
        match self.buffer.get_line(line_idx) {
            Some(line) => {
                proof {
                    line.lemma_wf();
                }
                CursorInfo {
                    grapheme: line.get_nth_grapheme(grapheme_idx),
                    row: line_idx,
                    col_start: line.calc_width_until_grapheme_index(grapheme_idx),
                    col_end: line.calc_width_until_grapheme_index(grapheme_idx + 1),
                }
            },
            None => {
                proof {
                    lemma_width_until_empty(self@.line_cells(), grapheme_idx as int);
                    lemma_width_until_empty(self@.line_cells(), grapheme_idx + 1);
                }
                CursorInfo { grapheme: None, row: line_idx, col_start: 0, col_end: 0 }
            },
        }
    }

    /// Moves the window by as little as brings the cursor into it, and
    /// marks it for drawing where it moved. Afterwards the window shows
    /// the whole grapheme under the cursor, provided that it has a row
    /// and columns enough for that grapheme.
    pub fn update_scroll_offset(&mut self)
        requires
            old(self).holds_cursor(),
        ensures
            final(self).wf(),
            final(self)@ == old(self)@.scrolled(),
            final(self)@.fits() ==> final(self)@.cursor_visible(),
    {
        let Size { width, height } = self.size;
        let mut offset_changed = false;
        proof {
            self.buffer.lemma_wf();
            self.lemma_columns_fit();
            lemma_col_order(self@);
            self.lemma_line_length_bound();
        }
        let n_lines: usize = self.buffer.get_n_lines();
        let CursorInfo { row, col_start: left, col_end: right, .. } = self.get_cursor_info();
        if row < self.scroll_offset.row {
            self.scroll_offset.row = row;
            offset_changed = true;
        } else if row - self.scroll_offset.row >= height {
            self.scroll_offset.row = row - height + 1;
            offset_changed = true;
        }
        if left < self.scroll_offset.col {
            self.scroll_offset.col = left;
            offset_changed = true;
        } else if right - self.scroll_offset.col > width {
            self.scroll_offset.col = right - width;
            offset_changed = true;
        }
        self.needs_redraw = self.needs_redraw || offset_changed;
        proof {
            if old(self)@.scrolled().fits() {
                assert(old(self)@.scrolled().line_cells() == old(self)@.line_cells());
                lemma_scrolled_shows_cursor(old(self)@);
            }
        }
    }

    proof fn lemma_line_length_bound(&self)
        requires
            self.buffer.wf(),
            self@.cursor_valid(),
        ensures
            self@.cursor.grapheme_idx < usize::MAX,
    {
        self.buffer.lemma_wf();
        let v = self@;
        if v.cursor.line_idx < v.buffer.lines.len() {
            assert(displayable(v.buffer.lines[v.cursor.line_idx as int]));
        }
    }
}

} // verus!
