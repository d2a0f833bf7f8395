//! A document: its lines in order, the file it belongs to, and whether it was changed.

use vstd::prelude::*;
use vstd::string::*;

use crate::filetype::FileType;
use crate::grapheme::{cluster_count, displayable, grapheme_starts, is_segmentation, TABSTOP};
use crate::highlighter::HighlighterBundler;
use crate::line::{
    byte_offset_in, delete_at, head_of, insert_at, lemma_piece_not_before, lemma_search_resume,
    search_end_in, search_in, search_resume_in, tail_of, Line,
};
use crate::text::{
    first_occurrence, lemma_first_occurrence, printable_ascii, split_lines, text_lines, utf8,
};
use crate::window::TextLocation;

verus! {

/// What contracts say of a buffer.
pub struct BufferView {
    pub lines: Seq<Seq<char>>,
    pub filename: Option<Seq<char>>,
    pub file_type: FileType,
    pub modified: bool,
}

impl BufferView {
    /// An unchanged buffer without lines and without a file.
    pub open spec fn empty() -> BufferView {
        BufferView {
            lines: Seq::<Seq<char>>::empty(),
            filename: None,
            file_type: FileType::Text,
            modified: false,
        }
    }

    /// Line `idx` of the buffer, as an edit finds it, holds printable ASCII
    /// characters only, and so few that the columns of `extra` more can
    /// still be counted.
    pub open spec fn plain_line(self, idx: int, extra: nat) -> bool {
        let m = self.materialized();
        &&& 0 <= idx < m.lines.len()
        &&& printable_ascii(m.lines[idx])
        &&& (m.lines[idx].len() + extra) * TABSTOP <= usize::MAX
    }

    /// Line `idx` and the line behind it hold printable ASCII characters
    /// only, and so few that the columns of both together can be counted.
    pub open spec fn plain_pair(self, idx: int) -> bool {
        &&& 0 <= idx && idx + 1 < self.lines.len()
        &&& printable_ascii(self.lines[idx])
        &&& printable_ascii(self.lines[idx + 1])
        &&& (self.lines[idx].len() + self.lines[idx + 1].len()) * TABSTOP <= usize::MAX
    }

    /// The kind of the buffer is one that the name of its file tells, and
    /// plain text while it has no file.
    pub open spec fn kind_told(self) -> bool {
        match self.filename {
            Some(name) => self.file_type.told_by(name),
            None => self.file_type == FileType::Text,
        }
    }

    /// The buffer as an edit finds it: a buffer without lines gets one empty line first.
    pub open spec fn materialized(self) -> BufferView {
        if self.lines.len() == 0 {
            BufferView { lines: seq![Seq::<char>::empty()], ..self }
        } else {
            self
        }
    }

    /// The buffer with line `idx` replaced by `text`, marked as changed.
    pub open spec fn with_line(self, idx: int, text: Seq<char>) -> BufferView {
        BufferView { lines: self.lines.update(idx, text), modified: true, ..self }
    }

    /// The line that `insert_char` would leave at `loc`, where `loc` names a line.
    pub open spec fn line_with_insert(self, c: char, loc: TextLocation) -> Seq<char> {
        insert_at(self.materialized().lines[loc.line_idx as int], c, loc.grapheme_idx as int)
    }

    /// `insert_char` may be called: the line that `loc` names, if it names
    /// one, can be laid out in columns with `c` in it.
    pub open spec fn can_insert_char(self, c: char, loc: TextLocation) -> bool {
        loc.line_idx < self.materialized().lines.len() ==> displayable(
            self.line_with_insert(c, loc),
        )
    }

    /// The buffer after `insert_char`: a buffer without lines gets an empty
    /// line; then the character goes into the line that `loc` names, and
    /// nothing more happens where `loc` names none.
    pub open spec fn after_insert_char(self, c: char, loc: TextLocation) -> BufferView {
        let m = self.materialized();
        if loc.line_idx < m.lines.len() {
            m.with_line(loc.line_idx as int, self.line_with_insert(c, loc))
        } else {
            m
        }
    }

    /// The line that `delete_grapheme` would leave at `loc`.
    pub open spec fn line_with_delete(self, loc: TextLocation) -> Seq<char> {
        delete_at(self.lines[loc.line_idx as int], loc.grapheme_idx as int)
    }

    /// `delete_grapheme` may be called: `loc` names a line, and what is
    /// left of it can be laid out in columns.
    pub open spec fn can_delete_grapheme(self, loc: TextLocation) -> bool {
        loc.line_idx < self.lines.len() && displayable(self.line_with_delete(loc))
    }

    /// The buffer after the grapheme at `loc` is taken out.
    pub open spec fn after_delete_grapheme(self, loc: TextLocation) -> BufferView {
        self.with_line(loc.line_idx as int, self.line_with_delete(loc))
    }

    /// Line `idx` followed by the line behind it.
    pub open spec fn joined_line(self, idx: int) -> Seq<char> {
        self.lines[idx] + self.lines[idx + 1]
    }

    /// `join_adjacent_rows` may be called: a line follows line `idx`, and
    /// the two together can be laid out in columns.
    pub open spec fn can_join(self, idx: int) -> bool {
        0 <= idx && idx + 1 < self.lines.len() && displayable(self.joined_line(idx))
    }

    /// The buffer after line `idx + 1` is joined to line `idx`.
    pub open spec fn after_join(self, idx: int) -> BufferView {
        BufferView {
            lines: self.lines.update(idx, self.joined_line(idx)).remove(idx + 1),
            modified: true,
            ..self
        }
    }

    /// The buffer after an empty line is put at line index `at` of the materialized buffer.
    pub open spec fn after_new_line(self, at: int) -> BufferView {
        BufferView {
            lines: self.materialized().lines.insert(at, Seq::<char>::empty()),
            modified: true,
            ..self
        }
    }

    /// `insert_newline` may be called: `loc` names a line and a grapheme
    /// of it, or the place behind its last, and both parts of the line,
    /// cut there, can be laid out in columns.
    pub open spec fn can_insert_newline(self, loc: TextLocation) -> bool {
        let m = self.materialized();
        &&& loc.line_idx < m.lines.len()
        &&& loc.grapheme_idx <= cluster_count(m.lines[loc.line_idx as int])
        &&& displayable(head_of(m.lines[loc.line_idx as int], loc.grapheme_idx as int))
        &&& displayable(tail_of(m.lines[loc.line_idx as int], loc.grapheme_idx as int))
    }

    /// The buffer after the line at `loc` is cut in front of the grapheme at `loc`.
    pub open spec fn after_insert_newline(self, loc: TextLocation) -> BufferView {
        let m = self.materialized();
        let line = m.lines[loc.line_idx as int];
        let head = head_of(line, loc.grapheme_idx as int);
        let tail = tail_of(line, loc.grapheme_idx as int);
        BufferView {
            lines: m.lines.update(loc.line_idx as int, head).insert(loc.line_idx + 1, tail),
            modified: true,
            ..self
        }
    }

    /// Number of graphemes of line `idx`; 0 where there is no such line.
    pub open spec fn line_length(self, idx: int) -> nat {
        if 0 <= idx < self.lines.len() {
            cluster_count(self.lines[idx])
        } else {
            0
        }
    }
}

/// Every one of the texts can be laid out in columns.
pub open spec fn all_displayable(texts: Seq<Seq<char>>) -> bool {
    forall|i: int| 0 <= i < texts.len() ==> displayable(#[trigger] texts[i])
}

/// The places in line `line_idx`, whose text is `text`, at which `pattern`
/// is found from grapheme `start` on. After each find the search goes on
/// from the first grapheme behind it that starts at or behind the end of
/// the occurrence, so that no find reaches into another.
pub open spec fn hits_from(
    text: Seq<char>,
    pattern: Seq<char>,
    line_idx: usize,
    start: int,
) -> Seq<TextLocation>
    decreases cluster_count(text) - start,
{
    match search_in(text, pattern, start) {
        Some(g) => {
            let next = search_resume_in(text, pattern, start);
            if start <= g < next <= cluster_count(text) {
                seq![TextLocation { grapheme_idx: g as usize, line_idx }] + hits_from(
                    text,
                    pattern,
                    line_idx,
                    next,
                )
            } else {
                seq![]
            }
        },
        None => seq![],
    }
}

/// The finds in a line are graphemes of the line from `start` on, each
/// behind the one before.
pub proof fn lemma_hits_from_order(
    text: Seq<char>,
    pattern: Seq<char>,
    line_idx: usize,
    start: int,
)
    requires
        0 <= start,
        cluster_count(text) <= usize::MAX,
    ensures
        forall|k: int|
            0 <= k < hits_from(text, pattern, line_idx, start).len() ==> {
                let hit = #[trigger] hits_from(text, pattern, line_idx, start)[k];
                hit.line_idx == line_idx && start <= hit.grapheme_idx < cluster_count(text)
            },
        forall|i: int, j: int|
            0 <= i < j < hits_from(text, pattern, line_idx, start).len() ==> hits_from(
                text,
                pattern,
                line_idx,
                start,
            )[i].grapheme_idx < hits_from(text, pattern, line_idx, start)[j].grapheme_idx,
    decreases cluster_count(text) - start,
{
    let hits = hits_from(text, pattern, line_idx, start);
    match search_in(text, pattern, start) {
        Some(g) => {
            let next = search_resume_in(text, pattern, start);
            if start <= g < next <= cluster_count(text) {
                lemma_hits_from_order(text, pattern, line_idx, next);
                let rest = hits_from(text, pattern, line_idx, next);
                assert forall|k: int| 0 <= k < hits.len() implies {
                    let hit = #[trigger] hits[k];
                    hit.line_idx == line_idx && start <= hit.grapheme_idx < cluster_count(text)
                } by {
                    if k > 0 {
                        assert(hits[k] == rest[k - 1]);
                    }
                }
                assert forall|i: int, j: int| 0 <= i < j < hits.len() implies hits[i].grapheme_idx
                    < hits[j].grapheme_idx by {
                    assert(hits[j] == rest[j - 1]);
                    if i > 0 {
                        assert(hits[i] == rest[i - 1]);
                    }
                }
            }
        },
        None => {},
    }
}

/// Where `pattern` is found in a line from grapheme `start` on, the find
/// is the first of the finds from there, and every later find is at a
/// grapheme that starts at or behind the end of its occurrence: no find
/// reaches into the one before.
pub proof fn lemma_hits_do_not_overlap(
    text: Seq<char>,
    pattern: Seq<char>,
    line_idx: usize,
    start: int,
)
    requires
        is_segmentation(grapheme_starts(text), text),
        cluster_count(text) <= usize::MAX,
        search_in(text, pattern, start) is Some,
    ensures
        hits_from(text, pattern, line_idx, start) == seq![
            TextLocation {
                grapheme_idx: search_in(text, pattern, start)->0 as usize,
                line_idx,
            },
        ] + hits_from(text, pattern, line_idx, search_resume_in(text, pattern, start)),
        forall|k: int|
            1 <= k < hits_from(text, pattern, line_idx, start).len() ==> byte_offset_in(
                text,
                (#[trigger] hits_from(text, pattern, line_idx, start)[k]).grapheme_idx as int,
            ) >= search_end_in(text, pattern, start),
{
    let starts = grapheme_starts(text);
    let g = search_in(text, pattern, start)->0;
    let next = search_resume_in(text, pattern, start);
    let p = first_occurrence(utf8(text), utf8(pattern), byte_offset_in(text, start))->0;
    lemma_first_occurrence(utf8(text), utf8(pattern), byte_offset_in(text, start));
    lemma_piece_not_before(starts, p, start, 0);
    lemma_search_resume(text, pattern, start);
    lemma_hits_from_order(text, pattern, line_idx, next);
    let hits = hits_from(text, pattern, line_idx, start);
    let rest = hits_from(text, pattern, line_idx, next);
    assert forall|k: int| 1 <= k < hits.len() implies byte_offset_in(
        text,
        (#[trigger] hits[k]).grapheme_idx as int,
    ) >= search_end_in(text, pattern, start) by {
        assert(hits[k] == rest[k - 1]);
        let h = hits[k].grapheme_idx as int;
        assert(next <= h < cluster_count(text));
        if next < h {
            assert(starts[next] < starts[h]);
        }
    }
}

/// The finds in the first `n` lines are places of those lines, each
/// behind the one before in document order.
pub proof fn lemma_all_hits_order(lines: Seq<Seq<char>>, pattern: Seq<char>, n: int)
    requires
        0 <= n <= lines.len(),
        n <= usize::MAX,
        forall|i: int| 0 <= i < n ==> cluster_count(#[trigger] lines[i]) <= usize::MAX,
    ensures
        forall|k: int|
            0 <= k < all_hits(lines, pattern, n).len() ==> {
                let hit = #[trigger] all_hits(lines, pattern, n)[k];
                hit.line_idx < n && hit.grapheme_idx < cluster_count(lines[hit.line_idx as int])
            },
        forall|i: int, j: int|
            0 <= i < j < all_hits(lines, pattern, n).len() ==> all_hits(
                lines,
                pattern,
                n,
            )[j].is_after(all_hits(lines, pattern, n)[i]),
    decreases n,
{
    if n > 0 {
        lemma_all_hits_order(lines, pattern, n - 1);
        lemma_hits_from_order(lines[n - 1], pattern, (n - 1) as usize, 0);
        let before = all_hits(lines, pattern, n - 1);
        let last = hits_from(lines[n - 1], pattern, (n - 1) as usize, 0);
        let hits = all_hits(lines, pattern, n);
        assert forall|k: int| 0 <= k < hits.len() implies {
            let hit = #[trigger] hits[k];
            hit.line_idx < n && hit.grapheme_idx < cluster_count(lines[hit.line_idx as int])
        } by {
            if k < before.len() {
                assert(hits[k] == before[k]);
            } else {
                assert(hits[k] == last[k - before.len()]);
            }
        }
        assert forall|i: int, j: int| 0 <= i < j < hits.len() implies hits[j].is_after(
            hits[i],
        ) by {
            if j < before.len() {
                assert(hits[i] == before[i] && hits[j] == before[j]);
            } else if i < before.len() {
                assert(hits[i] == before[i]);
                assert(hits[j] == last[j - before.len()]);
            } else {
                assert(hits[i] == last[i - before.len()]);
                assert(hits[j] == last[j - before.len()]);
            }
        }
    }
}

/// The places in the first `n` lines at which `pattern` is found, in document order.
pub open spec fn all_hits(lines: Seq<Seq<char>>, pattern: Seq<char>, n: int) -> Seq<TextLocation>
    decreases n,
{
    if n <= 0 {
        seq![]
    } else {
        all_hits(lines, pattern, n - 1) + hits_from(lines[n - 1], pattern, (n - 1) as usize, 0)
    }
}

/// The text of a file that holds the first `n` lines, each followed by a line feed.
pub open spec fn file_text(lines: Seq<Seq<char>>, n: int) -> Seq<char>
    decreases n,
{
    if n <= 0 {
        seq![]
    } else {
        file_text(lines, n - 1) + lines[n - 1] + seq!['\n']
    }
}

/// What has to be written to save a buffer: the name of the file and its text.
pub struct SaveRequest {
    pub filename: String,
    pub contents: String,
}

/// A document.
pub struct Buffer {
    lines: Vec<Line>,
    filename: Option<String>,
    file_type: FileType,
    modified: bool,
}

impl View for Buffer {
    type V = BufferView;

    closed spec fn view(&self) -> BufferView {
        BufferView {
            lines: Seq::new(self.lines@.len(), |i: int| self.lines@[i]@),
            filename: match self.filename {
                Some(name) => Some(name@),
                None => None,
            },
            file_type: self.file_type,
            modified: self.modified,
        }
    }
}

impl Default for Buffer {
    fn default() -> (r: Self)
        ensures
            r.wf(),
            r@ == BufferView::empty(),
    {
        let r = Self {
            lines: Vec::new(),
            filename: None,
            file_type: FileType::Text,
            modified: false,
        };
        assert(r@.lines =~= Seq::<Seq<char>>::empty());
        r
    }
}

impl Buffer {
    /// Every line of the buffer is valid, and the kind of the buffer is
    /// one that the name of its file tells.
    pub closed spec fn wf(&self) -> bool {
        &&& forall|i: int| 0 <= i < self.lines@.len() ==> (#[trigger] self.lines@[i]).wf()
        &&& self@.kind_told()
    }

    /// Every line of a valid buffer can be laid out in columns, and its
    /// kind is one that the name of its file tells.
    pub proof fn lemma_wf(&self)
        requires
            self.wf(),
        ensures
            all_displayable(self@.lines),
            self@.kind_told(),
            forall|i: int|
                0 <= i < self@.lines.len() ==> is_segmentation(
                    grapheme_starts(#[trigger] self@.lines[i]),
                    self@.lines[i],
                ),
            forall|i: int|
                0 <= i < self@.lines.len() && printable_ascii(#[trigger] self@.lines[i])
                    ==> cluster_count(self@.lines[i]) == self@.lines[i].len(),
    {
        assert forall|i: int| 0 <= i < self@.lines.len() implies is_segmentation(
            grapheme_starts(#[trigger] self@.lines[i]),
            self@.lines[i],
        ) && (printable_ascii(self@.lines[i]) ==> cluster_count(self@.lines[i])
            == self@.lines[i].len()) by {
            self.lines@[i].lemma_wf();
            self.lines@[i].lemma_ascii_line();
        }
        assert forall|i: int| 0 <= i < self@.lines.len() implies displayable(
            #[trigger] self@.lines[i],
        ) by {
            self.lines@[i].lemma_wf();
        }
    }

    /// Whether the buffer has no lines.
    pub fn is_empty(&self) -> (r: bool)
        ensures
            r == (self@.lines.len() == 0),
    {
        self.lines.len() == 0
    }

    /// Number of lines.
    pub fn get_n_lines(&self) -> (r: usize)
        ensures
            r == self@.lines.len(),
    {
        self.lines.len()
    }

    /// Number of graphemes of line `line_index`; 0 where there is no such line.
    pub fn get_line_length(&self, line_index: usize) -> (r: usize)
        requires
            self.wf(),
        ensures
            r == self@.line_length(line_index as int),
    {
        if line_index < self.lines.len() {
            self.lines[line_index].len()
        } else {
            0
        }
    }

    /// Line `line_index`, where the buffer has it.
    pub fn get_line(&self, line_index: usize) -> (r: Option<&Line>)
        requires
            self.wf(),
        ensures
            r is Some <==> line_index < self@.lines.len(),
            r matches Some(line) ==> line.wf() && line@ == self@.lines[line_index as int],
    {
        if line_index < self.lines.len() {
            Some(&self.lines[line_index])
        } else {
            None
        }
    }

    /// The name of the file that the buffer belongs to, if it belongs to one.
    pub fn get_filename(&self) -> (r: Option<String>)
        ensures
            r is Some <==> self@.filename is Some,
            r matches Some(name) ==> Some(name@) == self@.filename,
    {
        match &self.filename {
            Some(name) => Some(name.clone()),
            None => None,
        }
    }

    /// The kind of file that the buffer holds: the kind that was told by
    /// its file name when it got the name, and plain text while it has none.
    pub fn get_filetype(&self) -> (r: FileType)
        ensures
            r == self@.file_type,
    {
        self.file_type
    }

    /// Whether the buffer was changed since it was loaded or saved.
    pub fn is_modified(&self) -> (r: bool)
        ensures
            r == self@.modified,
    {
        self.modified
    }

    /// Whether every line of `contents` can be laid out in columns.
    pub fn can_load(contents: &str) -> (r: bool)
        ensures
            r == all_displayable(text_lines(contents@)),
    {
        let texts = split_lines(contents);
        let n: usize = texts.len();
        let mut i: usize = 0;
        while i < n
            invariant
                i <= n,
                n == texts@.len(),
                texts@.len() == text_lines(contents@).len(),
                forall|k: int| 0 <= k < n ==> (#[trigger] texts@[k])@ == text_lines(contents@)[k],
                forall|k: int| 0 <= k < i ==> displayable(#[trigger] text_lines(contents@)[k]),
            decreases n - i,
        {
            if !crate::grapheme::is_displayable(texts[i].as_str()) {
                assert(!displayable(text_lines(contents@)[i as int]));
                return false;
            }
            i += 1;
        }
        true
    }

    /// Replaces the lines by the lines of `contents` and marks the buffer as unchanged.
    pub fn load(&mut self, contents: &str)
        requires
            old(self).wf(),
            all_displayable(text_lines(contents@)),
        ensures
            final(self).wf(),
            final(self)@ == (BufferView {
                lines: text_lines(contents@),
                modified: false,
                ..old(self)@
            }),
    {
        let texts = split_lines(contents);
        let n: usize = texts.len();
        let mut lines: Vec<Line> = Vec::new();
        let mut i: usize = 0;
        while i < n
            invariant
                i <= n,
                n == texts@.len(),
                texts@.len() == text_lines(contents@).len(),
                all_displayable(text_lines(contents@)),
                forall|k: int| 0 <= k < n ==> (#[trigger] texts@[k])@ == text_lines(contents@)[k],
                lines@.len() == i,
                forall|k: int|
                    0 <= k < i ==> (#[trigger] lines@[k]).wf() && lines@[k]@ == text_lines(
                        contents@,
                    )[k],
            decreases n - i,
        {
            assert(displayable(text_lines(contents@)[i as int]));
            lines.push(Line::from_str(texts[i].as_str()));
            i += 1;
        }
        self.lines = lines;
        self.modified = false;
        assert(self@.lines =~= text_lines(contents@));
    }

    /// Loads as `load` does where every line of `contents` can be laid out
    /// in columns, and leaves the buffer as it is where not.
    pub fn try_load(&mut self, contents: &str) -> (done: bool)
        requires
            old(self).wf(),
        ensures
            final(self).wf(),
            done == all_displayable(text_lines(contents@)),
            done ==> final(self)@ == (BufferView {
                lines: text_lines(contents@),
                modified: false,
                ..old(self)@
            }),
            !done ==> final(self)@ == old(self)@,
    {
        if Self::can_load(contents) {
            self.load(contents);
            true
        } else {
            false
        }
    }

    /// Loads `contents` as the contents of the file called `filename`. The
    /// buffer is then of the kind that the name tells.
    pub fn load_file(&mut self, filename: &str, contents: &str)
        requires
            old(self).wf(),
            all_displayable(text_lines(contents@)),
        ensures
            final(self).wf(),
            final(self)@ == (BufferView {
                lines: text_lines(contents@),
                filename: Some(filename@),
                file_type: final(self)@.file_type,
                modified: false,
            }),
            final(self)@.file_type.told_by(filename@),
    {
        self.load(contents);
        self.filename = Some(String::from_str(filename));
        self.file_type = FileType::from_filename(filename);
    }

    /// The text of the file that holds the buffer: every line followed by a line feed.
    pub fn contents(&self) -> (r: String)
        ensures
            r@ == file_text(self@.lines, self@.lines.len() as int),
    {
        let n: usize = self.lines.len();
        let mut text = String::new();
        let mut i: usize = 0;
        while i < n
            invariant
                i <= n,
                n == self.lines@.len(),
                text@ == file_text(self@.lines, i as int),
            decreases n - i,
        {
            text.append(self.lines[i].get_raw_str());
            text.append("\n");
            proof {
                reveal_strlit("\n");
                assert("\n"@ =~= seq!['\n']);
                assert(text@ =~= file_text(self@.lines, i as int + 1));
            }
            i += 1;
        }
        text
    }

    /// What to write to save the buffer under its own file name; nothing
    /// while it has none.
    pub fn save(&self) -> (r: Option<SaveRequest>)
        ensures
            r is Some <==> self@.filename is Some,
            r matches Some(request) ==> Some(request.filename@) == self@.filename
                && request.contents@ == file_text(self@.lines, self@.lines.len() as int),
    {
        match &self.filename {
            Some(name) => Some(self.save_as_filename(name.as_str())),
            None => None,
        }
    }

    /// What to write to save the buffer under the name `filename`.
    pub fn save_as_filename(&self, filename: &str) -> (r: SaveRequest)
        ensures
            r.filename@ == filename@,
            r.contents@ == file_text(self@.lines, self@.lines.len() as int),
    {
        SaveRequest { filename: String::from_str(filename), contents: self.contents() }
    }

    /// Records that the buffer was written to the file called `filename`:
    /// the buffer belongs to that file from now on and is unchanged.
    pub fn mark_saved(&mut self, filename: &str)
        requires
            old(self).wf(),
        ensures
            final(self).wf(),
            final(self)@ == (BufferView {
                filename: Some(filename@),
                file_type: final(self)@.file_type,
                modified: false,
                ..old(self)@
            }),
            final(self)@.file_type.told_by(filename@),
    {
        self.filename = Some(String::from_str(filename));
        self.file_type = FileType::from_filename(filename);
        self.modified = false;
        assert(self@.lines =~= old(self)@.lines);
    }

    fn init_if_empty(&mut self)
        requires
            old(self).wf(),
        ensures
            final(self).wf(),
            final(self)@ == old(self)@.materialized(),
    {
        if self.is_empty() {
            self.lines.push(Line::default());
            assert(self@.lines =~= seq![Seq::<char>::empty()]);
        }
    }

    /// Number of graphemes that `insert_char` would leave in the line that
    /// `loc` names, 0 where it names none; nothing where `insert_char` may
    /// not be called with these arguments.
    pub fn len_after_insert_char(&self, c: char, loc: TextLocation) -> (r: Option<usize>)
        requires
            self.wf(),
        ensures
            r is Some <==> self@.can_insert_char(c, loc),
            r matches Some(n) ==> n == self@.after_insert_char(c, loc).line_length(
                loc.line_idx as int,
            ),
            self@.plain_line(loc.line_idx as int, 1) && ' ' <= c <= '~' ==> r == Some(
                (self@.materialized().lines[loc.line_idx as int].len() + 1) as usize,
            ),
    {
        if self.lines.len() == 0 {
            if loc.line_idx == 0 {
                let line = Line::default();
                line.len_after_insert(c, loc.grapheme_idx)
            } else {
                Some(0)
            }
        } else if loc.line_idx < self.lines.len() {
            self.lines[loc.line_idx].len_after_insert(c, loc.grapheme_idx)
        } else {
            Some(0)
        }
    }

    /// Puts `c` in front of the grapheme at `loc`. A buffer without lines
    /// gets an empty line first; no line is changed where `loc` names none.
    pub fn insert_char(&mut self, c: char, loc: TextLocation)
        requires
            old(self).wf(),
            old(self)@.can_insert_char(c, loc),
        ensures
            final(self).wf(),
            final(self)@ == old(self)@.after_insert_char(c, loc),
            old(self)@.lines.len() == 0 ==> final(self)@.lines.len() == 1,
    {
        self.init_if_empty();
        if loc.line_idx >= self.lines.len() {
            return ;
        }
        self.lines[loc.line_idx].insert_char(c, loc.grapheme_idx);
        self.modified = true;
        assert(self@.lines =~= old(self)@.after_insert_char(c, loc).lines);
    }

    /// Inserts as `insert_char` does where it may be called with these
    /// arguments, and leaves the buffer as it is where not.
    pub fn try_insert_char(&mut self, c: char, loc: TextLocation) -> (done: bool)
        requires
            old(self).wf(),
        ensures
            final(self).wf(),
            done == old(self)@.can_insert_char(c, loc),
            old(self)@.plain_line(loc.line_idx as int, 1) && ' ' <= c <= '~' ==> done,
            done ==> final(self)@ == old(self)@.after_insert_char(c, loc),
            !done ==> final(self)@ == old(self)@,
    {
        if self.len_after_insert_char(c, loc).is_some() {
            self.insert_char(c, loc);
            true
        } else {
            false
        }
    }

    /// Number of graphemes that `delete_grapheme` would leave in the line
    /// that `loc` names; nothing where `delete_grapheme` may not be called
    /// with this argument.
    pub fn len_after_delete_grapheme(&self, loc: TextLocation) -> (r: Option<usize>)
        requires
            self.wf(),
        ensures
            r is Some <==> self@.can_delete_grapheme(loc),
            r matches Some(n) ==> n == cluster_count(self@.line_with_delete(loc)),
            loc.line_idx < self@.lines.len() && printable_ascii(self@.lines[loc.line_idx as int])
                ==> r == Some(
                (if loc.grapheme_idx < self@.lines[loc.line_idx as int].len() {
                    self@.lines[loc.line_idx as int].len() - 1
                } else {
                    self@.lines[loc.line_idx as int].len() as int
                }) as usize,
            ),
    {
        if loc.line_idx < self.lines.len() {
            self.lines[loc.line_idx].len_after_delete(loc.grapheme_idx)
        } else {
            None
        }
    }

    /// Takes out the grapheme at `loc`.
    pub fn delete_grapheme(&mut self, loc: TextLocation)
        requires
            old(self).wf(),
            old(self)@.can_delete_grapheme(loc),
        ensures
            final(self).wf(),
            final(self)@ == old(self)@.after_delete_grapheme(loc),
    {
        self.lines[loc.line_idx].delete_grapheme(loc.grapheme_idx);
        self.modified = true;
        assert(self@.lines =~= old(self)@.after_delete_grapheme(loc).lines);
    }

    /// Deletes as `delete_grapheme` does where it may be called with this
    /// argument, and leaves the buffer as it is where not.
    pub fn try_delete_grapheme(&mut self, loc: TextLocation) -> (done: bool)
        requires
            old(self).wf(),
        ensures
            final(self).wf(),
            done == old(self)@.can_delete_grapheme(loc),
            loc.line_idx < old(self)@.lines.len() && printable_ascii(
                old(self)@.lines[loc.line_idx as int],
            ) ==> done,
            done ==> final(self)@ == old(self)@.after_delete_grapheme(loc),
            !done ==> final(self)@ == old(self)@,
    {
        if self.len_after_delete_grapheme(loc).is_some() {
            self.delete_grapheme(loc);
            true
        } else {
            false
        }
    }

    /// Number of graphemes that `join_adjacent_rows` would leave in line
    /// `idx`; nothing where `join_adjacent_rows` may not be called with
    /// this argument.
    pub fn len_after_join(&self, idx: usize) -> (r: Option<usize>)
        requires
            self.wf(),
        ensures
            r is Some <==> self@.can_join(idx as int),
            r matches Some(n) ==> n == cluster_count(self@.joined_line(idx as int)),
            self@.plain_pair(idx as int) ==> r == Some(
                (self@.lines[idx as int].len() + self@.lines[idx + 1].len()) as usize,
            ),
    {
        let n: usize = self.lines.len();
        if idx < n && idx + 1 < n {
            self.lines[idx].len_after_push(&self.lines[idx + 1])
        } else {
            None
        }
    }

    /// Joins line `idx + 1` to the end of line `idx`.
    pub fn join_adjacent_rows(&mut self, idx: usize)
        requires
            old(self).wf(),
            old(self)@.can_join(idx as int),
        ensures
            final(self).wf(),
            final(self)@ == old(self)@.after_join(idx as int),
    {
        let n: usize = self.lines.len();
        let next_line = self.lines.remove(idx + 1);
        self.lines[idx].push_line(&next_line);
        self.modified = true;
        assert(self@.lines =~= old(self)@.after_join(idx as int).lines);
    }

    /// Joins as `join_adjacent_rows` does where it may be called with
    /// this argument, and leaves the buffer as it is where not.
    pub fn try_join_adjacent_rows(&mut self, idx: usize) -> (done: bool)
        requires
            old(self).wf(),
        ensures
            final(self).wf(),
            done == old(self)@.can_join(idx as int),
            old(self)@.plain_pair(idx as int) ==> done,
            done ==> final(self)@ == old(self)@.after_join(idx as int),
            !done ==> final(self)@ == old(self)@,
    {
        if self.len_after_join(idx).is_some() {
            self.join_adjacent_rows(idx);
            true
        } else {
            false
        }
    }

    /// Opens an empty line in front of the line that `loc` names.
    pub fn begin_newline_above(&mut self, loc: TextLocation)
        requires
            old(self).wf(),
            loc.line_idx <= old(self)@.materialized().lines.len(),
        ensures
            final(self).wf(),
            final(self)@ == old(self)@.after_new_line(loc.line_idx as int),
    {
        self.init_if_empty();
        self.lines.insert(loc.line_idx, Line::default());
        self.modified = true;
        assert(self@.lines =~= old(self)@.after_new_line(loc.line_idx as int).lines);
    }

    /// Opens an empty line behind the line that `loc` names.
    pub fn begin_newline_below(&mut self, loc: TextLocation)
        requires
            old(self).wf(),
            loc.line_idx < old(self)@.materialized().lines.len(),
        ensures
            final(self).wf(),
            final(self)@ == old(self)@.after_new_line(loc.line_idx + 1),
    {
        self.init_if_empty();
        let n: usize = self.lines.len();
        self.lines.insert(loc.line_idx + 1, Line::default());
        self.modified = true;
        assert(self@.lines =~= old(self)@.after_new_line(loc.line_idx + 1).lines);
    }

    /// Whether `insert_newline` may be called with this argument.
    pub fn can_insert_newline(&self, loc: TextLocation) -> (r: bool)
        requires
            self.wf(),
        ensures
            r == self@.can_insert_newline(loc),
            self@.plain_line(loc.line_idx as int, 0) && loc.grapheme_idx
                <= self@.materialized().lines[loc.line_idx as int].len() ==> r,
    {
        if self.lines.len() == 0 {
            if loc.line_idx == 0 {
                let line = Line::default();
                line.can_split_off(loc.grapheme_idx)
            } else {
                false
            }
        } else {
            loc.line_idx < self.lines.len() && self.lines[loc.line_idx].can_split_off(
                loc.grapheme_idx,
            )
        }
    }

    /// Cuts the line that `loc` names in front of the grapheme at `loc`: what
    /// follows becomes a line of its own behind it.
    pub fn insert_newline(&mut self, loc: TextLocation)
        requires
            old(self).wf(),
            old(self)@.can_insert_newline(loc),
        ensures
            final(self).wf(),
            final(self)@ == old(self)@.after_insert_newline(loc),
    {
        self.init_if_empty();
        let n: usize = self.lines.len();
        let remainder = self.lines[loc.line_idx].split_off(loc.grapheme_idx);
        self.lines.insert(loc.line_idx + 1, remainder);
        self.modified = true;
        assert(self@.lines =~= old(self)@.after_insert_newline(loc).lines);
    }

    /// Cuts as `insert_newline` does where it may be called with this
    /// argument, and leaves the buffer as it is where not.
    pub fn try_insert_newline(&mut self, loc: TextLocation) -> (done: bool)
        requires
            old(self).wf(),
        ensures
            final(self).wf(),
            done == old(self)@.can_insert_newline(loc),
            old(self)@.plain_line(loc.line_idx as int, 0) && loc.grapheme_idx
                <= old(self)@.materialized().lines[loc.line_idx as int].len() ==> done,
            done ==> final(self)@ == old(self)@.after_insert_newline(loc),
            !done ==> final(self)@ == old(self)@,
    {
        if self.can_insert_newline(loc) {
            self.insert_newline(loc);
            true
        } else {
            false
        }
    }

    /// Has `highlighter` highlight every line, from the first to the last.
    pub fn highlight(&self, highlighter: &mut HighlighterBundler)
        requires
            old(highlighter)@.wf(),
        ensures
            final(highlighter)@.wf(),
            final(highlighter)@ == old(highlighter)@.after_lines(
                self@.lines,
                self@.lines.len() as int,
            ),
    {
        let n: usize = self.lines.len();
        let mut i: usize = 0;
        while i < n
            invariant
                i <= n,
                n == self.lines@.len(),
                highlighter@.wf(),
                highlighter@ == old(highlighter)@.after_lines(self@.lines, i as int),
            decreases n - i,
        {
            highlighter.highlight_line(&self.lines[i]);
            i += 1;
        }
    }

    /// Every place at which `pattern` is found, in document order. In each
    /// line the search goes on behind the end of the last find, so that no
    /// find reaches into another.
    pub fn search(&self, pattern: &str) -> (r: Vec<TextLocation>)
        requires
            self.wf(),
        ensures
            r@ == all_hits(self@.lines, pattern@, self@.lines.len() as int),
            forall|i: int|
                0 <= i < r@.len() ==> (#[trigger] r@[i]).line_idx < self@.lines.len()
                    && r@[i].grapheme_idx < cluster_count(self@.lines[r@[i].line_idx as int]),
            forall|i: int, j: int| 0 <= i < j < r@.len() ==> r@[j].is_after(r@[i]),
    {
        let mut result_list: Vec<TextLocation> = Vec::new();
        let n: usize = self.lines.len();
        let mut line_idx: usize = 0;
        while line_idx < n
            invariant
                self.wf(),
                line_idx <= n,
                n == self.lines@.len(),
                result_list@ == all_hits(self@.lines, pattern@, line_idx as int),
                forall|i: int|
                    0 <= i < result_list@.len() ==> (#[trigger] result_list@[i]).line_idx
                        < self@.lines.len() && result_list@[i].grapheme_idx < cluster_count(
                        self@.lines[result_list@[i].line_idx as int],
                    ),
            decreases n - line_idx,
        {
            let line = &self.lines[line_idx];
            let ghost text = line@;
            let ghost before = result_list@;
            let mut start_index: usize = 0;
            loop
                invariant
                    line.wf(),
                    line@ == text,
                    line_idx < self@.lines.len(),
                    text == self@.lines[line_idx as int],
                    before + hits_from(text, pattern@, line_idx, 0) == result_list@ + hits_from(
                        text,
                        pattern@,
                        line_idx,
                        start_index as int,
                    ),
                    start_index <= cluster_count(text),
                    forall|i: int|
                        0 <= i < result_list@.len() ==> (#[trigger] result_list@[i]).line_idx
                            < self@.lines.len() && result_list@[i].grapheme_idx < cluster_count(
                            self@.lines[result_list@[i].line_idx as int],
                        ),
                ensures
                    result_list@ == before + hits_from(text, pattern@, line_idx, 0),
                decreases cluster_count(text) - start_index,
            {
                proof {
                    line.lemma_wf();
                }
                match line.search_on(pattern, start_index) {
                    Some((grapheme_idx, next)) => {
                        result_list.push(TextLocation { grapheme_idx, line_idx });
                        proof {
                            assert(before + hits_from(text, pattern@, line_idx, 0) =~= result_list@
                                + hits_from(text, pattern@, line_idx, next as int));
                        }
                        start_index = next;
                    },
                    None => {
                        proof {
                            assert(hits_from(text, pattern@, line_idx, start_index as int) =~= seq![
                            ]);
                            assert(result_list@ =~= before + hits_from(
                                text,
                                pattern@,
                                line_idx,
                                0,
                            ));
                        }
                        break ;
                    },
                }
            }
            line_idx += 1;
        }
        proof {
            self.lemma_wf();
            lemma_all_hits_order(self@.lines, pattern@, n as int);
        }
        result_list
    }
}

} // verus!
