//! The row of the screen that tells of the document: its name, whether it
//! was changed, its kind, and the line of the cursor.

use vstd::prelude::*;
use vstd::string::*;
use vstd::utf8::*;

use crate::command_bar::BarDrawing;
use crate::editor::{DocumentStatus, DocumentStatusView};
use crate::terminal::Position;
use crate::text::{
    byte_len, decimal, is_boundary, spaces, spaces_string, substring, text_range, usize_to_string,
    utf8,
};

verus! {

/// The left part of the status: the name of the file, or a stand-in while
/// the document has none, a space, and a mark where the document was changed.
pub open spec fn left_status(status: DocumentStatusView) -> Seq<char> {
    (match status.file_name {
        Some(name) => name,
        None => "[No Name]"@,
    }) + " "@ + (if status.is_modified {
        "[+]"@
    } else {
        ""@
    })
}

/// The right part of the status: the kind of the file in brackets, then
/// the line of the cursor, counted from one, and the number of lines, of
/// which an empty document has one.
pub open spec fn right_status(status: DocumentStatusView) -> Seq<char> {
    "["@ + status.file_type.name() + "] "@ + decimal((status.current_line_index + 1) as nat) + "/"@
        + decimal(
        if status.total_lines < 1 {
            1
        } else {
            status.total_lines as nat
        },
    )
}

/// The number of spaces between the two parts of the status in a row of
/// `width` columns: as many as make the row full, and none where the parts
/// alone are longer than the row.
pub open spec fn padding(status: DocumentStatusView, width: nat) -> nat {
    let used = utf8(left_status(status)).len() + utf8(right_status(status)).len();
    if used <= width {
        (width - used) as nat
    } else {
        0
    }
}

/// The status before it is cut to the row.
pub open spec fn full_status(status: DocumentStatusView, width: nat) -> Seq<char> {
    left_status(status) + spaces(padding(status, width)) + right_status(status)
}

/// The status as a row of `width` columns shows it: cut behind `width` bytes.
pub open spec fn status_text(status: DocumentStatusView, width: nat) -> Seq<char> {
    let full = full_status(status, width);
    if utf8(full).len() <= width {
        full
    } else {
        text_range(full, 0, width as int)
    }
}

/// What contracts say of a status bar.
pub struct StatusBarView {
    pub current_status: DocumentStatusView,
    pub needs_redraw: bool,
    pub width: usize,
    pub position_y: usize,
}

impl StatusBarView {
    /// The status can be drawn: the line number can be counted from one,
    /// and the row does not end inside a character of the status.
    pub open spec fn can_render(self) -> bool {
        &&& self.current_status.current_line_index < usize::MAX
        &&& utf8(full_status(self.current_status, self.width as nat)).len() > self.width
            ==> is_boundary(
            full_status(self.current_status, self.width as nat),
            self.width as int,
        )
    }
}

/// The status bar.
pub struct StatusBar {
    current_status: DocumentStatus,
    needs_redraw: bool,
    width: usize,
    position_y: usize,
}

impl View for StatusBar {
    type V = StatusBarView;

    closed spec fn view(&self) -> StatusBarView {
        StatusBarView {
            current_status: self.current_status@,
            needs_redraw: self.needs_redraw,
            width: self.width,
            position_y: self.position_y,
        }
    }
}

impl StatusBar {
    /// A status bar for row `position_y` of a screen that is `width` columns wide.
    pub fn new(width: usize, position_y: usize) -> (r: Self)
        ensures
            r@.current_status == DocumentStatusView::empty(),
            r@.needs_redraw,
            r@.width == width,
            r@.position_y == position_y,
    {
        StatusBar {
            current_status: DocumentStatus::default(),
            needs_redraw: true,
            width,
            position_y,
        }
    }

    /// Takes over `new_stat` and marks the bar for drawing, where
    /// `new_stat` differs from what the bar shows.
    pub fn update_status(&mut self, new_stat: DocumentStatus)
        ensures
            final(self)@ == (StatusBarView {
                current_status: new_stat@,
                needs_redraw: old(self)@.needs_redraw || new_stat@ != old(self)@.current_status,
                ..old(self)@
            }),
    {
        if !new_stat.same_as(&self.current_status) {
            self.current_status = new_stat;
            self.needs_redraw = true;
        }
    }

    /// Whether the bar is marked for drawing.
    pub fn needs_redraw(&self) -> (r: bool)
        ensures
            r == self@.needs_redraw,
    {
        self.needs_redraw
    }

    /// The status before it is cut to the row.
    pub fn status_line(&self) -> (r: String)
        requires
            self@.current_status.current_line_index < usize::MAX,
        ensures
            r@ == full_status(self@.current_status, self@.width as nat),
    {
        let mut left_status = match &self.current_status.file_name {
            Some(name) => name.clone(),
            None => String::from_str("[No Name]"),
        };
        left_status.append(" ");
        if self.current_status.is_modified {
            left_status.append("[+]");
        } else {
            left_status.append("");
        }
        let mut right_status = String::from_str("[");
        right_status.append(self.current_status.file_type.to_string().as_str());
        right_status.append("] ");
        right_status.append(usize_to_string(self.current_status.current_line_index + 1).as_str());
        right_status.append("/");
        let total: usize = if self.current_status.total_lines < 1 {
            1
        } else {
            self.current_status.total_lines
        };
        right_status.append(usize_to_string(total).as_str());
        let padding_len: usize = self.width.saturating_sub(
            byte_len(left_status.as_str()),
        ).saturating_sub(byte_len(right_status.as_str()));
        let mut status_str = left_status;
        status_str.append(spaces_string(padding_len).as_str());
        status_str.append(right_status.as_str());
        status_str
    }

    /// Whether `render` may be called.
    pub fn can_render(&self) -> (r: bool)
        ensures
            r == self@.can_render(),
    {
        if self.current_status.current_line_index == usize::MAX {
            return false;
        }
        let status_str = self.status_line();
        byte_len(status_str.as_str()) <= self.width || status_str.as_str().is_char_boundary(
            self.width,
        )
    }

    /// What the bar draws, where it is marked for drawing: the status, cut
    /// to the width of the screen, at the start of its row. After that it
    /// is not marked for drawing.
    pub fn render(&mut self) -> (r: Option<BarDrawing>)
        requires
            old(self)@.needs_redraw ==> old(self)@.can_render(),
        ensures
            final(self)@ == (StatusBarView { needs_redraw: false, ..old(self)@ }),
            r is Some <==> old(self)@.needs_redraw,
            r matches Some(drawing) ==> drawing.text@ == status_text(
                old(self)@.current_status,
                old(self)@.width as nat,
            ) && drawing.position == (Position { col: 0, row: old(self)@.position_y }),
    {
        if !self.needs_redraw {
            return None;
        }
        let mut status_str = self.status_line();
        if byte_len(status_str.as_str()) > self.width {
            proof {
                encode_utf8_valid_utf8(status_str@);
                is_char_boundary_start_end_of_seq(utf8(status_str@));
            }
            status_str = String::from_str(substring(status_str.as_str(), 0, self.width));
        }
        self.needs_redraw = false;
        Some(BarDrawing { position: Position { col: 0, row: self.position_y }, text: status_str })
    }
}

} // verus!
