//! The last row of the screen: the command line and the messages of the editor.

use vstd::prelude::*;
use vstd::string::*;

use crate::editor_command::CmdlineSubmode;
use crate::grapheme::{cluster_count, displayable};
use crate::line::{delete_at, insert_at, Line};
use crate::terminal::Position;
use crate::text::{split_words, whitespace_words};

verus! {

/// What a bar draws: a text and the cell of the screen at which it begins.
pub struct BarDrawing {
    pub position: Position,
    pub text: String,
}

/// What contracts say of a command bar.
pub struct CommandBarView {
    pub prompt: Seq<char>,
    pub cmdline: Seq<char>,
    pub needs_redraw: bool,
    pub pos_y: usize,
}

impl CommandBarView {
    /// The bar with the text `text` in its command line, marked for drawing.
    pub open spec fn with_cmdline(self, text: Seq<char>) -> CommandBarView {
        CommandBarView { cmdline: text, needs_redraw: true, ..self }
    }

    /// The text of the command line with `c` at its end.
    pub open spec fn cmdline_with(self, c: char) -> Seq<char> {
        insert_at(self.cmdline, c, cluster_count(self.cmdline) as int)
    }

    /// The text of the command line without its last grapheme.
    pub open spec fn cmdline_without_last(self) -> Seq<char> {
        delete_at(self.cmdline, cluster_count(self.cmdline) - 1)
    }

    /// The bar after `handle_backspace`.
    pub open spec fn after_backspace(self) -> CommandBarView {
        if cluster_count(self.cmdline) > 0 {
            self.with_cmdline(self.cmdline_without_last())
        } else {
            self
        }
    }

    /// The bar without prompt and with the text `text`, marked for drawing.
    pub open spec fn cleared(self, text: Seq<char>) -> CommandBarView {
        CommandBarView { prompt: Seq::<char>::empty(), cmdline: text, needs_redraw: true, ..self }
    }
}

/// The prompt of each use of the command line.
pub open spec fn prompt_of(submode: CmdlineSubmode) -> Seq<char> {
    match submode {
        CmdlineSubmode::Cmdline => ":"@,
        CmdlineSubmode::Search => "/"@,
    }
}

/// The command bar: a prompt, the command line, and the row of the screen
/// that shows them.
pub struct CommandBar {
    prompt: String,
    cmdline: Line,
    needs_redraw: bool,
    pos_y: usize,
}

impl View for CommandBar {
    type V = CommandBarView;

    closed spec fn view(&self) -> CommandBarView {
        CommandBarView {
            prompt: self.prompt@,
            cmdline: self.cmdline@,
            needs_redraw: self.needs_redraw,
            pos_y: self.pos_y,
        }
    }
}

impl CommandBar {
    /// The command line is a valid line.
    pub closed spec fn wf(&self) -> bool {
        self.cmdline.wf()
    }

    /// An empty command bar for row `pos_y` of the screen.
    pub fn new(pos_y: usize) -> (r: Self)
        ensures
            r.wf(),
            r@ == (CommandBarView {
                prompt: Seq::<char>::empty(),
                cmdline: Seq::<char>::empty(),
                needs_redraw: true,
                pos_y,
            }),
    {
        Self { prompt: String::new(), cmdline: Line::default(), needs_redraw: true, pos_y }
    }

    /// What the bar draws, where it is marked for drawing: the prompt and
    /// the command line, at the start of its row. After that it is not
    /// marked for drawing.
    pub fn render(&mut self) -> (r: Option<BarDrawing>)
        ensures
            final(self).wf() == old(self).wf(),
            final(self)@ == (CommandBarView { needs_redraw: false, ..old(self)@ }),
            r is Some <==> old(self)@.needs_redraw,
            r matches Some(drawing) ==> drawing.text@ == old(self)@.prompt + old(self)@.cmdline
                && drawing.position == (Position { row: old(self)@.pos_y, col: 0 }),
    {
        if !self.needs_redraw {
            return None;
        }
        let mut message = self.prompt.clone();
        message.append(self.cmdline.get_raw_str());
        self.needs_redraw = false;
        Some(BarDrawing { position: Position { row: self.pos_y, col: 0 }, text: message })
    }

    /// Puts `c` at the end of the command line.
    pub fn insert_char(&mut self, c: char)
        requires
            old(self).wf(),
            displayable(old(self)@.cmdline_with(c)),
        ensures
            final(self).wf(),
            final(self)@ == old(self)@.with_cmdline(old(self)@.cmdline_with(c)),
    {
        self.needs_redraw = true;
        let n: usize = self.cmdline.len();
        self.cmdline.insert_char(c, n);
    }

    /// Inserts as `insert_char` does where the command line can then be
    /// laid out in columns, and leaves the bar as it is where not.
    pub fn try_insert_char(&mut self, c: char) -> (done: bool)
        requires
            old(self).wf(),
        ensures
            final(self).wf(),
            done == displayable(old(self)@.cmdline_with(c)),
            done ==> final(self)@ == old(self)@.with_cmdline(old(self)@.cmdline_with(c)),
            !done ==> final(self)@ == old(self)@,
    {
        let n: usize = self.cmdline.len();
        if self.cmdline.len_after_insert(c, n).is_some() {
            self.insert_char(c);
            true
        } else {
            false
        }
    }

    /// Takes the last grapheme out of the command line.
    pub fn handle_backspace(&mut self)
        requires
            old(self).wf(),
            cluster_count(old(self)@.cmdline) > 0 ==> displayable(
                old(self)@.cmdline_without_last(),
            ),
        ensures
            final(self).wf(),
            final(self)@ == old(self)@.after_backspace(),
    {
        if self.cmdline.len() > 0 {
            self.needs_redraw = true;
            let n: usize = self.cmdline.len();
            self.cmdline.delete_grapheme(n - 1);
        }
    }

    /// Goes back as `handle_backspace` does where the command line can
    /// then be laid out in columns, and leaves the bar as it is where not.
    pub fn try_handle_backspace(&mut self) -> (done: bool)
        requires
            old(self).wf(),
        ensures
            final(self).wf(),
            done == (cluster_count(old(self)@.cmdline) > 0 ==> displayable(
                old(self)@.cmdline_without_last(),
            )),
            done ==> final(self)@ == old(self)@.after_backspace(),
            !done ==> final(self)@ == old(self)@,
    {
        let n: usize = self.cmdline.len();
        if n == 0 || self.cmdline.len_after_delete(n - 1).is_some() {
            self.handle_backspace();
            true
        } else {
            false
        }
    }

    /// Shows the prompt of `submode`.
    pub fn set_cmdline_prompt(&mut self, submode: CmdlineSubmode)
        ensures
            final(self).wf() == old(self).wf(),
            final(self)@ == (CommandBarView {
                prompt: prompt_of(submode),
                needs_redraw: true,
                ..old(self)@
            }),
    {
        let prompt_str = match submode {
            CmdlineSubmode::Cmdline => ":",
            CmdlineSubmode::Search => "/",
        };
        self.needs_redraw = true;
        self.prompt = String::from_str(prompt_str);
    }

    /// Empties the prompt and the command line.
    pub fn clear_cmdline(&mut self)
        ensures
            final(self).wf(),
            final(self)@ == old(self)@.cleared(Seq::<char>::empty()),
    {
        self.needs_redraw = true;
        self.prompt = String::new();
        self.cmdline = Line::default();
    }

    /// The text of the command line.
    pub fn get_raw_cmdline(&self) -> (r: String)
        ensures
            r@ == self@.cmdline,
    {
        self.cmdline.to_string()
    }

    /// The words of the command line.
    pub fn get_current_cmdline(&self) -> (r: Vec<String>)
        ensures
            r@.len() == whitespace_words(self@.cmdline).len(),
            forall|i: int| 0 <= i < r@.len() ==> (#[trigger] r@[i])@ == whitespace_words(
                self@.cmdline,
            )[i],
    {
        split_words(self.cmdline.get_raw_str())
    }

    /// Shows `msg` in place of the prompt and the command line.
    pub fn set_error_message(&mut self, msg: &str)
        requires
            displayable(msg@),
        ensures
            final(self).wf(),
            final(self)@ == old(self)@.cleared(msg@),
    {
        self.needs_redraw = true;
        self.prompt = String::new();
        self.cmdline = Line::from_str(msg);
    }

    /// Shows `msg` as `set_error_message` does where it can be laid out
    /// in columns, and leaves the bar as it is where not.
    pub fn try_set_error_message(&mut self, msg: &str) -> (done: bool)
        requires
            old(self).wf(),
        ensures
            final(self).wf(),
            done == displayable(msg@),
            done ==> final(self)@ == old(self)@.cleared(msg@),
            !done ==> final(self)@ == old(self)@,
    {
        if crate::grapheme::is_displayable(msg) {
            self.set_error_message(msg);
            true
        } else {
            false
        }
    }
}

} // verus!
