//! The commands of the command line.

use vstd::prelude::*;
use vstd::string::*;

use crate::text::str_eq;

verus! {

/// A command of the command line.
#[derive(Debug)]
pub enum CmdlineCommands {
    Quit,
    Write,
    Saveas(String),
    StopHighlighting,
}

/// What the editor says when `saveas` is given no file name.
pub open spec fn no_filename_message() -> Seq<char> {
    "No filename provided for `saveas` command."@
}

/// What the editor says of a command `name` that it does not know.
pub open spec fn no_such_command_message(name: Seq<char>) -> Seq<char> {
    "No such command: "@ + name
}

/// What contracts say of a command.
pub enum CommandView {
    Quit,
    Write,
    Saveas(Seq<char>),
    StopHighlighting,
}

impl View for CmdlineCommands {
    type V = CommandView;

    open spec fn view(&self) -> CommandView {
        match self {
            CmdlineCommands::Quit => CommandView::Quit,
            CmdlineCommands::Write => CommandView::Write,
            CmdlineCommands::Saveas(name) => CommandView::Saveas(name@),
            CmdlineCommands::StopHighlighting => CommandView::StopHighlighting,
        }
    }
}

/// The command that the words `words` spell, or what the editor says
/// where they spell none: `q` quits, `w` writes the file, and `saveas`
/// with a file name writes it under that name.
pub open spec fn parsed(words: Seq<Seq<char>>) -> Result<CommandView, Seq<char>> {
    if words[0] == "q"@ {
        Ok(CommandView::Quit)
    } else if words[0] == "w"@ {
        Ok(CommandView::Write)
    } else if words[0] == "saveas"@ {
        if words.len() >= 2 {
            Ok(CommandView::Saveas(words[1]))
        } else {
            Err(no_filename_message())
        }
    } else {
        Err(no_such_command_message(words[0]))
    }
}

/// The texts of the strings `words`.
pub open spec fn texts(words: Seq<String>) -> Seq<Seq<char>> {
    Seq::new(words.len(), |i: int| words[i]@)
}

impl CmdlineCommands {
    /// The command that the words `cmdline` spell, or what the editor says
    /// where they spell none.
    pub fn parse_cmdline(cmdline: &Vec<String>) -> (r: Result<Self, String>)
        requires
            cmdline@.len() >= 1,
        ensures
            match r {
                Ok(command) => parsed(texts(cmdline@)) == Ok::<CommandView, Seq<char>>(command@),
                Err(msg) => parsed(texts(cmdline@)) == Err::<CommandView, Seq<char>>(msg@),
            },
    {
        let name = cmdline[0].as_str();
        if str_eq(name, "q") {
            Ok(Self::Quit)
        } else if str_eq(name, "w") {
            Ok(Self::Write)
        } else if str_eq(name, "saveas") {
            if cmdline.len() >= 2 {
                Ok(Self::Saveas(cmdline[1].clone()))
            } else {
                Err(String::from_str("No filename provided for `saveas` command."))
            }
        } else {
            let mut msg = String::from_str("No such command: ");
            msg.append(name);
            Err(msg)
        }
    }
}

} // verus!
