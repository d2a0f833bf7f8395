//! In-memory text model and screen-rendering pipeline of a modal terminal editor.
//!
//! The library holds what the editor knows and decides; it reads no key and
//! writes to no screen or file. A program around it hands it the events of
//! the terminal and the contents of files, and carries out what it asks for.
//!
//! - [`grapheme`] and [`line`]: a line of text as a sequence of graphemes,
//!   each with the number of columns that it takes, tabs included.
//! - [`buffer`]: a document as a sequence of lines.
//! - [`annotated_string`]: text with style spans over it.
//! - [`highlighter`]: the spans that mark search hits and syntax.
//! - [`line_view`] and [`window`]: the cursor, the part of the document
//!   that the screen shows, and what it shows of each line.
//! - [`editor`], [`editor_command`], [`cmdline_commands`], [`command_bar`]
//!   and [`status_bar`]: the modes of the editor and the two bars.
//! - [`text`]: byte offsets into UTF-8 text, on which the others rest.
//!
//! Positions inside a line are counted in graphemes where a user sees them
//! and in bytes where text is cut; contracts say which. Grapheme clusters
//! and their widths come from `unicode_segmentation` and `unicode_width`.
//! A text is displayable when none of its clusters is wider than two
//! columns: every line of a document is. An edit whose result would not be
//! must not be made; for each such edit there is a function whose name
//! begins with `try_` that makes the edit where it can be made and leaves
//! everything as it is where not.

pub mod annotated_string;
pub mod buffer;
pub mod cmdline_commands;
pub mod command_bar;
pub mod editor;
pub mod editor_command;
pub mod filetype;
pub mod grapheme;
pub mod highlighter;
pub mod line;
pub mod line_view;
pub mod status_bar;
pub mod terminal;
pub mod text;
pub mod window;
