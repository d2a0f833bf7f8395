//! The kind of file that a buffer holds, told by the name of the file.

use std::path::Path;
use vstd::prelude::*;
use vstd::string::*;

use crate::text::str_eq;

verus! {

/// A kind of file.
#[derive(Copy, Clone, Debug, PartialEq, Eq, Structural)]
pub enum FileType {
    Rust,
    Text,
}

/// `ext` can be the extension of a file called `name`: it holds no dot,
/// and it stands in `name` behind a dot.
pub open spec fn extension_in(name: Seq<char>, ext: Seq<char>) -> bool {
    &&& forall|k: int| 0 <= k < ext.len() ==> ext[k] != '.'
    &&& exists|i: int|
        0 <= i && i + 1 + ext.len() <= name.len() && #[trigger] name.subrange(
            i,
            i + 1 + ext.len(),
        ) == seq!['.'] + ext
}

/// Calls `Path::extension` on the path that `filename` spells. Trusted:
/// an extension is the part of the file name behind its last dot, so it
/// holds no dot and stands in `filename` behind one. Which part of a path
/// is its file name depends on the platform, and whether there is an
/// extension with it: of that nothing is stated.
#[verifier::external_body]
fn path_extension(filename: &str) -> (r: Option<String>)
    ensures
        r matches Some(ext) ==> extension_in(filename@, ext@),
{
    Path::new(filename).extension().and_then(|ext| ext.to_str()).map(String::from)
}

impl FileType {
    /// The kind of a file whose name has the extension `ext`.
    pub open spec fn of_extension(ext: Option<Seq<char>>) -> FileType {
        if ext == Some("rs"@) {
            FileType::Rust
        } else {
            FileType::Text
        }
    }

    /// The kind of a file whose name has the extension `ext`: Rust source
    /// for `rs`, plain text for every other and for none.
    pub fn from_extension(ext: Option<&str>) -> (r: Self)
        ensures
            r == Self::of_extension(
                match ext {
                    Some(e) => Some(e@),
                    None => None,
                },
            ),
    {
        match ext {
            Some(e) => if str_eq(e, "rs") {
                Self::Rust
            } else {
                Self::Text
            },
            None => Self::Text,
        }
    }

    /// The kind can be the one that the name `name` of a file tells: it
    /// is Rust source only where `rs` stands in the name behind a dot, and
    /// it is plain text for every name without a dot.
    pub open spec fn told_by(self, name: Seq<char>) -> bool {
        &&& self == FileType::Rust ==> extension_in(name, "rs"@)
        &&& (forall|i: int| 0 <= i < name.len() ==> name[i] != '.') ==> self == FileType::Text
    }

    /// The kind of the file called `filename`, told by the extension that
    /// the platform finds in the name: Rust source where that is `rs`,
    /// which then stands in the name behind a dot, and plain text in every
    /// other case, as for every name without a dot.
    pub fn from_filename(filename: &str) -> (r: Self)
        ensures
            r.told_by(filename@),
    {
        let found = path_extension(filename);
        let r = match &found {
            Some(ext) => Self::from_extension(Some(ext.as_str())),
            None => Self::from_extension(None),
        };
        proof {
            if r == FileType::Rust {
                let ext = "rs"@;
                assert(extension_in(filename@, ext));
                let i = choose|i: int|
                    0 <= i && i + 1 + ext.len() <= filename@.len() && #[trigger] filename@.subrange(
                        i,
                        i + 1 + ext.len(),
                    ) == seq!['.'] + ext;
                assert(filename@.subrange(i, i + 1 + ext.len())[0] == filename@[i]);
                assert((seq!['.'] + ext)[0] == '.');
                assert(filename@[i] == '.');
            }
        }
        r
    }

    /// The name of the kind, in lower case.
    pub open spec fn name(self) -> Seq<char> {
        match self {
            FileType::Rust => "rust"@,
            FileType::Text => "text"@,
        }
    }

    /// The name of the kind, in lower case.
    pub fn to_string(&self) -> (r: String)
        ensures
            r@ == self.name(),
    {
        match self {
            Self::Rust => String::from_str("rust"),
            Self::Text => String::from_str("text"),
        }
    }
}

impl Default for FileType {
    fn default() -> (r: Self)
        ensures
            r == FileType::Text,
    {
        Self::Text
    }
}

} // verus!
