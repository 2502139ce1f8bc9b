//! The typed failures that a parse can end in.
//!
//! All three kinds propagate as a single tagged result from the top-level
//! parse entry points; none is ever recovered from, and a failing parse
//! yields no diagram at all.

use vstd::prelude::*;

verus! {

/// What the grammar engine was looking for at the position where it gave up.
#[derive(Clone, Copy, Debug, PartialEq, Eq, Structural)]
pub enum Expected {
    /// An entity block or a relationship statement.
    Item,
    /// An attribute line, an entity block, or a relationship statement.
    AttrOrItem,
    /// A well-formed entity header: `[` name `]` with an optional option
    /// block opening on the same line.
    EntityHeader,
}

/// A failure of the parse pipeline.
#[derive(Debug, PartialEq)]
pub enum Error {
    /// The input does not conform to the grammar. Carries the character
    /// position at which the offending construct starts and what was
    /// expected there.
    Syntax { pos: usize, expected: Expected },
    /// An option value that should be a small unsigned integer failed to
    /// convert; carries the offending text.
    InvalidInt(String),
    /// An option value that should be a number failed to convert; carries
    /// the offending text.
    InvalidFloat(String),
    /// An option block used a key outside the recognized set; carries the
    /// offending key.
    UnknownFormatOption(String),
}

/// The mathematical shape of an [`Error`], used by contracts.
pub enum ErrorView {
    Syntax { pos: int, expected: Expected },
    InvalidInt(Seq<char>),
    InvalidFloat(Seq<char>),
    UnknownFormatOption(Seq<char>),
}

impl Expected {
    /// The wording of this expectation.
    pub open spec fn spec_message(&self) -> Seq<char> {
        match self {
            Expected::Item => "an entity block or a relationship statement"@,
            Expected::AttrOrItem => "an attribute line, an entity block or a relationship statement"@,
            Expected::EntityHeader => "a well-formed entity header"@,
        }
    }

    /// Describes what was expected, in words.
    pub fn message(&self) -> (r: &'static str)
        ensures
            r@ == self.spec_message(),
    {
        match self {
            Expected::Item => "an entity block or a relationship statement",
            Expected::AttrOrItem => "an attribute line, an entity block or a relationship statement",
            Expected::EntityHeader => "a well-formed entity header",
        }
    }
}

impl Error {
    /// The wording of this failure; a syntax error's position stays in its
    /// `pos` field.
    pub open spec fn spec_message(&self) -> Seq<char> {
        match self {
            Error::Syntax { pos: _, expected } => "syntax error: expected "@
                + expected.spec_message(),
            Error::InvalidInt(s) => "invalid small unsigned integer: `"@ + s@ + "`"@,
            Error::InvalidFloat(s) => "invalid number: `"@ + s@ + "`"@,
            Error::UnknownFormatOption(s) => "Unknown formatting option: `"@ + s@ + "`"@,
        }
    }

    /// Describes the failure, in words.
    pub fn message(&self) -> (r: String)
        ensures
            r@ == self.spec_message(),
    {
        let mut out = String::new();
        match self {
            Error::Syntax { pos: _, expected } => {
                out.append("syntax error: expected ");
                out.append(expected.message());
            },
            Error::InvalidInt(s) => {
                out.append("invalid small unsigned integer: `");
                out.append(s.as_str());
                out.append("`");
            },
            Error::InvalidFloat(s) => {
                out.append("invalid number: `");
                out.append(s.as_str());
                out.append("`");
            },
            Error::UnknownFormatOption(s) => {
                out.append("Unknown formatting option: `");
                out.append(s.as_str());
                out.append("`");
            },
        }
        proof {
            assert(out@ =~= self.spec_message());
        }
        out
    }
}

impl View for Error {
    type V = ErrorView;

    open spec fn view(&self) -> ErrorView {
        match self {
            Error::Syntax { pos, expected } => ErrorView::Syntax {
                pos: *pos as int,
                expected: *expected,
            },
            Error::InvalidInt(s) => ErrorView::InvalidInt(s@),
            Error::InvalidFloat(s) => ErrorView::InvalidFloat(s@),
            Error::UnknownFormatOption(s) => ErrorView::UnknownFormatOption(s@),
        }
    }
}

} // verus!
