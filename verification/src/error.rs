//! What can go wrong while the releases are read.

use vstd::prelude::*;

verus! {

/// The cells of a row that a release is read from.
#[derive(Debug, Clone, Copy, PartialEq, Eq, Structural)]
pub enum Column {
    /// Codename and version title, divided by a pipe.
    Name,
    /// The day of the release.
    Date,
    /// The dotted version number.
    Version,
    /// The vendor's build identifier.
    Build,
}

/// Why a row gave no release. The texts are those found in the row.
#[derive(Debug, PartialEq, Eq)]
pub enum FieldError {
    /// The row has no cell in this column.
    CellMissing(Column),
    /// The name cell has no pipe, or nothing on one side of it.
    NameFieldMalformed(String),
    /// The version title has not the shape of a version title, or no digit
    /// follows its channel.
    VersionTitleMalformed(String),
    /// The word in the place of the channel names no channel.
    UnknownChannel(String),
    /// The date cell holds no date in the form `August 15, 2024`.
    DateMalformed(String),
}

/// Why a document gave no releases.
#[derive(Debug, PartialEq, Eq)]
pub enum ParseError {
    /// The document has no table of releases.
    StructuralAnchorMissing,
    /// The row at `index`, counted from zero, gave no release.
    Row { index: usize, error: FieldError },
}

/// A `FieldError` with its text as a sequence of characters.
pub ghost enum FieldFailure {
    CellMissing(Column),
    NameFieldMalformed(Seq<char>),
    VersionTitleMalformed(Seq<char>),
    UnknownChannel(Seq<char>),
    DateMalformed(Seq<char>),
}

/// A `ParseError` with its text as a sequence of characters.
pub ghost enum ParseFailure {
    StructuralAnchorMissing,
    Row { index: int, error: FieldFailure },
}

impl View for FieldError {
    type V = FieldFailure;

    open spec fn view(&self) -> FieldFailure {
        match *self {
            FieldError::CellMissing(column) => FieldFailure::CellMissing(column),
            FieldError::NameFieldMalformed(text) => FieldFailure::NameFieldMalformed(text@),
            FieldError::VersionTitleMalformed(text) => FieldFailure::VersionTitleMalformed(text@),
            FieldError::UnknownChannel(text) => FieldFailure::UnknownChannel(text@),
            FieldError::DateMalformed(text) => FieldFailure::DateMalformed(text@),
        }
    }
}

impl View for ParseError {
    type V = ParseFailure;

    open spec fn view(&self) -> ParseFailure {
        match *self {
            ParseError::StructuralAnchorMissing => ParseFailure::StructuralAnchorMissing,
            ParseError::Row { index, error } => ParseFailure::Row {
                index: index as int,
                error: error@,
            },
        }
    }
}

} // verus!
