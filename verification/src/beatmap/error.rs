//! What can go wrong while a beatmap is read. Every error ends the parse.

use vstd::prelude::*;

verus! {

/// A token that has to be closed before the input ends.
#[derive(Debug, Clone, Copy, PartialEq, Eq)]
pub enum Token {
    /// A section name, closed by `]`.
    SectionName,
    /// A key, closed by `=` or `:`.
    Key,
}

/// The eight sections of a beatmap.
#[derive(Debug, Clone, Copy, PartialEq, Eq)]
pub enum SectionKind {
    General,
    Editor,
    Metadata,
    Difficulty,
    Events,
    TimingPoints,
    Colours,
    HitObjects,
}

/// The kinds of record that a line of a list section can hold.
#[derive(Debug, Clone, Copy, PartialEq, Eq)]
pub enum RecordKind {
    Background,
    Video,
    Break,
    TimingPoint,
    Colour,
    HitObject,
}

/// The place of a value: under a key, or at a position in a record.
#[derive(Debug, Clone, PartialEq, Eq)]
pub enum Field {
    Key(String),
    Index(usize),
}

/// What a [`Field`] holds.
pub enum FieldModel {
    Key(Seq<char>),
    Index(usize),
}

impl DeepView for Field {
    type V = FieldModel;

    open spec fn deep_view(&self) -> FieldModel {
        match self {
            Field::Key(key) => FieldModel::Key(key@),
            Field::Index(index) => FieldModel::Index(*index),
        }
    }
}

impl View for Field {
    type V = FieldModel;

    open spec fn view(&self) -> FieldModel {
        self.deep_view()
    }
}

/// Why a beatmap could not be read.
#[derive(Debug, Clone, PartialEq, Eq)]
pub enum Error {
    /// The input ended inside a token.
    UnexpectedEndOfInput(Token),
    /// `/` or `#` stands where a comment cannot start.
    UnsupportedInlineComment,
    /// A `/` that opens a comment is not followed by a second one.
    MalformedCommentMarker,
    /// `=` or `:` stands where no key came before it.
    MissingKey,
    /// A section header names none of the eight sections.
    UnknownSection(String),
    /// A record has fewer fields than its kind needs.
    MissingField(SectionKind, RecordKind),
    /// A value is not of the type that its field has. The last part is the
    /// value as it was written.
    InvalidFieldValue(SectionKind, Field, String),
    /// The last word of the version header, given here, writes no number.
    InvalidVersion(String),
    /// There is no document to hand out. The parser never reports this.
    MissingResult,
}

/// What an [`Error`] holds.
pub enum ErrorModel {
    UnexpectedEndOfInput(Token),
    UnsupportedInlineComment,
    MalformedCommentMarker,
    MissingKey,
    UnknownSection(Seq<char>),
    MissingField(SectionKind, RecordKind),
    InvalidFieldValue(SectionKind, FieldModel, Seq<char>),
    InvalidVersion(Seq<char>),
    MissingResult,
}

impl DeepView for Error {
    type V = ErrorModel;

    open spec fn deep_view(&self) -> ErrorModel {
        match self {
            Error::UnexpectedEndOfInput(token) => ErrorModel::UnexpectedEndOfInput(*token),
            Error::UnsupportedInlineComment => ErrorModel::UnsupportedInlineComment,
            Error::MalformedCommentMarker => ErrorModel::MalformedCommentMarker,
            Error::MissingKey => ErrorModel::MissingKey,
            Error::UnknownSection(name) => ErrorModel::UnknownSection(name@),
            Error::MissingField(section, record) => ErrorModel::MissingField(*section, *record),
            Error::InvalidFieldValue(section, field, raw) => ErrorModel::InvalidFieldValue(
                *section,
                field@,
                raw@,
            ),
            Error::InvalidVersion(raw) => ErrorModel::InvalidVersion(raw@),
            Error::MissingResult => ErrorModel::MissingResult,
        }
    }
}

impl View for Error {
    type V = ErrorModel;

    open spec fn view(&self) -> ErrorModel {
        self.deep_view()
    }
}

/// The outcome of a step, as the contracts speak of it: what the value holds,
/// or what the error holds.
pub open spec fn outcome<T: DeepView>(r: Result<T, Error>) -> Result<T::V, ErrorModel> {
    match r {
        Ok(value) => Ok(value.deep_view()),
        Err(error) => Err(error@),
    }
}

} // verus!
