//! The errors that parsing or validating a desktop entry can raise, and
//! their mathematical values.

use vstd::prelude::*;

verus! {

/// Errors from parsing or validating a desktop entry.
#[derive(Debug, Clone, PartialEq)]
pub enum DesktopEntryError {
    /// Reading or writing the underlying file failed.
    Io(String),
    /// The file bytes are not valid UTF-8.
    InvalidUtf8,
    /// The mandatory `[Desktop Entry]` group is absent.
    MissingDesktopEntryGroup,
    /// A group header repeats a name already used (carries the name).
    DuplicateGroup(String),
    /// A line is neither blank, comment, header, nor key-value (carries
    /// the line number and the line).
    InvalidLine(usize, String),
    /// A group header opens a bracket it does not close (carries the line
    /// number and the line).
    InvalidGroupHeader(usize, String),
    /// A key name is empty or holds a character outside `A-Za-z0-9-`
    /// (carries the line number and the key).
    InvalidKeyName(usize, String),
    /// A required key is absent (carries the key).
    MissingRequiredKey(String),
    /// A required key holds an unrecognized value (carries the key and
    /// the value).
    InvalidValue(String, String),
    /// A type-dependent required field is absent (carries the message).
    ValidationError(String),
}

/// The mathematical value of a [`DesktopEntryError`].
pub enum ErrView {
    /// View of `Io`.
    Io(Seq<char>),
    /// View of `InvalidUtf8`.
    InvalidUtf8,
    /// View of `MissingDesktopEntryGroup`.
    MissingDesktopEntryGroup,
    /// View of `DuplicateGroup`.
    DuplicateGroup(Seq<char>),
    /// View of `InvalidLine`.
    InvalidLine(int, Seq<char>),
    /// View of `InvalidGroupHeader`.
    InvalidGroupHeader(int, Seq<char>),
    /// View of `InvalidKeyName`.
    InvalidKeyName(int, Seq<char>),
    /// View of `MissingRequiredKey`.
    MissingRequiredKey(Seq<char>),
    /// View of `InvalidValue`.
    InvalidValue(Seq<char>, Seq<char>),
    /// View of `ValidationError`.
    ValidationError(Seq<char>),
}

impl View for DesktopEntryError {
    type V = ErrView;

    open spec fn view(&self) -> ErrView {
        match self {
            DesktopEntryError::Io(m) => ErrView::Io(m@),
            DesktopEntryError::InvalidUtf8 => ErrView::InvalidUtf8,
            DesktopEntryError::MissingDesktopEntryGroup => ErrView::MissingDesktopEntryGroup,
            DesktopEntryError::DuplicateGroup(n) => ErrView::DuplicateGroup(n@),
            DesktopEntryError::InvalidLine(l, t) => ErrView::InvalidLine(*l as int, t@),
            DesktopEntryError::InvalidGroupHeader(l, t) => ErrView::InvalidGroupHeader(
                *l as int,
                t@,
            ),
            DesktopEntryError::InvalidKeyName(l, k) => ErrView::InvalidKeyName(*l as int, k@),
            DesktopEntryError::MissingRequiredKey(k) => ErrView::MissingRequiredKey(k@),
            DesktopEntryError::InvalidValue(k, v) => ErrView::InvalidValue(k@, v@),
            DesktopEntryError::ValidationError(m) => ErrView::ValidationError(m@),
        }
    }
}

} // verus!
