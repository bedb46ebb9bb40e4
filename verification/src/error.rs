//! What can go wrong.

use vstd::prelude::*;

verus! {

/// The failures that the library reports.
#[derive(Debug, Clone, PartialEq, Eq)]
pub enum Error {
    /// A file or a command could not be used; the text says which and why.
    IoError(String),
    /// Bytes that should have been text were not.
    StrError(String),
    /// A store is not what it has to be: its directory is missing and cannot
    /// be made, is no directory or cannot be written to.
    DataError(String),
    /// The one-time password handed in is not the one on record, or there is
    /// none on record.
    OtpError(),
    /// The signing tool reported failure.
    CertError(),
    /// Every name that the counter can give is taken.
    AllocationExhausted(),
}

/// An [`Error`] with its text as a sequence of characters.
pub enum ErrorView {
    IoError(Seq<char>),
    StrError(Seq<char>),
    DataError(Seq<char>),
    OtpError,
    CertError,
    AllocationExhausted,
}

impl View for Error {
    type V = ErrorView;

    open spec fn view(&self) -> ErrorView {
        match self {
            Error::IoError(t) => ErrorView::IoError(t@),
            Error::StrError(t) => ErrorView::StrError(t@),
            Error::DataError(t) => ErrorView::DataError(t@),
            Error::OtpError() => ErrorView::OtpError,
            Error::CertError() => ErrorView::CertError,
            Error::AllocationExhausted() => ErrorView::AllocationExhausted,
        }
    }
}

} // verus!
