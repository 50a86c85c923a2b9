//! What can go wrong, and the message that says so.

use vstd::prelude::*;

use crate::text::Text;

verus! {

/// An error that a server answered with.
#[derive(Debug, Clone, PartialEq, Eq)]
pub struct ApiError {
    pub code: i32,
    pub message: String,
}

/// Why bytes could not be read.
#[derive(Debug, Clone, Copy, PartialEq, Eq, Structural)]
pub enum IoErrorKind {
    /// The bytes end too early.
    UnexpectedEof,
    /// The bytes are there but make no sense.
    InvalidData,
}

/// A failure to read bytes.
#[derive(Debug, Clone, PartialEq, Eq)]
pub struct IoError {
    pub kind: IoErrorKind,
    pub message: String,
}

#[derive(Debug, Clone, PartialEq, Eq)]
pub enum Error {
    UnexpectedError { message: String },
    IoUnexpectedError { message: String, source: IoError },
    RowConvertError { message: String },
    IllegalArgument { message: String },
    UnsupportedOperation { message: String },
    /// A table definition that the server would refuse.
    InvalidTable { message: String },
    /// No server leads the bucket that was asked for.
    LeaderNotAvailable { message: String },
    FlussAPIError { api_error: ApiError },
}

pub type Result<T> = core::result::Result<T, Error>;

/// What an [`IoError`] says.
pub struct IoErrorView {
    pub kind: IoErrorKind,
    pub message: Seq<char>,
}

/// What an [`Error`] says.
pub enum ErrorView {
    UnexpectedError(Seq<char>),
    IoUnexpectedError(Seq<char>, IoErrorView),
    RowConvertError(Seq<char>),
    IllegalArgument(Seq<char>),
    UnsupportedOperation(Seq<char>),
    InvalidTable(Seq<char>),
    LeaderNotAvailable(Seq<char>),
    FlussAPIError(i32, Seq<char>),
}

impl View for IoError {
    type V = IoErrorView;

    open spec fn view(&self) -> IoErrorView {
        IoErrorView { kind: self.kind, message: self.message@ }
    }
}

impl View for Error {
    type V = ErrorView;

    open spec fn view(&self) -> ErrorView {
        match *self {
            Error::UnexpectedError { message } => ErrorView::UnexpectedError(message@),
            Error::IoUnexpectedError { message, source } => ErrorView::IoUnexpectedError(
                message@,
                source@,
            ),
            Error::RowConvertError { message } => ErrorView::RowConvertError(message@),
            Error::IllegalArgument { message } => ErrorView::IllegalArgument(message@),
            Error::UnsupportedOperation { message } => ErrorView::UnsupportedOperation(message@),
            Error::InvalidTable { message } => ErrorView::InvalidTable(message@),
            Error::LeaderNotAvailable { message } => ErrorView::LeaderNotAvailable(message@),
            Error::FlussAPIError { api_error } => ErrorView::FlussAPIError(
                api_error.code,
                api_error.message@,
            ),
        }
    }
}

impl ErrorView {
    /// The message of an error.
    pub open spec fn message(self) -> Seq<char> {
        match self {
            ErrorView::UnexpectedError(m) => m,
            ErrorView::IoUnexpectedError(m, _) => m,
            ErrorView::RowConvertError(m) => m,
            ErrorView::IllegalArgument(m) => m,
            ErrorView::UnsupportedOperation(m) => m,
            ErrorView::InvalidTable(m) => m,
            ErrorView::LeaderNotAvailable(m) => m,
            ErrorView::FlussAPIError(_, m) => m,
        }
    }
}

/// A result with its error by what it says.
pub open spec fn err_view<T>(r: Result<T>) -> core::result::Result<T, ErrorView> {
    match r {
        Ok(v) => Ok(v),
        Err(e) => Err(e@),
    }
}

impl Error {
    pub fn invalid_table<M: Text>(message: M) -> (r: Error)
        ensures
            r@ == ErrorView::InvalidTable(message.text()),
    {
        Error::InvalidTable { message: message.into_text() }
    }

    pub fn leader_not_available<M: Text>(message: M) -> (r: Error)
        ensures
            r@ == ErrorView::LeaderNotAvailable(message.text()),
    {
        Error::LeaderNotAvailable { message: message.into_text() }
    }

    pub fn illegal_argument<M: Text>(message: M) -> (r: Error)
        ensures
            r@ == ErrorView::IllegalArgument(message.text()),
    {
        Error::IllegalArgument { message: message.into_text() }
    }

    pub fn unsupported<M: Text>(message: M) -> (r: Error)
        ensures
            r@ == ErrorView::UnsupportedOperation(message.text()),
    {
        Error::UnsupportedOperation { message: message.into_text() }
    }

    pub fn unexpected<M: Text>(message: M) -> (r: Error)
        ensures
            r@ == ErrorView::UnexpectedError(message.text()),
    {
        Error::UnexpectedError { message: message.into_text() }
    }

    pub fn row_convert<M: Text>(message: M) -> (r: Error)
        ensures
            r@ == ErrorView::RowConvertError(message.text()),
    {
        Error::RowConvertError { message: message.into_text() }
    }

    pub fn io_unexpected<M: Text, S: Text>(message: M, kind: IoErrorKind, source: S) -> (r: Error)
        ensures
            r@ == ErrorView::IoUnexpectedError(
                message.text(),
                IoErrorView { kind, message: source.text() },
            ),
    {
        Error::IoUnexpectedError {
            message: message.into_text(),
            source: IoError { kind, message: source.into_text() },
        }
    }

    /// The error that a failed read turns into, with the same message.
    pub fn from_io(source: IoError) -> (r: Error)
        ensures
            r@ == ErrorView::IoUnexpectedError(source@.message, source@),
    {
        let message = source.message.clone();
        Error::IoUnexpectedError { message, source }
    }

    /// The message of the error.
    pub fn message(&self) -> (r: &str)
        ensures
            r@ == self@.message(),
    {
        match self {
            Error::UnexpectedError { message } => message.as_str(),
            Error::IoUnexpectedError { message, .. } => message.as_str(),
            Error::RowConvertError { message } => message.as_str(),
            Error::IllegalArgument { message } => message.as_str(),
            Error::UnsupportedOperation { message } => message.as_str(),
            Error::InvalidTable { message } => message.as_str(),
            Error::LeaderNotAvailable { message } => message.as_str(),
            Error::FlussAPIError { api_error } => api_error.message.as_str(),
        }
    }
}

} // verus!
