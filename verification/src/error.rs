//! The failures that building a request or rendering a response can end in.

use vstd::prelude::*;
use vstd::string::*;

verus! {

/// Why an invocation was refused. Each variant carries the text it is about.
#[derive(Debug, Clone, PartialEq, Eq)]
pub enum Error {
    /// The URL is not a syntactically valid absolute URL; holds the URL.
    InvalidUrl(String),
    /// A form field has no `=`; holds the field as it was given.
    InvalidFieldSyntax(String),
    /// The content-type header is not a media type; holds the header's value.
    InvalidContentType(String),
    /// A body declared as JSON could not be reformatted; holds the formatter's
    /// complaint.
    MalformedResponseBody(String),
}

/// An [`Error`] with its text as a sequence of characters.
pub enum ErrorView {
    InvalidUrl(Seq<char>),
    InvalidFieldSyntax(Seq<char>),
    InvalidContentType(Seq<char>),
    MalformedResponseBody(Seq<char>),
}

impl View for Error {
    type V = ErrorView;

    open spec fn view(&self) -> ErrorView {
        match self {
            Error::InvalidUrl(s) => ErrorView::InvalidUrl(s@),
            Error::InvalidFieldSyntax(s) => ErrorView::InvalidFieldSyntax(s@),
            Error::InvalidContentType(s) => ErrorView::InvalidContentType(s@),
            Error::MalformedResponseBody(s) => ErrorView::MalformedResponseBody(s@),
        }
    }
}

impl ErrorView {
    /// The message shown to the user: a fixed prefix for the variant, then the
    /// text the error carries.
    pub open spec fn message(self) -> Seq<char> {
        match self {
            ErrorView::InvalidUrl(s) => "invalid URL: "@ + s,
            ErrorView::InvalidFieldSyntax(s) => "invalid key-value pair: "@ + s,
            ErrorView::InvalidContentType(s) => "invalid content type: "@ + s,
            ErrorView::MalformedResponseBody(s) => "malformed response body: "@ + s,
        }
    }
}

impl Error {
    /// The message shown to the user.
    pub fn message(&self) -> (r: String)
        ensures
            r@ == self@.message(),
    {
        match self {
            Error::InvalidUrl(s) => String::from_str("invalid URL: ").concat(s.as_str()),
            Error::InvalidFieldSyntax(s) => String::from_str("invalid key-value pair: ").concat(
                s.as_str(),
            ),
            Error::InvalidContentType(s) => String::from_str("invalid content type: ").concat(
                s.as_str(),
            ),
            Error::MalformedResponseBody(s) => String::from_str(
                "malformed response body: ",
            ).concat(s.as_str()),
        }
    }
}

} // verus!
