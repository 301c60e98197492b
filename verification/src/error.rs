//! What can go wrong at the native libraries.

use vstd::prelude::*;

use crate::text;

verus! {

/// An error of a native library.
#[derive(Debug, PartialEq, Eq)]
pub enum Error {
    /// The named function returned nothing.
    NullPointer(&'static str),
    /// The text holds a NUL and cannot be handed over.
    NulByte(String),
    /// The text that came back is no UTF-8.
    Utf8(String),
    /// The library refused, and says why.
    Api(String),
}

/// The model of an error.
#[verifier::ext_equal]
pub enum ErrorView {
    NullPointer(Seq<char>),
    NulByte(Seq<char>),
    Utf8(Seq<char>),
    Api(Seq<char>),
}

impl View for Error {
    type V = ErrorView;

    open spec fn view(&self) -> ErrorView {
        match self {
            Error::NullPointer(w) => ErrorView::NullPointer(w@),
            Error::NulByte(v) => ErrorView::NulByte(v@),
            Error::Utf8(v) => ErrorView::Utf8(v@),
            Error::Api(v) => ErrorView::Api(v@),
        }
    }
}

/// The words of an error.
pub open spec fn error_text(e: ErrorView) -> Seq<char> {
    match e {
        ErrorView::NullPointer(w) => "null pointer returned from "@ + w,
        ErrorView::NulByte(v) => "string contains interior NUL byte: "@ + v,
        ErrorView::Utf8(v) => "invalid UTF-8 from C API: "@ + v,
        ErrorView::Api(v) => v,
    }
}

impl Error {
    /// The words of an error.
    pub fn message(&self) -> (r: String)
        ensures
            r@ == error_text(self@),
    {
        match self {
            Error::NullPointer(w) => text::cat2("null pointer returned from ", w),
            Error::NulByte(v) => text::cat2("string contains interior NUL byte: ", v.as_str()),
            Error::Utf8(v) => text::cat2("invalid UTF-8 from C API: ", v.as_str()),
            Error::Api(v) => v.clone(),
        }
    }
}

/// Each error tells what it is about in its own words.
pub proof fn law_error_is_told(w: Seq<char>)
    ensures
        error_text(ErrorView::NullPointer(w)) == "null pointer returned from "@ + w,
        error_text(ErrorView::NulByte(w)) == "string contains interior NUL byte: "@ + w,
        error_text(ErrorView::Utf8(w)) == "invalid UTF-8 from C API: "@ + w,
        error_text(ErrorView::Api(w)) == w,
{
}

} // verus!
