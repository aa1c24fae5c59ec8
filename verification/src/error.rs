//! The failures that parsing and resolution can end in.

use vstd::prelude::*;

verus! {

/// A terminal failure of the parser or of one of the resolvers.
#[derive(Debug, PartialEq, Eq)]
pub enum Error {
    /// A keyword that the resolution needs is absent from the header.
    MandatoryWCSKeywordsMissing(&'static str),
    /// The `RADESYS` card names no known frame family.
    UnrecognizedRadeSys(String),
    /// The projection code is outside the supported set.
    UnsupportedProjection(String),
    /// The parameters of the named projection are not acceptable; the second
    /// field says why.
    InitProjection(&'static str, &'static str),
    /// A value that has to be an integer is not one.
    NumericParseFailure,
}

/// The mathematical content of an [`Error`].
pub enum ErrorView {
    MandatoryWCSKeywordsMissing(Seq<char>),
    UnrecognizedRadeSys(Seq<char>),
    UnsupportedProjection(Seq<char>),
    InitProjection(Seq<char>, Seq<char>),
    NumericParseFailure,
}

impl View for Error {
    type V = ErrorView;

    open spec fn view(&self) -> ErrorView {
        match self {
            Error::MandatoryWCSKeywordsMissing(field) => ErrorView::MandatoryWCSKeywordsMissing(
                field@,
            ),
            Error::UnrecognizedRadeSys(value) => ErrorView::UnrecognizedRadeSys(value@),
            Error::UnsupportedProjection(code) => ErrorView::UnsupportedProjection(code@),
            Error::InitProjection(name, reason) => ErrorView::InitProjection(name@, reason@),
            Error::NumericParseFailure => ErrorView::NumericParseFailure,
        }
    }
}

/// The mathematical content of what a resolution returns: the content of the
/// value, or that of the failure.
pub open spec fn outcome<T: View>(r: Result<T, Error>) -> Result<T::V, ErrorView> {
    match r {
        Ok(value) => Ok(value@),
        Err(e) => Err(e@),
    }
}

} // verus!
