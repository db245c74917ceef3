//! The errors of the library.
use vstd::prelude::*;

verus! {

/// Why a request failed.
#[derive(Debug)]
pub enum AppError {
    /// The request or the configuration is at fault; the text says how.
    BadRequest(String),
    /// A cryptographic operation could not be set up.
    Crypto(String),
    /// A value could not be written out.
    Internal,
    /// The runtime refused a lookup; the text is the runtime's own.
    Worker(String),
}

/// An [`AppError`], with its text as a sequence of characters.
pub enum Fault {
    BadRequest(Seq<char>),
    Crypto(Seq<char>),
    Internal,
    Worker(Seq<char>),
}

impl View for AppError {
    type V = Fault;

    open spec fn view(&self) -> Fault {
        match self {
            AppError::BadRequest(text) => Fault::BadRequest(text@),
            AppError::Crypto(text) => Fault::Crypto(text@),
            AppError::Internal => Fault::Internal,
            AppError::Worker(text) => Fault::Worker(text@),
        }
    }
}

/// A result with both of its sides taken by their views.
pub open spec fn outcome<T: View>(result: Result<T, AppError>) -> Result<T::V, Fault> {
    match result {
        Ok(value) => Ok(value@),
        Err(error) => Err(error@),
    }
}

/// A [`AppError::BadRequest`] with the given text.
pub(crate) fn bad_request(text: &str) -> (error: AppError)
    ensures
        error@ == Fault::BadRequest(text@),
{
    AppError::BadRequest(text.to_string())
}

/// An error is seen as what it is, with its text as it is.
pub proof fn law_error_is_seen_as_it_is(text: String)
    ensures
        AppError::BadRequest(text)@ == Fault::BadRequest(text@),
        AppError::Crypto(text)@ == Fault::Crypto(text@),
        AppError::Internal@ == Fault::Internal,
        AppError::Worker(text)@ == Fault::Worker(text@),
{
}

} // verus!
