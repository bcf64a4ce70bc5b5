//! Talking to anime tracking services: their errors and how replies are
//! read.
pub mod anilist;

use vstd::prelude::*;

verus! {

/// A failure response from a service API call.
#[derive(Clone, Debug)]
pub struct RequestError {
    /// Human-readable error message, if any.
    pub message: Option<String>,
    /// HTTP status code associated with the error.
    pub status: u16,
}

/// Why a call to a service failed. The HTTP client's and the JSON reader's
/// errors are carried as their messages.
#[derive(Debug)]
pub enum Error {
    /// Underlying HTTP error while sending an API request.
    HttpError(String),
    /// The API responded with an error status and message.
    RequestFailed(RequestError),
    /// Failed to parse the response JSON from an API call.
    InvalidResponseData(String),
}

impl Error {
    /// Whether this is a request failure with the given status.
    pub fn request_failed_with_status(&self, status: u16) -> (r: bool)
        ensures
            r == (self matches Error::RequestFailed(e) && e.status == status),
    {
        match self {
            Error::RequestFailed(e) => e.status == status,
            _ => false,
        }
    }
}

/// A reply's data, unless it carries errors: then the first error.
pub fn reply_data<T>(data: T, errors: Vec<RequestError>) -> (r: Result<T, Error>)
    ensures
        errors@.len() == 0 ==> r == Ok::<T, Error>(data),
        errors@.len() > 0 ==> r == Err::<T, Error>(Error::RequestFailed(errors@[0])),
{
    let mut errors = errors;
    if errors.len() > 0 {
        let error = errors.swap_remove(0);
        return Err(Error::RequestFailed(error));
    }
    Ok(data)
}

/// The result of looking an anime up: a 404 failure means there is no such
/// anime, any other failure stays a failure.
pub fn found_or_missing<T>(result: Result<T, Error>) -> (r: Result<Option<T>, Error>)
    ensures
        match result {
            Ok(v) => r == Ok::<Option<T>, Error>(Some(v)),
            Err(Error::RequestFailed(e)) => if e.status == 404 {
                r == Ok::<Option<T>, Error>(None)
            } else {
                r == Err::<Option<T>, Error>(Error::RequestFailed(e))
            },
            Err(e) => r == Err::<Option<T>, Error>(e),
        },
{
    match result {
        Ok(m) => Ok(Some(m)),
        Err(err) => {
            if err.request_failed_with_status(404) {
                Ok(None)
            } else {
                Err(err)
            }
        },
    }
}

} // verus!
