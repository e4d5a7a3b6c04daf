//! Errors of the portal client.

use vstd::prelude::*;

verus! {

/// Why a request to the portal failed.
#[derive(PartialEq, Eq, Debug)]
pub enum NsgError {
    /// The login answer set no session cookie.
    NoSessionCookie,
    /// Logging in again failed for the reason held.
    FailedToRelogin(Box<NsgError>),
    ReqwestTimeout,
    ReqwestRequestError,
    ReqwestConnectError,
    ReqwestBodyError,
    ReqwestDecodeError,
    ReqwestUnknownError,
    UrlEncodeError,
}

impl NsgError {
    /// The error for a failed HTTP exchange, from what the failure was: the
    /// first that holds of a timeout, a request that could not be built or
    /// sent, a failed connection, a body that could not be decoded and a
    /// body that could not be read.
    pub fn from_failure(timeout: bool, request: bool, connect: bool, decode: bool, body: bool) -> (r: NsgError)
        ensures
            timeout ==> r == NsgError::ReqwestTimeout,
            !timeout && request ==> r == NsgError::ReqwestRequestError,
            !timeout && !request && connect ==> r == NsgError::ReqwestConnectError,
            !timeout && !request && !connect && decode ==> r == NsgError::ReqwestDecodeError,
            !timeout && !request && !connect && !decode && body ==> r == NsgError::ReqwestBodyError,
            !timeout && !request && !connect && !decode && !body ==> r == NsgError::ReqwestUnknownError,
    {
        if timeout {
            NsgError::ReqwestTimeout
        } else if request {
            NsgError::ReqwestRequestError
        } else if connect {
            NsgError::ReqwestConnectError
        } else if decode {
            NsgError::ReqwestDecodeError
        } else if body {
            NsgError::ReqwestBodyError
        } else {
            NsgError::ReqwestUnknownError
        }
    }
}

} // verus!
