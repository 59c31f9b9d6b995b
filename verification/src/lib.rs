pub mod billing;
pub mod json;
pub mod mapper;
pub mod paths;
pub mod sched;
pub mod schema;

use vstd::prelude::*;

verus! {

/// Classification of a fetch outcome: the well-known HTTP statuses,
/// any other status with its code, a transport failure with its
/// cause, and a body that did not decode.
#[derive(Debug)]
pub enum FetchError {
    NotFound,
    Forbidden,
    Unauthorized,
    UnknownStatus(u16),
    Transport(String),
    Malformed,
}

/// Classifies an HTTP response by status code: 200 passes the body
/// through, the well-known error statuses map to their variants, and
/// any other status is reported with its code.
pub fn classify_response(status: u16, body: String) -> (r: Result<String, FetchError>)
    ensures
        status == 200 ==> (r matches Ok(b) && b == body),
        status == 404 ==> (r matches Err(e) && e is NotFound),
        status == 403 ==> (r matches Err(e) && e is Forbidden),
        status == 401 ==> (r matches Err(e) && e is Unauthorized),
        (status != 200 && status != 404 && status != 403 && status != 401)
            ==> (r matches Err(e) && e matches FetchError::UnknownStatus(c) && c == status),
{
    match status {
        404u16 => Err(FetchError::NotFound),
        403u16 => Err(FetchError::Forbidden),
        401u16 => Err(FetchError::Unauthorized),
        200u16 => Ok(body),
        c => Err(FetchError::UnknownStatus(c)),
    }
}

} // verus!
