use vstd::prelude::*;

use crate::repository::{error_message, RepositoryError};

verus! {

/// HTTP 200 OK.
pub const STATUS_OK: u16 = 200;

/// HTTP 404 Not Found.
pub const STATUS_NOT_FOUND: u16 = 404;

/// HTTP 500 Internal Server Error.
pub const STATUS_INTERNAL_SERVER_ERROR: u16 = 500;

/// The answer to `GET /api/portfolio` when the repository fails: status 500
/// and the message `Failed to retrieve portfolio: <error>`.
pub fn portfolio_failure(err: &RepositoryError) -> (r: (u16, String))
    ensures
        r.0 == STATUS_INTERNAL_SERVER_ERROR,
        r.1@ == "Failed to retrieve portfolio: "@ + error_message(*err),
{
    let msg = err.to_string();
    (STATUS_INTERNAL_SERVER_ERROR, String::from_str("Failed to retrieve portfolio: ").concat(msg.as_str()))
}

/// The answer to a price update: status 200 when the repository applied it,
/// otherwise status 404 and the message `Update failed: <error>`.
pub fn price_update_response(outcome: &Result<(), RepositoryError>) -> (r: Result<u16, (u16, String)>)
    ensures
        match outcome {
            Ok(()) => r == Ok::<u16, (u16, String)>(STATUS_OK),
            Err(e) => r matches Err((code, msg)) && code == STATUS_NOT_FOUND
                && msg@ == "Update failed: "@ + error_message(*e),
        },
{
    match outcome {
        Ok(()) => Ok(STATUS_OK),
        Err(e) => {
            let msg = e.to_string();
            Err((STATUS_NOT_FOUND, String::from_str("Update failed: ").concat(msg.as_str())))
        },
    }
}

} // verus!
