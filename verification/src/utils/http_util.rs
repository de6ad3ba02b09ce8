use crate::routes::{FetchError, FetchResult, PackedFetch};
use vstd::prelude::*;

verus! {

/// Whether an HTTP status code reports success (`200..=299`).
pub open spec fn is_success(status: u16) -> bool {
    200 <= status <= 299
}

/// Passes a response on only when its status reports success; a failed
/// request stays as it was.
pub fn only_200<H, T>(result: FetchResult<PackedFetch<H, T>>) -> (r: FetchResult<(H, T)>)
    ensures
        match result {
            Ok((status, headers, body)) => if is_success(status) {
                r == Ok::<(H, T), FetchError>((headers, body))
            } else {
                r == Err::<(H, T), FetchError>(FetchError::StatusError(status))
            },
            Err(e) => r == Err::<(H, T), FetchError>(e),
        },
{
    let (status, headers, body) = result?;
    if 200 <= status && status <= 299 {
        Ok((headers, body))
    } else {
        Err(FetchError::StatusError(status))
    }
}


/// The outcome of a request whose body is not used: success exactly when
/// [`only_200`] passes the response on.
pub fn only_200_done<H, T>(result: FetchResult<PackedFetch<H, T>>) -> (r: FetchResult<()>)
    ensures
        match result {
            Ok((status, _, _)) => if is_success(status) {
                r is Ok
            } else {
                r == Err::<(), FetchError>(FetchError::StatusError(status))
            },
            Err(e) => r == Err::<(), FetchError>(e),
        },
{
    match only_200(result) {
        Ok(_) => Ok(()),
        Err(e) => Err(e),
    }
}

} // verus!
