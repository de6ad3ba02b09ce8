//! The server's endpoints: request bodies, response models, and the checks
//! every response goes through.

pub mod absences_route;
pub mod calendar_route;
pub mod dashboard_route;
pub mod grades_route;
pub mod login_route;
pub mod message_route;
pub mod notification_route;

use crate::utils::text::{
    chars_of, contains_chars, contains_seq, ends_with, ends_with_chars, starts_with,
    starts_with_chars, trim_chars, trimmed,
};
use vstd::prelude::*;

verus! {

/// An arbitrary JSON value, carried through unread.
#[verifier::external_type_specification]
#[verifier::external_body]
pub struct ExJsonValue(serde_json::Value);

/// A failure to read or write JSON.
#[verifier::external_type_specification]
#[verifier::external_body]
pub struct ExJsonError(serde_json::Error);

/// A failed HTTP request.
#[verifier::external_type_specification]
#[verifier::external_body]
pub struct ExRequestError(reqwest::Error);

/// Why a request to the server did not produce a response body.
#[derive(Debug)]
pub enum FetchError {
    /// The request itself failed.
    Request(reqwest::Error),
    /// The body was not the JSON the endpoint returns.
    ParseJson(serde_json::Error),
    /// The client has been logged out.
    Logout,
    /// The server did not report success.
    Unsuccessful,
    /// The server answered with this status code, which is not a success.
    StatusError(u16),
}

pub type FetchResult<T> = Result<T, FetchError>;

/// A response: its status code, its headers and its decoded body.
pub type PackedFetch<H, T> = (u16, H, T);

pub type PackedFetchResult<H, T> = FetchResult<PackedFetch<H, T>>;

/// An endpoint of the server, named by its path below the school's base URL.
/// Every endpoint is called with `POST` and the route serialized as its body.
pub trait Route {
    fn get_route() -> &'static str;
}

/// The opening tag of the redirect page the server sends to a logged-out client.
pub const LOGOUT_PAGE_OPEN: &'static str = "<script type=\"text/javascript\">";

/// The closing tag of that page.
pub const LOGOUT_PAGE_CLOSE: &'static str = "</script>";

/// The start of the redirect statement on that page.
pub const LOGOUT_PAGE_REDIRECT: &'static str = "window.location = \"https://";

/// The redirect target on that page.
pub const LOGOUT_PAGE_TARGET: &'static str = ".digitalesregister.it/v2/login\";";

/// Whether a body, once trimmed, is the redirect page that tells a client it
/// has been logged out: a script element that sends the browser to the login
/// page of a school.
pub open spec fn is_logout_page(text: Seq<char>) -> bool {
    let t = trimmed(text);
    &&& starts_with(t, LOGOUT_PAGE_OPEN@)
    &&& ends_with(t, LOGOUT_PAGE_CLOSE@)
    &&& contains_seq(t, LOGOUT_PAGE_REDIRECT@)
    &&& contains_seq(t, LOGOUT_PAGE_TARGET@)
}

/// The logout page, spelled out: a body is the logout page exactly when, once
/// leading and trailing white space is cut, it starts with the opening script
/// tag, ends with the closing tag, and holds the redirect statement and the
/// login target each somewhere (any text, line breaks included, may stand
/// between them).
pub proof fn lemma_logout_page_shape(text: Seq<char>)
    ensures
        is_logout_page(text) <==> ({
            let t = trimmed(text);
            let open = LOGOUT_PAGE_OPEN@;
            let close = LOGOUT_PAGE_CLOSE@;
            let redirect = LOGOUT_PAGE_REDIRECT@;
            let target = LOGOUT_PAGE_TARGET@;
            &&& open.len() <= t.len() && t.subrange(0, open.len() as int) == open
            &&& close.len() <= t.len() && t.subrange(t.len() - close.len(), t.len() as int) == close
            &&& exists|i: int|
                #![trigger t.subrange(i, i + redirect.len())]
                0 <= i && i + redirect.len() <= t.len() && t.subrange(i, i + redirect.len()) == redirect
            &&& exists|i: int|
                #![trigger t.subrange(i, i + target.len())]
                0 <= i && i + target.len() <= t.len() && t.subrange(i, i + target.len()) == target
        }),
{
    let t = trimmed(text);
    let redirect = LOGOUT_PAGE_REDIRECT@;
    let target = LOGOUT_PAGE_TARGET@;
    if exists|i: int| #![trigger t.subrange(i, i + redirect.len())] 0 <= i && i + redirect.len() <= t.len() && t.subrange(i, i + redirect.len()) == redirect {
        let i = choose|i: int| #![trigger t.subrange(i, i + redirect.len())] 0 <= i && i + redirect.len() <= t.len() && t.subrange(i, i + redirect.len()) == redirect;
        assert(crate::utils::text::occurs_at(t, redirect, i));
    }
    if exists|i: int| #![trigger t.subrange(i, i + target.len())] 0 <= i && i + target.len() <= t.len() && t.subrange(i, i + target.len()) == target {
        let i = choose|i: int| #![trigger t.subrange(i, i + target.len())] 0 <= i && i + target.len() <= t.len() && t.subrange(i, i + target.len()) == target;
        assert(crate::utils::text::occurs_at(t, target, i));
    }
}

/// Rejects a body that is the logout redirect page.
pub fn check_logout_page(text: &str) -> (r: FetchResult<()>)
    ensures
        is_logout_page(text@) ==> r matches Err(FetchError::Logout),
        !is_logout_page(text@) ==> r is Ok,
{
    let t = trim_chars(&chars_of(text));
    if starts_with_chars(&t, &chars_of(LOGOUT_PAGE_OPEN)) && ends_with_chars(
        &t,
        &chars_of(LOGOUT_PAGE_CLOSE),
    ) && contains_chars(&t, &chars_of(LOGOUT_PAGE_REDIRECT)) && contains_chars(
        &t,
        &chars_of(LOGOUT_PAGE_TARGET),
    ) {
        return Err(FetchError::Logout);
    }
    Ok(())
}

/// Concludes a request whose body is not the logout page: `logout_signal` says
/// whether the body is the JSON object that marks an expired session
/// (`noSession` set), and `parsed` is the body decoded as the endpoint's
/// response.
pub fn finish_fetch<H, T>(
    status: u16,
    headers: H,
    logout_signal: bool,
    parsed: Result<T, serde_json::Error>,
) -> (r: PackedFetchResult<H, T>)
    ensures
        logout_signal ==> r matches Err(FetchError::Logout),
        !logout_signal ==> match parsed {
            Ok(data) => r == Ok::<PackedFetch<H, T>, FetchError>((status, headers, data)),
            Err(e) => r == Err::<PackedFetch<H, T>, FetchError>(FetchError::ParseJson(e)),
        },
{
    if logout_signal {
        return Err(FetchError::Logout);
    }
    match parsed {
        Ok(data) => Ok((status, headers, data)),
        Err(e) => Err(FetchError::ParseJson(e)),
    }
}

} // verus!
