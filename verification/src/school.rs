//! A school on the platform: its address, the checks made before it is
//! accepted, and the decisions around logging in to it.

use crate::routes::login_route::{LoginResponse, SchoolLoginErrorInner};
use crate::routes::{FetchError, PackedFetchResult};
use crate::utils::text::same_text;
use vstd::prelude::*;

verus! {

/// The host suffix every school's subdomain is put in front of.
pub const DOMAIN_SUFFIX: &'static str = ".digitalesregister.it";

/// The reason a string is not a URL.
#[verifier::external_type_specification]
#[verifier::external_body]
pub struct ExUrlParseError(url::ParseError);

/// What `url::Url::parse` makes of a string, read back through
/// `url::Url::host_str`: `None` when the string is not a URL, otherwise the
/// parsed URL's host (itself absent for URLs without one). Parsing depends on
/// the string alone.
pub uninterp spec fn url_parsed_host(input: Seq<char>) -> Option<Option<Seq<char>>>;

/// Whether `url::Url::parse` accepts a string.
pub open spec fn url_parse_succeeds(input: Seq<char>) -> bool {
    url_parsed_host(input) is Some
}

/// The view of an optional string.
pub open spec fn opt_view(h: Option<String>) -> Option<Seq<char>> {
    match h {
        Some(s) => Some(s@),
        None => None,
    }
}

/// Parses a URL with `url::Url::parse` and reads its host with
/// `url::Url::host_str`. The contract claims that parsing succeeds exactly on
/// the strings named by [`url_parsed_host`], and that the host handed back is
/// the one that name gives.
#[verifier::external_body]
fn parse_url_host(input: &str) -> (r: Result<Option<String>, url::ParseError>)
    ensures
        r is Ok <==> url_parse_succeeds(input@),
        r matches Ok(h) ==> url_parsed_host(input@) == Some(opt_view(h)),
{
    let url = url::Url::parse(input)?;
    Ok(url.host_str().map(str::to_owned))
}

/// Why a school could not be created.
#[derive(Debug)]
pub enum SchoolCreationError {
    EmptySubdomain,
    ReservedSubdomain,
    InvalidUrl(url::ParseError),
    Request(reqwest::Error),
    InvalidSchool,
}

/// Why logging in to a school did not produce a session.
#[derive(Debug)]
pub enum SchoolLoginError {
    Request(FetchError),
    InvalidUrl(url::ParseError),
    Login(SchoolLoginErrorInner),
    ClientBuilder(reqwest::Error),
}

/// A school, named by its subdomain of the platform.
#[derive(Clone, Debug, PartialEq, Eq, Hash)]
pub struct School {
    subdomain: String,
}

impl View for School {
    type V = Seq<char>;

    /// The subdomain.
    closed spec fn view(&self) -> Seq<char> {
        self.subdomain@
    }
}

/// The school's API base URL: `https://<subdomain>.digitalesregister.it/v2/`.
pub open spec fn full_url_of(subdomain: Seq<char>) -> Seq<char> {
    "https://"@ + subdomain + DOMAIN_SUFFIX@ + "/v2/"@
}

impl School {
    /// The school with the given subdomain, unchecked; [`School::create`]
    /// accepts only a subdomain that names a real school.
    pub fn from_subdomain(subdomain: String) -> (s: School)
        ensures
            s@ == subdomain@,
    {
        School { subdomain }
    }

    pub fn get_subdomain(&self) -> (r: &str)
        ensures
            r@ == self@,
    {
        self.subdomain.as_str()
    }

    /// The school's API base URL.
    pub fn get_full_url(&self) -> (r: String)
        ensures
            r@ == full_url_of(self@),
    {
        let mut url = String::from_str("https://");
        url.append(self.subdomain.as_str());
        url.append(DOMAIN_SUFFIX);
        url.append("/v2/");
        url
    }

    /// The URL of an endpoint below the base URL.
    pub fn extend_base_url(&self, extension: &str) -> (r: String)
        ensures
            r@ == full_url_of(self@) + extension@,
    {
        let mut url = self.get_full_url();
        url.append(extension);
        url
    }

    /// The school rendered as text: its base URL.
    pub fn to_string(&self) -> (r: String)
        ensures
            r@ == full_url_of(self@),
    {
        self.get_full_url()
    }

    /// The checks made before the school's site is asked whether it exists:
    /// the subdomain must not be empty, must not be the reserved `www`, and
    /// must make a valid base URL. Gives the URL to request (the base URL)
    /// and its host.
    pub fn validation_target(&self) -> (r: Result<(String, Option<String>), SchoolCreationError>)
        ensures
            self@.len() == 0 ==> r matches Err(SchoolCreationError::EmptySubdomain),
            self@.len() != 0 && self@ == "www"@ ==> r matches Err(
                SchoolCreationError::ReservedSubdomain,
            ),
            self@.len() != 0 && self@ != "www"@ ==> (r is Ok <==> url_parse_succeeds(
                full_url_of(self@),
            )),
            self@.len() != 0 && self@ != "www"@ && !url_parse_succeeds(full_url_of(self@)) ==> r matches Err(
                SchoolCreationError::InvalidUrl(_),
            ),
            r matches Ok((target, h)) ==> target@ == full_url_of(self@) && url_parsed_host(
                full_url_of(self@),
            ) == Some(opt_view(h)),
    {
        let url = self.get_full_url();
        if self.subdomain.as_str().is_empty() {
            return Err(SchoolCreationError::EmptySubdomain);
        }
        if same_text(self.subdomain.as_str(), "www") {
            return Err(SchoolCreationError::ReservedSubdomain);
        }
        match parse_url_host(url.as_str()) {
            Ok(host) => Ok((url, host)),
            Err(e) => Err(SchoolCreationError::InvalidUrl(e)),
        }
    }

    /// The verdict once the school's site has answered: the school is real
    /// when the answer came from the host that was asked (no redirect to
    /// another site).
    pub fn accept_validation(self, requested_host: Option<String>, served_host: Option<String>) -> (r: Result<School, SchoolCreationError>)
        ensures
            same_host(requested_host, served_host) ==> r == Ok::<School, SchoolCreationError>(self),
            !same_host(requested_host, served_host) ==> r matches Err(SchoolCreationError::InvalidSchool),
    {
        let same = match (&requested_host, &served_host) {
            (Some(a), Some(b)) => same_text(a.as_str(), b.as_str()),
            (None, None) => true,
            _ => false,
        };
        if same {
            Ok(self)
        } else {
            Err(SchoolCreationError::InvalidSchool)
        }
    }

    /// The outcome of the login request: its headers, which carry the session
    /// cookie, when the server accepted the credentials.
    pub fn accept_login<H>(fetched: PackedFetchResult<H, LoginResponse>) -> (r: Result<H, SchoolLoginError>)
        ensures
            match fetched {
                Err(e) => r matches Err(SchoolLoginError::Request(f)) && f == e,
                Ok((_, headers, response)) => match response {
                    LoginResponse::Success => r == Ok::<H, SchoolLoginError>(headers),
                    _ => r matches Err(SchoolLoginError::Login(e)) && crate::routes::login_route::login_error_of(response, e),
                },
            },
    {
        let (_, headers, response) = match fetched {
            Ok(f) => f,
            Err(e) => return Err(SchoolLoginError::Request(e)),
        };
        match response.into_outcome() {
            Ok(()) => Ok(headers),
            Err(e) => Err(SchoolLoginError::Login(e)),
        }
    }

    /// The URL the session cookie is stored for: the school's base URL, once
    /// it is known to parse.
    pub fn session_url(&self) -> (r: Result<String, SchoolLoginError>)
        ensures
            r is Ok <==> url_parse_succeeds(full_url_of(self@)),
            r matches Ok(u) ==> u@ == full_url_of(self@),
    {
        let url = self.get_full_url();
        match parse_url_host(url.as_str()) {
            Ok(_) => Ok(url),
            Err(e) => Err(SchoolLoginError::InvalidUrl(e)),
        }
    }
}

/// Whether two optional hosts are the same.
pub open spec fn same_host(a: Option<String>, b: Option<String>) -> bool {
    match (a, b) {
        (Some(x), Some(y)) => x@ == y@,
        (None, None) => true,
        _ => false,
    }
}

/// A school is accepted exactly when its site answered from the host of its
/// parsed base URL: with the host that `validation_target` hands back,
/// `accept_validation` succeeds exactly when the served host is that host.
pub proof fn lemma_validation_compares_with_base_host(
    subdomain: Seq<char>,
    requested_host: Option<String>,
    served_host: Option<String>,
)
    requires
        url_parsed_host(full_url_of(subdomain)) == Some(opt_view(requested_host)),
    ensures
        same_host(requested_host, served_host) <==> url_parsed_host(full_url_of(subdomain)) == Some(
            opt_view(served_host),
        ),
{
}

} // verus!
