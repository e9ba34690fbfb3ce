//! Absolute web URLs: parsing and joining through the `url` crate, and the rule that a
//! stream URL is HTTP(S) with a host.
use crate::text::{any_ws_or_ctrl, chars_of, has_ws_or_ctrl};
use vstd::prelude::*;

verus! {

/// The parts of a parsed URL that the library reads: its serialization, its scheme,
/// whether it has a host, and its path.
pub type UrlParts = (Seq<char>, Seq<char>, bool, Seq<char>);

/// What `url::Url::parse` yields for `input`: the parts of the URL, or `None` for an error.
pub uninterp spec fn url_parse(input: Seq<char>) -> Option<UrlParts>;

/// What `url::Url::join` yields: the serialization of `input` resolved against the URL
/// that `url::Url::parse` reads from `base`, or `None` where either fails.
pub uninterp spec fn url_join(base: Seq<char>, input: Seq<char>) -> Option<Seq<char>>;

/// A parsed absolute URL.
#[derive(Debug, PartialEq, Eq)]
pub struct WebUrl {
    pub href: String,
    pub scheme: String,
    pub has_host: bool,
    pub path: String,
}

impl View for WebUrl {
    type V = UrlParts;

    open spec fn view(&self) -> UrlParts {
        (self.href@, self.scheme@, self.has_host, self.path@)
    }
}

impl WebUrl {
    pub fn as_str(&self) -> (r: &str)
        ensures
            r@ == self.href@,
    {
        self.href.as_str()
    }

    pub fn duplicate(&self) -> (r: WebUrl)
        ensures
            r@ == self@,
    {
        WebUrl {
            href: self.href.clone(),
            scheme: self.scheme.clone(),
            has_host: self.has_host,
            path: self.path.clone(),
        }
    }
}

/// `url::Url::parse`: reads an absolute URL. The contract names the result
/// (`url_parse`); the WHATWG parsing rules that decide it are not restated.
#[verifier::external_body]
pub(crate) fn parse_url(input: &str) -> (r: Option<WebUrl>)
    ensures
        r matches Some(u) ==> url_parse(input@) == Some(u@),
        r is None ==> url_parse(input@) is None,
{
    match url::Url::parse(input) {
        Ok(u) => Some(
            WebUrl {
                href: u.as_str().to_string(),
                scheme: u.scheme().to_string(),
                has_host: u.host_str().is_some(),
                path: u.path().to_string(),
            },
        ),
        Err(_) => None,
    }
}

/// `url::Url::join`: resolves `input` (absolute or relative) against `base`. The
/// contract names the result (`url_join`); the resolution rules are not restated.
#[verifier::external_body]
pub(crate) fn join_url(base: &WebUrl, input: &str) -> (r: Option<String>)
    ensures
        r matches Some(s) ==> url_join(base.href@, input@) == Some(s@),
        r is None ==> url_join(base.href@, input@) is None,
{
    match url::Url::parse(base.href.as_str()) {
        Ok(b) => match b.join(input) {
            Ok(u) => Some(u.as_str().to_string()),
            Err(_) => None,
        },
        Err(_) => None,
    }
}

/// Why a URL is not accepted as a stream URL.
#[derive(Debug, Clone, Copy, PartialEq, Eq)]
pub enum UrlError {
    /// The text is no absolute URL.
    NotUrl,
    /// The URL is not HTTP(S), has no host, or the text holds whitespace or control characters.
    NotHttp,
}

/// The text of a URL error.
pub open spec fn url_error_text(e: UrlError) -> Seq<char> {
    match e {
        UrlError::NotUrl => "expected an HTTP(S) URL or known station alias; try rxer --list"@,
        UrlError::NotHttp => "expected an HTTP(S) URL with a host and no whitespace or control characters"@,
    }
}

impl UrlError {
    /// The text shown to the user.
    pub fn message(&self) -> (r: &'static str)
        ensures
            r@ == url_error_text(*self),
    {
        match self {
            UrlError::NotUrl => "expected an HTTP(S) URL or known station alias; try rxer --list",
            UrlError::NotHttp => "expected an HTTP(S) URL with a host and no whitespace or control characters",
        }
    }
}

/// Whether a scheme is `http` or `https`.
pub open spec fn is_http_scheme(s: Seq<char>) -> bool {
    s == "http"@ || s == "https"@
}

/// What `validate_url` gives: the parsed URL when it is HTTP(S) with a host and the
/// text holds no whitespace or control character.
pub open spec fn validate_spec(input: Seq<char>) -> Result<UrlParts, UrlError> {
    match url_parse(input) {
        None => Err(UrlError::NotUrl),
        Some(u) => if !is_http_scheme(u.1) || !u.2 || has_ws_or_ctrl(input) {
            Err(UrlError::NotHttp)
        } else {
            Ok(u)
        },
    }
}

/// Parses a stream URL and checks that it is HTTP(S) with a host.
pub fn validate_url(input: &str) -> (r: Result<WebUrl, UrlError>)
    ensures
        r matches Ok(u) ==> validate_spec(input@) == Ok::<UrlParts, UrlError>(u@),
        r matches Err(e) ==> validate_spec(input@) == Err::<UrlParts, UrlError>(e),
{
    let u = match parse_url(input) {
        Some(u) => u,
        None => return Err(UrlError::NotUrl),
    };
    let http = crate::cli::str_eq(u.scheme.as_str(), "http") || crate::cli::str_eq(
        u.scheme.as_str(),
        "https",
    );
    let chars = chars_of(input);
    if !http || !u.has_host || any_ws_or_ctrl(chars.as_slice()) {
        return Err(UrlError::NotHttp);
    }
    Ok(u)
}

/// What resolving `entry` against `base` and validating the result gives, as the
/// playlist and HLS readers do it.
pub open spec fn join_spec(base: Seq<char>, entry: Seq<char>) -> Option<Result<UrlParts, UrlError>> {
    match url_join(base, entry) {
        None => None,
        Some(href) => Some(validate_spec(href)),
    }
}

/// Resolves `entry` against `base`, then validates the result as a stream URL; `None`
/// where the join itself fails.
pub fn join_and_validate(base: &WebUrl, entry: &str) -> (r: Option<Result<WebUrl, UrlError>>)
    ensures
        r matches None ==> join_spec(base.href@, entry@) is None,
        r matches Some(Ok(u)) ==> join_spec(base.href@, entry@) == Some(
            Ok::<UrlParts, UrlError>(u@),
        ),
        r matches Some(Err(e)) ==> join_spec(base.href@, entry@) == Some(
            Err::<UrlParts, UrlError>(e),
        ),
{
    match join_url(base, entry) {
        None => None,
        Some(href) => Some(validate_url(href.as_str())),
    }
}

} // verus!
