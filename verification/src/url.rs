//! The parts of a URL that the tool looks at.

use vstd::prelude::*;

use crate::text::{empty, same, Text};

verus! {

/// The parts of an absolute URL.
#[derive(Debug)]
pub struct UrlParts {
    pub scheme: String,
    pub has_host: bool,
    pub username: String,
    pub password: Option<String>,
}

#[verifier::ext_equal]
pub struct UrlView {
    pub scheme: Text,
    pub has_host: bool,
    pub username: Text,
    pub password: Option<Text>,
}

impl DeepView for UrlParts {
    type V = UrlView;

    open spec fn deep_view(&self) -> UrlView {
        UrlView {
            scheme: self.scheme@,
            has_host: self.has_host,
            username: self.username@,
            password: self.password.deep_view(),
        }
    }
}

/// The parts of the absolute URL that a piece of text writes, where it writes one.
pub uninterp spec fn url_of(text: Text) -> Option<UrlView>;

/// Calls `reqwest::Url::parse` and reads the scheme, the host, the user name and the password of
/// the URL. There are no parts where the text is not an absolute URL.
#[verifier::external_body]
fn read_url(text: &str) -> (r: Option<UrlParts>)
    ensures
        r.deep_view() == url_of(text@),
{
    reqwest::Url::parse(text).ok().map(
        |url|
            UrlParts {
                scheme: url.scheme().to_owned(),
                has_host: url.host().is_some(),
                username: url.username().to_owned(),
                password: url.password().map(str::to_owned),
            },
    )
}

/// The parts of the URL that `text` writes.
pub fn parts(text: &str) -> (r: Option<UrlParts>)
    ensures
        r.deep_view() == url_of(text@),
{
    read_url(text)
}

/// Whether the parts are those of an HTTP or HTTPS URL with a host and without credentials.
pub open spec fn is_plain_http(parts: Option<UrlView>) -> bool {
    match parts {
        Some(url) => (url.scheme == "http"@ || url.scheme == "https"@) && url.has_host
            && url.username.len() == 0 && url.password is None,
        None => false,
    }
}

/// Whether the parts are those of an HTTP or HTTPS URL with a host and without credentials.
pub fn plain_http(parts: &Option<UrlParts>) -> (r: bool)
    ensures
        r == is_plain_http(parts.deep_view()),
{
    match parts {
        Some(url) => {
            (same(url.scheme.as_str(), "http") || same(url.scheme.as_str(), "https"))
                && url.has_host && empty(url.username.as_str()) && url.password.is_none()
        },
        None => false,
    }
}

/// A URL is plain HTTP exactly where it was read, its scheme is `http` or `https`, it has a host, and
/// it holds neither a user name nor a password.
pub proof fn law_plain_urls_hold_no_credentials(url: UrlView)
    ensures
        !is_plain_http(None),
        is_plain_http(Some(url)) ==> url.username.len() == 0 && url.password is None,
        is_plain_http(Some(url)) ==> url.has_host,
        is_plain_http(Some(url)) ==> url.scheme == "http"@ || url.scheme == "https"@,
        url.has_host && url.username.len() == 0 && url.password is None && (url.scheme == "http"@
            || url.scheme == "https"@) ==> is_plain_http(Some(url)),
{
}

} // verus!
