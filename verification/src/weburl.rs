//! URLs, parsed and built by the `url` crate (as re-exported by `reqwest`).
//!
//! What the crate computes (WHATWG parsing, relative resolution, percent-encoding)
//! is named, not restated: each call's result is tied to its arguments through a
//! name below, and the library's own decisions are made, verified, on the parts
//! that the parse hands back.
use crate::text;
use vstd::prelude::*;

verus! {

#[verifier::external_type_specification]
#[verifier::external_body]
pub struct ExUrl(reqwest::Url);

/// The parts of a URL that the library reads: scheme, host, path and the whole
/// serialization.
pub type UrlParts = (Seq<char>, Option<Seq<char>>, Seq<char>, Seq<char>);

/// What `Url::parse` gives for a text: `None` where it fails, else the parts.
pub uninterp spec fn url_parse(text: Seq<char>) -> Option<UrlParts>;

/// What `Url::join` gives for the URL serialized as `base` and a reference.
pub uninterp spec fn url_join(base: Seq<char>, reference: Seq<char>) -> Option<UrlParts>;

/// The URL serialized as `url` after `Url::set_path(path)`.
pub uninterp spec fn url_with_path(url: Seq<char>, path: Seq<char>) -> UrlParts;

/// The URL serialized as `url` after one `append_pair(key, value)` on its query pairs.
pub uninterp spec fn url_with_pair(url: Seq<char>, key: Seq<char>, value: Seq<char>) -> UrlParts;

/// A parsed URL and the parts of it that the library reads.
pub struct WebUrl {
    url: reqwest::Url,
    scheme: String,
    host: Option<String>,
    path: String,
    text: String,
}

pub open spec fn opt_text(o: Option<String>) -> Option<Seq<char>> {
    match o {
        Some(s) => Some(s@),
        None => None,
    }
}

pub open spec fn opt_parts(o: Option<WebUrl>) -> Option<UrlParts> {
    match o {
        Some(u) => Some(u@),
        None => None,
    }
}

impl View for WebUrl {
    type V = UrlParts;

    closed spec fn view(&self) -> UrlParts {
        (self.scheme@, opt_text(self.host), self.path@, self.text@)
    }
}

impl WebUrl {
    pub fn scheme(&self) -> (r: &str)
        ensures
            r@ == self@.0,
    {
        self.scheme.as_str()
    }

    pub fn host(&self) -> (r: Option<&str>)
        ensures
            match r {
                Some(h) => self@.1 == Some(h@),
                None => self@.1 is None,
            },
    {
        match &self.host {
            Some(h) => Some(h.as_str()),
            None => None,
        }
    }

    pub fn path(&self) -> (r: &str)
        ensures
            r@ == self@.2,
    {
        self.path.as_str()
    }

    /// The whole serialization, as `Url::as_str` and `to_string` give it.
    pub fn as_str(&self) -> (r: &str)
        ensures
            r@ == self@.3,
    {
        self.text.as_str()
    }
}

/// Parses an absolute URL with `reqwest::Url::parse`; the result is `url_parse` of the text.
#[verifier::external_body]
pub(crate) fn parse_url(text: &str) -> (r: Option<WebUrl>)
    ensures
        opt_parts(r) == url_parse(text@),
{
    reqwest::Url::parse(text).ok().map(|url| WebUrl {
        scheme: url.scheme().to_string(),
        host: url.host_str().map(|h| h.to_string()),
        path: url.path().to_string(),
        text: url.as_str().to_string(),
        url,
    })
}

/// Resolves a reference against `base` with `Url::join`; the result is `url_join` of
/// the base's serialization and the reference.
#[verifier::external_body]
pub(crate) fn join_url(base: &WebUrl, reference: &str) -> (r: Option<WebUrl>)
    ensures
        opt_parts(r) == url_join(base@.3, reference@),
{
    base.url.join(reference).ok().map(|url| WebUrl {
        scheme: url.scheme().to_string(),
        host: url.host_str().map(|h| h.to_string()),
        path: url.path().to_string(),
        text: url.as_str().to_string(),
        url,
    })
}

/// Replaces the path with `Url::set_path`; the result is `url_with_path`.
#[verifier::external_body]
pub(crate) fn set_url_path(url: WebUrl, path: &str) -> (r: WebUrl)
    ensures
        r@ == url_with_path(url@.3, path@),
{
    let mut url = url.url;
    url.set_path(path);
    WebUrl {
        scheme: url.scheme().to_string(),
        host: url.host_str().map(|h| h.to_string()),
        path: url.path().to_string(),
        text: url.as_str().to_string(),
        url,
    }
}

/// Appends one form-encoded `key=value` pair to the query with
/// `Url::query_pairs_mut().append_pair`; the result is `url_with_pair`.
#[verifier::external_body]
pub(crate) fn append_query_pair(url: WebUrl, key: &str, value: &str) -> (r: WebUrl)
    ensures
        r@ == url_with_pair(url@.3, key@, value@),
{
    let mut url = url.url;
    url.query_pairs_mut().append_pair(key, value);
    WebUrl {
        scheme: url.scheme().to_string(),
        host: url.host_str().map(|h| h.to_string()),
        path: url.path().to_string(),
        text: url.as_str().to_string(),
        url,
    }
}

/// The path's segments as `Url::path_segments` gives them: `None` for a path that
/// does not start with `/`, else the rest of the path split at every `/`.
pub open spec fn path_segments(path: Seq<char>) -> Option<Seq<Seq<char>>> {
    if path.len() > 0 && path[0] == '/' {
        Some(text::split_seq(path.drop_first(), '/'))
    } else {
        None
    }
}

pub fn url_path_segments(url: &WebUrl) -> (r: Option<Vec<Vec<char>>>)
    ensures
        match r {
            Some(v) => path_segments(url@.2) == Some(text::views(v@)),
            None => path_segments(url@.2) is None,
        },
{
    let path = text::chars_of(url.path());
    if path.len() > 0 && path[0] == '/' {
        let rest = text::slice_to_vec(path.as_slice(), 1, path.len());
        assert(rest@ == path@.drop_first());
        Some(text::split_char(rest.as_slice(), '/'))
    } else {
        None
    }
}

} // verus!
