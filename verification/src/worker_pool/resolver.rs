//! Worker targets: where a worker is reached.

use vstd::prelude::*;

use crate::text::{same_text, starts_with_text};
use crate::worker_pool::profile::WorkerConfig;

verus! {

/// The parts of a parsed URL that decide whether it is an origin.
#[derive(Clone, Debug, PartialEq, Eq)]
pub struct UrlParts {
    pub scheme: String,
    /// The ASCII serialization of the origin: scheme, host and a port other
    /// than the scheme's own.
    pub origin: String,
}

/// What [`UrlParts`] say.
pub struct UrlText {
    pub scheme: Seq<char>,
    pub origin: Seq<char>,
}

/// What the parts of a URL say, if the text was a URL.
pub open spec fn url_text(parts: Option<UrlParts>) -> Option<UrlText> {
    match parts {
        Some(value) => Some(UrlText { scheme: value.scheme@, origin: value.origin@ }),
        None => None,
    }
}

/// A text begins as an HTTP or HTTPS URL does.
pub open spec fn begins_with_web_scheme(text: Seq<char>) -> bool {
    "http://"@.is_prefix_of(text) || "https://"@.is_prefix_of(text)
}

/// The parts that `reqwest::Url::parse` finds in a text, or none where it
/// finds no URL.
pub uninterp spec fn parsed_url(text: Seq<char>) -> Option<UrlText>;

/// Calls `reqwest::Url::parse` and takes the scheme and the ASCII
/// serialization of the origin of what it found. Claimed: the result is a
/// function of the text alone. The text begins as an HTTP or HTTPS URL does:
/// the origin of a `blob:` URL is that of the URL inside it, however deep.
#[verifier::external_body]
fn parse_url(text: &str) -> (parts: Option<UrlParts>)
    requires
        begins_with_web_scheme(text@),
    ensures
        url_text(parts) == parsed_url(text@),
{
    match reqwest::Url::parse(text) {
        Ok(url) => Some(
            UrlParts {
                scheme: url.scheme().to_owned(),
                origin: url.origin().ascii_serialization(),
            },
        ),
        Err(_) => None,
    }
}

/// A text is a canonical origin: it is an HTTP or HTTPS URL, and nothing but
/// the serialization of its own origin and a slash.
pub open spec fn is_canonical_origin(text: Seq<char>, url: Option<UrlText>) -> bool {
    &&& begins_with_web_scheme(text)
    &&& url is Some
    &&& url->Some_0.scheme == "http"@ || url->Some_0.scheme == "https"@
    &&& text == url->Some_0.origin + "/"@
}

/// Whether a text begins as an HTTP or HTTPS URL does.
fn has_web_scheme(text: &str) -> (outcome: bool)
    ensures
        outcome == begins_with_web_scheme(text@),
{
    starts_with_text(text, "http://") || starts_with_text(text, "https://")
}

/// A worker that can be reached.
#[derive(Clone, Debug, PartialEq, Eq)]
pub struct ResolvedTarget {
    base_url: String,
    health_url: String,
}

impl ResolvedTarget {
    /// The canonical origin of the worker.
    pub closed spec fn base(&self) -> Seq<char> {
        self.base_url@
    }

    /// The URL that health probes ask for.
    pub closed spec fn health(&self) -> Seq<char> {
        self.health_url@
    }

    /// The target of a worker whose base URL was parsed into `parts`.
    pub fn from_parsed(
        base_url: &str,
        health_path: &str,
        parts: Option<UrlParts>,
    ) -> (target: Option<Self>)
        ensures
            target is Some <==> is_canonical_origin(base_url@, url_text(parts)),
            target is Some ==> target->Some_0.base() == base_url@ && target->Some_0.health()
                == parts->Some_0.origin@ + health_path@,
    {
        match parts {
            Some(url) => {
                let mut canonical = url.origin.clone();
                canonical.append("/");
                if has_web_scheme(base_url) && (same_text(url.scheme.as_str(), "http")
                    || same_text(url.scheme.as_str(), "https")) && same_text(
                    base_url,
                    canonical.as_str(),
                ) {
                    let mut health_url = url.origin.clone();
                    health_url.append(health_path);
                    Some(ResolvedTarget { base_url: base_url.to_owned(), health_url })
                } else {
                    None
                }
            },
            None => None,
        }
    }

    /// The target of a worker with this base URL and health path.
    pub fn from_parts(base_url: &str, health_path: &str) -> (target: Option<Self>)
        ensures
            target is Some <==> is_canonical_origin(base_url@, parsed_url(base_url@)),
            target is Some ==> target->Some_0.base() == base_url@ && target->Some_0.health()
                == parsed_url(base_url@)->Some_0.origin + health_path@,
    {
        if !has_web_scheme(base_url) {
            return None;
        }
        let parts = parse_url(base_url);
        Self::from_parsed(base_url, health_path, parts)
    }

    /// The target of a configured worker.
    pub fn from_worker(worker: &WorkerConfig) -> (target: Option<Self>)
        ensures
            target is Some <==> is_canonical_origin(
                worker.base_url@,
                parsed_url(worker.base_url@),
            ),
            target is Some ==> target->Some_0.base() == worker.base_url@
                && target->Some_0.health() == parsed_url(worker.base_url@)->Some_0.origin
                + worker.health_path@,
    {
        Self::from_parts(worker.base_url.as_str(), worker.health_path.as_str())
    }

    pub fn base_url(&self) -> (text: &str)
        ensures
            text@ == self.base(),
    {
        self.base_url.as_str()
    }

    pub fn health_url(&self) -> (text: &str)
        ensures
            text@ == self.health(),
    {
        self.health_url.as_str()
    }
}

} // verus!
