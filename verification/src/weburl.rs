//! URL parsing and resolution (url crate) over plain strings.
use url::Url;
use vstd::prelude::*;

use crate::text::opt_view;

verus! {

/// The url crate's parsed URL, carried opaquely.
#[verifier::external_type_specification]
#[verifier::external_body]
pub struct ExUrl(Url);

/// The serialization of the URL that `Url::parse` makes of `s`, if it accepts `s`.
pub uninterp spec fn url_parse(s: Seq<char>) -> Option<Seq<char>>;

/// The serialization of `Url::join` of the URL serialized as `base` with `rel`, if it succeeds.
pub uninterp spec fn url_join(base: Seq<char>, rel: Seq<char>) -> Option<Seq<char>>;

/// `Url::host_str` of the URL serialized as `href`.
pub uninterp spec fn url_host(href: Seq<char>) -> Option<Seq<char>>;

/// A parsed absolute URL together with its serialization.
pub struct WebUrl {
    href: String,
    url: Url,
}

impl View for WebUrl {
    type V = Seq<char>;

    closed spec fn view(&self) -> Seq<char> {
        self.href@
    }
}

impl WebUrl {
    /// Parses an absolute URL (`Url::parse`); `None` when it is rejected.
    #[verifier::external_body]
    pub(crate) fn parse(s: &str) -> (r: Option<WebUrl>)
        ensures
            r is Some == url_parse(s@) is Some,
            r matches Some(u) ==> url_parse(s@) == Some(u@),
    {
        Url::parse(s).ok().map(|url| WebUrl { href: url.as_str().to_string(), url })
    }

    /// Resolves `rel` against this URL (`Url::join`), serialized.
    #[verifier::external_body]
    pub(crate) fn join(&self, rel: &str) -> (r: Option<String>)
        ensures
            opt_view(r) == url_join(self@, rel@),
    {
        self.url.join(rel).ok().map(|u| u.to_string())
    }

    /// The host of this URL, if it has one (`Url::host_str`).
    #[verifier::external_body]
    pub(crate) fn host(&self) -> (r: Option<String>)
        ensures
            opt_view(r) == url_host(self@),
    {
        self.url.host_str().map(|h| h.to_string())
    }
}

} // verus!
