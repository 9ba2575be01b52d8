//! URLs and query strings, as the `url` crate reads and writes them.

use vstd::prelude::*;
use vstd::string::*;

verus! {

/// The parts of a URL that this crate reads.
#[derive(Debug, Clone, PartialEq, Eq)]
pub struct UrlParts {
    /// The whole URL in its normal form.
    pub text: String,
    pub scheme: String,
    /// The host; an IPv6 address stands in brackets.
    pub host: Option<String>,
    /// The port, or the default port of the scheme.
    pub port: Option<u16>,
}

#[verifier::ext_equal]
pub struct UrlPartsView {
    pub text: Seq<char>,
    pub scheme: Seq<char>,
    pub host: Option<Seq<char>>,
    pub port: Option<u16>,
}

impl DeepView for UrlParts {
    type V = UrlPartsView;

    open spec fn deep_view(&self) -> UrlPartsView {
        UrlPartsView {
            text: self.text@,
            scheme: self.scheme@,
            host: self.host.deep_view(),
            port: self.port,
        }
    }
}

/// What `url::Url::parse` makes of a text: nothing where it refuses it.
pub uninterp spec fn url_of(s: Seq<char>) -> Option<UrlPartsView>;

/// `url::Url::parse`, with the result read out by `as_str`, `scheme`, `host_str` and
/// `port_or_known_default`. The result depends on the text alone; what it is (the URL
/// grammar of the WHATWG) is left unsaid.
#[verifier::external_body]
pub(crate) fn parse_url(s: &str) -> (r: Option<UrlParts>)
    ensures
        r.deep_view() == url_of(s@),
{
    match url::Url::parse(s) {
        Ok(u) => Some(
            UrlParts {
                text: u.as_str().to_owned(),
                scheme: u.scheme().to_owned(),
                host: u.host_str().map(str::to_owned),
                port: u.port_or_known_default(),
            },
        ),
        Err(_) => None,
    }
}

/// The name and value pairs that `url::form_urlencoded::parse` reads in a query.
pub uninterp spec fn pairs_of(query: Seq<char>) -> Seq<(Seq<char>, Seq<char>)>;

/// `url::form_urlencoded::parse` of the bytes of a query. The result depends on the
/// query alone; how names and values are decoded is left unsaid.
#[verifier::external_body]
pub(crate) fn query_pairs(query: &str) -> (r: Vec<(String, String)>)
    ensures
        r.deep_view() == pairs_of(query@),
{
    url::form_urlencoded::parse(query.as_bytes()).into_owned().collect()
}

/// The query that `url::form_urlencoded::Serializer` writes for pairs.
pub uninterp spec fn query_of(pairs: Seq<(Seq<char>, Seq<char>)>) -> Seq<char>;

/// `url::form_urlencoded::Serializer` on an empty string, with each pair appended in
/// order. The result depends on the pairs alone, and `url::form_urlencoded::parse`
/// reads the same pairs back from it: every name and value is percent-encoded, `=`
/// stands within each pair and `&` between two.
#[verifier::external_body]
pub(crate) fn query_text(pairs: &Vec<(String, String)>) -> (r: String)
    ensures
        r@ == query_of(pairs.deep_view()),
        pairs_of(r@) == pairs.deep_view(),
{
    url::form_urlencoded::Serializer::new(String::new()).extend_pairs(pairs).finish()
}

} // verus!
