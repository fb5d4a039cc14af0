//! The parts of a parsed URL that the tile checks read.
use vstd::prelude::*;

verus! {

/// A URL taken apart by the `url` crate: the pieces the tile filters look at.
#[derive(Debug)]
pub struct ParsedUrl {
    /// The scheme, e.g. `https`.
    pub scheme: String,
    /// The host, where the URL has one.
    pub host: Option<String>,
    /// The path, e.g. `/ca/foo`.
    pub path: String,
    /// The (percent-decoded) names of the query parameters, in order.
    pub query_keys: Vec<String>,
    /// The whole URL as the parser serialises it.
    pub serialization: String,
}

/// A name for what `url::Url::parse` yields on `input`, taken apart into a `ParsedUrl`
/// (or the parser's error message, where the text is no valid URL).
pub uninterp spec fn url_crate_parse(input: Seq<char>) -> Result<ParsedUrl, String>;

/// `url::Url::parse` (and the error's `to_string` where it fails), and the scheme, host, path, query parameter names and
/// serialisation of the URL it returns. Believed: the result is `url_crate_parse`
/// of the input; nothing more is claimed of the parser.
#[verifier::external_body]
fn url_parse_parts(input: &str) -> (r: Result<ParsedUrl, String>)
    ensures
        r == url_crate_parse(input@),
{
    match url::Url::parse(input) {
        Ok(u) => Ok(ParsedUrl {
            scheme: u.scheme().to_owned(),
            host: u.host_str().map(|h| h.to_owned()),
            path: u.path().to_owned(),
            query_keys: u.query_pairs().map(|p| p.0.to_string()).collect(),
            serialization: u.as_str().to_owned(),
        }),
        Err(e) => Err(e.to_string()),
    }
}

impl ParsedUrl {
    /// Parse `input` as a URL.
    pub fn parse(input: &str) -> (r: Result<ParsedUrl, String>)
        ensures
            r == url_crate_parse(input@),
    {
        url_parse_parts(input)
    }
}

/// A name for what `http::Uri` (as re-exported by `actix_web::http`) makes of `input`:
/// none where it accepts it, else the debug text of its error.
pub uninterp spec fn http_uri_error(input: Seq<char>) -> Option<Seq<char>>;

/// Whether `http::Uri` accepts `input`.
pub open spec fn http_uri_accepts(input: Seq<char>) -> bool {
    http_uri_error(input) is None
}

/// `<actix_web::http::Uri as FromStr>::from_str`, reduced to the debug text of its
/// error. Believed: the result is `http_uri_error` of the input.
#[verifier::external_body]
pub(crate) fn uri_error(input: &str) -> (r: Option<String>)
    ensures
        match r {
            Some(m) => http_uri_error(input@) == Some(m@),
            None => http_uri_error(input@) is None,
        },
{
    input.parse::<actix_web::http::Uri>().err().map(|e| format!("{:?}", e))
}

/// Whether `http::Uri` accepts `input`.
pub(crate) fn uri_parses(input: &str) -> (r: bool)
    ensures
        r == http_uri_accepts(input@),
{
    uri_error(input).is_none()
}


/// The bucket and object of a cloud storage URL (`gs://bucket/object`): its host, and
/// its path without leading slashes; none where it has no host.
pub open spec fn bucket_object(url: ParsedUrl) -> Option<(Seq<char>, Seq<char>)> {
    match url.host {
        Some(h) => Some((h@, crate::text::trim_leading(url.path@, '/'))),
        None => None,
    }
}

/// The bucket and object of a cloud storage URL (see `bucket_object`).
pub fn bucket_location(url: &ParsedUrl) -> (r: Option<(String, String)>)
    ensures
        match r {
            Some((h, p)) => bucket_object(*url) == Some((h@, p@)),
            None => bucket_object(*url) is None,
        },
{
    match &url.host {
        Some(h) => Some((h.clone(), crate::text::trim_start_char(url.path.as_str(), '/'))),
        None => None,
    }
}

/// Whether an object updated at `updated` is newer than what was last read (at
/// `last`, where anything was): there is nothing to download otherwise.
pub open spec fn newer_than(last: Option<i64>, updated: i64) -> bool {
    match last {
        Some(t) => updated > t,
        None => true,
    }
}

/// Whether a cloud-stored object needs downloading (see `newer_than`).
pub fn needs_download(last: Option<i64>, updated: i64) -> (r: bool)
    ensures
        r == newer_than(last, updated),
{
    match last {
        Some(t) => updated > t,
        None => true,
    }
}

} // verus!
