//! URLs, as the `url` crate reads and writes them.

use url::{ParseError, Url};

use vstd::prelude::*;

use crate::text::views;

verus! {

/// What is read of a URL.
#[derive(Debug)]
pub struct UrlParts {
    pub text: String,
    pub scheme: String,
    pub host: Option<String>,
    /// The port, where the scheme or the URL itself gives one.
    pub port: Option<u16>,
    /// The parts of the path between its slashes, where the URL has such a path.
    pub segments: Option<Vec<String>>,
}

/// The values of [`UrlParts`].
pub struct UrlModel {
    pub text: Seq<char>,
    pub scheme: Seq<char>,
    pub host: Option<Seq<char>>,
    pub port: Option<u16>,
    pub segments: Option<Seq<Seq<char>>>,
}

pub open spec fn opt_view(text: Option<String>) -> Option<Seq<char>> {
    match text {
        Some(t) => Some(t@),
        None => None,
    }
}

impl View for UrlParts {
    type V = UrlModel;

    open spec fn view(&self) -> UrlModel {
        UrlModel {
            text: self.text@,
            scheme: self.scheme@,
            host: opt_view(self.host),
            port: self.port,
            segments: match self.segments {
                Some(list) => Some(views(list@)),
                None => None,
            },
        }
    }
}

/// `url::ParseError`, why a text is not a URL.
#[verifier::external_type_specification]
#[verifier::external_body]
pub struct ExParseError(ParseError);

/// What `url::Url::parse` makes of a text, read through `as_str`, `scheme`, `host_str`,
/// `port_or_known_default` and `path_segments`; nothing where it is not a URL.
pub uninterp spec fn parsed_url(text: Seq<char>) -> Option<UrlModel>;

/// `url::Url::parse`, and the accessors of the result. Which texts are URLs and what their parts
/// are is the crate's to say: the contract names its answer, which depends on the text alone.
#[verifier::external_body]
pub(crate) fn parse_url(text: &str) -> (r: Result<UrlParts, ParseError>)
    ensures
        match r {
            Ok(parts) => parsed_url(text@) == Some(parts@),
            Err(_) => parsed_url(text@) is None,
        },
{
    let url = Url::parse(text)?;
    Ok(UrlParts {
        text: url.as_str().to_string(),
        scheme: url.scheme().to_string(),
        host: url.host_str().map(|host| host.to_string()),
        port: url.port_or_known_default(),
        segments: url.path_segments().map(|list| list.map(|part| part.to_string()).collect()),
    })
}

/// The characters that segments take in a path, with a slash before each.
pub open spec fn path_weight(segments: Seq<Seq<char>>) -> int
    decreases segments.len(),
{
    if segments.len() == 0 {
        0
    } else {
        path_weight(segments.drop_last()) + segments.last().len() + 1
    }
}

/// The most characters that a URL is built from. Each may take up to twelve bytes in the URL,
/// whose length is a 32-bit number.
pub const MAX_URL_CHARS: u64 = 300_000_000;

/// What `url::Url` makes of the URL `base` when its path is replaced by `segments` through
/// `path_segments_mut`; nothing where `base` is not a URL or has no such path.
pub uninterp spec fn url_with_path(base: Seq<char>, segments: Seq<Seq<char>>) -> Option<Seq<char>>;

/// `url::Url::path_segments_mut` with `clear` and `extend`: `base` with its path replaced by
/// `segments`, each of them percent-encoded. The contract names the resulting text, which depends
/// on the base and the segments alone.
#[verifier::external_body]
pub(crate) fn replace_path(base: &str, segments: &Vec<String>) -> (r: Option<String>)
    requires
        base@.len() + path_weight(views(segments@)) <= MAX_URL_CHARS,
    ensures
        opt_view(r) == url_with_path(base@, views(segments@)),
{
    let mut url = Url::parse(base).ok()?;
    url.path_segments_mut().ok()?.clear().extend(segments);
    Some(url.to_string())
}

/// The pairs of a query.
pub open spec fn pairs_of(pairs: Seq<(String, String)>) -> Seq<(Seq<char>, Seq<char>)> {
    pairs.map_values(|pair: (String, String)| (pair.0@, pair.1@))
}

/// The characters of query pairs, with the two that separate each.
pub open spec fn query_weight(pairs: Seq<(Seq<char>, Seq<char>)>) -> int
    decreases pairs.len(),
{
    if pairs.len() == 0 {
        0
    } else {
        query_weight(pairs.drop_last()) + pairs.last().0.len() + pairs.last().1.len() + 2
    }
}

/// What `url::Url` makes of the URL `base` when the pairs are appended to its query through
/// `query_pairs_mut`; nothing where `base` is not a URL.
pub uninterp spec fn url_with_query(
    base: Seq<char>,
    pairs: Seq<(Seq<char>, Seq<char>)>,
) -> Option<Seq<char>>;

/// `url::Url::query_pairs_mut` with `extend_pairs`: `base` with the pairs at the end of its query,
/// each of them form-encoded. The contract names the resulting text, which depends on the base and
/// the pairs alone.
#[verifier::external_body]
pub(crate) fn append_query(base: &str, pairs: &Vec<(String, String)>) -> (r: Option<String>)
    requires
        base@.len() + query_weight(pairs_of(pairs@)) <= MAX_URL_CHARS,
    ensures
        opt_view(r) == url_with_query(base@, pairs_of(pairs@)),
{
    let mut url = Url::parse(base).ok()?;
    url.query_pairs_mut().extend_pairs(pairs);
    Some(url.to_string())
}

} // verus!
