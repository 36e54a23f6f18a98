//! Addresses of the rqbit HTTP API, built with the `url` crate from the base
//! URL the client was made with, and the test on a response's status.
use vstd::prelude::*;
use vstd::string::StringSliceAdditionalSpecFns;
use crate::text::{dec, push_decimal};

verus! {

/// Longest URL text, in bytes, that the `url` crate is asked to extend. Its
/// positions are `u32` and it panics when a serialization outgrows them; the
/// bound leaves room for the few short segments and query pairs added here,
/// each at most three bytes per byte once percent-encoded.
pub const URL_TEXT_LIMIT: usize = 0xffff_f000;

/// Longest path segment, query key or query value, in bytes, that is added.
pub const PART_LIMIT: usize = 32;

/// The serialization of `url::Url::parse(s)`, `None` when parsing fails.
pub uninterp spec fn url_parsed(s: Seq<char>) -> Option<Seq<char>>;

/// The serialization of the URL that `url` parses to with `segments` pushed
/// onto its path; `None` when `url` does not parse or cannot be a base.
pub uninterp spec fn url_with_segments(url: Seq<char>, segments: Seq<Seq<char>>) -> Option<
    Seq<char>,
>;

/// The serialization of the URL that `url` parses to with the pair
/// `key=value` appended to its query; `None` when `url` does not parse.
pub uninterp spec fn url_with_query_pair(url: Seq<char>, key: Seq<char>, value: Seq<char>) -> Option<
    Seq<char>,
>;

/// The texts of a list of string slices.
pub open spec fn texts(s: Seq<&str>) -> Seq<Seq<char>> {
    s.map_values(|t: &str| t@)
}

/// `url::Url::parse`, then the URL's serialization. Parsing follows the
/// WHATWG URL standard; its result is named, not stated.
#[verifier::external_body]
fn parse_url(s: &str) -> (r: Option<String>)
    ensures
        match r {
            Some(t) => url_parsed(s@) == Some(t@),
            None => url_parsed(s@) is None,
        },
{
    match url::Url::parse(s) {
        Ok(u) => Some(u.into()),
        Err(_) => None,
    }
}

/// `url::PathSegmentsMut::extend`, through `url::Url::path_segments_mut`.
/// The URL travels as its serialization: it is parsed back into a `Url`
/// first (the text is one that parses to itself, so this gives the same
/// URL) and serialized again after the segments are pushed. The grown
/// serialization stays below `u32::MAX` bytes, where the crate would panic. The result is
/// named, not stated: the crate percent-encodes segments and drops `.` and
/// `..`.
#[verifier::external_body]
fn push_url_segments(url: &str, segments: &[&str]) -> (r: Option<String>)
    requires
        url_parsed(url@) == Some(url@),
        url.spec_bytes().len() < URL_TEXT_LIMIT,
        segments@.len() <= 8,
        forall|i: int| 0 <= i < segments@.len() ==> (#[trigger] segments@[i]).spec_bytes().len()
            < PART_LIMIT,
    ensures
        match r {
            Some(t) => url_with_segments(url@, texts(segments@)) == Some(t@),
            None => url_with_segments(url@, texts(segments@)) is None,
        },
{
    let mut u = match url::Url::parse(url) {
        Ok(u) => u,
        Err(_) => return None,
    };
    match u.path_segments_mut() {
        Ok(mut p) => {
            p.extend(segments);
        },
        Err(()) => return None,
    }
    Some(u.into())
}

/// `form_urlencoded::Serializer::append_pair`, through
/// `url::Url::query_pairs_mut`. The URL travels as its serialization (one
/// that parses to itself), parsed back first and serialized again after the
/// pair is appended; the result is named, not stated (the pair is
/// form-encoded). The grown serialization stays below `u32::MAX` bytes.
#[verifier::external_body]
fn append_url_query_pair(url: &str, key: &str, value: &str) -> (r: Option<String>)
    requires
        url_parsed(url@) == Some(url@),
        url.spec_bytes().len() < URL_TEXT_LIMIT,
        key.spec_bytes().len() < PART_LIMIT,
        value.spec_bytes().len() < PART_LIMIT,
    ensures
        match r {
            Some(t) => url_with_query_pair(url@, key@, value@) == Some(t@),
            None => url_with_query_pair(url@, key@, value@) is None,
        },
{
    let mut u = match url::Url::parse(url) {
        Ok(u) => u,
        Err(_) => return None,
    };
    u.query_pairs_mut().append_pair(key, value);
    Some(u.into())
}

/// Why an API address could not be built.
#[derive(Clone, Copy, Debug, PartialEq, Eq, Structural)]
pub enum HttpError {
    /// The base URL does not parse.
    InvalidBaseUrl,
    /// The base URL cannot take path segments.
    CannotModifyPath,
    /// The address is not one the `url` crate gives back unchanged when it
    /// is parsed again, or it is too long for the crate's `u32` positions.
    UnusableUrl,
}

/// An action on one torrent.
#[derive(Clone, Copy, Debug, PartialEq, Eq, Structural)]
pub enum ApiAction {
    Pause,
    Start,
    Delete,
}

/// The path segment of an action.
pub open spec fn action_segment(a: ApiAction) -> Seq<char> {
    match a {
        ApiAction::Pause => "pause"@,
        ApiAction::Start => "start"@,
        ApiAction::Delete => "delete"@,
    }
}

impl ApiAction {
    /// The path segment of the action.
    pub fn segment(&self) -> (r: &'static str)
        ensures
            r@ == action_segment(*self),
    {
        match self {
            ApiAction::Pause => "pause",
            ApiAction::Start => "start",
            ApiAction::Delete => "delete",
        }
    }
}

/// A URL text that the `url` crate parses back to itself and that leaves
/// room below its `u32` positions.
pub open spec fn usable_url(u: Seq<char>) -> bool {
    url_parsed(u) == Some(u) && vstd::utf8::encode_utf8(u).len() < URL_TEXT_LIMIT
}

/// Whether `u` is a usable URL text.
fn is_usable_url(u: &str) -> (r: bool)
    ensures
        r == usable_url(u@),
{
    if u.as_bytes().len() >= URL_TEXT_LIMIT {
        return false;
    }
    match parse_url(u) {
        Some(t) => crate::text::str_eq(t.as_str(), u),
        None => false,
    }
}

/// The answer when pushing `segments` onto `base` gives `pushed`.
pub open spec fn pushed_result(pushed: Option<Seq<char>>, r: Result<String, HttpError>) -> bool {
    match pushed {
        None => r == Err::<String, HttpError>(HttpError::CannotModifyPath),
        Some(u) => r is Ok && r->Ok_0@ == u,
    }
}

/// The base address of the rqbit HTTP API.
pub struct ApiEndpoint {
    base: String,
}

impl ApiEndpoint {
    /// The serialization of the base URL.
    pub closed spec fn base_url(&self) -> Seq<char> {
        self.base@
    }

    /// Whether addresses can be built on the base URL: it parses back to
    /// itself and is short enough for the `url` crate.
    pub closed spec fn fits(&self) -> bool {
        usable_url(self.base@)
    }

    /// Parses the base URL, e.g. `http://127.0.0.1:3030`.
    pub fn new(base_url: &str) -> (r: Result<ApiEndpoint, HttpError>)
        ensures
            match url_parsed(base_url@) {
                Some(t) => r is Ok && r->Ok_0.base_url() == t,
                None => r is Err && r->Err_0 == HttpError::InvalidBaseUrl,
            },
    {
        match parse_url(base_url) {
            Some(t) => Ok(ApiEndpoint { base: t }),
            None => Err(HttpError::InvalidBaseUrl),
        }
    }

    /// Whether addresses can be built on the base URL: it parses back to
    /// itself and is short enough for the `url` crate.
    pub fn is_usable(&self) -> (r: bool)
        ensures
            r == self.fits(),
    {
        is_usable_url(self.base.as_str())
    }

    /// The list of torrents: `<base>/torrents`, with `?with_stats=true` when
    /// statistics are asked for.
    pub fn torrents_url(&self, with_stats: bool) -> (r: Result<String, HttpError>)
        requires
            self.fits(),
        ensures
            match url_with_segments(self.base_url(), seq!["torrents"@]) {
                None => r == Err::<String, HttpError>(HttpError::CannotModifyPath),
                Some(u) => if !with_stats {
                    r is Ok && r->Ok_0@ == u
                } else if !usable_url(u) {
                    r == Err::<String, HttpError>(HttpError::UnusableUrl)
                } else {
                    match url_with_query_pair(u, "with_stats"@, "true"@) {
                        Some(q) => r is Ok && r->Ok_0@ == q,
                        None => r == Err::<String, HttpError>(HttpError::InvalidBaseUrl),
                    }
                },
            },
    {
        let segments: Vec<&str> = vec!["torrents"];
        proof {
            reveal_strlit("torrents");
            assert(texts(segments@) =~= seq!["torrents"@]);
            lemma_short_literal("torrents");
        }
        match push_url_segments(self.base.as_str(), segments.as_slice()) {
            None => Err(HttpError::CannotModifyPath),
            Some(u) => {
                if !with_stats {
                    Ok(u)
                } else if !is_usable_url(u.as_str()) {
                    Err(HttpError::UnusableUrl)
                } else {
                    proof {
                        reveal_strlit("with_stats");
                        reveal_strlit("true");
                        lemma_short_literal("with_stats");
                        lemma_short_literal("true");
                    }
                    match append_url_query_pair(u.as_str(), "with_stats", "true") {
                        Some(q) => Ok(q),
                        None => Err(HttpError::InvalidBaseUrl),
                    }
                }
            },
        }
    }

    /// One torrent: `<base>/torrents/<id>`.
    pub fn torrent_url(&self, id: usize) -> (r: Result<String, HttpError>)
        requires
            self.fits(),
        ensures
            pushed_result(url_with_segments(self.base_url(), seq!["torrents"@, dec(id as nat)]), r),
    {
        let mut id_text = String::new();
        push_decimal(&mut id_text, id as u128);
        let segments: Vec<&str> = vec!["torrents", id_text.as_str()];
        proof {
            reveal_strlit("torrents");
            assert(texts(segments@) =~= seq!["torrents"@, dec(id as nat)]);
            lemma_decimal_bytes(id as nat);
            lemma_short_literal("torrents");
            assert(segments@[1]@ == dec(id as nat));
        }
        match push_url_segments(self.base.as_str(), segments.as_slice()) {
            None => Err(HttpError::CannotModifyPath),
            Some(u) => Ok(u),
        }
    }

    /// An action on one torrent: `<base>/torrents/<id>/<action>`.
    pub fn action_url(&self, id: usize, action: ApiAction) -> (r: Result<String, HttpError>)
        requires
            self.fits(),
        ensures
            pushed_result(
                url_with_segments(
                    self.base_url(),
                    seq!["torrents"@, dec(id as nat), action_segment(action)],
                ),
                r,
            ),
    {
        let mut id_text = String::new();
        push_decimal(&mut id_text, id as u128);
        let segments: Vec<&str> = vec!["torrents", id_text.as_str(), action.segment()];
        proof {
            reveal_strlit("torrents");
            reveal_strlit("pause");
            reveal_strlit("start");
            reveal_strlit("delete");
            assert(texts(segments@) =~= seq![
                "torrents"@,
                dec(id as nat),
                action_segment(action),
            ]);
            lemma_decimal_bytes(id as nat);
            lemma_short_literal("torrents");
            lemma_short_literal("pause");
            lemma_short_literal("start");
            lemma_short_literal("delete");
            assert(segments@[1]@ == dec(id as nat));
        }
        match push_url_segments(self.base.as_str(), segments.as_slice()) {
            None => Err(HttpError::CannotModifyPath),
            Some(u) => Ok(u),
        }
    }
}

/// A short ASCII text takes as many bytes as characters.
proof fn lemma_short_literal(s: &str)
    requires
        vstd::utf8::is_ascii_chars(s@),
        s@.len() < 32,
    ensures
        s.spec_bytes().len() < 32,
{
    vstd::utf8::is_ascii_chars_encode_utf8(s@);
}

/// The decimal text of a number held by a `usize` is short.
proof fn lemma_decimal_bytes(n: nat)
    requires
        n <= usize::MAX,
    ensures
        vstd::utf8::encode_utf8(dec(n)).len() < 32,
{
    crate::text::lemma_dec_short(n);
    vstd::utf8::is_ascii_chars_encode_utf8(dec(n));
}

/// Whether a response status is a success (`StatusCode::is_success`: the
/// 2xx range).
pub fn status_is_success(status: u16) -> (r: bool)
    ensures
        r == (200 <= status <= 299),
{
    200 <= status && status <= 299
}

} // verus!
