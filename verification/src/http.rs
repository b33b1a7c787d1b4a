//! Upstream errors: what an error says, and what it is careful not to say.

use vstd::prelude::*;
use vstd::string::*;
use crate::text::{decimal_text, push_decimal};

verus! {

/// An upstream failure, carrying the text that is logged and served.
#[derive(Debug, PartialEq, Eq)]
pub struct AppError(pub String);

/// The parts of a parsed URL that an error may show: scheme, host and path.
#[derive(Debug, PartialEq, Eq)]
pub struct UrlParts {
    pub scheme: String,
    pub host: Option<String>,
    pub path: String,
}

/// What `reqwest::Url::parse` makes of a URL: its scheme, host and path, or nothing when
/// the text is not a URL.
pub uninterp spec fn url_parts(url: Seq<char>) -> Option<(Seq<char>, Option<Seq<char>>, Seq<char>)>;

/// The parts view of an optional parse result.
pub open spec fn parts_view(p: Option<UrlParts>) -> Option<(Seq<char>, Option<Seq<char>>, Seq<char>)> {
    match p {
        Some(u) => Some(
            (
                u.scheme@,
                match u.host {
                    Some(h) => Some(h@),
                    None => None,
                },
                u.path@,
            ),
        ),
        None => None,
    }
}

/// Parses a URL: `reqwest::Url::parse`, read through `scheme`, `host_str` and `path`.
///
/// Trusted: the parts are named by `url_parts`, a function of the text alone. Also
/// trusted, from the url crate's parser: no part holds a `?`, because the scheme takes
/// only letters, digits, `+`, `-` and `.`, while the host and the path both end where
/// the query begins.
#[verifier::external_body]
fn parse_url(url: &str) -> (r: Option<UrlParts>)
    ensures
        parts_view(r) == url_parts(url@),
        parts_free_of_query_mark(parts_view(r)),
{
    match reqwest::Url::parse(url) {
        Ok(u) => Some(
            UrlParts {
                scheme: u.scheme().to_string(),
                host: u.host_str().map(|h| h.to_string()),
                path: u.path().to_string(),
            },
        ),
        Err(_) => None,
    }
}

/// The text that stands for a URL in an error: scheme, host and path, without the
/// user, the port, the query (where API keys travel) and the fragment.
pub open spec fn redacted(parts: Option<(Seq<char>, Option<Seq<char>>, Seq<char>)>) -> Seq<char> {
    match parts {
        Some((scheme, host, path)) => scheme + "://"@ + match host {
            Some(h) => h,
            None => "unknown"@,
        } + path,
        None => "<unparseable url>"@,
    }
}

/// No character of `s` is a `?`.
pub open spec fn no_query_mark(s: Seq<char>) -> bool {
    forall|i: int| 0 <= i < s.len() ==> s[i] != '?'
}

/// Parsed parts in which no `?` occurs.
pub open spec fn parts_free_of_query_mark(p: Option<(Seq<char>, Option<Seq<char>>, Seq<char>)>) -> bool {
    match p {
        Some((scheme, host, path)) => no_query_mark(scheme) && no_query_mark(path) && match host {
            Some(h) => no_query_mark(h),
            None => true,
        },
        None => true,
    }
}

proof fn lemma_concat_no_query_mark(a: Seq<char>, b: Seq<char>)
    requires
        no_query_mark(a),
        no_query_mark(b),
    ensures
        no_query_mark(a + b),
{
    assert forall|i: int| 0 <= i < (a + b).len() implies (a + b)[i] != '?' by {
        if i < a.len() {
            assert((a + b)[i] == a[i]);
        } else {
            assert((a + b)[i] == b[i - a.len()]);
        }
    }
}

/// A redacted URL never holds a `?`, so no query string reaches an error.
pub proof fn lemma_redacted_has_no_query(p: Option<(Seq<char>, Option<Seq<char>>, Seq<char>)>)
    requires
        parts_free_of_query_mark(p),
    ensures
        no_query_mark(redacted(p)),
{
    reveal_strlit("://");
    reveal_strlit("unknown");
    reveal_strlit("<unparseable url>");
    match p {
        Some((scheme, host, path)) => {
            let h = match host {
                Some(h) => h,
                None => "unknown"@,
            };
            lemma_concat_no_query_mark(scheme, "://"@);
            lemma_concat_no_query_mark(scheme + "://"@, h);
            lemma_concat_no_query_mark(scheme + "://"@ + h, path);
        },
        None => {},
    }
}

/// Writes the redacted form of already parsed URL parts.
pub fn redact_parts(parts: Option<UrlParts>) -> (r: String)
    ensures
        r@ == redacted(parts_view(parts)),
{
    match parts {
        Some(p) => {
            let mut out = p.scheme;
            out.append("://");
            match p.host {
                Some(h) => out.append(h.as_str()),
                None => out.append("unknown"),
            }
            out.append(p.path.as_str());
            out
        },
        None => String::from_str("<unparseable url>"),
    }
}

/// The URL as an error may show it: scheme, host and path only. It never holds a `?`,
/// so the query string, where API keys travel, stays out.
pub fn redact_url(url: &str) -> (r: String)
    ensures
        r@ == redacted(url_parts(url@)),
        no_query_mark(r@),
{
    let parts = parse_url(url);
    proof {
        lemma_redacted_has_no_query(parts_view(parts));
    }
    redact_parts(parts)
}

/// The canonical reason phrase of an HTTP status code, as the http crate lists it.
pub uninterp spec fn status_reason(code: u16) -> Option<Seq<char>>;

/// The reason phrase of a status: `StatusCode::canonical_reason`.
///
/// Trusted: the phrase is named by `status_reason`, a function of the code alone.
#[verifier::external_body]
fn canonical_reason(code: u16) -> (r: Option<&'static str>)
    requires
        100 <= code <= 999,
    ensures
        match r {
            Some(s) => status_reason(code) == Some(s@),
            None => status_reason(code) is None,
        },
{
    match reqwest::StatusCode::from_u16(code) {
        Ok(s) => s.canonical_reason(),
        Err(_) => None,
    }
}

/// A status is a success when it lies in 200..300.
pub open spec fn is_success(code: u16) -> bool {
    200 <= code < 300
}

/// How a status prints: the code and its reason phrase.
pub open spec fn status_text(code: u16) -> Seq<char> {
    decimal_text(code as nat) + " "@ + match status_reason(code) {
        Some(r) => r,
        None => "<unknown status code>"@,
    }
}

/// The error text for a failed status, naming the URL only by its redacted form.
pub open spec fn status_message(code: u16, parts: Option<(Seq<char>, Option<Seq<char>>, Seq<char>)>) -> Seq<char> {
    status_text(code) + " from "@ + redacted(parts)
}

/// The error for a response status: none for a success, else one naming the status and
/// the redacted URL.
pub fn status_error(code: u16, url: &str) -> (r: Option<AppError>)
    requires
        100 <= code <= 999,
    ensures
        r is None <==> is_success(code),
        r matches Some(e) ==> e.0@ == status_message(code, url_parts(url@)),
        r matches Some(e) ==> e.0@.subrange(e.0@.len() - redacted(url_parts(url@)).len(), e.0@.len() as int)
            == redacted(url_parts(url@)) && no_query_mark(redacted(url_parts(url@))),
{
    if 200 <= code && code < 300 {
        return None;
    }
    let mut msg = String::new();
    push_decimal(&mut msg, code as u64);
    msg.append(" ");
    match canonical_reason(code) {
        Some(reason) => msg.append(reason),
        None => msg.append("<unknown status code>"),
    }
    msg.append(" from ");
    let place = redact_url(url);
    msg.append(place.as_str());
    proof {
        assert(msg@ =~= status_message(code, url_parts(url@)));
    }
    Some(AppError(msg))
}

/// The error for a setting that is not present.
pub fn missing_env(key: &str) -> (e: AppError)
    ensures
        e.0@ == "missing env var: "@ + key@,
{
    let mut msg = String::from_str("missing env var: ");
    msg.append(key);
    AppError(msg)
}

/// An optional setting: an empty value counts as absent, because `KEY=` in a .env file
/// sets it to "".
pub fn env_value(raw: Option<String>) -> (r: Option<String>)
    ensures
        match raw {
            Some(v) => if v@.len() == 0 {
                r is None
            } else {
                r == Some(v)
            },
            None => r is None,
        },
{
    match raw {
        Some(v) => if v.as_str().unicode_len() == 0 {
            None
        } else {
            Some(v)
        },
        None => None,
    }
}

/// An Authorization header value for a token.
pub fn bearer(token: &str) -> (r: String)
    ensures
        r@ == "Bearer "@ + token@,
{
    let mut h = String::from_str("Bearer ");
    h.append(token);
    h
}

} // verus!
