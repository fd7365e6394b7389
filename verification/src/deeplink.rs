//! Deep-link routing: parsing incoming redirect URLs, classifying auth
//! callbacks, and the scheme allow-list for opening external auth URLs.
//!
//! URL parsing itself comes from the url crate through one trusted
//! wrapper; everything built on the parsed parts is verified.
use vstd::prelude::*;

use vstd::string::{StrSliceExecFns, StringExecFns};

use crate::crypto::constant_time_eq;
use crate::AuthError;

verus! {

/// The pieces of a parsed URL that the router reads: scheme, host, path,
/// and the decoded query pairs in order.
pub struct UrlParts {
    pub scheme: String,
    pub host: Option<String>,
    pub path: String,
    pub query: Vec<(String, String)>,
}

impl View for UrlParts {
    type V = (Seq<char>, Option<Seq<char>>, Seq<char>, Seq<(Seq<char>, Seq<char>)>);

    open spec fn view(&self) -> Self::V {
        (
            self.scheme@,
            match self.host {
                Option::Some(h) => Option::Some(h@),
                Option::None => Option::None,
            },
            self.path@,
            Seq::new(self.query@.len(), |i: int| (self.query@[i].0@, self.query@[i].1@)),
        )
    }
}

/// What url::Url::parse makes of a string: none when the string is not a
/// valid URL, else scheme, host, path and decoded query pairs.
pub uninterp spec fn url_parse_of(s: Seq<char>) -> Option<
    (Seq<char>, Option<Seq<char>>, Seq<char>, Seq<(Seq<char>, Seq<char>)>),
>;

/// Relies on url::Url::parse and its accessors `scheme`, `host_str`,
/// `path` and `query_pairs`: all deterministic functions of the URL text
/// alone.
#[verifier::external_body]
pub fn parse_url_parts(s: &str) -> (r: Option<UrlParts>)
    ensures
        match r {
            Option::Some(p) => url_parse_of(s@) == Option::Some(p@),
            Option::None => url_parse_of(s@) is None,
        },
{
    match url::Url::parse(s) {
        Ok(u) => Some(
            UrlParts {
                scheme: u.scheme().to_string(),
                host: u.host_str().map(|h| h.to_string()),
                path: u.path().to_string(),
                query: u.query_pairs().map(|(k, v)| (k.to_string(), v.to_string())).collect(),
            },
        ),
        Err(_) => None,
    }
}

/// The value the last query pair with key `k` carries, as a map built by
/// inserting the pairs in order would hold it.
pub open spec fn query_get(q: Seq<(Seq<char>, Seq<char>)>, k: Seq<char>) -> Option<Seq<char>>
    decreases q.len(),
{
    if q.len() == 0 {
        Option::None
    } else if q.last().0 == k {
        Option::Some(q.last().1)
    } else {
        query_get(q.drop_last(), k)
    }
}

/// Look a key up among the decoded query pairs; the last occurrence wins.
pub fn lookup_query(parts: &UrlParts, key: &str) -> (r: Option<String>)
    ensures
        match r {
            Option::Some(v) => query_get(parts@.3, key@) == Option::Some(v@),
            Option::None => query_get(parts@.3, key@) is None,
        },
{
    let mut i: usize = parts.query.len();
    proof {
        assert(parts@.3.take(i as int) =~= parts@.3);
    }
    while i > 0
        invariant
            i <= parts.query@.len(),
            parts@.3.len() == parts.query@.len(),
            query_get(parts@.3, key@) == query_get(parts@.3.take(i as int), key@),
        decreases i,
    {
        proof {
            assert(parts@.3.take(i as int).last() == parts@.3[i - 1]);
            assert(parts@.3.take(i as int).drop_last() =~= parts@.3.take(i - 1));
            assert(parts@.3[i - 1] == (parts.query@[i - 1].0@, parts.query@[i - 1].1@));
        }
        if constant_time_eq(parts.query[i - 1].0.as_str(), key) {
            let v = parts.query[i - 1].1.clone();
            proof {
                assert(parts.query@[i - 1].0@ == key@);
                assert(parts@.3.take(i as int).last().0 == key@);
                assert(query_get(parts@.3.take(i as int), key@) == Option::Some(
                    parts@.3.take(i as int).last().1,
                ));
                assert(query_get(parts@.3, key@) == Option::Some(v@));
            }
            return Option::Some(v);
        }
        proof {
            assert(parts.query@[i - 1].0@ != key@);
            assert(parts@.3.take(i as int).last().0 != key@);
            assert(query_get(parts@.3.take(i as int), key@) == query_get(
                parts@.3.take(i as int - 1),
                key@,
            ));
        }
        i = i - 1;
    }
    proof {
        assert(parts@.3.take(0).len() == 0);
    }
    Option::None
}

// ---------------------------------------------------------------------
// Substring search, for the auth-callback path marker
// ---------------------------------------------------------------------
pub open spec fn has_substring(s: Seq<char>, pat: Seq<char>) -> bool {
    exists|i: int|
        0 <= i <= s.len() - pat.len() && #[trigger] s.subrange(i, i + pat.len() as int) == pat
}

/// Whether `pat` occurs contiguously in `s`.
pub fn contains_substring(s: &str, pat: &str) -> (r: bool)
    ensures
        r == has_substring(s@, pat@),
{
    let n = s.unicode_len();
    let m = pat.unicode_len();
    if m == 0 {
        proof {
            assert(s@.subrange(0, 0 + pat@.len() as int) =~= pat@);
        }
        return true;
    }
    if m > n {
        return false;
    }
    let mut i: usize = 0;
    while i <= n - m
        invariant
            m >= 1,
            m <= n,
            n == s@.len(),
            m == pat@.len(),
            i <= n - m + 1,
            forall|ii: int|
                0 <= ii < i ==> #[trigger] s@.subrange(ii, ii + pat@.len() as int) != pat@,
        decreases n - m + 1 - i,
    {
        let mut j: usize = 0;
        let mut ok = true;
        while j < m
            invariant
                m <= n,
                n == s@.len(),
                m == pat@.len(),
                i + m <= n,
                j <= m,
                ok <==> (forall|jj: int| 0 <= jj < j ==> s@[i + jj] == pat@[jj]),
            decreases m - j,
        {
            if s.get_char(i + j) != pat.get_char(j) {
                ok = false;
            }
            j = j + 1;
        }
        if ok {
            proof {
                assert(s@.subrange(i as int, i as int + pat@.len() as int) =~= pat@);
            }
            return true;
        }
        proof {
            let jj = choose|jj: int| 0 <= jj < m && s@[i + jj] != pat@[jj];
            assert(s@.subrange(i as int, i as int + pat@.len() as int)[jj] == s@[i + jj]);
        }
        i = i + 1;
    }
    proof {
        assert(!has_substring(s@, pat@)) by {
            if has_substring(s@, pat@) {
                let w = choose|w: int|
                    0 <= w <= s@.len() - pat@.len() && #[trigger] s@.subrange(
                        w,
                        w + pat@.len() as int,
                    ) == pat@;
                assert(s@.subrange(w, w + pat@.len() as int) != pat@);
            }
        }
    }
    false
}

// ---------------------------------------------------------------------
// Auth-callback classification and events
// ---------------------------------------------------------------------
/// The structured payload of an auth callback.
#[derive(Debug, Clone)]
pub struct AuthCallbackData {
    pub code: Option<String>,
    pub state: Option<String>,
    pub error: Option<String>,
    pub error_description: Option<String>,
}

/// The generic event every received deep link produces: the raw URL, its
/// decoded query pairs, and the receipt timestamp.
#[derive(Debug, Clone)]
pub struct DeepLinkEvent {
    pub url: String,
    pub parsed_params: Vec<(String, String)>,
    pub timestamp: i64,
}

/// What a routed deep link produces: the generic event, and the callback
/// payload when the link is an auth callback.
pub struct DeepLinkRouting {
    pub event: DeepLinkEvent,
    pub callback: Option<AuthCallbackData>,
}

/// A parsed URL is an auth callback when its path carries the callback
/// marker or a `code` query parameter is present.
pub open spec fn is_auth_callback(
    parts: (Seq<char>, Option<Seq<char>>, Seq<char>, Seq<(Seq<char>, Seq<char>)>),
) -> bool {
    has_substring(parts.2, "/auth/callback"@) || query_get(parts.3, "code"@) is Some
}

pub open spec fn opt_string_view(o: Option<String>) -> Option<Seq<char>> {
    match o {
        Option::Some(s) => Option::Some(s@),
        Option::None => Option::None,
    }
}

/// Route one incoming deep link.  A malformed URL fails with InvalidUrl
/// and produces no event; a well-formed one always produces the generic
/// event, plus the callback payload when it is an auth callback.
pub fn route_deep_link(url: &str, now_ms: i64) -> (r: Result<DeepLinkRouting, AuthError>)
    ensures
        match r {
            Ok(rt) => url_parse_of(url@) matches Option::Some(parts) && {
                &&& rt.event.url@ == url@
                &&& rt.event.timestamp == now_ms
                &&& Seq::new(
                    rt.event.parsed_params@.len(),
                    |i: int| (rt.event.parsed_params@[i].0@, rt.event.parsed_params@[i].1@),
                ) == parts.3
                &&& match rt.callback {
                    Option::Some(cb) => is_auth_callback(parts) && opt_string_view(cb.code)
                        == query_get(parts.3, "code"@) && opt_string_view(cb.state) == query_get(
                        parts.3,
                        "state"@,
                    ) && opt_string_view(cb.error) == query_get(parts.3, "error"@)
                        && opt_string_view(cb.error_description) == query_get(
                        parts.3,
                        "error_description"@,
                    ),
                    Option::None => !is_auth_callback(parts),
                }
            },
            Err(e) => e is InvalidUrl && url_parse_of(url@) is None,
        },
{
    let parts = match parse_url_parts(url) {
        Option::Some(p) => p,
        Option::None => {
            return Err(AuthError::InvalidUrl(String::from_str("unparseable deep link")));
        },
    };
    let code = lookup_query(&parts, "code");
    let is_callback = contains_substring(parts.path.as_str(), "/auth/callback") || code.is_some();
    let callback = if is_callback {
        Option::Some(
            AuthCallbackData {
                code,
                state: lookup_query(&parts, "state"),
                error: lookup_query(&parts, "error"),
                error_description: lookup_query(&parts, "error_description"),
            },
        )
    } else {
        Option::None
    };
    let event = DeepLinkEvent {
        url: String::from_str(url),
        parsed_params: parts.query,
        timestamp: now_ms,
    };
    Ok(DeepLinkRouting { event, callback })
}

// ---------------------------------------------------------------------
// Scheme allow-list for opening external auth URLs
// ---------------------------------------------------------------------
/// The allow-list: https always; http only towards localhost; nothing
/// else.  This is a security boundary.
pub open spec fn url_open_allowed(s: Seq<char>) -> bool {
    match url_parse_of(s) {
        Option::Some(parts) => {
            ||| parts.0 == "https"@
            ||| (parts.0 == "http"@ && match parts.1 {
                Option::Some(h) => h == "localhost"@ || h == "127.0.0.1"@,
                Option::None => false,
            })
        },
        Option::None => false,
    }
}

/// Validate a URL against the allow-list before it is handed to the
/// external browser launcher.
pub fn validate_auth_url(url: &str) -> (r: Result<(), AuthError>)
    ensures
        r matches Ok(()) <==> url_open_allowed(url@),
        r matches Err(e) ==> e is InvalidUrl,
{
    let parts = match parse_url_parts(url) {
        Option::Some(p) => p,
        Option::None => {
            return Err(AuthError::InvalidUrl(String::from_str("unparseable URL")));
        },
    };
    if constant_time_eq(parts.scheme.as_str(), "https") {
        return Ok(());
    }
    if constant_time_eq(parts.scheme.as_str(), "http") {
        match &parts.host {
            Option::Some(h) => {
                if constant_time_eq(h.as_str(), "localhost")
                    || constant_time_eq(h.as_str(), "127.0.0.1") {
                    return Ok(());
                }
                return Err(AuthError::InvalidUrl(String::from_str("HTTP only allowed for localhost")));
            },
            Option::None => {
                return Err(AuthError::InvalidUrl(String::from_str("invalid host")));
            },
        }
    }
    Err(AuthError::InvalidUrl(String::from_str("only HTTP(S) URLs allowed")))
}

} // verus!
