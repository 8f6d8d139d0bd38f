//! Settings of the server: where the market-data API lives, where the
//! snapshot file and the static assets are.
use vstd::prelude::*;
use vstd::string::*;

use crate::text::{
    concat_str, eq_str, first_occurrence, lemma_first_occurrence_from, lemma_first_occurrence_is,
    lemma_split_once, occurs_at, split_once, split_once_str,
};

verus! {

/// The market-data API root, split into the parts that requests are built from.
pub struct ApiConfig {
    pub scheme: String,
    pub host: String,
    pub base_path: String,
}

/// The mathematical value of an [`ApiConfig`].
pub struct ApiConfigView {
    pub scheme: Seq<char>,
    pub host: Seq<char>,
    pub base_path: Seq<char>,
}

impl View for ApiConfig {
    type V = ApiConfigView;

    open spec fn view(&self) -> ApiConfigView {
        ApiConfigView { scheme: self.scheme@, host: self.host@, base_path: self.base_path@ }
    }
}

/// The API root used when none is configured.
pub open spec fn default_base_url() -> Seq<char> {
    "https://api.coingecko.com/api/v3"@
}

/// The host used when the configured root names none.
pub open spec fn default_host() -> Seq<char> {
    "api.coingecko.com"@
}

/// The scheme used when the configured root names none.
pub open spec fn default_scheme() -> Seq<char> {
    "https"@
}

/// How a configured API root reads: an empty setting means the default root;
/// the scheme is what stands before the first `://` (`https` when there is
/// none); the host runs up to the next `/` (the default host when empty); the
/// base path is the rest, from that `/` on (empty when there is no `/`).
pub open spec fn parse_base_url(url: Seq<char>) -> ApiConfigView {
    let input = if url.len() == 0 {
        default_base_url()
    } else {
        url
    };
    let (scheme, after) = match split_once(input, "://"@) {
        Some((s, rest)) => (s, rest),
        None => (default_scheme(), input),
    };
    match split_once(after, "/"@) {
        Some((h, path)) => ApiConfigView {
            scheme,
            host: if h.len() == 0 {
                default_host()
            } else {
                h
            },
            base_path: "/"@ + path,
        },
        None => ApiConfigView {
            scheme,
            host: if after.len() == 0 {
                default_host()
            } else {
                after
            },
            base_path: Seq::empty(),
        },
    }
}

/// The full URL of an upstream request for `full_path` (base path included).
pub open spec fn request_url(cfg: ApiConfigView, full_path: Seq<char>) -> Seq<char> {
    cfg.scheme + "://"@ + cfg.host + full_path
}

/// Splits a configured API root (such as `https://api.coingecko.com/api/v3`)
/// into scheme, host and base path.
pub fn parse_api_base_url(url: &str) -> (cfg: ApiConfig)
    ensures
        cfg@ == parse_base_url(url@),
{
    let default_url = "https://api.coingecko.com/api/v3";
    let input = if url.is_empty() {
        default_url
    } else {
        url
    };
    let (scheme, after_scheme) = match split_once_str(input, "://") {
        Some((s, rest)) => (String::from_str(s), rest),
        None => (String::from_str("https"), input),
    };
    let (host, base_path) = match split_once_str(after_scheme, "/") {
        Some((h, path)) => {
            let resolved_host = if h.is_empty() {
                String::from_str("api.coingecko.com")
            } else {
                String::from_str(h)
            };
            (resolved_host, concat_str("/", path))
        },
        None => {
            let resolved_host = if after_scheme.is_empty() {
                String::from_str("api.coingecko.com")
            } else {
                String::from_str(after_scheme)
            };
            (resolved_host, String::new())
        },
    };
    ApiConfig { scheme, host, base_path }
}

/// The key under which an upstream answer for `path` is cached: the base path
/// followed by `path`.
pub fn upstream_full_path(cfg: &ApiConfig, path: &str) -> (full_path: String)
    ensures
        full_path@ == cfg.base_path@ + path@,
{
    concat_str(cfg.base_path.as_str(), path)
}

/// The URL that an upstream request for `full_path` goes to.
pub fn upstream_url(cfg: &ApiConfig, full_path: &str) -> (url: String)
    ensures
        url@ == request_url(cfg@, full_path@),
{
    let with_sep = concat_str(cfg.scheme.as_str(), "://");
    let with_host = with_sep.concat(cfg.host.as_str());
    with_host.concat(full_path)
}

/// A path setting: its value when it is set and not empty, else the default.
pub open spec fn path_setting(value: Option<Seq<char>>, default: Seq<char>) -> Seq<char> {
    match value {
        Some(v) => if v.len() > 0 {
            v
        } else {
            default
        },
        None => default,
    }
}

fn resolve_path_setting(value: Option<&str>, default: &str) -> (path: String)
    ensures
        path@ == path_setting(
            match value {
                Some(v) => Some(v@),
                None => None,
            },
            default@,
        ),
{
    match value {
        Some(v) => if !v.is_empty() {
            String::from_str(v)
        } else {
            String::from_str(default)
        },
        None => String::from_str(default),
    }
}

/// Where the bootstrap snapshot is kept, from the `SNAPSHOT_PATH` setting
/// (`None` when it is not set): `db.json` unless a non-empty path is given.
pub fn resolve_snapshot_path(value: Option<&str>) -> (path: String)
    ensures
        path@ == path_setting(
            match value {
                Some(v) => Some(v@),
                None => None,
            },
            "db.json"@,
        ),
{
    resolve_path_setting(value, "db.json")
}

/// Where the dashboard's static files are, from the `STATIC_DIR` setting
/// (`None` when it is not set): `static` unless a non-empty path is given.
pub fn resolve_static_dir(value: Option<&str>) -> (path: String)
    ensures
        path@ == path_setting(
            match value {
                Some(v) => Some(v@),
                None => None,
            },
            "static"@,
        ),
{
    resolve_path_setting(value, "static")
}

/// The parsed host is never empty and holds no `/`.
pub proof fn law_host_is_present(url: Seq<char>)
    ensures
        parse_base_url(url).host.len() > 0,
        !parse_base_url(url).host.contains('/'),
{
    reveal_strlit("api.coingecko.com");
    reveal_strlit("https://api.coingecko.com/api/v3");
    reveal_strlit("://");
    reveal_strlit("/");
    let input = if url.len() == 0 {
        default_base_url()
    } else {
        url
    };
    lemma_split_once(input, "://"@);
    let after = match split_once(input, "://"@) {
        Some((s, rest)) => rest,
        None => input,
    };
    lemma_split_once(after, "/"@);
    let host = parse_base_url(url).host;
    if host.contains('/') {
        let k = choose|k: int| 0 <= k < host.len() && host[k] == '/';
        if host == default_host() {
            assert(default_host()[k] != '/');
        } else {
            match split_once(after, "/"@) {
                Some((h, path)) => {
                    assert(host.subrange(k, k + 1) =~= "/"@);
                    assert(occurs_at(h, "/"@, k));
                },
                None => {
                    assert(after.subrange(k, k + 1) =~= "/"@);
                    assert(occurs_at(after, "/"@, k));
                },
            }
        }
    }
}

/// Parsing the root that the parsed parts spell out (scheme, `://`, host and
/// base path) gives the same parts again.
pub proof fn law_reparse_gives_same_parts(url: Seq<char>)
    ensures
        parse_base_url(request_url(parse_base_url(url), parse_base_url(url).base_path))
            == parse_base_url(url),
{
    reveal_strlit("://");
    reveal_strlit("/");
    reveal_strlit("https");
    reveal_strlit("https://api.coingecko.com/api/v3");
    law_host_is_present(url);
    law_base_path_is_rooted(url);
    let c = parse_base_url(url);
    let input = if url.len() == 0 {
        default_base_url()
    } else {
        url
    };
    let sep = "://"@;
    let slash = "/"@;
    lemma_split_once(input, sep);
    lemma_first_occurrence_from(input, sep, 0);
    let s = c.scheme;
    let h = c.host;
    let b = c.base_path;
    let u = s + sep + h + b;
    assert(u == request_url(c, b));
    assert(u.subrange(s.len() as int, (s.len() + 3) as int) =~= sep);
    assert forall|j: int| 0 <= j < s.len() implies !#[trigger] occurs_at(u, sep, j) by {
        if occurs_at(u, sep, j) {
            match split_once(input, sep) {
                Some((sc, rest)) => {
                    assert(sc == s);
                    assert(u.subrange(j, j + 3) =~= input.subrange(j, j + 3)) by {
                        assert forall|k: int| 0 <= k < 3 implies #[trigger] u.subrange(j, j + 3)[k]
                            == input.subrange(j, j + 3)[k] by {
                            assert(u[j + k] == (s + sep)[j + k]);
                            assert(input[j + k] == (sc + sep)[j + k]);
                        }
                    }
                    assert(occurs_at(input, sep, j));
                    assert(first_occurrence(input, sep) == Some(s.len()));
                },
                None => {
                    assert(s == default_scheme());
                    assert(u.subrange(j, j + 3)[0] == u[j]);
                    assert(u[j] == s[j]);
                },
            }
        }
    }
    lemma_first_occurrence_is(u, sep, s.len() as int);
    let after = h + b;
    assert(u.subrange(0, s.len() as int) =~= s);
    assert(u.subrange((s.len() + 3) as int, u.len() as int) =~= after);
    assert forall|j: int| 0 <= j < h.len() implies !#[trigger] occurs_at(after, slash, j) by {
        if occurs_at(after, slash, j) {
            assert(after.subrange(j, j + 1)[0] == after[j]);
            assert(after[j] == h[j]);
            assert(h.contains(h[j]));
        }
    }
    if b.len() == 0 {
        assert(after =~= h);
        lemma_first_occurrence_from(after, slash, 0);
        if first_occurrence(after, slash) is Some {
            let i = first_occurrence(after, slash)->0;
            assert(occurs_at(after, slash, i as int));
        }
        assert(split_once(after, slash) is None);
    } else {
        assert(after.subrange(h.len() as int, (h.len() + 1) as int) =~= slash);
        lemma_first_occurrence_is(after, slash, h.len() as int);
        assert(after.subrange(0, h.len() as int) =~= h);
        assert(slash + after.subrange((h.len() + 1) as int, after.len() as int) =~= b);
    }
}

/// A root written without a scheme is read as `https`, and its host and base
/// path spell out the whole setting, when the text before its first `/` is
/// not empty.
pub proof fn law_schemeless_root(url: Seq<char>)
    requires
        url.len() > 0,
        forall|j: int| !#[trigger] occurs_at(url, "://"@, j),
        url[0] != '/',
    ensures
        parse_base_url(url).scheme == "https"@,
        parse_base_url(url).host + parse_base_url(url).base_path == url,
{
    reveal_strlit("://");
    reveal_strlit("/");
    lemma_first_occurrence_from(url, "://"@, 0);
    if first_occurrence(url, "://"@) is Some {
        let i = first_occurrence(url, "://"@)->0;
        assert(occurs_at(url, "://"@, i as int));
    }
    assert(split_once(url, "://"@) is None);
    lemma_split_once(url, "/"@);
    match split_once(url, "/"@) {
        Some((h, path)) => {
            if h.len() == 0 {
                assert(url[0] == (h + "/"@ + path)[0]);
            }
            assert(h + ("/"@ + path) =~= url);
        },
        None => {
            assert(url + Seq::<char>::empty() =~= url);
        },
    }
}

/// An empty setting reads as the default API root.
pub proof fn law_empty_root_is_default()
    ensures
        parse_base_url(Seq::empty()) == parse_base_url(default_base_url()),
{
    reveal_strlit("https://api.coingecko.com/api/v3");
}

/// The parsed base path is empty or starts with `/`.
pub proof fn law_base_path_is_rooted(url: Seq<char>)
    ensures
        parse_base_url(url).base_path.len() == 0 || parse_base_url(url).base_path[0] == '/',
{
    reveal_strlit("/");
}

/// Where the configured root names a scheme and a host, the request URL of a
/// path is the configured root followed by that path.
pub proof fn law_request_url_extends_root(url: Seq<char>, path: Seq<char>)
    requires
        split_once(url, "://"@) matches Some((scheme, rest)) && rest.len() > 0 && rest[0] != '/',
    ensures
        request_url(parse_base_url(url), parse_base_url(url).base_path + path) == url + path,
{
    reveal_strlit("://");
    reveal_strlit("/");
    lemma_split_once(url, "://"@);
    let (scheme, rest) = split_once(url, "://"@).unwrap();
    lemma_split_once(rest, "/"@);
    let cfg = parse_base_url(url);
    match split_once(rest, "/"@) {
        Some((h, p)) => {
            if h.len() == 0 {
                assert(rest[0] == ("/"@ + p)[0]);
            }
            assert(cfg.scheme + "://"@ + cfg.host + (cfg.base_path + path) =~= url + path);
        },
        None => {
            assert(cfg.scheme + "://"@ + cfg.host + (cfg.base_path + path) =~= url + path);
        },
    }
}


/// A character that `http::HeaderValue::from_str` accepts: a byte of 32 or
/// more other than 127 (DEL), or a tab. Characters beyond ASCII are encoded in
/// bytes of 128 and more, so they are accepted.
pub open spec fn header_value_char(c: char) -> bool {
    (c as u32 >= 32 && c as u32 != 127) || c == '\t'
}

/// Text that `http::HeaderValue::from_str` accepts.
pub open spec fn valid_header_value(text: Seq<char>) -> bool {
    forall|i: int| 0 <= i < text.len() ==> header_value_char(#[trigger] text[i])
}

/// `http::HeaderValue::from_str`, as a test: whether the text is accepted as
/// a header value. The crate rejects a value exactly when one of its bytes is
/// below 32 (other than a tab) or is 127; this is what the contract claims.
#[verifier::external_body]
fn header_value_accepts(text: &str) -> (ok: bool)
    ensures
        ok == valid_header_value(text@),
{
    http::HeaderValue::from_str(text).is_ok()
}

/// The `x-cg-demo-api-key` header value, from the `COINGECKO_API_KEY`
/// setting: the key when it is set, not empty and a valid header value, else
/// no header.
pub fn api_key_header(value: Option<&str>) -> (header: Option<String>)
    ensures
        match value {
            Some(v) => if v@.len() > 0 && valid_header_value(v@) {
                header matches Some(h) && h@ == v@
            } else {
                header is None
            },
            None => header is None,
        },
{
    match value {
        Some(v) => if !v.is_empty() && header_value_accepts(v) {
            Some(String::from_str(v))
        } else {
            None
        },
        None => None,
    }
}

/// Which origins may read the API.
pub enum CorsOrigin {
    /// Any origin.
    AnyOrigin,
    /// Only this one.
    Exact(String),
}

/// The allowed origin, from the `FRONTEND_ORIGIN` setting: any origin when
/// it is not set, empty, `*` or not a valid header value; else that origin.
pub fn cors_origin(value: Option<&str>) -> (origin: CorsOrigin)
    ensures
        match value {
            Some(v) => if v@.len() > 0 && v@ != "*"@ && valid_header_value(v@) {
                origin matches CorsOrigin::Exact(o) && o@ == v@
            } else {
                origin is AnyOrigin
            },
            None => origin is AnyOrigin,
        },
{
    match value {
        Some(v) => if v.is_empty() || eq_str(v, "*") {
            CorsOrigin::AnyOrigin
        } else if header_value_accepts(v) {
            CorsOrigin::Exact(String::from_str(v))
        } else {
            CorsOrigin::AnyOrigin
        },
        None => CorsOrigin::AnyOrigin,
    }
}

/// A decimal digit.
pub open spec fn is_digit(c: char) -> bool {
    '0' <= c && c <= '9'
}

/// The number written by a string of decimal digits.
pub open spec fn digits_value(digits: Seq<char>) -> int
    decreases digits.len(),
{
    if digits.len() == 0 {
        0
    } else {
        digits_value(digits.drop_last()) * 10 + (digits.last() as int - '0' as int)
    }
}

/// The text of a number without its optional leading `+`.
pub open spec fn unsigned_digits(text: Seq<char>) -> Seq<char> {
    if text.len() > 0 && text[0] == '+' {
        text.drop_first()
    } else {
        text
    }
}

/// Every character is a decimal digit.
pub open spec fn all_digits(digits: Seq<char>) -> bool {
    forall|i: int| 0 <= i < digits.len() ==> is_digit(#[trigger] digits[i])
}

/// What `str::parse::<u16>` accepts: an optional `+`, then one or more decimal
/// digits whose number is at most 65535.
pub open spec fn parse_u16(text: Seq<char>) -> Option<u16> {
    let digits = unsigned_digits(text);
    if digits.len() > 0 && all_digits(digits) && digits_value(digits) <= 65535 {
        Some(digits_value(digits) as u16)
    } else {
        None
    }
}

/// A string of digits writes at least the number of any of its prefixes.
pub proof fn lemma_digits_value_grows(digits: Seq<char>, k: int)
    requires
        0 <= k <= digits.len(),
        forall|i: int| 0 <= i < digits.len() ==> is_digit(#[trigger] digits[i]),
    ensures
        digits_value(digits.subrange(0, k)) <= digits_value(digits),
        0 <= digits_value(digits),
    decreases digits.len(),
{
    if digits.len() > 0 {
        let init = digits.drop_last();
        assert forall|i: int| 0 <= i < init.len() implies is_digit(#[trigger] init[i]) by {
            assert(init[i] == digits[i]);
        }
        if k < digits.len() {
            assert(init.subrange(0, k) =~= digits.subrange(0, k));
            lemma_digits_value_grows(init, k);
        } else {
            assert(digits.subrange(0, k) =~= digits);
            lemma_digits_value_grows(init, 0);
        }
    }
}

/// Parses a port number as `str::parse::<u16>` does.
pub fn parse_port_number(text: &str) -> (port: Option<u16>)
    ensures
        port == parse_u16(text@),
{
    let n = text.unicode_len();
    if n == 0 {
        return None;
    }
    let start: usize = if text.get_char(0) == '+' {
        1
    } else {
        0
    };
    let ghost digits = text@.subrange(start as int, n as int);
    assert(digits =~= unsigned_digits(text@));
    if start == n {
        return None;
    }
    let mut acc: u32 = 0;
    let mut i: usize = start;
    while i < n
        invariant
            n == text@.len(),
            start <= i <= n,
            start < n,
            digits == text@.subrange(start as int, n as int),
            digits == unsigned_digits(text@),
            forall|j: int| 0 <= j < i - start ==> is_digit(#[trigger] digits[j]),
            acc as int == digits_value(digits.subrange(0, i - start)),
            acc <= 65535,
        decreases n - i,
    {
        let c = text.get_char(i);
        if c < '0' || c > '9' {
            assert(digits[i - start] == c);
            assert(!is_digit(digits[i - start]));
            return None;
        }
        proof {
            assert(digits.subrange(0, i + 1 - start).drop_last() =~= digits.subrange(0, i - start));
        }
        acc = acc * 10 + ((c as u32) - ('0' as u32));
        i = i + 1;
        if acc > 65535 {
            proof {
                if all_digits(digits) {
                    lemma_digits_value_grows(digits, i - start);
                }
            }
            return None;
        }
    }
    assert(digits.subrange(0, n - start) =~= digits);
    Some(acc as u16)
}

/// The port to listen on, from the `PORT` setting: the setting when it parses
/// as a port number, else 8080.
pub fn resolve_port(value: Option<&str>) -> (port: u16)
    ensures
        port == match value {
            Some(v) => match parse_u16(v@) {
                Some(p) => p,
                None => 8080,
            },
            None => 8080,
        },
{
    match value {
        Some(v) => match parse_port_number(v) {
            Some(p) => p,
            None => 8080,
        },
        None => 8080,
    }
}

} // verus!
