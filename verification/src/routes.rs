//! What each endpoint asks upstream for and what it answers.
use vstd::prelude::*;
use vstd::string::*;

use crate::json::{lemma_members_view, JsonMember, JsonValue, JsonView};

verus! {

/// A JSON answer of the server: its HTTP status, its body, and whether it
/// carries `Cache-Control: no-cache`.
pub struct JsonReply {
    pub status: u16,
    pub body: JsonValue,
    pub no_cache: bool,
}

/// The body of an error answer: `{"error": message}`.
pub open spec fn error_body(message: Seq<char>) -> JsonView {
    JsonView::Object(seq![("error"@, JsonView::Str(message))])
}

/// Builds a one-member object.
pub fn single_member(key: &str, value: JsonValue) -> (doc: JsonValue)
    ensures
        doc@ == JsonView::Object(seq![(key@, value@)]),
{
    let ghost v = value@;
    let mut members: Vec<JsonMember> = Vec::new();
    members.push(JsonMember { key: String::from_str(key), value });
    proof {
        lemma_members_view(members@);
        assert(crate::json::members_view(members@) =~= seq![(key@, v)]);
    }
    JsonValue::Object(members)
}

/// `{"error": message}`.
pub fn error_document(message: &str) -> (doc: JsonValue)
    ensures
        doc@ == error_body(message@),
{
    single_member("error", JsonValue::text(message))
}

/// The answer of the health check: `{"ok": true}`.
pub fn health_body() -> (doc: JsonValue)
    ensures
        doc@ == JsonView::Object(seq![("ok"@, JsonView::Bool(true))]),
{
    single_member("ok", JsonValue::Bool(true))
}

/// An upstream request of an endpoint: the path below the API root, how long
/// its answer is cached, and what the endpoint says when it fails.
pub struct UpstreamRequest {
    pub path: String,
    pub ttl_secs: u64,
    pub failure_message: String,
}

/// The global market overview: `/global`, cached for a minute.
pub fn global_request() -> (req: UpstreamRequest)
    ensures
        req.path@ == "/global"@,
        req.ttl_secs == 60,
        req.failure_message@ == "Failed to fetch global market data"@,
{
    UpstreamRequest {
        path: String::from_str("/global"),
        ttl_secs: 60,
        failure_message: String::from_str("Failed to fetch global market data"),
    }
}

/// The trending coins: `/search/trending`, cached for a minute.
pub fn trending_request() -> (req: UpstreamRequest)
    ensures
        req.path@ == "/search/trending"@,
        req.ttl_secs == 60,
        req.failure_message@ == "Failed to fetch trending data"@,
{
    UpstreamRequest {
        path: String::from_str("/search/trending"),
        ttl_secs: 60,
        failure_message: String::from_str("Failed to fetch trending data"),
    }
}

/// A query parameter's value, or its default when the parameter is absent.
pub open spec fn param_or(value: Option<Seq<char>>, default: Seq<char>) -> Seq<char> {
    match value {
        Some(v) => v,
        None => default,
    }
}

/// The view of an optional text.
pub open spec fn opt_view(value: Option<&str>) -> Option<Seq<char>> {
    match value {
        Some(v) => Some(v@),
        None => None,
    }
}

fn param_or_exec<'a>(value: Option<&'a str>, default: &'a str) -> (r: &'a str)
    ensures
        r@ == param_or(opt_view(value), default@),
{
    match value {
        Some(v) => v,
        None => default,
    }
}

/// The upstream path of the market list, ordered by market cap, with 24h
/// price changes: the parameters are put in as given.
pub open spec fn markets_path(vs_currency: Seq<char>, per_page: Seq<char>, page: Seq<char>) -> Seq<
    char,
> {
    "/coins/markets?vs_currency="@ + vs_currency
        + "&order=market_cap_desc&sparkline=false&price_change_percentage=24h&per_page="@ + per_page
        + "&page="@ + page
}

/// The market list for the `vs_currency`, `page` and `per_page` parameters
/// (`usd`, `1` and `20` when absent), cached for 30 seconds.
pub fn markets_request(vs_currency: Option<&str>, page: Option<&str>, per_page: Option<&str>) -> (req:
    UpstreamRequest)
    ensures
        req.path@ == markets_path(
            param_or(opt_view(vs_currency), "usd"@),
            param_or(opt_view(per_page), "20"@),
            param_or(opt_view(page), "1"@),
        ),
        req.ttl_secs == 30,
        req.failure_message@ == "Failed to fetch market list"@,
{
    let vs = param_or_exec(vs_currency, "usd");
    let pg = param_or_exec(page, "1");
    let pp = param_or_exec(per_page, "20");
    let path = String::from_str("/coins/markets?vs_currency=").concat(vs).concat(
        "&order=market_cap_desc&sparkline=false&price_change_percentage=24h&per_page=",
    ).concat(pp).concat("&page=").concat(pg);
    UpstreamRequest {
        path,
        ttl_secs: 30,
        failure_message: String::from_str("Failed to fetch market list"),
    }
}

/// The upstream path of a coin's daily price history.
pub open spec fn history_path(coin_id: Seq<char>, vs_currency: Seq<char>, days: Seq<char>) -> Seq<
    char,
> {
    "/coins/"@ + coin_id + "/market_chart?vs_currency="@ + vs_currency + "&days="@ + days
        + "&interval=daily"@
}

/// The price history for the `coin_id`, `days` and `vs_currency` parameters
/// (`365` days and `usd` when absent), cached for five minutes; without a
/// `coin_id` the answer is 400 with `{"error": "coin_id is required"}`.
pub fn history_request(coin_id: Option<&str>, days: Option<&str>, vs_currency: Option<&str>) -> (r:
    Result<UpstreamRequest, JsonReply>)
    ensures
        match coin_id {
            Some(id) => r matches Ok(req) && req.path@ == history_path(
                id@,
                param_or(opt_view(vs_currency), "usd"@),
                param_or(opt_view(days), "365"@),
            ) && req.ttl_secs == 300 && req.failure_message@ == "Failed to fetch market history"@,
            None => r matches Err(reply) && reply.status == 400 && reply.body@ == error_body(
                "coin_id is required"@,
            ) && !reply.no_cache,
        },
{
    match coin_id {
        None => Err(
            JsonReply { status: 400, body: error_document("coin_id is required"), no_cache: false },
        ),
        Some(id) => {
            let d = param_or_exec(days, "365");
            let vs = param_or_exec(vs_currency, "usd");
            let path = String::from_str("/coins/").concat(id).concat(
                "/market_chart?vs_currency=",
            ).concat(vs).concat("&days=").concat(d).concat("&interval=daily");
            Ok(
                UpstreamRequest {
                    path,
                    ttl_secs: 300,
                    failure_message: String::from_str("Failed to fetch market history"),
                },
            )
        },
    }
}

/// The answer of a proxying endpoint: 200 with the upstream document, or 502
/// with `{"error": failure_message}` when there is none.
pub fn upstream_reply(req: &UpstreamRequest, data: Option<JsonValue>) -> (reply: JsonReply)
    ensures
        !reply.no_cache,
        match data {
            Some(doc) => reply.status == 200 && reply.body@ == doc@,
            None => reply.status == 502 && reply.body@ == error_body(req.failure_message@),
        },
{
    match data {
        Some(doc) => JsonReply { status: 200, body: doc, no_cache: false },
        None => JsonReply {
            status: 502,
            body: error_document(req.failure_message.as_str()),
            no_cache: false,
        },
    }
}

/// The dashboard's static files.
pub enum StaticAsset {
    Index,
    Styles,
    Script,
}

impl StaticAsset {
    /// The file name below the static directory.
    pub fn file_name(&self) -> (name: &'static str)
        ensures
            name@ == match self {
                StaticAsset::Index => "index.html"@,
                StaticAsset::Styles => "styles.css"@,
                StaticAsset::Script => "app.js"@,
            },
    {
        match self {
            StaticAsset::Index => "index.html",
            StaticAsset::Styles => "styles.css",
            StaticAsset::Script => "app.js",
        }
    }

    /// The `Content-Type` it is served with.
    pub fn content_type(&self) -> (ct: &'static str)
        ensures
            ct@ == match self {
                StaticAsset::Index => "text/html; charset=utf-8"@,
                StaticAsset::Styles => "text/css; charset=utf-8"@,
                StaticAsset::Script => "application/javascript; charset=utf-8"@,
            },
    {
        match self {
            StaticAsset::Index => "text/html; charset=utf-8",
            StaticAsset::Styles => "text/css; charset=utf-8",
            StaticAsset::Script => "application/javascript; charset=utf-8",
        }
    }

    /// The `Cache-Control` it is served with: the page is never cached, the
    /// style sheet and the script for five minutes.
    pub fn cache_control(&self) -> (cc: &'static str)
        ensures
            cc@ == match self {
                StaticAsset::Index => "no-cache"@,
                _ => "public, max-age=300"@,
            },
    {
        match self {
            StaticAsset::Index => "no-cache",
            _ => "public, max-age=300",
        }
    }
}

} // verus!
