//! The decisions of an upstream fetch: answer from the cache or send a
//! request; read the body or give up; cache what came back.
use vstd::prelude::*;

use crate::cache::{fresh_payload, ResponseCache};
use crate::config::{request_url, upstream_full_path, upstream_url, ApiConfig};
use crate::json::{JsonValue, JsonView};

verus! {

/// A request that has to go upstream: where it goes, the key its answer is
/// cached under, and for how many seconds.
pub struct FetchJob {
    pub cache_key: String,
    pub url: String,
    pub ttl_secs: u64,
}

/// What to do first for an upstream fetch.
pub enum FetchPlan {
    /// Answer with this cached document.
    Cached(JsonValue),
    /// Send the request.
    Fetch(FetchJob),
}

/// Nanoseconds in `ttl_secs` seconds.
pub open spec fn ttl_ns(ttl_secs: u64) -> int {
    ttl_secs * 1_000_000_000
}

/// The cache after a fetch for `key` ended with `answer` at `now_ns`: the
/// answer is kept for the time to live when there is one and that time is not zero.
pub open spec fn cache_after_fetch(
    cache: Map<Seq<char>, (JsonView, u64)>,
    key: Seq<char>,
    answer: Option<JsonView>,
    ttl_secs: u64,
    now_ns: u64,
) -> Map<Seq<char>, (JsonView, u64)> {
    match answer {
        Some(v) => if ttl_secs > 0 {
            cache.insert(key, (v, (now_ns + ttl_ns(ttl_secs)) as u64))
        } else {
            cache
        },
        None => cache,
    }
}

/// The answer that a fetch with time to live `ttl_secs` at `now_ns` takes from
/// the cache instead of going upstream: only with a time to live, and only a
/// fresh one.
pub open spec fn served_from_cache(
    cache: Map<Seq<char>, (JsonView, u64)>,
    key: Seq<char>,
    ttl_secs: u64,
    now_ns: u64,
) -> Option<JsonView> {
    if ttl_secs > 0 {
        fresh_payload(cache, key, now_ns)
    } else {
        None
    }
}

/// Plans a fetch of `path` below the configured base path. With a time to live,
/// an answer cached under the full path that is still fresh at `now_ns` is
/// served; otherwise the request goes to the configured host.
pub fn plan_fetch(
    cfg: &ApiConfig,
    path: &str,
    ttl_secs: u64,
    cache: &ResponseCache,
    now_ns: u64,
) -> (plan: FetchPlan)
    ensures
        ({
            let key = cfg.base_path@ + path@;
            match served_from_cache(cache@, key, ttl_secs, now_ns) {
                Some(v) => plan matches FetchPlan::Cached(doc) && doc@ == v,
                None => plan matches FetchPlan::Fetch(job) && job.cache_key@ == key && job.url@
                    == request_url(cfg@, key) && job.ttl_secs == ttl_secs,
            }
        }),
{
    let full_path = upstream_full_path(cfg, path);
    if ttl_secs > 0 {
        match cache.lookup_fresh(&full_path, now_ns) {
            Some(doc) => {
                return FetchPlan::Cached(doc);
            },
            None => {},
        }
    }
    let url = upstream_url(cfg, full_path.as_str());
    FetchPlan::Fetch(FetchJob { cache_key: full_path, url, ttl_secs })
}

/// Whether an upstream status code means success (2xx), so that the body is read.
pub fn status_is_success(status: u16) -> (ok: bool)
    ensures
        ok == (200 <= status < 300),
{
    200 <= status && status < 300
}

/// Ends a fetch with the parsed upstream answer (`None` when the request,
/// the status or the body failed) and caches it when the job has a time to live.
pub fn finish_fetch(
    job: FetchJob,
    cache: &mut ResponseCache,
    now_ns: u64,
    answer: Option<JsonValue>,
) -> (result: Option<JsonValue>)
    requires
        answer is Some && job.ttl_secs > 0 ==> now_ns + ttl_ns(job.ttl_secs) <= u64::MAX,
    ensures
        final(cache)@ == cache_after_fetch(
            old(cache)@,
            job.cache_key@,
            match answer {
                Some(v) => Some(v@),
                None => None,
            },
            job.ttl_secs,
            now_ns,
        ),
        match answer {
            Some(v) => result matches Some(r) && r@ == v@,
            None => result is None,
        },
        answer is Some && job.ttl_secs > 0 ==> final(cache)@.contains_key(job.cache_key@)
            && final(cache)@[job.cache_key@].1 == now_ns + job.ttl_secs * 1_000_000_000,
{
    match answer {
        Some(doc) => {
            if job.ttl_secs > 0 {
                let expires_at_ns = now_ns + job.ttl_secs * 1_000_000_000;
                cache.store(job.cache_key, doc.duplicate(), expires_at_ns);
            }
            Some(doc)
        },
        None => None,
    }
}

/// An answer fetched with a time to live is served from the cache for that
/// long after it arrived, and no longer; a fetch with no time to live leaves
/// the cache as it was.
pub proof fn law_fetched_answer_is_served_until_expiry(
    cache: Map<Seq<char>, (JsonView, u64)>,
    key: Seq<char>,
    answer: JsonView,
    ttl_secs: u64,
    fetched_at_ns: u64,
    later_ns: u64,
)
    requires
        fetched_at_ns + ttl_secs * 1_000_000_000 <= u64::MAX,
    ensures
        ttl_secs > 0 ==> (fresh_payload(
            cache_after_fetch(cache, key, Some(answer), ttl_secs, fetched_at_ns),
            key,
            later_ns,
        ) == if later_ns < fetched_at_ns + ttl_secs * 1_000_000_000 {
            Some(answer)
        } else {
            None
        }),
        ttl_secs == 0 ==> cache_after_fetch(cache, key, Some(answer), ttl_secs, fetched_at_ns)
            == cache,
        ttl_secs > 0 ==> fresh_payload(
            cache_after_fetch(cache, key, Some(answer), ttl_secs, fetched_at_ns),
            key,
            (fetched_at_ns + ttl_secs * 1_000_000_000) as u64,
        ) is None,
        ttl_secs > 0 && fetched_at_ns + ttl_secs * 1_000_000_000 > 0 ==> fresh_payload(
            cache_after_fetch(cache, key, Some(answer), ttl_secs, fetched_at_ns),
            key,
            (fetched_at_ns + ttl_secs * 1_000_000_000 - 1) as u64,
        ) == Some(answer),
{
}

/// A second fetch of the same path within the time to live of an answer that
/// the first fetch stored is served that answer from the cache, whatever time
/// to live the second fetch asks for (as long as it asks for one): the expiry
/// is the storing fetch's.
pub proof fn law_second_fetch_within_ttl_is_cached(
    cache: Map<Seq<char>, (JsonView, u64)>,
    key: Seq<char>,
    answer: JsonView,
    first_ttl_secs: u64,
    second_ttl_secs: u64,
    fetched_at_ns: u64,
    later_ns: u64,
)
    requires
        first_ttl_secs > 0,
        second_ttl_secs > 0,
        fetched_at_ns + first_ttl_secs * 1_000_000_000 <= u64::MAX,
        later_ns < fetched_at_ns + first_ttl_secs * 1_000_000_000,
    ensures
        served_from_cache(
            cache_after_fetch(cache, key, Some(answer), first_ttl_secs, fetched_at_ns),
            key,
            second_ttl_secs,
            later_ns,
        ) == Some(answer),
{
}

/// A failed fetch leaves the cache as it was, whatever its time to live; an
/// entry whose expiry has come is not served, so a fetch at that time goes
/// upstream and, when that fails, gives nothing although the entry is there.
pub proof fn law_expired_entry_is_not_served(
    cache: Map<Seq<char>, (JsonView, u64)>,
    key: Seq<char>,
    ttl_secs: u64,
    now_ns: u64,
)
    ensures
        cache_after_fetch(cache, key, None, ttl_secs, now_ns) == cache,
        cache.contains_key(key) && cache[key].1 <= now_ns ==> served_from_cache(
            cache,
            key,
            ttl_secs,
            now_ns,
        ) is None,
{
}

} // verus!
