use crypto_dashboard::cache::ResponseCache;
use crypto_dashboard::clock::{epoch_ms_from, epoch_ms_of_reading, now_epoch_ms};
use crypto_dashboard::config::parse_api_base_url;
use crypto_dashboard::fetch::{finish_fetch, plan_fetch, status_is_success, FetchPlan};
use crypto_dashboard::json::{JsonMember, JsonValue};
use crypto_dashboard::routes::{
    global_request, health_body, history_request, markets_request, trending_request,
    upstream_reply, StaticAsset,
};
use crypto_dashboard::snapshot::{advance_snapshot_write, begin_snapshot_write, SnapshotWriteStep};

fn obj(members: Vec<(&str, JsonValue)>) -> JsonValue {
    JsonValue::Object(
        members
            .into_iter()
            .map(|(k, v)| JsonMember { key: k.to_string(), value: v })
            .collect(),
    )
}

#[test]
fn now_epoch_ms_returns_positive_timestamp() {
    let ts = now_epoch_ms();
    assert!(ts > 0);
}

#[test]
fn epoch_ms_conversion() {
    assert_eq!(epoch_ms_from(None), 0);
    assert_eq!(epoch_ms_from(Some(1_700_000_000_123)), 1_700_000_000_123);
    assert_eq!(epoch_ms_from(Some(1u128 << 64)), 0);
    assert_eq!(epoch_ms_of_reading(Ok(std::time::Duration::from_millis(1234))), 1234);
    let before_epoch = std::time::UNIX_EPOCH.duration_since(std::time::SystemTime::now());
    assert!(before_epoch.is_err());
    assert_eq!(epoch_ms_of_reading(before_epoch), 0);
}

#[test]
fn cache_serves_until_expiry() {
    let mut cache = ResponseCache::new();
    assert_eq!(cache.len(), 0);
    let doc = obj(vec![("x", JsonValue::Int(1))]);
    cache.store("/a".to_string(), doc.duplicate(), 100);
    assert_eq!(cache.lookup_fresh(&"/a".to_string(), 99), Some(doc.duplicate()));
    assert_eq!(cache.lookup_fresh(&"/a".to_string(), 100), None);
    assert_eq!(cache.lookup_fresh(&"/b".to_string(), 0), None);
    let newer = obj(vec![("x", JsonValue::Int(2))]);
    cache.store("/a".to_string(), newer.duplicate(), 500);
    assert_eq!(cache.len(), 1);
    assert_eq!(cache.lookup_fresh(&"/a".to_string(), 200), Some(newer));
    cache.store("/b".to_string(), JsonValue::Null, 10);
    assert_eq!(cache.len(), 2);
}

#[test]
fn fetch_uses_cache_only_with_ttl() {
    let cfg = parse_api_base_url("https://example.com/api");
    let mut cache = ResponseCache::new();
    let plan = plan_fetch(&cfg, "/global", 60, &cache, 1_000_000_000);
    let job = match plan {
        FetchPlan::Fetch(job) => job,
        FetchPlan::Cached(_) => panic!("nothing is cached yet"),
    };
    assert_eq!(job.cache_key, "/api/global");
    assert_eq!(job.url, "https://example.com/api/global");
    let answer = obj(vec![("data", JsonValue::Bool(true))]);
    let got = finish_fetch(job, &mut cache, 2_000_000_000, Some(answer.duplicate()));
    assert_eq!(got, Some(answer.duplicate()));
    match plan_fetch(&cfg, "/global", 5, &cache, 61_999_999_999) {
        FetchPlan::Cached(doc) => assert_eq!(doc, answer),
        FetchPlan::Fetch(_) => panic!("answer should be cached"),
    }
    assert!(matches!(plan_fetch(&cfg, "/global", 60, &cache, 62_000_000_000), FetchPlan::Fetch(_)));
    assert!(matches!(plan_fetch(&cfg, "/global", 0, &cache, 2_000_000_001), FetchPlan::Fetch(_)));
    let job = match plan_fetch(&cfg, "/global", 60, &cache, 70_000_000_000) {
        FetchPlan::Fetch(job) => job,
        FetchPlan::Cached(_) => panic!("the entry has expired"),
    };
    assert_eq!(finish_fetch(job, &mut cache, 70_000_000_000, None), None);
    assert_eq!(cache.len(), 1);
}

#[test]
fn failed_fetch_with_huge_ttl_is_accepted() {
    let cfg = parse_api_base_url("");
    let mut cache = ResponseCache::new();
    let job = match plan_fetch(&cfg, "/global", u64::MAX, &cache, u64::MAX) {
        FetchPlan::Fetch(job) => job,
        FetchPlan::Cached(_) => unreachable!(),
    };
    assert_eq!(finish_fetch(job, &mut cache, u64::MAX, None), None);
    assert_eq!(cache.len(), 0);
}

#[test]
fn fetch_without_ttl_or_answer_caches_nothing() {
    let cfg = parse_api_base_url("");
    let mut cache = ResponseCache::new();
    let job = match plan_fetch(&cfg, "/x", 0, &cache, 0) {
        FetchPlan::Fetch(job) => job,
        FetchPlan::Cached(_) => unreachable!(),
    };
    assert_eq!(finish_fetch(job, &mut cache, 0, Some(JsonValue::Null)), Some(JsonValue::Null));
    assert_eq!(cache.len(), 0);
    let job = match plan_fetch(&cfg, "/x", 30, &cache, 0) {
        FetchPlan::Fetch(job) => job,
        FetchPlan::Cached(_) => unreachable!(),
    };
    assert_eq!(finish_fetch(job, &mut cache, 0, None), None);
    assert_eq!(cache.len(), 0);
}

#[test]
fn status_success_is_2xx() {
    assert!(status_is_success(200));
    assert!(status_is_success(204));
    assert!(status_is_success(299));
    assert!(!status_is_success(199));
    assert!(!status_is_success(300));
    assert!(!status_is_success(404));
    assert!(!status_is_success(502));
}

#[test]
fn markets_request_defaults_and_values() {
    let req = markets_request(None, None, None);
    assert_eq!(
        req.path,
        "/coins/markets?vs_currency=usd&order=market_cap_desc&sparkline=false&price_change_percentage=24h&per_page=20&page=1"
    );
    assert_eq!(req.ttl_secs, 30);
    let req = markets_request(Some("eur"), Some("3"), Some("50"));
    assert_eq!(
        req.path,
        "/coins/markets?vs_currency=eur&order=market_cap_desc&sparkline=false&price_change_percentage=24h&per_page=50&page=3"
    );
}

#[test]
fn history_request_needs_coin_id() {
    match history_request(None, Some("30"), None) {
        Err(reply) => {
            assert_eq!(reply.status, 400);
            assert_eq!(reply.body, obj(vec![("error", JsonValue::Str("coin_id is required".to_string()))]));
        }
        Ok(_) => panic!("coin_id is required"),
    }
    let req = history_request(Some("bitcoin"), None, None).ok().expect("request");
    assert_eq!(req.path, "/coins/bitcoin/market_chart?vs_currency=usd&days=365&interval=daily");
    assert_eq!(req.ttl_secs, 300);
    let req = history_request(Some("eth"), Some("7"), Some("eur")).ok().expect("request");
    assert_eq!(req.path, "/coins/eth/market_chart?vs_currency=eur&days=7&interval=daily");
}

#[test]
fn proxy_replies() {
    let g = global_request();
    assert_eq!(g.path, "/global");
    let ok = upstream_reply(&g, Some(JsonValue::Int(1)));
    assert_eq!(ok.status, 200);
    assert_eq!(ok.body, JsonValue::Int(1));
    let t = trending_request();
    let failed = upstream_reply(&t, None);
    assert_eq!(failed.status, 502);
    assert_eq!(
        failed.body,
        obj(vec![("error", JsonValue::Str("Failed to fetch trending data".to_string()))])
    );
    let failed = upstream_reply(&g, None);
    assert_eq!(
        failed.body,
        obj(vec![("error", JsonValue::Str("Failed to fetch global market data".to_string()))])
    );
}

#[test]
fn health_is_ok_true() {
    assert_eq!(health_body(), obj(vec![("ok", JsonValue::Bool(true))]));
}

#[test]
fn static_assets_table() {
    assert_eq!(StaticAsset::Index.file_name(), "index.html");
    assert_eq!(StaticAsset::Index.cache_control(), "no-cache");
    assert_eq!(StaticAsset::Styles.content_type(), "text/css; charset=utf-8");
    assert_eq!(StaticAsset::Script.file_name(), "app.js");
    assert_eq!(StaticAsset::Script.cache_control(), "public, max-age=300");
}

#[test]
fn snapshot_write_steps() {
    let step = begin_snapshot_write(true);
    assert!(matches!(step, SnapshotWriteStep::CreateDir));
    let step = advance_snapshot_write(step, true);
    assert!(matches!(step, SnapshotWriteStep::Serialize));
    let step = advance_snapshot_write(step, true);
    assert!(matches!(step, SnapshotWriteStep::WriteTemp));
    let step = advance_snapshot_write(step, true);
    assert!(matches!(step, SnapshotWriteStep::Rename));
    let failed_rename = advance_snapshot_write(step, false);
    assert!(matches!(failed_rename, SnapshotWriteStep::RemoveOld));
    let retry = advance_snapshot_write(failed_rename, false);
    assert!(matches!(retry, SnapshotWriteStep::RetryRename));
    assert!(matches!(advance_snapshot_write(retry, true), SnapshotWriteStep::Done(true)));
    assert!(matches!(advance_snapshot_write(retry, false), SnapshotWriteStep::Done(false)));
    assert!(matches!(advance_snapshot_write(step, true), SnapshotWriteStep::Done(true)));
    assert!(matches!(begin_snapshot_write(false), SnapshotWriteStep::Serialize));
    assert!(matches!(
        advance_snapshot_write(SnapshotWriteStep::WriteTemp, false),
        SnapshotWriteStep::Done(false)
    ));
}
