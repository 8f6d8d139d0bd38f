use crypto_dashboard::bootstrap::{
    bootstrap_begin, bootstrap_requests, bootstrap_step, is_valid_bootstrap_payload,
    live_bootstrap_payload, mark_snapshot, mark_snapshot_fallback, parse_refresh_flag,
    BootstrapAction, BootstrapEvent, BootstrapStage,
};
use crypto_dashboard::json::{JsonMember, JsonValue};

fn obj(members: Vec<(&str, JsonValue)>) -> JsonValue {
    JsonValue::Object(
        members
            .into_iter()
            .map(|(k, v)| JsonMember { key: k.to_string(), value: v })
            .collect(),
    )
}

fn text(s: &str) -> JsonValue {
    JsonValue::Str(s.to_string())
}

fn full_payload() -> JsonValue {
    obj(vec![
        ("global", obj(vec![("data", obj(vec![]))])),
        ("trending", obj(vec![("coins", JsonValue::Array(vec![]))])),
        ("markets", JsonValue::Array(vec![])),
    ])
}

#[test]
fn bootstrap_payload_validation_requires_all_sections() {
    let missing_all = obj(vec![]);
    assert!(!is_valid_bootstrap_payload(&missing_all));

    let only_global = obj(vec![("global", obj(vec![]))]);
    assert!(!is_valid_bootstrap_payload(&only_global));

    let missing_markets = obj(vec![("global", obj(vec![])), ("trending", obj(vec![]))]);
    assert!(!is_valid_bootstrap_payload(&missing_markets));

    let full_payload = obj(vec![
        ("global", obj(vec![("data", obj(vec![]))])),
        ("trending", obj(vec![("coins", JsonValue::Array(vec![]))])),
        ("markets", JsonValue::Array(vec![])),
    ]);
    assert!(is_valid_bootstrap_payload(&full_payload));
}

#[test]
fn non_objects_are_not_bootstrap_payloads() {
    assert!(!is_valid_bootstrap_payload(&JsonValue::Null));
    assert!(!is_valid_bootstrap_payload(&JsonValue::Array(vec![full_payload()])));
    assert!(!is_valid_bootstrap_payload(&text("global")));
}

#[test]
fn refresh_flag_accepts_one_and_true() {
    assert!(parse_refresh_flag(Some("1")));
    assert!(parse_refresh_flag(Some("true")));
    assert!(parse_refresh_flag(Some("TRUE")));
    assert!(parse_refresh_flag(Some("tRuE")));
    assert!(!parse_refresh_flag(Some("yes")));
    assert!(!parse_refresh_flag(Some("0")));
    assert!(!parse_refresh_flag(Some("")));
    assert!(!parse_refresh_flag(Some("true ")));
    assert!(!parse_refresh_flag(Some("11")));
    assert!(!parse_refresh_flag(None));
}

#[test]
fn snapshot_stamp_adds_meta() {
    let stamped = mark_snapshot(full_payload(), 1234);
    assert!(is_valid_bootstrap_payload(&stamped));
    let meta = stamped.get("meta").expect("meta");
    assert_eq!(meta.get("source"), Some(&text("snapshot")));
    assert_eq!(meta.get("served_at_epoch_ms"), Some(&JsonValue::Int(1234)));
    assert_eq!(meta.get("warning"), None);
}

#[test]
fn snapshot_stamp_keeps_existing_meta_members() {
    let mut members = match full_payload() {
        JsonValue::Object(m) => m,
        _ => unreachable!(),
    };
    members.push(JsonMember {
        key: "meta".to_string(),
        value: obj(vec![("source", text("live")), ("updated_at_epoch_ms", JsonValue::Int(7))]),
    });
    let stamped = mark_snapshot_fallback(JsonValue::Object(members), 99);
    let meta = stamped.get("meta").expect("meta");
    assert_eq!(meta.get("source"), Some(&text("snapshot-fallback")));
    assert_eq!(meta.get("updated_at_epoch_ms"), Some(&JsonValue::Int(7)));
    assert_eq!(meta.get("served_at_epoch_ms"), Some(&JsonValue::Int(99)));
    assert_eq!(meta.get("warning"), Some(&text("live-refresh-failed")));
}

#[test]
fn snapshot_stamp_replaces_non_object_meta() {
    let mut members = match full_payload() {
        JsonValue::Object(m) => m,
        _ => unreachable!(),
    };
    members.push(JsonMember { key: "meta".to_string(), value: text("old") });
    let stamped = mark_snapshot(JsonValue::Object(members), 5);
    let meta = stamped.get("meta").expect("meta");
    assert_eq!(
        meta,
        &obj(vec![("source", text("snapshot")), ("served_at_epoch_ms", JsonValue::Int(5))])
    );
}

#[test]
fn live_payload_needs_all_three_answers() {
    assert!(live_bootstrap_payload(Some(obj(vec![])), None, Some(obj(vec![])), 1).is_none());
    let doc = live_bootstrap_payload(
        Some(obj(vec![("a", JsonValue::Int(1))])),
        Some(obj(vec![])),
        Some(JsonValue::Array(vec![])),
        42,
    )
    .expect("all answers");
    assert!(is_valid_bootstrap_payload(&doc));
    assert_eq!(doc.get("global"), Some(&obj(vec![("a", JsonValue::Int(1))])));
    assert_eq!(
        doc.get("meta"),
        Some(&obj(vec![("source", text("live")), ("updated_at_epoch_ms", JsonValue::Int(42))]))
    );
}

#[test]
fn bootstrap_requests_use_the_endpoint_paths() {
    let (g, t, m) = bootstrap_requests();
    assert_eq!(g.path, "/global");
    assert_eq!(g.ttl_secs, 60);
    assert_eq!(t.path, "/search/trending");
    assert_eq!(t.ttl_secs, 60);
    assert_eq!(
        m.path,
        "/coins/markets?vs_currency=usd&order=market_cap_desc&sparkline=false&price_change_percentage=24h&per_page=20&page=1"
    );
    assert_eq!(m.ttl_secs, 30);
}

#[test]
fn bootstrap_serves_valid_snapshot_first() {
    let (stage, action) = bootstrap_begin(None);
    assert!(matches!(stage, BootstrapStage::ReadingSnapshot));
    assert!(matches!(action, BootstrapAction::ReadSnapshot));
    let (stage, action) = bootstrap_step(
        stage,
        BootstrapEvent::SnapshotLoaded { snapshot: Some(full_payload()), now_ms: 10 },
    );
    assert!(matches!(stage, BootstrapStage::Finished));
    match action {
        BootstrapAction::Reply(reply) => {
            assert_eq!(reply.status, 200);
            assert!(reply.no_cache);
            let meta = reply.body.get("meta").expect("meta");
            assert_eq!(meta.get("source"), Some(&text("snapshot")));
        }
        _ => panic!("expected a reply"),
    }
}

#[test]
fn bootstrap_refresh_goes_live_and_persists() {
    let (stage, action) = bootstrap_begin(Some("true"));
    assert!(matches!(stage, BootstrapStage::FetchingLive));
    assert!(matches!(action, BootstrapAction::FetchLive));
    let (stage, action) = bootstrap_step(
        stage,
        BootstrapEvent::LiveFetched {
            global: Some(obj(vec![])),
            trending: Some(obj(vec![])),
            markets: Some(JsonValue::Array(vec![])),
            now_ms: 77,
        },
    );
    assert!(matches!(stage, BootstrapStage::Finished));
    match action {
        BootstrapAction::PersistAndReply(reply) => {
            assert_eq!(reply.status, 200);
            assert!(reply.no_cache);
            assert!(is_valid_bootstrap_payload(&reply.body));
        }
        _ => panic!("expected persist and reply"),
    }
}

#[test]
fn bootstrap_falls_back_then_fails() {
    let (stage, _) = bootstrap_begin(None);
    let (stage, action) = bootstrap_step(
        stage,
        BootstrapEvent::SnapshotLoaded { snapshot: Some(obj(vec![("global", obj(vec![]))])), now_ms: 1 },
    );
    assert!(matches!(stage, BootstrapStage::FetchingLive));
    assert!(matches!(action, BootstrapAction::FetchLive));
    let (stage, action) = bootstrap_step(
        stage,
        BootstrapEvent::LiveFetched { global: None, trending: None, markets: None, now_ms: 2 },
    );
    assert!(matches!(stage, BootstrapStage::ReadingFallback));
    assert!(matches!(action, BootstrapAction::ReadSnapshot));
    let (stage, action) =
        bootstrap_step(stage, BootstrapEvent::SnapshotLoaded { snapshot: None, now_ms: 3 });
    assert!(matches!(stage, BootstrapStage::Finished));
    match action {
        BootstrapAction::Reply(reply) => {
            assert_eq!(reply.status, 502);
            assert!(!reply.no_cache);
            assert_eq!(
                reply.body,
                obj(vec![("error", text("Failed to fetch bootstrap market data"))])
            );
        }
        _ => panic!("expected a reply"),
    }
}

#[test]
fn bootstrap_fallback_serves_snapshot_with_warning() {
    let (stage, _) = bootstrap_step(
        BootstrapStage::FetchingLive,
        BootstrapEvent::LiveFetched {
            global: Some(obj(vec![])),
            trending: None,
            markets: Some(obj(vec![])),
            now_ms: 2,
        },
    );
    assert!(matches!(stage, BootstrapStage::ReadingFallback));
    let (stage, action) = bootstrap_step(
        stage,
        BootstrapEvent::SnapshotLoaded { snapshot: Some(full_payload()), now_ms: 3 },
    );
    assert!(matches!(stage, BootstrapStage::Finished));
    match action {
        BootstrapAction::Reply(reply) => {
            assert_eq!(reply.status, 200);
            let meta = reply.body.get("meta").expect("meta");
            assert_eq!(meta.get("source"), Some(&text("snapshot-fallback")));
            assert_eq!(meta.get("warning"), Some(&text("live-refresh-failed")));
            assert_eq!(meta.get("served_at_epoch_ms"), Some(&JsonValue::Int(3)));
        }
        _ => panic!("expected a reply"),
    }
}
