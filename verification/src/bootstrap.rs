//! The bootstrap endpoint: one document with the global overview, the
//! trending coins and the market list, served from a snapshot on disk or
//! fetched live, and the snapshot kept up to date.
use vstd::prelude::*;
use vstd::string::*;

use crate::json::{law_member_read_after_write, lemma_members_view, members_view, JsonMember, JsonValue, JsonView};
use crate::routes::{error_body, error_document, markets_path, opt_view, JsonReply, UpstreamRequest};
use crate::text::{eq_ignore_ascii_case, eq_ignore_ascii_case_str, eq_str};

verus! {

/// The document holds the three sections `global`, `trending` and `markets`.
pub open spec fn has_sections(doc: JsonView) -> bool {
    &&& doc.get("global"@) is Some
    &&& doc.get("trending"@) is Some
    &&& doc.get("markets"@) is Some
}

/// Whether a document can serve as the bootstrap answer: it has all three sections.
pub fn is_valid_bootstrap_payload(payload: &JsonValue) -> (valid: bool)
    ensures
        valid == has_sections(payload@),
        valid == (payload@.get("global"@) is Some && payload@.get("trending"@) is Some
            && payload@.get("markets"@) is Some),
{
    payload.has_member("global") && payload.has_member("trending") && payload.has_member("markets")
}

/// Whether the `refresh` parameter asks for live data: `1`, or `true` in any
/// ASCII case.
pub open spec fn refresh_requested(value: Option<Seq<char>>) -> bool {
    match value {
        Some(v) => v == "1"@ || eq_ignore_ascii_case(v, "true"@),
        None => false,
    }
}

/// Reads the `refresh` parameter.
pub fn parse_refresh_flag(value: Option<&str>) -> (refresh: bool)
    ensures
        refresh == refresh_requested(opt_view(value)),
{
    match value {
        Some(v) => eq_str(v, "1") || eq_ignore_ascii_case_str(v, "true"),
        None => false,
    }
}

/// The `meta` member after stamping: the document's own `meta` when that is an
/// object, else an empty object, with `source`, `served_at_epoch_ms` and, when
/// given, `warning` set.
pub open spec fn stamped_meta(
    doc: JsonView,
    source: Seq<char>,
    served_at_ms: i64,
    warning: Option<Seq<char>>,
) -> JsonView {
    let base = match doc.get("meta"@) {
        Some(m) => if m is Object {
            m
        } else {
            JsonView::Object(Seq::empty())
        },
        None => JsonView::Object(Seq::empty()),
    };
    let with_time = base.with_member("source"@, JsonView::Str(source)).with_member(
        "served_at_epoch_ms"@,
        JsonView::Int(served_at_ms),
    );
    match warning {
        Some(w) => with_time.with_member("warning"@, JsonView::Str(w)),
        None => with_time,
    }
}

/// The document with its `meta` member stamped.
pub open spec fn stamp(
    doc: JsonView,
    source: Seq<char>,
    served_at_ms: i64,
    warning: Option<Seq<char>>,
) -> JsonView {
    doc.with_member("meta"@, stamped_meta(doc, source, served_at_ms, warning))
}

fn stamp_meta(payload: JsonValue, source: &str, served_at_ms: i64, warning: Option<&str>) -> (r:
    JsonValue)
    requires
        payload@ is Object,
    ensures
        r@ == stamp(payload@, source@, served_at_ms, opt_view(warning)),
{
    let base = match payload.get("meta") {
        Some(m) => if m.is_object() {
            m.duplicate()
        } else {
            JsonValue::empty_object()
        },
        None => JsonValue::empty_object(),
    };
    let meta = base.with_member("source", JsonValue::text(source));
    let meta = meta.with_member("served_at_epoch_ms", JsonValue::Int(served_at_ms));
    let meta = match warning {
        Some(w) => meta.with_member("warning", JsonValue::text(w)),
        None => meta,
    };
    payload.with_member("meta", meta)
}

/// A snapshot served as it is stored: `meta.source` is `snapshot`.
pub fn mark_snapshot(payload: JsonValue, served_at_ms: i64) -> (r: JsonValue)
    requires
        payload@ is Object,
    ensures
        r@ == stamp(payload@, "snapshot"@, served_at_ms, None),
{
    stamp_meta(payload, "snapshot", served_at_ms, None)
}

/// A snapshot served because the live refresh failed: `meta.source` is
/// `snapshot-fallback` and `meta.warning` is `live-refresh-failed`.
pub fn mark_snapshot_fallback(payload: JsonValue, served_at_ms: i64) -> (r: JsonValue)
    requires
        payload@ is Object,
    ensures
        r@ == stamp(payload@, "snapshot-fallback"@, served_at_ms, Some("live-refresh-failed"@)),
{
    stamp_meta(payload, "snapshot-fallback", served_at_ms, Some("live-refresh-failed"))
}

/// The live bootstrap document.
pub open spec fn live_payload(
    global: JsonView,
    trending: JsonView,
    markets: JsonView,
    updated_at_ms: i64,
) -> JsonView {
    JsonView::Object(
        seq![
            ("global"@, global),
            ("trending"@, trending),
            ("markets"@, markets),
            (
                "meta"@,
                JsonView::Object(
                    seq![
                        ("source"@, JsonView::Str("live"@)),
                        ("updated_at_epoch_ms"@, JsonView::Int(updated_at_ms)),
                    ],
                ),
            ),
        ],
    )
}

/// The live bootstrap document from the three upstream answers, when all
/// three came back.
pub fn live_bootstrap_payload(
    global: Option<JsonValue>,
    trending: Option<JsonValue>,
    markets: Option<JsonValue>,
    updated_at_ms: i64,
) -> (doc: Option<JsonValue>)
    ensures
        match (global, trending, markets) {
            (Some(g), Some(t), Some(m)) => doc matches Some(d) && d@ == live_payload(
                g@,
                t@,
                m@,
                updated_at_ms,
            ),
            _ => doc is None,
        },
{
    match (global, trending, markets) {
        (Some(g), Some(t), Some(m)) => {
            let ghost (gv, tv, mv) = (g@, t@, m@);
            let mut meta_members: Vec<JsonMember> = Vec::new();
            meta_members.push(
                JsonMember { key: String::from_str("source"), value: JsonValue::text("live") },
            );
            meta_members.push(
                JsonMember {
                    key: String::from_str("updated_at_epoch_ms"),
                    value: JsonValue::Int(updated_at_ms),
                },
            );
            proof {
                lemma_members_view(meta_members@);
                assert(members_view(meta_members@) =~= seq![
                    ("source"@, JsonView::Str("live"@)),
                    ("updated_at_epoch_ms"@, JsonView::Int(updated_at_ms)),
                ]);
            }
            let meta = JsonValue::Object(meta_members);
            let ghost metav = meta@;
            let mut members: Vec<JsonMember> = Vec::new();
            members.push(JsonMember { key: String::from_str("global"), value: g });
            members.push(JsonMember { key: String::from_str("trending"), value: t });
            members.push(JsonMember { key: String::from_str("markets"), value: m });
            members.push(JsonMember { key: String::from_str("meta"), value: meta });
            proof {
                lemma_members_view(members@);
                assert(members_view(members@) =~= seq![
                    ("global"@, gv),
                    ("trending"@, tv),
                    ("markets"@, mv),
                    ("meta"@, metav),
                ]);
            }
            Some(JsonValue::Object(members))
        },
        _ => None,
    }
}

/// The three upstream requests of a live bootstrap: the global overview and
/// the trending coins (each cached for a minute) and the first 20 coins by
/// market cap in US dollars (cached for 30 seconds).
pub fn bootstrap_requests() -> (reqs: (UpstreamRequest, UpstreamRequest, UpstreamRequest))
    ensures
        reqs.0.path@ == "/global"@ && reqs.0.ttl_secs == 60,
        reqs.1.path@ == "/search/trending"@ && reqs.1.ttl_secs == 60,
        reqs.2.path@ == markets_path("usd"@, "20"@, "1"@) && reqs.2.ttl_secs == 30,
        reqs.0.failure_message@ == "Failed to fetch global market data"@,
        reqs.1.failure_message@ == "Failed to fetch trending data"@,
        reqs.2.failure_message@ == "Failed to fetch market list"@,
{
    (
        crate::routes::global_request(),
        crate::routes::trending_request(),
        crate::routes::markets_request(None, None, None),
    )
}

/// Where a bootstrap request stands.
#[derive(Clone, Copy, Debug)]
pub enum BootstrapStage {
    /// The stored snapshot is being read.
    ReadingSnapshot,
    /// The three sections are being fetched upstream.
    FetchingLive,
    /// The live fetch failed; the stored snapshot is read as a fallback.
    ReadingFallback,
    /// The answer is given.
    Finished,
}

/// What the outside world reports back to a bootstrap request.
pub enum BootstrapEvent {
    /// The snapshot file was read (`None` when it is missing or not JSON), at
    /// the given time since the Unix epoch.
    SnapshotLoaded { snapshot: Option<JsonValue>, now_ms: i64 },
    /// The three upstream answers came back (each `None` when it failed), at
    /// the given time since the Unix epoch.
    LiveFetched {
        global: Option<JsonValue>,
        trending: Option<JsonValue>,
        markets: Option<JsonValue>,
        now_ms: i64,
    },
}

/// What a bootstrap request asks the outside world to do next.
pub enum BootstrapAction {
    /// Read the snapshot file.
    ReadSnapshot,
    /// Fetch the three sections upstream.
    FetchLive,
    /// Store the answer's body as the new snapshot (whatever comes of it),
    /// then give the answer.
    PersistAndReply(JsonReply),
    /// Give this answer.
    Reply(JsonReply),
}

/// The mathematical value of a [`BootstrapEvent`].
pub enum BootstrapEventView {
    SnapshotLoaded { snapshot: Option<JsonView>, now_ms: i64 },
    LiveFetched {
        global: Option<JsonView>,
        trending: Option<JsonView>,
        markets: Option<JsonView>,
        now_ms: i64,
    },
}

/// The mathematical value of a [`BootstrapAction`].
pub enum BootstrapActionView {
    ReadSnapshot,
    FetchLive,
    PersistAndReply { status: u16, body: JsonView, no_cache: bool },
    Reply { status: u16, body: JsonView, no_cache: bool },
}

/// The view of an optional document.
pub open spec fn doc_view(doc: Option<JsonValue>) -> Option<JsonView> {
    match doc {
        Some(d) => Some(d@),
        None => None,
    }
}

impl View for BootstrapEvent {
    type V = BootstrapEventView;

    open spec fn view(&self) -> BootstrapEventView {
        match self {
            BootstrapEvent::SnapshotLoaded { snapshot, now_ms } => BootstrapEventView::SnapshotLoaded {
                snapshot: doc_view(*snapshot),
                now_ms: *now_ms,
            },
            BootstrapEvent::LiveFetched { global, trending, markets, now_ms } =>
                BootstrapEventView::LiveFetched {
                global: doc_view(*global),
                trending: doc_view(*trending),
                markets: doc_view(*markets),
                now_ms: *now_ms,
            },
        }
    }
}

impl View for BootstrapAction {
    type V = BootstrapActionView;

    open spec fn view(&self) -> BootstrapActionView {
        match self {
            BootstrapAction::ReadSnapshot => BootstrapActionView::ReadSnapshot,
            BootstrapAction::FetchLive => BootstrapActionView::FetchLive,
            BootstrapAction::PersistAndReply(r) => BootstrapActionView::PersistAndReply {
                status: r.status,
                body: r.body@,
                no_cache: r.no_cache,
            },
            BootstrapAction::Reply(r) => BootstrapActionView::Reply {
                status: r.status,
                body: r.body@,
                no_cache: r.no_cache,
            },
        }
    }
}

/// Whether the event is one that the stage waits for.
pub open spec fn event_fits(stage: BootstrapStage, event: BootstrapEventView) -> bool {
    match stage {
        BootstrapStage::ReadingSnapshot => event is SnapshotLoaded,
        BootstrapStage::ReadingFallback => event is SnapshotLoaded,
        BootstrapStage::FetchingLive => event is LiveFetched,
        BootstrapStage::Finished => false,
    }
}

/// The first step of a bootstrap request: live data when the `refresh`
/// parameter asks for it, else the stored snapshot.
pub open spec fn bootstrap_first(refresh: bool) -> (BootstrapStage, BootstrapActionView) {
    if refresh {
        (BootstrapStage::FetchingLive, BootstrapActionView::FetchLive)
    } else {
        (BootstrapStage::ReadingSnapshot, BootstrapActionView::ReadSnapshot)
    }
}

/// The message of a bootstrap request that found neither live data nor a snapshot.
pub open spec fn bootstrap_failure_message() -> Seq<char> {
    "Failed to fetch bootstrap market data"@
}

/// How a bootstrap request moves on when an event comes in.
///  - A snapshot with all sections is answered with 200, stamped `snapshot`
///    (or `snapshot-fallback` with a warning when it is the fallback);
///    otherwise the request goes live (or, for the fallback, fails with 502).
///  - Live data with all three answers is stored and answered with 200, not
///    to be cached; otherwise the snapshot is read as a fallback.
pub open spec fn bootstrap_next(stage: BootstrapStage, event: BootstrapEventView) -> (
    BootstrapStage,
    BootstrapActionView,
) {
    match event {
        BootstrapEventView::SnapshotLoaded { snapshot, now_ms } => {
            let usable = snapshot is Some && has_sections(snapshot->0);
            match stage {
                BootstrapStage::ReadingSnapshot => if usable {
                    (
                        BootstrapStage::Finished,
                        BootstrapActionView::Reply {
                            status: 200,
                            body: stamp(snapshot->0, "snapshot"@, now_ms, None),
                            no_cache: true,
                        },
                    )
                } else {
                    (BootstrapStage::FetchingLive, BootstrapActionView::FetchLive)
                },
                _ => if usable {
                    (
                        BootstrapStage::Finished,
                        BootstrapActionView::Reply {
                            status: 200,
                            body: stamp(
                                snapshot->0,
                                "snapshot-fallback"@,
                                now_ms,
                                Some("live-refresh-failed"@),
                            ),
                            no_cache: true,
                        },
                    )
                } else {
                    (
                        BootstrapStage::Finished,
                        BootstrapActionView::Reply {
                            status: 502,
                            body: error_body(bootstrap_failure_message()),
                            no_cache: false,
                        },
                    )
                },
            }
        },
        BootstrapEventView::LiveFetched { global, trending, markets, now_ms } => {
            if global is Some && trending is Some && markets is Some {
                (
                    BootstrapStage::Finished,
                    BootstrapActionView::PersistAndReply {
                        status: 200,
                        body: live_payload(global->0, trending->0, markets->0, now_ms),
                        no_cache: true,
                    },
                )
            } else {
                (BootstrapStage::ReadingFallback, BootstrapActionView::ReadSnapshot)
            }
        },
    }
}

/// Starts a bootstrap request from its `refresh` parameter.
pub fn bootstrap_begin(refresh_param: Option<&str>) -> (r: (BootstrapStage, BootstrapAction))
    ensures
        (r.0, r.1@) == bootstrap_first(refresh_requested(opt_view(refresh_param))),
{
    if parse_refresh_flag(refresh_param) {
        (BootstrapStage::FetchingLive, BootstrapAction::FetchLive)
    } else {
        (BootstrapStage::ReadingSnapshot, BootstrapAction::ReadSnapshot)
    }
}

/// Moves a bootstrap request on with the event that came in.
pub fn bootstrap_step(stage: BootstrapStage, event: BootstrapEvent) -> (r: (
    BootstrapStage,
    BootstrapAction,
))
    requires
        event_fits(stage, event@),
    ensures
        (r.0, r.1@) == bootstrap_next(stage, event@),
{
    match event {
        BootstrapEvent::SnapshotLoaded { snapshot, now_ms } => {
            let fallback = match stage {
                BootstrapStage::ReadingSnapshot => false,
                _ => true,
            };
            match snapshot {
                Some(doc) => {
                    if is_valid_bootstrap_payload(&doc) {
                        let body = if fallback {
                            mark_snapshot_fallback(doc, now_ms)
                        } else {
                            mark_snapshot(doc, now_ms)
                        };
                        return (
                            BootstrapStage::Finished,
                            BootstrapAction::Reply(JsonReply { status: 200, body, no_cache: true }),
                        );
                    }
                },
                None => {},
            }
            if fallback {
                (
                    BootstrapStage::Finished,
                    BootstrapAction::Reply(
                        JsonReply {
                            status: 502,
                            body: error_document("Failed to fetch bootstrap market data"),
                            no_cache: false,
                        },
                    ),
                )
            } else {
                (BootstrapStage::FetchingLive, BootstrapAction::FetchLive)
            }
        },
        BootstrapEvent::LiveFetched { global, trending, markets, now_ms } => {
            match live_bootstrap_payload(global, trending, markets, now_ms) {
                Some(doc) => (
                    BootstrapStage::Finished,
                    BootstrapAction::PersistAndReply(
                        JsonReply { status: 200, body: doc, no_cache: true },
                    ),
                ),
                None => (BootstrapStage::ReadingFallback, BootstrapAction::ReadSnapshot),
            }
        },
    }
}

/// Stamping `meta` keeps the three sections and records the source, the time
/// and the warning in `meta`.
pub proof fn law_stamp_keeps_sections(
    doc: JsonView,
    source: Seq<char>,
    served_at_ms: i64,
    warning: Option<Seq<char>>,
)
    requires
        doc is Object,
    ensures
        has_sections(doc) ==> has_sections(stamp(doc, source, served_at_ms, warning)),
        stamp(doc, source, served_at_ms, warning).get("meta"@) == Some(
            stamped_meta(doc, source, served_at_ms, warning),
        ),
        stamped_meta(doc, source, served_at_ms, warning).get("source"@) == Some(
            JsonView::Str(source),
        ),
        stamped_meta(doc, source, served_at_ms, warning).get("served_at_epoch_ms"@) == Some(
            JsonView::Int(served_at_ms),
        ),
        match warning {
            Some(w) => stamped_meta(doc, source, served_at_ms, warning).get("warning"@) == Some(
                JsonView::Str(w),
            ),
            None => true,
        },
{
    reveal_strlit("meta");
    reveal_strlit("global");
    reveal_strlit("trending");
    reveal_strlit("markets");
    reveal_strlit("source");
    reveal_strlit("served_at_epoch_ms");
    reveal_strlit("warning");
    assert("meta"@.len() != "global"@.len());
    assert("meta"@.len() != "trending"@.len());
    assert("meta"@.len() != "markets"@.len());
    assert("source"@.len() != "served_at_epoch_ms"@.len());
    assert("source"@.len() != "warning"@.len());
    assert("warning"@.len() != "served_at_epoch_ms"@.len());
    let meta = stamped_meta(doc, source, served_at_ms, warning);
    law_member_read_after_write(doc, "meta"@, meta, "global"@);
    law_member_read_after_write(doc, "meta"@, meta, "trending"@);
    law_member_read_after_write(doc, "meta"@, meta, "markets"@);
    let base = match doc.get("meta"@) {
        Some(m) => if m is Object {
            m
        } else {
            JsonView::Object(Seq::empty())
        },
        None => JsonView::Object(Seq::empty()),
    };
    let with_source = base.with_member("source"@, JsonView::Str(source));
    law_member_read_after_write(base, "source"@, JsonView::Str(source), "served_at_epoch_ms"@);
    let with_time = with_source.with_member("served_at_epoch_ms"@, JsonView::Int(served_at_ms));
    law_member_read_after_write(
        with_source,
        "served_at_epoch_ms"@,
        JsonView::Int(served_at_ms),
        "source"@,
    );
    match warning {
        Some(w) => {
            law_member_read_after_write(with_time, "warning"@, JsonView::Str(w), "source"@);
            law_member_read_after_write(
                with_time,
                "warning"@,
                JsonView::Str(w),
                "served_at_epoch_ms"@,
            );
        },
        None => {},
    }
}

/// The live document has the three sections and is marked `live`.
pub proof fn law_live_payload_has_sections(
    global: JsonView,
    trending: JsonView,
    markets: JsonView,
    updated_at_ms: i64,
)
    ensures
        has_sections(live_payload(global, trending, markets, updated_at_ms)),
        live_payload(global, trending, markets, updated_at_ms).get("global"@) == Some(global),
        live_payload(global, trending, markets, updated_at_ms).get("trending"@) == Some(trending),
        live_payload(global, trending, markets, updated_at_ms).get("markets"@) == Some(markets),
{
    reveal_strlit("global");
    reveal_strlit("trending");
    reveal_strlit("markets");
    let members = live_payload(global, trending, markets, updated_at_ms)->Object_0;
    assert("global"@.len() != "trending"@.len());
    assert("global"@.len() != "markets"@.len());
    assert("trending"@.len() != "markets"@.len());
    crate::json::lemma_key_position_is(members, "global"@, 0);
    crate::json::lemma_key_position_is(members, "trending"@, 1);
    crate::json::lemma_key_position_is(members, "markets"@, 2);
}

/// Every 200 answer of the bootstrap endpoint, and every document it stores
/// as the snapshot, has the three sections.
pub proof fn law_bootstrap_success_has_sections(stage: BootstrapStage, event: BootstrapEventView)
    requires
        event_fits(stage, event),
    ensures
        match bootstrap_next(stage, event).1 {
            BootstrapActionView::Reply { status, body, no_cache } => status == 200 ==> has_sections(
                body,
            ),
            BootstrapActionView::PersistAndReply { status, body, no_cache } => has_sections(body),
            _ => true,
        },
{
    match event {
        BootstrapEventView::SnapshotLoaded { snapshot, now_ms } => {
            if snapshot is Some && has_sections(snapshot->0) {
                law_stamp_keeps_sections(snapshot->0, "snapshot"@, now_ms, None);
                law_stamp_keeps_sections(
                    snapshot->0,
                    "snapshot-fallback"@,
                    now_ms,
                    Some("live-refresh-failed"@),
                );
            }
        },
        BootstrapEventView::LiveFetched { global, trending, markets, now_ms } => {
            if global is Some && trending is Some && markets is Some {
                law_live_payload_has_sections(global->0, trending->0, markets->0, now_ms);
            }
        },
    }
}

/// The order of the stages.
pub open spec fn stage_rank(stage: BootstrapStage) -> int {
    match stage {
        BootstrapStage::ReadingSnapshot => 0,
        BootstrapStage::FetchingLive => 1,
        BootstrapStage::ReadingFallback => 2,
        BootstrapStage::Finished => 3,
    }
}

/// Every step moves a bootstrap request to a later stage, and it is finished
/// exactly when the step gives its answer; so every request is answered after
/// at most three events.
pub proof fn law_bootstrap_always_answers(stage: BootstrapStage, event: BootstrapEventView)
    requires
        event_fits(stage, event),
    ensures
        stage_rank(bootstrap_next(stage, event).0) > stage_rank(stage),
        (bootstrap_next(stage, event).0 is Finished) <==> (bootstrap_next(stage, event).1 is Reply
            || bootstrap_next(stage, event).1 is PersistAndReply),
{
}

/// A bootstrap document needs each of its three sections: it has them exactly
/// when `global`, `trending` and `markets` are all members.
pub proof fn law_each_section_is_required(doc: JsonView)
    ensures
        has_sections(doc) <==> (doc.get("global"@) is Some && doc.get("trending"@) is Some
            && doc.get("markets"@) is Some),
        doc.get("trending"@) is None ==> !has_sections(doc),
        doc.get("global"@) is None ==> !has_sections(doc),
        doc.get("markets"@) is None ==> !has_sections(doc),
{
}

/// While the stored snapshot is read first, a snapshot that is missing or
/// lacks a section never produces an answer: the request goes live. An error
/// answer (502) comes only from the fallback read.
pub proof fn law_unusable_snapshot_goes_live(
    snapshot: Option<JsonView>,
    now_ms: i64,
    stage: BootstrapStage,
    event: BootstrapEventView,
)
    ensures
        bootstrap_next(
            BootstrapStage::ReadingSnapshot,
            BootstrapEventView::SnapshotLoaded { snapshot: None, now_ms },
        ) == (BootstrapStage::FetchingLive, BootstrapActionView::FetchLive),
        (snapshot matches Some(s) && (s.get("global"@) is None || s.get("trending"@) is None
            || s.get("markets"@) is None)) ==> bootstrap_next(
            BootstrapStage::ReadingSnapshot,
            BootstrapEventView::SnapshotLoaded { snapshot, now_ms },
        ) == (BootstrapStage::FetchingLive, BootstrapActionView::FetchLive),
        event_fits(stage, event) && (bootstrap_next(stage, event).1 matches BootstrapActionView::Reply {
            status,
            ..
        } && status == 502) ==> stage is ReadingFallback,
{
}

/// Stamping a served snapshot changes only `meta`: every other top-level
/// member stays; every member of an object `meta` other than `source`,
/// `served_at_epoch_ms` and `warning` stays; a `meta` that is not an object is
/// replaced by one that has only the stamped members.
pub proof fn law_stamp_changes_only_meta(
    doc: JsonView,
    source: Seq<char>,
    served_at_ms: i64,
    warning: Option<Seq<char>>,
    key: Seq<char>,
)
    requires
        doc is Object,
    ensures
        key != "meta"@ ==> stamp(doc, source, served_at_ms, warning).get(key) == doc.get(key),
        key != "source"@ && key != "served_at_epoch_ms"@ && key != "warning"@ ==> match doc.get(
            "meta"@,
        ) {
            Some(m) => if m is Object {
                stamp(doc, source, served_at_ms, warning).get("meta"@) matches Some(nm) && nm.get(
                    key,
                ) == m.get(key)
            } else {
                stamp(doc, source, served_at_ms, warning).get("meta"@) matches Some(nm) && nm.get(
                    key,
                ) is None
            },
            None => stamp(doc, source, served_at_ms, warning).get("meta"@) matches Some(nm)
                && nm.get(key) is None,
        },
{
    law_stamp_keeps_sections(doc, source, served_at_ms, warning);
    let meta = stamped_meta(doc, source, served_at_ms, warning);
    law_member_read_after_write(doc, "meta"@, meta, key);
    if key != "source"@ && key != "served_at_epoch_ms"@ && key != "warning"@ {
        let base = match doc.get("meta"@) {
            Some(m) => if m is Object {
                m
            } else {
                JsonView::Object(Seq::empty())
            },
            None => JsonView::Object(Seq::empty()),
        };
        let with_source = base.with_member("source"@, JsonView::Str(source));
        law_member_read_after_write(base, "source"@, JsonView::Str(source), key);
        let with_time = with_source.with_member(
            "served_at_epoch_ms"@,
            JsonView::Int(served_at_ms),
        );
        law_member_read_after_write(
            with_source,
            "served_at_epoch_ms"@,
            JsonView::Int(served_at_ms),
            key,
        );
        match warning {
            Some(w) => {
                law_member_read_after_write(with_time, "warning"@, JsonView::Str(w), key);
            },
            None => {},
        }
        assert(crate::json::key_position(Seq::<(Seq<char>, JsonView)>::empty(), key) is None);
    }
}

} // verus!
