use cc_switch::binary64::Binary64;
use cc_switch::cursor_events::{
    event_cost_usd, json_i64, json_number_i64, json_string, json_u32, parse_auto_bucket_models,
    parse_event, parse_events_page, parse_numeric_cost, stated_costs, stated_costs_of_page, Cents,
    CursorUsageEvent, EventCosts, NumericCost, StatedCosts, UsageEventsPage,
};
use cc_switch::cursor_models::{
    is_first_party_model, is_internal_cursor_traffic, looks_like_first_party_family, model_family,
    pool_provider_id, PROVIDER_FIRST_PARTY, PROVIDER_THIRD_PARTY,
};
use cc_switch::cursor_sync::{
    billing_cycle_start, cursor_log_row, dashboard_post, dashboard_request, database_failure,
    fetch_page, insert_events, load_watermark, malformed_reply, now_ms, require_token,
    reset_inflated_cursor_usage, store_watermark, sync_cursor_usage, DashboardReply, DatabaseStep,
    ReplyBody, SyncAction, SyncEvent, SyncState,
};
use cc_switch::error::AppError;
use cc_switch::json::JsonValue;
use cc_switch::str_map::StrMap;

const SEMANTICS: i64 = 2;

fn own(value: &serde_json::Value) -> JsonValue {
    match value {
        serde_json::Value::Null => JsonValue::Null,
        serde_json::Value::Bool(b) => JsonValue::Bool(*b),
        serde_json::Value::Number(n) => match (n.as_u64(), n.as_i64()) {
            (Some(n), _) => JsonValue::Unsigned(n),
            (None, Some(n)) => JsonValue::Negative(n),
            (None, None) => float(n.as_f64().unwrap_or(0.0)),
        },
        serde_json::Value::String(s) => JsonValue::Text(s.clone()),
        serde_json::Value::Array(items) => JsonValue::Array(items.iter().map(own).collect()),
        serde_json::Value::Object(members) => {
            let mut map = StrMap::new();
            for (key, value) in members {
                map.insert(key.clone(), own(value));
            }
            JsonValue::Object(map)
        }
    }
}

fn json(text: &str) -> JsonValue {
    own(&serde_json::from_str::<serde_json::Value>(text).expect("valid JSON"))
}

fn float(x: f64) -> JsonValue {
    JsonValue::Float(Binary64 { bits: x.to_bits() })
}

fn cents(amount: f64) -> Option<Cents> {
    Some(Cents {
        amount: Binary64 {
            bits: amount.to_bits(),
        },
        dollars: format!("{:.8}", amount / 100.0),
    })
}

fn read_cost(cost: &NumericCost) -> Option<Cents> {
    match cost {
        NumericCost::Absent => None,
        NumericCost::Unsigned(n) => cents(*n as f64),
        NumericCost::Negative(n) => cents(*n as f64),
        NumericCost::Float(x) => cents(f64::from_bits(x.bits)),
        NumericCost::Text(text) => text.parse::<f64>().ok().and_then(cents),
    }
}

fn read_costs(stated: &StatedCosts) -> EventCosts {
    EventCosts {
        usage_based: read_cost(&stated.usage_based),
        charged: read_cost(&stated.charged),
        total: read_cost(&stated.total),
    }
}

fn event_in(value: &JsonValue, bucket: &[String]) -> Option<CursorUsageEvent> {
    parse_event(value, &read_costs(&stated_costs(value)), bucket)
}

fn cost_of(text: &str) -> String {
    event_cost_usd(&read_costs(&stated_costs(&json(text))))
}

fn sample_auto_bucket() -> Vec<String> {
    [
        "default",
        "composer-2.5",
        "composer-2.5-fast",
        "grok-4.5",
        "cursor-grok-4.5",
        "cursor-grok-4.5-high-fast",
    ]
    .iter()
    .map(|model| model.to_string())
    .collect()
}

fn message(text: &str) -> AppError {
    AppError::Message(text.to_string())
}

#[test]
fn parse_event_reads_tokens_and_cents() {
    let event = event_in(
        &json(
            r#"{
                "timestamp": "1789915193025",
                "model": "composer-2.5",
                "kind": "USAGE_EVENT_KIND_INCLUDED_IN_ULTRA",
                "conversationId": "8767c4c9-d7e5-4415-9c2e-1b7887339862",
                "chargedCents": 15.4596,
                "tokenUsage": {
                    "inputTokens": 474,
                    "outputTokens": 14,
                    "cacheReadTokens": 152448,
                    "cacheWriteTokens": 0,
                    "totalCents": 15.4596
                }
            }"#,
        ),
        &sample_auto_bucket(),
    )
    .expect("event");
    assert_eq!(event.input_tokens, 474);
    assert_eq!(event.output_tokens, 14);
    assert_eq!(event.cache_read_tokens, 152448);
    assert_eq!(event.cache_write_tokens, 0);
    assert_eq!(event.timestamp_ms, 1789915193025);
    assert_eq!(event.model, "composer-2.5");
    assert_eq!(event.provider_id, PROVIDER_FIRST_PARTY);
    assert_eq!(event.cost_usd, "0.15459600");
    assert_eq!(event.status_code, 200);
    assert!(event.request_id.contains("8767c4c9"));
    assert_eq!(
        event.request_id,
        "cursor:8767c4c9-d7e5-4415-9c2e-1b7887339862:1789915193025:composer-2.5"
    );
}

#[test]
fn parse_event_skips_internal_grok_bot_and_sandbox_subagents() {
    assert!(event_in(
        &json(
            r#"{
                "timestamp": 1,
                "model": "grok-bot-cua",
                "conversationId": "abc",
                "kind": "USAGE_EVENT_KIND_INCLUDED_IN_ULTRA",
                "chargedCents": 12.0,
                "tokenUsage": { "inputTokens": 3, "outputTokens": 10, "cacheReadTokens": 50000 }
            }"#
        ),
        &sample_auto_bucket(),
    )
    .is_none());
    assert!(event_in(
        &json(
            r#"{
                "timestamp": 1,
                "model": "grok-bot-default",
                "conversationId": "abc",
                "kind": "USAGE_EVENT_KIND_INCLUDED_IN_ULTRA",
                "chargedCents": 12.0,
                "tokenUsage": { "inputTokens": 3, "outputTokens": 10, "cacheReadTokens": 50000 }
            }"#
        ),
        &sample_auto_bucket(),
    )
    .is_none());
    assert!(event_in(
        &json(
            r#"{
                "timestamp": 1,
                "model": "composer-2.5",
                "conversationId": "sand-subagent-82162911-c",
                "kind": "USAGE_EVENT_KIND_INCLUDED_IN_ULTRA",
                "chargedCents": 12.0,
                "tokenUsage": { "inputTokens": 3, "outputTokens": 10, "cacheReadTokens": 50000 }
            }"#
        ),
        &sample_auto_bucket(),
    )
    .is_none());
}

#[test]
fn parse_event_keeps_usage_based_cost() {
    let event = event_in(
        &json(
            r#"{
                "timestamp": 2,
                "model": "mistral-opus-5",
                "conversationId": "abc",
                "kind": "USAGE_EVENT_KIND_USAGE_BASED",
                "usageBasedCosts": 250.0,
                "chargedCents": 250.0,
                "tokenUsage": { "inputTokens": 10, "outputTokens": 4, "cacheReadTokens": 0 }
            }"#,
        ),
        &sample_auto_bucket(),
    )
    .expect("event");
    assert_eq!(event.cost_usd, "2.50000000");
    assert_eq!(event.provider_id, PROVIDER_THIRD_PARTY);
}

#[test]
fn first_party_family_matches_newer_grok_against_bucket() {
    let bucket = sample_auto_bucket();
    assert!(is_first_party_model("cursor-grok-4.6-xhigh-fast", &bucket));
    assert!(is_first_party_model("composer-2.5-fast", &bucket));
    assert!(is_first_party_model("default", &bucket));
    assert!(!is_first_party_model(
        "mistral-fable-5-1-thinking-high",
        &bucket
    ));
    assert!(!is_first_party_model("gemini-2.5-flash", &bucket));
    assert!(is_first_party_model("composer-2.5", &[]));
    assert!(!is_first_party_model("mistral-opus-5", &[]));
}

#[test]
fn insert_is_idempotent() {
    let db = rusqlite::Connection::open_in_memory().expect("database");
    db.execute_batch(
        "CREATE TABLE proxy_request_logs (
            request_id TEXT PRIMARY KEY, provider_id TEXT, app_type TEXT, model TEXT,
            total_cost_usd TEXT, created_at INTEGER, input_token_semantics INTEGER
        )",
    )
    .expect("schema");
    let event = event_in(
        &json(
            r#"{
                "timestamp": 1000,
                "model": "composer-2.5",
                "conversationId": "abc",
                "chargedCents": 10.0,
                "tokenUsage": { "inputTokens": 1, "outputTokens": 2, "cacheReadTokens": 3 }
            }"#,
        ),
        &sample_auto_bucket(),
    )
    .expect("event");
    assert_eq!(event.provider_id, PROVIDER_FIRST_PARTY);
    let insert = |event: &CursorUsageEvent| {
        let row = cursor_log_row(event, SEMANTICS);
        let changed = db
            .execute(
                "INSERT OR IGNORE INTO proxy_request_logs VALUES (?1, ?2, ?3, ?4, ?5, ?6, ?7)",
                (
                    row.request_id,
                    row.provider_id,
                    row.app_type,
                    row.model,
                    row.total_cost_usd,
                    row.created_at,
                    row.input_token_semantics,
                ),
            )
            .expect("insert");
        insert_events(&[changed > 0])
    };
    assert_eq!(insert(&event.clone()), (1, 0));
    assert_eq!(insert(&event), (0, 1));
    let (n, provider, cost, created, semantics): (i64, String, String, i64, i64) = db
        .query_row(
            "SELECT COUNT(*), provider_id, total_cost_usd, created_at, input_token_semantics
             FROM proxy_request_logs WHERE app_type = 'cursor'",
            [],
            |row| {
                Ok((
                    row.get(0)?,
                    row.get(1)?,
                    row.get(2)?,
                    row.get(3)?,
                    row.get(4)?,
                ))
            },
        )
        .expect("row");
    assert_eq!(n, 1);
    assert_eq!(provider, PROVIDER_FIRST_PARTY);
    assert_eq!(cost, "0.10000000");
    assert_eq!(created, 1);
    assert_eq!(semantics, SEMANTICS);
}

#[test]
fn log_rows_hold_the_event() {
    let mut event = event_in(
        &json(
            r#"{"timestamp": 1999, "model": "m", "conversationId": "c", "kind": "an error",
                "tokenUsage": {"inputTokens": 1, "outputTokens": 2, "cacheReadTokens": 3, "cacheWriteTokens": 4}}"#,
        ),
        &[],
    )
    .expect("event");
    let row = cursor_log_row(&event, 7);
    assert_eq!(row.request_id, "cursor:c:1999:m");
    assert_eq!(row.provider_id, PROVIDER_THIRD_PARTY);
    assert_eq!(row.app_type, "cursor");
    assert_eq!(row.model, "m");
    assert_eq!(
        (
            row.input_tokens,
            row.output_tokens,
            row.cache_read_tokens,
            row.cache_creation_tokens
        ),
        (1, 2, 3, 4)
    );
    for cost in [
        &row.input_cost_usd,
        &row.output_cost_usd,
        &row.cache_read_cost_usd,
        &row.cache_creation_cost_usd,
        &row.total_cost_usd,
    ] {
        assert_eq!(cost, "0");
    }
    assert_eq!(row.latency_ms, 0);
    assert_eq!(row.status_code, 500);
    assert_eq!(row.session_id, "c");
    assert_eq!(row.provider_type, "cursor_dashboard");
    assert_eq!(row.data_source, "cursor_dashboard");
    assert_eq!(row.is_streaming, 1);
    assert_eq!(row.cost_multiplier, "1");
    assert_eq!(row.created_at, 1);
    assert_eq!(row.input_token_semantics, 7);
    event.timestamp_ms = -1999;
    assert_eq!(cursor_log_row(&event, 7).created_at, -1999 / 1000);
    event.timestamp_ms = i64::MIN;
    assert_eq!(cursor_log_row(&event, 7).created_at, i64::MIN / 1000);
}

#[test]
fn integers_in_values() {
    assert_eq!(json_i64(&json("5")), Some(5));
    assert_eq!(json_i64(&json("-5")), Some(-5));
    assert_eq!(json_i64(&json("18446744073709551615")), Some(-1));
    assert_eq!(json_i64(&json("9223372036854775808")), Some(i64::MIN));
    assert_eq!(json_i64(&json("5.9")), Some(5));
    assert_eq!(json_i64(&json("-5.9")), Some(-5));
    assert_eq!(json_i64(&json("1e300")), Some(i64::MAX));
    assert_eq!(json_i64(&json(r#"" 42 ""#)), Some(42));
    assert_eq!(json_i64(&json(r#""+42""#)), Some(42));
    assert_eq!(json_i64(&json(r#""4.2""#)), None);
    assert_eq!(json_i64(&json(r#""9223372036854775808""#)), None);
    assert_eq!(json_i64(&json("true")), None);
    assert_eq!(json_i64(&json("null")), None);
    assert_eq!(json_i64(&json("[1]")), None);
    assert_eq!(json_number_i64(None), None);
    assert_eq!(json_number_i64(Some(&json("7"))), Some(7));
    assert_eq!(json_u32(None), 0);
    assert_eq!(json_u32(Some(&json("-3"))), 0);
    assert_eq!(json_u32(Some(&json("4294967297"))), 1);
    assert_eq!(json_u32(Some(&json(r#""12""#))), 12);
    assert_eq!(json_string(None), "");
    assert_eq!(json_string(Some(&json(r#"" a ""#))), "a");
    assert_eq!(json_string(Some(&json("-12"))), "-12");
    assert_eq!(json_string(Some(&json("12"))), "12");
    assert_eq!(json_string(Some(&json("9223372036854775808"))), "");
    assert_eq!(json_string(Some(&json("1.5"))), "");
    assert_eq!(json_string(Some(&json("true"))), "");
}

#[test]
fn numbers_and_their_text_are_read_alike() {
    for n in [i64::MIN, -1, 0, 1, 1789915193025, i64::MAX] {
        let text = JsonValue::Text(n.to_string());
        let number = if n >= 0 {
            JsonValue::Unsigned(n as u64)
        } else {
            JsonValue::Negative(n)
        };
        assert_eq!(json_i64(&text), Some(n));
        assert_eq!(json_i64(&number), Some(n));
    }
}

#[test]
fn stated_costs_are_numbers_or_text() {
    let of = |text: &str| parse_numeric_cost(Some(&json(text)));
    assert_eq!(of("3"), NumericCost::Unsigned(3));
    assert_eq!(of("-3"), NumericCost::Negative(-3));
    assert_eq!(
        of("2.5"),
        NumericCost::Float(Binary64 {
            bits: 2.5f64.to_bits()
        })
    );
    assert_eq!(of(r#"" 1.5 ""#), NumericCost::Text("1.5".to_string()));
    assert_eq!(of(r#"" - ""#), NumericCost::Absent);
    assert_eq!(of(r#""  ""#), NumericCost::Absent);
    assert_eq!(of("null"), NumericCost::Absent);
    assert_eq!(of("true"), NumericCost::Absent);
    assert_eq!(parse_numeric_cost(None), NumericCost::Absent);
}

#[test]
fn cost_comes_from_the_first_source_that_counts() {
    assert_eq!(cost_of(r#"{"usageBasedCosts": 1, "chargedCents": 200}"#), "0.01000000");
    assert_eq!(cost_of(r#"{"usageBasedCosts": 0, "chargedCents": 200}"#), "2.00000000");
    assert_eq!(cost_of(r#"{"usageBasedCosts": "-", "chargedCents": "50"}"#), "0.50000000");
    assert_eq!(
        cost_of(r#"{"chargedCents": 0, "tokenUsage": {"totalCents": 5}}"#),
        "0"
    );
    assert_eq!(cost_of(r#"{"tokenUsage": {"totalCents": 5}}"#), "0.05000000");
    assert_eq!(
        cost_of(r#"{"chargedCents": "-", "tokenUsage": {"totalCents": 5}}"#),
        "0.05000000"
    );
    assert_eq!(cost_of(r#"{"chargedCents": -5}"#), "0");
    assert_eq!(cost_of(r#"{"chargedCents": "NaN"}"#), "0");
    assert_eq!(cost_of("{}"), "0");
}

#[test]
fn internal_traffic() {
    assert!(is_internal_cursor_traffic("x-GROK-Bot-y", "c"));
    assert!(is_internal_cursor_traffic("m", "Sand-SubAgent-1"));
    assert!(!is_internal_cursor_traffic("grok-4.5", "x-sand-subagent"));
}

#[test]
fn families_leave_out_versions_and_tiers() {
    assert_eq!(model_family("Cursor-Grok-4.6-XHigh-Fast"), "cursor-grok");
    assert_eq!(model_family("mistral-fable-5-1-thinking-high"), "mistral-fable");
    assert_eq!(model_family("4.5-max"), "");
    assert_eq!(model_family(""), "");
    assert_eq!(model_family("a--b"), "a--b");
    assert_eq!(model_family("a-.-b"), "a-.-b");
    assert_eq!(model_family("gpt-4o-mini-preview"), "gpt-4o");
    assert_eq!(model_family("fast-2-slow-low-medium-high-x"), "x");
    for model in ["Cursor-Grok-4.6-XHigh", "a--b", "4.5", "x-1-y"] {
        let family = model_family(model);
        assert_eq!(model_family(&family), family);
        assert_eq!(model_family(&model.to_lowercase()), family);
        assert_eq!(model_family(&format!("{model}-9.1")), family);
        assert_eq!(model_family(&format!("preview-{model}")), family);
    }
}

#[test]
fn pools() {
    for model in ["composer-1", "vega", "Grok-3", "cursor-grok-9-fast", "default"] {
        assert!(looks_like_first_party_family(model));
        assert_eq!(pool_provider_id(model, &[]), PROVIDER_FIRST_PARTY);
    }
    assert!(!looks_like_first_party_family("gpt"));
    let bucket = vec!["4.5".to_string()];
    assert!(is_first_party_model("4.5", &bucket));
    assert!(!is_first_party_model("4.6", &bucket));
    assert!(!is_first_party_model("composer-1", &bucket));
    let bucket = vec!["Special-1".to_string()];
    assert_eq!(pool_provider_id("special-2-HIGH", &bucket), PROVIDER_FIRST_PARTY);
    assert_eq!(pool_provider_id("grok-4", &bucket), PROVIDER_THIRD_PARTY);
}

#[test]
fn auto_bucket_models() {
    assert_eq!(
        parse_auto_bucket_models(&json(r#"{"autoBucketModels": [" a ", "", 3, "  ", "B"]}"#)),
        vec!["a".to_string(), "B".to_string()]
    );
    assert!(parse_auto_bucket_models(&json(r#"{"autoBucketModels": "a"}"#)).is_empty());
    assert!(parse_auto_bucket_models(&json("{}")).is_empty());
}

#[test]
fn events_without_a_time_are_left_out() {
    for text in [
        "{}",
        r#"{"timestamp": 0}"#,
        r#"{"timestamp": -4}"#,
        r#"{"timestamp": "soon"}"#,
        "[]",
    ] {
        assert!(event_in(&json(text), &[]).is_none());
    }
    let event = event_in(&json(r#"{"timestamp": 5, "kind": 3}"#), &[]).expect("event");
    assert_eq!(event.model, "unknown");
    assert_eq!(event.conversation_id, "none");
    assert_eq!(event.request_id, "cursor:none:5:unknown");
    assert_eq!(event.status_code, 200);
    let event = event_in(&json(r#"{"timestamp": 5, "kind": "x_Error_y"}"#), &[]).expect("event");
    assert_eq!(event.status_code, 500);
}

#[test]
fn identity_does_not_depend_on_cost_or_pool() {
    let first = event_in(&json(r#"{"timestamp": 5, "model": "grok-1"}"#), &[]).expect("event");
    let second = event_in(
        &json(r#"{"timestamp": "5", "model": " grok-1 ", "chargedCents": 9}"#),
        &["other".to_string()],
    )
    .expect("event");
    assert_eq!(first.request_id, second.request_id);
    assert_ne!(first.provider_id, second.provider_id);
    assert_ne!(first.cost_usd, second.cost_usd);
}

#[test]
fn identities_tell_events_apart() {
    let id = |text: &str| event_in(&json(text), &[]).expect("event").request_id;
    let ids = [
        id(r#"{"timestamp": 5, "model": "m", "conversationId": "c"}"#),
        id(r#"{"timestamp": 6, "model": "m", "conversationId": "c"}"#),
        id(r#"{"timestamp": 5, "model": "n", "conversationId": "c"}"#),
        id(r#"{"timestamp": 5, "model": "m", "conversationId": "d"}"#),
        id(r#"{"timestamp": 5, "model": "6:m", "conversationId": "c"}"#),
    ];
    for (i, first) in ids.iter().enumerate() {
        for second in &ids[i + 1..] {
            assert_ne!(first, second);
        }
    }
}

#[test]
fn pages_hold_the_events_in_order() {
    let body = json(
        r#"{"totalUsageEventsCount": "250", "usageEventsDisplay": [
            {"timestamp": 3, "model": "a", "chargedCents": 100},
            {"timestamp": 0},
            {"timestamp": 2, "model": "b", "chargedCents": 200}
        ]}"#,
    );
    let costs: Vec<EventCosts> = stated_costs_of_page(&body).iter().map(read_costs).collect();
    assert_eq!(costs.len(), 3);
    let page = parse_events_page(&body, &costs, &[]);
    assert_eq!(page.total, 250);
    let seen: Vec<(i64, String, String)> = page
        .events
        .into_iter()
        .map(|event| (event.timestamp_ms, event.model, event.cost_usd))
        .collect();
    assert_eq!(
        seen,
        vec![
            (3, "a".to_string(), "1.00000000".to_string()),
            (2, "b".to_string(), "2.00000000".to_string())
        ]
    );
    let page = parse_events_page(&json("{}"), &[], &[]);
    assert_eq!(page.total, 0);
    assert!(page.events.is_empty());
    let body = json(r#"{"totalUsageEventsCount": -1, "usageEventsDisplay": [{"timestamp": 1}]}"#);
    let page = parse_events_page(&body, &[], &[]);
    assert_eq!(page.total, 0);
    assert_eq!(page.events[0].cost_usd, "0");
}

#[test]
fn clock() {
    assert_eq!(now_ms(None), 0);
    assert_eq!(now_ms(Some(1789915193025)), 1789915193025);
    assert_eq!(now_ms(Some(u128::MAX)), -1);
    assert_eq!(now_ms(Some(1u128 << 63)), i64::MIN);
}

#[test]
fn requests_to_the_dashboard() {
    let request = dashboard_request("tok", "GetCurrentPeriodUsage");
    assert_eq!(
        request.url,
        "https://api2.cursor.sh/aiserver.v1.DashboardService/GetCurrentPeriodUsage"
    );
    assert_eq!(request.authorization, "Bearer tok");
    assert_eq!(request.content_type, "application/json");
    assert_eq!(request.protocol_version, "1");
    let body = fetch_page(1000, 3, 2000);
    assert_eq!(body.as_object().map(|map| map.len()), Some(4usize));
    assert_eq!(body.get("page"), Some(&json("3")));
    assert_eq!(body.get("pageSize"), Some(&json("100")));
    assert_eq!(body.get("startDate"), Some(&json(r#""1000""#)));
    assert_eq!(body.get("endDate"), Some(&json(r#""2000""#)));
    assert_eq!(require_token(Some("t".to_string())), Ok("t".to_string()));
    assert_eq!(require_token(None), Err(message("cursor_auth_missing")));
}

#[test]
fn replies_of_the_dashboard() {
    let answered = |code: u16, text: &str| DashboardReply::Answered {
        code,
        status: format!("{code} S"),
        text: text.to_string(),
    };
    assert!(matches!(
        dashboard_post("M", answered(200, " \n")),
        Ok(ReplyBody::Blank)
    ));
    match dashboard_post("M", answered(299, " {} ")) {
        Ok(ReplyBody::Json(text)) => assert_eq!(text, " {} "),
        _ => panic!("document expected"),
    }
    let error = dashboard_post("M", answered(401, &"ü".repeat(300))).expect_err("refused");
    assert_eq!(
        error,
        message(&format!("Cursor M HTTP 401 S: {}", "ü".repeat(240)))
    );
    let error = dashboard_post("M", answered(300, "t")).expect_err("refused");
    assert_eq!(error, message("Cursor M HTTP 300 S: t"));
    assert_eq!(
        dashboard_post("M", DashboardReply::NotSent("c".to_string())).expect_err("not sent"),
        message("请求 Cursor M 失败: c")
    );
    assert_eq!(
        dashboard_post("M", DashboardReply::NotRead("c".to_string())).expect_err("not read"),
        message("读取 Cursor M 响应失败: c")
    );
    assert_eq!(malformed_reply("M", "c"), message("解析 Cursor M 响应失败: c"));
}

#[test]
fn reset_happens_once() {
    assert!(reset_inflated_cursor_usage(1).is_none());
    let reset = reset_inflated_cursor_usage(0).expect("reset");
    assert_eq!(reset.data_source, "cursor_dashboard");
    assert_eq!(
        reset.provider_ids,
        vec!["_cursor_session", "_cursor_first_party", "_cursor_third_party"]
    );
    assert_eq!(
        reset.sync_keys,
        vec![
            "cursor:dashboard:GetFilteredUsageEvents",
            "cursor:dashboard:GetFilteredUsageEvents:v2",
            "cursor:dashboard:GetFilteredUsageEvents:v3"
        ]
    );
}

#[test]
fn cursor_watermark_never_falls_back() {
    assert_eq!(load_watermark(None), 0);
    assert_eq!(load_watermark(Some(9)), 9);
    assert_eq!(store_watermark(None, 5), 5);
    assert_eq!(store_watermark(Some(9), 5), 9);
    assert_eq!(store_watermark(Some(5), 9), 9);
}

#[test]
fn events_are_tallied() {
    assert_eq!(insert_events(&[]), (0, 0));
    assert_eq!(insert_events(&[true, false, true]), (2, 1));
}

#[test]
fn database_failures_name_the_step() {
    let texts = [
        (DatabaseStep::BeginReset, "清理 Cursor 用量失败: c"),
        (DatabaseStep::DeleteLogs, "清理 Cursor 用量明细失败: c"),
        (DatabaseStep::DeleteWatermarks, "清理 Cursor 同步游标失败: c"),
        (DatabaseStep::CommitReset, "提交 Cursor 用量清理失败: c"),
        (DatabaseStep::StoreWatermark, "写入 Cursor 同步游标失败: c"),
        (DatabaseStep::BeginInsert, "Cursor 用量事务失败: c"),
        (DatabaseStep::InsertEvent, "写入 Cursor 用量失败: c"),
        (DatabaseStep::CommitInsert, "提交 Cursor 用量失败: c"),
    ];
    for (step, text) in texts {
        assert_eq!(
            database_failure(step, "c"),
            AppError::Database(text.to_string())
        );
    }
}

fn page_of(times: &[i64], total: u64) -> SyncEvent {
    let events = times
        .iter()
        .filter_map(|t| event_in(&json(&format!(r#"{{"timestamp": {t}}}"#)), &[]))
        .collect();
    SyncEvent::Page(UsageEventsPage { events, total })
}

fn prepared(watermark: i64, billing_start: Option<i64>, now_ms: i64) -> SyncEvent {
    SyncEvent::Prepared {
        watermark,
        billing_start,
        now_ms,
    }
}

fn started(watermark: i64, billing_start: Option<i64>, now: i64) -> (SyncState, SyncAction) {
    let (state, action) = sync_cursor_usage(SyncState::Start, &SyncEvent::Token(true));
    assert_eq!(action, SyncAction::Prepare);
    sync_cursor_usage(state, &prepared(watermark, billing_start, now))
}

#[test]
fn run_without_token_does_nothing() {
    let (state, action) = sync_cursor_usage(SyncState::Start, &SyncEvent::Token(false));
    assert_eq!(state, SyncState::Finished);
    assert_eq!(
        action,
        SyncAction::Finish {
            imported: 0,
            skipped: 0,
            files_scanned: 0
        }
    );
}

#[test]
fn run_starts_before_the_watermark() {
    let start = |watermark: i64, billing: Option<i64>, now: i64| match started(watermark, billing, now).1 {
        SyncAction::Fetch {
            page,
            start_date_ms,
        } => {
            assert_eq!(page, 1);
            start_date_ms
        }
        _ => panic!("fetch expected"),
    };
    assert_eq!(start(10_000_000, Some(5), 99), 10_000_000 - 3_600_000);
    assert_eq!(start(0, Some(5), 99), 5);
    assert_eq!(start(0, None, 3_000_000_000), 3_000_000_000 - 2_592_000_000);
    assert_eq!(start(-1, None, i64::MIN), i64::MIN);
    assert_eq!(
        billing_cycle_start(&json(r#"{"billingCycleStart": "77"}"#)),
        Some(77)
    );
    assert_eq!(billing_cycle_start(&json("{}")), None);
}

#[test]
fn run_copies_pages_until_one_is_not_full() {
    let (state, _) = started(50, None, 0);
    let full: Vec<i64> = (1..=100).collect();
    let (state, action) = sync_cursor_usage(state, &page_of(&full, 150));
    assert_eq!(action, SyncAction::Insert);
    let (state, action) = sync_cursor_usage(
        state,
        &SyncEvent::Inserted {
            imported: 60,
            skipped: 40,
        },
    );
    assert_eq!(action, SyncAction::Store { timestamp_ms: 100 });
    let (state, action) = sync_cursor_usage(state, &SyncEvent::Stored);
    assert!(matches!(action, SyncAction::Fetch { page: 2, .. }));
    let (state, action) = sync_cursor_usage(state, &page_of(&[7], 150));
    assert_eq!(action, SyncAction::Insert);
    let (state, action) = sync_cursor_usage(
        state,
        &SyncEvent::Inserted {
            imported: 1,
            skipped: 0,
        },
    );
    assert_eq!(action, SyncAction::Store { timestamp_ms: 100 });
    let (state, action) = sync_cursor_usage(state, &SyncEvent::Stored);
    assert_eq!(state, SyncState::Finished);
    assert_eq!(
        action,
        SyncAction::Finish {
            imported: 61,
            skipped: 40,
            files_scanned: 2
        }
    );
}

#[test]
fn run_ends_at_a_page_without_events() {
    let (state, _) = started(0, None, 0);
    let (state, action) = sync_cursor_usage(state, &page_of(&[], 1000));
    assert_eq!(state, SyncState::Finished);
    assert_eq!(
        action,
        SyncAction::Finish {
            imported: 0,
            skipped: 0,
            files_scanned: 1
        }
    );
}

#[test]
fn run_fetches_at_most_twenty_pages() {
    let full: Vec<i64> = (1..=100).collect();
    let (mut state, mut action) = started(0, None, 0);
    let mut pages = 0;
    let mut steps = 2;
    while state != SyncState::Finished {
        let event = match action {
            SyncAction::Fetch { page, .. } => {
                pages += 1;
                assert_eq!(page, pages);
                page_of(&full, u64::MAX)
            }
            SyncAction::Insert => SyncEvent::Inserted {
                imported: u32::MAX,
                skipped: 1,
            },
            SyncAction::Store { .. } => SyncEvent::Stored,
            _ => panic!("unexpected action"),
        };
        (state, action) = sync_cursor_usage(state, &event);
        steps += 1;
    }
    assert_eq!(pages, 20);
    assert!(steps <= 102);
    assert_eq!(
        action,
        SyncAction::Finish {
            imported: u32::MAX,
            skipped: 20,
            files_scanned: 20
        }
    );
}

#[test]
fn run_rereads_the_token_once() {
    let refused = SyncEvent::PageRefused("Cursor M HTTP 401 Unauthorized: x".to_string());
    let (state, _) = started(0, Some(9), 0);
    let (rereading, action) = sync_cursor_usage(state, &refused);
    assert_eq!(action, SyncAction::RereadToken);
    let (gone, action) = sync_cursor_usage(rereading, &SyncEvent::Token(false));
    assert_eq!((gone, action), (SyncState::Finished, SyncAction::Fail));
    let (again, action) = sync_cursor_usage(rereading, &SyncEvent::Token(true));
    assert_eq!(
        action,
        SyncAction::Fetch {
            page: 1,
            start_date_ms: 9
        }
    );
    let (state, action) = sync_cursor_usage(again, &refused);
    assert_eq!((state, action), (SyncState::Finished, SyncAction::Fail));
}

#[test]
fn run_fails_on_other_refusals() {
    let (state, _) = started(0, None, 0);
    let (_, action) = sync_cursor_usage(
        state,
        &SyncEvent::PageRefused("Cursor M HTTP 500: x".to_string()),
    );
    assert_eq!(action, SyncAction::Fail);
}
