//! One run of the Cursor usage import.

use crate::cursor_events::{
    integer_in, json_number_i64, CursorUsageEvent, EventView, UsageEventsPage,
};
use crate::cursor_models::{PROVIDER_FIRST_PARTY, PROVIDER_THIRD_PARTY};
use crate::error::{AppError, ErrorView};
use crate::json::JsonValue;
use crate::numeral::{decimal, decimal_text};
use crate::request_log::{has_id, insert_or_ignore, lemma_insert, LoggedRow};
use crate::str_map::StrMap;
use crate::sync_result::capped;
use crate::text::{contains, has_prefix, has_text, take_chars, trim, trimmed, views};
use vstd::prelude::*;

verus! {

pub const APP_TYPE: &'static str = "cursor";

pub const DATA_SOURCE: &'static str = "cursor_dashboard";

pub const PROVIDER_PLACEHOLDER: &'static str = "_cursor_session";

/// The key under which the watermark is kept.
pub const SYNC_KEY: &'static str = "cursor:dashboard:GetFilteredUsageEvents:v4";

pub const LEGACY_SYNC_KEY_1: &'static str = "cursor:dashboard:GetFilteredUsageEvents";

pub const LEGACY_SYNC_KEY_2: &'static str = "cursor:dashboard:GetFilteredUsageEvents:v2";

pub const LEGACY_SYNC_KEY_3: &'static str = "cursor:dashboard:GetFilteredUsageEvents:v3";

pub const DASHBOARD_BASE: &'static str = "https://api2.cursor.sh/aiserver.v1.DashboardService";

pub const PAGE_SIZE: u32 = 100;

pub const MAX_PAGES_PER_RUN: u32 = 20;

/// Thirty days in milliseconds.
pub const FIRST_SYNC_LOOKBACK_MS: i64 = 2_592_000_000;

/// One hour in milliseconds.
pub const OVERLAP_MS: i64 = 3_600_000;

/// The largest number of characters of a refusal that its error quotes.
pub const QUOTED_CHARS: usize = 240;

/// A request to the dashboard, without its body.
#[derive(Debug)]
pub struct DashboardRequest {
    pub url: String,
    pub authorization: String,
    pub content_type: String,
    pub protocol_version: String,
}

/// How the dashboard answered.
#[derive(Debug)]
pub enum DashboardReply {
    /// The request could not be sent.
    NotSent(String),
    /// The answer could not be read.
    NotRead(String),
    Answered { code: u16, status: String, text: String },
}

/// The body of a reply.
#[derive(Debug)]
pub enum ReplyBody {
    /// Blank, which stands for an empty object.
    Blank,
    /// A JSON text.
    Json(String),
}

/// What is to be deleted before the first run of the current kind.
#[derive(Debug)]
pub struct UsageReset {
    /// The log rows with this source.
    pub data_source: String,
    /// The daily sums of these providers.
    pub provider_ids: Vec<String>,
    /// The watermarks under these keys.
    pub sync_keys: Vec<String>,
}

/// A database step that can fail.
#[derive(Debug, Clone, Copy, PartialEq, Eq, Structural)]
pub enum DatabaseStep {
    BeginReset,
    DeleteLogs,
    DeleteWatermarks,
    CommitReset,
    StoreWatermark,
    BeginInsert,
    InsertEvent,
    CommitInsert,
}

/// One request in the shared log.
#[derive(Debug)]
pub struct CursorLogRow {
    pub request_id: String,
    pub provider_id: String,
    pub app_type: String,
    /// The model, also as the requested model.
    pub model: String,
    pub input_tokens: u32,
    pub output_tokens: u32,
    pub cache_read_tokens: u32,
    pub cache_creation_tokens: u32,
    pub input_cost_usd: String,
    pub output_cost_usd: String,
    pub cache_read_cost_usd: String,
    pub cache_creation_cost_usd: String,
    pub total_cost_usd: String,
    pub latency_ms: i64,
    pub status_code: i64,
    pub session_id: String,
    pub provider_type: String,
    pub is_streaming: i64,
    pub cost_multiplier: String,
    pub created_at: i64,
    pub data_source: String,
    pub input_token_semantics: i64,
}

/// The state of a run that fetches pages.
#[derive(Debug, Clone, Copy, PartialEq, Eq, Structural)]
pub struct SyncRun {
    pub start_date_ms: i64,
    /// The page that is fetched or handled, counted from one.
    pub page: u32,
    /// The latest time seen.
    pub max_ts: i64,
    pub imported: u32,
    pub skipped: u32,
    pub files_scanned: u32,
}

/// The size of a page, and how many events there are on all pages.
#[derive(Debug, Clone, Copy, PartialEq, Eq, Structural)]
pub struct PageSize {
    pub count: usize,
    pub total: u64,
}

/// Where a run stands.
#[derive(Debug, Clone, Copy, PartialEq, Eq, Structural)]
pub enum SyncState {
    /// The token is looked for.
    Start,
    /// The watermark and the billing period are asked for.
    Preparing,
    /// A page is fetched; `again` with a token that was read anew.
    Fetching { run: SyncRun, again: bool },
    /// The token is read anew.
    Rereading { run: SyncRun },
    /// The events of the page are written.
    Inserting { run: SyncRun, size: PageSize },
    /// The watermark is written.
    Storing { run: SyncRun, size: PageSize },
    Finished,
}

/// What a run hears about.
#[derive(Debug)]
pub enum SyncEvent {
    /// Whether there is a token.
    Token(bool),
    /// The watermark, the start of the billing period as far as it is known,
    /// and the time of day.
    Prepared { watermark: i64, billing_start: Option<i64>, now_ms: i64 },
    Page(UsageEventsPage),
    /// The text of the error.
    PageRefused(String),
    Inserted { imported: u32, skipped: u32 },
    Stored,
}

/// What a run does next.
#[derive(Debug, Clone, Copy, PartialEq, Eq, Structural)]
pub enum SyncAction {
    Prepare,
    Fetch { page: u32, start_date_ms: i64 },
    RereadToken,
    /// Write the events of the page that was fetched.
    Insert,
    /// Write the watermark.
    Store { timestamp_ms: i64 },
    /// Give up with the error of the page that was refused.
    Fail,
    Finish { imported: u32, skipped: u32, files_scanned: u32 },
}

/// A 128-bit number cut to a signed 64-bit one.
pub open spec fn cut_to_i64(n: int) -> int {
    let low = n % 0x1_0000_0000_0000_0000;
    if low > i64::MAX {
        low - 0x1_0000_0000_0000_0000
    } else {
        low
    }
}

/// Whole thousands of a number, without the rest.
pub open spec fn thousands(n: int) -> int {
    if n < 0 {
        -((-n) / 1000)
    } else {
        n / 1000
    }
}

/// A difference, kept within 64 bits.
pub open spec fn bounded_difference(a: i64, b: i64) -> int {
    if a - b < i64::MIN {
        i64::MIN as int
    } else if a - b > i64::MAX {
        i64::MAX as int
    } else {
        a - b
    }
}

fn minus(a: i64, b: i64) -> (r: i64)
    ensures
        r == bounded_difference(a, b),
{
    let difference: i128 = a as i128 - b as i128;
    if difference < i64::MIN as i128 {
        i64::MIN
    } else if difference > i64::MAX as i128 {
        i64::MAX
    } else {
        difference as i64
    }
}

/// The time since the epoch in milliseconds; zero where the clock stands before
/// it.
pub fn now_ms(since_epoch: Option<u128>) -> (r: i64)
    ensures
        r == match since_epoch {
            Some(millis) => cut_to_i64(millis as int),
            None => 0,
        },
{
    match since_epoch {
        Some(millis) => {
            let low: i128 = (millis % 0x1_0000_0000_0000_0000) as i128;
            if low > i64::MAX as i128 {
                (low - 0x1_0000_0000_0000_0000) as i64
            } else {
                low as i64
            }
        },
        None => 0,
    }
}

/// The request for a method of the dashboard.
pub fn dashboard_request(token: &str, method: &str) -> (r: DashboardRequest)
    ensures
        r.url@ == DASHBOARD_BASE@ + "/"@ + method@,
        r.authorization@ == "Bearer "@ + token@,
        r.content_type@ == "application/json"@,
        r.protocol_version@ == "1"@,
{
    DashboardRequest {
        url: DASHBOARD_BASE.to_string().concat("/").concat(method),
        authorization: "Bearer ".to_string().concat(token),
        content_type: "application/json".to_string(),
        protocol_version: "1".to_string(),
    }
}

/// At most the given number of characters.
pub open spec fn beginning(text: Seq<char>, count: int) -> Seq<char> {
    text.take(if count < text.len() { count } else { text.len() as int })
}

/// The body of a reply, or the error that the reply amounts to.
pub fn dashboard_post(method: &str, reply: DashboardReply) -> (r: Result<ReplyBody, AppError>)
    ensures
        match (reply, r) {
            (DashboardReply::NotSent(cause), Err(e)) => e@ == ErrorView::Message(
                "请求 Cursor "@ + method@ + " 失败: "@ + cause@,
            ),
            (DashboardReply::NotRead(cause), Err(e)) => e@ == ErrorView::Message(
                "读取 Cursor "@ + method@ + " 响应失败: "@ + cause@,
            ),
            (DashboardReply::Answered { code, status, text }, Err(e)) => {
                &&& !(200 <= code < 300)
                &&& e@ == ErrorView::Message(
                    "Cursor "@ + method@ + " HTTP "@ + status@ + ": "@ + beginning(
                        text@,
                        QUOTED_CHARS as int,
                    ),
                )
            },
            (DashboardReply::Answered { code, status, text }, Ok(body)) => {
                &&& 200 <= code < 300
                &&& match body {
                    ReplyBody::Blank => trimmed(text@).len() == 0,
                    ReplyBody::Json(json) => trimmed(text@).len() > 0 && json@ == text@,
                }
            },
            _ => false,
        },
{
    match reply {
        DashboardReply::NotSent(cause) => Err(
            AppError::Message(
                "请求 Cursor ".to_string().concat(method).concat(" 失败: ").concat(
                    cause.as_str(),
                ),
            ),
        ),
        DashboardReply::NotRead(cause) => Err(
            AppError::Message(
                "读取 Cursor ".to_string().concat(method).concat(" 响应失败: ").concat(
                    cause.as_str(),
                ),
            ),
        ),
        DashboardReply::Answered { code, status, text } => {
            if !(200 <= code && code < 300) {
                let quoted: String = take_chars(text.as_str(), QUOTED_CHARS);
                return Err(
                    AppError::Message(
                        "Cursor ".to_string().concat(method).concat(" HTTP ").concat(
                            status.as_str(),
                        ).concat(": ").concat(quoted.as_str()),
                    ),
                );
            }
            let bare: String = trim(text.as_str());
            if bare.as_str().is_empty() {
                Ok(ReplyBody::Blank)
            } else {
                Ok(ReplyBody::Json(text))
            }
        },
    }
}

/// The error for a reply that is no JSON document.
pub fn malformed_reply(method: &str, cause: &str) -> (r: AppError)
    ensures
        r@ == ErrorView::Message("解析 Cursor "@ + method@ + " 响应失败: "@ + cause@),
{
    AppError::Message(
        "解析 Cursor ".to_string().concat(method).concat(" 响应失败: ").concat(cause),
    )
}

/// The token for a request, or the error that there is none.
pub fn require_token(token: Option<String>) -> (r: Result<String, AppError>)
    ensures
        match (token, r) {
            (Some(token), Ok(found)) => found == token,
            (None, Err(e)) => e@ == ErrorView::Message("cursor_auth_missing"@),
            _ => false,
        },
{
    match token {
        Some(token) => Ok(token),
        None => Err(AppError::Message("cursor_auth_missing".to_string())),
    }
}

/// The body of the request for a page.
pub fn fetch_page(start_date_ms: i64, page: u32, now_ms: i64) -> (r: JsonValue)
    ensures
        r matches JsonValue::Object(map) && map@.dom() == set![
            "page"@,
            "pageSize"@,
            "startDate"@,
            "endDate"@,
        ],
        r.member("page"@) == Some(JsonValue::Unsigned(page as u64)),
        r.member("pageSize"@) == Some(JsonValue::Unsigned(PAGE_SIZE as u64)),
        r.member("startDate"@) matches Some(v) && v.text() == Some(decimal(start_date_ms as int)),
        r.member("endDate"@) matches Some(v) && v.text() == Some(decimal(now_ms as int)),
{
    proof {
        reveal_strlit("page");
        reveal_strlit("pageSize");
        reveal_strlit("startDate");
        reveal_strlit("endDate");
        assert("page"@.len() == 4 && "pageSize"@.len() == 8 && "startDate"@.len() == 9
            && "endDate"@.len() == 7);
    }
    let mut map: StrMap<JsonValue> = StrMap::new();
    map.insert("page".to_string(), JsonValue::Unsigned(page as u64));
    map.insert("pageSize".to_string(), JsonValue::Unsigned(PAGE_SIZE as u64));
    map.insert("startDate".to_string(), JsonValue::Text(decimal_text(start_date_ms)));
    map.insert("endDate".to_string(), JsonValue::Text(decimal_text(now_ms)));
    assert(map@.dom() =~= set!["page"@, "pageSize"@, "startDate"@, "endDate"@]);
    JsonValue::Object(map)
}

/// What is to be deleted before the first run of the current kind: nothing once
/// a watermark of this kind exists, otherwise all that runs of earlier kinds
/// left behind.
pub fn reset_inflated_cursor_usage(already: i64) -> (r: Option<UsageReset>)
    ensures
        r is Some == (already <= 0),
        r matches Some(reset) ==> {
            &&& reset.data_source@ == DATA_SOURCE@
            &&& views(reset.provider_ids@) == seq![
                PROVIDER_PLACEHOLDER@,
                PROVIDER_FIRST_PARTY@,
                PROVIDER_THIRD_PARTY@,
            ]
            &&& views(reset.sync_keys@) == seq![
                LEGACY_SYNC_KEY_1@,
                LEGACY_SYNC_KEY_2@,
                LEGACY_SYNC_KEY_3@,
            ]
        },
{
    if already > 0 {
        return None;
    }
    let provider_ids: Vec<String> = vec![
        PROVIDER_PLACEHOLDER.to_string(),
        PROVIDER_FIRST_PARTY.to_string(),
        PROVIDER_THIRD_PARTY.to_string(),
    ];
    let sync_keys: Vec<String> = vec![
        LEGACY_SYNC_KEY_1.to_string(),
        LEGACY_SYNC_KEY_2.to_string(),
        LEGACY_SYNC_KEY_3.to_string(),
    ];
    assert(views(provider_ids@) =~= seq![
        PROVIDER_PLACEHOLDER@,
        PROVIDER_FIRST_PARTY@,
        PROVIDER_THIRD_PARTY@,
    ]);
    assert(views(sync_keys@) =~= seq![LEGACY_SYNC_KEY_1@, LEGACY_SYNC_KEY_2@, LEGACY_SYNC_KEY_3@]);
    Some(UsageReset { data_source: DATA_SOURCE.to_string(), provider_ids, sync_keys })
}

/// How the message about a failed database step begins.
pub open spec fn database_heading(step: DatabaseStep) -> Seq<char> {
    match step {
        DatabaseStep::BeginReset => "清理 Cursor 用量失败: "@,
        DatabaseStep::DeleteLogs => "清理 Cursor 用量明细失败: "@,
        DatabaseStep::DeleteWatermarks => "清理 Cursor 同步游标失败: "@,
        DatabaseStep::CommitReset => "提交 Cursor 用量清理失败: "@,
        DatabaseStep::StoreWatermark => "写入 Cursor 同步游标失败: "@,
        DatabaseStep::BeginInsert => "Cursor 用量事务失败: "@,
        DatabaseStep::InsertEvent => "写入 Cursor 用量失败: "@,
        DatabaseStep::CommitInsert => "提交 Cursor 用量失败: "@,
    }
}

/// The error for a failed database step.
pub fn database_failure(step: DatabaseStep, cause: &str) -> (r: AppError)
    ensures
        r@ == ErrorView::Database(database_heading(step) + cause@),
{
    let heading: &str = match step {
        DatabaseStep::BeginReset => "清理 Cursor 用量失败: ",
        DatabaseStep::DeleteLogs => "清理 Cursor 用量明细失败: ",
        DatabaseStep::DeleteWatermarks => "清理 Cursor 同步游标失败: ",
        DatabaseStep::CommitReset => "提交 Cursor 用量清理失败: ",
        DatabaseStep::StoreWatermark => "写入 Cursor 同步游标失败: ",
        DatabaseStep::BeginInsert => "Cursor 用量事务失败: ",
        DatabaseStep::InsertEvent => "写入 Cursor 用量失败: ",
        DatabaseStep::CommitInsert => "提交 Cursor 用量失败: ",
    };
    AppError::Database(heading.to_string().concat(cause))
}

/// The watermark, given the stored one: zero where there is none.
pub fn load_watermark(stored: Option<i64>) -> (r: i64)
    ensures
        r == match stored {
            Some(timestamp_ms) => timestamp_ms,
            None => 0,
        },
{
    match stored {
        Some(timestamp_ms) => timestamp_ms,
        None => 0,
    }
}

/// The watermark to store: the later of the stored one and the new one.
pub open spec fn later_watermark(stored: Option<i64>, timestamp_ms: i64) -> i64 {
    match stored {
        Some(kept) if kept > timestamp_ms => kept,
        _ => timestamp_ms,
    }
}

/// The watermark to store: the later of the stored one and the new one.
pub fn store_watermark(stored: Option<i64>, timestamp_ms: i64) -> (r: i64)
    ensures
        r == later_watermark(stored, timestamp_ms),
{
    match stored {
        Some(kept) => if kept > timestamp_ms {
            kept
        } else {
            timestamp_ms
        },
        None => timestamp_ms,
    }
}

/// The row of an event in the shared log.
pub fn cursor_log_row(event: &CursorUsageEvent, input_token_semantics: i64) -> (r: CursorLogRow)
    ensures
        r.request_id@ == event.request_id@,
        r.provider_id@ == event.provider_id@,
        r.app_type@ == APP_TYPE@,
        r.model@ == event.model@,
        r.input_tokens == event.input_tokens,
        r.output_tokens == event.output_tokens,
        r.cache_read_tokens == event.cache_read_tokens,
        r.cache_creation_tokens == event.cache_write_tokens,
        r.input_cost_usd@ == "0"@,
        r.output_cost_usd@ == "0"@,
        r.cache_read_cost_usd@ == "0"@,
        r.cache_creation_cost_usd@ == "0"@,
        r.total_cost_usd@ == event.cost_usd@,
        r.latency_ms == 0,
        r.status_code == event.status_code,
        r.session_id@ == event.conversation_id@,
        r.provider_type@ == DATA_SOURCE@,
        r.is_streaming == 1,
        r.cost_multiplier@ == "1"@,
        r.created_at == thousands(event.timestamp_ms as int),
        r.data_source@ == DATA_SOURCE@,
        r.input_token_semantics == input_token_semantics,
{
    let created_at: i64 = if event.timestamp_ms < 0 {
        -((-(event.timestamp_ms as i128) / 1000) as i64)
    } else {
        event.timestamp_ms / 1000
    };
    CursorLogRow {
        request_id: event.request_id.clone(),
        provider_id: event.provider_id.clone(),
        app_type: APP_TYPE.to_string(),
        model: event.model.clone(),
        input_tokens: event.input_tokens,
        output_tokens: event.output_tokens,
        cache_read_tokens: event.cache_read_tokens,
        cache_creation_tokens: event.cache_write_tokens,
        input_cost_usd: "0".to_string(),
        output_cost_usd: "0".to_string(),
        cache_read_cost_usd: "0".to_string(),
        cache_creation_cost_usd: "0".to_string(),
        total_cost_usd: event.cost_usd.clone(),
        latency_ms: 0,
        status_code: event.status_code,
        session_id: event.conversation_id.clone(),
        provider_type: DATA_SOURCE.to_string(),
        is_streaming: 1,
        cost_multiplier: "1".to_string(),
        created_at,
        data_source: DATA_SOURCE.to_string(),
        input_token_semantics,
    }
}

/// How many of the rows were new.
pub open spec fn new_rows(written: Seq<bool>) -> nat {
    written.filter(|w: bool| w).len()
}

/// How many of the rows were there already.
pub open spec fn known_rows(written: Seq<bool>) -> nat {
    written.filter(|w: bool| !w).len()
}

/// How many events were imported and how many skipped, given for each whether
/// its row was new.
pub fn insert_events(written: &[bool]) -> (r: (u32, u32))
    requires
        written@.len() <= u32::MAX,
    ensures
        r.0 == new_rows(written@),
        r.1 == known_rows(written@),
{
    let ghost yes = |w: bool| w;
    let ghost no = |w: bool| !w;
    let mut imported: u32 = 0;
    let mut skipped: u32 = 0;
    let mut i: usize = 0;
    proof {
        reveal(Seq::filter);
        assert(written@.take(0) =~= Seq::<bool>::empty());
    }
    while i < written.len()
        invariant
            i <= written@.len() <= u32::MAX,
            yes == (|w: bool| w),
            no == (|w: bool| !w),
            imported == written@.take(i as int).filter(yes).len(),
            skipped == written@.take(i as int).filter(no).len(),
            imported + skipped == i,
        decreases written.len() - i,
    {
        proof {
            let done = written@.take(i as int);
            assert(written@.take(i + 1) =~= done.push(written@[i as int]));
            done.lemma_filter_push(written@[i as int], yes);
            done.lemma_filter_push(written@[i as int], no);
        }
        if written[i] {
            imported += 1;
        } else {
            skipped += 1;
        }
        i += 1;
    }
    assert(written@.take(i as int) =~= written@);
    (imported, skipped)
}

/// Where the first page starts: one hour before the watermark; without a
/// watermark at the start of the billing period or, where that is not known,
/// thirty days ago.
pub open spec fn start_date(watermark: i64, billing_start: Option<i64>, now_ms: i64) -> int {
    if watermark > 0 {
        bounded_difference(watermark, OVERLAP_MS)
    } else {
        match billing_start {
            Some(start) => start as int,
            None => bounded_difference(now_ms, FIRST_SYNC_LOOKBACK_MS),
        }
    }
}

/// The start of the billing period, as the dashboard reports it.
pub fn billing_cycle_start(period: &JsonValue) -> (r: Option<i64>)
    ensures
        r == integer_in(period.member("billingCycleStart"@)),
{
    json_number_i64(period.get("billingCycleStart"))
}

/// The latest of a time and the times of some events.
pub open spec fn latest(floor: i64, events: Seq<CursorUsageEvent>) -> i64
    decreases events.len(),
{
    if events.len() == 0 {
        floor
    } else {
        let before = latest(floor, events.drop_last());
        if events.last().timestamp_ms > before {
            events.last().timestamp_ms
        } else {
            before
        }
    }
}

fn latest_timestamp(floor: i64, events: &Vec<CursorUsageEvent>) -> (r: i64)
    ensures
        r == latest(floor, events@),
{
    let mut max_ts: i64 = floor;
    let mut i: usize = 0;
    assert(events@.take(0) =~= Seq::<CursorUsageEvent>::empty());
    while i < events.len()
        invariant
            i <= events@.len(),
            max_ts == latest(floor, events@.take(i as int)),
        decreases events.len() - i,
    {
        assert(events@.take(i + 1).drop_last() =~= events@.take(i as int));
        if events[i].timestamp_ms > max_ts {
            max_ts = events[i].timestamp_ms;
        }
        i += 1;
    }
    assert(events@.take(i as int) =~= events@);
    max_ts
}

/// Whether a page is the last one to fetch: all events were fetched, or the
/// page was not full, or the run has fetched enough.
pub open spec fn is_last_page(page: u32, size: PageSize) -> bool {
    ||| page * PAGE_SIZE >= size.total
    ||| size.count as int % 0x1_0000_0000 < PAGE_SIZE
    ||| page >= MAX_PAGES_PER_RUN
}

impl SyncRun {
    /// The page is one of those that a run may fetch.
    pub open spec fn wf(self) -> bool {
        1 <= self.page <= MAX_PAGES_PER_RUN
    }

    /// What the run has counted: imported and skipped events, and pages.
    pub open spec fn counts(self) -> (int, int, int) {
        (self.imported as int, self.skipped as int, self.files_scanned as int)
    }

    /// The end of the run.
    pub open spec fn finish(self) -> SyncAction {
        SyncAction::Finish {
            imported: self.imported,
            skipped: self.skipped,
            files_scanned: self.files_scanned,
        }
    }
}

impl SyncState {
    /// The run, if pages are being fetched.
    pub open spec fn run(self) -> Option<SyncRun> {
        match self {
            SyncState::Fetching { run, again: _ } => Some(run),
            SyncState::Rereading { run } => Some(run),
            SyncState::Inserting { run, size: _ } => Some(run),
            SyncState::Storing { run, size: _ } => Some(run),
            _ => None,
        }
    }

    /// The run, if there is one, is on a page that it may fetch.
    pub open spec fn wf(self) -> bool {
        self.run() matches Some(run) ==> run.wf()
    }

    /// Whether this is what the state waits for.
    pub open spec fn awaits(self, event: SyncEvent) -> bool {
        match self {
            SyncState::Start => event is Token,
            SyncState::Preparing => event is Prepared,
            SyncState::Fetching { .. } => event is Page || event is PageRefused,
            SyncState::Rereading { .. } => event is Token,
            SyncState::Inserting { .. } => event is Inserted,
            SyncState::Storing { .. } => event is Stored,
            SyncState::Finished => false,
        }
    }
}

/// What follows when a page is done.
pub open spec fn after_page(run: SyncRun, size: PageSize) -> (SyncState, SyncAction) {
    if is_last_page(run.page, size) {
        (SyncState::Finished, run.finish())
    } else {
        let next = SyncRun { page: (run.page + 1) as u32, ..run };
        (
            SyncState::Fetching { run: next, again: false },
            SyncAction::Fetch { page: next.page, start_date_ms: next.start_date_ms },
        )
    }
}

/// What follows when an event comes. An event that the state does not await
/// ends the run.
pub open spec fn sync_step(state: SyncState, event: SyncEvent) -> (SyncState, SyncAction) {
    match (state, event) {
        // Without a token nothing is done.
        (SyncState::Start, SyncEvent::Token(found)) => if found {
            (SyncState::Preparing, SyncAction::Prepare)
        } else {
            (
                SyncState::Finished,
                SyncAction::Finish { imported: 0, skipped: 0, files_scanned: 0 },
            )
        },
        (SyncState::Preparing, SyncEvent::Prepared { watermark, billing_start, now_ms }) => {
            let start_date_ms = start_date(watermark, billing_start, now_ms) as i64;
            let run = SyncRun {
                start_date_ms,
                page: 1,
                max_ts: watermark,
                imported: 0,
                skipped: 0,
                files_scanned: 0,
            };
            (
                SyncState::Fetching { run, again: false },
                SyncAction::Fetch { page: 1, start_date_ms },
            )
        },
        // A page without events is the end.
        (SyncState::Fetching { run, again: _ }, SyncEvent::Page(page)) => {
            let scanned = SyncRun {
                files_scanned: capped(run.files_scanned + 1) as u32,
                max_ts: latest(run.max_ts, page.events@),
                ..run
            };
            if page.events@.len() == 0 {
                (SyncState::Finished, scanned.finish())
            } else {
                (
                    SyncState::Inserting {
                        run: scanned,
                        size: PageSize {
                            count: page.events@.len() as usize,
                            total: page.total,
                        },
                    },
                    SyncAction::Insert,
                )
            }
        },
        // The token may have been replaced just before the first page.
        (SyncState::Fetching { run, again }, SyncEvent::PageRefused(error)) => if run.page == 1
            && !again && has_text(error@, "HTTP 401"@) {
            (SyncState::Rereading { run }, SyncAction::RereadToken)
        } else {
            (SyncState::Finished, SyncAction::Fail)
        },
        (SyncState::Rereading { run }, SyncEvent::Token(found)) => if found {
            (
                SyncState::Fetching { run, again: true },
                SyncAction::Fetch { page: run.page, start_date_ms: run.start_date_ms },
            )
        } else {
            (SyncState::Finished, SyncAction::Fail)
        },
        (SyncState::Inserting { run, size }, SyncEvent::Inserted { imported, skipped }) => {
            let counted = SyncRun {
                imported: capped(run.imported + imported) as u32,
                skipped: capped(run.skipped + skipped) as u32,
                ..run
            };
            if run.max_ts > 0 {
                (
                    SyncState::Storing { run: counted, size },
                    SyncAction::Store { timestamp_ms: run.max_ts },
                )
            } else {
                after_page(counted, size)
            }
        },
        (SyncState::Storing { run, size }, SyncEvent::Stored) => after_page(run, size),
        _ => (SyncState::Finished, SyncAction::Fail),
    }
}

fn page_done(run: SyncRun, size: PageSize) -> (r: (SyncState, SyncAction))
    requires
        run.wf(),
    ensures
        r == after_page(run, size),
        r.0.wf(),
{
    assert(run.page * PAGE_SIZE <= 2000) by (nonlinear_arith)
        requires
            run.page <= 20,
            PAGE_SIZE == 100,
    ;
    let fetched: u64 = run.page as u64 * PAGE_SIZE as u64;
    if fetched >= size.total || (size.count as u64 % 0x1_0000_0000) < PAGE_SIZE as u64 || run.page
        >= MAX_PAGES_PER_RUN {
        return (
            SyncState::Finished,
            SyncAction::Finish {
                imported: run.imported,
                skipped: run.skipped,
                files_scanned: run.files_scanned,
            },
        );
    }
    let page: u32 = run.page + 1;
    (
        SyncState::Fetching { run: SyncRun { page, ..run }, again: false },
        SyncAction::Fetch { page, start_date_ms: run.start_date_ms },
    )
}

/// The next step of a run that copies the events of the dashboard into the
/// shared log.
pub fn sync_cursor_usage(state: SyncState, event: &SyncEvent) -> (r: (SyncState, SyncAction))
    requires
        state.wf(),
    ensures
        r == sync_step(state, *event),
        r.0.wf(),
{
    match (state, event) {
        (SyncState::Start, SyncEvent::Token(found)) => if *found {
            (SyncState::Preparing, SyncAction::Prepare)
        } else {
            (
                SyncState::Finished,
                SyncAction::Finish { imported: 0, skipped: 0, files_scanned: 0 },
            )
        },
        (SyncState::Preparing, SyncEvent::Prepared { watermark, billing_start, now_ms }) => {
            let start_date_ms: i64 = if *watermark > 0 {
                minus(*watermark, OVERLAP_MS)
            } else {
                match billing_start {
                    Some(start) => *start,
                    None => minus(*now_ms, FIRST_SYNC_LOOKBACK_MS),
                }
            };
            let run = SyncRun {
                start_date_ms,
                page: 1,
                max_ts: *watermark,
                imported: 0,
                skipped: 0,
                files_scanned: 0,
            };
            (
                SyncState::Fetching { run, again: false },
                SyncAction::Fetch { page: 1, start_date_ms },
            )
        },
        (SyncState::Fetching { run, again: _ }, SyncEvent::Page(page)) => {
            let files_scanned: u32 = run.files_scanned.saturating_add(1);
            if page.events.len() == 0 {
                return (
                    SyncState::Finished,
                    SyncAction::Finish {
                        imported: run.imported,
                        skipped: run.skipped,
                        files_scanned,
                    },
                );
            }
            let max_ts: i64 = latest_timestamp(run.max_ts, &page.events);
            let size = PageSize { count: page.events.len(), total: page.total };
            (
                SyncState::Inserting { run: SyncRun { files_scanned, max_ts, ..run }, size },
                SyncAction::Insert,
            )
        },
        (SyncState::Fetching { run, again }, SyncEvent::PageRefused(error)) => if run.page == 1
            && !again && contains(error.as_str(), "HTTP 401") {
            (SyncState::Rereading { run }, SyncAction::RereadToken)
        } else {
            (SyncState::Finished, SyncAction::Fail)
        },
        (SyncState::Rereading { run }, SyncEvent::Token(found)) => if *found {
            (
                SyncState::Fetching { run, again: true },
                SyncAction::Fetch { page: run.page, start_date_ms: run.start_date_ms },
            )
        } else {
            (SyncState::Finished, SyncAction::Fail)
        },
        (SyncState::Inserting { run, size }, SyncEvent::Inserted { imported, skipped }) => {
            let counted = SyncRun {
                imported: run.imported.saturating_add(*imported),
                skipped: run.skipped.saturating_add(*skipped),
                ..run
            };
            if run.max_ts > 0 {
                (
                    SyncState::Storing { run: counted, size },
                    SyncAction::Store { timestamp_ms: run.max_ts },
                )
            } else {
                page_done(counted, size)
            }
        },
        (SyncState::Storing { run, size }, SyncEvent::Stored) => page_done(run, size),
        _ => (SyncState::Finished, SyncAction::Fail),
    }
}

/// How many steps a run can still take.
pub open spec fn steps_left(state: SyncState) -> int {
    match state {
        SyncState::Start => 5 * MAX_PAGES_PER_RUN + 2,
        SyncState::Preparing => 5 * MAX_PAGES_PER_RUN + 1,
        SyncState::Fetching { run, again } => 5 * (MAX_PAGES_PER_RUN - run.page) + if again {
            3int
        } else {
            5
        },
        SyncState::Rereading { run } => 5 * (MAX_PAGES_PER_RUN - run.page) + 4,
        SyncState::Inserting { run, size: _ } => 5 * (MAX_PAGES_PER_RUN - run.page) + 2,
        SyncState::Storing { run, size: _ } => 5 * (MAX_PAGES_PER_RUN - run.page) + 1,
        SyncState::Finished => 0,
    }
}

/// Every run comes to an end: each step leaves fewer steps to take, and no run
/// asks for more than the allowed number of pages.
pub proof fn law_runs_come_to_an_end(state: SyncState, event: SyncEvent)
    requires
        state.wf(),
        state.awaits(event),
    ensures
        0 <= steps_left(sync_step(state, event).0) < steps_left(state),
        sync_step(state, event).0.wf(),
        sync_step(state, event).1 matches SyncAction::Fetch { page, .. } ==> 1 <= page
            <= MAX_PAGES_PER_RUN,
{
}

/// What a step reports: the counts of the run, or the ones it ends with.
pub open spec fn counted(step: (SyncState, SyncAction)) -> (int, int, int) {
    match (step.0.run(), step.1) {
        (Some(run), _) => run.counts(),
        (None, SyncAction::Finish { imported, skipped, files_scanned }) => (
            imported as int,
            skipped as int,
            files_scanned as int,
        ),
        _ => (0, 0, 0),
    }
}

/// What an event adds to the counts.
pub open spec fn contribution(event: SyncEvent) -> (int, int, int) {
    match event {
        SyncEvent::Page(_) => (0, 0, 1),
        SyncEvent::Inserted { imported, skipped } => (imported as int, skipped as int, 0),
        _ => (0, 0, 0),
    }
}

/// Every page and every inserted event is counted, and what was counted is what
/// the run reports at its end, unless it fails.
pub proof fn law_counts_are_kept(state: SyncState, event: SyncEvent)
    requires
        state.awaits(event),
        state.run() is Some,
        !(sync_step(state, event).1 is Fail),
    ensures
        ({
            let (imported, skipped, scanned) = state.run()->0.counts();
            let (more_imported, more_skipped, more_scanned) = contribution(event);
            counted(sync_step(state, event)) == (
                capped(imported + more_imported),
                capped(skipped + more_skipped),
                capped(scanned + more_scanned),
            )
        }),
{
}

/// The latest time is not before the one a page was started with, nor before
/// any event of the page, and is one of these.
pub proof fn law_latest_time(floor: i64, events: Seq<CursorUsageEvent>)
    ensures
        latest(floor, events) >= floor,
        forall|i: int|
            0 <= i < events.len() ==> latest(floor, events) >= (
            #[trigger] events[i]).timestamp_ms,
        latest(floor, events) == floor || exists|i: int|
            0 <= i < events.len() && latest(floor, events) == (#[trigger] events[i]).timestamp_ms,
    decreases events.len(),
{
    if events.len() > 0 {
        let front = events.drop_last();
        law_latest_time(floor, front);
        assert forall|i: int| 0 <= i < events.len() implies latest(floor, events) >= (
        #[trigger] events[i]).timestamp_ms by {
            if i < front.len() {
                assert(front[i] == events[i]);
            }
        }
        if latest(floor, events) == events.last().timestamp_ms {
            assert(events[events.len() - 1].timestamp_ms == latest(floor, events));
        } else if latest(floor, front) != floor {
            let i = choose|i: int|
                0 <= i < front.len() && latest(floor, front) == (#[trigger] front[i]).timestamp_ms;
            assert(events[i].timestamp_ms == latest(floor, events));
        }
    }
}

/// In a run the latest time never falls back, and only a positive one that the
/// run has seen is stored.
pub proof fn law_latest_time_never_falls_back(state: SyncState, event: SyncEvent)
    requires
        state.wf(),
        state.awaits(event),
        state.run() is Some,
    ensures
        sync_step(state, event).0.run() matches Some(run) ==> run.max_ts >= state.run()->0.max_ts,
        sync_step(state, event).1 matches SyncAction::Store { timestamp_ms } ==> timestamp_ms > 0
            && timestamp_ms == state.run()->0.max_ts,
{
    if let SyncEvent::Page(page) = event {
        law_latest_time(state.run()->0.max_ts, page.events@);
    }
}

/// Where a run stands after the given events.
pub open spec fn state_after(events: Seq<SyncEvent>) -> SyncState
    decreases events.len(),
{
    if events.len() == 0 {
        SyncState::Start
    } else {
        sync_step(state_after(events.drop_last()), events.last()).0
    }
}

/// What a run does after the given events.
pub open spec fn action_after(events: Seq<SyncEvent>) -> SyncAction {
    sync_step(state_after(events.drop_last()), events.last()).1
}

/// Whether each event is one that the run waited for.
pub open spec fn is_run(events: Seq<SyncEvent>) -> bool
    decreases events.len(),
{
    events.len() > 0 ==> is_run(events.drop_last()) && state_after(events.drop_last()).awaits(
        events.last(),
    )
}

/// How many pages came.
pub open spec fn pages_in(events: Seq<SyncEvent>) -> nat
    decreases events.len(),
{
    if events.len() == 0 {
        0
    } else {
        pages_in(events.drop_last()) + if events.last() is Page {
            1nat
        } else {
            0
        }
    }
}

/// How many events were imported, and how many skipped.
pub open spec fn inserted_in(events: Seq<SyncEvent>) -> (int, int)
    decreases events.len(),
{
    if events.len() == 0 {
        (0, 0)
    } else {
        let before = inserted_in(events.drop_last());
        match events.last() {
            SyncEvent::Inserted { imported, skipped } => (
                before.0 + imported,
                before.1 + skipped,
            ),
            _ => before,
        }
    }
}

/// The usage events on all pages, in order.
pub open spec fn usage_in(events: Seq<SyncEvent>) -> Seq<CursorUsageEvent>
    decreases events.len(),
{
    if events.len() == 0 {
        Seq::empty()
    } else {
        let before = usage_in(events.drop_last());
        match events.last() {
            SyncEvent::Page(page) => before + page.events@,
            _ => before,
        }
    }
}

/// The watermark that the run began with; zero before it is known.
pub open spec fn watermark_in(events: Seq<SyncEvent>) -> i64
    decreases events.len(),
{
    if events.len() == 0 {
        0
    } else {
        match events.last() {
            SyncEvent::Prepared { watermark, .. } => watermark,
            _ => watermark_in(events.drop_last()),
        }
    }
}

/// The time that was stored last.
pub open spec fn last_stored(events: Seq<SyncEvent>) -> Option<i64>
    decreases events.len(),
{
    if events.len() == 0 {
        None
    } else {
        match action_after(events) {
            SyncAction::Store { timestamp_ms } => Some(timestamp_ms),
            _ => last_stored(events.drop_last()),
        }
    }
}

/// The latest of the first watermark and the times of all usage events.
pub open spec fn latest_in(events: Seq<SyncEvent>) -> i64 {
    latest(watermark_in(events), usage_in(events))
}

/// What has to have been stored once the pages that came are done: the latest
/// time, if it is positive and there were any usage events.
pub open spec fn due_store(events: Seq<SyncEvent>) -> Option<i64> {
    if usage_in(events).len() > 0 && latest_in(events) > 0 {
        Some(latest_in(events))
    } else {
        None
    }
}

/// Over a whole run: the pages are asked for in order, from the first; what the
/// run reports at its end are the sums over its pages, up to the greatest count;
/// what it stores is the latest of the first watermark and the times of all
/// usage events so far, and at its end, also where a page was refused, that is
/// the time that was stored last.
pub proof fn law_whole_run(events: Seq<SyncEvent>)
    requires
        is_run(events),
        events.len() > 0,
    ensures
        match action_after(events) {
            SyncAction::Fetch { page, start_date_ms: _ } => page == pages_in(events) + 1,
            SyncAction::Store { timestamp_ms } => timestamp_ms == latest_in(events),
            SyncAction::Finish { imported, skipped, files_scanned } => {
                &&& imported == capped(inserted_in(events).0)
                &&& skipped == capped(inserted_in(events).1)
                &&& files_scanned == capped(pages_in(events) as int)
                &&& last_stored(events) == due_store(events)
            },
            SyncAction::Fail => last_stored(events) == due_store(events),
            _ => true,
        },
        pages_in(events) <= MAX_PAGES_PER_RUN,
{
    lemma_run(events.drop_last());
    lemma_run_step(events);
}

/// What holds of the state that a run has reached.
spec fn reached(events: Seq<SyncEvent>) -> bool {
    let state = state_after(events);
    &&& state.wf()
    &&& pages_in(events) <= MAX_PAGES_PER_RUN
    &&& inserted_in(events).0 >= 0 && inserted_in(events).1 >= 0
    &&& state.run() matches Some(run) ==> {
        &&& run.counts() == (
            capped(inserted_in(events).0),
            capped(inserted_in(events).1),
            capped(pages_in(events) as int),
        )
        &&& run.max_ts == latest_in(events)
    }
    &&& match state {
        SyncState::Start => pages_in(events) == 0 && usage_in(events).len() == 0 && inserted_in(
            events,
        ) == (0int, 0int) && last_stored(events) is None,
        SyncState::Preparing => pages_in(events) == 0 && usage_in(events).len() == 0
            && inserted_in(events) == (0int, 0int) && last_stored(events) is None,
        SyncState::Fetching { run, again: _ } => run.page == pages_in(events) + 1 && last_stored(
            events,
        ) == due_store(events),
        SyncState::Rereading { run } => run.page == pages_in(events) + 1 && last_stored(events)
            == due_store(events),
        SyncState::Inserting { run, size: _ } => {
            &&& run.page == pages_in(events)
            &&& usage_in(events).len() > 0
            &&& latest_in(events) <= 0 ==> last_stored(events) is None
        },
        SyncState::Storing { run, size: _ } => run.page == pages_in(events) && last_stored(events)
            == due_store(events),
        SyncState::Finished => true,
    }
}

proof fn lemma_run(events: Seq<SyncEvent>)
    requires
        is_run(events),
    ensures
        reached(events),
    decreases events.len(),
{
    if events.len() > 0 {
        lemma_run(events.drop_last());
        lemma_run_step(events);
    }
}

proof fn lemma_run_step(events: Seq<SyncEvent>)
    requires
        is_run(events),
        events.len() > 0,
        reached(events.drop_last()),
    ensures
        reached(events),
        match action_after(events) {
            SyncAction::Fetch { page, start_date_ms: _ } => page == pages_in(events) + 1,
            SyncAction::Store { timestamp_ms } => timestamp_ms == latest_in(events),
            SyncAction::Finish { imported, skipped, files_scanned } => {
                &&& imported == capped(inserted_in(events).0)
                &&& skipped == capped(inserted_in(events).1)
                &&& files_scanned == capped(pages_in(events) as int)
                &&& last_stored(events) == due_store(events)
            },
            SyncAction::Fail => last_stored(events) == due_store(events),
            _ => true,
        },
{
    let front = events.drop_last();
    if let SyncEvent::Page(page) = events.last() {
        lemma_latest_of_both(watermark_in(front), usage_in(front), page.events@);
        law_latest_time(latest_in(front), page.events@);
        if page.events@.len() == 0 {
            assert(usage_in(events) =~= usage_in(front));
        }
    }
    if usage_in(front).len() == 0 {
        assert(usage_in(front) =~= Seq::<CursorUsageEvent>::empty());
    }
}

proof fn lemma_latest_of_both(
    floor: i64,
    a: Seq<CursorUsageEvent>,
    b: Seq<CursorUsageEvent>,
)
    ensures
        latest(floor, a + b) == latest(latest(floor, a), b),
    decreases b.len(),
{
    if b.len() == 0 {
        assert(a + b =~= a);
    } else {
        lemma_latest_of_both(floor, a, b.drop_last());
        assert((a + b).drop_last() =~= a + b.drop_last());
    }
}

/// The stored watermark never falls back, and with a watermark the next run
/// starts exactly one hour before it: no event since then is left out.
pub proof fn law_stored_watermark_never_falls_back(
    stored: Option<i64>,
    timestamp_ms: i64,
    billing_start: Option<i64>,
    now_ms: i64,
)
    ensures
        later_watermark(stored, timestamp_ms) >= timestamp_ms,
        stored matches Some(kept) ==> later_watermark(stored, timestamp_ms) >= kept,
        timestamp_ms > 0 ==> start_date(
            later_watermark(stored, timestamp_ms),
            billing_start,
            now_ms,
        ) == later_watermark(stored, timestamp_ms) - OVERLAP_MS,
{
}

/// The row of an event in the log.
pub open spec fn event_row(event: EventView) -> LoggedRow<EventView> {
    LoggedRow { id: event.request_id, content: event }
}

/// The log after some events were put in, one after the other: an event whose
/// identifier is there already is ignored.
pub open spec fn insert_all(log: Seq<LoggedRow<EventView>>, events: Seq<EventView>) -> Seq<
    LoggedRow<EventView>,
>
    decreases events.len(),
{
    if events.len() == 0 {
        log
    } else {
        insert_or_ignore(insert_all(log, events.drop_last()), event_row(events.last()))
    }
}

/// Whether the flags say of each event if its identifier was not in the log when
/// its turn came.
pub open spec fn tell_new_rows(
    written: Seq<bool>,
    log: Seq<LoggedRow<EventView>>,
    events: Seq<EventView>,
) -> bool {
    &&& written.len() == events.len()
    &&& forall|i: int|
        0 <= i < events.len() ==> #[trigger] written[i] == !has_id(
            insert_all(log, events.take(i)),
            events[i].request_id,
        )
}

/// Putting events in keeps the rows that were there, in front of the new ones,
/// and afterwards the log has every event's identifier. Putting the same events
/// in again changes nothing. What is counted as imported is what the log grew
/// by; the second time nothing is.
pub proof fn law_insert_is_idempotent(
    log: Seq<LoggedRow<EventView>>,
    events: Seq<EventView>,
    written: Seq<bool>,
    again: Seq<bool>,
)
    requires
        tell_new_rows(written, log, events),
        tell_new_rows(again, insert_all(log, events), events),
    ensures
        insert_all(insert_all(log, events), events) == insert_all(log, events),
        log.is_prefix_of(insert_all(log, events)),
        forall|i: int|
            0 <= i < events.len() ==> has_id(
                insert_all(log, events),
                (#[trigger] events[i]).request_id,
            ),
        new_rows(written) == insert_all(log, events).len() - log.len(),
        new_rows(again) == 0,
        known_rows(again) == events.len(),
{
    let after = insert_all(log, events);
    lemma_insert_all(log, events);
    lemma_known_events(after, events);
    lemma_growth(log, events, written);
    lemma_growth(after, events, again);
    law_every_event_is_counted(again);
}

proof fn lemma_insert_all(log: Seq<LoggedRow<EventView>>, events: Seq<EventView>)
    ensures
        log.is_prefix_of(insert_all(log, events)),
        forall|i: int|
            0 <= i < events.len() ==> has_id(
                insert_all(log, events),
                (#[trigger] events[i]).request_id,
            ),
    decreases events.len(),
{
    if events.len() > 0 {
        let front = events.drop_last();
        let before = insert_all(log, front);
        let after = insert_all(log, events);
        lemma_insert_all(log, front);
        assert forall|i: int| 0 <= i < events.len() implies has_id(
            after,
            (#[trigger] events[i]).request_id,
        ) by {
            lemma_insert(before, event_row(events.last()), events[i].request_id);
            if i < front.len() {
                assert(front[i] == events[i]);
            }
        }
        assert(log =~= after.subrange(0, log.len() as int)) by {
            assert(log =~= before.subrange(0, log.len() as int));
        }
    } else {
        assert(log =~= log.subrange(0, log.len() as int));
    }
}

proof fn lemma_known_events(log: Seq<LoggedRow<EventView>>, events: Seq<EventView>)
    requires
        forall|i: int| 0 <= i < events.len() ==> has_id(log, (#[trigger] events[i]).request_id),
    ensures
        insert_all(log, events) == log,
    decreases events.len(),
{
    if events.len() > 0 {
        let front = events.drop_last();
        assert forall|i: int| 0 <= i < front.len() implies has_id(
            log,
            (#[trigger] front[i]).request_id,
        ) by {
            assert(front[i] == events[i]);
        }
        lemma_known_events(log, front);
        assert(has_id(log, events[events.len() - 1].request_id));
    }
}

proof fn lemma_growth(
    log: Seq<LoggedRow<EventView>>,
    events: Seq<EventView>,
    written: Seq<bool>,
)
    requires
        tell_new_rows(written, log, events),
    ensures
        new_rows(written) == insert_all(log, events).len() - log.len(),
    decreases events.len(),
{
    reveal(Seq::filter);
    if events.len() > 0 {
        let front = events.drop_last();
        let flags = written.drop_last();
        assert forall|i: int| 0 <= i < front.len() implies #[trigger] flags[i] == !has_id(
            insert_all(log, front.take(i)),
            front[i].request_id,
        ) by {
            assert(flags[i] == written[i]);
            assert(front.take(i) =~= events.take(i));
        }
        lemma_growth(log, front, flags);
        let last = events.len() - 1;
        assert(events.take(last) =~= front);
        assert(written[last] == !has_id(insert_all(log, front), events[last].request_id));
    }
}

/// Every event of a page is counted once, as imported or as skipped.
pub proof fn law_every_event_is_counted(written: Seq<bool>)
    ensures
        new_rows(written) + known_rows(written) == written.len(),
    decreases written.len(),
{
    reveal(Seq::filter);
    if written.len() > 0 {
        law_every_event_is_counted(written.drop_last());
    }
}

/// All pages of a run are pages of one window, the one that its start fixed: an
/// hour before the watermark; without a watermark from the start of the billing
/// period or, where that is not known, from thirty days before the run.
pub proof fn law_all_pages_are_of_one_window(events: Seq<SyncEvent>, k: int)
    requires
        is_run(events),
        0 <= k < events.len(),
        events[k] is Prepared,
        action_after(events) is Fetch,
    ensures
        match events[k] {
            SyncEvent::Prepared { watermark, billing_start, now_ms } => {
                let asked = action_after(events)->start_date_ms;
                &&& watermark > 0 ==> asked == watermark - 3_600_000
                &&& watermark <= 0 && billing_start is Some ==> asked == billing_start->0
                &&& watermark <= 0 && billing_start is None && now_ms - 2_592_000_000 >= i64::MIN
                    ==> asked == now_ms - 2_592_000_000
                &&& watermark <= 0 && billing_start is None && now_ms - 2_592_000_000 < i64::MIN
                    ==> asked == i64::MIN
            },
            _ => true,
        },
{
    lemma_window(events);
    lemma_window(events.drop_last());
}

/// Any two pages that a run asks for are pages of the same window, and a run
/// asks for pages only after its start was fixed.
pub proof fn law_the_window_never_moves(events: Seq<SyncEvent>, earlier: int)
    requires
        is_run(events),
        0 < earlier <= events.len(),
        action_after(events) is Fetch,
        action_after(events.take(earlier)) is Fetch,
    ensures
        action_after(events)->start_date_ms == action_after(events.take(earlier))->start_date_ms,
        exists|k: int| 0 <= k < earlier && (#[trigger] events[k]) is Prepared,
{
    let before = events.take(earlier);
    lemma_front_is_run(events, earlier);
    lemma_window(before);
    let k = choose|k: int| 0 <= k < before.len() && (#[trigger] before[k]) is Prepared;
    assert(events[k] == before[k]);
    law_all_pages_are_of_one_window(events, k);
    law_all_pages_are_of_one_window(before, k);
}

proof fn lemma_front_is_run(events: Seq<SyncEvent>, n: int)
    requires
        is_run(events),
        0 <= n <= events.len(),
    ensures
        is_run(events.take(n)),
    decreases events.len(),
{
    if n < events.len() {
        lemma_front_is_run(events.drop_last(), n);
        assert(events.drop_last().take(n) =~= events.take(n));
    } else {
        assert(events.take(n) =~= events);
    }
}

/// Where the run that a start leads to begins.
spec fn begins_as(event: SyncEvent, start_date_ms: i64) -> bool {
    event matches SyncEvent::Prepared { watermark, billing_start, now_ms } ==> start_date_ms
        == start_date(watermark, billing_start, now_ms)
}

proof fn lemma_window(events: Seq<SyncEvent>)
    requires
        is_run(events),
    ensures
        state_after(events) is Start || state_after(events) is Preparing ==> forall|k: int|
            0 <= k < events.len() ==> !((#[trigger] events[k]) is Prepared),
        state_after(events).run() matches Some(run) ==> {
            &&& forall|k: int|
                0 <= k < events.len() ==> begins_as(#[trigger] events[k], run.start_date_ms)
            &&& exists|k: int| 0 <= k < events.len() && (#[trigger] events[k]) is Prepared
        },
        events.len() > 0 && action_after(events) is Fetch ==> {
            &&& forall|k: int|
                0 <= k < events.len() ==> begins_as(
                    #[trigger] events[k],
                    action_after(events)->start_date_ms,
                )
            &&& exists|k: int| 0 <= k < events.len() && (#[trigger] events[k]) is Prepared
        },
    decreases events.len(),
{
    if events.len() > 0 {
        let front = events.drop_last();
        lemma_window(front);
        let last = events.len() - 1;
        assert(events[last] == events.last());
        assert forall|k: int| 0 <= k < front.len() implies #[trigger] events[k] == front[k] by {}
        if state_after(front).run() is Some {
            let k = choose|k: int| 0 <= k < front.len() && (#[trigger] front[k]) is Prepared;
            assert(events[k] is Prepared);
        }
    }
}

/// The page that came last.
pub open spec fn last_page(events: Seq<SyncEvent>) -> Option<UsageEventsPage>
    decreases events.len(),
{
    if events.len() == 0 {
        None
    } else {
        match events.last() {
            SyncEvent::Page(page) => Some(page),
            _ => last_page(events.drop_last()),
        }
    }
}

/// When the events of a page are in and their watermark is stored, the run goes
/// on exactly while there is more to fetch: the pages so far, of a hundred
/// events each, do not cover the reported total, the last page was full, and
/// fewer than twenty pages were fetched. Otherwise it ends.
pub proof fn law_run_goes_on_while_there_is_more(events: Seq<SyncEvent>)
    requires
        is_run(events),
        events.len() > 0,
        events.last() is Stored || events.last() is Inserted,
        !(action_after(events) is Store),
    ensures
        last_page(events) matches Some(page) && ({
            let more = pages_in(events) * 100 < page.total && page.events.len() as int
                % 0x1_0000_0000 >= 100 && pages_in(events) < 20;
            &&& more ==> (action_after(events) matches SyncAction::Fetch { page, .. } && page
                == pages_in(events) + 1)
            &&& !more ==> action_after(events) is Finish
        }),
{
    let front = events.drop_last();
    lemma_run(front);
    lemma_run(events);
    lemma_last_page(front);
    lemma_last_page(events);
    if let Some(page) = last_page(events) {
        assert(page.events.len() == page.events@.len());
    }
}

proof fn lemma_last_page(events: Seq<SyncEvent>)
    requires
        is_run(events),
    ensures
        match state_after(events) {
            SyncState::Inserting { run: _, size } | SyncState::Storing { run: _, size } => {
                &&& last_page(events) matches Some(page)
                &&& size.count == page.events.len()
                &&& size.total == page.total
            },
            _ => true,
        },
    decreases events.len(),
{
    if events.len() > 0 {
        lemma_last_page(events.drop_last());
        if let SyncEvent::Page(page) = events.last() {
            assert(page.events.len() == page.events@.len());
        }
    }
}

/// The positive times of a page are stored before anything else is fetched, a
/// page without events ends the run, and the events of any other page are
/// written.
pub proof fn law_pages_are_written_and_remembered(events: Seq<SyncEvent>)
    requires
        is_run(events),
        events.len() > 0,
    ensures
        events.last() matches SyncEvent::Page(page) ==> if page.events@.len() == 0 {
            action_after(events) is Finish
        } else {
            action_after(events) is Insert
        },
        events.last() is Inserted && (last_page(events) matches Some(page) && exists|i: int|
            0 <= i < page.events@.len() && (#[trigger] page.events@[i]).timestamp_ms > 0)
            ==> action_after(events) is Store,
{
    let front = events.drop_last();
    lemma_run(front);
    lemma_last_page_is_counted(front);
    if events.last() is Inserted {
        if let Some(page) = last_page(events) {
            if exists|i: int|
                0 <= i < page.events@.len() && (#[trigger] page.events@[i]).timestamp_ms > 0 {
                let i = choose|i: int|
                    0 <= i < page.events@.len() && (#[trigger] page.events@[i]).timestamp_ms > 0;
                assert(latest_in(front) >= page.events@[i].timestamp_ms);
            }
        }
    }
}

proof fn lemma_last_page_is_counted(events: Seq<SyncEvent>)
    requires
        is_run(events),
    ensures
        last_page(events) matches Some(page) ==> forall|i: int|
            0 <= i < page.events@.len() ==> latest_in(events) >= (
            #[trigger] page.events@[i]).timestamp_ms,
    decreases events.len(),
{
    if events.len() > 0 {
        let front = events.drop_last();
        lemma_last_page_is_counted(front);
        lemma_window(front);
        if let SyncEvent::Page(page) = events.last() {
            lemma_latest_of_both(watermark_in(front), usage_in(front), page.events@);
            law_latest_time(latest_in(front), page.events@);
        } else if events.last() is Prepared {
            lemma_no_page_before_the_start(front);
        }
    }
}

proof fn lemma_no_page_before_the_start(events: Seq<SyncEvent>)
    requires
        is_run(events),
        state_after(events) is Start || state_after(events) is Preparing,
    ensures
        last_page(events) is None,
    decreases events.len(),
{
    if events.len() > 0 {
        lemma_no_page_before_the_start(events.drop_last());
    }
}

/// A refused page: only for the first page, only once, and only where the
/// refusal names the status 401, the token is read anew and the page asked for
/// again; every other refusal ends the run with an error.
pub proof fn law_only_the_first_page_is_asked_for_again(
    run: SyncRun,
    again: bool,
    error: String,
    found: bool,
)
    ensures
        ({
            let (next, action) = sync_step(
                SyncState::Fetching { run, again },
                SyncEvent::PageRefused(error),
            );
            &&& run.page != 1 || again || !has_text(error@, "HTTP 401"@) ==> action is Fail
            &&& run.page == 1 && !again && has_text(error@, "HTTP 401"@) ==> {
                let (fetching, retry) = sync_step(next, SyncEvent::Token(found));
                let (_, given_up) = sync_step(fetching, SyncEvent::PageRefused(error));
                &&& action is RereadToken
                &&& !found ==> retry is Fail
                &&& found ==> retry == (SyncAction::Fetch {
                    page: 1,
                    start_date_ms: run.start_date_ms,
                })
                &&& found ==> fetching.run() == Some(run)
                &&& found ==> given_up is Fail
            }
        }),
{
}

/// A run without a token does nothing, and one with a token first looks where to
/// begin.
pub proof fn law_token_comes_first()
    ensures
        sync_step(SyncState::Start, SyncEvent::Token(false)).1 == (SyncAction::Finish {
            imported: 0,
            skipped: 0,
            files_scanned: 0,
        }),
        sync_step(SyncState::Start, SyncEvent::Token(true)).1 is Prepare,
{
}

/// The watermark to store is one of the two, and not before either.
pub proof fn law_stored_watermark_is_the_later_one(stored: Option<i64>, timestamp_ms: i64)
    ensures
        stored is None ==> later_watermark(stored, timestamp_ms) == timestamp_ms,
        stored matches Some(kept) ==> {
            let later = later_watermark(stored, timestamp_ms);
            &&& later == kept || later == timestamp_ms
            &&& later >= kept
            &&& later >= timestamp_ms
        },
{
}

/// The seconds of a time in milliseconds leave less than a second over.
pub proof fn law_seconds_of_milliseconds(millis: int)
    ensures
        millis >= 0 ==> 1000 * thousands(millis) <= millis < 1000 * (thousands(millis) + 1),
        millis < 0 ==> thousands(millis) == -thousands(-millis),
{
}

/// A count of milliseconds that fits 64 bits is the time itself; any other
/// differs from it by a multiple of two to the 64th.
pub proof fn law_clock_reads_the_time(n: int)
    ensures
        0 <= n <= i64::MAX ==> cut_to_i64(n) == n,
        i64::MIN <= cut_to_i64(n) <= i64::MAX,
        (n - cut_to_i64(n)) % 0x1_0000_0000_0000_0000 == 0,
{
    let low = n % 0x1_0000_0000_0000_0000;
    assert(n == (n / 0x1_0000_0000_0000_0000) * 0x1_0000_0000_0000_0000 + low);
}

/// What is quoted of a refusal is its beginning: all of a short one, two hundred
/// and forty characters of a long one.
pub proof fn law_refusals_are_quoted_from_the_front(text: Seq<char>)
    ensures
        text.len() <= 240 ==> beginning(text, QUOTED_CHARS as int) == text,
        text.len() > 240 ==> beginning(text, QUOTED_CHARS as int).len() == 240,
        beginning(text, QUOTED_CHARS as int).is_prefix_of(text),
{
    let quoted = beginning(text, QUOTED_CHARS as int);
    assert(quoted =~= text.subrange(0, quoted.len() as int));
    if text.len() <= 240 {
        assert(quoted =~= text);
    }
}

/// What a run does goes with where it stands: it asks for the page that it
/// waits for, of its window, stores the time that it has seen, and after its end
/// it does nothing more.
pub proof fn law_actions_go_with_states(state: SyncState, event: SyncEvent)
    ensures
        match sync_step(state, event) {
            (SyncState::Start, _) => false,
            (SyncState::Preparing, action) => action is Prepare,
            (SyncState::Fetching { run, again: _ }, action) => action == (SyncAction::Fetch {
                page: run.page,
                start_date_ms: run.start_date_ms,
            }),
            (SyncState::Rereading { .. }, action) => action is RereadToken,
            (SyncState::Inserting { .. }, action) => action is Insert,
            (SyncState::Storing { run, size: _ }, action) => action == (SyncAction::Store {
                timestamp_ms: run.max_ts,
            }),
            (SyncState::Finished, action) => action is Finish || action is Fail,
        },
        state is Finished ==> sync_step(state, event).0 is Finished,
{
}

/// A run that hears what it did not wait for gives up.
pub proof fn law_unexpected_events_end_a_run(state: SyncState, event: SyncEvent)
    requires
        !state.awaits(event),
    ensures
        sync_step(state, event).1 is Fail,
{
}

/// Messages about cleaning up, committing and writing begin with these words,
/// and those about watermarks and log rows name them.
pub proof fn law_messages_say_what_failed(step: DatabaseStep)
    ensures
        step == DatabaseStep::BeginReset || step == DatabaseStep::DeleteLogs || step
            == DatabaseStep::DeleteWatermarks <==> has_prefix(
            database_heading(step),
            "清理 Cursor "@,
        ),
        step == DatabaseStep::CommitReset || step == DatabaseStep::CommitInsert <==> has_prefix(
            database_heading(step),
            "提交 Cursor "@,
        ),
        step == DatabaseStep::StoreWatermark || step == DatabaseStep::InsertEvent <==> has_prefix(
            database_heading(step),
            "写入 Cursor "@,
        ),
        step == DatabaseStep::DeleteLogs ==> has_prefix(
            database_heading(step),
            "清理 Cursor 用量明细"@,
        ),
        step == DatabaseStep::DeleteWatermarks ==> has_prefix(
            database_heading(step),
            "清理 Cursor 同步游标"@,
        ),
        step == DatabaseStep::StoreWatermark ==> has_prefix(
            database_heading(step),
            "写入 Cursor 同步游标"@,
        ),
        step == DatabaseStep::CommitReset ==> has_prefix(
            database_heading(step),
            "提交 Cursor 用量清理"@,
        ),
        step == DatabaseStep::BeginInsert ==> has_prefix(
            database_heading(step),
            "Cursor 用量事务"@,
        ),
{
    reveal_strlit("清理 Cursor 用量失败: ");
    reveal_strlit("清理 Cursor 用量明细失败: ");
    reveal_strlit("清理 Cursor 同步游标失败: ");
    reveal_strlit("提交 Cursor 用量清理失败: ");
    reveal_strlit("写入 Cursor 同步游标失败: ");
    reveal_strlit("Cursor 用量事务失败: ");
    reveal_strlit("写入 Cursor 用量失败: ");
    reveal_strlit("提交 Cursor 用量失败: ");
    reveal_strlit("清理 Cursor ");
    reveal_strlit("提交 Cursor ");
    reveal_strlit("写入 Cursor ");
    reveal_strlit("清理 Cursor 用量明细");
    reveal_strlit("清理 Cursor 同步游标");
    reveal_strlit("写入 Cursor 同步游标");
    reveal_strlit("提交 Cursor 用量清理");
    reveal_strlit("Cursor 用量事务");
    let heading = database_heading(step);
    assert(heading.subrange(0, 10)[0] == heading[0]);
    match step {
        DatabaseStep::BeginReset => {
            assert(heading.subrange(0, 10) =~= "清理 Cursor "@);
        },
        DatabaseStep::DeleteLogs => {
            assert(heading.subrange(0, 10) =~= "清理 Cursor "@);
            assert(heading.subrange(0, 14) =~= "清理 Cursor 用量明细"@);
        },
        DatabaseStep::DeleteWatermarks => {
            assert(heading.subrange(0, 10) =~= "清理 Cursor "@);
            assert(heading.subrange(0, 14) =~= "清理 Cursor 同步游标"@);
        },
        DatabaseStep::CommitReset => {
            assert(heading.subrange(0, 10) =~= "提交 Cursor "@);
            assert(heading.subrange(0, 14) =~= "提交 Cursor 用量清理"@);
        },
        DatabaseStep::StoreWatermark => {
            assert(heading.subrange(0, 10) =~= "写入 Cursor "@);
            assert(heading.subrange(0, 14) =~= "写入 Cursor 同步游标"@);
        },
        DatabaseStep::BeginInsert => {
            assert(heading.subrange(0, 11) =~= "Cursor 用量事务"@);
        },
        DatabaseStep::InsertEvent => {
            assert(heading.subrange(0, 10) =~= "写入 Cursor "@);
        },
        DatabaseStep::CommitInsert => {
            assert(heading.subrange(0, 10) =~= "提交 Cursor "@);
        },
    }
}

} // verus!
