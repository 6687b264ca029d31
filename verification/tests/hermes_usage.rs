use cc_switch::binary64::Binary64;
use cc_switch::error::AppError;
use cc_switch::hermes_import::{
    costs_for_row, digest_mark, get_hermes_watermark, hash_field, hermes_log_row, import_usage_row,
    logged_request_id, needs_price, now_unix_secs, pack_u32_pair, request_id, secs_to_millis,
    unpack_u32_pair, update_hermes_watermark, usage_fingerprint, watermark_key, Costs, HermesLogRow, HermesWatermark, ImportDecision,
    StoredWatermark, UsageDelta,
};
use cc_switch::hermes_sync::{
    hermes_failure, hermes_rows_wanted, sync_hermes_usage, HermesReport, HermesSource, HermesStep,
    RowOutcome,
};
use cc_switch::hermes_usage::{
    first_question, hermes_db_modified_nanos, hermes_state_db, is_keyed_by_session, map_usage_row,
    nonempty_or, query_table_rows, query_usage_rows, HermesUsageRow, UsageQuestion, UsageStep,
    UsageTable, PROVIDER_PLACEHOLDER,
};
use cc_switch::location::Location;
use cc_switch::money::Money;
use cc_switch::usage_cells::{
    cell_decimal, cell_i64, cell_string, cell_u32, cell_unix_secs, column_index, parse_amount,
    positive_or_nothing, Cell, CellNumber,
};
use rust_decimal::Decimal;
use std::str::FromStr;

const SEMANTICS: i64 = 2;

fn number(value: f64) -> CellNumber {
    CellNumber {
        value: Binary64 {
            bits: value.to_bits(),
        },
        thousandth: (value / 1000.0) as i64,
    }
}

fn integer(value: i64) -> Cell {
    Cell::Integer {
        value,
        thousandth: (value as f64 / 1000.0) as i64,
    }
}

fn float(value: f64) -> Cell {
    Cell::Real {
        number: number(value),
        text: value.to_string(),
    }
}

fn text(bytes: &[u8]) -> Cell {
    Cell::Text {
        bytes: bytes.to_vec(),
        parsed: String::from_utf8_lossy(bytes)
            .parse::<f64>()
            .ok()
            .map(number),
    }
}

fn cell_of(value: rusqlite::types::ValueRef<'_>) -> Cell {
    match value {
        rusqlite::types::ValueRef::Null => Cell::Null,
        rusqlite::types::ValueRef::Integer(n) => integer(n),
        rusqlite::types::ValueRef::Real(x) => float(x),
        rusqlite::types::ValueRef::Text(bytes) => text(bytes),
        rusqlite::types::ValueRef::Blob(_) => Cell::Blob,
    }
}

fn names(list: &[&str]) -> Vec<String> {
    list.iter().map(|name| name.to_string()).collect()
}

fn seeded(sql: &str) -> rusqlite::Connection {
    let conn = rusqlite::Connection::open_in_memory().expect("create hermes db");
    conn.execute_batch(sql).expect("seed hermes db");
    conn
}

fn table_exists(conn: &rusqlite::Connection, name: &str) -> bool {
    conn.query_row(
        "SELECT COUNT(*) > 0 FROM sqlite_master WHERE type = 'table' AND name = ?1",
        [name],
        |row| row.get(0),
    )
    .expect("schema")
}

fn table_columns(conn: &rusqlite::Connection, table: &str) -> Vec<String> {
    let mut stmt = conn
        .prepare(&format!("PRAGMA table_info({table})"))
        .expect("columns");
    let rows = stmt
        .query_map([], |row| row.get::<_, String>(1))
        .expect("columns");
    rows.map(|name| name.expect("column")).collect()
}

fn rows_of(conn: &rusqlite::Connection, table: &str, is_model_usage: bool) -> Vec<HermesUsageRow> {
    let cols = table_columns(conn, table);
    let mut stmt = conn
        .prepare(&format!("SELECT * FROM {table}"))
        .expect("query");
    let names: Vec<String> = stmt.column_names().iter().map(|n| n.to_string()).collect();
    let width = names.len();
    let rows = stmt
        .query_map([], |row| {
            Ok((0..width)
                .map(|i| row.get_ref(i).map(cell_of).unwrap_or(Cell::Null))
                .collect::<Vec<Cell>>())
        })
        .expect("rows");
    let cells: Vec<Vec<Cell>> = rows.map(|row| row.expect("row")).collect();
    query_table_rows(&cells, &names, &cols, is_model_usage)
}

fn usage_rows(conn: &rusqlite::Connection) -> Vec<HermesUsageRow> {
    let mut question = first_question();
    loop {
        let answer = match question {
            UsageQuestion::ModelTableExists => table_exists(conn, "session_model_usage"),
            UsageQuestion::ModelTableKeyed => {
                is_keyed_by_session(&table_columns(conn, "session_model_usage"))
            }
            UsageQuestion::ModelRowsFound => {
                !rows_of(conn, "session_model_usage", true).is_empty()
            }
            UsageQuestion::SessionsBehindModel | UsageQuestion::SessionsExists => {
                table_exists(conn, "sessions")
            }
        };
        match query_usage_rows(question, answer) {
            UsageStep::Ask(next) => question = next,
            UsageStep::Take(UsageTable::ModelUsage) => {
                return rows_of(conn, "session_model_usage", true)
            }
            UsageStep::Take(UsageTable::Sessions) => return rows_of(conn, "sessions", false),
            UsageStep::Take(UsageTable::Neither) => return Vec::new(),
        }
    }
}

/// The shared log and the sync table, in memory.
struct Log {
    conn: rusqlite::Connection,
    last_modified: i64,
}

impl Log {
    fn new() -> Log {
        let conn = rusqlite::Connection::open_in_memory().expect("log");
        conn.execute_batch(
            "CREATE TABLE proxy_request_logs (
                request_id TEXT PRIMARY KEY, provider_id TEXT, app_type TEXT, model TEXT,
                input_tokens INTEGER, output_tokens INTEGER, cache_read_tokens INTEGER,
                cache_creation_tokens INTEGER, input_token_semantics INTEGER,
                total_cost_usd TEXT, created_at INTEGER, data_source TEXT
            );
            CREATE TABLE session_log_sync (
                file_path TEXT PRIMARY KEY, last_modified INTEGER,
                last_line_offset INTEGER, last_synced_at INTEGER
            );",
        )
        .expect("schema");
        Log {
            conn,
            last_modified: 0,
        }
    }

    fn watermark(&self, key: &str) -> Option<StoredWatermark> {
        self.conn
            .query_row(
                "SELECT last_modified, last_line_offset, last_synced_at
                 FROM session_log_sync WHERE file_path = ?1",
                [key],
                |row| {
                    Ok(StoredWatermark {
                        last_modified: row.get(0)?,
                        last_line_offset: row.get(1)?,
                        last_synced_at: row.get(2)?,
                    })
                },
            )
            .ok()
    }

    fn store(&self, key: &str, w: StoredWatermark) {
        self.conn
            .execute(
                "INSERT OR REPLACE INTO session_log_sync VALUES (?1, ?2, ?3, ?4)",
                (key, w.last_modified, w.last_line_offset, w.last_synced_at),
            )
            .expect("watermark");
    }

    fn known_ids(&self, id: &str) -> Vec<String> {
        let mut stmt = self
            .conn
            .prepare(
                "SELECT request_id FROM proxy_request_logs
                 WHERE request_id = ?1
                    OR (request_id > ?1 || ':' AND request_id < ?1 || ';')",
            )
            .expect("ids");
        let ids = stmt.query_map([id], |row| row.get(0)).expect("ids");
        ids.map(|id| id.expect("id")).collect()
    }

    fn write(&self, row: HermesLogRow) {
        self.conn
            .execute(
                "INSERT OR IGNORE INTO proxy_request_logs
                 VALUES (?1, ?2, ?3, ?4, ?5, ?6, ?7, ?8, ?9, ?10, ?11, ?12)",
                (
                    row.request_id,
                    row.provider_id,
                    row.app_type,
                    row.model,
                    row.input_tokens,
                    row.output_tokens,
                    row.cache_read_tokens,
                    row.cache_creation_tokens,
                    row.input_token_semantics,
                    row.total_cost_usd,
                    row.created_at,
                    row.data_source,
                ),
            )
            .expect("log row");
    }

    fn import(&self, row: &HermesUsageRow, priced: Option<Costs>) -> RowOutcome {
        let key = watermark_key(row);
        let previous = get_hermes_watermark(self.watermark(&key));
        match import_usage_row(row, previous, 1_800_000_000) {
            ImportDecision::Unchanged => RowOutcome::Skipped,
            ImportDecision::Touch(w) => {
                self.store(&key, update_hermes_watermark(w));
                RowOutcome::Skipped
            }
            ImportDecision::Import { delta, watermark } => {
                let costs = costs_for_row(row, delta.is_first, priced);
                let known = self.known_ids(&request_id(row, &delta));
                self.write(hermes_log_row(row, &delta, &costs, SEMANTICS, &known));
                self.store(&key, update_hermes_watermark(watermark));
                RowOutcome::Imported
            }
        }
    }

    fn sync(
        &mut self,
        hermes: &rusqlite::Connection,
        modified: i64,
        priced: Option<Costs>,
    ) -> HermesReport {
        let source = HermesSource::Present {
            file_modified: modified,
            last_modified: self.last_modified,
        };
        let mut outcomes = Vec::new();
        if hermes_rows_wanted(&source) {
            for row in usage_rows(hermes) {
                outcomes.push(self.import(&row, priced));
            }
        }
        let report = sync_hermes_usage(&source, &outcomes);
        if let Some(time) = report.record {
            self.last_modified = time;
        }
        report
    }
}

fn model_usage_schema() -> &'static str {
    r#"
    CREATE TABLE sessions (
        id TEXT PRIMARY KEY,
        model TEXT,
        billing_provider TEXT,
        input_tokens INTEGER DEFAULT 0,
        output_tokens INTEGER DEFAULT 0,
        cache_read_tokens INTEGER DEFAULT 0,
        cache_write_tokens INTEGER DEFAULT 0,
        reasoning_tokens INTEGER DEFAULT 0,
        estimated_cost_usd REAL,
        actual_cost_usd REAL,
        cost_status TEXT,
        started_at REAL NOT NULL,
        ended_at REAL
    );
    CREATE TABLE session_model_usage (
        session_id TEXT NOT NULL,
        model TEXT NOT NULL,
        billing_provider TEXT NOT NULL DEFAULT '',
        billing_base_url TEXT NOT NULL DEFAULT '',
        billing_mode TEXT NOT NULL DEFAULT '',
        task TEXT NOT NULL DEFAULT '',
        api_call_count INTEGER NOT NULL DEFAULT 0,
        input_tokens INTEGER NOT NULL DEFAULT 0,
        output_tokens INTEGER NOT NULL DEFAULT 0,
        cache_read_tokens INTEGER NOT NULL DEFAULT 0,
        cache_write_tokens INTEGER NOT NULL DEFAULT 0,
        reasoning_tokens INTEGER NOT NULL DEFAULT 0,
        estimated_cost_usd REAL NOT NULL DEFAULT 0,
        actual_cost_usd REAL NOT NULL DEFAULT 0,
        cost_status TEXT,
        cost_source TEXT,
        first_seen REAL,
        last_seen REAL,
        PRIMARY KEY (session_id, model, billing_provider, billing_base_url, billing_mode, task)
    );
    "#
}

fn with_schema(rest: &str) -> rusqlite::Connection {
    seeded(&format!("{}{rest}", model_usage_schema()))
}

fn money(mantissa: i128, scale: u32) -> Money {
    Money { mantissa, scale }
}

fn sample_row() -> HermesUsageRow {
    HermesUsageRow {
        session_id: "s".to_string(),
        model: "m".to_string(),
        billing_provider: " p ".to_string(),
        billing_base_url: "u".to_string(),
        billing_mode: "b".to_string(),
        task: "t".to_string(),
        input_tokens: 10,
        output_tokens: 20,
        cache_read_tokens: 30,
        cache_write_tokens: 40,
        estimated_cost: money(0, 0),
        actual_cost: money(0, 0),
        cost_included: false,
        first_seen_secs: 100,
        last_seen_secs: 200,
    }
}

#[test]
fn missing_db_is_a_noop() {
    let report = sync_hermes_usage(&HermesSource::Missing, &vec![]);
    assert_eq!(report.result.imported, 0);
    assert_eq!(report.result.files_scanned, 0);
    assert_eq!(report.result.skipped, 0);
    assert!(report.result.errors.is_empty());
    assert_eq!(report.record, None);
    assert!(!hermes_rows_wanted(&HermesSource::Missing));
}

#[test]
fn imports_model_usage_including_aux_tasks() {
    let hermes = with_schema(
        "INSERT INTO sessions (id, model, billing_provider, input_tokens, output_tokens, started_at)
         VALUES ('sess-1', 'grok-4.6', 'xai-oauth', 10, 4, 1700000000);
         INSERT INTO session_model_usage (
             session_id, model, billing_provider, billing_base_url, billing_mode, task,
             api_call_count, input_tokens, output_tokens, cache_read_tokens, cache_write_tokens,
             reasoning_tokens, estimated_cost_usd, actual_cost_usd, cost_status, first_seen, last_seen
         ) VALUES
         ('sess-1', 'grok-4.6', 'xai-oauth', 'https://api.x.ai/v1', '', '',
          3, 10, 4, 8, 1, 2, 0.0125, 0, 'estimated', 1700000000, 1700000060),
         ('sess-1', 'vision-model', 'gemini', '', '', 'vision',
          1, 5, 3, 0, 0, 0, 0.002, 0, NULL, 1700000030, 1700000030);",
    );
    let mut log = Log::new();
    let report = log.sync(&hermes, 1, None);
    assert_eq!(report.result.imported, 2);
    assert!(report.result.errors.is_empty());
    let totals: (i64, i64, i64, i64, i64, i64) = log
        .conn
        .query_row(
            "SELECT COUNT(*), SUM(input_tokens), SUM(output_tokens),
                    SUM(cache_read_tokens), SUM(cache_creation_tokens),
                    SUM(CASE WHEN model = 'grok-4.6' THEN 1 ELSE 0 END)
             FROM proxy_request_logs WHERE data_source = 'hermes_session'",
            [],
            |row| {
                Ok((
                    row.get(0)?,
                    row.get(1)?,
                    row.get(2)?,
                    row.get(3)?,
                    row.get(4)?,
                    row.get(5)?,
                ))
            },
        )
        .expect("totals");
    assert_eq!(totals, (2, 15, 9, 8, 1, 1));
    let main: (String, String, String, i64, i64) = log
        .conn
        .query_row(
            "SELECT provider_id, app_type, total_cost_usd, created_at, input_token_semantics
             FROM proxy_request_logs WHERE model = 'grok-4.6'",
            [],
            |row| {
                Ok((
                    row.get(0)?,
                    row.get(1)?,
                    row.get(2)?,
                    row.get(3)?,
                    row.get(4)?,
                ))
            },
        )
        .expect("main");
    assert_eq!(main.0, "xai-oauth");
    assert_eq!(main.1, "hermes");
    assert_eq!(
        Decimal::from_str(&main.2).expect("decimal"),
        Decimal::from_str("0.0125").expect("decimal")
    );
    assert_eq!(main.3, 1_700_000_000);
    assert_eq!(main.4, SEMANTICS);
}

#[test]
fn incremental_sync_inserts_only_the_delta() {
    let hermes = with_schema(
        "INSERT INTO session_model_usage (
             session_id, model, billing_provider, billing_base_url, billing_mode, task,
             api_call_count, input_tokens, output_tokens, cache_read_tokens, cache_write_tokens,
             reasoning_tokens, estimated_cost_usd, first_seen, last_seen
         ) VALUES ('sess-2', 'm', 'p', '', '', '', 1, 10, 2, 4, 0, 0, 0, 1700000000, 1700000000);",
    );
    let mut log = Log::new();
    assert_eq!(log.sync(&hermes, 1, None).result.imported, 1);
    hermes
        .execute(
            "UPDATE session_model_usage
             SET input_tokens = 25, output_tokens = 7, cache_read_tokens = 10,
                 last_seen = 1700000100
             WHERE session_id = 'sess-2'",
            [],
        )
        .expect("update");
    assert_eq!(log.sync(&hermes, 3, None).result.imported, 1);
    assert_eq!(log.sync(&hermes, 3, None).result.imported, 0);
    let forced = log.sync(&hermes, 4, None);
    assert_eq!((forced.result.imported, forced.result.skipped), (0, 1));
    let totals: (i64, i64, i64, i64, i64) = log
        .conn
        .query_row(
            "SELECT COUNT(*), SUM(input_tokens), SUM(output_tokens), SUM(cache_read_tokens),
                    MAX(created_at)
             FROM proxy_request_logs WHERE data_source = 'hermes_session'",
            [],
            |row| {
                Ok((
                    row.get(0)?,
                    row.get(1)?,
                    row.get(2)?,
                    row.get(3)?,
                    row.get(4)?,
                ))
            },
        )
        .expect("totals");
    assert_eq!(totals, (2, 25, 7, 10, 1_700_000_100));
}

#[test]
fn subscription_included_cost_stays_zero() {
    let hermes = with_schema(
        "INSERT INTO session_model_usage (
             session_id, model, billing_provider, billing_base_url, billing_mode, task,
             input_tokens, output_tokens, estimated_cost_usd, actual_cost_usd,
             cost_status, first_seen, last_seen
         ) VALUES ('sess-3', 'gpt-5.6-sol', 'openai-codex', '', 'subscription_included', '',
                   100, 20, 0, 0, 'included', 1700000000, 1700000000);",
    );
    let mut log = Log::new();
    let price = Costs {
        input: money(5, 4),
        output: money(6, 4),
        cache_read: money(0, 0),
        cache_creation: money(0, 0),
        total: money(11, 4),
    };
    assert_eq!(log.sync(&hermes, 1, Some(price)).result.imported, 1);
    let (total, provider): (String, String) = log
        .conn
        .query_row(
            "SELECT total_cost_usd, provider_id FROM proxy_request_logs
             WHERE data_source = 'hermes_session'",
            [],
            |row| Ok((row.get(0)?, row.get(1)?)),
        )
        .expect("row");
    assert_eq!(Decimal::from_str(&total).expect("decimal"), Decimal::ZERO);
    assert_eq!(provider, "openai-codex");
}

#[test]
fn falls_back_to_sessions_table() {
    let hermes = seeded(
        r#"
        CREATE TABLE sessions (
            id TEXT PRIMARY KEY,
            model TEXT,
            billing_provider TEXT,
            input_tokens INTEGER DEFAULT 0,
            output_tokens INTEGER DEFAULT 0,
            cache_read_tokens INTEGER DEFAULT 0,
            cache_write_tokens INTEGER DEFAULT 0,
            reasoning_tokens INTEGER DEFAULT 0,
            estimated_cost_usd REAL,
            started_at REAL NOT NULL
        );
        INSERT INTO sessions (
            id, model, billing_provider, input_tokens, output_tokens,
            cache_read_tokens, reasoning_tokens, estimated_cost_usd, started_at
        ) VALUES ('legacy', 'mistral-sonnet-4-5', '', 12, 3, 7, 1, 0.01, 1700000000);
        "#,
    );
    let mut log = Log::new();
    assert_eq!(log.sync(&hermes, 1, None).result.imported, 1);
    let row: (String, i64, i64, i64) = log
        .conn
        .query_row(
            "SELECT provider_id, input_tokens, output_tokens, cache_read_tokens
             FROM proxy_request_logs WHERE data_source = 'hermes_session'",
            [],
            |row| Ok((row.get(0)?, row.get(1)?, row.get(2)?, row.get(3)?)),
        )
        .expect("row");
    assert_eq!(row.0, PROVIDER_PLACEHOLDER);
    assert_eq!(row.1, 12);
    assert_eq!(row.2, 4);
    assert_eq!(row.3, 7);
}

#[test]
fn skips_zero_token_rows() {
    let hermes = with_schema(
        "INSERT INTO session_model_usage (
             session_id, model, billing_provider, task, input_tokens, output_tokens,
             first_seen, last_seen
         ) VALUES ('empty', 'm', 'p', '', 0, 0, 1700000000, 1700000000);",
    );
    let mut log = Log::new();
    assert_eq!(log.sync(&hermes, 1, None).result.imported, 0);
}

#[test]
fn model_table_counts_where_sessions_have_nothing_to_add() {
    let empty = with_schema("");
    assert!(usage_rows(&empty).is_empty());
    let unkeyed = seeded(
        "CREATE TABLE session_model_usage (model TEXT);
         CREATE TABLE sessions (id TEXT, input_tokens INTEGER);
         INSERT INTO sessions VALUES ('a', 4);",
    );
    let rows = usage_rows(&unkeyed);
    assert_eq!(rows.len(), 1);
    assert_eq!(rows[0].session_id, "a");
    assert_eq!(rows[0].model, "unknown");
    let behind = with_schema(
        "INSERT INTO sessions (id, input_tokens, started_at) VALUES ('b', 1, 5);",
    );
    assert_eq!(usage_rows(&behind)[0].session_id, "b");
    assert!(usage_rows(&seeded("")).is_empty());
}

#[test]
fn questions_lead_to_the_table() {
    let ask = UsageStep::Ask;
    let take = UsageStep::Take;
    assert_eq!(first_question(), UsageQuestion::ModelTableExists);
    for (question, answer, step) in [
        (UsageQuestion::ModelTableExists, true, ask(UsageQuestion::ModelTableKeyed)),
        (UsageQuestion::ModelTableExists, false, ask(UsageQuestion::SessionsExists)),
        (UsageQuestion::ModelTableKeyed, true, ask(UsageQuestion::ModelRowsFound)),
        (UsageQuestion::ModelTableKeyed, false, ask(UsageQuestion::SessionsExists)),
        (UsageQuestion::ModelRowsFound, true, take(UsageTable::ModelUsage)),
        (UsageQuestion::ModelRowsFound, false, ask(UsageQuestion::SessionsBehindModel)),
        (UsageQuestion::SessionsBehindModel, true, ask(UsageQuestion::SessionsExists)),
        (UsageQuestion::SessionsBehindModel, false, take(UsageTable::ModelUsage)),
        (UsageQuestion::SessionsExists, true, take(UsageTable::Sessions)),
        (UsageQuestion::SessionsExists, false, take(UsageTable::Neither)),
    ] {
        assert_eq!(query_usage_rows(question, answer), step);
    }
}

#[test]
fn cells_as_text_and_counts() {
    let cols = names(&["a"]);
    let as_text = |cell: Cell| cell_string(&vec![cell], &cols, &cols, "a");
    assert_eq!(as_text(text(b" x \xff ")), "x \u{fffd}");
    assert_eq!(as_text(integer(-12)), "-12");
    assert_eq!(as_text(float(1.5)), "1.5");
    assert_eq!(as_text(Cell::Null), "");
    assert_eq!(as_text(Cell::Blob), "");
    let as_i64 = |cell: Cell| cell_i64(&vec![cell], &cols, &cols, "a");
    assert_eq!(as_i64(integer(-12)), -12);
    assert_eq!(as_i64(float(-1.9)), -1);
    assert_eq!(as_i64(float(f64::INFINITY)), 0);
    assert_eq!(as_i64(float(f64::NAN)), 0);
    assert_eq!(as_i64(float(1e30)), i64::MAX);
    assert_eq!(as_i64(text(b"12.7")), 12);
    assert_eq!(as_i64(text(b" 12")), 0);
    assert_eq!(as_i64(text(b"inf")), 0);
    let as_u32 = |cell: Cell| cell_u32(&vec![cell], &cols, &cols, "a");
    assert_eq!(as_u32(integer(-1)), 0);
    assert_eq!(as_u32(integer(i64::MAX)), u32::MAX);
    assert_eq!(as_u32(integer(7)), 7);
    assert_eq!(column_index(&names(&["b", "a", "a"]), &cols, "a"), Some(1));
    assert_eq!(column_index(&cols, &names(&["b"]), "a"), None);
    assert_eq!(cell_string(&vec![], &cols, &cols, "a"), "");
}

#[test]
fn cells_as_amounts() {
    let cols = names(&["a"]);
    let amount = |cell: Cell| cell_decimal(&vec![cell], &cols, &cols, "a");
    assert_eq!(amount(float(0.0125)), money(125, 4));
    assert_eq!(amount(float(-1.0)), money(0, 0));
    assert_eq!(amount(float(f64::INFINITY)), money(0, 0));
    assert_eq!(amount(integer(3)), money(3, 0));
    assert_eq!(amount(integer(-3)), money(0, 0));
    assert_eq!(amount(text(b" 1.50 ")), money(150, 2));
    assert_eq!(amount(text(b"-1.50")), money(0, 0));
    assert_eq!(amount(text(b"1.5e-3")), money(15, 4));
    assert_eq!(amount(text(b"abc")), money(0, 0));
    assert_eq!(amount(Cell::Null), money(0, 0));
    assert_eq!(parse_amount("2.5"), money(25, 1));
    assert_eq!(parse_amount("2e2"), money(200, 0));
    assert_eq!(positive_or_nothing(Some(money(-1, 3))), money(0, 0));
    assert_eq!(positive_or_nothing(Some(money(1, 3))), money(1, 3));
    assert_eq!(positive_or_nothing(None), money(0, 0));
}

#[test]
fn cells_as_times() {
    let cols = names(&["a"]);
    let secs = |cell: Cell| cell_unix_secs(&vec![cell], &cols, &cols, "a");
    assert_eq!(secs(integer(1_700_000_000)), Some(1_700_000_000));
    assert_eq!(secs(integer(1_700_000_000_123)), Some(1_700_000_000));
    assert_eq!(secs(integer(1_000_000_000_000)), Some(1_000_000_000_000));
    assert_eq!(secs(integer(1_000_000_000_001)), Some(1_000_000_000));
    assert_eq!(secs(integer(0)), None);
    assert_eq!(secs(float(1700000000.9)), Some(1_700_000_000));
    assert_eq!(secs(float(1_700_000_000_123.0)), Some(1_700_000_000));
    assert_eq!(secs(float(-5.0)), None);
    assert_eq!(secs(float(f64::NAN)), None);
    assert_eq!(secs(text(b"1700000000.5")), Some(1_700_000_000));
    assert_eq!(secs(text(b"inf")), None);
    assert_eq!(secs(text(b"soon")), None);
    assert_eq!(secs(Cell::Null), None);
}

#[test]
fn whole_thousandths_are_those_of_f64() {
    let cols = names(&["a"]);
    let secs = |cell: Cell| cell_unix_secs(&vec![cell], &cols, &cols, "a");
    let mut seed = 0x9e3779b97f4a7c15u64;
    for round in 0..200_000u64 {
        seed = seed.wrapping_mul(6364136223846793005).wrapping_add(1442695040888963407);
        let value = 1_000_000_000_001 + (seed % 9_006_199_254_740_991) as i64;
        let value = if round % 3 == 0 { value - value % 1000 - 1 } else { value };
        if value > 1_000_000_000_000 {
            let wrong = Cell::Integer { value, thousandth: -1 };
            assert_eq!(secs(wrong), Some((value as f64 / 1000.0) as i64));
        }
        let scale = 2f64.powi((seed >> 59) as i32 % 5);
        let x = (value as f64).min(8e15) * scale;
        for x in [x, f64::from_bits(x.to_bits() - 1), (x / 1000.0).floor() * 1000.0] {
            for x in [x, f64::from_bits(x.to_bits() - 1)] {
                if x > 1e12 && x < 72_057_594_037_927_936.0 {
                    let wrong = Cell::Real {
                        number: CellNumber {
                            value: Binary64 { bits: x.to_bits() },
                            thousandth: -1,
                        },
                        text: String::new(),
                    };
                    assert_eq!(secs(wrong), Some((x / 1000.0) as i64));
                }
            }
        }
    }
    assert_eq!(secs(integer(9_007_199_254_740_992)), Some(9_007_199_254_740));
    assert_eq!(secs(integer(i64::MAX)), Some((i64::MAX as f64 / 1000.0) as i64));
    assert_eq!(secs(float(1e30)), Some(i64::MAX));
}

#[test]
fn rows_are_mapped() {
    let cols = names(&[
        "session_id",
        "output_tokens",
        "reasoning_tokens",
        "billing_mode",
        "last_activity_at",
        "started_at",
    ]);
    let row = |output: i64, mode: &str| {
        vec![
            text(b"s"),
            integer(output),
            integer(9),
            text(mode.as_bytes()),
            integer(500),
            integer(300),
        ]
    };
    let mapped = map_usage_row(&row(i64::MAX, "x"), &cols, &cols, true).expect("bucket");
    assert_eq!(mapped.output_tokens, u32::MAX);
    assert_eq!(mapped.first_seen_secs, 300);
    assert_eq!(mapped.last_seen_secs, 500);
    assert!(!mapped.cost_included);
    assert_eq!(mapped.model, "unknown");
    let mapped = map_usage_row(&row(0, "Subscription_Included"), &cols, &cols, true);
    assert!(mapped.expect("bucket").cost_included);
    assert!(map_usage_row(&row(1, "x"), &cols, &cols, false).is_none());
    let cols = names(&["id", "actual_cost_usd"]);
    let mapped = map_usage_row(&vec![text(b"i"), text(b"0.5")], &cols, &cols, false);
    let mapped = mapped.expect("bucket");
    assert_eq!(mapped.actual_cost, money(5, 1));
    assert_eq!((mapped.first_seen_secs, mapped.last_seen_secs), (0, 0));
    assert!(map_usage_row(&vec![text(b"i"), Cell::Null], &cols, &cols, false).is_none());
    assert_eq!(nonempty_or(String::new(), "f"), "f");
    assert_eq!(nonempty_or("v".to_string(), "f"), "v");
}

#[test]
fn pairs_are_packed() {
    for (high, low) in [(0, 0), (1, 2), (u32::MAX, 0), (u32::MAX, u32::MAX), (1 << 31, 7)] {
        let packed = ((u64::from(high) << 32) | u64::from(low)) as i64;
        assert_eq!(pack_u32_pair(high, low), packed);
        assert_eq!(unpack_u32_pair(packed), (high, low));
    }
}

#[test]
fn stored_watermarks_read_back() {
    let watermark = HermesWatermark {
        last_seen_millis: 5,
        input_tokens: u32::MAX,
        output_tokens: 1,
        cache_read_tokens: 2,
        cache_write_tokens: 3,
    };
    let stored = update_hermes_watermark(watermark);
    assert_eq!(stored.last_modified, 5);
    assert_eq!(get_hermes_watermark(Some(stored)), Some(watermark));
    assert_eq!(get_hermes_watermark(None), None);
    let untimed = StoredWatermark {
        last_modified: 0,
        ..stored
    };
    assert_eq!(get_hermes_watermark(Some(untimed)), None);
}

#[test]
fn decisions_follow_the_watermark() {
    let row = sample_row();
    let (first, watermark) = match import_usage_row(&row, None, 7) {
        ImportDecision::Import { delta, watermark } => (delta, watermark),
        _ => panic!("import expected"),
    };
    assert!(first.is_first);
    assert_eq!(first.created_at, 100);
    assert_eq!(first.input_tokens, 10);
    assert_eq!(watermark.last_seen_millis, 200_000);
    assert_eq!(
        import_usage_row(&row, Some(watermark), 7),
        ImportDecision::Unchanged
    );
    let mut touched = sample_row();
    touched.last_seen_secs = 300;
    touched.input_tokens = 4;
    assert_eq!(
        import_usage_row(&touched, Some(watermark), 7),
        ImportDecision::Touch(HermesWatermark {
            last_seen_millis: 300_000,
            ..watermark
        })
    );
    let mut grown = sample_row();
    grown.last_seen_secs = 0;
    grown.output_tokens = 25;
    grown.input_tokens = 4;
    match import_usage_row(&grown, Some(watermark), 7) {
        ImportDecision::Import { delta, watermark } => {
            assert_eq!((delta.input_tokens, delta.output_tokens), (0, 5));
            assert_eq!(delta.created_at, 7);
            assert!(!delta.is_first);
            assert_eq!(watermark.input_tokens, 4);
        }
        _ => panic!("import expected"),
    }
}

#[test]
fn increments_add_up_to_the_totals() {
    let log = Log::new();
    let mut row = sample_row();
    for (secs, input) in [(200, 10), (201, 10), (202, 15), (203, 40)] {
        row.last_seen_secs = secs;
        row.input_tokens = input;
        log.import(&row, None);
    }
    let (count, sum): (i64, i64) = log
        .conn
        .query_row(
            "SELECT COUNT(*), SUM(input_tokens) FROM proxy_request_logs",
            [],
            |row| Ok((row.get(0)?, row.get(1)?)),
        )
        .expect("totals");
    assert_eq!((count, sum), (3, 40));
}

fn logged(log: &Log) -> (i64, i64, i64, i64, i64) {
    log.conn
        .query_row(
            "SELECT COUNT(*), SUM(input_tokens), SUM(output_tokens), SUM(cache_read_tokens),
                    SUM(cache_creation_tokens)
             FROM proxy_request_logs",
            [],
            |row| {
                Ok((
                    row.get(0)?,
                    row.get(1)?,
                    row.get(2)?,
                    row.get(3)?,
                    row.get(4)?,
                ))
            },
        )
        .expect("totals")
}

fn bare_row(input: u32, output: u32, cache_read: u32, secs: i64) -> HermesUsageRow {
    HermesUsageRow {
        session_id: "s".to_string(),
        model: "m".to_string(),
        billing_provider: String::new(),
        billing_base_url: String::new(),
        billing_mode: String::new(),
        task: String::new(),
        input_tokens: input,
        output_tokens: output,
        cache_read_tokens: cache_read,
        cache_write_tokens: 0,
        estimated_cost: money(0, 0),
        actual_cost: money(0, 0),
        cost_included: false,
        first_seen_secs: secs,
        last_seen_secs: secs,
    }
}

#[test]
fn bucket_without_times_is_logged_once_and_then_by_its_increase() {
    let log = Log::new();
    assert!(matches!(log.import(&bare_row(10, 0, 0, 0), None), RowOutcome::Imported));
    assert!(matches!(log.import(&bare_row(10, 0, 0, 0), None), RowOutcome::Skipped));
    assert!(matches!(log.import(&bare_row(25, 0, 0, 0), None), RowOutcome::Imported));
    assert!(matches!(log.import(&bare_row(25, 0, 0, 0), None), RowOutcome::Skipped));
    assert_eq!(logged(&log), (2, 25, 0, 0, 0));
}

#[test]
fn reported_cost_of_a_bucket_without_times_is_logged_once() {
    let log = Log::new();
    let mut row = bare_row(10, 0, 0, 0);
    row.actual_cost = money(5, 1);
    log.import(&row, None);
    row.input_tokens = 25;
    log.import(&row, None);
    let costs: Vec<String> = log
        .conn
        .prepare("SELECT total_cost_usd FROM proxy_request_logs ORDER BY input_tokens")
        .expect("query")
        .query_map([], |row| row.get(0))
        .expect("rows")
        .map(|cost| cost.expect("cost"))
        .collect();
    assert_eq!(costs, vec!["0.5", "0"]);
}

#[test]
fn losing_its_time_does_not_make_a_bucket_new() {
    let log = Log::new();
    log.import(&bare_row(10, 0, 0, 300), None);
    assert!(matches!(log.import(&bare_row(4, 0, 0, 0), None), RowOutcome::Skipped));
    log.import(&bare_row(25, 0, 0, 0), None);
    assert_eq!(logged(&log), (2, 25, 0, 0, 0));
}

#[test]
fn watermarks_always_have_a_time() {
    let mark = |row: &HermesUsageRow, previous, now| match import_usage_row(row, previous, now) {
        ImportDecision::Import { watermark, .. } => watermark,
        ImportDecision::Touch(watermark) => watermark,
        ImportDecision::Unchanged => panic!("change expected"),
    };
    let first = mark(&bare_row(10, 0, 0, 0), None, 7);
    assert_eq!(first.last_seen_millis, 7000);
    assert_eq!(mark(&bare_row(10, 0, 0, 0), None, 0).last_seen_millis, 1);
    assert_eq!(mark(&bare_row(11, 0, 0, 0), Some(first), 9).last_seen_millis, 7000);
    assert_eq!(mark(&bare_row(9, 0, 0, 0), Some(first), 9), first);
    assert_eq!(
        import_usage_row(&bare_row(10, 0, 0, 0), Some(first), 9),
        ImportDecision::Unchanged
    );
    assert_eq!(get_hermes_watermark(Some(update_hermes_watermark(first))), Some(first));
}

#[test]
fn equal_increases_at_one_time_are_all_logged() {
    let log = Log::new();
    for (input, output) in [(10, 2), (20, 4), (30, 6)] {
        let outcome = log.import(&bare_row(input, output, 0, 1_700_000_000), None);
        assert!(matches!(outcome, RowOutcome::Imported));
    }
    assert_eq!(logged(&log), (3, 30, 6, 0, 0));
    let log = Log::new();
    for cache_read in [5, 9, 13] {
        let outcome = log.import(&bare_row(10, 2, cache_read, 1_700_000_000), None);
        assert!(matches!(outcome, RowOutcome::Imported));
    }
    assert_eq!(logged(&log), (3, 10, 2, 13, 0));
}

#[test]
fn increases_are_kept_even_where_counters_swing() {
    let log = Log::new();
    for (input, output) in [(10, 1), (4, 2), (10, 1), (4, 2), (10, 1)] {
        let outcome = log.import(&bare_row(input, output, 0, 1_700_000_000), None);
        assert!(matches!(outcome, RowOutcome::Imported));
    }
    assert_eq!(logged(&log), (5, 22, 3, 0, 0));
}

#[test]
fn ids_are_numbered_only_where_taken() {
    let row = bare_row(20, 4, 0, 200);
    let delta = |is_first: bool| UsageDelta {
        input_tokens: 10,
        output_tokens: 2,
        cache_read_tokens: 0,
        cache_write_tokens: 0,
        created_at: 0,
        is_first,
    };
    let plain = request_id(&row, &delta(false));
    assert_eq!(plain, format!("hermes_session:s:{}:200000:10:2", usage_fingerprint(&row)));
    let with = |numbers: &[u32]| -> Vec<String> {
        numbers
            .iter()
            .map(|n| if *n == 1 { plain.clone() } else { format!("{plain}:{n}") })
            .collect()
    };
    let id = |known: &Vec<String>| logged_request_id(&row, &delta(false), known);
    assert_eq!(id(&vec![]), plain);
    assert_eq!(id(&names(&["other"])), plain);
    assert_eq!(id(&with(&[1])), format!("{plain}:2"));
    assert_eq!(id(&with(&[2, 1])), format!("{plain}:3"));
    assert_eq!(id(&with(&[1, 3, 4])), format!("{plain}:2"));
    assert_eq!(id(&with(&[2, 3])), plain);
    assert_eq!(logged_request_id(&row, &delta(true), &with(&[1])), plain);
}

#[test]
fn known_snapshot_is_not_logged_again() {
    let log = Log::new();
    let row = bare_row(10, 2, 0, 200);
    log.import(&row, None);
    log.conn
        .execute("DELETE FROM session_log_sync", [])
        .expect("forget");
    assert!(matches!(log.import(&row, None), RowOutcome::Imported));
    assert_eq!(logged(&log), (1, 10, 2, 0, 0));
}

#[test]
fn sessions_with_only_a_start_are_logged_by_their_increases() {
    let hermes = seeded(
        "CREATE TABLE sessions (id TEXT, input_tokens INTEGER, started_at REAL);
         INSERT INTO sessions VALUES ('a', 10, 1700000000), ('b', 3, NULL);",
    );
    let mut log = Log::new();
    log.sync(&hermes, 1, None);
    for time in 2..5 {
        hermes
            .execute("UPDATE sessions SET input_tokens = input_tokens + 10", [])
            .expect("update");
        assert_eq!(log.sync(&hermes, time, None).result.imported, 2);
    }
    assert_eq!(logged(&log), (8, 73, 0, 0, 0));
}

#[test]
fn price_list_is_asked_only_where_nothing_else_settles_the_cost() {
    let mut row = sample_row();
    assert!(needs_price(&row, true));
    assert!(needs_price(&row, false));
    row.estimated_cost = money(5, 1);
    assert!(!needs_price(&row, true));
    assert!(needs_price(&row, false));
    row.cost_included = true;
    assert!(!needs_price(&row, false));
}

#[test]
fn costs_are_reported_priced_or_nothing() {
    let price = Costs {
        input: money(1, 0),
        output: money(2, 0),
        cache_read: money(3, 0),
        cache_creation: money(4, 0),
        total: money(10, 0),
    };
    let mut row = sample_row();
    assert_eq!(costs_for_row(&row, true, Some(price)), price);
    assert_eq!(costs_for_row(&row, true, None).total, money(0, 0));
    row.estimated_cost = money(5, 1);
    assert_eq!(costs_for_row(&row, true, Some(price)).total, money(5, 1));
    assert_eq!(costs_for_row(&row, true, Some(price)).input, money(0, 0));
    assert_eq!(costs_for_row(&row, false, Some(price)), price);
    row.actual_cost = money(7, 1);
    assert_eq!(costs_for_row(&row, true, Some(price)).total, money(7, 1));
    row.cost_included = true;
    assert_eq!(costs_for_row(&row, true, Some(price)).total, money(0, 0));
}

#[test]
fn fingerprint_is_the_digest_of_the_framed_identity() {
    let row = sample_row();
    let mut framed = Vec::new();
    for field in ["hermes-usage-v1", "s", "m", " p ", "u", "b", "t"] {
        hash_field(&mut framed, field.as_bytes());
    }
    assert_eq!(&framed[..9], b"\0\0\0\0\0\0\0\x0fh");
    let digest = <sha2::Sha256 as sha2::Digest>::digest(&framed);
    let hex = format!("{digest:x}");
    assert_eq!(usage_fingerprint(&row), hex[..16]);
    assert_eq!(digest_mark(&digest), hex[..16]);
    assert_eq!(digest_mark(&[0xab; 8]), "abababababababab");
    assert_eq!(watermark_key(&row), format!("hermes_usage:s:{}", &hex[..16]));
    let mut other = sample_row();
    other.task = "x".to_string();
    assert_ne!(usage_fingerprint(&other), usage_fingerprint(&row));
}

#[test]
fn log_rows_hold_the_increase() {
    let row = sample_row();
    let delta = match import_usage_row(&row, None, 7) {
        ImportDecision::Import { delta, .. } => delta,
        _ => panic!("import expected"),
    };
    let costs = Costs {
        input: money(10, 3),
        output: money(-125, 2),
        cache_read: money(0, 0),
        cache_creation: money(0, 2),
        total: money(79228162514264337593543950335, 28),
    };
    let logged = hermes_log_row(&row, &delta, &costs, 5, &vec![]);
    assert_eq!(
        logged.request_id,
        format!("hermes_session:s:{}:200000:10:20", usage_fingerprint(&row))
    );
    assert_eq!(logged.provider_id, "p");
    assert_eq!(logged.app_type, "hermes");
    assert_eq!(logged.input_cost_usd, "0.010");
    assert_eq!(logged.output_cost_usd, "-1.25");
    assert_eq!(logged.cache_read_cost_usd, "0");
    assert_eq!(logged.cache_creation_cost_usd, "0.00");
    assert_eq!(logged.total_cost_usd, "7.9228162514264337593543950335");
    assert_eq!(logged.input_token_semantics, 5);
    assert_eq!((logged.latency_ms, logged.status_code, logged.is_streaming), (0, 200, 1));
    assert_eq!(logged.cost_multiplier, "1.0");
    assert_eq!(logged.data_source, "hermes_session");
    assert_eq!(logged.session_id, "s");
    assert_eq!(logged.created_at, 100);
}

#[test]
fn printed_amounts_are_those_of_the_decimal_crate() {
    let row = sample_row();
    let delta = match import_usage_row(&row, None, 7) {
        ImportDecision::Import { delta, .. } => delta,
        _ => panic!("import expected"),
    };
    for (mantissa, scale) in [(0, 0), (0, 5), (5, 28), (-5, 1), (123456, 3), (120, 2), (9, 0)] {
        let amount = money(mantissa, scale);
        let costs = Costs {
            input: amount,
            output: amount,
            cache_read: amount,
            cache_creation: amount,
            total: amount,
        };
        let logged = hermes_log_row(&row, &delta, &costs, 0, &vec![]);
        let expected = Decimal::from_i128_with_scale(mantissa, scale).to_string();
        assert_eq!(logged.total_cost_usd, expected);
        assert_eq!(logged.input_cost_usd, expected);
    }
}

#[test]
fn hermes_clock_and_places() {
    assert_eq!(now_unix_secs(None), 0);
    assert_eq!(now_unix_secs(Some(9)), 9);
    assert_eq!(now_unix_secs(Some(u64::MAX)), -1);
    assert_eq!(secs_to_millis(5), 5000);
    assert_eq!(secs_to_millis(i64::MAX), i64::MAX);
    assert_eq!(secs_to_millis(i64::MIN), i64::MIN);
    assert_eq!(hermes_db_modified_nanos(5, None), 5);
    assert_eq!(hermes_db_modified_nanos(5, Some(9)), 9);
    assert_eq!(hermes_db_modified_nanos(9, Some(5)), 9);
    assert_eq!(hermes_state_db("/h"), Location::at("/h").join("state.db"));
}

#[test]
fn reports_count_and_record() {
    let source = HermesSource::Present {
        file_modified: 9,
        last_modified: 5,
    };
    let failed = RowOutcome::Failed {
        session_id: "s".to_string(),
        error: "e".to_string(),
    };
    let outcomes = vec![RowOutcome::Imported, failed, RowOutcome::Skipped];
    let report = sync_hermes_usage(&source, &outcomes);
    assert_eq!((report.result.imported, report.result.skipped), (1, 2));
    assert_eq!(report.result.files_scanned, 1);
    assert_eq!(
        report.result.errors,
        vec!["Hermes 用量导入失败 s: e".to_string()]
    );
    assert_eq!(report.record, None);
    assert_eq!(sync_hermes_usage(&source, &vec![]).record, Some(9));
    let seen = HermesSource::Present {
        file_modified: 5,
        last_modified: 5,
    };
    assert!(!hermes_rows_wanted(&seen));
    assert_eq!(sync_hermes_usage(&seen, &vec![]).result.files_scanned, 1);
    let unknown = HermesSource::Present {
        file_modified: 0,
        last_modified: 5,
    };
    assert!(hermes_rows_wanted(&unknown));
}

#[test]
fn hermes_failures_name_the_step() {
    let database = |text: &str| AppError::Database(text.to_string());
    assert_eq!(
        hermes_failure(HermesStep::ReadMetadata, "", "c"),
        AppError::Config("无法读取 Hermes state.db 元数据: c".to_string())
    );
    for (step, text) in [
        (HermesStep::OpenDatabase, "无法打开 Hermes state.db: c"),
        (HermesStep::BeginImport, "启动 Hermes 用量导入事务失败: c"),
        (HermesStep::CommitImport, "提交 Hermes 用量导入事务失败: c"),
        (HermesStep::CheckTable, "检查 Hermes 表 t 失败: c"),
        (HermesStep::ReadColumns, "读取 Hermes t 列失败: c"),
        (HermesStep::QueryColumns, "查询 Hermes t 列失败: c"),
        (HermesStep::ReadColumnName, "读取 Hermes 列名失败: c"),
        (HermesStep::PrepareQuery, "准备 Hermes t 查询失败: c"),
        (HermesStep::RunQuery, "查询 Hermes t 失败: c"),
        (HermesStep::ReadRow, "读取 Hermes t 行失败: c"),
        (HermesStep::InsertRow, "插入 Hermes 会话用量失败: c"),
        (HermesStep::ReadWatermark, "读取 Hermes 用量水位失败: c"),
        (HermesStep::UpdateWatermark, "更新 Hermes 用量水位失败: c"),
    ] {
        assert_eq!(hermes_failure(step, "t", "c"), database(text));
    }
}
