//! Hermes Agent session usage.
//!
//! Hermes keeps running totals per (session, model, billing route, task). The
//! first import of such a bucket writes its snapshot; later imports write only
//! the increase over a stored watermark.

use crate::location::{root_at, Location};
use crate::money::Money;
use crate::text::{lower, same_text_any_case, views};
use crate::usage_cells::{
    amount_value, cell, cell_decimal, cell_string, cell_u32, cell_unix_secs, count_value, has_name,
    law_cells_are_found_by_name, law_missing_columns_have_no_cell, secs_value, stands_at,
    stands_nowhere, text_value, valid_cells, Cell,
};
use vstd::prelude::*;

verus! {

pub const APP_TYPE: &'static str = "hermes";

pub const DATA_SOURCE: &'static str = "hermes_session";

pub const PROVIDER_PLACEHOLDER: &'static str = "_hermes_session";

pub const UNKNOWN_MODEL: &'static str = "unknown";

pub const WATERMARK_PREFIX: &'static str = "hermes_usage:";

/// The running totals of one usage bucket.
#[derive(Debug)]
pub struct HermesUsageRow {
    pub session_id: String,
    pub model: String,
    pub billing_provider: String,
    pub billing_base_url: String,
    pub billing_mode: String,
    pub task: String,
    pub input_tokens: u32,
    pub output_tokens: u32,
    pub cache_read_tokens: u32,
    pub cache_write_tokens: u32,
    pub estimated_cost: Money,
    pub actual_cost: Money,
    pub cost_included: bool,
    pub first_seen_secs: i64,
    pub last_seen_secs: i64,
}

/// The mathematical content of a `HermesUsageRow`.
#[verifier::ext_equal]
pub struct UsageView {
    pub session_id: Seq<char>,
    pub model: Seq<char>,
    pub billing_provider: Seq<char>,
    pub billing_base_url: Seq<char>,
    pub billing_mode: Seq<char>,
    pub task: Seq<char>,
    pub input_tokens: int,
    pub output_tokens: int,
    pub cache_read_tokens: int,
    pub cache_write_tokens: int,
    pub estimated_cost: Money,
    pub actual_cost: Money,
    pub cost_included: bool,
    pub first_seen_secs: int,
    pub last_seen_secs: int,
}

impl View for HermesUsageRow {
    type V = UsageView;

    open spec fn view(&self) -> UsageView {
        UsageView {
            session_id: self.session_id@,
            model: self.model@,
            billing_provider: self.billing_provider@,
            billing_base_url: self.billing_base_url@,
            billing_mode: self.billing_mode@,
            task: self.task@,
            input_tokens: self.input_tokens as int,
            output_tokens: self.output_tokens as int,
            cache_read_tokens: self.cache_read_tokens as int,
            cache_write_tokens: self.cache_write_tokens as int,
            estimated_cost: self.estimated_cost,
            actual_cost: self.actual_cost,
            cost_included: self.cost_included,
            first_seen_secs: self.first_seen_secs as int,
            last_seen_secs: self.last_seen_secs as int,
        }
    }
}

impl HermesUsageRow {
    /// The reported costs are representable amounts.
    pub open spec fn wf(self) -> bool {
        self.estimated_cost.wf() && self.actual_cost.wf()
    }
}

/// `value`, or `fallback` where it is empty.
pub open spec fn or_fallback(value: Seq<char>, fallback: Seq<char>) -> Seq<char> {
    if value.len() == 0 {
        fallback
    } else {
        value
    }
}

/// `n`, or the greatest 32-bit count if it is greater.
pub open spec fn at_most_u32(n: int) -> int {
    if n > u32::MAX {
        u32::MAX as int
    } else {
        n
    }
}

/// The first of two optional numbers that is there.
pub open spec fn first_of(a: Option<int>, b: Option<int>) -> Option<int> {
    if a is Some {
        a
    } else {
        b
    }
}

/// The number, or a fallback.
pub open spec fn number_or(a: Option<int>, fallback: int) -> int {
    match a {
        Some(n) => n,
        None => fallback,
    }
}

/// The bucket that a database row stands for, whether or not it is worth
/// importing.
pub open spec fn bucket(
    row: Seq<Cell>,
    names: Seq<String>,
    cols: Seq<String>,
    is_model_usage: bool,
) -> UsageView {
    let at = |name: Seq<char>| cell(row, names, cols, name);
    let first_seen = number_or(
        first_of(secs_value(at("first_seen"@)), secs_value(at("started_at"@))),
        0,
    );
    UsageView {
        session_id: text_value(at(if is_model_usage { "session_id"@ } else { "id"@ })),
        model: or_fallback(text_value(at("model"@)), UNKNOWN_MODEL@),
        billing_provider: text_value(at("billing_provider"@)),
        billing_base_url: text_value(at("billing_base_url"@)),
        billing_mode: text_value(at("billing_mode"@)),
        task: text_value(at("task"@)),
        input_tokens: count_value(at("input_tokens"@)),
        output_tokens: at_most_u32(
            count_value(at("output_tokens"@)) + count_value(at("reasoning_tokens"@)),
        ),
        cache_read_tokens: count_value(at("cache_read_tokens"@)),
        cache_write_tokens: count_value(at("cache_write_tokens"@)),
        estimated_cost: amount_value(at("estimated_cost_usd"@)),
        actual_cost: amount_value(at("actual_cost_usd"@)),
        cost_included: lower(text_value(at("cost_status"@))) == lower("included"@) || lower(
            text_value(at("billing_mode"@)),
        ) == lower("subscription_included"@),
        first_seen_secs: first_seen,
        last_seen_secs: number_or(
            first_of(
                first_of(secs_value(at("last_seen"@)), secs_value(at("last_activity_at"@))),
                secs_value(at("ended_at"@)),
            ),
            first_seen,
        ),
    }
}

/// Whether a bucket reports any use: tokens, a cost, or a cost that a
/// subscription covers.
pub open spec fn reports_use(u: UsageView) -> bool {
    ||| u.input_tokens != 0
    ||| u.output_tokens != 0
    ||| u.cache_read_tokens != 0
    ||| u.cache_write_tokens != 0
    ||| u.actual_cost.positive()
    ||| u.estimated_cost.positive()
    ||| u.cost_included
}

/// The bucket that a database row stands for, if it names a session and
/// reports any use.
pub open spec fn mapped(
    row: Seq<Cell>,
    names: Seq<String>,
    cols: Seq<String>,
    is_model_usage: bool,
) -> Option<UsageView> {
    let u = bucket(row, names, cols, is_model_usage);
    if u.session_id.len() > 0 && reports_use(u) {
        Some(u)
    } else {
        None
    }
}

/// The buckets of a list of database rows, in order.
pub open spec fn mapped_rows(
    rows: Seq<Vec<Cell>>,
    names: Seq<String>,
    cols: Seq<String>,
    is_model_usage: bool,
) -> Seq<UsageView>
    decreases rows.len(),
{
    if rows.len() == 0 {
        Seq::empty()
    } else {
        let before = mapped_rows(rows.drop_last(), names, cols, is_model_usage);
        match mapped(rows.last()@, names, cols, is_model_usage) {
            Some(u) => before.push(u),
            None => before,
        }
    }
}

/// The views of a list of buckets.
pub open spec fn usage_views(rows: Seq<HermesUsageRow>) -> Seq<UsageView> {
    rows.map_values(|r: HermesUsageRow| r@)
}

/// `value`, or `fallback` where it is empty.
pub fn nonempty_or(value: String, fallback: &str) -> (r: String)
    ensures
        r@ == or_fallback(value@, fallback@),
{
    if value.as_str().is_empty() {
        fallback.to_string()
    } else {
        value
    }
}

/// Reads one database row; `None` where it names no session or reports no
/// use.
pub fn map_usage_row(
    row: &Vec<Cell>,
    names: &Vec<String>,
    cols: &Vec<String>,
    is_model_usage: bool,
) -> (r: Option<HermesUsageRow>)
    ensures
        match r {
            Some(u) => {
                &&& mapped(row@, names@, cols@, is_model_usage) == Some(u@)
                &&& u.wf()
                &&& valid_cells(row@) ==> u.first_seen_secs >= 0 && u.last_seen_secs >= 0
            },
            None => mapped(row@, names@, cols@, is_model_usage) is None,
        },
{
    let session_id: String = if is_model_usage {
        cell_string(row, names, cols, "session_id")
    } else {
        cell_string(row, names, cols, "id")
    };
    if session_id.as_str().is_empty() {
        return None;
    }
    let input_tokens: u32 = cell_u32(row, names, cols, "input_tokens");
    let output_tokens: u32 = cell_u32(row, names, cols, "output_tokens");
    let cache_read_tokens: u32 = cell_u32(row, names, cols, "cache_read_tokens");
    let cache_write_tokens: u32 = cell_u32(row, names, cols, "cache_write_tokens");
    let reasoning_tokens: u32 = cell_u32(row, names, cols, "reasoning_tokens");
    let output_with_reasoning: u32 = output_tokens.saturating_add(reasoning_tokens);
    let estimated_cost: Money = cell_decimal(row, names, cols, "estimated_cost_usd");
    let actual_cost: Money = cell_decimal(row, names, cols, "actual_cost_usd");
    let cost_status: String = cell_string(row, names, cols, "cost_status");
    let billing_mode: String = cell_string(row, names, cols, "billing_mode");
    let cost_included: bool = same_text_any_case(cost_status.as_str(), "included")
        || same_text_any_case(billing_mode.as_str(), "subscription_included");
    if input_tokens == 0 && output_with_reasoning == 0 && cache_read_tokens == 0
        && cache_write_tokens == 0 && !actual_cost.is_positive() && !estimated_cost.is_positive()
        && !cost_included {
        return None;
    }
    let first_seen_secs: i64 = match cell_unix_secs(row, names, cols, "first_seen") {
        Some(s) => s,
        None => match cell_unix_secs(row, names, cols, "started_at") {
            Some(s) => s,
            None => 0,
        },
    };
    let last_seen_secs: i64 = match cell_unix_secs(row, names, cols, "last_seen") {
        Some(s) => s,
        None => match cell_unix_secs(row, names, cols, "last_activity_at") {
            Some(s) => s,
            None => match cell_unix_secs(row, names, cols, "ended_at") {
                Some(s) => s,
                None => first_seen_secs,
            },
        },
    };
    let model: String = nonempty_or(cell_string(row, names, cols, "model"), UNKNOWN_MODEL);
    Some(
        HermesUsageRow {
            session_id,
            model,
            billing_provider: cell_string(row, names, cols, "billing_provider"),
            billing_base_url: cell_string(row, names, cols, "billing_base_url"),
            billing_mode,
            task: cell_string(row, names, cols, "task"),
            input_tokens,
            output_tokens: output_with_reasoning,
            cache_read_tokens,
            cache_write_tokens,
            estimated_cost,
            actual_cost,
            cost_included,
            first_seen_secs,
            last_seen_secs,
        },
    )
}

/// Reads the rows of a table, in order, leaving out those that name no
/// session or report no use.
pub fn query_table_rows(
    rows: &Vec<Vec<Cell>>,
    names: &Vec<String>,
    cols: &Vec<String>,
    is_model_usage: bool,
) -> (r: Vec<HermesUsageRow>)
    ensures
        usage_views(r@) == mapped_rows(rows@, names@, cols@, is_model_usage),
        forall|i: int| 0 <= i < r@.len() ==> (#[trigger] r@[i]).wf(),
        (forall|k: int| 0 <= k < rows@.len() ==> valid_cells(#[trigger] rows@[k]@)) ==> (forall|
            i: int,
        |
            0 <= i < r@.len() ==> (#[trigger] r@[i]).first_seen_secs >= 0 && r@[i].last_seen_secs
                >= 0),
{
    let ghost valid = forall|k: int| 0 <= k < rows@.len() ==> valid_cells(#[trigger] rows@[k]@);
    let mut out: Vec<HermesUsageRow> = Vec::new();
    let mut i: usize = 0;
    assert(usage_views(out@) =~= mapped_rows(rows@.take(0), names@, cols@, is_model_usage));
    while i < rows.len()
        invariant
            i <= rows@.len(),
            usage_views(out@) == mapped_rows(rows@.take(i as int), names@, cols@, is_model_usage),
            forall|k: int| 0 <= k < out@.len() ==> (#[trigger] out@[k]).wf(),
            valid == (forall|k: int| 0 <= k < rows@.len() ==> valid_cells(#[trigger] rows@[k]@)),
            valid ==> forall|k: int|
                0 <= k < out@.len() ==> (#[trigger] out@[k]).first_seen_secs >= 0
                    && out@[k].last_seen_secs >= 0,
        decreases rows.len() - i,
    {
        assert(rows@.take(i + 1).drop_last() =~= rows@.take(i as int));
        let ghost before = usage_views(out@);
        if let Some(u) = map_usage_row(&rows[i], names, cols, is_model_usage) {
            out.push(u);
            assert(usage_views(out@) =~= before.push(u@));
        }
        i += 1;
    }
    assert(rows@.take(i as int) =~= rows@);
    out
}

/// What is asked of the state database, one question after the other, to find
/// the table that the usage is read from.
#[derive(Clone, Copy, Debug, PartialEq, Eq, Structural)]
pub enum UsageQuestion {
    /// Is there a table `session_model_usage`?
    ModelTableExists,
    /// Does that table have a column `session_id`?
    ModelTableKeyed,
    /// Did that table give any bucket?
    ModelRowsFound,
    /// That table gave none: is there a table `sessions`?
    SessionsBehindModel,
    /// Is there a table `sessions`?
    SessionsExists,
}

/// The table that the usage is read from.
#[derive(Clone, Copy, Debug, PartialEq, Eq, Structural)]
pub enum UsageTable {
    ModelUsage,
    Sessions,
    Neither,
}

/// What comes after an answer: another question, or the table to take.
#[derive(Clone, Copy, Debug, PartialEq, Eq, Structural)]
pub enum UsageStep {
    Ask(UsageQuestion),
    Take(UsageTable),
}

/// A state database, as far as the choice of the table goes.
pub struct UsageFacts {
    pub has_model_table: bool,
    pub model_table_keyed: bool,
    pub model_rows_found: bool,
    pub has_sessions: bool,
}

impl UsageFacts {
    /// The answer that a question gets.
    pub open spec fn answer(self, question: UsageQuestion) -> bool {
        match question {
            UsageQuestion::ModelTableExists => self.has_model_table,
            UsageQuestion::ModelTableKeyed => self.model_table_keyed,
            UsageQuestion::ModelRowsFound => self.model_rows_found,
            UsageQuestion::SessionsBehindModel => self.has_sessions,
            UsageQuestion::SessionsExists => self.has_sessions,
        }
    }

    /// The table that holds the usage: per model where such a table can be
    /// read and either gives a bucket or stands alone, else per session.
    pub open spec fn table(self) -> UsageTable {
        if self.has_model_table && self.model_table_keyed && (self.model_rows_found
            || !self.has_sessions) {
            UsageTable::ModelUsage
        } else if self.has_sessions {
            UsageTable::Sessions
        } else {
            UsageTable::Neither
        }
    }
}

/// What comes after an answer.
pub open spec fn step_after(question: UsageQuestion, answer: bool) -> UsageStep {
    match (question, answer) {
        (UsageQuestion::ModelTableExists, true) => UsageStep::Ask(UsageQuestion::ModelTableKeyed),
        (UsageQuestion::ModelTableKeyed, true) => UsageStep::Ask(UsageQuestion::ModelRowsFound),
        (UsageQuestion::ModelRowsFound, true) => UsageStep::Take(UsageTable::ModelUsage),
        (UsageQuestion::ModelRowsFound, false) => UsageStep::Ask(
            UsageQuestion::SessionsBehindModel,
        ),
        (UsageQuestion::SessionsBehindModel, false) => UsageStep::Take(UsageTable::ModelUsage),
        (UsageQuestion::SessionsExists, true) => UsageStep::Take(UsageTable::Sessions),
        (UsageQuestion::SessionsExists, false) => UsageStep::Take(UsageTable::Neither),
        _ => UsageStep::Ask(UsageQuestion::SessionsExists),
    }
}

/// How many questions can still follow.
pub open spec fn questions_left(question: UsageQuestion) -> nat {
    match question {
        UsageQuestion::ModelTableExists => 4,
        UsageQuestion::ModelTableKeyed => 3,
        UsageQuestion::ModelRowsFound => 2,
        UsageQuestion::SessionsBehindModel => 1,
        UsageQuestion::SessionsExists => 0,
    }
}

/// The table at which the questions end.
pub open spec fn settled(facts: UsageFacts, question: UsageQuestion) -> UsageTable
    decreases questions_left(question),
{
    match step_after(question, facts.answer(question)) {
        UsageStep::Take(table) => table,
        UsageStep::Ask(next) => if questions_left(next) < questions_left(question) {
            settled(facts, next)
        } else {
            UsageTable::Neither
        },
    }
}

/// The first question to the state database.
pub fn first_question() -> (r: UsageQuestion)
    ensures
        r == UsageQuestion::ModelTableExists,
{
    UsageQuestion::ModelTableExists
}

/// What comes after the answer to a question.
pub fn query_usage_rows(question: UsageQuestion, answer: bool) -> (r: UsageStep)
    ensures
        r == step_after(question, answer),
        r matches UsageStep::Ask(next) ==> questions_left(next) < questions_left(question),
{
    match question {
        UsageQuestion::ModelTableExists => if answer {
            UsageStep::Ask(UsageQuestion::ModelTableKeyed)
        } else {
            UsageStep::Ask(UsageQuestion::SessionsExists)
        },
        UsageQuestion::ModelTableKeyed => if answer {
            UsageStep::Ask(UsageQuestion::ModelRowsFound)
        } else {
            UsageStep::Ask(UsageQuestion::SessionsExists)
        },
        UsageQuestion::ModelRowsFound => if answer {
            UsageStep::Take(UsageTable::ModelUsage)
        } else {
            UsageStep::Ask(UsageQuestion::SessionsBehindModel)
        },
        UsageQuestion::SessionsBehindModel => if answer {
            UsageStep::Ask(UsageQuestion::SessionsExists)
        } else {
            UsageStep::Take(UsageTable::ModelUsage)
        },
        UsageQuestion::SessionsExists => if answer {
            UsageStep::Take(UsageTable::Sessions)
        } else {
            UsageStep::Take(UsageTable::Neither)
        },
    }
}

/// Whether a table with these columns is keyed by session.
pub fn is_keyed_by_session(cols: &Vec<String>) -> (r: bool)
    ensures
        r == views(cols@).contains("session_id"@),
{
    has_name(cols, "session_id")
}

/// The questions settle on the table that holds the usage, whatever the
/// database looks like.
pub proof fn law_questions_find_the_table(facts: UsageFacts)
    ensures
        settled(facts, UsageQuestion::ModelTableExists) == facts.table(),
{
    reveal_with_fuel(settled, 5);
}

/// The state database below the Hermes directory.
pub fn hermes_state_db(hermes_dir: &str) -> (r: Location)
    ensures
        r@ == root_at(hermes_dir@).child("state.db"@),
{
    Location::at(hermes_dir).join("state.db")
}

/// When the database was last written: the later of the times of its file and
/// of its write-ahead log.
pub fn hermes_db_modified_nanos(file: i64, wal: Option<i64>) -> (r: i64)
    ensures
        r == match wal {
            Some(w) if w > file => w,
            _ => file,
        },
        r >= file,
        wal matches Some(w) ==> r >= w,
        r == file || wal == Some(r),
{
    match wal {
        Some(w) => if w > file {
            w
        } else {
            file
        },
        None => file,
    }
}

/// Every bucket that is read names a session and a model, and reports some use.
pub proof fn law_read_buckets_report_use(
    rows: Seq<Vec<Cell>>,
    names: Seq<String>,
    cols: Seq<String>,
    is_model_usage: bool,
)
    ensures
        mapped_rows(rows, names, cols, is_model_usage).len() <= rows.len(),
        forall|i: int|
            0 <= i < mapped_rows(rows, names, cols, is_model_usage).len() ==> {
                let u = #[trigger] mapped_rows(rows, names, cols, is_model_usage)[i];
                u.session_id.len() > 0 && u.model.len() > 0 && reports_use(u)
            },
    decreases rows.len(),
{
    if rows.len() > 0 {
        law_read_buckets_report_use(rows.drop_last(), names, cols, is_model_usage);
        reveal_strlit("unknown");
        assert(UNKNOWN_MODEL@.len() == 7);
        let all = mapped_rows(rows, names, cols, is_model_usage);
        let before = mapped_rows(rows.drop_last(), names, cols, is_model_usage);
        assert forall|i: int| 0 <= i < all.len() implies {
            let u = #[trigger] all[i];
            u.session_id.len() > 0 && u.model.len() > 0 && reports_use(u)
        } by {
            if i < before.len() {
                assert(all[i] == before[i]);
            }
        }
    }
}

/// The texts of a bucket are those of the columns of the same names; a bucket
/// without a model is one of an unknown model.
pub proof fn law_texts_are_read_by_name(
    row: Seq<Cell>,
    names: Seq<String>,
    cols: Seq<String>,
    is_model_usage: bool,
    name: Seq<char>,
    k: int,
)
    requires
        stands_at(names, cols, name, k),
        k < row.len(),
    ensures
        ({
            let u = bucket(row, names, cols, is_model_usage);
            let text = text_value(Some(row[k]));
            &&& is_model_usage && name == "session_id"@ ==> u.session_id == text
            &&& !is_model_usage && name == "id"@ ==> u.session_id == text
            &&& name == "model"@ && text.len() > 0 ==> u.model == text
            &&& name == "model"@ && text.len() == 0 ==> u.model == "unknown"@
            &&& name == "billing_provider"@ ==> u.billing_provider == text
            &&& name == "billing_base_url"@ ==> u.billing_base_url == text
            &&& name == "billing_mode"@ ==> u.billing_mode == text
            &&& name == "task"@ ==> u.task == text
        }),
{
    law_cells_are_found_by_name(row, names, cols, name, k);
}

/// The counters and the costs of a bucket are those of the columns of the same
/// names.
pub proof fn law_numbers_are_read_by_name(
    row: Seq<Cell>,
    names: Seq<String>,
    cols: Seq<String>,
    is_model_usage: bool,
    name: Seq<char>,
    k: int,
)
    requires
        stands_at(names, cols, name, k),
        k < row.len(),
    ensures
        ({
            let u = bucket(row, names, cols, is_model_usage);
            let count = count_value(Some(row[k]));
            &&& name == "input_tokens"@ ==> u.input_tokens == count
            &&& name == "cache_read_tokens"@ ==> u.cache_read_tokens == count
            &&& name == "cache_write_tokens"@ ==> u.cache_write_tokens == count
            &&& name == "estimated_cost_usd"@ ==> u.estimated_cost == amount_value(Some(row[k]))
            &&& name == "actual_cost_usd"@ ==> u.actual_cost == amount_value(Some(row[k]))
        }),
{
    law_cells_are_found_by_name(row, names, cols, name, k);
}

/// Tokens of reasoning are output: they are added to it where the table tells
/// them apart, up to the greatest 32-bit count.
pub proof fn law_reasoning_is_output(
    row: Seq<Cell>,
    names: Seq<String>,
    cols: Seq<String>,
    is_model_usage: bool,
    k: int,
    r: int,
)
    requires
        stands_at(names, cols, "output_tokens"@, k),
        k < row.len(),
        r < row.len(),
        stands_at(names, cols, "reasoning_tokens"@, r) || stands_nowhere(
            names,
            cols,
            "reasoning_tokens"@,
        ),
    ensures
        ({
            let u = bucket(row, names, cols, is_model_usage);
            let output = count_value(Some(row[k]));
            let reasoning = if stands_at(names, cols, "reasoning_tokens"@, r) {
                count_value(Some(row[r]))
            } else {
                0
            };
            &&& output + reasoning <= 4_294_967_295 ==> u.output_tokens == output + reasoning
            &&& output + reasoning > 4_294_967_295 ==> u.output_tokens == 4_294_967_295
        }),
{
    law_cells_are_found_by_name(row, names, cols, "output_tokens"@, k);
    if stands_at(names, cols, "reasoning_tokens"@, r) {
        law_cells_are_found_by_name(row, names, cols, "reasoning_tokens"@, r);
    } else {
        law_missing_columns_have_no_cell(row, names, cols, "reasoning_tokens"@);
    }
}

/// A column that is missing leaves its text empty, its count at zero and its
/// cost at nothing.
pub proof fn law_missing_columns_say_nothing(
    row: Seq<Cell>,
    names: Seq<String>,
    cols: Seq<String>,
    is_model_usage: bool,
    name: Seq<char>,
)
    requires
        stands_nowhere(names, cols, name),
    ensures
        ({
            let u = bucket(row, names, cols, is_model_usage);
            &&& is_model_usage && name == "session_id"@ ==> u.session_id.len() == 0
            &&& !is_model_usage && name == "id"@ ==> u.session_id.len() == 0
            &&& name == "model"@ ==> u.model == "unknown"@
            &&& name == "billing_provider"@ ==> u.billing_provider.len() == 0
            &&& name == "billing_base_url"@ ==> u.billing_base_url.len() == 0
            &&& name == "billing_mode"@ ==> u.billing_mode.len() == 0
            &&& name == "task"@ ==> u.task.len() == 0
            &&& name == "input_tokens"@ ==> u.input_tokens == 0
            &&& name == "cache_read_tokens"@ ==> u.cache_read_tokens == 0
            &&& name == "cache_write_tokens"@ ==> u.cache_write_tokens == 0
            &&& name == "estimated_cost_usd"@ ==> u.estimated_cost.mantissa == 0
            &&& name == "actual_cost_usd"@ ==> u.actual_cost.mantissa == 0
        }),
{
    law_missing_columns_have_no_cell(row, names, cols, name);
}

/// A subscription covers the cost exactly if the cost status says `included` or
/// the billing mode says `subscription_included`, in any case.
pub proof fn law_what_a_subscription_covers(
    row: Seq<Cell>,
    names: Seq<String>,
    cols: Seq<String>,
    is_model_usage: bool,
    k: int,
    m: int,
)
    requires
        stands_at(names, cols, "cost_status"@, k),
        stands_at(names, cols, "billing_mode"@, m),
        k < row.len(),
        m < row.len(),
    ensures
        bucket(row, names, cols, is_model_usage).cost_included <==> lower(
            text_value(Some(row[k])),
        ) == "included"@ || lower(text_value(Some(row[m]))) == "subscription_included"@,
{
    law_cells_are_found_by_name(row, names, cols, "cost_status"@, k);
    law_cells_are_found_by_name(row, names, cols, "billing_mode"@, m);
    reveal_strlit("included");
    reveal_strlit("subscription_included");
    assert(lower("included"@) =~= "included"@);
    assert(lower("subscription_included"@) =~= "subscription_included"@);
}

/// A bucket begins when it was first seen, or else when its session started;
/// with neither it has no beginning.
pub proof fn law_when_a_bucket_begins(
    row: Seq<Cell>,
    names: Seq<String>,
    cols: Seq<String>,
    is_model_usage: bool,
)
    ensures
        ({
            let u = bucket(row, names, cols, is_model_usage);
            let seen = secs_value(cell(row, names, cols, "first_seen"@));
            let started = secs_value(cell(row, names, cols, "started_at"@));
            &&& seen is Some ==> u.first_seen_secs == seen->0
            &&& seen is None && started is Some ==> u.first_seen_secs == started->0
            &&& seen is None && started is None ==> u.first_seen_secs == 0
        }),
{
}

/// A bucket was last active when it was last seen, or else when its session was
/// last active, or else when that ended; with none of these, when it began.
pub proof fn law_when_a_bucket_was_last_active(
    row: Seq<Cell>,
    names: Seq<String>,
    cols: Seq<String>,
    is_model_usage: bool,
)
    ensures
        ({
            let u = bucket(row, names, cols, is_model_usage);
            let seen = secs_value(cell(row, names, cols, "last_seen"@));
            let active = secs_value(cell(row, names, cols, "last_activity_at"@));
            let ended = secs_value(cell(row, names, cols, "ended_at"@));
            &&& seen is Some ==> u.last_seen_secs == seen->0
            &&& seen is None && active is Some ==> u.last_seen_secs == active->0
            &&& seen is None && active is None && ended is Some ==> u.last_seen_secs == ended->0
            &&& seen is None && active is None && ended is None ==> u.last_seen_secs
                == u.first_seen_secs
        }),
{
}

/// A row is read exactly if it names a session and has a token, a cost or a
/// cost that a subscription covers.
pub proof fn law_which_rows_are_read(
    row: Seq<Cell>,
    names: Seq<String>,
    cols: Seq<String>,
    is_model_usage: bool,
)
    ensures
        ({
            let u = bucket(row, names, cols, is_model_usage);
            let tokens = u.input_tokens + u.output_tokens + u.cache_read_tokens
                + u.cache_write_tokens;
            let read = mapped(row, names, cols, is_model_usage);
            &&& u.session_id.len() == 0 ==> read is None
            &&& tokens == 0 && u.actual_cost.mantissa <= 0 && u.estimated_cost.mantissa <= 0
                && !u.cost_included ==> read is None
            &&& u.session_id.len() > 0 && (tokens > 0 || u.actual_cost.mantissa > 0
                || u.estimated_cost.mantissa > 0 || u.cost_included) ==> read == Some(u)
        }),
{
}

/// The buckets of the first rows are the first of all buckets, and every row
/// that is read gives one.
pub proof fn law_rows_keep_their_order(
    rows: Seq<Vec<Cell>>,
    names: Seq<String>,
    cols: Seq<String>,
    is_model_usage: bool,
    n: int,
)
    requires
        0 <= n <= rows.len(),
    ensures
        mapped_rows(rows.take(n), names, cols, is_model_usage).is_prefix_of(
            mapped_rows(rows, names, cols, is_model_usage),
        ),
        n < rows.len() ==> match mapped(rows[n]@, names, cols, is_model_usage) {
            Some(u) => mapped_rows(rows.take(n + 1), names, cols, is_model_usage) == mapped_rows(
                rows.take(n),
                names,
                cols,
                is_model_usage,
            ).push(u),
            None => mapped_rows(rows.take(n + 1), names, cols, is_model_usage) == mapped_rows(
                rows.take(n),
                names,
                cols,
                is_model_usage,
            ),
        },
    decreases rows.len(),
{
    let some = mapped_rows(rows.take(n), names, cols, is_model_usage);
    let all = mapped_rows(rows, names, cols, is_model_usage);
    if n < rows.len() {
        let front = rows.drop_last();
        law_rows_keep_their_order(front, names, cols, is_model_usage, n);
        assert(front.take(n) =~= rows.take(n));
        let before = mapped_rows(front, names, cols, is_model_usage);
        assert(some =~= before.subrange(0, some.len() as int));
        assert(some =~= all.subrange(0, some.len() as int));
        assert(rows.take(n + 1).drop_last() =~= rows.take(n));
        assert(rows.take(n + 1).last() == rows[n]);
    } else {
        assert(rows.take(n) =~= rows);
        assert(some =~= all.subrange(0, some.len() as int));
    }
}

/// The usage per model is taken where it can be told by session and there is
/// any, or nothing else; the sessions are taken where that is not so.
pub proof fn law_which_table_is_taken(facts: UsageFacts)
    ensures
        ({
            let taken = settled(facts, UsageQuestion::ModelTableExists);
            let keyed = facts.has_model_table && facts.model_table_keyed;
            &&& keyed && facts.model_rows_found ==> taken == UsageTable::ModelUsage
            &&& keyed && !facts.has_sessions ==> taken == UsageTable::ModelUsage
            &&& keyed && !facts.model_rows_found && facts.has_sessions ==> taken
                == UsageTable::Sessions
            &&& !keyed && facts.has_sessions ==> taken == UsageTable::Sessions
            &&& !keyed && !facts.has_sessions ==> taken == UsageTable::Neither
        }),
{
    reveal_with_fuel(settled, 5);
}

} // verus!
