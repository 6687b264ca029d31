//! Usage events as the Cursor dashboard reports them.

use crate::binary64::Binary64;
use crate::cursor_models::{
    is_internal, is_internal_cursor_traffic, pool, pool_provider_id, PROVIDER_FIRST_PARTY,
    PROVIDER_THIRD_PARTY,
};
use crate::json::{member_of, referred, JsonValue};
use crate::numeral::{
    decimal, decimal_text, i64_value, is_digit_char, is_digit_run, lemma_decimal_has_no_colon,
    lemma_decimal_reads_back, lemma_digits, parse_i64, unsigned_part,
};
use crate::text::{
    contains, has_prefix, has_text, lemma_split_concat, lemma_split_parts, lemma_split_single,
    lemma_strip_nothing, lemma_trim_twice, lower, occurs_at, same_text, split, strips, to_upper,
    trim, trimmed, upper, views, Strip,
};
use vstd::prelude::*;

verus! {

/// The model of an event that names none.
pub const UNKNOWN_MODEL: &'static str = "unknown";

/// The conversation of an event that names none.
pub const NO_CONVERSATION: &'static str = "none";

/// A cost as an event states it, before it is read as a number.
#[derive(Debug, PartialEq)]
pub enum NumericCost {
    /// There is none.
    Absent,
    Unsigned(u64),
    Negative(i64),
    Float(Binary64),
    /// A text that may be a number, without white space around it.
    Text(String),
}

/// The three costs that an event may state.
#[derive(Debug, PartialEq)]
pub struct StatedCosts {
    pub usage_based: NumericCost,
    pub charged: NumericCost,
    pub total: NumericCost,
}

/// An amount in cents, and the same amount in dollars with eight decimal
/// places.
#[derive(Debug)]
pub struct Cents {
    pub amount: Binary64,
    pub dollars: String,
}

/// The costs of an event that could be read as numbers.
#[derive(Debug)]
pub struct EventCosts {
    pub usage_based: Option<Cents>,
    pub charged: Option<Cents>,
    pub total: Option<Cents>,
}

/// One billed request.
#[derive(Debug, Clone)]
pub struct CursorUsageEvent {
    pub request_id: String,
    pub timestamp_ms: i64,
    pub model: String,
    pub conversation_id: String,
    pub provider_id: String,
    pub input_tokens: u32,
    pub output_tokens: u32,
    pub cache_read_tokens: u32,
    pub cache_write_tokens: u32,
    pub cost_usd: String,
    pub status_code: i64,
}

/// The mathematical content of a `CursorUsageEvent`.
#[verifier::ext_equal]
pub struct EventView {
    pub request_id: Seq<char>,
    pub timestamp_ms: i64,
    pub model: Seq<char>,
    pub conversation_id: Seq<char>,
    pub provider_id: Seq<char>,
    pub input_tokens: u32,
    pub output_tokens: u32,
    pub cache_read_tokens: u32,
    pub cache_write_tokens: u32,
    pub cost_usd: Seq<char>,
    pub status_code: i64,
}

impl View for CursorUsageEvent {
    type V = EventView;

    open spec fn view(&self) -> EventView {
        EventView {
            request_id: self.request_id@,
            timestamp_ms: self.timestamp_ms,
            model: self.model@,
            conversation_id: self.conversation_id@,
            provider_id: self.provider_id@,
            input_tokens: self.input_tokens,
            output_tokens: self.output_tokens,
            cache_read_tokens: self.cache_read_tokens,
            cache_write_tokens: self.cache_write_tokens,
            cost_usd: self.cost_usd@,
            status_code: self.status_code,
        }
    }
}

/// One page of events, and how many events there are on all pages.
#[derive(Debug)]
pub struct UsageEventsPage {
    pub events: Vec<CursorUsageEvent>,
    pub total: u64,
}

/// The views of a list of events.
pub open spec fn event_views(events: Seq<CursorUsageEvent>) -> Seq<EventView> {
    events.map_values(|event: CursorUsageEvent| event@)
}

/// A number, or a text that is one, as a 64-bit integer. Whole numbers beyond
/// the range wrap around; others lose their fraction and stop at the limits.
pub open spec fn integer_of(value: JsonValue) -> Option<i64> {
    match value {
        JsonValue::Unsigned(n) if n <= i64::MAX => Some(n as i64),
        JsonValue::Unsigned(n) => Some((n - 0x1_0000_0000_0000_0000) as i64),
        JsonValue::Negative(n) => Some(n),
        JsonValue::Float(x) => Some(x.whole() as i64),
        JsonValue::Text(s) => i64_value(trimmed(s@)),
        _ => None,
    }
}

/// The same for an optional value.
pub open spec fn integer_in(value: Option<JsonValue>) -> Option<i64> {
    match value {
        Some(value) => integer_of(value),
        None => None,
    }
}

/// The integer in a value, with zero for what is missing or negative.
pub open spec fn count_in(value: Option<JsonValue>) -> int {
    match integer_in(value) {
        Some(n) if n > 0 => n as int,
        _ => 0,
    }
}

/// A token count: the last 32 bits of the count.
pub open spec fn tokens_in(value: Option<JsonValue>) -> u32 {
    (count_in(value) % 0x1_0000_0000) as u32
}

/// A text without white space around it, or the digits of a whole number.
pub open spec fn label_in(value: Option<JsonValue>) -> Seq<char> {
    match value {
        Some(JsonValue::Text(s)) => trimmed(s@),
        Some(other) => match other.small_integer() {
            Some(n) => decimal(n),
            None => Seq::empty(),
        },
        None => Seq::empty(),
    }
}

/// A label, or another text in place of an empty one.
pub open spec fn label_or(value: Option<JsonValue>, other: Seq<char>) -> Seq<char> {
    if label_in(value).len() == 0 {
        other
    } else {
        label_in(value)
    }
}

/// Whether the cost is the stated one: a number as it is, a text if it is
/// neither blank nor a dash.
pub open spec fn states_cost(value: Option<JsonValue>, cost: NumericCost) -> bool {
    match value {
        Some(JsonValue::Unsigned(n)) => cost == NumericCost::Unsigned(n),
        Some(JsonValue::Negative(n)) => cost == NumericCost::Negative(n),
        Some(JsonValue::Float(x)) => cost == NumericCost::Float(x),
        Some(JsonValue::Text(s)) if trimmed(s@).len() > 0 && trimmed(s@) != "-"@ => {
            cost matches NumericCost::Text(t) && t@ == trimmed(s@)
        },
        _ => cost is Absent,
    }
}

/// Whether there is an amount and it is greater than zero.
pub open spec fn costs_something(cents: Option<Cents>) -> bool {
    cents matches Some(c) && c.amount.positive()
}

/// The cost of an event in dollars: what usage-based pricing says, if it is
/// something; otherwise what was charged or, where that is not known, the
/// total.
pub open spec fn cost_text(costs: EventCosts) -> Seq<char> {
    let included = if costs.charged is Some {
        costs.charged
    } else {
        costs.total
    };
    if costs_something(costs.usage_based) {
        costs.usage_based->0.dollars@
    } else if costs_something(included) {
        included->0.dollars@
    } else {
        "0"@
    }
}

/// The identity of an event.
pub open spec fn event_id(
    conversation_id: Seq<char>,
    timestamp_ms: i64,
    model: Seq<char>,
) -> Seq<char> {
    "cursor:"@ + conversation_id + ":"@ + decimal(timestamp_ms as int) + ":"@ + model
}

/// The status of an event of the given kind.
pub open spec fn status_of(kind: Seq<char>) -> i64 {
    if has_text(upper(kind), "ERROR"@) {
        500
    } else {
        200
    }
}

/// What a reported event says; nothing where it has no time, or is Cursor's own
/// traffic.
pub open spec fn event_of(
    value: JsonValue,
    costs: EventCosts,
    bucket: Seq<Seq<char>>,
) -> Option<EventView> {
    let model = label_or(value.member("model"@), UNKNOWN_MODEL@);
    let conversation_id = label_or(value.member("conversationId"@), NO_CONVERSATION@);
    let usage = value.member("tokenUsage"@);
    match integer_in(value.member("timestamp"@)) {
        Some(timestamp_ms) if timestamp_ms > 0 && !is_internal(model, conversation_id) => Some(
            EventView {
                request_id: event_id(conversation_id, timestamp_ms, model),
                timestamp_ms,
                model,
                conversation_id,
                provider_id: pool(model, bucket),
                input_tokens: tokens_in(member_of(usage, "inputTokens"@)),
                output_tokens: tokens_in(member_of(usage, "outputTokens"@)),
                cache_read_tokens: tokens_in(member_of(usage, "cacheReadTokens"@)),
                cache_write_tokens: tokens_in(member_of(usage, "cacheWriteTokens"@)),
                cost_usd: cost_text(costs),
                status_code: status_of(label_in(value.member("kind"@))),
            },
        ),
        _ => None,
    }
}

/// The costs of the `i`-th event; none where the list is too short.
pub open spec fn costs_at(costs: Seq<EventCosts>, i: int) -> EventCosts {
    if i < costs.len() {
        costs[i]
    } else {
        EventCosts { usage_based: None, charged: None, total: None }
    }
}

/// What a list of reported events says, in order.
pub open spec fn events_of(
    items: Seq<JsonValue>,
    costs: Seq<EventCosts>,
    bucket: Seq<Seq<char>>,
) -> Seq<EventView>
    decreases items.len(),
{
    if items.len() == 0 {
        Seq::empty()
    } else {
        let before = events_of(items.drop_last(), costs, bucket);
        match event_of(items.last(), costs_at(costs, items.len() - 1), bucket) {
            Some(event) => before.push(event),
            None => before,
        }
    }
}

/// The events that a reply of the dashboard reports.
pub open spec fn reported(body: JsonValue) -> Seq<JsonValue> {
    match body.member("usageEventsDisplay"@) {
        Some(list) => list.items(),
        None => Seq::empty(),
    }
}

/// The models on a list, without blank entries and without white space.
pub open spec fn model_list(items: Seq<JsonValue>) -> Seq<Seq<char>>
    decreases items.len(),
{
    if items.len() == 0 {
        Seq::empty()
    } else {
        let before = model_list(items.drop_last());
        match items.last().text() {
            Some(s) if trimmed(s).len() > 0 => before.push(trimmed(s)),
            _ => before,
        }
    }
}

/// A number, or a text that is one, as a 64-bit integer.
pub fn json_i64(value: &JsonValue) -> (r: Option<i64>)
    ensures
        r == integer_of(*value),
{
    match value {
        JsonValue::Unsigned(n) => {
            if *n <= i64::MAX as u64 {
                Some(*n as i64)
            } else {
                Some((*n as i128 - 0x1_0000_0000_0000_0000) as i64)
            }
        },
        JsonValue::Negative(n) => Some(*n),
        JsonValue::Float(x) => Some(x.to_whole()),
        JsonValue::Text(s) => {
            let s: String = trim(s.as_str());
            parse_i64(s.as_str())
        },
        _ => None,
    }
}

/// A number, or a text that is one, as a 64-bit integer.
pub fn json_number_i64(value: Option<&JsonValue>) -> (r: Option<i64>)
    ensures
        r == integer_in(referred(value)),
{
    match value {
        Some(value) => json_i64(value),
        None => None,
    }
}

/// A token count: the last 32 bits of the number.
pub fn json_u32(value: Option<&JsonValue>) -> (r: u32)
    ensures
        r == tokens_in(referred(value)),
{
    match json_number_i64(value) {
        Some(n) if n > 0 => (n as u64 % 0x1_0000_0000) as u32,
        _ => 0,
    }
}

/// A text without white space around it, or the digits of a whole number.
pub fn json_string(value: Option<&JsonValue>) -> (r: String)
    ensures
        r@ == label_in(referred(value)),
{
    match value {
        Some(JsonValue::Text(s)) => trim(s.as_str()),
        Some(JsonValue::Unsigned(n)) if *n <= i64::MAX as u64 => decimal_text(*n as i64),
        Some(JsonValue::Negative(n)) => decimal_text(*n),
        _ => {
            let nothing: String = String::new();
            assert(nothing@ =~= Seq::<char>::empty());
            nothing
        },
    }
}

/// A label, or another text in place of an empty one.
fn json_string_or(value: Option<&JsonValue>, other: &str) -> (r: String)
    ensures
        r@ == label_or(referred(value), other@),
{
    let label: String = json_string(value);
    if label.as_str().is_empty() {
        other.to_string()
    } else {
        label
    }
}

/// The cost that a value states.
pub fn parse_numeric_cost(value: Option<&JsonValue>) -> (r: NumericCost)
    ensures
        states_cost(referred(value), r),
{
    match value {
        Some(JsonValue::Unsigned(n)) => NumericCost::Unsigned(*n),
        Some(JsonValue::Negative(n)) => NumericCost::Negative(*n),
        Some(JsonValue::Float(x)) => NumericCost::Float(*x),
        Some(JsonValue::Text(s)) => {
            let s: String = trim(s.as_str());
            if s.as_str().is_empty() || same_text(s.as_str(), "-") {
                NumericCost::Absent
            } else {
                NumericCost::Text(s)
            }
        },
        _ => NumericCost::Absent,
    }
}

/// The three costs that an event states.
pub fn stated_costs(value: &JsonValue) -> (r: StatedCosts)
    ensures
        states_cost(value.member("usageBasedCosts"@), r.usage_based),
        states_cost(value.member("chargedCents"@), r.charged),
        states_cost(member_of(value.member("tokenUsage"@), "totalCents"@), r.total),
{
    StatedCosts {
        usage_based: parse_numeric_cost(value.get("usageBasedCosts")),
        charged: parse_numeric_cost(value.get("chargedCents")),
        total: parse_numeric_cost(within(value.get("tokenUsage"), "totalCents")),
    }
}

/// The value under a key of an optional value.
fn within<'a>(value: Option<&'a JsonValue>, key: &str) -> (r: Option<&'a JsonValue>)
    ensures
        referred(r) == member_of(referred(value), key@),
{
    match value {
        Some(value) => value.get(key),
        None => None,
    }
}

fn is_something(cents: &Option<Cents>) -> (r: bool)
    ensures
        r == costs_something(*cents),
{
    match cents {
        Some(cents) => cents.amount.is_positive(),
        None => false,
    }
}

/// The cost of an event in dollars.
pub fn event_cost_usd(costs: &EventCosts) -> (r: String)
    ensures
        r@ == cost_text(*costs),
{
    if is_something(&costs.usage_based) {
        if let Some(cents) = &costs.usage_based {
            return cents.dollars.clone();
        }
    }
    let charged: &Option<Cents> = if costs.charged.is_some() {
        &costs.charged
    } else {
        &costs.total
    };
    if is_something(charged) {
        if let Some(cents) = charged {
            return cents.dollars.clone();
        }
    }
    "0".to_string()
}

/// The models that draw from the first-party pool, as the dashboard lists them.
pub fn parse_auto_bucket_models(value: &JsonValue) -> (r: Vec<String>)
    ensures
        views(r@) == model_list(
            match value.member("autoBucketModels"@) {
                Some(list) => list.items(),
                None => Seq::empty(),
            },
        ),
{
    let mut models: Vec<String> = Vec::new();
    assert(views(models@) =~= model_list(Seq::empty()));
    if let Some(JsonValue::Array(items)) = value.get("autoBucketModels") {
        let mut i: usize = 0;
        assert(items@.take(0) =~= Seq::empty());
        while i < items.len()
            invariant
                i <= items@.len(),
                views(models@) == model_list(items@.take(i as int)),
            decreases items.len() - i,
        {
            let ghost before = views(models@);
            assert(items@.take(i + 1).drop_last() =~= items@.take(i as int));
            if let JsonValue::Text(s) = &items[i] {
                let s: String = trim(s.as_str());
                if !s.as_str().is_empty() {
                    let ghost model = s@;
                    models.push(s);
                    assert(views(models@) =~= before.push(model));
                }
            }
            i += 1;
        }
        assert(items@.take(i as int) =~= items@);
    }
    models
}

/// What a reported event says, given its costs and the list of the first-party
/// pool.
pub fn parse_event(value: &JsonValue, costs: &EventCosts, auto_bucket: &[String]) -> (r: Option<
    CursorUsageEvent,
>)
    ensures
        match r {
            Some(event) => event_of(*value, *costs, views(auto_bucket@)) == Some(event@),
            None => event_of(*value, *costs, views(auto_bucket@)) is None,
        },
{
    let timestamp_ms: i64 = match json_number_i64(value.get("timestamp")) {
        Some(timestamp_ms) if timestamp_ms > 0 => timestamp_ms,
        _ => {
            return None;
        },
    };
    let model: String = json_string_or(value.get("model"), UNKNOWN_MODEL);
    let conversation_id: String = json_string_or(value.get("conversationId"), NO_CONVERSATION);
    if is_internal_cursor_traffic(model.as_str(), conversation_id.as_str()) {
        return None;
    }
    let usage: Option<&JsonValue> = value.get("tokenUsage");
    let input_tokens: u32 = json_u32(within(usage, "inputTokens"));
    let output_tokens: u32 = json_u32(within(usage, "outputTokens"));
    let cache_read_tokens: u32 = json_u32(within(usage, "cacheReadTokens"));
    let cache_write_tokens: u32 = json_u32(within(usage, "cacheWriteTokens"));
    let kind: String = json_string(value.get("kind"));
    let kind: String = to_upper(kind.as_str());
    let status_code: i64 = if contains(kind.as_str(), "ERROR") {
        500
    } else {
        200
    };
    let time: String = decimal_text(timestamp_ms);
    let request_id: String = "cursor:".to_string().concat(conversation_id.as_str()).concat(
        ":",
    ).concat(time.as_str()).concat(":").concat(model.as_str());
    let provider_id: String = pool_provider_id(model.as_str(), auto_bucket).to_string();
    Some(
        CursorUsageEvent {
            request_id,
            timestamp_ms,
            model,
            conversation_id,
            provider_id,
            input_tokens,
            output_tokens,
            cache_read_tokens,
            cache_write_tokens,
            cost_usd: event_cost_usd(costs),
            status_code,
        },
    )
}

/// The events that a reply of the dashboard reports, given their costs in the
/// same order.
pub fn parse_events_page(
    body: &JsonValue,
    costs: &[EventCosts],
    auto_bucket: &[String],
) -> (r: UsageEventsPage)
    ensures
        event_views(r.events@) == events_of(reported(*body), costs@, views(auto_bucket@)),
        r.total == count_in(body.member("totalUsageEventsCount"@)),
{
    let total: u64 = match json_number_i64(body.get("totalUsageEventsCount")) {
        Some(n) if n > 0 => n as u64,
        _ => 0,
    };
    let ghost bucket = views(auto_bucket@);
    let mut events: Vec<CursorUsageEvent> = Vec::new();
    assert(event_views(events@) =~= events_of(Seq::empty(), costs@, bucket));
    if let Some(JsonValue::Array(items)) = body.get("usageEventsDisplay") {
        let mut i: usize = 0;
        assert(items@.take(0) =~= Seq::empty());
        while i < items.len()
            invariant
                i <= items@.len(),
                bucket == views(auto_bucket@),
                event_views(events@) == events_of(items@.take(i as int), costs@, bucket),
            decreases items.len() - i,
        {
            let ghost before = event_views(events@);
            assert(items@.take(i + 1).drop_last() =~= items@.take(i as int));
            let parsed: Option<CursorUsageEvent> = if i < costs.len() {
                parse_event(&items[i], &costs[i], auto_bucket)
            } else {
                let none = EventCosts { usage_based: None, charged: None, total: None };
                parse_event(&items[i], &none, auto_bucket)
            };
            if let Some(event) = parsed {
                let ghost view = event@;
                events.push(event);
                assert(event_views(events@) =~= before.push(view));
            }
            i += 1;
        }
        assert(items@.take(i as int) =~= items@);
    }
    UsageEventsPage { events, total }
}

/// The costs that the events of a reply state, in the same order.
pub fn stated_costs_of_page(body: &JsonValue) -> (r: Vec<StatedCosts>)
    ensures
        r@.len() == reported(*body).len(),
        forall|i: int|
            #![trigger r@[i]]
            0 <= i < r@.len() ==> {
                let event = reported(*body)[i];
                &&& states_cost(event.member("usageBasedCosts"@), r@[i].usage_based)
                &&& states_cost(event.member("chargedCents"@), r@[i].charged)
                &&& states_cost(
                    member_of(event.member("tokenUsage"@), "totalCents"@),
                    r@[i].total,
                )
            },
{
    let mut all: Vec<StatedCosts> = Vec::new();
    if let Some(JsonValue::Array(items)) = body.get("usageEventsDisplay") {
        let mut i: usize = 0;
        while i < items.len()
            invariant
                i <= items@.len(),
                all@.len() == i,
                forall|j: int|
                    #![trigger all@[j]]
                    0 <= j < i ==> {
                        let event = items@[j];
                        &&& states_cost(event.member("usageBasedCosts"@), all@[j].usage_based)
                        &&& states_cost(event.member("chargedCents"@), all@[j].charged)
                        &&& states_cost(
                            member_of(event.member("tokenUsage"@), "totalCents"@),
                            all@[j].total,
                        )
                    },
            decreases items.len() - i,
        {
            all.push(stated_costs(&items[i]));
            i += 1;
        }
    }
    all
}

/// What is imported has a time and a model, is not Cursor's own traffic, and
/// counts for one of the two pools.
pub proof fn law_imported_events_are_billed(
    value: JsonValue,
    costs: EventCosts,
    bucket: Seq<Seq<char>>,
)
    requires
        event_of(value, costs, bucket) is Some,
    ensures
        ({
            let event = event_of(value, costs, bucket)->0;
            &&& event.timestamp_ms > 0
            &&& event.model.len() > 0
            &&& event.conversation_id.len() > 0
            &&& !is_internal(event.model, event.conversation_id)
            &&& event.provider_id == PROVIDER_FIRST_PARTY@ || event.provider_id
                == PROVIDER_THIRD_PARTY@
            &&& event.status_code == 200 || event.status_code == 500
        }),
{
    reveal_strlit("unknown");
    reveal_strlit("none");
    assert(UNKNOWN_MODEL@.len() == 7);
    assert(NO_CONVERSATION@.len() == 4);
}

/// A page holds no events but reported ones, and every reported event that says
/// something.
pub proof fn law_page_holds_reported_events(
    items: Seq<JsonValue>,
    costs: Seq<EventCosts>,
    bucket: Seq<Seq<char>>,
    event: EventView,
)
    ensures
        events_of(items, costs, bucket).len() <= items.len(),
        events_of(items, costs, bucket).contains(event) <==> exists|i: int|
            #![trigger items[i]]
            0 <= i < items.len() && event_of(items[i], costs_at(costs, i), bucket) == Some(event),
    decreases items.len(),
{
    if items.len() > 0 {
        let front = items.drop_last();
        let last = items.len() - 1;
        let before = events_of(front, costs, bucket);
        let all = events_of(items, costs, bucket);
        law_page_holds_reported_events(front, costs, bucket, event);
        if all.contains(event) {
            let k = choose|k: int| 0 <= k < all.len() && all[k] == event;
            if k < before.len() {
                assert(before[k] == event);
                let i = choose|i: int|
                    #![trigger front[i]]
                    0 <= i < front.len() && event_of(front[i], costs_at(costs, i), bucket) == Some(
                        event,
                    );
                assert(items[i] == front[i]);
            } else {
                assert(items[last] == items.last());
            }
        }
        if exists|i: int|
            #![trigger items[i]]
            0 <= i < items.len() && event_of(items[i], costs_at(costs, i), bucket) == Some(
                event,
            ) {
            let i = choose|i: int|
                #![trigger items[i]]
                0 <= i < items.len() && event_of(items[i], costs_at(costs, i), bucket) == Some(
                    event,
                );
            if i < last {
                assert(front[i] == items[i]);
                let k = choose|k: int| 0 <= k < before.len() && before[k] == event;
                assert(all[k] == event);
            } else {
                assert(all[all.len() - 1] == event);
            }
        }
    }
}

/// A time that is given as text is read as the same number is.
pub proof fn law_numbers_may_be_text(n: i64, text: JsonValue, number: JsonValue)
    requires
        text.text() == Some(decimal(n as int)),
        number == if n >= 0 {
            JsonValue::Unsigned(n as u64)
        } else {
            JsonValue::Negative(n)
        },
    ensures
        integer_of(text) == Some(n),
        integer_of(number) == Some(n),
{
    let s = decimal(n as int);
    lemma_decimal_reads_back(n);
    assert(is_digit_run(unsigned_part(s)));
    assert(!strips(Strip::White, s[0]) && !strips(Strip::White, s.last())) by {
        let rest = unsigned_part(s);
        assert(is_digit_char(rest[rest.len() - 1]));
        assert(rest.last() == s.last());
        assert(is_digit_char(rest[0]));
    }
    lemma_strip_nothing(s, Strip::White);
}

/// The entries of the list of the first-party pool are neither blank nor
/// surrounded by white space.
pub proof fn law_listed_models_are_trimmed(items: Seq<JsonValue>)
    ensures
        forall|i: int|
            0 <= i < model_list(items).len() ==> (#[trigger] model_list(items)[i]).len() > 0
                && trimmed(model_list(items)[i]) == model_list(items)[i],
    decreases items.len(),
{
    if items.len() > 0 {
        law_listed_models_are_trimmed(items.drop_last());
        if let Some(s) = items.last().text() {
            lemma_trim_twice(s);
        }
        let before = model_list(items.drop_last());
        assert forall|i: int| 0 <= i < model_list(items).len() implies (#[trigger] model_list(
            items,
        )[i]).len() > 0 && trimmed(model_list(items)[i]) == model_list(items)[i] by {
            if i < before.len() {
                assert(model_list(items)[i] == before[i]);
            }
        }
    }
}

/// An event keeps its identity when it is reported again, whatever it costs then
/// and whatever the list of the first-party pool says then.
pub proof fn law_identity_is_kept(
    value: JsonValue,
    costs: EventCosts,
    bucket: Seq<Seq<char>>,
    other_costs: EventCosts,
    other_bucket: Seq<Seq<char>>,
)
    ensures
        event_of(value, costs, bucket) is Some == event_of(value, other_costs, other_bucket) is Some,
        event_of(value, costs, bucket) is Some ==> event_of(value, costs, bucket)->0.request_id
            == event_of(value, other_costs, other_bucket)->0.request_id,
{
}

/// Events that differ in conversation, time or model have different identities,
/// as long as no conversation has a colon in its name.
pub proof fn law_identities_tell_events_apart(
    conversation: Seq<char>,
    time: i64,
    model: Seq<char>,
    other_conversation: Seq<char>,
    other_time: i64,
    other_model: Seq<char>,
)
    requires
        !conversation.contains(':'),
        !other_conversation.contains(':'),
        event_id(conversation, time, model) == event_id(
            other_conversation,
            other_time,
            other_model,
        ),
    ensures
        conversation == other_conversation,
        time == other_time,
        model == other_model,
{
    let id = event_id(conversation, time, model);
    lemma_event_id_parts(conversation, time, model);
    lemma_event_id_parts(other_conversation, other_time, other_model);
    assert(decimal(time as int) == decimal(other_time as int));
    lemma_decimal_reads_back(time);
    lemma_decimal_reads_back(other_time);
    assert(model =~= id.skip(id.len() - model.len()));
    assert(other_model =~= id.skip(id.len() - other_model.len()));
}

proof fn lemma_event_id_parts(conversation: Seq<char>, time: i64, model: Seq<char>)
    requires
        !conversation.contains(':'),
    ensures
        split(event_id(conversation, time, model), ':').len() > 2,
        split(event_id(conversation, time, model), ':')[1] == conversation,
        split(event_id(conversation, time, model), ':')[2] == decimal(time as int),
{
    reveal_strlit("cursor:");
    reveal_strlit(":");
    let app = seq!['c', 'u', 'r', 's', 'o', 'r'];
    let digits = decimal(time as int);
    let tail = digits.push(':') + model;
    lemma_decimal_has_no_colon(time);
    lemma_split_single(app, ':');
    lemma_split_single(conversation, ':');
    lemma_split_single(digits, ':');
    lemma_split_concat(app, conversation.push(':') + tail, ':');
    lemma_split_concat(conversation, tail, ':');
    lemma_split_concat(digits, model, ':');
    lemma_split_parts(model, ':');
    assert("cursor:"@ =~= app.push(':'));
    assert(":"@ =~= seq![':']);
    assert(event_id(conversation, time, model) =~= app.push(':') + (conversation.push(':') + tail));
}

/// On-demand costs come first: where usage-based pricing states something
/// greater than zero, that is the cost, whatever else is stated.
pub proof fn law_usage_based_cost_comes_first(costs: EventCosts)
    requires
        costs.usage_based matches Some(c) && c.amount.positive(),
    ensures
        cost_text(costs) == costs.usage_based->0.dollars@,
{
}

/// Without on-demand costs a charged amount greater than zero is the cost, and
/// a charged amount of any size keeps the total from being looked at.
pub proof fn law_charged_amount_comes_before_the_total(costs: EventCosts, other: Option<Cents>)
    requires
        !(costs.usage_based matches Some(c) && c.amount.positive()),
        costs.charged is Some,
    ensures
        costs.charged->0.amount.positive() ==> cost_text(costs) == costs.charged->0.dollars@,
        !costs.charged->0.amount.positive() ==> cost_text(costs) == "0"@,
        cost_text(EventCosts { total: other, ..costs }) == cost_text(costs),
{
}

/// The total counts where nothing else is stated, and where that is nothing
/// either the cost is zero.
pub proof fn law_total_counts_last(costs: EventCosts)
    requires
        !(costs.usage_based matches Some(c) && c.amount.positive()),
        costs.charged is None,
    ensures
        costs.total matches Some(c) && c.amount.positive() ==> cost_text(costs)
            == costs.total->0.dollars@,
        !(costs.total matches Some(c) && c.amount.positive()) ==> cost_text(costs) == "0"@,
{
}

/// An event is imported exactly if it has a time after the epoch and is not
/// Cursor's own traffic.
pub proof fn law_events_with_a_time_are_imported(
    value: JsonValue,
    costs: EventCosts,
    bucket: Seq<Seq<char>>,
    model: String,
    conversation: String,
)
    requires
        value.member("model"@) == Some(JsonValue::Text(model)),
        trimmed(model@).len() > 0,
        value.member("conversationId"@) == Some(JsonValue::Text(conversation)),
        trimmed(conversation@).len() > 0,
    ensures
        value.member("timestamp"@) matches Some(JsonValue::Unsigned(n)) && 0 < n <= i64::MAX ==> (
        event_of(value, costs, bucket) is Some <==> !has_text(
            lower(trimmed(model@)),
            "grok-bot"@,
        ) && !has_prefix(lower(trimmed(conversation@)), "sand-subagent"@)),
        value.member("timestamp"@) matches Some(JsonValue::Unsigned(n)) && n == 0 ==> event_of(
            value,
            costs,
            bucket,
        ) is None,
        value.member("timestamp"@) matches Some(JsonValue::Negative(n)) && n <= 0 ==> event_of(
            value,
            costs,
            bucket,
        ) is None,
        value.member("timestamp"@) is None ==> event_of(value, costs, bucket) is None,
        event_of(value, costs, bucket) matches Some(event) ==> {
            &&& event.model == trimmed(model@)
            &&& event.conversation_id == trimmed(conversation@)
            &&& event.request_id == "cursor:"@ + trimmed(conversation@) + ":"@ + decimal(
                event.timestamp_ms as int,
            ) + ":"@ + trimmed(model@)
        },
{
}

/// A model or a conversation that an event does not name gets a stand-in.
pub proof fn law_unnamed_models_and_conversations(
    value: JsonValue,
    costs: EventCosts,
    bucket: Seq<Seq<char>>,
    event: EventView,
)
    requires
        event_of(value, costs, bucket) == Some(event),
    ensures
        value.member("model"@) is None ==> event.model == "unknown"@,
        value.member("model"@) matches Some(JsonValue::Text(s)) && trimmed(s@).len() == 0
            ==> event.model == "unknown"@,
        value.member("conversationId"@) is None ==> event.conversation_id == "none"@,
        value.member("conversationId"@) matches Some(JsonValue::Text(s)) && trimmed(s@).len() == 0
            ==> event.conversation_id == "none"@,
{
}

/// Whether the tokens are those of a reported value: the last 32 bits of the
/// integer in it, if that is positive.
pub open spec fn is_count_of(tokens: u32, value: Option<JsonValue>) -> bool {
    match value {
        Some(v) if integer_of(v) is Some && integer_of(v)->0 > 0 => tokens == integer_of(v)->0
            % 4_294_967_296,
        _ => tokens == 0,
    }
}

/// Each token count of an event is the number under its own name in the token
/// usage; what is missing or negative counts as zero.
pub proof fn law_token_counts_are_read_by_name(
    value: JsonValue,
    costs: EventCosts,
    bucket: Seq<Seq<char>>,
    usage: JsonValue,
)
    requires
        event_of(value, costs, bucket) is Some,
        value.member("tokenUsage"@) == Some(usage),
    ensures
        ({
            let event = event_of(value, costs, bucket)->0;
            &&& is_count_of(event.input_tokens, usage.member("inputTokens"@))
            &&& is_count_of(event.output_tokens, usage.member("outputTokens"@))
            &&& is_count_of(event.cache_read_tokens, usage.member("cacheReadTokens"@))
            &&& is_count_of(event.cache_write_tokens, usage.member("cacheWriteTokens"@))
        }),
{
}

/// Without a token usage nothing is counted.
pub proof fn law_no_token_usage_counts_nothing(
    value: JsonValue,
    costs: EventCosts,
    bucket: Seq<Seq<char>>,
)
    requires
        event_of(value, costs, bucket) is Some,
        value.member("tokenUsage"@) is None,
    ensures
        ({
            let event = event_of(value, costs, bucket)->0;
            &&& event.input_tokens == 0
            &&& event.output_tokens == 0
            &&& event.cache_read_tokens == 0
            &&& event.cache_write_tokens == 0
        }),
{
}

/// The time of an event is the reported one; cost and pool are those of the
/// costs and the model; only a kind that speaks of an error is one.
pub proof fn law_time_cost_pool_and_status(
    value: JsonValue,
    costs: EventCosts,
    bucket: Seq<Seq<char>>,
    event: EventView,
)
    requires
        event_of(value, costs, bucket) == Some(event),
    ensures
        value.member("timestamp"@) matches Some(JsonValue::Unsigned(n)) && n <= i64::MAX
            ==> event.timestamp_ms == value.member("timestamp"@)->0->Unsigned_0,
        event.cost_usd == cost_text(costs),
        event.provider_id == pool(event.model, bucket),
        value.member("kind"@) is None ==> event.status_code == 200,
        value.member("kind"@) matches Some(JsonValue::Text(s)) ==> event.status_code == if has_text(
            upper(trimmed(s@)),
            "ERROR"@,
        ) {
            500int
        } else {
            200int
        },
{
    if value.member("kind"@) is None {
        let kind = Seq::<char>::empty();
        assert(upper(kind) =~= kind);
        reveal_strlit("ERROR");
        assert(!has_text(kind, "ERROR"@)) by {
            if has_text(kind, "ERROR"@) {
                let i = choose|i: int| occurs_at(kind, "ERROR"@, i);
                assert(occurs_at(kind, "ERROR"@, i));
            }
        }
    }
}

/// The integer in a value: a whole number as it is within 64 bits with a sign,
/// and up to a multiple of two to the 64th beyond; white space around a text
/// makes no difference; what is neither a number nor a text has none.
pub proof fn law_integers_in_values(value: JsonValue)
    ensures
        value matches JsonValue::Unsigned(n) ==> integer_of(value) is Some && (n as int
            - integer_of(value)->0 == 0 || n as int - integer_of(value)->0
            == 0x1_0000_0000_0000_0000),
        value matches JsonValue::Negative(n) ==> integer_of(value) == Some(n),
        value matches JsonValue::Float(x) ==> integer_of(value) is Some && integer_of(value)->0
            == x.whole() as i64,
        value is Null || value is Bool || value is Array || value is Object ==> integer_of(value)
            is None,
        value matches JsonValue::Text(s) ==> integer_of(value) == i64_value(trimmed(s@)),
{
}

/// The events of the first reported ones are the first of all events: a page
/// keeps their order.
pub proof fn law_pages_keep_the_order(
    items: Seq<JsonValue>,
    costs: Seq<EventCosts>,
    bucket: Seq<Seq<char>>,
    n: int,
)
    requires
        0 <= n <= items.len(),
    ensures
        events_of(items.take(n), costs, bucket).is_prefix_of(events_of(items, costs, bucket)),
        n < items.len() && event_of(items[n], costs_at(costs, n), bucket) is Some ==> events_of(
            items.take(n + 1),
            costs,
            bucket,
        ).last() == event_of(items[n], costs_at(costs, n), bucket)->0,
    decreases items.len(),
{
    let some = events_of(items.take(n), costs, bucket);
    let all = events_of(items, costs, bucket);
    if n < items.len() {
        let front = items.drop_last();
        law_pages_keep_the_order(front, costs, bucket, n);
        assert(front.take(n) =~= items.take(n));
        let before = events_of(front, costs, bucket);
        assert(some =~= before.subrange(0, some.len() as int));
        assert(some =~= all.subrange(0, some.len() as int));
        assert(items.take(n + 1).drop_last() =~= items.take(n));
        assert(items.take(n + 1).last() == items[n]);
    } else {
        assert(items.take(n) =~= items);
        assert(some =~= all.subrange(0, some.len() as int));
    }
}

/// A model is on the list exactly if one of the entries is that text, up to
/// white space around it, and not blank; and the list keeps the order.
pub proof fn law_list_holds_the_reported_models(items: Seq<JsonValue>, model: Seq<char>, n: int)
    requires
        0 <= n <= items.len(),
    ensures
        model_list(items).contains(model) <==> model.len() > 0 && exists|i: int|
            0 <= i < items.len() && ((#[trigger] items[i]) matches JsonValue::Text(s) && trimmed(s@)
                == model),
        model_list(items.take(n)).is_prefix_of(model_list(items)),
    decreases items.len(),
{
    let all = model_list(items);
    let some = model_list(items.take(n));
    if items.len() > 0 {
        let front = items.drop_last();
        let before = model_list(front);
        let last = items.len() - 1;
        law_list_holds_the_reported_models(front, model, if n < items.len() { n } else { last });
        if n < items.len() {
            assert(front.take(n) =~= items.take(n));
            assert(some =~= before.subrange(0, some.len() as int));
            assert(some =~= all.subrange(0, some.len() as int));
        } else {
            assert(items.take(n) =~= items);
            assert(some =~= all.subrange(0, some.len() as int));
        }
        if all.contains(model) {
            let k = choose|k: int| 0 <= k < all.len() && all[k] == model;
            if k < before.len() {
                assert(before[k] == model);
                let i = choose|i: int|
                    0 <= i < front.len() && ((#[trigger] front[i]) matches JsonValue::Text(s)
                        && trimmed(s@) == model);
                assert(items[i] == front[i]);
            } else {
                assert(items[last] == items.last());
            }
        }
        if model.len() > 0 && exists|i: int|
            0 <= i < items.len() && ((#[trigger] items[i]) matches JsonValue::Text(s) && trimmed(s@)
                == model) {
            let i = choose|i: int|
                0 <= i < items.len() && ((#[trigger] items[i]) matches JsonValue::Text(s)
                    && trimmed(s@) == model);
            if i < last {
                assert(front[i] == items[i]);
                let k = choose|k: int| 0 <= k < before.len() && before[k] == model;
                assert(all[k] == model);
            } else {
                assert(all[all.len() - 1] == model);
            }
        }
    } else {
        assert(items.take(n) =~= items);
        assert(some =~= all.subrange(0, some.len() as int));
    }
}

/// A cost is taken from a number as it stands, and from a text that is neither
/// blank nor a dash; from nothing else.
pub proof fn law_costs_are_numbers_or_their_texts(value: Option<JsonValue>, cost: NumericCost)
    requires
        states_cost(value, cost),
    ensures
        cost matches NumericCost::Unsigned(n) ==> value == Some(JsonValue::Unsigned(n)),
        cost matches NumericCost::Negative(n) ==> value == Some(JsonValue::Negative(n)),
        cost matches NumericCost::Float(x) ==> value == Some(JsonValue::Float(x)),
        cost matches NumericCost::Text(t) ==> value matches Some(JsonValue::Text(s)) && t@
            == trimmed(s@) && t@.len() > 0 && t@ != "-"@,
        cost is Absent ==> !(value matches Some(JsonValue::Unsigned(_))) && !(
        value matches Some(JsonValue::Negative(_))) && !(value matches Some(JsonValue::Float(_)))
            && (value matches Some(JsonValue::Text(s)) ==> trimmed(s@).len() == 0 || trimmed(s@)
            == "-"@),
{
}

/// An event is imported at the time in it, as a number or as a text, if that is
/// after the epoch; without such a time it is not imported.
pub proof fn law_time_of_an_event(
    value: JsonValue,
    costs: EventCosts,
    bucket: Seq<Seq<char>>,
    time: JsonValue,
)
    requires
        value.member("timestamp"@) == Some(time),
    ensures
        !(integer_of(time) matches Some(n) && n > 0) ==> event_of(value, costs, bucket) is None,
        event_of(value, costs, bucket) matches Some(event) ==> integer_of(time) == Some(
            event.timestamp_ms,
        ),
{
}

/// A model or a conversation that is named by a whole number of 64 bits is
/// called by its digits; any other value but a text names nothing.
pub proof fn law_names_that_are_numbers(
    value: JsonValue,
    costs: EventCosts,
    bucket: Seq<Seq<char>>,
    event: EventView,
)
    requires
        event_of(value, costs, bucket) == Some(event),
    ensures
        value.member("model"@) matches Some(JsonValue::Unsigned(n)) && n <= i64::MAX ==> i64_value(
            event.model,
        ) == Some(value.member("model"@)->0->Unsigned_0 as i64),
        value.member("model"@) matches Some(JsonValue::Negative(n)) ==> i64_value(event.model)
            == Some(n),
        value.member("model"@) matches Some(v) && (v is Null || v is Bool || v is Float || v is Array
            || v is Object) ==> event.model == "unknown"@,
        value.member("conversationId"@) matches Some(JsonValue::Unsigned(n)) && n <= i64::MAX
            ==> i64_value(event.conversation_id) == Some(
            value.member("conversationId"@)->0->Unsigned_0 as i64,
        ),
        value.member("conversationId"@) matches Some(v) && (v is Null || v is Bool || v is Float
            || v is Array || v is Object) ==> event.conversation_id == "none"@,
{
    if let Some(JsonValue::Unsigned(n)) = value.member("model"@) {
        if n <= i64::MAX {
            lemma_decimal_reads_back(n as i64);
            lemma_digits(n as nat);
        }
    }
    if let Some(JsonValue::Negative(n)) = value.member("model"@) {
        lemma_decimal_reads_back(n);
        lemma_decimal_is_not_empty(n);
    }
    if let Some(JsonValue::Unsigned(n)) = value.member("conversationId"@) {
        if n <= i64::MAX {
            lemma_decimal_reads_back(n as i64);
            lemma_digits(n as nat);
        }
    }
}

proof fn lemma_decimal_is_not_empty(n: i64)
    ensures
        decimal(n as int).len() > 0,
{
    lemma_digits(if n < 0 { (-n) as nat } else { n as nat });
}

/// Every event has the costs at its own place in the list, and an event behind
/// the end of the list costs nothing.
pub proof fn law_costs_go_with_their_events(costs: Seq<EventCosts>, i: int)
    requires
        0 <= i,
    ensures
        i < costs.len() ==> costs_at(costs, i) == costs[i],
        i >= costs.len() ==> cost_text(costs_at(costs, i)) == "0"@,
{
}

/// The reported events are the list of that name, and none where it is missing
/// or is no list.
pub proof fn law_where_the_events_are(body: JsonValue, items: Vec<JsonValue>)
    ensures
        body.member("usageEventsDisplay"@) == Some(JsonValue::Array(items)) ==> reported(body)
            == items@,
        !(body.member("usageEventsDisplay"@) matches Some(JsonValue::Array(_))) ==> reported(
            body,
        ).len() == 0,
{
}

/// The number of all events is the integer in a value, if that is positive.
pub proof fn law_totals_are_not_negative(value: JsonValue)
    ensures
        integer_of(value) matches Some(n) && n > 0 ==> count_in(Some(value)) == integer_of(value)->0,
        !(integer_of(value) matches Some(n) && n > 0) ==> count_in(Some(value)) == 0,
        count_in(None) == 0,
{
}

} // verus!
