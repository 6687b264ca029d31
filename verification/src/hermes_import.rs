//! Importing one Hermes usage bucket: what has changed since its watermark,
//! what is logged, and what is remembered.

use crate::hermes_usage::{
    law_texts_are_read_by_name, mapped, nonempty_or, or_fallback, HermesUsageRow, UsageView,
    APP_TYPE, DATA_SOURCE, PROVIDER_PLACEHOLDER, WATERMARK_PREFIX,
};
use crate::money::Money;
use crate::numeral::{
    decimal, decimal_text, digits, digits_text, hex, hex_text, i64_value,
    lemma_decimal_has_no_colon, lemma_decimal_reads_back, lemma_digits, lemma_hex_len,
};
use crate::outside::{print_decimal, sha256, sha256_digest};
use crate::request_log::{has_id, ids, insert_or_ignore, LoggedRow};
use crate::text::{
    has_prefix, lemma_split_concat, lemma_split_parts, lemma_split_single, split, take_chars, trim,
    trimmed, views,
};
use crate::usage_cells::{has_name, stands_at, text_value, Cell};
use vstd::prelude::*;
use vstd::utf8::{decode_utf8, encode_utf8};

verus! {

/// The token counters that were already imported, and when the bucket was
/// last active then.
#[derive(Clone, Copy, Debug, PartialEq, Eq, Structural)]
pub struct HermesWatermark {
    pub last_seen_millis: i64,
    pub input_tokens: u32,
    pub output_tokens: u32,
    pub cache_read_tokens: u32,
    pub cache_write_tokens: u32,
}

/// A watermark in the columns of the sync table.
#[derive(Clone, Copy, Debug, PartialEq, Eq, Structural)]
pub struct StoredWatermark {
    pub last_modified: i64,
    pub last_line_offset: i64,
    pub last_synced_at: i64,
}

/// What one import adds.
#[derive(Clone, Copy, Debug, PartialEq, Eq, Structural)]
pub struct UsageDelta {
    pub input_tokens: u32,
    pub output_tokens: u32,
    pub cache_read_tokens: u32,
    pub cache_write_tokens: u32,
    /// In seconds since the epoch.
    pub created_at: i64,
    /// Whether the bucket was never imported before.
    pub is_first: bool,
}

/// What is to be done about a bucket.
#[derive(Clone, Copy, Debug, PartialEq, Eq, Structural)]
pub enum ImportDecision {
    /// Nothing.
    Unchanged,
    /// Only the watermark is replaced.
    Touch(HermesWatermark),
    /// The increase is logged and the watermark replaced.
    Import { delta: UsageDelta, watermark: HermesWatermark },
}

/// The costs of one logged request.
#[derive(Clone, Copy, Debug, PartialEq, Eq)]
pub struct Costs {
    pub input: Money,
    pub output: Money,
    pub cache_read: Money,
    pub cache_creation: Money,
    pub total: Money,
}

impl Costs {
    /// All costs are representable amounts.
    pub open spec fn wf(self) -> bool {
        self.input.wf() && self.output.wf() && self.cache_read.wf() && self.cache_creation.wf()
            && self.total.wf()
    }

    /// Only a total, nothing on the parts.
    pub open spec fn only_total(total: Money) -> Costs {
        Costs {
            input: Money::nothing(),
            output: Money::nothing(),
            cache_read: Money::nothing(),
            cache_creation: Money::nothing(),
            total,
        }
    }
}

/// One request in the shared log.
#[derive(Debug)]
pub struct HermesLogRow {
    pub request_id: String,
    pub provider_id: String,
    pub app_type: String,
    /// The model, also as the requested and the priced model.
    pub model: String,
    pub input_tokens: u32,
    pub output_tokens: u32,
    pub cache_read_tokens: u32,
    pub cache_creation_tokens: u32,
    pub input_token_semantics: i64,
    pub input_cost_usd: String,
    pub output_cost_usd: String,
    pub cache_read_cost_usd: String,
    pub cache_creation_cost_usd: String,
    pub total_cost_usd: String,
    pub latency_ms: i64,
    pub status_code: i64,
    pub session_id: String,
    /// Where the row comes from, also as its provider type.
    pub data_source: String,
    pub is_streaming: i64,
    pub cost_multiplier: String,
    pub created_at: i64,
}

/// 2 to the 32nd.
pub const HALF: u64 = 4294967296;

/// Two 32-bit numbers in one 64-bit number, in two's complement.
pub open spec fn packed(high: u32, low: u32) -> int {
    let u = high * HALF + low;
    if u > i64::MAX {
        u - HALF * HALF
    } else {
        u
    }
}

/// The upper and the lower half of a 64-bit number.
pub open spec fn unpacked(value: i64) -> (int, int) {
    let u = if value < 0 { value + HALF * HALF } else { value as int };
    (u / HALF as int, u % HALF as int)
}

/// Packs two 32-bit numbers into one.
pub fn pack_u32_pair(high: u32, low: u32) -> (r: i64)
    ensures
        r == packed(high, low),
{
    let u: u64 = high as u64 * HALF + low as u64;
    if u > 0x7fff_ffff_ffff_ffff {
        (u - 0x8000_0000_0000_0000) as i64 + i64::MIN
    } else {
        u as i64
    }
}

/// Takes two packed 32-bit numbers apart.
pub fn unpack_u32_pair(value: i64) -> (r: (u32, u32))
    ensures
        (r.0 as int, r.1 as int) == unpacked(value),
{
    let u: u64 = if value < 0 {
        (value - i64::MIN) as u64 + 0x8000_0000_0000_0000
    } else {
        value as u64
    };
    ((u / HALF) as u32, (u % HALF) as u32)
}

/// Unpacking gives back what was packed.
pub proof fn law_unpack_after_pack(high: u32, low: u32)
    ensures
        i64::MIN <= packed(high, low) <= i64::MAX,
        unpacked(packed(high, low) as i64) == (high as int, low as int),
{
}

/// Packing gives back what was unpacked.
pub proof fn law_pack_after_unpack(value: i64)
    ensures
        0 <= unpacked(value).0 <= u32::MAX,
        0 <= unpacked(value).1 <= u32::MAX,
        packed(unpacked(value).0 as u32, unpacked(value).1 as u32) == value,
{
}

/// A watermark in the columns of the sync table.
pub open spec fn stored(w: HermesWatermark) -> StoredWatermark {
    StoredWatermark {
        last_modified: w.last_seen_millis,
        last_line_offset: packed(w.input_tokens, w.output_tokens) as i64,
        last_synced_at: packed(w.cache_read_tokens, w.cache_write_tokens) as i64,
    }
}

/// The watermark in the columns of the sync table: none where the table has
/// no row, or one without a time.
pub open spec fn loaded(row: Option<StoredWatermark>) -> Option<HermesWatermark> {
    match row {
        Some(s) if s.last_modified > 0 => Some(
            HermesWatermark {
                last_seen_millis: s.last_modified,
                input_tokens: unpacked(s.last_line_offset).0 as u32,
                output_tokens: unpacked(s.last_line_offset).1 as u32,
                cache_read_tokens: unpacked(s.last_synced_at).0 as u32,
                cache_write_tokens: unpacked(s.last_synced_at).1 as u32,
            },
        ),
        _ => None,
    }
}

/// Reads a watermark from the columns of the sync table.
pub fn get_hermes_watermark(row: Option<StoredWatermark>) -> (r: Option<HermesWatermark>)
    ensures
        r == loaded(row),
{
    match row {
        Some(s) => {
            if s.last_modified <= 0 {
                return None;
            }
            let io: (u32, u32) = unpack_u32_pair(s.last_line_offset);
            let cache: (u32, u32) = unpack_u32_pair(s.last_synced_at);
            Some(
                HermesWatermark {
                    last_seen_millis: s.last_modified,
                    input_tokens: io.0,
                    output_tokens: io.1,
                    cache_read_tokens: cache.0,
                    cache_write_tokens: cache.1,
                },
            )
        },
        None => None,
    }
}

/// Puts a watermark into the columns of the sync table.
pub fn update_hermes_watermark(watermark: HermesWatermark) -> (r: StoredWatermark)
    ensures
        r == stored(watermark),
{
    StoredWatermark {
        last_modified: watermark.last_seen_millis,
        last_line_offset: pack_u32_pair(watermark.input_tokens, watermark.output_tokens),
        last_synced_at: pack_u32_pair(watermark.cache_read_tokens, watermark.cache_write_tokens),
    }
}

/// A stored watermark with a time reads back as itself.
pub proof fn law_watermark_reads_back(w: HermesWatermark)
    requires
        w.last_seen_millis > 0,
    ensures
        loaded(Some(stored(w))) == Some(w),
{
    law_unpack_after_pack(w.input_tokens, w.output_tokens);
    law_unpack_after_pack(w.cache_read_tokens, w.cache_write_tokens);
}

/// Seconds in milliseconds, brought into the range of `i64`.
pub open spec fn millis(secs: i64) -> int {
    let m = secs * 1000;
    if m > i64::MAX {
        i64::MAX as int
    } else if m < i64::MIN {
        i64::MIN as int
    } else {
        m
    }
}

/// Seconds in milliseconds, brought into the range of `i64`.
pub fn secs_to_millis(secs: i64) -> (r: i64)
    ensures
        r == millis(secs),
{
    let m: i128 = secs as i128 * 1000;
    if m > i64::MAX as i128 {
        i64::MAX
    } else if m < i64::MIN as i128 {
        i64::MIN
    } else {
        m as i64
    }
}

/// The time since the epoch in seconds; zero where the clock stands before it.
pub fn now_unix_secs(since_epoch: Option<u64>) -> (r: i64)
    ensures
        r == match since_epoch {
            Some(secs) if secs <= i64::MAX => secs as int,
            Some(secs) => secs - HALF * HALF,
            None => 0,
        },
{
    match since_epoch {
        Some(secs) => if secs > i64::MAX as u64 {
            (secs as i128 - 0x1_0000_0000_0000_0000) as i64
        } else {
            secs as i64
        },
        None => 0,
    }
}

/// The time that a watermark of the bucket gets, in milliseconds: when the
/// bucket was last active; where that is not known, the time of its previous
/// watermark; on the first import of such a bucket the present. It is always
/// positive, since a watermark without a time does not read back.
pub open spec fn mark_time(
    row: HermesUsageRow,
    previous: Option<HermesWatermark>,
    now: i64,
) -> int {
    if row.last_seen_secs > 0 {
        millis(row.last_seen_secs)
    } else {
        match previous {
            Some(prev) if prev.last_seen_millis > 0 => prev.last_seen_millis as int,
            _ => if now > 0 {
                millis(now)
            } else {
                1
            },
        }
    }
}

/// The counters of a bucket as a watermark with the given time.
pub open spec fn totals(row: HermesUsageRow, time: int) -> HermesWatermark {
    HermesWatermark {
        last_seen_millis: time as i64,
        input_tokens: row.input_tokens,
        output_tokens: row.output_tokens,
        cache_read_tokens: row.cache_read_tokens,
        cache_write_tokens: row.cache_write_tokens,
    }
}

/// How far a counter has grown.
pub open spec fn growth(now: u32, before: u32) -> u32 {
    if now > before {
        (now - before) as u32
    } else {
        0
    }
}

/// The first of two points in time that is known, else the present.
pub open spec fn known_time(a: i64, b: i64, now: i64) -> i64 {
    if a > 0 {
        a
    } else if b > 0 {
        b
    } else {
        now
    }
}

/// What a bucket adds to an imported state: everything the first time, then
/// only the growth of its counters.
pub open spec fn delta_of(
    row: HermesUsageRow,
    previous: Option<HermesWatermark>,
    now: i64,
) -> UsageDelta {
    match previous {
        None => UsageDelta {
            input_tokens: row.input_tokens,
            output_tokens: row.output_tokens,
            cache_read_tokens: row.cache_read_tokens,
            cache_write_tokens: row.cache_write_tokens,
            created_at: known_time(row.first_seen_secs, row.last_seen_secs, now),
            is_first: true,
        },
        Some(prev) => UsageDelta {
            input_tokens: growth(row.input_tokens, prev.input_tokens),
            output_tokens: growth(row.output_tokens, prev.output_tokens),
            cache_read_tokens: growth(row.cache_read_tokens, prev.cache_read_tokens),
            cache_write_tokens: growth(row.cache_write_tokens, prev.cache_write_tokens),
            created_at: known_time(row.last_seen_secs, row.last_seen_secs, now),
            is_first: false,
        },
    }
}

/// No counter has grown.
pub open spec fn no_growth(d: UsageDelta) -> bool {
    d.input_tokens == 0 && d.output_tokens == 0 && d.cache_read_tokens == 0
        && d.cache_write_tokens == 0
}

/// What is to be done about a bucket.
pub open spec fn decision(
    row: HermesUsageRow,
    previous: Option<HermesWatermark>,
    now: i64,
) -> ImportDecision {
    let delta = delta_of(row, previous, now);
    let time = mark_time(row, previous, now);
    match previous {
        Some(prev) if prev == totals(row, time) => ImportDecision::Unchanged,
        Some(prev) if no_growth(delta) => ImportDecision::Touch(
            HermesWatermark { last_seen_millis: time as i64, ..prev },
        ),
        _ => ImportDecision::Import { delta, watermark: totals(row, time) },
    }
}

fn mark_millis(row: &HermesUsageRow, previous: &Option<HermesWatermark>, now: i64) -> (r: i64)
    ensures
        r == mark_time(*row, *previous, now),
        r > 0,
{
    if row.last_seen_secs > 0 {
        return secs_to_millis(row.last_seen_secs);
    }
    if let Some(prev) = previous {
        if prev.last_seen_millis > 0 {
            return prev.last_seen_millis;
        }
    }
    if now > 0 {
        secs_to_millis(now)
    } else {
        1
    }
}

/// Decides what is to be done about a bucket, given its watermark and the
/// present time in seconds.
pub fn import_usage_row(
    row: &HermesUsageRow,
    previous: Option<HermesWatermark>,
    now: i64,
) -> (r: ImportDecision)
    ensures
        r == decision(*row, previous, now),
{
    let watermark: HermesWatermark = HermesWatermark {
        last_seen_millis: mark_millis(row, &previous, now),
        input_tokens: row.input_tokens,
        output_tokens: row.output_tokens,
        cache_read_tokens: row.cache_read_tokens,
        cache_write_tokens: row.cache_write_tokens,
    };
    match previous {
        Some(prev) => {
            if prev == watermark {
                return ImportDecision::Unchanged;
            }
            let delta: UsageDelta = UsageDelta {
                input_tokens: row.input_tokens.saturating_sub(prev.input_tokens),
                output_tokens: row.output_tokens.saturating_sub(prev.output_tokens),
                cache_read_tokens: row.cache_read_tokens.saturating_sub(prev.cache_read_tokens),
                cache_write_tokens: row.cache_write_tokens.saturating_sub(prev.cache_write_tokens),
                created_at: if row.last_seen_secs > 0 {
                    row.last_seen_secs
                } else {
                    now
                },
                is_first: false,
            };
            if delta.input_tokens == 0 && delta.output_tokens == 0 && delta.cache_read_tokens == 0
                && delta.cache_write_tokens == 0 {
                return ImportDecision::Touch(
                    HermesWatermark {
                        last_seen_millis: watermark.last_seen_millis,
                        input_tokens: prev.input_tokens,
                        output_tokens: prev.output_tokens,
                        cache_read_tokens: prev.cache_read_tokens,
                        cache_write_tokens: prev.cache_write_tokens,
                    },
                );
            }
            ImportDecision::Import { delta, watermark }
        },
        None => ImportDecision::Import {
            delta: UsageDelta {
                input_tokens: row.input_tokens,
                output_tokens: row.output_tokens,
                cache_read_tokens: row.cache_read_tokens,
                cache_write_tokens: row.cache_write_tokens,
                created_at: if row.first_seen_secs > 0 {
                    row.first_seen_secs
                } else if row.last_seen_secs > 0 {
                    row.last_seen_secs
                } else {
                    now
                },
                is_first: true,
            },
            watermark,
        },
    }
}

/// The cost that the bucket itself reports: the actual one, else the estimate.
pub open spec fn reported_cost(row: HermesUsageRow) -> Option<Money> {
    if row.actual_cost.positive() {
        Some(row.actual_cost)
    } else if row.estimated_cost.positive() {
        Some(row.estimated_cost)
    } else {
        None
    }
}

/// The costs that are logged for a bucket: nothing where a subscription covers
/// them; the reported cost the first time; else what the price list gives,
/// and nothing for a model without a price.
pub open spec fn costs_of(row: HermesUsageRow, is_first: bool, priced: Option<Costs>) -> Costs {
    if row.cost_included {
        Costs::only_total(Money::nothing())
    } else if is_first && reported_cost(row) is Some {
        Costs::only_total(reported_cost(row)->0)
    } else {
        match priced {
            Some(costs) => costs,
            None => Costs::only_total(Money::nothing()),
        }
    }
}

fn total_only(total: Money) -> (r: Costs)
    ensures
        r == Costs::only_total(total),
{
    Costs {
        input: Money::zero(),
        output: Money::zero(),
        cache_read: Money::zero(),
        cache_creation: Money::zero(),
        total,
    }
}

/// Whether the price list is asked for the costs of a bucket: neither a
/// subscription nor a reported cost settles them.
pub open spec fn asks_price(row: HermesUsageRow, is_first: bool) -> bool {
    !row.cost_included && !(is_first && reported_cost(row) is Some)
}

/// Whether the price list is to be asked for the costs of a bucket.
pub fn needs_price(row: &HermesUsageRow, is_first: bool) -> (r: bool)
    ensures
        r == asks_price(*row, is_first),
{
    !row.cost_included && !(is_first && (row.actual_cost.is_positive()
        || row.estimated_cost.is_positive()))
}

/// The costs that are logged for a bucket, given what the price list says of
/// the imported tokens.
pub fn costs_for_row(row: &HermesUsageRow, is_first: bool, priced: Option<Costs>) -> (r: Costs)
    ensures
        r == costs_of(*row, is_first, priced),
        !asks_price(*row, is_first) ==> r == costs_of(*row, is_first, None),
        row.wf() && (priced matches Some(costs) ==> costs.wf()) ==> r.wf(),
{
    if row.cost_included {
        return total_only(Money::zero());
    }
    if is_first {
        if row.actual_cost.is_positive() {
            return total_only(row.actual_cost);
        }
        if row.estimated_cost.is_positive() {
            return total_only(row.estimated_cost);
        }
    }
    match priced {
        Some(costs) => costs,
        None => total_only(Money::zero()),
    }
}

/// A number below 2 to the 64th in eight bytes, most significant first.
#[verifier::opaque]
pub open spec fn be64(n: nat) -> Seq<u8> {
    seq![
        (n / 0x100_0000_0000_0000 % 256) as u8,
        (n / 0x1_0000_0000_0000 % 256) as u8,
        (n / 0x100_0000_0000 % 256) as u8,
        (n / 0x1_0000_0000 % 256) as u8,
        (n / 0x100_0000 % 256) as u8,
        (n / 0x1_0000 % 256) as u8,
        (n / 0x100 % 256) as u8,
        (n % 256) as u8,
    ]
}

/// A field behind its length.
pub open spec fn frame(field: Seq<u8>) -> Seq<u8> {
    be64(field.len()) + field
}

/// Fields one after the other, each behind its length.
pub open spec fn framed(fields: Seq<Seq<u8>>) -> Seq<u8>
    decreases fields.len(),
{
    if fields.len() == 0 {
        Seq::empty()
    } else {
        framed(fields.drop_last()) + frame(fields.last())
    }
}

/// What makes up the identity of a bucket: a version mark, the session, the
/// model, the billing route and the task.
pub open spec fn identity(u: UsageView) -> Seq<Seq<u8>> {
    seq![
        encode_utf8("hermes-usage-v1"@),
        encode_utf8(u.session_id),
        encode_utf8(u.model),
        encode_utf8(u.billing_provider),
        encode_utf8(u.billing_base_url),
        encode_utf8(u.billing_mode),
        encode_utf8(u.task),
    ]
}

/// The fingerprint of a bucket: the first sixteen hexadecimal digits of the
/// SHA-256 digest of its framed identity.
pub open spec fn fingerprint(u: UsageView) -> Seq<char> {
    hex(sha256_digest(framed(identity(u)))).take(16)
}

/// Appends a field behind its length.
pub fn hash_field(out: &mut Vec<u8>, value: &[u8])
    ensures
        final(out)@ == old(out)@ + frame(value@),
{
    let n: u64 = value.len() as u64;
    out.push((n / 0x100_0000_0000_0000 % 256) as u8);
    out.push((n / 0x1_0000_0000_0000 % 256) as u8);
    out.push((n / 0x100_0000_0000 % 256) as u8);
    out.push((n / 0x1_0000_0000 % 256) as u8);
    out.push((n / 0x100_0000 % 256) as u8);
    out.push((n / 0x1_0000 % 256) as u8);
    out.push((n / 0x100 % 256) as u8);
    out.push((n % 256) as u8);
    out.extend_from_slice(value);
    reveal(be64);
    assert(out@ =~= old(out)@ + frame(value@));
}

/// The fingerprint of a bucket.
pub fn usage_fingerprint(row: &HermesUsageRow) -> (r: String)
    ensures
        r@ == fingerprint(row@),
        r@.len() == 16,
{
    let ghost fields = identity(row@);
    let mut data: Vec<u8> = Vec::new();
    hash_field(&mut data, "hermes-usage-v1".as_bytes());
    hash_field(&mut data, row.session_id.as_str().as_bytes());
    hash_field(&mut data, row.model.as_str().as_bytes());
    hash_field(&mut data, row.billing_provider.as_str().as_bytes());
    hash_field(&mut data, row.billing_base_url.as_str().as_bytes());
    hash_field(&mut data, row.billing_mode.as_str().as_bytes());
    hash_field(&mut data, row.task.as_str().as_bytes());
    proof {
        lemma_framed_seven(fields);
        assert(data@ =~= framed(fields));
    }
    let digest: Vec<u8> = sha256(data.as_slice());
    digest_mark(digest.as_slice())
}

/// The first sixteen hexadecimal digits of a digest.
pub fn digest_mark(digest: &[u8]) -> (r: String)
    requires
        digest@.len() >= 8,
    ensures
        r@ == hex(digest@).take(16),
        r@.len() == 16,
{
    let text: String = hex_text(digest);
    proof {
        lemma_hex_len(digest@);
    }
    take_chars(text.as_str(), 16)
}

proof fn lemma_framed_seven(f: Seq<Seq<u8>>)
    requires
        f.len() == 7,
    ensures
        framed(f) == frame(f[0]) + frame(f[1]) + frame(f[2]) + frame(f[3]) + frame(f[4]) + frame(
            f[5],
        ) + frame(f[6]),
{
    reveal_with_fuel(framed, 8);
    assert(framed(f) =~= frame(f[0]) + frame(f[1]) + frame(f[2]) + frame(f[3]) + frame(f[4])
        + frame(f[5]) + frame(f[6]));
}

/// The key under which the watermark of a bucket is stored.
pub open spec fn watermark_key_of(u: UsageView) -> Seq<char> {
    WATERMARK_PREFIX@ + u.session_id + ":"@ + fingerprint(u)
}

/// The identifier of an imported increase: the bucket, when it was last active,
/// and what input and output grew by.
pub open spec fn request_id_of(row: HermesUsageRow, delta: UsageDelta) -> Seq<char> {
    "hermes_session:"@ + row.session_id@ + ":"@ + fingerprint(row@) + ":"@ + decimal(
        millis(row.last_seen_secs),
    ) + ":"@ + decimal(delta.input_tokens as int) + ":"@ + decimal(delta.output_tokens as int)
}

/// The identifier of the `n`-th increase that would have the same one: a number
/// tells the second and later ones from the first.
pub open spec fn numbered_id(row: HermesUsageRow, delta: UsageDelta, n: nat) -> Seq<char> {
    if n <= 1 {
        request_id_of(row, delta)
    } else {
        request_id_of(row, delta) + ":"@ + digits(n)
    }
}

/// The first number from `n` on whose identifier is not among the known ones.
/// At most as many numbers as there are known identifiers can be taken.
pub open spec fn free_number(
    row: HermesUsageRow,
    delta: UsageDelta,
    known: Seq<Seq<char>>,
    n: nat,
) -> nat
    decreases known.len() + 1 - n,
{
    if n <= known.len() && known.contains(numbered_id(row, delta, n)) {
        free_number(row, delta, known, n + 1)
    } else {
        n
    }
}

/// The identifier under which an import is logged, given those that the log has.
/// A snapshot that the log has already is not logged again, so it keeps its
/// identifier; an increase is always logged, so it gets one that is free.
pub open spec fn logged_id(
    row: HermesUsageRow,
    delta: UsageDelta,
    known: Seq<Seq<char>>,
) -> Seq<char> {
    if delta.is_first {
        request_id_of(row, delta)
    } else {
        numbered_id(row, delta, free_number(row, delta, known, 1))
    }
}

/// The provider that a bucket is logged under.
pub open spec fn provider_of(row: HermesUsageRow) -> Seq<char> {
    or_fallback(trimmed(row.billing_provider@), PROVIDER_PLACEHOLDER@)
}

/// The key under which the watermark of a bucket is stored.
pub fn watermark_key(row: &HermesUsageRow) -> (r: String)
    ensures
        r@ == watermark_key_of(row@),
{
    let mark: String = usage_fingerprint(row);
    WATERMARK_PREFIX.to_string().concat(row.session_id.as_str()).concat(":").concat(mark.as_str())
}

/// The identifier of an imported increase, without a number.
pub fn request_id(row: &HermesUsageRow, delta: &UsageDelta) -> (r: String)
    ensures
        r@ == request_id_of(*row, *delta),
{
    let mark: String = usage_fingerprint(row);
    let seen: String = decimal_text(secs_to_millis(row.last_seen_secs));
    let input: String = decimal_text(delta.input_tokens as i64);
    let output: String = decimal_text(delta.output_tokens as i64);
    "hermes_session:".to_string().concat(row.session_id.as_str()).concat(":").concat(
        mark.as_str(),
    ).concat(":").concat(seen.as_str()).concat(":").concat(input.as_str()).concat(":").concat(
        output.as_str(),
    )
}

/// The identifier under which an import is logged, given those that the log has:
/// only the ones that begin with the identifier without a number matter.
pub fn logged_request_id(row: &HermesUsageRow, delta: &UsageDelta, known: &Vec<String>) -> (r:
    String)
    ensures
        r@ == logged_id(*row, *delta, views(known@)),
{
    let plain: String = request_id(row, delta);
    if delta.is_first {
        return plain;
    }
    let count: u128 = known.len() as u128;
    let mut id: String = plain.clone();
    let mut n: u128 = 1;
    while n <= count && has_name(known, id.as_str())
        invariant
            1 <= n <= count + 1,
            count == known@.len() <= u64::MAX,
            plain@ == request_id_of(*row, *delta),
            id@ == numbered_id(*row, *delta, n as nat),
            free_number(*row, *delta, views(known@), 1) == free_number(
                *row,
                *delta,
                views(known@),
                n as nat,
            ),
        decreases count + 1 - n,
    {
        n += 1;
        let number: String = digits_text(n);
        id = plain.clone().concat(":").concat(number.as_str());
    }
    id
}

/// The request that is logged for an import, given the identifiers that the log
/// has.
pub fn hermes_log_row(
    row: &HermesUsageRow,
    delta: &UsageDelta,
    costs: &Costs,
    input_token_semantics: i64,
    known: &Vec<String>,
) -> (r: HermesLogRow)
    requires
        costs.wf(),
    ensures
        r.request_id@ == logged_id(*row, *delta, views(known@)),
        r.provider_id@ == provider_of(*row),
        r.app_type@ == APP_TYPE@,
        r.model@ == row.model@,
        r.input_tokens == delta.input_tokens,
        r.output_tokens == delta.output_tokens,
        r.cache_read_tokens == delta.cache_read_tokens,
        r.cache_creation_tokens == delta.cache_write_tokens,
        r.input_token_semantics == input_token_semantics,
        r.input_cost_usd@ == costs.input.text(),
        r.output_cost_usd@ == costs.output.text(),
        r.cache_read_cost_usd@ == costs.cache_read.text(),
        r.cache_creation_cost_usd@ == costs.cache_creation.text(),
        r.total_cost_usd@ == costs.total.text(),
        r.latency_ms == 0,
        r.status_code == 200,
        r.session_id@ == row.session_id@,
        r.data_source@ == DATA_SOURCE@,
        r.is_streaming == 1,
        r.cost_multiplier@ == "1.0"@,
        r.created_at == delta.created_at,
{
    HermesLogRow {
        request_id: logged_request_id(row, delta, known),
        provider_id: nonempty_or(trim(row.billing_provider.as_str()), PROVIDER_PLACEHOLDER),
        app_type: APP_TYPE.to_string(),
        model: row.model.clone(),
        input_tokens: delta.input_tokens,
        output_tokens: delta.output_tokens,
        cache_read_tokens: delta.cache_read_tokens,
        cache_creation_tokens: delta.cache_write_tokens,
        input_token_semantics,
        input_cost_usd: print_decimal(&costs.input),
        output_cost_usd: print_decimal(&costs.output),
        cache_read_cost_usd: print_decimal(&costs.cache_read),
        cache_creation_cost_usd: print_decimal(&costs.cache_creation),
        total_cost_usd: print_decimal(&costs.total),
        latency_ms: 0,
        status_code: 200,
        session_id: row.session_id.clone(),
        data_source: DATA_SOURCE.to_string(),
        is_streaming: 1,
        cost_multiplier: "1.0".to_string(),
        created_at: delta.created_at,
    }
}

/// The four token counters.
pub struct Counters {
    pub input: int,
    pub output: int,
    pub cache_read: int,
    pub cache_write: int,
}

impl Counters {
    pub open spec fn zero() -> Counters {
        Counters { input: 0, output: 0, cache_read: 0, cache_write: 0 }
    }

    pub open spec fn plus(self, other: Counters) -> Counters {
        Counters {
            input: self.input + other.input,
            output: self.output + other.output,
            cache_read: self.cache_read + other.cache_read,
            cache_write: self.cache_write + other.cache_write,
        }
    }

    pub open spec fn at_most(self, other: Counters) -> bool {
        self.input <= other.input && self.output <= other.output && self.cache_read
            <= other.cache_read && self.cache_write <= other.cache_write
    }
}

/// The counters of a bucket.
pub open spec fn counters(row: HermesUsageRow) -> Counters {
    Counters {
        input: row.input_tokens as int,
        output: row.output_tokens as int,
        cache_read: row.cache_read_tokens as int,
        cache_write: row.cache_write_tokens as int,
    }
}

/// The tokens that a decision logs.
pub open spec fn logged(d: ImportDecision) -> Counters {
    match d {
        ImportDecision::Import { delta, watermark: _ } => Counters {
            input: delta.input_tokens as int,
            output: delta.output_tokens as int,
            cache_read: delta.cache_read_tokens as int,
            cache_write: delta.cache_write_tokens as int,
        },
        _ => Counters::zero(),
    }
}

/// What the sync table holds for the bucket after a decision was carried out.
pub open spec fn stored_after(
    before: Option<StoredWatermark>,
    d: ImportDecision,
) -> Option<StoredWatermark> {
    match d {
        ImportDecision::Unchanged => before,
        ImportDecision::Touch(w) => Some(stored(w)),
        ImportDecision::Import { delta: _, watermark } => Some(stored(watermark)),
    }
}

/// What the sync table holds for a bucket after its successive states were
/// imported at the given times.
pub open spec fn stored_through(
    states: Seq<HermesUsageRow>,
    times: Seq<i64>,
) -> Option<StoredWatermark>
    decreases states.len(),
{
    if states.len() == 0 {
        None
    } else {
        let before = stored_through(states.drop_last(), times.drop_last());
        stored_after(before, decision(states.last(), loaded(before), times.last()))
    }
}

/// The log after a decision about a bucket was carried out.
pub open spec fn log_after(
    log: Seq<LoggedRow<Counters>>,
    row: HermesUsageRow,
    d: ImportDecision,
) -> Seq<LoggedRow<Counters>> {
    match d {
        ImportDecision::Import { delta, watermark: _ } => insert_or_ignore(
            log,
            LoggedRow { id: logged_id(row, delta, ids(log)), content: logged(d) },
        ),
        _ => log,
    }
}

/// The log after the successive states of a bucket were imported at the given
/// times.
pub open spec fn log_through(
    log: Seq<LoggedRow<Counters>>,
    states: Seq<HermesUsageRow>,
    times: Seq<i64>,
) -> Seq<LoggedRow<Counters>>
    decreases states.len(),
{
    if states.len() == 0 {
        log
    } else {
        let before = stored_through(states.drop_last(), times.drop_last());
        log_after(
            log_through(log, states.drop_last(), times.drop_last()),
            states.last(),
            decision(states.last(), loaded(before), times.last()),
        )
    }
}

/// The tokens in the log.
pub open spec fn log_sum(log: Seq<LoggedRow<Counters>>) -> Counters
    decreases log.len(),
{
    if log.len() == 0 {
        Counters::zero()
    } else {
        log_sum(log.drop_last()).plus(log.last().content)
    }
}

/// The first import of a bucket logs its snapshot.
pub proof fn law_first_import_logs_the_snapshot(row: HermesUsageRow, now: i64)
    ensures
        decision(row, None, now) is Import,
        logged(decision(row, None, now)) == counters(row),
{
}

/// Every watermark that a decision stores reads back as itself, whether or not
/// the bucket has a time: what was imported stays imported.
pub proof fn law_imported_bucket_stays_imported(
    row: HermesUsageRow,
    before: Option<StoredWatermark>,
    now: i64,
)
    ensures
        match decision(row, loaded(before), now) {
            ImportDecision::Unchanged => loaded(before) is Some,
            ImportDecision::Touch(w) => loaded(Some(stored(w))) == Some(w),
            ImportDecision::Import { delta: _, watermark } => loaded(Some(stored(watermark)))
                == Some(watermark),
        },
        loaded(stored_after(before, decision(row, loaded(before), now))) is Some,
{
    match decision(row, loaded(before), now) {
        ImportDecision::Unchanged => {},
        ImportDecision::Touch(w) => law_watermark_reads_back(w),
        ImportDecision::Import { delta: _, watermark } => law_watermark_reads_back(watermark),
    }
}

/// A bucket that has not changed since it was imported is left alone.
pub proof fn law_unchanged_bucket_is_skipped(
    row: HermesUsageRow,
    before: Option<StoredWatermark>,
    now: i64,
    later: i64,
)
    requires
        decision(row, loaded(before), now) is Import,
    ensures
        decision(row, loaded(stored_after(before, decision(row, loaded(before), now))), later)
            == ImportDecision::Unchanged,
{
    law_imported_bucket_stays_imported(row, before, now);
}

/// The identifier of an increase is one that the log does not have, so no two
/// imports share one.
pub proof fn law_increases_get_free_ids(
    row: HermesUsageRow,
    delta: UsageDelta,
    known: Seq<Seq<char>>,
)
    requires
        !delta.is_first,
    ensures
        !known.contains(logged_id(row, delta, known)),
{
    lemma_free_number(row, delta, known);
}

/// An identifier is numbered only where it has to be: where the log does not
/// have the one without a number, that is used.
pub proof fn law_ids_are_numbered_only_where_taken(
    row: HermesUsageRow,
    delta: UsageDelta,
    known: Seq<Seq<char>>,
)
    requires
        !known.contains(request_id_of(row, delta)),
    ensures
        logged_id(row, delta, known) == request_id_of(row, delta),
{
}

/// Only the numbered forms of an identifier matter for its choice: with two
/// lists that have the same of them the choice is the same.
pub proof fn law_other_ids_do_not_matter(
    row: HermesUsageRow,
    delta: UsageDelta,
    known: Seq<Seq<char>>,
    other: Seq<Seq<char>>,
)
    requires
        forall|n: nat|
            known.contains(#[trigger] numbered_id(row, delta, n)) == other.contains(
                numbered_id(row, delta, n),
            ),
    ensures
        logged_id(row, delta, known) == logged_id(row, delta, other),
{
    lemma_free_number(row, delta, known);
    lemma_free_number(row, delta, other);
    let a = free_number(row, delta, known, 1);
    let b = free_number(row, delta, other, 1);
    if a < b {
        assert(other.contains(numbered_id(row, delta, a)));
    } else if b < a {
        assert(known.contains(numbered_id(row, delta, b)));
    }
}

/// Every increase over a stored watermark makes one new row, whatever the log
/// and the counters are.
pub proof fn law_every_increase_is_logged(
    log: Seq<LoggedRow<Counters>>,
    row: HermesUsageRow,
    previous: HermesWatermark,
    now: i64,
)
    requires
        decision(row, Some(previous), now) is Import,
    ensures
        ({
            let d = decision(row, Some(previous), now);
            &&& log_after(log, row, d).len() == log.len() + 1
            &&& log_after(log, row, d).drop_last() == log
            &&& log_after(log, row, d).last().content == logged(d)
        }),
{
    let d = decision(row, Some(previous), now);
    law_increases_get_free_ids(row, d->delta, ids(log));
    assert(log_after(log, row, d).drop_last() =~= log);
}

/// However often a growing bucket is imported, what the log holds for it adds up
/// to its current totals, though the log keeps only one row per identifier. The
/// log may hold other rows, but not the snapshot of the bucket already.
pub proof fn law_increments_add_up(
    log: Seq<LoggedRow<Counters>>,
    states: Seq<HermesUsageRow>,
    times: Seq<i64>,
)
    requires
        states.len() > 0,
        states.len() == times.len(),
        forall|i: int, j: int|
            0 <= i < j < states.len() ==> counters(#[trigger] states[i]).at_most(
                counters(#[trigger] states[j]),
            ),
        !has_id(log, request_id_of(states[0], delta_of(states[0], None, times[0]))),
    ensures
        log_sum(log_through(log, states, times)) == log_sum(log).plus(counters(states.last())),
        loaded(stored_through(states, times)) matches Some(w) && marked(w) == counters(
            states.last(),
        ),
    decreases states.len(),
{
    let last = states.last();
    let now = times.last();
    let front = states.drop_last();
    let before = stored_through(front, times.drop_last());
    let rows = log_through(log, front, times.drop_last());
    let d = decision(last, loaded(before), now);
    if states.len() > 1 {
        assert(front[0] == states[0] && times.drop_last()[0] == times[0]);
        law_increments_add_up(log, front, times.drop_last());
        assert(front.last() == states[states.len() - 2]);
        assert(counters(states[states.len() - 2]).at_most(counters(states[states.len() - 1])));
        lemma_step_adds_growth(last, before, now);
        if d is Import {
            law_every_increase_is_logged(rows, last, loaded(before)->0, now);
        }
    } else {
        assert(before is None);
        assert(rows == log);
        lemma_step_adds_growth(last, before, now);
        assert(log_after(log, last, d).drop_last() =~= log);
    }
}

/// A snapshot that the log has already is not logged again.
pub proof fn law_known_snapshot_is_not_logged_again(
    log: Seq<LoggedRow<Counters>>,
    row: HermesUsageRow,
    now: i64,
)
    requires
        has_id(log, request_id_of(row, delta_of(row, None, now))),
    ensures
        log_after(log, row, decision(row, None, now)) == log,
{
}

/// The numbers below the free one are taken, and the free one is not.
proof fn lemma_free_number(row: HermesUsageRow, delta: UsageDelta, known: Seq<Seq<char>>)
    ensures
        ({
            let n = free_number(row, delta, known, 1);
            &&& n >= 1
            &&& !known.contains(numbered_id(row, delta, n))
            &&& forall|m: nat|
                1 <= m < n ==> known.contains(#[trigger] numbered_id(row, delta, m))
        }),
{
    lemma_free_number_from(row, delta, known, 1);
    let n = free_number(row, delta, known, 1);
    if known.contains(numbered_id(row, delta, n)) {
        let taken = Seq::new(n, |i: int| numbered_id(row, delta, (i + 1) as nat));
        assert forall|i: int, j: int| 0 <= i < j < n implies taken[i] != taken[j] by {
            lemma_numbered_ids_differ(row, delta, (i + 1) as nat, (j + 1) as nat);
        }
        assert(taken.no_duplicates());
        taken.unique_seq_to_set();
        known.lemma_cardinality_of_set();
        assert(taken.to_set().subset_of(known.to_set())) by {
            assert forall|id: Seq<char>| taken.to_set().contains(id) implies known.to_set().contains(
                id,
            ) by {
                let i = choose|i: int| 0 <= i < taken.len() && taken[i] == id;
                assert(known.contains(numbered_id(row, delta, (i + 1) as nat)));
            }
        }
        vstd::set_lib::lemma_len_subset(taken.to_set(), known.to_set());
    }
}

proof fn lemma_free_number_from(
    row: HermesUsageRow,
    delta: UsageDelta,
    known: Seq<Seq<char>>,
    n: nat,
)
    requires
        n <= known.len() + 1,
    ensures
        n <= free_number(row, delta, known, n) <= known.len() + 1,
        free_number(row, delta, known, n) <= known.len() ==> !known.contains(
            numbered_id(row, delta, free_number(row, delta, known, n)),
        ),
        forall|m: nat|
            n <= m < free_number(row, delta, known, n) ==> known.contains(
                #[trigger] numbered_id(row, delta, m),
            ),
    decreases known.len() + 1 - n,
{
    if n <= known.len() && known.contains(numbered_id(row, delta, n)) {
        lemma_free_number_from(row, delta, known, n + 1);
    }
}

proof fn lemma_numbered_ids_differ(row: HermesUsageRow, delta: UsageDelta, a: nat, b: nat)
    requires
        1 <= a < b,
    ensures
        numbered_id(row, delta, a) != numbered_id(row, delta, b),
{
    let plain = request_id_of(row, delta);
    let front = plain + ":"@;
    lemma_digits(a);
    lemma_digits(b);
    reveal_strlit(":");
    if a == 1 {
        assert(numbered_id(row, delta, b).len() > plain.len());
    } else if numbered_id(row, delta, a) == numbered_id(row, delta, b) {
        assert((front + digits(a)).skip(front.len() as int) =~= digits(a));
        assert((front + digits(b)).skip(front.len() as int) =~= digits(b));
    }
}

/// The counters of a watermark.
pub open spec fn marked(w: HermesWatermark) -> Counters {
    Counters {
        input: w.input_tokens as int,
        output: w.output_tokens as int,
        cache_read: w.cache_read_tokens as int,
        cache_write: w.cache_write_tokens as int,
    }
}

/// What a step logs brings the counters of the watermark up to those of the
/// bucket.
proof fn lemma_step_adds_growth(row: HermesUsageRow, before: Option<StoredWatermark>, now: i64)
    requires
        loaded(before) matches Some(w) ==> marked(w).at_most(counters(row)),
    ensures
        loaded(stored_after(before, decision(row, loaded(before), now))) matches Some(w) && marked(
            w,
        ) == counters(row),
        match loaded(before) {
            Some(w) => marked(w).plus(logged(decision(row, loaded(before), now))) == counters(row),
            None => decision(row, loaded(before), now) is Import && logged(
                decision(row, loaded(before), now),
            ) == counters(row),
        },
{
    law_imported_bucket_stays_imported(row, before, now);
}

/// No import logs more tokens than the bucket reports.
pub proof fn law_increment_within_totals(
    row: HermesUsageRow,
    previous: Option<HermesWatermark>,
    now: i64,
)
    ensures
        Counters::zero().at_most(logged(decision(row, previous, now))),
        logged(decision(row, previous, now)).at_most(counters(row)),
{
}

proof fn lemma_be64_len(n: nat)
    ensures
        be64(n).len() == 8,
{
    reveal(be64);
}

proof fn lemma_be64_injective(a: nat, b: nat)
    requires
        a < 0x1_0000_0000_0000_0000,
        b < 0x1_0000_0000_0000_0000,
        be64(a) == be64(b),
    ensures
        a == b,
{
    lemma_be64_value(a);
    lemma_be64_value(b);
}

#[verifier::spinoff_prover]
proof fn lemma_be64_value(n: nat)
    requires
        n < 0x1_0000_0000_0000_0000,
    ensures
        n == be64(n)[0] as nat * 0x100_0000_0000_0000 + be64(n)[1] as nat * 0x1_0000_0000_0000
            + be64(n)[2] as nat * 0x100_0000_0000 + be64(n)[3] as nat * 0x1_0000_0000 + be64(
            n,
        )[4] as nat * 0x100_0000 + be64(n)[5] as nat * 0x1_0000 + be64(n)[6] as nat * 0x100 + be64(
            n,
        )[7] as nat,
{
    reveal(be64);
    let n1 = n / 0x100;
    let n2 = n / 0x1_0000;
    let n3 = n / 0x100_0000;
    let n4 = n / 0x1_0000_0000;
    let n5 = n / 0x100_0000_0000;
    let n6 = n / 0x1_0000_0000_0000;
    let n7 = n / 0x100_0000_0000_0000;
    assert(n == n1 * 256 + n % 256);
    assert(n1 == n2 * 256 + n1 % 256);
    assert(n2 == n3 * 256 + n2 % 256);
    assert(n3 == n4 * 256 + n3 % 256);
    assert(n4 == n5 * 256 + n4 % 256);
    assert(n5 == n6 * 256 + n5 % 256);
    assert(n6 == n7 * 256 + n6 % 256);
    assert(n7 < 256);
    let b = be64(n);
    assert(b[0] == n7 % 256 && b[1] == n6 % 256 && b[2] == n5 % 256 && b[3] == n4 % 256 && b[4]
        == n3 % 256 && b[5] == n2 % 256 && b[6] == n1 % 256 && b[7] == n % 256);
}

proof fn lemma_framed_front(fields: Seq<Seq<u8>>)
    requires
        fields.len() > 0,
    ensures
        framed(fields) == frame(fields[0]) + framed(fields.drop_first()),
    decreases fields.len(),
{
    if fields.len() == 1 {
        assert(framed(fields.drop_last()) =~= Seq::<u8>::empty());
        assert(framed(fields.drop_first()) =~= Seq::<u8>::empty());
        assert(framed(fields) =~= frame(fields[0]) + framed(fields.drop_first()));
    } else {
        lemma_framed_front(fields.drop_last());
        assert(fields.drop_last().drop_first() =~= fields.drop_first().drop_last());
        assert(framed(fields) =~= frame(fields[0]) + framed(fields.drop_first()));
    }
}

/// Framing keeps field lists of one length apart.
pub proof fn law_framing_is_injective(a: Seq<Seq<u8>>, b: Seq<Seq<u8>>)
    requires
        a.len() == b.len(),
        forall|i: int| 0 <= i < a.len() ==> (#[trigger] a[i]).len() < 0x1_0000_0000_0000_0000,
        forall|i: int| 0 <= i < b.len() ==> (#[trigger] b[i]).len() < 0x1_0000_0000_0000_0000,
        framed(a) == framed(b),
    ensures
        a == b,
    decreases a.len(),
{
    if a.len() == 0 {
        assert(a =~= b);
    } else {
        lemma_framed_front(a);
        lemma_framed_front(b);
        let whole = framed(a);
        let (x, y) = (a[0], b[0]);
        lemma_be64_len(x.len());
        lemma_be64_len(y.len());
        assert(whole.take(8) =~= be64(x.len()));
        assert(whole.take(8) =~= be64(y.len()));
        lemma_be64_injective(x.len(), y.len());
        assert(whole.subrange(8, 8 + x.len() as int) =~= x);
        assert(whole.subrange(8, 8 + x.len() as int) =~= y);
        assert(whole.skip(8 + x.len() as int) =~= framed(a.drop_first()));
        assert(whole.skip(8 + x.len() as int) =~= framed(b.drop_first()));
        assert forall|i: int| 0 <= i < a.drop_first().len() implies (#[trigger] a.drop_first()[i]).len()
            < 0x1_0000_0000_0000_0000 by {
            assert(a.drop_first()[i] == a[i + 1]);
        }
        assert forall|i: int| 0 <= i < b.drop_first().len() implies (#[trigger] b.drop_first()[i]).len()
            < 0x1_0000_0000_0000_0000 by {
            assert(b.drop_first()[i] == b[i + 1]);
        }
        law_framing_is_injective(a.drop_first(), b.drop_first());
        assert forall|i: int| 0 <= i < a.len() implies a[i] == b[i] by {
            if i > 0 {
                assert(a[i] == a.drop_first()[i - 1]);
                assert(b[i] == b.drop_first()[i - 1]);
            }
        }
        assert(a =~= b);
    }
}

/// Whether the texts that make up the identity of a bucket fit in memory.
pub open spec fn identity_fits(u: UsageView) -> bool {
    forall|i: int| 0 <= i < identity(u).len() ==> (#[trigger] identity(u)[i]).len()
        < 0x1_0000_0000_0000_0000
}

/// Buckets that differ in session, model, billing route or task are hashed
/// from different messages.
pub proof fn law_identities_are_kept_apart(a: UsageView, b: UsageView)
    requires
        identity_fits(a),
        identity_fits(b),
        framed(identity(a)) == framed(identity(b)),
    ensures
        a.session_id == b.session_id,
        a.model == b.model,
        a.billing_provider == b.billing_provider,
        a.billing_base_url == b.billing_base_url,
        a.billing_mode == b.billing_mode,
        a.task == b.task,
{
    law_framing_is_injective(identity(a), identity(b));
    let (x, y) = (identity(a), identity(b));
    assert(x[1] == y[1] && x[2] == y[2] && x[3] == y[3] && x[4] == y[4] && x[5] == y[5] && x[6]
        == y[6]);
    lemma_same_utf8(a.session_id, b.session_id);
    lemma_same_utf8(a.model, b.model);
    lemma_same_utf8(a.billing_provider, b.billing_provider);
    lemma_same_utf8(a.billing_base_url, b.billing_base_url);
    lemma_same_utf8(a.billing_mode, b.billing_mode);
    lemma_same_utf8(a.task, b.task);
}

proof fn lemma_same_utf8(a: Seq<char>, b: Seq<char>)
    requires
        encode_utf8(a) == encode_utf8(b),
    ensures
        a == b,
{
    vstd::utf8::encode_utf8_decode_utf8(a);
    vstd::utf8::encode_utf8_decode_utf8(b);
}

/// A bucket whose cost a subscription covers is logged without any cost.
pub proof fn law_subscription_covers_the_cost(
    row: HermesUsageRow,
    is_first: bool,
    priced: Option<Costs>,
)
    requires
        row.cost_included,
    ensures
        costs_of(row, is_first, priced) == Costs::only_total(Money::nothing()),
{
}

/// The cost that a bucket reports is logged once: with its snapshot, never with
/// a later increase.
pub proof fn law_reported_cost_is_logged_once(
    row: HermesUsageRow,
    previous: Option<HermesWatermark>,
    now: i64,
    priced: Option<Costs>,
)
    requires
        !row.cost_included,
        reported_cost(row) is Some,
    ensures
        costs_of(row, delta_of(row, None, now).is_first, priced) == Costs::only_total(
            reported_cost(row)->0,
        ),
        previous is Some ==> costs_of(row, delta_of(row, previous, now).is_first, priced)
            == match priced {
            Some(costs) => costs,
            None => Costs::only_total(Money::nothing()),
        },
{
}

/// What was actually charged is the cost that is logged with the snapshot,
/// whatever was estimated and whatever the price list says.
pub proof fn law_actual_cost_comes_first(
    row: HermesUsageRow,
    other_estimate: Money,
    priced: Option<Costs>,
    other_priced: Option<Costs>,
)
    requires
        !row.cost_included,
        row.actual_cost.mantissa > 0,
    ensures
        costs_of(row, true, priced).total == row.actual_cost,
        costs_of(HermesUsageRow { estimated_cost: other_estimate, ..row }, true, other_priced)
            == costs_of(row, true, priced),
{
}

/// The estimate is logged with the snapshot only where nothing was actually
/// charged.
pub proof fn law_estimate_counts_where_nothing_was_charged(
    row: HermesUsageRow,
    priced: Option<Costs>,
)
    requires
        !row.cost_included,
        row.actual_cost.mantissa <= 0,
        row.estimated_cost.mantissa > 0,
    ensures
        costs_of(row, true, priced).total == row.estimated_cost,
{
}

/// A cost that the bucket reports, or that a subscription covers, is a total
/// without parts.
pub proof fn law_reported_costs_have_no_parts(
    row: HermesUsageRow,
    is_first: bool,
    priced: Option<Costs>,
)
    requires
        row.cost_included || (is_first && (row.actual_cost.mantissa > 0
            || row.estimated_cost.mantissa > 0)),
    ensures
        ({
            let costs = costs_of(row, is_first, priced);
            &&& costs.input.mantissa == 0
            &&& costs.output.mantissa == 0
            &&& costs.cache_read.mantissa == 0
            &&& costs.cache_creation.mantissa == 0
            &&& row.cost_included ==> costs.total.mantissa == 0
            &&& !asks_price(row, is_first)
        }),
{
}

/// Everything else is logged at the list price, or at nothing for a model
/// without one: a snapshot without a reported cost, and every later increase,
/// whatever the bucket reports by then.
pub proof fn law_all_else_has_the_list_price(
    row: HermesUsageRow,
    is_first: bool,
    priced: Option<Costs>,
)
    requires
        !row.cost_included,
        !is_first || (row.actual_cost.mantissa <= 0 && row.estimated_cost.mantissa <= 0),
    ensures
        asks_price(row, is_first),
        priced is Some ==> costs_of(row, is_first, priced) == priced->0,
        priced is None ==> costs_of(row, is_first, priced).total.mantissa == 0,
{
}

/// An increase is logged exactly if the bucket was never imported or one of its
/// counters has grown.
pub proof fn law_growth_is_imported(row: HermesUsageRow, previous: Option<HermesWatermark>, now: i64)
    ensures
        decision(row, previous, now) is Import <==> match previous {
            None => true,
            Some(prev) => row.input_tokens > prev.input_tokens || row.output_tokens
                > prev.output_tokens || row.cache_read_tokens > prev.cache_read_tokens
                || row.cache_write_tokens > prev.cache_write_tokens,
        },
{
}

/// What an increase logs, together with what was imported before, is what the
/// bucket reports, counter by counter; a counter that has fallen logs nothing.
pub proof fn law_increase_is_the_difference(
    row: HermesUsageRow,
    prev: HermesWatermark,
    now: i64,
    delta: UsageDelta,
    watermark: HermesWatermark,
)
    requires
        decision(row, Some(prev), now) == (ImportDecision::Import { delta, watermark }),
    ensures
        !delta.is_first,
        row.input_tokens >= prev.input_tokens ==> prev.input_tokens + delta.input_tokens
            == row.input_tokens,
        row.input_tokens < prev.input_tokens ==> delta.input_tokens == 0,
        row.output_tokens >= prev.output_tokens ==> prev.output_tokens + delta.output_tokens
            == row.output_tokens,
        row.output_tokens < prev.output_tokens ==> delta.output_tokens == 0,
        row.cache_read_tokens >= prev.cache_read_tokens ==> prev.cache_read_tokens
            + delta.cache_read_tokens == row.cache_read_tokens,
        row.cache_read_tokens < prev.cache_read_tokens ==> delta.cache_read_tokens == 0,
        row.cache_write_tokens >= prev.cache_write_tokens ==> prev.cache_write_tokens
            + delta.cache_write_tokens == row.cache_write_tokens,
        row.cache_write_tokens < prev.cache_write_tokens ==> delta.cache_write_tokens == 0,
{
}

/// After an import the watermark has the counters of the bucket.
pub proof fn law_import_marks_what_was_read(
    row: HermesUsageRow,
    previous: Option<HermesWatermark>,
    now: i64,
    delta: UsageDelta,
    watermark: HermesWatermark,
)
    requires
        decision(row, previous, now) == (ImportDecision::Import { delta, watermark }),
    ensures
        watermark.input_tokens == row.input_tokens,
        watermark.output_tokens == row.output_tokens,
        watermark.cache_read_tokens == row.cache_read_tokens,
        watermark.cache_write_tokens == row.cache_write_tokens,
        delta.is_first <==> previous is None,
{
}

/// A bucket that has not grown keeps the counters of its watermark, even where
/// its own have fallen, and only the time moves; where that has not moved either
/// and no counter differs, nothing is done.
pub proof fn law_without_growth_only_the_time_moves(
    row: HermesUsageRow,
    prev: HermesWatermark,
    now: i64,
)
    requires
        row.input_tokens <= prev.input_tokens,
        row.output_tokens <= prev.output_tokens,
        row.cache_read_tokens <= prev.cache_read_tokens,
        row.cache_write_tokens <= prev.cache_write_tokens,
        0 < row.last_seen_secs <= 9_223_372_036_854_775,
    ensures
        ({
            let d = decision(row, Some(prev), now);
            let same = row.input_tokens == prev.input_tokens && row.output_tokens
                == prev.output_tokens && row.cache_read_tokens == prev.cache_read_tokens
                && row.cache_write_tokens == prev.cache_write_tokens && prev.last_seen_millis
                == row.last_seen_secs * 1000;
            &&& same <==> d is Unchanged
            &&& !same <==> d is Touch
            &&& d matches ImportDecision::Touch(w) ==> {
                &&& w.last_seen_millis == row.last_seen_secs * 1000
                &&& w.input_tokens == prev.input_tokens
                &&& w.output_tokens == prev.output_tokens
                &&& w.cache_read_tokens == prev.cache_read_tokens
                &&& w.cache_write_tokens == prev.cache_write_tokens
            }
        }),
{
}

/// A snapshot is logged at the time at which the bucket began, or else was last
/// active; an increase at the time at which the bucket was last active. Without
/// such a time the present is taken.
pub proof fn law_when_an_import_is_logged(
    row: HermesUsageRow,
    previous: Option<HermesWatermark>,
    now: i64,
    delta: UsageDelta,
    watermark: HermesWatermark,
)
    requires
        decision(row, previous, now) == (ImportDecision::Import { delta, watermark }),
    ensures
        previous is None && row.first_seen_secs > 0 ==> delta.created_at == row.first_seen_secs,
        (previous is Some || row.first_seen_secs <= 0) && row.last_seen_secs > 0
            ==> delta.created_at == row.last_seen_secs,
        (previous is Some || row.first_seen_secs <= 0) && row.last_seen_secs <= 0
            ==> delta.created_at == now,
{
}

/// The time of a watermark is the one at which the bucket was last active, in
/// milliseconds; without one it stays the time of the previous watermark, or is
/// the present.
pub proof fn law_which_time_is_marked(
    row: HermesUsageRow,
    previous: Option<HermesWatermark>,
    now: i64,
    w: HermesWatermark,
)
    requires
        match decision(row, previous, now) {
            ImportDecision::Unchanged => false,
            ImportDecision::Touch(touched) => touched == w,
            ImportDecision::Import { delta: _, watermark } => watermark == w,
        },
    ensures
        w.last_seen_millis > 0,
        0 < row.last_seen_secs <= 9_223_372_036_854_775 ==> w.last_seen_millis
            == row.last_seen_secs * 1000,
        row.last_seen_secs > 9_223_372_036_854_775 ==> w.last_seen_millis
            == 9_223_372_036_854_775_807,
        row.last_seen_secs <= 0 && (previous matches Some(prev) && prev.last_seen_millis > 0)
            ==> w.last_seen_millis == previous->0.last_seen_millis,
        row.last_seen_secs <= 0 && !(previous matches Some(prev) && prev.last_seen_millis > 0)
            && 0 < now <= 9_223_372_036_854_775 ==> w.last_seen_millis == now * 1000,
{
}

/// Seconds are a thousand milliseconds each, up to the limits of 64 bits.
pub proof fn law_milliseconds(secs: i64)
    ensures
        -9_223_372_036_854_775 <= secs <= 9_223_372_036_854_775 ==> millis(secs) == secs * 1000,
        secs > 9_223_372_036_854_775 ==> millis(secs) == 9_223_372_036_854_775_807,
        secs < -9_223_372_036_854_775 ==> millis(secs) == -9_223_372_036_854_775_808,
{
}

/// A watermark goes into the columns of the sync table as its time, then input
/// over output, then cache reads over cache writes: the first of each pair in
/// the upper 32 bits, up to a multiple of two to the 64th.
pub proof fn law_how_a_watermark_is_stored(w: HermesWatermark)
    ensures
        stored(w).last_modified == w.last_seen_millis,
        ({
            let gap = w.input_tokens * 4_294_967_296 + w.output_tokens
                - stored(w).last_line_offset;
            gap == 0 || gap == 0x1_0000_0000_0000_0000
        }),
        ({
            let gap = w.cache_read_tokens * 4_294_967_296 + w.cache_write_tokens
                - stored(w).last_synced_at;
            gap == 0 || gap == 0x1_0000_0000_0000_0000
        }),
{
}

/// Columns without a time hold no watermark; all others do, with that time.
pub proof fn law_columns_without_a_time(s: StoredWatermark)
    ensures
        loaded(None) is None,
        loaded(Some(s)) is Some <==> s.last_modified > 0,
        loaded(Some(s)) matches Some(w) ==> stored(w) == s,
{
    law_pack_after_unpack(s.last_line_offset);
    law_pack_after_unpack(s.last_synced_at);
}

/// A bucket is logged under its billing provider, without the white space
/// around it; where there is none, under a placeholder.
pub proof fn law_which_provider_is_logged(row: HermesUsageRow)
    ensures
        trimmed(row.billing_provider@).len() > 0 ==> provider_of(row) == trimmed(
            row.billing_provider@,
        ),
        trimmed(row.billing_provider@).len() == 0 ==> provider_of(row) == "_hermes_session"@,
{
}

/// Lengths stand in front of the fields with the most significant byte first.
pub proof fn law_lengths_are_big_endian(field: Seq<u8>)
    requires
        field.len() < 0x1_0000_0000_0000_0000,
    ensures
        ({
            let f = frame(field);
            &&& f.len() == 8 + field.len()
            &&& f.skip(8) == field
            &&& field.len() == f[0] as nat * 0x100_0000_0000_0000 + f[1] as nat
                * 0x1_0000_0000_0000 + f[2] as nat * 0x100_0000_0000 + f[3] as nat * 0x1_0000_0000
                + f[4] as nat * 0x100_0000 + f[5] as nat * 0x1_0000 + f[6] as nat * 0x100
                + f[7] as nat
        }),
{
    lemma_be64_len(field.len());
    lemma_be64_value(field.len());
    assert(frame(field).skip(8) =~= field);
}

/// Two rows of one table that differ in the text of the session, the billing
/// route or the task stand for buckets with different identities, and so do two
/// rows that name different models.
pub proof fn law_rows_that_differ_are_kept_apart(
    row: Seq<Cell>,
    other: Seq<Cell>,
    names: Seq<String>,
    cols: Seq<String>,
    is_model_usage: bool,
    name: Seq<char>,
    k: int,
    u: UsageView,
    v: UsageView,
)
    requires
        mapped(row, names, cols, is_model_usage) == Some(u),
        mapped(other, names, cols, is_model_usage) == Some(v),
        stands_at(names, cols, name, k),
        k < row.len(),
        k < other.len(),
        text_value(Some(row[k])) != text_value(Some(other[k])),
        ({
            ||| is_model_usage && name == "session_id"@
            ||| !is_model_usage && name == "id"@
            ||| name == "billing_provider"@
            ||| name == "billing_base_url"@
            ||| name == "billing_mode"@
            ||| name == "task"@
            ||| name == "model"@ && text_value(Some(row[k])).len() > 0 && text_value(
                Some(other[k]),
            ).len() > 0
        }),
    ensures
        identity(u) != identity(v),
        identity_fits(u) && identity_fits(v) ==> framed(identity(u)) != framed(identity(v)),
{
    law_texts_are_read_by_name(row, names, cols, is_model_usage, name, k);
    law_texts_are_read_by_name(other, names, cols, is_model_usage, name, k);
    let (x, y) = (identity(u), identity(v));
    if x == y {
        assert(x[1] == y[1] && x[2] == y[2] && x[3] == y[3] && x[4] == y[4] && x[5] == y[5]
            && x[6] == y[6]);
        lemma_same_utf8(u.session_id, v.session_id);
        lemma_same_utf8(u.model, v.model);
        lemma_same_utf8(u.billing_provider, v.billing_provider);
        lemma_same_utf8(u.billing_base_url, v.billing_base_url);
        lemma_same_utf8(u.billing_mode, v.billing_mode);
        lemma_same_utf8(u.task, v.task);
    }
    if identity_fits(u) && identity_fits(v) && framed(identity(u)) == framed(identity(v)) {
        law_identities_are_kept_apart(u, v);
    }
}

/// The counters, the costs and the times of a bucket have no part in its
/// identity, so its watermark is found again however it grows.
pub proof fn law_growth_keeps_the_identity(u: UsageView, v: UsageView)
    requires
        u.session_id == v.session_id,
        u.model == v.model,
        u.billing_provider == v.billing_provider,
        u.billing_base_url == v.billing_base_url,
        u.billing_mode == v.billing_mode,
        u.task == v.task,
    ensures
        fingerprint(u) == fingerprint(v),
        watermark_key_of(u) == watermark_key_of(v),
{
}

/// The identity is made up of a version mark, the session, the model, the
/// billing route from provider to mode, and the task, in this order.
pub proof fn law_parts_of_the_identity(u: UsageView)
    ensures
        identity(u).len() == 7,
        decode_utf8(identity(u)[0]) == "hermes-usage-v1"@,
        decode_utf8(identity(u)[1]) == u.session_id,
        decode_utf8(identity(u)[2]) == u.model,
        decode_utf8(identity(u)[3]) == u.billing_provider,
        decode_utf8(identity(u)[4]) == u.billing_base_url,
        decode_utf8(identity(u)[5]) == u.billing_mode,
        decode_utf8(identity(u)[6]) == u.task,
{
    vstd::utf8::encode_utf8_decode_utf8("hermes-usage-v1"@);
    vstd::utf8::encode_utf8_decode_utf8(u.session_id);
    vstd::utf8::encode_utf8_decode_utf8(u.model);
    vstd::utf8::encode_utf8_decode_utf8(u.billing_provider);
    vstd::utf8::encode_utf8_decode_utf8(u.billing_base_url);
    vstd::utf8::encode_utf8_decode_utf8(u.billing_mode);
    vstd::utf8::encode_utf8_decode_utf8(u.task);
}

/// Buckets of different sessions have different watermark keys, and so have
/// buckets with different fingerprints.
pub proof fn law_keys_tell_buckets_apart(u: UsageView, v: UsageView)
    requires
        fingerprint(u).len() == 16,
        fingerprint(v).len() == 16,
        watermark_key_of(u) == watermark_key_of(v),
    ensures
        u.session_id == v.session_id,
        fingerprint(u) == fingerprint(v),
        has_prefix(watermark_key_of(u), "hermes_usage:"@ + u.session_id + ":"@),
{
    let (x, y) = (watermark_key_of(u), watermark_key_of(v));
    reveal_strlit("hermes_usage:");
    reveal_strlit(":");
    assert("hermes_usage:"@.len() == 13 && ":"@.len() == 1);
    let n = u.session_id.len() as int;
    assert(x.len() == 30 + n);
    assert(y.len() == 30 + v.session_id.len());
    assert(x.subrange(13, 13 + n) =~= u.session_id);
    assert(y.subrange(13, 13 + n) =~= v.session_id);
    assert(x.skip(14 + n) =~= fingerprint(u));
    assert(y.skip(14 + n) =~= fingerprint(v));
    let front = "hermes_usage:"@ + u.session_id + ":"@;
    assert(x.subrange(0, front.len() as int) =~= front);
}

/// The last three parts of an identifier are the time at which the bucket was
/// last active, the input and the output that is logged, in this order.
pub proof fn law_parts_of_an_identifier(row: HermesUsageRow, delta: UsageDelta)
    ensures
        ({
            let parts = split(request_id_of(row, delta), ':');
            let n = parts.len() as int;
            &&& n > 3
            &&& i64_value(parts[n - 3]) == Some(millis(row.last_seen_secs) as i64)
            &&& i64_value(parts[n - 2]) == Some(delta.input_tokens as i64)
            &&& i64_value(parts[n - 1]) == Some(delta.output_tokens as i64)
        }),
{
    let front = "hermes_session:"@ + row.session_id@ + ":"@ + fingerprint(row@);
    let time = millis(row.last_seen_secs) as i64;
    let (input, output) = (delta.input_tokens as i64, delta.output_tokens as i64);
    lemma_id_parts(front, time, input, output);
    lemma_split_parts(front, ':');
    let parts = split(front, ':') + seq![
        decimal(time as int),
        decimal(input as int),
        decimal(output as int),
    ];
    assert(split(request_id_of(row, delta), ':') == parts);
    lemma_decimal_reads_back(time);
    lemma_decimal_reads_back(input);
    lemma_decimal_reads_back(output);
}

/// Two imports of a bucket have one identifier only if the bucket was last
/// active at the same time and the same input and output is logged.
pub proof fn law_identifiers_tell_imports_apart(
    row: HermesUsageRow,
    delta: UsageDelta,
    other: HermesUsageRow,
    other_delta: UsageDelta,
)
    requires
        row.session_id@ == other.session_id@,
        fingerprint(row@) == fingerprint(other@),
        request_id_of(row, delta) == request_id_of(other, other_delta),
    ensures
        millis(row.last_seen_secs) == millis(other.last_seen_secs),
        delta.input_tokens == other_delta.input_tokens,
        delta.output_tokens == other_delta.output_tokens,
{
    let front = "hermes_session:"@ + row.session_id@ + ":"@ + fingerprint(row@);
    let (time, input, output) = (
        millis(row.last_seen_secs) as i64,
        delta.input_tokens as i64,
        delta.output_tokens as i64,
    );
    let (time2, input2, output2) = (
        millis(other.last_seen_secs) as i64,
        other_delta.input_tokens as i64,
        other_delta.output_tokens as i64,
    );
    lemma_id_parts(front, time, input, output);
    lemma_id_parts(front, time2, input2, output2);
    let id = request_id_of(row, delta);
    let parts = split(id, ':');
    let n = split(front, ':').len() as int;
    assert(request_id_of(other, other_delta) == id);
    assert(parts[n] == decimal(time as int) && parts[n + 1] == decimal(input as int) && parts[n
        + 2] == decimal(output as int));
    assert(parts[n] == decimal(time2 as int) && parts[n + 1] == decimal(input2 as int) && parts[n
        + 2] == decimal(output2 as int));
    lemma_decimal_reads_back(time);
    lemma_decimal_reads_back(time2);
    lemma_decimal_reads_back(input);
    lemma_decimal_reads_back(input2);
    lemma_decimal_reads_back(output);
    lemma_decimal_reads_back(output2);
}

proof fn lemma_id_parts(front: Seq<char>, time: i64, input: i64, output: i64)
    ensures
        ({
            let id = front + ":"@ + decimal(time as int) + ":"@ + decimal(input as int) + ":"@
                + decimal(output as int);
            split(id, ':') == split(front, ':') + seq![
                decimal(time as int),
                decimal(input as int),
                decimal(output as int),
            ]
        }),
{
    reveal_strlit(":");
    assert(":"@ =~= seq![':']);
    let (t, i, o) = (decimal(time as int), decimal(input as int), decimal(output as int));
    let id = front + ":"@ + t + ":"@ + i + ":"@ + o;
    lemma_decimal_has_no_colon(time);
    lemma_decimal_has_no_colon(input);
    lemma_decimal_has_no_colon(output);
    lemma_split_single(t, ':');
    lemma_split_single(i, ':');
    lemma_split_single(o, ':');
    lemma_split_concat(i, o, ':');
    lemma_split_concat(t, i.push(':') + o, ':');
    lemma_split_concat(front, t.push(':') + (i.push(':') + o), ':');
    assert(id =~= front.push(':') + (t.push(':') + (i.push(':') + o)));
    assert(split(id, ':') =~= split(front, ':') + seq![t, i, o]);
}

/// An identifier names the session behind a mark of its own.
pub proof fn law_identifiers_name_the_session(row: HermesUsageRow, delta: UsageDelta)
    ensures
        has_prefix(request_id_of(row, delta), "hermes_session:"@ + row.session_id@ + ":"@),
{
    let front = "hermes_session:"@ + row.session_id@ + ":"@;
    assert(request_id_of(row, delta).subrange(0, front.len() as int) =~= front);
}

/// An increase whose identifier is taken gets the least number from two on with
/// which it is free.
pub proof fn law_least_free_number_is_taken(
    row: HermesUsageRow,
    delta: UsageDelta,
    known: Seq<Seq<char>>,
) -> (n: nat)
    requires
        !delta.is_first,
        known.contains(request_id_of(row, delta)),
    ensures
        n >= 2,
        logged_id(row, delta, known) == request_id_of(row, delta) + ":"@ + digits(n),
        !known.contains(request_id_of(row, delta) + ":"@ + digits(n)),
        forall|m: nat|
            2 <= m < n ==> known.contains(
                request_id_of(row, delta) + ":"@ + #[trigger] digits(m),
            ),
{
    lemma_free_number(row, delta, known);
    let n = free_number(row, delta, known, 1);
    assert(numbered_id(row, delta, 1) == request_id_of(row, delta));
    assert forall|m: nat| 2 <= m < n implies known.contains(
        request_id_of(row, delta) + ":"@ + #[trigger] digits(m),
    ) by {
        assert(known.contains(numbered_id(row, delta, m)));
    }
    n
}

/// A bucket without a time that has not grown keeps the time of its watermark,
/// too: it is left alone where no counter differs, and its watermark is written
/// as it was where one has fallen.
pub proof fn law_bucket_without_a_time_keeps_its_watermark(
    row: HermesUsageRow,
    prev: HermesWatermark,
    now: i64,
)
    requires
        row.last_seen_secs <= 0,
        prev.last_seen_millis > 0,
        row.input_tokens <= prev.input_tokens,
        row.output_tokens <= prev.output_tokens,
        row.cache_read_tokens <= prev.cache_read_tokens,
        row.cache_write_tokens <= prev.cache_write_tokens,
    ensures
        decision(row, Some(prev), now) is Unchanged <==> row.input_tokens == prev.input_tokens
            && row.output_tokens == prev.output_tokens && row.cache_read_tokens
            == prev.cache_read_tokens && row.cache_write_tokens == prev.cache_write_tokens,
        !(decision(row, Some(prev), now) is Unchanged) ==> decision(row, Some(prev), now)
            == ImportDecision::Touch(prev),
{
}

} // verus!
