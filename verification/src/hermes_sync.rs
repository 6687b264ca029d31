//! One run of the Hermes usage import.

use crate::error::{AppError, ErrorView};
use crate::sync_result::{capped, SessionSyncResult};
use crate::text::{has_prefix, has_text, occurs_at, views};
use vstd::prelude::*;

verus! {

/// The state database as a run finds it.
#[derive(Clone, Copy, Debug, PartialEq, Eq, Structural)]
pub enum HermesSource {
    /// There is no database.
    Missing,
    /// When the database was last written, and the time that the last complete
    /// run recorded.
    Present { file_modified: i64, last_modified: i64 },
}

/// What became of one usage bucket.
#[derive(Debug)]
pub enum RowOutcome {
    Imported,
    Skipped,
    Failed { session_id: String, error: String },
}

/// What a run reports and records.
#[derive(Debug)]
pub struct HermesReport {
    pub result: SessionSyncResult,
    /// The time to record for the database.
    pub record: Option<i64>,
}

/// Whether a run has to read the usage: the database is there, and its time is
/// unknown or later than the recorded one.
pub open spec fn rows_wanted(source: HermesSource) -> bool {
    match source {
        HermesSource::Missing => false,
        HermesSource::Present { file_modified, last_modified } => file_modified <= 0
            || file_modified > last_modified,
    }
}

/// How many buckets were imported.
pub open spec fn imported_count(outcomes: Seq<RowOutcome>) -> nat {
    outcomes.filter(|o: RowOutcome| o is Imported).len()
}

/// How many buckets were not imported.
pub open spec fn skipped_count(outcomes: Seq<RowOutcome>) -> nat {
    outcomes.filter(|o: RowOutcome| !(o is Imported)).len()
}

/// The message for a bucket that could not be imported.
pub open spec fn failure_text(session_id: Seq<char>, error: Seq<char>) -> Seq<char> {
    "Hermes 用量导入失败 "@ + session_id + ": "@ + error
}

/// The messages for the buckets that could not be imported, in order.
pub open spec fn failure_texts(outcomes: Seq<RowOutcome>) -> Seq<Seq<char>>
    decreases outcomes.len(),
{
    if outcomes.len() == 0 {
        Seq::empty()
    } else {
        let before = failure_texts(outcomes.drop_last());
        match outcomes.last() {
            RowOutcome::Failed { session_id, error } => before.push(
                failure_text(session_id@, error@),
            ),
            _ => before,
        }
    }
}

/// Whether every bucket could be handled.
pub open spec fn all_handled(outcomes: Seq<RowOutcome>) -> bool {
    forall|i: int| 0 <= i < outcomes.len() ==> !((#[trigger] outcomes[i]) is Failed)
}

/// The time that a run records for the database: its own, if the usage was read
/// and every bucket could be handled.
pub open spec fn recorded(source: HermesSource, outcomes: Seq<RowOutcome>) -> Option<i64> {
    if rows_wanted(source) && all_handled(outcomes) {
        Some(source->file_modified)
    } else {
        None
    }
}

/// A step of a run that can fail.
#[derive(Clone, Copy, Debug, PartialEq, Eq, Structural)]
pub enum HermesStep {
    /// Reading when the database was last written.
    ReadMetadata,
    OpenDatabase,
    BeginImport,
    CommitImport,
    CheckTable,
    ReadColumns,
    QueryColumns,
    ReadColumnName,
    PrepareQuery,
    RunQuery,
    ReadRow,
    InsertRow,
    ReadWatermark,
    UpdateWatermark,
}

/// How the message about a failed step begins. Some steps name the table.
pub open spec fn step_heading(step: HermesStep, table: Seq<char>) -> Seq<char> {
    match step {
        HermesStep::ReadMetadata => "无法读取 Hermes state.db 元数据: "@,
        HermesStep::OpenDatabase => "无法打开 Hermes state.db: "@,
        HermesStep::BeginImport => "启动 Hermes 用量导入事务失败: "@,
        HermesStep::CommitImport => "提交 Hermes 用量导入事务失败: "@,
        HermesStep::CheckTable => "检查 Hermes 表 "@ + table + " 失败: "@,
        HermesStep::ReadColumns => "读取 Hermes "@ + table + " 列失败: "@,
        HermesStep::QueryColumns => "查询 Hermes "@ + table + " 列失败: "@,
        HermesStep::ReadColumnName => "读取 Hermes 列名失败: "@,
        HermesStep::PrepareQuery => "准备 Hermes "@ + table + " 查询失败: "@,
        HermesStep::RunQuery => "查询 Hermes "@ + table + " 失败: "@,
        HermesStep::ReadRow => "读取 Hermes "@ + table + " 行失败: "@,
        HermesStep::InsertRow => "插入 Hermes 会话用量失败: "@,
        HermesStep::ReadWatermark => "读取 Hermes 用量水位失败: "@,
        HermesStep::UpdateWatermark => "更新 Hermes 用量水位失败: "@,
    }
}

/// The error for a failed step.
pub fn hermes_failure(step: HermesStep, table: &str, cause: &str) -> (r: AppError)
    ensures
        r@ == if step == HermesStep::ReadMetadata {
            ErrorView::Config(step_heading(step, table@) + cause@)
        } else {
            ErrorView::Database(step_heading(step, table@) + cause@)
        },
{
    let heading: String = match step {
        HermesStep::ReadMetadata => "无法读取 Hermes state.db 元数据: ".to_string(),
        HermesStep::OpenDatabase => "无法打开 Hermes state.db: ".to_string(),
        HermesStep::BeginImport => "启动 Hermes 用量导入事务失败: ".to_string(),
        HermesStep::CommitImport => "提交 Hermes 用量导入事务失败: ".to_string(),
        HermesStep::CheckTable => "检查 Hermes 表 ".to_string().concat(table).concat(" 失败: "),
        HermesStep::ReadColumns => "读取 Hermes ".to_string().concat(table).concat(" 列失败: "),
        HermesStep::QueryColumns => "查询 Hermes ".to_string().concat(table).concat(" 列失败: "),
        HermesStep::ReadColumnName => "读取 Hermes 列名失败: ".to_string(),
        HermesStep::PrepareQuery => "准备 Hermes ".to_string().concat(table).concat(" 查询失败: "),
        HermesStep::RunQuery => "查询 Hermes ".to_string().concat(table).concat(" 失败: "),
        HermesStep::ReadRow => "读取 Hermes ".to_string().concat(table).concat(" 行失败: "),
        HermesStep::InsertRow => "插入 Hermes 会话用量失败: ".to_string(),
        HermesStep::ReadWatermark => "读取 Hermes 用量水位失败: ".to_string(),
        HermesStep::UpdateWatermark => "更新 Hermes 用量水位失败: ".to_string(),
    };
    let message: String = heading.concat(cause);
    if step == HermesStep::ReadMetadata {
        AppError::Config(message)
    } else {
        AppError::Database(message)
    }
}

/// Whether a run has to read the usage.
pub fn hermes_rows_wanted(source: &HermesSource) -> (r: bool)
    ensures
        r == rows_wanted(*source),
{
    match source {
        HermesSource::Missing => false,
        HermesSource::Present { file_modified, last_modified } => *file_modified <= 0
            || *file_modified > *last_modified,
    }
}

/// What a run reports and records, given what became of each bucket. The
/// outcomes count only where the usage had to be read.
pub fn sync_hermes_usage(source: &HermesSource, outcomes: &Vec<RowOutcome>) -> (r: HermesReport)
    ensures
        source is Missing ==> r.result.nothing_done(),
        source is Present ==> r.result.files_scanned == 1,
        !rows_wanted(*source) ==> {
            &&& r.result.imported == 0
            &&& r.result.skipped == 0
            &&& r.result.errors@.len() == 0
            &&& r.record is None
        },
        rows_wanted(*source) ==> {
            &&& r.result.imported == capped(imported_count(outcomes@) as int)
            &&& r.result.skipped == capped(skipped_count(outcomes@) as int)
            &&& views(r.result.errors@) == failure_texts(outcomes@)
        },
        r.record == recorded(*source, outcomes@),
{
    let file_modified: i64 = match source {
        HermesSource::Missing => {
            return HermesReport { result: SessionSyncResult::default(), record: None };
        },
        HermesSource::Present { file_modified, last_modified: _ } => *file_modified,
    };
    let mut imported: u32 = 0;
    let mut skipped: u32 = 0;
    let mut errors: Vec<String> = Vec::new();
    let mut failed: bool = false;
    if hermes_rows_wanted(source) {
        let ghost is_in = |o: RowOutcome| o is Imported;
        let ghost is_out = |o: RowOutcome| !(o is Imported);
        let mut i: usize = 0;
        proof {
            assert(outcomes@.take(0) =~= Seq::<RowOutcome>::empty());
            reveal(Seq::filter);
            assert(views(errors@) =~= failure_texts(outcomes@.take(0)));
        }
        while i < outcomes.len()
            invariant
                i <= outcomes@.len(),
                is_in == (|o: RowOutcome| o is Imported),
                is_out == (|o: RowOutcome| !(o is Imported)),
                imported == capped(outcomes@.take(i as int).filter(is_in).len() as int),
                skipped == capped(outcomes@.take(i as int).filter(is_out).len() as int),
                views(errors@) == failure_texts(outcomes@.take(i as int)),
                failed == !all_handled(outcomes@.take(i as int)),
            decreases outcomes.len() - i,
        {
            let ghost done = outcomes@.take(i as int);
            let ghost next = outcomes@.take(i + 1);
            proof {
                let o = outcomes@[i as int];
                assert(next =~= done.push(o));
                assert(next.drop_last() =~= done);
                done.lemma_filter_push(o, is_in);
                done.lemma_filter_push(o, is_out);
                if all_handled(next) {
                    assert forall|k: int| 0 <= k < done.len() implies !((#[trigger] done[k]) is Failed) by {
                        assert(next[k] == done[k]);
                    }
                }
                assert(next[i as int] == o);
            }
            match &outcomes[i] {
                RowOutcome::Imported => {
                    imported = imported.saturating_add(1);
                },
                RowOutcome::Skipped => {
                    skipped = skipped.saturating_add(1);
                },
                RowOutcome::Failed { session_id, error } => {
                    let ghost before = views(errors@);
                    let text: String = "Hermes 用量导入失败 ".to_string().concat(
                        session_id.as_str(),
                    ).concat(": ").concat(error.as_str());
                    errors.push(text);
                    assert(views(errors@) =~= before.push(failure_text(session_id@, error@)));
                    skipped = skipped.saturating_add(1);
                    failed = true;
                },
            }
            i += 1;
        }
        assert(outcomes@.take(i as int) =~= outcomes@);
        HermesReport {
            result: SessionSyncResult { imported, skipped, files_scanned: 1, errors },
            record: if failed {
                None
            } else {
                Some(file_modified)
            },
        }
    } else {
        HermesReport {
            result: SessionSyncResult { imported, skipped, files_scanned: 1, errors },
            record: None,
        }
    }
}

/// Every bucket is counted once, as imported or as skipped.
pub proof fn law_every_bucket_is_counted(outcomes: Seq<RowOutcome>)
    ensures
        imported_count(outcomes) + skipped_count(outcomes) == outcomes.len(),
    decreases outcomes.len(),
{
    reveal(Seq::filter);
    if outcomes.len() > 0 {
        law_every_bucket_is_counted(outcomes.drop_last());
    }
}

/// Once a run has recorded the time of the database, the next run does not
/// read it again until it is written later than that; a time that is unknown
/// is never relied on.
pub proof fn law_recorded_database_is_not_read_again(recorded: i64, later: i64)
    requires
        recorded > 0,
        later > recorded,
    ensures
        !rows_wanted(
            HermesSource::Present { file_modified: recorded, last_modified: recorded },
        ),
        rows_wanted(HermesSource::Present { file_modified: later, last_modified: recorded }),
        rows_wanted(HermesSource::Present { file_modified: 0, last_modified: recorded }),
{
}

/// The usage is left alone only where there is no database, or where the time
/// of the database is known and not later than the recorded one.
pub proof fn law_when_the_usage_is_read(file_modified: i64, last_modified: i64)
    ensures
        !rows_wanted(HermesSource::Missing),
        !rows_wanted(HermesSource::Present { file_modified, last_modified }) <==> 0 < file_modified
            <= last_modified,
{
}

/// One more bucket adds to one of the two counts, and to the messages only if
/// it could not be imported; what was counted and said before stays.
pub proof fn law_one_more_bucket(outcomes: Seq<RowOutcome>, next: RowOutcome)
    ensures
        imported_count(outcomes.push(next)) == imported_count(outcomes) + if next is Imported {
            1int
        } else {
            0
        },
        skipped_count(outcomes.push(next)) == skipped_count(outcomes) + if next is Imported {
            0int
        } else {
            1
        },
        next matches RowOutcome::Failed { session_id, error } ==> failure_texts(
            outcomes.push(next),
        ) == failure_texts(outcomes).push(
            "Hermes 用量导入失败 "@ + session_id@ + ": "@ + error@,
        ),
        !(next is Failed) ==> failure_texts(outcomes.push(next)) == failure_texts(outcomes),
{
    outcomes.lemma_filter_push(next, |o: RowOutcome| o is Imported);
    outcomes.lemma_filter_push(next, |o: RowOutcome| !(o is Imported));
    assert(outcomes.push(next).drop_last() =~= outcomes);
}

/// A run that says nothing went wrong has handled every bucket, and one that
/// has handled every bucket says nothing.
pub proof fn law_messages_are_about_failures(outcomes: Seq<RowOutcome>)
    ensures
        failure_texts(outcomes).len() <= skipped_count(outcomes),
        failure_texts(outcomes).len() == 0 <==> all_handled(outcomes),
        all_handled(outcomes) <==> !exists|i: int|
            0 <= i < outcomes.len() && ((#[trigger] outcomes[i]) is Failed),
    decreases outcomes.len(),
{
    if outcomes.len() > 0 {
        let front = outcomes.drop_last();
        let last = outcomes.last();
        law_messages_are_about_failures(front);
        law_one_more_bucket(front, last);
        assert(front.push(last) =~= outcomes);
        assert(outcomes[outcomes.len() - 1] == last);
        if all_handled(outcomes) {
            assert forall|i: int| 0 <= i < front.len() implies !((#[trigger] front[i]) is Failed) by {
                assert(outcomes[i] == front[i]);
            }
        }
        if all_handled(front) && !(last is Failed) {
            assert forall|i: int| 0 <= i < outcomes.len() implies !((
            #[trigger] outcomes[i]) is Failed) by {
                if i < front.len() {
                    assert(outcomes[i] == front[i]);
                }
            }
        }
    } else {
        reveal(Seq::filter);
    }
}

/// The message about a step on a table names the table; no other message
/// depends on one.
pub proof fn law_messages_name_the_table(step: HermesStep, table: Seq<char>, other: Seq<char>)
    ensures
        step == HermesStep::CheckTable || step == HermesStep::ReadColumns || step
            == HermesStep::QueryColumns || step == HermesStep::PrepareQuery || step
            == HermesStep::RunQuery || step == HermesStep::ReadRow ==> has_text(
            step_heading(step, table),
            table,
        ),
        step == HermesStep::ReadMetadata || step == HermesStep::OpenDatabase || step
            == HermesStep::BeginImport || step == HermesStep::CommitImport || step
            == HermesStep::ReadColumnName || step == HermesStep::InsertRow || step
            == HermesStep::ReadWatermark || step == HermesStep::UpdateWatermark ==> step_heading(
            step,
            table,
        ) == step_heading(step, other),
{
    lemma_names_table("检查 Hermes 表 "@, table, " 失败: "@);
    lemma_names_table("读取 Hermes "@, table, " 列失败: "@);
    lemma_names_table("查询 Hermes "@, table, " 列失败: "@);
    lemma_names_table("准备 Hermes "@, table, " 查询失败: "@);
    lemma_names_table("查询 Hermes "@, table, " 失败: "@);
    lemma_names_table("读取 Hermes "@, table, " 行失败: "@);
}

proof fn lemma_names_table(front: Seq<char>, table: Seq<char>, back: Seq<char>)
    ensures
        has_text(front + table + back, table),
{
    let s = front + table + back;
    let i = front.len() as int;
    assert(s.subrange(i, i + table.len()) =~= table);
    assert(occurs_at(s, table, i));
}

/// The message about a failed step begins with the word for what was tried:
/// not being able, beginning, committing, checking, preparing, inserting,
/// updating, querying, reading.
pub proof fn law_messages_say_what_was_tried(step: HermesStep, table: Seq<char>)
    ensures
        step == HermesStep::ReadMetadata || step == HermesStep::OpenDatabase <==> has_prefix(
            step_heading(step, table),
            "无法"@,
        ),
        step == HermesStep::QueryColumns || step == HermesStep::RunQuery <==> has_prefix(
            step_heading(step, table),
            "查询"@,
        ),
        step == HermesStep::ReadColumns || step == HermesStep::ReadColumnName || step
            == HermesStep::ReadRow || step == HermesStep::ReadWatermark <==> has_prefix(
            step_heading(step, table),
            "读取"@,
        ),
        step == HermesStep::BeginImport <==> has_prefix(step_heading(step, table), "启动"@),
        step == HermesStep::CommitImport <==> has_prefix(step_heading(step, table), "提交"@),
        step == HermesStep::CheckTable <==> has_prefix(step_heading(step, table), "检查"@),
        step == HermesStep::PrepareQuery <==> has_prefix(step_heading(step, table), "准备"@),
        step == HermesStep::InsertRow <==> has_prefix(step_heading(step, table), "插入"@),
        step == HermesStep::UpdateWatermark <==> has_prefix(step_heading(step, table), "更新"@),
        step == HermesStep::ReadMetadata ==> has_text(step_heading(step, table), "元数据"@),
        step == HermesStep::ReadColumns || step == HermesStep::QueryColumns || step
            == HermesStep::ReadColumnName ==> has_text(step_heading(step, table), "列"@),
        step == HermesStep::ReadRow ==> has_text(step_heading(step, table), "行"@),
        step == HermesStep::ReadWatermark ==> has_text(step_heading(step, table), "水位"@),
{
    reveal_strlit("无法读取 Hermes state.db 元数据: ");
    reveal_strlit("无法打开 Hermes state.db: ");
    reveal_strlit("查询 Hermes ");
    reveal_strlit("读取 Hermes ");
    reveal_strlit("读取 Hermes 列名失败: ");
    reveal_strlit("读取 Hermes 用量水位失败: ");
    reveal_strlit(" 列失败: ");
    reveal_strlit(" 行失败: ");
    reveal_strlit(" 失败: ");
    reveal_strlit(" 查询失败: ");
    reveal_strlit("无法");
    reveal_strlit("元数据");
    reveal_strlit("列");
    reveal_strlit("行");
    reveal_strlit("水位");
    reveal_strlit("查询");
    reveal_strlit("读取");
    reveal_strlit("启动");
    reveal_strlit("启动 Hermes 用量导入事务失败: ");
    reveal_strlit("提交");
    reveal_strlit("提交 Hermes 用量导入事务失败: ");
    reveal_strlit("检查");
    reveal_strlit("检查 Hermes 表 ");
    reveal_strlit("准备");
    reveal_strlit("准备 Hermes ");
    reveal_strlit("插入");
    reveal_strlit("插入 Hermes 会话用量失败: ");
    reveal_strlit("更新");
    reveal_strlit("更新 Hermes 用量水位失败: ");
    let heading = step_heading(step, table);
    let begin = heading.subrange(0, 2);
    assert(begin.len() == 2 && begin[0] == heading[0] && begin[1] == heading[1]);
    assert(step == HermesStep::ReadMetadata || step == HermesStep::OpenDatabase ==> begin
        =~= "无法"@);
    assert(step == HermesStep::QueryColumns || step == HermesStep::RunQuery ==> begin =~= "查询"@);
    assert(step == HermesStep::ReadColumns || step == HermesStep::ReadColumnName || step
        == HermesStep::ReadRow || step == HermesStep::ReadWatermark ==> begin =~= "读取"@);
    assert(step == HermesStep::BeginImport ==> begin =~= "启动"@);
    assert(step == HermesStep::CommitImport ==> begin =~= "提交"@);
    assert(step == HermesStep::CheckTable ==> begin =~= "检查"@);
    assert(step == HermesStep::PrepareQuery ==> begin =~= "准备"@);
    assert(step == HermesStep::InsertRow ==> begin =~= "插入"@);
    assert(step == HermesStep::UpdateWatermark ==> begin =~= "更新"@);
    if step == HermesStep::ReadMetadata {
        lemma_stands_at(heading, "元数据"@, 21);
    }
    if step == HermesStep::ReadColumns || step == HermesStep::QueryColumns {
        lemma_stands_at(heading, "列"@, 11 + table.len() as int);
    }
    if step == HermesStep::ReadColumnName {
        lemma_stands_at(heading, "列"@, 10);
    }
    if step == HermesStep::ReadRow {
        lemma_stands_at(heading, "行"@, 11 + table.len() as int);
    }
    if step == HermesStep::ReadWatermark {
        lemma_stands_at(heading, "水位"@, 12);
    }
}

proof fn lemma_stands_at(s: Seq<char>, word: Seq<char>, i: int)
    requires
        0 <= i,
        i + word.len() <= s.len(),
        forall|j: int| 0 <= j < word.len() ==> s[i + j] == #[trigger] word[j],
    ensures
        has_text(s, word),
{
    assert(s.subrange(i, i + word.len()) =~= word);
    assert(occurs_at(s, word, i));
}

/// A run with a bucket that could not be imported records nothing, so the next
/// run reads the usage again; a run that could handle all records the time of
/// the database, and the next one reads it only if it was written since.
pub proof fn law_failed_runs_are_repeated(
    file_modified: i64,
    last_modified: i64,
    outcomes: Seq<RowOutcome>,
    i: int,
    later: i64,
)
    requires
        rows_wanted(HermesSource::Present { file_modified, last_modified }),
    ensures
        ({
            let source = HermesSource::Present { file_modified, last_modified };
            let kept = match recorded(source, outcomes) {
                Some(time) => time,
                None => last_modified,
            };
            let next = HermesSource::Present { file_modified, last_modified: kept };
            let written = HermesSource::Present { file_modified: later, last_modified: kept };
            &&& 0 <= i < outcomes.len() && outcomes[i] is Failed ==> rows_wanted(next)
            &&& (forall|k: int| 0 <= k < outcomes.len() ==> !((#[trigger] outcomes[k]) is Failed))
                ==> recorded(source, outcomes) == Some(file_modified)
            &&& (forall|k: int| 0 <= k < outcomes.len() ==> !((#[trigger] outcomes[k]) is Failed))
                && file_modified > 0 ==> !rows_wanted(next)
            &&& later > file_modified && later > last_modified ==> rows_wanted(written)
            &&& recorded(HermesSource::Missing, outcomes) is None
        }),
{
}

} // verus!
