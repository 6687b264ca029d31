//! The shared log of requests, as far as its identifiers go.

use vstd::prelude::*;

verus! {

/// A row of the log: its identifier and what else it holds.
pub struct LoggedRow<T> {
    pub id: Seq<char>,
    pub content: T,
}

/// The identifiers in the log.
pub open spec fn ids<T>(log: Seq<LoggedRow<T>>) -> Seq<Seq<char>> {
    log.map_values(|row: LoggedRow<T>| row.id)
}

/// Whether the log has a row with the given identifier.
pub open spec fn has_id<T>(log: Seq<LoggedRow<T>>, id: Seq<char>) -> bool {
    ids(log).contains(id)
}

/// The log after a row was put in: a row whose identifier is there already is
/// ignored.
pub open spec fn insert_or_ignore<T>(log: Seq<LoggedRow<T>>, entry: LoggedRow<T>) -> Seq<
    LoggedRow<T>,
> {
    if has_id(log, entry.id) {
        log
    } else {
        log.push(entry)
    }
}

/// What putting a row in does to the identifiers.
pub proof fn lemma_insert<T>(log: Seq<LoggedRow<T>>, entry: LoggedRow<T>, id: Seq<char>)
    ensures
        has_id(insert_or_ignore(log, entry), id) == (has_id(log, id) || id == entry.id),
{
    let after = insert_or_ignore(log, entry);
    if has_id(log, id) {
        let i = choose|i: int| 0 <= i < log.len() && ids(log)[i] == id;
        assert(ids(after)[i] == id);
    }
    if id == entry.id && !has_id(log, id) {
        assert(ids(after)[log.len() as int] == id);
    }
    if has_id(after, id) {
        let i = choose|i: int| 0 <= i < after.len() && ids(after)[i] == id;
        if i < log.len() {
            assert(ids(log)[i] == id);
        }
    }
}

} // verus!
