//! What is asked of the stored log of task runs, and how the answer is paged.
//!
//! A query is held as plain data: what is selected, the conditions that a
//! record has to meet, and the order. The store turns it into its own
//! statement.

use crate::task_log::TaskLog;
use vstd::prelude::*;

verus! {

/// The status under which the store keeps a record that was deleted.
pub const DELETED_STATUS: i16 = 2;

/// What a query gives for the records that meet its conditions.
#[derive(Debug, Copy, Clone, PartialEq, Eq, Structural)]
pub enum Selection {
    /// The records themselves, with all their columns.
    AllColumns,
    /// How many there are.
    Count,
}

/// The order in which a query gives the records.
#[derive(Debug, Copy, Clone, PartialEq, Eq, Structural)]
pub enum Order {
    /// As the store finds them.
    Unordered,
    /// The newest first: by id, descending.
    IdDescending,
}

/// A column that holds a number which identifies something.
#[derive(Debug, Copy, Clone, PartialEq, Eq, Structural)]
pub enum IdColumn {
    TaskId,
    RecordId,
}

/// A column that holds text.
#[derive(Debug, Copy, Clone, PartialEq, Eq, Structural)]
pub enum TextColumn {
    Name,
    Description,
    Command,
    Tag,
}

/// One condition that a record has to meet.
#[derive(Debug, Clone, PartialEq, Eq)]
pub enum Filter {
    /// The status is not this one.
    StatusNotEqual(i16),
    /// The status is this one.
    StatusEqual(i16),
    /// The column holds this number.
    IdEqual(IdColumn, i64),
    /// The column's text is like this pattern, in the store's sense of like.
    Like(TextColumn, String),
}

/// A query on the log of task runs. A record is given when it meets every
/// condition.
#[derive(Debug, Clone, PartialEq, Eq)]
pub struct TaskLogQuery {
    pub selection: Selection,
    pub filters: Vec<Filter>,
    pub order: Order,
}

/// Where queries on the log of task runs start.
#[derive(Debug)]
pub struct TaskLogQueryBuilder;

impl TaskLogQueryBuilder {
    /// The query for every record, with all its columns.
    pub fn query_all_columns() -> (query: TaskLogQuery)
        ensures
            query.selection == Selection::AllColumns,
            query.filters@.len() == 0,
            query.order == Order::Unordered,
    {
        TaskLogQuery {
            selection: Selection::AllColumns,
            filters: Vec::new(),
            order: Order::Unordered,
        }
    }

    /// The query for the number of records.
    pub fn query_count() -> (query: TaskLogQuery)
        ensures
            query.selection == Selection::Count,
            query.filters@.len() == 0,
            query.order == Order::Unordered,
    {
        TaskLogQuery { selection: Selection::Count, filters: Vec::new(), order: Order::Unordered }
    }
}

/// What a caller asks of the log of task runs.
#[derive(Debug, Default, Clone, PartialEq, Eq)]
pub struct QueryParamsTaskLog {
    pub name: Option<String>,
    pub description: Option<String>,
    pub command: Option<String>,
    pub tag: Option<String>,
    pub task_id: Option<i64>,
    pub record_id: Option<i64>,
    pub status: Option<i16>,
    pub executor_processor_id: Option<i64>,
    pub per_page: i64,
    pub page: i64,
}

/// The condition on a column of ids, if the caller gave a value for it.
pub open spec fn id_filter(column: IdColumn, value: Option<i64>) -> Seq<Filter> {
    match value {
        Some(id) => seq![Filter::IdEqual(column, id)],
        None => Seq::empty(),
    }
}

/// The condition on a column of text, if the caller gave a pattern for it.
pub open spec fn like_filter(column: TextColumn, value: Option<String>) -> Seq<Filter> {
    match value {
        Some(pattern) => seq![Filter::Like(column, pattern)],
        None => Seq::empty(),
    }
}

/// The condition on the status: the status that the caller asks for, or any
/// but that of a deleted record.
pub open spec fn status_filter(status: Option<i16>) -> Filter {
    match status {
        Some(s) => Filter::StatusEqual(s),
        None => Filter::StatusNotEqual(DELETED_STATUS),
    }
}

/// The conditions that the caller's parameters stand for, in the order in
/// which they are put.
pub open spec fn filters_of(params: QueryParamsTaskLog) -> Seq<Filter> {
    seq![Filter::StatusNotEqual(DELETED_STATUS)] + id_filter(IdColumn::TaskId, params.task_id)
        + id_filter(IdColumn::RecordId, params.record_id) + seq![status_filter(params.status)]
        + like_filter(TextColumn::Name, params.name) + like_filter(
        TextColumn::Description,
        params.description,
    ) + like_filter(TextColumn::Command, params.command) + like_filter(
        TextColumn::Tag,
        params.tag,
    )
}

fn push_id(filters: &mut Vec<Filter>, column: IdColumn, value: Option<i64>)
    ensures
        final(filters)@ == old(filters)@ + id_filter(column, value),
{
    match value {
        Some(id) => {
            filters.push(Filter::IdEqual(column, id));
        },
        None => {},
    }
    assert(filters@ =~= old(filters)@ + id_filter(column, value));
}

fn push_like(filters: &mut Vec<Filter>, column: TextColumn, value: Option<String>)
    ensures
        final(filters)@ == old(filters)@ + like_filter(column, value),
{
    match value {
        Some(pattern) => {
            filters.push(Filter::Like(column, pattern));
        },
        None => {},
    }
    assert(filters@ =~= old(filters)@ + like_filter(column, value));
}

fn push_status(filters: &mut Vec<Filter>, status: Option<i16>)
    ensures
        final(filters)@ == old(filters)@ + seq![status_filter(status)],
{
    match status {
        Some(s) => {
            filters.push(Filter::StatusEqual(s));
        },
        None => {
            filters.push(Filter::StatusNotEqual(DELETED_STATUS));
        },
    }
    assert(filters@ =~= old(filters)@ + seq![status_filter(status)]);
}

impl QueryParamsTaskLog {
    /// Puts the caller's conditions on a query, behind those it has, and
    /// orders it with the newest record first. Deleted records are never
    /// given; the columns for which the caller gave nothing are not
    /// constrained.
    pub fn query_filter(self, statement_builder: TaskLogQuery) -> (query: TaskLogQuery)
        ensures
            query.selection == statement_builder.selection,
            query.filters@ == statement_builder.filters@ + filters_of(self),
            query.order == Order::IdDescending,
    {
        let TaskLogQuery { selection, filters, order: _ } = statement_builder;
        let mut filters = filters;
        let ghost start = filters@;
        filters.push(Filter::StatusNotEqual(DELETED_STATUS));
        push_id(&mut filters, IdColumn::TaskId, self.task_id);
        push_id(&mut filters, IdColumn::RecordId, self.record_id);
        push_status(&mut filters, self.status);
        push_like(&mut filters, TextColumn::Name, self.name);
        push_like(&mut filters, TextColumn::Description, self.description);
        push_like(&mut filters, TextColumn::Command, self.command);
        push_like(&mut filters, TextColumn::Tag, self.tag);
        assert(filters@ =~= start + filters_of(self));
        TaskLogQuery { selection, filters, order: Order::IdDescending }
    }
}

/// The size of a number.
pub open spec fn magnitude(x: i64) -> nat {
    if x < 0 {
        (-x) as nat
    } else {
        x as nat
    }
}

/// The number of pages that `total` records take with `per_page` records a
/// page: the quotient, rounded up, and held to what 64 bits can say. With no
/// records a page there is no end of pages, unless there is no record at all.
pub open spec fn pages_for(total: i64, per_page: i64) -> int {
    if per_page == 0 {
        if total > 0 {
            i64::MAX as int
        } else if total < 0 {
            i64::MIN as int
        } else {
            0
        }
    } else if (total >= 0) == (per_page > 0) {
        let pages = (magnitude(total) + magnitude(per_page) - 1) / (magnitude(per_page) as int);
        if pages > i64::MAX {
            i64::MAX as int
        } else {
            pages
        }
    } else {
        -((magnitude(total) / magnitude(per_page)) as int)
    }
}

/// With a positive page size, the pages are enough for all records and one
/// page fewer would not be.
pub proof fn lemma_pages_cover(total: i64, per_page: i64)
    requires
        total >= 0,
        per_page > 0,
    ensures
        pages_for(total, per_page) * per_page >= total,
        (pages_for(total, per_page) - 1) * per_page < total,
        0 <= pages_for(total, per_page) <= total,
{
    let t = total as int;
    let p = per_page as int;
    let q = (t + p - 1) / p;
    assert(q * p <= t + p - 1 < q * p + p) by (nonlinear_arith)
        requires
            q == (t + p - 1) / p,
            p > 0,
    ;
    assert(q * p >= t && (q - 1) * p < t) by (nonlinear_arith)
        requires
            q * p <= t + p - 1 < q * p + p,
            p > 0,
    ;
    assert(0 <= q <= t) by (nonlinear_arith)
        requires
            q * p >= t,
            (q - 1) * p < t,
            p >= 1,
            t >= 0,
    ;
}

/// One page of the log of task runs, and how many pages there are.
#[derive(Debug, Clone, PartialEq, Eq)]
pub struct PaginateTaskLogs {
    pub task_logs: Vec<TaskLog>,
    pub per_page: i64,
    pub total_page: i64,
}

impl Default for PaginateTaskLogs {
    fn default() -> (page: PaginateTaskLogs)
        ensures
            page.task_logs@.len() == 0,
            page.per_page == 0,
            page.total_page == 0,
    {
        PaginateTaskLogs { task_logs: Vec::new(), per_page: 0, total_page: 0 }
    }
}

impl PaginateTaskLogs {
    /// The same page with these records.
    pub fn set_task_logs(self, task_logs: Vec<TaskLog>) -> (page: PaginateTaskLogs)
        ensures
            page.task_logs == task_logs,
            page.per_page == self.per_page,
            page.total_page == self.total_page,
    {
        let mut page = self;
        page.task_logs = task_logs;
        page
    }

    /// The same page with this many records a page.
    pub fn set_per_page(self, per_page: i64) -> (page: PaginateTaskLogs)
        ensures
            page.task_logs == self.task_logs,
            page.per_page == per_page,
            page.total_page == self.total_page,
    {
        let mut page = self;
        page.per_page = per_page;
        page
    }

    /// The same page with the number of pages that `total` records take.
    pub fn set_total_page(self, total: i64) -> (page: PaginateTaskLogs)
        ensures
            page.task_logs == self.task_logs,
            page.per_page == self.per_page,
            page.total_page == pages_for(total, self.per_page),
    {
        let per_page = self.per_page;
        let total_page: i64 = if per_page == 0 {
            if total > 0 {
                i64::MAX
            } else if total < 0 {
                i64::MIN
            } else {
                0
            }
        } else {
            let t: u128 = size_of(total);
            let p: u128 = size_of(per_page);
            if (total >= 0) == (per_page > 0) {
                let pages: u128 = (t + p - 1) / p;
                if pages > 0x7fff_ffff_ffff_ffffu128 {
                    i64::MAX
                } else {
                    pages as i64
                }
            } else {
                let pages: u128 = t / p;
                assert(pages <= t) by (nonlinear_arith)
                    requires
                        pages == t / p,
                        p >= 1,
                ;
                if pages == 0x8000_0000_0000_0000u128 {
                    i64::MIN
                } else {
                    -(pages as i64)
                }
            }
        };
        let mut page = self;
        page.total_page = total_page;
        page
    }
}

/// The size of a number, in a type that has room for it.
fn size_of(x: i64) -> (size: u128)
    ensures
        size == magnitude(x),
        size <= 0x8000_0000_0000_0000,
{
    if x >= 0 {
        x as u128
    } else if x == i64::MIN {
        0x8000_0000_0000_0000u128
    } else {
        (-x) as u128
    }
}

} // verus!
