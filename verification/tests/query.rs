use delicate::query::Filter;
use delicate::query::IdColumn;
use delicate::query::Order;
use delicate::query::PaginateTaskLogs;
use delicate::query::QueryParamsTaskLog;
use delicate::query::Selection;
use delicate::query::TaskLogQuery;
use delicate::query::TaskLogQueryBuilder;
use delicate::query::TextColumn;
use delicate::query::DELETED_STATUS;
use delicate::task_log::TaskLog;

fn stored(id: i64) -> TaskLog {
    TaskLog {
        id,
        task_id: 9,
        record_id: 90 + id,
        name: String::from("backup"),
        description: String::new(),
        command: String::from("tar cf - /srv"),
        frequency: String::new(),
        cron_expression: String::from("0 0 * * *"),
        maximun_parallel_runable_num: 1,
        tag: String::from("nightly"),
        status: 1,
        created_time: 1_600_000_000,
        executor_processor_id: 4,
        executor_processor_name: String::from("worker-4"),
        executor_processor_host: String::from("10.0.0.4:9080"),
        stdout: String::new(),
        stderr: String::new(),
    }
}

#[test]
fn queries_start_without_conditions() {
    let all = TaskLogQueryBuilder::query_all_columns();
    assert_eq!(
        all,
        TaskLogQuery { selection: Selection::AllColumns, filters: vec![], order: Order::Unordered }
    );
    let count = TaskLogQueryBuilder::query_count();
    assert_eq!(
        count,
        TaskLogQuery { selection: Selection::Count, filters: vec![], order: Order::Unordered }
    );
}

#[test]
fn no_parameters_leave_out_deleted_records_only() {
    let query = QueryParamsTaskLog::default().query_filter(TaskLogQueryBuilder::query_count());
    assert_eq!(query.selection, Selection::Count);
    assert_eq!(
        query.filters,
        vec![Filter::StatusNotEqual(2), Filter::StatusNotEqual(2)]
    );
    assert_eq!(query.order, Order::IdDescending);
    assert_eq!(DELETED_STATUS, 2);
}

#[test]
fn every_parameter_becomes_a_condition_in_order() {
    let params = QueryParamsTaskLog {
        name: Some(String::from("back%")),
        description: Some(String::from("%disk%")),
        command: Some(String::from("tar%")),
        tag: Some(String::from("nightly")),
        task_id: Some(9),
        record_id: Some(91),
        status: Some(3),
        executor_processor_id: Some(4),
        per_page: 20,
        page: 1,
    };
    let query = params.query_filter(TaskLogQueryBuilder::query_all_columns());
    assert_eq!(query.selection, Selection::AllColumns);
    assert_eq!(query.order, Order::IdDescending);
    assert_eq!(
        query.filters,
        vec![
            Filter::StatusNotEqual(2),
            Filter::IdEqual(IdColumn::TaskId, 9),
            Filter::IdEqual(IdColumn::RecordId, 91),
            Filter::StatusEqual(3),
            Filter::Like(TextColumn::Name, String::from("back%")),
            Filter::Like(TextColumn::Description, String::from("%disk%")),
            Filter::Like(TextColumn::Command, String::from("tar%")),
            Filter::Like(TextColumn::Tag, String::from("nightly")),
        ]
    );
}

#[test]
fn conditions_are_put_behind_those_of_the_query() {
    let start = TaskLogQuery {
        selection: Selection::AllColumns,
        filters: vec![Filter::IdEqual(IdColumn::TaskId, 1)],
        order: Order::Unordered,
    };
    let params = QueryParamsTaskLog { record_id: Some(5), ..QueryParamsTaskLog::default() };
    let query = params.query_filter(start);
    assert_eq!(
        query.filters,
        vec![
            Filter::IdEqual(IdColumn::TaskId, 1),
            Filter::StatusNotEqual(2),
            Filter::IdEqual(IdColumn::RecordId, 5),
            Filter::StatusNotEqual(2),
        ]
    );
}

#[test]
fn pages_are_set() {
    let page = PaginateTaskLogs::default();
    assert_eq!(page.per_page, 0);
    assert_eq!(page.total_page, 0);
    assert!(page.task_logs.is_empty());
    let page = page.set_task_logs(vec![stored(1), stored(2)]).set_per_page(2).set_total_page(5);
    assert_eq!(page.task_logs, vec![stored(1), stored(2)]);
    assert_eq!(page.per_page, 2);
    assert_eq!(page.total_page, 3);
}

fn pages(total: i64, per_page: i64) -> i64 {
    PaginateTaskLogs::default().set_per_page(per_page).set_total_page(total).total_page
}

#[test]
fn pages_are_rounded_up() {
    assert_eq!(pages(0, 10), 0);
    assert_eq!(pages(1, 10), 1);
    assert_eq!(pages(9, 3), 3);
    assert_eq!(pages(10, 3), 4);
    assert_eq!(pages(11, 3), 4);
    assert_eq!(pages(12, 3), 4);
    assert_eq!(pages(13, 3), 5);
    assert_eq!(pages(7, 1), 7);
    assert_eq!(pages(i64::MAX, 1), i64::MAX);
    assert_eq!(pages(i64::MAX, 2), (i64::MAX / 2) + 1);
    assert_eq!(pages(i64::MAX, i64::MAX), 1);
    assert_eq!(pages(9_007_199_254_740_991, 9_007_199_254_740_990), 2);
}

#[test]
fn pages_without_a_page_size() {
    assert_eq!(pages(0, 0), 0);
    assert_eq!(pages(1, 0), i64::MAX);
    assert_eq!(pages(-1, 0), i64::MIN);
}

#[test]
fn pages_of_negative_numbers() {
    assert_eq!(pages(-10, 3), -3);
    assert_eq!(pages(-9, 3), -3);
    assert_eq!(pages(-1, 3), 0);
    assert_eq!(pages(10, -3), -3);
    assert_eq!(pages(-10, -3), 4);
    assert_eq!(pages(i64::MIN, 1), i64::MIN);
    assert_eq!(pages(i64::MIN, -1), i64::MAX);
    assert_eq!(pages(i64::MIN, i64::MIN), 1);
    assert_eq!(pages(i64::MAX, i64::MIN), 0);
}
