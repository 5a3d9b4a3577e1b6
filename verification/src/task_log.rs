//! The log of task runs: the records that are made from what executors
//! report, and the rules by which a batch of reports is taken in.

use crate::event::authentic;
use crate::event::event_views;
use crate::event::EventView;
use crate::event::ExecutorEvent;
use crate::event::ExecutorEventCollection;
use crate::event::FinishOutput;
use crate::event::OutputView;
use crate::keys::PublicKey;
use crate::lifecycle::classify_code;
use crate::lifecycle::event_type_of;
use crate::lifecycle::state_code;
use crate::lifecycle::state_of;
use crate::security::SecurityConf;
use vstd::prelude::*;
use vstd::utf8::decode_utf8;
use vstd::utf8::valid_utf8;

verus! {

/// A record of a task run that is about to be stored.
///
/// The fields that describe the task itself are left empty here: they are
/// known to the store, not to the executor that reports.
#[derive(Debug, Clone, PartialEq, Eq)]
pub struct NewTaskLog {
    pub task_id: i64,
    /// The run that the record belongs to. An event that is not yet tied to a
    /// run has none, and the record says so: no number is made up for it.
    pub record_id: Option<i64>,
    pub name: String,
    pub description: String,
    pub command: String,
    pub frequency: String,
    pub cron_expression: String,
    pub maximun_parallel_runable_num: i16,
    pub tag: String,
    pub status: i16,
    pub created_time: i64,
    pub executor_processor_id: i64,
    pub executor_processor_name: String,
    /// The host of the executor, as the text under which it reported: an
    /// address with a port is no number.
    pub executor_processor_host: String,
    pub stdout: Option<String>,
    pub stderr: Option<String>,
}

/// A record of a task run as it is stored.
#[derive(Debug, Clone, PartialEq, Eq)]
pub struct TaskLog {
    pub id: i64,
    pub task_id: i64,
    /// The run that the record belongs to; zero where it was stored without one.
    pub record_id: i64,
    pub name: String,
    pub description: String,
    pub command: String,
    pub frequency: String,
    pub cron_expression: String,
    pub maximun_parallel_runable_num: i16,
    pub tag: String,
    pub status: i16,
    pub created_time: i64,
    pub executor_processor_id: i64,
    pub executor_processor_name: String,
    /// The host of the executor, as the text that was stored with the record.
    pub executor_processor_host: String,
    pub stdout: String,
    pub stderr: String,
}

/// What a new record holds.
pub ghost struct TaskLogView {
    pub task_id: i64,
    pub record_id: Option<i64>,
    pub name: Seq<char>,
    pub description: Seq<char>,
    pub command: Seq<char>,
    pub frequency: Seq<char>,
    pub cron_expression: Seq<char>,
    pub maximun_parallel_runable_num: i16,
    pub tag: Seq<char>,
    pub status: i16,
    pub created_time: i64,
    pub executor_processor_id: i64,
    pub executor_processor_name: Seq<char>,
    pub executor_processor_host: Seq<char>,
    pub stdout: Option<Seq<char>>,
    pub stderr: Option<Seq<char>>,
}

/// The characters of a text, if there is one.
pub open spec fn text_view(text: Option<String>) -> Option<Seq<char>> {
    match text {
        Some(t) => Some(t@),
        None => None,
    }
}

impl View for NewTaskLog {
    type V = TaskLogView;

    open spec fn view(&self) -> TaskLogView {
        TaskLogView {
            task_id: self.task_id,
            record_id: self.record_id,
            name: self.name@,
            description: self.description@,
            command: self.command@,
            frequency: self.frequency@,
            cron_expression: self.cron_expression@,
            maximun_parallel_runable_num: self.maximun_parallel_runable_num,
            tag: self.tag@,
            status: self.status,
            created_time: self.created_time,
            executor_processor_id: self.executor_processor_id,
            executor_processor_name: self.executor_processor_name@,
            executor_processor_host: self.executor_processor_host@,
            stdout: text_view(self.stdout),
            stderr: text_view(self.stderr),
        }
    }
}

/// The text that bytes are read as when they are not valid UTF-8.
pub uninterp spec fn utf8_lossy(bytes: Seq<u8>) -> Seq<char>;

/// The text that captured bytes are read as: the text they encode where they
/// are valid UTF-8, and a text with replacement characters where not.
pub open spec fn captured_text(bytes: Seq<u8>) -> Seq<char> {
    if valid_utf8(bytes) {
        decode_utf8(bytes)
    } else {
        utf8_lossy(bytes)
    }
}

/// Calls `String::from_utf8_lossy`, which keeps valid UTF-8 as it is and puts
/// a replacement character where the bytes are not valid; what comes out for
/// invalid bytes is named here and not spelled out.
#[verifier::external_body]
fn read_lossy(bytes: &[u8]) -> (text: String)
    ensures
        valid_utf8(bytes@) ==> text@ == decode_utf8(bytes@),
        !valid_utf8(bytes@) ==> text@ == utf8_lossy(bytes@),
{
    String::from_utf8_lossy(bytes).into_owned()
}

/// What the process wrote to its standard output, as text.
pub open spec fn stdout_of(output: Option<OutputView>) -> Option<Seq<char>> {
    match output {
        None => None,
        Some(OutputView::Process { status, stdout, stderr }) => Some(captured_text(stdout)),
        Some(OutputView::Exception { message }) => Some(Seq::empty()),
    }
}

/// What the process wrote to its standard error, as text; where there was no
/// process, the reason why.
pub open spec fn stderr_of(output: Option<OutputView>) -> Option<Seq<char>> {
    match output {
        None => None,
        Some(OutputView::Process { status, stdout, stderr }) => Some(captured_text(stderr)),
        Some(OutputView::Exception { message }) => Some(message),
    }
}

/// The code of the lifecycle state that a raw event code leads to.
pub open spec fn status_of(event_type: i64) -> i16 {
    state_code(state_of(event_type_of(event_type as int)))
}

/// The record that is made from an event at a given time.
pub open spec fn record_of(event: EventView, created_time: i64) -> TaskLogView {
    TaskLogView {
        task_id: event.task_id,
        record_id: event.record_id,
        name: Seq::empty(),
        description: Seq::empty(),
        command: Seq::empty(),
        frequency: Seq::empty(),
        cron_expression: Seq::empty(),
        maximun_parallel_runable_num: 0,
        tag: Seq::empty(),
        status: status_of(event.event_type),
        created_time,
        executor_processor_id: event.executor_processor_id,
        executor_processor_name: event.executor_processor_name,
        executor_processor_host: event.executor_processor_host,
        stdout: stdout_of(event.output),
        stderr: stderr_of(event.output),
    }
}

/// The records that are made from a list of events, one for each and in the
/// same order.
pub open spec fn records_of(events: Seq<EventView>, created_time: i64) -> Seq<TaskLogView> {
    Seq::new(events.len(), |i: int| record_of(events[i], created_time))
}

/// What the records of a list hold.
pub open spec fn record_views(records: Seq<NewTaskLog>) -> Seq<TaskLogView> {
    Seq::new(records.len(), |i: int| records[i]@)
}

impl NewTaskLog {
    /// The record of an event, made at `created_time`. The state is that of
    /// the event's code; what the process wrote is read as text, and bytes
    /// that are no text are replaced, never trusted.
    pub fn from(event: ExecutorEvent, created_time: i64) -> (record: NewTaskLog)
        ensures
            record@ == record_of(event@, created_time),
    {
        let ExecutorEvent {
            task_id,
            record_id,
            event_type,
            executor_processor_id,
            executor_processor_name,
            executor_processor_host,
            output,
        } = event;
        let mut stdout: Option<String> = None;
        let mut stderr: Option<String> = None;
        match output {
            Some(FinishOutput::ProcessOutput(child)) => {
                stdout = Some(read_lossy(child.child_stdout.as_slice()));
                stderr = Some(read_lossy(child.child_stderr.as_slice()));
            },
            Some(FinishOutput::ExceptionOutput(exception_output)) => {
                stdout = Some(String::new());
                stderr = Some(exception_output);
            },
            None => {},
        }
        let status = classify_code(event_type).code();
        NewTaskLog {
            task_id,
            record_id,
            name: String::new(),
            description: String::new(),
            command: String::new(),
            frequency: String::new(),
            cron_expression: String::new(),
            maximun_parallel_runable_num: 0,
            tag: String::new(),
            status,
            created_time,
            executor_processor_id,
            executor_processor_name,
            executor_processor_host,
            stdout,
            stderr,
        }
    }
}

/// The records of the events of a list, made at `created_time`: one for each
/// event, in the order of the events.
pub fn task_logs_of(events: Vec<ExecutorEvent>, created_time: i64) -> (records: Vec<NewTaskLog>)
    ensures
        record_views(records@) == records_of(event_views(events@), created_time),
{
    let ghost all = event_views(events@);
    let mut rest = events;
    let mut reversed: Vec<NewTaskLog> = Vec::new();
    while rest.len() > 0
        invariant
            rest@.len() + reversed@.len() == all.len(),
            event_views(rest@) == all.take(rest@.len() as int),
            forall|j: int|
                0 <= j < reversed@.len() ==> (#[trigger] reversed@[j])@ == record_of(
                    all[all.len() - 1 - j],
                    created_time,
                ),
        decreases rest@.len(),
    {
        let ghost before = rest@;
        let event = rest.pop().unwrap();
        proof {
            assert(event@ == event_views(before)[before.len() - 1]);
            assert(event_views(rest@) =~= all.take(rest@.len() as int));
        }
        reversed.push(NewTaskLog::from(event, created_time));
    }
    let mut records: Vec<NewTaskLog> = Vec::new();
    while reversed.len() > 0
        invariant
            records@.len() + reversed@.len() == all.len(),
            forall|j: int|
                0 <= j < reversed@.len() ==> (#[trigger] reversed@[j])@ == record_of(
                    all[all.len() - 1 - j],
                    created_time,
                ),
            forall|j: int|
                0 <= j < records@.len() ==> (#[trigger] records@[j])@ == record_of(
                    all[j],
                    created_time,
                ),
        decreases reversed@.len(),
    {
        let record = reversed.pop().unwrap();
        records.push(record);
    }
    assert(record_views(records@) =~= records_of(all, created_time));
    records
}

/// Why a batch was not taken in.
#[derive(Debug, Copy, Clone, PartialEq, Eq, Structural)]
pub enum IngestError {
    /// The signature is not the sender's signature of the batch.
    Unauthenticated,
    /// The batch was signed too long ago, or too far in the future.
    StaleBatch,
    /// The store did not take the records; the sender may send the batch again.
    PersistenceFailed,
}

/// What the store says when it did not take a batch of records.
#[derive(Debug, Copy, Clone, PartialEq, Eq, Structural)]
pub struct StorageFailure;

/// Whether a timestamp is no further than `skew_window` from `now`, in
/// either direction.
pub open spec fn fresh(timestamp: i64, now: i64, skew_window: i64) -> bool {
    now - skew_window <= timestamp <= now + skew_window
}

/// Whether a timestamp is no further than `skew_window` from `now`.
pub fn is_fresh(timestamp: i64, now: i64, skew_window: i64) -> (ok: bool)
    ensures
        ok == fresh(timestamp, now, skew_window),
{
    let low: i128 = now as i128 - skew_window as i128;
    let high: i128 = now as i128 + skew_window as i128;
    low <= timestamp as i128 && timestamp as i128 <= high
}

/// Decides on a batch once it is known whether its signature was accepted.
///
/// A batch whose signature was not accepted is refused whatever its age; a
/// batch that was accepted but was signed outside the window around `now` is
/// refused as stale. Otherwise there is one record for each event, in the
/// order of the events, made at `now`.
pub fn decide_ingest(
    authentic: bool,
    timestamp: i64,
    now: i64,
    skew_window: i64,
    events: Vec<ExecutorEvent>,
) -> (res: Result<Vec<NewTaskLog>, IngestError>)
    ensures
        match res {
            Ok(records) => {
                &&& authentic
                &&& fresh(timestamp, now, skew_window)
                &&& record_views(records@) == records_of(event_views(events@), now)
            },
            Err(IngestError::Unauthenticated) => !authentic,
            Err(IngestError::StaleBatch) => authentic && !fresh(timestamp, now, skew_window),
            Err(IngestError::PersistenceFailed) => false,
        },
{
    if !authentic {
        return Err(IngestError::Unauthenticated);
    }
    if !is_fresh(timestamp, now, skew_window) {
        return Err(IngestError::StaleBatch);
    }
    Ok(task_logs_of(events, now))
}

/// Takes a batch in: checks who sent it and when, and makes the records that
/// are to be stored, all of them in one transaction.
///
/// The signature is checked first, then the age: see [`decide_ingest`].
pub fn ingest(
    collection: ExecutorEventCollection,
    conf: &SecurityConf,
    sender_public_key: &PublicKey,
    now: i64,
    skew_window: i64,
) -> (res: Result<Vec<NewTaskLog>, IngestError>)
    ensures
        match res {
            Ok(records) => {
                &&& authentic(collection, conf.level(), *sender_public_key)
                &&& fresh(collection.timestamp, now, skew_window)
                &&& record_views(records@) == records_of(event_views(collection.events@), now)
            },
            Err(IngestError::Unauthenticated) => !authentic(
                collection,
                conf.level(),
                *sender_public_key,
            ),
            Err(IngestError::StaleBatch) => {
                &&& authentic(collection, conf.level(), *sender_public_key)
                &&& !fresh(collection.timestamp, now, skew_window)
            },
            Err(IngestError::PersistenceFailed) => false,
        },
{
    let accepted = collection.is_authentic(conf, sender_public_key);
    decide_ingest(accepted, collection.timestamp, now, skew_window, collection.events)
}

/// How many records of a batch count as stored, given what the store said.
pub open spec fn stored_count(
    handed_over: nat,
    outcome: Result<usize, StorageFailure>,
) -> Result<usize, IngestError> {
    match outcome {
        Ok(count) => if count <= handed_over {
            Ok(count)
        } else {
            Err(IngestError::PersistenceFailed)
        },
        Err(_) => Err(IngestError::PersistenceFailed),
    }
}

/// Ends the taking in of a batch with what the store said of the records that
/// were handed to it. A store that failed, or that claims more records than
/// it was given, has stored nothing that counts.
pub fn conclude_ingest(
    handed_over: usize,
    outcome: Result<usize, StorageFailure>,
) -> (res: Result<usize, IngestError>)
    ensures
        res == stored_count(handed_over as nat, outcome),
{
    match outcome {
        Ok(count) => {
            if count <= handed_over {
                Ok(count)
            } else {
                Err(IngestError::PersistenceFailed)
            }
        },
        Err(_) => Err(IngestError::PersistenceFailed),
    }
}

/// A batch that is taken in gives as many records as it has events, and each
/// record has the state that its event's code leads to.
pub proof fn lemma_one_record_per_event(events: Seq<EventView>, created_time: i64, i: int)
    requires
        0 <= i < events.len(),
    ensures
        records_of(events, created_time).len() == events.len(),
        records_of(events, created_time)[i].status == status_of(events[i].event_type),
        records_of(events, created_time)[i].task_id == events[i].task_id,
        records_of(events, created_time)[i].created_time == created_time,
{
}

} // verus!
