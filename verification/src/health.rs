//! What the scheduler believes about which executors can be reached.
//!
//! The probing itself is done elsewhere; this module decides whom to probe
//! together, and what each result of a probe does to the table.

use vstd::prelude::*;

verus! {

/// What is believed of one executor.
#[derive(Debug, Copy, Clone, PartialEq, Eq, Structural)]
pub struct LivenessRecord {
    pub processor_id: i64,
    pub last_probe_time: i64,
    pub reachable: bool,
    pub consecutive_failures: u32,
}

/// How a probe ended.
#[derive(Debug, Copy, Clone, PartialEq, Eq, Structural)]
pub enum ProbeOutcome {
    /// The executor answered.
    Responded,
    /// The executor did not answer in time, refused, or answered wrongly.
    Failed,
}

/// One more failure, counted as far as the counter goes.
pub open spec fn one_more(failures: u32) -> u32 {
    if failures < u32::MAX {
        (failures + 1) as u32
    } else {
        failures
    }
}

/// What is believed of an executor that has just been registered.
pub open spec fn fresh_record(processor_id: i64, now: i64) -> LivenessRecord {
    LivenessRecord { processor_id, last_probe_time: now, reachable: true, consecutive_failures: 0 }
}

/// What is believed of an executor after a probe. An answer clears the
/// failures; a failure is counted, and once the count has reached the
/// threshold the executor is no longer believed to be reachable.
pub open spec fn after_probe(
    record: LivenessRecord,
    outcome: ProbeOutcome,
    now: i64,
    failure_threshold: u32,
) -> LivenessRecord {
    match outcome {
        ProbeOutcome::Responded => LivenessRecord {
            processor_id: record.processor_id,
            last_probe_time: now,
            reachable: true,
            consecutive_failures: 0,
        },
        ProbeOutcome::Failed => LivenessRecord {
            processor_id: record.processor_id,
            last_probe_time: now,
            reachable: record.reachable && one_more(record.consecutive_failures)
                < failure_threshold,
            consecutive_failures: one_more(record.consecutive_failures),
        },
    }
}

/// What is believed of an executor after a number of failed probes in a row.
pub open spec fn after_failures(
    record: LivenessRecord,
    count: nat,
    now: i64,
    failure_threshold: u32,
) -> LivenessRecord
    decreases count,
{
    if count == 0 {
        record
    } else {
        after_probe(
            after_failures(record, (count - 1) as nat, now, failure_threshold),
            ProbeOutcome::Failed,
            now,
            failure_threshold,
        )
    }
}

/// An executor that could be reached and then fails probe after probe has
/// each failure counted, and is believed to be reachable exactly as long as
/// the count is below the threshold.
pub proof fn lemma_failures_accumulate(
    record: LivenessRecord,
    count: nat,
    now: i64,
    failure_threshold: u32,
)
    requires
        record.reachable,
        record.consecutive_failures == 0,
        count <= u32::MAX,
    ensures
        after_failures(record, count, now, failure_threshold).consecutive_failures == count,
        after_failures(record, count, now, failure_threshold).reachable == (count == 0 || count
            < failure_threshold),
        after_failures(record, count, now, failure_threshold).processor_id == record.processor_id,
    decreases count,
{
    if count > 0 {
        lemma_failures_accumulate(record, (count - 1) as nat, now, failure_threshold);
    }
}

/// An executor that answers is believed to be reachable, whatever was
/// believed of it before.
pub proof fn lemma_answer_restores(record: LivenessRecord, now: i64, failure_threshold: u32)
    ensures
        after_probe(record, ProbeOutcome::Responded, now, failure_threshold).reachable,
        after_probe(record, ProbeOutcome::Responded, now, failure_threshold).consecutive_failures
            == 0,
{
}

/// The result of a probe of one executor changes nothing of what is believed
/// of another: an executor that cannot be reached does not stand in the way
/// of the rest.
pub proof fn lemma_probe_touches_one(
    records: Seq<LivenessRecord>,
    probed: int,
    other: int,
    outcome: ProbeOutcome,
    now: i64,
    failure_threshold: u32,
)
    requires
        0 <= probed < records.len(),
        0 <= other < records.len(),
        other != probed,
    ensures
        records.update(probed, after_probe(records[probed], outcome, now, failure_threshold))[other]
            == records[other],
        records.update(
            probed,
            after_probe(records[probed], outcome, now, failure_threshold),
        ).len() == records.len(),
{
}

/// Where in a table the record of an executor stands, if it has one.
pub open spec fn position(records: Seq<LivenessRecord>, processor_id: i64) -> Option<int> {
    if exists|i: int| 0 <= i < records.len() && (#[trigger] records[i]).processor_id == processor_id {
        Some(
            choose|i: int|
                0 <= i < records.len() && (#[trigger] records[i]).processor_id == processor_id,
        )
    } else {
        None
    }
}

/// No two records of a table are of the same executor.
pub open spec fn distinct_ids(records: Seq<LivenessRecord>) -> bool {
    forall|i: int, j: int|
        0 <= i < j < records.len() ==> (#[trigger] records[i]).processor_id != (
        #[trigger] records[j]).processor_id
}

/// An executor is only believed to be out of reach once its failures have
/// reached the threshold.
pub open spec fn believable(record: LivenessRecord, failure_threshold: u32) -> bool {
    !record.reachable ==> record.consecutive_failures >= failure_threshold
}

/// What holds of every table: one record for each executor, and none given
/// up before its failures reached the threshold.
pub open spec fn sound_table(records: Seq<LivenessRecord>, failure_threshold: u32) -> bool {
    &&& distinct_ids(records)
    &&& forall|i: int|
        0 <= i < records.len() ==> believable(#[trigger] records[i], failure_threshold)
}

/// The ids of the records of a table, in the order of the table.
pub open spec fn ids_of(records: Seq<LivenessRecord>) -> Seq<i64> {
    Seq::new(records.len(), |i: int| records[i].processor_id)
}

/// The table of what is believed of each registered executor.
#[derive(Debug)]
pub struct HealthCheck {
    table: Vec<LivenessRecord>,
    failure_threshold: u32,
    fan_out: usize,
}

/// Starts the health check with no executor registered. At most `fan_out`
/// executors are probed together, and at least one.
pub fn launch_health_check(failure_threshold: u32, fan_out: usize) -> (check: HealthCheck)
    ensures
        check.records().len() == 0,
        check.threshold() == failure_threshold,
        check.width() == if fan_out == 0 {
            1
        } else {
            fan_out
        },
{
    HealthCheck {
        table: Vec::new(),
        failure_threshold,
        fan_out: if fan_out == 0 {
            1
        } else {
            fan_out
        },
    }
}

impl HealthCheck {
    #[verifier::type_invariant]
    spec fn well_formed(self) -> bool {
        &&& sound_table(self.table@, self.failure_threshold)
        &&& self.fan_out >= 1
    }

    /// The records of the table, in the order in which the executors were registered.
    pub closed spec fn records(self) -> Seq<LivenessRecord> {
        self.table@
    }

    /// The number of failures in a row at which an executor is given up.
    pub closed spec fn threshold(self) -> u32 {
        self.failure_threshold
    }

    /// How many executors are probed together at most.
    pub closed spec fn width(self) -> usize {
        self.fan_out
    }

    /// Takes the records out, leaving a table without any.
    fn take_table(&mut self) -> (table: Vec<LivenessRecord>)
        ensures
            table == old(self).table,
            final(self).table@.len() == 0,
            final(self).failure_threshold == old(self).failure_threshold,
            final(self).fan_out == old(self).fan_out,
    {
        proof {
            use_type_invariant(&*self);
        }
        let mut held = HealthCheck {
            table: Vec::new(),
            failure_threshold: self.failure_threshold,
            fan_out: self.fan_out,
        };
        std::mem::swap(self, &mut held);
        let HealthCheck { table, failure_threshold: _, fan_out: _ } = held;
        table
    }

    /// Puts records into a table that has none.
    fn put_table(&mut self, table: Vec<LivenessRecord>)
        requires
            sound_table(table@, old(self).failure_threshold),
        ensures
            final(self).table == table,
            final(self).failure_threshold == old(self).failure_threshold,
            final(self).fan_out == old(self).fan_out,
    {
        proof {
            use_type_invariant(&*self);
        }
        *self = HealthCheck {
            table,
            failure_threshold: self.failure_threshold,
            fan_out: self.fan_out,
        };
    }

    fn find(&self, processor_id: i64) -> (found: Option<usize>)
        ensures
            match found {
                Some(i) => i < self.table@.len() && self.table@[i as int].processor_id
                    == processor_id,
                None => forall|i: int|
                    0 <= i < self.table@.len() ==> (#[trigger] self.table@[i]).processor_id
                        != processor_id,
            },
    {
        let mut i: usize = 0;
        while i < self.table.len()
            invariant
                i <= self.table@.len(),
                forall|j: int|
                    0 <= j < i ==> (#[trigger] self.table@[j]).processor_id != processor_id,
            decreases self.table@.len() - i,
        {
            if self.table[i].processor_id == processor_id {
                return Some(i);
            }
            i += 1;
        }
        None
    }

    /// Registers an executor, which is believed to be reachable until probes
    /// say otherwise. An executor that is registered already keeps its record.
    pub fn register(&mut self, processor_id: i64, now: i64) -> (added: bool)
        ensures
            final(self).threshold() == old(self).threshold(),
            final(self).width() == old(self).width(),
            sound_table(old(self).records(), old(self).threshold()),
            sound_table(final(self).records(), final(self).threshold()),
            added == (position(old(self).records(), processor_id) is None),
            added ==> final(self).records() == old(self).records().push(
                fresh_record(processor_id, now),
            ),
            !added ==> final(self).records() == old(self).records(),
    {
        proof {
            use_type_invariant(&*self);
        }
        match self.find(processor_id) {
            Some(_) => false,
            None => {
                let mut table = self.take_table();
                table.push(
                    LivenessRecord {
                        processor_id,
                        last_probe_time: now,
                        reachable: true,
                        consecutive_failures: 0,
                    },
                );
                self.put_table(table);
                true
            },
        }
    }

    /// Takes an executor off the table. The records of the others stay as
    /// they are, in their order.
    pub fn unregister(&mut self, processor_id: i64) -> (removed: Option<LivenessRecord>)
        ensures
            final(self).threshold() == old(self).threshold(),
            final(self).width() == old(self).width(),
            sound_table(old(self).records(), old(self).threshold()),
            sound_table(final(self).records(), final(self).threshold()),
            match position(old(self).records(), processor_id) {
                Some(i) => removed == Some(old(self).records()[i]) && final(self).records() == old(
                    self,
                ).records().remove(i),
                None => removed is None && final(self).records() == old(self).records(),
            },
    {
        proof {
            use_type_invariant(&*self);
        }
        match self.find(processor_id) {
            Some(i) => {
                let mut table = self.take_table();
                let record = table.remove(i);
                self.put_table(table);
                Some(record)
            },
            None => None,
        }
    }

    /// Takes in the result of one probe. Only the record of the probed
    /// executor changes; the result of a probe of an executor that is not
    /// registered changes nothing.
    pub fn record_probe(
        &mut self,
        processor_id: i64,
        outcome: ProbeOutcome,
        now: i64,
    ) -> (updated: Option<LivenessRecord>)
        ensures
            final(self).threshold() == old(self).threshold(),
            final(self).width() == old(self).width(),
            sound_table(old(self).records(), old(self).threshold()),
            sound_table(final(self).records(), final(self).threshold()),
            match position(old(self).records(), processor_id) {
                Some(i) => {
                    &&& updated == Some(
                        after_probe(old(self).records()[i], outcome, now, old(self).threshold()),
                    )
                    &&& final(self).records() == old(self).records().update(i, updated.unwrap())
                },
                None => updated is None && final(self).records() == old(self).records(),
            },
    {
        proof {
            use_type_invariant(&*self);
        }
        match self.find(processor_id) {
            Some(i) => {
                let record = self.table[i];
                let next = match outcome {
                    ProbeOutcome::Responded => LivenessRecord {
                        processor_id: record.processor_id,
                        last_probe_time: now,
                        reachable: true,
                        consecutive_failures: 0,
                    },
                    ProbeOutcome::Failed => {
                        let failures: u32 = if record.consecutive_failures < u32::MAX {
                            record.consecutive_failures + 1
                        } else {
                            record.consecutive_failures
                        };
                        LivenessRecord {
                            processor_id: record.processor_id,
                            last_probe_time: now,
                            reachable: record.reachable && failures < self.failure_threshold,
                            consecutive_failures: failures,
                        }
                    },
                };
                let mut table = self.take_table();
                table.set(i, next);
                self.put_table(table);
                Some(next)
            },
            None => None,
        }
    }

    /// What is believed of an executor, if it is registered.
    pub fn liveness(&self, processor_id: i64) -> (record: Option<LivenessRecord>)
        ensures
            sound_table(self.records(), self.threshold()),
            match position(self.records(), processor_id) {
                Some(i) => record == Some(self.records()[i]),
                None => record is None,
            },
    {
        proof {
            use_type_invariant(self);
        }
        match self.find(processor_id) {
            Some(i) => Some(self.table[i]),
            None => None,
        }
    }

    /// The whole table, for those who report on it.
    pub fn snapshot(&self) -> (records: Vec<LivenessRecord>)
        ensures
            records@ == self.records(),
            sound_table(records@, self.threshold()),
    {
        proof {
            use_type_invariant(self);
        }
        self.table.clone()
    }

    /// The executors to probe in one round, in groups that are probed
    /// together: every registered executor once, in the order of the table.
    /// Every group is as large as the width of the check, but the last, which
    /// holds what is left.
    pub fn probe_batches(&self) -> (batches: Vec<Vec<i64>>)
        ensures
            flattened(batch_views(batches@)) == ids_of(self.records()),
            forall|b: int|
                0 <= b < batches@.len() ==> 1 <= (#[trigger] batches@[b])@.len() <= self.width(),
            forall|b: int|
                0 <= b < batches@.len() - 1 ==> (#[trigger] batches@[b])@.len() == self.width(),
    {
        proof {
            use_type_invariant(self);
        }
        let mut batches: Vec<Vec<i64>> = Vec::new();
        let mut current: Vec<i64> = Vec::new();
        let mut i: usize = 0;
        while i < self.table.len()
            invariant
                i <= self.table@.len(),
                self.fan_out >= 1,
                current@.len() < self.fan_out,
                flattened(batch_views(batches@)) + current@ == ids_of(self.table@).take(i as int),
                forall|b: int|
                    0 <= b < batches@.len() ==> (#[trigger] batches@[b])@.len() == self.fan_out,
            decreases self.table@.len() - i,
        {
            let ghost done = flattened(batch_views(batches@));
            current.push(self.table[i].processor_id);
            i += 1;
            proof {
                assert(ids_of(self.table@).take(i as int) =~= ids_of(self.table@).take(i - 1).push(
                    self.table@[i - 1].processor_id,
                ));
                assert(done + current@ =~= ids_of(self.table@).take(i as int));
            }
            if current.len() == self.fan_out {
                let ghost full = current@;
                let ghost groups = batch_views(batches@);
                batches.push(current);
                current = Vec::new();
                proof {
                    assert(batch_views(batches@) =~= groups.push(full));
                    assert(batch_views(batches@).drop_last() =~= groups);
                    assert(flattened(batch_views(batches@)) + current@ =~= done + full);
                }
            }
        }
        proof {
            assert(ids_of(self.table@).take(i as int) =~= ids_of(self.table@));
        }
        if current.len() > 0 {
            let ghost last = current@;
            let ghost groups = batch_views(batches@);
            batches.push(current);
            proof {
                assert(batch_views(batches@) =~= groups.push(last));
                assert(batch_views(batches@).drop_last() =~= groups);
            }
        } else {
            assert(flattened(batch_views(batches@)) + current@ =~= flattened(
                batch_views(batches@),
            ));
        }
        batches
    }
}

/// The groups of a list, as sequences.
pub open spec fn batch_views(batches: Seq<Vec<i64>>) -> Seq<Seq<i64>> {
    Seq::new(batches.len(), |i: int| batches[i]@)
}

/// The members of the groups of a list, one group after the other.
pub open spec fn flattened(groups: Seq<Seq<i64>>) -> Seq<i64>
    decreases groups.len(),
{
    if groups.len() == 0 {
        Seq::empty()
    } else {
        flattened(groups.drop_last()) + groups.last()
    }
}

} // verus!
