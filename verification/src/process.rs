//! A mirror of the processes of the machine: the last sample and the one
//! before it, and what changed between the two.
//!
//! Sampling the machine is done elsewhere. A sample is a list in which a
//! process that could not be read stands as nothing; such a process is
//! skipped and the rest of the sample counts.

use std::collections::HashMap;
use vstd::prelude::*;
use vstd::std_specs::hash::spec_keys_iter;
use vstd::std_specs::iter::IteratorSpec;

verus! {

/// What is known of one process. The use of the processor is held as the bit
/// pattern of the sampled 32-bit number, so that two samples can be told apart exactly.
#[derive(Debug, Clone, Default, PartialEq, Eq)]
pub struct Process {
    pub name: String,
    pub cmd: Vec<String>,
    pub exe: String,
    pub pid: usize,
    pub memory: u64,
    pub virtual_memory: u64,
    pub parent: Option<usize>,
    pub start_time: u64,
    pub cpu_usage: u32,
}

/// What happened to a process between two samples.
#[derive(Debug, Copy, Clone, PartialEq, Eq, Structural)]
pub enum ProcessChange {
    /// The process is in the later sample only.
    Added(usize),
    /// The process is in the earlier sample only.
    Removed(usize),
    /// The process is in both, and uses memory or processor differently.
    Updated(usize),
}

/// The process that a change is about.
pub open spec fn pid_of(change: ProcessChange) -> usize {
    match change {
        ProcessChange::Added(pid) => pid,
        ProcessChange::Removed(pid) => pid,
        ProcessChange::Updated(pid) => pid,
    }
}

/// Whether a process uses memory or processor differently in two samples.
pub open spec fn usage_changed(before: Process, after: Process) -> bool {
    before.memory != after.memory || before.virtual_memory != after.virtual_memory
        || before.cpu_usage != after.cpu_usage
}

/// What happened to the process with a pid between two samples, if anything.
pub open spec fn change_of(
    previous: Map<usize, Process>,
    current: Map<usize, Process>,
    pid: usize,
) -> Option<ProcessChange> {
    if current.contains_key(pid) {
        if !previous.contains_key(pid) {
            Some(ProcessChange::Added(pid))
        } else if usage_changed(previous[pid], current[pid]) {
            Some(ProcessChange::Updated(pid))
        } else {
            None
        }
    } else if previous.contains_key(pid) {
        Some(ProcessChange::Removed(pid))
    } else {
        None
    }
}

/// The processes of a sample by their pid. A process that could not be read
/// is skipped; of two with the same pid the later one counts.
pub open spec fn sampled(samples: Seq<Option<Process>>) -> Map<usize, Process>
    decreases samples.len(),
{
    if samples.len() == 0 {
        Map::empty()
    } else {
        match samples.last() {
            Some(process) => sampled(samples.drop_last()).insert(process.pid, process),
            None => sampled(samples.drop_last()),
        }
    }
}

/// Every process of a sample stands under its own pid.
pub proof fn lemma_sampled_by_pid(samples: Seq<Option<Process>>, pid: usize)
    requires
        sampled(samples).contains_key(pid),
    ensures
        sampled(samples)[pid].pid == pid,
        exists|i: int| 0 <= i < samples.len() && samples[i] == Some(sampled(samples)[pid]),
    decreases samples.len(),
{
    if samples.len() > 0 {
        match samples.last() {
            Some(process) => {
                if process.pid == pid {
                    assert(samples[samples.len() - 1] == Some(sampled(samples)[pid]));
                } else {
                    lemma_sampled_by_pid(samples.drop_last(), pid);
                    let i = choose|i: int|
                        0 <= i < samples.drop_last().len() && samples.drop_last()[i] == Some(
                            sampled(samples.drop_last())[pid],
                        );
                    assert(samples[i] == Some(sampled(samples)[pid]));
                }
            },
            None => {
                lemma_sampled_by_pid(samples.drop_last(), pid);
                let i = choose|i: int|
                    0 <= i < samples.drop_last().len() && samples.drop_last()[i] == Some(
                        sampled(samples.drop_last())[pid],
                    );
                assert(samples[i] == Some(sampled(samples)[pid]));
            },
        }
    }
}

/// The processes of one sample, by pid.
#[derive(Debug)]
pub struct Processes {
    inner: HashMap<usize, Process>,
}

impl View for Processes {
    type V = Map<usize, Process>;

    closed spec fn view(&self) -> Map<usize, Process> {
        self.inner@
    }
}

impl Processes {
    /// No processes at all.
    pub fn new() -> (processes: Processes)
        ensures
            processes@ == Map::<usize, Process>::empty(),
    {
        Processes { inner: HashMap::new() }
    }

    /// The processes of a sample, by pid.
    pub fn from(samples: Vec<Option<Process>>) -> (processes: Processes)
        ensures
            processes@ == sampled(samples@),
    {
        broadcast use vstd::std_specs::hash::group_hash_axioms;

        let ghost all = samples@;
        let mut rest = samples;
        let mut reversed: Vec<Option<Process>> = Vec::new();
        while rest.len() > 0
            invariant
                rest@.len() + reversed@.len() == all.len(),
                rest@ == all.take(rest@.len() as int),
                forall|j: int|
                    0 <= j < reversed@.len() ==> #[trigger] reversed@[j] == all[all.len() - 1 - j],
            decreases rest@.len(),
        {
            let sample = rest.pop().unwrap();
            reversed.push(sample);
            assert(rest@ =~= all.take(rest@.len() as int));
        }
        let mut inner: HashMap<usize, Process> = HashMap::new();
        let ghost mut done: int = 0;
        assert(all.take(0) =~= Seq::<Option<Process>>::empty());
        while reversed.len() > 0
            invariant
                done + reversed@.len() == all.len(),
                0 <= done,
                forall|j: int|
                    0 <= j < reversed@.len() ==> #[trigger] reversed@[j] == all[all.len() - 1 - j],
                inner@ == sampled(all.take(done)),
            decreases reversed@.len(),
        {
            let sample = reversed.pop().unwrap();
            proof {
                assert(sample == all[done]);
                assert(all.take(done + 1).drop_last() =~= all.take(done));
                assert(all.take(done + 1).last() == all[done]);
                done = done + 1;
            }
            match sample {
                Some(process) => {
                    inner.insert(process.pid, process);
                },
                None => {},
            }
        }
        assert(all.take(done) =~= all);
        Processes { inner }
    }

    /// How many processes there are.
    pub fn len(&self) -> (len: usize)
        ensures
            len == self@.len(),
    {
        broadcast use vstd::std_specs::hash::group_hash_axioms;

        self.inner.len()
    }

    /// The process with a pid, if there is one.
    pub fn get(&self, pid: usize) -> (process: Option<&Process>)
        ensures
            match process {
                Some(p) => self@.contains_key(pid) && *p == self@[pid],
                None => !self@.contains_key(pid),
            },
    {
        broadcast use vstd::std_specs::hash::group_hash_axioms;

        self.inner.get(&pid)
    }

    /// The pids of the processes, each once, in no particular order.
    pub fn pids(&self) -> (pids: Vec<usize>)
        ensures
            pids@.no_duplicates(),
            forall|pid: usize| pids@.contains(pid) <==> self@.contains_key(pid),
    {
        broadcast use vstd::std_specs::hash::group_hash_axioms;

        let ghost keys: Seq<usize> = spec_keys_iter(&self.inner).remaining().unref();
        let mut pids: Vec<usize> = Vec::new();
        for pid in it: self.inner.keys()
            invariant
                pids@ =~= it.seq().unref().take(it.index()),
                it.seq().unref() == keys,
                keys.to_set() == self.inner@.dom(),
                it.seq().no_duplicates(),
        {
            pids.push(*pid);
        }
        proof {
            assert(pids@ =~= keys);
            assert forall|pid: usize| pids@.contains(pid) <==> self@.contains_key(pid) by {
                assert(keys.to_set().contains(pid) <==> keys.contains(pid));
            }
        }
        pids
    }
}

/// All that one sample of the machine holds.
#[derive(Debug)]
pub struct SystemSnapshot {
    pub processes: Processes,
}

/// The last sample of the machine and the one before it.
#[derive(Debug)]
pub struct SystemMirror {
    previous: SystemSnapshot,
    current: SystemSnapshot,
}

/// Whether a list of changes says what happened between two samples: every
/// change in it happened, everything that happened is in it, and no process
/// is in it twice.
pub open spec fn describes(
    changes: Seq<ProcessChange>,
    previous: Map<usize, Process>,
    current: Map<usize, Process>,
) -> bool {
    &&& forall|i: int|
        0 <= i < changes.len() ==> change_of(previous, current, pid_of(#[trigger] changes[i]))
            == Some(changes[i])
    &&& forall|pid: usize|
        (#[trigger] change_of(previous, current, pid)) is Some ==> changes.contains(
            change_of(previous, current, pid).unwrap(),
        )
    &&& forall|i: int, j: int|
        0 <= i < j < changes.len() ==> pid_of(#[trigger] changes[i]) != pid_of(
            #[trigger] changes[j],
        )
}

/// Whether the changes of a list stand in the order of their pids, each pid once.
pub open spec fn by_rising_pid(changes: Seq<ProcessChange>) -> bool {
    forall|i: int, j: int|
        0 <= i < j < changes.len() ==> pid_of(#[trigger] changes[i]) < pid_of(
            #[trigger] changes[j],
        )
}

/// A list of changes says what happened between two samples in one way only
/// when it goes by rising pid: two such lists are the same list.
pub proof fn lemma_one_description(
    first: Seq<ProcessChange>,
    second: Seq<ProcessChange>,
    previous: Map<usize, Process>,
    current: Map<usize, Process>,
)
    requires
        describes(first, previous, current),
        describes(second, previous, current),
        by_rising_pid(first),
        by_rising_pid(second),
    ensures
        first == second,
    decreases first.len(),
{
    if first.len() == 0 {
        if second.len() > 0 {
            assert(change_of(previous, current, pid_of(second[0])) is Some);
            assert(first.contains(second[0]));
        }
        assert(first =~= second);
    } else if second.len() == 0 {
        assert(change_of(previous, current, pid_of(first[0])) is Some);
        assert(second.contains(first[0]));
    } else {
        // The last of each list is the change with the highest pid.
        let a = first.last();
        let b = second.last();
        assert(change_of(previous, current, pid_of(a)) == Some(a));
        assert(change_of(previous, current, pid_of(b)) == Some(b));
        assert(second.contains(a));
        assert(first.contains(b));
        let ia = choose|i: int| 0 <= i < second.len() && second[i] == a;
        let ib = choose|i: int| 0 <= i < first.len() && first[i] == b;
        assert(pid_of(a) == pid_of(b));
        assert(a == b);
        lemma_describes_rest(first, previous, current);
        lemma_describes_rest(second, previous, current);
        lemma_one_description(
            first.drop_last(),
            second.drop_last(),
            previous.remove(pid_of(a)),
            current.remove(pid_of(a)),
        );
        assert(first =~= first.drop_last().push(a));
        assert(second =~= second.drop_last().push(b));
    }
}

/// A description by rising pid, without its last change, describes what
/// happened to all processes but the one of that change.
proof fn lemma_describes_rest(
    changes: Seq<ProcessChange>,
    previous: Map<usize, Process>,
    current: Map<usize, Process>,
)
    requires
        changes.len() > 0,
        describes(changes, previous, current),
        by_rising_pid(changes),
    ensures
        describes(
            changes.drop_last(),
            previous.remove(pid_of(changes.last())),
            current.remove(pid_of(changes.last())),
        ),
        by_rising_pid(changes.drop_last()),
{
    let last = pid_of(changes.last());
    let rest = changes.drop_last();
    let before = previous.remove(last);
    let after = current.remove(last);
    assert forall|i: int| 0 <= i < rest.len() implies change_of(
        before,
        after,
        pid_of(#[trigger] rest[i]),
    ) == Some(rest[i]) by {
        assert(rest[i] == changes[i]);
        assert(pid_of(changes[i]) < pid_of(changes[changes.len() - 1]));
    }
    assert forall|pid: usize| (#[trigger] change_of(before, after, pid)) is Some implies rest.contains(
        change_of(before, after, pid).unwrap(),
    ) by {
        assert(pid != last);
        assert(change_of(previous, current, pid) == change_of(before, after, pid));
        let c = change_of(previous, current, pid).unwrap();
        assert(changes.contains(c));
        let i = choose|i: int| 0 <= i < changes.len() && changes[i] == c;
        assert(change_of(previous, current, last) == Some(changes.last()));
        assert(i < changes.len() - 1);
        assert(rest[i] == c);
    }
    assert forall|i: int, j: int| 0 <= i < j < rest.len() implies pid_of(#[trigger] rest[i])
        != pid_of(#[trigger] rest[j]) by {
        assert(rest[i] == changes[i]);
        assert(rest[j] == changes[j]);
    }
    assert forall|i: int, j: int| 0 <= i < j < rest.len() implies pid_of(#[trigger] rest[i])
        < pid_of(#[trigger] rest[j]) by {
        assert(rest[i] == changes[i]);
        assert(rest[j] == changes[j]);
    }
}

/// Puts a change into a list that goes by rising pid, where its pid asks for.
fn insert_by_pid(changes: &mut Vec<ProcessChange>, change: ProcessChange)
    requires
        by_rising_pid(old(changes)@),
        forall|i: int|
            0 <= i < old(changes)@.len() ==> pid_of(#[trigger] old(changes)@[i]) != pid_of(change),
    ensures
        by_rising_pid(final(changes)@),
        forall|c: ProcessChange|
            final(changes)@.contains(c) <==> (old(changes)@.contains(c) || c == change),
{
    let pid = match change {
        ProcessChange::Added(pid) => pid,
        ProcessChange::Removed(pid) => pid,
        ProcessChange::Updated(pid) => pid,
    };
    let mut at: usize = 0;
    while at < changes.len() && pid_at(changes, at) < pid
        invariant
            at <= changes@.len(),
            changes@ == old(changes)@,
            pid == pid_of(change),
            forall|i: int| 0 <= i < at ==> pid_of(#[trigger] changes@[i]) < pid,
        decreases changes@.len() - at,
    {
        at += 1;
    }
    let ghost before = changes@;
    changes.insert(at, change);
    proof {
        assert(before == old(changes)@);
        assert forall|i: int, j: int| 0 <= i < j < changes@.len() implies pid_of(
            #[trigger] changes@[i],
        ) < pid_of(#[trigger] changes@[j]) by {
            if j < at {
            } else if j == at {
            } else if i < at {
                assert(changes@[j] == before[j - 1]);
                if at < before.len() {
                    assert(pid_of(before[at as int]) > pid);
                }
            } else if i == at {
                assert(changes@[j] == before[j - 1]);
                assert(pid_of(before[at as int]) != pid);
            } else {
                assert(changes@[i] == before[i - 1]);
                assert(changes@[j] == before[j - 1]);
            }
        }
        assert forall|c: ProcessChange|
            changes@.contains(c) <==> (old(changes)@.contains(c) || c == change) by {
            if changes@.contains(c) {
                let i = choose|i: int| 0 <= i < changes@.len() && changes@[i] == c;
                if i < at {
                    assert(before[i] == c);
                } else if i > at {
                    assert(before[i - 1] == c);
                }
            }
            if before.contains(c) {
                let i = choose|i: int| 0 <= i < before.len() && before[i] == c;
                if i < at {
                    assert(changes@[i] == c);
                } else {
                    assert(changes@[i + 1] == c);
                }
            }
            if c == change {
                assert(changes@[at as int] == c);
            }
        }
    }
}

/// The pid of the change at a place in a list.
fn pid_at(changes: &Vec<ProcessChange>, at: usize) -> (pid: usize)
    requires
        at < changes@.len(),
    ensures
        pid == pid_of(changes@[at as int]),
{
    match changes[at] {
        ProcessChange::Added(pid) => pid,
        ProcessChange::Removed(pid) => pid,
        ProcessChange::Updated(pid) => pid,
    }
}

/// Whether two samples of one process differ in the use of memory or processor.
fn differs(before: &Process, after: &Process) -> (changed: bool)
    ensures
        changed == usage_changed(*before, *after),
{
    before.memory != after.memory || before.virtual_memory != after.virtual_memory
        || before.cpu_usage != after.cpu_usage
}

impl SystemMirror {
    /// The processes of the sample before the last.
    pub closed spec fn earlier(self) -> Map<usize, Process> {
        self.previous.processes@
    }

    /// The processes of the last sample.
    pub closed spec fn latest(self) -> Map<usize, Process> {
        self.current.processes@
    }

    /// A mirror that has not seen a sample yet.
    pub fn new() -> (mirror: SystemMirror)
        ensures
            mirror.earlier() == Map::<usize, Process>::empty(),
            mirror.latest() == Map::<usize, Process>::empty(),
    {
        SystemMirror {
            previous: SystemSnapshot { processes: Processes::new() },
            current: SystemSnapshot { processes: Processes::new() },
        }
    }

    /// Takes a new sample in. What was the last sample is kept as the one
    /// before; the one before that is let go.
    pub fn refresh_all(&mut self, samples: Vec<Option<Process>>)
        ensures
            final(self).earlier() == old(self).latest(),
            final(self).latest() == sampled(samples@),
    {
        let mut next = SystemSnapshot { processes: Processes::from(samples) };
        std::mem::swap(&mut self.current, &mut next);
        self.previous = next;
    }

    /// The last sample.
    pub fn current(&self) -> (snapshot: &SystemSnapshot)
        ensures
            snapshot.processes@ == self.latest(),
    {
        &self.current
    }

    /// The sample before the last.
    pub fn previous(&self) -> (snapshot: &SystemSnapshot)
        ensures
            snapshot.processes@ == self.earlier(),
    {
        &self.previous
    }

    /// What changed between the sample before the last and the last: the
    /// processes that came, those that went, and those that use memory or
    /// processor differently, each by its pid and in the order of the pids.
    /// It is worked out anew at each call.
    pub fn diff(&self) -> (changes: Vec<ProcessChange>)
        ensures
            describes(changes@, self.earlier(), self.latest()),
            by_rising_pid(changes@),
    {
        let found = self.changes();
        let ghost previous = self.earlier();
        let ghost current = self.latest();
        let mut changes: Vec<ProcessChange> = Vec::new();
        let mut k: usize = 0;
        while k < found.len()
            invariant
                k <= found@.len(),
                describes(found@, previous, current),
                by_rising_pid(changes@),
                forall|c: ProcessChange|
                    changes@.contains(c) <==> exists|j: int| 0 <= j < k && found@[j] == c,
            decreases found@.len() - k,
        {
            let change = found[k];
            proof {
                assert forall|i: int| 0 <= i < changes@.len() implies pid_of(
                    #[trigger] changes@[i],
                ) != pid_of(change) by {
                    assert(changes@.contains(changes@[i]));
                    let j = choose|j: int| 0 <= j < k && found@[j] == changes@[i];
                    assert(pid_of(found@[j]) != pid_of(found@[k as int]));
                }
            }
            insert_by_pid(&mut changes, change);
            k += 1;
        }
        proof {
            assert forall|i: int| 0 <= i < changes@.len() implies change_of(
                previous,
                current,
                pid_of(#[trigger] changes@[i]),
            ) == Some(changes@[i]) by {
                assert(changes@.contains(changes@[i]));
                let j = choose|j: int| 0 <= j < k && found@[j] == changes@[i];
                assert(change_of(previous, current, pid_of(found@[j])) == Some(found@[j]));
            }
            assert forall|pid: usize|
                (#[trigger] change_of(previous, current, pid)) is Some implies changes@.contains(
                change_of(previous, current, pid).unwrap(),
            ) by {
                let c = change_of(previous, current, pid).unwrap();
                assert(found@.contains(c));
                let j = choose|j: int| 0 <= j < found@.len() && found@[j] == c;
                assert(0 <= j < k && found@[j] == c);
            }
        }
        changes
    }

    /// What changed between the two samples, in no particular order.
    fn changes(&self) -> (changes: Vec<ProcessChange>)
        ensures
            describes(changes@, self.earlier(), self.latest()),
    {
        let ghost previous = self.previous.processes@;
        let ghost current = self.current.processes@;
        let mut changes: Vec<ProcessChange> = Vec::new();
        let now = self.current.processes.pids();
        let mut i: usize = 0;
        while i < now.len()
            invariant
                i <= now@.len(),
                previous == self.previous.processes@,
                current == self.current.processes@,
                now@.no_duplicates(),
                forall|pid: usize| now@.contains(pid) <==> current.contains_key(pid),
                forall|c: int|
                    0 <= c < changes@.len() ==> {
                        &&& change_of(previous, current, pid_of(#[trigger] changes@[c])) == Some(
                            changes@[c],
                        )
                        &&& exists|k: int| 0 <= k < i && now@[k] == pid_of(changes@[c])
                    },
                forall|k: int|
                    0 <= k < i && (#[trigger] change_of(previous, current, now@[k])) is Some
                        ==> changes@.contains(change_of(previous, current, now@[k]).unwrap()),
                forall|a: int, b: int|
                    0 <= a < b < changes@.len() ==> pid_of(#[trigger] changes@[a]) != pid_of(
                        #[trigger] changes@[b],
                    ),
            decreases now@.len() - i,
        {
            let pid = now[i];
            assert(now@.contains(pid));
            let ghost before = changes@;
            let after = self.current.processes.get(pid);
            let change = match self.previous.processes.get(pid) {
                None => Some(ProcessChange::Added(pid)),
                Some(earlier) => {
                    if differs(earlier, after.unwrap()) {
                        Some(ProcessChange::Updated(pid))
                    } else {
                        None
                    }
                },
            };
            assert(change == change_of(previous, current, pid));
            match change {
                Some(c) => {
                    changes.push(c);
                    proof {
                        assert(changes@[before.len() as int] == c);
                        assert forall|k: int|
                            0 <= k < i + 1 && (#[trigger] change_of(
                                previous,
                                current,
                                now@[k],
                            )) is Some implies changes@.contains(
                            change_of(previous, current, now@[k]).unwrap(),
                        ) by {
                            if k < i {
                                let w = choose|w: int|
                                    0 <= w < before.len() && before[w] == change_of(
                                        previous,
                                        current,
                                        now@[k],
                                    ).unwrap();
                                assert(changes@[w] == before[w]);
                            }
                        }
                    }
                },
                None => {},
            }
            i += 1;
        }
        let then = self.previous.processes.pids();
        let mut j: usize = 0;
        while j < then.len()
            invariant
                j <= then@.len(),
                previous == self.previous.processes@,
                current == self.current.processes@,
                then@.no_duplicates(),
                forall|pid: usize| then@.contains(pid) <==> previous.contains_key(pid),
                forall|c: int|
                    0 <= c < changes@.len() ==> {
                        &&& change_of(previous, current, pid_of(#[trigger] changes@[c])) == Some(
                            changes@[c],
                        )
                        &&& (current.contains_key(pid_of(changes@[c])) || exists|k: int|
                            0 <= k < j && then@[k] == pid_of(changes@[c]))
                    },
                forall|pid: usize|
                    current.contains_key(pid) && (#[trigger] change_of(previous, current, pid))
                        is Some ==> changes@.contains(change_of(previous, current, pid).unwrap()),
                forall|k: int|
                    0 <= k < j && (#[trigger] change_of(previous, current, then@[k])) is Some
                        ==> changes@.contains(change_of(previous, current, then@[k]).unwrap()),
                forall|a: int, b: int|
                    0 <= a < b < changes@.len() ==> pid_of(#[trigger] changes@[a]) != pid_of(
                        #[trigger] changes@[b],
                    ),
            decreases then@.len() - j,
        {
            let pid = then[j];
            assert(then@.contains(pid));
            let ghost before = changes@;
            if self.current.processes.get(pid).is_none() {
                changes.push(ProcessChange::Removed(pid));
                proof {
                    assert(changes@[before.len() as int] == ProcessChange::Removed(pid));
                    assert forall|p: usize|
                        current.contains_key(p) && (#[trigger] change_of(previous, current, p))
                            is Some implies changes@.contains(
                        change_of(previous, current, p).unwrap(),
                    ) by {
                        let w = choose|w: int|
                            0 <= w < before.len() && before[w] == change_of(
                                previous,
                                current,
                                p,
                            ).unwrap();
                        assert(changes@[w] == before[w]);
                    }
                    assert forall|k: int|
                        0 <= k < j + 1 && (#[trigger] change_of(previous, current, then@[k]))
                            is Some implies changes@.contains(
                        change_of(previous, current, then@[k]).unwrap(),
                    ) by {
                        if k < j {
                            let w = choose|w: int|
                                0 <= w < before.len() && before[w] == change_of(
                                    previous,
                                    current,
                                    then@[k],
                                ).unwrap();
                            assert(changes@[w] == before[w]);
                        }
                    }
                }
            }
            j += 1;
        }
        proof {
            assert forall|pid: usize|
                (#[trigger] change_of(previous, current, pid)) is Some implies changes@.contains(
                change_of(previous, current, pid).unwrap(),
            ) by {
                if !current.contains_key(pid) {
                    assert(then@.contains(pid));
                    let k = choose|k: int| 0 <= k < then@.len() && then@[k] == pid;
                    assert(change_of(previous, current, then@[k]) is Some);
                }
            }
        }
        changes
    }
}

} // verus!
