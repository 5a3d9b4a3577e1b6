//! The queue between those who do something worth a log entry and the one
//! consumer that stores the entries.
//!
//! The queue is bounded: when it is full an entry is refused at once, and the
//! producer is never made to wait. The consumer stores the entries in the
//! order in which they came, tries again after a failure that may pass, and
//! gives an entry up, for all to see, when it cannot be stored.

use std::collections::VecDeque;
use vstd::arithmetic::power2::lemma_pow2_strictly_increases;
use vstd::arithmetic::power2::lemma_pow2_unfold;
use vstd::arithmetic::power2::pow2;
use vstd::prelude::*;

verus! {

/// The queue is full: the entry was not taken.
#[derive(Debug, Copy, Clone, PartialEq, Eq, Structural)]
pub struct QueueFullError;

/// How often, and how long apart, the storing of an entry is tried.
#[derive(Debug, Copy, Clone, PartialEq, Eq, Structural)]
pub struct RetryPolicy {
    /// How many times the storing of one entry is tried at most.
    pub max_attempts: u32,
    /// How long to wait after the first failure, in milliseconds.
    pub base_delay_ms: u64,
    /// The longest wait between two tries, in milliseconds.
    pub max_delay_ms: u64,
}

/// How the storing of an entry ended.
#[derive(Debug, Copy, Clone, PartialEq, Eq, Structural)]
pub enum PersistOutcome {
    /// The entry is stored.
    Stored,
    /// The store failed in a way that may pass.
    TransientFailure,
    /// The store will never take this entry.
    PermanentFailure,
}

/// What the consumer does after the storing of an entry ended.
#[derive(Debug, Clone, PartialEq, Eq)]
pub enum Verdict<T> {
    /// There was no entry to store.
    Idle,
    /// The entry is stored and off the queue.
    Done(T),
    /// The entry stays at the head of the queue; it is tried again after this
    /// many milliseconds.
    RetryAfter(u64),
    /// The entry is off the queue and was not stored: it has to be reported.
    GaveUp(T),
}

/// The smaller of two numbers.
pub open spec fn smaller(a: int, b: int) -> int {
    if a <= b {
        a
    } else {
        b
    }
}

/// How long to wait after a number of failures in a row: the base delay
/// doubled for each failure after the first, and never more than the longest wait.
pub open spec fn backoff_delay(policy: RetryPolicy, failures_before: u32) -> int {
    smaller(policy.base_delay_ms * pow2(failures_before as nat), policy.max_delay_ms as int)
}

/// The delay never goes down as the failures go on, and it is never longer
/// than the longest wait.
pub proof fn lemma_backoff_grows(policy: RetryPolicy, earlier: u32, later: u32)
    requires
        earlier <= later,
    ensures
        backoff_delay(policy, earlier) <= backoff_delay(policy, later) <= policy.max_delay_ms,
{
    if earlier < later {
        lemma_pow2_strictly_increases(earlier as nat, later as nat);
    }
    let b = policy.base_delay_ms as int;
    let lower = pow2(earlier as nat) as int;
    let upper = pow2(later as nat) as int;
    assert(b * lower <= b * upper) by (nonlinear_arith)
        requires
            0 <= b,
            0 <= lower <= upper,
    ;
}

/// How long to wait after a number of failures in a row.
pub fn delay_after(policy: &RetryPolicy, failures_before: u32) -> (delay: u64)
    ensures
        delay == backoff_delay(*policy, failures_before),
{
    let max = policy.max_delay_ms;
    let base = policy.base_delay_ms;
    let mut delay: u64 = if base <= max {
        base
    } else {
        max
    };
    let mut k: u32 = 0;
    proof {
        assert(pow2(0) == 1) by {
            lemma_pow2_unfold(1);
            vstd::arithmetic::power2::lemma2_to64();
        }
        assert(base * pow2(0) == base) by (nonlinear_arith)
            requires
                pow2(0) == 1,
        ;
    }
    while k < failures_before && 0 < delay && delay < max
        invariant
            k <= failures_before,
            max == policy.max_delay_ms,
            base == policy.base_delay_ms,
            delay == smaller(base * pow2(k as nat), max as int),
        decreases failures_before - k,
    {
        proof {
            lemma_pow2_unfold((k + 1) as nat);
            let p = pow2(k as nat) as int;
            assert(base * (2 * p) == 2 * (base * p)) by (nonlinear_arith);
        }
        delay = if delay <= max / 2 {
            let doubled = delay * 2;
            doubled
        } else {
            max
        };
        k += 1;
    }
    proof {
        if k < failures_before {
            lemma_pow2_strictly_increases(k as nat, failures_before as nat);
            let b = base as int;
            let lower = pow2(k as nat) as int;
            let upper = pow2(failures_before as nat) as int;
            assert(b * lower <= b * upper) by (nonlinear_arith)
                requires
                    0 <= b,
                    0 <= lower <= upper,
            ;
            if delay == 0 {
                vstd::arithmetic::power2::lemma_pow2_pos(k as nat);
                assert(b == 0 || max == 0) by (nonlinear_arith)
                    requires
                        smaller(b * lower, max as int) == 0,
                        lower > 0,
                        b >= 0,
                        max >= 0,
                ;
                assert(b * upper == 0 || max == 0) by (nonlinear_arith)
                    requires
                        b == 0 || max == 0,
                ;
            }
        }
    }
    delay
}

/// The queue of log entries and the state of the one consumer that stores them.
#[derive(Debug)]
pub struct OperationLogConsumer<T> {
    queue: VecDeque<T>,
    capacity: usize,
    failures: u32,
    policy: RetryPolicy,
}

/// Starts the consumer of log entries with an empty queue that holds at most
/// `capacity` entries.
pub fn launch_operation_log_consumer<T>(
    capacity: usize,
    policy: RetryPolicy,
) -> (consumer: OperationLogConsumer<T>)
    ensures
        consumer.entries().len() == 0,
        consumer.limit() == capacity,
        consumer.failed_attempts() == 0,
        consumer.retry_policy() == policy,
{
    OperationLogConsumer { queue: VecDeque::new(), capacity, failures: 0, policy }
}

/// The queue after an entry was offered to it: with the entry at its end
/// where there was room, and unchanged where there was none.
pub open spec fn offered<T>(entries: Seq<T>, capacity: usize, entry: T) -> Seq<T> {
    if entries.len() < capacity {
        entries.push(entry)
    } else {
        entries
    }
}

/// The queue after each entry of a list was offered to it, in the order of the list.
pub open spec fn offered_all<T>(entries: Seq<T>, capacity: usize, offers: Seq<T>) -> Seq<T>
    decreases offers.len(),
{
    if offers.len() == 0 {
        entries
    } else {
        offered(offered_all(entries, capacity, offers.drop_last()), capacity, offers.last())
    }
}

/// Entries that are offered while there is room stand in the queue behind
/// those that were there, in the order in which they were offered: what one
/// producer offers is stored in that order.
pub proof fn lemma_first_in_first_out<T>(entries: Seq<T>, capacity: usize, offers: Seq<T>)
    requires
        entries.len() + offers.len() <= capacity,
    ensures
        offered_all(entries, capacity, offers) == entries + offers,
    decreases offers.len(),
{
    if offers.len() == 0 {
        assert(entries + offers =~= entries);
    } else {
        lemma_first_in_first_out(entries, capacity, offers.drop_last());
        assert(entries + offers =~= (entries + offers.drop_last()).push(offers.last()));
    }
}

/// Whatever is offered, the queue never holds more than its capacity, and
/// what stood in it stays in front.
pub proof fn lemma_queue_is_bounded<T>(entries: Seq<T>, capacity: usize, entry: T)
    requires
        entries.len() <= capacity,
    ensures
        offered(entries, capacity, entry).len() <= capacity,
        entries.is_prefix_of(offered(entries, capacity, entry)),
{
}

impl<T> OperationLogConsumer<T> {
    #[verifier::type_invariant]
    spec fn bounded(self) -> bool {
        self.queue@.len() <= self.capacity
    }

    /// The entries that wait to be stored, the next one first.
    pub closed spec fn entries(self) -> Seq<T> {
        self.queue@
    }

    /// How many entries the queue holds at most.
    pub closed spec fn limit(self) -> usize {
        self.capacity
    }

    /// How many times in a row the storing of the entry at the head has failed.
    pub closed spec fn failed_attempts(self) -> u32 {
        self.failures
    }

    /// How often and how long apart the storing of an entry is tried.
    pub closed spec fn retry_policy(self) -> RetryPolicy {
        self.policy
    }

    fn take_queue(&mut self) -> (queue: VecDeque<T>)
        ensures
            queue@ == old(self).queue@,
            queue@.len() <= old(self).capacity,
            final(self).queue@.len() == 0,
            final(self).capacity == old(self).capacity,
            final(self).failures == old(self).failures,
            final(self).policy == old(self).policy,
    {
        proof {
            use_type_invariant(&*self);
        }
        let mut held = OperationLogConsumer {
            queue: VecDeque::new(),
            capacity: self.capacity,
            failures: self.failures,
            policy: self.policy,
        };
        std::mem::swap(self, &mut held);
        let OperationLogConsumer { queue, capacity: _, failures: _, policy: _ } = held;
        queue
    }

    fn put_queue(&mut self, queue: VecDeque<T>, failures: u32)
        requires
            queue@.len() <= old(self).capacity,
        ensures
            final(self).queue@ == queue@,
            final(self).capacity == old(self).capacity,
            final(self).failures == failures,
            final(self).policy == old(self).policy,
    {
        *self = OperationLogConsumer {
            queue,
            capacity: self.capacity,
            failures,
            policy: self.policy,
        };
    }

    /// Offers an entry to the queue. The entry is taken at the end of the
    /// queue when there is room, and refused at once when there is none.
    pub fn enqueue(&mut self, entry: T) -> (res: Result<(), QueueFullError>)
        ensures
            res is Ok <==> old(self).entries().len() < old(self).limit(),
            final(self).entries() == offered(old(self).entries(), old(self).limit(), entry),
            final(self).entries().len() <= final(self).limit(),
            final(self).limit() == old(self).limit(),
            final(self).failed_attempts() == old(self).failed_attempts(),
            final(self).retry_policy() == old(self).retry_policy(),
    {
        proof {
            use_type_invariant(&*self);
        }
        if self.queue.len() < self.capacity {
            let failures = self.failures;
            let mut queue = self.take_queue();
            queue.push_back(entry);
            self.put_queue(queue, failures);
            Ok(())
        } else {
            Err(QueueFullError)
        }
    }

    /// How many entries wait to be stored.
    pub fn len(&self) -> (len: usize)
        ensures
            len == self.entries().len(),
            len <= self.limit(),
    {
        proof {
            use_type_invariant(self);
        }
        self.queue.len()
    }

    /// The entry to store next, if there is one.
    pub fn next(&self) -> (entry: Option<&T>)
        ensures
            match entry {
                Some(e) => self.entries().len() > 0 && *e == self.entries()[0],
                None => self.entries().len() == 0,
            },
    {
        if self.queue.len() > 0 {
            Some(&self.queue[0])
        } else {
            None
        }
    }

    /// Takes in how the storing of the entry at the head of the queue ended.
    ///
    /// A stored entry leaves the queue. After a failure that may pass the
    /// entry stays where it is and is tried again after a delay, until it has
    /// been tried as often as the policy allows; then, and after a failure
    /// that will not pass, the entry leaves the queue and is handed back to
    /// be reported. The entries behind it are not touched.
    pub fn settle(&mut self, outcome: PersistOutcome) -> (verdict: Verdict<T>)
        ensures
            final(self).limit() == old(self).limit(),
            final(self).retry_policy() == old(self).retry_policy(),
            final(self).entries().len() <= final(self).limit(),
            settled(
                old(self).entries(),
                old(self).failed_attempts(),
                old(self).retry_policy(),
                outcome,
                verdict,
                final(self).entries(),
                final(self).failed_attempts(),
            ),
    {
        proof {
            use_type_invariant(&*self);
        }
        if self.queue.len() == 0 {
            return Verdict::Idle;
        }
        let tried: u32 = if self.failures < u32::MAX {
            self.failures + 1
        } else {
            self.failures
        };
        let leaves = match outcome {
            PersistOutcome::Stored => true,
            PersistOutcome::PermanentFailure => true,
            PersistOutcome::TransientFailure => tried >= self.policy.max_attempts,
        };
        if leaves {
            let mut queue = self.take_queue();
            let entry = queue.pop_front().unwrap();
            proof {
                assert(queue@ =~= old(self).entries().drop_first());
            }
            self.put_queue(queue, 0);
            match outcome {
                PersistOutcome::Stored => Verdict::Done(entry),
                _ => Verdict::GaveUp(entry),
            }
        } else {
            let delay = delay_after(&self.policy, self.failures);
            let queue = self.take_queue();
            self.put_queue(queue, tried);
            Verdict::RetryAfter(delay)
        }
    }
}

/// Whether the storing of an entry is tried again after one more failure
/// that may pass.
pub open spec fn tried_again(failures: u32, policy: RetryPolicy) -> bool {
    failures < u32::MAX && failures + 1 < policy.max_attempts
}

/// What the end of a try to store the head of the queue does to the queue
/// and to the count of failures, and what the consumer does next.
pub open spec fn settled<T>(
    entries: Seq<T>,
    failures: u32,
    policy: RetryPolicy,
    outcome: PersistOutcome,
    verdict: Verdict<T>,
    entries_after: Seq<T>,
    failures_after: u32,
) -> bool {
    if entries.len() == 0 {
        verdict is Idle && entries_after == entries && failures_after == failures
    } else {
        match outcome {
            PersistOutcome::Stored => {
                &&& verdict == Verdict::Done(entries[0])
                &&& entries_after == entries.drop_first()
                &&& failures_after == 0
            },
            PersistOutcome::PermanentFailure => {
                &&& verdict == Verdict::GaveUp(entries[0])
                &&& entries_after == entries.drop_first()
                &&& failures_after == 0
            },
            PersistOutcome::TransientFailure => if tried_again(failures, policy) {
                &&& verdict == Verdict::<T>::RetryAfter(backoff_delay(policy, failures) as u64)
                &&& entries_after == entries
                &&& failures_after == failures + 1
            } else {
                &&& verdict == Verdict::GaveUp(entries[0])
                &&& entries_after == entries.drop_first()
                &&& failures_after == 0
            },
        }
    }
}

} // verus!
