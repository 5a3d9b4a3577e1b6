use delicate::health::launch_health_check;
use delicate::health::LivenessRecord;
use delicate::health::ProbeOutcome;

fn believed(processor_id: i64, at: i64, reachable: bool, failures: u32) -> LivenessRecord {
    LivenessRecord {
        processor_id,
        last_probe_time: at,
        reachable,
        consecutive_failures: failures,
    }
}

#[test]
fn executor_that_never_answers_is_given_up_at_the_threshold() {
    let mut check = launch_health_check(3, 8);
    for id in [1, 2, 3] {
        assert!(check.register(id, 100));
    }
    for tick in 1..=6u32 {
        let now = 100 + 10 * tick as i64;
        assert_eq!(
            check.record_probe(1, ProbeOutcome::Responded, now),
            Some(believed(1, now, true, 0))
        );
        assert_eq!(
            check.record_probe(2, ProbeOutcome::Failed, now),
            Some(believed(2, now, tick < 3, tick))
        );
        assert_eq!(
            check.record_probe(3, ProbeOutcome::Responded, now),
            Some(believed(3, now, true, 0))
        );
        assert_eq!(check.liveness(1), Some(believed(1, now, true, 0)));
        assert_eq!(check.liveness(2), Some(believed(2, now, tick < 3, tick)));
        assert_eq!(check.liveness(3), Some(believed(3, now, true, 0)));
    }
}

#[test]
fn an_answer_brings_an_executor_back() {
    let mut check = launch_health_check(2, 1);
    check.register(7, 0);
    check.record_probe(7, ProbeOutcome::Failed, 1);
    assert_eq!(check.liveness(7), Some(believed(7, 1, true, 1)));
    check.record_probe(7, ProbeOutcome::Failed, 2);
    assert_eq!(check.liveness(7), Some(believed(7, 2, false, 2)));
    check.record_probe(7, ProbeOutcome::Failed, 3);
    assert_eq!(check.liveness(7), Some(believed(7, 3, false, 3)));
    check.record_probe(7, ProbeOutcome::Responded, 4);
    assert_eq!(check.liveness(7), Some(believed(7, 4, true, 0)));
    check.record_probe(7, ProbeOutcome::Failed, 5);
    assert_eq!(check.liveness(7), Some(believed(7, 5, true, 1)));
}

#[test]
fn threshold_of_zero_or_one_gives_up_at_the_first_failure() {
    for threshold in [0, 1] {
        let mut check = launch_health_check(threshold, 4);
        check.register(1, 0);
        assert_eq!(check.liveness(1), Some(believed(1, 0, true, 0)));
        check.record_probe(1, ProbeOutcome::Failed, 1);
        assert_eq!(check.liveness(1), Some(believed(1, 1, false, 1)));
    }
}

#[test]
fn probe_of_a_stranger_changes_nothing() {
    let mut check = launch_health_check(3, 4);
    check.register(1, 0);
    assert_eq!(check.record_probe(2, ProbeOutcome::Failed, 5), None);
    assert_eq!(check.liveness(2), None);
    assert_eq!(check.snapshot(), vec![believed(1, 0, true, 0)]);
}

#[test]
fn executors_are_registered_once() {
    let mut check = launch_health_check(3, 4);
    assert!(check.register(5, 10));
    check.record_probe(5, ProbeOutcome::Failed, 11);
    assert!(!check.register(5, 12));
    assert_eq!(check.snapshot(), vec![believed(5, 11, true, 1)]);
    assert!(check.register(6, 13));
    assert_eq!(check.snapshot(), vec![believed(5, 11, true, 1), believed(6, 13, true, 0)]);
    assert_eq!(check.unregister(5), Some(believed(5, 11, true, 1)));
    assert_eq!(check.unregister(5), None);
    assert_eq!(check.snapshot(), vec![believed(6, 13, true, 0)]);
}

#[test]
fn failures_are_counted_as_far_as_the_counter_goes() {
    let mut check = launch_health_check(u32::MAX, 4);
    check.register(1, 0);
    for _ in 0..1000 {
        check.record_probe(1, ProbeOutcome::Failed, 1);
    }
    assert_eq!(check.liveness(1), Some(believed(1, 1, true, 1000)));
}

#[test]
fn executors_are_probed_in_bounded_groups() {
    let mut check = launch_health_check(3, 2);
    assert_eq!(check.probe_batches(), Vec::<Vec<i64>>::new());
    for id in [10, 20, 30, 40, 50] {
        check.register(id, 0);
    }
    assert_eq!(check.probe_batches(), vec![vec![10, 20], vec![30, 40], vec![50]]);
    check.unregister(50);
    assert_eq!(check.probe_batches(), vec![vec![10, 20], vec![30, 40]]);
}

#[test]
fn group_size_is_at_least_one() {
    let mut check = launch_health_check(3, 0);
    for id in [1, 2, 3] {
        check.register(id, 0);
    }
    assert_eq!(check.probe_batches(), vec![vec![1], vec![2], vec![3]]);
    let mut wide = launch_health_check(3, usize::MAX);
    for id in [1, 2, 3] {
        wide.register(id, 0);
    }
    assert_eq!(wide.probe_batches(), vec![vec![1, 2, 3]]);
}
