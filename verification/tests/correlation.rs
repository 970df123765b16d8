use stalk::correlator::{correlation_key, duration_micros, Correlator};
use stalk::raw::{RawReadEvent, RawReadEventExit};

fn begin(pid: u32, gid: u32) -> RawReadEvent {
    RawReadEvent { pid, gid, fd: 3, count: 100 }
}

fn end(pid: u32, gid: u32) -> RawReadEventExit {
    RawReadEventExit { pid, gid, ret: 100 }
}

#[test]
fn matched_pair_yields_duration() {
    let mut c = Correlator::new();
    c.begin(&begin(10, 20), 1000);
    let completed = c.end(&end(10, 20), 1750).expect("matching end must complete");
    assert_eq!(completed.start_time, 1000);
    assert_eq!(completed.end_time, Some(1750));
    assert_eq!(duration_micros(&completed), 750);
    assert_eq!(c.pending_len(), 0);
}

#[test]
fn end_without_begin_is_dropped_silently() {
    let mut c = Correlator::new();
    assert!(c.end(&end(1, 2), 500).is_none());
    assert_eq!(c.pending_len(), 0);
}

#[test]
fn second_end_finds_nothing() {
    let mut c = Correlator::new();
    c.begin(&begin(10, 20), 1000);
    assert!(c.end(&end(10, 20), 1100).is_some());
    assert!(c.end(&end(10, 20), 1200).is_none());
}

#[test]
fn second_begin_overwrites_pending_start() {
    let mut c = Correlator::new();
    c.begin(&begin(10, 20), 1000);
    c.begin(&begin(10, 20), 4000);
    assert_eq!(c.pending_len(), 1);
    let completed = c.end(&end(10, 20), 4600).expect("end must match the retained begin");
    assert_eq!(completed.start_time, 4000);
    assert_eq!(duration_micros(&completed), 600);
}

#[test]
fn interleaved_distinct_keys_stay_independent() {
    let mut c = Correlator::new();
    c.begin(&begin(1, 100), 10);
    c.begin(&begin(2, 100), 20);
    c.begin(&begin(1, 200), 30);
    assert_eq!(c.pending_len(), 3);

    let first = c.end(&end(2, 100), 25).expect("second key must complete");
    assert_eq!(first.start_time, 20);
    assert_eq!(first.pid, 2);

    let second = c.end(&end(1, 100), 50).expect("first key must complete");
    assert_eq!(second.start_time, 10);

    let third = c.end(&end(1, 200), 90).expect("third key must complete");
    assert_eq!(third.start_time, 30);
    assert_eq!(c.pending_len(), 0);
}

#[test]
fn key_packs_thread_group_and_process_id() {
    assert_eq!(correlation_key(1, 2), (1u64 << 32) | 2);
    assert_ne!(correlation_key(1, 2), correlation_key(2, 1));
}

#[test]
fn same_pid_under_different_thread_groups_does_not_collide() {
    let mut c = Correlator::new();
    c.begin(&begin(5, 1), 100);
    c.begin(&begin(5, 2), 200);
    let completed = c.end(&end(5, 1), 300).expect("must match the first thread group");
    assert_eq!(completed.start_time, 100);
    assert_eq!(c.pending_len(), 1);
}

#[test]
fn clock_going_backwards_gives_zero_duration() {
    let mut c = Correlator::new();
    c.begin(&begin(1, 1), 1000);
    let completed = c.end(&end(1, 1), 900).expect("end still completes");
    assert_eq!(duration_micros(&completed), 0);
}
