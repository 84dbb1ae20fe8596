use std::collections::HashMap;
use schedhint::schedhint::{
    class_name, classify_syscall, next_count, probe_updates, ProbeUpdates, CLASS_IO_WAIT,
    CLASS_OTHER, CLASS_SLEEP_WAIT, CLASS_SYNC_WAIT,
};

#[test]
fn class_names_of_known_classes() {
    assert_eq!(class_name(CLASS_OTHER), "other");
    assert_eq!(class_name(CLASS_IO_WAIT), "io_wait");
    assert_eq!(class_name(CLASS_SLEEP_WAIT), "sleep_wait");
    assert_eq!(class_name(CLASS_SYNC_WAIT), "sync_wait");
}

#[test]
fn class_name_of_unknown_class_is_other() {
    assert_eq!(class_name(4), "other");
    assert_eq!(class_name(u32::MAX), "other");
}

#[test]
fn io_wait_syscalls() {
    for n in [63u32, 67, 65, 207, 212, 22, 73, 72] {
        assert_eq!(classify_syscall(n), (CLASS_IO_WAIT, 3));
    }
}

#[test]
fn sleep_wait_syscalls() {
    for n in [101u32, 115, 124] {
        assert_eq!(classify_syscall(n), (CLASS_SLEEP_WAIT, 2));
    }
}

#[test]
fn pselect6_waits_for_io_and_dup_does_not() {
    assert_eq!(classify_syscall(72), (CLASS_IO_WAIT, 3));
    assert_eq!(classify_syscall(23), (CLASS_OTHER, 1));
}

#[test]
fn futex_is_sync_wait() {
    assert_eq!(classify_syscall(98), (CLASS_SYNC_WAIT, 4));
}

#[test]
fn other_syscalls() {
    for n in [0u32, 23, 64, 113, 99, 1000, u32::MAX] {
        assert_eq!(classify_syscall(n), (CLASS_OTHER, 1));
    }
}

#[test]
fn every_class_fits_the_histogram() {
    for n in 0u32..2048 {
        let (class, weight) = classify_syscall(n);
        assert!(class < 4);
        assert!(weight >= 1);
        assert_eq!(class_name(class) == "other", class == CLASS_OTHER);
    }
}

#[test]
fn next_count_from_missing_key() {
    assert_eq!(next_count(None, 1), 1);
    assert_eq!(next_count(None, 4), 4);
}

#[test]
fn next_count_adds() {
    assert_eq!(next_count(Some(41), 1), 42);
    assert_eq!(next_count(Some(10), 3), 13);
}

#[test]
fn next_count_saturates() {
    assert_eq!(next_count(Some(u32::MAX), 1), u32::MAX);
    assert_eq!(next_count(Some(u32::MAX - 1), 4), u32::MAX);
}

#[test]
fn bumps_compose_into_saturated_sum() {
    let once = next_count(Some(u32::MAX - 5), 3);
    assert_eq!(next_count(Some(once), 3), u32::MAX);
    let once = next_count(Some(7), 3);
    assert_eq!(next_count(Some(once), 2), 12);
}

#[test]
fn probe_updates_for_read() {
    assert_eq!(
        probe_updates(63, 1234),
        ProbeUpdates {
            total_key: 63,
            score_key: 63,
            score_delta: 3,
            seen_key: 63,
            seen_ns: 1234,
            class_key: CLASS_IO_WAIT,
        }
    );
}

#[test]
fn probe_updates_for_futex_and_other() {
    let u = probe_updates(98, 7);
    assert_eq!((u.class_key, u.score_delta, u.seen_ns), (CLASS_SYNC_WAIT, 4, 7));
    let u = probe_updates(500, u64::MAX);
    assert_eq!((u.total_key, u.class_key, u.score_delta, u.seen_ns), (500, CLASS_OTHER, 1, u64::MAX));
}

#[test]
fn many_probe_hits_accumulate_saturated() {
    let hits: Vec<(u32, u64)> = vec![(98, 1), (63, 2), (98, 3), (500, 4), (98, 5)];
    let mut total: HashMap<u32, u32> = HashMap::new();
    let mut score: HashMap<u32, u32> = HashMap::new();
    let mut seen: HashMap<u32, u64> = HashMap::new();
    let mut hist: HashMap<u32, u32> = HashMap::new();
    for (sysno, now) in hits {
        let u = probe_updates(sysno, now);
        total.insert(u.total_key, next_count(total.get(&u.total_key).copied(), 1));
        score.insert(u.score_key, next_count(score.get(&u.score_key).copied(), u.score_delta));
        seen.insert(u.seen_key, u.seen_ns);
        hist.insert(u.class_key, next_count(hist.get(&u.class_key).copied(), 1));
    }
    assert_eq!(total[&98], 3);
    assert_eq!(score[&98], 12);
    assert_eq!(seen[&98], 5);
    assert_eq!(total[&63], 1);
    assert_eq!(score[&63], 3);
    assert_eq!(hist[&CLASS_SYNC_WAIT], 3);
    assert_eq!(hist[&CLASS_IO_WAIT], 1);
    assert_eq!(hist[&CLASS_OTHER], 1);
    assert!(!total.contains_key(&22));
    let mut c = None;
    for _ in 0..5 {
        c = Some(next_count(c, u32::MAX / 4));
    }
    assert_eq!(c, Some(u32::MAX));
}
