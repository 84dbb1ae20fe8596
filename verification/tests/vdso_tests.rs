use schedhint::vdso::{
    getcpu_init_complete, kvdso_addrs, sched_addrs, task_state_name, vdso_base_from_auxv,
    KvdsoAddrs,
};
use schedhint::vdso_snapshot::{
    seq_read_start, seq_read_step, seqlock_accepts, SeqAction, SeqEvent, SeqPhase, SeqReadState,
};

#[test]
fn vdso_base_zero_means_absent() {
    assert_eq!(vdso_base_from_auxv(0), None);
    assert_eq!(vdso_base_from_auxv(0x7fff_0000), Some(0x7fff_0000));
}

#[test]
fn task_state_names() {
    assert_eq!(task_state_name(1), "running");
    assert_eq!(task_state_name(2), "ready");
    assert_eq!(task_state_name(3), "blocked");
    assert_eq!(task_state_name(4), "exited");
    assert_eq!(task_state_name(0), "unknown");
    assert_eq!(task_state_name(5), "unknown");
}

#[test]
fn getcpu_init_completion() {
    assert!(!getcpu_init_complete(0, 4));
    assert!(!getcpu_init_complete(3, 4));
    assert!(getcpu_init_complete(4, 4));
    assert!(getcpu_init_complete(0, 0));
}

#[test]
fn kvdso_entry_addresses() {
    assert_eq!(
        kvdso_addrs(0x1000),
        KvdsoAddrs { get_syscall_count: 0x16fe, snapshot_seq: 0x18d6 }
    );
    let wrapped = kvdso_addrs(usize::MAX);
    assert_eq!(wrapped.get_syscall_count, 0x6fd);
}

#[test]
fn sched_entry_addresses() {
    let a = sched_addrs(0x2000);
    assert_eq!(a.snapshot_seq, 0x2882);
    assert_eq!(a.blocked_ticks, 0x2780);
    assert_eq!(a.class_count, 0x279a);
    assert_eq!(a.idle_ticks, 0x27c8);
    assert_eq!(a.last_cpu_id, 0x27e2);
    assert_eq!(a.last_task_state, 0x27fe);
    assert_eq!(a.last_tid, 0x281a);
    assert_eq!(a.last_update_ns, 0x2834);
    assert_eq!(a.pressure_score, 0x284e);
    assert_eq!(a.runnable_ticks, 0x2868);
    assert_eq!(a.tick_count, 0x28a2);
    assert_eq!(a.total_syscalls, 0x28bc);
}

/// Drives a sequence-lock read over test doubles, recording every call.
fn drive<D: Clone>(
    max_retry: usize,
    seqs: &[u64],
    read_data: impl Fn(usize) -> D,
) -> (Option<(u64, D)>, Vec<&'static str>) {
    let (mut st, mut action) = seq_read_start(max_retry);
    let mut calls = Vec::new();
    let mut seq_pos = 0;
    let mut data_reads = 0;
    let mut data = None;
    loop {
        let event = match action {
            SeqAction::ReadSeq => {
                calls.push("seq");
                let s = seqs[seq_pos.min(seqs.len() - 1)];
                seq_pos += 1;
                SeqEvent::SeqRead(s)
            }
            SeqAction::Spin => {
                calls.push("spin");
                SeqEvent::Spun
            }
            SeqAction::ReadData => {
                calls.push("data");
                data = Some(read_data(data_reads));
                data_reads += 1;
                SeqEvent::DataRead
            }
            SeqAction::Return(r) => return (r.map(|seq| (seq, data.clone().unwrap())), calls),
        };
        (st, action) = seq_read_step(st, event);
    }
}

#[test]
fn accepts_only_equal_even_numbers() {
    assert!(seqlock_accepts(4, 4));
    assert!(!seqlock_accepts(3, 3));
    assert!(!seqlock_accepts(4, 6));
    assert!(!seqlock_accepts(4, 5));
}

#[test]
fn start_with_no_attempt_gives_up() {
    let (st, action) = seq_read_start(0);
    assert_eq!(action, SeqAction::Return(None));
    assert_eq!(st.phase, SeqPhase::GaveUp);
    let (r, calls) = drive(0, &[2], |_| 1u32);
    assert_eq!(r, None);
    assert!(calls.is_empty());
}

#[test]
fn stable_read_succeeds_first_attempt() {
    let (r, calls) = drive(32, &[8], |_| vec![(22u32, 44u32), (64, 128)]);
    assert_eq!(r, Some((8, vec![(22, 44), (64, 128)])));
    assert_eq!(calls, vec!["seq", "data", "seq"]);
}

#[test]
fn odd_sequence_spins_without_data_read() {
    let (r, calls) = drive(32, &[3], |_| 0u32);
    assert_eq!(r, None);
    assert_eq!(calls.iter().filter(|c| **c == "seq").count(), 32);
    assert_eq!(calls.iter().filter(|c| **c == "spin").count(), 32);
    assert!(!calls.contains(&"data"));
}

#[test]
fn retries_past_odd_sequence() {
    let (r, calls) = drive(2, &[3, 4, 4], |_| 5u32);
    assert_eq!(r, Some((4, 5)));
    assert_eq!(calls, vec!["seq", "spin", "seq", "data", "seq"]);
}

#[test]
fn torn_attempt_is_retried_with_fresh_data() {
    let (r, calls) = drive(2, &[2, 4, 4, 4], |n| n as u32 * 10);
    assert_eq!(r, Some((4, 10)));
    assert_eq!(calls, vec!["seq", "data", "seq", "seq", "data", "seq"]);
}

#[test]
fn gives_up_after_last_torn_attempt() {
    let (r, calls) = drive(2, &[2, 4, 6, 8], |_| 0u32);
    assert_eq!(r, None);
    assert_eq!(calls, vec!["seq", "data", "seq", "seq", "data", "seq"]);
}

#[test]
fn mismatched_event_leaves_state() {
    let (st, _) = seq_read_start(3);
    let (st2, action) = seq_read_step(st, SeqEvent::DataRead);
    assert_eq!(st2, st);
    assert_eq!(action, SeqAction::ReadSeq);
    let accepted = SeqReadState { phase: SeqPhase::Accepted { seq: 6 }, attempt: 1, max_retry: 3 };
    assert_eq!(seq_read_step(accepted, SeqEvent::SeqRead(8)).1, SeqAction::Return(Some(6)));
}
