use vstd::prelude::*;

verus! {

/// The vDSO image's base address, from the value of the auxiliary-vector
/// entry `AT_SYSINFO_EHDR`; 0 means the kernel mapped no vDSO.
pub fn vdso_base_from_auxv(value: usize) -> (base: Option<usize>)
    ensures
        base == (if value == 0 {
            None
        } else {
            Some(value)
        }),
{
    if value == 0 {
        return None;
    }
    Some(value)
}

/// The name of a task state as published in the scheduler snapshot.
pub open spec fn task_state_name_spec(state: u32) -> Seq<char> {
    if state == 1 {
        "running"@
    } else if state == 2 {
        "ready"@
    } else if state == 3 {
        "blocked"@
    } else if state == 4 {
        "exited"@
    } else {
        "unknown"@
    }
}

/// Human-readable name of a task state; unknown states are "unknown".
pub fn task_state_name(state: u32) -> (name: &'static str)
    ensures
        name@ == task_state_name_spec(state),
{
    match state {
        1 => "running",
        2 => "ready",
        3 => "blocked",
        4 => "exited",
        _ => "unknown",
    }
}

/// Whether the per-CPU vDSO `getcpu` initialisation has finished: every one
/// of the `cpu_num` CPUs has reported in.
pub fn getcpu_init_complete(inited_cpus: usize, cpu_num: usize) -> (done: bool)
    ensures
        done == (inited_cpus >= cpu_num),
{
    inited_cpus >= cpu_num
}


/// Offset of `kvdso_get_syscall_count` within the vDSO image.
pub const COUNTOFFSET: usize = 0x6fe;
/// Offset of `kvdso_snapshot_seq` within the vDSO image.
pub const SEQOFFSET: usize = 0x8d6;

/// Offsets of the scheduler-snapshot entry points within the vDSO image.
pub const SCHED_BLOCKED_TICKS_OFFSET: usize = 0x780;
pub const SCHED_CLASS_COUNT_OFFSET: usize = 0x79a;
pub const SCHED_IDLE_TICKS_OFFSET: usize = 0x7c8;
pub const SCHED_LAST_CPU_ID_OFFSET: usize = 0x7e2;
pub const SCHED_LAST_TASK_STATE_OFFSET: usize = 0x7fe;
pub const SCHED_LAST_TID_OFFSET: usize = 0x81a;
pub const SCHED_LAST_UPDATE_NS_OFFSET: usize = 0x834;
pub const SCHED_PRESSURE_SCORE_OFFSET: usize = 0x84e;
pub const SCHED_RUNNABLE_TICKS_OFFSET: usize = 0x868;
pub const SCHED_SNAPSHOT_SEQ_OFFSET: usize = 0x882;
pub const SCHED_TICK_COUNT_OFFSET: usize = 0x8a2;
pub const SCHED_TOTAL_SYSCALLS_OFFSET: usize = 0x8bc;

/// The address of the entry point at `offset` in a vDSO image mapped at
/// `base` (address arithmetic wraps, as on the machine).
pub open spec fn entry_addr(base: usize, offset: usize) -> usize {
    base.wrapping_add(offset)
}

/// Addresses of the syscall-count entry points.
#[derive(Clone, Copy, Debug, PartialEq, Eq)]
pub struct KvdsoAddrs {
    pub get_syscall_count: usize,
    pub snapshot_seq: usize,
}

/// Locates the syscall-count entry points in the vDSO image at `vdso_base`.
pub fn kvdso_addrs(vdso_base: usize) -> (a: KvdsoAddrs)
    ensures
        a.get_syscall_count == entry_addr(vdso_base, COUNTOFFSET),
        a.snapshot_seq == entry_addr(vdso_base, SEQOFFSET),
        a.get_syscall_count as int == (vdso_base + COUNTOFFSET) % (usize::MAX + 1),
        a.snapshot_seq as int == (vdso_base + SEQOFFSET) % (usize::MAX + 1),
{
    proof {
        lemma_entry_addr(vdso_base, COUNTOFFSET);
        lemma_entry_addr(vdso_base, SEQOFFSET);
    }
    KvdsoAddrs {
        get_syscall_count: vdso_base.wrapping_add(COUNTOFFSET),
        snapshot_seq: vdso_base.wrapping_add(SEQOFFSET),
    }
}

/// Addresses of the scheduler-snapshot entry points.
#[derive(Clone, Copy, Debug, PartialEq, Eq)]
pub struct SchedAddrs {
    pub snapshot_seq: usize,
    pub blocked_ticks: usize,
    pub class_count: usize,
    pub idle_ticks: usize,
    pub last_cpu_id: usize,
    pub last_task_state: usize,
    pub last_tid: usize,
    pub last_update_ns: usize,
    pub pressure_score: usize,
    pub runnable_ticks: usize,
    pub tick_count: usize,
    pub total_syscalls: usize,
}

/// Locates the scheduler-snapshot entry points in the vDSO image at `vdso_base`.
pub fn sched_addrs(vdso_base: usize) -> (a: SchedAddrs)
    ensures
        a.snapshot_seq == entry_addr(vdso_base, SCHED_SNAPSHOT_SEQ_OFFSET),
        a.blocked_ticks == entry_addr(vdso_base, SCHED_BLOCKED_TICKS_OFFSET),
        a.class_count == entry_addr(vdso_base, SCHED_CLASS_COUNT_OFFSET),
        a.idle_ticks == entry_addr(vdso_base, SCHED_IDLE_TICKS_OFFSET),
        a.last_cpu_id == entry_addr(vdso_base, SCHED_LAST_CPU_ID_OFFSET),
        a.last_task_state == entry_addr(vdso_base, SCHED_LAST_TASK_STATE_OFFSET),
        a.last_tid == entry_addr(vdso_base, SCHED_LAST_TID_OFFSET),
        a.last_update_ns == entry_addr(vdso_base, SCHED_LAST_UPDATE_NS_OFFSET),
        a.pressure_score == entry_addr(vdso_base, SCHED_PRESSURE_SCORE_OFFSET),
        a.runnable_ticks == entry_addr(vdso_base, SCHED_RUNNABLE_TICKS_OFFSET),
        a.tick_count == entry_addr(vdso_base, SCHED_TICK_COUNT_OFFSET),
        a.total_syscalls == entry_addr(vdso_base, SCHED_TOTAL_SYSCALLS_OFFSET),
        a.snapshot_seq as int == (vdso_base + SCHED_SNAPSHOT_SEQ_OFFSET) % (usize::MAX + 1),
        a.blocked_ticks as int == (vdso_base + SCHED_BLOCKED_TICKS_OFFSET) % (usize::MAX + 1),
        a.class_count as int == (vdso_base + SCHED_CLASS_COUNT_OFFSET) % (usize::MAX + 1),
        a.idle_ticks as int == (vdso_base + SCHED_IDLE_TICKS_OFFSET) % (usize::MAX + 1),
        a.last_cpu_id as int == (vdso_base + SCHED_LAST_CPU_ID_OFFSET) % (usize::MAX + 1),
        a.last_task_state as int == (vdso_base + SCHED_LAST_TASK_STATE_OFFSET) % (usize::MAX + 1),
        a.last_tid as int == (vdso_base + SCHED_LAST_TID_OFFSET) % (usize::MAX + 1),
        a.last_update_ns as int == (vdso_base + SCHED_LAST_UPDATE_NS_OFFSET) % (usize::MAX + 1),
        a.pressure_score as int == (vdso_base + SCHED_PRESSURE_SCORE_OFFSET) % (usize::MAX + 1),
        a.runnable_ticks as int == (vdso_base + SCHED_RUNNABLE_TICKS_OFFSET) % (usize::MAX + 1),
        a.tick_count as int == (vdso_base + SCHED_TICK_COUNT_OFFSET) % (usize::MAX + 1),
        a.total_syscalls as int == (vdso_base + SCHED_TOTAL_SYSCALLS_OFFSET) % (usize::MAX + 1),
{
    proof {
        lemma_entry_addr(vdso_base, SCHED_SNAPSHOT_SEQ_OFFSET);
        lemma_entry_addr(vdso_base, SCHED_BLOCKED_TICKS_OFFSET);
        lemma_entry_addr(vdso_base, SCHED_CLASS_COUNT_OFFSET);
        lemma_entry_addr(vdso_base, SCHED_IDLE_TICKS_OFFSET);
        lemma_entry_addr(vdso_base, SCHED_LAST_CPU_ID_OFFSET);
        lemma_entry_addr(vdso_base, SCHED_LAST_TASK_STATE_OFFSET);
        lemma_entry_addr(vdso_base, SCHED_LAST_TID_OFFSET);
        lemma_entry_addr(vdso_base, SCHED_LAST_UPDATE_NS_OFFSET);
        lemma_entry_addr(vdso_base, SCHED_PRESSURE_SCORE_OFFSET);
        lemma_entry_addr(vdso_base, SCHED_RUNNABLE_TICKS_OFFSET);
        lemma_entry_addr(vdso_base, SCHED_TICK_COUNT_OFFSET);
        lemma_entry_addr(vdso_base, SCHED_TOTAL_SYSCALLS_OFFSET);
    }
    SchedAddrs {
        snapshot_seq: vdso_base.wrapping_add(SCHED_SNAPSHOT_SEQ_OFFSET),
        blocked_ticks: vdso_base.wrapping_add(SCHED_BLOCKED_TICKS_OFFSET),
        class_count: vdso_base.wrapping_add(SCHED_CLASS_COUNT_OFFSET),
        idle_ticks: vdso_base.wrapping_add(SCHED_IDLE_TICKS_OFFSET),
        last_cpu_id: vdso_base.wrapping_add(SCHED_LAST_CPU_ID_OFFSET),
        last_task_state: vdso_base.wrapping_add(SCHED_LAST_TASK_STATE_OFFSET),
        last_tid: vdso_base.wrapping_add(SCHED_LAST_TID_OFFSET),
        last_update_ns: vdso_base.wrapping_add(SCHED_LAST_UPDATE_NS_OFFSET),
        pressure_score: vdso_base.wrapping_add(SCHED_PRESSURE_SCORE_OFFSET),
        runnable_ticks: vdso_base.wrapping_add(SCHED_RUNNABLE_TICKS_OFFSET),
        tick_count: vdso_base.wrapping_add(SCHED_TICK_COUNT_OFFSET),
        total_syscalls: vdso_base.wrapping_add(SCHED_TOTAL_SYSCALLS_OFFSET),
    }
}


/// An entry point lies at the base plus its offset, modulo the width of an
/// address; in particular exactly at the base plus the offset when that sum
/// fits in an address.
pub proof fn lemma_entry_addr(base: usize, offset: usize)
    ensures
        entry_addr(base, offset) as int == (base + offset) % (usize::MAX + 1),
        base + offset <= usize::MAX ==> entry_addr(base, offset) == base + offset,
{
    let m: int = usize::MAX + 1;
    let v: int = base + offset;
    if v > usize::MAX {
        vstd::arithmetic::div_mod::lemma_fundamental_div_mod_converse(v, m, 1, v - m);
    } else {
        vstd::arithmetic::div_mod::lemma_small_mod(v as nat, m as nat);
    }
}

} // verus!
