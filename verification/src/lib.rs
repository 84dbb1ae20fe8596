//! Scheduler-hint statistics: syscall classification, the per-syscall
//! counters kept by the eBPF sampler, the kernel's vDSO fast-path
//! bookkeeping, and the user-side seqlock readers of the vDSO snapshots.

pub mod schedhint;
pub mod vdso_snapshot;
pub mod kebpf;
pub mod sysno_args;
pub mod vdso;
