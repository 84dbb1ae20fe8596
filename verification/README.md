# schedhint

Verified core of a scheduler-hint pipeline for a Rust kernel with eBPF and a
vDSO fast path:

- an eBPF kprobe samples syscall entries into four maps (per-syscall total,
  per-syscall blocking score, per-syscall last-seen time, class histogram);
- the kernel periodically snapshots the per-syscall count map into the vDSO
  page;
- user-space programs read the counts and a scheduler snapshot from the vDSO
  under a sequence lock.

Layout:

- `src/` — the library, verified with Verus:
  - `schedhint.rs`: syscall classes and weights, the per-sample map updates,
    the saturating counters, and the laws on what the maps hold after any
    number of samples;
  - `kebpf.rs`: recording map entries into the count table, the tick and
    descriptor decisions of the vDSO fast path, and the laws on whole-map
    snapshots and snapshot periods;
  - `vdso_snapshot.rs`: the sequence-lock read as a state machine
    (`seq_read_start`, `seq_read_step`) and the laws on its runs;
  - `sysno_args.rs`: command-line syscall numbers;
  - `vdso.rs`: vDSO base, entry-point addresses, task-state names.
- `tests/` — tests of the library on concrete values.
- `app/` — the programs and kernel glue that perform the I/O (vDSO calls,
  BPF map accesses, kernel file table, task spawning) and drive the library.
