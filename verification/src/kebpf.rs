use vstd::prelude::*;

verus! {

/// The name of the eBPF map whose per-syscall counts the kernel publishes
/// to the vDSO page.
pub open spec fn syscall_list_name() -> Seq<char> {
    "SYSCALL_LIST"@
}

/// The snapshot is refreshed on one timer tick out of this many.
pub const SYNC_PERIOD_TICKS: u32 = 10;

/// The value of four bytes read as a `u32` in the given byte order.
pub open spec fn u32_from_bytes(b: Seq<u8>, endian: vstd::endian::Endian) -> u32 {
    match endian {
        vstd::endian::Endian::Little => (b[0] + 0x100 * b[1] + 0x1_0000 * b[2] + 0x100_0000 * b[3]) as u32,
        vstd::endian::Endian::Big => (b[3] + 0x100 * b[2] + 0x1_0000 * b[1] + 0x100_0000 * b[0]) as u32,
    }
}

/// The value of four bytes read as a `u32` in the byte order of the machine.
pub open spec fn native_u32(b: Seq<u8>) -> u32 {
    u32_from_bytes(b, vstd::endian::endianness())
}

/// `u32::from_ne_bytes`: the bytes are read in the machine's own byte order
/// (little-endian on little-endian machines, big-endian on big-endian ones),
/// which vstd names `endianness()`.
#[verifier::external_body]
fn u32_from_ne_bytes(b: [u8; 4]) -> (r: u32)
    ensures
        r == native_u32(b@),
{
    u32::from_ne_bytes(b)
}

/// The per-syscall count table after one map entry `(key, value)` was visited:
/// entries whose key or value is not four bytes long, or whose syscall number
/// lies outside the table, leave it unchanged.
pub open spec fn recorded_counts(counts: Seq<u32>, key: Seq<u8>, value: Seq<u8>) -> Seq<u32> {
    if key.len() == 4 && value.len() == 4 && native_u32(key) < counts.len() {
        counts.update(native_u32(key) as int, native_u32(value))
    } else {
        counts
    }
}

/// Visits one entry of the syscall-count map: a four-byte key is a syscall
/// number and a four-byte value its count, both in the machine's byte order;
/// the count is stored in `counts` at that syscall number when it lies within
/// the table.  Always returns 0, so that the walk over the map goes on.
pub fn collect_syscall_count(counts: &mut [u32], key: &[u8], value: &[u8]) -> (r: i32)
    ensures
        r == 0,
        final(counts)@ == recorded_counts(old(counts)@, key@, value@),
{
    if key.len() != 4 || value.len() != 4 {
        return 0;
    }
    let sysno = u32_from_ne_bytes([key[0], key[1], key[2], key[3]]);
    proof {
        assert([key[0], key[1], key[2], key[3]]@ =~= key@);
    }
    if sysno as usize >= counts.len() {
        return 0;
    }
    let count = u32_from_ne_bytes([value[0], value[1], value[2], value[3]]);
    proof {
        assert([value[0], value[1], value[2], value[3]]@ =~= value@);
    }
    counts[sysno as usize] = count;
    0
}

/// What the kernel remembers between timer ticks for the vDSO fast path:
/// how many ticks have passed (wrapping), and the descriptor of the
/// syscall-count map (0 while no such map exists).
#[derive(Clone, Copy, Debug)]
pub struct FastpathState {
    pub sync_ticks: u32,
    pub syscall_list_map_fd: u32,
}

/// The descriptor whose map a tick with counter `tick` snapshots, if any:
/// only every tenth tick does, and only once a syscall-count map exists.
pub open spec fn sync_target(tick: u32, map_fd: u32) -> Option<u32> {
    if tick % SYNC_PERIOD_TICKS != 0 || map_fd == 0 {
        None
    } else {
        Some(map_fd)
    }
}

/// The map descriptor remembered after a map named `name` was created with
/// outcome `fd`: a successfully created syscall-count map replaces it.
pub open spec fn fd_after_create<E>(current: u32, name: Seq<char>, fd: Result<isize, E>) -> u32 {
    match fd {
        Ok(f) => if name == syscall_list_name() {
            f as u32
        } else {
            current
        },
        Err(_) => current,
    }
}

/// The descriptor whose map the tick numbered `tick` snapshots, given the
/// remembered syscall-count map descriptor `map_fd` (0 for none): only every
/// tenth tick snapshots, and only once such a map exists.
pub fn sync_decision(tick: u32, map_fd: u32) -> (target: Option<u32>)
    ensures
        target == sync_target(tick, map_fd),
{
    if tick % SYNC_PERIOD_TICKS != 0 {
        return None;
    }
    if map_fd == 0 {
        return None;
    }
    Some(map_fd)
}

/// The descriptor to remember after a map named `map_name` was created with
/// outcome `fd`: `Some` (truncated to 32 bits) exactly when it is the
/// syscall-count map and it got a descriptor.
pub fn syscall_list_fd<E>(map_name: &String, fd: &Result<isize, E>) -> (r: Option<u32>)
    ensures
        r == (match *fd {
            Ok(f) => if map_name@ == syscall_list_name() {
                Some(f as u32)
            } else {
                None::<u32>
            },
            Err(_) => None::<u32>,
        }),
{
    if let Ok(f) = fd {
        let target = String::from_str("SYSCALL_LIST");
        proof {
            reveal_strlit("SYSCALL_LIST");
        }
        if *map_name == target {
            return Some(*f as u32);
        }
    }
    None
}

impl FastpathState {
    /// The state at boot: no tick yet and no syscall-count map.
    pub fn new() -> (s: Self)
        ensures
            s.sync_ticks == 0,
            s.syscall_list_map_fd == 0,
    {
        FastpathState { sync_ticks: 0, syscall_list_map_fd: 0 }
    }

    /// A timer tick: the tick counter advances by one (wrapping), and the
    /// result names the map to snapshot into the vDSO page, if this tick
    /// must do so.
    pub fn on_tick(&mut self) -> (target: Option<u32>)
        ensures
            final(self).sync_ticks == old(self).sync_ticks.wrapping_add(1),
            final(self).syscall_list_map_fd == old(self).syscall_list_map_fd,
            target == sync_target(old(self).sync_ticks, old(self).syscall_list_map_fd),
    {
        let tick = self.sync_ticks;
        self.sync_ticks = tick.wrapping_add(1);
        sync_decision(tick, self.syscall_list_map_fd)
    }

    /// A map named `map_name` was created, with outcome `fd`: when it is the
    /// syscall-count map and it got a descriptor, that descriptor is
    /// remembered (truncated to 32 bits).
    pub fn on_map_created<E>(&mut self, map_name: &String, fd: &Result<isize, E>)
        ensures
            final(self).sync_ticks == old(self).sync_ticks,
            final(self).syscall_list_map_fd == fd_after_create(
                old(self).syscall_list_map_fd,
                map_name@,
                *fd,
            ),
            map_name@ != "SYSCALL_LIST"@ || fd is Err ==> final(self).syscall_list_map_fd == old(
                self,
            ).syscall_list_map_fd,
    {
        if let Some(f) = syscall_list_fd(map_name, fd) {
            self.syscall_list_map_fd = f;
        }
    }
}


/// Four bytes determine their value in either byte order, so distinct keys
/// name distinct syscalls.
pub proof fn lemma_u32_from_bytes_injective(a: Seq<u8>, b: Seq<u8>, endian: vstd::endian::Endian)
    requires
        a.len() == 4,
        b.len() == 4,
        u32_from_bytes(a, endian) == u32_from_bytes(b, endian),
    ensures
        a == b,
{
    let (a0, a1, a2, a3) = (a[0], a[1], a[2], a[3]);
    let (b0, b1, b2, b3) = (b[0], b[1], b[2], b[3]);
    match endian {
        vstd::endian::Endian::Little => {
            assert(a0 == b0 && a1 == b1 && a2 == b2 && a3 == b3) by (nonlinear_arith)
                requires
                    (a0 + 0x100 * a1 + 0x1_0000 * a2 + 0x100_0000 * a3) as u32 == (b0 + 0x100 * b1
                        + 0x1_0000 * b2 + 0x100_0000 * b3) as u32,
            ;
        },
        vstd::endian::Endian::Big => {
            assert(a0 == b0 && a1 == b1 && a2 == b2 && a3 == b3) by (nonlinear_arith)
                requires
                    (a3 + 0x100 * a2 + 0x1_0000 * a1 + 0x100_0000 * a0) as u32 == (b3 + 0x100 * b2
                        + 0x1_0000 * b1 + 0x100_0000 * b0) as u32,
            ;
        },
    }
    assert(a =~= b);
}

/// The snapshot does not depend on the order in which the map is walked:
/// visiting two entries with different keys in either order gives the same
/// table.
pub proof fn lemma_visits_commute(
    counts: Seq<u32>,
    k1: Seq<u8>,
    v1: Seq<u8>,
    k2: Seq<u8>,
    v2: Seq<u8>,
)
    requires
        k1 != k2,
    ensures
        recorded_counts(recorded_counts(counts, k1, v1), k2, v2) == recorded_counts(
            recorded_counts(counts, k2, v2),
            k1,
            v1,
        ),
{
    if k1.len() == 4 && k2.len() == 4 && native_u32(k1) == native_u32(k2) {
        lemma_u32_from_bytes_injective(k1, k2, vstd::endian::endianness());
    }
    assert(recorded_counts(recorded_counts(counts, k1, v1), k2, v2) =~= recorded_counts(
        recorded_counts(counts, k2, v2),
        k1,
        v1,
    ));
}

/// Visiting the same entry twice leaves the table as one visit does.
pub proof fn lemma_visit_idempotent(counts: Seq<u32>, k: Seq<u8>, v: Seq<u8>)
    ensures
        recorded_counts(recorded_counts(counts, k, v), k, v) == recorded_counts(counts, k, v),
{
    assert(recorded_counts(recorded_counts(counts, k, v), k, v) =~= recorded_counts(counts, k, v));
}

/// Two snapshots are never taken less than `SYNC_PERIOD_TICKS` ticks apart
/// (as long as the tick counter has not wrapped between them).
pub proof fn lemma_syncs_period_apart(t1: u32, fd1: u32, t2: u32, fd2: u32)
    requires
        sync_target(t1, fd1) is Some,
        sync_target(t2, fd2) is Some,
        t1 < t2,
    ensures
        t2 - t1 >= SYNC_PERIOD_TICKS,
{
}

/// Once the syscall-count map has been created with a non-zero descriptor,
/// the next tick on a period boundary snapshots exactly that map.
pub proof fn lemma_created_map_is_synced<E>(tick: u32, current_fd: u32, f: isize)
    requires
        tick % SYNC_PERIOD_TICKS == 0,
        f as u32 != 0,
    ensures
        sync_target(tick, fd_after_create::<E>(current_fd, syscall_list_name(), Ok(f))) == Some(
            f as u32,
        ),
{
}


/// Whether a map entry is well formed and names syscall `j`.
pub open spec fn entry_names(e: (Seq<u8>, Seq<u8>), j: int) -> bool {
    e.0.len() == 4 && e.1.len() == 4 && native_u32(e.0) == j
}

/// A count table of `n` zeros.
pub open spec fn zero_counts(n: nat) -> Seq<u32> {
    Seq::new(n, |i: int| 0u32)
}

/// The count table after the map walk visited `entries` in order, starting from `counts`.
pub open spec fn snapshot_of(counts: Seq<u32>, entries: Seq<(Seq<u8>, Seq<u8>)>) -> Seq<u32>
    decreases entries.len(),
{
    if entries.len() == 0 {
        counts
    } else {
        let e = entries.last();
        recorded_counts(snapshot_of(counts, entries.drop_last()), e.0, e.1)
    }
}

/// A walk over a map (whose keys are distinct) from a zeroed table of `n`
/// counts yields, for every syscall number `j < n`, the count of the entry
/// whose key is `j`, and 0 when no well-formed entry has that key.
pub proof fn lemma_snapshot_of_map(n: nat, entries: Seq<(Seq<u8>, Seq<u8>)>)
    requires
        forall|a: int, b: int|
            0 <= a < b < entries.len() ==> (#[trigger] entries[a]).0 != (#[trigger] entries[b]).0,
    ensures
        snapshot_of(zero_counts(n), entries).len() == n,
        forall|j: int|
            0 <= j < n && (forall|i: int| 0 <= i < entries.len() ==> !entry_names(entries[i], j))
                ==> #[trigger] snapshot_of(zero_counts(n), entries)[j] == 0,
        forall|i: int, j: int|
            0 <= i < entries.len() && 0 <= j < n && #[trigger] entry_names(entries[i], j)
                ==> #[trigger] snapshot_of(zero_counts(n), entries)[j] == native_u32(
                entries[i].1,
            ),
    decreases entries.len(),
{
    let zero = zero_counts(n);
    if entries.len() > 0 {
        let pre = entries.drop_last();
        let last = entries.last();
        let li = entries.len() - 1;
        assert forall|a: int, b: int| 0 <= a < b < pre.len() implies (#[trigger] pre[a]).0 != (
        #[trigger] pre[b]).0 by {
            assert(pre[a] == entries[a] && pre[b] == entries[b]);
        }
        lemma_snapshot_of_map(n, pre);
        let prev = snapshot_of(zero, pre);
        let cur = snapshot_of(zero, entries);
        assert forall|j: int|
            0 <= j < n && (forall|i: int| 0 <= i < entries.len() ==> !entry_names(entries[i], j))
                implies #[trigger] cur[j] == 0 by {
            assert(!entry_names(entries[li], j));
            assert forall|i: int| 0 <= i < pre.len() implies !entry_names(pre[i], j) by {
                assert(pre[i] == entries[i]);
                assert(!entry_names(entries[i], j));
            }
        }
        assert forall|i: int, j: int|
            0 <= i < entries.len() && 0 <= j < n && #[trigger] entry_names(entries[i], j)
                implies #[trigger] cur[j] == native_u32(entries[i].1) by {
            if i < li {
                assert(pre[i] == entries[i]);
                if entry_names(last, j) {
                    lemma_u32_from_bytes_injective(
                        entries[i].0,
                        last.0,
                        vstd::endian::endianness(),
                    );
                    assert(false);
                }
                assert(entry_names(pre[i], j));
            }
        }
    }
}


/// Only a successful creation of the map named `SYSCALL_LIST` changes the
/// remembered descriptor, and then to the new descriptor (cut to 32 bits);
/// creating any other map, or failing to create one, leaves it as it was.
pub proof fn lemma_only_syscall_list_is_remembered<E>(
    current: u32,
    name: Seq<char>,
    fd: Result<isize, E>,
)
    ensures
        name != "SYSCALL_LIST"@ ==> fd_after_create(current, name, fd) == current,
        fd is Err ==> fd_after_create(current, name, fd) == current,
        fd is Ok && name == "SYSCALL_LIST"@ ==> fd_after_create(current, name, fd) == (fd->Ok_0) as u32,
{
}


/// A tick snapshots the remembered map exactly when its number is a multiple
/// of ten and a map is remembered (descriptor not 0), and then that map.
pub proof fn lemma_tick_snapshots(tick: u32, map_fd: u32)
    ensures
        sync_target(tick, map_fd) == (if tick % 10 == 0 && map_fd != 0 {
            Some(map_fd)
        } else {
            None::<u32>
        }),
{
}

} // verus!
