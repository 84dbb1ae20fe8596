use vstd::prelude::*;

verus! {

/// A syscall that fits none of the blocking classes.
pub const CLASS_OTHER: u32 = 0;
/// A syscall that waits for I/O.
pub const CLASS_IO_WAIT: u32 = 1;
/// A syscall that sleeps or yields.
pub const CLASS_SLEEP_WAIT: u32 = 2;
/// A syscall that waits on a synchronisation primitive.
pub const CLASS_SYNC_WAIT: u32 = 3;

/// The name under which a class is reported.
pub open spec fn class_name_spec(class: u32) -> Seq<char> {
    if class == CLASS_IO_WAIT {
        "io_wait"@
    } else if class == CLASS_SLEEP_WAIT {
        "sleep_wait"@
    } else if class == CLASS_SYNC_WAIT {
        "sync_wait"@
    } else {
        "other"@
    }
}

/// Human-readable name of a syscall class; every unknown class is "other".
pub fn class_name(class: u32) -> (name: &'static str)
    ensures
        name@ == class_name_spec(class),
{
    match class {
        CLASS_IO_WAIT => "io_wait",
        CLASS_SLEEP_WAIT => "sleep_wait",
        CLASS_SYNC_WAIT => "sync_wait",
        _ => "other",
    }
}


/// The syscalls classified as waiting for I/O, numbered as on the generic
/// syscall table: read (63), pread64 (67), readv (65), recvfrom (207),
/// recvmsg (212), epoll_pwait (22), ppoll (73) and pselect6 (72).
pub open spec fn is_io_wait_sysno(sysno: u32) -> bool {
    sysno == 63 || sysno == 67 || sysno == 65 || sysno == 207 || sysno == 212 || sysno == 22
        || sysno == 73 || sysno == 72
}

/// The syscalls classified as sleeping: nanosleep, clock_nanosleep and sched_yield.
pub open spec fn is_sleep_wait_sysno(sysno: u32) -> bool {
    sysno == 101 || sysno == 115 || sysno == 124
}

/// The syscall classified as waiting on synchronisation: futex.
pub open spec fn is_sync_wait_sysno(sysno: u32) -> bool {
    sysno == 98
}

/// The class of a syscall number.
pub open spec fn syscall_class(sysno: u32) -> u32 {
    if is_io_wait_sysno(sysno) {
        CLASS_IO_WAIT
    } else if is_sleep_wait_sysno(sysno) {
        CLASS_SLEEP_WAIT
    } else if is_sync_wait_sysno(sysno) {
        CLASS_SYNC_WAIT
    } else {
        CLASS_OTHER
    }
}

/// The blocking-score weight that a syscall of the given class adds.
pub open spec fn class_weight(class: u32) -> u32 {
    if class == CLASS_IO_WAIT {
        3
    } else if class == CLASS_SLEEP_WAIT {
        2
    } else if class == CLASS_SYNC_WAIT {
        4
    } else {
        1
    }
}

/// Classifies a syscall number into its class and its blocking-score weight.
pub fn classify_syscall(sysno: u32) -> (r: (u32, u32))
    ensures
        r.0 == syscall_class(sysno),
        r.1 == class_weight(r.0),
{
    match sysno {
        63 | 67 | 65 | 207 | 212 | 22 | 73 | 72 => (CLASS_IO_WAIT, 3),
        101 | 115 | 124 => (CLASS_SLEEP_WAIT, 2),
        98 => (CLASS_SYNC_WAIT, 4),
        _ => (CLASS_OTHER, 1),
    }
}

/// The value a counter holds after adding `delta` to it, where a missing
/// counter counts as zero and the sum stops at `u32::MAX`.
pub open spec fn bumped_count(current: Option<u32>, delta: u32) -> u32 {
    let base: int = match current {
        Some(v) => v as int,
        None => 0,
    };
    if base + delta > u32::MAX {
        u32::MAX
    } else {
        (base + delta) as u32
    }
}

/// Next value of a per-key counter: the current value (zero when the key is
/// absent) plus `delta`, saturating at `u32::MAX`.
pub fn next_count(current: Option<u32>, delta: u32) -> (next: u32)
    ensures
        next == bumped_count(current, delta),
{
    let base: u32 = match current {
        Some(v) => v,
        None => 0,
    };
    base.saturating_add(delta)
}


/// The map updates that one sampled syscall entry causes.
#[derive(Clone, Copy, Debug, PartialEq, Eq)]
pub struct ProbeUpdates {
    /// Key of the per-syscall total, bumped by one.
    pub total_key: u32,
    /// Key of the per-syscall blocking score, bumped by `score_delta`.
    pub score_key: u32,
    pub score_delta: u32,
    /// Key of the per-syscall last-seen timestamp, set to `seen_ns`.
    pub seen_key: u32,
    pub seen_ns: u64,
    /// Key of the class histogram entry, bumped by one.
    pub class_key: u32,
}

/// What the sampler records for one entry of syscall `sysno` at time `now_ns`:
/// the syscall's total and blocking score (by its class weight) go up, its
/// last-seen time becomes `now_ns`, and its class's histogram entry goes up.
pub fn probe_updates(sysno: u32, now_ns: u64) -> (u: ProbeUpdates)
    ensures
        u.total_key == sysno,
        u.score_key == sysno,
        u.score_delta == class_weight(syscall_class(sysno)),
        u.seen_key == sysno,
        u.seen_ns == now_ns,
        u.class_key == syscall_class(sysno),
{
    let (class, weight) = classify_syscall(sysno);
    ProbeUpdates {
        total_key: sysno,
        score_key: sysno,
        score_delta: weight,
        seen_key: sysno,
        seen_ns: now_ns,
        class_key: class,
    }
}

/// Every class that a syscall can fall into has a slot in the four-entry
/// class histogram, its weight is at least one, and its name is "other"
/// exactly when the syscall is of no blocking class.
pub proof fn lemma_classes_fit_histogram(sysno: u32)
    ensures
        syscall_class(sysno) < crate::vdso_snapshot::SCHED_CLASS_MAX,
        class_weight(syscall_class(sysno)) >= 1,
        (class_name_spec(syscall_class(sysno)) == "other"@) <==> (syscall_class(sysno)
            == CLASS_OTHER),
{
    reveal_strlit("other");
    reveal_strlit("io_wait");
    reveal_strlit("sleep_wait");
    reveal_strlit("sync_wait");
    assert("io_wait"@[0] != "other"@[0]);
    assert("sleep_wait"@[0] != "other"@[0]);
    assert("sync_wait"@[0] != "other"@[0]);
}

/// A counter value with saturation at `u32::MAX`.
pub open spec fn saturate(v: int) -> u32 {
    if v > u32::MAX {
        u32::MAX
    } else {
        v as u32
    }
}

/// Two successive bumps of a counter by `a` and then `b` leave it where one
/// bump by `a + b` would: the counter holds the saturated sum of all deltas.
pub proof fn lemma_bumps_compose(current: Option<u32>, a: u32, b: u32)
    ensures
        bumped_count(Some(bumped_count(current, a)), b) == saturate(
            match current {
                Some(v) => v as int,
                None => 0,
            } + a + b,
        ),
        bumped_count(current, a) >= match current {
            Some(v) => v as int,
            None => 0,
        },
{
}


/// The counter after `n` bumps by `delta`, starting from `current`
/// (`None` while the key is absent).
pub open spec fn repeated_bumps(current: Option<u32>, delta: u32, n: nat) -> Option<u32>
    decreases n,
{
    if n == 0 {
        current
    } else {
        Some(bumped_count(repeated_bumps(current, delta, (n - 1) as nat), delta))
    }
}

/// The value a counter starts from: zero while its key is absent.
pub open spec fn count_base(current: Option<u32>) -> int {
    match current {
        Some(v) => v as int,
        None => 0,
    }
}

proof fn lemma_saturated_step(x: int, d: int)
    requires
        x >= 0,
        d >= 0,
    ensures
        bumped_count(Some(saturate(x)), d as u32) == saturate(x + d) || d > u32::MAX,
{
}

/// After any number `n > 0` of bumps by `delta`, the counter holds the
/// starting value plus `n * delta`, saturated at `u32::MAX`.
pub proof fn lemma_repeated_bumps(current: Option<u32>, delta: u32, n: nat)
    requires
        n > 0,
    ensures
        repeated_bumps(current, delta, n) == Some(saturate(count_base(current) + n * delta)),
    decreases n,
{
    if n == 1 {
        assert(n * delta == delta);
    } else {
        let m = (n - 1) as nat;
        lemma_repeated_bumps(current, delta, m);
        assert(count_base(current) + n * delta == count_base(current) + m * delta + delta)
            by (nonlinear_arith)
            requires
                n == m + 1,
        ;
        assert(m * delta >= 0) by (nonlinear_arith);
        lemma_saturated_step(count_base(current) + m * delta, delta as int);
    }
}

/// The value a map holds at `k`, if any.
pub open spec fn map_get<V>(m: Map<u32, V>, k: u32) -> Option<V> {
    if m.dom().contains(k) {
        Some(m[k])
    } else {
        None
    }
}

/// The per-syscall totals after the probe sampled the syscall entries `hits`
/// (each a syscall number and a time), starting from an empty map and with
/// every map update succeeding.
pub open spec fn totals_after(hits: Seq<(u32, u64)>) -> Map<u32, u32>
    decreases hits.len(),
{
    if hits.len() == 0 {
        Map::empty()
    } else {
        let m = totals_after(hits.drop_last());
        let k = hits.last().0;
        m.insert(k, bumped_count(map_get(m, k), 1))
    }
}

/// The per-syscall blocking scores after the probe sampled `hits`.
pub open spec fn scores_after(hits: Seq<(u32, u64)>) -> Map<u32, u32>
    decreases hits.len(),
{
    if hits.len() == 0 {
        Map::empty()
    } else {
        let m = scores_after(hits.drop_last());
        let k = hits.last().0;
        m.insert(k, bumped_count(map_get(m, k), class_weight(syscall_class(k))))
    }
}

/// The per-syscall last-seen times after the probe sampled `hits`.
pub open spec fn seen_after(hits: Seq<(u32, u64)>) -> Map<u32, u64>
    decreases hits.len(),
{
    if hits.len() == 0 {
        Map::empty()
    } else {
        seen_after(hits.drop_last()).insert(hits.last().0, hits.last().1)
    }
}

/// The class histogram after the probe sampled `hits`.
pub open spec fn histogram_after(hits: Seq<(u32, u64)>) -> Map<u32, u32>
    decreases hits.len(),
{
    if hits.len() == 0 {
        Map::empty()
    } else {
        let m = histogram_after(hits.drop_last());
        let c = syscall_class(hits.last().0);
        m.insert(c, bumped_count(map_get(m, c), 1))
    }
}

/// How many of `hits` are on syscall `k`.
pub open spec fn hits_on(hits: Seq<(u32, u64)>, k: u32) -> nat
    decreases hits.len(),
{
    if hits.len() == 0 {
        0
    } else {
        hits_on(hits.drop_last(), k) + if hits.last().0 == k {
            1nat
        } else {
            0nat
        }
    }
}

/// How many of `hits` are on a syscall of class `c`.
pub open spec fn hits_in_class(hits: Seq<(u32, u64)>, c: u32) -> nat
    decreases hits.len(),
{
    if hits.len() == 0 {
        0
    } else {
        hits_in_class(hits.drop_last(), c) + if syscall_class(hits.last().0) == c {
            1nat
        } else {
            0nat
        }
    }
}

/// The time of the last of `hits` on syscall `k`.
pub open spec fn last_seen(hits: Seq<(u32, u64)>, k: u32) -> u64
    decreases hits.len(),
{
    if hits.len() == 0 {
        0
    } else if hits.last().0 == k {
        hits.last().1
    } else {
        last_seen(hits.drop_last(), k)
    }
}

/// After the probe sampled `hits` into empty maps (each hit recorded as
/// `probe_updates` describes, each counter bumped by `next_count`), a syscall
/// has entries exactly when it was hit; its total is its number of hits and
/// its score that number times its class weight, both saturated at
/// `u32::MAX`; its last-seen time is that of its last hit; and each class's
/// histogram entry is the saturated number of hits in that class.
pub proof fn lemma_probe_maps(hits: Seq<(u32, u64)>)
    ensures
        forall|k: u32|
            #![trigger hits_on(hits, k)]
            {
                &&& totals_after(hits).dom().contains(k) <==> hits_on(hits, k) > 0
                &&& scores_after(hits).dom().contains(k) <==> hits_on(hits, k) > 0
                &&& seen_after(hits).dom().contains(k) <==> hits_on(hits, k) > 0
                &&& hits_on(hits, k) > 0 ==> {
                    &&& totals_after(hits)[k] == saturate(hits_on(hits, k) as int)
                    &&& scores_after(hits)[k] == saturate(
                        class_weight(syscall_class(k)) * hits_on(hits, k),
                    )
                    &&& seen_after(hits)[k] == last_seen(hits, k)
                }
            },
        forall|c: u32|
            #![trigger hits_in_class(hits, c)]
            {
                &&& histogram_after(hits).dom().contains(c) <==> hits_in_class(hits, c) > 0
                &&& hits_in_class(hits, c) > 0 ==> histogram_after(hits)[c] == saturate(
                    hits_in_class(hits, c) as int,
                )
            },
    decreases hits.len(),
{
    if hits.len() > 0 {
        let pre = hits.drop_last();
        lemma_probe_maps(pre);
        let h = hits.last().0;
        assert forall|k: u32| #![trigger hits_on(hits, k)]
            {
                &&& totals_after(hits).dom().contains(k) <==> hits_on(hits, k) > 0
                &&& scores_after(hits).dom().contains(k) <==> hits_on(hits, k) > 0
                &&& seen_after(hits).dom().contains(k) <==> hits_on(hits, k) > 0
                &&& hits_on(hits, k) > 0 ==> {
                    &&& totals_after(hits)[k] == saturate(hits_on(hits, k) as int)
                    &&& scores_after(hits)[k] == saturate(
                        class_weight(syscall_class(k)) * hits_on(hits, k),
                    )
                    &&& seen_after(hits)[k] == last_seen(hits, k)
                }
            } by {
            let n = hits_on(pre, k);
            assert(hits_on(pre, k) > 0 ==> totals_after(pre).dom().contains(k));
            if k == h {
                let w = class_weight(syscall_class(k));
                assert(w * (n + 1) == w * n + w) by (nonlinear_arith);
                assert(w * n >= 0) by (nonlinear_arith)
                    requires
                        w >= 1,
                ;
                if n > 0 {
                    lemma_saturated_step(n as int, 1);
                    lemma_saturated_step(w * n, w as int);
                }
            }
        }
        assert forall|c: u32| #![trigger hits_in_class(hits, c)]
            {
                &&& histogram_after(hits).dom().contains(c) <==> hits_in_class(hits, c) > 0
                &&& hits_in_class(hits, c) > 0 ==> histogram_after(hits)[c] == saturate(
                    hits_in_class(hits, c) as int,
                )
            } by {
            let n = hits_in_class(pre, c);
            assert(n > 0 ==> histogram_after(pre).dom().contains(c));
            if c == syscall_class(h) && n > 0 {
                lemma_saturated_step(n as int, 1);
            }
        }
    }
}


/// The classes by syscall number: 63, 67, 65, 207, 212, 22, 73 and 72 wait for
/// I/O (weight 3); 101, 115 and 124 sleep (weight 2); 98 waits on
/// synchronisation (weight 4); every other number is of no blocking class
/// (weight 1).
pub proof fn lemma_syscall_classes(s: u32)
    ensures
        (syscall_class(s) == 1) <==> (s == 63 || s == 67 || s == 65 || s == 207 || s == 212 || s
            == 22 || s == 73 || s == 72),
        (syscall_class(s) == 2) <==> (s == 101 || s == 115 || s == 124),
        (syscall_class(s) == 3) <==> (s == 98),
        (syscall_class(s) == 0) <==> !(s == 63 || s == 67 || s == 65 || s == 207 || s == 212 || s
            == 22 || s == 73 || s == 72 || s == 101 || s == 115 || s == 124 || s == 98),
        class_weight(syscall_class(s)) == (if syscall_class(s) == 1 {
            3u32
        } else if syscall_class(s) == 2 {
            2u32
        } else if syscall_class(s) == 3 {
            4u32
        } else {
            1u32
        }),
{
}


/// A bump adds the delta to the counter (to zero when the key is absent),
/// and a sum that does not fit in a `u32` stops at `u32::MAX`.
pub proof fn lemma_bump_adds_or_saturates(current: Option<u32>, delta: u32)
    ensures
        current is None ==> bumped_count(current, delta) == delta,
        current matches Some(v) ==> (v + delta <= u32::MAX ==> bumped_count(current, delta) == v
            + delta),
        current matches Some(v) ==> (v + delta > u32::MAX ==> bumped_count(current, delta)
            == u32::MAX),
{
}

} // verus!
