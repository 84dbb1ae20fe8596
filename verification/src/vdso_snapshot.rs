use vstd::prelude::*;

verus! {

/// Number of syscall classes in the scheduler snapshot's class histogram.
pub const SCHED_CLASS_MAX: u32 = 4;

/// True when a snapshot sequence number marks a published (not in-progress) snapshot.
pub open spec fn seq_is_stable(seq: u64) -> bool {
    seq % 2 == 0
}

/// Whether one attempt of a sequence-lock read is consistent: the opening
/// sequence number was even (no publication in progress) and the closing one
/// equals it (no publication happened during the read).
pub fn seqlock_accepts(seq1: u64, seq2: u64) -> (ok: bool)
    ensures
        ok == (seq_is_stable(seq1) && seq1 == seq2),
        ok == (seq1 % 2 == 0 && seq1 == seq2),
{
    !is_odd(seq1) && seq1 == seq2
}

fn is_odd(seq: u64) -> (r: bool)
    ensures
        r == !seq_is_stable(seq),
{
    assert((seq & 1 == 0) <==> (seq % 2 == 0)) by (bit_vector);
    seq & 1 != 0
}

/// Where a sequence-lock read stands.
#[derive(Clone, Copy, Debug, PartialEq, Eq)]
pub enum SeqPhase {
    /// The current attempt waits for its opening sequence number.
    Open,
    /// The opening sequence number was odd; the reader spins before retrying.
    Spinning,
    /// The opening sequence number `seq` was even; the data are to be read.
    Data { seq: u64 },
    /// The data were read; the closing sequence number is to be compared with `seq`.
    Close { seq: u64 },
    /// The data read under sequence number `seq` form a consistent snapshot.
    Accepted { seq: u64 },
    /// Every attempt failed.
    GaveUp,
}

/// A sequence-lock read in progress: its phase, the number of the current
/// attempt (from 1) and the number of attempts allowed.
#[derive(Clone, Copy, Debug, PartialEq, Eq)]
pub struct SeqReadState {
    pub phase: SeqPhase,
    pub attempt: usize,
    pub max_retry: usize,
}

/// What the reader observed after performing the requested action.
#[derive(Clone, Copy, Debug, PartialEq, Eq)]
pub enum SeqEvent {
    /// The sequence number was read and had this value.
    SeqRead(u64),
    /// The reader spun.
    Spun,
    /// The data were read.
    DataRead,
}

/// What the reader must do next.
#[derive(Clone, Copy, Debug, PartialEq, Eq)]
pub enum SeqAction {
    /// Read the sequence number.
    ReadSeq,
    /// Spin once (a publication is in progress).
    Spin,
    /// Read the data.
    ReadData,
    /// Stop: `Some(seq)` hands back the data read under `seq`, `None` gives up.
    Return(Option<u64>),
}

impl SeqReadState {
    /// The attempt counter lies within the allowed attempts, a read gives up
    /// only when every attempt was used, and only an even number is accepted.
    pub open spec fn wf(self) -> bool {
        match self.phase {
            SeqPhase::GaveUp => self.attempt == self.max_retry,
            SeqPhase::Accepted { seq } => 1 <= self.attempt <= self.max_retry && seq_is_stable(
                seq,
            ),
            SeqPhase::Data { seq } => 1 <= self.attempt <= self.max_retry && seq_is_stable(seq),
            SeqPhase::Close { seq } => 1 <= self.attempt <= self.max_retry && seq_is_stable(seq),
            _ => 1 <= self.attempt <= self.max_retry,
        }
    }
}

/// The action that a read in state `st` asks for.
pub open spec fn action_of(st: SeqReadState) -> SeqAction {
    match st.phase {
        SeqPhase::Open => SeqAction::ReadSeq,
        SeqPhase::Spinning => SeqAction::Spin,
        SeqPhase::Data { .. } => SeqAction::ReadData,
        SeqPhase::Close { .. } => SeqAction::ReadSeq,
        SeqPhase::Accepted { seq } => SeqAction::Return(Some(seq)),
        SeqPhase::GaveUp => SeqAction::Return(None),
    }
}

/// The state in which a read allowing `max_retry` attempts begins.
pub open spec fn start_state(max_retry: usize) -> SeqReadState {
    if max_retry == 0 {
        SeqReadState { phase: SeqPhase::GaveUp, attempt: 0, max_retry }
    } else {
        SeqReadState { phase: SeqPhase::Open, attempt: 1, max_retry }
    }
}

/// After a failed attempt: the next attempt begins if one is left, else the read gives up.
pub open spec fn after_failure(st: SeqReadState) -> SeqReadState {
    if st.attempt < st.max_retry {
        SeqReadState { phase: SeqPhase::Open, attempt: (st.attempt + 1) as usize, ..st }
    } else {
        SeqReadState { phase: SeqPhase::GaveUp, ..st }
    }
}

/// Whether `ev` is what the action requested in state `st` yields.
pub open spec fn event_fits(st: SeqReadState, ev: SeqEvent) -> bool {
    match st.phase {
        SeqPhase::Open => ev is SeqRead,
        SeqPhase::Close { .. } => ev is SeqRead,
        SeqPhase::Spinning => ev is Spun,
        SeqPhase::Data { .. } => ev is DataRead,
        _ => false,
    }
}

/// The state after event `ev` in state `st`; an event that does not answer
/// the requested action leaves the state as it is.
pub open spec fn next_state(st: SeqReadState, ev: SeqEvent) -> SeqReadState {
    if !event_fits(st, ev) {
        st
    } else {
        match st.phase {
            SeqPhase::Open => match ev {
                SeqEvent::SeqRead(s) => if seq_is_stable(s) {
                    SeqReadState { phase: SeqPhase::Data { seq: s }, ..st }
                } else {
                    SeqReadState { phase: SeqPhase::Spinning, ..st }
                },
                _ => st,
            },
            SeqPhase::Spinning => after_failure(st),
            SeqPhase::Data { seq } => SeqReadState { phase: SeqPhase::Close { seq }, ..st },
            SeqPhase::Close { seq } => match ev {
                SeqEvent::SeqRead(s) => if s == seq {
                    SeqReadState { phase: SeqPhase::Accepted { seq }, ..st }
                } else {
                    after_failure(st)
                },
                _ => st,
            },
            _ => st,
        }
    }
}

/// Begins a sequence-lock read that allows `max_retry` attempts; the first
/// action reads the opening sequence number, or gives up at once when no
/// attempt is allowed.
pub fn seq_read_start(max_retry: usize) -> (r: (SeqReadState, SeqAction))
    ensures
        r.0 == start_state(max_retry),
        r.1 == action_of(r.0),
        r.0.wf(),
{
    if max_retry == 0 {
        (SeqReadState { phase: SeqPhase::GaveUp, attempt: 0, max_retry }, SeqAction::Return(None))
    } else {
        (SeqReadState { phase: SeqPhase::Open, attempt: 1, max_retry }, SeqAction::ReadSeq)
    }
}

fn failed_attempt(st: SeqReadState) -> (r: (SeqReadState, SeqAction))
    requires
        1 <= st.attempt <= st.max_retry,
    ensures
        r.0 == after_failure(st),
        r.1 == action_of(r.0),
{
    if st.attempt < st.max_retry {
        (SeqReadState { phase: SeqPhase::Open, attempt: st.attempt + 1, ..st }, SeqAction::ReadSeq)
    } else {
        (SeqReadState { phase: SeqPhase::GaveUp, ..st }, SeqAction::Return(None))
    }
}

/// One step of a sequence-lock read: given what the last action observed,
/// the next state and the next action.
///
/// An odd opening sequence number makes the reader spin and then start the
/// next attempt; an even one makes it read the data and then the closing
/// sequence number.  A closing number equal to the opening one hands back the
/// data; any other starts the next attempt.  When the attempt that failed was
/// the last one allowed, the read gives up.
pub fn seq_read_step(st: SeqReadState, ev: SeqEvent) -> (r: (SeqReadState, SeqAction))
    requires
        st.wf(),
    ensures
        r.0 == next_state(st, ev),
        r.1 == action_of(r.0),
        r.0.wf(),
{
    match st.phase {
        SeqPhase::Open => match ev {
            SeqEvent::SeqRead(s) => {
                if is_odd(s) {
                    (SeqReadState { phase: SeqPhase::Spinning, ..st }, SeqAction::Spin)
                } else {
                    (SeqReadState { phase: SeqPhase::Data { seq: s }, ..st }, SeqAction::ReadData)
                }
            },
            _ => (st, SeqAction::ReadSeq),
        },
        SeqPhase::Spinning => match ev {
            SeqEvent::Spun => failed_attempt(st),
            _ => (st, SeqAction::Spin),
        },
        SeqPhase::Data { seq } => match ev {
            SeqEvent::DataRead => (
                SeqReadState { phase: SeqPhase::Close { seq }, ..st },
                SeqAction::ReadSeq,
            ),
            _ => (st, SeqAction::ReadData),
        },
        SeqPhase::Close { seq } => match ev {
            SeqEvent::SeqRead(s) => {
                if seqlock_accepts(seq, s) {
                    (
                        SeqReadState { phase: SeqPhase::Accepted { seq }, ..st },
                        SeqAction::Return(Some(seq)),
                    )
                } else {
                    failed_attempt(st)
                }
            },
            _ => (st, SeqAction::ReadSeq),
        },
        SeqPhase::Accepted { seq } => (st, SeqAction::Return(Some(seq))),
        SeqPhase::GaveUp => (st, SeqAction::Return(None)),
    }
}


/// The state reached from `st` through the events `evs`, in order.
pub open spec fn run(st: SeqReadState, evs: Seq<SeqEvent>) -> SeqReadState
    decreases evs.len(),
{
    if evs.len() == 0 {
        st
    } else {
        next_state(run(st, evs.drop_last()), evs.last())
    }
}

/// Every event of `evs` answers the action that the read asked for at that point.
pub open spec fn fits_run(st: SeqReadState, evs: Seq<SeqEvent>) -> bool
    decreases evs.len(),
{
    if evs.len() == 0 {
        true
    } else {
        fits_run(st, evs.drop_last()) && event_fits(run(st, evs.drop_last()), evs.last())
    }
}

/// How many reads of the sequence number `evs` holds.
pub open spec fn seq_reads(evs: Seq<SeqEvent>) -> nat
    decreases evs.len(),
{
    if evs.len() == 0 {
        0
    } else {
        seq_reads(evs.drop_last()) + if evs.last() is SeqRead {
            1nat
        } else {
            0nat
        }
    }
}

/// How many reads of the data `evs` holds.
pub open spec fn data_reads(evs: Seq<SeqEvent>) -> nat
    decreases evs.len(),
{
    if evs.len() == 0 {
        0
    } else {
        data_reads(evs.drop_last()) + if evs.last() is DataRead {
            1nat
        } else {
            0nat
        }
    }
}

/// How many attempts failed along `evs`: an odd opening number (answered by
/// spinning) or a closing number different from the opening one.
pub open spec fn failed_attempts(st: SeqReadState, evs: Seq<SeqEvent>) -> nat
    decreases evs.len(),
{
    if evs.len() == 0 {
        0
    } else {
        let prev = run(st, evs.drop_last());
        let failed = match (prev.phase, evs.last()) {
            (SeqPhase::Spinning, SeqEvent::Spun) => true,
            (SeqPhase::Close { seq }, SeqEvent::SeqRead(s)) => s != seq,
            _ => false,
        };
        failed_attempts(st, evs.drop_last()) + if failed {
            1nat
        } else {
            0nat
        }
    }
}

/// Sequence reads that a read in state `st` may still perform.
pub open spec fn seq_budget(st: SeqReadState) -> int {
    let rem = st.max_retry - st.attempt;
    match st.phase {
        SeqPhase::Open => 2 * rem + 2,
        SeqPhase::Spinning => 2 * rem,
        SeqPhase::Data { .. } => 2 * rem + 1,
        SeqPhase::Close { .. } => 2 * rem + 1,
        _ => 0,
    }
}

/// Data reads that a read in state `st` may still perform.
pub open spec fn data_budget(st: SeqReadState) -> int {
    let rem = st.max_retry - st.attempt;
    match st.phase {
        SeqPhase::Open => rem + 1,
        SeqPhase::Spinning => rem,
        SeqPhase::Data { .. } => rem + 1,
        SeqPhase::Close { .. } => rem,
        _ => 0,
    }
}

/// Every state that a read reaches from its start through events that answer
/// its actions is well formed and keeps its attempt limit; the reads so far
/// plus the reads still allowed stay within `2 * max_retry` sequence reads and
/// `max_retry` data reads; the read has given up exactly when `max_retry`
/// attempts failed, and otherwise the attempts before the current one are
/// exactly the failed ones; and the phase records the events that led to it
/// (data are awaited right after an even opening read, the closing read right
/// after the data read, and a snapshot is accepted right after a closing read
/// equal to the opening one).
pub proof fn lemma_run_invariant(max_retry: usize, evs: Seq<SeqEvent>)
    requires
        fits_run(start_state(max_retry), evs),
    ensures
        ({
            let s = run(start_state(max_retry), evs);
            &&& s.wf()
            &&& s.max_retry == max_retry
            &&& seq_reads(evs) + seq_budget(s) <= 2 * max_retry
            &&& data_reads(evs) + data_budget(s) <= max_retry
            &&& s.phase is GaveUp ==> failed_attempts(start_state(max_retry), evs) == max_retry
            &&& !(s.phase is GaveUp) ==> failed_attempts(start_state(max_retry), evs) + 1
                == s.attempt
            &&& s.phase matches SeqPhase::Data { seq } ==> evs.len() >= 1 && evs.last()
                == SeqEvent::SeqRead(seq)
            &&& s.phase matches SeqPhase::Close { seq } ==> evs.len() >= 2 && evs.last()
                == SeqEvent::DataRead && evs[evs.len() - 2] == SeqEvent::SeqRead(seq)
            &&& s.phase matches SeqPhase::Accepted { seq } ==> evs.len() >= 3 && evs.last()
                == SeqEvent::SeqRead(seq) && evs[evs.len() - 2] == SeqEvent::DataRead
                && evs[evs.len() - 3] == SeqEvent::SeqRead(seq)
        }),
    decreases evs.len(),
{
    if evs.len() > 0 {
        let pre = evs.drop_last();
        lemma_run_invariant(max_retry, pre);
        let p = run(start_state(max_retry), pre);
        assert(pre.len() >= 1 ==> pre.last() == evs[evs.len() - 2]);
        assert(pre.len() >= 2 ==> pre[pre.len() - 2] == evs[evs.len() - 3]);
    }
}

/// A read hands back data only from an attempt whose opening sequence number
/// was even, whose data were read right after it, and whose closing sequence
/// number, read right after the data, equals it: the returned number is that
/// value.
pub proof fn lemma_accepted_read_is_consistent(max_retry: usize, evs: Seq<SeqEvent>, seq: u64)
    requires
        fits_run(start_state(max_retry), evs),
        run(start_state(max_retry), evs).phase == (SeqPhase::Accepted { seq }),
    ensures
        seq_is_stable(seq),
        evs.len() >= 3,
        evs[evs.len() - 3] == SeqEvent::SeqRead(seq),
        evs[evs.len() - 2] == SeqEvent::DataRead,
        evs[evs.len() - 1] == SeqEvent::SeqRead(seq),
{
    lemma_run_invariant(max_retry, evs);
}

/// A read gives up only after every one of its `max_retry` attempts failed,
/// and while it goes on, every attempt before the current one has failed.
pub proof fn lemma_give_up_after_all_attempts_failed(max_retry: usize, evs: Seq<SeqEvent>)
    requires
        fits_run(start_state(max_retry), evs),
    ensures
        run(start_state(max_retry), evs).phase is GaveUp ==> failed_attempts(
            start_state(max_retry),
            evs,
        ) == max_retry,
        !(run(start_state(max_retry), evs).phase is GaveUp) ==> failed_attempts(
            start_state(max_retry),
            evs,
        ) + 1 == run(start_state(max_retry), evs).attempt,
        (run(start_state(max_retry), evs).phase is GaveUp) <==> failed_attempts(
            start_state(max_retry),
            evs,
        ) == max_retry,
{
    lemma_run_invariant(max_retry, evs);
}

/// A read with `max_retry` attempts reads the sequence number at most
/// `2 * max_retry` times and the data at most `max_retry` times.
pub proof fn lemma_read_counts_bounded(max_retry: usize, evs: Seq<SeqEvent>)
    requires
        fits_run(start_state(max_retry), evs),
    ensures
        seq_reads(evs) <= 2 * max_retry,
        data_reads(evs) <= max_retry,
{
    lemma_run_invariant(max_retry, evs);
}

/// Data are read only right after an even opening sequence number.
pub proof fn lemma_data_read_only_when_stable(max_retry: usize, evs: Seq<SeqEvent>)
    requires
        fits_run(start_state(max_retry), evs),
        run(start_state(max_retry), evs).phase is Data,
    ensures
        evs.len() >= 1,
        evs.last() is SeqRead,
        seq_is_stable(evs.last()->SeqRead_0),
{
    lemma_run_invariant(max_retry, evs);
}


/// A sequence number marks a published snapshot exactly when it is even.
pub proof fn lemma_stable_iff_even(seq: u64)
    ensures
        seq_is_stable(seq) <==> seq % 2 == 0,
{
}

/// An odd opening sequence number is never read past: the reader spins
/// and reads no data; an even one leads to reading the data under it.
pub proof fn lemma_opening_read(st: SeqReadState, s: u64)
    requires
        st.wf(),
        st.phase == SeqPhase::Open,
    ensures
        s % 2 == 1 ==> next_state(st, SeqEvent::SeqRead(s)).phase == SeqPhase::Spinning,
        s % 2 == 0 ==> next_state(st, SeqEvent::SeqRead(s)).phase == (SeqPhase::Data { seq: s }),
        next_state(st, SeqEvent::SeqRead(s)).attempt == st.attempt,
{
}

/// A closing read hands the snapshot back exactly when it equals the opening
/// number, and the opening number of an attempt that got this far is even;
/// any other closing number fails the attempt.
pub proof fn lemma_closing_read(st: SeqReadState, opened: u64, s: u64)
    requires
        st.wf(),
        st.phase == (SeqPhase::Close { seq: opened }),
    ensures
        opened % 2 == 0,
        s == opened ==> next_state(st, SeqEvent::SeqRead(s)).phase == (SeqPhase::Accepted {
            seq: opened,
        }),
        s != opened && st.attempt < st.max_retry ==> next_state(
            st,
            SeqEvent::SeqRead(s),
        ).phase == SeqPhase::Open && next_state(st, SeqEvent::SeqRead(s)).attempt == st.attempt
            + 1,
        s != opened && st.attempt == st.max_retry ==> next_state(
            st,
            SeqEvent::SeqRead(s),
        ).phase == SeqPhase::GaveUp,
{
}

} // verus!
