//! A blocking mutual-exclusion lock built on the kernel futex.
//!
//! The lock is a single 32-bit word with three states.  Acquisition first
//! tries one compare-and-swap from [`M_AVAILABLE`] to [`M_LOCKED`]; on
//! failure it swaps the word to [`M_WAITED_ON`] and parks on the futex until
//! the observed previous value was [`M_AVAILABLE`].  Release decrements the
//! word; if the pre-decrement value was anything but plain [`M_LOCKED`] the
//! word is reset to [`M_AVAILABLE`] and one waiter is woken.  None of this
//! ever allocates: the lock guards the allocator itself.
//!
//! [`Mutex`] is the executable lock as the rest of the library uses it: its
//! owner holds it exclusively, so acquisition is the uncontended fast path
//! and blocking never arises.  The interleaved protocol — many threads
//! stepping the same word concurrently, each step one atomic operation —
//! is modelled by [`LockState`] and [`LockStep`], over which mutual
//! exclusion and the fast-path guarantee are proved for every run.  A
//! runtime loop that drives a real atomic word takes its decisions from
//! [`lock_entry_decision`] and [`unlock_wake_decision`], each proved to
//! agree with the protocol's steps.

use vstd::prelude::*;

verus! {

/// The lock is free.
pub const M_AVAILABLE: u32 = 0;
/// The lock is held and no thread is known to be waiting.
pub const M_LOCKED: u32 = 1;
/// The lock is held and a waiter may be parked on the futex.
pub const M_WAITED_ON: u32 = 2;

/// Witness that a [`Mutex`] was acquired; handed back on release.
pub struct MutexGuard {}

/// A mutual-exclusion lock: the state word plus the value it guards.
pub struct Mutex<T> {
    state: u32,
    inner: T,
}

impl<T> Mutex<T> {
    /// The current value of the lock's state word.
    pub closed spec fn state_word(&self) -> u32 {
        self.state
    }

    /// The guarded value.
    pub closed spec fn value(&self) -> T {
        self.inner
    }

    /// The lock is free to be acquired.
    pub open spec fn is_available(&self) -> bool {
        self.state_word() == M_AVAILABLE
    }

    /// Constructs a new free mutex guarding `inner`.
    pub fn new(inner: T) -> (r: Self)
        ensures
            r.is_available(),
            r.value() == inner,
    {
        Mutex { state: M_AVAILABLE, inner }
    }

    /// Gets a mutable reference to the guarded value.  Exclusive access to
    /// the lock itself stands in for holding it.
    pub fn get_mut(&mut self) -> (r: &mut T)
        ensures
            *r == old(self).value(),
            final(self).value() == *final(r),
            final(self).state_word() == old(self).state_word(),
    {
        &mut self.inner
    }

    /// Gets a shared reference to the guarded value.
    pub fn get(&self) -> (r: &T)
        ensures
            *r == self.value(),
    {
        &self.inner
    }

    /// Acquires the lock.  With the lock held exclusively by its owner,
    /// only the uncontended fast path arises: one compare-and-swap from
    /// [`M_AVAILABLE`] to [`M_LOCKED`], no futex call.  A lock that is not
    /// available here could only be waited on forever, so that state is
    /// excluded up front.
    pub fn lock(&mut self) -> (g: MutexGuard)
        requires
            old(self).is_available(),
        ensures
            final(self).state_word() == M_LOCKED,
            final(self).value() == old(self).value(),
    {
        self.state = M_LOCKED;
        MutexGuard {}
    }

    /// Attempts to acquire the lock without blocking: a single
    /// compare-and-swap that succeeds exactly when the lock is available.
    pub fn try_lock(&mut self) -> (g: Option<MutexGuard>)
        ensures
            final(self).value() == old(self).value(),
            old(self).is_available() ==> g is Some && final(self).state_word() == M_LOCKED,
            !old(self).is_available() ==> g is None && *final(self) == *old(self),
    {
        if self.state == M_AVAILABLE {
            self.state = M_LOCKED;
            Some(MutexGuard {})
        } else {
            None
        }
    }

    /// Releases the lock unconditionally.  Returns whether a waiter must
    /// be woken: only when the pre-release word was not plain
    /// [`M_LOCKED`], so an uncontended cycle performs no wake call.
    pub fn force_unlock(&mut self) -> (wake: bool)
        ensures
            final(self).is_available(),
            final(self).value() == old(self).value(),
            wake == (old(self).state_word() != M_LOCKED),
    {
        let wake = self.state != M_LOCKED;
        self.state = M_AVAILABLE;
        wake
    }

    /// Releases the lock acquired by [`Self::lock`] or [`Self::try_lock`],
    /// consuming its guard.
    pub fn unlock(&mut self, g: MutexGuard) -> (wake: bool)
        ensures
            final(self).is_available(),
            final(self).value() == old(self).value(),
            wake == (old(self).state_word() != M_LOCKED),
    {
        let MutexGuard {} = g;
        self.force_unlock()
    }
}

/// Where one thread stands in the lock protocol.
#[derive(PartialEq, Eq, Structural)]
pub enum ThreadPhase {
    /// Not interested in the lock.
    Idle,
    /// Parked on (or about to park on) the futex word.
    Waiting,
    /// Inside the critical section.
    Holding,
}

/// A snapshot of the whole protocol: the shared state word, each thread's
/// phase, and the shared counter the critical sections increment.
pub struct LockState {
    /// The futex word.
    pub word: u32,
    /// Phase of every thread, by thread id.
    pub threads: Map<int, ThreadPhase>,
    /// A value only ever mutated inside the critical section.
    pub counter: int,
}

/// One atomic step of the lock protocol by thread `t`.
pub enum LockStep {
    /// The compare-and-swap `AVAILABLE -> LOCKED` succeeded.
    FastAcquire { t: int },
    /// The fast path failed: swap the word to `WAITED_ON` and inspect the
    /// previous value; acquire if it was `AVAILABLE`, else wait.
    Enter { t: int },
    /// Woken (perhaps spuriously): swap to `WAITED_ON` again and inspect
    /// the previous value; acquire if it was `AVAILABLE`, else wait again.
    Retry { t: int },
    /// One increment of the shared counter inside the critical section.
    Increment { t: int },
    /// Release: decrement, and if the word was not plain `LOCKED`, store
    /// `AVAILABLE` and wake one waiter.
    Release { t: int },
}

impl LockState {
    /// Thread `t` exists and is in phase `p`.
    pub open spec fn phase_is(self, t: int, p: ThreadPhase) -> bool {
        self.threads.dom().contains(t) && self.threads[t] == p
    }
}

/// The step is enabled: its thread is in the phase from which the atomic
/// operation is issued, and for the fast path the compare succeeded.
pub open spec fn lock_step_enabled(s: LockState, step: LockStep) -> bool {
    match step {
        LockStep::FastAcquire { t } => s.phase_is(t, ThreadPhase::Idle) && s.word == M_AVAILABLE,
        LockStep::Enter { t } => s.phase_is(t, ThreadPhase::Idle),
        LockStep::Retry { t } => s.phase_is(t, ThreadPhase::Waiting),
        LockStep::Increment { t } => s.phase_is(t, ThreadPhase::Holding),
        LockStep::Release { t } => s.phase_is(t, ThreadPhase::Holding),
    }
}

/// The state after the step: each arm performs exactly one atomic
/// operation on the word and moves its thread accordingly.
pub open spec fn lock_step_next(s: LockState, step: LockStep) -> LockState {
    match step {
        LockStep::FastAcquire { t } => LockState {
            word: M_LOCKED,
            threads: s.threads.insert(t, ThreadPhase::Holding),
            ..s
        },
        LockStep::Enter { t } => LockState {
            word: M_WAITED_ON,
            threads: s.threads.insert(
                t,
                if s.word == M_AVAILABLE {
                    ThreadPhase::Holding
                } else {
                    ThreadPhase::Waiting
                },
            ),
            ..s
        },
        LockStep::Retry { t } => LockState {
            word: M_WAITED_ON,
            threads: s.threads.insert(
                t,
                if s.word == M_AVAILABLE {
                    ThreadPhase::Holding
                } else {
                    ThreadPhase::Waiting
                },
            ),
            ..s
        },
        LockStep::Increment { t } => LockState { counter: s.counter + 1, ..s },
        LockStep::Release { t } => LockState {
            word: M_AVAILABLE,
            threads: s.threads.insert(t, ThreadPhase::Idle),
            ..s
        },
    }
}

/// The step parks its thread on the futex: it observed a held word while
/// trying to acquire.
pub open spec fn lock_step_waits(s: LockState, step: LockStep) -> bool {
    match step {
        LockStep::Enter { t } => s.word != M_AVAILABLE,
        LockStep::Retry { t } => s.word != M_AVAILABLE,
        _ => false,
    }
}

/// The step issues a futex wake: a release that found the word contended.
pub open spec fn lock_step_wakes(s: LockState, step: LockStep) -> bool {
    match step {
        LockStep::Release { t } => s.word != M_LOCKED,
        _ => false,
    }
}

/// The protocol invariant: at most one thread is ever in the critical
/// section, and a free word means nobody is.
pub open spec fn lock_inv(s: LockState) -> bool {
    &&& forall|t1: int, t2: int|
        #[trigger] s.phase_is(t1, ThreadPhase::Holding) && #[trigger] s.phase_is(
            t2,
            ThreadPhase::Holding,
        ) ==> t1 == t2
    &&& s.word == M_AVAILABLE ==> forall|t: int| !(#[trigger] s.phase_is(t, ThreadPhase::Holding))
}

/// Every enabled step of the lock protocol preserves the invariant: no
/// interleaving of fast acquisitions, futex waits, wakeups and releases
/// ever lets two threads hold the lock at once.
pub proof fn lemma_lock_step_preserves_inv(s: LockState, step: LockStep)
    requires
        lock_inv(s),
        lock_step_enabled(s, step),
    ensures
        lock_inv(lock_step_next(s, step)),
{
    let s2 = lock_step_next(s, step);
    match step {
        LockStep::FastAcquire { t } => {
            assert forall|t1: int, t2: int|
                #[trigger] s2.phase_is(t1, ThreadPhase::Holding) && #[trigger] s2.phase_is(
                    t2,
                    ThreadPhase::Holding,
                ) implies t1 == t2 by {
                if t1 != t {
                    assert(s.phase_is(t1, ThreadPhase::Holding));
                }
                if t2 != t {
                    assert(s.phase_is(t2, ThreadPhase::Holding));
                }
            }
        },
        LockStep::Enter { t } => {
            assert forall|t1: int, t2: int|
                #[trigger] s2.phase_is(t1, ThreadPhase::Holding) && #[trigger] s2.phase_is(
                    t2,
                    ThreadPhase::Holding,
                ) implies t1 == t2 by {
                if t1 != t {
                    assert(s.phase_is(t1, ThreadPhase::Holding));
                }
                if t2 != t {
                    assert(s.phase_is(t2, ThreadPhase::Holding));
                }
            }
        },
        LockStep::Retry { t } => {
            assert forall|t1: int, t2: int|
                #[trigger] s2.phase_is(t1, ThreadPhase::Holding) && #[trigger] s2.phase_is(
                    t2,
                    ThreadPhase::Holding,
                ) implies t1 == t2 by {
                if t1 != t {
                    assert(s.phase_is(t1, ThreadPhase::Holding));
                }
                if t2 != t {
                    assert(s.phase_is(t2, ThreadPhase::Holding));
                }
            }
        },
        LockStep::Increment { t } => {
            assert(s2.threads == s.threads);
            assert forall|t1: int, t2: int|
                #[trigger] s2.phase_is(t1, ThreadPhase::Holding) && #[trigger] s2.phase_is(
                    t2,
                    ThreadPhase::Holding,
                ) implies t1 == t2 by {
                assert(s.phase_is(t1, ThreadPhase::Holding));
                assert(s.phase_is(t2, ThreadPhase::Holding));
            }
            if s2.word == M_AVAILABLE {
                assert forall|t1: int| !(#[trigger] s2.phase_is(t1, ThreadPhase::Holding)) by {
                    if s.phase_is(t1, ThreadPhase::Holding) {
                        assert(s.phase_is(t, ThreadPhase::Holding));
                    }
                }
            }
        },
        LockStep::Release { t } => {
            assert forall|t1: int| !(#[trigger] s2.phase_is(t1, ThreadPhase::Holding)) by {
                if t1 != t {
                    assert(!s.phase_is(t1, ThreadPhase::Holding));
                }
            }
        },
    }
}

/// A run of the protocol: the state after performing `steps` in order,
/// skipping any step that is not enabled (a disabled step cannot happen:
/// its thread is not at that point of the protocol).
pub open spec fn lock_run(s: LockState, steps: Seq<LockStep>) -> LockState
    decreases steps.len(),
{
    if steps.len() == 0 {
        s
    } else {
        let s1 = if lock_step_enabled(s, steps[0]) {
            lock_step_next(s, steps[0])
        } else {
            s
        };
        lock_run(s1, steps.skip(1))
    }
}

/// Number of critical-section increments in a run.
pub open spec fn lock_run_increments(s: LockState, steps: Seq<LockStep>) -> int
    decreases steps.len(),
{
    if steps.len() == 0 {
        0
    } else {
        let here: int = if lock_step_enabled(s, steps[0]) && (steps[0] is Increment) {
            1
        } else {
            0
        };
        here + lock_run_increments(
            if lock_step_enabled(s, steps[0]) {
                lock_step_next(s, steps[0])
            } else {
                s
            },
            steps.skip(1),
        )
    }
}

/// Mutual exclusion over whole runs: from any state satisfying the
/// invariant, every sequence of protocol steps keeps it — there is never a
/// moment with two holders — and the shared counter ends exactly at its
/// start plus the number of increments performed, each of which happened
/// with its thread alone in the critical section.
pub proof fn lemma_lock_run_exclusion(s: LockState, steps: Seq<LockStep>)
    requires
        lock_inv(s),
    ensures
        lock_inv(lock_run(s, steps)),
        lock_run(s, steps).counter == s.counter + lock_run_increments(s, steps),
    decreases steps.len(),
{
    if steps.len() > 0 {
        if lock_step_enabled(s, steps[0]) {
            lemma_lock_step_preserves_inv(s, steps[0]);
            lemma_lock_run_exclusion(lock_step_next(s, steps[0]), steps.skip(1));
        } else {
            lemma_lock_run_exclusion(s, steps.skip(1));
        }
    }
}

/// The decision a contending thread takes after swapping the word to
/// [`M_WAITED_ON`]: the previous value the swap returned says whether the
/// lock was just acquired (it was available) or the thread must park on
/// the futex and retry.  Agrees with the protocol's `Enter` and `Retry`
/// steps, so a runtime loop driven by this decision follows the proved
/// state machine.
pub fn lock_entry_decision(observed: u32) -> (acquired: bool)
    ensures
        acquired == (observed == M_AVAILABLE),
        forall|s: LockState, t: int|
            s.word == observed && #[trigger] lock_step_enabled(s, LockStep::Enter { t }) ==> {
                &&& lock_step_next(s, LockStep::Enter { t }).phase_is(
                    t,
                    if acquired {
                        ThreadPhase::Holding
                    } else {
                        ThreadPhase::Waiting
                    },
                )
                &&& lock_step_waits(s, LockStep::Enter { t }) == !acquired
            },
        forall|s: LockState, t: int|
            s.word == observed && #[trigger] lock_step_enabled(s, LockStep::Retry { t }) ==> {
                &&& lock_step_next(s, LockStep::Retry { t }).phase_is(
                    t,
                    if acquired {
                        ThreadPhase::Holding
                    } else {
                        ThreadPhase::Waiting
                    },
                )
                &&& lock_step_waits(s, LockStep::Retry { t }) == !acquired
            },
{
    observed == M_AVAILABLE
}

/// The decision at release: the word's value before it is reset to
/// [`M_AVAILABLE`] says whether a waiter may be parked and one wake call
/// is owed.  Agrees with the protocol's `Release` step.
pub fn unlock_wake_decision(observed: u32) -> (wake: bool)
    ensures
        wake == (observed != M_LOCKED),
        forall|s: LockState, t: int|
            s.word == observed && #[trigger] lock_step_enabled(s, LockStep::Release { t })
                ==> lock_step_wakes(s, LockStep::Release { t }) == wake,
{
    observed != M_LOCKED
}

/// The uncontended fast path performs no futex call: acquiring a free
/// lock does not wait, and the release that follows, finding the word
/// still plain `LOCKED`, does not wake; the lock ends free again.
pub proof fn lemma_lock_fast_path_no_futex(s: LockState, t: int)
    requires
        lock_inv(s),
        s.phase_is(t, ThreadPhase::Idle),
        s.word == M_AVAILABLE,
    ensures
        lock_step_enabled(s, LockStep::FastAcquire { t }),
        !lock_step_waits(s, LockStep::FastAcquire { t }),
        lock_step_enabled(lock_step_next(s, LockStep::FastAcquire { t }), LockStep::Release { t }),
        !lock_step_wakes(lock_step_next(s, LockStep::FastAcquire { t }), LockStep::Release { t }),
        lock_step_next(
            lock_step_next(s, LockStep::FastAcquire { t }),
            LockStep::Release { t },
        ).word == M_AVAILABLE,
{
}

} // verus!
