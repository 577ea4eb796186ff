//! A value initialized exactly once, race-safely, on first access.
//!
//! The cell is a tri-state payload guarded by a `running` flag.  A first
//! caller that wins the compare-and-swap on the flag runs the initializer;
//! every other caller spins on cooperative yields until the value is ready
//! and then reads it.  The payload only ever moves forward:
//! uninitialized, then initializing, then initialized — never back.
//!
//! [`LazyCell`] is the executable cell as its owner uses it: exclusive
//! access stands in for having won the flag, so `get` either reads the
//! cached value or runs the initializer once and caches its result.  The
//! concurrent first-access race is modelled by [`CellState`] and
//! [`CellStep`], over which it is proved that no run of the protocol ever
//! starts the initializer twice.

use vstd::prelude::*;

verus! {

/// Relies on `core::mem::replace`: moves `src` into `dest` and returns
/// the value `dest` held before.
pub assume_specification<T>[ core::mem::replace ](dest: &mut T, src: T) -> (r: T)
    ensures
        r == *old(dest),
        *final(dest) == src,
;

/// The tri-state payload of a [`LazyCell`]: the pending initializer, a
/// marker while it runs, or the cached value.
pub enum LazyData<T, F> {
    /// The initializer has not run; it is stored here.
    Uninitialized(F),
    /// Some caller is running the initializer right now.
    Initializing,
    /// The initializer's result.
    Initialized(T),
}

impl<T, F> LazyData<T, F> {
    /// The cached value, if the initializer has finished.
    pub fn get_value(&self) -> (r: Option<&T>)
        ensures
            match r {
                Some(v) => self matches LazyData::Initialized(w) && v == w,
                None => !(self matches LazyData::Initialized(_)),
            },
    {
        match self {
            LazyData::Initialized(value) => Some(value),
            _ => None,
        }
    }

    /// Takes the pending initializer out, leaving the running marker.
    /// Must only be called in the uninitialized state; anywhere else the
    /// original aborts.
    pub fn start_initialize(&mut self) -> (f: F)
        requires
            old(self) matches LazyData::Uninitialized(_),
        ensures
            *old(self) matches LazyData::Uninitialized(g) && f == g,
            *final(self) is Initializing,
    {
        let taken = core::mem::replace(self, LazyData::Initializing);
        match taken {
            LazyData::Uninitialized(f) => f,
            _ => vstd::pervasive::unreached(),
        }
    }
}

/// A value computed and cached exactly once, on first access.
pub struct LazyCell<T, F> {
    running_init: bool,
    value: LazyData<T, F>,
}

impl<T, F: FnOnce() -> T> LazyCell<T, F> {
    /// The payload the next access will see.
    pub closed spec fn data(&self) -> LazyData<T, F> {
        self.value
    }

    /// The cell still holds the pending initializer `f`.
    pub open spec fn is_pending(&self, f: F) -> bool {
        self.data() matches LazyData::Uninitialized(g) && g == f
    }

    /// The cell caches the value `v`.
    pub open spec fn is_ready(&self, v: T) -> bool {
        self.data() matches LazyData::Initialized(w) && w == v
    }

    /// A new cell that will call `call` on first access.
    pub fn new(call: F) -> (r: Self)
        ensures
            r.is_pending(call),
    {
        LazyCell { running_init: false, value: LazyData::Uninitialized(call) }
    }

    /// Gets the value, running the initializer first if no caller has run
    /// it yet.  The owner's exclusive access stands in for winning the
    /// `running` flag, so the mid-initialization state cannot be observed
    /// here and is excluded.
    pub fn get(&mut self) -> (r: &T)
        requires
            !(old(self).data() is Initializing),
            old(self).data() matches LazyData::Uninitialized(f) ==> call_requires(f, ()),
        ensures
            final(self).is_ready(*r),
            forall|v: T| old(self).is_ready(v) ==> *r == v,
            forall|f: F| old(self).is_pending(f) ==> call_ensures(f, (), *r),
    {
        let run_it = match &self.value {
            LazyData::Uninitialized(_) => true,
            _ => false,
        };
        if run_it {
            self.running_init = true;
            let f = self.value.start_initialize();
            let v = f();
            self.value = LazyData::Initialized(v);
            self.running_init = false;
        }
        match &self.value {
            LazyData::Initialized(value) => value,
            _ => vstd::pervasive::unreached(),
        }
    }
}

/// The payload's phase as the concurrent protocol sees it.
#[derive(PartialEq, Eq, Structural)]
pub enum CellPhase {
    /// No caller has touched the initializer.
    Pending,
    /// A caller won the flag and is running the initializer.
    InProgress,
    /// The value is cached.
    Ready,
}

/// A snapshot of the first-access race: the `running` flag, the payload
/// phase, and how many times an initializer was ever started.
pub struct CellState {
    /// The atomic flag callers race on with compare-and-swap.
    pub running: bool,
    /// The payload's phase.
    pub phase: CellPhase,
    /// How many times a caller has started the initializer.
    pub starts: int,
}

/// One atomic step of the first-access race.
pub enum CellStep {
    /// A caller's compare-and-swap `false -> true` on the flag succeeded
    /// while the payload was still pending: it starts the initializer.
    WinFlag,
    /// The initializing caller stores the finished value and releases the
    /// flag.
    Finish,
    /// Any caller observes a ready value, or yields while another is
    /// initializing; the state does not change.
    Observe,
}

/// The step is enabled in state `s`.
pub open spec fn cell_step_enabled(s: CellState, step: CellStep) -> bool {
    match step {
        CellStep::WinFlag => !s.running && s.phase is Pending,
        CellStep::Finish => s.running && s.phase is InProgress,
        CellStep::Observe => true,
    }
}

/// The state after the step.
pub open spec fn cell_step_next(s: CellState, step: CellStep) -> CellState {
    match step {
        CellStep::WinFlag => CellState {
            running: true,
            phase: CellPhase::InProgress,
            starts: s.starts + 1,
        },
        CellStep::Finish => CellState { running: false, phase: CellPhase::Ready, ..s },
        CellStep::Observe => s,
    }
}

/// The race invariant: the initializer has been started at most once, and
/// exactly once as soon as the payload has left the pending state.  The
/// phases only move forward, so a second start can never happen.
pub open spec fn cell_inv(s: CellState) -> bool {
    match s.phase {
        CellPhase::Pending => s.starts == 0 && !s.running,
        CellPhase::InProgress => s.starts == 1,
        CellPhase::Ready => s.starts == 1,
    }
}

/// Every enabled step preserves the race invariant.
pub proof fn lemma_cell_step_preserves_inv(s: CellState, step: CellStep)
    requires
        cell_inv(s),
        cell_step_enabled(s, step),
    ensures
        cell_inv(cell_step_next(s, step)),
{
}

/// A run of the race: the state after performing `steps` in order,
/// skipping steps that are not enabled.
pub open spec fn cell_run(s: CellState, steps: Seq<CellStep>) -> CellState
    decreases steps.len(),
{
    if steps.len() == 0 {
        s
    } else {
        let s1 = if cell_step_enabled(s, steps[0]) {
            cell_step_next(s, steps[0])
        } else {
            s
        };
        cell_run(s1, steps.skip(1))
    }
}

/// Single execution over whole runs: from a fresh cell, no sequence of
/// concurrent first-access steps ever runs the initializer more than
/// once, and once any caller can read a value the initializer has run
/// exactly once.
pub proof fn lemma_cell_run_single_execution(s: CellState, steps: Seq<CellStep>)
    requires
        cell_inv(s),
    ensures
        cell_inv(cell_run(s, steps)),
        cell_run(s, steps).starts <= 1,
        cell_run(s, steps).phase is Ready ==> cell_run(s, steps).starts == 1,
    decreases steps.len(),
{
    if steps.len() > 0 {
        if cell_step_enabled(s, steps[0]) {
            lemma_cell_step_preserves_inv(s, steps[0]);
            lemma_cell_run_single_execution(cell_step_next(s, steps[0]), steps.skip(1));
        } else {
            lemma_cell_run_single_execution(s, steps.skip(1));
        }
    }
}

} // verus!
