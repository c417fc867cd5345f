//! Newton-Raphson solver control: a state machine over the iteration budget
//! and the convergence test, plus the fallback policy for failed searches.
//!
//! The driver that owns the floating-point work evaluates one Newton step at
//! a time and reports to [`NewtonControl`] whether the step's deviation met
//! the tolerance.  The machine decides whether to keep iterating, and
//! classifies the run as converged or exhausted.  [`process_impl_vol_result`]
//! then decides which volatility a failed search surfaces: the residual
//! iterate when it is a usable number, or the closed-form initial guess.

use vstd::prelude::*;

verus! {

/// Hard cap on Newton-Raphson iterations for the implied-volatility search.
pub const ITER: u32 = 60000;

/// Phase of one implied-volatility search.
///
/// A search starts `Seeded` with the closed-form initial guess, moves to
/// `Iterating` while Newton-Raphson steps are recorded, and ends `Converged`
/// when a step's deviation meets the tolerance or `Exhausted` when the
/// iteration budget runs out first.  Whether an exhausted run's residual is
/// usable or the iteration in fact diverged is classified afterwards, by
/// [`process_impl_vol_result`].
#[derive(Clone, Copy, Debug, PartialEq, Eq, Structural)]
pub enum SolverPhase {
    Seeded,
    Iterating,
    Converged,
    Exhausted,
}

/// Decision state of one Newton-Raphson run.
///
/// `history` is the ghost record of every step reported so far: entry `i` is
/// true when step `i`'s deviation met the tolerance.  The well-formedness
/// invariant ties the phase to that record, so a well-formed machine can be
/// `Converged` only because its last recorded step met the tolerance, and
/// `Exhausted` only after a full budget of steps that all missed it.
pub struct NewtonControl {
    /// Iteration budget the run was started with.
    pub cap: u32,
    /// Number of steps recorded so far.
    pub performed: u32,
    /// Current phase of the search.
    pub phase: SolverPhase,
    /// Ghost record of the reported convergence tests, one per step.
    pub history: Ghost<Seq<bool>>,
}

impl NewtonControl {
    /// The machine's invariant: the phase agrees with the recorded history.
    pub open spec fn wf(self) -> bool {
        &&& self.history@.len() == self.performed
        &&& self.performed <= self.cap
        &&& (self.phase is Seeded ==> self.performed == 0)
        &&& (self.phase is Iterating ==> 0 < self.performed < self.cap)
        &&& (self.phase is Exhausted ==> self.performed == self.cap && self.cap > 0)
        &&& (self.phase is Converged ==> 0 < self.performed)
        &&& (forall|i: int|
            0 <= i < self.history@.len() ==> (self.history@[i] <==> (
                self.phase is Converged && i == self.performed - 1
            )))
    }

    /// A running machine still accepts steps: it has reached no verdict and
    /// has budget left.
    pub open spec fn is_running(self) -> bool {
        (self.phase is Seeded || self.phase is Iterating) && self.performed < self.cap
    }

    /// Start a search that may spend at most `cap` Newton-Raphson steps.
    pub fn new(cap: u32) -> (s: Self)
        ensures
            s.wf(),
            s.phase is Seeded,
            s.cap == cap,
            s.performed == 0,
            s.history@ == Seq::<bool>::empty(),
    {
        NewtonControl { cap, performed: 0, phase: SolverPhase::Seeded, history: Ghost(Seq::empty()) }
    }

    /// Record one Newton-Raphson step.
    ///
    /// `within_tolerance` reports whether the step's absolute deviation met
    /// the convergence tolerance.  A step that meets it ends the search as
    /// `Converged`; one that misses it on the last budgeted iteration ends
    /// the search as `Exhausted`; otherwise the search keeps `Iterating`.
    pub fn record_step(&mut self, within_tolerance: bool)
        requires
            old(self).wf(),
            old(self).is_running(),
        ensures
            final(self).wf(),
            final(self).cap == old(self).cap,
            final(self).performed == old(self).performed + 1,
            final(self).history@ == old(self).history@.push(within_tolerance),
            within_tolerance <==> final(self).phase is Converged,
            !within_tolerance && old(self).performed + 1 < old(self).cap ==> final(self).phase is Iterating,
            !within_tolerance && old(self).performed + 1 == old(self).cap ==> final(self).phase is Exhausted,
    {
        let ghost past = self.history@;
        self.performed = self.performed + 1;
        self.history = Ghost(past.push(within_tolerance));
        if within_tolerance {
            self.phase = SolverPhase::Converged;
        } else if self.performed == self.cap {
            self.phase = SolverPhase::Exhausted;
        } else {
            self.phase = SolverPhase::Iterating;
        }
    }

    /// Whether the search should take another step.
    pub fn running(&self) -> (r: bool)
        ensures
            r == self.is_running(),
    {
        let live = match self.phase {
            SolverPhase::Seeded => true,
            SolverPhase::Iterating => true,
            SolverPhase::Converged => false,
            SolverPhase::Exhausted => false,
        };
        live && self.performed < self.cap
    }

    /// Whether the search ended with a step that met the tolerance.
    pub fn converged(&self) -> (r: bool)
        ensures
            r == (self.phase is Converged),
    {
        match self.phase {
            SolverPhase::Converged => true,
            _ => false,
        }
    }

    /// Number of Newton-Raphson steps recorded so far.
    pub fn steps_performed(&self) -> (n: u32)
        ensures
            n == self.performed,
    {
        self.performed
    }

    /// The iteration budget the search was started with.
    pub fn iteration_cap(&self) -> (n: u32)
        ensures
            n == self.cap,
    {
        self.cap
    }
}

/// An exhausted search never missed a convergence signal: every recorded
/// step's deviation was outside the tolerance, and the whole budget was
/// spent.  This is what entitles the caller to treat the residual iterate
/// as a best effort rather than an overlooked root.
pub proof fn lemma_exhausted_run_never_met_tolerance(s: NewtonControl)
    requires
        s.wf(),
        s.phase is Exhausted,
    ensures
        s.performed == s.cap,
        forall|i: int| 0 <= i < s.history@.len() ==> !s.history@[i],
{
}

/// Replay a whole schedule of convergence reports against a fresh machine.
///
/// Entry `i` of `reports` plays the role of the `i`-th Newton-Raphson step's
/// tolerance test.  The run consumes reports in order until the machine
/// reaches a verdict or the schedule ends.  The contract states the
/// machine's declarative meaning: the search converges exactly when some
/// step within the iteration budget meets the tolerance, and exhausts
/// exactly when a full budget of steps is available and every budgeted step
/// misses it.
pub fn run_schedule(cap: u32, reports: &Vec<bool>) -> (s: NewtonControl)
    ensures
        s.wf(),
        s.cap == cap,
        s.history@ == reports@.take(s.performed as int),
        (s.phase is Converged <==> exists|i: int|
            0 <= i < cap && i < reports@.len() && reports@[i]),
        (s.phase is Exhausted <==> (0 < cap <= reports@.len() && forall|i: int|
            0 <= i < cap ==> !reports@[i])),
        s.phase is Converged ==> (0 < s.performed && reports@[s.performed - 1] && forall|i: int|
            0 <= i < s.performed - 1 ==> !reports@[i]),
        s.is_running() ==> (s.performed == reports@.len() && forall|i: int|
            0 <= i < reports@.len() ==> !reports@[i]),
{
    let mut s = NewtonControl::new(cap);
    let mut k: usize = 0;
    loop
        invariant
            s.wf(),
            s.cap == cap,
            k <= reports@.len(),
            s.performed as int == k as int,
            s.history@ =~= reports@.take(k as int),
            s.phase is Seeded || s.phase is Iterating || s.phase is Converged || s.phase
                is Exhausted,
        ensures
            k >= reports@.len() || !s.is_running(),
        decreases reports@.len() - k,
    {
        if k >= reports.len() {
            break;
        }
        if !s.running() {
            break;
        }
        let b = reports[k];
        s.record_step(b);
        proof {
            assert(reports@.take(k + 1) =~= reports@.take(k as int).push(reports@[k as int]));
        }
        k = k + 1;
    }
    proof {
        let n = s.performed as int;
        assert forall|i: int| 0 <= i < n implies s.history@[i] == reports@[i] by {
            assert(reports@.take(n)[i] == reports@[i]);
        }
        if s.phase is Converged {
            assert(reports@[n - 1]);
        }
    }
    s
}

/// Fallback policy for a finished implied-volatility search.
///
/// A successful search is passed through unchanged.  A failed one carries
/// the residual iterate; `err_is_normal` reports whether that residual is a
/// normal number (finite, nonzero, not subnormal — the caller evaluates the
/// floating-point classification).  A usable residual is surfaced as the
/// failure payload; a diverged one is replaced by `vol_guess`, the
/// closed-form initial estimate, so the caller of a failed search always
/// receives the best value the run produced rather than the wreckage of a
/// blown-up iteration.
pub fn process_impl_vol_result<T>(r: Result<T, T>, err_is_normal: bool, vol_guess: T) -> (out:
    Result<T, T>)
    ensures
        r is Ok ==> out == r,
        r is Err && err_is_normal ==> out == r,
        r is Err && !err_is_normal ==> (out matches Err(g) && g == vol_guess),
{
    match r {
        Ok(v) => Ok(v),
        Err(e) => {
            if err_is_normal {
                Err(e)
            } else {
                Err(vol_guess)
            }
        },
    }
}

} // verus!
