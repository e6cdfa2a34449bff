//! A function that runs later, unless it is called off.

use vstd::prelude::*;

verus! {

/// A function that is due to run once.
#[must_use]
pub struct Deferred<F: FnOnce()>(Option<F>);

/// Whether a deferred function that stood at `before` has had its turn: it was run
/// if it was still due, and is due no longer.
pub open spec fn has_run<F: FnOnce()>(before: Option<F>, after: Option<F>) -> bool {
    &&& after is None
    &&& before matches Some(f) ==> call_ensures(f, (), ())
}

impl<F: FnOnce()> Deferred<F> {
    /// The function that is still due, if any.
    pub closed spec fn pending(&self) -> Option<F> {
        self.0
    }

    /// Calls the deferred function off: nothing is left to run.
    pub fn abort(&mut self)
        ensures
            final(self).pending() is None,
    {
        let _ = self.0.take();
    }

    /// Runs the deferred function if it is still due. A guard does this when it is
    /// dropped.
    pub fn run(&mut self)
        requires
            old(self).pending() matches Some(f) ==> call_requires(f, ()),
        ensures
            has_run(old(self).pending(), final(self).pending()),
    {
        if let Some(f) = self.0.take() {
            f()
        }
    }
}

/// Defers the given function.
#[must_use]
pub fn defer<F: FnOnce()>(f: F) -> (deferred: Deferred<F>)
    ensures
        deferred.pending() == Some(f),
{
    Deferred(Some(f))
}

/// A deferred function runs exactly once: it has run after the first turn, and a
/// second turn has nothing left to run.
pub proof fn law_runs_once<F: FnOnce()>(f: F, first: Option<F>, second: Option<F>)
    requires
        has_run(Some(f), first),
        has_run(first, second),
    ensures
        call_ensures(f, (), ()),
        first is None,
        second is None,
{
}

/// Once nothing is due, a turn asks nothing of any function and leaves nothing due:
/// what was called off does not run.
pub proof fn law_aborted_never_runs<F: FnOnce()>(after: Option<F>)
    ensures
        has_run(None::<F>, after) <==> after is None,
{
}

} // verus!
