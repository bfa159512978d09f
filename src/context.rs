//! The DPI awareness context of a thread, with scoped overrides that always
//! put the prior context back.
use vstd::prelude::*;

verus! {

/// The context in force after a run of `set_thread_context` calls from `start`.
pub open spec fn context_after(start: isize, sets: Seq<isize>) -> isize {
    if sets.len() == 0 {
        start
    } else {
        sets.last()
    }
}

/// The DPI awareness context in force on one thread, as a pseudo-handle value.
pub struct ThreadContext {
    current: isize,
}

impl View for ThreadContext {
    type V = isize;

    closed spec fn view(&self) -> isize {
        self.current
    }
}

impl ThreadContext {
    /// A thread running under `initial`.
    pub fn new(initial: isize) -> (r: Self)
        ensures
            r@ == initial,
    {
        ThreadContext { current: initial }
    }

    /// The context in force.
    pub fn get_thread_context(&self) -> (r: isize)
        ensures
            r == self@,
    {
        self.current
    }

    /// Puts `context` in force and returns the context it replaces, so that
    /// the caller can restore it.
    pub fn set_thread_context(&mut self, context: isize) -> (r: isize)
        ensures
            r == old(self)@,
            final(self)@ == context_after(old(self)@, seq![context]),
    {
        let previous = self.current;
        self.current = context;
        previous
    }

    /// Runs `work` under `context` and then restores the prior context,
    /// whether the work succeeded or failed. Each change of context is also
    /// handed to `apply`, which puts it in force on the system: `context`
    /// before the work, the prior context after it. The work is handed the
    /// context in force while it runs. The contract says that `apply` was
    /// called with both contexts; the order of the calls is the body's.
    pub fn with_thread_context<R, E, A, F>(&mut self, context: isize, apply: A, work: F) -> (r: Result<
        R,
        E,
    >) where A: Fn(isize), F: FnOnce(isize) -> Result<R, E>
        requires
            forall|c: isize| apply.requires((c,)),
            work.requires((context,)),
        ensures
            final(self)@ == old(self)@,
            work.ensures((context,), r),
            apply.ensures((context,), ()),
            apply.ensures((old(self)@,), ()),
    {
        let previous = self.set_thread_context(context);
        apply(context);
        let r = work(self.get_thread_context());
        self.set_thread_context(previous);
        apply(previous);
        r
    }
}

/// Setting a context and reading it back gives that context; restoring the
/// prior context afterwards reads back the prior one, whatever contexts the
/// work in between set and whether or not it ran to completion.
pub proof fn lemma_set_then_restore(prior: isize, context: isize, work: Seq<isize>)
    ensures
        context_after(prior, seq![context]) == context,
        context_after(prior, seq![context] + work + seq![prior]) == prior,
{
    assert((seq![context] + work + seq![prior]).last() == prior);
}

} // verus!
