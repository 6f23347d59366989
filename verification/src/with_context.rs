//! Propagation of a captured store across the steps of a suspending
//! computation.

use crate::context::attaches;
use crate::context::ActiveSlot;
use crate::context::Context;
use crate::context::ContextGuard;
use vstd::prelude::*;

verus! {

/// A suspending computation together with the store that was captured when it
/// was wrapped.
///
/// The snapshot is fixed at wrap time: later changes of the wrapping unit's
/// active store do not reach it.
pub struct WithContext<T, V> {
    inner: T,
    context: Context<V>,
}

impl<T, V> WithContext<T, V> {
    /// The wrapped computation.
    pub closed spec fn inner(&self) -> T {
        self.inner
    }

    /// What the captured store holds.
    pub closed spec fn captured(&self) -> Map<u64, V> {
        self.context@
    }

    /// The captured store.
    pub fn context(&self) -> (r: &Context<V>)
        ensures
            r@ == self.captured(),
    {
        &self.context
    }

    /// Gives the wrapped computation back and drops the captured store.
    pub fn into_inner(self) -> (r: T)
        ensures
            r == self.inner(),
    {
        self.inner
    }

    /// Installs the captured store as the active one of the unit that is about
    /// to run a step of the computation.
    pub fn enter(&self, slot: &mut ActiveSlot<V>) -> (guard: ContextGuard<V>)
        ensures
            attaches(old(slot)@, self.captured(), final(slot)@, guard.previous()),
    {
        self.context.clone().attach(slot)
    }

    /// Runs one step of the computation on the unit that owns `slot`: the
    /// captured store is made active, `step` is run once on the computation,
    /// and the store that was active before is put back, whether the step
    /// completed the computation or only suspended it.
    pub fn resume<R, F: FnOnce(&mut T, &mut ActiveSlot<V>) -> R>(
        &mut self,
        slot: &mut ActiveSlot<V>,
        step: F,
    ) -> (r: R)
        requires
            forall|inner: &mut T, during: &mut ActiveSlot<V>|
                *inner == old(self).inner() && (*during)@ == old(self).captured()
                    ==> step.requires((inner, during)),
        ensures
            final(slot)@ == old(slot)@,
            final(self).captured() == old(self).captured(),
            exists|inner: &mut T, during: &mut ActiveSlot<V>|
                {
                    &&& *inner == old(self).inner()
                    &&& *final(inner) == final(self).inner()
                    &&& (*during)@ == old(self).captured()
                    &&& step.ensures((inner, during), r)
                },
    {
        let guard = self.context.clone().attach(slot);
        let r = step(&mut self.inner, slot);
        guard.release(slot);
        r
    }
}

/// Wrapping of any computation with a store.
pub trait FutureExt: Sized {
    /// Wraps the computation with `context` as its captured store.
    fn with_context<V>(self, context: Context<V>) -> (r: WithContext<Self, V>)
        ensures
            r.inner() == self,
            r.captured() == context@,
    {
        WithContext { inner: self, context }
    }

    /// Wraps the computation with a snapshot of the store that is active on
    /// the unit that owns `slot`.
    fn with_current_context<V>(self, slot: &ActiveSlot<V>) -> (r: WithContext<Self, V>)
        ensures
            r.inner() == self,
            r.captured() == slot@,
    {
        let context = Context::current(slot);
        self.with_context(context)
    }
}

impl<T: Sized> FutureExt for T {

}

} // verus!
