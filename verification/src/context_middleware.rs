//! The request-handling wrapper: every inbound unit of work is handled with a
//! fixed base store as its context.

use crate::context::ActiveSlot;
use crate::context::Context;
use crate::with_context::FutureExt;
use crate::with_context::WithContext;
use vstd::prelude::*;

verus! {

/// A service whose handling runs with a fixed base store as its context.
pub struct ContextService<S, V> {
    inner: S,
    context: Context<V>,
}

impl<S, V> ContextService<S, V> {
    /// The wrapped service.
    pub closed spec fn inner(&self) -> S {
        self.inner
    }

    /// What the base store holds.
    pub closed spec fn base(&self) -> Map<u64, V> {
        self.context@
    }

    /// Wraps `inner` so that it handles its requests with `context`.
    pub fn new(inner: S, context: Context<V>) -> (r: Self)
        ensures
            r.inner() == inner,
            r.base() == context@,
    {
        ContextService { inner, context }
    }

    /// Handles one inbound unit of work on the unit that owns `slot`. The base
    /// store is active while `handler` passes `request` to the wrapped
    /// service; the store that was active before is then put back; and the
    /// computation that the service returned is wrapped with the base store,
    /// so that each of its later steps runs with it as well.
    pub fn call<Request, F, H: FnOnce(&mut S, Request, &mut ActiveSlot<V>) -> F>(
        &mut self,
        slot: &mut ActiveSlot<V>,
        request: Request,
        handler: H,
    ) -> (r: WithContext<F, V>)
        requires
            forall|inner: &mut S, during: &mut ActiveSlot<V>|
                *inner == old(self).inner() && (*during)@ == old(self).base()
                    ==> handler.requires((inner, request, during)),
        ensures
            final(slot)@ == old(slot)@,
            final(self).base() == old(self).base(),
            r.captured() == old(self).base(),
            exists|inner: &mut S, during: &mut ActiveSlot<V>|
                {
                    &&& *inner == old(self).inner()
                    &&& *final(inner) == final(self).inner()
                    &&& (*during)@ == old(self).base()
                    &&& handler.ensures((inner, request, during), r.inner())
                },
    {
        let guard = self.context.clone().attach(slot);
        let response_future = handler(&mut self.inner, request, slot);
        guard.release(slot);
        response_future.with_context(self.context.clone())
    }
}

/// Holds the base store and wraps services with it.
pub struct ContextHolder<V> {
    context: Context<V>,
}

impl<V> ContextHolder<V> {
    /// What the base store holds.
    pub closed spec fn base(&self) -> Map<u64, V> {
        self.context@
    }

    /// A holder of `context` as the base store.
    pub fn new(context: Context<V>) -> (r: Self)
        ensures
            r.base() == context@,
    {
        ContextHolder { context }
    }

    /// Wraps `inner` so that it handles its requests with the base store.
    pub fn layer<S>(&self, inner: S) -> (r: ContextService<S, V>)
        ensures
            r.inner() == inner,
            r.base() == self.base(),
    {
        ContextService::new(inner, self.context.clone())
    }
}

} // verus!
