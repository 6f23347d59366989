//! The context store, the active slot of an execution unit, and the guard that
//! restores the slot.

use std::collections::HashMap;
use std::sync::Arc;
use vstd::prelude::*;

verus! {

broadcast use vstd::std_specs::hash::group_hash_axioms;

/// A value bag keyed by the identity of a value's kind.
///
/// A store holds at most one value per key. Deriving a store from another
/// leaves the other untouched; the two share the values they have in common.
pub struct Context<V> {
    entries: HashMap<u64, Arc<V>>,
}

impl<V> View for Context<V> {
    type V = Map<u64, V>;

    /// The store as a map from key to value.
    closed spec fn view(&self) -> Map<u64, V> {
        Map::new(|k: u64| self.entries@.contains_key(k), |k: u64| *self.entries@[k])
    }
}

/// What `Arc::try_unwrap` hands back for a shared value: the value itself
/// when no other reference to it is alive, else the same reference.
#[verifier::external_body]
fn unwrap_shared<V>(shared: Arc<V>) -> (r: Result<V, Arc<V>>)
    ensures
        match r {
            Ok(v) => v == *shared,
            Err(a) => a == shared,
        },
{
    Arc::try_unwrap(shared)
}

/// The value that leaves a store, given what unwrapping its reference gave:
/// the value where the store held the only reference, nothing otherwise.
pub fn sole_value<V>(unwrapped: Result<V, Arc<V>>) -> (r: Option<V>)
    ensures
        r == match unwrapped {
            Ok(v) => Some(v),
            Err(_) => None::<V>,
        },
{
    match unwrapped {
        Ok(v) => Some(v),
        Err(_) => None,
    }
}

impl<V> Clone for Context<V> {
    /// A second holder of the same entries: the values are shared, not copied.
    fn clone(&self) -> (r: Self)
        ensures
            r@ == self@,
    {
        let r = Context { entries: self.entries.clone() };
        assert(r@ =~= self@);
        r
    }
}

impl<V> Default for Context<V> {
    fn default() -> (r: Self)
        ensures
            r@ == Map::<u64, V>::empty(),
    {
        Context::new()
    }
}

/// The cell of one execution unit that holds the store current on it.
///
/// Each unit owns exactly one slot and never shares it.
pub struct ActiveSlot<V> {
    current: Context<V>,
}

impl<V> View for ActiveSlot<V> {
    type V = Map<u64, V>;

    /// What the active store holds.
    closed spec fn view(&self) -> Map<u64, V> {
        self.current@
    }
}

/// Restores, on release, the store that was active when it was made.
pub struct ContextGuard<V> {
    previous_cx: Context<V>,
}

impl<V> ContextGuard<V> {
    /// What the store held that was active just before the attach that made
    /// this guard.
    pub closed spec fn previous(&self) -> Map<u64, V> {
        self.previous_cx@
    }

    /// Puts the store that was active before the attach back into the slot.
    ///
    /// Guards of one unit are released in the reverse order of their making;
    /// whatever the order, the slot holds this guard's prior store afterwards.
    pub fn release(self, slot: &mut ActiveSlot<V>)
        ensures
            releases(old(slot)@, self.previous(), final(slot)@),
    {
        slot.current = self.previous_cx;
    }
}

/// What a store that holds `store` gives for `key`.
pub open spec fn lookup<V>(store: Map<u64, V>, key: u64) -> Option<V> {
    if store.contains_key(key) {
        Some(store[key])
    } else {
        None
    }
}

/// Taking `key` out of a store that held `before`: the entry is gone
/// `after` it, whether or not its value could be handed out; a value that is
/// handed out is the one the store held; and nothing is handed out of a store
/// that held nothing under `key`.
pub open spec fn takes<V>(before: Map<u64, V>, key: u64, after: Map<u64, V>, taken: Option<V>) -> bool {
    &&& after == before.remove(key)
    &&& taken matches Some(v) ==> lookup(before, key) == Some(v)
    &&& lookup(before, key) is None ==> taken is None
}

/// An attach of a store holding `store` to a slot holding `before`: the slot
/// then holds `after`, and the guard remembers `guarded`.
pub open spec fn attaches<V>(
    before: Map<u64, V>,
    store: Map<u64, V>,
    after: Map<u64, V>,
    guarded: Map<u64, V>,
) -> bool {
    after == store && guarded == before
}

/// The release of a guard that remembers `guarded`: the slot then holds
/// `after`, whatever it held `before`.
pub open spec fn releases<V>(before: Map<u64, V>, guarded: Map<u64, V>, after: Map<u64, V>) -> bool {
    after == guarded
}

impl<V> ActiveSlot<V> {
    /// The slot of a unit on which nothing was attached yet: its store is
    /// empty.
    pub fn new() -> (r: Self)
        ensures
            r@ == Map::<u64, V>::empty(),
    {
        ActiveSlot { current: Context::new() }
    }

    /// The active store itself, as the slot holds it.
    pub closed spec fn active(&self) -> Context<V> {
        self.current
    }

    /// The active store holds what the slot's view says.
    pub proof fn active_holds_view(&self)
        ensures
            self.active()@ == self@,
    {
    }
}

impl<V> Context<V> {
    /// The empty store.
    pub fn new() -> (r: Self)
        ensures
            r@ == Map::<u64, V>::empty(),
    {
        let r = Context { entries: HashMap::new() };
        assert(r@ =~= Map::<u64, V>::empty());
        r
    }

    /// A clone of the store active on the unit that owns `slot`.
    pub fn current(slot: &ActiveSlot<V>) -> (r: Self)
        ensures
            r@ == slot@,
    {
        slot.current.clone()
    }

    /// Runs `f` on the active store by reference, without cloning it, and
    /// returns what `f` returns.
    pub fn map_current<T, F: FnOnce(&Context<V>) -> T>(slot: &ActiveSlot<V>, f: F) -> (r: T)
        requires
            f.requires((&slot.active(),)),
        ensures
            f.ensures((&slot.active(),), r),
    {
        f(&slot.current)
    }

    /// A clone of the active store with `value` under `key`, in place of any
    /// value the active store holds there.
    pub fn current_with_value(slot: &ActiveSlot<V>, key: u64, value: V) -> (r: Self)
        ensures
            r@ == slot@.insert(key, value),
    {
        slot.current.with_value(key, value)
    }

    /// Makes this store the active one of the unit that owns `slot`. The
    /// guard restores, on release, the store that was active until now.
    pub fn attach(self, slot: &mut ActiveSlot<V>) -> (guard: ContextGuard<V>)
        ensures
            attaches(old(slot)@, self@, final(slot)@, guard.previous()),
    {
        let mut incoming = self;
        std::mem::swap(&mut slot.current, &mut incoming);
        ContextGuard { previous_cx: incoming }
    }

    /// The number of entries.
    pub fn len(&self) -> (r: usize)
        ensures
            r == self@.len(),
    {
        assert(self@.dom() =~= self.entries@.dom());
        self.entries.len()
    }

    /// The value stored under `key`, if there is one.
    pub fn get(&self, key: u64) -> (r: Option<&V>)
        ensures
            r == match lookup(self@, key) {
                Some(v) => Some(&v),
                None => None,
            },
    {
        match self.entries.get(&key) {
            Some(shared) => Some(&**shared),
            None => None,
        }
    }

    /// A store with everything this one holds and `value` under `key`,
    /// in place of any value this one holds there.
    pub fn with_value(&self, key: u64, value: V) -> (r: Self)
        ensures
            r@ == self@.insert(key, value),
    {
        let mut entries = self.entries.clone();
        entries.insert(key, Arc::new(value));
        let r = Context { entries };
        assert(r@ =~= self@.insert(key, value));
        r
    }

    /// Removes the entry under `key` and hands its value out where this store
    /// held the only reference to it.
    pub fn try_move_out(&mut self, key: u64) -> (r: Option<V>)
        ensures
            takes(old(self)@, key, final(self)@, r),
    {
        let removed = self.entries.remove(&key);
        assert(self@ =~= old(self)@.remove(key));
        match removed {
            Some(shared) => sole_value(unwrap_shared(shared)),
            None => None,
        }
    }
}

/// Values inserted under two different keys do not disturb each other, and
/// the order of the two insertions does not matter.
pub proof fn distinct_keys_are_independent<V>(store: Map<u64, V>, k1: u64, v1: V, k2: u64, v2: V)
    requires
        k1 != k2,
    ensures
        lookup(store.insert(k1, v1).insert(k2, v2), k1) == Some(v1),
        lookup(store.insert(k1, v1).insert(k2, v2), k2) == Some(v2),
        store.insert(k1, v1).insert(k2, v2) == store.insert(k2, v2).insert(k1, v1),
{
    assert(store.insert(k1, v1).insert(k2, v2) =~= store.insert(k2, v2).insert(k1, v1));
}

/// A second value inserted under a key replaces the first: only the latest is
/// found, and the store is the one that a single insertion of it gives.
pub proof fn later_value_overwrites<V>(store: Map<u64, V>, key: u64, first: V, second: V)
    ensures
        lookup(store.insert(key, first).insert(key, second), key) == Some(second),
        store.insert(key, first).insert(key, second) == store.insert(key, second),
{
    assert(store.insert(key, first).insert(key, second) =~= store.insert(key, second));
}

/// An insertion changes nothing under any other key.
pub proof fn insertion_keeps_other_keys<V>(store: Map<u64, V>, key: u64, value: V, other: u64)
    requires
        other != key,
    ensures
        lookup(store.insert(key, value), other) == lookup(store, other),
{
}

/// A value leaves a store at most once: after one take of a key, whatever it
/// handed out, the key is no longer found, and a second take of it hands
/// nothing out and leaves the store as it is.
pub proof fn value_is_taken_at_most_once<V>(
    s0: Map<u64, V>,
    key: u64,
    s1: Map<u64, V>,
    first: Option<V>,
    s2: Map<u64, V>,
    second: Option<V>,
)
    requires
        takes(s0, key, s1, first),
        takes(s1, key, s2, second),
    ensures
        lookup(s1, key) is None,
        second is None,
        s2 == s1,
{
    assert(s1.remove(key) =~= s1);
}

/// A take changes nothing under any other key.
pub proof fn take_keeps_other_keys<V>(
    before: Map<u64, V>,
    key: u64,
    after: Map<u64, V>,
    taken: Option<V>,
    other: u64,
)
    requires
        takes(before, key, after, taken),
        other != key,
    ensures
        lookup(after, other) == lookup(before, other),
{
}

/// Nested attaches unwind in reverse: with `a` active, attaching `b`, then
/// `c`, then releasing the inner guard and then the outer one makes the
/// active store `b`, `c`, `b` and `a` again, in that order.
pub proof fn nested_attaches_unwind<V>(
    a: Map<u64, V>,
    b: Map<u64, V>,
    c: Map<u64, V>,
    after_b: Map<u64, V>,
    outer: Map<u64, V>,
    after_c: Map<u64, V>,
    inner: Map<u64, V>,
    after_inner: Map<u64, V>,
    after_outer: Map<u64, V>,
)
    requires
        attaches(a, b, after_b, outer),
        attaches(after_b, c, after_c, inner),
        releases(after_c, inner, after_inner),
        releases(after_inner, outer, after_outer),
    ensures
        after_b == b,
        after_c == c,
        after_inner == b,
        after_outer == a,
{
}

/// The slot's content after the stores `stack` were attached, one after the
/// other, to a slot that held `base`.
pub open spec fn active_after<V>(base: Map<u64, V>, stack: Seq<Map<u64, V>>) -> Map<u64, V> {
    if stack.len() == 0 {
        base
    } else {
        stack.last()
    }
}

/// Attaches nest to any depth: after the stores of `stack` were attached in
/// turn, releasing the guard of the last attach leaves the slot as it was
/// after the attaches before it.
pub proof fn release_undoes_last_attach<V>(
    base: Map<u64, V>,
    stack: Seq<Map<u64, V>>,
    store: Map<u64, V>,
    after: Map<u64, V>,
    guarded: Map<u64, V>,
    released: Map<u64, V>,
)
    requires
        attaches(active_after(base, stack), store, after, guarded),
        releases(after, guarded, released),
    ensures
        after == active_after(base, stack.push(store)),
        released == active_after(base, stack),
{
}

} // verus!
