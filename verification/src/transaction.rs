//! The transaction scope: one transaction per configured resource kind is
//! opened, the business logic runs with the open handles in its context, and
//! the handles are committed on success or rolled back on failure.
//!
//! The scope decides; its caller acts. Each call of
//! [`TransactionScope::advance`] takes what the last action led to and
//! answers with the next action to perform.

use crate::context::lookup;
use crate::context::Context;
use vstd::prelude::*;

verus! {

/// One transactional backing store that takes part in a scope: the key under
/// which its capability is found in the context, and the key under which its
/// open transaction handle is stored there.
#[derive(Clone, Copy, Debug, PartialEq, Eq)]
pub struct ResourceKind {
    pub store_key: u64,
    pub handle_key: u64,
}

/// How the open handles are resolved once the business logic has returned.
#[derive(Clone, Copy, Debug, PartialEq, Eq)]
pub enum Completion {
    Commit,
    Rollback,
}

/// The path on which a scope ended.
#[derive(Clone, Copy, Debug, PartialEq, Eq)]
pub enum Outcome {
    /// The business logic succeeded and the commits were attempted.
    Committed,
    /// The business logic failed and the rollbacks were attempted.
    RolledBack,
    /// A capability was missing or a begin failed; the logic never ran.
    BeginFailed,
}

/// What went wrong in a scope.
#[derive(Debug, PartialEq, Eq)]
pub enum ScopeError<E> {
    /// The context holds no capability for the resource kind: a wiring defect.
    MissingStore { kind: usize },
    /// The resource reported a failure of begin, commit or rollback.
    Resource { kind: usize, error: E },
}

/// Where a scope stands.
#[derive(Clone, Copy, Debug, PartialEq, Eq)]
pub enum Phase {
    /// Nothing was asked for yet.
    Idle,
    /// The begin of resource kind `kind` was asked for.
    Beginning { kind: usize },
    /// The business logic was asked to run.
    Running,
    /// The commit or rollback of resource kind `kind` was asked for.
    Completing { kind: usize, path: Completion },
    /// The scope has ended.
    Finished,
}

/// What the caller reports back to the scope.
#[derive(Debug, PartialEq, Eq)]
pub enum Event<V, E> {
    /// The scope is entered.
    Start,
    /// The begin that was asked for gave this handle.
    Begun(V),
    /// The begin that was asked for failed.
    BeginFailed(E),
    /// The business logic returned, with success or with an error.
    Ran { success: bool },
    /// The commit or rollback that was asked for succeeded.
    Resolved,
    /// The commit or rollback that was asked for failed.
    ResolveFailed(E),
}

/// What the scope asks its caller to do next.
#[derive(Debug, PartialEq, Eq)]
pub enum Action<V, E> {
    /// Begin a transaction on resource kind `kind`.
    Begin { kind: usize },
    /// Run the business logic, propagated with the scope's working context.
    Run,
    /// Commit `handle` on resource kind `kind`.
    Commit { kind: usize, handle: V },
    /// Roll `handle` back on resource kind `kind`.
    Rollback { kind: usize, handle: V },
    /// The scope has ended on the path `outcome`, with the first resource
    /// error that is to be surfaced, if there was one.
    Finish { outcome: Outcome, error: Option<ScopeError<E>> },
}

/// A scope as a mathematical value.
pub struct ScopeState<V, E> {
    /// The resource kinds, in declared order.
    pub kinds: Seq<ResourceKind>,
    /// The context that was current when the scope was made; the capabilities
    /// are looked up in it.
    pub base: Map<u64, V>,
    /// The working context: the base plus the handles that are open.
    pub working: Map<u64, V>,
    pub phase: Phase,
    /// The first rollback failure so far.
    pub failure: Option<ScopeError<E>>,
}

/// The terminal path that belongs to a way of completing.
pub open spec fn outcome_of(path: Completion) -> Outcome {
    match path {
        Completion::Commit => Outcome::Committed,
        Completion::Rollback => Outcome::RolledBack,
    }
}

/// The action that resolves `handle` of resource kind `kind` on `path`.
pub open spec fn resolution<V, E>(path: Completion, kind: usize, handle: V) -> Action<V, E> {
    match path {
        Completion::Commit => Action::Commit { kind, handle },
        Completion::Rollback => Action::Rollback { kind, handle },
    }
}

/// `failure` if it is already set, else `next`.
pub open spec fn first_failure<E>(failure: Option<ScopeError<E>>, next: ScopeError<E>) -> Option<
    ScopeError<E>,
> {
    match failure {
        Some(_) => failure,
        None => Some(next),
    }
}

/// The begin phase from resource kind `kind` on: the next begin is asked for
/// where the base context holds the kind's capability; a missing capability
/// ends the scope; after the last kind the business logic is asked to run.
pub open spec fn begin_from<V, E>(s: ScopeState<V, E>, kind: int) -> (ScopeState<V, E>, Action<V, E>) {
    if 0 <= kind < s.kinds.len() {
        if s.base.contains_key(s.kinds[kind].store_key) {
            (
                ScopeState { phase: Phase::Beginning { kind: kind as usize }, ..s },
                Action::Begin { kind: kind as usize },
            )
        } else {
            (
                ScopeState { phase: Phase::Finished, ..s },
                Action::Finish {
                    outcome: Outcome::BeginFailed,
                    error: Some(ScopeError::MissingStore { kind: kind as usize }),
                },
            )
        }
    } else {
        (ScopeState { phase: Phase::Running, ..s }, Action::Run)
    }
}

/// The completion phase from resource kind `from` on. The handle of each kind
/// is taken out of the working context in declared order. The first one that
/// is there, and that nothing else still refers to, is handed out to be
/// resolved; a kind whose handle is absent, or retained elsewhere, is passed
/// over. After the last kind the scope ends.
///
/// `retained` holds the kinds whose handle something else still refers to.
pub open spec fn complete_from<V, E>(
    s: ScopeState<V, E>,
    from: int,
    path: Completion,
    retained: Set<int>,
) -> (ScopeState<V, E>, Action<V, E>)
    decreases s.kinds.len() - from,
{
    if 0 <= from < s.kinds.len() {
        let key = s.kinds[from].handle_key;
        let rest = s.working.remove(key);
        if s.working.contains_key(key) && !retained.contains(from) {
            (
                ScopeState {
                    working: rest,
                    phase: Phase::Completing { kind: from as usize, path },
                    ..s
                },
                resolution(path, from as usize, s.working[key]),
            )
        } else {
            complete_from(ScopeState { working: rest, ..s }, from + 1, path, retained)
        }
    } else {
        (
            ScopeState { phase: Phase::Finished, failure: None, ..s },
            Action::Finish { outcome: outcome_of(path), error: s.failure },
        )
    }
}

/// Whether the resource kind that a scope waits on, if it waits on one, is
/// one of its kinds. Every scope that was made and advanced is such a scope.
pub open spec fn waits_on_a_kind<V, E>(s: ScopeState<V, E>) -> bool {
    match s.phase {
        Phase::Beginning { kind } => kind < s.kinds.len(),
        Phase::Completing { kind, .. } => kind < s.kinds.len(),
        _ => true,
    }
}

/// Whether `event` is what the scope `s` waits for.
pub open spec fn accepts<V, E>(s: ScopeState<V, E>, event: Event<V, E>) -> bool {
    waits_on_a_kind(s) && match (s.phase, event) {
        (Phase::Idle, Event::Start) => true,
        (Phase::Beginning { .. }, Event::Begun(_)) => true,
        (Phase::Beginning { .. }, Event::BeginFailed(_)) => true,
        (Phase::Running, Event::Ran { .. }) => true,
        (Phase::Completing { .. }, Event::Resolved) => true,
        (Phase::Completing { .. }, Event::ResolveFailed(_)) => true,
        _ => false,
    }
}

/// The scope's transition: the state and the action that follow `event`.
///
/// - On entry the begins are asked for in declared order.
/// - A handle that was begun is stored in the working context under its
///   kind's handle key; a failed begin ends the scope at once, and the
///   transactions of the kinds before it stay open.
/// - After the business logic the handles are resolved in declared order. A
///   failed commit ends the scope at once; a failed rollback is remembered
///   and the remaining kinds are still rolled back.
///
/// An event that the scope does not wait for changes nothing and gets no
/// action.
pub open spec fn step<V, E>(s: ScopeState<V, E>, event: Event<V, E>, retained: Set<int>) -> (
    ScopeState<V, E>,
    Option<Action<V, E>>,
) {
    if !accepts(s, event) {
        (s, None)
    } else {
        step_accepted(s, event, retained)
    }
}

/// The transition on an event that the scope waits for.
pub open spec fn step_accepted<V, E>(s: ScopeState<V, E>, event: Event<V, E>, retained: Set<int>) -> (
    ScopeState<V, E>,
    Option<Action<V, E>>,
) {
    match (s.phase, event) {
        (Phase::Idle, Event::Start) => {
            let (t, a) = begin_from(s, 0);
            (t, Some(a))
        },
        (Phase::Beginning { kind }, Event::Begun(handle)) => {
            let stored = ScopeState {
                working: s.working.insert(s.kinds[kind as int].handle_key, handle),
                ..s
            };
            let (t, a) = begin_from(stored, kind + 1);
            (t, Some(a))
        },
        (Phase::Beginning { kind }, Event::BeginFailed(error)) => (
            ScopeState { phase: Phase::Finished, ..s },
            Some(
                Action::Finish {
                    outcome: Outcome::BeginFailed,
                    error: Some(ScopeError::Resource { kind, error }),
                },
            ),
        ),
        (Phase::Running, Event::Ran { success }) => {
            let path = if success {
                Completion::Commit
            } else {
                Completion::Rollback
            };
            let (t, a) = complete_from(s, 0, path, retained);
            (t, Some(a))
        },
        (Phase::Completing { kind, path }, Event::Resolved) => {
            let (t, a) = complete_from(s, kind + 1, path, retained);
            (t, Some(a))
        },
        (Phase::Completing { kind, path: Completion::Commit }, Event::ResolveFailed(error)) => (
            ScopeState { phase: Phase::Finished, ..s },
            Some(
                Action::Finish {
                    outcome: Outcome::Committed,
                    error: Some(ScopeError::Resource { kind, error }),
                },
            ),
        ),
        (Phase::Completing { kind, path: Completion::Rollback }, Event::ResolveFailed(error)) => {
            let noted = ScopeState {
                failure: first_failure(s.failure, ScopeError::Resource { kind, error }),
                ..s
            };
            let (t, a) = complete_from(noted, kind + 1, Completion::Rollback, retained);
            (t, Some(a))
        },
        _ => (s, None),
    }
}

/// The orchestration of one transaction scope.
pub struct TransactionScope<V, E> {
    kinds: Vec<ResourceKind>,
    base: Context<V>,
    working: Context<V>,
    phase: Phase,
    failure: Option<ScopeError<E>>,
}

impl<V, E> View for TransactionScope<V, E> {
    type V = ScopeState<V, E>;

    closed spec fn view(&self) -> ScopeState<V, E> {
        ScopeState {
            kinds: self.kinds@,
            base: self.base@,
            working: self.working@,
            phase: self.phase,
            failure: self.failure,
        }
    }
}

impl<V, E> TransactionScope<V, E> {
    /// A scope over `kinds`, in declared order, made while `current` is the
    /// current context.
    pub fn new(kinds: Vec<ResourceKind>, current: Context<V>) -> (r: Self)
        ensures
            r@ == (ScopeState::<V, E> {
                kinds: kinds@,
                base: current@,
                working: current@,
                phase: Phase::Idle,
                failure: None,
            }),
    {
        let working = current.clone();
        TransactionScope { kinds, base: current, working, phase: Phase::Idle, failure: None }
    }

    /// Where the scope stands.
    pub fn phase(&self) -> (r: Phase)
        ensures
            r == self@.phase,
    {
        self.phase
    }

    /// A clone of the working context: the base context plus the handles that
    /// are open. The business logic runs with it as its captured context.
    pub fn context(&self) -> (r: Context<V>)
        ensures
            r@ == self@.working,
    {
        self.working.clone()
    }

    /// The capability of resource kind `kind`, as the base context holds it.
    pub fn store(&self, kind: usize) -> (r: Option<&V>)
        ensures
            r == if kind < self@.kinds.len() {
                match lookup(self@.base, self@.kinds[kind as int].store_key) {
                    Some(v) => Some(&v),
                    None => None,
                }
            } else {
                None
            },
    {
        if kind < self.kinds.len() {
            self.base.get(self.kinds[kind].store_key)
        } else {
            None
        }
    }

    /// Takes `event`, which reports what the last action led to, and answers
    /// with the next action. An event that the scope does not wait for is
    /// dropped: the scope stays as it is and there is no action.
    ///
    /// Whether a handle can be taken out of the working context depends on
    /// who else still refers to it, so the transition is stated for some set
    /// of kinds whose handles were retained elsewhere.
    pub fn advance(&mut self, event: Event<V, E>) -> (r: Option<Action<V, E>>)
        ensures
            r is Some <==> accepts(old(self)@, event),
            exists|retained: Set<int>|
                (final(self)@, r) == #[trigger] step(old(self)@, event, retained),
    {
        let ghost before = self@;
        let ghost nothing = Set::<int>::empty();
        match self.phase {
            Phase::Idle => match event {
                Event::Start => {
                    let action = self.begin_next(0);
                    assert((self@, Some(action)) == step(before, event, nothing));
                    Some(action)
                },
                _ => {
                    assert((self@, None::<Action<V, E>>) == step(before, event, nothing));
                    None
                },
            },
            Phase::Beginning { kind } => {
                if kind >= self.kinds.len() {
                    assert((self@, None::<Action<V, E>>) == step(before, event, nothing));
                    return None;
                }
                match event {
                    Event::Begun(handle) => {
                        self.working = self.working.with_value(self.kinds[kind].handle_key, handle);
                        let action = self.begin_next(kind + 1);
                        assert((self@, Some(action)) == step(before, event, nothing));
                        Some(action)
                    },
                    Event::BeginFailed(error) => {
                        self.phase = Phase::Finished;
                        let action = Action::Finish {
                            outcome: Outcome::BeginFailed,
                            error: Some(ScopeError::Resource { kind, error }),
                        };
                        assert((self@, Some(action)) == step(before, event, nothing));
                        Some(action)
                    },
                    _ => {
                        assert((self@, None::<Action<V, E>>) == step(before, event, nothing));
                        None
                    },
                }
            },
            Phase::Running => match event {
                Event::Ran { success } => {
                    let path = if success {
                        Completion::Commit
                    } else {
                        Completion::Rollback
                    };
                    let action = self.complete_next(0, path);
                    let ghost retained = choose|retained: Set<int>|
                        (self@, action) == #[trigger] complete_from(before, 0, path, retained);
                    assert((self@, Some(action)) == step(before, event, retained));
                    Some(action)
                },
                _ => {
                    assert((self@, None::<Action<V, E>>) == step(before, event, nothing));
                    None
                },
            },
            Phase::Completing { kind, path } => {
                if kind >= self.kinds.len() {
                    assert((self@, None::<Action<V, E>>) == step(before, event, nothing));
                    return None;
                }
                match event {
                    Event::Resolved => {
                        let action = self.complete_next(kind + 1, path);
                        let ghost retained = choose|retained: Set<int>|
                            (self@, action) == #[trigger] complete_from(
                                before,
                                kind + 1,
                                path,
                                retained,
                            );
                        assert((self@, Some(action)) == step(before, event, retained));
                        Some(action)
                    },
                    Event::ResolveFailed(error) => match path {
                        Completion::Commit => {
                            self.phase = Phase::Finished;
                            let action = Action::Finish {
                                outcome: Outcome::Committed,
                                error: Some(ScopeError::Resource { kind, error }),
                            };
                            assert((self@, Some(action)) == step(before, event, nothing));
                            Some(action)
                        },
                        Completion::Rollback => {
                            if self.failure.is_none() {
                                self.failure = Some(ScopeError::Resource { kind, error });
                            }
                            let ghost noted = self@;
                            let action = self.complete_next(kind + 1, path);
                            let ghost retained = choose|retained: Set<int>|
                                (self@, action) == #[trigger] complete_from(
                                    noted,
                                    kind + 1,
                                    path,
                                    retained,
                                );
                            assert((self@, Some(action)) == step(before, event, retained));
                            Some(action)
                        },
                    },
                    _ => {
                        assert((self@, None::<Action<V, E>>) == step(before, event, nothing));
                        None
                    },
                }
            },
            Phase::Finished => {
                assert((self@, None::<Action<V, E>>) == step(before, event, nothing));
                None
            },
        }
    }

    /// Asks for the begin of resource kind `kind`, or for the business logic
    /// after the last kind.
    fn begin_next(&mut self, kind: usize) -> (action: Action<V, E>)
        ensures
            (final(self)@, action) == begin_from(old(self)@, kind as int),
    {
        if kind < self.kinds.len() {
            if self.base.get(self.kinds[kind].store_key).is_some() {
                self.phase = Phase::Beginning { kind };
                Action::Begin { kind }
            } else {
                self.phase = Phase::Finished;
                Action::Finish {
                    outcome: Outcome::BeginFailed,
                    error: Some(ScopeError::MissingStore { kind }),
                }
            }
        } else {
            self.phase = Phase::Running;
            Action::Run
        }
    }

    /// Takes the handles out of the working context from kind `from` on until
    /// one can be handed out, and ends the scope when none is left.
    fn complete_next(&mut self, from: usize, path: Completion) -> (action: Action<V, E>)
        requires
            from <= old(self)@.kinds.len(),
        ensures
            exists|retained: Set<int>|
                (final(self)@, action) == #[trigger] complete_from(
                    old(self)@,
                    from as int,
                    path,
                    retained,
                ),
    {
        let ghost start = self@;
        let ghost mut passed = Set::<int>::empty();
        let mut i = from;
        while i < self.kinds.len()
            invariant
                start == old(self)@,
                from <= i <= self.kinds@.len(),
                self@.kinds == start.kinds,
                forall|j: int| passed.contains(j) ==> from <= j < i,
                forall|retained: Set<int>|
                    agree(retained, passed, from as int, i as int) ==> #[trigger] complete_from(
                        start,
                        from as int,
                        path,
                        retained,
                    ) == complete_from(self@, i as int, path, retained),
            decreases self.kinds@.len() - i,
        {
            let ghost before = self@;
            let key = self.kinds[i].handle_key;
            match self.working.try_move_out(key) {
                Some(handle) => {
                    self.phase = Phase::Completing { kind: i, path };
                    let action = match path {
                        Completion::Commit => Action::Commit { kind: i, handle },
                        Completion::Rollback => Action::Rollback { kind: i, handle },
                    };
                    proof {
                        assert(agree(passed, passed, from as int, i as int));
                        assert((self@, action) == complete_from(before, i as int, path, passed));
                        assert((self@, action) == complete_from(start, from as int, path, passed));
                    }
                    return action;
                },
                None => {
                    proof {
                        if before.working.contains_key(key) {
                            passed = passed.insert(i as int);
                        }
                        assert forall|retained: Set<int>|
                            agree(
                                retained,
                                passed,
                                from as int,
                                i + 1,
                            ) implies #[trigger] complete_from(start, from as int, path, retained)
                            == complete_from(self@, i + 1, path, retained) by {
                            assert(agree(retained, passed, from as int, i as int));
                            assert(retained.contains(i as int) == passed.contains(i as int));
                        }
                    }
                    i = i + 1;
                },
            }
        }
        let ghost before = self@;
        self.phase = Phase::Finished;
        let error = self.failure.take();
        let action = Action::Finish { outcome: path.outcome(), error };
        proof {
            assert(agree(passed, passed, from as int, i as int));
            assert((self@, action) == complete_from(before, i as int, path, passed));
            assert((self@, action) == complete_from(start, from as int, path, passed));
        }
        action
    }
}

/// Whether two sets hold the same kinds among those from `lo` up to, and
/// without, `hi`.
spec fn agree(a: Set<int>, b: Set<int>, lo: int, hi: int) -> bool {
    forall|j: int| lo <= j < hi ==> a.contains(j) == b.contains(j)
}

impl Completion {
    /// The terminal path that belongs to this way of completing.
    pub fn outcome(self) -> (r: Outcome)
        ensures
            r == outcome_of(self),
    {
        match self {
            Completion::Commit => Outcome::Committed,
            Completion::Rollback => Outcome::RolledBack,
        }
    }
}

/// Two resource kinds, each with its capability in the base context and a
/// handle key of its own, in a scope that was not entered yet.
pub open spec fn two_kinds_ready<V, E>(s: ScopeState<V, E>) -> bool {
    &&& s.phase is Idle
    &&& s.failure is None
    &&& s.kinds.len() == 2
    &&& s.base.contains_key(s.kinds[0].store_key)
    &&& s.base.contains_key(s.kinds[1].store_key)
    &&& s.kinds[0].handle_key != s.kinds[1].handle_key
}

/// The commit path. With two resource kinds and business logic that succeeds,
/// and with no handle retained elsewhere, the scope asks for exactly one
/// begin and one commit per kind, in declared order, and for no rollback: it
/// begins the first kind, begins the second, runs the logic with both handles
/// in its working context, commits the first handle, commits the second and
/// ends as committed, without an error and with no handle left in its context.
pub proof fn commit_path_of_two_kinds<V, E>(s0: ScopeState<V, E>, h0: V, h1: V)
    requires
        two_kinds_ready(s0),
    ensures
        ({
            let sole = Set::<int>::empty();
            let (s1, a1) = step(s0, Event::Start, sole);
            let (s2, a2) = step(s1, Event::Begun(h0), sole);
            let (s3, a3) = step(s2, Event::Begun(h1), sole);
            let (s4, a4) = step(s3, Event::Ran { success: true }, sole);
            let (s5, a5) = step(s4, Event::Resolved, sole);
            let (s6, a6) = step(s5, Event::Resolved, sole);
            &&& a1 == Some(Action::<V, E>::Begin { kind: 0 })
            &&& a2 == Some(Action::<V, E>::Begin { kind: 1 })
            &&& a3 == Some(Action::<V, E>::Run)
            &&& s3.working == s0.working.insert(s0.kinds[0].handle_key, h0).insert(
                s0.kinds[1].handle_key,
                h1,
            )
            &&& a4 == Some(Action::<V, E>::Commit { kind: 0, handle: h0 })
            &&& a5 == Some(Action::<V, E>::Commit { kind: 1, handle: h1 })
            &&& a6 == Some(
                Action::<V, E>::Finish { outcome: Outcome::Committed, error: None },
            )
            &&& s6.phase is Finished
            &&& !s6.working.contains_key(s0.kinds[0].handle_key)
            &&& !s6.working.contains_key(s0.kinds[1].handle_key)
        }),
{
    let sole = Set::<int>::empty();
    let (s1, a1) = step(s0, Event::<V, E>::Start, sole);
    let (s2, a2) = step(s1, Event::<V, E>::Begun(h0), sole);
    let (s3, a3) = step(s2, Event::<V, E>::Begun(h1), sole);
    let (s4, a4) = step(s3, Event::<V, E>::Ran { success: true }, sole);
    let (s5, a5) = step(s4, Event::<V, E>::Resolved, sole);
    let (s6, a6) = step(s5, Event::<V, E>::Resolved, sole);
    reveal_with_fuel(complete_from, 3);
    assert(s1.phase == Phase::Beginning { kind: 0 });
    assert(s2.phase == Phase::Beginning { kind: 1 });
    assert(s3.phase is Running);
    assert(s4.phase == Phase::Completing { kind: 0, path: Completion::Commit });
    assert(s5.phase == Phase::Completing { kind: 1, path: Completion::Commit });
}

/// The rollback path. With two resource kinds and business logic that fails,
/// and with no handle retained elsewhere, the scope asks for exactly one
/// begin and one rollback per kind, in declared order, and for no commit, and
/// ends as rolled back with no handle left in its context.
pub proof fn rollback_path_of_two_kinds<V, E>(s0: ScopeState<V, E>, h0: V, h1: V)
    requires
        two_kinds_ready(s0),
    ensures
        ({
            let sole = Set::<int>::empty();
            let (s1, a1) = step(s0, Event::Start, sole);
            let (s2, a2) = step(s1, Event::Begun(h0), sole);
            let (s3, a3) = step(s2, Event::Begun(h1), sole);
            let (s4, a4) = step(s3, Event::Ran { success: false }, sole);
            let (s5, a5) = step(s4, Event::Resolved, sole);
            let (s6, a6) = step(s5, Event::Resolved, sole);
            &&& a1 == Some(Action::<V, E>::Begin { kind: 0 })
            &&& a2 == Some(Action::<V, E>::Begin { kind: 1 })
            &&& a3 == Some(Action::<V, E>::Run)
            &&& a4 == Some(Action::<V, E>::Rollback { kind: 0, handle: h0 })
            &&& a5 == Some(Action::<V, E>::Rollback { kind: 1, handle: h1 })
            &&& a6 == Some(
                Action::<V, E>::Finish { outcome: Outcome::RolledBack, error: None },
            )
            &&& s6.phase is Finished
            &&& !s6.working.contains_key(s0.kinds[0].handle_key)
            &&& !s6.working.contains_key(s0.kinds[1].handle_key)
        }),
{
    let sole = Set::<int>::empty();
    let (s1, a1) = step(s0, Event::<V, E>::Start, sole);
    let (s2, a2) = step(s1, Event::<V, E>::Begun(h0), sole);
    let (s3, a3) = step(s2, Event::<V, E>::Begun(h1), sole);
    let (s4, a4) = step(s3, Event::<V, E>::Ran { success: false }, sole);
    let (s5, a5) = step(s4, Event::<V, E>::Resolved, sole);
    let (s6, a6) = step(s5, Event::<V, E>::Resolved, sole);
    reveal_with_fuel(complete_from, 3);
    assert(s1.phase == Phase::Beginning { kind: 0 });
    assert(s2.phase == Phase::Beginning { kind: 1 });
    assert(s3.phase is Running);
    assert(s4.phase == Phase::Completing { kind: 0, path: Completion::Rollback });
    assert(s5.phase == Phase::Completing { kind: 1, path: Completion::Rollback });
}

/// A failed rollback does not stop the rollbacks that remain: with two kinds
/// and business logic that fails, the second handle is still rolled back when
/// the rollback of the first has failed, and the scope ends with that first
/// failure as its error.
pub proof fn failed_rollback_does_not_stop_the_rest<V, E>(
    s0: ScopeState<V, E>,
    h0: V,
    h1: V,
    error: E,
)
    requires
        two_kinds_ready(s0),
    ensures
        ({
            let sole = Set::<int>::empty();
            let (s1, a1) = step(s0, Event::Start, sole);
            let (s2, a2) = step(s1, Event::Begun(h0), sole);
            let (s3, a3) = step(s2, Event::Begun(h1), sole);
            let (s4, a4) = step(s3, Event::Ran { success: false }, sole);
            let (s5, a5) = step(s4, Event::ResolveFailed(error), sole);
            let (s6, a6) = step(s5, Event::Resolved, sole);
            &&& a4 == Some(Action::<V, E>::Rollback { kind: 0, handle: h0 })
            &&& a5 == Some(Action::<V, E>::Rollback { kind: 1, handle: h1 })
            &&& a6 == Some(
                Action::<V, E>::Finish {
                    outcome: Outcome::RolledBack,
                    error: Some(ScopeError::Resource { kind: 0, error }),
                },
            )
        }),
{
    let sole = Set::<int>::empty();
    let (s1, a1) = step(s0, Event::<V, E>::Start, sole);
    let (s2, a2) = step(s1, Event::<V, E>::Begun(h0), sole);
    let (s3, a3) = step(s2, Event::<V, E>::Begun(h1), sole);
    let (s4, a4) = step(s3, Event::<V, E>::Ran { success: false }, sole);
    let (s5, a5) = step(s4, Event::<V, E>::ResolveFailed(error), sole);
    let (s6, a6) = step(s5, Event::<V, E>::Resolved, sole);
    reveal_with_fuel(complete_from, 3);
    assert(s1.phase == Phase::Beginning { kind: 0 });
    assert(s2.phase == Phase::Beginning { kind: 1 });
    assert(s3.phase is Running);
    assert(s4.phase == Phase::Completing { kind: 0, path: Completion::Rollback });
    assert(s5.phase == Phase::Completing { kind: 1, path: Completion::Rollback });
}

/// A failed commit ends the scope at once: with two kinds and business logic
/// that succeeds, the second handle is neither committed nor rolled back
/// when the commit of the first has failed, and stays in the working context.
pub proof fn failed_commit_ends_the_scope<V, E>(s0: ScopeState<V, E>, h0: V, h1: V, error: E)
    requires
        two_kinds_ready(s0),
    ensures
        ({
            let sole = Set::<int>::empty();
            let (s1, a1) = step(s0, Event::Start, sole);
            let (s2, a2) = step(s1, Event::Begun(h0), sole);
            let (s3, a3) = step(s2, Event::Begun(h1), sole);
            let (s4, a4) = step(s3, Event::Ran { success: true }, sole);
            let (s5, a5) = step(s4, Event::ResolveFailed(error), sole);
            &&& a4 == Some(Action::<V, E>::Commit { kind: 0, handle: h0 })
            &&& a5 == Some(
                Action::<V, E>::Finish {
                    outcome: Outcome::Committed,
                    error: Some(ScopeError::Resource { kind: 0, error }),
                },
            )
            &&& s5.phase is Finished
            &&& lookup(s5.working, s0.kinds[1].handle_key) == Some(h1)
        }),
{
    let sole = Set::<int>::empty();
    let (s1, a1) = step(s0, Event::<V, E>::Start, sole);
    let (s2, a2) = step(s1, Event::<V, E>::Begun(h0), sole);
    let (s3, a3) = step(s2, Event::<V, E>::Begun(h1), sole);
    let (s4, a4) = step(s3, Event::<V, E>::Ran { success: true }, sole);
    reveal_with_fuel(complete_from, 3);
    assert(s1.phase == Phase::Beginning { kind: 0 });
    assert(s2.phase == Phase::Beginning { kind: 1 });
    assert(s3.phase is Running);
    assert(s4.phase == Phase::Completing { kind: 0, path: Completion::Commit });
}

/// A failed begin ends the scope at once: the logic is never run, and the
/// handle of the kind before stays open in the working context.
pub proof fn failed_begin_ends_the_scope<V, E>(s0: ScopeState<V, E>, h0: V, error: E)
    requires
        two_kinds_ready(s0),
    ensures
        ({
            let sole = Set::<int>::empty();
            let (s1, a1) = step(s0, Event::Start, sole);
            let (s2, a2) = step(s1, Event::Begun(h0), sole);
            let (s3, a3) = step(s2, Event::BeginFailed(error), sole);
            &&& a3 == Some(
                Action::<V, E>::Finish {
                    outcome: Outcome::BeginFailed,
                    error: Some(ScopeError::Resource { kind: 1, error }),
                },
            )
            &&& s3.phase is Finished
            &&& lookup(s3.working, s0.kinds[0].handle_key) == Some(h0)
        }),
{
    let sole = Set::<int>::empty();
    let (s1, a1) = step(s0, Event::<V, E>::Start, sole);
    let (s2, a2) = step(s1, Event::<V, E>::Begun(h0), sole);
    assert(s1.phase == Phase::Beginning { kind: 0 });
    assert(s2.phase == Phase::Beginning { kind: 1 });
}

/// The resource kind that a completion waits on after a scan from `from`
/// is one of the scope's kinds, and the scan keeps the kinds and the base
/// context.
pub proof fn completion_waits_on_a_kind<V, E>(
    s: ScopeState<V, E>,
    from: int,
    path: Completion,
    retained: Set<int>,
)
    requires
        s.kinds.len() <= usize::MAX,
    ensures
        waits_on_a_kind(complete_from(s, from, path, retained).0),
        complete_from(s, from, path, retained).0.kinds == s.kinds,
        complete_from(s, from, path, retained).0.base == s.base,
    decreases s.kinds.len() - from,
{
    if 0 <= from < s.kinds.len() {
        let key = s.kinds[from].handle_key;
        if !(s.working.contains_key(key) && !retained.contains(from)) {
            completion_waits_on_a_kind(
                ScopeState { working: s.working.remove(key), ..s },
                from + 1,
                path,
                retained,
            );
        }
    }
}

/// Every transition keeps the scope's kinds and base context, and leaves it
/// waiting on one of its kinds, if on any.
pub proof fn step_keeps_the_kinds<V, E>(s: ScopeState<V, E>, event: Event<V, E>, retained: Set<int>)
    requires
        waits_on_a_kind(s),
        s.kinds.len() <= usize::MAX,
    ensures
        waits_on_a_kind(step(s, event, retained).0),
        step(s, event, retained).0.kinds == s.kinds,
        step(s, event, retained).0.base == s.base,
{
    if accepts(s, event) {
        match (s.phase, event) {
            (Phase::Running, Event::Ran { success }) => {
                let path = if success {
                    Completion::Commit
                } else {
                    Completion::Rollback
                };
                completion_waits_on_a_kind(s, 0, path, retained);
            },
            (Phase::Completing { kind, path }, Event::Resolved) => {
                completion_waits_on_a_kind(s, kind + 1, path, retained);
            },
            (
                Phase::Completing { kind, path: Completion::Rollback },
                Event::ResolveFailed(error),
            ) => {
                let noted = ScopeState {
                    failure: first_failure(s.failure, ScopeError::Resource { kind, error }),
                    ..s
                };
                completion_waits_on_a_kind(noted, kind + 1, Completion::Rollback, retained);
            },
            _ => {},
        }
    }
}

/// What a completion from kind `from` on has done when it asks for the handle
/// of kind `kind` to be resolved: `kind` is one of the kinds from `from` on
/// and its handle was not retained elsewhere; `handle` is what the working
/// context held for it; and the handles of the kinds from `from` up to
/// `kind` are gone from the working context.
pub open spec fn hands_out<V, E>(
    s: ScopeState<V, E>,
    from: int,
    path: Completion,
    retained: Set<int>,
    t: ScopeState<V, E>,
    kind: usize,
    handle: V,
) -> bool {
    &&& from <= kind < s.kinds.len()
    &&& !retained.contains(kind as int)
    &&& lookup(s.working, s.kinds[kind as int].handle_key) == Some(handle)
    &&& t.phase == (Phase::Completing { kind, path })
    &&& t.failure == s.failure
    &&& forall|j: int| from <= j <= kind ==> !t.working.contains_key(#[trigger] s.kinds[j].handle_key)
}

/// A completion stays on its path, whatever the number of kinds. It either
/// asks for one handle to be resolved, by a commit on the commit path and by
/// a rollback on the rollback path and never the other way round, or it ends
/// the scope on that path with the failure remembered so far, and then no
/// handle of a kind from `from` on is left in the working context. It puts
/// nothing into the working context.
pub proof fn completion_stays_on_its_path<V, E>(
    s: ScopeState<V, E>,
    from: int,
    path: Completion,
    retained: Set<int>,
)
    requires
        0 <= from,
        s.kinds.len() <= usize::MAX,
    ensures
        ({
            let (t, a) = complete_from(s, from, path, retained);
            &&& t.working.submap_of(s.working)
            &&& match a {
                Action::Commit { kind, handle } => path is Commit && hands_out(
                    s,
                    from,
                    path,
                    retained,
                    t,
                    kind,
                    handle,
                ),
                Action::Rollback { kind, handle } => path is Rollback && hands_out(
                    s,
                    from,
                    path,
                    retained,
                    t,
                    kind,
                    handle,
                ),
                Action::Finish { outcome, error } => {
                    &&& outcome == outcome_of(path)
                    &&& error == s.failure
                    &&& t.phase is Finished
                    &&& forall|j: int|
                        from <= j < s.kinds.len() ==> !t.working.contains_key(
                            #[trigger] s.kinds[j].handle_key,
                        )
                },
                _ => false,
            }
        }),
    decreases s.kinds.len() - from,
{
    if from < s.kinds.len() {
        let key = s.kinds[from].handle_key;
        if s.working.contains_key(key) && !retained.contains(from) {
            let t = complete_from(s, from, path, retained).0;
            assert(t.working == s.working.remove(key));
            assert forall|j: int| from <= j <= from implies !t.working.contains_key(
                #[trigger] s.kinds[j].handle_key,
            ) by {}
        } else {
            let rest = ScopeState { working: s.working.remove(key), ..s };
            completion_stays_on_its_path(rest, from + 1, path, retained);
            let t = complete_from(rest, from + 1, path, retained).0;
            let a = complete_from(rest, from + 1, path, retained).1;
            assert(complete_from(s, from, path, retained) == (t, a));
            assert(t.working.submap_of(rest.working));
            assert(!rest.working.contains_key(key));
            assert(!t.working.contains_key(key));
            assert forall|k: u64| #[trigger] t.working.dom().contains(k) implies s.working.dom().contains(
                k,
            ) && t.working[k] == s.working[k] by {
                assert(rest.working.dom().contains(k));
                assert(t.working[k] == rest.working[k]);
            }
            assert(t.working.submap_of(s.working));
            match a {
                Action::Commit { kind, handle } => {
                    assert(hands_out(rest, from + 1, path, retained, t, kind, handle));
                    assert(rest.working.contains_key(s.kinds[kind as int].handle_key));
                    assert forall|j: int| from <= j <= kind implies !t.working.contains_key(
                        #[trigger] s.kinds[j].handle_key,
                    ) by {}
                    assert(hands_out(s, from, path, retained, t, kind, handle));
                },
                Action::Rollback { kind, handle } => {
                    assert(hands_out(rest, from + 1, path, retained, t, kind, handle));
                    assert(rest.working.contains_key(s.kinds[kind as int].handle_key));
                    assert forall|j: int| from <= j <= kind implies !t.working.contains_key(
                        #[trigger] s.kinds[j].handle_key,
                    ) by {}
                    assert(hands_out(s, from, path, retained, t, kind, handle));
                },
                Action::Finish { outcome, error } => {
                    assert forall|j: int| from <= j < s.kinds.len() implies !t.working.contains_key(
                        #[trigger] s.kinds[j].handle_key,
                    ) by {}
                },
                _ => {},
            }
        }
    }
}

/// The begin phase asks for the begins in declared order, whatever the number
/// of kinds: after the handle of kind `kind` was begun, the scope asks for
/// the begin of the next kind where its capability is in the base context,
/// ends where it is missing, and asks for the business logic to run after the
/// last kind, with the handle stored under its kind's key.
pub proof fn begins_follow_the_declared_order<V, E>(
    s: ScopeState<V, E>,
    kind: usize,
    handle: V,
    retained: Set<int>,
)
    requires
        s.phase == (Phase::Beginning { kind }),
        kind < s.kinds.len() <= usize::MAX,
    ensures
        ({
            let (t, a) = step(s, Event::Begun(handle), retained);
            &&& t.working == s.working.insert(s.kinds[kind as int].handle_key, handle)
            &&& a == Some(
                if kind + 1 == s.kinds.len() {
                    Action::<V, E>::Run
                } else if s.base.contains_key(s.kinds[kind + 1].store_key) {
                    Action::<V, E>::Begin { kind: (kind + 1) as usize }
                } else {
                    Action::<V, E>::Finish {
                        outcome: Outcome::BeginFailed,
                        error: Some(ScopeError::MissingStore { kind: (kind + 1) as usize }),
                    }
                },
            )
        }),
{
}

} // verus!
