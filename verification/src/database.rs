//! The capability of a transactional resource, and its forms that work
//! directly against a context.

use crate::context::Context;
use vstd::prelude::*;

verus! {

/// What a begin into a context that held `context` gives, for what the
/// resource's begin returned: the context with the handle that was begun
/// under `handle_key`, in place of any value it held there, or the resource's
/// error where the begin failed.
pub open spec fn stores_begun<V, E>(
    context: Map<u64, V>,
    handle_key: u64,
    begun: Result<V, E>,
    r: Result<Context<V>, E>,
) -> bool {
    match begun {
        Ok(handle) => r matches Ok(c) && c@ == context.insert(handle_key, handle),
        Err(error) => r == Err::<Context<V>, E>(error),
    }
}

/// The context after a begin: `context` with the handle that was begun under
/// `handle_key`, or the resource's error where the begin failed.
pub fn store_begun<V, E>(context: Context<V>, handle_key: u64, begun: Result<V, E>) -> (r: Result<
    Context<V>,
    E,
>)
    ensures
        stores_begun(context@, handle_key, begun, r),
{
    match begun {
        Ok(handle) => Ok(context.with_value(handle_key, handle)),
        Err(error) => Err(error),
    }
}

/// The context after a commit or rollback: `context` where the resource
/// reported success, or the resource's error.
pub fn settle<V, E>(context: Context<V>, resolved: Result<(), E>) -> (r: Result<Context<V>, E>)
    ensures
        match resolved {
            Ok(_) => r == Ok::<Context<V>, E>(context),
            Err(error) => r == Err::<Context<V>, E>(error),
        },
{
    match resolved {
        Ok(_) => Ok(context),
        Err(error) => Err(error),
    }
}

/// A transactional resource: it can begin a transaction and commit or roll
/// back the handle of one. It tolerates many open transactions at a time;
/// each handle is resolved exactly once.
pub trait Database<V>: Sized {
    type DatabaseError;

    /// Begins a transaction and returns its handle.
    fn create_transaction(&self) -> Result<V, Self::DatabaseError>;

    /// Rolls the transaction back.
    fn rollback_transaction(transaction: V) -> Result<(), Self::DatabaseError>;

    /// Commits the transaction.
    fn commit_transaction(transaction: V) -> Result<(), Self::DatabaseError>;

    /// Begins a transaction and stores its handle in `context` under
    /// `handle_key`. Where the begin fails its error is returned.
    ///
    /// The result is the one that belongs to what this resource's begin
    /// returned: the context with that very handle for a begin that
    /// succeeded, that very error for one that failed.
    fn create_transaction_in_context(&self, context: Context<V>, handle_key: u64) -> (r: Result<
        Context<V>,
        Self::DatabaseError,
    >)
        ensures
            exists|begun: Result<V, Self::DatabaseError>|
                call_ensures(Self::create_transaction, (self,), begun) && #[trigger] stores_begun(
                    context@,
                    handle_key,
                    begun,
                    r,
                ),
    {
        let begun = self.create_transaction();
        let ghost handed = begun;
        let r = store_begun(context, handle_key, begun);
        assert(stores_begun(context@, handle_key, handed, r));
        r
    }

    /// Takes the handle under `handle_key` out of `context` and rolls it
    /// back. A context that holds no such handle, or whose handle something
    /// else still refers to, is returned without a rollback.
    fn rollback_transaction_in_context(context: Context<V>, handle_key: u64) -> (r: Result<
        Context<V>,
        Self::DatabaseError,
    >)
        ensures
            r matches Ok(c) ==> c@ == context@.remove(handle_key),
            !context@.contains_key(handle_key) ==> r is Ok,
    {
        let mut context = context;
        match context.try_move_out(handle_key) {
            Some(transaction) => settle(context, Self::rollback_transaction(transaction)),
            None => Ok(context),
        }
    }

    /// Takes the handle under `handle_key` out of `context` and commits it.
    /// A context that holds no such handle, or whose handle something else
    /// still refers to, is returned without a commit.
    fn commit_transaction_in_context(context: Context<V>, handle_key: u64) -> (r: Result<
        Context<V>,
        Self::DatabaseError,
    >)
        ensures
            r matches Ok(c) ==> c@ == context@.remove(handle_key),
            !context@.contains_key(handle_key) ==> r is Ok,
    {
        let mut context = context;
        match context.try_move_out(handle_key) {
            Some(transaction) => settle(context, Self::commit_transaction(transaction)),
            None => Ok(context),
        }
    }
}

} // verus!
