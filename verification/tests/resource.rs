use ambient_context::context::Context;
use ambient_context::database::settle;
use ambient_context::database::store_begun;
use ambient_context::database::Database;
use std::cell::Cell;

const HANDLE: u64 = 5;
const OTHER: u64 = 6;

/// A resource that hands out numbered handles and fails on demand.
struct Numbered {
    next: Cell<u64>,
    fails: bool,
}

impl Database<u64> for Numbered {
    type DatabaseError = String;

    fn create_transaction(&self) -> Result<u64, String> {
        if self.fails {
            return Err("no connection".to_string());
        }
        let id = self.next.get();
        self.next.set(id + 1);
        Ok(id)
    }

    fn rollback_transaction(transaction: u64) -> Result<(), String> {
        if transaction == 13 {
            Err(format!("rollback of {} failed", transaction))
        } else {
            Ok(())
        }
    }

    fn commit_transaction(transaction: u64) -> Result<(), String> {
        if transaction == 13 {
            Err(format!("commit of {} failed", transaction))
        } else {
            Ok(())
        }
    }
}

#[test]
fn begin_stores_the_handle_in_the_context() {
    let resource = Numbered { next: Cell::new(7), fails: false };
    let context = Context::new().with_value(OTHER, 1);
    let context = resource.create_transaction_in_context(context, HANDLE).unwrap();
    assert_eq!(context.get(HANDLE), Some(&7));
    assert_eq!(context.get(OTHER), Some(&1));
    let context = resource.create_transaction_in_context(context, HANDLE).unwrap();
    assert_eq!(context.get(HANDLE), Some(&8));
}

#[test]
fn failed_begin_gives_the_error() {
    let resource = Numbered { next: Cell::new(7), fails: true };
    let result = resource.create_transaction_in_context(Context::new(), HANDLE);
    assert_eq!(result.err(), Some("no connection".to_string()));
}

#[test]
fn commit_takes_the_handle_out_of_the_context() {
    let context = Context::new().with_value(HANDLE, 7).with_value(OTHER, 1);
    let context = Numbered::commit_transaction_in_context(context, HANDLE).unwrap();
    assert_eq!(context.get(HANDLE), None);
    assert_eq!(context.get(OTHER), Some(&1));
}

#[test]
fn commit_without_a_handle_is_a_no_op() {
    let context = Context::new().with_value(OTHER, 1);
    let context = Numbered::commit_transaction_in_context(context, HANDLE).unwrap();
    assert_eq!(context.get(HANDLE), None);
    assert_eq!(context.get(OTHER), Some(&1));
}

#[test]
fn failed_commit_gives_the_error() {
    let context = Context::new().with_value(HANDLE, 13);
    let result = Numbered::commit_transaction_in_context(context, HANDLE);
    assert_eq!(result.err(), Some("commit of 13 failed".to_string()));
}

#[test]
fn rollback_takes_the_handle_out_of_the_context() {
    let context = Context::new().with_value(HANDLE, 7).with_value(OTHER, 1);
    let context = Numbered::rollback_transaction_in_context(context, HANDLE).unwrap();
    assert_eq!(context.get(HANDLE), None);
    assert_eq!(context.get(OTHER), Some(&1));
}

#[test]
fn failed_rollback_gives_the_error() {
    let context = Context::new().with_value(HANDLE, 13);
    let result = Numbered::rollback_transaction_in_context(context, HANDLE);
    assert_eq!(result.err(), Some("rollback of 13 failed".to_string()));
}

#[test]
fn rollback_of_a_shared_handle_is_skipped() {
    let context = Context::new().with_value(HANDLE, 13);
    let other = context.clone();
    let context = Numbered::rollback_transaction_in_context(context, HANDLE).unwrap();
    assert_eq!(context.get(HANDLE), None);
    assert_eq!(other.get(HANDLE), Some(&13));
}

#[test]
fn store_begun_keeps_the_handle_or_the_error() {
    let context: Context<u64> = Context::new().with_value(OTHER, 1);
    let stored = store_begun::<u64, String>(context, HANDLE, Ok(3)).unwrap();
    assert_eq!(stored.get(HANDLE), Some(&3));
    assert_eq!(stored.get(OTHER), Some(&1));
    let failed = store_begun::<u64, String>(Context::new(), HANDLE, Err("down".to_string()));
    assert_eq!(failed.err(), Some("down".to_string()));
}

#[test]
fn settle_keeps_the_context_or_the_error() {
    let context: Context<u64> = Context::new().with_value(OTHER, 1);
    let settled = settle::<u64, String>(context, Ok(())).unwrap();
    assert_eq!(settled.get(OTHER), Some(&1));
    let failed = settle::<u64, String>(Context::new(), Err("down".to_string()));
    assert_eq!(failed.err(), Some("down".to_string()));
}
