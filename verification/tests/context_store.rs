use ambient_context::context::sole_value;
use ambient_context::context::ActiveSlot;
use ambient_context::context::Context;
use std::sync::Arc;

#[derive(Debug, PartialEq)]
enum Value {
    A(&'static str),
    B(u64),
}

const VALUE_A: u64 = 1;
const VALUE_B: u64 = 2;

#[derive(Debug, PartialEq)]
enum Entry {
    Conn(&'static str),
    Txn { id: u64 },
}

const CONN: u64 = 10;
const TXN: u64 = 11;

#[test]
fn nested_contexts() {
    let mut slot = ActiveSlot::new();

    // Set the context guard
    let outer_guard = Context::new()
        .with_value(VALUE_A, Value::A("a"))
        .attach(&mut slot);

    let current = Context::current(&slot);
    assert_eq!(current.get(VALUE_A), Some(&Value::A("a")));
    assert_eq!(current.get(VALUE_B), None);

    {
        let inner_guard =
            Context::current_with_value(&slot, VALUE_B, Value::B(42)).attach(&mut slot);
        let current = Context::current(&slot);
        assert_eq!(current.get(VALUE_A), Some(&Value::A("a")));
        assert_eq!(current.get(VALUE_B), Some(&Value::B(42)));

        Context::map_current(&slot, |cx| {
            assert_eq!(cx.get(VALUE_A), Some(&Value::A("a")));
            assert_eq!(cx.get(VALUE_B), Some(&Value::B(42)));
        });
        inner_guard.release(&mut slot);
    }

    // Restore the outer context
    let current = Context::current(&slot);
    assert_eq!(current.get(VALUE_A), Some(&Value::A("a")));
    assert_eq!(current.get(VALUE_B), None);

    Context::map_current(&slot, |cx| {
        assert_eq!(cx.get(VALUE_A), Some(&Value::A("a")));
        assert_eq!(cx.get(VALUE_B), None);
    });
    outer_guard.release(&mut slot);
}

fn foo(slot: &mut ActiveSlot<Value>) {
    let guard = Context::new()
        .with_value(VALUE_B, Value::B(42))
        .with_value(VALUE_A, Value::A("foo"))
        .attach(slot);
    let current = Context::current(slot);
    assert_eq!(current.get(VALUE_A), Some(&Value::A("foo")));
    assert_eq!(current.get(VALUE_B), Some(&Value::B(42)));
    guard.release(slot);
}

fn bar(slot: &mut ActiveSlot<Value>) {
    let guard = Context::new()
        .with_value(VALUE_A, Value::A("bar"))
        .attach(slot);
    let current = Context::current(slot);
    assert_eq!(current.get(VALUE_A), Some(&Value::A("bar")));
    assert_eq!(current.get(VALUE_B), None);
    guard.release(slot);
}

#[test]
fn enter_function() {
    let mut slot = ActiveSlot::new();
    let guard = Context::new()
        .with_value(VALUE_A, Value::A("a"))
        .attach(&mut slot);

    let current = Context::current(&slot);
    assert_eq!(current.get(VALUE_A), Some(&Value::A("a")));
    assert_eq!(current.get(VALUE_B), None);

    // Enter other function with different context, and check the context is restored
    foo(&mut slot);
    assert_eq!(current.get(VALUE_A), Some(&Value::A("a")));
    assert_eq!(current.get(VALUE_B), None);

    // Enter other function with different context again, and check the context is restored
    bar(&mut slot);
    assert_eq!(current.get(VALUE_A), Some(&Value::A("a")));
    assert_eq!(current.get(VALUE_B), None);

    let restored = Context::current(&slot);
    assert_eq!(restored.get(VALUE_A), Some(&Value::A("a")));
    assert_eq!(restored.get(VALUE_B), None);
    guard.release(&mut slot);
}

#[test]
fn new_store_and_new_slot_are_empty() {
    let store: Context<Value> = Context::new();
    assert_eq!(store.get(VALUE_A), None);
    assert_eq!(store.get(VALUE_B), None);
    let by_default: Context<Value> = Context::default();
    assert_eq!(by_default.get(VALUE_A), None);
    let slot: ActiveSlot<Value> = ActiveSlot::new();
    assert_eq!(Context::current(&slot).get(VALUE_A), None);
}

#[test]
fn distinct_keys_are_independent_in_either_order() {
    let one = Context::new()
        .with_value(VALUE_A, Value::A("a"))
        .with_value(VALUE_B, Value::B(42));
    let other = Context::new()
        .with_value(VALUE_B, Value::B(42))
        .with_value(VALUE_A, Value::A("a"));
    assert_eq!(one.get(VALUE_A), Some(&Value::A("a")));
    assert_eq!(one.get(VALUE_B), Some(&Value::B(42)));
    assert_eq!(other.get(VALUE_A), Some(&Value::A("a")));
    assert_eq!(other.get(VALUE_B), Some(&Value::B(42)));
}

#[test]
fn second_value_overwrites_first() {
    let store = Context::new()
        .with_value(VALUE_B, Value::B(1))
        .with_value(VALUE_B, Value::B(2));
    assert_eq!(store.get(VALUE_B), Some(&Value::B(2)));
    assert_eq!(store.get(VALUE_A), None);
}

#[test]
fn deriving_leaves_the_first_store_untouched() {
    let base = Context::new().with_value(VALUE_A, Value::A("a"));
    let derived = base.with_value(VALUE_A, Value::A("b")).with_value(VALUE_B, Value::B(3));
    assert_eq!(base.get(VALUE_A), Some(&Value::A("a")));
    assert_eq!(base.get(VALUE_B), None);
    assert_eq!(derived.get(VALUE_A), Some(&Value::A("b")));
    assert_eq!(derived.get(VALUE_B), Some(&Value::B(3)));
}

#[test]
fn clone_holds_the_same_entries() {
    let base = Context::new().with_value(VALUE_B, Value::B(9));
    let copy = base.clone();
    assert_eq!(copy.get(VALUE_B), Some(&Value::B(9)));
    assert_eq!(copy.get(VALUE_A), None);
}

#[test]
fn nesting_observes_a_b_c_b_a() {
    let mut slot = ActiveSlot::new();
    let a = Context::new().with_value(VALUE_A, Value::A("A"));
    let b = Context::new().with_value(VALUE_A, Value::A("B"));
    let c = Context::new().with_value(VALUE_A, Value::A("C"));
    let base = a.attach(&mut slot);
    let mut seen = Vec::new();
    seen.push(Context::map_current(&slot, |cx| cx.get(VALUE_A).map(|v| format!("{:?}", v))));
    let outer = b.attach(&mut slot);
    seen.push(Context::map_current(&slot, |cx| cx.get(VALUE_A).map(|v| format!("{:?}", v))));
    let inner = c.attach(&mut slot);
    seen.push(Context::map_current(&slot, |cx| cx.get(VALUE_A).map(|v| format!("{:?}", v))));
    inner.release(&mut slot);
    seen.push(Context::map_current(&slot, |cx| cx.get(VALUE_A).map(|v| format!("{:?}", v))));
    outer.release(&mut slot);
    seen.push(Context::map_current(&slot, |cx| cx.get(VALUE_A).map(|v| format!("{:?}", v))));
    assert_eq!(
        seen,
        vec![
            Some("A(\"A\")".to_string()),
            Some("A(\"B\")".to_string()),
            Some("A(\"C\")".to_string()),
            Some("A(\"B\")".to_string()),
            Some("A(\"A\")".to_string()),
        ]
    );
    base.release(&mut slot);
    assert_eq!(Context::current(&slot).get(VALUE_A), None);
}

#[test]
fn map_current_returns_what_the_closure_returns() {
    let mut slot = ActiveSlot::new();
    let guard = Context::new().with_value(VALUE_B, Value::B(5)).attach(&mut slot);
    let doubled = Context::map_current(&slot, |cx| match cx.get(VALUE_B) {
        Some(Value::B(n)) => n * 2,
        _ => 0,
    });
    assert_eq!(doubled, 10);
    guard.release(&mut slot);
}

#[test]
fn handle_is_taken_once() {
    let mut slot = ActiveSlot::new();
    let s0 = Context::current_with_value(&mut slot, CONN, Entry::Conn("ConnA"));
    let mut s1 = s0.with_value(TXN, Entry::Txn { id: 7 });
    assert_eq!(s1.get(TXN), Some(&Entry::Txn { id: 7 }));
    assert_eq!(s1.try_move_out(TXN), Some(Entry::Txn { id: 7 }));
    assert_eq!(s1.get(TXN), None);
    assert_eq!(s1.try_move_out(TXN), None);
    assert_eq!(s1.get(CONN), Some(&Entry::Conn("ConnA")));
}

#[test]
fn take_of_an_absent_key_gives_nothing() {
    let mut store = Context::new().with_value(CONN, Entry::Conn("ConnA"));
    assert_eq!(store.try_move_out(TXN), None);
    assert_eq!(store.get(CONN), Some(&Entry::Conn("ConnA")));
}

#[test]
fn shared_value_is_not_handed_out_but_leaves_the_store() {
    let mut store = Context::new().with_value(TXN, Entry::Txn { id: 7 });
    let other = store.clone();
    assert_eq!(store.try_move_out(TXN), None);
    assert_eq!(store.get(TXN), None);
    assert_eq!(other.get(TXN), Some(&Entry::Txn { id: 7 }));
}

#[test]
fn value_is_handed_out_once_the_other_holder_is_gone() {
    let mut store = Context::new().with_value(TXN, Entry::Txn { id: 8 });
    let other = store.clone();
    drop(other);
    assert_eq!(store.try_move_out(TXN), Some(Entry::Txn { id: 8 }));
}

#[test]
fn sole_value_keeps_an_unwrapped_value_only() {
    assert_eq!(sole_value::<u64>(Ok(3)), Some(3));
    assert_eq!(sole_value::<u64>(Err(Arc::new(3))), None);
}

#[test]
fn len_counts_the_entries() {
    let empty: Context<Value> = Context::new();
    assert_eq!(empty.len(), 0);
    let one = empty.with_value(VALUE_A, Value::A("a"));
    assert_eq!(one.len(), 1);
    let same_key = one.with_value(VALUE_A, Value::A("b"));
    assert_eq!(same_key.len(), 1);
    let mut two = same_key.with_value(VALUE_B, Value::B(1));
    assert_eq!(two.len(), 2);
    two.try_move_out(VALUE_A);
    assert_eq!(two.len(), 1);
}
