//! The writer's log, publish counter and terminal drain.

use split_write::counter::CounterAddOp;

#[test]
fn append_test() {
    let (mut w, _r) = split_write::new::<i32, CounterAddOp>();
    assert_eq!(w.is_first(), true);
    w.append(CounterAddOp(1));
    assert_eq!(w.log_len(), 0);
    assert_eq!(w.is_first(), true);
    w.publish();
    assert_eq!(w.is_first(), false);
    w.append(CounterAddOp(2));
    w.append(CounterAddOp(3));
    assert_eq!(w.log_len(), 2);
}

#[test]
fn take_test() {
    let (mut w, _r) = split_write::new_from_empty::<i32, CounterAddOp>(2);
    w.append(CounterAddOp(1));
    w.publish();
    w.append(CounterAddOp(1));
    w.publish();
    assert_eq!(*w.take().value(), 4);

    let (mut w, _r) = split_write::new_from_empty::<i32, CounterAddOp>(2);
    w.append(CounterAddOp(1));
    w.publish();
    w.append(CounterAddOp(1));
    w.publish();
    w.append(CounterAddOp(2));
    assert_eq!(*w.take().value(), 6);

    let (mut w, _r) = split_write::new_from_empty::<i32, CounterAddOp>(2);
    w.append(CounterAddOp(1));
    w.publish();
    w.append(CounterAddOp(1));
    assert_eq!(*w.take().value(), 4);

    let (mut w, _r) = split_write::new_from_empty::<i32, CounterAddOp>(2);
    w.append(CounterAddOp(1));
    assert_eq!(*w.take().value(), 3);

    let (mut w, _r) = split_write::new_from_empty::<i32, CounterAddOp>(2);
    w.append(CounterAddOp(1));
    w.publish();
    assert_eq!(*w.take().value(), 3);

    let (w, _r) = split_write::new_from_empty::<i32, CounterAddOp>(2);
    assert_eq!(*w.take().value(), 2);
}

#[test]
fn flush_noblock() {
    let (mut w, r) = split_write::new::<i32, CounterAddOp>();
    w.append(CounterAddOp(42));
    w.publish();
    let g = r.enter().unwrap();
    assert_eq!(*g.value(), 42);
    g.release();

    let _count = r.enter();
    assert_eq!(w.log_len() - w.swap_index(), 0);
    assert!(!w.has_pending_operations());
}

#[test]
fn flush_no_refresh() {
    let (mut w, _) = split_write::new::<i32, CounterAddOp>();
    assert!(!w.has_pending_operations());
    w.publish();
    assert!(!w.has_pending_operations());
    assert_eq!(w.refreshes(), 1);

    w.append(CounterAddOp(42));
    assert!(w.has_pending_operations());
    w.publish();
    assert!(!w.has_pending_operations());
    assert_eq!(w.refreshes(), 2);

    w.append(CounterAddOp(42));
    assert!(w.has_pending_operations());
    w.publish();
    assert!(!w.has_pending_operations());
    assert_eq!(w.refreshes(), 3);

    assert!(!w.has_pending_operations());
    w.publish();
    assert_eq!(w.refreshes(), 4);
}
