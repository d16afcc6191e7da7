//! End-to-end behavior: what readers observe across publishes, the flush
//! no-op, factories, guards and the aliased cell.

use split_write::aliasing::Aliased;
use split_write::deque::DequeOp;
use split_write::deque::IntDeque;
use split_write::aliasing::DoDrop;
use split_write::aliasing::NoDrop;
use split_write::counter::CounterAddOp;
use split_write::ReadGuard;

#[test]
fn publish_then_read() {
    let (mut w, r) = split_write::new::<i32, CounterAddOp>();
    w.append(CounterAddOp(1));
    w.publish();
    let g = r.enter().unwrap();
    assert_eq!(*g.value(), 1);
    g.release();
}

#[test]
fn batched_appends_read_once() {
    let (mut w, r) = split_write::new::<i32, CounterAddOp>();
    w.append(CounterAddOp(1));
    w.append(CounterAddOp(2));
    w.append(CounterAddOp(3));
    w.publish();
    let g = r.enter().unwrap();
    assert_eq!(*g.value(), 6);
    g.release();
}

#[test]
fn unpublished_append_invisible() {
    let (mut w, r) = split_write::new::<i32, CounterAddOp>();
    w.append(CounterAddOp(1));
    w.publish();
    w.append(CounterAddOp(2));
    let g = r.enter().unwrap();
    assert_eq!(*g.value(), 1);
    g.release();
}

#[test]
fn reads_across_three_publishes() {
    let (mut w, r) = split_write::new::<i32, CounterAddOp>();
    w.append(CounterAddOp(1));
    w.publish();
    let g = r.enter().unwrap();
    assert_eq!(*g.value(), 1);
    g.release();
    w.append(CounterAddOp(2));
    w.publish();
    let g = r.enter().unwrap();
    assert_eq!(*g.value(), 3);
    g.release();
    w.append(CounterAddOp(3));
    w.publish();
    let g = r.enter().unwrap();
    assert_eq!(*g.value(), 6);
    g.release();
}

#[test]
fn flush_empty_is_noop() {
    let (mut w, r) = split_write::new_from_empty::<i32, CounterAddOp>(5);
    w.publish();
    let before = w.refreshes();
    w.flush();
    assert_eq!(w.refreshes(), before);
    let g = r.enter().unwrap();
    assert_eq!(*g.value(), 5);
    g.release();
}

#[test]
fn flush_publishes_pending() {
    let (mut w, r) = split_write::new::<i32, CounterAddOp>();
    w.publish();
    w.append(CounterAddOp(7));
    assert!(w.has_pending_operations());
    w.flush();
    assert!(!w.has_pending_operations());
    let g = r.enter().unwrap();
    assert_eq!(*g.value(), 7);
    g.release();
}

#[test]
fn extend_batch() {
    let (mut w, r) = split_write::new::<i32, CounterAddOp>();
    w.publish();
    w.extend(vec![CounterAddOp(1), CounterAddOp(2), CounterAddOp(3)]);
    assert_eq!(w.log_len(), 3);
    w.publish();
    let g = r.enter().unwrap();
    assert_eq!(*g.value(), 6);
    g.release();
}

#[test]
fn swap_index_tracks_log() {
    let (mut w, _r) = split_write::new::<i32, CounterAddOp>();
    assert!(w.swap_index() <= w.log_len());
    w.publish();
    w.append(CounterAddOp(1));
    assert!(w.swap_index() <= w.log_len());
    w.publish();
    assert_eq!(w.swap_index(), w.log_len());
    w.append(CounterAddOp(2));
    assert!(w.swap_index() < w.log_len());
    w.publish();
    assert_eq!(w.swap_index(), w.log_len());
}

#[test]
fn enter_after_take() {
    let (w, r) = split_write::new_from_empty::<i32, CounterAddOp>(1);
    assert!(!r.was_dropped());
    let t = w.take();
    assert_eq!(*t.value(), 1);
    assert!(r.enter().is_none());
    assert!(r.was_dropped());
    assert!(r.raw_handle().is_none());
}

#[test]
fn taken_into_box_and_dispose() {
    let (mut w, _r) = split_write::new_from_empty::<i32, CounterAddOp>(2);
    w.append(CounterAddOp(3));
    let boxed = w.take().into_box();
    assert_eq!(*boxed, 5);

    let (w, _r) = split_write::new_from_empty::<i32, CounterAddOp>(4);
    w.take().dispose();
}

#[test]
fn factory_makes_handles() {
    let (mut w, r) = split_write::new::<i32, CounterAddOp>();
    w.append(CounterAddOp(9));
    w.publish();
    let f = r.factory();
    let h = f.handle();
    let g = h.enter().unwrap();
    assert_eq!(*g.value(), 9);
    g.release();
    let f2 = f.duplicate();
    let h2 = f2.handle();
    let g2 = h2.enter().unwrap();
    assert_eq!(*g2.value(), 9);
    g2.release();
}

#[test]
fn forked_handle_reads() {
    let (mut w, r) = split_write::new::<i32, CounterAddOp>();
    w.append(CounterAddOp(4));
    w.publish();
    let r2 = r.fork();
    let g = r2.enter().unwrap();
    assert_eq!(*g.value(), 4);
    g.release();
    let g = r.enter().unwrap();
    assert_eq!(*g.value(), 4);
    g.release();
}

#[test]
fn raw_handles() {
    let (mut w, r) = split_write::new_from_empty::<i32, CounterAddOp>(10);
    w.append(CounterAddOp(1));
    assert_eq!(*w.raw_write_handle(), 11);
    let snapshot = r.raw_handle().unwrap();
    assert_eq!(*snapshot, 10);
    drop(snapshot);
    w.publish();
    let snapshot = r.raw_handle().unwrap();
    assert_eq!(*snapshot, 11);
    drop(snapshot);
}

#[test]
fn guard_map_projections() {
    let (mut w, r) = split_write::new::<i32, CounterAddOp>();
    w.append(CounterAddOp(8));
    w.publish();
    let g = r.enter().unwrap();
    let m = ReadGuard::map(&g, |x: &i32| x);
    assert_eq!(*m.value(), 8);
    let some = ReadGuard::try_map(&g, |x: &i32| if *x > 0 { Some(x) } else { None });
    assert_eq!(*some.unwrap().value(), 8);
    let none = ReadGuard::try_map(&g, |x: &i32| if *x > 100 { Some(x) } else { None });
    assert!(none.is_none());
    g.release();
}

#[test]
fn aliased_cell_values() {
    let cell: Aliased<String, NoDrop> = Aliased::from(String::from("shared"));
    assert_eq!(cell.get(), "shared");
    let twin: Aliased<String, NoDrop> = cell.alias();
    assert_eq!(twin.get(), "shared");
    let dropping: Aliased<String, DoDrop> = twin.change_drop();
    assert_eq!(dropping.get(), "shared");
    assert_eq!(cell.get(), "shared");
}

#[test]
fn counter_wraps_on_overflow() {
    let (mut w, _r) = split_write::new_from_empty::<i32, CounterAddOp>(i32::MAX);
    w.append(CounterAddOp(1));
    assert_eq!(*w.take().value(), i32::MIN);
}

#[test]
fn guard_across_one_publish() {
    let (mut w, r) = split_write::new::<i32, CounterAddOp>();
    w.append(CounterAddOp(1));
    w.publish();
    let g = r.enter().unwrap();
    assert_eq!(*g.value(), 1);
    w.append(CounterAddOp(2));
    w.publish();
    assert_eq!(*g.value(), 1);
    g.release();
    let g2 = r.enter().unwrap();
    assert_eq!(*g2.value(), 3);
    g2.release();
    w.append(CounterAddOp(3));
    w.publish();
    let g3 = r.enter().unwrap();
    assert_eq!(*g3.value(), 6);
    g3.release();
}

#[test]
fn deque_scenario() {
    let (mut w, r) = split_write::new::<IntDeque, DequeOp>();
    w.append(DequeOp::PushBack(1));
    w.append(DequeOp::PushBack(2));
    w.append(DequeOp::PushBack(3));
    w.publish();
    let g = r.enter().unwrap();
    assert_eq!(g.value().to_vec(), vec![1, 2, 3]);
    g.release();

    w.append(DequeOp::PushBack(4));
    w.publish();
    let g = r.enter().unwrap();
    assert_eq!(g.value().to_vec(), vec![1, 2, 3, 4]);
    g.release();

    w.append(DequeOp::PopFront);
    w.append(DequeOp::PopFront);
    w.publish();
    let g = r.enter().unwrap();
    assert_eq!(g.value().to_vec(), vec![3, 4]);
    g.release();

    w.append(DequeOp::PopFront);
    w.publish();
    let g = r.enter().unwrap();
    assert_eq!(g.value().to_vec(), vec![4]);
    g.release();

    assert_eq!(w.take().value().to_vec(), vec![4]);
}

#[test]
fn retired_reader_frees_its_slot() {
    let (mut w, r) = split_write::new::<i32, CounterAddOp>();
    let r2 = r.fork();
    w.append(CounterAddOp(5));
    w.publish();
    let g = r2.enter().unwrap();
    assert_eq!(*g.value(), 5);
    g.release();
    r2.retire();
    w.append(CounterAddOp(5));
    w.publish();
    w.append(CounterAddOp(5));
    w.publish();
    let g = r.enter().unwrap();
    assert_eq!(*g.value(), 15);
    g.release();
}
