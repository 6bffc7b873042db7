use std::sync::{Arc, Mutex};
use std::task::{Context, Poll, Wake, Waker};

use willow_session::proto::wgps::{
    CapabilityHandle, ResourceHandle, StaticTokenHandle,
};
use willow_session::session::resource::{Resource, ResourceMap};
use willow_session::session::Error;

struct TableRecorder {
    id: u32,
    log: Arc<Mutex<Vec<u32>>>,
}

impl Wake for TableRecorder {
    fn wake(self: Arc<Self>) {
        self.log.lock().unwrap().push(self.id);
    }
}

fn table_waker(id: u32, log: &Arc<Mutex<Vec<u32>>>) -> Waker {
    Waker::from(Arc::new(TableRecorder { id, log: log.clone() }))
}

fn table_log() -> Arc<Mutex<Vec<u32>>> {
    Arc::new(Mutex::new(Vec::new()))
}

fn woken(log: &Arc<Mutex<Vec<u32>>>) -> Vec<u32> {
    log.lock().unwrap().clone()
}

#[test]
fn new_table_is_empty() {
    let table: ResourceMap<StaticTokenHandle, &'static str> = ResourceMap::default();
    assert_eq!(table.len(), 0);
    assert!(table.iter().is_empty());
    assert_eq!(table.get(&StaticTokenHandle(0)), None);
}

#[test]
fn bind_issues_increasing_handles_from_zero() {
    let mut table: ResourceMap<StaticTokenHandle, u32> = ResourceMap::default();
    let mut last: Option<u64> = None;
    for i in 0..20u32 {
        let handle = table.bind(i * 7);
        assert_eq!(handle, StaticTokenHandle(i as u64));
        if let Some(previous) = last {
            assert!(previous < handle.0);
        }
        last = Some(handle.0);
        assert_eq!(table.len(), i as u64 + 1);
    }
    for i in 0..20u32 {
        assert_eq!(table.get(&StaticTokenHandle(i as u64)), Some(&(i * 7)));
    }
}

#[test]
fn bind_twice_keeps_both_values() {
    let mut table: ResourceMap<StaticTokenHandle, &'static str> = ResourceMap::default();
    let first = table.bind("a");
    let second = table.bind("a");
    assert_eq!(first, StaticTokenHandle(0));
    assert_eq!(second, StaticTokenHandle(1));
    assert_eq!(table.get(&first), Some(&"a"));
    assert_eq!(table.get(&second), Some(&"a"));
}

#[test]
fn bind_if_new_returns_existing_handle() {
    let mut table: ResourceMap<StaticTokenHandle, &'static str> = ResourceMap::default();
    assert_eq!(table.bind("a"), StaticTokenHandle(0));
    assert_eq!(table.bind_if_new("a"), (StaticTokenHandle(0), false));
    assert_eq!(table.bind_if_new("b"), (StaticTokenHandle(1), true));
    assert_eq!(table.len(), 2);
}

#[test]
fn bind_if_new_twice_returns_same_handle() {
    let mut table: ResourceMap<StaticTokenHandle, String> = ResourceMap::default();
    table.bind(String::from("other"));
    let first = table.bind_if_new(String::from("value"));
    let second = table.bind_if_new(String::from("value"));
    assert_eq!(first, (StaticTokenHandle(1), true));
    assert_eq!(second, (StaticTokenHandle(1), false));
    assert_eq!(table.len(), 2);
}

#[test]
fn bind_if_new_finds_lowest_equal_handle() {
    let mut table: ResourceMap<StaticTokenHandle, u8> = ResourceMap::default();
    table.bind(5);
    table.bind(9);
    table.bind(9);
    table.bind(5);
    assert_eq!(table.bind_if_new(9), (StaticTokenHandle(1), false));
    assert_eq!(table.bind_if_new(5), (StaticTokenHandle(0), false));
    assert_eq!(table.bind_if_new(1), (StaticTokenHandle(4), true));
}

#[test]
fn get_on_unbound_handle_is_none() {
    let mut table: ResourceMap<StaticTokenHandle, u8> = ResourceMap::default();
    table.bind(1);
    assert_eq!(table.get(&StaticTokenHandle(1)), None);
    assert_eq!(table.get(&StaticTokenHandle(u64::MAX)), None);
}

#[test]
fn try_get_on_unbound_handle_is_missing_resource() {
    let mut table: ResourceMap<CapabilityHandle, u8> = ResourceMap::default();
    assert_eq!(
        table.try_get(&CapabilityHandle(0)),
        Err(Error::MissingResource(ResourceHandle::Capability(CapabilityHandle(0))))
    );
    table.bind(3);
    assert_eq!(table.try_get(&CapabilityHandle(0)), Ok(&3));
    for _ in 0..3 {
        assert_eq!(
            table.try_get(&CapabilityHandle(7)),
            Err(Error::MissingResource(ResourceHandle::Capability(CapabilityHandle(7))))
        );
    }
}

#[test]
fn iter_lists_entries_in_handle_order() {
    let mut table: ResourceMap<StaticTokenHandle, &'static str> = ResourceMap::default();
    table.bind("x");
    table.bind("y");
    table.bind("z");
    let entries = table.iter();
    assert_eq!(
        entries,
        vec![
            (StaticTokenHandle(0), &"x"),
            (StaticTokenHandle(1), &"y"),
            (StaticTokenHandle(2), &"z"),
        ]
    );
}

#[test]
fn resource_new_wraps_value() {
    let resource = Resource::new(17u8);
    assert_eq!(resource.value, 17);
}

#[test]
fn three_waiters_all_resolve_after_bind() {
    let log = table_log();
    let mut table: ResourceMap<StaticTokenHandle, &'static str> = ResourceMap::default();
    let root = StaticTokenHandle(0);
    let wakers = [table_waker(1, &log), table_waker(2, &log), table_waker(3, &log)];
    for waker in wakers.iter() {
        let mut cx = Context::from_waker(waker);
        assert_eq!(table.poll_get_eventually(root, &mut cx), Poll::Pending);
    }
    assert!(woken(&log).is_empty());
    assert_eq!(table.bind("x"), root);
    assert_eq!(woken(&log), vec![1, 2, 3]);
    for waker in wakers.iter() {
        let mut cx = Context::from_waker(waker);
        assert_eq!(table.poll_get_eventually(root, &mut cx), Poll::Ready(&"x"));
    }
    assert_eq!(woken(&log), vec![1, 2, 3]);
}

#[test]
fn poll_before_bind_resolves_exactly_once() {
    let log = table_log();
    let mut table: ResourceMap<StaticTokenHandle, u32> = ResourceMap::default();
    let waker = table_waker(9, &log);
    let mut cx = Context::from_waker(&waker);
    assert_eq!(table.poll_get_eventually(StaticTokenHandle(1), &mut cx), Poll::Pending);
    table.bind(10);
    assert!(woken(&log).is_empty());
    assert_eq!(table.poll_get_eventually(StaticTokenHandle(0), &mut cx), Poll::Ready(&10));
    table.bind(11);
    assert_eq!(woken(&log), vec![9]);
    table.bind(12);
    table.bind(13);
    assert_eq!(woken(&log), vec![9]);
    assert_eq!(table.poll_get_eventually(StaticTokenHandle(1), &mut cx), Poll::Ready(&11));
}

#[test]
fn poll_after_bind_resolves_at_once() {
    let log = table_log();
    let mut table: ResourceMap<StaticTokenHandle, u32> = ResourceMap::default();
    let handle = table.bind(42);
    let waker = table_waker(1, &log);
    let mut cx = Context::from_waker(&waker);
    assert_eq!(table.poll_get_eventually(handle, &mut cx), Poll::Ready(&42));
    table.bind(43);
    assert!(woken(&log).is_empty());
}

#[test]
fn waiters_are_released_in_registration_order() {
    let log = table_log();
    let mut table: ResourceMap<StaticTokenHandle, u32> = ResourceMap::default();
    table.bind(0);
    let order = [5u32, 3, 8, 1, 9, 2, 7];
    for id in order {
        table.register_waker(StaticTokenHandle(2), table_waker(id, &log));
    }
    table.register_waker(StaticTokenHandle(1), table_waker(100, &log));
    table.bind(1);
    assert_eq!(woken(&log), vec![100]);
    table.bind(2);
    assert_eq!(woken(&log), vec![100, 5, 3, 8, 1, 9, 2, 7]);
    for _ in order {
        assert_eq!(table.get(&StaticTokenHandle(2)), Some(&2));
    }
}

#[test]
fn waiters_on_different_handles_do_not_mix() {
    let log = table_log();
    let mut table: ResourceMap<StaticTokenHandle, u32> = ResourceMap::default();
    table.register_waker(StaticTokenHandle(1), table_waker(11, &log));
    table.register_waker(StaticTokenHandle(0), table_waker(1, &log));
    table.register_waker(StaticTokenHandle(1), table_waker(12, &log));
    table.register_waker(StaticTokenHandle(0), table_waker(2, &log));
    table.bind(0);
    assert_eq!(woken(&log), vec![1, 2]);
    table.bind(0);
    assert_eq!(woken(&log), vec![1, 2, 11, 12]);
}

#[test]
fn removed_waker_is_not_woken() {
    let log = table_log();
    let mut table: ResourceMap<StaticTokenHandle, u32> = ResourceMap::default();
    let first = table_waker(1, &log);
    let second = table_waker(2, &log);
    let third = table_waker(3, &log);
    let handle = StaticTokenHandle(0);
    table.register_waker(handle, first.clone());
    table.register_waker(handle, second.clone());
    table.register_waker(handle, third.clone());
    table.register_waker(handle, second.clone());
    assert_eq!(table.remove_waker(handle, &second), 2);
    assert_eq!(table.remove_waker(handle, &second), 0);
    assert_eq!(table.remove_waker(StaticTokenHandle(5), &first), 0);
    table.bind(7);
    assert_eq!(woken(&log), vec![1, 3]);
}

#[test]
fn removing_the_only_waker_leaves_nobody_to_wake() {
    let log = table_log();
    let mut table: ResourceMap<StaticTokenHandle, u32> = ResourceMap::default();
    let only = table_waker(1, &log);
    let mut cx = Context::from_waker(&only);
    assert_eq!(table.poll_get_eventually(StaticTokenHandle(0), &mut cx), Poll::Pending);
    assert_eq!(table.remove_waker(StaticTokenHandle(0), &only), 1);
    table.bind(1);
    assert!(woken(&log).is_empty());
}

#[test]
fn polling_twice_queues_the_task_once() {
    let log = table_log();
    let mut table: ResourceMap<StaticTokenHandle, u32> = ResourceMap::default();
    let waker = table_waker(4, &log);
    let mut cx = Context::from_waker(&waker);
    let handle = StaticTokenHandle(0);
    assert_eq!(table.poll_get_eventually(handle, &mut cx), Poll::Pending);
    assert_eq!(table.poll_get_eventually(handle, &mut cx), Poll::Pending);
    assert_eq!(table.poll_get_eventually(handle, &mut cx), Poll::Pending);
    table.bind(1);
    assert_eq!(woken(&log), vec![4]);
}

#[test]
fn polling_again_moves_the_task_behind_the_others() {
    let log = table_log();
    let mut table: ResourceMap<StaticTokenHandle, u32> = ResourceMap::default();
    let first = table_waker(1, &log);
    let second = table_waker(2, &log);
    let third = table_waker(3, &log);
    let handle = StaticTokenHandle(0);
    for waker in [&first, &second, &third, &first] {
        let mut cx = Context::from_waker(waker);
        assert_eq!(table.poll_get_eventually(handle, &mut cx), Poll::Pending);
    }
    table.bind(1);
    assert_eq!(woken(&log), vec![2, 3, 1]);
}

#[test]
fn poll_bound_tells_whether_the_handle_is_bound() {
    let log = table_log();
    let mut table: ResourceMap<StaticTokenHandle, u32> = ResourceMap::default();
    let waker = table_waker(6, &log);
    let mut cx = Context::from_waker(&waker);
    let handle = StaticTokenHandle(0);
    assert!(!table.poll_bound(handle, &mut cx));
    assert!(!table.poll_bound(handle, &mut cx));
    assert_eq!(table.remove_waker(handle, &waker), 1);
    assert!(!table.poll_bound(handle, &mut cx));
    table.bind(8);
    assert_eq!(woken(&log), vec![6]);
    assert!(table.poll_bound(handle, &mut cx));
    assert_eq!(table.get(&handle), Some(&8));
    table.bind(9);
    assert_eq!(woken(&log), vec![6]);
}

#[test]
fn register_waker_queues_every_waker_it_is_given() {
    let log = table_log();
    let mut table: ResourceMap<StaticTokenHandle, u32> = ResourceMap::default();
    let waker = table_waker(5, &log);
    table.register_waker(StaticTokenHandle(0), waker.clone());
    table.register_waker(StaticTokenHandle(0), waker.clone());
    table.bind(1);
    assert_eq!(woken(&log), vec![5, 5]);
}

#[test]
fn poll_with_waker_replaces_the_waker_of_the_same_task() {
    let log = table_log();
    let mut table: ResourceMap<StaticTokenHandle, u32> = ResourceMap::default();
    let task = table_waker(1, &log);
    let other = table_waker(2, &log);
    let handle = StaticTokenHandle(0);
    assert!(!table.poll_with_waker(handle, task.clone()));
    assert!(!table.poll_with_waker(handle, other.clone()));
    assert!(!table.poll_with_waker(handle, task.clone()));
    table.bind(3);
    assert_eq!(woken(&log), vec![2, 1]);
    assert!(table.poll_with_waker(handle, task));
    table.bind(4);
    assert_eq!(woken(&log), vec![2, 1]);
}
