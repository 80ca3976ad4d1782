use context_server::subscriptions::{NotificationSubscriptionSet, CROWDED_METHOD};

#[test]
fn handlers_are_called_in_order() {
    let mut set = NotificationSubscriptionSet::new();
    assert_eq!(set.handler_count(), 0);
    set.add_handler("a", 10);
    set.add_handler("b", 20);
    set.add_handler("a", 30);
    set.add_handler("a", 10);
    assert_eq!(set.notify("a"), vec![10, 30, 10]);
    assert_eq!(set.notify("b"), vec![20]);
    assert_eq!(set.notify("c"), Vec::<u64>::new());
    assert_eq!(set.handler_count(), 4);
}

#[test]
fn ids_differ() {
    let mut set = NotificationSubscriptionSet::default();
    let first = set.add_handler("a", 1);
    let second = set.add_handler("a", 1);
    assert_ne!(first, second);
    set.remove_handler(first);
    let third = set.add_handler("b", 1);
    assert_ne!(third, first);
    assert_ne!(third, second);
}

#[test]
fn ending_undoes_subscribing() {
    let mut set = NotificationSubscriptionSet::new();
    set.add_handler("a", 1);
    let id = set.add_handler("a", 2);
    set.add_handler("a", 3);
    assert_eq!(set.remove_handler(id), Some(2));
    assert_eq!(set.notify("a"), vec![1, 3]);
    assert_eq!(set.remove_handler(id), None);
    assert_eq!(set.notify("a"), vec![1, 3]);
    assert_eq!(set.handler_count(), 2);
}

#[test]
fn a_method_can_lose_all_its_handlers() {
    let mut set = NotificationSubscriptionSet::new();
    let a = set.add_handler("a", 1);
    let b = set.add_handler("b", 2);
    let c = set.add_handler("c", 3);
    assert_eq!(set.remove_handler(b), Some(2));
    assert_eq!(set.notify("b"), Vec::<u64>::new());
    assert_eq!(set.notify("a"), vec![1]);
    assert_eq!(set.notify("c"), vec![3]);
    assert_eq!(set.remove_handler(a), Some(1));
    assert_eq!(set.remove_handler(c), Some(3));
    assert_eq!(set.handler_count(), 0);
    set.add_handler("b", 4);
    assert_eq!(set.notify("b"), vec![4]);
}

#[test]
fn a_stale_id_ends_nothing() {
    let mut set = NotificationSubscriptionSet::new();
    let stale = set.add_handler("a", 1);
    set.remove_handler(stale);
    for n in 0..100 {
        set.add_handler_uncapped("a", n);
    }
    assert_eq!(set.remove_handler(stale), None);
    assert_eq!(set.notify("a").len(), 100);
}

#[test]
fn a_method_becomes_crowded() {
    let mut set = NotificationSubscriptionSet::new();
    assert_eq!(CROWDED_METHOD, 20);
    for n in 0..20 {
        assert!(!set.is_crowded("a"));
        set.add_handler("a", n);
        set.add_handler("b", n);
    }
    assert!(set.is_crowded("a"));
    assert!(!set.is_crowded("c"));
    set.add_handler_uncapped("a", 20);
    set.add_handler("c", 21);
    assert_eq!(set.notify("a"), (0..=20).collect::<Vec<u64>>());
    assert_eq!(set.notify("c"), vec![21]);
}
