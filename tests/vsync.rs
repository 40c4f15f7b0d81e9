use android_native_surface::vsync::VsyncHub;

#[test]
fn refresh_changes_reach_active_subscriptions() {
    let mut hub = VsyncHub::new();
    let a = hub.register_refresh_rate_changed().unwrap();
    let b = hub.register_refresh_rate_changed().unwrap();
    assert_eq!(a.id(), 0);
    assert_eq!(b.id(), 1);
    assert_eq!(hub.refresh_rate_changed(), vec![0, 1]);
    assert_eq!(hub.refresh_rate_changed(), vec![0, 1]);
}

#[test]
fn unregistered_subscription_gets_nothing_more() {
    let mut hub = VsyncHub::new();
    let a = hub.register_refresh_rate_changed().unwrap();
    let b = hub.register_refresh_rate_changed().unwrap();
    let mut count_a = 0;
    for _ in 0..3 {
        count_a += hub.refresh_rate_changed().iter().filter(|&&id| id == 0).count();
    }
    assert_eq!(count_a, 3);
    assert!(hub.unregister(a));
    for _ in 0..50 {
        let c = hub.register_refresh_rate_changed().unwrap();
        count_a += hub.refresh_rate_changed().iter().filter(|&&id| id == 0).count();
        assert!(hub.unregister(c));
    }
    assert_eq!(count_a, 3);
    assert_eq!(hub.refresh_rate_changed(), vec![1]);
    assert!(hub.unregister(b));
    assert!(hub.refresh_rate_changed().is_empty());
}

#[test]
fn next_vsync_callbacks_run_once() {
    let mut hub = VsyncHub::new();
    let t1 = hub.post_next_vsync().unwrap();
    let s = hub.register_refresh_rate_changed().unwrap();
    let t2 = hub.post_next_vsync().unwrap();
    assert_eq!((t1, s.id(), t2), (0, 1, 2));
    assert_eq!(hub.vsync_pulse(), vec![0, 2]);
    assert!(hub.vsync_pulse().is_empty());
    assert_eq!(hub.refresh_rate_changed(), vec![1]);
}
