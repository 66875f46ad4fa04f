use nvim_mcp::error::NeovimError;
use nvim_mcp::notifications::{
    finish_wait, Notification, NotificationTracker, WaitOutcome, MAX_STORED_NOTIFICATIONS,
    NANOS_PER_SECOND, NOTIFICATION_EXPIRY_SECONDS,
};
use rmpv::Value;

const NOW: u64 = 1_700_000_000_000_000_000;

fn notification(name: &str, arg: Value, timestamp: u64) -> Notification {
    Notification { name: name.to_string(), args: vec![arg], timestamp }
}

#[test]
fn test_notification_tracker_basic() {
    let mut tracker: NotificationTracker<u32> = NotificationTracker::new();
    let woken = tracker.record_notification(
        notification("test_notification", Value::from("test_arg"), NOW),
        NOW,
    );
    assert!(woken.is_empty());

    let result = tracker.find_recent_notification("test_notification", NOW + 100);
    assert!(result.is_some());
    let notification = result.unwrap();
    assert_eq!(notification.name, "test_notification");
    assert_eq!(notification.args.len(), 1);
    assert_eq!(notification.args[0].as_str().unwrap(), "test_arg");
}

#[test]
fn test_notification_tracker_timeout() {
    let mut tracker: NotificationTracker<u32> = NotificationTracker::new();
    assert!(tracker.find_recent_notification("nonexistent_notification", NOW).is_none());
    tracker.register_waiter("nonexistent_notification".to_string(), 1);
    let result = finish_wait("nonexistent_notification", WaitOutcome::TimedOut);
    assert!(result.is_err());
    let error = result.unwrap_err();
    assert!(matches!(error, NeovimError::Api(_)));
    assert!(error.to_display_string().contains("Timeout waiting for notification"));
}

#[test]
fn test_notification_tracker_wait_then_send() {
    let mut tracker: NotificationTracker<&'static str> = NotificationTracker::new();
    assert!(tracker.find_recent_notification("test_async_notification", NOW).is_none());
    tracker.register_waiter("test_async_notification".to_string(), "waiter");
    assert_eq!(tracker.get_stats(), (0, 1));

    let sent = notification("test_async_notification", Value::from("async_test_arg"), NOW + 10);
    let woken = tracker.record_notification(sent.clone(), NOW + 10);
    assert_eq!(woken, vec!["waiter"]);
    assert_eq!(tracker.get_stats(), (1, 0));

    let result = finish_wait("test_async_notification", WaitOutcome::Delivered(sent));
    assert!(result.is_ok());
    let notification = result.unwrap();
    assert_eq!(notification.name, "test_async_notification");
    assert_eq!(notification.args.len(), 1);
    assert_eq!(notification.args[0].as_str().unwrap(), "async_test_arg");
}

#[test]
fn test_notification_cleanup_expired() {
    let mut tracker: NotificationTracker<u32> = NotificationTracker::new();
    let old_time = NOW - (NOTIFICATION_EXPIRY_SECONDS + 1) * NANOS_PER_SECOND;
    tracker.record_notification(notification("old_notification", Value::from("old_data"), old_time), old_time);
    tracker.record_notification(notification("fresh_notification", Value::from("fresh_data"), NOW), NOW);

    let (count_before, _) = tracker.get_stats();
    assert_eq!(count_before, 2);

    tracker.cleanup_expired_notifications(NOW);

    let (count_after, _) = tracker.get_stats();
    assert_eq!(count_after, 1);

    assert!(tracker.find_recent_notification("fresh_notification", NOW).is_some());
    assert!(tracker.find_recent_notification("old_notification", NOW).is_none());
}

#[test]
fn test_notification_cleanup_excess() {
    let mut tracker: NotificationTracker<u32> = NotificationTracker::new();
    for i in 0..(MAX_STORED_NOTIFICATIONS + 10) {
        tracker.record_notification(
            notification(&format!("notification_{}", i), Value::from(i as i64), NOW),
            NOW,
        );
    }
    let (count, _) = tracker.get_stats();
    assert!(count <= MAX_STORED_NOTIFICATIONS);

    let latest = format!("notification_{}", MAX_STORED_NOTIFICATIONS + 9);
    assert!(tracker.find_recent_notification(&latest, NOW).is_some());
}

#[test]
fn test_notification_expiry_in_wait() {
    let mut tracker: NotificationTracker<u32> = NotificationTracker::new();
    let old_time = NOW - (NOTIFICATION_EXPIRY_SECONDS + 1) * NANOS_PER_SECOND;
    tracker.record_notification(notification("expired_test", Value::from("expired_data"), old_time), old_time);
    assert!(tracker.find_recent_notification("expired_test", NOW).is_none());
    let result = finish_wait("expired_test", WaitOutcome::TimedOut);
    assert!(result.unwrap_err().to_display_string().contains("Timeout waiting for notification"));
}

#[test]
fn most_recent_notification_wins() {
    let mut tracker: NotificationTracker<u32> = NotificationTracker::new();
    tracker.record_notification(notification("n", Value::from(1), NOW), NOW);
    tracker.record_notification(notification("other", Value::from(2), NOW + 1), NOW + 1);
    tracker.record_notification(notification("n", Value::from(3), NOW + 2), NOW + 2);
    let found = tracker.find_recent_notification("n", NOW + 3).unwrap();
    assert_eq!(found.args[0].as_i64(), Some(3));
}

#[test]
fn freshness_boundary_is_thirty_whole_seconds() {
    let mut tracker: NotificationTracker<u32> = NotificationTracker::new();
    tracker.record_notification(notification("edge", Value::Nil, NOW), NOW);
    assert!(tracker.find_recent_notification("edge", NOW + 30 * NANOS_PER_SECOND - 1).is_some());
    assert!(tracker.find_recent_notification("edge", NOW + 30 * NANOS_PER_SECOND).is_none());
    // a notification from the future is not fresh
    assert!(tracker.find_recent_notification("edge", NOW - 1).is_none());
}

#[test]
fn waiters_are_handed_over_once_in_order() {
    let mut tracker: NotificationTracker<u32> = NotificationTracker::new();
    tracker.register_waiter("a".to_string(), 1);
    tracker.register_waiter("b".to_string(), 2);
    tracker.register_waiter("a".to_string(), 3);
    assert_eq!(tracker.get_stats(), (0, 2));
    let woken = tracker.record_notification(notification("a", Value::Nil, NOW), NOW);
    assert_eq!(woken, vec![1, 3]);
    let again = tracker.record_notification(notification("a", Value::Nil, NOW), NOW);
    assert!(again.is_empty());
    assert_eq!(tracker.get_stats(), (2, 1));
}

#[test]
fn clear_keeps_waiters() {
    let mut tracker: NotificationTracker<u32> = NotificationTracker::new();
    tracker.record_notification(notification("a", Value::Nil, NOW), NOW);
    tracker.register_waiter("b".to_string(), 7);
    tracker.clear_notifications();
    assert_eq!(tracker.get_stats(), (0, 1));
    assert!(tracker.find_recent_notification("a", NOW).is_none());
}

#[test]
fn closed_channel_is_reported() {
    let err = finish_wait("x", WaitOutcome::ChannelClosed).unwrap_err();
    assert_eq!(err, NeovimError::Api("Notification channel closed unexpectedly".to_string()));
}

#[test]
fn cleanup_keeps_the_most_recent_hundred() {
    let mut tracker: NotificationTracker<u32> = NotificationTracker::new();
    for i in 0..75u64 {
        tracker.record_notification(notification(&format!("n{i}"), Value::Nil, NOW), NOW);
    }
    // 75 stored: no cleanup yet, even of expired ones
    assert_eq!(tracker.get_stats().0, 75);
    let later = NOW + 31 * NANOS_PER_SECOND;
    tracker.record_notification(notification("late", Value::Nil, later), later);
    // the 76th triggers a cleanup that drops the 75 expired ones
    assert_eq!(tracker.get_stats().0, 1);
}

#[test]
fn excess_notifications_keep_the_latest_hundred() {
    let mut tracker: NotificationTracker<u32> = NotificationTracker::new();
    for i in 0..110 {
        tracker.record_notification(
            notification(&format!("notification_{}", i), Value::from(i as i64), NOW),
            NOW,
        );
        assert!(tracker.get_stats().0 <= MAX_STORED_NOTIFICATIONS);
    }
    assert_eq!(tracker.get_stats().0, 100);
    assert!(tracker.find_recent_notification("notification_109", NOW).is_some());
    assert!(tracker.find_recent_notification("notification_10", NOW).is_some());
    assert!(tracker.find_recent_notification("notification_9", NOW).is_none());
}
