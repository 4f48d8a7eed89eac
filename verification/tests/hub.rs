use hifirs::actions::Action;
use hifirs::broadcast::Hub;
use hifirs::notification::{Notification, PlayerStatus};
use hifirs::player::{Fetched, Player};
use hifirs::service::{Track, TrackStatus};

fn position(clock: u32) -> Notification {
    Notification::Position { clock }
}

fn clock_of(notification: Option<Notification>) -> Option<u32> {
    match notification {
        Some(Notification::Position { clock }) => Some(clock),
        _ => None,
    }
}

#[test]
fn two_subscribers_see_status_then_position_after_play() {
    let mut hub = Hub::new(16);
    let first = hub.subscribe();
    let second = hub.subscribe();
    assert_ne!(first, second);
    let mut player = Player::new();
    player
        .load(Ok(Fetched::Track {
            track: Track {
                id: 1,
                title: "one".to_string(),
                duration_seconds: 60,
                album: None,
                status: TrackStatus::Unplayed,
            },
        }))
        .unwrap();
    player.apply(Action::Pause).unwrap();
    let outcome = player.apply(Action::Play).unwrap();
    for notification in outcome.notifications {
        hub.publish(notification);
    }
    for id in [first, second] {
        assert_eq!(hub.pending(id), 2);
        assert!(matches!(
            hub.receive(id),
            Some(Notification::Status { status: PlayerStatus::Playing })
        ));
        assert!(matches!(hub.receive(id), Some(Notification::Position { clock: 0 })));
        assert!(hub.receive(id).is_none());
    }
}

#[test]
fn a_late_subscriber_misses_what_came_before() {
    let mut hub = Hub::new(16);
    hub.publish(position(1));
    hub.publish(position(2));
    hub.publish(position(3));
    let late = hub.subscribe();
    assert_eq!(hub.pending(late), 0);
    assert!(hub.receive(late).is_none());
    hub.publish(position(4));
    hub.publish(position(5));
    assert_eq!(clock_of(hub.receive(late)), Some(4));
    assert_eq!(clock_of(hub.receive(late)), Some(5));
    assert!(hub.receive(late).is_none());
    assert_eq!(hub.emitted(), 5);
}

#[test]
fn a_slow_subscriber_loses_the_oldest_and_keeps_the_order() {
    let mut hub = Hub::new(3);
    let slow = hub.subscribe();
    let quick = hub.subscribe();
    for clock in 1..=2 {
        hub.publish(position(clock));
    }
    assert_eq!(clock_of(hub.receive(quick)), Some(1));
    assert_eq!(clock_of(hub.receive(quick)), Some(2));
    for clock in 3..=6 {
        hub.publish(position(clock));
    }
    assert_eq!(hub.pending(slow), 3);
    assert_eq!(clock_of(hub.receive(slow)), Some(4));
    assert_eq!(clock_of(hub.receive(slow)), Some(5));
    assert_eq!(clock_of(hub.receive(slow)), Some(6));
    assert!(hub.receive(slow).is_none());
    assert_eq!(clock_of(hub.receive(quick)), Some(4));
}

#[test]
fn leaving_touches_nobody_else() {
    let mut hub = Hub::new(4);
    let stays = hub.subscribe();
    let leaves = hub.subscribe();
    hub.publish(position(1));
    hub.unsubscribe(leaves);
    assert!(!hub.is_subscribed(leaves));
    assert!(hub.is_subscribed(stays));
    assert!(hub.receive(leaves).is_none());
    assert_eq!(hub.pending(leaves), 0);
    assert_eq!(clock_of(hub.receive(stays)), Some(1));
    hub.unsubscribe(leaves);
    let newcomer = hub.subscribe();
    assert_ne!(newcomer, leaves);
    assert_ne!(newcomer, stays);
    assert_eq!(hub.issued(), 3);
}

#[test]
fn publishing_without_subscribers_is_fine() {
    let mut hub = Hub::new(1);
    hub.publish(Notification::Quit);
    hub.publish(position(9));
    assert_eq!(hub.emitted(), 2);
    let id = hub.subscribe();
    hub.publish(Notification::Quit);
    assert!(hub.receive(id).unwrap().is_quit());
}

#[test]
fn a_late_observer_starts_from_the_snapshot() {
    let mut hub = Hub::new(8);
    let mut player = Player::new();
    let loaded = player
        .load(Ok(Fetched::Track {
            track: Track {
                id: 5,
                title: "five".to_string(),
                duration_seconds: 50,
                album: None,
                status: TrackStatus::Unplayed,
            },
        }))
        .unwrap();
    assert_eq!(loaded.notifications.len(), 3);
    for notification in loaded.notifications {
        hub.publish(notification);
    }
    let late = hub.subscribe();
    assert!(hub.receive(late).is_none());
    let snapshot = player.snapshot();
    assert_eq!(snapshot.len(), 3);
    assert!(matches!(&snapshot[0], Notification::CurrentTrackList { list } if list.total() == 1));
    assert!(matches!(snapshot[1], Notification::Position { clock: 0 }));
    assert!(matches!(snapshot[2], Notification::Status { status: PlayerStatus::Playing }));
    for notification in player.apply(Action::Pause).unwrap().notifications {
        hub.publish(notification);
    }
    assert!(matches!(
        hub.receive(late),
        Some(Notification::Status { status: PlayerStatus::Paused })
    ));
    assert!(hub.receive(late).is_none());
}
