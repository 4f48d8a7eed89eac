//! What the player tells its observers.

use crate::queue::{TrackListValue, TrackListView};
use vstd::prelude::*;

verus! {

/// The state of playback.
#[derive(Debug, Clone, Copy, PartialEq, Eq, Structural)]
pub enum PlayerStatus {
    Stopped,
    Paused,
    Playing,
    Quit,
}

/// An event for the observers. Each one can be read without the ones that
/// came before it.
#[derive(Debug, PartialEq)]
pub enum Notification {
    CurrentTrackList { list: TrackListValue },
    Position { clock: u32 },
    Status { status: PlayerStatus },
    Quit,
}

/// The mathematical content of a notification.
pub enum NotificationView {
    CurrentTrackList { list: TrackListView },
    Position { clock: u32 },
    Status { status: PlayerStatus },
    Quit,
}

impl View for Notification {
    type V = NotificationView;

    open spec fn view(&self) -> NotificationView {
        match self {
            Notification::CurrentTrackList { list } => NotificationView::CurrentTrackList {
                list: list@,
            },
            Notification::Position { clock } => NotificationView::Position { clock: *clock },
            Notification::Status { status } => NotificationView::Status { status: *status },
            Notification::Quit => NotificationView::Quit,
        }
    }
}

impl Clone for Notification {
    fn clone(&self) -> (copy: Notification)
        ensures
            copy@ == self@,
    {
        match self {
            Notification::CurrentTrackList { list } => Notification::CurrentTrackList {
                list: list.clone(),
            },
            Notification::Position { clock } => Notification::Position { clock: *clock },
            Notification::Status { status } => Notification::Status { status: *status },
            Notification::Quit => Notification::Quit,
        }
    }
}

impl Notification {
    /// Whether the notification tells the observers to shut down.
    pub fn is_quit(&self) -> (quit: bool)
        ensures
            quit == (self@ is Quit),
    {
        match self {
            Notification::Quit => true,
            _ => false,
        }
    }
}

/// The contents of a sequence of notifications.
pub open spec fn notification_views(notifications: Seq<Notification>) -> Seq<NotificationView> {
    notifications.map_values(|notification: Notification| notification@)
}

} // verus!
