//! The player state machine: it owns the queue, the playback status and the
//! clock, takes one action at a time, and says what to tell the observers and
//! the audio backend.

use crate::actions::{request_view, Action, AudioCommand, Request, RequestView};
use crate::notification::{notification_views, Notification, NotificationView, PlayerStatus};
use crate::queue::{
    greatest_below, least_from, marked_around, marked_finished, playing_at, track_with_status,
    TrackListType, TrackListValue, TrackListView,
};
use crate::queue_laws::{
    lemma_greatest_below_exists, lemma_least_from_exists, lemma_some_first_playing,
};
use crate::service::{Album, Playlist, Track, TrackStatus};
use vstd::prelude::*;

verus! {

/// The number of seconds that a jump forward or backward covers.
pub const JUMP_SECONDS: u32 = 10;

/// Why an action could not be carried out. The state is the same as before
/// whenever one of these is returned.
#[derive(Debug, Clone, Copy, PartialEq, Eq, Structural)]
pub enum PlayerError {
    /// The position is not in the queue.
    InvalidTarget,
    /// The catalogue does not know the id.
    NotFound,
    /// The catalogue could not be reached.
    Unavailable,
    /// The command could not be decoded.
    ProtocolError,
}

/// What an action brought about besides the change of state.
#[derive(Debug)]
pub struct Outcome {
    /// What to tell every observer, in this order.
    pub notifications: Vec<Notification>,
    /// What to ask of the audio backend, in this order.
    pub commands: Vec<AudioCommand>,
    /// What to fetch from the catalogue.
    pub request: Option<Request>,
}

/// The mathematical content of an outcome.
pub struct OutcomeView {
    pub notifications: Seq<NotificationView>,
    pub commands: Seq<AudioCommand>,
    pub request: Option<RequestView>,
}

impl View for Outcome {
    type V = OutcomeView;

    open spec fn view(&self) -> OutcomeView {
        OutcomeView {
            notifications: notification_views(self.notifications@),
            commands: self.commands@,
            request: request_view(self.request),
        }
    }
}

impl OutcomeView {
    /// The outcome of an action that changes nothing.
    pub open spec fn nothing() -> OutcomeView {
        OutcomeView { notifications: Seq::empty(), commands: Seq::empty(), request: None }
    }
}

/// What the catalogue delivered for a request to load a queue.
#[derive(Debug)]
pub enum Fetched {
    Album { album: Album, tracks: Vec<Track> },
    Playlist { playlist: Playlist, tracks: Vec<Track> },
    Track { track: Track },
}

/// Why the catalogue delivered nothing.
#[derive(Debug, Clone, Copy, PartialEq, Eq, Structural)]
pub enum FetchError {
    NotFound,
    Unavailable,
}

/// The queue made of `tracks`: the first track at position 1, the next at 2
/// and so on; the first is the one being played, the others are unplayed.
pub open spec fn fresh_queue(tracks: Seq<Track>) -> Map<u32, Track> {
    Map::new(
        |position: u32| 1 <= position <= tracks.len(),
        |position: u32|
            track_with_status(
                tracks[position - 1],
                if position == 1 {
                    TrackStatus::Playing
                } else {
                    TrackStatus::Unplayed
                },
            ),
    )
}

impl Fetched {
    /// The tracks that were delivered.
    pub open spec fn spec_tracks(self) -> Seq<Track> {
        match self {
            Fetched::Album { album, tracks } => tracks@,
            Fetched::Playlist { playlist, tracks } => tracks@,
            Fetched::Track { track } => seq![track],
        }
    }

    /// The queue that is made of what was delivered.
    pub open spec fn spec_list(self) -> TrackListView {
        TrackListView {
            queue: fresh_queue(self.spec_tracks()),
            album: match self {
                Fetched::Album { album, tracks } => Some(album),
                _ => None,
            },
            playlist: match self {
                Fetched::Playlist { playlist, tracks } => Some(playlist),
                _ => None,
            },
            list_type: match self {
                Fetched::Album { album, tracks } => TrackListType::Album,
                Fetched::Playlist { playlist, tracks } => TrackListType::Playlist,
                Fetched::Track { track } => TrackListType::Track,
            },
        }
    }
}

impl FetchError {
    /// The error that the caller is told.
    pub open spec fn spec_error(self) -> PlayerError {
        match self {
            FetchError::NotFound => PlayerError::NotFound,
            FetchError::Unavailable => PlayerError::Unavailable,
        }
    }
}

/// The mathematical content of a player.
pub struct PlayerView {
    pub list: TrackListView,
    pub status: PlayerStatus,
    /// The seconds played of the current track.
    pub clock: u32,
    /// The position of the current track.
    pub current: Option<u32>,
}

/// The lesser of two numbers.
pub open spec fn lesser(a: int, b: int) -> int {
    if a <= b {
        a
    } else {
        b
    }
}

impl PlayerView {
    /// What holds of every player: only the current track can be the one
    /// being played, so at most one track is; the current position is in the
    /// queue; and the clock stays within the current track.
    pub open spec fn wf(self) -> bool {
        &&& forall|position: u32|
            playing_at(self.list.queue, position) ==> self.current == Some(position)
        &&& self.current matches Some(position) ==> self.list.queue.contains_key(position)
            && self.clock <= self.list.queue[position].duration_seconds
        &&& self.current is None ==> self.clock == 0
    }

    /// A stopped player with an empty queue.
    pub open spec fn initial() -> PlayerView {
        PlayerView {
            list: TrackListView::empty(),
            status: PlayerStatus::Stopped,
            clock: 0,
            current: None,
        }
    }

    /// The state once the track at `position` has been made the current one
    /// and playback of it has begun.
    pub open spec fn moved_to(self, position: u32) -> PlayerView {
        PlayerView {
            list: TrackListView {
                queue: marked_around(self.list.queue, position),
                ..self.list
            },
            status: PlayerStatus::Playing,
            clock: 0,
            current: Some(position),
        }
    }

    /// The state once playback has begun or gone on: with a current track,
    /// that track is the one being played; without one, the first track of the
    /// queue becomes the current one.
    pub open spec fn started(self) -> PlayerView {
        match self.current {
            Some(position) => PlayerView {
                list: self.list.with_track_status(position, TrackStatus::Playing),
                status: PlayerStatus::Playing,
                ..self
            },
            None => match least_from(self.list.queue.dom(), 0) {
                Some(first) => self.moved_to(first),
                None => PlayerView { status: PlayerStatus::Playing, ..self },
            },
        }
    }

    /// The state once the end of the queue has been passed: nothing is being
    /// played any more, and the player has stopped.
    pub open spec fn finished(self) -> PlayerView {
        PlayerView {
            list: TrackListView { queue: marked_finished(self.list.queue), ..self.list },
            status: PlayerStatus::Stopped,
            ..self
        }
    }

    /// The position that `Next` moves to.
    pub open spec fn next_position(self) -> Option<u32> {
        match self.current {
            Some(position) => least_from(self.list.queue.dom(), position + 1),
            None => least_from(self.list.queue.dom(), 0),
        }
    }

    /// The position that `Previous` moves to.
    pub open spec fn previous_position(self) -> Option<u32> {
        match self.current {
            Some(position) => greatest_below(self.list.queue.dom(), position as int),
            None => None,
        }
    }

    /// The clock after a jump forward.
    pub open spec fn clock_forward(self) -> u32 {
        match self.current {
            Some(position) => lesser(
                self.clock + JUMP_SECONDS,
                self.list.queue[position].duration_seconds as int,
            ) as u32,
            None => self.clock,
        }
    }

    /// The clock after a jump backward.
    pub open spec fn clock_backward(self) -> u32 {
        if self.clock >= JUMP_SECONDS {
            (self.clock - JUMP_SECONDS) as u32
        } else {
            0
        }
    }

    /// Why the player turns an action down, if it does: a jump to a position
    /// that the queue does not hold, or an address that names nothing.
    pub open spec fn rejection(self, action: Action) -> Option<PlayerError> {
        match action {
            Action::SkipTo { num } => if self.status != PlayerStatus::Quit
                && !self.list.queue.contains_key(num) {
                Some(PlayerError::InvalidTarget)
            } else {
                None
            },
            Action::PlayUri { uri } => if self.status != PlayerStatus::Quit
                && action.spec_request() is None {
                Some(PlayerError::NotFound)
            } else {
                None
            },
            _ => None,
        }
    }

    /// The state after an action.
    pub open spec fn step(self, action: Action) -> PlayerView {
        if self.status == PlayerStatus::Quit {
            self
        } else {
            match action {
                Action::Play => if self.status == PlayerStatus::Playing {
                    self
                } else {
                    self.started()
                },
                Action::Pause => if self.status == PlayerStatus::Playing {
                    PlayerView { status: PlayerStatus::Paused, ..self }
                } else {
                    self
                },
                Action::PlayPause => if self.status == PlayerStatus::Playing {
                    PlayerView { status: PlayerStatus::Paused, ..self }
                } else {
                    self.started()
                },
                Action::Stop => PlayerView { status: PlayerStatus::Stopped, ..self },
                Action::Next => match self.next_position() {
                    Some(position) => self.moved_to(position),
                    None => self.finished(),
                },
                Action::Previous => match self.previous_position() {
                    Some(position) => self.moved_to(position),
                    None => self,
                },
                Action::SkipTo { num } => if self.list.queue.contains_key(num) {
                    self.moved_to(num)
                } else {
                    self
                },
                Action::JumpForward => PlayerView { clock: self.clock_forward(), ..self },
                Action::JumpBackward => PlayerView { clock: self.clock_backward(), ..self },
                Action::Quit => PlayerView { status: PlayerStatus::Quit, ..self },
                _ => self,
            }
        }
    }

    /// The state once a new queue has taken the place of the old one: its
    /// first track is being played; with no track in it, the player has
    /// stopped.
    pub open spec fn loaded(self, fetched: Fetched) -> PlayerView {
        if fetched.spec_tracks().len() > 0 {
            PlayerView {
                list: fetched.spec_list(),
                status: PlayerStatus::Playing,
                clock: 0,
                current: Some(1),
            }
        } else {
            PlayerView {
                list: fetched.spec_list(),
                status: PlayerStatus::Stopped,
                clock: 0,
                current: None,
            }
        }
    }

    /// What `loaded` tells the observers and the backend.
    pub open spec fn load_outcome(self, fetched: Fetched) -> OutcomeView {
        if fetched.spec_tracks().len() > 0 {
            OutcomeView {
                notifications: seq![
                    NotificationView::CurrentTrackList { list: fetched.spec_list() },
                    NotificationView::Status { status: PlayerStatus::Playing },
                    NotificationView::Position { clock: 0 },
                ],
                commands: seq![
                    AudioCommand::Stop,
                    AudioCommand::Load { track_id: fetched.spec_tracks()[0].id },
                    AudioCommand::Play,
                ],
                request: None,
            }
        } else {
            OutcomeView {
                notifications: seq![
                    NotificationView::CurrentTrackList { list: fetched.spec_list() },
                    NotificationView::Status { status: PlayerStatus::Stopped },
                ],
                commands: seq![AudioCommand::Stop],
                request: None,
            }
        }
    }

    /// The clock once the backend has reported `clock`: the report, held
    /// within the current track; without a current track, zero.
    pub open spec fn clock_at(self, clock: u32) -> u32 {
        match self.current {
            Some(position) => lesser(
                clock as int,
                self.list.queue[position].duration_seconds as int,
            ) as u32,
            None => 0,
        }
    }

    /// What `started` tells the observers and the backend.
    pub open spec fn start_outcome(self) -> OutcomeView {
        OutcomeView {
            notifications: seq![
                NotificationView::Status { status: PlayerStatus::Playing },
                NotificationView::Position { clock: self.started().clock },
            ],
            commands: match self.current {
                Some(position) => seq![AudioCommand::Play],
                None => match least_from(self.list.queue.dom(), 0) {
                    Some(first) => seq![
                        AudioCommand::Load { track_id: self.list.queue[first].id },
                        AudioCommand::Play,
                    ],
                    None => Seq::empty(),
                },
            },
            request: None,
        }
    }

    /// What `moved_to` tells the observers and the backend.
    pub open spec fn move_outcome(self, position: u32) -> OutcomeView {
        OutcomeView {
            notifications: seq![
                NotificationView::CurrentTrackList { list: self.moved_to(position).list },
                NotificationView::Status { status: PlayerStatus::Playing },
                NotificationView::Position { clock: 0 },
            ],
            commands: seq![
                AudioCommand::Load { track_id: self.list.queue[position].id },
                AudioCommand::Play,
            ],
            request: None,
        }
    }

    /// What `finished` tells the observers and the backend.
    pub open spec fn finish_outcome(self) -> OutcomeView {
        OutcomeView {
            notifications: seq![
                NotificationView::CurrentTrackList { list: self.finished().list },
                NotificationView::Status { status: PlayerStatus::Stopped },
            ],
            commands: seq![AudioCommand::Stop],
            request: None,
        }
    }

    /// What pausing tells the observers and the backend.
    pub open spec fn pause_outcome() -> OutcomeView {
        OutcomeView {
            notifications: seq![NotificationView::Status { status: PlayerStatus::Paused }],
            commands: seq![AudioCommand::Pause],
            request: None,
        }
    }

    /// What a new clock tells the observers and the backend.
    pub open spec fn seek_outcome(clock: u32) -> OutcomeView {
        OutcomeView {
            notifications: seq![NotificationView::Position { clock }],
            commands: seq![AudioCommand::Seek { seconds: clock }],
            request: None,
        }
    }

    /// What an action that the player does not turn down brings about
    /// besides the change of state.
    pub open spec fn outcome(self, action: Action) -> OutcomeView {
        if self.status == PlayerStatus::Quit {
            OutcomeView::nothing()
        } else {
            match action {
                Action::Play => if self.status == PlayerStatus::Playing {
                    OutcomeView::nothing()
                } else {
                    self.start_outcome()
                },
                Action::Pause => if self.status == PlayerStatus::Playing {
                    PlayerView::pause_outcome()
                } else {
                    OutcomeView::nothing()
                },
                Action::PlayPause => if self.status == PlayerStatus::Playing {
                    PlayerView::pause_outcome()
                } else {
                    self.start_outcome()
                },
                Action::Stop => OutcomeView {
                    notifications: seq![
                        NotificationView::Status { status: PlayerStatus::Stopped },
                    ],
                    commands: seq![AudioCommand::Stop],
                    request: None,
                },
                Action::Next => match self.next_position() {
                    Some(position) => self.move_outcome(position),
                    None => self.finish_outcome(),
                },
                Action::Previous => match self.previous_position() {
                    Some(position) => self.move_outcome(position),
                    None => OutcomeView::nothing(),
                },
                Action::SkipTo { num } => if self.list.queue.contains_key(num) {
                    self.move_outcome(num)
                } else {
                    OutcomeView::nothing()
                },
                Action::JumpForward => match self.current {
                    Some(position) => PlayerView::seek_outcome(self.clock_forward()),
                    None => OutcomeView::nothing(),
                },
                Action::JumpBackward => match self.current {
                    Some(position) => PlayerView::seek_outcome(self.clock_backward()),
                    None => OutcomeView::nothing(),
                },
                Action::Quit => OutcomeView {
                    notifications: seq![NotificationView::Quit],
                    commands: seq![AudioCommand::Stop],
                    request: None,
                },
                _ => OutcomeView { request: action.spec_request(), ..OutcomeView::nothing() },
            }
        }
    }
}

/// The player.
#[derive(Debug)]
pub struct Player {
    tracklist: TrackListValue,
    status: PlayerStatus,
    clock: u32,
    current: Option<u32>,
}

impl View for Player {
    type V = PlayerView;

    closed spec fn view(&self) -> PlayerView {
        PlayerView {
            list: self.tracklist@,
            status: self.status,
            clock: self.clock,
            current: self.current,
        }
    }
}

/// An outcome that holds nothing.
fn no_outcome() -> (outcome: Outcome)
    ensures
        outcome@ == OutcomeView::nothing(),
{
    let outcome = Outcome { notifications: Vec::new(), commands: Vec::new(), request: None };
    assert(outcome@.notifications =~= Seq::empty());
    outcome
}

/// Puts `tracks` into an empty queue, the first at position 1.
fn fill_queue(list: &mut TrackListValue, tracks: Vec<Track>)
    requires
        old(list).queue@ == Map::<u32, Track>::empty(),
        tracks@.len() < u32::MAX,
    ensures
        final(list)@ == (TrackListView { queue: fresh_queue(tracks@), ..old(list)@ }),
{
    let mut rest = tracks;
    let ghost all = tracks@;
    while rest.len() > 0
        invariant
            all.len() < u32::MAX,
            rest@.len() <= all.len(),
            rest@ == all.take(rest@.len() as int),
            list.album == old(list).album,
            list.playlist == old(list).playlist,
            list.list_type == old(list).list_type,
            list.queue@.dom() == Set::new(|position: u32| rest@.len() < position <= all.len()),
            forall|position: u32|
                rest@.len() < position <= all.len() ==> list.queue@[position] == fresh_queue(
                    all,
                )[position],
        decreases rest@.len(),
    {
        let position = rest.len() as u32;
        let status = if position == 1 {
            TrackStatus::Playing
        } else {
            TrackStatus::Unplayed
        };
        match rest.pop() {
            Some(track) => {
                let placed = Track {
                    id: track.id,
                    title: track.title,
                    duration_seconds: track.duration_seconds,
                    album: track.album,
                    status,
                };
                list.insert_track(position, placed);
                proof {
                    assert(track == all[position - 1]);
                    assert(rest@ =~= all.take(rest@.len() as int));
                    assert(list.queue@.dom() =~= Set::new(
                        |position: u32| rest@.len() < position <= all.len(),
                    ));
                }
            },
            None => {},
        }
    }
    proof {
        assert(list.queue@ =~= fresh_queue(all));
    }
}

impl Player {
    /// A stopped player with an empty queue.
    pub fn new() -> (player: Player)
        ensures
            player@ == PlayerView::initial(),
            player@.wf(),
    {
        Player {
            tracklist: TrackListValue::new(None),
            status: PlayerStatus::Stopped,
            clock: 0,
            current: None,
        }
    }

    /// The state of playback.
    pub fn current_status(&self) -> (status: PlayerStatus)
        ensures
            status == self@.status,
    {
        self.status
    }

    /// The position of the current track in the queue.
    pub fn current_position(&self) -> (position: Option<u32>)
        ensures
            position == self@.current,
    {
        self.current
    }

    /// The seconds played of the current track; nothing without a current
    /// track.
    pub fn position(&self) -> (clock: Option<u32>)
        ensures
            clock == (match self@.current {
                Some(position) => Some(self@.clock),
                None => None,
            }),
    {
        match self.current {
            Some(_) => Some(self.clock),
            None => None,
        }
    }

    /// The queue as it stands.
    pub fn tracklist(&self) -> (list: &TrackListValue)
        ensures
            list@ == self@.list,
    {
        &self.tracklist
    }

    /// A copy of the queue as it stands.
    pub fn current_tracklist(&self) -> (list: TrackListValue)
        ensures
            list@ == self@.list,
    {
        self.tracklist.clone()
    }

    /// What a new observer is sent to begin with: the queue, the clock where
    /// there is a current track, and the status, in this order.
    pub fn snapshot(&self) -> (notifications: Vec<Notification>)
        ensures
            notification_views(notifications@) == (match self@.current {
                Some(position) => seq![
                    NotificationView::CurrentTrackList { list: self@.list },
                    NotificationView::Position { clock: self@.clock },
                    NotificationView::Status { status: self@.status },
                ],
                None => seq![
                    NotificationView::CurrentTrackList { list: self@.list },
                    NotificationView::Status { status: self@.status },
                ],
            }),
    {
        let mut notifications: Vec<Notification> = Vec::new();
        notifications.push(Notification::CurrentTrackList { list: self.tracklist.clone() });
        if let Some(clock) = self.position() {
            notifications.push(Notification::Position { clock });
        }
        notifications.push(Notification::Status { status: self.status });
        proof {
            match self@.current {
                Some(position) => {
                    assert(notification_views(notifications@) =~= seq![
                        NotificationView::CurrentTrackList { list: self@.list },
                        NotificationView::Position { clock: self@.clock },
                        NotificationView::Status { status: self@.status },
                    ]);
                },
                None => {
                    assert(notification_views(notifications@) =~= seq![
                        NotificationView::CurrentTrackList { list: self@.list },
                        NotificationView::Status { status: self@.status },
                    ]);
                },
            }
        }
        notifications
    }

    /// Makes the track at `position` the current one and begins to play it.
    fn move_to(&mut self, position: u32) -> (outcome: Outcome)
        requires
            old(self)@.wf(),
            old(self)@.list.queue.contains_key(position),
        ensures
            final(self)@ == old(self)@.moved_to(position),
            final(self)@.wf(),
            outcome@ == old(self)@.move_outcome(position),
    {
        let track_id = match self.tracklist.find_track_by_index(position) {
            Some(track) => track.id,
            None => 0,
        };
        self.tracklist.mark_current(position);
        self.status = PlayerStatus::Playing;
        self.clock = 0;
        self.current = Some(position);
        let mut notifications: Vec<Notification> = Vec::new();
        notifications.push(Notification::CurrentTrackList { list: self.tracklist.clone() });
        notifications.push(Notification::Status { status: PlayerStatus::Playing });
        notifications.push(Notification::Position { clock: 0 });
        let mut commands: Vec<AudioCommand> = Vec::new();
        commands.push(AudioCommand::Load { track_id });
        commands.push(AudioCommand::Play);
        let outcome = Outcome { notifications, commands, request: None };
        proof {
            assert(outcome@.notifications =~= old(self)@.move_outcome(position).notifications);
            assert(outcome@.commands =~= old(self)@.move_outcome(position).commands);
        }
        outcome
    }

    /// Begins playback, or goes on with it.
    fn start(&mut self) -> (outcome: Outcome)
        requires
            old(self)@.wf(),
        ensures
            final(self)@ == old(self)@.started(),
            final(self)@.wf(),
            outcome@ == old(self)@.start_outcome(),
    {
        match self.current {
            Some(position) => {
                self.tracklist.set_track_status(position, TrackStatus::Playing);
                self.status = PlayerStatus::Playing;
                let mut notifications: Vec<Notification> = Vec::new();
                notifications.push(Notification::Status { status: PlayerStatus::Playing });
                notifications.push(Notification::Position { clock: self.clock });
                let mut commands: Vec<AudioCommand> = Vec::new();
                commands.push(AudioCommand::Play);
                let outcome = Outcome { notifications, commands, request: None };
                proof {
                    assert(outcome@.notifications =~= old(self)@.start_outcome().notifications);
                    assert(outcome@.commands =~= old(self)@.start_outcome().commands);
                    assert forall|other: u32| playing_at(self@.list.queue, other) implies self@.current
                        == Some(other) by {
                        if other != position {
                            assert(playing_at(old(self)@.list.queue, other));
                        }
                    }
                }
                outcome
            },
            None => match self.tracklist.position_from(0) {
                Some(first) => {
                    let moved = self.move_to(first);
                    let mut notifications: Vec<Notification> = Vec::new();
                    notifications.push(Notification::Status { status: PlayerStatus::Playing });
                    notifications.push(Notification::Position { clock: self.clock });
                    let outcome = Outcome {
                        notifications,
                        commands: moved.commands,
                        request: None,
                    };
                    proof {
                        assert(outcome@.notifications =~= old(
                            self,
                        )@.start_outcome().notifications);
                        assert(outcome@.commands =~= old(self)@.start_outcome().commands);
                    }
                    outcome
                },
                None => {
                    self.status = PlayerStatus::Playing;
                    let mut notifications: Vec<Notification> = Vec::new();
                    notifications.push(Notification::Status { status: PlayerStatus::Playing });
                    notifications.push(Notification::Position { clock: self.clock });
                    let outcome = Outcome { notifications, commands: Vec::new(), request: None };
                    proof {
                        assert(outcome@.notifications =~= old(
                            self,
                        )@.start_outcome().notifications);
                    }
                    outcome
                },
            },
        }
    }

    /// Pauses playback.
    fn pause(&mut self) -> (outcome: Outcome)
        requires
            old(self)@.wf(),
        ensures
            final(self)@ == (PlayerView { status: PlayerStatus::Paused, ..old(self)@ }),
            final(self)@.wf(),
            outcome@ == PlayerView::pause_outcome(),
    {
        self.status = PlayerStatus::Paused;
        let mut notifications: Vec<Notification> = Vec::new();
        notifications.push(Notification::Status { status: PlayerStatus::Paused });
        let mut commands: Vec<AudioCommand> = Vec::new();
        commands.push(AudioCommand::Pause);
        let outcome = Outcome { notifications, commands, request: None };
        proof {
            assert(outcome@.notifications =~= PlayerView::pause_outcome().notifications);
            assert(outcome@.commands =~= PlayerView::pause_outcome().commands);
        }
        outcome
    }

    /// Stops at the end of the queue.
    fn finish(&mut self) -> (outcome: Outcome)
        requires
            old(self)@.wf(),
        ensures
            final(self)@ == old(self)@.finished(),
            final(self)@.wf(),
            outcome@ == old(self)@.finish_outcome(),
    {
        self.tracklist.mark_finished();
        self.status = PlayerStatus::Stopped;
        let mut notifications: Vec<Notification> = Vec::new();
        notifications.push(Notification::CurrentTrackList { list: self.tracklist.clone() });
        notifications.push(Notification::Status { status: PlayerStatus::Stopped });
        let mut commands: Vec<AudioCommand> = Vec::new();
        commands.push(AudioCommand::Stop);
        let outcome = Outcome { notifications, commands, request: None };
        proof {
            assert(outcome@.notifications =~= old(self)@.finish_outcome().notifications);
            assert(outcome@.commands =~= old(self)@.finish_outcome().commands);
        }
        outcome
    }

    /// Sets the clock and says so.
    fn seek(&mut self, clock: u32) -> (outcome: Outcome)
        requires
            old(self)@.wf(),
            old(self)@.current matches Some(position) && clock <= old(
                self,
            )@.list.queue[position].duration_seconds,
        ensures
            final(self)@ == (PlayerView { clock, ..old(self)@ }),
            final(self)@.wf(),
            outcome@ == PlayerView::seek_outcome(clock),
    {
        self.clock = clock;
        let mut notifications: Vec<Notification> = Vec::new();
        notifications.push(Notification::Position { clock });
        let mut commands: Vec<AudioCommand> = Vec::new();
        commands.push(AudioCommand::Seek { seconds: clock });
        let outcome = Outcome { notifications, commands, request: None };
        proof {
            assert(outcome@.notifications =~= PlayerView::seek_outcome(clock).notifications);
            assert(outcome@.commands =~= PlayerView::seek_outcome(clock).commands);
        }
        outcome
    }

    /// The length of the current track in seconds.
    fn current_duration(&self) -> (duration: Option<u32>)
        requires
            self@.wf(),
        ensures
            duration == (match self@.current {
                Some(position) => Some(self@.list.queue[position].duration_seconds),
                None => None,
            }),
    {
        match self.current {
            Some(position) => match self.tracklist.find_track_by_index(position) {
                Some(track) => Some(track.duration_seconds),
                None => None,
            },
            None => None,
        }
    }

    /// Takes what the catalogue delivered for `PlayAlbum`, `PlayTrack`,
    /// `PlayPlaylist` or `PlayUri`. A delivery replaces the queue and begins
    /// to play its first track; a failure is handed on and changes nothing.
    /// Once the player has quit, neither changes anything.
    pub fn load(&mut self, fetched: Result<Fetched, FetchError>) -> (result: Result<
        Outcome,
        PlayerError,
    >)
        requires
            old(self)@.wf(),
            fetched matches Ok(delivery) ==> delivery.spec_tracks().len() < u32::MAX,
        ensures
            final(self)@.wf(),
            match fetched {
                Ok(delivery) => result matches Ok(outcome) && (if old(self)@.status
                    == PlayerStatus::Quit {
                    final(self)@ == old(self)@ && outcome@ == OutcomeView::nothing()
                } else {
                    final(self)@ == old(self)@.loaded(delivery) && outcome@ == old(
                        self,
                    )@.load_outcome(delivery)
                }),
                Err(failure) => result == Err::<Outcome, PlayerError>(failure.spec_error())
                    && final(self)@ == old(self)@,
            },
    {
        let delivery = match fetched {
            Ok(delivery) => delivery,
            Err(FetchError::NotFound) => {
                return Err(PlayerError::NotFound);
            },
            Err(FetchError::Unavailable) => {
                return Err(PlayerError::Unavailable);
            },
        };
        if self.status == PlayerStatus::Quit {
            return Ok(no_outcome());
        }
        let ghost list = delivery.spec_list();
        let mut fresh = TrackListValue::new(None);
        let tracks = match delivery {
            Fetched::Album { album, tracks } => {
                fresh.set_album(album);
                tracks
            },
            Fetched::Playlist { playlist, tracks } => {
                fresh.set_playlist(playlist);
                tracks
            },
            Fetched::Track { track } => {
                fresh.set_list_type(TrackListType::Track);
                let mut tracks: Vec<Track> = Vec::new();
                tracks.push(track);
                assert(tracks@ =~= seq![track]);
                tracks
            },
        };
        let first_id = if tracks.len() > 0 {
            Some(tracks[0].id)
        } else {
            None
        };
        fill_queue(&mut fresh, tracks);
        assert(fresh@ == list);
        self.tracklist = fresh;
        self.clock = 0;
        let mut notifications: Vec<Notification> = Vec::new();
        notifications.push(Notification::CurrentTrackList { list: self.tracklist.clone() });
        let mut commands: Vec<AudioCommand> = Vec::new();
        commands.push(AudioCommand::Stop);
        match first_id {
            Some(track_id) => {
                self.status = PlayerStatus::Playing;
                self.current = Some(1);
                notifications.push(Notification::Status { status: PlayerStatus::Playing });
                notifications.push(Notification::Position { clock: 0 });
                commands.push(AudioCommand::Load { track_id });
                commands.push(AudioCommand::Play);
            },
            None => {
                self.status = PlayerStatus::Stopped;
                self.current = None;
                notifications.push(Notification::Status { status: PlayerStatus::Stopped });
            },
        }
        let outcome = Outcome { notifications, commands, request: None };
        proof {
            assert(outcome@.notifications =~= old(self)@.load_outcome(delivery).notifications);
            assert(outcome@.commands =~= old(self)@.load_outcome(delivery).commands);
        }
        Ok(outcome)
    }

    /// Takes the clock that the audio backend reports and tells the
    /// observers. Once the player has quit, nothing changes.
    pub fn set_clock(&mut self, clock: u32) -> (outcome: Outcome)
        requires
            old(self)@.wf(),
        ensures
            final(self)@.wf(),
            if old(self)@.status == PlayerStatus::Quit {
                final(self)@ == old(self)@ && outcome@ == OutcomeView::nothing()
            } else {
                &&& final(self)@ == (PlayerView {
                    clock: old(self)@.clock_at(clock),
                    ..old(self)@
                })
                &&& outcome@ == (OutcomeView {
                    notifications: seq![
                        NotificationView::Position { clock: old(self)@.clock_at(clock) },
                    ],
                    commands: Seq::empty(),
                    request: None,
                })
            },
    {
        if self.status == PlayerStatus::Quit {
            return no_outcome();
        }
        let held = match self.current_duration() {
            Some(duration) => if clock <= duration {
                clock
            } else {
                duration
            },
            None => 0,
        };
        self.clock = held;
        let mut notifications: Vec<Notification> = Vec::new();
        notifications.push(Notification::Position { clock: held });
        let outcome = Outcome { notifications, commands: Vec::new(), request: None };
        proof {
            assert(outcome@.notifications =~= seq![NotificationView::Position { clock: held }]);
        }
        outcome
    }

    /// Carries out one action. A jump to a position that the queue does not
    /// hold and an address that names nothing are turned down and change
    /// nothing; every other action succeeds. Once the player has quit, no
    /// action changes anything.
    pub fn apply(&mut self, action: Action) -> (result: Result<Outcome, PlayerError>)
        requires
            old(self)@.wf(),
        ensures
            final(self)@.wf(),
            final(self)@ == old(self)@.step(action),
            match result {
                Ok(outcome) => old(self)@.rejection(action) is None && outcome@ == old(
                    self,
                )@.outcome(action),
                Err(error) => old(self)@.rejection(action) == Some(error) && final(self)@ == old(
                    self,
                )@,
            },
    {
        if self.status == PlayerStatus::Quit {
            return Ok(no_outcome());
        }
        match action {
            Action::Play => {
                if self.status == PlayerStatus::Playing {
                    Ok(no_outcome())
                } else {
                    Ok(self.start())
                }
            },
            Action::Pause => {
                if self.status == PlayerStatus::Playing {
                    Ok(self.pause())
                } else {
                    Ok(no_outcome())
                }
            },
            Action::PlayPause => {
                if self.status == PlayerStatus::Playing {
                    Ok(self.pause())
                } else {
                    Ok(self.start())
                }
            },
            Action::Stop => {
                self.status = PlayerStatus::Stopped;
                let mut notifications: Vec<Notification> = Vec::new();
                notifications.push(Notification::Status { status: PlayerStatus::Stopped });
                let mut commands: Vec<AudioCommand> = Vec::new();
                commands.push(AudioCommand::Stop);
                let outcome = Outcome { notifications, commands, request: None };
                proof {
                    assert(outcome@.notifications =~= old(self)@.outcome(action).notifications);
                    assert(outcome@.commands =~= old(self)@.outcome(action).commands);
                }
                Ok(outcome)
            },
            Action::Next => {
                let next = match self.current {
                    Some(position) => if position == u32::MAX {
                        None
                    } else {
                        self.tracklist.position_from(position + 1)
                    },
                    None => self.tracklist.position_from(0),
                };
                assert(next == old(self)@.next_position());
                match next {
                    Some(position) => Ok(self.move_to(position)),
                    None => Ok(self.finish()),
                }
            },
            Action::Previous => {
                let previous = match self.current {
                    Some(position) => self.tracklist.position_before(position),
                    None => None,
                };
                match previous {
                    Some(position) => Ok(self.move_to(position)),
                    None => Ok(no_outcome()),
                }
            },
            Action::SkipTo { num } => {
                if self.tracklist.find_track_by_index(num).is_some() {
                    Ok(self.move_to(num))
                } else {
                    Err(PlayerError::InvalidTarget)
                }
            },
            Action::JumpForward => {
                match self.current_duration() {
                    Some(duration) => {
                        let clock = if duration - self.clock < JUMP_SECONDS {
                            duration
                        } else {
                            self.clock + JUMP_SECONDS
                        };
                        Ok(self.seek(clock))
                    },
                    None => Ok(no_outcome()),
                }
            },
            Action::JumpBackward => {
                match self.current_duration() {
                    Some(duration) => {
                        let clock = if self.clock >= JUMP_SECONDS {
                            self.clock - JUMP_SECONDS
                        } else {
                            0
                        };
                        Ok(self.seek(clock))
                    },
                    None => Ok(no_outcome()),
                }
            },
            Action::Quit => {
                self.status = PlayerStatus::Quit;
                let mut notifications: Vec<Notification> = Vec::new();
                notifications.push(Notification::Quit);
                let mut commands: Vec<AudioCommand> = Vec::new();
                commands.push(AudioCommand::Stop);
                let outcome = Outcome { notifications, commands, request: None };
                proof {
                    assert(outcome@.notifications =~= old(self)@.outcome(action).notifications);
                    assert(outcome@.commands =~= old(self)@.outcome(action).commands);
                }
                Ok(outcome)
            },
            other => {
                let addressed = match &other {
                    Action::PlayUri { uri } => true,
                    _ => false,
                };
                let request = other.request();
                if addressed && request.is_none() {
                    return Err(PlayerError::NotFound);
                }
                let outcome = Outcome {
                    notifications: Vec::new(),
                    commands: Vec::new(),
                    request,
                };
                proof {
                    assert(outcome@.notifications =~= Seq::empty());
                }
                Ok(outcome)
            },
        }
    }
}

/// At most one track of a player's queue is being played.
pub proof fn lemma_one_playing(player: PlayerView)
    requires
        player.wf(),
    ensures
        player.list.at_most_one_playing(),
        player.list.current_position() matches Some(position) ==> player.current == Some(
            position,
        ),
{
    if !player.list.none_playing() {
        lemma_some_first_playing(player.list.queue);
    }
}

/// No action leads a player out of the states in which at most one track is
/// being played, the current position is in the queue and the clock is
/// within the current track.
pub proof fn lemma_step_keeps_wf(player: PlayerView, action: Action)
    requires
        player.wf(),
    ensures
        player.step(action).wf(),
        player.step(action).list.at_most_one_playing(),
        player.rejection(action) is Some ==> player.step(action) == player,
        player.status == PlayerStatus::Quit ==> player.step(action) == player,
{
    let after = player.step(action);
    if player.status != PlayerStatus::Quit {
        match action {
            Action::Play => {
                if player.status != PlayerStatus::Playing {
                    lemma_started_wf(player);
                }
            },
            Action::PlayPause => {
                if player.status != PlayerStatus::Playing {
                    lemma_started_wf(player);
                }
            },
            Action::Next => {
                match player.next_position() {
                    Some(position) => {
                        lemma_next_in_queue(player);
                    },
                    None => {},
                }
            },
            Action::Previous => {
                match player.previous_position() {
                    Some(position) => {
                        lemma_previous_in_queue(player);
                    },
                    None => {},
                }
            },
            _ => {},
        }
    }
    lemma_one_playing(after);
}

/// At the end of the queue, `Next` stops the player and leaves no track
/// being played.
pub proof fn lemma_next_at_end(player: PlayerView)
    requires
        player.wf(),
        player.status != PlayerStatus::Quit,
        player.next_position() is None,
    ensures
        player.step(Action::Next).status == PlayerStatus::Stopped,
        player.step(Action::Next).list.none_playing(),
        player.step(Action::Next).list.queue.dom() == player.list.queue.dom(),
{
    let after = player.step(Action::Next);
    assert(after.list.queue.dom() =~= player.list.queue.dom());
}

/// A jump to a position that the queue does not hold changes nothing and is
/// turned down as an invalid target.
pub proof fn lemma_invalid_target(player: PlayerView, num: u32)
    requires
        player.status != PlayerStatus::Quit,
        !player.list.queue.contains_key(num),
    ensures
        player.rejection(Action::SkipTo { num }) == Some(PlayerError::InvalidTarget),
        player.step(Action::SkipTo { num }) == player,
{
}

/// A new queue leaves the player in such a state too.
pub proof fn lemma_loaded_wf(player: PlayerView, fetched: Fetched)
    requires
        fetched.spec_tracks().len() < u32::MAX,
    ensures
        player.loaded(fetched).wf(),
        player.loaded(fetched).list.at_most_one_playing(),
{
    lemma_one_playing(player.loaded(fetched));
}

proof fn lemma_started_wf(player: PlayerView)
    requires
        player.wf(),
    ensures
        player.started().wf(),
{
    match player.current {
        Some(position) => {
            let after = player.started();
            assert forall|other: u32| playing_at(after.list.queue, other) implies after.current
                == Some(other) by {
                if other != position {
                    assert(playing_at(player.list.queue, other));
                }
            }
        },
        None => {
            let dom = player.list.queue.dom();
            if exists|position: u32| dom.contains(position) && 0 <= position {
                lemma_least_from_exists(dom, 0);
            }
        },
    }
}

proof fn lemma_next_in_queue(player: PlayerView)
    requires
        player.next_position() is Some,
    ensures
        player.list.queue.contains_key(player.next_position()->0),
{
    let dom = player.list.queue.dom();
    match player.current {
        Some(position) => {
            lemma_least_from_exists(dom, position + 1);
        },
        None => {
            lemma_least_from_exists(dom, 0);
        },
    }
}

proof fn lemma_previous_in_queue(player: PlayerView)
    requires
        player.previous_position() is Some,
    ensures
        player.list.queue.contains_key(player.previous_position()->0),
{
    let dom = player.list.queue.dom();
    match player.current {
        Some(position) => {
            lemma_greatest_below_exists(dom, position as int);
        },
        None => {},
    }
}

} // verus!
