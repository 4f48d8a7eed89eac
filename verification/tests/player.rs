use hifirs::actions::{Action, AudioCommand, Request};
use hifirs::notification::{Notification, PlayerStatus};
use hifirs::player::{FetchError, Fetched, Player, PlayerError, JUMP_SECONDS};
use hifirs::service::{Album, Playlist, Track, TrackStatus};

fn track(id: u32, duration_seconds: u32) -> Track {
    Track {
        id,
        title: format!("track {id}"),
        duration_seconds,
        album: None,
        status: TrackStatus::Unplayed,
    }
}

fn album_of(count: u32) -> Fetched {
    Fetched::Album {
        album: Album { id: "al".to_string(), title: "Album".to_string(), total_tracks: count },
        tracks: (1..=count).map(|i| track(100 + i, 200)).collect(),
    }
}

fn loaded(count: u32) -> Player {
    let mut player = Player::new();
    player.load(Ok(album_of(count))).unwrap();
    player
}

fn statuses(player: &Player) -> Vec<TrackStatus> {
    player.tracklist().all_tracks().iter().map(|t| t.status).collect()
}

fn playing_count(player: &Player) -> usize {
    statuses(player).iter().filter(|s| **s == TrackStatus::Playing).count()
}

fn kinds(notifications: &[Notification]) -> Vec<&'static str> {
    notifications
        .iter()
        .map(|n| match n {
            Notification::CurrentTrackList { .. } => "list",
            Notification::Position { .. } => "position",
            Notification::Status { .. } => "status",
            Notification::Quit => "quit",
        })
        .collect()
}

#[test]
fn a_new_player_is_stopped_and_empty() {
    let player = Player::new();
    assert_eq!(player.current_status(), PlayerStatus::Stopped);
    assert_eq!(player.current_position(), None);
    assert_eq!(player.position(), None);
    assert_eq!(player.current_tracklist().total(), 0);
    assert_eq!(kinds(&player.snapshot()), vec!["list", "status"]);
}

#[test]
fn loading_an_album_plays_its_first_track() {
    let mut player = Player::new();
    let outcome = player.load(Ok(album_of(3))).unwrap();
    assert_eq!(player.current_status(), PlayerStatus::Playing);
    assert_eq!(player.current_position(), Some(1));
    assert_eq!(player.position(), Some(0));
    assert_eq!(player.tracklist().positions(), vec![1, 2, 3]);
    assert_eq!(
        statuses(&player),
        vec![TrackStatus::Playing, TrackStatus::Unplayed, TrackStatus::Unplayed]
    );
    assert_eq!(player.tracklist().total(), 3);
    assert_eq!(kinds(&outcome.notifications), vec!["list", "status", "position"]);
    assert_eq!(
        outcome.commands,
        vec![AudioCommand::Stop, AudioCommand::Load { track_id: 101 }, AudioCommand::Play]
    );
    assert!(outcome.request.is_none());
}

#[test]
fn loading_replaces_the_queue_wholesale() {
    let mut player = loaded(5);
    player.apply(Action::SkipTo { num: 4 }).unwrap();
    let playlist = Fetched::Playlist {
        playlist: Playlist { id: 3, title: "Mix".to_string(), tracks_count: 2 },
        tracks: vec![track(7, 10), track(8, 20)],
    };
    player.load(Ok(playlist)).unwrap();
    assert_eq!(player.tracklist().positions(), vec![1, 2]);
    assert_eq!(player.current_position(), Some(1));
    assert!(player.tracklist().get_album().is_none());
    assert_eq!(player.tracklist().get_playlist().map(|p| p.id), Some(3));
    assert_eq!(playing_count(&player), 1);
}

#[test]
fn loading_a_single_track() {
    let mut player = Player::new();
    player.load(Ok(Fetched::Track { track: track(9, 30) })).unwrap();
    assert_eq!(player.tracklist().positions(), vec![1]);
    assert_eq!(player.tracklist().current_track().map(|t| t.id), Some(9));
    assert_eq!(*player.tracklist().list_type(), hifirs::queue::TrackListType::Track);
}

#[test]
fn loading_nothing_stops_the_player() {
    let mut player = loaded(2);
    let outcome = player.load(Ok(album_of(0))).unwrap();
    assert_eq!(player.current_status(), PlayerStatus::Stopped);
    assert_eq!(player.current_position(), None);
    assert_eq!(kinds(&outcome.notifications), vec!["list", "status"]);
    assert_eq!(outcome.commands, vec![AudioCommand::Stop]);
}

#[test]
fn a_failed_fetch_changes_nothing() {
    let mut player = loaded(3);
    player.apply(Action::Next).unwrap();
    assert_eq!(player.load(Err(FetchError::NotFound)).unwrap_err(), PlayerError::NotFound);
    assert_eq!(player.load(Err(FetchError::Unavailable)).unwrap_err(), PlayerError::Unavailable);
    assert_eq!(player.current_position(), Some(2));
    assert_eq!(player.current_status(), PlayerStatus::Playing);
    assert_eq!(player.tracklist().positions(), vec![1, 2, 3]);
}

#[test]
fn next_at_the_last_position_stops_and_leaves_nothing_playing() {
    let mut player = loaded(3);
    player.apply(Action::SkipTo { num: 3 }).unwrap();
    assert_eq!(playing_count(&player), 1);
    let outcome = player.apply(Action::Next).unwrap();
    assert_eq!(player.current_status(), PlayerStatus::Stopped);
    assert_eq!(playing_count(&player), 0);
    assert!(player.tracklist().current_track().is_none());
    assert_eq!(statuses(&player), vec![TrackStatus::Played; 3]);
    assert_eq!(player.tracklist().positions(), vec![1, 2, 3]);
    assert_eq!(kinds(&outcome.notifications), vec!["list", "status"]);
    assert_eq!(outcome.commands, vec![AudioCommand::Stop]);
}

#[test]
fn skip_to_a_missing_position_is_an_invalid_target() {
    let mut player = loaded(5);
    player.apply(Action::SkipTo { num: 2 }).unwrap();
    player.apply(Action::JumpForward).unwrap();
    let before = statuses(&player);
    let error = player.apply(Action::SkipTo { num: 9999 }).unwrap_err();
    assert_eq!(error, PlayerError::InvalidTarget);
    assert_eq!(statuses(&player), before);
    assert_eq!(player.current_status(), PlayerStatus::Playing);
    assert_eq!(player.current_position(), Some(2));
    assert_eq!(player.position(), Some(JUMP_SECONDS));
    assert_eq!(player.tracklist().positions(), vec![1, 2, 3, 4, 5]);
    assert_eq!(player.apply(Action::SkipTo { num: 0 }).unwrap_err(), PlayerError::InvalidTarget);
}

#[test]
fn skip_to_marks_the_tracks_around_the_target() {
    let mut player = loaded(5);
    let outcome = player.apply(Action::SkipTo { num: 3 }).unwrap();
    assert_eq!(
        statuses(&player),
        vec![
            TrackStatus::Played,
            TrackStatus::Played,
            TrackStatus::Playing,
            TrackStatus::Unplayed,
            TrackStatus::Unplayed
        ]
    );
    assert_eq!(player.position(), Some(0));
    assert_eq!(kinds(&outcome.notifications), vec!["list", "status", "position"]);
    assert_eq!(
        outcome.commands,
        vec![AudioCommand::Load { track_id: 103 }, AudioCommand::Play]
    );
    match &outcome.notifications[0] {
        Notification::CurrentTrackList { list } => {
            assert_eq!(list.current_track().map(|t| t.id), Some(103));
        }
        _ => panic!("the first notification carries the queue"),
    }
}

#[test]
fn play_emits_status_then_position() {
    let mut player = loaded(2);
    player.apply(Action::Pause).unwrap();
    let outcome = player.apply(Action::Play).unwrap();
    assert_eq!(player.current_status(), PlayerStatus::Playing);
    assert_eq!(outcome.notifications.len(), 2);
    assert!(matches!(
        outcome.notifications[0],
        Notification::Status { status: PlayerStatus::Playing }
    ));
    assert!(matches!(outcome.notifications[1], Notification::Position { clock: 0 }));
    assert_eq!(outcome.commands, vec![AudioCommand::Play]);
    let again = player.apply(Action::Play).unwrap();
    assert!(again.notifications.is_empty());
    assert!(again.commands.is_empty());
}

#[test]
fn play_on_an_empty_queue_still_tells_status_and_position() {
    let mut player = Player::new();
    let outcome = player.apply(Action::Play).unwrap();
    assert_eq!(player.current_status(), PlayerStatus::Playing);
    assert_eq!(kinds(&outcome.notifications), vec!["status", "position"]);
    assert!(outcome.commands.is_empty());
    assert_eq!(player.current_position(), None);
}

#[test]
fn play_after_the_end_plays_the_last_track_again() {
    let mut player = loaded(2);
    player.apply(Action::Next).unwrap();
    player.apply(Action::Next).unwrap();
    assert_eq!(player.current_status(), PlayerStatus::Stopped);
    player.apply(Action::Play).unwrap();
    assert_eq!(player.current_status(), PlayerStatus::Playing);
    assert_eq!(statuses(&player), vec![TrackStatus::Played, TrackStatus::Playing]);
}

#[test]
fn pause_and_play_pause_toggle() {
    let mut player = loaded(2);
    let paused = player.apply(Action::Pause).unwrap();
    assert_eq!(player.current_status(), PlayerStatus::Paused);
    assert!(matches!(
        paused.notifications[..],
        [Notification::Status { status: PlayerStatus::Paused }]
    ));
    assert_eq!(paused.commands, vec![AudioCommand::Pause]);
    assert_eq!(playing_count(&player), 1);
    assert!(player.apply(Action::Pause).unwrap().notifications.is_empty());
    player.apply(Action::PlayPause).unwrap();
    assert_eq!(player.current_status(), PlayerStatus::Playing);
    player.apply(Action::PlayPause).unwrap();
    assert_eq!(player.current_status(), PlayerStatus::Paused);
}

#[test]
fn stop_keeps_the_queue() {
    let mut player = loaded(3);
    let outcome = player.apply(Action::Stop).unwrap();
    assert_eq!(player.current_status(), PlayerStatus::Stopped);
    assert_eq!(player.tracklist().positions(), vec![1, 2, 3]);
    assert_eq!(player.current_position(), Some(1));
    assert!(matches!(
        outcome.notifications[..],
        [Notification::Status { status: PlayerStatus::Stopped }]
    ));
    assert_eq!(outcome.commands, vec![AudioCommand::Stop]);
}

#[test]
fn previous_at_the_start_changes_nothing() {
    let mut player = loaded(3);
    let outcome = player.apply(Action::Previous).unwrap();
    assert!(outcome.notifications.is_empty());
    assert_eq!(player.current_position(), Some(1));
    assert_eq!(player.current_status(), PlayerStatus::Playing);
    player.apply(Action::Next).unwrap();
    player.apply(Action::Next).unwrap();
    player.apply(Action::Previous).unwrap();
    assert_eq!(player.current_position(), Some(2));
    assert_eq!(
        statuses(&player),
        vec![TrackStatus::Played, TrackStatus::Playing, TrackStatus::Unplayed]
    );
}

#[test]
fn jumps_stay_within_the_track() {
    let mut player = Player::new();
    player.load(Ok(Fetched::Track { track: track(1, 25) })).unwrap();
    let outcome = player.apply(Action::JumpForward).unwrap();
    assert_eq!(player.position(), Some(10));
    assert!(matches!(outcome.notifications[..], [Notification::Position { clock: 10 }]));
    assert_eq!(outcome.commands, vec![AudioCommand::Seek { seconds: 10 }]);
    player.apply(Action::JumpForward).unwrap();
    assert_eq!(player.position(), Some(20));
    player.apply(Action::JumpForward).unwrap();
    assert_eq!(player.position(), Some(25));
    player.apply(Action::JumpForward).unwrap();
    assert_eq!(player.position(), Some(25));
    player.apply(Action::JumpBackward).unwrap();
    assert_eq!(player.position(), Some(15));
    player.apply(Action::JumpBackward).unwrap();
    player.apply(Action::JumpBackward).unwrap();
    assert_eq!(player.position(), Some(0));
    let mut empty = Player::new();
    assert!(empty.apply(Action::JumpForward).unwrap().notifications.is_empty());
}

#[test]
fn the_reported_clock_is_held_within_the_track() {
    let mut player = Player::new();
    player.load(Ok(Fetched::Track { track: track(1, 25) })).unwrap();
    let outcome = player.set_clock(12);
    assert_eq!(player.position(), Some(12));
    assert!(matches!(outcome.notifications[..], [Notification::Position { clock: 12 }]));
    player.set_clock(400);
    assert_eq!(player.position(), Some(25));
    let mut empty = Player::new();
    empty.set_clock(5);
    assert_eq!(empty.position(), None);
}

#[test]
fn quit_is_final() {
    let mut player = loaded(3);
    let outcome = player.apply(Action::Quit).unwrap();
    assert_eq!(player.current_status(), PlayerStatus::Quit);
    assert!(matches!(outcome.notifications[..], [Notification::Quit]));
    assert!(outcome.notifications[0].is_quit());
    for action in [
        Action::Play,
        Action::Stop,
        Action::Next,
        Action::SkipTo { num: 9999 },
        Action::PlayPause,
        Action::JumpForward,
    ] {
        let later = player.apply(action).unwrap();
        assert!(later.notifications.is_empty());
        assert!(later.commands.is_empty());
        assert_eq!(player.current_status(), PlayerStatus::Quit);
    }
    assert!(player.load(Ok(album_of(2))).unwrap().notifications.is_empty());
    assert_eq!(player.tracklist().positions(), vec![1, 2, 3]);
}

#[test]
fn load_and_query_actions_ask_the_catalogue_and_change_nothing() {
    let mut player = loaded(2);
    let outcome = player.apply(Action::PlayAlbum { album_id: "xyz".to_string() }).unwrap();
    assert!(matches!(outcome.request, Some(Request::Album { ref album_id }) if album_id == "xyz"));
    assert!(outcome.notifications.is_empty());
    assert_eq!(player.current_position(), Some(1));
    let outcome = player.apply(Action::PlayTrack { track_id: 5 }).unwrap();
    assert!(matches!(outcome.request, Some(Request::Track { track_id: 5 })));
    let outcome = player.apply(Action::PlayPlaylist { playlist_id: 6 }).unwrap();
    assert!(matches!(outcome.request, Some(Request::Playlist { playlist_id: 6 })));
    let outcome = player
        .apply(Action::PlayUri { uri: "https://open.example.com/album/abc".to_string() })
        .unwrap();
    assert!(matches!(outcome.request, Some(Request::Album { ref album_id }) if album_id == "abc"));
    let outcome = player.apply(Action::PlayUri { uri: "x/playlist/12".to_string() }).unwrap();
    assert!(matches!(outcome.request, Some(Request::Playlist { playlist_id: 12 })));
    let outcome = player.apply(Action::PlayUri { uri: "x/track/34".to_string() }).unwrap();
    assert!(matches!(outcome.request, Some(Request::Track { track_id: 34 })));
    let outcome = player.apply(Action::Search { query: "q".to_string() }).unwrap();
    assert!(matches!(outcome.request, Some(Request::Search { ref query }) if query == "q"));
    let outcome = player.apply(Action::FetchArtistAlbums { artist_id: 7 }).unwrap();
    assert!(matches!(outcome.request, Some(Request::ArtistAlbums { artist_id: 7 })));
    let outcome = player.apply(Action::FetchPlaylistTracks { playlist_id: 8 }).unwrap();
    assert!(matches!(outcome.request, Some(Request::PlaylistTracks { playlist_id: 8 })));
    let outcome = player.apply(Action::FetchUserPlaylists).unwrap();
    assert!(matches!(outcome.request, Some(Request::UserPlaylists)));
    assert_eq!(player.tracklist().positions(), vec![1, 2]);
}

#[test]
fn at_most_one_track_plays_after_any_run_of_actions() {
    let mut player = loaded(4);
    let script = [
        Action::Next,
        Action::Pause,
        Action::Next,
        Action::Previous,
        Action::SkipTo { num: 4 },
        Action::Next,
        Action::Play,
        Action::Previous,
        Action::Stop,
        Action::PlayPause,
        Action::SkipTo { num: 1 },
        Action::Previous,
    ];
    for action in script {
        let _ = player.apply(action);
        assert!(playing_count(&player) <= 1);
        if let Some(track) = player.tracklist().current_track() {
            let position = player.current_position().unwrap();
            assert_eq!(player.tracklist().find_track_by_index(position).unwrap().id, track.id);
        }
    }
}

#[test]
fn the_snapshot_for_a_new_observer() {
    let mut player = loaded(2);
    player.apply(Action::JumpForward).unwrap();
    let snapshot = player.snapshot();
    assert_eq!(kinds(&snapshot), vec!["list", "position", "status"]);
    assert!(matches!(snapshot[1], Notification::Position { clock: 10 }));
    assert!(matches!(snapshot[2], Notification::Status { status: PlayerStatus::Playing }));
}

#[test]
fn an_address_that_names_nothing_is_not_found() {
    let mut player = loaded(3);
    player.apply(Action::Next).unwrap();
    for uri in ["", "u", "https://open.example.com/artist/5", "x/track/abc", "x/album/"] {
        let error = player.apply(Action::PlayUri { uri: uri.to_string() }).unwrap_err();
        assert_eq!(error, PlayerError::NotFound);
        assert_eq!(player.current_position(), Some(2));
        assert_eq!(player.current_status(), PlayerStatus::Playing);
        assert_eq!(player.tracklist().positions(), vec![1, 2, 3]);
    }
    player.apply(Action::Quit).unwrap();
    assert!(player.apply(Action::PlayUri { uri: "u".to_string() }).unwrap().request.is_none());
}
