use hifirs::actions::Action;
use hifirs::notification::{Notification, PlayerStatus};
use hifirs::queue::{TrackListType, TrackListValue};
use hifirs::service::{Album, Playlist, Track, TrackStatus};
use hifirs::wire::{
    decode_action, decode_album, decode_notification, decode_playlist, decode_track,
    decode_track_list, encode_action, encode_album, encode_notification, encode_playlist,
    encode_track, encode_track_list, member, Member, Wire,
};

fn text(value: &str) -> Wire {
    Wire::Text(value.to_string())
}

fn record(members: Vec<(&str, Wire)>) -> Wire {
    Wire::Record(
        members.into_iter().map(|(name, value)| Member { name: name.to_string(), value }).collect(),
    )
}

/// The message as text, for comparison.
fn shown(wire: &Wire) -> String {
    match wire {
        Wire::Null => "null".to_string(),
        Wire::Number(number) => number.to_string(),
        Wire::Text(text) => format!("{text:?}"),
        Wire::List(items) => {
            format!("[{}]", items.iter().map(shown).collect::<Vec<String>>().join(","))
        }
        Wire::Record(members) => format!(
            "{{{}}}",
            members
                .iter()
                .map(|m| format!("{:?}:{}", m.name, shown(&m.value)))
                .collect::<Vec<String>>()
                .join(",")
        ),
    }
}

fn album() -> Album {
    Album { id: "0060253780968".to_string(), title: "Blue \"Train\"".to_string(), total_tracks: 5 }
}

fn track(id: u32, status: TrackStatus, album: Option<Album>) -> Track {
    Track { id, title: format!("track {id} é"), duration_seconds: 200 + id, album, status }
}

fn list() -> TrackListValue {
    let mut list = TrackListValue::new(None);
    list.insert_track(7, track(70, TrackStatus::Unplayed, None));
    list.insert_track(2, track(20, TrackStatus::Played, Some(album())));
    list.insert_track(4_000_000_000, track(90, TrackStatus::Unplayed, None));
    list.insert_track(3, track(30, TrackStatus::Playing, None));
    list.set_album(album());
    list
}

fn same_list(a: &TrackListValue, b: &TrackListValue) -> bool {
    a == b
        && a.positions() == b.positions()
        && a.all_tracks() == b.all_tracks()
        && a.album == b.album
        && a.playlist == b.playlist
        && a.list_type == b.list_type
}

#[test]
fn an_album_as_a_message() {
    let wire = encode_album(&album());
    assert_eq!(
        shown(&wire),
        "{\"id\":\"0060253780968\",\"title\":\"Blue \\\"Train\\\"\",\"total_tracks\":5}"
    );
    assert_eq!(decode_album(&wire), Some(album()));
}

#[test]
fn a_playlist_as_a_message() {
    let playlist = Playlist { id: 4_294_967_295, title: String::new(), tracks_count: 0 };
    let wire = encode_playlist(&playlist);
    assert_eq!(shown(&wire), "{\"id\":4294967295,\"title\":\"\",\"tracks_count\":0}");
    assert_eq!(decode_playlist(&wire), Some(playlist));
}

#[test]
fn a_track_as_a_message() {
    let plain = track(1, TrackStatus::Unplayed, None);
    assert_eq!(
        shown(&encode_track(&plain)),
        "{\"id\":1,\"title\":\"track 1 é\",\"duration_seconds\":201,\"album\":null,\"status\":\"Unplayed\"}"
    );
    for status in [TrackStatus::Played, TrackStatus::Playing, TrackStatus::Unplayed] {
        for album in [None, Some(album())] {
            let track = track(9, status, album);
            assert_eq!(decode_track(&encode_track(&track)), Some(track));
        }
    }
}

#[test]
fn a_queue_is_read_back_as_it_was_written() {
    let list = list();
    let wire = encode_track_list(&list);
    let back = decode_track_list(&wire).unwrap();
    assert!(same_list(&list, &back));
    assert_eq!(back.positions(), vec![2, 3, 7, 4_000_000_000]);
    assert_eq!(back.current_position(), Some(3));
    assert_eq!(back.get_album(), Some(&album()));
    assert_eq!(back.list_type, TrackListType::Album);

    let empty = TrackListValue::new(None);
    let wire = encode_track_list(&empty);
    assert_eq!(shown(&wire), "{\"queue\":[],\"album\":null,\"playlist\":null,\"list_type\":\"unknown\"}");
    assert!(same_list(&empty, &decode_track_list(&wire).unwrap()));

    let mut with_playlist = TrackListValue::new(None);
    with_playlist.insert_track(0, track(1, TrackStatus::Playing, None));
    with_playlist.set_playlist(Playlist { id: 3, title: "Mix".to_string(), tracks_count: 1 });
    let wire = encode_track_list(&with_playlist);
    assert_eq!(
        shown(&wire),
        "{\"queue\":[{\"position\":0,\"track\":{\"id\":1,\"title\":\"track 1 é\",\"duration_seconds\":201,\"album\":null,\"status\":\"Playing\"}}],\"album\":null,\"playlist\":{\"id\":3,\"title\":\"Mix\",\"tracks_count\":1},\"list_type\":\"playlist\"}"
    );
    assert!(same_list(&with_playlist, &decode_track_list(&wire).unwrap()));
}

#[test]
fn the_entries_of_a_queue_may_come_in_any_order() {
    let entry = |position: i64, id: u32| {
        record(vec![
            ("track", encode_track(&track(id, TrackStatus::Unplayed, None))),
            ("position", Wire::Number(position)),
        ])
    };
    let wire = record(vec![
        ("list_type", text("track")),
        ("playlist", Wire::Null),
        ("album", Wire::Null),
        ("queue", Wire::List(vec![entry(9, 1), entry(4, 2), entry(9, 3)])),
    ]);
    let list = decode_track_list(&wire).unwrap();
    assert_eq!(list.positions(), vec![4, 9]);
    assert_eq!(list.find_track_by_index(9).unwrap().id, 3);
    assert_eq!(list.list_type, TrackListType::Track);
}

#[test]
fn a_queue_with_a_bad_entry_is_no_queue() {
    let good = encode_track_list(&list());
    assert!(decode_track_list(&good).is_some());
    let bad_entry = record(vec![("position", Wire::Number(-1)), ("track", encode_track(&track(1, TrackStatus::Played, None)))]);
    let wire = record(vec![
        ("queue", Wire::List(vec![bad_entry])),
        ("album", Wire::Null),
        ("playlist", Wire::Null),
        ("list_type", text("album")),
    ]);
    assert!(decode_track_list(&wire).is_none());
    let missing = record(vec![("queue", Wire::List(Vec::new())), ("album", Wire::Null), ("list_type", text("album"))]);
    assert!(decode_track_list(&missing).is_none());
    let no_list = record(vec![
        ("queue", Wire::Null),
        ("album", Wire::Null),
        ("playlist", Wire::Null),
        ("list_type", text("album")),
    ]);
    assert!(decode_track_list(&no_list).is_none());
    assert!(decode_track_list(&Wire::Null).is_none());
    let odd_type = record(vec![
        ("queue", Wire::List(Vec::new())),
        ("album", Wire::Null),
        ("playlist", Wire::Null),
        ("list_type", text("mixtape")),
    ]);
    assert_eq!(decode_track_list(&odd_type).unwrap().list_type, TrackListType::Unknown);
}

#[test]
fn what_is_no_track_is_turned_down() {
    let good = encode_track(&track(1, TrackStatus::Played, None));
    assert!(decode_track(&good).is_some());
    assert!(decode_track(&Wire::Null).is_none());
    assert!(decode_track(&Wire::List(Vec::new())).is_none());
    let fields = |id: Wire, status: Wire| {
        record(vec![
            ("id", id),
            ("title", text("t")),
            ("duration_seconds", Wire::Number(1)),
            ("album", Wire::Null),
            ("status", status),
        ])
    };
    assert!(decode_track(&fields(Wire::Number(1), text("Played"))).is_some());
    assert!(decode_track(&fields(Wire::Number(4_294_967_296), text("Played"))).is_none());
    assert!(decode_track(&fields(Wire::Number(-1), text("Played"))).is_none());
    assert!(decode_track(&fields(text("1"), text("Played"))).is_none());
    assert!(decode_track(&fields(Wire::Number(1), text("played"))).is_none());
    assert!(decode_track(&fields(Wire::Number(1), Wire::Null)).is_none());
    let bad_album = record(vec![
        ("id", Wire::Number(1)),
        ("title", text("t")),
        ("duration_seconds", Wire::Number(1)),
        ("album", text("not an album")),
        ("status", text("Played")),
    ]);
    assert!(decode_track(&bad_album).is_none());
}

#[test]
fn the_first_member_of_a_name_counts() {
    let members = vec![
        Member { name: "a".to_string(), value: Wire::Number(1) },
        Member { name: "b".to_string(), value: Wire::Number(2) },
        Member { name: "a".to_string(), value: Wire::Number(3) },
    ];
    assert!(matches!(member(&members, "a"), Some(Wire::Number(1))));
    assert!(matches!(member(&members, "b"), Some(Wire::Number(2))));
    assert!(member(&members, "c").is_none());
    assert!(member(&Vec::new(), "a").is_none());
}

#[test]
fn notifications_as_messages() {
    assert_eq!(shown(&encode_notification(&Notification::Quit)), "{\"type\":\"quit\"}");
    assert_eq!(
        shown(&encode_notification(&Notification::Position { clock: 12 })),
        "{\"type\":\"position\",\"clock\":12}"
    );
    assert_eq!(
        shown(&encode_notification(&Notification::Status { status: PlayerStatus::Paused })),
        "{\"type\":\"status\",\"status\":\"Paused\"}"
    );
    let with_list = Notification::CurrentTrackList { list: TrackListValue::new(None) };
    assert_eq!(
        shown(&encode_notification(&with_list)),
        "{\"type\":\"currentTrackList\",\"list\":{\"queue\":[],\"album\":null,\"playlist\":null,\"list_type\":\"unknown\"}}"
    );
}

#[test]
fn a_notification_is_read_back_as_it_was_written() {
    assert!(matches!(
        decode_notification(&encode_notification(&Notification::Quit)),
        Some(Notification::Quit)
    ));
    for clock in [0, 1, 4_294_967_295] {
        let back = decode_notification(&encode_notification(&Notification::Position { clock }));
        assert!(matches!(back, Some(Notification::Position { clock: c }) if c == clock));
    }
    for status in
        [PlayerStatus::Stopped, PlayerStatus::Paused, PlayerStatus::Playing, PlayerStatus::Quit]
    {
        let back = decode_notification(&encode_notification(&Notification::Status { status }));
        assert!(matches!(back, Some(Notification::Status { status: s }) if s == status));
    }
    let sent = Notification::CurrentTrackList { list: list() };
    assert_eq!(decode_notification(&encode_notification(&sent)), Some(sent));
}

#[test]
fn what_is_no_notification_is_turned_down() {
    assert!(decode_notification(&Wire::Null).is_none());
    assert!(decode_notification(&record(vec![])).is_none());
    assert!(decode_notification(&record(vec![("type", text("Quit"))])).is_none());
    assert!(decode_notification(&record(vec![("type", Wire::Number(1))])).is_none());
    assert!(decode_notification(&record(vec![("type", text("position"))])).is_none());
    assert!(decode_notification(&record(vec![("type", text("position")), ("clock", Wire::Number(-5))]))
        .is_none());
    assert!(decode_notification(&record(vec![("type", text("status")), ("status", text("Loud"))]))
        .is_none());
    assert!(decode_notification(&record(vec![("type", text("currentTrackList")), ("list", Wire::Null)]))
        .is_none());
    assert!(matches!(
        decode_notification(&record(vec![("clock", Wire::Number(3)), ("type", text("position"))])),
        Some(Notification::Position { clock: 3 })
    ));
}

fn all_actions() -> Vec<Action> {
    vec![
        Action::Play,
        Action::Pause,
        Action::PlayPause,
        Action::Next,
        Action::Previous,
        Action::Stop,
        Action::Quit,
        Action::SkipTo { num: 9999 },
        Action::JumpForward,
        Action::JumpBackward,
        Action::PlayAlbum { album_id: "0060253780968".to_string() },
        Action::PlayTrack { track_id: -5 },
        Action::PlayUri { uri: "https://open.example/album/1".to_string() },
        Action::PlayPlaylist { playlist_id: 1 << 40 },
        Action::Search { query: "coltrane \"blue\"".to_string() },
        Action::FetchArtistAlbums { artist_id: i32::MAX },
        Action::FetchPlaylistTracks { playlist_id: i64::MIN },
        Action::FetchUserPlaylists,
    ]
}

#[test]
fn actions_as_messages() {
    let texts: Vec<String> = all_actions().iter().map(|a| shown(&encode_action(a))).collect();
    assert_eq!(
        texts,
        vec![
            "{\"type\":\"play\"}",
            "{\"type\":\"pause\"}",
            "{\"type\":\"playPause\"}",
            "{\"type\":\"next\"}",
            "{\"type\":\"previous\"}",
            "{\"type\":\"stop\"}",
            "{\"type\":\"quit\"}",
            "{\"type\":\"skipTo\",\"num\":9999}",
            "{\"type\":\"jumpForward\"}",
            "{\"type\":\"jumpBackward\"}",
            "{\"type\":\"playAlbum\",\"album_id\":\"0060253780968\"}",
            "{\"type\":\"playTrack\",\"track_id\":-5}",
            "{\"type\":\"playUri\",\"uri\":\"https://open.example/album/1\"}",
            "{\"type\":\"playPlaylist\",\"playlist_id\":1099511627776}",
            "{\"type\":\"search\",\"query\":\"coltrane \\\"blue\\\"\"}",
            "{\"type\":\"fetchArtistAlbums\",\"artist_id\":2147483647}",
            "{\"type\":\"fetchPlaylistTracks\",\"playlist_id\":-9223372036854775808}",
            "{\"type\":\"fetchUserPlaylists\"}",
        ]
    );
}

#[test]
fn an_action_is_read_back_as_it_was_written() {
    for action in all_actions() {
        assert_eq!(decode_action(&encode_action(&action)), Some(action));
    }
}

#[test]
fn what_is_no_action_is_turned_down() {
    assert!(decode_action(&Wire::Null).is_none());
    assert!(decode_action(&text("play")).is_none());
    assert!(decode_action(&record(vec![("type", text("Play"))])).is_none());
    assert!(decode_action(&record(vec![("type", text("rewind"))])).is_none());
    assert!(decode_action(&record(vec![("type", text("skipTo"))])).is_none());
    assert!(decode_action(&record(vec![("type", text("skipTo")), ("num", Wire::Number(-1))])).is_none());
    assert!(decode_action(&record(vec![("type", text("skipTo")), ("num", text("3"))])).is_none());
    assert!(decode_action(&record(vec![
        ("type", text("playTrack")),
        ("track_id", Wire::Number(2_147_483_648))
    ]))
    .is_none());
    assert!(decode_action(&record(vec![("type", text("playAlbum")), ("album_id", Wire::Number(3))]))
        .is_none());
    assert!(matches!(
        decode_action(&record(vec![("num", Wire::Number(3)), ("type", text("skipTo")), ("extra", Wire::Null)])),
        Some(Action::SkipTo { num: 3 })
    ));
}
