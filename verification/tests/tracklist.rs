use hifirs::queue::{TrackListType, TrackListValue};
use hifirs::service::{Album, Playlist, Track, TrackStatus};
use std::collections::BTreeMap;

fn track(id: u32, status: TrackStatus) -> Track {
    Track {
        id,
        title: format!("track {id}"),
        duration_seconds: 180,
        album: None,
        status,
    }
}

fn album(total_tracks: u32) -> Album {
    Album { id: "0060253780968".to_string(), title: "Blue Train".to_string(), total_tracks }
}

fn ids(tracks: &[&Track]) -> Vec<u32> {
    tracks.iter().map(|t| t.id).collect()
}

#[test]
fn empty_queue_totals_zero() {
    let list = TrackListValue::new(None);
    assert_eq!(list.total(), 0);
    assert!(list.all_tracks().is_empty());
    assert!(list.current_track().is_none());
    assert_eq!(*list.list_type(), TrackListType::Unknown);
}

#[test]
fn album_total_wins_over_queue_length() {
    let mut list = TrackListValue::new(None);
    list.insert_track(1, track(11, TrackStatus::Unplayed));
    list.insert_track(2, track(12, TrackStatus::Unplayed));
    list.insert_track(3, track(13, TrackStatus::Unplayed));
    assert_eq!(list.total(), 3);
    list.set_album(album(12));
    assert_eq!(list.total(), 12);
    assert_eq!(*list.list_type(), TrackListType::Album);
}

#[test]
fn album_total_wins_over_playlist_count() {
    let mut list = TrackListValue::new(None);
    list.set_playlist(Playlist { id: 7, title: "Mix".to_string(), tracks_count: 40 });
    assert_eq!(list.total(), 40);
    assert_eq!(*list.list_type(), TrackListType::Playlist);
    list.set_album(album(9));
    assert_eq!(list.total(), 9);
    assert_eq!(list.get_playlist().map(|p| p.tracks_count), Some(40));
}

#[test]
fn new_copies_the_given_queue() {
    let mut queue = BTreeMap::new();
    queue.insert(5, track(50, TrackStatus::Unplayed));
    queue.insert(2, track(20, TrackStatus::Played));
    let list = TrackListValue::new(Some(&queue));
    assert_eq!(ids(&list.all_tracks()), vec![20, 50]);
    assert!(list.get_album().is_none());
    assert!(list.get_playlist().is_none());
    assert_eq!(*list.list_type(), TrackListType::Unknown);
    assert_eq!(queue.len(), 2);
}

#[test]
fn all_tracks_come_in_position_order_whatever_the_insertion_order() {
    let mut list = TrackListValue::new(None);
    for position in [9u32, 1, 4, 7, 3, 0, 4_000_000_000, 2] {
        list.insert_track(position, track(position, TrackStatus::Unplayed));
    }
    assert_eq!(ids(&list.all_tracks()), vec![0, 1, 2, 3, 4, 7, 9, 4_000_000_000]);
    assert_eq!(list.positions(), vec![0, 1, 2, 3, 4, 7, 9, 4_000_000_000]);
}

#[test]
fn clear_twice_is_clear_once() {
    let mut list = TrackListValue::new(None);
    list.insert_track(1, track(11, TrackStatus::Playing));
    list.set_album(album(3));
    list.clear();
    assert_eq!(list.total(), 0);
    assert!(list.all_tracks().is_empty());
    assert!(list.get_album().is_none());
    assert_eq!(*list.list_type(), TrackListType::Unknown);
    list.clear();
    assert_eq!(list.total(), 0);
    assert!(list.all_tracks().is_empty());
    assert!(list.get_album().is_none());
    assert!(list.get_playlist().is_none());
    assert_eq!(*list.list_type(), TrackListType::Unknown);
}

#[test]
fn played_unplayed_and_current_partition_the_queue() {
    let mut list = TrackListValue::new(None);
    list.insert_track(1, track(11, TrackStatus::Played));
    list.insert_track(2, track(12, TrackStatus::Played));
    list.insert_track(3, track(13, TrackStatus::Playing));
    list.insert_track(4, track(14, TrackStatus::Unplayed));
    list.insert_track(5, track(15, TrackStatus::Unplayed));
    assert_eq!(ids(&list.played_tracks()), vec![11, 12]);
    assert_eq!(ids(&list.unplayed_tracks()), vec![14, 15]);
    assert_eq!(list.current_track().map(|t| t.id), Some(13));
    assert_eq!(list.current_position(), Some(3));
    let mut together = ids(&list.played_tracks());
    together.push(list.current_track().unwrap().id);
    together.extend(ids(&list.unplayed_tracks()));
    assert_eq!(together, ids(&list.all_tracks()));
}

#[test]
fn set_track_status_changes_one_track_and_ignores_a_missing_position() {
    let mut list = TrackListValue::new(None);
    list.insert_track(1, track(11, TrackStatus::Unplayed));
    list.insert_track(2, track(12, TrackStatus::Unplayed));
    list.set_track_status(2, TrackStatus::Playing);
    assert_eq!(list.find_track_by_index(1).unwrap().status, TrackStatus::Unplayed);
    assert_eq!(list.find_track_by_index(2).unwrap().status, TrackStatus::Playing);
    assert_eq!(list.find_track_by_index(2).unwrap().title, "track 12");
    list.set_track_status(77, TrackStatus::Played);
    assert_eq!(list.all_tracks().len(), 2);
    assert!(list.find_track_by_index(77).is_none());
    assert_eq!(list.find_track_by_index(2).unwrap().status, TrackStatus::Playing);
}

#[test]
fn track_index_finds_the_first_position_with_the_id() {
    let mut list = TrackListValue::new(None);
    list.insert_track(8, track(500, TrackStatus::Unplayed));
    list.insert_track(3, track(500, TrackStatus::Unplayed));
    list.insert_track(5, track(400, TrackStatus::Unplayed));
    assert_eq!(list.track_index(500), Some(3));
    assert_eq!(list.track_index(400), Some(5));
    assert_eq!(list.track_index(1), None);
}

#[test]
fn get_album_prefers_the_album_of_the_track_being_played() {
    let mut list = TrackListValue::new(None);
    let mut with_album = track(11, TrackStatus::Unplayed);
    with_album.album =
        Some(Album { id: "a1".to_string(), title: "Giant Steps".to_string(), total_tracks: 7 });
    list.insert_track(1, with_album);
    list.insert_track(2, track(12, TrackStatus::Unplayed));
    list.set_album(album(12));
    assert_eq!(list.get_album().unwrap().title, "Blue Train");
    list.set_track_status(1, TrackStatus::Playing);
    assert_eq!(list.get_album().unwrap().title, "Giant Steps");
    assert_eq!(list.total(), 12);
    list.set_track_status(1, TrackStatus::Played);
    list.set_track_status(2, TrackStatus::Playing);
    assert_eq!(list.get_album().unwrap().title, "Blue Train");
}

#[test]
fn cursive_list_pairs_titles_with_ids() {
    let mut list = TrackListValue::new(None);
    list.insert_track(2, track(12, TrackStatus::Unplayed));
    list.insert_track(1, track(4_294_967_295, TrackStatus::Unplayed));
    assert_eq!(list.cursive_list(), vec![("track 4294967295", -1), ("track 12", 12)]);
}

#[test]
fn list_type_names_round_trip() {
    for list_type in
        [TrackListType::Album, TrackListType::Playlist, TrackListType::Track, TrackListType::Unknown]
    {
        assert_eq!(TrackListType::from(list_type.as_str()), list_type);
        assert_eq!(list_type.to_string(), list_type.as_str());
    }
    assert_eq!(TrackListType::Album.as_str(), "album");
    assert_eq!(TrackListType::Playlist.as_str(), "playlist");
    assert_eq!(TrackListType::Track.as_str(), "track");
    assert_eq!(TrackListType::Unknown.as_str(), "unknown");
    assert_eq!(TrackListType::from("Album"), TrackListType::Unknown);
    assert_eq!(TrackListType::from(""), TrackListType::Unknown);
    assert_eq!(TrackListType::default(), TrackListType::Unknown);
}

#[test]
fn positions_from_and_before() {
    let mut list = TrackListValue::new(None);
    for position in [2u32, 4, 6] {
        list.insert_track(position, track(position, TrackStatus::Unplayed));
    }
    assert_eq!(list.position_from(0), Some(2));
    assert_eq!(list.position_from(4), Some(4));
    assert_eq!(list.position_from(5), Some(6));
    assert_eq!(list.position_from(7), None);
    assert_eq!(list.position_before(2), None);
    assert_eq!(list.position_before(3), Some(2));
    assert_eq!(list.position_before(100), Some(6));
}

#[test]
fn mark_current_splits_the_queue_around_a_position() {
    let mut list = TrackListValue::new(None);
    for position in [1u32, 2, 3, 4] {
        list.insert_track(position, track(position, TrackStatus::Playing));
    }
    list.mark_current(3);
    assert_eq!(ids(&list.played_tracks()), vec![1, 2]);
    assert_eq!(list.current_position(), Some(3));
    assert_eq!(ids(&list.unplayed_tracks()), vec![4]);
    list.mark_finished();
    assert_eq!(ids(&list.played_tracks()), vec![1, 2, 3]);
    assert_eq!(list.current_position(), None);
}

#[test]
fn clones_are_equal_track_by_track() {
    let mut list = TrackListValue::new(None);
    list.insert_track(1, track(11, TrackStatus::Playing));
    list.set_album(album(3));
    let copy = list.clone();
    assert!(copy.find_track_by_index(1).unwrap() == list.find_track_by_index(1).unwrap());
    assert!(copy.get_album().unwrap() == list.get_album().unwrap());
    assert_eq!(copy.total(), 3);
}

#[test]
fn queues_are_equal_when_positions_tracks_and_source_are() {
    let mut left = TrackListValue::new(None);
    let mut right = TrackListValue::new(None);
    assert!(left == right);
    left.insert_track(1, track(11, TrackStatus::Unplayed));
    assert!(left != right);
    right.insert_track(2, track(11, TrackStatus::Unplayed));
    assert!(left != right);
    right.insert_track(1, track(11, TrackStatus::Unplayed));
    left.insert_track(2, track(11, TrackStatus::Unplayed));
    assert!(left == right);
    left.set_track_status(2, TrackStatus::Played);
    assert!(left != right);
    right.set_track_status(2, TrackStatus::Played);
    assert!(left == right);
    left.set_album(album(3));
    assert!(left != right);
    right.set_album(album(3));
    assert!(left == right);
    right.set_list_type(TrackListType::Track);
    assert!(left != right);
    assert!(left == left.clone());
}
