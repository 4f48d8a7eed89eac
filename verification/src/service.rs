//! The records the play queue is made of.

use vstd::prelude::*;

verus! {

/// Where a track stands in the course of playback.
#[derive(Debug, Clone, Copy, PartialEq, Eq, Structural)]
pub enum TrackStatus {
    Played,
    Playing,
    Unplayed,
}

impl Default for TrackStatus {
    fn default() -> (status: TrackStatus)
        ensures
            status == TrackStatus::Unplayed,
    {
        TrackStatus::Unplayed
    }
}

/// What the queue keeps of the album a track or a queue was taken from.
#[derive(Debug)]
pub struct Album {
    pub id: String,
    pub title: String,
    pub total_tracks: u32,
}

impl Clone for Album {
    fn clone(&self) -> (copy: Album)
        ensures
            copy == *self,
    {
        Album { id: self.id.clone(), title: self.title.clone(), total_tracks: self.total_tracks }
    }
}

impl PartialEq for Album {
    fn eq(&self, other: &Album) -> (same: bool) {
        self.id == other.id && self.title == other.title && self.total_tracks == other.total_tracks
    }
}

impl vstd::std_specs::cmp::PartialEqSpecImpl for Album {
    open spec fn obeys_eq_spec() -> bool {
        true
    }

    open spec fn eq_spec(&self, other: &Album) -> bool {
        same_album(*self, *other)
    }
}

/// Whether two albums have the same id, title and number of tracks.
pub open spec fn same_album(left: Album, right: Album) -> bool {
    left.id@ == right.id@ && left.title@ == right.title@ && left.total_tracks
        == right.total_tracks
}

/// Whether two albums are the same, or both are missing.
pub open spec fn same_optional_album(left: Option<Album>, right: Option<Album>) -> bool {
    match (left, right) {
        (Some(left), Some(right)) => same_album(left, right),
        (None, None) => true,
        _ => false,
    }
}

/// What the queue keeps of the playlist it was taken from.
#[derive(Debug)]
pub struct Playlist {
    pub id: u32,
    pub title: String,
    pub tracks_count: u32,
}

impl PartialEq for Playlist {
    fn eq(&self, other: &Playlist) -> (same: bool) {
        self.id == other.id && self.title == other.title && self.tracks_count == other.tracks_count
    }
}

impl vstd::std_specs::cmp::PartialEqSpecImpl for Playlist {
    open spec fn obeys_eq_spec() -> bool {
        true
    }

    open spec fn eq_spec(&self, other: &Playlist) -> bool {
        same_playlist(*self, *other)
    }
}

/// Whether two playlists have the same id, title and number of tracks.
pub open spec fn same_playlist(left: Playlist, right: Playlist) -> bool {
    left.id == right.id && left.title@ == right.title@ && left.tracks_count == right.tracks_count
}

/// Whether two playlists are the same, or both are missing.
pub open spec fn same_optional_playlist(left: Option<Playlist>, right: Option<Playlist>) -> bool {
    match (left, right) {
        (Some(left), Some(right)) => same_playlist(left, right),
        (None, None) => true,
        _ => false,
    }
}

impl Clone for Playlist {
    fn clone(&self) -> (copy: Playlist)
        ensures
            copy == *self,
    {
        Playlist { id: self.id, title: self.title.clone(), tracks_count: self.tracks_count }
    }
}

/// One entry of the queue.
#[derive(Debug)]
pub struct Track {
    pub id: u32,
    pub title: String,
    pub duration_seconds: u32,
    pub album: Option<Album>,
    pub status: TrackStatus,
}

impl PartialEq for Track {
    fn eq(&self, other: &Track) -> (same: bool) {
        self.id == other.id && self.title == other.title && self.duration_seconds
            == other.duration_seconds && self.album == other.album && self.status == other.status
    }
}

impl vstd::std_specs::cmp::PartialEqSpecImpl for Track {
    open spec fn obeys_eq_spec() -> bool {
        true
    }

    open spec fn eq_spec(&self, other: &Track) -> bool {
        same_track(*self, *other)
    }
}

/// Whether two tracks have the same id, title, length, album and status.
pub open spec fn same_track(left: Track, right: Track) -> bool {
    left.id == right.id && left.title@ == right.title@ && left.duration_seconds
        == right.duration_seconds && same_optional_album(left.album, right.album) && left.status
        == right.status
}

impl Clone for Track {
    fn clone(&self) -> (copy: Track)
        ensures
            copy == *self,
    {
        let album = match &self.album {
            Some(album) => Some(album.clone()),
            None => None,
        };
        Track {
            id: self.id,
            title: self.title.clone(),
            duration_seconds: self.duration_seconds,
            album,
            status: self.status,
        }
    }
}

} // verus!
