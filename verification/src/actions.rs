//! What a user or a remote client can ask of the player, and what the player
//! asks of its collaborators in turn.

use crate::uri::{resolve, target_of};
use vstd::prelude::*;

verus! {

/// A command for the player. It carries identifiers only, so that it can
/// cross a process boundary as it is.
#[derive(Debug, PartialEq, Eq)]
pub enum Action {
    Play,
    Pause,
    PlayPause,
    Next,
    Previous,
    Stop,
    Quit,
    SkipTo { num: u32 },
    JumpForward,
    JumpBackward,
    PlayAlbum { album_id: String },
    PlayTrack { track_id: i32 },
    PlayUri { uri: String },
    PlayPlaylist { playlist_id: i64 },
    Search { query: String },
    FetchArtistAlbums { artist_id: i32 },
    FetchPlaylistTracks { playlist_id: i64 },
    FetchUserPlaylists,
}

impl Clone for Action {
    fn clone(&self) -> (copy: Action)
        ensures
            copy == *self,
    {
        match self {
            Action::Play => Action::Play,
            Action::Pause => Action::Pause,
            Action::PlayPause => Action::PlayPause,
            Action::Next => Action::Next,
            Action::Previous => Action::Previous,
            Action::Stop => Action::Stop,
            Action::Quit => Action::Quit,
            Action::SkipTo { num } => Action::SkipTo { num: *num },
            Action::JumpForward => Action::JumpForward,
            Action::JumpBackward => Action::JumpBackward,
            Action::PlayAlbum { album_id } => Action::PlayAlbum { album_id: album_id.clone() },
            Action::PlayTrack { track_id } => Action::PlayTrack { track_id: *track_id },
            Action::PlayUri { uri } => Action::PlayUri { uri: uri.clone() },
            Action::PlayPlaylist { playlist_id } => Action::PlayPlaylist {
                playlist_id: *playlist_id,
            },
            Action::Search { query } => Action::Search { query: query.clone() },
            Action::FetchArtistAlbums { artist_id } => Action::FetchArtistAlbums {
                artist_id: *artist_id,
            },
            Action::FetchPlaylistTracks { playlist_id } => Action::FetchPlaylistTracks {
                playlist_id: *playlist_id,
            },
            Action::FetchUserPlaylists => Action::FetchUserPlaylists,
        }
    }
}

/// What the catalogue has to deliver before an action can be completed.
#[derive(Debug, PartialEq, Eq)]
pub enum Request {
    Album { album_id: String },
    Track { track_id: i32 },
    Playlist { playlist_id: i64 },
    Search { query: String },
    ArtistAlbums { artist_id: i32 },
    PlaylistTracks { playlist_id: i64 },
    UserPlaylists,
}

/// The mathematical content of a request.
pub enum RequestView {
    Album { album_id: Seq<char> },
    Track { track_id: i32 },
    Playlist { playlist_id: i64 },
    Search { query: Seq<char> },
    ArtistAlbums { artist_id: i32 },
    PlaylistTracks { playlist_id: i64 },
    UserPlaylists,
}

impl View for Request {
    type V = RequestView;

    open spec fn view(&self) -> RequestView {
        match self {
            Request::Album { album_id } => RequestView::Album { album_id: album_id@ },
            Request::Track { track_id } => RequestView::Track { track_id: *track_id },
            Request::Playlist { playlist_id } => RequestView::Playlist {
                playlist_id: *playlist_id,
            },
            Request::Search { query } => RequestView::Search { query: query@ },
            Request::ArtistAlbums { artist_id } => RequestView::ArtistAlbums {
                artist_id: *artist_id,
            },
            Request::PlaylistTracks { playlist_id } => RequestView::PlaylistTracks {
                playlist_id: *playlist_id,
            },
            Request::UserPlaylists => RequestView::UserPlaylists,
        }
    }
}

/// The content of a request, if there is one.
pub open spec fn request_view(request: Option<Request>) -> Option<RequestView> {
    match request {
        Some(request) => Some(request@),
        None => None,
    }
}

/// A call to the audio backend.
#[derive(Debug, Clone, Copy, PartialEq, Eq, Structural)]
pub enum AudioCommand {
    Load { track_id: u32 },
    Play,
    Pause,
    Seek { seconds: u32 },
    Stop,
}

impl Action {
    /// What the action needs from the catalogue, if anything. An address
    /// stands for what it names.
    pub open spec fn spec_request(self) -> Option<RequestView> {
        match self {
            Action::PlayAlbum { album_id } => Some(RequestView::Album { album_id: album_id@ }),
            Action::PlayTrack { track_id } => Some(RequestView::Track { track_id }),
            Action::PlayUri { uri } => target_of(uri@),
            Action::PlayPlaylist { playlist_id } => Some(RequestView::Playlist { playlist_id }),
            Action::Search { query } => Some(RequestView::Search { query: query@ }),
            Action::FetchArtistAlbums { artist_id } => Some(
                RequestView::ArtistAlbums { artist_id },
            ),
            Action::FetchPlaylistTracks { playlist_id } => Some(
                RequestView::PlaylistTracks { playlist_id },
            ),
            Action::FetchUserPlaylists => Some(RequestView::UserPlaylists),
            _ => None,
        }
    }

    /// Whether the action asks for a new queue to be loaded.
    pub open spec fn spec_loads_queue(self) -> bool {
        self is PlayAlbum || self is PlayTrack || self is PlayUri || self is PlayPlaylist
    }

    /// What the action needs from the catalogue, if anything.
    pub fn request(self) -> (request: Option<Request>)
        ensures
            request_view(request) == self.spec_request(),
    {
        match self {
            Action::PlayAlbum { album_id } => Some(Request::Album { album_id }),
            Action::PlayTrack { track_id } => Some(Request::Track { track_id }),
            Action::PlayUri { uri } => resolve(uri.as_str()),
            Action::PlayPlaylist { playlist_id } => Some(Request::Playlist { playlist_id }),
            Action::Search { query } => Some(Request::Search { query }),
            Action::FetchArtistAlbums { artist_id } => Some(Request::ArtistAlbums { artist_id }),
            Action::FetchPlaylistTracks { playlist_id } => Some(
                Request::PlaylistTracks { playlist_id },
            ),
            Action::FetchUserPlaylists => Some(Request::UserPlaylists),
            _ => None,
        }
    }
}

} // verus!
