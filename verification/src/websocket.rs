//! What the web front end is answered: the decisions of the static file
//! handler and of the socket's receiving side.

use crate::actions::{Action, Request};
use crate::outside::{guessed_mime, mime_of_extension};
use crate::player::PlayerError;
use vstd::prelude::*;
use vstd::string::{StrSliceExecFns, StringExecFns, StringSliceAdditionalSpecFns};

verus! {

/// The media type of a file whose extension is not known.
pub const PLAIN_TEXT: &'static str = "text/plain";

/// The media type of the page that says that a file was not found.
pub const HTML: &'static str = "text/html";

/// The page that says that a file was not found.
pub const NOT_FOUND_PAGE: &'static str = "<html><body><h1>404</h1></body></html>";

/// The file that stands for a directory.
pub const INDEX_FILE: &'static str = "index.html";

/// An answer to a request for a file of the site.
#[derive(Debug)]
pub struct StaticReply {
    pub body: Vec<u8>,
    pub mime_type: String,
    pub status: u16,
}

/// Whether the index file is meant: the path names a directory or is the
/// root of the site.
pub fn wants_index(request_path: &str, is_directory: bool) -> (index: bool)
    ensures
        index == (is_directory || request_path@ == "/"@),
{
    is_directory || crate::text::same_text(request_path, "/")
}

/// The media type of a file with the given extension: what is known for the
/// extension, else plain text.
pub fn mime_type_for(extension: &str) -> (mime: String)
    ensures
        mime@ == (match mime_of_extension(extension@) {
            Some(known) => known,
            None => PLAIN_TEXT@,
        }),
{
    media_type(guessed_mime(extension))
}

/// The media type to go by, given what is known for the extension.
pub fn media_type(known: Option<String>) -> (mime: String)
    ensures
        mime@ == (match known {
            Some(known) => known@,
            None => PLAIN_TEXT@,
        }),
{
    match known {
        Some(known) => known,
        None => String::from_str(PLAIN_TEXT),
    }
}

/// The answer to a request for a file: the file with its media type and the
/// status 200 where the site has it, else the page for a missing file as HTML
/// with the status 404.
pub fn static_reply(file: Option<Vec<u8>>, mime_type: String) -> (reply: StaticReply)
    ensures
        match file {
            Some(contents) => reply.body == contents && reply.mime_type == mime_type
                && reply.status == 200,
            None => reply.body@ == NOT_FOUND_PAGE.spec_bytes() && reply.mime_type@ == HTML@
                && reply.status == 404,
        },
{
    match file {
        Some(contents) => StaticReply { body: contents, mime_type, status: 200 },
        None => StaticReply {
            body: NOT_FOUND_PAGE.as_bytes_vec(),
            mime_type: String::from_str(HTML),
            status: 404,
        },
    }
}

/// What came of decoding a message from a client: the action, or the error
/// for a message that is no action. A message of the second kind never
/// reaches the player.
pub fn decoded_action(decoded: Option<Action>) -> (result: Result<Action, PlayerError>)
    ensures
        result == (match decoded {
            Some(action) => Ok::<Action, PlayerError>(action),
            None => Err::<Action, PlayerError>(PlayerError::ProtocolError),
        }),
{
    match decoded {
        Some(action) => Ok(action),
        None => Err(PlayerError::ProtocolError),
    }
}

/// The envelope of the answer to a query: the name of the outer member, the
/// id that is echoed, and the name of the member that holds the results.
#[derive(Debug, Clone, Copy, PartialEq, Eq, Structural)]
pub enum QueryReply {
    /// `{"searchResults": {"results": ..}}`
    SearchResults,
    /// `{"artistAlbums": {"id": .., "albums": ..}}`
    ArtistAlbums { artist_id: i32 },
    /// `{"playlistTracks": {"id": .., "tracks": ..}}`
    PlaylistTracks { playlist_id: i64 },
    /// `{"userPlaylists": ..}`
    UserPlaylists,
}

impl QueryReply {
    /// The envelope for the answer to a request; none for a request to load
    /// a queue, which is answered by notifications.
    pub open spec fn spec_for_request(request: Request) -> Option<QueryReply> {
        match request {
            Request::Search { query } => Some(QueryReply::SearchResults),
            Request::ArtistAlbums { artist_id } => Some(QueryReply::ArtistAlbums { artist_id }),
            Request::PlaylistTracks { playlist_id } => Some(
                QueryReply::PlaylistTracks { playlist_id },
            ),
            Request::UserPlaylists => Some(QueryReply::UserPlaylists),
            _ => None,
        }
    }

    /// The envelope for the answer to a request.
    pub fn for_request(request: &Request) -> (reply: Option<QueryReply>)
        ensures
            reply == QueryReply::spec_for_request(*request),
    {
        match request {
            Request::Search { query } => Some(QueryReply::SearchResults),
            Request::ArtistAlbums { artist_id } => Some(
                QueryReply::ArtistAlbums { artist_id: *artist_id },
            ),
            Request::PlaylistTracks { playlist_id } => Some(
                QueryReply::PlaylistTracks { playlist_id: *playlist_id },
            ),
            Request::UserPlaylists => Some(QueryReply::UserPlaylists),
            _ => None,
        }
    }

    /// The name of the outer member.
    pub fn name(&self) -> (name: &'static str)
        ensures
            name@ == (match self {
                QueryReply::SearchResults => "searchResults"@,
                QueryReply::ArtistAlbums { artist_id } => "artistAlbums"@,
                QueryReply::PlaylistTracks { playlist_id } => "playlistTracks"@,
                QueryReply::UserPlaylists => "userPlaylists"@,
            }),
    {
        match self {
            QueryReply::SearchResults => "searchResults",
            QueryReply::ArtistAlbums { artist_id } => "artistAlbums",
            QueryReply::PlaylistTracks { playlist_id } => "playlistTracks",
            QueryReply::UserPlaylists => "userPlaylists",
        }
    }

    /// The name of the member that holds the results; none where the results
    /// are the outer member's value themselves.
    pub fn results_member(&self) -> (member: Option<&'static str>)
        ensures
            match self {
                QueryReply::SearchResults => member matches Some(name) && name@ == "results"@,
                QueryReply::ArtistAlbums { artist_id } => member matches Some(name) && name@ == "albums"@,
                QueryReply::PlaylistTracks { playlist_id } => member matches Some(name) && name@
                    == "tracks"@,
                QueryReply::UserPlaylists => member is None,
            },
    {
        match self {
            QueryReply::SearchResults => Some("results"),
            QueryReply::ArtistAlbums { artist_id } => Some("albums"),
            QueryReply::PlaylistTracks { playlist_id } => Some("tracks"),
            QueryReply::UserPlaylists => None,
        }
    }
}

} // verus!
