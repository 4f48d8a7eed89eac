use hifirs::actions::{Action, Request};
use hifirs::player::PlayerError;
use hifirs::websocket::{
    decoded_action, media_type, mime_type_for, static_reply, wants_index, QueryReply, HTML,
    INDEX_FILE, NOT_FOUND_PAGE, PLAIN_TEXT,
};

#[test]
fn the_index_is_meant_for_the_root_and_for_directories() {
    assert!(wants_index("/", false));
    assert!(wants_index("/assets", true));
    assert!(!wants_index("/assets/app.js", false));
    assert!(!wants_index("", false));
    assert_eq!(INDEX_FILE, "index.html");
}

#[test]
fn media_types_are_guessed_from_the_extension() {
    assert_eq!(mime_type_for("html"), "text/html");
    assert_eq!(mime_type_for("HTML"), "text/html");
    assert_eq!(mime_type_for("css"), "text/css");
    assert_eq!(mime_type_for("js"), "text/javascript");
    assert_eq!(mime_type_for("png"), "image/png");
    assert_eq!(mime_type_for(""), "text/plain");
    assert_eq!(mime_type_for("no-such-extension"), "text/plain");
    assert_eq!(media_type(None), PLAIN_TEXT);
    assert_eq!(media_type(Some("a/b".to_string())), "a/b");
}

#[test]
fn a_file_of_the_site_is_served_as_it_is() {
    let reply = static_reply(Some(vec![1, 2, 3]), "image/png".to_string());
    assert_eq!(reply.body, vec![1, 2, 3]);
    assert_eq!(reply.mime_type, "image/png");
    assert_eq!(reply.status, 200);
}

#[test]
fn a_missing_file_is_a_404_page() {
    let reply = static_reply(None, "image/png".to_string());
    assert_eq!(reply.body, b"<html><body><h1>404</h1></body></html>".to_vec());
    assert_eq!(reply.body, NOT_FOUND_PAGE.as_bytes());
    assert_eq!(reply.mime_type, "text/html");
    assert_eq!(reply.mime_type, HTML);
    assert_eq!(reply.status, 404);
}

#[test]
fn a_message_that_is_no_action_is_a_protocol_error() {
    assert!(matches!(decoded_action(Some(Action::Next)), Ok(Action::Next)));
    assert!(matches!(decoded_action(None), Err(PlayerError::ProtocolError)));
}

#[test]
fn queries_are_answered_in_their_envelope() {
    let search = QueryReply::for_request(&Request::Search { query: "q".to_string() }).unwrap();
    assert_eq!(search, QueryReply::SearchResults);
    assert_eq!(search.name(), "searchResults");
    assert_eq!(search.results_member(), Some("results"));

    let albums = QueryReply::for_request(&Request::ArtistAlbums { artist_id: 7 }).unwrap();
    assert_eq!(albums, QueryReply::ArtistAlbums { artist_id: 7 });
    assert_eq!(albums.name(), "artistAlbums");
    assert_eq!(albums.results_member(), Some("albums"));

    let tracks = QueryReply::for_request(&Request::PlaylistTracks { playlist_id: 8 }).unwrap();
    assert_eq!(tracks, QueryReply::PlaylistTracks { playlist_id: 8 });
    assert_eq!(tracks.name(), "playlistTracks");
    assert_eq!(tracks.results_member(), Some("tracks"));

    let playlists = QueryReply::for_request(&Request::UserPlaylists).unwrap();
    assert_eq!(playlists.name(), "userPlaylists");
    assert_eq!(playlists.results_member(), None);

    assert_eq!(QueryReply::for_request(&Request::Album { album_id: "a".to_string() }), None);
    assert_eq!(QueryReply::for_request(&Request::Track { track_id: 1 }), None);
    assert_eq!(QueryReply::for_request(&Request::Playlist { playlist_id: 1 }), None);
}
