use hifirs::client::{
    classify_status, handle_response, login_token, new, password_digest, track_url_params,
    track_url_signature_text, unquoted, ApiRequest, AudioQuality, AuthPlan, Endpoint,
    ResponseKind, SetupStatus, StoredCredentials, BASE_URL, PROBE_TRACK_ID,
};
use hifirs::config::ConfigError;

fn pairs(request: &ApiRequest) -> Vec<(&str, &str)> {
    request.params.iter().map(|(k, v)| (k.as_str(), v.as_str())).collect()
}

fn nothing_stored() -> StoredCredentials {
    StoredCredentials { app_id: None, active_secret: None, token: None, username: None, password: None }
}

fn some(text: &str) -> Option<String> {
    Some(text.to_string())
}

#[test]
fn endpoints_have_their_paths() {
    assert_eq!(Endpoint::Album.as_str(), "album/get");
    assert_eq!(Endpoint::Artist.as_str(), "artist/get");
    assert_eq!(Endpoint::Login.as_str(), "user/login");
    assert_eq!(Endpoint::Track.as_str(), "track/get");
    assert_eq!(Endpoint::SearchArtists.as_str(), "artist/search");
    assert_eq!(Endpoint::UserPlaylist.as_str(), "playlist/getUserPlaylists");
    assert_eq!(Endpoint::SearchAlbums.as_str(), "album/search");
    assert_eq!(Endpoint::Search.as_str(), "catalog/search");
    assert_eq!(Endpoint::TrackURL.as_str(), "track/getFileUrl");
    assert_eq!(Endpoint::Playlist.as_str(), "playlist/get");
}

#[test]
fn qualities_have_their_format_ids() {
    assert_eq!(AudioQuality::Mp3.format_id(), 5);
    assert_eq!(AudioQuality::CD.format_id(), 6);
    assert_eq!(AudioQuality::HIFI96.format_id(), 7);
    assert_eq!(AudioQuality::HIFI192.format_id(), 27);
    assert_eq!(AudioQuality::HIFI192.to_string(), "27");
    assert_eq!(AudioQuality::Mp3.to_string(), "5");
}

#[test]
fn a_new_client_defaults_to_mp3() {
    let client = new(None);
    assert_eq!(client.quality(), AudioQuality::Mp3);
    assert_eq!(client.base_url, BASE_URL);
    assert_eq!(client.base_url, "https://www.qobuz.com/api.json/0.2/");
    assert!(client.secrets.is_empty());
    assert!(client.app_id.is_none() && client.user_token.is_none());
    assert!(client.needs_config());
    assert!(client.needs_secret());
    assert_eq!(client.auth_plan(), AuthPlan::Missing);
    assert_eq!(new(Some(AudioQuality::HIFI96)).quality(), AudioQuality::HIFI96);
}

#[test]
fn setup_uses_a_stored_token_and_skips_the_credentials() {
    let mut client = new(None);
    let stored = StoredCredentials {
        app_id: some("123456789"),
        active_secret: some("s3cr3t"),
        token: some("tok"),
        username: some("stored@example.org"),
        password: None,
    };
    let outcome = client.setup(stored, some("cli@example.org"), some("pw"));
    assert!(!outcome.refresh_config);
    assert_eq!(outcome.status, SetupStatus::TokenFromCache);
    assert_eq!(client.app_id.as_deref(), Some("123456789"));
    assert_eq!(client.active_secret.as_deref(), Some("s3cr3t"));
    assert_eq!(client.user_token.as_deref(), Some("tok"));
    assert!(client.username.is_none());
    assert!(client.password.is_none());
    assert_eq!(client.auth_plan(), AuthPlan::Token);
}

#[test]
fn setup_without_a_stored_secret_forgets_the_app_id() {
    let mut client = new(None);
    client.set_active_secret(some("old"));
    let stored = StoredCredentials { app_id: some("123456789"), ..nothing_stored() };
    let outcome = client.setup(stored, some("me"), some("pw"));
    assert!(outcome.refresh_config);
    assert_eq!(outcome.status, SetupStatus::Ready);
    assert!(client.app_id.is_none());
    assert!(client.active_secret.is_none());
    assert_eq!(client.username.as_deref(), Some("me"));
    assert_eq!(client.password.as_deref(), Some("pw"));
    assert_eq!(client.auth_plan(), AuthPlan::Login);
}

#[test]
fn setup_without_a_stored_app_id_keeps_the_secret_in_use() {
    let mut client = new(None);
    client.set_active_secret(some("old"));
    client.set_app_id(some("999999999"));
    let stored = StoredCredentials { active_secret: some("ignored"), ..nothing_stored() };
    let outcome = client.setup(stored, None, None);
    assert!(outcome.refresh_config);
    assert_eq!(outcome.status, SetupStatus::MissingUsername);
    assert!(client.app_id.is_none());
    assert_eq!(client.active_secret.as_deref(), Some("old"));
}

#[test]
fn setup_prefers_the_callers_credentials() {
    let mut client = new(None);
    let stored = StoredCredentials {
        username: some("stored-name"),
        password: some("stored-pw"),
        ..nothing_stored()
    };
    let outcome = client.setup(stored, some("cli-name"), None);
    assert_eq!(outcome.status, SetupStatus::Ready);
    assert_eq!(client.username.as_deref(), Some("cli-name"));
    assert_eq!(client.password.as_deref(), Some("stored-pw"));
}

#[test]
fn setup_reports_a_missing_password_after_taking_the_name() {
    let mut client = new(None);
    let stored = StoredCredentials { username: some("stored-name"), ..nothing_stored() };
    let outcome = client.setup(stored, None, None);
    assert_eq!(outcome.status, SetupStatus::MissingPassword);
    assert_eq!(client.username.as_deref(), Some("stored-name"));
    assert!(client.password.is_none());
}

#[test]
fn headers_carry_what_is_known() {
    let mut client = new(None);
    assert!(client.headers().is_empty());
    client.set_token("tok".to_string());
    assert_eq!(client.headers(), vec![("X-User-Auth-Token".to_string(), "tok".to_string())]);
    client.set_app_id(some("123456789"));
    assert_eq!(
        client.headers(),
        vec![
            ("X-App-Id".to_string(), "123456789".to_string()),
            ("X-User-Auth-Token".to_string(), "tok".to_string())
        ]
    );
}

#[test]
fn requests_name_their_endpoint_and_parameters() {
    let mut client = new(None);
    client.set_app_id(some("123456789"));
    client.set_username("me@example.org".to_string());
    client.set_password("digest".to_string());

    let login = client.login_request();
    assert_eq!(login.url, "https://www.qobuz.com/api.json/0.2/user/login");
    assert_eq!(
        pairs(&login),
        vec![("email", "me@example.org"), ("password", "digest"), ("app_id", "123456789")]
    );

    let playlists = client.user_playlists_request();
    assert_eq!(playlists.url, "https://www.qobuz.com/api.json/0.2/playlist/getUserPlaylists");
    assert_eq!(pairs(&playlists), vec![("limit", "500"), ("extra", "tracks"), ("offset", "0")]);

    let playlist = client.playlist_request("77");
    assert_eq!(playlist.url, "https://www.qobuz.com/api.json/0.2/playlist/get");
    assert_eq!(
        pairs(&playlist),
        vec![("limit", "500"), ("extra", "tracks"), ("playlist_id", "77"), ("offset", "0")]
    );

    let track = client.track_request("5966783");
    assert_eq!(track.url, "https://www.qobuz.com/api.json/0.2/track/get");
    assert_eq!(pairs(&track), vec![("track_id", "5966783")]);

    let album = client.album_request("0060253780968");
    assert_eq!(album.url, "https://www.qobuz.com/api.json/0.2/album/get");
    assert_eq!(pairs(&album), vec![("album_id", "0060253780968")]);

    let search = client.search_all_request("coltrane");
    assert_eq!(search.url, "https://www.qobuz.com/api.json/0.2/catalog/search");
    assert_eq!(pairs(&search), vec![("query", "coltrane"), ("limit", "500")]);

    let albums = client.search_albums_request("blue train", 100);
    assert_eq!(albums.url, "https://www.qobuz.com/api.json/0.2/album/search");
    assert_eq!(pairs(&albums), vec![("query", "blue train"), ("limit", "100")]);
    assert_eq!(pairs(&client.search_albums_request("x", -3))[1], ("limit", "-3"));

    let artist = client.artist_request("42");
    assert_eq!(artist.url, "https://www.qobuz.com/api.json/0.2/artist/get");
    assert_eq!(
        pairs(&artist),
        vec![
            ("artist_id", "42"),
            ("app_id", "123456789"),
            ("limit", "500"),
            ("offset", "0"),
            ("extra", "albums")
        ]
    );

    let artists = client.search_artists_request("monk");
    assert_eq!(artists.url, "https://www.qobuz.com/api.json/0.2/artist/search");
    assert_eq!(pairs(&artists), vec![("query", "monk"), ("limit", "500")]);
}

#[test]
fn the_signature_text_strings_the_parts_together() {
    assert_eq!(
        track_url_signature_text(AudioQuality::HIFI192, 5966783, 1700000000, "abcdef"),
        "trackgetFileUrlformat_id27intentstreamtrack_id59667831700000000abcdef"
    );
    assert_eq!(
        track_url_signature_text(AudioQuality::CD, -42, -7, "zz"),
        "trackgetFileUrlformat_id6intentstreamtrack_id-42-7zz"
    );
}

#[test]
fn track_url_parameters_in_their_order() {
    let params = track_url_params(AudioQuality::HIFI96, 12, 34, "sig");
    let params: Vec<(&str, &str)> = params.iter().map(|(k, v)| (k.as_str(), v.as_str())).collect();
    assert_eq!(
        params,
        vec![
            ("request_ts", "34"),
            ("request_sig", "sig"),
            ("track_id", "12"),
            ("format_id", "7"),
            ("intent", "stream")
        ]
    );
}

#[test]
fn a_track_url_request_is_signed_with_the_md5_of_the_text() {
    let mut client = new(Some(AudioQuality::HIFI192));
    assert!(client.track_url_request(5966783, None, None, 1700000000).is_none());
    client.set_active_secret(some("abcdef"));
    let request = client.track_url_request(5966783, None, None, 1700000000).unwrap();
    assert_eq!(request.url, "https://www.qobuz.com/api.json/0.2/track/getFileUrl");
    assert_eq!(
        pairs(&request),
        vec![
            ("request_ts", "1700000000"),
            ("request_sig", "ee83dd0132ea3310f923751e35fb9ef2"),
            ("track_id", "5966783"),
            ("format_id", "27"),
            ("intent", "stream")
        ]
    );
    let given =
        client.track_url_request(5966783, Some(AudioQuality::Mp3), some("s3cr3t"), 1700000000).unwrap();
    assert_eq!(pairs(&given)[1], ("request_sig", "19bd3e7a85957ef77ce1485a48958486"));
    assert_eq!(pairs(&given)[3], ("format_id", "5"));
}

#[test]
fn a_probe_tries_a_secret_on_the_probe_track() {
    let client = new(Some(AudioQuality::HIFI192));
    assert_eq!(PROBE_TRACK_ID, 5966783);
    let request = client.probe_request("s3cr3t", 1700000000);
    assert_eq!(
        pairs(&request),
        vec![
            ("request_ts", "1700000000"),
            ("request_sig", "19bd3e7a85957ef77ce1485a48958486"),
            ("track_id", "5966783"),
            ("format_id", "5"),
            ("intent", "stream")
        ]
    );
}

#[test]
fn an_accepted_secret_becomes_the_secret_in_use() {
    let mut client = new(None);
    client.secret_probed("wrong".to_string(), false);
    assert!(client.active_secret.is_none());
    client.secret_probed("right".to_string(), true);
    assert_eq!(client.active_secret.as_deref(), Some("right"));
    client.secret_probed("other".to_string(), false);
    assert_eq!(client.active_secret.as_deref(), Some("right"));
    assert!(!client.needs_secret());
}

#[test]
fn the_password_digest_is_its_md5() {
    assert_eq!(password_digest("hunter2"), "2ab96390c7dbe3439de74d0c9b0b1767");
    assert_eq!(password_digest(""), "d41d8cd98f00b204e9800998ecf8427e");
}

#[test]
fn answers_are_told_apart_by_their_status() {
    assert_eq!(classify_status(200), ResponseKind::Success);
    assert_eq!(classify_status(400), ResponseKind::Failure);
    assert_eq!(classify_status(401), ResponseKind::Failure);
    assert_eq!(classify_status(404), ResponseKind::Failure);
    assert_eq!(classify_status(500), ResponseKind::Unexpected);
    assert_eq!(classify_status(201), ResponseKind::Unexpected);
    assert_eq!(handle_response(200, "payload".to_string()), Ok("payload".to_string()));
    assert_eq!(handle_response(404, "gone".to_string()), Err("gone".to_string()));
    assert_eq!(handle_response(401, "no".to_string()), Err("no".to_string()));
}

#[test]
fn unquoted_drops_the_first_and_the_last_byte() {
    assert_eq!(unquoted("\"token\"").as_deref(), Some("token"));
    assert_eq!(unquoted("\"\"").as_deref(), Some(""));
    assert_eq!(unquoted("null").as_deref(), Some("ul"));
    assert_eq!(unquoted("5"), None);
    assert_eq!(unquoted(""), None);
    assert_eq!(unquoted("éa"), None);
    assert_eq!(unquoted("aé"), None);
    assert_eq!(unquoted("\"é\"").as_deref(), Some("é"));
}

#[test]
fn the_login_token_is_read_from_the_answer() {
    assert_eq!(
        login_token("{\"user\":{\"id\":1},\"user_auth_token\":\"tok-123_abc\"}").as_deref(),
        Some("tok-123_abc")
    );
    assert_eq!(login_token("{\"user\":{}}").as_deref(), Some("ul"));
    assert_eq!(login_token("{\"user_auth_token\":7}"), None);
    assert_eq!(login_token("not json"), None);
    assert_eq!(login_token("{\"user_auth_token\":\"a\\\"b\"}").as_deref(), Some("a\\\"b"));
}

#[test]
fn read_config_takes_app_id_and_secrets_or_nothing() {
    let app = "cluster:\"eu\"}):(n.qobuzapi={app_id:\"123456789\",app_secret:\"0123456789abcdef0123456789abcdef\",base_port:\"80\",base_url:\"https://www.qobuz.com\",base_method:\"/api.json/0.2/\"},n";
    let seed = "x.initialSeed(\"c2VjcmV0\",window.utimezone.berlin)";
    let info = "name:\"Europe/Berlin\",info:\"LW9uZQ==AAAAAAAAAAAAAAAAAAAA\",extras:\"BBBBBBBBBBBBBBBBBBBBBBBB\"";
    let bundle = format!("{app};{seed};{info}");
    let mut client = new(None);
    assert_eq!(client.read_config(&bundle), Ok(()));
    assert_eq!(client.app_id.as_deref(), Some("123456789"));
    assert_eq!(client.secrets, vec![("Berlin".to_string(), "secret-one".to_string())]);
    assert!(!client.needs_config());

    let mut untouched = new(None);
    assert_eq!(untouched.read_config(&format!("{seed};{info}")), Err(ConfigError::NoAppId));
    assert!(untouched.app_id.is_none());
    assert!(untouched.secrets.is_empty());

    let broken = "name:\"Europe/Berlin\",info:\"!!!!\",extras:\"short\"".replace('!', "=");
    let mut untouched = new(None);
    untouched.secrets.push(("Paris".to_string(), "kept".to_string()));
    assert_eq!(
        untouched.read_config(&format!("{app};{seed};{broken}")),
        Err(ConfigError::BadSecret)
    );
    assert!(untouched.app_id.is_none());
    assert_eq!(untouched.secrets, vec![("Paris".to_string(), "kept".to_string())]);
}
