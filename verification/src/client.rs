//! The catalogue client, without its transport: which request to send, what
//! to make of an answer, and which credentials to use.

use crate::config::{
    app_id_in, first_group_text, remember_bundle, secret_views, secrets_with_bundle, ConfigError,
    Secret, APP_REGEX,
};
use crate::outside::{json_member, json_member_text, md5_hex, md5_hex_of, regex_found};
use crate::text::{decimal_i64, decimal_int, decimal_nat, decimal_u64, joined};
use vstd::prelude::*;
use vstd::string::{StringExecFns, StringSliceAdditionalSpecFns};
use vstd::utf8::{decode_utf8, encode_utf8, is_char_boundary};

verus! {

/// The address that every endpoint is appended to.
pub const BASE_URL: &'static str = "https://www.qobuz.com/api.json/0.2/";

/// The audio format to ask for.
#[derive(Debug, Clone, Copy, PartialEq, Eq, Structural)]
pub enum AudioQuality {
    Mp3,
    CD,
    HIFI96,
    HIFI192,
}

impl AudioQuality {
    /// The number by which the catalogue knows the format.
    pub open spec fn spec_format_id(self) -> u32 {
        match self {
            AudioQuality::Mp3 => 5,
            AudioQuality::CD => 6,
            AudioQuality::HIFI96 => 7,
            AudioQuality::HIFI192 => 27,
        }
    }

    /// The number by which the catalogue knows the format.
    pub fn format_id(&self) -> (id: u32)
        ensures
            id == self.spec_format_id(),
    {
        match self {
            AudioQuality::Mp3 => 5,
            AudioQuality::CD => 6,
            AudioQuality::HIFI96 => 7,
            AudioQuality::HIFI192 => 27,
        }
    }

    /// The number of the format in decimal notation.
    pub fn to_string(&self) -> (text: String)
        ensures
            text@ == decimal_nat(self.spec_format_id() as nat),
    {
        decimal_u64(self.format_id() as u64)
    }
}

/// The calls that the catalogue offers.
#[non_exhaustive]
#[derive(Debug, Clone, Copy, PartialEq, Eq, Structural)]
pub enum Endpoint {
    Album,
    Artist,
    Login,
    Track,
    UserPlaylist,
    SearchArtists,
    SearchAlbums,
    TrackURL,
    Playlist,
    Search,
}

impl Endpoint {
    /// The path of the endpoint below the base address.
    pub open spec fn spec_path(self) -> Seq<char> {
        match self {
            Endpoint::Album => "album/get"@,
            Endpoint::Artist => "artist/get"@,
            Endpoint::Login => "user/login"@,
            Endpoint::Track => "track/get"@,
            Endpoint::SearchArtists => "artist/search"@,
            Endpoint::UserPlaylist => "playlist/getUserPlaylists"@,
            Endpoint::SearchAlbums => "album/search"@,
            Endpoint::Search => "catalog/search"@,
            Endpoint::TrackURL => "track/getFileUrl"@,
            Endpoint::Playlist => "playlist/get"@,
        }
    }

    /// The path of the endpoint below the base address.
    pub fn as_str(&self) -> (path: &'static str)
        ensures
            path@ == self.spec_path(),
    {
        match self {
            Endpoint::Album => "album/get",
            Endpoint::Artist => "artist/get",
            Endpoint::Login => "user/login",
            Endpoint::Track => "track/get",
            Endpoint::SearchArtists => "artist/search",
            Endpoint::UserPlaylist => "playlist/getUserPlaylists",
            Endpoint::SearchAlbums => "album/search",
            Endpoint::Search => "catalog/search",
            Endpoint::TrackURL => "track/getFileUrl",
            Endpoint::Playlist => "playlist/get",
        }
    }
}

/// The contents of a list of pairs of texts.
pub open spec fn pair_views(pairs: Seq<(String, String)>) -> Seq<(Seq<char>, Seq<char>)> {
    pairs.map_values(|pair: (String, String)| (pair.0@, pair.1@))
}

/// A GET request: the address and the query parameters in their order.
#[derive(Debug)]
pub struct ApiRequest {
    pub url: String,
    pub params: Vec<(String, String)>,
}

/// The mathematical content of a request.
pub struct ApiRequestView {
    pub url: Seq<char>,
    pub params: Seq<(Seq<char>, Seq<char>)>,
}

impl View for ApiRequest {
    type V = ApiRequestView;

    open spec fn view(&self) -> ApiRequestView {
        ApiRequestView { url: self.url@, params: pair_views(self.params@) }
    }
}

/// A pair of owned texts.
fn pair(key: &str, value: &str) -> (pair: (String, String))
    ensures
        pair.0@ == key@,
        pair.1@ == value@,
{
    (String::from_str(key), String::from_str(value))
}

/// What the store of settings holds for the client.
#[derive(Debug)]
pub struct StoredCredentials {
    pub app_id: Option<String>,
    pub active_secret: Option<String>,
    pub token: Option<String>,
    pub username: Option<String>,
    pub password: Option<String>,
}

/// How far `setup` got.
#[derive(Debug, Clone, Copy, PartialEq, Eq, Structural)]
pub enum SetupStatus {
    /// A stored token is in use; name and password were not looked at.
    TokenFromCache,
    /// Name and password are set.
    Ready,
    /// Neither the caller nor the store has a user name.
    MissingUsername,
    /// Neither the caller nor the store has a password.
    MissingPassword,
}

/// What `setup` found.
#[derive(Debug, Clone, Copy, PartialEq, Eq, Structural)]
pub struct SetupOutcome {
    /// Whether the app id and the secrets have to be fetched anew.
    pub refresh_config: bool,
    pub status: SetupStatus,
}

/// Which credentials the client can authenticate with.
#[derive(Debug, Clone, Copy, PartialEq, Eq, Structural)]
pub enum AuthPlan {
    /// Name and password are there: log in.
    Login,
    /// There is a token and nothing to log in with: use the token.
    Token,
    /// There is nothing to authenticate with.
    Missing,
}

/// What an answer of the catalogue amounts to.
#[derive(Debug, Clone, Copy, PartialEq, Eq, Structural)]
pub enum ResponseKind {
    /// 200: the body is the payload.
    Success,
    /// 400, 401 or 404: the body says what went wrong.
    Failure,
    /// Any other status; the catalogue is not known to send one.
    Unexpected,
}

/// The kind of an answer with the given status.
pub open spec fn response_kind(status: u16) -> ResponseKind {
    if status == 200 {
        ResponseKind::Success
    } else if status == 400 || status == 401 || status == 404 {
        ResponseKind::Failure
    } else {
        ResponseKind::Unexpected
    }
}

/// The kind of an answer with the given status.
pub fn classify_status(status: u16) -> (kind: ResponseKind)
    ensures
        kind == response_kind(status),
{
    if status == 200 {
        ResponseKind::Success
    } else if status == 400 || status == 401 || status == 404 {
        ResponseKind::Failure
    } else {
        ResponseKind::Unexpected
    }
}

/// The payload of an answer, or what the catalogue says went wrong.
pub fn handle_response(status: u16, body: String) -> (result: Result<String, String>)
    requires
        response_kind(status) != ResponseKind::Unexpected,
    ensures
        result == (if status == 200 {
            Ok::<String, String>(body)
        } else {
            Err::<String, String>(body)
        }),
{
    match classify_status(status) {
        ResponseKind::Success => Ok(body),
        _ => Err(body),
    }
}

/// The client's credentials and settings.
#[derive(Debug, Clone)]
pub struct Client {
    /// The secrets found in the web player, each with the time zone it was
    /// found under.
    pub secrets: Vec<(String, String)>,
    pub active_secret: Option<String>,
    pub app_id: Option<String>,
    pub username: Option<String>,
    pub password: Option<String>,
    pub base_url: String,
    pub default_quality: AudioQuality,
    pub user_token: Option<String>,
}

/// A client without credentials. Without a stored quality, MP3 is asked for.
pub fn new(stored_quality: Option<AudioQuality>) -> (client: Client)
    ensures
        client.secrets@.len() == 0,
        client.active_secret is None,
        client.app_id is None,
        client.username is None,
        client.password is None,
        client.user_token is None,
        client.base_url@ == BASE_URL@,
        client.default_quality == (match stored_quality {
            Some(quality) => quality,
            None => AudioQuality::Mp3,
        }),
{
    let default_quality = match stored_quality {
        Some(quality) => quality,
        None => AudioQuality::Mp3,
    };
    Client {
        secrets: Vec::new(),
        active_secret: None,
        app_id: None,
        username: None,
        password: None,
        base_url: String::from_str(BASE_URL),
        default_quality,
        user_token: None,
    }
}

impl Client {
    /// The quality to ask for where none is named.
    pub fn quality(&self) -> (quality: AudioQuality)
        ensures
            quality == self.default_quality,
    {
        self.default_quality
    }

    /// Sets the token of the logged-in user.
    pub fn set_token(&mut self, token: String)
        ensures
            *final(self) == (Client { user_token: Some(token), ..*old(self) }),
    {
        self.user_token = Some(token);
    }

    /// Sets the user name.
    pub fn set_username(&mut self, username: String)
        ensures
            *final(self) == (Client { username: Some(username), ..*old(self) }),
    {
        self.username = Some(username);
    }

    /// Sets the password.
    pub fn set_password(&mut self, password: String)
        ensures
            *final(self) == (Client { password: Some(password), ..*old(self) }),
    {
        self.password = Some(password);
    }

    /// Sets or forgets the app id.
    pub fn set_app_id(&mut self, app_id: Option<String>)
        ensures
            *final(self) == (Client { app_id, ..*old(self) }),
    {
        self.app_id = app_id;
    }

    /// Sets or forgets the secret in use.
    pub fn set_active_secret(&mut self, active_secret: Option<String>)
        ensures
            *final(self) == (Client { active_secret, ..*old(self) }),
    {
        self.active_secret = active_secret;
    }

    /// The client after `setup`.
    pub open spec fn spec_setup(
        self,
        stored: StoredCredentials,
        username: Option<String>,
        password: Option<String>,
    ) -> Client {
        let with_config = Client {
            app_id: if stored.app_id is Some && stored.active_secret is Some {
                stored.app_id
            } else {
                None
            },
            active_secret: if stored.app_id is Some {
                stored.active_secret
            } else {
                self.active_secret
            },
            ..self
        };
        let chosen_name = if username is Some {
            username
        } else {
            stored.username
        };
        let chosen_password = if password is Some {
            password
        } else {
            stored.password
        };
        if stored.token is Some {
            Client { user_token: stored.token, ..with_config }
        } else if chosen_name is None {
            with_config
        } else if chosen_password is None {
            Client { username: chosen_name, ..with_config }
        } else {
            Client { username: chosen_name, password: chosen_password, ..with_config }
        }
    }

    /// What `setup` reports.
    pub open spec fn spec_setup_outcome(
        stored: StoredCredentials,
        username: Option<String>,
        password: Option<String>,
    ) -> SetupOutcome {
        SetupOutcome {
            refresh_config: !(stored.app_id is Some && stored.active_secret is Some),
            status: if stored.token is Some {
                SetupStatus::TokenFromCache
            } else if username is None && stored.username is None {
                SetupStatus::MissingUsername
            } else if password is None && stored.password is None {
                SetupStatus::MissingPassword
            } else {
                SetupStatus::Ready
            },
        }
    }

    /// Takes the app id, the secret and the credentials from what is stored
    /// and from what the caller gives. App id and secret are used only where
    /// both are stored; otherwise they have to be fetched anew. A stored token
    /// is used as it is; else a name and a password are needed, those of the
    /// caller before those of the store.
    pub fn setup(
        &mut self,
        stored: StoredCredentials,
        username: Option<String>,
        password: Option<String>,
    ) -> (outcome: SetupOutcome)
        ensures
            *final(self) == old(self).spec_setup(stored, username, password),
            outcome == Client::spec_setup_outcome(stored, username, password),
    {
        let mut refresh_config = false;
        match stored.app_id {
            Some(app_id) => {
                self.set_app_id(Some(app_id));
                match stored.active_secret {
                    Some(active_secret) => {
                        self.set_active_secret(Some(active_secret));
                    },
                    None => {
                        self.set_active_secret(None);
                        self.set_app_id(None);
                        refresh_config = true;
                    },
                }
            },
            None => {
                self.set_app_id(None);
                refresh_config = true;
            },
        }
        if let Some(token) = stored.token {
            self.set_token(token);
            return SetupOutcome { refresh_config, status: SetupStatus::TokenFromCache };
        }
        if let Some(name) = username {
            self.set_username(name);
        } else if let Some(name) = stored.username {
            self.set_username(name);
        } else {
            return SetupOutcome { refresh_config, status: SetupStatus::MissingUsername };
        }
        if let Some(word) = password {
            self.set_password(word);
        } else if let Some(word) = stored.password {
            self.set_password(word);
        } else {
            return SetupOutcome { refresh_config, status: SetupStatus::MissingPassword };
        }
        SetupOutcome { refresh_config, status: SetupStatus::Ready }
    }

    /// Whether the app id has yet to be fetched.
    pub fn needs_config(&self) -> (needed: bool)
        ensures
            needed == (self.app_id is None),
    {
        self.app_id.is_none()
    }

    /// Whether a secret has yet to be found.
    pub fn needs_secret(&self) -> (needed: bool)
        ensures
            needed == (self.active_secret is None),
    {
        self.active_secret.is_none()
    }

    /// Which credentials to authenticate with.
    pub fn auth_plan(&self) -> (plan: AuthPlan)
        ensures
            plan == (if self.username is Some && self.password is Some {
                AuthPlan::Login
            } else if self.user_token is Some {
                AuthPlan::Token
            } else {
                AuthPlan::Missing
            }),
    {
        if self.username.is_some() && self.password.is_some() {
            AuthPlan::Login
        } else if self.user_token.is_some() {
            AuthPlan::Token
        } else {
            AuthPlan::Missing
        }
    }

    /// The headers that every request carries: the app id and the user's
    /// token, each where it is known.
    pub fn headers(&self) -> (headers: Vec<(String, String)>)
        ensures
            pair_views(headers@) == (match self.app_id {
                Some(app_id) => seq![("X-App-Id"@, app_id@)],
                None => Seq::empty(),
            }) + (match self.user_token {
                Some(token) => seq![("X-User-Auth-Token"@, token@)],
                None => Seq::empty(),
            }),
    {
        let mut headers: Vec<(String, String)> = Vec::new();
        if let Some(app_id) = &self.app_id {
            headers.push(pair("X-App-Id", app_id.as_str()));
        }
        if let Some(token) = &self.user_token {
            headers.push(pair("X-User-Auth-Token", token.as_str()));
        }
        proof {
            assert(pair_views(headers@) =~= (match self.app_id {
                Some(app_id) => seq![("X-App-Id"@, app_id@)],
                None => Seq::empty(),
            }) + (match self.user_token {
                Some(token) => seq![("X-User-Auth-Token"@, token@)],
                None => Seq::empty(),
            }));
        }
        headers
    }

    /// The address of an endpoint.
    pub fn endpoint_url(&self, endpoint: Endpoint) -> (url: String)
        ensures
            url@ == self.base_url@ + endpoint.spec_path(),
    {
        joined(self.base_url.as_str(), endpoint.as_str())
    }

    /// The request that logs the user in.
    pub fn login_request(&self) -> (request: ApiRequest)
        requires
            self.app_id is Some,
            self.username is Some,
            self.password is Some,
        ensures
            request@ == (ApiRequestView {
                url: self.base_url@ + Endpoint::Login.spec_path(),
                params: seq![
                    ("email"@, self.username->0@),
                    ("password"@, self.password->0@),
                    ("app_id"@, self.app_id->0@),
                ],
            }),
    {
        let mut params: Vec<(String, String)> = Vec::new();
        if let Some(username) = &self.username {
            params.push(pair("email", username.as_str()));
        }
        if let Some(password) = &self.password {
            params.push(pair("password", password.as_str()));
        }
        if let Some(app_id) = &self.app_id {
            params.push(pair("app_id", app_id.as_str()));
        }
        let request = ApiRequest { url: self.endpoint_url(Endpoint::Login), params };
        assert(request@.params =~= seq![
            ("email"@, self.username->0@),
            ("password"@, self.password->0@),
            ("app_id"@, self.app_id->0@),
        ]);
        request
    }

    /// The request for the playlists of the user.
    pub fn user_playlists_request(&self) -> (request: ApiRequest)
        ensures
            request@ == (ApiRequestView {
                url: self.base_url@ + Endpoint::UserPlaylist.spec_path(),
                params: seq![("limit"@, "500"@), ("extra"@, "tracks"@), ("offset"@, "0"@)],
            }),
    {
        let mut params: Vec<(String, String)> = Vec::new();
        params.push(pair("limit", "500"));
        params.push(pair("extra", "tracks"));
        params.push(pair("offset", "0"));
        let request = ApiRequest { url: self.endpoint_url(Endpoint::UserPlaylist), params };
        assert(request@.params =~= seq![
            ("limit"@, "500"@),
            ("extra"@, "tracks"@),
            ("offset"@, "0"@),
        ]);
        request
    }

    /// The request for a playlist with its tracks.
    pub fn playlist_request(&self, playlist_id: &str) -> (request: ApiRequest)
        ensures
            request@ == (ApiRequestView {
                url: self.base_url@ + Endpoint::Playlist.spec_path(),
                params: seq![
                    ("limit"@, "500"@),
                    ("extra"@, "tracks"@),
                    ("playlist_id"@, playlist_id@),
                    ("offset"@, "0"@),
                ],
            }),
    {
        let mut params: Vec<(String, String)> = Vec::new();
        params.push(pair("limit", "500"));
        params.push(pair("extra", "tracks"));
        params.push(pair("playlist_id", playlist_id));
        params.push(pair("offset", "0"));
        let request = ApiRequest { url: self.endpoint_url(Endpoint::Playlist), params };
        assert(request@.params =~= seq![
            ("limit"@, "500"@),
            ("extra"@, "tracks"@),
            ("playlist_id"@, playlist_id@),
            ("offset"@, "0"@),
        ]);
        request
    }

    /// The request for a track.
    pub fn track_request(&self, track_id: &str) -> (request: ApiRequest)
        ensures
            request@ == (ApiRequestView {
                url: self.base_url@ + Endpoint::Track.spec_path(),
                params: seq![("track_id"@, track_id@)],
            }),
    {
        let mut params: Vec<(String, String)> = Vec::new();
        params.push(pair("track_id", track_id));
        let request = ApiRequest { url: self.endpoint_url(Endpoint::Track), params };
        assert(request@.params =~= seq![("track_id"@, track_id@)]);
        request
    }

    /// The request for an album.
    pub fn album_request(&self, album_id: &str) -> (request: ApiRequest)
        ensures
            request@ == (ApiRequestView {
                url: self.base_url@ + Endpoint::Album.spec_path(),
                params: seq![("album_id"@, album_id@)],
            }),
    {
        let mut params: Vec<(String, String)> = Vec::new();
        params.push(pair("album_id", album_id));
        let request = ApiRequest { url: self.endpoint_url(Endpoint::Album), params };
        assert(request@.params =~= seq![("album_id"@, album_id@)]);
        request
    }

    /// The request that searches the whole catalogue.
    pub fn search_all_request(&self, query: &str) -> (request: ApiRequest)
        ensures
            request@ == (ApiRequestView {
                url: self.base_url@ + Endpoint::Search.spec_path(),
                params: seq![("query"@, query@), ("limit"@, "500"@)],
            }),
    {
        let mut params: Vec<(String, String)> = Vec::new();
        params.push(pair("query", query));
        params.push(pair("limit", "500"));
        let request = ApiRequest { url: self.endpoint_url(Endpoint::Search), params };
        assert(request@.params =~= seq![("query"@, query@), ("limit"@, "500"@)]);
        request
    }

    /// The request that searches the albums.
    pub fn search_albums_request(&self, query: &str, limit: i32) -> (request: ApiRequest)
        ensures
            request@ == (ApiRequestView {
                url: self.base_url@ + Endpoint::SearchAlbums.spec_path(),
                params: seq![("query"@, query@), ("limit"@, decimal_int(limit as int))],
            }),
    {
        let mut params: Vec<(String, String)> = Vec::new();
        let limit_text = decimal_i64(limit as i64);
        params.push(pair("query", query));
        params.push(pair("limit", limit_text.as_str()));
        let request = ApiRequest { url: self.endpoint_url(Endpoint::SearchAlbums), params };
        assert(request@.params =~= seq![("query"@, query@), ("limit"@, decimal_int(limit as int))]);
        request
    }

    /// The request for an artist with the albums.
    pub fn artist_request(&self, artist_id: &str) -> (request: ApiRequest)
        requires
            self.app_id is Some,
        ensures
            request@ == (ApiRequestView {
                url: self.base_url@ + Endpoint::Artist.spec_path(),
                params: seq![
                    ("artist_id"@, artist_id@),
                    ("app_id"@, self.app_id->0@),
                    ("limit"@, "500"@),
                    ("offset"@, "0"@),
                    ("extra"@, "albums"@),
                ],
            }),
    {
        let mut params: Vec<(String, String)> = Vec::new();
        params.push(pair("artist_id", artist_id));
        if let Some(app_id) = &self.app_id {
            params.push(pair("app_id", app_id.as_str()));
        }
        params.push(pair("limit", "500"));
        params.push(pair("offset", "0"));
        params.push(pair("extra", "albums"));
        let request = ApiRequest { url: self.endpoint_url(Endpoint::Artist), params };
        assert(request@.params =~= seq![
            ("artist_id"@, artist_id@),
            ("app_id"@, self.app_id->0@),
            ("limit"@, "500"@),
            ("offset"@, "0"@),
            ("extra"@, "albums"@),
        ]);
        request
    }

    /// The request that searches the artists.
    pub fn search_artists_request(&self, query: &str) -> (request: ApiRequest)
        ensures
            request@ == (ApiRequestView {
                url: self.base_url@ + Endpoint::SearchArtists.spec_path(),
                params: seq![("query"@, query@), ("limit"@, "500"@)],
            }),
    {
        let mut params: Vec<(String, String)> = Vec::new();
        params.push(pair("query", query));
        params.push(pair("limit", "500"));
        let request = ApiRequest { url: self.endpoint_url(Endpoint::SearchArtists), params };
        assert(request@.params =~= seq![("query"@, query@), ("limit"@, "500"@)]);
        request
    }
}

/// The text that a request for the address of a track's audio file is signed
/// with.
pub open spec fn signature_text(
    format_id: AudioQuality,
    track_id: i32,
    now: i64,
    secret: Seq<char>,
) -> Seq<char> {
    "trackgetFileUrlformat_id"@ + decimal_nat(format_id.spec_format_id() as nat)
        + "intentstreamtrack_id"@ + decimal_int(track_id as int) + decimal_int(now as int) + secret
}

/// The parameters of a request for the address of a track's audio file.
pub open spec fn track_url_param_views(
    format_id: AudioQuality,
    track_id: i32,
    now: i64,
    signature: Seq<char>,
) -> Seq<(Seq<char>, Seq<char>)> {
    seq![
        ("request_ts"@, decimal_int(now as int)),
        ("request_sig"@, signature),
        ("track_id"@, decimal_int(track_id as int)),
        ("format_id"@, decimal_nat(format_id.spec_format_id() as nat)),
        ("intent"@, "stream"@),
    ]
}

/// The text that a request for the address of a track's audio file is signed
/// with: fixed words, the format, the track, the time and the secret.
pub fn track_url_signature_text(
    format_id: AudioQuality,
    track_id: i32,
    now: i64,
    secret: &str,
) -> (text: String)
    ensures
        text@ == signature_text(format_id, track_id, now, secret@),
{
    let mut text = String::from_str("trackgetFileUrlformat_id");
    text.append(format_id.to_string().as_str());
    text.append("intentstreamtrack_id");
    text.append(decimal_i64(track_id as i64).as_str());
    text.append(decimal_i64(now).as_str());
    text.append(secret);
    text
}

/// The parameters of a request for the address of a track's audio file,
/// given the signature.
pub fn track_url_params(
    format_id: AudioQuality,
    track_id: i32,
    now: i64,
    signature: &str,
) -> (params: Vec<(String, String)>)
    ensures
        pair_views(params@) == track_url_param_views(format_id, track_id, now, signature@),
{
    let mut params: Vec<(String, String)> = Vec::new();
    params.push(pair("request_ts", decimal_i64(now).as_str()));
    params.push(pair("request_sig", signature));
    params.push(pair("track_id", decimal_i64(track_id as i64).as_str()));
    params.push(pair("format_id", format_id.to_string().as_str()));
    params.push(pair("intent", "stream"));
    assert(pair_views(params@) =~= track_url_param_views(format_id, track_id, now, signature@));
    params
}

impl Client {
    /// The secret that a request is signed with: the one given, else the one
    /// in use.
    pub open spec fn spec_signing_secret(self, sec: Option<String>) -> Option<Seq<char>> {
        match sec {
            Some(secret) => Some(secret@),
            None => match self.active_secret {
                Some(secret) => Some(secret@),
                None => None,
            },
        }
    }

    /// The request for the address of a track's audio file at the time `now`
    /// (seconds since 1970), signed with `sec` or else with the secret in use;
    /// nothing where there is no secret at all. The format is `fmt_id` or else
    /// the default quality.
    pub fn track_url_request(
        &self,
        track_id: i32,
        fmt_id: Option<AudioQuality>,
        sec: Option<String>,
        now: i64,
    ) -> (request: Option<ApiRequest>)
        ensures
            match request {
                Some(request) => {
                    let format_id = match fmt_id {
                        Some(quality) => quality,
                        None => self.default_quality,
                    };
                    &&& self.spec_signing_secret(sec) matches Some(secret)
                    &&& request@ == (ApiRequestView {
                        url: self.base_url@ + Endpoint::TrackURL.spec_path(),
                        params: track_url_param_views(
                            format_id,
                            track_id,
                            now,
                            md5_hex(signature_text(format_id, track_id, now, secret)),
                        ),
                    })
                },
                None => self.spec_signing_secret(sec) is None,
            },
    {
        let format_id = match fmt_id {
            Some(quality) => quality,
            None => self.quality(),
        };
        let text = match &sec {
            Some(secret) => track_url_signature_text(format_id, track_id, now, secret.as_str()),
            None => match &self.active_secret {
                Some(secret) => track_url_signature_text(
                    format_id,
                    track_id,
                    now,
                    secret.as_str(),
                ),
                None => {
                    return None;
                },
            },
        };
        let signature = md5_hex_of(text.as_str());
        let params = track_url_params(format_id, track_id, now, signature.as_str());
        Some(ApiRequest { url: self.endpoint_url(Endpoint::TrackURL), params })
    }
}

/// The track that secrets are tried on.
pub const PROBE_TRACK_ID: i32 = 5966783;

/// The name of the member of the answer to a login that holds the token.
pub const TOKEN_MEMBER: &'static str = "user_auth_token";

/// The text without its first and its last byte; nothing where there are
/// fewer than two bytes or where a cut would split a character.
pub open spec fn unquoted_text(text: Seq<char>) -> Option<Seq<char>> {
    let bytes = encode_utf8(text);
    if bytes.len() >= 2 && is_char_boundary(bytes, 1) && is_char_boundary(bytes, bytes.len() - 1) {
        Some(decode_utf8(bytes.subrange(1, bytes.len() - 1)))
    } else {
        None
    }
}

/// The text without its first and its last byte: a JSON string without its
/// quotation marks.
pub fn unquoted(text: &str) -> (inner: Option<String>)
    ensures
        match inner {
            Some(inner) => unquoted_text(text@) == Some(inner@),
            None => unquoted_text(text@) is None,
        },
{
    broadcast use vstd::utf8::encode_utf8_valid_utf8;
    broadcast use vstd::utf8::encode_utf8_decode_utf8;

    let length = text.as_bytes().len();
    if length < 2 || !text.is_char_boundary(1) || !text.is_char_boundary(length - 1) {
        return None;
    }
    let (front, _) = text.split_at(length - 1);
    proof {
        let bytes = encode_utf8(text@);
        let kept = front.spec_bytes();
        assert(kept == bytes.subrange(0, length - 1));
        if length > 2 {
            vstd::utf8::is_char_boundary_iff_not_is_continuation_byte(bytes, 1);
            vstd::utf8::is_char_boundary_iff_not_is_continuation_byte(kept, 1);
        } else {
            vstd::utf8::is_char_boundary_start_end_of_seq(kept);
        }
    }
    let (_, inner) = front.split_at(1);
    proof {
        assert(inner.spec_bytes() =~= encode_utf8(text@).subrange(1, length - 1));
    }
    Some(String::from_str(inner))
}

/// The token in the answer to a login: the member `user_auth_token` of the
/// JSON document, without the quotation marks round it. Nothing where the
/// answer is not JSON or the member's text cannot be stripped of them.
pub fn login_token(response: &str) -> (token: Option<String>)
    ensures
        match token {
            Some(token) => json_member(response@, TOKEN_MEMBER@) matches Some(text)
                && unquoted_text(text) == Some(token@),
            None => json_member(response@, TOKEN_MEMBER@) matches Some(text) ==> unquoted_text(
                text,
            ) is None,
        },
{
    match json_member_text(response, TOKEN_MEMBER) {
        Ok(text) => unquoted(text.as_str()),
        Err(_) => None,
    }
}

/// The digest under which a password is stored and sent.
pub fn password_digest(password: &str) -> (digest: String)
    ensures
        digest@ == md5_hex(password@),
{
    md5_hex_of(password)
}

/// A copy of a list of secrets.
fn copied_secrets(secrets: &Vec<(String, String)>) -> (copy: Vec<(String, String)>)
    ensures
        copy@ == secrets@,
{
    let mut copy: Vec<(String, String)> = Vec::new();
    let mut i: usize = 0;
    while i < secrets.len()
        invariant
            i <= secrets@.len(),
            copy@ == secrets@.take(i as int),
        decreases secrets@.len() - i,
    {
        copy.push((secrets[i].0.clone(), secrets[i].1.clone()));
        assert(copy@ =~= secrets@.take(i + 1));
        i += 1;
    }
    assert(secrets@.take(i as int) =~= secrets@);
    copy
}

impl Client {
    /// Takes the app id and the secrets from the web player's script
    /// bundle. Where the bundle names no app id, a pattern cannot be compiled
    /// or a secret cannot be decoded, the client stays as it was.
    pub fn read_config(&mut self, bundle: &str) -> (result: Result<(), ConfigError>)
        ensures
            match result {
                Ok(()) => {
                    &&& regex_found(APP_REGEX@, bundle@) matches Some(found)
                    &&& first_group_text(found, 1) matches Some(app_id)
                    &&& final(self).app_id matches Some(taken)
                    &&& taken@ == app_id
                    &&& secrets_with_bundle(secret_views(old(self).secrets@), bundle@) == Ok::<
                        Seq<Secret>,
                        ConfigError,
                    >(secret_views(final(self).secrets@))
                    &&& final(self).active_secret == old(self).active_secret
                    &&& final(self).username == old(self).username
                    &&& final(self).password == old(self).password
                    &&& final(self).base_url == old(self).base_url
                    &&& final(self).default_quality == old(self).default_quality
                    &&& final(self).user_token == old(self).user_token
                },
                Err(error) => {
                    &&& *final(self) == *old(self)
                    &&& match regex_found(APP_REGEX@, bundle@) {
                        None => error == ConfigError::BadPattern,
                        Some(found) => match first_group_text(found, 1) {
                            None => error == ConfigError::NoAppId,
                            Some(app_id) => secrets_with_bundle(
                                secret_views(old(self).secrets@),
                                bundle@,
                            ) == Err::<Seq<Secret>, ConfigError>(error),
                        },
                    }
                },
            },
    {
        let app_id = match app_id_in(bundle) {
            Ok(app_id) => app_id,
            Err(error) => {
                return Err(error);
            },
        };
        let mut secrets = copied_secrets(&self.secrets);
        match remember_bundle(&mut secrets, bundle) {
            Ok(()) => {
                self.app_id = Some(app_id);
                self.secrets = secrets;
                Ok(())
            },
            Err(error) => Err(error),
        }
    }

    /// The request that tries a secret at the time `now`.
    pub fn probe_request(&self, secret: &str, now: i64) -> (request: ApiRequest)
        ensures
            request@ == (ApiRequestView {
                url: self.base_url@ + Endpoint::TrackURL.spec_path(),
                params: track_url_param_views(
                    AudioQuality::Mp3,
                    PROBE_TRACK_ID,
                    now,
                    md5_hex(signature_text(AudioQuality::Mp3, PROBE_TRACK_ID, now, secret@)),
                ),
            }),
    {
        let text = track_url_signature_text(AudioQuality::Mp3, PROBE_TRACK_ID, now, secret);
        let signature = md5_hex_of(text.as_str());
        let params = track_url_params(AudioQuality::Mp3, PROBE_TRACK_ID, now, signature.as_str());
        ApiRequest { url: self.endpoint_url(Endpoint::TrackURL), params }
    }

    /// Takes note of how the catalogue answered the trial of a secret: one
    /// that it accepted is the secret in use from now on.
    pub fn secret_probed(&mut self, secret: String, accepted: bool)
        ensures
            *final(self) == (if accepted {
                Client { active_secret: Some(secret), ..*old(self) }
            } else {
                *old(self)
            }),
    {
        if accepted {
            self.active_secret = Some(secret);
        }
    }
}

} // verus!
