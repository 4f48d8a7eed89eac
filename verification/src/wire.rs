//! The wire form: every notification as a structured message of numbers,
//! texts, lists and records, and back. What is read back from the message of
//! a value is that value.

use crate::actions::Action;
use crate::notification::{Notification, NotificationView, PlayerStatus};
use crate::queue::{
    lemma_position_order, position_order, same_tracks, TrackListType, TrackListValue,
    TrackListView,
};
use crate::service::{same_track, Album, Playlist, Track, TrackStatus};
use crate::text::same_text;
use vstd::prelude::*;
use vstd::std_specs::cmp::PartialEqSpec;
use vstd::string::StringExecFns;

verus! {

/// A structured message.
#[derive(Debug)]
pub enum Wire {
    Null,
    Number(i64),
    Text(String),
    List(Vec<Wire>),
    Record(Vec<Member>),
}

/// A named member of a record.
#[derive(Debug)]
pub struct Member {
    pub name: String,
    pub value: Wire,
}

/// The mathematical content of a structured message.
pub enum WireView {
    Null,
    Number(i64),
    Text(Seq<char>),
    List(Seq<WireView>),
    Record(Seq<(Seq<char>, WireView)>),
}

/// The mathematical content of a structured message.
pub open spec fn wire_view(wire: Wire) -> WireView
    decreases wire,
{
    match wire {
        Wire::Null => WireView::Null,
        Wire::Number(number) => WireView::Number(number),
        Wire::Text(text) => WireView::Text(text@),
        Wire::List(items) => WireView::List(
            Seq::new(
                items@.len(),
                |i: int|
                    if 0 <= i < items@.len() {
                        wire_view(items@[i])
                    } else {
                        WireView::Null
                    },
            ),
        ),
        Wire::Record(members) => WireView::Record(
            Seq::new(
                members@.len(),
                |i: int|
                    if 0 <= i < members@.len() {
                        (members@[i].name@, wire_view(members@[i].value))
                    } else {
                        (Seq::empty(), WireView::Null)
                    },
            ),
        ),
    }
}

impl View for Wire {
    type V = WireView;

    open spec fn view(&self) -> WireView {
        wire_view(*self)
    }
}

/// The contents of the members of a record.
pub open spec fn member_views(members: Seq<Member>) -> Seq<(Seq<char>, WireView)> {
    Seq::new(members.len(), |i: int| (members[i].name@, members[i].value@))
}

/// The contents of the items of a list.
pub open spec fn item_views(items: Seq<Wire>) -> Seq<WireView> {
    Seq::new(items.len(), |i: int| items[i]@)
}

/// The content of a record is made of the contents of its members.
pub proof fn lemma_record_view(members: Vec<Member>)
    ensures
        Wire::Record(members)@ == WireView::Record(member_views(members@)),
{
    let record = wire_view(Wire::Record(members));
    assert(record is Record);
    assert(record->Record_0.len() == members@.len());
    assert forall|i: int| 0 <= i < members@.len() implies record->Record_0[i] == member_views(
        members@,
    )[i] by {}
    assert(record->Record_0 =~= member_views(members@));
}

/// The content of a list is made of the contents of its items.
pub proof fn lemma_list_view(items: Vec<Wire>)
    ensures
        Wire::List(items)@ == WireView::List(item_views(items@)),
{
    let list = wire_view(Wire::List(items));
    assert(list is List);
    assert(list->List_0.len() == items@.len());
    assert forall|i: int| 0 <= i < items@.len() implies list->List_0[i] == item_views(items@)[i] by {}
    assert(list->List_0 =~= item_views(items@));
}

/// The value of the first member of a record that has the given name.
pub open spec fn member_of(members: Seq<(Seq<char>, WireView)>, name: Seq<char>) -> Option<
    WireView,
>
    decreases members.len(),
{
    if members.len() == 0 {
        None
    } else if members[0].0 == name {
        Some(members[0].1)
    } else {
        member_of(members.drop_first(), name)
    }
}

/// The value of the first member of a record that has the given name.
pub fn member<'a>(members: &'a Vec<Member>, name: &str) -> (value: Option<&'a Wire>)
    ensures
        match value {
            Some(found) => member_of(member_views(members@), name@) == Some(found@),
            None => member_of(member_views(members@), name@) is None,
        },
{
    let ghost all = member_views(members@);
    let mut i: usize = 0;
    assert(all.skip(0) =~= all);
    while i < members.len()
        invariant
            i <= members@.len(),
            all == member_views(members@),
            member_of(all, name@) == member_of(all.skip(i as int), name@),
        decreases members@.len() - i,
    {
        proof {
            assert(all.skip(i as int)[0] == all[i as int]);
            assert(all.skip(i as int).drop_first() =~= all.skip(i + 1));
        }
        if same_text(members[i].name.as_str(), name) {
            return Some(&members[i].value);
        }
        i += 1;
    }
    assert(all.skip(i as int).len() == 0);
    None
}

/// A member of a record.
fn named(name: &str, value: Wire) -> (member: Member)
    ensures
        member.name@ == name@,
        member.value == value,
{
    Member { name: String::from_str(name), value }
}

/// A number between 0 and 2^32 - 1 as a message.
pub open spec fn u32_wire(number: u32) -> WireView {
    WireView::Number(number as i64)
}

/// The number between 0 and 2^32 - 1 that a message holds.
pub open spec fn wire_u32(wire: WireView) -> Option<u32> {
    match wire {
        WireView::Number(number) => if 0 <= number <= u32::MAX {
            Some(number as u32)
        } else {
            None
        },
        _ => None,
    }
}

/// The text that a message holds.
pub open spec fn wire_text(wire: WireView) -> Option<Seq<char>> {
    match wire {
        WireView::Text(text) => Some(text),
        _ => None,
    }
}

fn encode_u32(number: u32) -> (wire: Wire)
    ensures
        wire@ == u32_wire(number),
{
    Wire::Number(number as i64)
}

fn decode_u32(wire: &Wire) -> (number: Option<u32>)
    ensures
        number == wire_u32(wire@),
{
    match wire {
        Wire::Number(number) => {
            if 0 <= *number && *number <= u32::MAX as i64 {
                Some(*number as u32)
            } else {
                None
            }
        },
        _ => None,
    }
}

fn encode_text(text: &str) -> (wire: Wire)
    ensures
        wire@ == WireView::Text(text@),
{
    Wire::Text(String::from_str(text))
}

fn decode_text(wire: &Wire) -> (text: Option<String>)
    ensures
        match text {
            Some(text) => wire_text(wire@) == Some(text@),
            None => wire_text(wire@) is None,
        },
{
    match wire {
        Wire::Text(text) => Some(text.clone()),
        _ => None,
    }
}

/// What an album is made of.
pub struct AlbumModel {
    pub id: Seq<char>,
    pub title: Seq<char>,
    pub total_tracks: u32,
}

/// What the album is made of.
pub open spec fn album_model(album: Album) -> AlbumModel {
    AlbumModel { id: album.id@, title: album.title@, total_tracks: album.total_tracks }
}

/// An album as a message.
pub open spec fn album_wire(album: AlbumModel) -> WireView {
    WireView::Record(
        seq![
            ("id"@, WireView::Text(album.id)),
            ("title"@, WireView::Text(album.title)),
            ("total_tracks"@, u32_wire(album.total_tracks)),
        ],
    )
}

/// The album that a message holds.
pub open spec fn wire_album(wire: WireView) -> Option<AlbumModel> {
    match wire {
        WireView::Record(members) => match (
            member_of(members, "id"@),
            member_of(members, "title"@),
            member_of(members, "total_tracks"@),
        ) {
            (Some(WireView::Text(id)), Some(WireView::Text(title)), Some(count)) => match wire_u32(
                count,
            ) {
                Some(total_tracks) => Some(AlbumModel { id, title, total_tracks }),
                None => None,
            },
            _ => None,
        },
        _ => None,
    }
}

/// An album as a message.
pub fn encode_album(album: &Album) -> (wire: Wire)
    ensures
        wire@ == album_wire(album_model(*album)),
{
    let mut members: Vec<Member> = Vec::new();
    members.push(named("id", encode_text(album.id.as_str())));
    members.push(named("title", encode_text(album.title.as_str())));
    members.push(named("total_tracks", encode_u32(album.total_tracks)));
    proof {
        lemma_record_view(members);
        assert(member_views(members@) =~= album_wire(album_model(*album))->Record_0);
    }
    Wire::Record(members)
}

/// The album that a message holds.
pub fn decode_album(wire: &Wire) -> (album: Option<Album>)
    ensures
        match album {
            Some(album) => wire_album(wire@) == Some(album_model(album)),
            None => wire_album(wire@) is None,
        },
{
    match wire {
        Wire::Record(members) => {
            proof {
                lemma_record_view(*members);
            }
            let id = match member(members, "id") {
                Some(found) => decode_text(found),
                None => None,
            };
            let title = match member(members, "title") {
                Some(found) => decode_text(found),
                None => None,
            };
            let total_tracks = match member(members, "total_tracks") {
                Some(found) => decode_u32(found),
                None => None,
            };
            match (id, title, total_tracks) {
                (Some(id), Some(title), Some(total_tracks)) => Some(
                    Album { id, title, total_tracks },
                ),
                _ => None,
            }
        },
        _ => None,
    }
}

/// What is read back from the message of an album is the album.
pub proof fn lemma_album_round_trip(album: AlbumModel)
    ensures
        wire_album(album_wire(album)) == Some(album),
{
    reveal_strlit("id");
    reveal_strlit("title");
    reveal_strlit("total_tracks");
    reveal_with_fuel(member_of, 4);
    assert("id"@.len() == 2);
    assert("title"@.len() == 5);
    assert("total_tracks"@.len() == 12);
}

/// An album or none as a message: the album's record, or nothing.
pub open spec fn optional_album_wire(album: Option<AlbumModel>) -> WireView {
    match album {
        Some(album) => album_wire(album),
        None => WireView::Null,
    }
}

/// The album or none that a message holds.
pub open spec fn wire_optional_album(wire: WireView) -> Option<Option<AlbumModel>> {
    if wire is Null {
        Some(None)
    } else {
        match wire_album(wire) {
            Some(album) => Some(Some(album)),
            None => None,
        }
    }
}

/// What the album, if any, is made of.
pub open spec fn optional_album_model(album: Option<Album>) -> Option<AlbumModel> {
    match album {
        Some(album) => Some(album_model(album)),
        None => None,
    }
}

fn encode_optional_album(album: &Option<Album>) -> (wire: Wire)
    ensures
        wire@ == optional_album_wire(optional_album_model(*album)),
{
    match album {
        Some(album) => encode_album(album),
        None => Wire::Null,
    }
}

fn decode_optional_album(wire: &Wire) -> (album: Option<Option<Album>>)
    ensures
        match album {
            Some(album) => wire_optional_album(wire@) == Some(optional_album_model(album)),
            None => wire_optional_album(wire@) is None,
        },
{
    match wire {
        Wire::Null => Some(None),
        _ => match decode_album(wire) {
            Some(album) => Some(Some(album)),
            None => None,
        },
    }
}

/// What a playlist is made of.
pub struct PlaylistModel {
    pub id: u32,
    pub title: Seq<char>,
    pub tracks_count: u32,
}

/// What the playlist is made of.
pub open spec fn playlist_model(playlist: Playlist) -> PlaylistModel {
    PlaylistModel { id: playlist.id, title: playlist.title@, tracks_count: playlist.tracks_count }
}

/// What the playlist, if any, is made of.
pub open spec fn optional_playlist_model(playlist: Option<Playlist>) -> Option<PlaylistModel> {
    match playlist {
        Some(playlist) => Some(playlist_model(playlist)),
        None => None,
    }
}

/// A playlist as a message.
pub open spec fn playlist_wire(playlist: PlaylistModel) -> WireView {
    WireView::Record(
        seq![
            ("id"@, u32_wire(playlist.id)),
            ("title"@, WireView::Text(playlist.title)),
            ("tracks_count"@, u32_wire(playlist.tracks_count)),
        ],
    )
}

/// The playlist that a message holds.
pub open spec fn wire_playlist(wire: WireView) -> Option<PlaylistModel> {
    match wire {
        WireView::Record(members) => match (
            member_of(members, "id"@),
            member_of(members, "title"@),
            member_of(members, "tracks_count"@),
        ) {
            (Some(id), Some(WireView::Text(title)), Some(count)) => match (
                wire_u32(id),
                wire_u32(count),
            ) {
                (Some(id), Some(tracks_count)) => Some(PlaylistModel { id, title, tracks_count }),
                _ => None,
            },
            _ => None,
        },
        _ => None,
    }
}

/// A playlist or none as a message.
pub open spec fn optional_playlist_wire(playlist: Option<PlaylistModel>) -> WireView {
    match playlist {
        Some(playlist) => playlist_wire(playlist),
        None => WireView::Null,
    }
}

/// The playlist or none that a message holds.
pub open spec fn wire_optional_playlist(wire: WireView) -> Option<Option<PlaylistModel>> {
    if wire is Null {
        Some(None)
    } else {
        match wire_playlist(wire) {
            Some(playlist) => Some(Some(playlist)),
            None => None,
        }
    }
}

/// A playlist as a message.
pub fn encode_playlist(playlist: &Playlist) -> (wire: Wire)
    ensures
        wire@ == playlist_wire(playlist_model(*playlist)),
{
    let mut members: Vec<Member> = Vec::new();
    members.push(named("id", encode_u32(playlist.id)));
    members.push(named("title", encode_text(playlist.title.as_str())));
    members.push(named("tracks_count", encode_u32(playlist.tracks_count)));
    proof {
        lemma_record_view(members);
        assert(member_views(members@) =~= playlist_wire(playlist_model(*playlist))->Record_0);
    }
    Wire::Record(members)
}

/// The playlist that a message holds.
pub fn decode_playlist(wire: &Wire) -> (playlist: Option<Playlist>)
    ensures
        match playlist {
            Some(playlist) => wire_playlist(wire@) == Some(playlist_model(playlist)),
            None => wire_playlist(wire@) is None,
        },
{
    match wire {
        Wire::Record(members) => {
            proof {
                lemma_record_view(*members);
            }
            let id = match member(members, "id") {
                Some(found) => decode_u32(found),
                None => None,
            };
            let title = match member(members, "title") {
                Some(found) => decode_text(found),
                None => None,
            };
            let tracks_count = match member(members, "tracks_count") {
                Some(found) => decode_u32(found),
                None => None,
            };
            match (id, title, tracks_count) {
                (Some(id), Some(title), Some(tracks_count)) => Some(
                    Playlist { id, title, tracks_count },
                ),
                _ => None,
            }
        },
        _ => None,
    }
}

fn encode_optional_playlist(playlist: &Option<Playlist>) -> (wire: Wire)
    ensures
        wire@ == optional_playlist_wire(optional_playlist_model(*playlist)),
{
    match playlist {
        Some(playlist) => encode_playlist(playlist),
        None => Wire::Null,
    }
}

fn decode_optional_playlist(wire: &Wire) -> (playlist: Option<Option<Playlist>>)
    ensures
        match playlist {
            Some(playlist) => wire_optional_playlist(wire@) == Some(
                optional_playlist_model(playlist),
            ),
            None => wire_optional_playlist(wire@) is None,
        },
{
    match wire {
        Wire::Null => Some(None),
        _ => match decode_playlist(wire) {
            Some(playlist) => Some(Some(playlist)),
            None => None,
        },
    }
}

/// What is read back from the message of a playlist is the playlist.
pub proof fn lemma_playlist_round_trip(playlist: PlaylistModel)
    ensures
        wire_playlist(playlist_wire(playlist)) == Some(playlist),
{
    reveal_strlit("id");
    reveal_strlit("title");
    reveal_strlit("tracks_count");
    reveal_with_fuel(member_of, 4);
    assert("id"@.len() == 2);
    assert("title"@.len() == 5);
    assert("tracks_count"@.len() == 12);
}

/// The name of a track's status.
pub open spec fn track_status_name(status: TrackStatus) -> Seq<char> {
    match status {
        TrackStatus::Played => "Played"@,
        TrackStatus::Playing => "Playing"@,
        TrackStatus::Unplayed => "Unplayed"@,
    }
}

/// The status of a track that a name stands for.
pub open spec fn track_status_named(name: Seq<char>) -> Option<TrackStatus> {
    if name == "Played"@ {
        Some(TrackStatus::Played)
    } else if name == "Playing"@ {
        Some(TrackStatus::Playing)
    } else if name == "Unplayed"@ {
        Some(TrackStatus::Unplayed)
    } else {
        None
    }
}

/// The status of a track that a message holds.
pub open spec fn wire_track_status(wire: WireView) -> Option<TrackStatus> {
    match wire {
        WireView::Text(name) => track_status_named(name),
        _ => None,
    }
}

fn encode_track_status(status: TrackStatus) -> (wire: Wire)
    ensures
        wire@ == WireView::Text(track_status_name(status)),
{
    match status {
        TrackStatus::Played => encode_text("Played"),
        TrackStatus::Playing => encode_text("Playing"),
        TrackStatus::Unplayed => encode_text("Unplayed"),
    }
}

fn decode_track_status(wire: &Wire) -> (status: Option<TrackStatus>)
    ensures
        status == wire_track_status(wire@),
{
    match wire {
        Wire::Text(name) => {
            if same_text(name.as_str(), "Played") {
                Some(TrackStatus::Played)
            } else if same_text(name.as_str(), "Playing") {
                Some(TrackStatus::Playing)
            } else if same_text(name.as_str(), "Unplayed") {
                Some(TrackStatus::Unplayed)
            } else {
                None
            }
        },
        _ => None,
    }
}

/// The name of a status of the player.
pub open spec fn player_status_name(status: PlayerStatus) -> Seq<char> {
    match status {
        PlayerStatus::Stopped => "Stopped"@,
        PlayerStatus::Paused => "Paused"@,
        PlayerStatus::Playing => "Playing"@,
        PlayerStatus::Quit => "Quit"@,
    }
}

/// The status of the player that a name stands for.
pub open spec fn player_status_named(name: Seq<char>) -> Option<PlayerStatus> {
    if name == "Stopped"@ {
        Some(PlayerStatus::Stopped)
    } else if name == "Paused"@ {
        Some(PlayerStatus::Paused)
    } else if name == "Playing"@ {
        Some(PlayerStatus::Playing)
    } else if name == "Quit"@ {
        Some(PlayerStatus::Quit)
    } else {
        None
    }
}

/// The status of the player that a message holds.
pub open spec fn wire_player_status(wire: WireView) -> Option<PlayerStatus> {
    match wire {
        WireView::Text(name) => player_status_named(name),
        _ => None,
    }
}

fn encode_player_status(status: PlayerStatus) -> (wire: Wire)
    ensures
        wire@ == WireView::Text(player_status_name(status)),
{
    match status {
        PlayerStatus::Stopped => encode_text("Stopped"),
        PlayerStatus::Paused => encode_text("Paused"),
        PlayerStatus::Playing => encode_text("Playing"),
        PlayerStatus::Quit => encode_text("Quit"),
    }
}

fn decode_player_status(wire: &Wire) -> (status: Option<PlayerStatus>)
    ensures
        status == wire_player_status(wire@),
{
    match wire {
        Wire::Text(name) => {
            if same_text(name.as_str(), "Stopped") {
                Some(PlayerStatus::Stopped)
            } else if same_text(name.as_str(), "Paused") {
                Some(PlayerStatus::Paused)
            } else if same_text(name.as_str(), "Playing") {
                Some(PlayerStatus::Playing)
            } else if same_text(name.as_str(), "Quit") {
                Some(PlayerStatus::Quit)
            } else {
                None
            }
        },
        _ => None,
    }
}

/// What is read back from the name of a status is the status.
pub proof fn lemma_status_round_trip(track: TrackStatus, player: PlayerStatus)
    ensures
        track_status_named(track_status_name(track)) == Some(track),
        player_status_named(player_status_name(player)) == Some(player),
{
    reveal_strlit("Played");
    reveal_strlit("Playing");
    reveal_strlit("Unplayed");
    reveal_strlit("Stopped");
    reveal_strlit("Paused");
    reveal_strlit("Quit");
    assert("Played"@.len() == 6);
    assert("Playing"@.len() == 7);
    assert("Unplayed"@.len() == 8);
    assert("Stopped"@.len() == 7);
    assert("Paused"@.len() == 6);
    assert("Quit"@.len() == 4);
    assert("Stopped"@[0] == 'S');
    assert("Playing"@[0] == 'P');
}

/// The kind of a queue that a message holds; a name that stands for no kind
/// is taken for the unknown kind.
pub open spec fn wire_list_type(wire: WireView) -> Option<TrackListType> {
    match wire {
        WireView::Text(name) => Some(TrackListType::spec_from_name(name)),
        _ => None,
    }
}

fn encode_list_type(list_type: TrackListType) -> (wire: Wire)
    ensures
        wire@ == WireView::Text(list_type.spec_name()),
{
    encode_text(list_type.as_str())
}

fn decode_list_type(wire: &Wire) -> (list_type: Option<TrackListType>)
    ensures
        list_type == wire_list_type(wire@),
{
    match wire {
        Wire::Text(name) => Some(TrackListType::from(name.as_str())),
        _ => None,
    }
}

/// What a track is made of.
pub struct TrackModel {
    pub id: u32,
    pub title: Seq<char>,
    pub duration_seconds: u32,
    pub album: Option<AlbumModel>,
    pub status: TrackStatus,
}

/// What the track is made of.
pub open spec fn track_model(track: Track) -> TrackModel {
    TrackModel {
        id: track.id,
        title: track.title@,
        duration_seconds: track.duration_seconds,
        album: optional_album_model(track.album),
        status: track.status,
    }
}

/// A track as a message.
pub open spec fn track_wire(track: TrackModel) -> WireView {
    WireView::Record(
        seq![
            ("id"@, u32_wire(track.id)),
            ("title"@, WireView::Text(track.title)),
            ("duration_seconds"@, u32_wire(track.duration_seconds)),
            ("album"@, optional_album_wire(track.album)),
            ("status"@, WireView::Text(track_status_name(track.status))),
        ],
    )
}

/// The track that a message holds.
pub open spec fn wire_track(wire: WireView) -> Option<TrackModel> {
    match wire {
        WireView::Record(members) => match (
            member_of(members, "id"@),
            member_of(members, "title"@),
            member_of(members, "duration_seconds"@),
            member_of(members, "album"@),
            member_of(members, "status"@),
        ) {
            (
                Some(id),
                Some(WireView::Text(title)),
                Some(duration),
                Some(album),
                Some(status),
            ) => match (
                wire_u32(id),
                wire_u32(duration),
                wire_optional_album(album),
                wire_track_status(status),
            ) {
                (Some(id), Some(duration_seconds), Some(album), Some(status)) => Some(
                    TrackModel { id, title, duration_seconds, album, status },
                ),
                _ => None,
            },
            _ => None,
        },
        _ => None,
    }
}

/// A track as a message.
pub fn encode_track(track: &Track) -> (wire: Wire)
    ensures
        wire@ == track_wire(track_model(*track)),
{
    let mut members: Vec<Member> = Vec::new();
    members.push(named("id", encode_u32(track.id)));
    members.push(named("title", encode_text(track.title.as_str())));
    members.push(named("duration_seconds", encode_u32(track.duration_seconds)));
    members.push(named("album", encode_optional_album(&track.album)));
    members.push(named("status", encode_track_status(track.status)));
    proof {
        lemma_record_view(members);
        assert(member_views(members@) =~= track_wire(track_model(*track))->Record_0);
    }
    Wire::Record(members)
}

/// The track that a message holds.
pub fn decode_track(wire: &Wire) -> (track: Option<Track>)
    ensures
        match track {
            Some(track) => wire_track(wire@) == Some(track_model(track)),
            None => wire_track(wire@) is None,
        },
{
    match wire {
        Wire::Record(members) => {
            proof {
                lemma_record_view(*members);
            }
            let id = match member(members, "id") {
                Some(found) => decode_u32(found),
                None => None,
            };
            let title = match member(members, "title") {
                Some(found) => decode_text(found),
                None => None,
            };
            let duration = match member(members, "duration_seconds") {
                Some(found) => decode_u32(found),
                None => None,
            };
            let album = match member(members, "album") {
                Some(found) => decode_optional_album(found),
                None => None,
            };
            let status = match member(members, "status") {
                Some(found) => decode_track_status(found),
                None => None,
            };
            match (id, title, duration, album, status) {
                (Some(id), Some(title), Some(duration_seconds), Some(album), Some(status)) => Some(
                    Track { id, title, duration_seconds, album, status },
                ),
                _ => None,
            }
        },
        _ => None,
    }
}

/// What is read back from the message of a track is the track.
pub proof fn lemma_track_round_trip(track: TrackModel)
    ensures
        wire_track(track_wire(track)) == Some(track),
{
    reveal_strlit("id");
    reveal_strlit("title");
    reveal_strlit("duration_seconds");
    reveal_strlit("album");
    reveal_strlit("status");
    reveal_with_fuel(member_of, 6);
    assert("id"@.len() == 2);
    assert("title"@.len() == 5);
    assert("duration_seconds"@.len() == 16);
    assert("album"@.len() == 5);
    assert("status"@.len() == 6);
    assert("title"@[0] == 't');
    assert("album"@[0] == 'a');
    lemma_status_round_trip(track.status, PlayerStatus::Quit);
    match track.album {
        Some(album) => {
            lemma_album_round_trip(album);
        },
        None => {},
    }
}

/// What the tracks of a queue are made of.
pub open spec fn queue_model(queue: Map<u32, Track>) -> Map<u32, TrackModel> {
    Map::new(|position: u32| queue.contains_key(position), |position: u32| track_model(queue[position]))
}

/// An entry of a queue as a message: the position and the track.
pub open spec fn entry_wire(position: u32, track: TrackModel) -> WireView {
    WireView::Record(seq![("position"@, u32_wire(position)), ("track"@, track_wire(track))])
}

/// The entry of a queue that a message holds.
pub open spec fn wire_entry(wire: WireView) -> Option<(u32, TrackModel)> {
    match wire {
        WireView::Record(members) => match (
            member_of(members, "position"@),
            member_of(members, "track"@),
        ) {
            (Some(position), Some(track)) => match (wire_u32(position), wire_track(track)) {
                (Some(position), Some(track)) => Some((position, track)),
                _ => None,
            },
            _ => None,
        },
        _ => None,
    }
}

/// The message of the entry at a position of a queue.
pub open spec fn entry_at(queue: Map<u32, TrackModel>) -> spec_fn(u32) -> WireView {
    |position: u32| entry_wire(position, queue[position])
}

/// The entries of a queue as messages, in the order of the positions.
pub open spec fn queue_entries(queue: Map<u32, TrackModel>) -> Seq<WireView> {
    position_order(queue.dom()).map_values(entry_at(queue))
}

/// The queue made of the first `upto` entries, each put at its position in
/// turn; nothing where one of them is no entry.
pub open spec fn entries_queue(entries: Seq<WireView>, upto: nat) -> Option<Map<u32, TrackModel>>
    decreases upto,
{
    if upto == 0 || upto > entries.len() {
        Some(Map::empty())
    } else {
        match entries_queue(entries, (upto - 1) as nat) {
            Some(before) => match wire_entry(entries[upto - 1]) {
                Some((position, track)) => Some(before.insert(position, track)),
                None => None,
            },
            None => None,
        }
    }
}

/// What a queue with its source is made of.
pub struct TrackListModel {
    pub queue: Map<u32, TrackModel>,
    pub album: Option<AlbumModel>,
    pub playlist: Option<PlaylistModel>,
    pub list_type: TrackListType,
}

/// What the queue with its source is made of.
pub open spec fn track_list_model(list: TrackListView) -> TrackListModel {
    TrackListModel {
        queue: queue_model(list.queue),
        album: optional_album_model(list.album),
        playlist: optional_playlist_model(list.playlist),
        list_type: list.list_type,
    }
}

/// A queue with its source as a message.
pub open spec fn track_list_wire(list: TrackListModel) -> WireView {
    WireView::Record(
        seq![
            ("queue"@, WireView::List(queue_entries(list.queue))),
            ("album"@, optional_album_wire(list.album)),
            ("playlist"@, optional_playlist_wire(list.playlist)),
            ("list_type"@, WireView::Text(list.list_type.spec_name())),
        ],
    )
}

/// The queue with its source that a message holds.
pub open spec fn wire_track_list(wire: WireView) -> Option<TrackListModel> {
    match wire {
        WireView::Record(members) => match (
            member_of(members, "queue"@),
            member_of(members, "album"@),
            member_of(members, "playlist"@),
            member_of(members, "list_type"@),
        ) {
            (Some(WireView::List(entries)), Some(album), Some(playlist), Some(list_type)) => match (
                entries_queue(entries, entries.len()),
                wire_optional_album(album),
                wire_optional_playlist(playlist),
                wire_list_type(list_type),
            ) {
                (Some(queue), Some(album), Some(playlist), Some(list_type)) => Some(
                    TrackListModel { queue, album, playlist, list_type },
                ),
                _ => None,
            },
            _ => None,
        },
        _ => None,
    }
}

/// What a notification is made of.
pub enum NotificationModel {
    CurrentTrackList { list: TrackListModel },
    Position { clock: u32 },
    Status { status: PlayerStatus },
    Quit,
}

/// What the notification is made of.
pub open spec fn notification_model(notification: NotificationView) -> NotificationModel {
    match notification {
        NotificationView::CurrentTrackList { list } => NotificationModel::CurrentTrackList {
            list: track_list_model(list),
        },
        NotificationView::Position { clock } => NotificationModel::Position { clock },
        NotificationView::Status { status } => NotificationModel::Status { status },
        NotificationView::Quit => NotificationModel::Quit,
    }
}

/// A notification as a message: a record that names the kind of the
/// notification and holds what belongs to it.
pub open spec fn notification_wire(notification: NotificationModel) -> WireView {
    match notification {
        NotificationModel::CurrentTrackList { list } => WireView::Record(
            seq![
                ("type"@, WireView::Text("currentTrackList"@)),
                ("list"@, track_list_wire(list)),
            ],
        ),
        NotificationModel::Position { clock } => WireView::Record(
            seq![("type"@, WireView::Text("position"@)), ("clock"@, u32_wire(clock))],
        ),
        NotificationModel::Status { status } => WireView::Record(
            seq![
                ("type"@, WireView::Text("status"@)),
                ("status"@, WireView::Text(player_status_name(status))),
            ],
        ),
        NotificationModel::Quit => WireView::Record(seq![("type"@, WireView::Text("quit"@))]),
    }
}

/// The notification that a message holds.
pub open spec fn wire_notification(wire: WireView) -> Option<NotificationModel> {
    match wire {
        WireView::Record(members) => match member_of(members, "type"@) {
            Some(WireView::Text(kind)) => if kind == "currentTrackList"@ {
                match member_of(members, "list"@) {
                    Some(list) => match wire_track_list(list) {
                        Some(list) => Some(NotificationModel::CurrentTrackList { list }),
                        None => None,
                    },
                    None => None,
                }
            } else if kind == "position"@ {
                match member_of(members, "clock"@) {
                    Some(clock) => match wire_u32(clock) {
                        Some(clock) => Some(NotificationModel::Position { clock }),
                        None => None,
                    },
                    None => None,
                }
            } else if kind == "status"@ {
                match member_of(members, "status"@) {
                    Some(status) => match wire_player_status(status) {
                        Some(status) => Some(NotificationModel::Status { status }),
                        None => None,
                    },
                    None => None,
                }
            } else if kind == "quit"@ {
                Some(NotificationModel::Quit)
            } else {
                None
            },
            _ => None,
        },
        _ => None,
    }
}

/// The entries of a queue as messages, in the order of the positions.
fn encode_queue(list: &TrackListValue) -> (wire: Wire)
    ensures
        wire@ == WireView::List(queue_entries(queue_model(list.queue@))),
{
    let positions = list.positions();
    let ghost queue = queue_model(list.queue@);
    let ghost order = position_order(list.queue@.dom());
    proof {
        lemma_position_order(list.queue@.dom());
        assert(queue.dom() =~= list.queue@.dom());
    }
    let mut items: Vec<Wire> = Vec::new();
    let mut i: usize = 0;
    while i < positions.len()
        invariant
            i <= positions@.len(),
            positions@ == order,
            order == position_order(list.queue@.dom()),
            queue == queue_model(list.queue@),
            forall|j: int| 0 <= j < order.len() ==> list.queue@.contains_key(#[trigger] order[j]),
            items@.len() == i,
            forall|j: int| 0 <= j < i ==> (#[trigger] items@[j])@ == entry_wire(order[j], queue[order[j]]),
        decreases positions@.len() - i,
    {
        let position = positions[i];
        assert(list.queue@.contains_key(order[i as int]));
        match list.find_track_by_index(position) {
            Some(track) => {
                let mut members: Vec<Member> = Vec::new();
                members.push(named("position", encode_u32(position)));
                members.push(named("track", encode_track(track)));
                proof {
                    lemma_record_view(members);
                    assert(member_views(members@) =~= entry_wire(
                        position,
                        track_model(*track),
                    )->Record_0);
                }
                items.push(Wire::Record(members));
            },
            None => {
                items.push(Wire::Null);
            },
        }
        i += 1;
    }
    proof {
        lemma_list_view(items);
        assert(item_views(items@) =~= queue_entries(queue)) by {
            assert(queue_entries(queue).len() == order.len());
            assert forall|j: int| 0 <= j < items@.len() implies item_views(items@)[j]
                == queue_entries(queue)[j] by {
                assert(items@[j]@ == entry_wire(order[j], queue[order[j]]));
            }
        }
    }
    Wire::List(items)
}

/// A queue with its source as a message.
pub fn encode_track_list(list: &TrackListValue) -> (wire: Wire)
    ensures
        wire@ == track_list_wire(track_list_model(list@)),
{
    let mut members: Vec<Member> = Vec::new();
    members.push(named("queue", encode_queue(list)));
    members.push(named("album", encode_optional_album(&list.album)));
    members.push(named("playlist", encode_optional_playlist(&list.playlist)));
    members.push(named("list_type", encode_list_type(list.list_type)));
    proof {
        lemma_record_view(members);
        assert(member_views(members@) =~= track_list_wire(track_list_model(list@))->Record_0);
    }
    Wire::Record(members)
}

/// The entry of a queue that a message holds.
fn decode_entry(wire: &Wire) -> (entry: Option<(u32, Track)>)
    ensures
        match entry {
            Some((position, track)) => wire_entry(wire@) == Some((position, track_model(track))),
            None => wire_entry(wire@) is None,
        },
{
    match wire {
        Wire::Record(members) => {
            proof {
                lemma_record_view(*members);
            }
            let position = match member(members, "position") {
                Some(found) => decode_u32(found),
                None => None,
            };
            let track = match member(members, "track") {
                Some(found) => decode_track(found),
                None => None,
            };
            match (position, track) {
                (Some(position), Some(track)) => Some((position, track)),
                _ => None,
            }
        },
        _ => None,
    }
}

/// An error among the entries stays the error of the whole.
proof fn lemma_entries_error_stays(entries: Seq<WireView>, at: nat, upto: nat)
    requires
        at <= upto <= entries.len(),
        entries_queue(entries, at) is None,
    ensures
        entries_queue(entries, upto) is None,
    decreases upto,
{
    if at < upto {
        lemma_entries_error_stays(entries, at, (upto - 1) as nat);
    }
}

/// The queue with its source that a message holds.
pub fn decode_track_list(wire: &Wire) -> (list: Option<TrackListValue>)
    ensures
        match list {
            Some(list) => wire_track_list(wire@) == Some(track_list_model(list@)),
            None => wire_track_list(wire@) is None,
        },
{
    let members = match wire {
        Wire::Record(members) => members,
        _ => {
            return None;
        },
    };
    proof {
        lemma_record_view(*members);
    }
    let album = match member(members, "album") {
        Some(found) => decode_optional_album(found),
        None => None,
    };
    let playlist = match member(members, "playlist") {
        Some(found) => decode_optional_playlist(found),
        None => None,
    };
    let list_type = match member(members, "list_type") {
        Some(found) => decode_list_type(found),
        None => None,
    };
    let items = match member(members, "queue") {
        Some(Wire::List(items)) => items,
        _ => {
            return None;
        },
    };
    proof {
        lemma_list_view(*items);
    }
    let ghost entries = item_views(items@);
    let mut list = TrackListValue::new(None);
    let mut i: usize = 0;
    assert(queue_model(list.queue@) =~= Map::<u32, TrackModel>::empty());
    while i < items.len()
        invariant
            i <= items@.len(),
            entries == item_views(items@),
            wire@ matches WireView::Record(all) && member_of(all, "queue"@) == Some(
                WireView::List(entries),
            ),
            entries_queue(entries, i as nat) == Some(queue_model(list.queue@)),
            list.album is None,
            list.playlist is None,
        decreases items@.len() - i,
    {
        match decode_entry(&items[i]) {
            Some((position, track)) => {
                let ghost before = list.queue@;
                list.insert_track(position, track);
                proof {
                    assert(queue_model(list.queue@) =~= queue_model(before).insert(
                        position,
                        track_model(track),
                    ));
                }
            },
            None => {
                proof {
                    assert(entries_queue(entries, (i + 1) as nat) is None);
                    lemma_entries_error_stays(entries, (i + 1) as nat, entries.len());
                }
                return None;
            },
        }
        i += 1;
    }
    match (album, playlist, list_type) {
        (Some(album), Some(playlist), Some(list_type)) => {
            list.album = album;
            list.playlist = playlist;
            list.list_type = list_type;
            Some(list)
        },
        _ => None,
    }
}

/// A notification as a message.
pub fn encode_notification(notification: &Notification) -> (wire: Wire)
    ensures
        wire@ == notification_wire(notification_model(notification@)),
{
    let mut members: Vec<Member> = Vec::new();
    match notification {
        Notification::CurrentTrackList { list } => {
            members.push(named("type", encode_text("currentTrackList")));
            members.push(named("list", encode_track_list(list)));
        },
        Notification::Position { clock } => {
            members.push(named("type", encode_text("position")));
            members.push(named("clock", encode_u32(*clock)));
        },
        Notification::Status { status } => {
            members.push(named("type", encode_text("status")));
            members.push(named("status", encode_player_status(*status)));
        },
        Notification::Quit => {
            members.push(named("type", encode_text("quit")));
        },
    }
    proof {
        lemma_record_view(members);
        assert(member_views(members@) =~= notification_wire(
            notification_model(notification@),
        )->Record_0);
    }
    Wire::Record(members)
}

/// The notification that a message holds.
pub fn decode_notification(wire: &Wire) -> (notification: Option<Notification>)
    ensures
        match notification {
            Some(notification) => wire_notification(wire@) == Some(
                notification_model(notification@),
            ),
            None => wire_notification(wire@) is None,
        },
{
    let members = match wire {
        Wire::Record(members) => members,
        _ => {
            return None;
        },
    };
    proof {
        lemma_record_view(*members);
    }
    let kind = match member(members, "type") {
        Some(Wire::Text(kind)) => kind,
        _ => {
            return None;
        },
    };
    if same_text(kind.as_str(), "currentTrackList") {
        match member(members, "list") {
            Some(found) => match decode_track_list(found) {
                Some(list) => Some(Notification::CurrentTrackList { list }),
                None => None,
            },
            None => None,
        }
    } else if same_text(kind.as_str(), "position") {
        match member(members, "clock") {
            Some(found) => match decode_u32(found) {
                Some(clock) => Some(Notification::Position { clock }),
                None => None,
            },
            None => None,
        }
    } else if same_text(kind.as_str(), "status") {
        match member(members, "status") {
            Some(found) => match decode_player_status(found) {
                Some(status) => Some(Notification::Status { status }),
                None => None,
            },
            None => None,
        }
    } else if same_text(kind.as_str(), "quit") {
        Some(Notification::Quit)
    } else {
        None
    }
}

/// What is read back from the message of an entry is the entry.
pub proof fn lemma_entry_round_trip(position: u32, track: TrackModel)
    ensures
        wire_entry(entry_wire(position, track)) == Some((position, track)),
{
    reveal_strlit("position");
    reveal_strlit("track");
    reveal_with_fuel(member_of, 3);
    assert("position"@.len() == 8);
    assert("track"@.len() == 5);
    lemma_track_round_trip(track);
}

/// The part of a queue at the first `upto` of its positions.
spec fn queue_front(queue: Map<u32, TrackModel>, upto: int) -> Map<u32, TrackModel> {
    Map::new(
        |position: u32| position_order(queue.dom()).take(upto).contains(position),
        |position: u32| queue[position],
    )
}

proof fn lemma_queue_front(queue: Map<u32, TrackModel>, upto: nat)
    requires
        upto <= position_order(queue.dom()).len(),
    ensures
        entries_queue(queue_entries(queue), upto) == Some(queue_front(queue, upto as int)),
    decreases upto,
{
    let order = position_order(queue.dom());
    let entries = queue_entries(queue);
    if upto == 0 {
        assert(queue_front(queue, 0) =~= Map::<u32, TrackModel>::empty());
    } else {
        lemma_queue_front(queue, (upto - 1) as nat);
        let position = order[upto - 1];
        lemma_entry_round_trip(position, queue[position]);
        assert(entries[upto - 1] == entry_wire(position, queue[position]));
        let before = queue_front(queue, upto - 1);
        let after = queue_front(queue, upto as int);
        let shorter = order.take(upto - 1);
        let longer = order.take(upto as int);
        assert forall|other: u32| after.contains_key(other) <==> before.insert(
            position,
            queue[position],
        ).contains_key(other) by {
            if longer.contains(other) {
                let j = choose|j: int| 0 <= j < longer.len() && longer[j] == other;
                if j < upto - 1 {
                    assert(shorter[j] == other);
                }
            }
            if shorter.contains(other) {
                let j = choose|j: int| 0 <= j < shorter.len() && shorter[j] == other;
                assert(longer[j] == other);
            }
            if other == position {
                assert(longer[upto - 1] == other);
            }
        }
        assert(after =~= before.insert(position, queue[position]));
    }
}

/// What is read back from the messages of the entries of a queue is the
/// queue.
pub proof fn lemma_queue_round_trip(queue: Map<u32, TrackModel>)
    ensures
        entries_queue(queue_entries(queue), queue_entries(queue).len()) == Some(queue),
{
    let order = position_order(queue.dom());
    lemma_position_order(queue.dom());
    lemma_queue_front(queue, order.len());
    assert(order.take(order.len() as int) =~= order);
    assert(queue_front(queue, order.len() as int) =~= queue);
}

/// What is read back from the message of a queue with its source is that
/// queue with its source.
pub proof fn lemma_track_list_round_trip(list: TrackListModel)
    ensures
        wire_track_list(track_list_wire(list)) == Some(list),
{
    reveal_strlit("queue");
    reveal_strlit("album");
    reveal_strlit("playlist");
    reveal_strlit("list_type");
    reveal_with_fuel(member_of, 5);
    assert("queue"@.len() == 5);
    assert("album"@.len() == 5);
    assert("playlist"@.len() == 8);
    assert("list_type"@.len() == 9);
    assert("queue"@[0] == 'q');
    assert("album"@[0] == 'a');
    lemma_queue_round_trip(list.queue);
    match list.album {
        Some(album) => {
            lemma_album_round_trip(album);
        },
        None => {},
    }
    match list.playlist {
        Some(playlist) => {
            lemma_playlist_round_trip(playlist);
        },
        None => {},
    }
    TrackListType::lemma_name_round_trip(list.list_type);
}

/// What is read back from the message of a notification is the
/// notification.
pub proof fn lemma_notification_round_trip(notification: NotificationModel)
    ensures
        wire_notification(notification_wire(notification)) == Some(notification),
{
    reveal_strlit("type");
    reveal_strlit("list");
    reveal_strlit("clock");
    reveal_strlit("status");
    reveal_strlit("currentTrackList");
    reveal_strlit("position");
    reveal_strlit("quit");
    reveal_with_fuel(member_of, 3);
    assert("type"@.len() == 4);
    assert("list"@.len() == 4);
    assert("clock"@.len() == 5);
    assert("status"@.len() == 6);
    assert("currentTrackList"@.len() == 16);
    assert("position"@.len() == 8);
    assert("quit"@.len() == 4);
    assert("type"@[0] == 't');
    assert("list"@[0] == 'l');
    match notification {
        NotificationModel::CurrentTrackList { list } => {
            lemma_track_list_round_trip(list);
        },
        NotificationModel::Position { clock } => {},
        NotificationModel::Status { status } => {
            lemma_status_round_trip(TrackStatus::Played, status);
        },
        NotificationModel::Quit => {},
    }
}

/// A whole number as a message.
pub open spec fn i64_wire(number: i64) -> WireView {
    WireView::Number(number)
}

/// The whole number that a message holds.
pub open spec fn wire_i64(wire: WireView) -> Option<i64> {
    match wire {
        WireView::Number(number) => Some(number),
        _ => None,
    }
}

/// The number between -2^31 and 2^31 - 1 that a message holds.
pub open spec fn wire_i32(wire: WireView) -> Option<i32> {
    match wire {
        WireView::Number(number) => if i32::MIN <= number <= i32::MAX {
            Some(number as i32)
        } else {
            None
        },
        _ => None,
    }
}

fn decode_i64(wire: &Wire) -> (number: Option<i64>)
    ensures
        number == wire_i64(wire@),
{
    match wire {
        Wire::Number(number) => Some(*number),
        _ => None,
    }
}

fn decode_i32(wire: &Wire) -> (number: Option<i32>)
    ensures
        number == wire_i32(wire@),
{
    match wire {
        Wire::Number(number) => {
            if i32::MIN as i64 <= *number && *number <= i32::MAX as i64 {
                Some(*number as i32)
            } else {
                None
            }
        },
        _ => None,
    }
}

/// A record that names a kind and holds nothing else.
pub open spec fn tag_wire(kind: Seq<char>) -> WireView {
    WireView::Record(seq![("type"@, WireView::Text(kind))])
}

/// A record that names a kind and holds one member besides.
pub open spec fn tagged_wire(kind: Seq<char>, name: Seq<char>, value: WireView) -> WireView {
    WireView::Record(seq![("type"@, WireView::Text(kind)), (name, value)])
}

fn encode_tag(kind: &str) -> (wire: Wire)
    ensures
        wire@ == tag_wire(kind@),
{
    let mut members: Vec<Member> = Vec::new();
    members.push(named("type", encode_text(kind)));
    proof {
        lemma_record_view(members);
        assert(member_views(members@) =~= tag_wire(kind@)->Record_0);
    }
    Wire::Record(members)
}

fn encode_tagged(kind: &str, name: &str, value: Wire) -> (wire: Wire)
    ensures
        wire@ == tagged_wire(kind@, name@, value@),
{
    let mut members: Vec<Member> = Vec::new();
    members.push(named("type", encode_text(kind)));
    members.push(named(name, value));
    proof {
        lemma_record_view(members);
        assert(member_views(members@) =~= tagged_wire(kind@, name@, value@)->Record_0);
    }
    Wire::Record(members)
}

/// What an action is made of.
pub enum ActionModel {
    Play,
    Pause,
    PlayPause,
    Next,
    Previous,
    Stop,
    Quit,
    SkipTo { num: u32 },
    JumpForward,
    JumpBackward,
    PlayAlbum { album_id: Seq<char> },
    PlayTrack { track_id: i32 },
    PlayUri { uri: Seq<char> },
    PlayPlaylist { playlist_id: i64 },
    Search { query: Seq<char> },
    FetchArtistAlbums { artist_id: i32 },
    FetchPlaylistTracks { playlist_id: i64 },
    FetchUserPlaylists,
}

/// What the action is made of.
pub open spec fn action_model(action: Action) -> ActionModel {
    match action {
        Action::Play => ActionModel::Play,
        Action::Pause => ActionModel::Pause,
        Action::PlayPause => ActionModel::PlayPause,
        Action::Next => ActionModel::Next,
        Action::Previous => ActionModel::Previous,
        Action::Stop => ActionModel::Stop,
        Action::Quit => ActionModel::Quit,
        Action::SkipTo { num } => ActionModel::SkipTo { num: num },
        Action::JumpForward => ActionModel::JumpForward,
        Action::JumpBackward => ActionModel::JumpBackward,
        Action::PlayAlbum { album_id } => ActionModel::PlayAlbum { album_id: album_id@ },
        Action::PlayTrack { track_id } => ActionModel::PlayTrack { track_id: track_id },
        Action::PlayUri { uri } => ActionModel::PlayUri { uri: uri@ },
        Action::PlayPlaylist { playlist_id } => ActionModel::PlayPlaylist { playlist_id: playlist_id },
        Action::Search { query } => ActionModel::Search { query: query@ },
        Action::FetchArtistAlbums { artist_id } => ActionModel::FetchArtistAlbums { artist_id: artist_id },
        Action::FetchPlaylistTracks { playlist_id } => ActionModel::FetchPlaylistTracks { playlist_id: playlist_id },
        Action::FetchUserPlaylists => ActionModel::FetchUserPlaylists,
    }
}

/// An action as a message: a record that names the kind of the action and
/// holds what belongs to it.
pub open spec fn action_wire(action: ActionModel) -> WireView {
    match action {
        ActionModel::Play => tag_wire("play"@),
        ActionModel::Pause => tag_wire("pause"@),
        ActionModel::PlayPause => tag_wire("playPause"@),
        ActionModel::Next => tag_wire("next"@),
        ActionModel::Previous => tag_wire("previous"@),
        ActionModel::Stop => tag_wire("stop"@),
        ActionModel::Quit => tag_wire("quit"@),
        ActionModel::SkipTo { num } => tagged_wire("skipTo"@, "num"@, u32_wire(num)),
        ActionModel::JumpForward => tag_wire("jumpForward"@),
        ActionModel::JumpBackward => tag_wire("jumpBackward"@),
        ActionModel::PlayAlbum { album_id } => tagged_wire("playAlbum"@, "album_id"@, WireView::Text(album_id)),
        ActionModel::PlayTrack { track_id } => tagged_wire("playTrack"@, "track_id"@, i64_wire(track_id as i64)),
        ActionModel::PlayUri { uri } => tagged_wire("playUri"@, "uri"@, WireView::Text(uri)),
        ActionModel::PlayPlaylist { playlist_id } => tagged_wire("playPlaylist"@, "playlist_id"@, i64_wire(playlist_id as i64)),
        ActionModel::Search { query } => tagged_wire("search"@, "query"@, WireView::Text(query)),
        ActionModel::FetchArtistAlbums { artist_id } => tagged_wire("fetchArtistAlbums"@, "artist_id"@, i64_wire(artist_id as i64)),
        ActionModel::FetchPlaylistTracks { playlist_id } => tagged_wire("fetchPlaylistTracks"@, "playlist_id"@, i64_wire(playlist_id as i64)),
        ActionModel::FetchUserPlaylists => tag_wire("fetchUserPlaylists"@),
    }
}

/// The action of the kind `kind` that the members of a record hold.
pub open spec fn members_action(kind: Seq<char>, members: Seq<(Seq<char>, WireView)>) -> Option<
    ActionModel,
> {
    if kind == "play"@ {
        Some(ActionModel::Play)
    } else if kind == "pause"@ {
        Some(ActionModel::Pause)
    } else if kind == "playPause"@ {
        Some(ActionModel::PlayPause)
    } else if kind == "next"@ {
        Some(ActionModel::Next)
    } else if kind == "previous"@ {
        Some(ActionModel::Previous)
    } else if kind == "stop"@ {
        Some(ActionModel::Stop)
    } else if kind == "quit"@ {
        Some(ActionModel::Quit)
    } else if kind == "skipTo"@ {
        match member_of(members, "num"@) {
            Some(value) => match wire_u32(value) {
                Some(num) => Some(ActionModel::SkipTo { num }),
                None => None,
            },
            None => None,
        }
    } else if kind == "jumpForward"@ {
        Some(ActionModel::JumpForward)
    } else if kind == "jumpBackward"@ {
        Some(ActionModel::JumpBackward)
    } else if kind == "playAlbum"@ {
        match member_of(members, "album_id"@) {
            Some(value) => match wire_text(value) {
                Some(album_id) => Some(ActionModel::PlayAlbum { album_id }),
                None => None,
            },
            None => None,
        }
    } else if kind == "playTrack"@ {
        match member_of(members, "track_id"@) {
            Some(value) => match wire_i32(value) {
                Some(track_id) => Some(ActionModel::PlayTrack { track_id }),
                None => None,
            },
            None => None,
        }
    } else if kind == "playUri"@ {
        match member_of(members, "uri"@) {
            Some(value) => match wire_text(value) {
                Some(uri) => Some(ActionModel::PlayUri { uri }),
                None => None,
            },
            None => None,
        }
    } else if kind == "playPlaylist"@ {
        match member_of(members, "playlist_id"@) {
            Some(value) => match wire_i64(value) {
                Some(playlist_id) => Some(ActionModel::PlayPlaylist { playlist_id }),
                None => None,
            },
            None => None,
        }
    } else if kind == "search"@ {
        match member_of(members, "query"@) {
            Some(value) => match wire_text(value) {
                Some(query) => Some(ActionModel::Search { query }),
                None => None,
            },
            None => None,
        }
    } else if kind == "fetchArtistAlbums"@ {
        match member_of(members, "artist_id"@) {
            Some(value) => match wire_i32(value) {
                Some(artist_id) => Some(ActionModel::FetchArtistAlbums { artist_id }),
                None => None,
            },
            None => None,
        }
    } else if kind == "fetchPlaylistTracks"@ {
        match member_of(members, "playlist_id"@) {
            Some(value) => match wire_i64(value) {
                Some(playlist_id) => Some(ActionModel::FetchPlaylistTracks { playlist_id }),
                None => None,
            },
            None => None,
        }
    } else if kind == "fetchUserPlaylists"@ {
        Some(ActionModel::FetchUserPlaylists)
    } else {
        None
    }
}

/// The action that a message holds.
pub open spec fn wire_action(wire: WireView) -> Option<ActionModel> {
    match wire {
        WireView::Record(members) => match member_of(members, "type"@) {
            Some(WireView::Text(kind)) => members_action(kind, members),
            _ => None,
        },
        _ => None,
    }
}

/// An action as a message.
pub fn encode_action(action: &Action) -> (wire: Wire)
    ensures
        wire@ == action_wire(action_model(*action)),
{
    match action {
        Action::Play => encode_tag("play"),
        Action::Pause => encode_tag("pause"),
        Action::PlayPause => encode_tag("playPause"),
        Action::Next => encode_tag("next"),
        Action::Previous => encode_tag("previous"),
        Action::Stop => encode_tag("stop"),
        Action::Quit => encode_tag("quit"),
        Action::SkipTo { num } => encode_tagged("skipTo", "num", encode_u32(*num)),
        Action::JumpForward => encode_tag("jumpForward"),
        Action::JumpBackward => encode_tag("jumpBackward"),
        Action::PlayAlbum { album_id } => encode_tagged("playAlbum", "album_id", encode_text(album_id.as_str())),
        Action::PlayTrack { track_id } => encode_tagged("playTrack", "track_id", Wire::Number(*track_id as i64)),
        Action::PlayUri { uri } => encode_tagged("playUri", "uri", encode_text(uri.as_str())),
        Action::PlayPlaylist { playlist_id } => encode_tagged("playPlaylist", "playlist_id", Wire::Number(*playlist_id)),
        Action::Search { query } => encode_tagged("search", "query", encode_text(query.as_str())),
        Action::FetchArtistAlbums { artist_id } => encode_tagged("fetchArtistAlbums", "artist_id", Wire::Number(*artist_id as i64)),
        Action::FetchPlaylistTracks { playlist_id } => encode_tagged("fetchPlaylistTracks", "playlist_id", Wire::Number(*playlist_id)),
        Action::FetchUserPlaylists => encode_tag("fetchUserPlaylists"),
    }
}

/// The action that a message holds.
pub fn decode_action(wire: &Wire) -> (action: Option<Action>)
    ensures
        match action {
            Some(action) => wire_action(wire@) == Some(action_model(action)),
            None => wire_action(wire@) is None,
        },
{
    let members = match wire {
        Wire::Record(members) => members,
        _ => {
            return None;
        },
    };
    proof {
        lemma_record_view(*members);
    }
    let kind = match member(members, "type") {
        Some(Wire::Text(kind)) => kind.as_str(),
        _ => {
            return None;
        },
    };
    if same_text(kind, "play") {
        Some(Action::Play)
    } else if same_text(kind, "pause") {
        Some(Action::Pause)
    } else if same_text(kind, "playPause") {
        Some(Action::PlayPause)
    } else if same_text(kind, "next") {
        Some(Action::Next)
    } else if same_text(kind, "previous") {
        Some(Action::Previous)
    } else if same_text(kind, "stop") {
        Some(Action::Stop)
    } else if same_text(kind, "quit") {
        Some(Action::Quit)
    } else if same_text(kind, "skipTo") {
        match member(members, "num") {
            Some(value) => match decode_u32(value) {
                Some(num) => Some(Action::SkipTo { num }),
                None => None,
            },
            None => None,
        }
    } else if same_text(kind, "jumpForward") {
        Some(Action::JumpForward)
    } else if same_text(kind, "jumpBackward") {
        Some(Action::JumpBackward)
    } else if same_text(kind, "playAlbum") {
        match member(members, "album_id") {
            Some(value) => match decode_text(value) {
                Some(album_id) => Some(Action::PlayAlbum { album_id }),
                None => None,
            },
            None => None,
        }
    } else if same_text(kind, "playTrack") {
        match member(members, "track_id") {
            Some(value) => match decode_i32(value) {
                Some(track_id) => Some(Action::PlayTrack { track_id }),
                None => None,
            },
            None => None,
        }
    } else if same_text(kind, "playUri") {
        match member(members, "uri") {
            Some(value) => match decode_text(value) {
                Some(uri) => Some(Action::PlayUri { uri }),
                None => None,
            },
            None => None,
        }
    } else if same_text(kind, "playPlaylist") {
        match member(members, "playlist_id") {
            Some(value) => match decode_i64(value) {
                Some(playlist_id) => Some(Action::PlayPlaylist { playlist_id }),
                None => None,
            },
            None => None,
        }
    } else if same_text(kind, "search") {
        match member(members, "query") {
            Some(value) => match decode_text(value) {
                Some(query) => Some(Action::Search { query }),
                None => None,
            },
            None => None,
        }
    } else if same_text(kind, "fetchArtistAlbums") {
        match member(members, "artist_id") {
            Some(value) => match decode_i32(value) {
                Some(artist_id) => Some(Action::FetchArtistAlbums { artist_id }),
                None => None,
            },
            None => None,
        }
    } else if same_text(kind, "fetchPlaylistTracks") {
        match member(members, "playlist_id") {
            Some(value) => match decode_i64(value) {
                Some(playlist_id) => Some(Action::FetchPlaylistTracks { playlist_id }),
                None => None,
            },
            None => None,
        }
    } else if same_text(kind, "fetchUserPlaylists") {
        Some(Action::FetchUserPlaylists)
    } else {
        None
    }
}

/// What is read back from the message of an action is the action.
pub proof fn lemma_action_round_trip(action: ActionModel)
    ensures
        wire_action(action_wire(action)) == Some(action),
{
    reveal_strlit("type");
    reveal_strlit("play");
    reveal_strlit("pause");
    reveal_strlit("playPause");
    reveal_strlit("next");
    reveal_strlit("previous");
    reveal_strlit("stop");
    reveal_strlit("quit");
    reveal_strlit("skipTo");
    reveal_strlit("jumpForward");
    reveal_strlit("jumpBackward");
    reveal_strlit("playAlbum");
    reveal_strlit("playTrack");
    reveal_strlit("playUri");
    reveal_strlit("playPlaylist");
    reveal_strlit("search");
    reveal_strlit("fetchArtistAlbums");
    reveal_strlit("fetchPlaylistTracks");
    reveal_strlit("fetchUserPlaylists");
    reveal_strlit("album_id");
    reveal_strlit("artist_id");
    reveal_strlit("num");
    reveal_strlit("playlist_id");
    reveal_strlit("query");
    reveal_strlit("track_id");
    reveal_strlit("uri");
    reveal_with_fuel(member_of, 3);
    assert("type"@.len() == 4);
    assert("play"@.len() == 4);
    assert("pause"@.len() == 5);
    assert("playPause"@.len() == 9);
    assert("next"@.len() == 4);
    assert("previous"@.len() == 8);
    assert("stop"@.len() == 4);
    assert("quit"@.len() == 4);
    assert("skipTo"@.len() == 6);
    assert("jumpForward"@.len() == 11);
    assert("jumpBackward"@.len() == 12);
    assert("playAlbum"@.len() == 9);
    assert("playTrack"@.len() == 9);
    assert("playUri"@.len() == 7);
    assert("playPlaylist"@.len() == 12);
    assert("search"@.len() == 6);
    assert("fetchArtistAlbums"@.len() == 17);
    assert("fetchPlaylistTracks"@.len() == 19);
    assert("fetchUserPlaylists"@.len() == 18);
    assert("album_id"@.len() == 8);
    assert("artist_id"@.len() == 9);
    assert("num"@.len() == 3);
    assert("playlist_id"@.len() == 11);
    assert("query"@.len() == 5);
    assert("track_id"@.len() == 8);
    assert("uri"@.len() == 3);
    assert("jumpBackward"@[0] == 'j');
    assert("next"@[0] == 'n');
    assert("play"@[0] == 'p');
    assert("playAlbum"@[4] == 'A');
    assert("playPause"@[4] == 'P');
    assert("playPlaylist"@[0] == 'p');
    assert("playTrack"@[4] == 'T');
    assert("quit"@[0] == 'q');
    assert("search"@[1] == 'e');
    assert("skipTo"@[1] == 'k');
    assert("stop"@[0] == 's');
}

/// A notification that is read from the message of another is equal to it
/// in all it is made of.
pub proof fn lemma_notification_survives(sent: Notification, wire: Wire, received: Notification)
    requires
        wire@ == notification_wire(notification_model(sent@)),
        wire_notification(wire@) == Some(notification_model(received@)),
    ensures
        notification_model(received@) == notification_model(sent@),
{
    lemma_notification_round_trip(notification_model(sent@));
}

/// A queue that is read from the message of another is equal to it in all
/// it is made of.
pub proof fn lemma_track_list_survives(sent: TrackListValue, wire: Wire, received: TrackListValue)
    requires
        wire@ == track_list_wire(track_list_model(sent@)),
        wire_track_list(wire@) == Some(track_list_model(received@)),
    ensures
        track_list_model(received@) == track_list_model(sent@),
{
    lemma_track_list_round_trip(track_list_model(sent@));
}

/// An action that is read from the message of another is equal to it in all
/// it is made of.
pub proof fn lemma_action_survives(sent: Action, wire: Wire, received: Action)
    requires
        wire@ == action_wire(action_model(sent)),
        wire_action(wire@) == Some(action_model(received)),
    ensures
        action_model(received) == action_model(sent),
{
    lemma_action_round_trip(action_model(sent));
}

/// Two tracks are equal exactly when they are made of the same.
pub proof fn lemma_track_equality(left: Track, right: Track)
    ensures
        same_track(left, right) <==> track_model(left) == track_model(right),
{
}

/// Two queues are equal exactly when they are made of the same.
pub proof fn lemma_track_list_equality(left: TrackListValue, right: TrackListValue)
    ensures
        PartialEqSpec::eq_spec(&left, &right) <==> track_list_model(left@) == track_list_model(
            right@,
        ),
{
    let left_queue = queue_model(left.queue@);
    let right_queue = queue_model(right.queue@);
    if same_tracks(left.queue@, right.queue@) {
        assert forall|position: u32| left_queue.contains_key(position) implies left_queue[position]
            == right_queue[position] by {
            assert(left.queue@.contains_key(position));
            lemma_track_equality(left.queue@[position], right.queue@[position]);
        }
        assert(left_queue.dom() =~= right_queue.dom());
        assert(left_queue =~= right_queue);
    }
    if left_queue == right_queue {
        assert forall|position: u32|
            left.queue@.dom().contains(position) <==> right.queue@.dom().contains(position) by {
            assert(left_queue.contains_key(position) <==> right_queue.contains_key(position));
        }
        assert(left.queue@.dom() =~= right.queue@.dom());
        assert forall|position: u32| #[trigger]
            left.queue@.contains_key(position) implies same_track(
            left.queue@[position],
            right.queue@[position],
        ) by {
            assert(left_queue[position] == right_queue[position]);
            lemma_track_equality(left.queue@[position], right.queue@[position]);
        }
    }
}

/// A queue that is read from the message of another is equal to it.
pub proof fn lemma_track_list_comes_back_equal(
    sent: TrackListValue,
    wire: Wire,
    received: TrackListValue,
)
    requires
        wire@ == track_list_wire(track_list_model(sent@)),
        wire_track_list(wire@) == Some(track_list_model(received@)),
    ensures
        PartialEqSpec::eq_spec(&received, &sent),
{
    lemma_track_list_survives(sent, wire, received);
    lemma_track_list_equality(received, sent);
}

} // verus!
