//! Releases as the catalogue describes them.

use vstd::prelude::*;

verus! {

/// One page of releases.
#[derive(Default, Debug, Clone, PartialEq)]
pub struct ReleaseQuery {
    pub has_more: bool,
    pub items: Vec<Release>,
}

/// A release with what belongs to it.
#[derive(Default, Debug, Clone, PartialEq)]
pub struct Release {
    pub id: String,
    pub title: String,
    pub version: Option<String>,
    pub tracks_count: i64,
    pub artist: Artist,
    pub artists: Option<Vec<OtherArtists>>,
    pub image: Image,
    pub label: Label,
    pub genre: Genre,
    pub release_type: Option<String>,
    pub release_tags: Option<Vec<String>>,
    pub duration: Option<i64>,
    pub dates: Dates,
    pub parental_warning: bool,
    pub audio_info: AudioInfo,
    pub rights: Rights,
    pub tracks: Option<Tracks>,
}

/// A track of a release.
#[derive(Default, Debug, Clone, PartialEq)]
pub struct Track {
    pub id: u32,
    pub isrc: Option<String>,
    pub title: String,
    pub artist: Artist,
    pub artists: Vec<OtherArtists>,
    pub duration: i64,
    pub parental_warning: bool,
    pub audio_info: AudioInfo,
    pub rights: Rights,
    pub physical_support: PhysicalSupport,
}

/// Where a track stands on the physical medium.
#[derive(Default, Debug, Clone, PartialEq)]
pub struct PhysicalSupport {
    pub media_number: i64,
    pub track_number: i64,
}

/// The genre of a release.
#[derive(Default, Debug, Clone, PartialEq, Eq)]
pub struct Genre {
    pub path: Vec<i64>,
    pub name: String,
    pub id: i64,
}

/// The label of a release.
#[derive(Default, Debug, Clone, PartialEq)]
pub struct Label {
    pub id: i64,
    pub name: String,
}

/// One page of tracks.
#[derive(Default, Debug, Clone, PartialEq)]
pub struct Tracks {
    pub items: Vec<Track>,
    pub has_more: bool,
}

/// The dates of a release.
#[derive(Default, Debug, Clone, PartialEq)]
pub struct Dates {
    pub download: String,
    pub original: String,
    pub stream: String,
}

/// What may be done with a release or a track.
#[derive(Default, Debug, Clone, PartialEq)]
pub struct Rights {
    pub purchasable: bool,
    pub streamable: bool,
    pub downloadable: bool,
    pub hires_streamable: bool,
    pub hires_purchasable: bool,
}

/// The main artist of a release or a track.
#[derive(Default, Debug, Clone, PartialEq)]
pub struct Artist {
    pub id: i64,
    pub name: ArtistName,
}

/// The name of an artist.
#[derive(Default, Debug, Clone, PartialEq)]
pub struct ArtistName {
    pub display: String,
}

/// Another artist of a release or a track, with the parts played.
#[derive(Default, Debug, Clone, PartialEq)]
pub struct OtherArtists {
    pub id: i64,
    pub name: String,
    pub roles: Vec<String>,
}

/// The cover of a release in several sizes.
#[derive(Default, Debug, Clone, PartialEq)]
pub struct Image {
    pub small: String,
    pub thumbnail: String,
    pub large: String,
    pub back: Option<String>,
}

/// The best audio format on offer. The channel count and the sampling rate
/// are 32-bit binary fractions in the catalogue; here each is kept as the 32
/// bits that encode it, so that nothing is lost on the way.
#[derive(Default, Debug, Clone, PartialEq)]
pub struct AudioInfo {
    pub maximum_bit_depth: u32,
    pub maximum_channel_count: u32,
    pub maximum_sampling_rate: u32,
}

} // verus!
