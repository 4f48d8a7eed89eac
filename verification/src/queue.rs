//! The play queue: tracks keyed by their position, with the album or the
//! playlist they were taken from.

use crate::service::{
    same_optional_album, same_optional_playlist, same_track, Album, Playlist, Track, TrackStatus,
};
use crate::text::same_text;
use std::collections::BTreeMap;
use vstd::prelude::*;
use vstd::std_specs::btree::*;
use vstd::std_specs::cmp::OrdSpec;
use vstd::std_specs::iter::IteratorSpec;
use vstd::string::StringExecFns;

verus! {

/// The positions of `dom` that lie below `bound`, in ascending order.
pub open spec fn positions_below(dom: Set<u32>, bound: nat) -> Seq<u32>
    decreases bound,
{
    if bound == 0 {
        Seq::empty()
    } else {
        let rest = positions_below(dom, (bound - 1) as nat);
        if bound - 1 <= u32::MAX && dom.contains((bound - 1) as u32) {
            rest.push((bound - 1) as u32)
        } else {
            rest
        }
    }
}

/// All positions of `dom`, in ascending order.
pub open spec fn position_order(dom: Set<u32>) -> Seq<u32> {
    positions_below(dom, 0x1_0000_0000)
}

/// The tracks of a queue in the order of their positions.
pub open spec fn tracks_in_order(queue: Map<u32, Track>) -> Seq<Track> {
    position_order(queue.dom()).map_values(track_at(queue))
}

/// The lookup of a position in a queue.
pub open spec fn track_at(queue: Map<u32, Track>) -> spec_fn(u32) -> Track {
    |position: u32| queue[position]
}

/// Whether `positions` ascends strictly.
pub open spec fn ascending(positions: Seq<u32>) -> bool {
    forall|i: int, j: int| 0 <= i < j < positions.len() ==> positions[i] < positions[j]
}

/// `positions_below` ascends, stays inside `dom` and below `bound`, and
/// misses no position of `dom` below `bound`.
pub proof fn lemma_positions_below(dom: Set<u32>, bound: nat)
    ensures
        ascending(positions_below(dom, bound)),
        forall|i: int|
            0 <= i < positions_below(dom, bound).len() ==> dom.contains(
                #[trigger] positions_below(dom, bound)[i],
            ) && positions_below(dom, bound)[i] < bound,
        forall|position: u32|
            dom.contains(position) && position < bound ==> positions_below(dom, bound).contains(
                position,
            ),
    decreases bound,
{
    if bound > 0 {
        let rest = positions_below(dom, (bound - 1) as nat);
        lemma_positions_below(dom, (bound - 1) as nat);
        let all = positions_below(dom, bound);
        if bound - 1 <= u32::MAX && dom.contains((bound - 1) as u32) {
            let top = (bound - 1) as u32;
            assert(all == rest.push(top));
            assert(all[rest.len() as int] == top);
            assert forall|position: u32| dom.contains(position) && position < bound implies all.contains(
                position,
            ) by {
                if position < bound - 1 {
                    let i = choose|i: int| 0 <= i < rest.len() && rest[i] == position;
                    assert(all[i] == position);
                } else {
                    assert(all[rest.len() as int] == position);
                }
            }
        } else {
            assert forall|position: u32| dom.contains(position) && position < bound implies all.contains(
                position,
            ) by {
                assert(position < bound - 1);
            }
        }
    }
}

/// An ascending sequence that holds exactly the positions of `dom` below
/// `bound` is `positions_below(dom, bound)`.
pub proof fn lemma_positions_below_unique(dom: Set<u32>, bound: nat, positions: Seq<u32>)
    requires
        ascending(positions),
        forall|i: int|
            0 <= i < positions.len() ==> dom.contains(#[trigger] positions[i]) && positions[i]
                < bound,
        forall|position: u32|
            dom.contains(position) && position < bound ==> positions.contains(position),
    ensures
        positions == positions_below(dom, bound),
    decreases bound,
{
    if bound == 0 {
        if positions.len() > 0 {
            assert(positions[0] < bound);
        }
        assert(positions =~= Seq::empty());
    } else {
        let lower = (bound - 1) as nat;
        if bound - 1 <= u32::MAX && dom.contains((bound - 1) as u32) {
            let top = (bound - 1) as u32;
            assert(positions.contains(top));
            let at = choose|i: int| 0 <= i < positions.len() && positions[i] == top;
            if at < positions.len() - 1 {
                assert(positions[at] < positions[positions.len() - 1]);
            }
            let front = positions.drop_last();
            assert forall|position: u32| dom.contains(position) && position < lower implies front.contains(
                position,
            ) by {
                let i = choose|i: int| 0 <= i < positions.len() && positions[i] == position;
                assert(front[i] == position);
            }
            assert forall|i: int| 0 <= i < front.len() implies dom.contains(#[trigger] front[i])
                && front[i] < lower by {
                assert(positions[i] < positions[at]);
            }
            lemma_positions_below_unique(dom, lower, front);
            assert(positions =~= front.push(top));
        } else {
            assert forall|i: int| 0 <= i < positions.len() implies dom.contains(
                #[trigger] positions[i],
            ) && positions[i] < lower by {
                assert(positions[i] < bound);
            }
            lemma_positions_below_unique(dom, lower, positions);
        }
    }
}

/// The positions of a queue come in strictly ascending order, each one once,
/// and they are exactly the positions the queue holds.
pub proof fn lemma_position_order(dom: Set<u32>)
    ensures
        ascending(position_order(dom)),
        position_order(dom).no_duplicates(),
        forall|position: u32| position_order(dom).contains(position) <==> dom.contains(position),
{
    lemma_positions_below(dom, 0x1_0000_0000);
    let order = position_order(dom);
    assert forall|i: int, j: int| 0 <= i < order.len() && 0 <= j < order.len() && i != j implies order[i]
        != order[j] by {
        if i < j {
            assert(order[i] < order[j]);
        } else {
            assert(order[j] < order[i]);
        }
    }
}

/// The number of entries of a map.
fn entry_count(queue: &BTreeMap<u32, Track>) -> (count: usize)
    ensures
        count == queue@.len(),
{
    broadcast use group_btree_axioms;
    broadcast use vstd::laws_cmp::group_laws_cmp;

    queue.len()
}

/// The entries of a map in the order of their positions.
fn ordered_entries(queue: &BTreeMap<u32, Track>) -> (entries: Vec<(u32, &Track)>)
    ensures
        entries@.len() == position_order(queue@.dom()).len(),
        entries@.len() == tracks_in_order(queue@).len(),
        forall|i: int|
            0 <= i < entries@.len() ==> (#[trigger] entries@[i]).0 == position_order(
                queue@.dom(),
            )[i] && queue@.contains_key(entries@[i].0) && *entries@[i].1 == queue@[entries@[i].0]
                && *entries@[i].1 == tracks_in_order(queue@)[i],
{
    broadcast use group_btree_axioms;
    broadcast use vstd::laws_cmp::group_laws_cmp;

    let mut entries: Vec<(u32, &Track)> = Vec::new();
    let ghost items = spec_btree_map_iter(queue).remaining();
    for entry in it: queue.iter()
        invariant
            it.seq() == items,
            entries@.len() == it.index(),
            increasing_seq(items.map_values(|kv: (&u32, &Track)| *kv.0)),
            forall|i: int|
                0 <= i < entries@.len() ==> (#[trigger] entries@[i]).0 == *items[i].0
                    && entries@[i].1 == items[i].1,
    {
        entries.push((*entry.0, entry.1));
    }
    proof {
        let keys = items.map_values(|kv: (&u32, &Track)| *kv.0);
        let positions = Seq::new(entries@.len(), |i: int| entries@[i].0);
        axiom_increasing_seq_meaning(keys);
        assert forall|i: int, j: int| 0 <= i < j < positions.len() implies positions[i]
            < positions[j] by {
            assert(keys[i].cmp_spec(&keys[j]) is Less);
        }
        assert forall|position: u32|
            queue@.dom().contains(position) && position < 0x1_0000_0000 implies positions.contains(
            position,
        ) by {
            assert(queue@.contains_key(position));
            assert(items.contains((&position, &queue@[position])));
            let i = choose|i: int| 0 <= i < items.len() && items[i] == (&position, &queue@[position]);
            assert(positions[i] == position);
        }
        assert forall|i: int| 0 <= i < positions.len() implies queue@.dom().contains(
            #[trigger] positions[i],
        ) && positions[i] < 0x1_0000_0000 by {
            assert(queue@.contains_key(*items[i].0));
        }
        lemma_positions_below_unique(queue@.dom(), 0x1_0000_0000, positions);
        assert forall|i: int| 0 <= i < entries@.len() implies (#[trigger] entries@[i]).0
            == position_order(queue@.dom())[i] && queue@.contains_key(entries@[i].0)
            && *entries@[i].1 == queue@[entries@[i].0] && *entries@[i].1 == tracks_in_order(
            queue@,
        )[i] by {
            assert(positions[i] == entries@[i].0);
            assert(queue@.contains_key(*items[i].0));
        }
    }
    entries
}


/// What a queue was loaded from.
#[derive(Debug, Clone, Copy, PartialEq, Eq, Structural)]
pub enum TrackListType {
    Album,
    Playlist,
    Track,
    Unknown,
}

impl Default for TrackListType {
    fn default() -> (list_type: TrackListType)
        ensures
            list_type == TrackListType::Unknown,
    {
        TrackListType::Unknown
    }
}

impl TrackListType {
    /// The lower-case name of the type.
    pub open spec fn spec_name(self) -> Seq<char> {
        match self {
            TrackListType::Album => "album"@,
            TrackListType::Playlist => "playlist"@,
            TrackListType::Track => "track"@,
            TrackListType::Unknown => "unknown"@,
        }
    }

    /// The type that a name stands for; any other text stands for `Unknown`.
    pub open spec fn spec_from_name(name: Seq<char>) -> TrackListType {
        if name == "album"@ {
            TrackListType::Album
        } else if name == "playlist"@ {
            TrackListType::Playlist
        } else if name == "track"@ {
            TrackListType::Track
        } else {
            TrackListType::Unknown
        }
    }

    /// The lower-case name of the type.
    pub fn as_str(&self) -> (name: &'static str)
        ensures
            name@ == self.spec_name(),
    {
        match self {
            TrackListType::Album => "album",
            TrackListType::Playlist => "playlist",
            TrackListType::Track => "track",
            TrackListType::Unknown => "unknown",
        }
    }

    /// The lower-case name of the type, as an owned string.
    pub fn to_string(&self) -> (name: String)
        ensures
            name@ == self.spec_name(),
    {
        String::from_str(self.as_str())
    }

    /// Reading back the name of a type gives the type.
    pub proof fn lemma_name_round_trip(list_type: TrackListType)
        ensures
            TrackListType::spec_from_name(list_type.spec_name()) == list_type,
    {
        reveal_strlit("album");
        reveal_strlit("playlist");
        reveal_strlit("track");
        reveal_strlit("unknown");
        assert("album"@.len() == 5);
        assert("playlist"@.len() == 8);
        assert("track"@.len() == 5);
        assert("unknown"@.len() == 7);
        assert("album"@[0] == 'a');
        assert("track"@[0] == 't');
    }
}

impl From<&str> for TrackListType {
    fn from(name: &str) -> (list_type: TrackListType) {
        if same_text(name, "album") {
            TrackListType::Album
        } else if same_text(name, "playlist") {
            TrackListType::Playlist
        } else if same_text(name, "track") {
            TrackListType::Track
        } else {
            TrackListType::Unknown
        }
    }
}

impl vstd::std_specs::convert::FromSpecImpl<&str> for TrackListType {
    open spec fn obeys_from_spec() -> bool {
        true
    }

    open spec fn from_spec(name: &str) -> TrackListType {
        TrackListType::spec_from_name(name@)
    }
}

/// The mathematical content of a queue.
pub struct TrackListView {
    pub queue: Map<u32, Track>,
    pub album: Option<Album>,
    pub playlist: Option<Playlist>,
    pub list_type: TrackListType,
}

/// Whether the track at `position` is the one being played.
pub open spec fn playing_at(queue: Map<u32, Track>, position: u32) -> bool {
    queue.contains_key(position) && queue[position].status == TrackStatus::Playing
}

/// Whether `position` holds the first track, in queue order, that is being
/// played.
pub open spec fn first_playing_at(queue: Map<u32, Track>, position: u32) -> bool {
    &&& playing_at(queue, position)
    &&& forall|earlier: u32| earlier < position ==> !playing_at(queue, earlier)
}

/// Whether `position` holds the first track, in queue order, with the id
/// `track_id`.
pub open spec fn first_with_id_at(queue: Map<u32, Track>, track_id: u32, position: u32) -> bool {
    &&& queue.contains_key(position)
    &&& queue[position].id == track_id
    &&& forall|earlier: u32|
        earlier < position && queue.contains_key(earlier) ==> queue[earlier].id != track_id
}

/// Whether no track of the queue is being played.
pub open spec fn none_playing_in(queue: Map<u32, Track>) -> bool {
    forall|position: u32| !playing_at(queue, position)
}

/// The position of the first track, in queue order, that is being played.
pub open spec fn first_playing(queue: Map<u32, Track>) -> Option<u32> {
    if none_playing_in(queue) {
        None
    } else {
        Some(choose|position: u32| first_playing_at(queue, position))
    }
}

/// Whether `position` is the lowest position of `dom` that is not below
/// `floor`.
pub open spec fn least_from_at(dom: Set<u32>, floor: int, position: u32) -> bool {
    &&& dom.contains(position)
    &&& floor <= position
    &&& forall|other: u32| dom.contains(other) && floor <= other ==> position <= other
}

/// The lowest position of `dom` that is not below `floor`.
pub open spec fn least_from(dom: Set<u32>, floor: int) -> Option<u32> {
    if exists|position: u32| dom.contains(position) && floor <= position {
        Some(choose|position: u32| least_from_at(dom, floor, position))
    } else {
        None
    }
}

/// Whether `position` is the highest position of `dom` below `ceiling`.
pub open spec fn greatest_below_at(dom: Set<u32>, ceiling: int, position: u32) -> bool {
    &&& dom.contains(position)
    &&& position < ceiling
    &&& forall|other: u32| dom.contains(other) && other < ceiling ==> other <= position
}

/// The highest position of `dom` below `ceiling`.
pub open spec fn greatest_below(dom: Set<u32>, ceiling: int) -> Option<u32> {
    if exists|position: u32| dom.contains(position) && position < ceiling {
        Some(choose|position: u32| greatest_below_at(dom, ceiling, position))
    } else {
        None
    }
}

/// The status of the track at `position` once the track at `current` is the
/// one being played: what lies before it has been played, what lies behind it
/// has not.
pub open spec fn status_around(current: u32, position: u32) -> TrackStatus {
    if position < current {
        TrackStatus::Played
    } else if position == current {
        TrackStatus::Playing
    } else {
        TrackStatus::Unplayed
    }
}

/// The queue once the track at `current` is the one being played.
pub open spec fn marked_around(queue: Map<u32, Track>, current: u32) -> Map<u32, Track> {
    Map::new(
        |position: u32| queue.contains_key(position),
        |position: u32| track_with_status(queue[position], status_around(current, position)),
    )
}

/// The queue with every track that was being played turned into a played
/// one.
pub open spec fn marked_finished(queue: Map<u32, Track>) -> Map<u32, Track> {
    Map::new(
        |position: u32| queue.contains_key(position),
        |position: u32|
            if queue[position].status == TrackStatus::Playing {
                track_with_status(queue[position], TrackStatus::Played)
            } else {
                queue[position]
            },
    )
}

/// The test that a track has the status `status`.
pub open spec fn has_status(status: TrackStatus) -> spec_fn(Track) -> bool {
    |track: Track| track.status == status
}

/// The track with another status, everything else kept.
pub open spec fn track_with_status(track: Track, status: TrackStatus) -> Track {
    Track {
        id: track.id,
        title: track.title,
        duration_seconds: track.duration_seconds,
        album: track.album,
        status,
    }
}

impl TrackListView {
    /// The queue with nothing in it and no source.
    pub open spec fn empty() -> TrackListView {
        TrackListView {
            queue: Map::empty(),
            album: None,
            playlist: None,
            list_type: TrackListType::Unknown,
        }
    }

    /// The state after `clear`.
    pub open spec fn cleared(self) -> TrackListView {
        TrackListView::empty()
    }

    /// The state after `set_track_status`.
    pub open spec fn with_track_status(self, position: u32, status: TrackStatus) -> TrackListView {
        if self.queue.contains_key(position) {
            TrackListView {
                queue: self.queue.insert(position, track_with_status(self.queue[position], status)),
                ..self
            }
        } else {
            self
        }
    }

    /// The tracks in the order of their positions.
    pub open spec fn tracks(self) -> Seq<Track> {
        tracks_in_order(self.queue)
    }

    /// The tracks that have the given status, in the order of their positions.
    pub open spec fn tracks_with_status(self, status: TrackStatus) -> Seq<Track> {
        self.tracks().filter(has_status(status))
    }

    /// No two positions hold a track that is being played.
    pub open spec fn at_most_one_playing(self) -> bool {
        forall|a: u32, b: u32| playing_at(self.queue, a) && playing_at(self.queue, b) ==> a == b
    }

    /// No track is being played.
    pub open spec fn none_playing(self) -> bool {
        none_playing_in(self.queue)
    }

    /// The position of the first track that is being played.
    pub open spec fn current_position(self) -> Option<u32> {
        first_playing(self.queue)
    }

    /// The first track that is being played.
    pub open spec fn current_track(self) -> Option<Track> {
        match self.current_position() {
            Some(position) => Some(self.queue[position]),
            None => None,
        }
    }

    /// The album to show: that of the track being played where it carries
    /// one, else the album of the queue.
    pub open spec fn shown_album(self) -> Option<Album> {
        match self.current_track() {
            Some(track) => match track.album {
                Some(album) => Some(album),
                None => self.album,
            },
            None => self.album,
        }
    }

    /// The number of tracks of the source: the album's where an album is
    /// set, else the playlist's where a playlist is set, else the length of
    /// the queue (which wraps at 2^32).
    pub open spec fn total(self) -> u32 {
        match self.album {
            Some(album) => album.total_tracks,
            None => match self.playlist {
                Some(playlist) => playlist.tracks_count,
                None => self.queue.len() as u32,
            },
        }
    }
}

/// The play queue.
#[derive(Debug)]
pub struct TrackListValue {
    pub queue: BTreeMap<u32, Track>,
    pub album: Option<Album>,
    pub playlist: Option<Playlist>,
    pub list_type: TrackListType,
}

impl View for TrackListValue {
    type V = TrackListView;

    open spec fn view(&self) -> TrackListView {
        TrackListView {
            queue: self.queue@,
            album: self.album,
            playlist: self.playlist,
            list_type: self.list_type,
        }
    }
}

/// Whether two queues hold the same positions with equal tracks.
pub open spec fn same_tracks(left: Map<u32, Track>, right: Map<u32, Track>) -> bool {
    &&& left.dom() == right.dom()
    &&& forall|position: u32| #[trigger]
        left.contains_key(position) ==> same_track(left[position], right[position])
}

impl PartialEq for TrackListValue {
    fn eq(&self, other: &TrackListValue) -> (same: bool) {
        if !(self.list_type == other.list_type && self.album == other.album && self.playlist
            == other.playlist) {
            return false;
        }
        let left = ordered_entries(&self.queue);
        let right = ordered_entries(&other.queue);
        proof {
            lemma_position_order(self.queue@.dom());
            lemma_position_order(other.queue@.dom());
        }
        if left.len() != right.len() {
            return false;
        }
        let ghost left_order = position_order(self.queue@.dom());
        let ghost right_order = position_order(other.queue@.dom());
        let mut i: usize = 0;
        while i < left.len()
            invariant
                i <= left@.len(),
                left@.len() == right@.len(),
                left_order == position_order(self.queue@.dom()),
                right_order == position_order(other.queue@.dom()),
                left@.len() == left_order.len(),
                right@.len() == right_order.len(),
                forall|j: int|
                    0 <= j < left@.len() ==> (#[trigger] left@[j]).0 == left_order[j]
                        && self.queue@.contains_key(left@[j].0) && *left@[j].1
                        == self.queue@[left@[j].0],
                forall|j: int|
                    0 <= j < right@.len() ==> (#[trigger] right@[j]).0 == right_order[j]
                        && other.queue@.contains_key(right@[j].0) && *right@[j].1
                        == other.queue@[right@[j].0],
                forall|j: int|
                    0 <= j < i ==> left_order[j] == right_order[j] && same_track(
                        self.queue@[left_order[j]],
                        other.queue@[left_order[j]],
                    ),
            decreases left@.len() - i,
        {
            if left[i].0 != right[i].0 {
                proof {
                    if self.queue@.dom() == other.queue@.dom() {
                        assert(left_order[i as int] == right_order[i as int]);
                    }
                }
                return false;
            }
            if !(*left[i].1 == *right[i].1) {
                proof {
                    assert(self.queue@.contains_key(left_order[i as int]));
                }
                return false;
            }
            i += 1;
        }
        proof {
            lemma_position_order(self.queue@.dom());
            lemma_position_order(other.queue@.dom());
            assert(left_order =~= right_order);
            assert forall|position: u32|
                self.queue@.dom().contains(position) <==> other.queue@.dom().contains(
                    position,
                ) by {
                assert(left_order.contains(position) <==> right_order.contains(position));
            }
            assert(self.queue@.dom() =~= other.queue@.dom());
            assert forall|position: u32| #[trigger]
                self.queue@.contains_key(position) implies same_track(
                self.queue@[position],
                other.queue@[position],
            ) by {
                assert(left_order.contains(position));
                let j = choose|j: int| 0 <= j < left_order.len() && left_order[j] == position;
            }
        }
        true
    }
}

impl vstd::std_specs::cmp::PartialEqSpecImpl for TrackListValue {
    open spec fn obeys_eq_spec() -> bool {
        true
    }

    open spec fn eq_spec(&self, other: &TrackListValue) -> bool {
        &&& self.list_type == other.list_type
        &&& same_optional_album(self.album, other.album)
        &&& same_optional_playlist(self.playlist, other.playlist)
        &&& same_tracks(self.queue@, other.queue@)
    }
}

impl Default for TrackListValue {
    fn default() -> (list: TrackListValue)
        ensures
            list@ == TrackListView::empty(),
    {
        TrackListValue::new(None)
    }
}

impl Clone for TrackListValue {
    fn clone(&self) -> (copy: TrackListValue)
        ensures
            copy@ == self@,
    {
        let album = match &self.album {
            Some(album) => Some(album.clone()),
            None => None,
        };
        let playlist = match &self.playlist {
            Some(playlist) => Some(playlist.clone()),
            None => None,
        };
        TrackListValue { queue: self.queue.clone(), album, playlist, list_type: self.list_type }
    }
}

impl TrackListValue {
    /// A queue with the given tracks, or none, and no source.
    pub fn new(queue: Option<&BTreeMap<u32, Track>>) -> (list: TrackListValue)
        ensures
            list@ == (TrackListView {
                queue: match queue {
                    Some(given) => given@,
                    None => Map::empty(),
                },
                ..TrackListView::empty()
            }),
    {
        let queue = match queue {
            Some(given) => given.clone(),
            None => BTreeMap::new(),
        };
        TrackListValue { queue, album: None, playlist: None, list_type: TrackListType::Unknown }
    }

    /// The number of tracks of the source.
    pub fn total(&self) -> (count: u32)
        ensures
            count == self@.total(),
    {
        if let Some(album) = &self.album {
            album.total_tracks
        } else if let Some(list) = &self.playlist {
            list.tracks_count
        } else {
            #[verifier::truncate]
            (entry_count(&self.queue) as u32)
        }
    }

    /// Empties the queue and forgets its source.
    pub fn clear(&mut self)
        ensures
            final(self)@ == old(self)@.cleared(),
    {
        self.list_type = TrackListType::Unknown;
        self.album = None;
        self.playlist = None;
        self.queue.clear();
    }

    /// Makes `album` the source of the queue.
    pub fn set_album(&mut self, album: Album)
        ensures
            final(self)@ == (TrackListView {
                album: Some(album),
                list_type: TrackListType::Album,
                ..old(self)@
            }),
    {
        self.album = Some(album);
        self.list_type = TrackListType::Album;
    }

    /// The album to show: that of the track being played where it carries
    /// one, else the album of the queue.
    pub fn get_album(&self) -> (album: Option<&Album>)
        ensures
            match album {
                Some(shown) => self@.shown_album() == Some(*shown),
                None => self@.shown_album() is None,
            },
    {
        if let Some(current) = self.current_track() {
            if let Some(album) = &current.album {
                Some(album)
            } else {
                self.album.as_ref()
            }
        } else {
            self.album.as_ref()
        }
    }

    /// Makes `playlist` the source of the queue.
    pub fn set_playlist(&mut self, playlist: Playlist)
        ensures
            final(self)@ == (TrackListView {
                playlist: Some(playlist),
                list_type: TrackListType::Playlist,
                ..old(self)@
            }),
    {
        self.playlist = Some(playlist);
        self.list_type = TrackListType::Playlist;
    }

    /// The playlist of the queue.
    pub fn get_playlist(&self) -> (playlist: Option<&Playlist>)
        ensures
            match playlist {
                Some(found) => self.playlist == Some(*found),
                None => self.playlist is None,
            },
    {
        self.playlist.as_ref()
    }

    /// Says what the queue was loaded from.
    pub fn set_list_type(&mut self, list_type: TrackListType)
        ensures
            final(self)@ == (TrackListView { list_type, ..old(self)@ }),
    {
        self.list_type = list_type;
    }

    /// What the queue was loaded from.
    pub fn list_type(&self) -> (list_type: &TrackListType)
        ensures
            *list_type == self.list_type,
    {
        &self.list_type
    }

    /// The track at a position.
    pub fn find_track_by_index(&self, index: u32) -> (track: Option<&Track>)
        ensures
            match track {
                Some(found) => self.queue@.contains_key(index) && *found == self.queue@[index],
                None => !self.queue@.contains_key(index),
            },
    {
        broadcast use group_btree_axioms;
        broadcast use vstd::laws_cmp::group_laws_cmp;

        self.queue.get(&index)
    }

    /// Puts `track` at `position` and gives back the track that was there.
    pub fn insert_track(&mut self, position: u32, track: Track) -> (replaced: Option<Track>)
        ensures
            final(self)@ == (TrackListView {
                queue: old(self).queue@.insert(position, track),
                ..old(self)@
            }),
            replaced == (if old(self).queue@.contains_key(position) {
                Some(old(self).queue@[position])
            } else {
                None
            }),
    {
        broadcast use group_btree_axioms;
        broadcast use vstd::laws_cmp::group_laws_cmp;

        self.queue.insert(position, track)
    }

    /// Gives the track at `position` the status `status`; without a track
    /// there, nothing changes.
    pub fn set_track_status(&mut self, position: u32, status: TrackStatus)
        ensures
            final(self)@ == old(self)@.with_track_status(position, status),
    {
        broadcast use group_btree_axioms;
        broadcast use vstd::laws_cmp::group_laws_cmp;

        match self.queue.remove(&position) {
            Some(track) => {
                let updated = Track {
                    id: track.id,
                    title: track.title,
                    duration_seconds: track.duration_seconds,
                    album: track.album,
                    status,
                };
                self.queue.insert(position, updated);
                assert(self.queue@ == old(self).queue@.insert(
                    position,
                    track_with_status(old(self).queue@[position], status),
                ));
            },
            None => {
                assert(self.queue@ == old(self).queue@);
            },
        }
    }

    /// All tracks, in the order of their positions.
    pub fn all_tracks(&self) -> (tracks: Vec<&Track>)
        ensures
            tracks@.len() == self@.tracks().len(),
            forall|i: int| 0 <= i < tracks@.len() ==> *(#[trigger] tracks@[i]) == self@.tracks()[i],
    {
        let entries = ordered_entries(&self.queue);
        let mut tracks: Vec<&Track> = Vec::new();
        let mut i: usize = 0;
        while i < entries.len()
            invariant
                i <= entries@.len(),
                tracks@.len() == i,
                entries@.len() == tracks_in_order(self.queue@).len(),
                forall|j: int|
                    0 <= j < entries@.len() ==> *(#[trigger] entries@[j]).1 == tracks_in_order(
                        self.queue@,
                    )[j],
                forall|j: int|
                    0 <= j < i ==> *(#[trigger] tracks@[j]) == tracks_in_order(self.queue@)[j],
            decreases entries@.len() - i,
        {
            tracks.push(entries[i].1);
            i += 1;
        }
        tracks
    }

    /// The tracks that have the status `status`, in the order of their
    /// positions.
    fn tracks_where(&self, status: TrackStatus) -> (tracks: Vec<&Track>)
        ensures
            tracks@.len() == self@.tracks_with_status(status).len(),
            forall|i: int|
                0 <= i < tracks@.len() ==> *(#[trigger] tracks@[i]) == self@.tracks_with_status(
                    status,
                )[i],
    {
        let entries = ordered_entries(&self.queue);
        let ghost all = tracks_in_order(self.queue@);
        let ghost mut picked: Seq<Track> = Seq::empty();
        let mut tracks: Vec<&Track> = Vec::new();
        let mut i: usize = 0;
        proof {
            assert(all.take(0) =~= Seq::<Track>::empty());
            reveal(Seq::filter);
        }
        while i < entries.len()
            invariant
                i <= entries@.len(),
                all == tracks_in_order(self.queue@),
                entries@.len() == all.len(),
                forall|j: int| 0 <= j < entries@.len() ==> *(#[trigger] entries@[j]).1 == all[j],
                picked == all.take(i as int).filter(has_status(status)),
                tracks@.len() == picked.len(),
                forall|j: int| 0 <= j < tracks@.len() ==> *(#[trigger] tracks@[j]) == picked[j],
            decreases entries@.len() - i,
        {
            let track = entries[i].1;
            proof {
                assert(all.take(i + 1) =~= all.take(i as int).push(all[i as int]));
                all.take(i as int).lemma_filter_push(all[i as int], has_status(status));
            }
            if track.status == status {
                tracks.push(track);
                proof {
                    picked = picked.push(*track);
                }
            }
            i += 1;
        }
        proof {
            assert(all.take(i as int) =~= all);
        }
        tracks
    }

    /// The tracks that have not been played yet, in the order of their
    /// positions.
    pub fn unplayed_tracks(&self) -> (tracks: Vec<&Track>)
        ensures
            tracks@.len() == self@.tracks_with_status(TrackStatus::Unplayed).len(),
            forall|i: int|
                0 <= i < tracks@.len() ==> *(#[trigger] tracks@[i]) == self@.tracks_with_status(
                    TrackStatus::Unplayed,
                )[i],
    {
        self.tracks_where(TrackStatus::Unplayed)
    }

    /// The tracks that have been played, in the order of their positions.
    pub fn played_tracks(&self) -> (tracks: Vec<&Track>)
        ensures
            tracks@.len() == self@.tracks_with_status(TrackStatus::Played).len(),
            forall|i: int|
                0 <= i < tracks@.len() ==> *(#[trigger] tracks@[i]) == self@.tracks_with_status(
                    TrackStatus::Played,
                )[i],
    {
        self.tracks_where(TrackStatus::Played)
    }

    /// Title and id of every track, in the order of the positions; an id
    /// above `i32::MAX` wraps into the negative numbers.
    pub fn cursive_list(&self) -> (rows: Vec<(&str, i32)>)
        ensures
            rows@.len() == self@.tracks().len(),
            forall|i: int|
                0 <= i < rows@.len() ==> (#[trigger] rows@[i]).0@ == self@.tracks()[i].title@
                    && rows@[i].1 == self@.tracks()[i].id as i32,
    {
        let entries = ordered_entries(&self.queue);
        let mut rows: Vec<(&str, i32)> = Vec::new();
        let mut i: usize = 0;
        while i < entries.len()
            invariant
                i <= entries@.len(),
                rows@.len() == i,
                entries@.len() == tracks_in_order(self.queue@).len(),
                forall|j: int|
                    0 <= j < entries@.len() ==> *(#[trigger] entries@[j]).1 == tracks_in_order(
                        self.queue@,
                    )[j],
                forall|j: int|
                    0 <= j < i ==> (#[trigger] rows@[j]).0@ == tracks_in_order(
                        self.queue@,
                    )[j].title@ && rows@[j].1 == tracks_in_order(self.queue@)[j].id as i32,
            decreases entries@.len() - i,
        {
            let track = entries[i].1;
            rows.push((track.title.as_str(), #[verifier::truncate] (track.id as i32)));
            i += 1;
        }
        rows
    }

    /// The position of the first track with the id `track_id`.
    pub fn track_index(&self, track_id: u32) -> (position: Option<u32>)
        ensures
            match position {
                Some(found) => first_with_id_at(self.queue@, track_id, found),
                None => forall|any: u32|
                    self.queue@.contains_key(any) ==> self.queue@[any].id != track_id,
            },
    {
        let entries = ordered_entries(&self.queue);
        proof {
            lemma_position_order(self.queue@.dom());
        }
        let ghost order = position_order(self.queue@.dom());
        let mut i: usize = 0;
        while i < entries.len()
            invariant
                i <= entries@.len(),
                entries@.len() == order.len(),
                order == position_order(self.queue@.dom()),
                ascending(order),
                forall|j: int|
                    0 <= j < entries@.len() ==> (#[trigger] entries@[j]).0 == order[j]
                        && self.queue@.contains_key(entries@[j].0) && *entries@[j].1
                        == self.queue@[entries@[j].0],
                forall|j: int| 0 <= j < i ==> self.queue@[order[j]].id != track_id,
            decreases entries@.len() - i,
        {
            if entries[i].1.id == track_id {
                let found = entries[i].0;
                proof {
                    lemma_position_order(self.queue@.dom());
                    assert forall|earlier: u32|
                        earlier < found && self.queue@.contains_key(earlier) implies self.queue@[earlier].id
                        != track_id by {
                        assert(order.contains(earlier));
                        let j = choose|j: int| 0 <= j < order.len() && order[j] == earlier;
                        if j >= i {
                            if j > i {
                                assert(order[i as int] < order[j]);
                            }
                        }
                    }
                }
                return Some(found);
            }
            i += 1;
        }
        proof {
            lemma_position_order(self.queue@.dom());
            assert forall|any: u32| self.queue@.contains_key(any) implies self.queue@[any].id
                != track_id by {
                assert(order.contains(any));
                let j = choose|j: int| 0 <= j < order.len() && order[j] == any;
            }
        }
        None
    }

    /// The position of the first track that is being played.
    pub fn current_position(&self) -> (position: Option<u32>)
        ensures
            position == self@.current_position(),
            position matches Some(found) ==> first_playing_at(self.queue@, found),
            position is None ==> self@.none_playing(),
    {
        let entries = ordered_entries(&self.queue);
        proof {
            lemma_position_order(self.queue@.dom());
        }
        let ghost order = position_order(self.queue@.dom());
        let mut i: usize = 0;
        while i < entries.len()
            invariant
                i <= entries@.len(),
                entries@.len() == order.len(),
                order == position_order(self.queue@.dom()),
                ascending(order),
                forall|j: int|
                    0 <= j < entries@.len() ==> (#[trigger] entries@[j]).0 == order[j]
                        && self.queue@.contains_key(entries@[j].0) && *entries@[j].1
                        == self.queue@[entries@[j].0],
                forall|j: int| 0 <= j < i ==> !playing_at(self.queue@, order[j]),
            decreases entries@.len() - i,
        {
            if entries[i].1.status == TrackStatus::Playing {
                let found = entries[i].0;
                proof {
                    lemma_position_order(self.queue@.dom());
                    assert forall|earlier: u32| earlier < found implies !playing_at(
                        self.queue@,
                        earlier,
                    ) by {
                        if self.queue@.contains_key(earlier) {
                            assert(order.contains(earlier));
                            let j = choose|j: int| 0 <= j < order.len() && order[j] == earlier;
                            if j > i {
                                assert(order[i as int] < order[j]);
                            }
                        }
                    }
                    assert(playing_at(self.queue@, found));
                    lemma_first_playing_unique(self.queue@, found);
                }
                return Some(found);
            }
            i += 1;
        }
        proof {
            lemma_position_order(self.queue@.dom());
            assert forall|any: u32| !playing_at(self.queue@, any) by {
                if self.queue@.contains_key(any) {
                    assert(order.contains(any));
                    let j = choose|j: int| 0 <= j < order.len() && order[j] == any;
                }
            }
        }
        None
    }

    /// The lowest position that is not below `floor`.
    pub fn position_from(&self, floor: u32) -> (position: Option<u32>)
        ensures
            position == least_from(self.queue@.dom(), floor as int),
            position matches Some(found) ==> least_from_at(self.queue@.dom(), floor as int, found),
            position is None ==> forall|any: u32| self.queue@.contains_key(any) ==> any < floor,
    {
        let entries = ordered_entries(&self.queue);
        proof {
            lemma_position_order(self.queue@.dom());
        }
        let ghost order = position_order(self.queue@.dom());
        let mut i: usize = 0;
        while i < entries.len()
            invariant
                i <= entries@.len(),
                entries@.len() == order.len(),
                order == position_order(self.queue@.dom()),
                ascending(order),
                forall|j: int|
                    0 <= j < entries@.len() ==> (#[trigger] entries@[j]).0 == order[j]
                        && self.queue@.contains_key(entries@[j].0),
                forall|j: int| 0 <= j < i ==> order[j] < floor,
            decreases entries@.len() - i,
        {
            if entries[i].0 >= floor {
                let found = entries[i].0;
                proof {
                    lemma_position_order(self.queue@.dom());
                    assert forall|other: u32|
                        self.queue@.dom().contains(other) && floor <= other implies found
                        <= other by {
                        assert(order.contains(other));
                        let j = choose|j: int| 0 <= j < order.len() && order[j] == other;
                        if j > i {
                            assert(order[i as int] < order[j]);
                        }
                    }
                    lemma_least_from_unique(self.queue@.dom(), floor as int, found);
                }
                return Some(found);
            }
            i += 1;
        }
        proof {
            lemma_position_order(self.queue@.dom());
            assert forall|any: u32| self.queue@.contains_key(any) implies any < floor by {
                assert(order.contains(any));
                let j = choose|j: int| 0 <= j < order.len() && order[j] == any;
            }
        }
        None
    }

    /// The highest position below `ceiling`.
    pub fn position_before(&self, ceiling: u32) -> (position: Option<u32>)
        ensures
            position == greatest_below(self.queue@.dom(), ceiling as int),
            position matches Some(found) ==> greatest_below_at(
                self.queue@.dom(),
                ceiling as int,
                found,
            ),
            position is None ==> forall|any: u32| self.queue@.contains_key(any) ==> any >= ceiling,
    {
        let entries = ordered_entries(&self.queue);
        proof {
            lemma_position_order(self.queue@.dom());
        }
        let ghost order = position_order(self.queue@.dom());
        let mut best: Option<u32> = None;
        let mut i: usize = 0;
        while i < entries.len() && entries[i].0 < ceiling
            invariant
                i <= entries@.len(),
                entries@.len() == order.len(),
                order == position_order(self.queue@.dom()),
                ascending(order),
                forall|j: int|
                    0 <= j < entries@.len() ==> (#[trigger] entries@[j]).0 == order[j]
                        && self.queue@.contains_key(entries@[j].0),
                forall|j: int| 0 <= j < i ==> order[j] < ceiling,
                i == 0 ==> best is None,
                i > 0 ==> best == Some(order[i - 1]),
            decreases entries@.len() - i,
        {
            best = Some(entries[i].0);
            i += 1;
        }
        proof {
            lemma_position_order(self.queue@.dom());
            match best {
                Some(found) => {
                    assert forall|other: u32|
                        self.queue@.dom().contains(other) && other < ceiling implies other
                        <= found by {
                        assert(order.contains(other));
                        let j = choose|j: int| 0 <= j < order.len() && order[j] == other;
                        if j >= i {
                            if j > i {
                                assert(order[i as int] < order[j]);
                            }
                        } else if j < i - 1 {
                            assert(order[j] < order[i - 1]);
                        }
                    }
                    lemma_greatest_below_unique(self.queue@.dom(), ceiling as int, found);
                },
                None => {
                    assert forall|any: u32| self.queue@.contains_key(any) implies any
                        >= ceiling by {
                        assert(order.contains(any));
                        let j = choose|j: int| 0 <= j < order.len() && order[j] == any;
                        if j > 0 {
                            assert(order[0] < order[j]);
                        }
                    }
                },
            }
        }
        best
    }

    /// The positions of the queue in ascending order.
    pub fn positions(&self) -> (positions: Vec<u32>)
        ensures
            positions@ == position_order(self.queue@.dom()),
    {
        let entries = ordered_entries(&self.queue);
        let mut positions: Vec<u32> = Vec::new();
        let mut i: usize = 0;
        while i < entries.len()
            invariant
                i <= entries@.len(),
                positions@.len() == i,
                entries@.len() == position_order(self.queue@.dom()).len(),
                forall|j: int|
                    0 <= j < entries@.len() ==> (#[trigger] entries@[j]).0 == position_order(
                        self.queue@.dom(),
                    )[j],
                forall|j: int| 0 <= j < i ==> positions@[j] == position_order(self.queue@.dom())[j],
            decreases entries@.len() - i,
        {
            positions.push(entries[i].0);
            i += 1;
        }
        assert(positions@ =~= position_order(self.queue@.dom()));
        positions
    }

    /// Makes the track at `current` the one being played: the tracks before
    /// it become played ones, the tracks behind it unplayed ones.
    pub fn mark_current(&mut self, current: u32)
        ensures
            final(self)@ == (TrackListView {
                queue: marked_around(old(self).queue@, current),
                ..old(self)@
            }),
    {
        let positions = self.positions();
        let ghost before = self.queue@;
        proof {
            lemma_position_order(before.dom());
        }
        let mut i: usize = 0;
        while i < positions.len()
            invariant
                i <= positions@.len(),
                positions@ == position_order(before.dom()),
                positions@.no_duplicates(),
                forall|position: u32| positions@.contains(position) <==> before.dom().contains(position),
                self.album == old(self).album,
                self.playlist == old(self).playlist,
                self.list_type == old(self).list_type,
                self.queue@.dom() == before.dom(),
                forall|j: int|
                    0 <= j < i ==> self.queue@[#[trigger] positions@[j]] == track_with_status(
                        before[positions@[j]],
                        status_around(current, positions@[j]),
                    ),
                forall|j: int|
                    i <= j < positions@.len() ==> self.queue@[#[trigger] positions@[j]]
                        == before[positions@[j]],
            decreases positions@.len() - i,
        {
            let position = positions[i];
            let status = if position < current {
                TrackStatus::Played
            } else if position == current {
                TrackStatus::Playing
            } else {
                TrackStatus::Unplayed
            };
            let ghost earlier = self.queue@;
            assert(positions@.contains(position));
            self.set_track_status(position, status);
            proof {
                assert(self.queue@ == earlier.insert(
                    position,
                    track_with_status(earlier[position], status),
                ));
                assert(self.queue@.dom() =~= before.dom());
                assert forall|j: int| 0 <= j < positions@.len() && j != i implies self.queue@[positions@[j]]
                    == earlier[positions@[j]] by {
                    assert(positions@[j] != positions@[i as int]);
                }
            }
            i += 1;
        }
        proof {
            assert forall|position: u32| before.contains_key(position) implies self.queue@[position]
                == marked_around(before, current)[position] by {
                assert(positions@.contains(position));
                let j = choose|j: int| 0 <= j < positions@.len() && positions@[j] == position;
                assert(self.queue@[positions@[j]] == track_with_status(
                    before[positions@[j]],
                    status_around(current, positions@[j]),
                ));
            }
            assert(self.queue@ =~= marked_around(before, current));
        }
    }

    /// Turns the track that is being played into a played one.
    pub fn mark_finished(&mut self)
        ensures
            final(self)@ == (TrackListView {
                queue: marked_finished(old(self).queue@),
                ..old(self)@
            }),
    {
        let positions = self.positions();
        let ghost before = self.queue@;
        proof {
            lemma_position_order(before.dom());
        }
        let mut i: usize = 0;
        while i < positions.len()
            invariant
                i <= positions@.len(),
                positions@ == position_order(before.dom()),
                positions@.no_duplicates(),
                forall|position: u32| positions@.contains(position) <==> before.dom().contains(position),
                self.album == old(self).album,
                self.playlist == old(self).playlist,
                self.list_type == old(self).list_type,
                self.queue@.dom() == before.dom(),
                forall|j: int|
                    0 <= j < i ==> self.queue@[#[trigger] positions@[j]] == marked_finished(
                        before,
                    )[positions@[j]],
                forall|j: int|
                    i <= j < positions@.len() ==> self.queue@[#[trigger] positions@[j]]
                        == before[positions@[j]],
            decreases positions@.len() - i,
        {
            let position = positions[i];
            let ghost earlier = self.queue@;
            assert(positions@.contains(position));
            let playing = match self.find_track_by_index(position) {
                Some(track) => track.status == TrackStatus::Playing,
                None => false,
            };
            if playing {
                self.set_track_status(position, TrackStatus::Played);
                proof {
                    assert(self.queue@.dom() =~= before.dom());
                    assert forall|j: int| 0 <= j < positions@.len() && j != i implies self.queue@[positions@[j]]
                        == earlier[positions@[j]] by {
                        assert(positions@[j] != positions@[i as int]);
                    }
                }
            }
            i += 1;
        }
        proof {
            assert forall|position: u32| before.contains_key(position) implies self.queue@[position]
                == marked_finished(before)[position] by {
                assert(positions@.contains(position));
                let j = choose|j: int| 0 <= j < positions@.len() && positions@[j] == position;
                assert(self.queue@[positions@[j]] == marked_finished(before)[positions@[j]]);
            }
            assert(self.queue@ =~= marked_finished(before));
        }
    }

    /// The first track that is being played.
    pub fn current_track(&self) -> (track: Option<&Track>)
        ensures
            match track {
                Some(found) => self@.current_track() == Some(*found),
                None => self@.current_track() is None,
            },
    {
        broadcast use group_btree_axioms;
        broadcast use vstd::laws_cmp::group_laws_cmp;

        match self.current_position() {
            Some(position) => self.queue.get(&position),
            None => None,
        }
    }
}

/// Only one position is the lowest that is not below `floor`.
pub proof fn lemma_least_from_unique(dom: Set<u32>, floor: int, position: u32)
    requires
        least_from_at(dom, floor, position),
    ensures
        least_from(dom, floor) == Some(position),
{
    let chosen = choose|other: u32| least_from_at(dom, floor, other);
    assert(chosen <= position && position <= chosen);
}

/// Only one position is the highest below `ceiling`.
pub proof fn lemma_greatest_below_unique(dom: Set<u32>, ceiling: int, position: u32)
    requires
        greatest_below_at(dom, ceiling, position),
    ensures
        greatest_below(dom, ceiling) == Some(position),
{
    let chosen = choose|other: u32| greatest_below_at(dom, ceiling, other);
    assert(chosen <= position && position <= chosen);
}

/// Only one position holds the first track that is being played.
pub proof fn lemma_first_playing_unique(queue: Map<u32, Track>, position: u32)
    requires
        first_playing_at(queue, position),
    ensures
        forall|other: u32| first_playing_at(queue, other) ==> other == position,
        first_playing(queue) == Some(position),
{
    assert forall|other: u32| first_playing_at(queue, other) implies other == position by {
        if other < position {
            assert(!playing_at(queue, other));
        } else if position < other {
            assert(!playing_at(queue, position));
        }
    }
    assert(playing_at(queue, position));
    assert(!none_playing_in(queue));
}

} // verus!
