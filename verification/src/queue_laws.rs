//! What holds of every play queue.

use crate::queue::{
    ascending, first_playing, first_playing_at, greatest_below, greatest_below_at, has_status,
    least_from, least_from_at, lemma_first_playing_unique, lemma_positions_below,
    none_playing_in, playing_at, position_order, positions_below, track_at, TrackListView,
};
use crate::service::{Track, TrackStatus};
use vstd::multiset::Multiset;
use vstd::prelude::*;

verus! {

/// The track being played, as a collection of at most one track.
pub open spec fn current_tracks(current: Option<Track>) -> Multiset<Track> {
    match current {
        Some(track) => Multiset::singleton(track),
        None => Multiset::empty(),
    }
}

/// The track being played, if its position lies below `bound`.
spec fn current_below(queue: Map<u32, Track>, bound: nat) -> Option<Track> {
    match first_playing(queue) {
        Some(position) => if position < bound {
            Some(queue[position])
        } else {
            None
        },
        None => None,
    }
}

/// The tracks at the positions below `bound`, in the order of the positions.
spec fn tracks_below(queue: Map<u32, Track>, bound: nat) -> Seq<Track> {
    positions_below(queue.dom(), bound).map_values(track_at(queue))
}

proof fn lemma_partition_below(queue: Map<u32, Track>, bound: nat)
    requires
        forall|a: u32, b: u32| playing_at(queue, a) && playing_at(queue, b) ==> a == b,
    ensures
        tracks_below(queue, bound).to_multiset() == tracks_below(queue, bound).filter(
            has_status(TrackStatus::Unplayed),
        ).to_multiset().add(
            tracks_below(queue, bound).filter(has_status(TrackStatus::Played)).to_multiset(),
        ).add(current_tracks(current_below(queue, bound))),
        tracks_below(queue, bound).filter(has_status(TrackStatus::Playing)).to_multiset()
            == current_tracks(current_below(queue, bound)),
    decreases bound,
{
    broadcast use vstd::seq_lib::group_to_multiset_ensures;

    let unplayed = has_status(TrackStatus::Unplayed);
    let played = has_status(TrackStatus::Played);
    let playing = has_status(TrackStatus::Playing);
    if bound == 0 {
        reveal(Seq::filter);
        assert(tracks_below(queue, bound) =~= Seq::<Track>::empty());
        assert(tracks_below(queue, bound).to_multiset() =~= Multiset::<Track>::empty());
        assert(tracks_below(queue, bound).filter(unplayed) =~= Seq::<Track>::empty());
        assert(tracks_below(queue, bound).filter(played) =~= Seq::<Track>::empty());
        assert(tracks_below(queue, bound).filter(playing) =~= Seq::<Track>::empty());
        assert(tracks_below(queue, bound).to_multiset() =~= tracks_below(queue, bound).filter(
            unplayed,
        ).to_multiset().add(tracks_below(queue, bound).filter(played).to_multiset()).add(
            current_tracks(current_below(queue, bound)),
        ));
    } else {
        let lower = (bound - 1) as nat;
        lemma_partition_below(queue, lower);
        let before = tracks_below(queue, lower);
        if bound - 1 <= u32::MAX && queue.dom().contains((bound - 1) as u32) {
            let top = (bound - 1) as u32;
            let track = queue[top];
            positions_below(queue.dom(), lower).lemma_push_map_commute(track_at(queue), top);
            assert(tracks_below(queue, bound) =~= before.push(track));
            before.lemma_filter_push(track, unplayed);
            before.lemma_filter_push(track, played);
            before.lemma_filter_push(track, playing);
            if track.status == TrackStatus::Playing {
                assert(playing_at(queue, top));
                assert(first_playing_at(queue, top)) by {
                    assert forall|earlier: u32| earlier < top implies !playing_at(queue, earlier) by {
                        if playing_at(queue, earlier) {
                            assert(earlier == top);
                        }
                    }
                }
                lemma_first_playing_unique(queue, top);
                assert(current_below(queue, lower) is None);
                assert(current_below(queue, bound) == Some(track));
            } else {
                assert(current_below(queue, bound) == current_below(queue, lower)) by {
                    if first_playing(queue) is Some {
                        let position = first_playing(queue)->0;
                        assert(!none_playing_in(queue));
                        if !exists|p: u32| first_playing_at(queue, p) {
                            lemma_some_first_playing(queue);
                        }
                        assert(first_playing_at(queue, position));
                        assert(position != top);
                    }
                }
            }
            assert(tracks_below(queue, bound).to_multiset() =~= tracks_below(queue, bound).filter(
                unplayed,
            ).to_multiset().add(tracks_below(queue, bound).filter(played).to_multiset()).add(
                current_tracks(current_below(queue, bound)),
            ));
            assert(tracks_below(queue, bound).filter(playing).to_multiset() =~= current_tracks(
                current_below(queue, bound),
            ));
        } else {
            assert(tracks_below(queue, bound) == before);
            assert(current_below(queue, bound) == current_below(queue, lower)) by {
                if first_playing(queue) is Some {
                    let position = first_playing(queue)->0;
                    assert(!none_playing_in(queue));
                    if !exists|p: u32| first_playing_at(queue, p) {
                        lemma_some_first_playing(queue);
                    }
                    assert(first_playing_at(queue, position));
                    assert(position != bound - 1);
                }
            }
        }
    }
}

/// Among the positions below `bound`, where one holds a track being played,
/// one holds the first such track.
proof fn lemma_first_playing_below(queue: Map<u32, Track>, bound: nat)
    requires
        exists|position: u32| position < bound && playing_at(queue, position),
    ensures
        exists|position: u32| first_playing_at(queue, position),
    decreases bound,
{
    if bound > 0 {
        if exists|position: u32| position < bound - 1 && playing_at(queue, position) {
            lemma_first_playing_below(queue, (bound - 1) as nat);
        } else {
            let found = choose|position: u32| position < bound && playing_at(queue, position);
            assert(first_playing_at(queue, found));
        }
    }
}

/// Where some track is being played, some position holds the first one.
pub proof fn lemma_some_first_playing(queue: Map<u32, Track>)
    requires
        !none_playing_in(queue),
    ensures
        exists|position: u32| first_playing_at(queue, position),
        first_playing(queue) matches Some(position) && first_playing_at(queue, position),
{
    let any = choose|position: u32| playing_at(queue, position);
    assert(any < 0x1_0000_0000);
    lemma_first_playing_below(queue, 0x1_0000_0000);
}

/// The tracks not yet played, the tracks played and the track being played
/// make up the queue, each track counted once, in every queue that holds at
/// most one track that is being played; the three differ by their status.
pub proof fn lemma_status_partition(list: TrackListView)
    requires
        list.at_most_one_playing(),
    ensures
        list.tracks().to_multiset() == list.tracks_with_status(TrackStatus::Unplayed).to_multiset().add(
            list.tracks_with_status(TrackStatus::Played).to_multiset(),
        ).add(current_tracks(list.current_track())),
        list.tracks().len() == list.tracks_with_status(TrackStatus::Unplayed).len()
            + list.tracks_with_status(TrackStatus::Played).len() + (if list.current_track() is Some {
            1nat
        } else {
            0nat
        }),
        forall|i: int|
            0 <= i < list.tracks_with_status(TrackStatus::Unplayed).len() ==> (
            #[trigger] list.tracks_with_status(TrackStatus::Unplayed)[i]).status
                == TrackStatus::Unplayed,
        forall|i: int|
            0 <= i < list.tracks_with_status(TrackStatus::Played).len() ==> (
            #[trigger] list.tracks_with_status(TrackStatus::Played)[i]).status
                == TrackStatus::Played,
        list.current_track() matches Some(track) ==> track.status == TrackStatus::Playing,
{
    broadcast use vstd::seq_lib::group_to_multiset_ensures;

    lemma_partition_below(list.queue, 0x1_0000_0000);
    assert(tracks_below(list.queue, 0x1_0000_0000) == list.tracks());
    assert(current_below(list.queue, 0x1_0000_0000) == list.current_track());
    let unplayed = list.tracks_with_status(TrackStatus::Unplayed);
    let played = list.tracks_with_status(TrackStatus::Played);
    assert forall|i: int| 0 <= i < unplayed.len() implies (#[trigger] unplayed[i]).status
        == TrackStatus::Unplayed by {
        list.tracks().lemma_filter_pred(has_status(TrackStatus::Unplayed), i);
    }
    assert forall|i: int| 0 <= i < played.len() implies (#[trigger] played[i]).status
        == TrackStatus::Played by {
        list.tracks().lemma_filter_pred(has_status(TrackStatus::Played), i);
    }
    if list.current_track() is Some {
        lemma_some_first_playing(list.queue);
    }
    assert(list.tracks().to_multiset().len() == unplayed.to_multiset().len()
        + played.to_multiset().len() + current_tracks(list.current_track()).len());
}

/// Clearing a cleared queue changes nothing.
pub proof fn lemma_clear_idempotent(list: TrackListView)
    ensures
        list.cleared().cleared() == list.cleared(),
        list.cleared() == TrackListView::empty(),
{
}

/// The empty queue plays nothing.
pub proof fn lemma_empty_plays_nothing()
    ensures
        TrackListView::empty().none_playing(),
        TrackListView::empty().at_most_one_playing(),
{
}

/// A queue that plays nothing holds at most one track that is being played.
pub proof fn lemma_none_playing_is_at_most_one(list: TrackListView)
    requires
        list.none_playing(),
    ensures
        list.at_most_one_playing(),
{
}

/// Giving a track a status other than `Playing`, or making the only track
/// that is being played the one at `position`, keeps a queue at no more than
/// one track being played.
pub proof fn lemma_status_keeps_one_playing(
    list: TrackListView,
    position: u32,
    status: TrackStatus,
)
    requires
        list.at_most_one_playing(),
        status == TrackStatus::Playing ==> forall|other: u32|
            playing_at(list.queue, other) ==> other == position,
    ensures
        list.with_track_status(position, status).at_most_one_playing(),
{
    let after = list.with_track_status(position, status);
    assert forall|a: u32, b: u32| playing_at(after.queue, a) && playing_at(after.queue, b) implies a
        == b by {
        if a != position {
            assert(playing_at(list.queue, a));
        }
        if b != position {
            assert(playing_at(list.queue, b));
        }
    }
}

/// Where a position of `dom` is not below `floor`, `least_from` gives one
/// that is in `dom`.
pub proof fn lemma_least_from_exists(dom: Set<u32>, floor: int)
    requires
        exists|position: u32| dom.contains(position) && floor <= position,
    ensures
        least_from(dom, floor) matches Some(position) && least_from_at(
            dom,
            floor,
            position,
        ),
{
    lemma_positions_below(dom, 0x1_0000_0000);
    let order = position_order(dom);
    let witness = choose|position: u32| dom.contains(position) && floor <= position;
    assert(order.contains(witness));
    lemma_first_from(order, floor, order.len() as int, dom);
}

/// Induction behind `lemma_least_from_exists`: among the first `upto`
/// entries of the ascending `order`.
proof fn lemma_first_from(order: Seq<u32>, floor: int, upto: int, dom: Set<u32>)
    requires
        0 <= upto <= order.len(),
        ascending(order),
        forall|i: int| 0 <= i < order.len() ==> dom.contains(#[trigger] order[i]),
        forall|position: u32| dom.contains(position) ==> order.contains(position),
        exists|i: int| 0 <= i < upto && floor <= order[i],
    ensures
        exists|position: u32| least_from_at(dom, floor, position),
    decreases upto,
{
    if exists|i: int| 0 <= i < upto - 1 && floor <= order[i] {
        lemma_first_from(order, floor, upto - 1, dom);
    } else {
        let found = order[upto - 1];
        assert(floor <= found);
        assert forall|other: u32| dom.contains(other) && floor <= other implies found <= other by {
            assert(order.contains(other));
            let j = choose|j: int| 0 <= j < order.len() && order[j] == other;
            if j < upto - 1 {
                assert(false);
            } else if j > upto - 1 {
                assert(order[upto - 1] < order[j]);
            }
        }
        assert(least_from_at(dom, floor, found));
    }
}

/// Where a position of `dom` is below `ceiling`, `greatest_below` gives one
/// that is in `dom`.
pub proof fn lemma_greatest_below_exists(dom: Set<u32>, ceiling: int)
    requires
        exists|position: u32| dom.contains(position) && position < ceiling,
    ensures
        greatest_below(dom, ceiling) matches Some(position) && greatest_below_at(
            dom,
            ceiling,
            position,
        ),
{
    lemma_positions_below(dom, 0x1_0000_0000);
    let order = position_order(dom);
    let witness = choose|position: u32| dom.contains(position) && position < ceiling;
    assert(order.contains(witness));
    lemma_last_below(order, ceiling, 0, dom);
}

/// Induction behind `lemma_greatest_below_exists`: among the entries of the
/// ascending `order` from `from` on.
proof fn lemma_last_below(order: Seq<u32>, ceiling: int, from: int, dom: Set<u32>)
    requires
        0 <= from <= order.len(),
        ascending(order),
        forall|i: int| 0 <= i < order.len() ==> dom.contains(#[trigger] order[i]),
        forall|position: u32| dom.contains(position) ==> order.contains(position),
        exists|i: int| from <= i < order.len() && order[i] < ceiling,
    ensures
        exists|position: u32| greatest_below_at(dom, ceiling, position),
    decreases order.len() - from,
{
    if exists|i: int| from + 1 <= i < order.len() && order[i] < ceiling {
        lemma_last_below(order, ceiling, from + 1, dom);
    } else {
        let found = order[from];
        assert(found < ceiling);
        assert forall|other: u32| dom.contains(other) && other < ceiling implies other <= found by {
            assert(order.contains(other));
            let j = choose|j: int| 0 <= j < order.len() && order[j] == other;
            if j > from {
                assert(false);
            } else if j < from {
                assert(order[j] < order[from]);
            }
        }
        assert(greatest_below_at(dom, ceiling, found));
    }
}

} // verus!
