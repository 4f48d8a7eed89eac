//! The notification hub: one producer, any number of subscribers. Every
//! subscriber is handed the notifications published after it joined, in the
//! order of their publication. The hub retains a bounded number of
//! notifications; a subscriber that falls further behind loses the oldest
//! ones, and the producer never waits.

use crate::notification::{notification_views, Notification, NotificationView};
use std::collections::BTreeMap;
use vstd::prelude::*;
use vstd::std_specs::btree::*;

verus! {

/// The mathematical content of a hub.
pub struct HubView {
    /// How many notifications the hub retains at most.
    pub capacity: nat,
    /// Every notification ever published, in the order of publication.
    pub history: Seq<NotificationView>,
    /// How many of the latest notifications are retained.
    pub retained: nat,
    /// For each subscriber, the number of the next notification that it has
    /// not been handed yet, counted from the first one ever published.
    pub subscribers: Map<u64, nat>,
    /// How many subscribers have ever joined.
    pub issued: nat,
}

impl HubView {
    /// What holds of every hub.
    pub open spec fn wf(self) -> bool {
        &&& 1 <= self.capacity
        &&& self.retained <= self.capacity
        &&& self.retained <= self.history.len()
        &&& self.history.len() <= u64::MAX
        &&& self.issued <= u64::MAX
        &&& forall|id: u64| #[trigger]
            self.subscribers.contains_key(id) ==> id < self.issued && self.subscribers[id]
                <= self.history.len()
    }

    /// A hub without subscribers that has published nothing.
    pub open spec fn initial(capacity: nat) -> HubView {
        HubView {
            capacity,
            history: Seq::empty(),
            retained: 0,
            subscribers: Map::empty(),
            issued: 0,
        }
    }

    /// The number of the oldest notification that is retained.
    pub open spec fn oldest(self) -> nat {
        (self.history.len() - self.retained) as nat
    }

    /// The state after a notification has been published.
    pub open spec fn published(self, notification: NotificationView) -> HubView {
        HubView {
            history: self.history.push(notification),
            retained: if self.retained == self.capacity {
                self.retained
            } else {
                self.retained + 1
            },
            ..self
        }
    }

    /// The id that the next subscriber is given.
    pub open spec fn next_id(self) -> u64 {
        self.issued as u64
    }

    /// The state after a subscriber has joined: it has missed everything
    /// published so far.
    pub open spec fn subscribed(self) -> HubView {
        HubView {
            subscribers: self.subscribers.insert(self.next_id(), self.history.len()),
            issued: self.issued + 1,
            ..self
        }
    }

    /// The state after a subscriber has left.
    pub open spec fn unsubscribed(self, id: u64) -> HubView {
        HubView { subscribers: self.subscribers.remove(id), ..self }
    }

    /// The number of the notification that the subscriber is handed next:
    /// the first one that it has not been handed and that is still retained.
    pub open spec fn next_index(self, id: u64) -> Option<nat> {
        if !self.subscribers.contains_key(id) {
            None
        } else {
            let first = if self.subscribers[id] >= self.oldest() {
                self.subscribers[id]
            } else {
                self.oldest()
            };
            if first < self.history.len() {
                Some(first)
            } else {
                None
            }
        }
    }

    /// The state after the subscriber has been handed its next notification.
    pub open spec fn received(self, id: u64) -> HubView {
        match self.next_index(id) {
            Some(index) => HubView {
                subscribers: self.subscribers.insert(id, index + 1),
                ..self
            },
            None => self,
        }
    }

    /// The state after the notifications have been published one by one.
    pub open spec fn published_all(self, notifications: Seq<NotificationView>) -> HubView
        decreases notifications.len(),
    {
        if notifications.len() == 0 {
            self
        } else {
            self.published(notifications[0]).published_all(notifications.drop_first())
        }
    }
}

/// The hub.
pub struct Hub {
    capacity: usize,
    retained: Vec<Notification>,
    emitted: u64,
    subscribers: BTreeMap<u64, u64>,
    issued: u64,
    history: Ghost<Seq<NotificationView>>,
}

impl View for Hub {
    type V = HubView;

    closed spec fn view(&self) -> HubView {
        HubView {
            capacity: self.capacity as nat,
            history: self.history@,
            retained: self.retained@.len(),
            subscribers: Map::new(
                |id: u64| self.subscribers@.contains_key(id),
                |id: u64| self.subscribers@[id] as nat,
            ),
            issued: self.issued as nat,
        }
    }
}

impl Hub {
    /// What holds of every hub.
    pub closed spec fn wf(&self) -> bool {
        &&& self@.wf()
        &&& self.emitted == self.history@.len()
        &&& notification_views(self.retained@) == self.history@.subrange(
            self.history@.len() - self.retained@.len(),
            self.history@.len() as int,
        )
    }

    /// A well-formed hub has a well-formed content.
    pub proof fn lemma_wf(&self)
        requires
            self.wf(),
        ensures
            self@.wf(),
    {
    }

    /// A hub that retains up to `capacity` notifications.
    pub fn new(capacity: usize) -> (hub: Hub)
        requires
            capacity >= 1,
        ensures
            hub.wf(),
            hub@ == HubView::initial(capacity as nat),
    {
        let hub = Hub {
            capacity,
            retained: Vec::new(),
            emitted: 0,
            subscribers: BTreeMap::new(),
            issued: 0,
            history: Ghost(Seq::empty()),
        };
        proof {
            assert(hub@.subscribers =~= Map::empty());
            assert(notification_views(hub.retained@) =~= hub.history@.subrange(0, 0));
        }
        hub
    }

    /// How many notifications have been published.
    pub fn emitted(&self) -> (count: u64)
        requires
            self.wf(),
        ensures
            count == self@.history.len(),
    {
        self.emitted
    }

    /// How many subscribers have ever joined.
    pub fn issued(&self) -> (count: u64)
        ensures
            count == self@.issued,
    {
        self.issued
    }

    /// Publishes a notification to every subscriber. The producer is never
    /// held up: where the hub retains as many notifications as it can, the
    /// oldest one is dropped.
    pub fn publish(&mut self, notification: Notification)
        requires
            old(self).wf(),
            old(self)@.history.len() < u64::MAX,
        ensures
            final(self).wf(),
            final(self)@ == old(self)@.published(notification@),
    {
        if self.retained.len() == self.capacity {
            self.retained.remove(0);
        }
        self.retained.push(notification);
        self.emitted = self.emitted + 1;
        self.history = Ghost(self.history@.push(notification@));
        proof {
            assert(self@.subscribers =~= old(self)@.subscribers);
            assert(notification_views(self.retained@) =~= self.history@.subrange(
                self.history@.len() - self.retained@.len(),
                self.history@.len() as int,
            )) by {
                let before = notification_views(old(self).retained@);
                assert forall|i: int| 0 <= i < self.retained@.len() implies notification_views(
                    self.retained@,
                )[i] == self.history@[self.history@.len() - self.retained@.len() + i] by {
                    if i < self.retained@.len() - 1 {
                        if old(self).retained@.len() == old(self).capacity {
                            assert(self.retained@[i] == old(self).retained@[i + 1]);
                            assert(before[i + 1] == old(self).retained@[i + 1]@);
                        } else {
                            assert(self.retained@[i] == old(self).retained@[i]);
                            assert(before[i] == old(self).retained@[i]@);
                        }
                    }
                }
            }
        }
    }

    /// The cursor of a subscriber.
    fn cursor(&self, id: u64) -> (next: Option<u64>)
        ensures
            match next {
                Some(found) => self@.subscribers.contains_key(id) && self@.subscribers[id]
                    == found,
                None => !self@.subscribers.contains_key(id),
            },
    {
        broadcast use group_btree_axioms;
        broadcast use vstd::laws_cmp::group_laws_cmp;

        match self.subscribers.get(&id) {
            Some(next) => Some(*next),
            None => None,
        }
    }

    /// Sets the cursor of a subscriber.
    fn set_cursor(&mut self, id: u64, next: u64)
        ensures
            final(self)@ == (HubView {
                subscribers: old(self)@.subscribers.insert(id, next as nat),
                ..old(self)@
            }),
            final(self).emitted == old(self).emitted,
            final(self).retained == old(self).retained,
    {
        self.put_cursor(id, next);
        assert(self@.subscribers =~= old(self)@.subscribers.insert(id, next as nat));
    }

    /// Stores the cursor of a subscriber.
    fn put_cursor(&mut self, id: u64, next: u64)
        ensures
            final(self).subscribers@ == old(self).subscribers@.insert(id, next),
            final(self).capacity == old(self).capacity,
            final(self).emitted == old(self).emitted,
            final(self).retained == old(self).retained,
            final(self).issued == old(self).issued,
            final(self).history == old(self).history,
    {
        broadcast use group_btree_axioms;
        broadcast use vstd::laws_cmp::group_laws_cmp;

        self.subscribers.insert(id, next);
    }

    /// Forgets the cursor of a subscriber.
    fn drop_cursor(&mut self, id: u64)
        ensures
            final(self).subscribers@ == old(self).subscribers@.remove(id),
            final(self).capacity == old(self).capacity,
            final(self).emitted == old(self).emitted,
            final(self).retained == old(self).retained,
            final(self).issued == old(self).issued,
            final(self).history == old(self).history,
    {
        broadcast use group_btree_axioms;
        broadcast use vstd::laws_cmp::group_laws_cmp;

        self.subscribers.remove(&id);
    }

    /// Lets a new subscriber join and gives its id. It is handed only what is
    /// published from now on.
    pub fn subscribe(&mut self) -> (id: u64)
        requires
            old(self).wf(),
            old(self)@.issued < u64::MAX,
        ensures
            final(self).wf(),
            id == old(self)@.next_id(),
            !old(self)@.subscribers.contains_key(id),
            final(self)@ == old(self)@.subscribed(),
    {
        let id = self.issued;
        self.set_cursor(id, self.emitted);
        self.issued = self.issued + 1;
        id
    }

    /// Lets a subscriber leave. The others are not touched.
    pub fn unsubscribe(&mut self, id: u64)
        requires
            old(self).wf(),
        ensures
            final(self).wf(),
            final(self)@ == old(self)@.unsubscribed(id),
    {
        self.drop_cursor(id);
        assert(self@.subscribers =~= old(self)@.subscribers.remove(id));
    }

    /// Whether `id` is a subscriber.
    pub fn is_subscribed(&self, id: u64) -> (subscribed: bool)
        ensures
            subscribed == self@.subscribers.contains_key(id),
    {
        self.cursor(id).is_some()
    }

    /// Hands the subscriber the next notification that it has not been
    /// handed yet: the oldest such one that the hub still retains. Without
    /// one, or for an id that is no subscriber, nothing is handed over and
    /// nothing changes.
    pub fn receive(&mut self, id: u64) -> (notification: Option<Notification>)
        requires
            old(self).wf(),
        ensures
            final(self).wf(),
            final(self)@ == old(self)@.received(id),
            match notification {
                Some(handed) => old(self)@.next_index(id) matches Some(index) && handed@ == old(
                    self,
                )@.history[index as int],
                None => old(self)@.next_index(id) is None,
            },
    {
        let cursor = match self.cursor(id) {
            Some(cursor) => cursor,
            None => {
                return None;
            },
        };
        let oldest = self.emitted - self.retained.len() as u64;
        let first = if cursor >= oldest {
            cursor
        } else {
            oldest
        };
        if first < self.emitted {
            let slot = (first - oldest) as usize;
            let handed = self.retained[slot].clone();
            assert(notification_views(self.retained@)[slot as int] == self.retained@[slot as int]@);
            self.set_cursor(id, first + 1);
            Some(handed)
        } else {
            None
        }
    }

    /// How many notifications wait for the subscriber.
    pub fn pending(&self, id: u64) -> (count: usize)
        requires
            self.wf(),
        ensures
            count == (match self@.next_index(id) {
                Some(index) => self@.history.len() - index,
                None => 0,
            }),
    {
        match self.cursor(id) {
            Some(cursor) => {
                let oldest = self.emitted - self.retained.len() as u64;
                let first = if cursor >= oldest {
                    cursor
                } else {
                    oldest
                };
                (self.emitted - first) as usize
            },
            None => 0,
        }
    }
}

/// Publishing leaves every subscriber's cursor where it was and only adds to
/// the history.
pub proof fn lemma_published_all(hub: HubView, notifications: Seq<NotificationView>)
    requires
        hub.wf(),
        hub.history.len() + notifications.len() <= u64::MAX,
    ensures
        hub.published_all(notifications).wf(),
        hub.published_all(notifications).history == hub.history + notifications,
        hub.published_all(notifications).subscribers == hub.subscribers,
        hub.published_all(notifications).capacity == hub.capacity,
        hub.published_all(notifications).issued == hub.issued,
    decreases notifications.len(),
{
    if notifications.len() > 0 {
        let next = hub.published(notifications[0]);
        lemma_published_all(next, notifications.drop_first());
        assert(hub.history + notifications =~= next.history + notifications.drop_first());
    } else {
        assert(hub.history + notifications =~= hub.history);
    }
}

/// No replay: whatever is published after a subscriber has joined, the
/// subscriber is never handed a notification that was published before it
/// joined.
pub proof fn lemma_no_replay(hub: HubView, later: Seq<NotificationView>)
    requires
        hub.wf(),
        hub.issued < u64::MAX,
        hub.history.len() + later.len() <= u64::MAX,
    ensures
        ({
            let id = hub.next_id();
            let joined = hub.subscribed();
            let after = joined.published_all(later);
            &&& joined.next_index(id) is None
            &&& after.next_index(id) matches Some(index) ==> index >= hub.history.len()
                && after.history[index as int] == later[index - hub.history.len()]
        }),
{
    let joined = hub.subscribed();
    lemma_published_all(joined, later);
}

/// Order: a subscriber that is handed two notifications is handed them in
/// the order in which they were published, whatever is published in between.
pub proof fn lemma_delivery_in_order(hub: HubView, id: u64, between: Seq<NotificationView>)
    requires
        hub.wf(),
        hub.history.len() + between.len() <= u64::MAX,
        hub.next_index(id) is Some,
    ensures
        ({
            let first = hub.next_index(id)->0;
            let after = hub.received(id).published_all(between);
            &&& hub.received(id).wf()
            &&& after.history.len() >= hub.history.len()
            &&& after.history[first as int] == hub.history[first as int]
            &&& after.next_index(id) matches Some(second) ==> first < second
        }),
{
    let handed = hub.received(id);
    assert(handed.wf());
    lemma_published_all(handed, between);
}

/// At most once: a notification that a subscriber has been handed is not
/// handed to it again.
pub proof fn lemma_at_most_once(hub: HubView, id: u64)
    requires
        hub.wf(),
        hub.next_index(id) is Some,
    ensures
        hub.received(id).next_index(id) matches Some(second) ==> second > hub.next_index(id)->0,
{
}

/// Independence: what one subscriber receives or whether it leaves does not
/// change what another is handed.
pub proof fn lemma_subscribers_independent(hub: HubView, id: u64, other: u64)
    requires
        hub.wf(),
        id != other,
    ensures
        hub.received(other).next_index(id) == hub.next_index(id),
        hub.unsubscribed(other).next_index(id) == hub.next_index(id),
{
}

} // verus!
