//! The hub: every message that a session publishes goes to every other
//! session. Each subscriber reads at its own pace; one that falls too far
//! behind loses the oldest messages and is told how many.

use vstd::prelude::*;
use tokio::sync::broadcast::{Receiver, Sender};
use crate::channel::{
    attached, channel_log, channel_receivers, channel_release, channel_send, channel_subscribe,
    channel_try_recv, channel_width, doubled_up_to, next_power_of_two, open_channel,
    receiver_position, Polled,
};

verus! {

/// The state of a hub.
pub struct HubView {
    /// How many messages the hub retains for a subscriber that does not
    /// read.
    pub width: nat,
    /// Every message the hub has taken, oldest first, each with the
    /// subscriber it came from.
    pub log: Seq<(u64, Seq<char>)>,
    /// The subscribers, in the order in which they came.
    pub ids: Seq<u64>,
    /// For each subscriber, the place in `log` that it reads next.
    pub cursors: Map<u64, nat>,
    /// The number that the next subscriber gets.
    pub next_id: nat,
}

/// What a subscriber gets when it asks the hub once.
#[derive(Clone, Debug, PartialEq, Eq)]
pub enum Delivery {
    /// The next message of another subscriber.
    Text(String),
    /// So many messages were lost before the subscriber read them. It goes
    /// on with the oldest message that is retained.
    Missed(u64),
    /// Nothing is waiting.
    Idle,
    /// The hub has no subscriber of that number.
    Unknown,
}

/// The mathematical value of a [`Delivery`].
pub enum DeliveryView {
    Text(Seq<char>),
    Missed(nat),
    Idle,
    Unknown,
}

impl View for Delivery {
    type V = DeliveryView;

    open spec fn view(&self) -> DeliveryView {
        match self {
            Delivery::Text(t) => DeliveryView::Text(t@),
            Delivery::Missed(n) => DeliveryView::Missed(*n as nat),
            Delivery::Idle => DeliveryView::Idle,
            Delivery::Unknown => DeliveryView::Unknown,
        }
    }
}

/// The first place at or behind `from` whose message did not come from
/// `id`; the length of `log` if there is none.
pub open spec fn first_foreign(log: Seq<(u64, Seq<char>)>, from: nat, id: u64) -> nat
    decreases log.len() - from,
{
    if from >= log.len() {
        log.len()
    } else if log[from as int].0 != id {
        from
    } else {
        first_foreign(log, from + 1, id)
    }
}

impl HubView {
    /// What holds of every hub.
    pub open spec fn wf(self) -> bool {
        &&& self.width > 0
        &&& self.log.len() <= u64::MAX
        &&& self.next_id <= u64::MAX
        &&& self.ids.no_duplicates()
        &&& forall|id: u64| self.ids.contains(id) <==> self.cursors.contains_key(id)
        &&& forall|id: u64| #[trigger]
            self.cursors.contains_key(id) ==> id < self.next_id && self.cursors[id]
                <= self.log.len()
    }

    /// Whether `id` is a subscriber.
    pub open spec fn subscribed(self, id: u64) -> bool {
        self.cursors.contains_key(id)
    }

    /// How many messages `id` has not read.
    pub open spec fn backlog(self, id: u64) -> nat {
        (self.log.len() - self.cursors[id]) as nat
    }

    /// Whether `id` has fallen so far behind that messages are lost to it.
    pub open spec fn lagging(self, id: u64) -> bool {
        self.backlog(id) > self.width
    }

    /// Whether a new subscriber can be taken.
    pub open spec fn has_room(self) -> bool {
        self.next_id < u64::MAX && self.ids.len() < usize::MAX / 4
    }

    /// Whether a message that is published now is taken: there is someone
    /// to read it, and the hub has not taken `u64::MAX` messages.
    pub open spec fn takes(self) -> bool {
        self.ids.len() > 0 && self.log.len() < u64::MAX
    }

    /// The hub after a new subscriber has come. It starts behind everything
    /// that was published before.
    pub open spec fn after_subscribe(self) -> HubView {
        HubView {
            ids: self.ids.push(self.next_id as u64),
            cursors: self.cursors.insert(self.next_id as u64, self.log.len()),
            next_id: self.next_id + 1,
            ..self
        }
    }

    /// The hub after `id` has left.
    pub open spec fn after_unsubscribe(self, id: u64) -> HubView {
        if self.subscribed(id) {
            HubView {
                ids: self.ids.remove(self.ids.index_of(id)),
                cursors: self.cursors.remove(id),
                ..self
            }
        } else {
            self
        }
    }

    /// The hub after `origin` has published `text`.
    pub open spec fn after_publish(self, origin: u64, text: Seq<char>) -> HubView {
        if self.takes() {
            HubView { log: self.log.push((origin, text)), ..self }
        } else {
            self
        }
    }

    /// What `id` gets when it asks once.
    pub open spec fn polled(self, id: u64) -> DeliveryView {
        if !self.subscribed(id) {
            DeliveryView::Unknown
        } else if self.lagging(id) {
            DeliveryView::Missed((self.backlog(id) - self.width) as nat)
        } else {
            let at = first_foreign(self.log, self.cursors[id], id);
            if at < self.log.len() {
                DeliveryView::Text(self.log[at as int].1)
            } else {
                DeliveryView::Idle
            }
        }
    }

    /// The hub after `id` has asked once.
    pub open spec fn after_poll(self, id: u64) -> HubView {
        if !self.subscribed(id) {
            self
        } else if self.lagging(id) {
            HubView {
                cursors: self.cursors.insert(id, (self.log.len() - self.width) as nat),
                ..self
            }
        } else {
            let at = first_foreign(self.log, self.cursors[id], id);
            HubView {
                cursors: self.cursors.insert(
                    id,
                    if at < self.log.len() {
                        at + 1
                    } else {
                        self.log.len()
                    },
                ),
                ..self
            }
        }
    }
}

/// One subscriber of a hub.
pub struct Subscriber {
    id: u64,
    rx: Receiver<(u64, String)>,
}

/// The hub. It holds the sender of a broadcast channel and the receiver of
/// every subscriber.
pub struct Hub {
    tx: Sender<(u64, String)>,
    subs: Vec<Subscriber>,
    next_id: u64,
    taken: u64,
    width: usize,
}

/// The numbers of `subs`, in order.
pub closed spec fn ids_of(subs: Seq<Subscriber>) -> Seq<u64> {
    subs.map_values(|s: Subscriber| s.id)
}

/// Where each of `subs` stands, by its number.
pub closed spec fn cursors_of(subs: Seq<Subscriber>) -> Map<u64, nat> {
    Map::new(
        |id: u64| ids_of(subs).contains(id),
        |id: u64| receiver_position(subs[ids_of(subs).index_of(id)].rx),
    )
}

impl View for Hub {
    type V = HubView;

    closed spec fn view(&self) -> HubView {
        HubView {
            width: channel_width(self.tx),
            log: channel_log(self.tx),
            ids: ids_of(self.subs@),
            cursors: cursors_of(self.subs@),
            next_id: self.next_id as nat,
        }
    }
}

/// The subscriber at place `i` is found by its number, and stands where its
/// receiver stands.
proof fn lemma_cursor_at(subs: Seq<Subscriber>, i: int)
    requires
        ids_of(subs).no_duplicates(),
        0 <= i < subs.len(),
    ensures
        ids_of(subs).contains(subs[i].id),
        ids_of(subs).index_of(subs[i].id) == i,
        cursors_of(subs).contains_key(subs[i].id),
        cursors_of(subs)[subs[i].id] == receiver_position(subs[i].rx),
{
    let ids = ids_of(subs);
    assert(ids[i] == subs[i].id);
    assert(ids.contains(subs[i].id));
    let found = ids.index_of(subs[i].id);
    assert(0 <= found < ids.len() && ids[found] == subs[i].id);
}

/// A number that belongs to a subscriber belongs to the one at some place.
proof fn lemma_id_place(subs: Seq<Subscriber>, id: u64) -> (i: int)
    requires
        ids_of(subs).contains(id),
    ensures
        0 <= i < subs.len(),
        subs[i].id == id,
{
    let ids = ids_of(subs);
    let i = choose|i: int| 0 <= i < ids.len() && ids[i] == id;
    i
}

impl Hub {
    /// What holds of every hub between two calls.
    pub closed spec fn wf(&self) -> bool {
        &&& channel_receivers(self.tx) == self.subs@.len()
        &&& channel_log(self.tx).len() == self.taken
        &&& channel_width(self.tx) == self.width
        &&& self.width > 0
        &&& self.subs@.len() <= usize::MAX / 4
        &&& ids_of(self.subs@).no_duplicates()
        &&& forall|i: int|
            0 <= i < self.subs@.len() ==> attached((#[trigger] self.subs@[i]).rx, self.tx)
                && self.subs@[i].id < self.next_id && receiver_position(self.subs@[i].rx)
                <= self.taken
    }

    /// The state of a hub is the state of a hub.
    pub proof fn lemma_view_wf(&self)
        requires
            self.wf(),
        ensures
            self@.wf(),
    {
        let subs = self.subs@;
        assert forall|id: u64| #[trigger] self@.cursors.contains_key(id) implies id
            < self@.next_id && self@.cursors[id] <= self@.log.len() by {
            let i = lemma_id_place(subs, id);
            lemma_cursor_at(subs, i);
        }
    }

    /// The place of the subscriber `id` among the subscribers.
    fn find(&self, id: u64) -> (place: Option<usize>)
        ensures
            match place {
                Some(i) => i < self.subs@.len() && self.subs@[i as int].id == id,
                None => !ids_of(self.subs@).contains(id),
            },
    {
        let mut i: usize = 0;
        while i < self.subs.len()
            invariant
                i <= self.subs@.len(),
                forall|k: int| 0 <= k < i ==> self.subs@[k].id != id,
            decreases self.subs@.len() - i,
        {
            if self.subs[i].id == id {
                return Some(i);
            }
            i += 1;
        }
        proof {
            if ids_of(self.subs@).contains(id) {
                lemma_id_place(self.subs@, id);
            }
        }
        None
    }

    /// A hub that retains `capacity` messages, rounded up to a power of
    /// two, for a subscriber that does not read. There is no hub of
    /// capacity zero, nor of one above `usize::MAX / 2`.
    pub fn new(capacity: usize) -> (made: Option<Hub>)
        ensures
            made is Some <==> 0 < capacity <= usize::MAX / 2,
            made matches Some(hub) ==> hub.wf() && hub@ == (HubView {
                width: next_power_of_two(capacity as nat),
                log: Seq::empty(),
                ids: Seq::empty(),
                cursors: Map::empty(),
                next_id: 0,
            }),
    {
        if capacity == 0 || capacity > usize::MAX / 2 {
            return None;
        }
        let mut width: usize = 1;
        while width < capacity
            invariant
                0 < width,
                capacity <= usize::MAX / 2,
                doubled_up_to(width as nat, capacity as nat) == next_power_of_two(capacity as nat),
            decreases (if width < capacity { capacity - width } else { 0 }),
        {
            width = width * 2;
        }
        let tx = open_channel(capacity);
        let hub = Hub { tx, subs: Vec::new(), next_id: 0, taken: 0, width };
        proof {
            assert(ids_of(hub.subs@) =~= Seq::<u64>::empty());
            assert(cursors_of(hub.subs@) =~= Map::<u64, nat>::empty());
        }
        Some(hub)
    }

    /// How many messages the hub retains for a subscriber that does not
    /// read.
    pub fn capacity(&self) -> (width: usize)
        requires
            self.wf(),
        ensures
            width == self@.width,
    {
        self.width
    }

    /// How many subscribers the hub has.
    pub fn subscriber_count(&self) -> (count: usize)
        requires
            self.wf(),
        ensures
            count == self@.ids.len(),
    {
        self.subs.len()
    }

    /// How many messages the hub has taken.
    pub fn published(&self) -> (count: u64)
        requires
            self.wf(),
        ensures
            count == self@.log.len(),
    {
        self.taken
    }

    /// Takes a new subscriber and gives its number. It will see what is
    /// published from now on.
    pub fn subscribe(&mut self) -> (id: Option<u64>)
        requires
            old(self).wf(),
        ensures
            final(self).wf(),
            id is Some <==> old(self)@.has_room(),
            id matches Some(n) ==> n == old(self)@.next_id && final(self)@ == old(
                self,
            )@.after_subscribe(),
            id is None ==> final(self)@ == old(self)@,
    {
        if self.next_id == u64::MAX || self.subs.len() >= usize::MAX / 4 {
            return None;
        }
        let ghost before = self.subs@;
        let rx = channel_subscribe(&mut self.tx);
        let id = self.next_id;
        self.subs.push(Subscriber { id, rx });
        self.next_id = id + 1;
        proof {
            let after = self.subs@;
            assert(ids_of(after) =~= ids_of(before).push(id));
            assert(!ids_of(before).contains(id)) by {
                if ids_of(before).contains(id) {
                    let k = lemma_id_place(before, id);
                    assert(before[k].id < id);
                }
            }
            assert(ids_of(after).no_duplicates());
            assert forall|i: int| 0 <= i < after.len() implies attached(
                (#[trigger] after[i]).rx,
                self.tx,
            ) && after[i].id < self.next_id && receiver_position(after[i].rx) <= self.taken by {
                if i < before.len() {
                    assert(after[i] == before[i]);
                }
            }
            assert forall|k: u64|
                cursors_of(after).contains_key(k) <==> cursors_of(before).insert(
                    id,
                    old(self)@.log.len(),
                ).contains_key(k) by {
                if ids_of(before).contains(k) {
                    let j = lemma_id_place(before, k);
                    assert(ids_of(after)[j] == k);
                }
                if ids_of(after).contains(k) && k != id {
                    let j = lemma_id_place(after, k);
                    assert(ids_of(before)[j] == k);
                }
                assert(ids_of(after)[before.len() as int] == id);
            }
            assert forall|k: u64| cursors_of(after).contains_key(k) implies cursors_of(after)[k]
                == cursors_of(before).insert(id, old(self)@.log.len())[k] by {
                let j = lemma_id_place(after, k);
                lemma_cursor_at(after, j);
                if j < before.len() {
                    assert(after[j] == before[j]);
                    lemma_cursor_at(before, j);
                }
            }
            assert(cursors_of(after) =~= cursors_of(before).insert(id, old(self)@.log.len()));
        }
        Some(id)
    }

    /// Publishes `text` as coming from `origin`, and gives the number of
    /// subscribers it was taken for: zero where it was not taken.
    pub fn publish(&mut self, origin: u64, text: String) -> (reached: usize)
        requires
            old(self).wf(),
        ensures
            final(self).wf(),
            final(self)@ == old(self)@.after_publish(origin, text@),
            reached == if old(self)@.takes() {
                old(self)@.ids.len()
            } else {
                0
            },
    {
        if self.taken == u64::MAX {
            return 0;
        }
        let ghost subs = self.subs@;
        match channel_send(&mut self.tx, origin, text) {
            Some(n) => {
                self.taken = self.taken + 1;
                assert(self.subs@ == subs);
                n
            },
            None => 0,
        }
    }
}

/// Where only the subscriber at place `i` has moved, only its cursor has
/// changed.
proof fn lemma_cursor_moved(before: Seq<Subscriber>, after: Seq<Subscriber>, i: int)
    requires
        ids_of(before).no_duplicates(),
        0 <= i < before.len(),
        after.len() == before.len(),
        forall|k: int| 0 <= k < before.len() && k != i ==> after[k] == before[k],
        after[i].id == before[i].id,
    ensures
        ids_of(after) == ids_of(before),
        cursors_of(after) == cursors_of(before).insert(
            before[i].id,
            receiver_position(after[i].rx),
        ),
{
    assert(ids_of(after) =~= ids_of(before));
    let id = before[i].id;
    lemma_cursor_at(before, i);
    assert forall|k: u64| cursors_of(after).contains_key(k) implies cursors_of(after)[k]
        == cursors_of(before).insert(id, receiver_position(after[i].rx))[k] by {
        let j = lemma_id_place(after, k);
        lemma_cursor_at(after, j);
        lemma_cursor_at(before, j);
    }
    assert(cursors_of(after) =~= cursors_of(before).insert(id, receiver_position(after[i].rx)));
}

/// Where the subscriber at place `i` has left, its cursor is gone and the
/// others stand as before.
proof fn lemma_cursor_removed(before: Seq<Subscriber>, i: int)
    requires
        ids_of(before).no_duplicates(),
        0 <= i < before.len(),
    ensures
        ids_of(before.remove(i)) == ids_of(before).remove(i),
        ids_of(before).index_of(before[i].id) == i,
        ids_of(before.remove(i)).no_duplicates(),
        cursors_of(before.remove(i)) == cursors_of(before).remove(before[i].id),
{
    let after = before.remove(i);
    let id = before[i].id;
    lemma_cursor_at(before, i);
    assert(ids_of(after) =~= ids_of(before).remove(i));
    assert forall|a: int, b: int|
        0 <= a < after.len() && 0 <= b < after.len() && a != b implies ids_of(after)[a] != ids_of(
        after,
    )[b] by {
        let a0 = if a < i { a } else { a + 1 };
        let b0 = if b < i { b } else { b + 1 };
        assert(ids_of(after)[a] == ids_of(before)[a0]);
        assert(ids_of(after)[b] == ids_of(before)[b0]);
    }
    assert forall|k: u64|
        cursors_of(after).contains_key(k) <==> cursors_of(before).remove(id).contains_key(k) by {
        if ids_of(after).contains(k) {
            let j = lemma_id_place(after, k);
            let j0 = if j < i { j } else { j + 1 };
            assert(ids_of(before)[j0] == k);
        }
        if ids_of(before).contains(k) && k != id {
            let j0 = lemma_id_place(before, k);
            let j = if j0 < i { j0 } else { j0 - 1 };
            assert(ids_of(after)[j] == k);
        }
    }
    assert forall|k: u64| cursors_of(after).contains_key(k) implies cursors_of(after)[k]
        == cursors_of(before).remove(id)[k] by {
        let j = lemma_id_place(after, k);
        let j0 = if j < i { j } else { j + 1 };
        lemma_cursor_at(after, j);
        lemma_cursor_at(before, j0);
    }
    assert(cursors_of(after) =~= cursors_of(before).remove(id));
}

impl Hub {
    /// Lets the subscriber `id` go, and says whether there was one.
    pub fn unsubscribe(&mut self, id: u64) -> (was: bool)
        requires
            old(self).wf(),
        ensures
            final(self).wf(),
            was == old(self)@.subscribed(id),
            final(self)@ == old(self)@.after_unsubscribe(id),
    {
        let ghost before = self.subs@;
        match self.find(id) {
            Some(i) => {
                proof {
                    lemma_cursor_at(before, i as int);
                    lemma_cursor_removed(before, i as int);
                }
                let gone = self.subs.remove(i);
                channel_release(&mut self.tx, gone.rx);
                proof {
                    let after = self.subs@;
                    assert forall|k: int| 0 <= k < after.len() implies attached(
                        (#[trigger] after[k]).rx,
                        self.tx,
                    ) && after[k].id < self.next_id && receiver_position(after[k].rx)
                        <= self.taken by {
                        let k0 = if k < i { k } else { k + 1 };
                        assert(after[k] == before[k0]);
                    }
                }
                true
            },
            None => false,
        }
    }

    /// Gives the subscriber `id` what waits for it: the oldest message of
    /// another subscriber that it has not read, or the number of messages it
    /// has lost. What `id` itself published is passed over.
    pub fn receive(&mut self, id: u64) -> (got: Delivery)
        requires
            old(self).wf(),
        ensures
            final(self).wf(),
            got@ == old(self)@.polled(id),
            final(self)@ == old(self)@.after_poll(id),
    {
        let i = match self.find(id) {
            Some(i) => i,
            None => { return Delivery::Unknown; },
        };
        let ghost before = self.subs@;
        let ghost start = receiver_position(before[i as int].rx);
        let ghost log = channel_log(self.tx);
        proof {
            lemma_cursor_at(before, i as int);
        }
        let mut first = true;
        loop
            invariant
                self.wf(),
                self.tx == old(self).tx,
                self.next_id == old(self).next_id,
                self.width == old(self).width,
                cursors_of(before).contains_key(id),
                cursors_of(before)[id] == start,
                log == channel_log(self.tx),
                before == old(self).subs@,
                ids_of(before).no_duplicates(),
                0 <= i < before.len(),
                before[i as int].id == id,
                start == receiver_position(before[i as int].rx),
                self.subs@.len() == before.len(),
                forall|k: int| 0 <= k < before.len() && k != i ==> self.subs@[k] == before[k],
                self.subs@[i as int].id == id,
                start <= receiver_position(self.subs@[i as int].rx) <= log.len(),
                first ==> receiver_position(self.subs@[i as int].rx) == start,
                !first ==> log.len() <= start + self.width,
                first_foreign(log, receiver_position(self.subs@[i as int].rx), id)
                    == first_foreign(log, start, id),
            decreases log.len() - receiver_position(self.subs@[i as int].rx),
        {
            let got = channel_try_recv(&self.tx, &mut self.subs[i].rx);
            proof {
                lemma_cursor_moved(before, self.subs@, i as int);
            }
            match got {
                Polled::Value(origin, text) => {
                    if origin != id {
                        return Delivery::Text(text);
                    }
                    first = false;
                },
                Polled::Lagged(missed) => {
                    return Delivery::Missed(missed);
                },
                Polled::Empty => {
                    return Delivery::Idle;
                },
                Polled::Closed => {
                    return Delivery::Idle;
                },
            }
        }
    }
}

/// The texts in `log` at and behind `from` that did not come from `id`,
/// oldest first: what `id` reads if nothing is lost.
pub open spec fn texts_for(log: Seq<(u64, Seq<char>)>, from: nat, id: u64) -> Seq<Seq<char>>
    decreases log.len() - from,
{
    if from >= log.len() {
        Seq::empty()
    } else if log[from as int].0 != id {
        seq![log[from as int].1] + texts_for(log, from + 1, id)
    } else {
        texts_for(log, from + 1, id)
    }
}

impl HubView {
    /// What waits for `id`: every message of another subscriber that `id`
    /// has not read, oldest first.
    pub open spec fn waiting(self, id: u64) -> Seq<Seq<char>> {
        texts_for(self.log, self.cursors[id], id)
    }

    /// The place in the log of the message that `id` gets when it asks
    /// now; `None` where it gets no message.
    pub open spec fn delivered_at(self, id: u64) -> Option<nat> {
        if self.subscribed(id) && !self.lagging(id) && first_foreign(
            self.log,
            self.cursors[id],
            id,
        ) < self.log.len() {
            Some(first_foreign(self.log, self.cursors[id], id))
        } else {
            None
        }
    }

    /// The hub after each of `entries` has been published, in order.
    pub open spec fn after_publish_all(self, entries: Seq<(u64, Seq<char>)>) -> HubView
        decreases entries.len(),
    {
        if entries.len() == 0 {
            self
        } else {
            self.after_publish(entries[0].0, entries[0].1).after_publish_all(entries.skip(1))
        }
    }

    /// `later` is a state that the hub can come to from this one: nothing
    /// that was taken is changed or reordered, no subscriber has gone back,
    /// and no number is given twice.
    pub open spec fn precedes(self, later: HubView) -> bool {
        &&& self.width == later.width
        &&& self.log.len() <= later.log.len()
        &&& later.log.subrange(0, self.log.len() as int) == self.log
        &&& self.next_id <= later.next_id
        &&& forall|id: u64| #[trigger]
            later.subscribed(id) && id < self.next_id ==> self.subscribed(id) && self.cursors[id]
                <= later.cursors[id]
    }
}

/// What waits for `id` in a log with one message more.
pub proof fn lemma_texts_push(log: Seq<(u64, Seq<char>)>, from: nat, id: u64, entry: (
    u64,
    Seq<char>,
))
    requires
        from <= log.len(),
    ensures
        texts_for(log.push(entry), from, id) == if entry.0 != id {
            texts_for(log, from, id).push(entry.1)
        } else {
            texts_for(log, from, id)
        },
    decreases log.len() - from,
{
    let longer = log.push(entry);
    if from < log.len() {
        assert(longer[from as int] == log[from as int]);
        lemma_texts_push(log, from + 1, id, entry);
        if entry.0 != id {
            assert(texts_for(longer, from, id) =~= texts_for(log, from, id).push(entry.1));
        }
    } else {
        assert(texts_for(longer, from + 1, id) =~= Seq::<Seq<char>>::empty());
        if entry.0 != id {
            assert(texts_for(longer, from, id) =~= texts_for(log, from, id).push(entry.1));
        }
    }
}

/// What waits for `id` begins at the first message that did not come from
/// `id`.
pub proof fn lemma_texts_first(log: Seq<(u64, Seq<char>)>, from: nat, id: u64)
    requires
        from <= log.len(),
    ensures
        ({
            let at = first_foreign(log, from, id);
            &&& from <= at <= log.len()
            &&& forall|k: int| from <= k < at ==> log[k].0 == id
            &&& at < log.len() ==> log[at as int].0 != id && texts_for(log, from, id) == seq![
                log[at as int].1,
            ] + texts_for(log, at + 1, id)
            &&& at == log.len() ==> texts_for(log, from, id) == Seq::<Seq<char>>::empty()
        }),
    decreases log.len() - from,
{
    if from < log.len() && log[from as int].0 == id {
        lemma_texts_first(log, from + 1, id);
    }
}

/// Fan-out: a message that the hub takes from `origin` waits for every
/// other subscriber, behind what waited for it before.
pub proof fn lemma_publish_reaches_others(h: HubView, origin: u64, text: Seq<char>, other: u64)
    requires
        h.wf(),
        h.takes(),
        h.subscribed(other),
        other != origin,
    ensures
        h.after_publish(origin, text).waiting(other) == h.waiting(other).push(text),
{
    lemma_texts_push(h.log, h.cursors[other], other, (origin, text));
}

/// No echo: what a subscriber publishes never waits for that subscriber.
pub proof fn lemma_publish_no_echo(h: HubView, origin: u64, text: Seq<char>)
    requires
        h.wf(),
        h.subscribed(origin),
    ensures
        h.after_publish(origin, text).waiting(origin) == h.waiting(origin),
{
    if h.takes() {
        lemma_texts_push(h.log, h.cursors[origin], origin, (origin, text));
    }
}

/// A subscriber that has lost nothing gets what waits for it, oldest
/// first: asking once takes the first of it, and finds nothing only where
/// nothing waits.
pub proof fn lemma_poll_takes_first(h: HubView, id: u64)
    requires
        h.wf(),
        h.subscribed(id),
        !h.lagging(id),
    ensures
        h.waiting(id).len() > 0 ==> h.polled(id) == DeliveryView::Text(h.waiting(id)[0])
            && h.after_poll(id).waiting(id) == h.waiting(id).skip(1),
        h.waiting(id).len() == 0 ==> h.polled(id) == DeliveryView::Idle && h.after_poll(
            id,
        ).waiting(id) == h.waiting(id),
        !h.after_poll(id).lagging(id),
{
    lemma_texts_first(h.log, h.cursors[id], id);
    let at = first_foreign(h.log, h.cursors[id], id);
    if at < h.log.len() {
        assert(h.waiting(id).skip(1) =~= texts_for(h.log, at + 1, id));
    }
}

/// Overflow: a subscriber that is more than the hub's width behind is told
/// so when it asks, with the number of messages it has lost, and goes on
/// with the oldest one that is retained.
pub proof fn lemma_lagging_is_told(h: HubView, id: u64)
    requires
        h.wf(),
        h.subscribed(id),
        h.backlog(id) > h.width,
    ensures
        h.polled(id) == DeliveryView::Missed((h.backlog(id) - h.width) as nat),
        h.after_poll(id).backlog(id) == h.width,
        !h.after_poll(id).lagging(id),
{
}

/// Publishing adds to the log and moves no subscriber.
pub proof fn lemma_publish_all(h: HubView, entries: Seq<(u64, Seq<char>)>)
    requires
        h.wf(),
        h.ids.len() > 0,
        h.log.len() + entries.len() <= u64::MAX,
    ensures
        h.after_publish_all(entries).log == h.log + entries,
        h.after_publish_all(entries).cursors == h.cursors,
        h.after_publish_all(entries).width == h.width,
        h.after_publish_all(entries).ids == h.ids,
        h.after_publish_all(entries).next_id == h.next_id,
        h.after_publish_all(entries).wf(),
    decreases entries.len(),
{
    if entries.len() == 0 {
        assert(h.log + entries =~= h.log);
    } else {
        let next = h.after_publish(entries[0].0, entries[0].1);
        lemma_publish_all(next, entries.skip(1));
        assert(next.log + entries.skip(1) =~= h.log + entries);
    }
}

/// Overflow: where more messages than the hub's width are published while
/// a subscriber does not read, the subscriber is told of the loss when it
/// asks again.
pub proof fn lemma_overflow_is_detected(h: HubView, id: u64, entries: Seq<(u64, Seq<char>)>)
    requires
        h.wf(),
        h.subscribed(id),
        entries.len() > h.width,
        h.log.len() + entries.len() <= u64::MAX,
    ensures
        h.after_publish_all(entries).polled(id) == DeliveryView::Missed(
            (h.backlog(id) + entries.len() - h.width) as nat,
        ),
{
    assert(h.ids.contains(id));
    lemma_publish_all(h, entries);
}

/// Each step of a hub leads to a state that it precedes.
pub proof fn lemma_steps_precede(h: HubView, id: u64, text: Seq<char>)
    requires
        h.wf(),
    ensures
        h.precedes(h.after_publish(id, text)),
        h.precedes(h.after_poll(id)),
        h.precedes(h.after_unsubscribe(id)),
        h.has_room() ==> h.precedes(h.after_subscribe()),
        h.after_publish(id, text).wf(),
        h.after_poll(id).wf(),
        h.after_unsubscribe(id).wf(),
        h.has_room() ==> h.after_subscribe().wf(),
{
    assert(h.log.subrange(0, h.log.len() as int) =~= h.log);
    assert(h.log.push((id, text)).subrange(0, h.log.len() as int) =~= h.log);
    if h.subscribed(id) {
        lemma_texts_first(h.log, h.cursors[id], id);
        let gone = h.after_unsubscribe(id);
        let at = h.ids.index_of(id);
        assert(h.ids.contains(id));
        assert(0 <= at < h.ids.len() && h.ids[at] == id);
        assert forall|other: u64| gone.ids.contains(other) <==> gone.cursors.contains_key(
            other,
        ) by {
            if gone.ids.contains(other) {
                let k = choose|k: int| 0 <= k < gone.ids.len() && gone.ids[k] == other;
                let k0 = if k < at { k } else { k + 1 };
                assert(h.ids[k0] == other);
                assert(h.ids.contains(other));
            }
            if gone.cursors.contains_key(other) {
                assert(h.ids.contains(other));
                let k0 = choose|k: int| 0 <= k < h.ids.len() && h.ids[k] == other;
                let k = if k0 < at { k0 } else { k0 - 1 };
                assert(gone.ids[k] == other);
            }
        }
        assert(gone.ids.no_duplicates()) by {
            assert forall|a: int, b: int|
                0 <= a < gone.ids.len() && 0 <= b < gone.ids.len() && a != b implies gone.ids[a]
                != gone.ids[b] by {
                let a0 = if a < at { a } else { a + 1 };
                let b0 = if b < at { b } else { b + 1 };
                assert(gone.ids[a] == h.ids[a0]);
                assert(gone.ids[b] == h.ids[b0]);
            }
        }
    }
    if h.has_room() {
        let more = h.after_subscribe();
        let new_id = h.next_id as u64;
        assert(!h.ids.contains(new_id));
        assert forall|other: u64| more.ids.contains(other) <==> more.cursors.contains_key(
            other,
        ) by {
            if more.ids.contains(other) && other != new_id {
                let k = choose|k: int| 0 <= k < more.ids.len() && more.ids[k] == other;
                assert(h.ids[k] == other);
                assert(h.ids.contains(other));
            }
            if h.ids.contains(other) {
                let k = choose|k: int| 0 <= k < h.ids.len() && h.ids[k] == other;
                assert(more.ids[k] == other);
            }
            assert(more.ids[h.ids.len() as int] == new_id);
        }
    }
}

/// Coming to a later state in two steps is coming to a later state.
pub proof fn lemma_precedes_transitive(a: HubView, b: HubView, c: HubView)
    requires
        a.precedes(b),
        b.precedes(c),
    ensures
        a.precedes(c),
{
    assert(c.log.subrange(0, a.log.len() as int) =~= b.log.subrange(0, a.log.len() as int));
    assert forall|id: u64| #[trigger] c.subscribed(id) && id < a.next_id implies a.subscribed(
        id,
    ) && a.cursors[id] <= c.cursors[id] by {
        assert(b.subscribed(id));
    }
}

/// Order: a subscriber never gets a message after one that was published
/// later. Where it got the message at place `first` and, in any later state
/// of the hub, gets the one at place `second`, then `second` lies behind
/// `first`, and the earlier message still stands at `first`.
pub proof fn lemma_delivery_in_order(h: HubView, later: HubView, id: u64)
    requires
        h.wf(),
        later.wf(),
        h.delivered_at(id) is Some,
        h.after_poll(id).precedes(later),
        later.delivered_at(id) is Some,
    ensures
        h.delivered_at(id).unwrap() < later.delivered_at(id).unwrap(),
        later.log[h.delivered_at(id).unwrap() as int] == h.log[h.delivered_at(id).unwrap() as int],
{
    let first = h.delivered_at(id).unwrap();
    lemma_texts_first(h.log, h.cursors[id], id);
    let next = h.after_poll(id);
    assert(next.cursors[id] == first + 1);
    assert(later.subscribed(id));
    assert(later.cursors[id] >= first + 1);
    lemma_texts_first(later.log, later.cursors[id], id);
    assert(later.log.subrange(0, h.log.len() as int)[first as int] == h.log[first as int]);
}

/// Order: of two messages that are published one after the other, the
/// first stands before the second in the log.
pub proof fn lemma_publish_appends(h: HubView, origin: u64, text: Seq<char>)
    requires
        h.wf(),
        h.takes(),
    ensures
        h.after_publish(origin, text).log.len() == h.log.len() + 1,
        h.after_publish(origin, text).log[h.log.len() as int] == (origin, text),
        forall|k: int| 0 <= k < h.log.len() ==> h.after_publish(origin, text).log[k] == h.log[k],
{
}

/// A new subscriber starts with nothing waiting: it sees what is published
/// after it came, and nothing of what was published before.
pub proof fn lemma_subscriber_starts_empty(h: HubView)
    requires
        h.wf(),
        h.has_room(),
    ensures
        h.after_subscribe().subscribed(h.next_id as u64),
        h.after_subscribe().waiting(h.next_id as u64) == Seq::<Seq<char>>::empty(),
        h.after_subscribe().polled(h.next_id as u64) == DeliveryView::Idle,
{
}

} // verus!
