//! Who is told of which notification.

use vstd::prelude::*;

verus! {

/// How many handlers a set can hold at most.
pub const MAX_HANDLERS: usize = 0xffff_fffe;

/// From how many handlers of one method on a set is crowded.
pub const CROWDED_METHOD: usize = 20;

/// Whether `key` is the integer form of a slot key: the upper half of such an
/// integer counts how often the slot was filled or emptied, and is odd while
/// the slot is filled.
pub open spec fn is_slot_key(key: u64) -> bool {
    (key / 0x1_0000_0000) % 2 == 1
}

/// Handler numbers, each found again under the key of the slot that it lies in.
#[verifier::external_body]
pub struct HandlerSlots {
    slots: slotmap::SlotMap<slotmap::DefaultKey, u64>,
}

/// The handler numbers that lie in the slots, by the integer form of their keys.
pub uninterp spec fn slot_contents(slots: HandlerSlots) -> Map<u64, u64>;

impl HandlerSlots {
    /// Calls `slotmap::SlotMap::new`. Claimed of it: nothing lies in the slots.
    #[verifier::external_body]
    fn new() -> (slots: HandlerSlots)
        ensures
            slot_contents(slots) == (Map::<u64, u64>::empty()),
    {
        HandlerSlots { slots: slotmap::SlotMap::new() }
    }

    /// Calls `slotmap::SlotMap::len`. Claimed of it: it counts what lies in the
    /// slots.
    #[verifier::external_body]
    fn len(&self) -> (count: usize)
        ensures
            count == slot_contents(*self).len(),
    {
        self.slots.len()
    }

    /// Calls `slotmap::SlotMap::insert`, which panics on a full map. Claimed of
    /// it: the handler is stored under a key under which nothing lay, and
    /// nothing else changes. Whether the key was in use at an earlier time is
    /// left open.
    #[verifier::external_body]
    fn insert(&mut self, handler: u64) -> (key: u64)
        requires
            slot_contents(*old(self)).len() < MAX_HANDLERS,
        ensures
            is_slot_key(key),
            !slot_contents(*old(self)).contains_key(key),
            slot_contents(*final(self)) == slot_contents(*old(self)).insert(key, handler),
    {
        slotmap::Key::data(&self.slots.insert(handler)).as_ffi()
    }

    /// Calls `slotmap::SlotMap::get`. Claimed of it: it gives what lies under the
    /// key, if anything does.
    #[verifier::external_body]
    fn get(&self, key: u64) -> (handler: Option<u64>)
        requires
            is_slot_key(key),
        ensures
            handler == (if slot_contents(*self).contains_key(key) {
                Some(slot_contents(*self)[key])
            } else {
                None
            }),
    {
        self.slots.get(slotmap::KeyData::from_ffi(key).into()).copied()
    }

    /// Calls `slotmap::SlotMap::remove`. Claimed of it: it takes out what lies
    /// under the key, if anything does, and nothing else changes.
    #[verifier::external_body]
    fn remove(&mut self, key: u64) -> (handler: Option<u64>)
        requires
            is_slot_key(key),
        ensures
            handler == (if slot_contents(*old(self)).contains_key(key) {
                Some(slot_contents(*old(self))[key])
            } else {
                None
            }),
            slot_contents(*final(self)) == slot_contents(*old(self)).remove(key),
    {
        self.slots.remove(slotmap::KeyData::from_ffi(key).into())
    }
}

/// Names one subscription of a set.
#[derive(Debug, Clone, Copy, PartialEq, Eq, PartialOrd, Ord, Hash, Structural)]
pub struct NotificationSubscriptionId {
    key: u64,
}

impl NotificationSubscriptionId {
    #[verifier::type_invariant]
    spec fn has_slot_key(self) -> bool {
        is_slot_key(self.key)
    }
}

/// One subscription to a method, as the contracts see it.
pub struct Subscriber {
    pub id: NotificationSubscriptionId,
    pub handler: u64,
}

/// A method and its subscribers, in the order in which they came.
#[verifier::ext_equal]
pub struct Listing {
    pub method: Seq<char>,
    pub subscribers: Seq<Subscriber>,
}

/// Who subscribed to which method, in the order in which the methods were first
/// subscribed to. A method without subscribers is not listed.
pub type Subscriptions = Seq<Listing>;

/// Whether `method` is listed.
pub open spec fn lists(subscriptions: Subscriptions, method: Seq<char>) -> bool {
    exists|i: int| 0 <= i < subscriptions.len() && (#[trigger] subscriptions[i]).method == method
}

/// Where `method` is listed.
pub open spec fn place_of(subscriptions: Subscriptions, method: Seq<char>) -> int {
    choose|i: int| 0 <= i < subscriptions.len() && (#[trigger] subscriptions[i]).method == method
}

/// The subscribers of `method`, first come first.
pub open spec fn subscribers_of(subscriptions: Subscriptions, method: Seq<char>) -> Seq<
    Subscriber,
> {
    if lists(subscriptions, method) {
        subscriptions[place_of(subscriptions, method)].subscribers
    } else {
        Seq::empty()
    }
}

/// Whether some subscription is named by `id`.
pub open spec fn has_id(subscriptions: Subscriptions, id: NotificationSubscriptionId) -> bool {
    exists|i: int, a: int|
        0 <= i < subscriptions.len() && 0 <= a < subscriptions[i].subscribers.len() && (
        #[trigger] subscriptions[i].subscribers[a]).id == id
}

/// No method is listed twice.
pub open spec fn methods_differ(subscriptions: Subscriptions) -> bool {
    forall|i: int, j: int|
        0 <= i < subscriptions.len() && 0 <= j < subscriptions.len() && (
        #[trigger] subscriptions[i]).method == (#[trigger] subscriptions[j]).method ==> i == j
}

/// No method is listed twice or without subscribers, and each subscription has
/// an id of its own.
pub open spec fn subscriptions_valid(subscriptions: Subscriptions) -> bool {
    &&& methods_differ(subscriptions)
    &&& forall|i: int|
        0 <= i < subscriptions.len() ==> (#[trigger] subscriptions[i]).subscribers.len() > 0
    &&& forall|i: int, j: int, a: int, b: int|
        0 <= i < subscriptions.len() && 0 <= j < subscriptions.len() && 0 <= a
            < subscriptions[i].subscribers.len() && 0 <= b < subscriptions[j].subscribers.len() && (
        #[trigger] subscriptions[i].subscribers[a]).id == (
        #[trigger] subscriptions[j].subscribers[b]).id ==> i == j && a == b
}

/// The subscriptions with one more to `method`, after those already there. A
/// method that was not listed comes last; all others keep their places.
pub open spec fn subscribed(
    subscriptions: Subscriptions,
    method: Seq<char>,
    subscriber: Subscriber,
) -> Subscriptions {
    if lists(subscriptions, method) {
        let i = place_of(subscriptions, method);
        subscriptions.update(
            i,
            Listing { method, subscribers: subscriptions[i].subscribers.push(subscriber) },
        )
    } else {
        subscriptions.push(Listing { method, subscribers: seq![subscriber] })
    }
}

/// The subscribers other than the one that `id` names.
pub open spec fn others(subscribers: Seq<Subscriber>, id: NotificationSubscriptionId) -> Seq<
    Subscriber,
> {
    subscribers.filter(|s: Subscriber| s.id != id)
}

/// The methods with their subscribers other than the one that `id` names.
pub open spec fn struck(
    subscriptions: Subscriptions,
    id: NotificationSubscriptionId,
) -> Subscriptions {
    subscriptions.map_values(
        |l: Listing| Listing { method: l.method, subscribers: others(l.subscribers, id) },
    )
}

/// The methods that have subscribers, in the same order.
pub open spec fn pruned(subscriptions: Subscriptions) -> Subscriptions {
    subscriptions.filter(|l: Listing| l.subscribers.len() > 0)
}

/// The subscriptions without the one that `id` names. A method that loses its
/// last subscriber is no longer listed; the order of all others is kept.
pub open spec fn unsubscribed(
    subscriptions: Subscriptions,
    id: NotificationSubscriptionId,
) -> Subscriptions {
    pruned(struck(subscriptions, id))
}

/// The handlers that a notification of `method` goes to, in this order.
pub open spec fn notified(subscriptions: Subscriptions, method: Seq<char>) -> Seq<u64> {
    subscribers_of(subscriptions, method).map_values(|s: Subscriber| s.handler)
}

/// A method that is listed is listed in one place, with its subscribers.
pub proof fn lemma_place(subscriptions: Subscriptions, i: int)
    requires
        methods_differ(subscriptions),
        0 <= i < subscriptions.len(),
    ensures
        lists(subscriptions, subscriptions[i].method),
        place_of(subscriptions, subscriptions[i].method) == i,
        subscribers_of(subscriptions, subscriptions[i].method) == subscriptions[i].subscribers,
{
    assert(lists(subscriptions, subscriptions[i].method));
    assert(subscriptions[place_of(subscriptions, subscriptions[i].method)].method
        == subscriptions[i].method);
}

/// A new subscription leaves the others what they were.
pub proof fn lemma_subscribed(
    subscriptions: Subscriptions,
    method: Seq<char>,
    subscriber: Subscriber,
)
    requires
        subscriptions_valid(subscriptions),
    ensures
        methods_differ(subscribed(subscriptions, method, subscriber)),
        subscribers_of(subscribed(subscriptions, method, subscriber), method) == subscribers_of(
            subscriptions,
            method,
        ).push(subscriber),
        forall|other: Seq<char>|
            other != method ==> #[trigger] subscribers_of(
                subscribed(subscriptions, method, subscriber),
                other,
            ) == subscribers_of(subscriptions, other),
        forall|id: NotificationSubscriptionId| #[trigger]
            has_id(subscribed(subscriptions, method, subscriber), id) <==> has_id(subscriptions, id)
                || id == subscriber.id,
        !has_id(subscriptions, subscriber.id) ==> subscriptions_valid(
            subscribed(subscriptions, method, subscriber),
        ),
{
    let after = subscribed(subscriptions, method, subscriber);
    let p = if lists(subscriptions, method) {
        place_of(subscriptions, method)
    } else {
        subscriptions.len() as int
    };
    let before = subscribers_of(subscriptions, method);
    assert(0 <= p < after.len() && after[p].method == method);
    assert(after[p].subscribers =~= before.push(subscriber));
    assert forall|i: int| 0 <= i < after.len() && i != p implies #[trigger] after[i]
        == subscriptions[i] && after[i].method != method by {
        assert(after[i] == subscriptions[i]);
        if lists(subscriptions, method) {
            assert(subscriptions[p].method == method);
        }
    }
    lemma_place(after, p);
    assert forall|other: Seq<char>| other != method implies #[trigger] subscribers_of(after, other)
        == subscribers_of(subscriptions, other) by {
        if lists(after, other) {
            let i = place_of(after, other);
            assert(after[i].method == other);
            assert(after[i] == subscriptions[i]);
            lemma_place(subscriptions, i);
        }
        if lists(subscriptions, other) {
            let i = place_of(subscriptions, other);
            assert(subscriptions[i].method == other);
            assert(after[i].method == other);
            lemma_place(after, i);
        }
    }
    assert forall|i: int, a: int|
        0 <= i < after.len() && 0 <= a < after[i].subscribers.len() && !(i == p && a
            == before.len()) implies 0 <= i < subscriptions.len() && 0 <= a
        < subscriptions[i].subscribers.len() && #[trigger] after[i].subscribers[a]
        == subscriptions[i].subscribers[a] by {
    }
    assert forall|id: NotificationSubscriptionId| #[trigger] has_id(after, id) <==> has_id(
        subscriptions,
        id,
    ) || id == subscriber.id by {
        if has_id(after, id) {
            let (i, a) = choose|i: int, a: int|
                0 <= i < after.len() && 0 <= a < after[i].subscribers.len() && (
                #[trigger] after[i].subscribers[a]).id == id;
            if !(i == p && a == before.len()) {
                assert(subscriptions[i].subscribers[a].id == id);
            }
        }
        if has_id(subscriptions, id) {
            let (i, a) = choose|i: int, a: int|
                0 <= i < subscriptions.len() && 0 <= a < subscriptions[i].subscribers.len() && (
                #[trigger] subscriptions[i].subscribers[a]).id == id;
            assert(after[i].subscribers[a] == subscriptions[i].subscribers[a]);
        }
        assert(after[p].subscribers[before.len() as int].id == subscriber.id);
    }
    if !has_id(subscriptions, subscriber.id) {
        assert forall|i: int, j: int, a: int, b: int|
            0 <= i < after.len() && 0 <= j < after.len() && 0 <= a < after[i].subscribers.len() && 0
                <= b < after[j].subscribers.len() && (#[trigger] after[i].subscribers[a]).id == (
            #[trigger] after[j].subscribers[b]).id implies i == j && a == b by {
            if !(i == p && a == before.len()) {
                assert(subscriptions[i].subscribers[a] == after[i].subscribers[a]);
            }
            if !(j == p && b == before.len()) {
                assert(subscriptions[j].subscribers[b] == after[j].subscribers[b]);
            }
        }
    }
}

/// Who is left of one subscriber more.
pub proof fn lemma_others_push(
    subscribers: Seq<Subscriber>,
    next: Subscriber,
    id: NotificationSubscriptionId,
)
    ensures
        others(subscribers.push(next), id) == (if next.id != id {
            others(subscribers, id).push(next)
        } else {
            others(subscribers, id)
        }),
{
    reveal(Seq::filter);
    assert(subscribers.push(next).drop_last() =~= subscribers);
}

/// Which subscribers are left, where they were before, and that none is there
/// twice.
pub proof fn lemma_others(subscribers: Seq<Subscriber>, id: NotificationSubscriptionId)
    ensures
        forall|a: int|
            0 <= a < others(subscribers, id).len() ==> (#[trigger] others(subscribers, id)[a]).id
                != id && subscribers.contains(others(subscribers, id)[a]),
        forall|b: int|
            0 <= b < subscribers.len() && (#[trigger] subscribers[b]).id != id ==> others(
                subscribers,
                id,
            ).contains(subscribers[b]),
        (forall|b: int| 0 <= b < subscribers.len() ==> (#[trigger] subscribers[b]).id != id)
            ==> others(subscribers, id) == subscribers,
        (forall|a: int, b: int|
            0 <= a < subscribers.len() && 0 <= b < subscribers.len() && (
            #[trigger] subscribers[a]).id == (#[trigger] subscribers[b]).id ==> a == b)
            ==> forall|a: int, b: int|
            0 <= a < others(subscribers, id).len() && 0 <= b < others(subscribers, id).len() && (
            #[trigger] others(subscribers, id)[a]).id == (#[trigger] others(subscribers, id)[b]).id
                ==> a == b,
    decreases subscribers.len(),
{
    reveal(Seq::filter);
    if subscribers.len() > 0 {
        let front = subscribers.drop_last();
        lemma_others(front, id);
        assert(subscribers =~= front.push(subscribers.last()));
        lemma_others_push(front, subscribers.last(), id);
        let o = others(front, id);
        let o2 = others(subscribers, id);
        assert forall|a: int| 0 <= a < o2.len() implies (#[trigger] o2[a]).id != id
            && subscribers.contains(o2[a]) by {
            if a < o.len() {
                assert(o[a] == o2[a]);
                let b = choose|b: int| 0 <= b < front.len() && front[b] == o[a];
                assert(subscribers[b] == o2[a]);
            } else {
                assert(subscribers[subscribers.len() - 1] == o2[a]);
            }
        }
        assert forall|b: int|
            0 <= b < subscribers.len() && (#[trigger] subscribers[b]).id != id implies o2.contains(
            subscribers[b],
        ) by {
            if b < front.len() {
                assert(front[b] == subscribers[b]);
                let a = choose|a: int| 0 <= a < o.len() && o[a] == front[b];
                assert(o2[a] == subscribers[b]);
            } else {
                assert(o2[o2.len() - 1] == subscribers[b]);
            }
        }
        if forall|b: int| 0 <= b < subscribers.len() ==> (#[trigger] subscribers[b]).id != id {
            assert forall|b: int| 0 <= b < front.len() implies (#[trigger] front[b]).id != id by {
                assert(subscribers[b] == front[b]);
            }
            assert(subscribers[subscribers.len() - 1].id != id);
            assert(o2 =~= subscribers);
        }
        if forall|a: int, b: int|
            0 <= a < subscribers.len() && 0 <= b < subscribers.len() && (
            #[trigger] subscribers[a]).id == (#[trigger] subscribers[b]).id ==> a == b {
            assert forall|a: int, b: int|
                0 <= a < front.len() && 0 <= b < front.len() && (#[trigger] front[a]).id == (
                #[trigger] front[b]).id implies a == b by {
                assert(subscribers[a].id == subscribers[b].id);
            }
            assert forall|a: int, b: int|
                0 <= a < o2.len() && 0 <= b < o2.len() && (#[trigger] o2[a]).id == (
                #[trigger] o2[b]).id implies a == b by {
                if a < o.len() && b < o.len() {
                    assert(o[a].id == o[b].id);
                } else if a < o.len() {
                    assert(front.contains(o[a]));
                    let c = choose|c: int| 0 <= c < front.len() && front[c] == o[a];
                    assert(subscribers[c].id == subscribers[subscribers.len() - 1].id);
                } else if b < o.len() {
                    assert(front.contains(o[b]));
                    let c = choose|c: int| 0 <= c < front.len() && front[c] == o[b];
                    assert(subscribers[c].id == subscribers[subscribers.len() - 1].id);
                }
            }
        }
    } else {
        assert(others(subscribers, id) =~= subscribers);
    }
}

/// Which methods are left, that none comes twice, and that all are left if all
/// have subscribers.
pub proof fn lemma_pruned(subscriptions: Subscriptions)
    ensures
        forall|j: int|
            0 <= j < pruned(subscriptions).len() ==> (#[trigger] pruned(
                subscriptions,
            )[j]).subscribers.len() > 0 && subscriptions.contains(pruned(subscriptions)[j]),
        forall|i: int|
            0 <= i < subscriptions.len() && (#[trigger] subscriptions[i]).subscribers.len() > 0
                ==> pruned(subscriptions).contains(subscriptions[i]),
        methods_differ(subscriptions) ==> methods_differ(pruned(subscriptions)),
        (forall|i: int|
            0 <= i < subscriptions.len() ==> (#[trigger] subscriptions[i]).subscribers.len() > 0)
            ==> pruned(subscriptions) == subscriptions,
    decreases subscriptions.len(),
{
    reveal(Seq::filter);
    if subscriptions.len() > 0 {
        let front = subscriptions.drop_last();
        let last = subscriptions.last();
        lemma_pruned(front);
        let k = pruned(front);
        let k2 = pruned(subscriptions);
        assert(k2 == (if last.subscribers.len() > 0 {
            k.push(last)
        } else {
            k
        }));
        assert forall|j: int| 0 <= j < k2.len() implies (#[trigger] k2[j]).subscribers.len() > 0
            && subscriptions.contains(k2[j]) by {
            if j < k.len() {
                assert(k2[j] == k[j]);
                let i = choose|i: int| 0 <= i < front.len() && front[i] == k[j];
                assert(subscriptions[i] == k2[j]);
            } else {
                assert(subscriptions[subscriptions.len() - 1] == k2[j]);
            }
        }
        assert forall|i: int|
            0 <= i < subscriptions.len() && (#[trigger] subscriptions[i]).subscribers.len()
                > 0 implies k2.contains(subscriptions[i]) by {
            if i < front.len() {
                assert(front[i] == subscriptions[i]);
                let j = choose|j: int| 0 <= j < k.len() && k[j] == front[i];
                assert(k2[j] == subscriptions[i]);
            } else {
                assert(k2[k2.len() - 1] == subscriptions[i]);
            }
        }
        if methods_differ(subscriptions) {
            assert forall|i: int, j: int|
                0 <= i < front.len() && 0 <= j < front.len() && (#[trigger] front[i]).method == (
                #[trigger] front[j]).method implies i == j by {
                assert(subscriptions[i].method == subscriptions[j].method);
            }
            assert forall|i: int, j: int|
                0 <= i < k2.len() && 0 <= j < k2.len() && (#[trigger] k2[i]).method == (
                #[trigger] k2[j]).method implies i == j by {
                if i < k.len() && j < k.len() {
                    assert(k[i].method == k[j].method);
                } else if i < k.len() {
                    assert(front.contains(k[i]));
                    let x = choose|x: int| 0 <= x < front.len() && front[x] == k[i];
                    assert(subscriptions[x].method == subscriptions[subscriptions.len()
                        - 1].method);
                } else if j < k.len() {
                    assert(front.contains(k[j]));
                    let x = choose|x: int| 0 <= x < front.len() && front[x] == k[j];
                    assert(subscriptions[x].method == subscriptions[subscriptions.len()
                        - 1].method);
                }
            }
        }
        if forall|i: int|
            0 <= i < subscriptions.len() ==> (#[trigger] subscriptions[i]).subscribers.len() > 0 {
            assert forall|i: int| 0 <= i < front.len() implies (
            #[trigger] front[i]).subscribers.len() > 0 by {
                assert(subscriptions[i] == front[i]);
            }
            assert(subscriptions[subscriptions.len() - 1].subscribers.len() > 0);
            assert(k2 =~= subscriptions);
        }
    } else {
        assert(pruned(subscriptions) =~= subscriptions);
    }
}

/// The place before of a method that is still listed.
proof fn lemma_origin(subscriptions: Subscriptions, id: NotificationSubscriptionId, j: int) -> (i:
    int)
    requires
        0 <= j < unsubscribed(subscriptions, id).len(),
    ensures
        0 <= i < subscriptions.len(),
        unsubscribed(subscriptions, id)[j].method == subscriptions[i].method,
        unsubscribed(subscriptions, id)[j].subscribers == others(
            subscriptions[i].subscribers,
            id,
        ),
{
    let t = struck(subscriptions, id);
    lemma_pruned(t);
    let after = unsubscribed(subscriptions, id);
    assert(t.contains(after[j]));
    choose|i: int| 0 <= i < t.len() && t[i] == after[j]
}

/// The end of a subscription leaves the others what they were.
pub proof fn lemma_unsubscribed(subscriptions: Subscriptions, id: NotificationSubscriptionId)
    requires
        subscriptions_valid(subscriptions),
    ensures
        subscriptions_valid(unsubscribed(subscriptions, id)),
        forall|method: Seq<char>| #[trigger]
            subscribers_of(unsubscribed(subscriptions, id), method) == others(
                subscribers_of(subscriptions, method),
                id,
            ),
        forall|other: NotificationSubscriptionId| #[trigger]
            has_id(unsubscribed(subscriptions, id), other) <==> has_id(subscriptions, other)
                && other != id,
{
    let t = struck(subscriptions, id);
    let after = unsubscribed(subscriptions, id);
    lemma_pruned(t);
    assert forall|i: int, j: int|
        0 <= i < t.len() && 0 <= j < t.len() && (#[trigger] t[i]).method == (
        #[trigger] t[j]).method implies i == j by {
        assert(subscriptions[i].method == subscriptions[j].method);
    }
    assert(methods_differ(after));
    assert forall|method: Seq<char>| #[trigger] subscribers_of(after, method) == others(
        subscribers_of(subscriptions, method),
        id,
    ) by {
        lemma_others(subscribers_of(subscriptions, method), id);
        if lists(after, method) {
            let j = place_of(after, method);
            assert(after[j].method == method);
            let i = lemma_origin(subscriptions, id, j);
            lemma_place(subscriptions, i);
        } else if lists(subscriptions, method) {
            let i = place_of(subscriptions, method);
            assert(subscriptions[i].method == method);
            assert(t[i].method == method);
            if t[i].subscribers.len() > 0 {
                let j = choose|j: int| 0 <= j < after.len() && after[j] == t[i];
                assert(after[j].method == method);
            }
            assert(subscribers_of(after, method) =~= others(
                subscribers_of(subscriptions, method),
                id,
            ));
        } else {
            assert(subscribers_of(after, method) =~= others(
                subscribers_of(subscriptions, method),
                id,
            ));
        }
    }
    assert forall|i: int, j: int, a: int, b: int|
        0 <= i < after.len() && 0 <= j < after.len() && 0 <= a < after[i].subscribers.len() && 0
            <= b < after[j].subscribers.len() && (#[trigger] after[i].subscribers[a]).id == (
        #[trigger] after[j].subscribers[b]).id implies i == j && a == b by {
        let x = lemma_origin(subscriptions, id, i);
        let y = lemma_origin(subscriptions, id, j);
        let before_x = subscriptions[x].subscribers;
        let before_y = subscriptions[y].subscribers;
        lemma_others(before_x, id);
        lemma_others(before_y, id);
        assert(before_x.contains(others(before_x, id)[a]));
        assert(before_y.contains(others(before_y, id)[b]));
        let c = choose|c: int| 0 <= c < before_x.len() && before_x[c] == others(before_x, id)[a];
        let d = choose|d: int| 0 <= d < before_y.len() && before_y[d] == others(before_y, id)[b];
        assert(subscriptions[x].subscribers[c].id == subscriptions[y].subscribers[d].id);
        assert(after[i].method == after[j].method);
        assert forall|e: int, f: int|
            0 <= e < before_x.len() && 0 <= f < before_x.len() && (#[trigger] before_x[e]).id == (
            #[trigger] before_x[f]).id implies e == f by {
            assert(subscriptions[x].subscribers[e].id == subscriptions[x].subscribers[f].id);
        }
        assert(others(before_x, id)[a].id == others(before_x, id)[b].id);
    }
    assert forall|other: NotificationSubscriptionId| #[trigger] has_id(after, other) <==> has_id(
        subscriptions,
        other,
    ) && other != id by {
        if has_id(after, other) {
            let (j, a) = choose|j: int, a: int|
                0 <= j < after.len() && 0 <= a < after[j].subscribers.len() && (
                #[trigger] after[j].subscribers[a]).id == other;
            let i = lemma_origin(subscriptions, id, j);
            let before = subscriptions[i].subscribers;
            lemma_others(before, id);
            assert(before.contains(others(before, id)[a]));
            let c = choose|c: int| 0 <= c < before.len() && before[c] == others(before, id)[a];
            assert(subscriptions[i].subscribers[c].id == other);
        }
        if has_id(subscriptions, other) && other != id {
            let (i, c) = choose|i: int, c: int|
                0 <= i < subscriptions.len() && 0 <= c < subscriptions[i].subscribers.len() && (
                #[trigger] subscriptions[i].subscribers[c]).id == other;
            let before = subscriptions[i].subscribers;
            lemma_others(before, id);
            assert(others(before, id).contains(before[c]));
            let a = choose|a: int|
                0 <= a < others(before, id).len() && others(before, id)[a] == before[c];
            assert(t[i].subscribers.len() > 0);
            let j = choose|j: int| 0 <= j < after.len() && after[j] == t[i];
            assert(after[j].subscribers[a].id == other);
        }
    }
}

proof fn lemma_unsubscribed_push(
    subscriptions: Subscriptions,
    next: Listing,
    id: NotificationSubscriptionId,
)
    ensures
        unsubscribed(subscriptions.push(next), id) == (if others(next.subscribers, id).len() > 0 {
            unsubscribed(subscriptions, id).push(
                Listing { method: next.method, subscribers: others(next.subscribers, id) },
            )
        } else {
            unsubscribed(subscriptions, id)
        }),
{
    reveal(Seq::filter);
    let t = struck(subscriptions.push(next), id);
    assert(t.drop_last() =~= struck(subscriptions, id));
    assert(t.last() == (Listing {
        method: next.method,
        subscribers: others(next.subscribers, id),
    }));
}

type Table = Seq<(Seq<char>, Seq<NotificationSubscriptionId>)>;

spec fn with_handlers(ids: Seq<NotificationSubscriptionId>, contents: Map<u64, u64>) -> Seq<
    Subscriber,
> {
    ids.map_values(
        |id: NotificationSubscriptionId| Subscriber { id, handler: contents[id.key] },
    )
}

spec fn table_view(table: Table, contents: Map<u64, u64>) -> Subscriptions {
    table.map_values(
        |e: (Seq<char>, Seq<NotificationSubscriptionId>)|
            Listing { method: e.0, subscribers: with_handlers(e.1, contents) },
    )
}

spec fn table_wf(table: Table, contents: Map<u64, u64>) -> bool {
    &&& subscriptions_valid(table_view(table, contents))
    &&& forall|id: NotificationSubscriptionId| #[trigger]
        contents.contains_key(id.key) <==> has_id(table_view(table, contents), id)
    &&& contents.dom().finite()
}

/// What is stored under a key that no listed id has does not matter to the
/// listing.
proof fn lemma_insert_handler(
    table: Table,
    contents: Map<u64, u64>,
    id: NotificationSubscriptionId,
    handler: u64,
)
    requires
        table_wf(table, contents),
        !contents.contains_key(id.key),
    ensures
        table_view(table, contents.insert(id.key, handler)) == table_view(table, contents),
{
    let v = table_view(table, contents);
    let v2 = table_view(table, contents.insert(id.key, handler));
    assert forall|i: int| 0 <= i < table.len() implies #[trigger] v[i] == v2[i] by {
        assert forall|a: int| 0 <= a < v[i].subscribers.len() implies #[trigger] v[i].subscribers[a]
            == v2[i].subscribers[a] by {
            assert(has_id(v, v[i].subscribers[a].id));
            assert(contents.contains_key(v[i].subscribers[a].id.key));
        }
        assert(v[i].subscribers =~= v2[i].subscribers);
    }
    assert(v =~= v2);
}

/// A table with one more handler, once its id stands where it belongs.
proof fn lemma_add(
    table: Table,
    table2: Table,
    contents: Map<u64, u64>,
    method: Seq<char>,
    id: NotificationSubscriptionId,
    handler: u64,
)
    requires
        table_wf(table, contents),
        !contents.contains_key(id.key),
        match place_in(table, method) {
            Some(i) => table2 == table.update(i, (table[i].0, table[i].1.push(id))),
            None => table2 == table.push((method, seq![id])),
        },
    ensures
        table_wf(table2, contents.insert(id.key, handler)),
        table_view(table2, contents.insert(id.key, handler)) == subscribed(
            table_view(table, contents),
            method,
            Subscriber { id, handler },
        ),
        !has_id(table_view(table, contents), id),
{
    let contents2 = contents.insert(id.key, handler);
    let v = table_view(table, contents);
    let v2 = table_view(table2, contents2);
    let subscriber = Subscriber { id, handler };
    assert(!has_id(v, id));
    lemma_insert_handler(table, contents, id, handler);
    assert(v =~= table_view(table, contents2));
    match place_in(table, method) {
        Some(i) => {
            assert(table[i].0 == method);
            assert(v[i].method == method);
            lemma_place(v, i);
            assert(v2[i].subscribers =~= v[i].subscribers.push(subscriber)) by {
                assert(v[i].subscribers =~= with_handlers(table[i].1, contents2));
            }
            assert forall|x: int| 0 <= x < v2.len() && x != i implies v2[x] == #[trigger] v[x] by {
                assert(table_view(table, contents2)[x] == v[x]);
            }
        },
        None => {
            if lists(v, method) {
                assert(table[place_of(v, method)].0 == method);
            }
            assert(v2[table.len() as int].subscribers =~= seq![subscriber]);
            assert forall|x: int| 0 <= x < v.len() implies v2[x] == #[trigger] v[x] by {
                assert(table_view(table, contents2)[x] == v[x]);
            }
        },
    }
    assert(v2 =~= subscribed(v, method, subscriber));
    lemma_subscribed(v, method, subscriber);
    assert forall|x: NotificationSubscriptionId| #[trigger]
        contents2.contains_key(x.key) <==> has_id(v2, x) by {
        assert(has_id(v2, x) <==> has_id(v, x) || x == id);
        assert(contents.contains_key(x.key) <==> has_id(v, x));
    }
}

spec fn place_in(table: Table, method: Seq<char>) -> Option<int> {
    if exists|i: int| 0 <= i < table.len() && (#[trigger] table[i]).0 == method {
        Some(choose|i: int| 0 <= i < table.len() && (#[trigger] table[i]).0 == method)
    } else {
        None
    }
}

proof fn lemma_place_in(table: Table, contents: Map<u64, u64>, i: int)
    requires
        table_wf(table, contents),
        0 <= i < table.len(),
    ensures
        place_in(table, table[i].0) == Some(i),
        subscribers_of(table_view(table, contents), table[i].0) == with_handlers(
            table[i].1,
            contents,
        ),
{
    let v = table_view(table, contents);
    assert(v[i].method == table[i].0);
    lemma_place(v, i);
    let j = place_in(table, table[i].0)->0;
    assert(table[j].0 == table[i].0);
    assert(v[j].method == v[i].method);
}

proof fn lemma_place_in_none(table: Table, contents: Map<u64, u64>, method: Seq<char>)
    requires
        place_in(table, method) is None,
    ensures
        !lists(table_view(table, contents), method),
{
    let v = table_view(table, contents);
    if lists(v, method) {
        assert(table[place_of(v, method)].0 == method);
    }
}

spec fn without(
    ids: Seq<NotificationSubscriptionId>,
    id: NotificationSubscriptionId,
) -> Seq<NotificationSubscriptionId> {
    ids.filter(|x: NotificationSubscriptionId| x != id)
}

spec fn kept(table: Table, id: NotificationSubscriptionId) -> Table
    decreases table.len(),
{
    if table.len() == 0 {
        Seq::empty()
    } else {
        let ids = without(table.last().1, id);
        if ids.len() == 0 {
            kept(table.drop_last(), id)
        } else {
            kept(table.drop_last(), id).push((table.last().0, ids))
        }
    }
}

proof fn lemma_without_push(
    ids: Seq<NotificationSubscriptionId>,
    next: NotificationSubscriptionId,
    id: NotificationSubscriptionId,
)
    ensures
        without(ids.push(next), id) == (if next != id {
            without(ids, id).push(next)
        } else {
            without(ids, id)
        }),
{
    reveal(Seq::filter);
    assert(ids.push(next).drop_last() =~= ids);
}

proof fn lemma_without_handlers(
    ids: Seq<NotificationSubscriptionId>,
    contents: Map<u64, u64>,
    id: NotificationSubscriptionId,
)
    ensures
        with_handlers(without(ids, id), contents.remove(id.key)) == others(
            with_handlers(ids, contents),
            id,
        ),
    decreases ids.len(),
{
    reveal(Seq::filter);
    let all = with_handlers(ids, contents);
    if ids.len() > 0 {
        let front = ids.drop_last();
        lemma_without_handlers(front, contents, id);
        assert(ids =~= front.push(ids.last()));
        lemma_without_push(front, ids.last(), id);
        assert(all.drop_last() =~= with_handlers(front, contents));
        assert(all.last().id == ids.last());
    }
    assert(with_handlers(without(ids, id), contents.remove(id.key)) =~= others(all, id));
}

proof fn lemma_kept(table: Table, contents: Map<u64, u64>, id: NotificationSubscriptionId)
    ensures
        table_view(kept(table, id), contents.remove(id.key)) == unsubscribed(
            table_view(table, contents),
            id,
        ),
    decreases table.len(),
{
    let v = table_view(table, contents);
    let contents2 = contents.remove(id.key);
    if table.len() > 0 {
        let front = table.drop_last();
        lemma_kept(front, contents, id);
        lemma_without_handlers(table.last().1, contents, id);
        lemma_unsubscribed_push(table_view(front, contents), v.last(), id);
        assert(v =~= table_view(front, contents).push(v.last()));
    } else {
        reveal(Seq::filter);
    }
    assert(table_view(kept(table, id), contents2) =~= unsubscribed(v, id));
}

proof fn lemma_remove(table: Table, contents: Map<u64, u64>, id: NotificationSubscriptionId)
    requires
        table_wf(table, contents),
    ensures
        table_wf(kept(table, id), contents.remove(id.key)),
        table_view(kept(table, id), contents.remove(id.key)) == unsubscribed(
            table_view(table, contents),
            id,
        ),
        contents.contains_key(id.key) == has_id(table_view(table, contents), id),
{
    let v = table_view(table, contents);
    let v2 = table_view(kept(table, id), contents.remove(id.key));
    lemma_kept(table, contents, id);
    lemma_unsubscribed(v, id);
    assert forall|x: NotificationSubscriptionId| #[trigger]
        contents.remove(id.key).contains_key(x.key) <==> has_id(v2, x) by {
        assert(has_id(v2, x) <==> has_id(v, x) && x != id);
        assert(contents.contains_key(x.key) <==> has_id(v, x));
    }
}

/// The handlers to call for each notification method, by number.
pub struct NotificationSubscriptionSet {
    methods: Vec<(&'static str, Vec<NotificationSubscriptionId>)>,
    handlers: HandlerSlots,
}

impl View for NotificationSubscriptionSet {
    type V = Subscriptions;

    closed spec fn view(&self) -> Subscriptions {
        table_view(self.table(), slot_contents(self.handlers))
    }
}

impl NotificationSubscriptionSet {
    spec fn table(&self) -> Table {
        self.methods@.map_values(
            |e: (&'static str, Vec<NotificationSubscriptionId>)| (e.0@, e.1@),
        )
    }

    /// What every set keeps: each method is listed once and has subscribers,
    /// and a handler is stored for each subscription and for nothing else.
    pub closed spec fn wf(&self) -> bool {
        table_wf(self.table(), slot_contents(self.handlers))
    }

    /// How many handlers are stored.
    pub closed spec fn count(&self) -> nat {
        slot_contents(self.handlers).len()
    }

    /// The subscriptions of a set are valid.
    pub proof fn lemma_wf(&self)
        requires
            self.wf(),
        ensures
            subscriptions_valid(self@),
    {
    }

    /// A set without subscriptions.
    pub fn new() -> (set: Self)
        ensures
            set.wf(),
            set.count() == 0,
            set@ == Seq::<Listing>::empty(),
    {
        let set = NotificationSubscriptionSet { methods: Vec::new(), handlers: HandlerSlots::new() };
        assert(set@ =~= Seq::<Listing>::empty());
        set
    }

    /// How many handlers are stored.
    pub fn handler_count(&self) -> (count: usize)
        ensures
            count == self.count(),
    {
        self.handlers.len()
    }

    fn find(&self, method: &str) -> (index: Option<usize>)
        requires
            self.wf(),
        ensures
            match index {
                Some(i) => i < self.table().len() && self.table()[i as int].0 == method@
                    && place_in(self.table(), method@) == Some(i as int),
                None => place_in(self.table(), method@) is None,
            },
    {
        let mut i: usize = 0;
        while i < self.methods.len()
            invariant
                self.wf(),
                i <= self.methods.len(),
                forall|j: int| 0 <= j < i ==> (#[trigger] self.table()[j]).0 != method@,
            decreases self.methods.len() - i,
        {
            assert(self.table()[i as int].0 == self.methods@[i as int].0@);
            if *method == *self.methods[i].0 {
                proof {
                    lemma_place_in(self.table(), slot_contents(self.handlers), i as int);
                }
                return Some(i);
            }
            i = i + 1;
        }
        None
    }

    /// Whether a method has so many handlers that another data structure would
    /// serve better.
    pub fn is_crowded(&self, method: &str) -> (crowded: bool)
        requires
            self.wf(),
        ensures
            crowded == (subscribers_of(self@, method@).len() >= CROWDED_METHOD),
    {
        let ghost contents = slot_contents(self.handlers);
        match self.find(method) {
            Some(i) => {
                proof {
                    lemma_place_in(self.table(), contents, i as int);
                }
                self.methods[i].1.len() >= CROWDED_METHOD
            },
            None => {
                proof {
                    lemma_place_in_none(self.table(), contents, method@);
                }
                false
            },
        }
    }

    /// Stores a handler and subscribes it to a method that is not crowded, after
    /// those that did so before. The id that it gives back named no subscription
    /// until then.
    pub fn add_handler(&mut self, method: &'static str, handler: u64) -> (id:
        NotificationSubscriptionId)
        requires
            old(self).wf(),
            old(self).count() < MAX_HANDLERS,
            subscribers_of(old(self)@, method@).len() < CROWDED_METHOD,
        ensures
            final(self).wf(),
            final(self).count() == old(self).count() + 1,
            !has_id(old(self)@, id),
            final(self)@ == subscribed(old(self)@, method@, Subscriber { id, handler }),
    {
        self.add_handler_uncapped(method, handler)
    }

    /// Stores a handler and subscribes it to a method, crowded or not, after
    /// those that did so before. The id that it gives back named no subscription
    /// until then.
    pub fn add_handler_uncapped(&mut self, method: &'static str, handler: u64) -> (id:
        NotificationSubscriptionId)
        requires
            old(self).wf(),
            old(self).count() < MAX_HANDLERS,
        ensures
            final(self).wf(),
            final(self).count() == old(self).count() + 1,
            !has_id(old(self)@, id),
            final(self)@ == subscribed(old(self)@, method@, Subscriber { id, handler }),
    {
        let ghost table = self.table();
        let ghost contents = slot_contents(self.handlers);
        let place = self.find(method);
        let key: u64 = self.handlers.insert(handler);
        let id = NotificationSubscriptionId { key };
        match place {
            Some(i) => {
                self.methods[i].1.push(id);
                assert(self.table() =~= table.update(
                    i as int,
                    (table[i as int].0, table[i as int].1.push(id)),
                ));
            },
            None => {
                let mut ids: Vec<NotificationSubscriptionId> = Vec::new();
                ids.push(id);
                self.methods.push((method, ids));
                assert(self.table() =~= table.push((method@, seq![id])));
            },
        }
        proof {
            lemma_add(table, self.table(), contents, method@, id, handler);
        }
        id
    }

    /// The handlers that a notification of `method` goes to, in the order in
    /// which they subscribed.
    pub fn notify(&self, method: &str) -> (handlers: Vec<u64>)
        requires
            self.wf(),
        ensures
            handlers@ == notified(self@, method@),
    {
        let mut called: Vec<u64> = Vec::new();
        let ghost contents = slot_contents(self.handlers);
        match self.find(method) {
            Some(i) => {
                let ids = &self.methods[i].1;
                proof {
                    lemma_place_in(self.table(), contents, i as int);
                }
                let mut a: usize = 0;
                while a < ids.len()
                    invariant
                        a <= ids.len(),
                        i < self.table().len(),
                        ids@ == self.table()[i as int].1,
                        contents == slot_contents(self.handlers),
                        table_wf(self.table(), contents),
                        called@ =~= with_handlers(ids@, contents).take(a as int).map_values(
                            |s: Subscriber| s.handler,
                        ),
                    decreases ids.len() - a,
                {
                    let id: NotificationSubscriptionId = ids[a];
                    proof {
                        use_type_invariant(&id);
                        let v = table_view(self.table(), contents);
                        assert(v[i as int].subscribers[a as int].id == id);
                        assert(has_id(v, id));
                        assert(contents.contains_key(id.key));
                    }
                    match self.handlers.get(id.key) {
                        Some(handler) => {
                            called.push(handler);
                        },
                        None => {},
                    }
                    a = a + 1;
                }
                assert(with_handlers(ids@, contents).take(ids@.len() as int) =~= with_handlers(
                    ids@,
                    contents,
                ));
            },
            None => {
                proof {
                    lemma_place_in_none(self.table(), contents, method@);
                }
            },
        }
        assert(called@ =~= notified(self@, method@));
        called
    }

    /// Ends the subscription that `id` names, and gives back its handler. Does
    /// nothing if `id` names none.
    pub fn remove_handler(&mut self, id: NotificationSubscriptionId) -> (handler: Option<u64>)
        requires
            old(self).wf(),
        ensures
            final(self).wf(),
            final(self)@ == unsubscribed(old(self)@, id),
            handler is Some == has_id(old(self)@, id),
            final(self).count() == old(self).count() - (if handler is Some {
                1int
            } else {
                0int
            }),
            forall|i: int, a: int|
                0 <= i < old(self)@.len() && 0 <= a < old(self)@[i].subscribers.len() && (
                #[trigger] old(self)@[i].subscribers[a]).id == id ==> handler == Some(
                    old(self)@[i].subscribers[a].handler,
                ),
    {
        proof {
            use_type_invariant(&id);
        }
        let ghost table = self.table();
        let ghost contents = slot_contents(self.handlers);
        proof {
            lemma_remove(table, contents, id);
            assert forall|i: int, a: int|
                0 <= i < self@.len() && 0 <= a < self@[i].subscribers.len() && (
                #[trigger] self@[i].subscribers[a]).id
                    == id implies self@[i].subscribers[a].handler == contents[id.key] && has_id(
                self@,
                id,
            ) by {
            }
        }
        let handler = self.handlers.remove(id.key);
        let mut i: usize = 0;
        let ghost mut done: int = 0;
        assert(table.skip(0) =~= table);
        while i < self.methods.len()
            invariant
                0 <= done <= table.len(),
                slot_contents(self.handlers) == contents.remove(id.key),
                i == kept(table.take(done), id).len(),
                self.table() =~= kept(table.take(done), id) + table.skip(done),
            decreases table.len() - done,
        {
            assert(done < table.len());
            assert(self.table()[i as int] == table[done]);
            let ghost before = self.table();
            drop_id(&mut self.methods[i].1, id);
            assert(table.take(done + 1).drop_last() =~= table.take(done));
            assert(self.table() =~= before.update(
                i as int,
                (table[done].0, without(table[done].1, id)),
            ));
            if self.methods[i].1.len() == 0 {
                self.methods.remove(i);
                assert(self.table() =~= before.remove(i as int));
                assert(kept(table.take(done + 1), id) =~= kept(table.take(done), id));
                assert(self.table() =~= kept(table.take(done + 1), id) + table.skip(done + 1));
            } else {
                i = i + 1;
                assert(self.table() =~= kept(table.take(done + 1), id) + table.skip(done + 1));
            }
            proof {
                done = done + 1;
            }
        }
        assert(done == table.len());
        assert(table.take(done) =~= table);
        assert(self.table() =~= kept(table, id));
        handler
    }
}

impl Default for NotificationSubscriptionSet {
    /// A set without subscriptions.
    fn default() -> (set: Self)
        ensures
            set.wf(),
            set.count() == 0,
            set@ == Seq::<Listing>::empty(),
    {
        NotificationSubscriptionSet::new()
    }
}

fn drop_id(ids: &mut Vec<NotificationSubscriptionId>, id: NotificationSubscriptionId)
    ensures
        final(ids)@ == without(old(ids)@, id),
{
    let ghost all = ids@;
    let mut a: usize = 0;
    let ghost mut done: int = 0;
    assert(all.skip(0) =~= all);
    assert(without(all.take(0), id) =~= Seq::empty()) by {
        reveal(Seq::filter);
    }
    while a < ids.len()
        invariant
            0 <= done <= all.len(),
            a == without(all.take(done), id).len(),
            ids@ =~= without(all.take(done), id) + all.skip(done),
        decreases all.len() - done,
    {
        assert(ids@[a as int] == all[done]);
        assert(all.take(done + 1) =~= all.take(done).push(all[done]));
        proof {
            lemma_without_push(all.take(done), all[done], id);
        }
        if ids[a].key == id.key {
            ids.remove(a);
        } else {
            a = a + 1;
        }
        assert(ids@ =~= without(all.take(done + 1), id) + all.skip(done + 1));
        proof {
            done = done + 1;
        }
    }
    assert(all.take(done) =~= all);
}

} // verus!
