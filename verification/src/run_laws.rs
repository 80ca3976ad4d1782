//! What holds over every run of a connection.

use crate::client::{ClientView, Incoming, OutputEvent, RequestEvent};
use crate::subscriptions::{
    has_id, lemma_others, lemma_subscribed, lemma_unsubscribed, lists, notified, others, place_of,
    subscribers_of, subscriptions_valid, NotificationSubscriptionId, Subscriber, Subscriptions,
};
use vstd::prelude::*;

verus! {

/// One thing that happens on a connection.
pub enum Step<'a, V, H, E> {
    /// A request is made, whose answer an `H` waits for.
    Request(H),
    /// A message of the server comes.
    Input { message: Seq<char>, incoming: Incoming<'a, V> },
    /// The wait for an answer ends.
    Finish(RequestEvent<'a>),
    /// A message was handed to the transport.
    Output(OutputEvent<E>),
    /// A handler is installed for the server's requests of a method.
    InstallHandler { method: Seq<char>, handler: u64 },
    /// A handler subscribes to a method.
    Subscribe { topic: Seq<char>, subscriber: Subscriber },
    /// A subscription ends.
    EndSubscription(NotificationSubscriptionId),
}

/// The state of a connection after a step.
pub open spec fn after_step<V, H, E>(
    client: ClientView<H, E>,
    step: Step<'_, V, H, E>,
) -> ClientView<H, E> {
    match step {
        Step::Request(handler) => client.after_request(handler),
        Step::Input { message, incoming } => client.after_input(message, incoming),
        Step::Finish(event) => client.after_finish(event),
        Step::Output(event) => client.after_output(event),
        Step::InstallHandler { method, handler } => client.with_request_handler(method, handler),
        Step::Subscribe { topic, subscriber } => client.with_subscriber(topic, subscriber),
        Step::EndSubscription(id) => client.without_subscriber(id),
    }
}

/// The state of a connection after some steps, one after the other.
pub open spec fn after_steps<V, H, E>(
    client: ClientView<H, E>,
    steps: Seq<Step<'_, V, H, E>>,
) -> ClientView<H, E>
    decreases steps.len(),
{
    if steps.len() == 0 {
        client
    } else {
        after_step(after_steps(client, steps.drop_last()), steps.last())
    }
}

/// Whether each of the steps can be taken: a new subscription gets an id that
/// names none at the time.
pub open spec fn is_run<V, H, E>(client: ClientView<H, E>, steps: Seq<Step<'_, V, H, E>>) -> bool
    decreases steps.len(),
{
    steps.len() == 0 || {
        &&& is_run(client, steps.drop_last())
        &&& steps.last() matches Step::Subscribe { subscriber, .. } ==> !has_id(
            after_steps(client, steps.drop_last()).subscriptions,
            subscriber.id,
        )
    }
}

/// Whether none of the steps subscribes `handler`.
pub open spec fn never_subscribe<V, H, E>(steps: Seq<Step<'_, V, H, E>>, handler: u64) -> bool {
    forall|i: int|
        0 <= i < steps.len() ==> (#[trigger] steps[i] matches Step::Subscribe { subscriber, .. }
            ==> subscriber.handler != handler)
}

/// Whether none of the steps ends the subscription that `id` names.
pub open spec fn never_end<V, H, E>(
    steps: Seq<Step<'_, V, H, E>>,
    id: NotificationSubscriptionId,
) -> bool {
    forall|i: int|
        0 <= i < steps.len() ==> #[trigger] steps[i] != Step::<V, H, E>::EndSubscription(id)
}

/// Whether no subscription has this handler.
pub open spec fn is_unused(subscriptions: Subscriptions, handler: u64) -> bool {
    forall|i: int, a: int|
        0 <= i < subscriptions.len() && 0 <= a < subscriptions[i].subscribers.len() ==> (
        #[trigger] subscriptions[i].subscribers[a]).handler != handler
}

/// Whether `handler` is among these handlers, and only once.
pub open spec fn is_once_in(handler: u64, handlers: Seq<u64>) -> bool {
    exists|i: int|
        0 <= i < handlers.len() && #[trigger] handlers[i] == handler && forall|j: int|
            0 <= j < handlers.len() && #[trigger] handlers[j] == handler ==> j == i
}

/// The subscriptions stay valid over every run.
pub proof fn law_run_keeps_subscriptions_valid<V, H, E>(
    client: ClientView<H, E>,
    steps: Seq<Step<'_, V, H, E>>,
)
    requires
        subscriptions_valid(client.subscriptions),
        is_run(client, steps),
    ensures
        subscriptions_valid(after_steps(client, steps).subscriptions),
    decreases steps.len(),
{
    if steps.len() > 0 {
        law_run_keeps_subscriptions_valid(client, steps.drop_last());
        let before = after_steps(client, steps.drop_last()).subscriptions;
        match steps.last() {
            Step::Subscribe { topic, subscriber } => {
                lemma_subscribed(before, topic, subscriber);
            },
            Step::EndSubscription(id) => {
                lemma_unsubscribed(before, id);
            },
            _ => {},
        }
    }
}

spec fn is_alone(subscriptions: Subscriptions, method: Seq<char>, subscriber: Subscriber) -> bool {
    &&& subscribers_of(subscriptions, method).contains(subscriber)
    &&& forall|m: Seq<char>, a: int|
        0 <= a < subscribers_of(subscriptions, m).len() && (#[trigger] subscribers_of(
            subscriptions,
            m,
        )[a]).handler == subscriber.handler ==> m == method && subscribers_of(subscriptions, m)[a]
            == subscriber
}

spec fn is_absent(subscriptions: Subscriptions, handler: u64) -> bool {
    forall|m: Seq<char>, a: int|
        0 <= a < subscribers_of(subscriptions, m).len() ==> (#[trigger] subscribers_of(
            subscriptions,
            m,
        )[a]).handler != handler
}

proof fn lemma_absent(subscriptions: Subscriptions, handler: u64)
    requires
        is_unused(subscriptions, handler),
    ensures
        is_absent(subscriptions, handler),
{
    assert forall|m: Seq<char>, a: int|
        0 <= a < subscribers_of(subscriptions, m).len() implies (#[trigger] subscribers_of(
        subscriptions,
        m,
    )[a]).handler != handler by {
        let i = place_of(subscriptions, m);
        assert(lists(subscriptions, m));
        assert(subscriptions[i].subscribers[a].handler != handler);
    }
}

proof fn lemma_alone_over_run<V, H, E>(
    client: ClientView<H, E>,
    steps: Seq<Step<'_, V, H, E>>,
    method: Seq<char>,
    subscriber: Subscriber,
)
    requires
        subscriptions_valid(client.subscriptions),
        is_run(client, steps),
        is_alone(client.subscriptions, method, subscriber),
        never_subscribe(steps, subscriber.handler),
        never_end(steps, subscriber.id),
    ensures
        is_alone(after_steps(client, steps).subscriptions, method, subscriber),
    decreases steps.len(),
{
    if steps.len() > 0 {
        let front = steps.drop_last();
        let last = steps[steps.len() - 1];
        assert forall|i: int| 0 <= i < front.len() implies #[trigger] front[i] == steps[i] by {
        }
        lemma_alone_over_run(client, front, method, subscriber);
        law_run_keeps_subscriptions_valid(client, front);
        let before = after_steps(client, front).subscriptions;
        let after = after_steps(client, steps).subscriptions;
        let there = subscribers_of(before, method);
        let x = choose|x: int| 0 <= x < there.len() && there[x] == subscriber;
        match last {
            Step::Subscribe { topic, subscriber: next } => {
                lemma_subscribed(before, topic, next);
                assert(subscribers_of(after, method)[x] == subscriber);
                assert forall|m: Seq<char>, a: int|
                    0 <= a < subscribers_of(after, m).len() && (#[trigger] subscribers_of(
                        after,
                        m,
                    )[a]).handler == subscriber.handler implies m == method && subscribers_of(
                    after,
                    m,
                )[a] == subscriber by {
                    assert(subscribers_of(after, m)[a] == subscribers_of(before, m)[a]);
                }
            },
            Step::EndSubscription(id) => {
                lemma_unsubscribed(before, id);
                assert(id != subscriber.id);
                lemma_others(there, id);
                assert(others(there, id).contains(there[x]));
                assert forall|m: Seq<char>, a: int|
                    0 <= a < subscribers_of(after, m).len() && (#[trigger] subscribers_of(
                        after,
                        m,
                    )[a]).handler == subscriber.handler implies m == method && subscribers_of(
                    after,
                    m,
                )[a] == subscriber by {
                    let all = subscribers_of(before, m);
                    lemma_others(all, id);
                    assert(all.contains(others(all, id)[a]));
                    let b = choose|b: int| 0 <= b < all.len() && all[b] == others(all, id)[a];
                    assert(subscribers_of(before, m)[b].handler == subscriber.handler);
                }
            },
            _ => {},
        }
    }
}

proof fn lemma_absent_over_run<V, H, E>(
    client: ClientView<H, E>,
    steps: Seq<Step<'_, V, H, E>>,
    handler: u64,
)
    requires
        subscriptions_valid(client.subscriptions),
        is_run(client, steps),
        is_absent(client.subscriptions, handler),
        never_subscribe(steps, handler),
    ensures
        is_absent(after_steps(client, steps).subscriptions, handler),
    decreases steps.len(),
{
    if steps.len() > 0 {
        let front = steps.drop_last();
        let last = steps[steps.len() - 1];
        assert forall|i: int| 0 <= i < front.len() implies #[trigger] front[i] == steps[i] by {
        }
        lemma_absent_over_run(client, front, handler);
        law_run_keeps_subscriptions_valid(client, front);
        let before = after_steps(client, front).subscriptions;
        let after = after_steps(client, steps).subscriptions;
        match last {
            Step::Subscribe { topic, subscriber: next } => {
                lemma_subscribed(before, topic, next);
                assert forall|m: Seq<char>, a: int|
                    0 <= a < subscribers_of(after, m).len() implies (#[trigger] subscribers_of(
                    after,
                    m,
                )[a]).handler != handler by {
                    if a < subscribers_of(before, m).len() {
                        assert(subscribers_of(after, m)[a] == subscribers_of(before, m)[a]);
                    }
                }
            },
            Step::EndSubscription(id) => {
                lemma_unsubscribed(before, id);
                lemma_absent_without(before, after, id, handler);
            },
            _ => {},
        }
    }
}

proof fn lemma_absent_without(
    before: Subscriptions,
    after: Subscriptions,
    id: NotificationSubscriptionId,
    handler: u64,
)
    requires
        forall|m: Seq<char>| #[trigger]
            subscribers_of(after, m) == others(subscribers_of(before, m), id),
        forall|m: Seq<char>, a: int|
            0 <= a < subscribers_of(before, m).len() && (#[trigger] subscribers_of(
                before,
                m,
            )[a]).handler == handler ==> subscribers_of(before, m)[a].id == id,
    ensures
        is_absent(after, handler),
{
    assert forall|m: Seq<char>, a: int| 0 <= a < subscribers_of(after, m).len() implies (
    #[trigger] subscribers_of(after, m)[a]).handler != handler by {
        let all = subscribers_of(before, m);
        lemma_others(all, id);
        assert(others(all, id)[a].id != id);
        assert(all.contains(others(all, id)[a]));
        let b = choose|b: int| 0 <= b < all.len() && all[b] == others(all, id)[a];
        assert(subscribers_of(before, m)[b].id != id);
    }
}

/// A handler that subscribes to a method is told of each notification of that
/// method once, and of no other, for as long as its subscription lives, whatever
/// else happens on the connection. Once the subscription has ended, it is never
/// told again. At the end all others are told what they were told before.
pub proof fn law_subscriber_is_told_while_it_lives<V, H, E>(
    client: ClientView<H, E>,
    method: Seq<char>,
    subscriber: Subscriber,
    living: Seq<Step<'_, V, H, E>>,
    ended: Seq<Step<'_, V, H, E>>,
    topic: Seq<char>,
)
    requires
        subscriptions_valid(client.subscriptions),
        !has_id(client.subscriptions, subscriber.id),
        is_unused(client.subscriptions, subscriber.handler),
        is_run(client.with_subscriber(method, subscriber), living),
        never_subscribe(living, subscriber.handler),
        never_end(living, subscriber.id),
        is_run(
            after_steps(client.with_subscriber(method, subscriber), living).without_subscriber(
                subscriber.id,
            ),
            ended,
        ),
        never_subscribe(ended, subscriber.handler),
    ensures
        ({
            let later = after_steps(client.with_subscriber(method, subscriber), living);
            let end = later.without_subscriber(subscriber.id);
            let after = after_steps(end, ended);
            &&& if topic == method {
                is_once_in(subscriber.handler, notified(later.subscriptions, topic))
            } else {
                !notified(later.subscriptions, topic).contains(subscriber.handler)
            }
            &&& !notified(end.subscriptions, topic).contains(subscriber.handler)
            &&& !notified(after.subscriptions, topic).contains(subscriber.handler)
            &&& subscribers_of(end.subscriptions, topic) == others(
                subscribers_of(later.subscriptions, topic),
                subscriber.id,
            )
        }),
{
    let handler = subscriber.handler;
    let start = client.with_subscriber(method, subscriber);
    let later = after_steps(start, living);
    let end = later.without_subscriber(subscriber.id);
    let after = after_steps(end, ended);
    lemma_absent(client.subscriptions, handler);
    lemma_subscribed(client.subscriptions, method, subscriber);
    let first = subscribers_of(start.subscriptions, method);
    assert(first[first.len() - 1] == subscriber);
    assert forall|m: Seq<char>, a: int|
        0 <= a < subscribers_of(start.subscriptions, m).len() && (#[trigger] subscribers_of(
            start.subscriptions,
            m,
        )[a]).handler == handler implies m == method && subscribers_of(start.subscriptions, m)[a]
        == subscriber by {
        if a < subscribers_of(client.subscriptions, m).len() {
            assert(subscribers_of(start.subscriptions, m)[a] == subscribers_of(
                client.subscriptions,
                m,
            )[a]);
        }
    }
    lemma_alone_over_run(start, living, method, subscriber);
    law_run_keeps_subscriptions_valid(start, living);
    lemma_unsubscribed(later.subscriptions, subscriber.id);
    lemma_absent_without(later.subscriptions, end.subscriptions, subscriber.id, handler);
    lemma_absent_over_run(end, ended, handler);
    lemma_not_told(end.subscriptions, handler, topic);
    lemma_not_told(after.subscriptions, handler, topic);
    let there = subscribers_of(later.subscriptions, topic);
    let told = notified(later.subscriptions, topic);
    if topic == method {
        let x = choose|x: int| 0 <= x < there.len() && there[x] == subscriber;
        let i = place_of(later.subscriptions, method);
        assert(lists(later.subscriptions, method));
        assert(told[x] == handler);
        assert forall|j: int| 0 <= j < told.len() && #[trigger] told[j] == handler implies j
            == x by {
            assert(there[j].handler == handler);
            assert(later.subscriptions[i].subscribers[j].id
                == later.subscriptions[i].subscribers[x].id);
        }
    } else {
        assert forall|j: int| 0 <= j < told.len() implies #[trigger] told[j] != handler by {
            assert(there[j].handler != handler);
        }
    }
}

proof fn lemma_not_told(subscriptions: Subscriptions, handler: u64, method: Seq<char>)
    requires
        is_absent(subscriptions, handler),
    ensures
        !notified(subscriptions, method).contains(handler),
{
    let told = notified(subscriptions, method);
    assert forall|j: int| 0 <= j < told.len() implies #[trigger] told[j] != handler by {
        assert(subscribers_of(subscriptions, method)[j].handler != handler);
    }
}

} // verus!
