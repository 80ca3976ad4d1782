//! What holds of every connection, whatever happens on it.

use crate::client::{
    id_after, is_batch, method_not_found_text, ClientView, Incoming, InputActionView, OutputEvent,
    PendingRequest, RequestErrorView, RequestEvent, ELICITATION_CREATE_METHOD,
};
use crate::context_server::ContextServerView;
use crate::messages::{Params, RequestIdView};
use crate::subscriptions::{
    has_id, lemma_others, lemma_others_push, lemma_place, lemma_pruned, lemma_subscribed,
    lemma_unsubscribed, lists, notified, others, pruned, struck, subscribed, subscribers_of,
    subscriptions_valid, unsubscribed, Listing, NotificationSubscriptionId, Subscriber,
    Subscriptions,
};
use vstd::prelude::*;

verus! {

/// The id of the request that `n` requests lie before.
pub open spec fn id_after_requests(first: i32, n: nat) -> i32
    decreases n,
{
    if n == 0 {
        first
    } else {
        id_after(id_after_requests(first, (n - 1) as nat))
    }
}

proof fn lemma_ids_count(first: i32, n: nat)
    ensures
        (id_after_requests(first, n) - first - n) % 0x1_0000_0000 == 0,
    decreases n,
{
    if n > 0 {
        lemma_ids_count(first, (n - 1) as nat);
    }
}

/// Two requests of a connection have different ids, unless one is made at least
/// 2^32 requests after the other.
pub proof fn law_ids_differ(first: i32, m: nat, n: nat)
    requires
        m < n,
        n - m < 0x1_0000_0000,
    ensures
        id_after_requests(first, m) != id_after_requests(first, n),
{
    lemma_ids_count(first, m);
    lemma_ids_count(first, n);
}

/// Each request moves a connection on to the next id.
pub proof fn law_each_request_takes_an_id<H, E>(client: ClientView<H, E>, handler: H)
    ensures
        client.after_request(handler).next_id == id_after(client.next_id),
        client.after_request(handler).next_id != client.next_id,
{
}

/// Whether a connection has made `n` requests, and nobody waits but for the
/// response to one of them.
pub open spec fn has_made<H, E>(client: ClientView<H, E>, n: nat) -> bool {
    &&& client.next_id == id_after_requests(0, n)
    &&& client.response_handlers matches Some(handlers) ==> forall|id: i32| #[trigger]
        handlers.contains_key(id) ==> is_id_of_one(id, n)
}

/// Whether `id` is the id of one of the first `n` requests of a connection.
pub open spec fn is_id_of_one(id: i32, n: nat) -> bool {
    exists|k: nat| k < n && id == #[trigger] id_after_requests(0, k)
}

/// A connection starts with no requests. A request makes them one more, and
/// nothing else changes who can be waited for.
pub proof fn law_requests_are_counted<V, H, E>(
    client: ClientView<H, E>,
    n: nat,
    server_id: Seq<char>,
    name: Seq<char>,
    timeout: Option<nat>,
    handler: H,
    message: Seq<char>,
    incoming: Incoming<'_, V>,
    event: RequestEvent<'_>,
    output: OutputEvent<E>,
    method: Seq<char>,
    number: u64,
    subscriber: Subscriber,
)
    requires
        has_made(client, n),
    ensures
        has_made(ClientView::<H, E>::initial(server_id, name, timeout), 0),
        has_made(client.after_request(handler), n + 1),
        has_made(client.after_input(message, incoming), n),
        has_made(client.after_finish(event), n),
        has_made(client.after_output(output), n),
        has_made(client.with_request_handler(method, number), n),
        has_made(client.with_subscriber(method, subscriber), n),
        has_made(client.without_subscriber(subscriber.id), n),
{
    let after = client.after_request(handler);
    if let Some(handlers) = after.response_handlers {
        let before = client.response_handlers->0;
        assert forall|id: i32| #[trigger] handlers.contains_key(id) implies is_id_of_one(
            id,
            n + 1,
        ) by {
            if id == client.next_id {
                assert(id == id_after_requests(0, n));
            } else {
                assert(before.contains_key(id));
                let k = choose|k: nat| k < n && id == #[trigger] id_after_requests(0, k);
                assert(k < n + 1);
            }
        }
    }
    let input = client.after_input(message, incoming);
    if let Some(handlers) = input.response_handlers {
        let before = client.response_handlers->0;
        assert forall|id: i32| #[trigger] handlers.contains_key(id) implies is_id_of_one(id, n) by {
            assert(before.contains_key(id));
        }
    }
}

/// None of the first 2^32 requests of a connection takes the place of one that
/// is still waited for.
pub proof fn law_request_displaces_nobody<H, E>(client: ClientView<H, E>, n: nat)
    requires
        has_made(client, n),
        n < 0x1_0000_0000,
    ensures
        client.waiting_for(RequestIdView::Int(client.next_id)) is None,
{
    if let Some(handlers) = client.response_handlers {
        if handlers.contains_key(client.next_id) {
            let k = choose|k: nat| k < n && client.next_id == #[trigger] id_after_requests(0, k);
            law_ids_differ(0, k, n);
        }
    }
}

/// A message that can be read as a response to request `id`, and as nothing that
/// comes before a response.
pub open spec fn is_response_to<V>(
    message: Seq<char>,
    incoming: Incoming<'_, V>,
    id: RequestIdView,
) -> bool {
    &&& !is_batch(message)
    &&& incoming.request is None
    &&& incoming.response matches Some(response)
    &&& response.id@ == id
}

/// The response to a request goes, as it came, to the one who made the request.
/// After that nobody waits for it, so that a second response to the same request
/// is discarded, and all others still wait for theirs.
pub proof fn law_response_is_delivered_once<V, W, H, E>(
    client: ClientView<H, E>,
    handler: H,
    message: Seq<char>,
    incoming: Incoming<'_, V>,
    message2: Seq<char>,
    incoming2: Incoming<'_, W>,
)
    requires
        client.response_handlers is Some,
        is_response_to(message, incoming, RequestIdView::Int(client.next_id)),
        is_response_to(message2, incoming2, RequestIdView::Int(client.next_id)),
    ensures
        ({
            let asked = client.after_request(handler);
            let answered = asked.after_input(message, incoming);
            &&& asked.input_action(message, incoming) == (InputActionView::<
                H,
                V,
            >::DeliverResponse { waiter: handler, message })
            &&& answered.waiting_for(RequestIdView::Int(client.next_id)) is None
            &&& answered.input_action(message2, incoming2) == InputActionView::<
                H,
                W,
            >::DiscardResponse
            &&& forall|n: i32|
                n != client.next_id ==> #[trigger] answered.waiting_for(RequestIdView::Int(n))
                    == client.waiting_for(RequestIdView::Int(n))
        }),
{
}

/// Whoever waits for a response goes on waiting whatever else is sent, received,
/// installed or given up.
pub proof fn law_waiting_goes_on<V, H, E>(
    client: ClientView<H, E>,
    id: i32,
    handler: H,
    message: Seq<char>,
    incoming: Incoming<'_, V>,
    event: RequestEvent<'_>,
    method: Seq<char>,
    number: u64,
    subscriber: Subscriber,
)
    ensures
        ({
            let waiting = client.waiting_for(RequestIdView::Int(id));
            &&& client.next_id != id ==> client.after_request(handler).waiting_for(
                RequestIdView::Int(id),
            ) == waiting
            &&& !is_response_to(message, incoming, RequestIdView::Int(id)) ==> client.after_input(
                message,
                incoming,
            ).waiting_for(RequestIdView::Int(id)) == waiting
            &&& client.after_finish(event).waiting_for(RequestIdView::Int(id)) == waiting
            &&& client.after_output(OutputEvent::Sent).waiting_for(RequestIdView::Int(id))
                == waiting
            &&& client.with_request_handler(method, number).waiting_for(RequestIdView::Int(id))
                == waiting
            &&& client.with_subscriber(method, subscriber).waiting_for(RequestIdView::Int(id))
                == waiting
            &&& client.without_subscriber(subscriber.id).waiting_for(RequestIdView::Int(id))
                == waiting
        }),
{
}

/// No request of the server is passed over: it goes to the handler of its method,
/// with its id and its parameters or null, or, if there is no handler, is answered
/// under its id that the method was not found. The connection stays as it is.
pub proof fn law_server_request_is_answered<V, H, E>(
    client: ClientView<H, E>,
    message: Seq<char>,
    incoming: Incoming<'_, V>,
)
    requires
        !is_batch(message),
        incoming.request is Some,
    ensures
        ({
            let request = incoming.request->0;
            let action = client.input_action(message, incoming);
            &&& client.after_input(message, incoming) == client
            &&& match action {
                InputActionView::CallRequestHandler { handler, id, params } => {
                    &&& client.request_handlers.contains_key(request.method@)
                    &&& handler == client.request_handlers[request.method@]
                    &&& id == request.id@
                    &&& match request.params {
                        Some(given) => params == given@,
                        None => params == "null"@,
                    }
                },
                InputActionView::Reply(text) => {
                    &&& !client.request_handlers.contains_key(request.method@)
                    &&& text == method_not_found_text(request.id@, request.method@)
                },
                _ => false,
            }
        }),
{
}

/// A batch is rejected, whatever it can be read as, and changes nothing.
pub proof fn law_batch_changes_nothing<V, H, E>(
    client: ClientView<H, E>,
    message: Seq<char>,
    incoming: Incoming<'_, V>,
)
    requires
        is_batch(message),
    ensures
        client.input_action(message, incoming) == InputActionView::<H, V>::RejectBatch,
        client.after_input(message, incoming) == client,
{
}

/// Once nothing more is sent, nobody waits for a response, and no later event
/// changes that: each later request finds the server shut down.
pub proof fn law_shut_down_is_final<V, H, E>(
    client: ClientView<H, E>,
    end: OutputEvent<E>,
    id: RequestIdView,
    handler: H,
    message: Seq<char>,
    incoming: Incoming<'_, V>,
    event: RequestEvent<'_>,
    output: OutputEvent<E>,
    method: Seq<char>,
    number: u64,
    subscriber: Subscriber,
)
    ensures
        end is Sent || client.after_output(end).response_handlers is None,
        client.response_handlers is None ==> {
            &&& client.waiting_for(id) is None
            &&& client.after_request(handler).response_handlers is None
            &&& client.after_input(message, incoming).response_handlers is None
            &&& client.after_finish(event).response_handlers is None
            &&& client.after_output(output).response_handlers is None
            &&& client.with_request_handler(method, number).response_handlers is None
            &&& client.with_subscriber(method, subscriber).response_handlers is None
            &&& client.without_subscriber(subscriber.id).response_handlers is None
        },
{
}

/// When the transport fails, the first request that loses its connection is told
/// the transport's error, and later ones only that the connection ended.
pub proof fn law_transport_error_is_told_once<H, E>(
    client: ClientView<H, E>,
    error: E,
    first: i32,
    later: i32,
)
    ensures
        ({
            let failed = client.after_output(OutputEvent::SendFailed(error));
            let told = failed.after_finish(RequestEvent::Disconnected);
            &&& failed.finish(first, RequestEvent::Disconnected).result == Result::<
                Seq<char>,
                RequestErrorView<E>,
            >::Err(RequestErrorView::Transport(error))
            &&& told.finish(later, RequestEvent::Disconnected).result == Result::<
                Seq<char>,
                RequestErrorView<E>,
            >::Err(RequestErrorView::Disconnected)
        }),
{
}

/// The transport's error is kept until a request is told it, whatever else
/// happens.
pub proof fn law_transport_error_is_kept<V, H, E>(
    client: ClientView<H, E>,
    handler: H,
    message: Seq<char>,
    incoming: Incoming<'_, V>,
    event: RequestEvent<'_>,
    method: Seq<char>,
    number: u64,
    subscriber: Subscriber,
)
    ensures
        ({
            let error = client.last_transport_error;
            &&& client.after_request(handler).last_transport_error == error
            &&& client.after_input(message, incoming).last_transport_error == error
            &&& event is Disconnected || client.after_finish(event).last_transport_error == error
            &&& client.after_output(OutputEvent::Sent).last_transport_error == error
            &&& client.after_output(OutputEvent::Closed).last_transport_error == error
            &&& client.with_request_handler(method, number).last_transport_error == error
            &&& client.with_subscriber(method, subscriber).last_transport_error == error
            &&& client.without_subscriber(subscriber.id).last_transport_error == error
        }),
{
}

/// The server is told that a request was given up if its caller gave it up, and
/// never otherwise.
pub proof fn law_only_cancelling_notifies<H, E>(
    client: ClientView<H, E>,
    id: i32,
    event: RequestEvent<'_>,
)
    ensures
        client.finish(id, event).notification is Some == event is CancelRequested,
{
}

/// By an event that it admits, a request that may not be given up never ends as
/// given up, and one whose wait is not limited never ends by a timeout.
pub proof fn law_request_ends_as_it_was_made<H, E>(
    client: ClientView<H, E>,
    pending: PendingRequest,
    event: RequestEvent<'_>,
)
    requires
        pending.can_end_by(event),
    ensures
        client.finish(pending.id, event).result matches Err(RequestErrorView::Canceled)
            ==> pending.cancellable && event is CancelRequested,
        client.finish(pending.id, event).result matches Err(RequestErrorView::TimedOut)
            ==> pending.timeout is Some && event is TimedOut,
{
}

/// A request ends with a result only by a response that has one and reports no
/// error.
pub proof fn law_result_comes_from_a_response<H, E>(
    client: ClientView<H, E>,
    id: i32,
    event: RequestEvent<'_>,
)
    ensures
        client.finish(id, event).result is Ok == (event matches RequestEvent::Response(response)
            && response.error is None && response.result is Some),
{
}

/// The subscriptions stay valid when one is added or ends.
pub proof fn law_subscriptions_stay_valid(
    subscriptions: Subscriptions,
    method: Seq<char>,
    subscriber: Subscriber,
    id: NotificationSubscriptionId,
)
    requires
        subscriptions_valid(subscriptions),
    ensures
        !has_id(subscriptions, subscriber.id) ==> subscriptions_valid(
            subscribed(subscriptions, method, subscriber),
        ),
        subscriptions_valid(unsubscribed(subscriptions, id)),
{
    lemma_subscribed(subscriptions, method, subscriber);
    lemma_unsubscribed(subscriptions, id);
}

/// A new subscription is told of its method after those that were there before,
/// and changes nothing for other methods.
pub proof fn law_subscriber_is_told(
    subscriptions: Subscriptions,
    method: Seq<char>,
    subscriber: Subscriber,
    other: Seq<char>,
)
    requires
        subscriptions_valid(subscriptions),
    ensures
        notified(subscribed(subscriptions, method, subscriber), method) == notified(
            subscriptions,
            method,
        ).push(subscriber.handler),
        other != method ==> notified(subscribed(subscriptions, method, subscriber), other)
            == notified(subscriptions, other),
{
    lemma_subscribed(subscriptions, method, subscriber);
    assert(notified(subscribed(subscriptions, method, subscriber), method) =~= notified(
        subscriptions,
        method,
    ).push(subscriber.handler));
}

/// When a subscription ends, its id names none any more, and the others of each
/// method are told as before, in the same order.
pub proof fn law_ended_subscription_is_silent(
    subscriptions: Subscriptions,
    id: NotificationSubscriptionId,
    method: Seq<char>,
)
    requires
        subscriptions_valid(subscriptions),
    ensures
        !has_id(unsubscribed(subscriptions, id), id),
        subscribers_of(unsubscribed(subscriptions, id), method) == others(
            subscribers_of(subscriptions, method),
            id,
        ),
        (forall|i: int|
            0 <= i < subscribers_of(subscriptions, method).len() ==> (#[trigger] subscribers_of(
                subscriptions,
                method,
            )[i]).id != id) ==> notified(unsubscribed(subscriptions, id), method) == notified(
            subscriptions,
            method,
        ),
{
    lemma_unsubscribed(subscriptions, id);
    lemma_others(subscribers_of(subscriptions, method), id);
}

/// The methods that are listed, in order.
pub open spec fn methods_of(subscriptions: Subscriptions) -> Seq<Seq<char>> {
    subscriptions.map_values(|l: Listing| l.method)
}

/// Tells of a method whether it has subscribers other than the one that `id`
/// names.
pub open spec fn has_others(
    subscriptions: Subscriptions,
    id: NotificationSubscriptionId,
) -> spec_fn(Seq<char>) -> bool {
    |method: Seq<char>| others(subscribers_of(subscriptions, method), id).len() > 0
}

/// A method takes its place after all others when it is first subscribed to. It
/// goes when its last subscription ends, and no other changes its place among
/// the rest.
pub proof fn law_methods_keep_their_order(
    subscriptions: Subscriptions,
    method: Seq<char>,
    subscriber: Subscriber,
    id: NotificationSubscriptionId,
)
    requires
        subscriptions_valid(subscriptions),
    ensures
        methods_of(subscribed(subscriptions, method, subscriber)) == (if lists(
            subscriptions,
            method,
        ) {
            methods_of(subscriptions)
        } else {
            methods_of(subscriptions).push(method)
        }),
        methods_of(unsubscribed(subscriptions, id)) == methods_of(subscriptions).filter(
            has_others(subscriptions, id),
        ),
{
    let after = subscribed(subscriptions, method, subscriber);
    if lists(subscriptions, method) {
        assert(methods_of(after) =~= methods_of(subscriptions));
    } else {
        assert(methods_of(after) =~= methods_of(subscriptions).push(method));
    }
    let t = struck(subscriptions, id);
    assert forall|i: int| 0 <= i < t.len() implies has_others(subscriptions, id)(
        (#[trigger] t[i]).method,
    ) == (t[i].subscribers.len() > 0) by {
        lemma_place(subscriptions, i);
    }
    lemma_pruned_methods(t, has_others(subscriptions, id));
    assert(methods_of(t) =~= methods_of(subscriptions));
}

proof fn lemma_pruned_methods(subscriptions: Subscriptions, stays: spec_fn(Seq<char>) -> bool)
    requires
        forall|i: int|
            0 <= i < subscriptions.len() ==> stays((#[trigger] subscriptions[i]).method) == (
            subscriptions[i].subscribers.len() > 0),
    ensures
        methods_of(pruned(subscriptions)) == methods_of(subscriptions).filter(stays),
    decreases subscriptions.len(),
{
    reveal(Seq::filter);
    if subscriptions.len() > 0 {
        let front = subscriptions.drop_last();
        assert forall|i: int| 0 <= i < front.len() implies stays((#[trigger] front[i]).method) == (
        front[i].subscribers.len() > 0) by {
            assert(front[i] == subscriptions[i]);
        }
        lemma_pruned_methods(front, stays);
        assert(methods_of(subscriptions).drop_last() =~= methods_of(front));
        assert(stays(subscriptions[subscriptions.len() - 1].method) == (
        subscriptions.last().subscribers.len() > 0));
    }
    assert(methods_of(pruned(subscriptions)) =~= methods_of(subscriptions).filter(stays));
}

/// To end a subscription undoes it: the same methods are listed in the same order,
/// with the same subscribers, as before.
pub proof fn law_ending_undoes_subscribing(
    subscriptions: Subscriptions,
    method: Seq<char>,
    subscriber: Subscriber,
)
    requires
        subscriptions_valid(subscriptions),
        !has_id(subscriptions, subscriber.id),
    ensures
        unsubscribed(subscribed(subscriptions, method, subscriber), subscriber.id)
            == subscriptions,
{
    let after = subscribed(subscriptions, method, subscriber);
    let id = subscriber.id;
    let t = struck(after, id);
    assert forall|i: int| 0 <= i < subscriptions.len() implies #[trigger] t[i]
        == subscriptions[i] by {
        let before = subscriptions[i].subscribers;
        assert forall|a: int| 0 <= a < before.len() implies (#[trigger] before[a]).id != id by {
            assert(subscriptions[i].subscribers[a].id != id);
        }
        lemma_others(before, id);
        lemma_others_push(before, subscriber, id);
    }
    lemma_pruned(subscriptions);
    if lists(subscriptions, method) {
        assert(t =~= subscriptions);
    } else {
        lemma_others_push(Seq::empty(), subscriber, id);
        lemma_others(Seq::empty(), id);
        assert(Seq::<Subscriber>::empty().push(subscriber) =~= seq![subscriber]);
        reveal(Seq::filter);
        assert(t.drop_last() =~= subscriptions);
    }
}

/// A notification goes to exactly the subscribers of its method, in the order in
/// which they subscribed, with its parameters or null, and changes nothing.
pub proof fn law_notification_goes_to_subscribers<V, H, E>(
    client: ClientView<H, E>,
    message: Seq<char>,
    incoming: Incoming<'_, V>,
)
    requires
        !is_batch(message),
        incoming.request is None,
        incoming.response is None,
        incoming.notification is Some,
    ensures
        ({
            let notification = incoming.notification->0;
            &&& client.input_action(message, incoming) == (InputActionView::<H, V>::Notify {
                handlers: subscribers_of(client.subscriptions, notification.method@).map_values(
                    |s: Subscriber| s.handler,
                ),
                payload: match notification.params {
                    Some(params) => Params::Value(params),
                    None => Params::Null,
                },
            })
            &&& client.after_input(message, incoming) == client
        }),
{
}

/// A handler of questions to the user that is set before a client is made is in
/// place before the first message: a question goes to it. Without one the
/// question is answered that the method was not found.
pub proof fn law_elicitation_handler_is_in_place<V, H, E, P, T, G>(
    server: ContextServerView<P, T, G>,
    name: Seq<char>,
    timeout: Option<nat>,
    number: u64,
    message: Seq<char>,
    incoming: Incoming<'_, V>,
)
    requires
        !is_batch(message),
        incoming.request is Some,
        incoming.request->0.method@ == ELICITATION_CREATE_METHOD@,
    ensures
        ({
            let action = server.new_client::<H, E>(name, timeout, number).input_action(
                message,
                incoming,
            );
            let id = incoming.request->0.id@;
            if server.elicitation_handler is Some {
                action matches InputActionView::CallRequestHandler { handler, id: called, .. }
                    && handler == number && called == id
            } else {
                action == InputActionView::<H, V>::Reply(
                    method_not_found_text(id, ELICITATION_CREATE_METHOD@),
                )
            }
        }),
{
}

} // verus!
