//! What each event means for a connection, in terms of what came in and what goes
//! out.

use crate::client::{
    is_batch, length_of, nanos_of, server_name, text_of, timeout_of_secs, ClientView,
    FinishedRequest, Incoming, InputAction, InputActionView, ModelContextServerBinary, OutputEvent,
    PendingRequest, RequestCanceled, RequestError, RequestErrorView, RequestEvent, Timeout,
    CANCELLED_METHOD, DEFAULT_REQUEST_TIMEOUT_SECS, ELICITATION_CREATE_METHOD,
};
use crate::context_server::{
    is_http, is_program_of, ContextServerCommand, ContextServerId, ContextServerTransport,
    ContextServerView, EndpointError, EndpointErrorView, CLIENT_NAME,
};
use crate::messages::{
    AnyResponse, Params, RequestId, RequestIdView, INTERNAL_ERROR, INVALID_PARAMS, INVALID_REQUEST,
    JSON_RPC_VERSION, METHOD_NOT_FOUND, PARSE_ERROR,
};
use crate::reading_laws::{law_method_not_found_reads_back, reads_as_error};
use crate::subscriptions::{
    has_id, lemma_others, lemma_others_push, lemma_place, lemma_unsubscribed, lists, notified,
    others, place_of, subscribed, subscribers_of, subscriptions_valid, unsubscribed, Listing,
    NotificationSubscriptionId, Subscriber, Subscriptions, CROWDED_METHOD,
};
use crate::text::{trimmed_start, white_space};
use std::sync::Arc;
use vstd::prelude::*;

verus! {

/// The code points of Unicode's White_Space.
pub open spec fn is_blank(c: char) -> bool {
    let n = c as int;
    9 <= n <= 13 || n == 32 || n == 133 || n == 160 || n == 5760 || 8192 <= n <= 8202 || n == 8232
        || n == 8233 || n == 8239 || n == 8287 || n == 12288
}

/// Whether the first character of a text that is not blank stands at `i`.
pub open spec fn is_first_mark(text: Seq<char>, i: int) -> bool {
    &&& 0 <= i < text.len()
    &&& !is_blank(text[i])
    &&& forall|j: int| 0 <= j < i ==> is_blank(#[trigger] text[j])
}

/// Whether the first character of a text that is not blank opens an array.
pub open spec fn opens_array(text: Seq<char>) -> bool {
    exists|i: int| #[trigger] is_first_mark(text, i) && text[i] == '['
}

proof fn lemma_trimmed(text: Seq<char>, i: int)
    requires
        is_first_mark(text, i),
    ensures
        trimmed_start(text) == text.skip(i),
    decreases i,
{
    if i > 0 {
        let rest = text.drop_first();
        assert(is_blank(text[0]));
        assert forall|j: int| 0 <= j < i - 1 implies is_blank(#[trigger] rest[j]) by {
            assert(rest[j] == text[j + 1]);
        }
        lemma_trimmed(rest, i - 1);
        assert(rest.skip(i - 1) =~= text.skip(i));
    } else {
        assert(text.skip(0) =~= text);
    }
}

proof fn lemma_trimmed_blank(text: Seq<char>)
    requires
        forall|j: int| 0 <= j < text.len() ==> is_blank(#[trigger] text[j]),
    ensures
        trimmed_start(text).len() == 0,
    decreases text.len(),
{
    if text.len() > 0 {
        assert(is_blank(text[0]));
        let rest = text.drop_first();
        assert forall|j: int| 0 <= j < rest.len() implies is_blank(#[trigger] rest[j]) by {
            assert(rest[j] == text[j + 1]);
        }
        lemma_trimmed_blank(rest);
    }
}

proof fn lemma_first_mark(text: Seq<char>) -> (i: int)
    ensures
        is_first_mark(text, i) || forall|j: int|
            0 <= j < text.len() ==> is_blank(#[trigger] text[j]),
    decreases text.len(),
{
    if text.len() == 0 {
        0
    } else if !is_blank(text[0]) {
        assert(is_first_mark(text, 0));
        0
    } else {
        let rest = text.drop_first();
        let i = lemma_first_mark(rest);
        if is_first_mark(rest, i) {
            assert forall|j: int| 0 <= j < i + 1 implies is_blank(#[trigger] text[j]) by {
                if j > 0 {
                    assert(rest[j - 1] == text[j]);
                }
            }
            assert(is_first_mark(text, i + 1));
        } else {
            assert forall|j: int| 0 <= j < text.len() implies is_blank(#[trigger] text[j]) by {
                if j > 0 {
                    assert(rest[j - 1] == text[j]);
                }
            }
        }
        i + 1
    }
}

proof fn lemma_batch(message: Seq<char>)
    ensures
        is_batch(message) == opens_array(message),
{
    let i = lemma_first_mark(message);
    if is_first_mark(message, i) {
        lemma_trimmed(message, i);
        assert forall|k: int| #[trigger] is_first_mark(message, k) implies k == i by {
            if k < i {
                assert(is_blank(message[k]));
            } else if i < k {
                assert(is_blank(message[i]));
            }
        }
    } else {
        lemma_trimmed_blank(message);
    }
}

/// White space is what Unicode calls so.
pub proof fn law_white_space_is_blank(c: char)
    ensures
        white_space(c) == is_blank(c),
{
}

/// What is left of a text without the white space that it begins with begins with
/// the text's first mark, and holds all that follows it; of a blank text nothing
/// is left.
pub proof fn law_trimming_stops_at_the_first_mark(text: Seq<char>)
    ensures
        forall|i: int| #[trigger]
            is_first_mark(text, i) ==> trimmed_start(text) == text.skip(i),
        (forall|j: int| 0 <= j < text.len() ==> is_blank(#[trigger] text[j]))
            ==> trimmed_start(text).len() == 0,
{
    assert forall|i: int| #[trigger] is_first_mark(text, i) implies trimmed_start(text)
        == text.skip(i) by {
        lemma_trimmed(text, i);
    }
    if forall|j: int| 0 <= j < text.len() ==> is_blank(#[trigger] text[j]) {
        lemma_trimmed_blank(text);
    }
}

/// A message whose first mark opens an array is rejected as a batch, and no other
/// is, whatever it holds further on.
pub proof fn law_batch_is_known_by_its_first_mark<V, H, E>(
    client: ClientView<H, E>,
    message: Seq<char>,
    incoming: Incoming<'_, V>,
    i: int,
)
    requires
        is_first_mark(message, i),
    ensures
        (client.input_action(message, incoming) == InputActionView::<H, V>::RejectBatch) == (
        message[i] == '['),
        is_batch(message) == (message[i] == '['),
        message[i] == '[' ==> client.after_input(message, incoming) == client,
{
    lemma_trimmed(message, i);
}

/// A blank message is no batch.
pub proof fn law_blank_message_is_no_batch<V, H, E>(
    client: ClientView<H, E>,
    message: Seq<char>,
    incoming: Incoming<'_, V>,
)
    requires
        forall|j: int| 0 <= j < message.len() ==> is_blank(#[trigger] message[j]),
    ensures
        client.input_action(message, incoming) != InputActionView::<H, V>::RejectBatch,
        !is_batch(message),
{
    lemma_trimmed_blank(message);
}

/// Any message that does not open an array and can be read as a request goes to
/// the handler of the method, under the request's id and with its parameters, or
/// null if it has none. Without a handler it is answered under its id by the
/// error -32601, which names the method. The connection stays as it is.
pub proof fn law_request_is_routed<V, H, E>(
    client: ClientView<H, E>,
    message: Seq<char>,
    incoming: Incoming<'_, V>,
)
    requires
        !opens_array(message),
        incoming.request is Some,
    ensures
        ({
            let request = incoming.request->0;
            let action = client.input_action(message, incoming);
            let id = match request.id {
                RequestId::Int(n) => RequestIdView::Int(n),
                RequestId::Str(s) => RequestIdView::Str(s@),
            };
            &&& client.after_input(message, incoming) == client
            &&& if client.request_handlers.contains_key(request.method@) {
                action == (InputActionView::<H, V>::CallRequestHandler {
                    handler: client.request_handlers[request.method@],
                    id,
                    params: match request.params {
                        Some(params) => params@,
                        None => "null"@,
                    },
                })
            } else {
                action matches InputActionView::Reply(text) && reads_as_error(
                    text,
                    id,
                    -32601,
                    "Method not found: "@ + request.method@,
                )
            }
        }),
{
    lemma_batch(message);
    law_method_not_found_reads_back(incoming.request->0.id@, incoming.request->0.method@);
}

/// Any message that does not open an array, and can be read as a response and not
/// as a request, goes, as it came, to the one who waits for the response of that
/// number, and only to that one. After that nobody waits for it, and all others
/// wait as before. If nobody waits for it, it is discarded and changes nothing.
pub proof fn law_response_is_routed<V, H, E>(
    client: ClientView<H, E>,
    message: Seq<char>,
    incoming: Incoming<'_, V>,
)
    requires
        !opens_array(message),
        incoming.request is None,
        incoming.response is Some,
    ensures
        ({
            let action = client.input_action(message, incoming);
            let after = client.after_input(message, incoming);
            match (incoming.response->0.id, client.response_handlers) {
                (RequestId::Int(n), Some(handlers)) => if handlers.contains_key(n) {
                    &&& action == (InputActionView::<H, V>::DeliverResponse {
                        waiter: handlers[n],
                        message,
                    })
                    &&& after == (ClientView {
                        response_handlers: Some(handlers.remove(n)),
                        ..client
                    })
                } else {
                    action == InputActionView::<H, V>::DiscardResponse && after == client
                },
                _ => action == InputActionView::<H, V>::DiscardResponse && after == client,
            }
        }),
{
    lemma_batch(message);
    match (incoming.response->0.id, client.response_handlers) {
        (RequestId::Int(n), Some(handlers)) => {
            if !handlers.contains_key(n) {
                assert(handlers.remove(n) =~= handlers);
            }
        },
        _ => {},
    }
}

/// Any message that does not open an array, and can be read as a notification and
/// as nothing else, goes to the subscribers of its method, in order, with its
/// parameters or null. One that can be read as nothing is not handled. Neither
/// changes the connection.
pub proof fn law_notification_is_routed<V, H, E>(
    client: ClientView<H, E>,
    message: Seq<char>,
    incoming: Incoming<'_, V>,
)
    requires
        !opens_array(message),
        incoming.request is None,
        incoming.response is None,
    ensures
        client.after_input(message, incoming) == client,
        ({
            let action = client.input_action(message, incoming);
            match incoming.notification {
                Some(notification) => {
                    let subscribers = subscribers_of(client.subscriptions, notification.method@);
                    &&& action matches InputActionView::Notify { handlers, payload }
                    &&& handlers.len() == subscribers.len()
                    &&& forall|i: int|
                        0 <= i < handlers.len() ==> #[trigger] handlers[i] == subscribers[i].handler
                    &&& payload == (match notification.params {
                        Some(params) => Params::Value(params),
                        None => Params::Null,
                    })
                },
                None => action == InputActionView::<H, V>::Unhandled,
            }
        }),
{
    lemma_batch(message);
}

/// A new connection numbers its requests from 0, waits for nothing, handles
/// nothing and tells nobody.
pub proof fn law_connection_starts_empty<H, E>(
    server_id: Seq<char>,
    name: Seq<char>,
    timeout: Option<nat>,
    method: Seq<char>,
)
    ensures
        ({
            let client = ClientView::<H, E>::initial(server_id, name, timeout);
            &&& client.server_id == server_id
            &&& client.name == name
            &&& client.request_timeout == timeout
            &&& client.next_id == 0
            &&& client.response_handlers == Some(Map::<i32, H>::empty())
            &&& client.request_handlers == Map::<Seq<char>, u64>::empty()
            &&& client.subscriptions.len() == 0
            &&& notified(client.subscriptions, method).len() == 0
            &&& client.last_transport_error is None
        }),
{
}

/// A request takes the next number, from which the one after it is one more, or
/// the least if there is none more. Its waiter is waited with under that number,
/// unless the server is gone. Nothing else changes.
pub proof fn law_request_is_registered<H, E>(client: ClientView<H, E>, handler: H)
    ensures
        ({
            let after = client.after_request(handler);
            &&& client.next_id < 0x7fff_ffff ==> after.next_id == client.next_id + 1
            &&& client.next_id == 0x7fff_ffff ==> after.next_id == -0x8000_0000
            &&& after == (ClientView {
                next_id: after.next_id,
                response_handlers: match client.response_handlers {
                    Some(handlers) => Some(handlers.insert(client.next_id, handler)),
                    None => None,
                },
                ..client
            })
        }),
{
}

/// A request that is answered ends with the text of the response's result if the
/// response has one and reports no error, with the error's message if it reports
/// one, and else with the error that neither is there. Nothing is sent, and the
/// connection stays as it is.
pub proof fn law_response_gives_its_result<H, E>(
    client: ClientView<H, E>,
    id: i32,
    response: AnyResponse<'_>,
)
    ensures
        ({
            let event = RequestEvent::Response(response);
            let finished = client.finish(id, event);
            &&& finished.notification is None
            &&& client.after_finish(event) == client
            &&& response.error is None && response.result is Some ==> (finished.result matches Ok(
                text,
            ) && text == response.result->0@)
            &&& response.error is Some ==> (finished.result matches Err(RequestErrorView::Server(
                message,
            )) && message == response.error->0.message@)
            &&& response.error is None && response.result is None ==> finished.result matches Err(
                RequestErrorView::NoResult,
            )
        }),
{
}

/// A request that gets no answer ends with the reason: the parser's words, the
/// transport's error if there is one, else that the connection ended, that it was
/// given up, or that time ran out. Only the transport's error is forgotten by it,
/// and only if it was told.
pub proof fn law_request_ends_with_the_reason<H, E>(client: ClientView<H, E>, id: i32, words: String)
    ensures
        ({
            let malformed = client.finish(id, RequestEvent::Malformed(words));
            let lost = client.finish(id, RequestEvent::Disconnected);
            let given_up = client.finish(id, RequestEvent::CancelRequested);
            let late = client.finish(id, RequestEvent::TimedOut);
            &&& malformed.result matches Err(RequestErrorView::Malformed(text)) && text == words@
            &&& match client.last_transport_error {
                Some(error) => lost.result matches Err(RequestErrorView::Transport(told)) && told
                    == error,
                None => lost.result matches Err(RequestErrorView::Disconnected),
            }
            &&& given_up.result matches Err(RequestErrorView::Canceled)
            &&& late.result matches Err(RequestErrorView::TimedOut)
            &&& malformed.notification is None
            &&& lost.notification is None
            &&& late.notification is None
            &&& client.after_finish(RequestEvent::Malformed(words)) == client
            &&& client.after_finish(RequestEvent::CancelRequested) == client
            &&& client.after_finish(RequestEvent::TimedOut) == client
            &&& client.after_finish(RequestEvent::Disconnected) == (ClientView {
                last_transport_error: None,
                ..client
            })
        }),
{
}

/// A message that was sent changes nothing. When one could not be sent, the error
/// is kept and nobody waits any more; when no more are sent, nobody waits any
/// more. Nothing else changes.
pub proof fn law_sending_ends_the_waiting<H, E>(client: ClientView<H, E>, error: E)
    ensures
        client.after_output(OutputEvent::Sent) == client,
        client.after_output(OutputEvent::SendFailed(error)) == (ClientView {
            response_handlers: None,
            last_transport_error: Some(error),
            ..client
        }),
        client.after_output(OutputEvent::Closed) == (ClientView {
            response_handlers: None,
            ..client
        }),
{
}

/// An installed handler is the one for its method, in place of any before, and
/// those of other methods stay. Nothing else changes.
pub proof fn law_handler_is_installed<H, E>(
    client: ClientView<H, E>,
    method: Seq<char>,
    handler: u64,
    other: Seq<char>,
)
    ensures
        ({
            let after = client.with_request_handler(method, handler);
            &&& after.request_handlers.contains_key(method)
            &&& after.request_handlers[method] == handler
            &&& other != method ==> after.request_handlers.contains_key(other)
                == client.request_handlers.contains_key(other)
            &&& other != method && client.request_handlers.contains_key(other)
                ==> after.request_handlers[other] == client.request_handlers[other]
            &&& after == (ClientView { request_handlers: after.request_handlers, ..client })
        }),
{
}

/// Subscribing, and ending a subscription, change the subscriptions and nothing
/// else.
pub proof fn law_subscribing_changes_subscriptions_only<H, E>(
    client: ClientView<H, E>,
    method: Seq<char>,
    subscriber: Subscriber,
    id: NotificationSubscriptionId,
)
    ensures
        client.with_subscriber(method, subscriber) == (ClientView {
            subscriptions: subscribed(client.subscriptions, method, subscriber),
            ..client
        }),
        client.without_subscriber(id) == (ClientView {
            subscriptions: unsubscribed(client.subscriptions, id),
            ..client
        }),
{
}

/// A method's subscribers are those listed with it; a method that is not listed
/// has none.
pub proof fn law_subscribers_are_those_listed(subscriptions: Subscriptions, method: Seq<char>)
    requires
        subscriptions_valid(subscriptions),
    ensures
        forall|i: int|
            0 <= i < subscriptions.len() && (#[trigger] subscriptions[i]).method == method
                ==> subscribers_of(subscriptions, method) == subscriptions[i].subscribers,
        (forall|i: int| 0 <= i < subscriptions.len() ==> (#[trigger] subscriptions[i]).method
            != method) ==> subscribers_of(subscriptions, method).len() == 0,
{
    assert forall|i: int|
        0 <= i < subscriptions.len() && (#[trigger] subscriptions[i]).method
            == method implies subscribers_of(subscriptions, method)
        == subscriptions[i].subscribers by {
        lemma_place(subscriptions, i);
    }
}

proof fn lemma_others_concat(x: Seq<Subscriber>, y: Seq<Subscriber>, id: NotificationSubscriptionId)
    ensures
        others(x + y, id) == others(x, id) + others(y, id),
    decreases y.len(),
{
    if y.len() > 0 {
        let front = y.drop_last();
        assert(y =~= front.push(y.last()));
        assert(x + y =~= (x + front).push(y.last()));
        lemma_others_concat(x, front, id);
        lemma_others_push(front, y.last(), id);
        lemma_others_push(x + front, y.last(), id);
        assert(others(x + y, id) =~= others(x, id) + others(y, id));
    } else {
        lemma_others(y, id);
        assert(x + y =~= x);
        assert(others(x + y, id) =~= others(x, id) + others(y, id));
    }
}

/// When a subscription ends, those before it and those behind it are told as
/// before, in the order in which they were; of methods that it was not to, all
/// are.
pub proof fn law_ending_closes_the_gap(
    subscriptions: Subscriptions,
    method: Seq<char>,
    before: Seq<Subscriber>,
    ended: Subscriber,
    behind: Seq<Subscriber>,
    other: Seq<char>,
)
    requires
        subscriptions_valid(subscriptions),
        subscribers_of(subscriptions, method) == before + seq![ended] + behind,
    ensures
        subscribers_of(unsubscribed(subscriptions, ended.id), method) == before + behind,
        notified(unsubscribed(subscriptions, ended.id), method) == before.map_values(
            |s: Subscriber| s.handler,
        ) + behind.map_values(|s: Subscriber| s.handler),
        other != method ==> subscribers_of(unsubscribed(subscriptions, ended.id), other)
            == subscribers_of(subscriptions, other) && notified(
            unsubscribed(subscriptions, ended.id),
            other,
        ) == notified(subscriptions, other),
{
    let id = ended.id;
    let all = subscribers_of(subscriptions, method);
    let k = before.len() as int;
    assert(all[k] == ended);
    assert forall|a: int| 0 <= a < before.len() implies (#[trigger] before[a]).id != id by {
        assert(all[a] == before[a]);
        if before[a].id == id {
            lemma_one_id_each(subscriptions, method, a, method, k);
        }
    }
    assert forall|a: int| 0 <= a < behind.len() implies (#[trigger] behind[a]).id != id by {
        assert(all[k + 1 + a] == behind[a]);
        if behind[a].id == id {
            lemma_one_id_each(subscriptions, method, k + 1 + a, method, k);
        }
    }
    lemma_gap(before, ended, behind);
    lemma_after_end(subscriptions, id, method);
    assert(notified(unsubscribed(subscriptions, id), method) =~= before.map_values(
        |s: Subscriber| s.handler,
    ) + behind.map_values(|s: Subscriber| s.handler));
    if other != method {
        let rest = subscribers_of(subscriptions, other);
        assert forall|a: int| 0 <= a < rest.len() implies (#[trigger] rest[a]).id != id by {
            if rest[a].id == id {
                lemma_one_id_each(subscriptions, other, a, method, k);
            }
        }
        lemma_others(rest, id);
        lemma_after_end(subscriptions, id, other);
    }
}

proof fn lemma_after_end(
    subscriptions: Subscriptions,
    id: NotificationSubscriptionId,
    method: Seq<char>,
)
    requires
        subscriptions_valid(subscriptions),
    ensures
        subscribers_of(unsubscribed(subscriptions, id), method) == others(
            subscribers_of(subscriptions, method),
            id,
        ),
{
    lemma_unsubscribed(subscriptions, id);
}

proof fn lemma_one_id_each(
    subscriptions: Subscriptions,
    m: Seq<char>,
    a: int,
    n: Seq<char>,
    b: int,
)
    requires
        subscriptions_valid(subscriptions),
        0 <= a < subscribers_of(subscriptions, m).len(),
        0 <= b < subscribers_of(subscriptions, n).len(),
        subscribers_of(subscriptions, m)[a].id == subscribers_of(subscriptions, n)[b].id,
    ensures
        m == n && a == b,
{
    let i = place_of(subscriptions, m);
    let j = place_of(subscriptions, n);
    assert(lists(subscriptions, m) && lists(subscriptions, n));
    assert(subscriptions[i].subscribers[a].id == subscriptions[j].subscribers[b].id);
}

proof fn lemma_gap(before: Seq<Subscriber>, ended: Subscriber, behind: Seq<Subscriber>)
    requires
        forall|a: int| 0 <= a < before.len() ==> (#[trigger] before[a]).id != ended.id,
        forall|a: int| 0 <= a < behind.len() ==> (#[trigger] behind[a]).id != ended.id,
    ensures
        others(before + seq![ended] + behind, ended.id) == before + behind,
{
    let id = ended.id;
    lemma_others(before, id);
    lemma_others(behind, id);
    lemma_others_push(before, ended, id);
    assert(before.push(ended) =~= before + seq![ended]);
    lemma_others_concat(before + seq![ended], behind, id);
}

/// A request can be ended by any event but these: it cannot be given up unless it
/// was made so, and cannot run out of time unless its time is limited.
pub proof fn law_request_admits_what_it_was_made_with(
    pending: PendingRequest,
    event: RequestEvent<'_>,
)
    ensures
        pending.can_end_by(event) == ((event is CancelRequested ==> pending.cancellable) && (
        event is TimedOut ==> pending.timeout is Some)),
{
}

/// The version and the methods by which the two sides know what is meant, the
/// codes of errors, and the limits.
pub proof fn law_agreed_values()
    ensures
        JSON_RPC_VERSION@ == "2.0"@,
        PARSE_ERROR == -32700,
        INVALID_REQUEST == -32600,
        METHOD_NOT_FOUND == -32601,
        INVALID_PARAMS == -32602,
        INTERNAL_ERROR == -32603,
        DEFAULT_REQUEST_TIMEOUT_SECS == 60,
        CROWDED_METHOD == 20,
        CLIENT_NAME@ == "Zed"@,
        CANCELLED_METHOD@ == "notifications/cancelled"@,
        ELICITATION_CREATE_METHOD@ == "elicitation/create"@,
{
}

/// Lengths of time are counted in nanoseconds, 10^9 to the second. A server that is
/// run as a child process goes by its file name, whole, or by nothing.
pub proof fn law_settings_are_taken_over(secs: u64, nanos: u32, timeout: Timeout, name: String)
    ensures
        nanos_of(secs, nanos) == secs * 1_000_000_000 + nanos,
        timeout_of_secs(Some(secs)) == Some((secs * 1_000_000_000) as nat),
        timeout_of_secs(None) is None,
        length_of(Some(timeout)) == Some(timeout@),
        length_of(None) is None,
        server_name(text_of(Some(name))) == name@,
        server_name(text_of(None)).len() == 0,
{
}

/// A server that was configured does not run, and has nobody for its questions
/// to the user.
pub proof fn law_server_starts_idle<P, T, G>(
    id: Seq<char>,
    configuration: ContextServerTransport<T>,
    timeout: Option<nat>,
)
    ensures
        ({
            let server = ContextServerView::<P, T, G>::idle(id, configuration, timeout);
            &&& server.id == id
            &&& server.client is None
            &&& server.configuration == configuration
            &&& server.request_timeout == timeout
            &&& server.elicitation_handler is None
        }),
{
}

/// A client of a server is a new connection under the server's id. If the server
/// has a handler of questions to the user, the client handles the method
/// `elicitation/create` by it, and else it handles nothing.
pub proof fn law_client_is_set_up<H, E, P, T, G>(
    server: ContextServerView<P, T, G>,
    name: Seq<char>,
    timeout: Option<nat>,
    handler: u64,
)
    ensures
        server.new_client::<H, E>(name, timeout, handler) == (ClientView::<H, E> {
            server_id: server.id,
            name,
            next_id: 0,
            request_timeout: timeout,
            response_handlers: Some(Map::empty()),
            request_handlers: if server.elicitation_handler is Some {
                Map::empty().insert("elicitation/create"@, handler)
            } else {
                Map::empty()
            },
            subscriptions: Seq::<Listing>::empty(),
            last_transport_error: None,
        }),
{
}

/// The program of a command has the command's path, all its arguments in order,
/// its environment and its timeout.
pub proof fn law_program_is_that_of_the_command(
    binary: ModelContextServerBinary,
    command: ContextServerCommand,
)
    requires
        is_program_of(binary, command),
    ensures
        binary.executable == command.path,
        binary.args@.len() == command.args@.len(),
        forall|i: int|
            0 <= i < binary.args@.len() ==> (#[trigger] binary.args@[i])@ == command.args@[i]@,
        binary.env is Some == command.env is Some,
        command.env is Some ==> binary.env->0@ == command.env->0@,
        binary.timeout == command.timeout,
{
    let args = binary.args@.map_values(|s: String| s@);
    let command_args = command.args@.map_values(|s: String| s@);
    assert(args.len() == command_args.len());
    assert forall|i: int| 0 <= i < binary.args@.len() implies (#[trigger] binary.args@[i])@
        == command.args@[i]@ by {
        assert(args[i] == command_args[i]);
    }
}

/// The schemes of HTTP are `http` and `https`, and no others.
pub proof fn law_http_schemes(scheme: Seq<char>)
    ensures
        is_http(scheme) == (scheme =~= seq!['h', 't', 't', 'p'] || scheme =~= seq![
            'h',
            't',
            't',
            'p',
            's',
        ]),
{
    reveal_strlit("http");
    reveal_strlit("https");
    assert("http"@ =~= seq!['h', 't', 't', 'p']);
    assert("https"@ =~= seq!['h', 't', 't', 'p', 's']);
}

/// The contracts see of names, ids and errors the whole text that they hold.
pub proof fn law_nothing_is_hidden<E>(
    n: i32,
    s: String,
    name: Arc<str>,
    error: E,
    canceled: RequestCanceled,
)
    ensures
        RequestId::Int(n)@ == RequestIdView::Int(n),
        RequestId::Str(s)@ == RequestIdView::Str(s@),
        ContextServerId(name)@ == (*name)@,
        EndpointError::InvalidUrl@ == EndpointErrorView::InvalidUrl,
        EndpointError::UnsupportedScheme(s)@ == EndpointErrorView::UnsupportedScheme(s@),
        RequestError::<E>::ServerShutDown@ == RequestErrorView::<E>::ServerShutDown,
        RequestError::<E>::NotSent@ == RequestErrorView::<E>::NotSent,
        RequestError::<E>::Malformed(s)@ == RequestErrorView::<E>::Malformed(s@),
        RequestError::<E>::Server(s)@ == RequestErrorView::<E>::Server(s@),
        RequestError::<E>::NoResult@ == RequestErrorView::<E>::NoResult,
        RequestError::<E>::Transport(error)@ == RequestErrorView::<E>::Transport(error),
        RequestError::<E>::Disconnected@ == RequestErrorView::<E>::Disconnected,
        RequestError::<E>::Canceled(canceled)@ == RequestErrorView::<E>::Canceled,
        RequestError::<E>::TimedOut@ == RequestErrorView::<E>::TimedOut,
{
}

/// The contracts see of an action, and of the end of a request, all that it says.
pub proof fn law_nothing_of_an_action_is_hidden<'a, H, V, E>(
    action: InputAction<H, V>,
    finished: FinishedRequest<'a, E>,
)
    ensures
        (match action {
            InputAction::RejectBatch => action@ is RejectBatch,
            InputAction::CallRequestHandler { handler, id, params } => {
                &&& action@ is CallRequestHandler
                &&& action@->CallRequestHandler_handler == handler
                &&& action@->CallRequestHandler_id == id@
                &&& action@->CallRequestHandler_params == params@
            },
            InputAction::Reply(text) => action@ is Reply && action@->Reply_0 == text@,
            InputAction::DeliverResponse { waiter, message } => {
                &&& action@ is DeliverResponse
                &&& action@->DeliverResponse_waiter == waiter
                &&& action@->DeliverResponse_message == message@
            },
            InputAction::DiscardResponse => action@ is DiscardResponse,
            InputAction::Notify { handlers, payload } => {
                &&& action@ is Notify
                &&& action@->Notify_handlers == handlers@
                &&& action@->Notify_payload == payload
            },
            InputAction::Unhandled => (action@ is Unhandled),
        }),
        finished.notification is Some == finished@.notification is Some,
        finished.notification is Some ==> finished@.notification->0 == finished.notification->0@,
        (match finished.result {
            Ok(result) => finished@.result is Ok && finished@.result->Ok_0 == result@,
            Err(error) => finished@.result is Err && finished@.result->Err_0 == error@,
        }),
{
}

/// What went wrong with a request, in words. A server's message and a parser's
/// words are passed on whole.
pub proof fn law_errors_in_words<E>(text: Seq<char>, error: E)
    ensures
        RequestErrorView::<E>::ServerShutDown.text() == Some("server shut down"@),
        RequestErrorView::<E>::NotSent.text() == Some(
            "failed to write to context server's stdin"@,
        ),
        RequestErrorView::<E>::Malformed(text).text() == Some(text),
        RequestErrorView::<E>::Server(text).text() == Some(text),
        RequestErrorView::<E>::NoResult.text() == Some("Invalid response: no result or error"@),
        RequestErrorView::<E>::Transport(error).text() is None,
        RequestErrorView::<E>::Disconnected.text() == Some("cancelled"@),
        RequestErrorView::<E>::Canceled.text() == Some("Context server request was canceled"@),
        RequestErrorView::<E>::TimedOut.text() == Some("Context server request timeout"@),
{
}

/// Ids name the subscriptions that are listed under them, and no others.
pub proof fn law_ids_name_subscriptions(
    subscriptions: Subscriptions,
    id: NotificationSubscriptionId,
)
    requires
        subscriptions_valid(subscriptions),
    ensures
        forall|method: Seq<char>, a: int|
            0 <= a < subscribers_of(subscriptions, method).len() && (#[trigger] subscribers_of(
                subscriptions,
                method,
            )[a]).id == id ==> has_id(subscriptions, id),
        has_id(subscriptions, id) ==> exists|method: Seq<char>, a: int|
            0 <= a < subscribers_of(subscriptions, method).len() && (#[trigger] subscribers_of(
                subscriptions,
                method,
            )[a]).id == id,
{
    assert forall|method: Seq<char>, a: int|
        0 <= a < subscribers_of(subscriptions, method).len() && (#[trigger] subscribers_of(
            subscriptions,
            method,
        )[a]).id == id implies has_id(subscriptions, id) by {
        let i = place_of(subscriptions, method);
        assert(lists(subscriptions, method));
        assert(subscriptions[i].subscribers[a].id == id);
    }
    if has_id(subscriptions, id) {
        let (i, a) = choose|i: int, a: int|
            0 <= i < subscriptions.len() && 0 <= a < subscriptions[i].subscribers.len() && (
            #[trigger] subscriptions[i].subscribers[a]).id == id;
        lemma_place(subscriptions, i);
        assert(subscribers_of(subscriptions, subscriptions[i].method)[a].id == id);
    }
}

} // verus!
