//! The state of a connection to a server, and what each event makes of it.

use crate::context_server::ContextServerId;
use crate::messages::{
    error_response, error_response_text, id_text, notification_text, ok_response,
    ok_response_text, request_text, AnyNotification, AnyRequest, AnyResponse, Notification, Params,
    Request, RequestId, RequestIdView, INTERNAL_ERROR, INVALID_PARAMS, JSON_RPC_VERSION,
    METHOD_NOT_FOUND,
};
use crate::request_handlers::RequestHandlers;
use crate::subscriptions::{
    has_id, notified, subscribed, subscribers_of, subscriptions_valid, unsubscribed,
    NotificationSubscriptionId, NotificationSubscriptionSet, Subscriber, Subscriptions,
    CROWDED_METHOD, MAX_HANDLERS,
};
use crate::text::{first_mark, into_shared, share, trimmed_start};
use std::collections::HashMap;
use std::path::PathBuf;
use std::sync::Arc;
use vstd::prelude::*;

verus! {

broadcast use vstd::std_specs::hash::group_hash_axioms;

/// How long a request waits if nothing else is said, in seconds.
pub const DEFAULT_REQUEST_TIMEOUT_SECS: u64 = 60;

/// The method of the notification that a request was given up.
pub const CANCELLED_METHOD: &'static str = "notifications/cancelled";

/// The method of the server's requests that ask the user for something.
pub const ELICITATION_CREATE_METHOD: &'static str = "elicitation/create";

/// How many nanoseconds make a second.
pub const NANOS_PER_SEC: u32 = 1_000_000_000;

/// A length of time: seconds, and nanoseconds below a second.
#[derive(Debug, Clone, Copy, PartialEq, Eq, PartialOrd, Ord, Hash, Structural)]
pub struct Timeout {
    secs: u64,
    nanos: u32,
}

impl View for Timeout {
    type V = nat;

    /// The length in nanoseconds.
    closed spec fn view(&self) -> nat {
        nanos_of(self.secs, self.nanos)
    }
}

/// So many seconds and nanoseconds, in nanoseconds.
pub open spec fn nanos_of(secs: u64, nanos: u32) -> nat {
    (secs * NANOS_PER_SEC + nanos) as nat
}

impl Timeout {
    #[verifier::type_invariant]
    spec fn is_normal(self) -> bool {
        self.nanos < NANOS_PER_SEC
    }

    /// So many seconds and nanoseconds. There must be fewer nanoseconds than make
    /// a second.
    pub fn new(secs: u64, nanos: u32) -> (timeout: Option<Timeout>)
        ensures
            match timeout {
                Some(timeout) => nanos < NANOS_PER_SEC && timeout@ == nanos_of(secs, nanos),
                None => nanos >= NANOS_PER_SEC,
            },
    {
        if nanos < NANOS_PER_SEC {
            Some(Timeout { secs, nanos })
        } else {
            None
        }
    }

    /// So many seconds.
    pub fn from_secs(secs: u64) -> (timeout: Timeout)
        ensures
            timeout@ == nanos_of(secs, 0),
    {
        Timeout { secs, nanos: 0 }
    }

    /// The whole seconds.
    pub fn secs(&self) -> (secs: u64)
        ensures
            secs == self@ / (NANOS_PER_SEC as nat),
    {
        proof {
            use_type_invariant(self);
        }
        self.secs
    }

    /// The nanoseconds beyond the whole seconds.
    pub fn nanos(&self) -> (nanos: u32)
        ensures
            nanos == self@ % (NANOS_PER_SEC as nat),
            nanos < NANOS_PER_SEC,
    {
        proof {
            use_type_invariant(self);
        }
        self.nanos
    }
}

/// The length of an optional timeout, in nanoseconds.
pub open spec fn length_of(timeout: Option<Timeout>) -> Option<nat> {
    match timeout {
        Some(timeout) => Some(timeout@),
        None => None,
    }
}

/// A request was given up by the side that made it.
#[derive(Debug, Clone, Copy, PartialEq, Eq, Structural)]
pub struct RequestCanceled;

impl RequestCanceled {
    /// What happened, in words.
    pub fn to_string(&self) -> (text: String)
        ensures
            text@ == "Context server request was canceled"@,
    {
        "Context server request was canceled".to_owned()
    }
}

/// Why a request got no result. `E` is the transport's error type.
pub enum RequestError<E> {
    /// The server is no longer there.
    ServerShutDown,
    /// The request could not be handed to the transport.
    NotSent,
    /// What came back is no response; with the parser's words.
    Malformed(String),
    /// The server answered with an error; with its message.
    Server(String),
    /// The server answered with neither a result nor an error.
    NoResult,
    /// The transport failed.
    Transport(E),
    /// The connection ended before an answer came.
    Disconnected,
    /// The caller gave the request up.
    Canceled(RequestCanceled),
    /// No answer came in time.
    TimedOut,
}

/// Why a request got no result, as the contracts see it.
pub enum RequestErrorView<E> {
    ServerShutDown,
    NotSent,
    Malformed(Seq<char>),
    Server(Seq<char>),
    NoResult,
    Transport(E),
    Disconnected,
    Canceled,
    TimedOut,
}

impl<E> View for RequestError<E> {
    type V = RequestErrorView<E>;

    open spec fn view(&self) -> RequestErrorView<E> {
        match self {
            RequestError::ServerShutDown => RequestErrorView::ServerShutDown,
            RequestError::NotSent => RequestErrorView::NotSent,
            RequestError::Malformed(text) => RequestErrorView::Malformed(text@),
            RequestError::Server(message) => RequestErrorView::Server(message@),
            RequestError::NoResult => RequestErrorView::NoResult,
            RequestError::Transport(error) => RequestErrorView::Transport(*error),
            RequestError::Disconnected => RequestErrorView::Disconnected,
            RequestError::Canceled(_) => RequestErrorView::Canceled,
            RequestError::TimedOut => RequestErrorView::TimedOut,
        }
    }
}

impl<E> RequestErrorView<E> {
    /// What went wrong, in words. A transport speaks for itself.
    pub open spec fn text(self) -> Option<Seq<char>> {
        match self {
            RequestErrorView::ServerShutDown => Some("server shut down"@),
            RequestErrorView::NotSent => Some("failed to write to context server's stdin"@),
            RequestErrorView::Malformed(text) => Some(text),
            RequestErrorView::Server(message) => Some(message),
            RequestErrorView::NoResult => Some("Invalid response: no result or error"@),
            RequestErrorView::Transport(_) => None,
            RequestErrorView::Disconnected => Some("cancelled"@),
            RequestErrorView::Canceled => Some("Context server request was canceled"@),
            RequestErrorView::TimedOut => Some("Context server request timeout"@),
        }
    }
}

impl<E> RequestError<E> {
    /// What went wrong, in words. A transport speaks for itself.
    pub fn text(&self) -> (text: Option<String>)
        ensures
            match text {
                Some(s) => self@.text() == Some(s@),
                None => self@.text() is None,
            },
    {
        match self {
            RequestError::ServerShutDown => Some("server shut down".to_owned()),
            RequestError::NotSent => Some("failed to write to context server's stdin".to_owned()),
            RequestError::Malformed(text) => Some(text.clone()),
            RequestError::Server(message) => Some(message.clone()),
            RequestError::NoResult => Some("Invalid response: no result or error".to_owned()),
            RequestError::Transport(_) => None,
            RequestError::Disconnected => Some("cancelled".to_owned()),
            RequestError::Canceled(canceled) => Some(canceled.to_string()),
            RequestError::TimedOut => Some("Context server request timeout".to_owned()),
        }
    }
}

/// A request that was registered and is to be sent.
pub struct PendingRequest {
    /// The request's name.
    pub id: i32,
    /// The text to hand to the transport.
    pub message: String,
    /// Whether someone waits for the answer. If not, the server is gone.
    pub registered: bool,
    /// Whether the caller may give the request up.
    pub cancellable: bool,
    /// How long to wait for the answer.
    pub timeout: Option<Timeout>,
}

impl PendingRequest {
    /// Whether to wait for the answer, once it is known whether the transport
    /// took the text.
    pub fn confirm<E>(&self, sent: bool) -> (confirmed: Result<(), RequestError<E>>)
        ensures
            match confirmed {
                Ok(_) => self.registered && sent,
                Err(error) => error@ == (if !self.registered {
                    RequestErrorView::<E>::ServerShutDown
                } else {
                    RequestErrorView::<E>::NotSent
                }) && !(self.registered && sent),
            },
    {
        if !self.registered {
            Err(RequestError::ServerShutDown)
        } else if !sent {
            Err(RequestError::NotSent)
        } else {
            Ok(())
        }
    }

    /// Whether an event can end the wait for the answer: the caller gives up only
    /// a request that may be given up, and time runs out only if it is limited.
    pub open spec fn can_end_by(&self, event: RequestEvent<'_>) -> bool {
        match event {
            RequestEvent::CancelRequested => self.cancellable,
            RequestEvent::TimedOut => self.timeout is Some,
            _ => true,
        }
    }

    /// Whether an event can end the wait for the answer.
    pub fn admits(&self, event: &RequestEvent<'_>) -> (admitted: bool)
        ensures
            admitted == self.can_end_by(*event),
    {
        match event {
            RequestEvent::CancelRequested => self.cancellable,
            RequestEvent::TimedOut => self.timeout.is_some(),
            _ => true,
        }
    }
}

/// What ends the wait for an answer.
pub enum RequestEvent<'a> {
    /// An answer came.
    Response(AnyResponse<'a>),
    /// An answer came that is no response; with the parser's words.
    Malformed(String),
    /// No answer can come any more.
    Disconnected,
    /// The caller gave the request up.
    CancelRequested,
    /// No answer came in time.
    TimedOut,
}

/// How a request ended.
pub struct FinishedRequest<'a, E> {
    /// The text of a notification to send to the server.
    pub notification: Option<String>,
    /// The result as JSON text, or why there is none.
    pub result: Result<&'a str, RequestError<E>>,
}

/// How a request ended, as the contracts see it.
pub struct FinishedRequestView<E> {
    pub notification: Option<Seq<char>>,
    pub result: Result<Seq<char>, RequestErrorView<E>>,
}

impl<'a, E> View for FinishedRequest<'a, E> {
    type V = FinishedRequestView<E>;

    open spec fn view(&self) -> FinishedRequestView<E> {
        FinishedRequestView {
            notification: text_of(self.notification),
            result: match self.result {
                Ok(text) => Ok(text@),
                Err(error) => Err(error@),
            },
        }
    }
}

/// What a response says: an error, a result or, wrongly, neither. An error comes
/// before a result.
pub open spec fn response_result<E>(response: AnyResponse<'_>) -> Result<
    Seq<char>,
    RequestErrorView<E>,
> {
    match response.error {
        Some(error) => Err(RequestErrorView::Server(error.message@)),
        None => match response.result {
            Some(result) => Ok(result@),
            None => Err(RequestErrorView::NoResult),
        },
    }
}

/// The parameters of the notification that request `id` was given up.
pub open spec fn cancelled_params(id: i32) -> Seq<char> {
    "{\"requestId\":"@ + (id_text(RequestIdView::Int(id)) + "}"@)
}

/// The text of the notification that request `id` was given up.
pub open spec fn cancelled_text(id: i32) -> Seq<char> {
    notification_text(JSON_RPC_VERSION@, CANCELLED_METHOD@, cancelled_params(id))
}

/// What a received message was read as. A message may be readable in more than
/// one way.
pub struct Incoming<'a, V> {
    pub request: Option<AnyRequest<'a>>,
    pub response: Option<AnyResponse<'a>>,
    pub notification: Option<AnyNotification<'a, V>>,
}

/// What to do about a received message.
pub enum InputAction<H, V> {
    /// Report that batches of messages are not supported.
    RejectBatch,
    /// Call a request handler, with parameters that are JSON text.
    CallRequestHandler { handler: u64, id: RequestId, params: String },
    /// Send this text to the server.
    Reply(String),
    /// Hand the message to the one who waits for it.
    DeliverResponse { waiter: H, message: String },
    /// Nobody waits for this response.
    DiscardResponse,
    /// Call these notification handlers, in this order.
    Notify { handlers: Vec<u64>, payload: Params<V> },
    /// Report that the message is of no known kind.
    Unhandled,
}

/// What to do about a received message, as the contracts see it.
pub enum InputActionView<H, V> {
    RejectBatch,
    CallRequestHandler { handler: u64, id: RequestIdView, params: Seq<char> },
    Reply(Seq<char>),
    DeliverResponse { waiter: H, message: Seq<char> },
    DiscardResponse,
    Notify { handlers: Seq<u64>, payload: Params<V> },
    Unhandled,
}

impl<H, V> View for InputAction<H, V> {
    type V = InputActionView<H, V>;

    open spec fn view(&self) -> InputActionView<H, V> {
        match self {
            InputAction::RejectBatch => InputActionView::RejectBatch,
            InputAction::CallRequestHandler { handler, id, params } =>
                InputActionView::CallRequestHandler {
                    handler: *handler,
                    id: id@,
                    params: params@,
                },
            InputAction::Reply(text) => InputActionView::Reply(text@),
            InputAction::DeliverResponse { waiter, message } => InputActionView::DeliverResponse {
                waiter: *waiter,
                message: message@,
            },
            InputAction::DiscardResponse => InputActionView::DiscardResponse,
            InputAction::Notify { handlers, payload } => InputActionView::Notify {
                handlers: handlers@,
                payload: *payload,
            },
            InputAction::Unhandled => InputActionView::Unhandled,
        }
    }
}

/// Whether a message is a batch: an array, where a single message is an object.
pub open spec fn is_batch(message: Seq<char>) -> bool {
    trimmed_start(message).len() > 0 && trimmed_start(message)[0] == '['
}

/// The answer to a request for a method that nobody handles.
pub open spec fn method_not_found_text(id: RequestIdView, method: Seq<char>) -> Seq<char> {
    error_response_text(id, METHOD_NOT_FOUND, "Method not found: "@ + method)
}

/// What became of a message that was handed to the transport.
pub enum OutputEvent<E> {
    /// The transport sent it.
    Sent,
    /// The transport failed to send it.
    SendFailed(E),
    /// There is none, and there will be none.
    Closed,
}

/// Whether to go on sending.
#[derive(Debug, Clone, Copy, PartialEq, Eq, Structural)]
pub enum OutputAction {
    Continue,
    Stop,
}

/// How a question to the user came out.
pub enum ElicitationOutcome {
    /// The parameters could not be read; with the parser's words.
    InvalidParams(String),
    /// The handler answered, in JSON text.
    Answered(String),
    /// The handler failed; with its words.
    Failed(String),
}

/// The reply to a question to the user.
pub open spec fn elicitation_text(id: RequestIdView, outcome: ElicitationOutcome) -> Seq<char> {
    match outcome {
        ElicitationOutcome::InvalidParams(error) => error_response_text(
            id,
            INVALID_PARAMS,
            "Invalid elicitation/create params: "@ + error@,
        ),
        ElicitationOutcome::Answered(response) => ok_response_text(id, response@),
        ElicitationOutcome::Failed(error) => error_response_text(
            id,
            INTERNAL_ERROR,
            "Elicitation handler failed: "@ + error@,
        ),
    }
}

/// The reply to the server's question `id` to the user.
pub fn elicitation_reply(id: &RequestId, outcome: &ElicitationOutcome) -> (text: String)
    ensures
        text@ == elicitation_text(id@, *outcome),
{
    match outcome {
        ElicitationOutcome::InvalidParams(error) => {
            let message = "Invalid elicitation/create params: ".to_owned().concat(error.as_str());
            error_response(id, INVALID_PARAMS, message.as_str())
        },
        ElicitationOutcome::Answered(response) => ok_response(id, response.as_str()),
        ElicitationOutcome::Failed(error) => {
            let message = "Elicitation handler failed: ".to_owned().concat(error.as_str());
            error_response(id, INTERNAL_ERROR, message.as_str())
        },
    }
}

/// A subscription to a notification of the server.
#[derive(Debug, PartialEq, Eq, Structural)]
pub struct NotificationSubscription {
    id: NotificationSubscriptionId,
}

impl NotificationSubscription {
    /// The id of the subscription.
    pub closed spec fn spec_id(&self) -> NotificationSubscriptionId {
        self.id
    }

    /// The id of the subscription.
    pub fn id(&self) -> (id: NotificationSubscriptionId)
        ensures
            id == self.spec_id(),
    {
        self.id
    }
}

/// The program of a server that is run as a child process.
#[derive(Debug, Clone)]
pub struct ModelContextServerBinary {
    pub executable: PathBuf,
    pub args: Vec<String>,
    pub env: Option<HashMap<String, String>>,
    pub timeout: Option<u64>,
}

/// `std::path::Path::file_name`, with what is no Unicode in it replaced. Nothing
/// is claimed of it: where a path is parted depends on the platform.
#[verifier::external_body]
fn path_file_name(path: &PathBuf) -> (name: Option<String>) {
    match path.file_name() {
        Some(name) => Some(name.to_string_lossy().into_owned()),
        None => None,
    }
}

/// Whether `name` is what `path` can give as its file name.
pub closed spec fn is_file_name_of(name: Option<String>, path: PathBuf) -> bool {
    call_ensures(path_file_name, (&path,), name)
}

/// The file name of a path, if it has one. What that is depends on the platform.
pub fn file_name_of(path: &PathBuf) -> (name: Option<String>)
    ensures
        is_file_name_of(name, *path),
{
    path_file_name(path)
}

/// The id after `id`: ids count up and start over at the least.
pub open spec fn id_after(id: i32) -> i32 {
    if id == i32::MAX {
        i32::MIN
    } else {
        (id + 1) as i32
    }
}

/// The state of a connection, as the contracts see it.
#[verifier::ext_equal]
pub struct ClientView<H, E> {
    pub server_id: Seq<char>,
    pub name: Seq<char>,
    /// The id of the next request.
    pub next_id: i32,
    /// How long a request waits if nothing else is said, in nanoseconds.
    pub request_timeout: Option<nat>,
    /// Who waits for which response, until the connection ends.
    pub response_handlers: Option<Map<i32, H>>,
    pub request_handlers: Map<Seq<char>, u64>,
    pub subscriptions: Subscriptions,
    /// Why the transport failed, until a request takes note of it.
    pub last_transport_error: Option<E>,
}

impl<H, E> ClientView<H, E> {
    /// A connection on which nothing has happened.
    pub open spec fn initial(
        server_id: Seq<char>,
        name: Seq<char>,
        request_timeout: Option<nat>,
    ) -> Self {
        ClientView {
            server_id,
            name,
            next_id: 0,
            request_timeout,
            response_handlers: Some(Map::empty()),
            request_handlers: Map::empty(),
            subscriptions: Seq::empty(),
            last_transport_error: None,
        }
    }

    /// The state after a request whose answer `handler` waits for.
    pub open spec fn after_request(self, handler: H) -> Self {
        ClientView {
            next_id: id_after(self.next_id),
            response_handlers: match self.response_handlers {
                Some(handlers) => Some(handlers.insert(self.next_id, handler)),
                None => None,
            },
            ..self
        }
    }

    /// Who waits for the response to request `id`.
    pub open spec fn waiting_for(self, id: RequestIdView) -> Option<H> {
        match (self.response_handlers, id) {
            (Some(handlers), RequestIdView::Int(n)) => if handlers.contains_key(n) {
                Some(handlers[n])
            } else {
                None
            },
            _ => None,
        }
    }

    /// The state when nobody waits for the response to request `id` any more.
    pub open spec fn answered(self, id: RequestIdView) -> Self {
        match (self.response_handlers, id) {
            (Some(handlers), RequestIdView::Int(n)) => ClientView {
                response_handlers: Some(handlers.remove(n)),
                ..self
            },
            _ => self,
        }
    }

    /// What to do about a message. It counts as a request if it can be read as
    /// one, else as a response, else as a notification.
    pub open spec fn input_action<V>(
        self,
        message: Seq<char>,
        incoming: Incoming<'_, V>,
    ) -> InputActionView<H, V> {
        if is_batch(message) {
            InputActionView::RejectBatch
        } else if let Some(request) = incoming.request {
            if self.request_handlers.contains_key(request.method@) {
                InputActionView::CallRequestHandler {
                    handler: self.request_handlers[request.method@],
                    id: request.id@,
                    params: match request.params {
                        Some(params) => params@,
                        None => "null"@,
                    },
                }
            } else {
                InputActionView::Reply(method_not_found_text(request.id@, request.method@))
            }
        } else if let Some(response) = incoming.response {
            match self.waiting_for(response.id@) {
                Some(waiter) => InputActionView::DeliverResponse { waiter, message },
                None => InputActionView::DiscardResponse,
            }
        } else if let Some(notification) = incoming.notification {
            InputActionView::Notify {
                handlers: notified(self.subscriptions, notification.method@),
                payload: match notification.params {
                    Some(params) => Params::Value(params),
                    None => Params::Null,
                },
            }
        } else {
            InputActionView::Unhandled
        }
    }

    /// The state after a message: only a response changes it.
    pub open spec fn after_input<V>(
        self,
        message: Seq<char>,
        incoming: Incoming<'_, V>,
    ) -> Self {
        if is_batch(message) || incoming.request is Some {
            self
        } else if let Some(response) = incoming.response {
            self.answered(response.id@)
        } else {
            self
        }
    }

    /// How request `id` ends by an event.
    pub open spec fn finish(self, id: i32, event: RequestEvent<'_>) -> FinishedRequestView<E> {
        match event {
            RequestEvent::Response(response) => FinishedRequestView {
                notification: None,
                result: response_result(response),
            },
            RequestEvent::Malformed(text) => FinishedRequestView {
                notification: None,
                result: Err(RequestErrorView::Malformed(text@)),
            },
            RequestEvent::Disconnected => FinishedRequestView {
                notification: None,
                result: Err(
                    match self.last_transport_error {
                        Some(error) => RequestErrorView::Transport(error),
                        None => RequestErrorView::Disconnected,
                    },
                ),
            },
            RequestEvent::CancelRequested => FinishedRequestView {
                notification: Some(cancelled_text(id)),
                result: Err(RequestErrorView::Canceled),
            },
            RequestEvent::TimedOut => FinishedRequestView {
                notification: None,
                result: Err(RequestErrorView::TimedOut),
            },
        }
    }

    /// The state after a request ended: the transport's error is told once.
    pub open spec fn after_finish(self, event: RequestEvent<'_>) -> Self {
        match event {
            RequestEvent::Disconnected => ClientView { last_transport_error: None, ..self },
            _ => self,
        }
    }

    /// The state after an attempt to send. Once nothing more is sent, nobody
    /// waits for a response.
    pub open spec fn after_output(self, event: OutputEvent<E>) -> Self {
        match event {
            OutputEvent::Sent => self,
            OutputEvent::SendFailed(error) => ClientView {
                response_handlers: None,
                last_transport_error: Some(error),
                ..self
            },
            OutputEvent::Closed => ClientView { response_handlers: None, ..self },
        }
    }

    /// The state with a handler installed for the server's requests of a method.
    pub open spec fn with_request_handler(self, method: Seq<char>, handler: u64) -> Self {
        ClientView { request_handlers: self.request_handlers.insert(method, handler), ..self }
    }

    /// The state with one more subscription.
    pub open spec fn with_subscriber(self, method: Seq<char>, subscriber: Subscriber) -> Self {
        ClientView {
            subscriptions: subscribed(self.subscriptions, method, subscriber),
            ..self
        }
    }

    /// The state without a subscription.
    pub open spec fn without_subscriber(self, id: NotificationSubscriptionId) -> Self {
        ClientView { subscriptions: unsubscribed(self.subscriptions, id), ..self }
    }
}

/// The name that a server run as a child process goes by: the file name of its
/// program, or nothing.
pub open spec fn server_name(file_name: Option<Seq<char>>) -> Seq<char> {
    match file_name {
        Some(name) => name,
        None => Seq::empty(),
    }
}

/// The text that an optional string holds.
pub open spec fn text_of(text: Option<String>) -> Option<Seq<char>> {
    match text {
        Some(text) => Some(text@),
        None => None,
    }
}

/// The length of a timeout given in whole seconds, in nanoseconds.
pub open spec fn timeout_of_secs(secs: Option<u64>) -> Option<nat> {
    match secs {
        Some(secs) => Some(nanos_of(secs, 0)),
        None => None,
    }
}

/// The state of a connection to a server. An `H` waits for a response; an `E`
/// is an error of the transport. Request and notification handlers are known by
/// number.
pub struct Client<H, E> {
    server_id: ContextServerId,
    name: Arc<str>,
    next_id: i32,
    request_timeout: Option<Timeout>,
    response_handlers: Option<HashMap<i32, H>>,
    request_handlers: RequestHandlers,
    subscription_set: NotificationSubscriptionSet,
    last_transport_error: Option<E>,
}

impl<H, E> View for Client<H, E> {
    type V = ClientView<H, E>;

    closed spec fn view(&self) -> ClientView<H, E> {
        ClientView {
            server_id: self.server_id@,
            name: (*self.name)@,
            next_id: self.next_id,
            request_timeout: length_of(self.request_timeout),
            response_handlers: match self.response_handlers {
                Some(handlers) => Some(handlers@),
                None => None,
            },
            request_handlers: self.request_handlers@,
            subscriptions: self.subscription_set@,
            last_transport_error: self.last_transport_error,
        }
    }
}

impl<H, E> Client<H, E> {
    /// What every connection keeps.
    pub closed spec fn wf(&self) -> bool {
        self.request_handlers.wf() && self.subscription_set.wf()
    }

    /// How many notification handlers are stored.
    pub closed spec fn count(&self) -> nat {
        self.subscription_set.count()
    }

    /// The subscriptions of a connection are valid.
    pub proof fn lemma_wf(&self)
        requires
            self.wf(),
        ensures
            subscriptions_valid(self@.subscriptions),
    {
        self.subscription_set.lemma_wf();
    }

    /// A new connection to a server.
    pub fn new(
        server_id: ContextServerId,
        server_name: Arc<str>,
        request_timeout: Option<Timeout>,
    ) -> (client: Self)
        ensures
            client.wf(),
            client.count() == 0,
            client@ == ClientView::<H, E>::initial(
                server_id@,
                (*server_name)@,
                length_of(request_timeout),
            ),
    {
        Client {
            server_id,
            name: server_name,
            next_id: 0,
            request_timeout,
            response_handlers: Some(HashMap::new()),
            request_handlers: RequestHandlers::new(),
            subscription_set: NotificationSubscriptionSet::new(),
            last_transport_error: None,
        }
    }

    /// A new connection to a server that is run as a child process. It goes by
    /// the file name of the program, and waits as long as the program's settings
    /// say.
    pub fn stdio(server_id: ContextServerId, binary: &ModelContextServerBinary) -> (client: Self)
        ensures
            client.wf(),
            client.count() == 0,
            exists|file_name: Option<String>| #[trigger]
                is_file_name_of(file_name, binary.executable) && client@ == ClientView::<
                    H,
                    E,
                >::initial(
                    server_id@,
                    server_name(text_of(file_name)),
                    timeout_of_secs(binary.timeout),
                ),
    {
        let file_name = file_name_of(&binary.executable);
        Self::stdio_named(server_id, file_name, binary.timeout)
    }

    /// A new connection to a server that is run as a child process, whose
    /// program has this file name.
    pub fn stdio_named(
        server_id: ContextServerId,
        file_name: Option<String>,
        timeout: Option<u64>,
    ) -> (client: Self)
        ensures
            client.wf(),
            client.count() == 0,
            client@ == ClientView::<H, E>::initial(
                server_id@,
                server_name(text_of(file_name)),
                timeout_of_secs(timeout),
            ),
    {
        let name: String = match file_name {
            Some(name) => name,
            None => String::new(),
        };
        let request_timeout: Option<Timeout> = match timeout {
            Some(secs) => Some(Timeout::from_secs(secs)),
            None => None,
        };
        Self::new(server_id, into_shared(name), request_timeout)
    }

    /// The name of the server.
    pub fn server_id(&self) -> (id: ContextServerId)
        ensures
            id@ == self@.server_id,
    {
        ContextServerId(share(&self.server_id.0))
    }

    /// The name that the connection goes by.
    pub fn name(&self) -> (name: &str)
        ensures
            name@ == self@.name,
    {
        &*self.name
    }

    /// Registers a request whose answer `handler` waits for. It waits for the
    /// client's timeout, or else for the default, and cannot be given up. The
    /// parameters are JSON text.
    pub fn request(&mut self, method: &str, params: &str, handler: H) -> (pending:
        PendingRequest)
        requires
            old(self).wf(),
        ensures
            final(self).wf(),
            final(self).count() == old(self).count(),
            final(self)@ == old(self)@.after_request(handler),
            pending.id == old(self)@.next_id,
            pending.message@ == request_text(
                JSON_RPC_VERSION@,
                RequestIdView::Int(old(self)@.next_id),
                method@,
                params@,
            ),
            pending.registered == old(self)@.response_handlers is Some,
            !pending.cancellable,
            length_of(pending.timeout) == Some(
                match old(self)@.request_timeout {
                    Some(length) => length,
                    None => nanos_of(DEFAULT_REQUEST_TIMEOUT_SECS, 0),
                },
            ),
    {
        let timeout = match self.request_timeout {
            Some(timeout) => timeout,
            None => Timeout::from_secs(DEFAULT_REQUEST_TIMEOUT_SECS),
        };
        self.request_with(method, params, handler, false, Some(timeout))
    }

    /// Registers a request whose answer `handler` waits for, under an id of its
    /// own. The parameters are JSON text.
    pub fn request_with(
        &mut self,
        method: &str,
        params: &str,
        handler: H,
        cancellable: bool,
        timeout: Option<Timeout>,
    ) -> (pending: PendingRequest)
        requires
            old(self).wf(),
        ensures
            final(self).wf(),
            final(self).count() == old(self).count(),
            final(self)@ == old(self)@.after_request(handler),
            pending.id == old(self)@.next_id,
            pending.message@ == request_text(
                JSON_RPC_VERSION@,
                RequestIdView::Int(old(self)@.next_id),
                method@,
                params@,
            ),
            pending.registered == old(self)@.response_handlers is Some,
            pending.cancellable == cancellable,
            pending.timeout == timeout,
    {
        let id: i32 = self.next_id;
        self.next_id = if id == i32::MAX {
            i32::MIN
        } else {
            id + 1
        };
        let request = Request { jsonrpc: JSON_RPC_VERSION, id: RequestId::Int(id), method, params };
        let message = request.to_json();
        let registered: bool = match self.response_handlers.take() {
            Some(handlers) => {
                let mut handlers = handlers;
                handlers.insert(id, handler);
                self.response_handlers = Some(handlers);
                true
            },
            None => false,
        };
        PendingRequest { id, message, registered, cancellable, timeout }
    }

    /// Ends the wait for the answer to request `id`. Whoever was registered for
    /// the answer stays so.
    pub fn finish_request<'a>(&mut self, id: i32, event: RequestEvent<'a>) -> (finished:
        FinishedRequest<'a, E>)
        requires
            old(self).wf(),
        ensures
            final(self).wf(),
            final(self).count() == old(self).count(),
            final(self)@ == old(self)@.after_finish(event),
            finished@ == old(self)@.finish(id, event),
            event matches RequestEvent::Response(response) ==> {
                &&& response.error matches Some(error) ==> finished.result matches Err(
                    RequestError::Server(message),
                ) && message@ == error.message@
                &&& response.error is None ==> (response.result matches Some(result)
                    ==> finished.result matches Ok(text) && text@ == result@)
            },
    {
        match event {
            RequestEvent::Response(response) => {
                let result: Result<&'a str, RequestError<E>> = match response.error {
                    Some(error) => Err(RequestError::Server(error.message)),
                    None => match response.result {
                        Some(result) => Ok(result),
                        None => Err(RequestError::NoResult),
                    },
                };
                FinishedRequest { notification: None, result }
            },
            RequestEvent::Malformed(text) => FinishedRequest {
                notification: None,
                result: Err(RequestError::Malformed(text)),
            },
            RequestEvent::Disconnected => {
                let error = match self.last_transport_error.take() {
                    Some(error) => RequestError::Transport(error),
                    None => RequestError::Disconnected,
                };
                FinishedRequest { notification: None, result: Err(error) }
            },
            RequestEvent::CancelRequested => {
                let mut params = String::new();
                params.append("{\"requestId\":");
                params.append(RequestId::Int(id).to_json().as_str());
                params.append("}");
                assert(params@ =~= cancelled_params(id));
                let text = self.notify(CANCELLED_METHOD, params.as_str());
                FinishedRequest {
                    notification: Some(text),
                    result: Err(RequestError::Canceled(RequestCanceled)),
                }
            },
            RequestEvent::TimedOut => FinishedRequest {
                notification: None,
                result: Err(RequestError::TimedOut),
            },
        }
    }

    /// Says what to do about a message of the server, given what it can be read
    /// as.
    pub fn handle_input<'a, V>(&mut self, message: &str, incoming: Incoming<'a, V>) -> (action:
        InputAction<H, V>)
        requires
            old(self).wf(),
        ensures
            final(self).wf(),
            final(self).count() == old(self).count(),
            final(self)@ == old(self)@.after_input(message@, incoming),
            action@ == old(self)@.input_action(message@, incoming),
    {
        match first_mark(message) {
            Some('[') => {
                return InputAction::RejectBatch;
            },
            _ => {},
        }
        assert(!is_batch(message@));
        if let Some(request) = incoming.request {
            match self.request_handlers.get(request.method) {
                Some(handler) => {
                    let params: String = match request.params {
                        Some(params) => params.to_owned(),
                        None => "null".to_owned(),
                    };
                    InputAction::CallRequestHandler { handler, id: request.id, params }
                },
                None => {
                    let text = "Method not found: ".to_owned().concat(request.method);
                    InputAction::Reply(
                        error_response(&request.id, METHOD_NOT_FOUND, text.as_str()),
                    )
                },
            }
        } else if let Some(response) = incoming.response {
            match self.take_response_handler(&response.id) {
                Some(waiter) => InputAction::DeliverResponse {
                    waiter,
                    message: message.to_owned(),
                },
                None => InputAction::DiscardResponse,
            }
        } else if let Some(notification) = incoming.notification {
            let handlers = self.subscription_set.notify(notification.method.as_str());
            let payload: Params<V> = match notification.params {
                Some(params) => Params::Value(params),
                None => Params::Null,
            };
            InputAction::Notify { handlers, payload }
        } else {
            InputAction::Unhandled
        }
    }

    fn take_response_handler(&mut self, id: &RequestId) -> (handler: Option<H>)
        requires
            old(self).wf(),
        ensures
            final(self).wf(),
            final(self).count() == old(self).count(),
            final(self)@ == old(self)@.answered(id@),
            handler == old(self)@.waiting_for(id@),
    {
        match id {
            RequestId::Int(n) => match self.response_handlers.take() {
                Some(handlers) => {
                    let mut handlers = handlers;
                    let handler = handlers.remove(n);
                    self.response_handlers = Some(handlers);
                    handler
                },
                None => None,
            },
            RequestId::Str(_) => None,
        }
    }

    /// Takes note of what became of a message handed to the transport, and says
    /// whether to go on.
    pub fn handle_output(&mut self, event: OutputEvent<E>) -> (action: OutputAction)
        requires
            old(self).wf(),
        ensures
            final(self).wf(),
            final(self).count() == old(self).count(),
            final(self)@ == old(self)@.after_output(event),
            action == (match event {
                OutputEvent::Sent => OutputAction::Continue,
                _ => OutputAction::Stop,
            }),
    {
        match event {
            OutputEvent::Sent => OutputAction::Continue,
            OutputEvent::SendFailed(error) => {
                self.last_transport_error = Some(error);
                self.response_handlers = None;
                OutputAction::Stop
            },
            OutputEvent::Closed => {
                self.response_handlers = None;
                OutputAction::Stop
            },
        }
    }

    /// The text of a notification to the server. The parameters are JSON text.
    pub fn notify(&self, method: &str, params: &str) -> (text: String)
        ensures
            text@ == notification_text(JSON_RPC_VERSION@, method@, params@),
    {
        Notification { jsonrpc: JSON_RPC_VERSION, method, params }.to_json()
    }

    /// Installs the handler of the server's questions to the user, in place of
    /// the one before.
    pub fn install_elicitation_handler(&mut self, handler: u64)
        requires
            old(self).wf(),
        ensures
            final(self).wf(),
            final(self).count() == old(self).count(),
            final(self)@ == old(self)@.with_request_handler(ELICITATION_CREATE_METHOD@, handler),
    {
        self.request_handlers.insert(ELICITATION_CREATE_METHOD, handler);
    }

    /// How many notification handlers are stored.
    pub fn handler_count(&self) -> (count: usize)
        ensures
            count == self.count(),
    {
        self.subscription_set.handler_count()
    }

    /// Whether a method has so many notification handlers that another data
    /// structure would serve better.
    pub fn is_crowded(&self, method: &str) -> (crowded: bool)
        requires
            self.wf(),
        ensures
            crowded == (subscribers_of(self@.subscriptions, method@).len() >= CROWDED_METHOD),
    {
        self.subscription_set.is_crowded(method)
    }

    /// Subscribes a handler to the server's notifications of a method that is not
    /// crowded, after those that did so before.
    pub fn on_notification(&mut self, method: &'static str, handler: u64) -> (subscription:
        NotificationSubscription)
        requires
            old(self).wf(),
            old(self).count() < MAX_HANDLERS,
            subscribers_of(old(self)@.subscriptions, method@).len() < CROWDED_METHOD,
        ensures
            final(self).wf(),
            final(self).count() == old(self).count() + 1,
            !has_id(old(self)@.subscriptions, subscription.spec_id()),
            final(self)@ == old(self)@.with_subscriber(
                method@,
                Subscriber { id: subscription.spec_id(), handler },
            ),
    {
        NotificationSubscription { id: self.subscription_set.add_handler(method, handler) }
    }

    /// Subscribes a handler to the server's notifications of a method, crowded or
    /// not, after those that did so before.
    pub fn on_notification_uncapped(&mut self, method: &'static str, handler: u64) -> (subscription:
        NotificationSubscription)
        requires
            old(self).wf(),
            old(self).count() < MAX_HANDLERS,
        ensures
            final(self).wf(),
            final(self).count() == old(self).count() + 1,
            !has_id(old(self)@.subscriptions, subscription.spec_id()),
            final(self)@ == old(self)@.with_subscriber(
                method@,
                Subscriber { id: subscription.spec_id(), handler },
            ),
    {
        NotificationSubscription { id: self.subscription_set.add_handler_uncapped(method, handler) }
    }

    /// Ends a subscription, and gives back its handler.
    pub fn end_subscription(&mut self, subscription: &NotificationSubscription) -> (handler:
        Option<u64>)
        requires
            old(self).wf(),
        ensures
            final(self).wf(),
            final(self)@ == old(self)@.without_subscriber(subscription.spec_id()),
            final(self).count() == old(self).count() - (if handler is Some {
                1int
            } else {
                0int
            }),
            handler is Some == has_id(old(self)@.subscriptions, subscription.spec_id()),
            forall|i: int, a: int|
                0 <= i < old(self)@.subscriptions.len() && 0 <= a
                    < old(self)@.subscriptions[i].subscribers.len() && (
                #[trigger] old(self)@.subscriptions[i].subscribers[a]).id
                    == subscription.spec_id() ==> handler == Some(
                    old(self)@.subscriptions[i].subscribers[a].handler,
                ),
    {
        self.subscription_set.remove_handler(subscription.id)
    }
}

} // verus!
