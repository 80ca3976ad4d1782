use context_server::client::{
    elicitation_reply, file_name_of, Client, ElicitationOutcome, Incoming, InputAction, ModelContextServerBinary,
    OutputAction, OutputEvent, PendingRequest, RequestCanceled, RequestError, RequestEvent, Timeout,
};
use context_server::context_server::ContextServerId;
use context_server::messages::{
    AnyNotification, AnyRequest, AnyResponse, Error, Params, RequestId,
};
use std::path::PathBuf;
use std::sync::Arc;

type TestClient = Client<&'static str, &'static str>;

fn client() -> TestClient {
    Client::new(ContextServerId(Arc::from("server")), Arc::from("server"), None)
}

fn nothing() -> Incoming<'static, u8> {
    Incoming {
        request: None,
        response: None,
        notification: None,
    }
}

fn a_request<'a>(id: RequestId, method: &'a str, params: Option<&'a str>) -> Incoming<'a, u8> {
    Incoming {
        request: Some(AnyRequest {
            jsonrpc: "2.0",
            id,
            method,
            params,
        }),
        ..nothing()
    }
}

fn response_of<'a>(id: RequestId, error: Option<Error>, result: Option<&'a str>) -> AnyResponse<'a> {
    AnyResponse {
        jsonrpc: "2.0",
        id,
        error,
        result,
    }
}

fn a_response(id: RequestId) -> Incoming<'static, u8> {
    Incoming {
        response: Some(response_of(id, None, Some("1"))),
        ..nothing()
    }
}

fn a_notification(method: &str, params: Option<u8>) -> Incoming<'static, u8> {
    Incoming {
        notification: Some(AnyNotification {
            jsonrpc: "2.0",
            method: method.to_string(),
            params,
        }),
        ..nothing()
    }
}

fn confirm(pending: &PendingRequest, sent: bool) -> Option<String> {
    let confirmed: Result<(), RequestError<&'static str>> = pending.confirm(sent);
    match confirmed {
        Ok(()) => None,
        Err(error) => error.text(),
    }
}

fn end(client: &mut TestClient, id: i32, event: RequestEvent<'static>) -> (Option<String>, Result<&'static str, Option<String>>) {
    let finished = client.finish_request(id, event);
    (
        finished.notification,
        finished.result.map_err(|error| match error {
            RequestError::Transport(error) => Some(format!("transport: {error}")),
            error => error.text(),
        }),
    )
}

#[test]
fn requests_count_up() {
    let mut client = client();
    for id in 0..5 {
        let pending = client.request("m", "null", "w");
        assert_eq!(pending.id, id);
        assert_eq!(
            pending.message,
            format!("{{\"jsonrpc\":\"2.0\",\"id\":{id},\"method\":\"m\"}}")
        );
        assert!(pending.registered);
    }
}

#[test]
fn request_waits_for_the_default() {
    let pending = client().request("m", "null", "w");
    assert_eq!(pending.timeout, Timeout::new(60, 0));
    assert!(!pending.cancellable);
}

#[test]
fn request_waits_for_the_timeout_of_the_client() {
    let timeout = Timeout::new(1, 5).unwrap();
    let mut client: TestClient =
        Client::new(ContextServerId(Arc::from("s")), Arc::from("s"), Some(timeout));
    assert_eq!(client.request("m", "null", "w").timeout, Some(timeout));
    let pending = client.request_with("m", "{}", "w", true, None);
    assert_eq!(pending.timeout, None);
    assert!(pending.cancellable);
}

#[test]
fn response_is_delivered_once() {
    let mut client = client();
    let first = client.request("m", "null", "first");
    let second = client.request("m", "null", "second");
    let text = " {\"jsonrpc\":\"2.0\",\"id\":1,\"result\":1}";
    match client.handle_input(text, a_response(RequestId::Int(second.id))) {
        InputAction::DeliverResponse { waiter, message } => {
            assert_eq!(waiter, "second");
            assert_eq!(message, text);
        }
        _ => panic!("not delivered"),
    }
    assert!(matches!(
        client.handle_input(text, a_response(RequestId::Int(second.id))),
        InputAction::DiscardResponse
    ));
    assert!(matches!(
        client.handle_input(text, a_response(RequestId::Int(first.id))),
        InputAction::DeliverResponse { waiter: "first", .. }
    ));
}

#[test]
fn response_that_nobody_waits_for() {
    let mut client = client();
    client.request("m", "null", "w");
    assert!(matches!(
        client.handle_input("{}", a_response(RequestId::Str("0".to_string()))),
        InputAction::DiscardResponse
    ));
    assert!(matches!(
        client.handle_input("{}", a_response(RequestId::Int(5))),
        InputAction::DiscardResponse
    ));
}

#[test]
fn batch_is_rejected() {
    let mut client = client();
    client.request("m", "null", "w");
    assert!(matches!(
        client.handle_input(" \n[{}]", a_response(RequestId::Int(0))),
        InputAction::RejectBatch
    ));
    assert!(matches!(
        client.handle_input("{}", a_response(RequestId::Int(0))),
        InputAction::DeliverResponse { .. }
    ));
}

#[test]
fn unknown_method_is_answered() {
    let mut client = client();
    match client.handle_input("{}", a_request(RequestId::Str("q".to_string()), "roots/list", None)) {
        InputAction::Reply(text) => assert_eq!(
            text,
            "{\"jsonrpc\":\"2.0\",\"id\":\"q\",\"error\":{\"code\":-32601,\"message\":\"Method not found: roots/list\"}}"
        ),
        _ => panic!("no reply"),
    }
}

#[test]
fn elicitation_goes_to_its_handler() {
    let mut client = client();
    client.install_elicitation_handler(4);
    match client.handle_input("{}", a_request(RequestId::Int(8), "elicitation/create", None)) {
        InputAction::CallRequestHandler { handler, id, params } => {
            assert_eq!(handler, 4);
            assert_eq!(id, RequestId::Int(8));
            assert_eq!(params, "null");
        }
        _ => panic!("not called"),
    }
    client.install_elicitation_handler(5);
    match client.handle_input("{}", a_request(RequestId::Int(9), "elicitation/create", Some("[]"))) {
        InputAction::CallRequestHandler { handler, params, .. } => {
            assert_eq!(handler, 5);
            assert_eq!(params, "[]");
        }
        _ => panic!("not called"),
    }
    assert!(matches!(
        client.handle_input("{}", a_request(RequestId::Int(1), "elicitation", None)),
        InputAction::Reply(_)
    ));
}

#[test]
fn request_comes_before_response_and_notification() {
    let mut client = client();
    client.request("m", "null", "w");
    let all = Incoming {
        request: a_request(RequestId::Int(0), "x", None).request,
        response: a_response(RequestId::Int(0)).response,
        notification: a_notification("x", None).notification,
    };
    assert!(matches!(client.handle_input("{}", all), InputAction::Reply(_)));
    let two = Incoming {
        request: None,
        response: a_response(RequestId::Int(0)).response,
        notification: a_notification("x", None).notification,
    };
    assert!(matches!(
        client.handle_input("{}", two),
        InputAction::DeliverResponse { .. }
    ));
}

#[test]
fn notification_goes_to_its_subscribers() {
    let mut client = client();
    client.on_notification("a", 1);
    let second = client.on_notification("a", 2);
    client.on_notification("b", 3);
    assert_eq!(client.handler_count(), 3);
    match client.handle_input("{}", a_notification("a", Some(9))) {
        InputAction::Notify { handlers, payload } => {
            assert_eq!(handlers, vec![1, 2]);
            assert!(matches!(payload, Params::Value(9)));
        }
        _ => panic!("not notified"),
    }
    assert_eq!(client.end_subscription(&second), Some(2));
    match client.handle_input("{}", a_notification("a", None)) {
        InputAction::Notify { handlers, payload } => {
            assert_eq!(handlers, vec![1]);
            assert!(matches!(payload, Params::Null));
        }
        _ => panic!("not notified"),
    }
    assert_eq!(client.end_subscription(&second), None);
    match client.handle_input("{}", a_notification("c", None)) {
        InputAction::Notify { handlers, .. } => assert!(handlers.is_empty()),
        _ => panic!("not notified"),
    }
    assert!(!client.is_crowded("a"));
}

#[test]
fn message_of_no_kind() {
    assert!(matches!(
        client().handle_input("hello", nothing()),
        InputAction::Unhandled
    ));
}

#[test]
fn request_is_confirmed() {
    let pending = client().request("m", "null", "w");
    assert_eq!(confirm(&pending, true), None);
    assert_eq!(
        confirm(&pending, false).unwrap(),
        "failed to write to context server's stdin"
    );
}

#[test]
fn shut_down_is_final() {
    let mut client = client();
    client.request("m", "null", "w");
    assert_eq!(client.handle_output(OutputEvent::Sent), OutputAction::Continue);
    assert_eq!(client.handle_output(OutputEvent::Closed), OutputAction::Stop);
    assert!(matches!(
        client.handle_input("{}", a_response(RequestId::Int(0))),
        InputAction::DiscardResponse
    ));
    let pending = client.request("m", "null", "w");
    assert_eq!(pending.id, 1);
    assert!(!pending.registered);
    assert_eq!(confirm(&pending, true).unwrap(), "server shut down");
    assert_eq!(confirm(&pending, false).unwrap(), "server shut down");
}

#[test]
fn transport_error_is_told_once() {
    let mut client = client();
    client.request("m", "null", "a");
    client.request("m", "null", "b");
    assert_eq!(
        client.handle_output(OutputEvent::SendFailed("auth")),
        OutputAction::Stop
    );
    assert_eq!(
        end(&mut client, 0, RequestEvent::Disconnected),
        (None, Err(Some("transport: auth".to_string())))
    );
    assert_eq!(
        end(&mut client, 1, RequestEvent::Disconnected),
        (None, Err(Some("cancelled".to_string())))
    );
}

#[test]
fn response_gives_its_result() {
    let mut client = client();
    let ok = response_of(RequestId::Int(0), None, Some("{\"a\":1}"));
    assert_eq!(
        end(&mut client, 0, RequestEvent::Response(ok)),
        (None, Ok("{\"a\":1}"))
    );
}

#[test]
fn error_comes_before_result() {
    let mut client = client();
    let error = Error {
        message: "no such tool".to_string(),
        code: -1,
    };
    let both = response_of(RequestId::Int(0), Some(error), Some("1"));
    assert_eq!(
        end(&mut client, 0, RequestEvent::Response(both)),
        (None, Err(Some("no such tool".to_string())))
    );
}

#[test]
fn response_without_result_or_error() {
    let mut client = client();
    let neither = response_of(RequestId::Int(0), None, None);
    assert_eq!(
        end(&mut client, 0, RequestEvent::Response(neither)),
        (None, Err(Some("Invalid response: no result or error".to_string())))
    );
}

#[test]
fn response_that_cannot_be_read() {
    assert_eq!(
        end(&mut client(), 0, RequestEvent::Malformed("expected value".to_string())),
        (None, Err(Some("expected value".to_string())))
    );
}

#[test]
fn cancelling_tells_the_server() {
    let mut client = client();
    client.request("m", "null", "a");
    let pending = client.request_with("m", "null", "b", true, None);
    assert_eq!(
        end(&mut client, pending.id, RequestEvent::CancelRequested),
        (
            Some("{\"jsonrpc\":\"2.0\",\"method\":\"notifications/cancelled\",\"params\":{\"requestId\":1}}".to_string()),
            Err(Some("Context server request was canceled".to_string()))
        )
    );
    assert!(matches!(
        client.handle_input("{}", a_response(RequestId::Int(1))),
        InputAction::DeliverResponse { waiter: "b", .. }
    ));
}

#[test]
fn timeout_tells_nobody() {
    let mut client = client();
    let pending = client.request("m", "null", "w");
    assert_eq!(
        end(&mut client, pending.id, RequestEvent::TimedOut),
        (None, Err(Some("Context server request timeout".to_string())))
    );
    assert!(matches!(
        client.handle_input("{}", a_response(RequestId::Int(0))),
        InputAction::DeliverResponse { .. }
    ));
}

#[test]
fn notify_writes_a_notification() {
    assert_eq!(
        client().notify("notifications/initialized", "{\"a\":[]}"),
        "{\"jsonrpc\":\"2.0\",\"method\":\"notifications/initialized\",\"params\":{\"a\":[]}}"
    );
}

#[test]
fn elicitation_replies() {
    let id = RequestId::Int(2);
    assert_eq!(
        elicitation_reply(&id, &ElicitationOutcome::Answered("{\"action\":\"decline\"}".to_string())),
        "{\"jsonrpc\":\"2.0\",\"id\":2,\"result\":{\"action\":\"decline\"}}"
    );
    assert_eq!(
        elicitation_reply(&id, &ElicitationOutcome::InvalidParams("missing field".to_string())),
        "{\"jsonrpc\":\"2.0\",\"id\":2,\"error\":{\"code\":-32602,\"message\":\"Invalid elicitation/create params: missing field\"}}"
    );
    assert_eq!(
        elicitation_reply(&id, &ElicitationOutcome::Failed("closed".to_string())),
        "{\"jsonrpc\":\"2.0\",\"id\":2,\"error\":{\"code\":-32603,\"message\":\"Elicitation handler failed: closed\"}}"
    );
}

#[test]
fn canceled_in_words() {
    assert_eq!(
        RequestCanceled.to_string(),
        "Context server request was canceled"
    );
}

#[test]
fn stdio_waits_as_its_program_says() {
    let binary = ModelContextServerBinary {
        executable: PathBuf::from("/usr/bin/mcp-server"),
        args: vec!["--stdio".to_string()],
        env: None,
        timeout: Some(7),
    };
    let mut client: TestClient = Client::stdio(ContextServerId(Arc::from("s")), &binary);
    assert_eq!(
        client.request("m", "null", "w").timeout,
        Timeout::new(7, 0)
    );
    assert_eq!(client.name(), "mcp-server");
}

#[test]
fn stdio_without_a_file_name() {
    let client: TestClient = Client::stdio_named(ContextServerId(Arc::from("s")), None, None);
    assert_eq!(client.name(), "");
    let client: TestClient =
        Client::stdio_named(ContextServerId(Arc::from("s")), Some("x".to_string()), None);
    assert_eq!(client.name(), "x");
    assert_eq!(client.server_id().to_string(), "s");
}

#[test]
fn waiting_goes_on() {
    let mut client = client();
    let first = client.request("a", "null", "first");
    let second = client.request("b", "null", "second");
    assert_ne!(first.id, second.id);
    client.handle_output(OutputEvent::Sent);
    client.install_elicitation_handler(1);
    let subscription = client.on_notification("c", 2);
    client.handle_input("{}", a_notification("c", None));
    client.end_subscription(&subscription);
    end(&mut client, first.id, RequestEvent::TimedOut);
    for (id, name) in [(second.id, "second"), (first.id, "first")] {
        match client.handle_input("{}", a_response(RequestId::Int(id))) {
            InputAction::DeliverResponse { waiter, .. } => assert_eq!(waiter, name),
            _ => panic!("{name} does not wait any more"),
        }
    }
}

#[test]
fn timeout_has_nanoseconds_below_a_second() {
    let timeout = Timeout::new(u64::MAX, 999_999_999).unwrap();
    assert_eq!((timeout.secs(), timeout.nanos()), (u64::MAX, 999_999_999));
    assert_eq!(Timeout::new(0, 1_000_000_000), None);
    assert_eq!(Timeout::new(0, u32::MAX), None);
    assert_eq!(Some(Timeout::from_secs(60)), Timeout::new(60, 0));
}

#[test]
fn crowded_method_takes_more_subscribers() {
    let mut client = client();
    for n in 0..20 {
        assert!(!client.is_crowded("m"));
        client.on_notification("m", n);
    }
    assert!(client.is_crowded("m"));
    client.on_notification_uncapped("m", 20);
    match client.handle_input("{}", a_notification("m", None)) {
        InputAction::Notify { handlers, .. } => {
            assert_eq!(handlers, (0..=20).collect::<Vec<u64>>());
        }
        _ => panic!("nobody is told"),
    }
}

#[test]
fn request_ends_as_it_was_made() {
    let mut client = client();
    let plain = client.request_with("m", "null", "w", false, None);
    assert!(!plain.admits(&RequestEvent::CancelRequested));
    assert!(!plain.admits(&RequestEvent::TimedOut));
    assert!(plain.admits(&RequestEvent::Disconnected));
    assert!(plain.admits(&RequestEvent::Malformed("x".to_string())));
    assert!(plain.admits(&RequestEvent::Response(response_of(RequestId::Int(0), None, None))));
    let limited = client.request("m", "null", "w");
    assert!(!limited.admits(&RequestEvent::CancelRequested));
    assert!(limited.admits(&RequestEvent::TimedOut));
    let cancellable = client.request_with("m", "null", "w", true, None);
    assert!(cancellable.admits(&RequestEvent::CancelRequested));
    assert!(!cancellable.admits(&RequestEvent::TimedOut));
}

#[test]
fn file_name_is_the_last_part_of_a_path() {
    assert_eq!(file_name_of(&PathBuf::from("/bin/server")), Some("server".to_string()));
    assert_eq!(file_name_of(&PathBuf::from("..")), None);
}

fn told(client: &mut TestClient, method: &str) -> Vec<u64> {
    match client.handle_input("{}", a_notification(method, None)) {
        InputAction::Notify { handlers, .. } => handlers,
        _ => panic!("no notification"),
    }
}

#[test]
fn subscriber_is_told_while_it_lives() {
    let mut client = client();
    let first = client.on_notification("m", 1);
    let subscription = client.on_notification("m", 2);
    assert_eq!(told(&mut client, "m"), vec![1, 2]);
    let other = client.on_notification("n", 3);
    client.end_subscription(&first);
    client.on_notification("m", 4);
    client.request("r", "null", "w");
    client.handle_output(OutputEvent::Closed);
    assert_eq!(told(&mut client, "m"), vec![2, 4]);
    assert_eq!(told(&mut client, "n"), vec![3]);
    assert_eq!(client.end_subscription(&subscription), Some(2));
    assert_eq!(told(&mut client, "m"), vec![4]);
    client.end_subscription(&other);
    client.on_notification("n", 5);
    client.on_notification("m", 6);
    assert_eq!(told(&mut client, "m"), vec![4, 6]);
    assert_eq!(told(&mut client, "n"), vec![5]);
}
