use context_server::client::{Client, Incoming, InputAction, Timeout};
use context_server::context_server::{
    Channel, ContextServer, ContextServerCommand, ContextServerId, Endpoint, EndpointError,
};
use context_server::messages::{AnyRequest, RequestId};
use std::collections::HashMap;
use std::path::PathBuf;
use std::sync::Arc;

type TestServer = ContextServer<&'static str, String, u8>;

fn id(name: &str) -> ContextServerId {
    ContextServerId(Arc::from(name))
}

fn command() -> ContextServerCommand {
    let mut env: HashMap<String, String> = HashMap::new();
    env.insert("KEY".to_string(), "value".to_string());
    ContextServerCommand {
        path: PathBuf::from("/opt/tools/server"),
        args: vec!["a".to_string(), "b".to_string()],
        env: Some(env),
        timeout: Some(3),
    }
}

fn asks(client: &mut Client<u8, u8>) -> InputAction<u8, u8> {
    client.handle_input(
        "{}",
        Incoming {
            request: Some(AnyRequest {
                jsonrpc: "2.0",
                id: RequestId::Int(1),
                method: "elicitation/create",
                params: None,
            }),
            response: None,
            notification: None,
        },
    )
}

#[test]
fn id_is_shown_as_it_is() {
    assert_eq!(id("my server").to_string(), "my server");
    let server: TestServer = ContextServer::new(id("x"), "t".to_string());
    assert_eq!(server.id(), id("x"));
}

#[test]
fn http_and_https_are_reached() {
    for url in ["http://localhost:3000/mcp", "HTTPS://Example.com"] {
        let server: Result<TestServer, EndpointError> =
            ContextServer::http(id("s"), url, |text| format!("to {text}"), None);
        let server = server.ok().unwrap();
        let setup = server.new_client::<u8, u8>(0);
        match setup.channel {
            Channel::Custom(transport) => {
                let text = url::Url::parse(url).unwrap().to_string();
                assert_eq!(*transport, format!("to {text}"));
            }
            _ => panic!("no transport"),
        }
    }
}

#[test]
fn http_takes_the_text_of_the_url() {
    let server: Result<TestServer, EndpointError> =
        ContextServer::http(id("s"), "HTTPS://Example.com", |text| text, None);
    match server.ok().unwrap().new_client::<u8, u8>(0).channel {
        Channel::Custom(transport) => assert_eq!(transport, "https://example.com/"),
        _ => panic!("no transport"),
    }
}

#[test]
fn other_schemes_are_not_supported() {
    let server: Result<TestServer, EndpointError> =
        ContextServer::http(id("s"), "ftp://example.com", |_| panic!("connected"), None);
    assert_eq!(
        server.err().unwrap().text(),
        "unsupported MCP url scheme ftp"
    );
    let server: Result<TestServer, EndpointError> = ContextServer::http_at(
        id("s"),
        Endpoint {
            scheme: "httpx".to_string(),
            text: "httpx:".to_string(),
        },
        |_| panic!("connected"),
        None,
    );
    assert_eq!(
        server.err().unwrap().text(),
        "unsupported MCP url scheme httpx"
    );
}

#[test]
fn text_that_is_no_url() {
    let server: Result<TestServer, EndpointError> =
        ContextServer::http(id("s"), "not a url", |_| panic!("connected"), None);
    assert_eq!(server.err().unwrap().text(), "invalid MCP url");
}

#[test]
fn endpoint_is_handed_to_the_transport() {
    let server: Result<TestServer, EndpointError> = ContextServer::http_at(
        id("s"),
        Endpoint {
            scheme: "https".to_string(),
            text: "https://h/".to_string(),
        },
        |text| text,
        Timeout::new(9, 1),
    );
    let server = server.ok().unwrap();
    let mut setup = server.new_client::<u8, u8>(0);
    assert!(matches!(setup.channel, Channel::Custom(text) if text == "https://h/"));
    assert_eq!(
        setup.client.request("m", "null", 0).timeout,
        Timeout::new(9, 1)
    );
}

#[test]
fn stdio_client_runs_the_command() {
    let server: TestServer = ContextServer::stdio(id("s"), command(), Some(PathBuf::from("/work")));
    let mut setup = server.new_client::<u8, u8>(0);
    match setup.channel {
        Channel::Stdio {
            binary,
            working_directory,
        } => {
            assert_eq!(binary.executable, PathBuf::from("/opt/tools/server"));
            assert_eq!(binary.args, vec!["a".to_string(), "b".to_string()]);
            assert_eq!(binary.env.unwrap()["KEY"], "value");
            assert_eq!(binary.timeout, Some(3));
            assert_eq!(*working_directory, Some(PathBuf::from("/work")));
        }
        _ => panic!("no program"),
    }
    assert_eq!(setup.client.name(), "server");
    assert_eq!(setup.client.server_id(), id("s"));
    assert_eq!(
        setup.client.request("m", "null", 0).timeout,
        Timeout::new(3, 0)
    );
}

#[test]
fn custom_client_goes_by_the_id() {
    let server: TestServer = ContextServer::new_with_timeout(
        id("s"),
        "t".to_string(),
        Timeout::new(2, 0),
    );
    let mut setup = server.new_client::<u8, u8>(0);
    assert!(matches!(setup.channel, Channel::Custom(text) if text == "t"));
    assert_eq!(setup.client.name(), "s");
    assert_eq!(
        setup.client.request("m", "null", 0).timeout,
        Timeout::new(2, 0)
    );
}

#[test]
fn elicitation_handler_is_in_place() {
    let mut server: TestServer = ContextServer::new(id("s"), "t".to_string());
    assert!(server.elicitation_handler().is_none());
    let mut before = server.new_client::<u8, u8>(6).client;
    assert!(matches!(asks(&mut before), InputAction::Reply(_)));
    server.set_elicitation_handler(1);
    assert_eq!(server.elicitation_handler(), Some(&1));
    let mut after = server.new_client::<u8, u8>(6).client;
    assert!(matches!(
        asks(&mut after),
        InputAction::CallRequestHandler { handler: 6, .. }
    ));
}

#[test]
fn server_runs_from_start_to_stop() {
    let mut server: TestServer = ContextServer::new(id("s"), "t".to_string());
    assert!(server.client().is_none());
    assert_eq!(server.initialize(Err("refused")), Err("refused"));
    assert!(server.client().is_none());
    assert_eq!(server.initialize::<&str>(Ok("protocol")), Ok(()));
    assert_eq!(server.client(), Some(&"protocol"));
    server.stop();
    assert!(server.client().is_none());
    server.stop();
    assert!(server.client().is_none());
}

#[test]
fn failed_greeting_keeps_a_running_server() {
    let mut server: TestServer = ContextServer::new(id("s"), "t".to_string());
    assert_eq!(server.initialize::<&str>(Ok("old")), Ok(()));
    assert_eq!(server.initialize(Err("refused")), Err("refused"));
    assert_eq!(server.client(), Some(&"old"));
}

#[test]
fn client_says_who_it_is() {
    let server: TestServer = ContextServer::new(id("s"), "t".to_string());
    let info = server.client_info::<u8>("1.2.3");
    assert_eq!(info.name, "Zed");
    assert_eq!(info.version, "1.2.3");
    assert_eq!(info.description, None);
    assert_eq!(info.icons, None);
}
