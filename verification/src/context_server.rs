//! A server as it is configured, and whether it runs.

use crate::client::{
    is_file_name_of, length_of, server_name, text_of, timeout_of_secs, Client, ClientView,
    ModelContextServerBinary, Timeout, ELICITATION_CREATE_METHOD,
};
use crate::text::share;
use std::collections::HashMap;
use std::path::PathBuf;
use std::sync::Arc;
use vstd::prelude::*;

verus! {

/// `std::path::PathBuf`, which is only carried.
#[verifier::external_type_specification]
#[verifier::external_body]
pub struct ExPathBuf(PathBuf);

/// `PathBuf::clone`. Claimed of it: the clone is the same path.
pub assume_specification[ <PathBuf as Clone>::clone ](path: &PathBuf) -> (res: PathBuf)
    ensures
        res == *path,
;

/// The name of a server.
#[derive(Debug, Clone, PartialEq, Eq, PartialOrd, Ord, Hash)]
pub struct ContextServerId(pub Arc<str>);

impl View for ContextServerId {
    type V = Seq<char>;

    open spec fn view(&self) -> Seq<char> {
        (*self.0)@
    }
}

impl ContextServerId {
    /// The name as text.
    pub fn to_string(&self) -> (text: String)
        ensures
            text@ == self@,
    {
        let text: &str = &*self.0;
        text.to_owned()
    }
}

/// The name that this client gives itself when it greets a server.
pub const CLIENT_NAME: &'static str = "Zed";

/// How a server is run as a child process.
pub struct ContextServerCommand {
    pub path: PathBuf,
    pub args: Vec<String>,
    pub env: Option<HashMap<String, String>>,
    pub timeout: Option<u64>,
}

/// How a server is reached: as a child process, with the directory to run it
/// in, or by a transport that is there already.
pub enum ContextServerTransport<T> {
    Stdio(ContextServerCommand, Option<PathBuf>),
    Custom(T),
}

/// Whether a program is what a command says.
pub open spec fn is_program_of(
    binary: ModelContextServerBinary,
    command: ContextServerCommand,
) -> bool {
    &&& binary.executable == command.path
    &&& binary.args@.map_values(|s: String| s@) == command.args@.map_values(|s: String| s@)
    &&& match (binary.env, command.env) {
        (Some(env), Some(command_env)) => env@ == command_env@,
        (None, None) => true,
        _ => false,
    }
    &&& binary.timeout == command.timeout
}

/// Where the text of a URL leads.
pub struct Endpoint {
    pub scheme: String,
    pub text: String,
}

/// Scheme and text of the URL that a text is read as, if it can be read as one.
pub uninterp spec fn parsed_url(text: Seq<char>) -> Option<(Seq<char>, Seq<char>)>;

/// Calls `url::Url::parse`, and takes `Url::scheme` and the text of the URL from
/// what it returns. Claimed of it: all of this depends on the text alone.
#[verifier::external_body]
fn parse_url(text: &str) -> (endpoint: Option<Endpoint>)
    ensures
        parsed_url(text@) == (match endpoint {
            Some(endpoint) => Some((endpoint.scheme@, endpoint.text@)),
            None => None,
        }),
{
    match url::Url::parse(text) {
        Ok(url) => Some(Endpoint { scheme: url.scheme().to_owned(), text: url.to_string() }),
        Err(_) => None,
    }
}

/// Why a server cannot be reached over HTTP.
pub enum EndpointError {
    /// The text is no URL.
    InvalidUrl,
    /// The URL's scheme is neither `http` nor `https`; with the scheme.
    UnsupportedScheme(String),
}

/// Why a server cannot be reached over HTTP, as the contracts see it.
pub enum EndpointErrorView {
    InvalidUrl,
    UnsupportedScheme(Seq<char>),
}

impl View for EndpointError {
    type V = EndpointErrorView;

    open spec fn view(&self) -> EndpointErrorView {
        match self {
            EndpointError::InvalidUrl => EndpointErrorView::InvalidUrl,
            EndpointError::UnsupportedScheme(scheme) => EndpointErrorView::UnsupportedScheme(
                scheme@,
            ),
        }
    }
}

impl EndpointError {
    /// What is wrong, in words.
    pub fn text(&self) -> (text: String)
        ensures
            text@ == (match self {
                EndpointError::InvalidUrl => "invalid MCP url"@,
                EndpointError::UnsupportedScheme(scheme) => "unsupported MCP url scheme "@
                    + scheme@,
            }),
    {
        match self {
            EndpointError::InvalidUrl => "invalid MCP url".to_owned(),
            EndpointError::UnsupportedScheme(scheme) => "unsupported MCP url scheme ".to_owned().concat(
                scheme.as_str(),
            ),
        }
    }
}

/// Whether a scheme is one of HTTP.
pub open spec fn is_http(scheme: Seq<char>) -> bool {
    scheme == "http"@ || scheme == "https"@
}

/// What this client tells a server about itself. An `I` holds icons.
pub struct Implementation<I> {
    pub name: String,
    pub version: String,
    pub description: Option<String>,
    pub icons: Option<I>,
}

/// How to reach the server that a client is for.
pub enum Channel<'a, T> {
    /// Run this program in this directory.
    Stdio { binary: ModelContextServerBinary, working_directory: &'a Option<PathBuf> },
    /// Use this transport.
    Custom(&'a T),
}

/// A client to start, and how to reach its server.
pub struct ClientSetup<'a, H, E, T> {
    pub client: Client<H, E>,
    pub channel: Channel<'a, T>,
}

/// A server, as the contracts see it. While it runs, a `P` speaks with it; a `G`
/// answers its questions to the user.
pub struct ContextServerView<P, T, G> {
    pub id: Seq<char>,
    pub client: Option<P>,
    pub configuration: ContextServerTransport<T>,
    /// How long a request waits, in nanoseconds.
    pub request_timeout: Option<nat>,
    pub elicitation_handler: Option<G>,
}

impl<P, T, G> ContextServerView<P, T, G> {
    /// A server that does not run.
    pub open spec fn idle(
        id: Seq<char>,
        configuration: ContextServerTransport<T>,
        request_timeout: Option<nat>,
    ) -> Self {
        ContextServerView {
            id,
            client: None,
            configuration,
            request_timeout,
            elicitation_handler: None,
        }
    }

    /// The state of a new client of the server. If questions to the user are
    /// answered at all, `handler` answers them.
    pub open spec fn new_client<H, E>(
        self,
        name: Seq<char>,
        timeout: Option<nat>,
        handler: u64,
    ) -> ClientView<H, E> {
        let client = ClientView::<H, E>::initial(self.id, name, timeout);
        if self.elicitation_handler is Some {
            client.with_request_handler(ELICITATION_CREATE_METHOD@, handler)
        } else {
            client
        }
    }
}

/// A server that is configured, and may run. While it runs, a `P` speaks with
/// it; a `T` is a transport; a `G` answers its questions to the user.
pub struct ContextServer<P, T, G> {
    id: ContextServerId,
    client: Option<P>,
    configuration: ContextServerTransport<T>,
    request_timeout: Option<Timeout>,
    elicitation_handler: Option<G>,
}

impl<P, T, G> View for ContextServer<P, T, G> {
    type V = ContextServerView<P, T, G>;

    closed spec fn view(&self) -> ContextServerView<P, T, G> {
        ContextServerView {
            id: self.id@,
            client: self.client,
            configuration: self.configuration,
            request_timeout: length_of(self.request_timeout),
            elicitation_handler: self.elicitation_handler,
        }
    }
}

impl<P, T, G> ContextServer<P, T, G> {
    /// A server to be run as a child process.
    pub fn stdio(
        id: ContextServerId,
        command: ContextServerCommand,
        working_directory: Option<PathBuf>,
    ) -> (server: Self)
        ensures
            server@ == ContextServerView::<P, T, G>::idle(
                id@,
                ContextServerTransport::Stdio(command, working_directory),
                None,
            ),
    {
        ContextServer {
            id,
            client: None,
            configuration: ContextServerTransport::Stdio(command, working_directory),
            request_timeout: None,
            elicitation_handler: None,
        }
    }

    /// A server to be reached over HTTP at a URL, by the transport that
    /// `connect` makes for the URL's text.
    pub fn http<F: FnOnce(String) -> T>(
        id: ContextServerId,
        endpoint: &str,
        connect: F,
        request_timeout: Option<Timeout>,
    ) -> (server: Result<Self, EndpointError>)
        requires
            forall|text: String| #[trigger] connect.requires((text,)),
        ensures
            match parsed_url(endpoint@) {
                None => server matches Err(error) && error@ == EndpointErrorView::InvalidUrl,
                Some((scheme, url)) => if is_http(scheme) {
                    server matches Ok(server) && exists|text: String, transport: T|
                        text@ == url && #[trigger] connect.ensures((text,), transport) && server@
                            == ContextServerView::<P, T, G>::idle(
                            id@,
                            ContextServerTransport::Custom(transport),
                            length_of(request_timeout),
                        )
                } else {
                    server matches Err(error) && error@ == EndpointErrorView::UnsupportedScheme(
                        scheme,
                    )
                },
            },
    {
        match parse_url(endpoint) {
            Some(endpoint) => Self::http_at(id, endpoint, connect, request_timeout),
            None => Err(EndpointError::InvalidUrl),
        }
    }

    /// A server to be reached over HTTP at an endpoint, by the transport that
    /// `connect` makes for the endpoint's text.
    pub fn http_at<F: FnOnce(String) -> T>(
        id: ContextServerId,
        endpoint: Endpoint,
        connect: F,
        request_timeout: Option<Timeout>,
    ) -> (server: Result<Self, EndpointError>)
        requires
            connect.requires((endpoint.text,)),
        ensures
            match server {
                Ok(server) => is_http(endpoint.scheme@) && exists|transport: T| #[trigger]
                    connect.ensures((endpoint.text,), transport) && server@
                        == ContextServerView::<P, T, G>::idle(
                        id@,
                        ContextServerTransport::Custom(transport),
                        length_of(request_timeout),
                    ),
                Err(error) => !is_http(endpoint.scheme@) && error@
                    == EndpointErrorView::UnsupportedScheme(endpoint.scheme@),
            },
    {
        let scheme: &str = endpoint.scheme.as_str();
        if *scheme == *"http" || *scheme == *"https" {
            let transport = connect(endpoint.text);
            Ok(Self::new_with_timeout(id, transport, request_timeout))
        } else {
            Err(EndpointError::UnsupportedScheme(endpoint.scheme))
        }
    }

    /// A server to be reached by a transport.
    pub fn new(id: ContextServerId, transport: T) -> (server: Self)
        ensures
            server@ == ContextServerView::<P, T, G>::idle(
                id@,
                ContextServerTransport::Custom(transport),
                None,
            ),
    {
        Self::new_with_timeout(id, transport, None)
    }

    /// A server to be reached by a transport, whose requests wait for so long.
    pub fn new_with_timeout(
        id: ContextServerId,
        transport: T,
        request_timeout: Option<Timeout>,
    ) -> (server: Self)
        ensures
            server@ == ContextServerView::<P, T, G>::idle(
                id@,
                ContextServerTransport::Custom(transport),
                length_of(request_timeout),
            ),
    {
        ContextServer {
            id,
            client: None,
            configuration: ContextServerTransport::Custom(transport),
            request_timeout,
            elicitation_handler: None,
        }
    }

    /// The name of the server.
    pub fn id(&self) -> (id: ContextServerId)
        ensures
            id@ == self@.id,
    {
        ContextServerId(share(&self.id.0))
    }

    /// What speaks with the server, while it runs.
    pub fn client(&self) -> (client: Option<&P>)
        ensures
            match client {
                Some(client) => self@.client == Some(*client),
                None => self@.client is None,
            },
    {
        self.client.as_ref()
    }

    /// What answers the server's questions to the user, if anything does.
    pub fn elicitation_handler(&self) -> (handler: Option<&G>)
        ensures
            match handler {
                Some(handler) => self@.elicitation_handler == Some(*handler),
                None => self@.elicitation_handler is None,
            },
    {
        self.elicitation_handler.as_ref()
    }

    /// Has the server's questions to the user answered by `handler`, by clients
    /// made after this.
    pub fn set_elicitation_handler(&mut self, handler: G)
        ensures
            final(self)@ == (ContextServerView { elicitation_handler: Some(handler), ..old(self)@ }),
    {
        self.elicitation_handler = Some(handler);
    }

    /// A client for the server, and how to reach it. If questions to the user
    /// are answered at all, the request handler of this number answers them.
    pub fn new_client<H, E>(&self, elicitation_handler: u64) -> (setup: ClientSetup<'_, H, E, T>)
        ensures
            setup.client.wf(),
            setup.client.count() == 0,
            match self@.configuration {
                ContextServerTransport::Stdio(command, directory) => {
                    &&& setup.channel matches Channel::Stdio { binary, working_directory }
                    &&& is_program_of(binary, command)
                    &&& *working_directory == directory
                    &&& exists|file_name: Option<String>| #[trigger]
                        is_file_name_of(file_name, command.path) && setup.client@
                            == self@.new_client::<H, E>(
                            server_name(text_of(file_name)),
                            timeout_of_secs(command.timeout),
                            elicitation_handler,
                        )
                },
                ContextServerTransport::Custom(transport) => {
                    &&& setup.channel matches Channel::Custom(chosen)
                    &&& *chosen == transport
                    &&& setup.client@ == self@.new_client::<H, E>(
                        self@.id,
                        self@.request_timeout,
                        elicitation_handler,
                    )
                },
            },
    {
        let setup = match &self.configuration {
            ContextServerTransport::Stdio(command, working_directory) => {
                let binary = ModelContextServerBinary {
                    executable: command.path.clone(),
                    args: command.args.clone(),
                    env: match &command.env {
                        Some(env) => Some(env.clone()),
                        None => None,
                    },
                    timeout: command.timeout,
                };
                assert(binary.args@.map_values(|s: String| s@) =~= command.args@.map_values(
                    |s: String| s@,
                ));
                ClientSetup {
                    client: Client::stdio(self.id(), &binary),
                    channel: Channel::Stdio { binary, working_directory },
                }
            },
            ContextServerTransport::Custom(transport) => ClientSetup {
                client: Client::new(self.id(), self.id().0, self.request_timeout),
                channel: Channel::Custom(transport),
            },
        };
        let mut setup = setup;
        if self.elicitation_handler.is_some() {
            setup.client.install_elicitation_handler(elicitation_handler);
        }
        setup
    }

    /// What to tell the server about this client, which has this version.
    pub fn client_info<I>(&self, version: &str) -> (info: Implementation<I>)
        ensures
            info.name@ == CLIENT_NAME@,
            info.version@ == version@,
            info.description is None,
            info.icons is None,
    {
        Implementation {
            name: CLIENT_NAME.to_owned(),
            version: version.to_owned(),
            description: None,
            icons: None,
        }
    }

    /// Takes note of how the greeting of the server came out. Only if it
    /// succeeded does the server run.
    pub fn initialize<E>(&mut self, outcome: Result<P, E>) -> (result: Result<(), E>)
        ensures
            match outcome {
                Ok(protocol) => result is Ok && final(self)@ == (ContextServerView {
                    client: Some(protocol),
                    ..old(self)@
                }),
                Err(error) => result == Result::<(), E>::Err(error) && final(self)@ == old(self)@,
            },
    {
        match outcome {
            Ok(protocol) => {
                self.client = Some(protocol);
                Ok(())
            },
            Err(error) => Err(error),
        }
    }

    /// Lets go of what speaks with the server.
    pub fn stop(&mut self)
        ensures
            final(self)@ == (ContextServerView { client: None, ..old(self)@ }),
    {
        self.client = None;
    }
}

} // verus!
