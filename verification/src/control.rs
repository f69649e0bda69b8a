//! The control endpoint of a running program, and what is said through it.
use crate::address;
use crate::address::{ipv4_text, ipv4_text_reads_back, is_address_char, read_socket, reachable_address,
    socket_text, socket_text_reads_back, IpAddress, SocketAddress, LOCALHOST_V4};
use crate::config::ControlConfig;
use crate::config_path::{config_directory, default_config_directory, ConfigScope};
use crate::environment::{Environment, Platform};
use crate::paths;
use crate::paths::{joined_path, tilde_expanded, HomeDirectory, HomePath};
use crate::text;
use crate::text::{all_digits, concat2, concat4, decimal, decimal_reads_back, digits_up_to, first_occurrence,
    lemma_trim_keeps_the_end, occurs, text_lines, trimmed, without_prefix, CharClass};
use vstd::prelude::*;

verus! {

/// Where a running program is controlled.
#[derive(Debug, Clone, PartialEq, Eq)]
pub enum ControlEndpoint {
    Tcp(SocketAddress),
    Unix(String),
    NamedPipe(String),
}

/// Where a running program is controlled, with texts for strings.
pub ghost enum Endpoint {
    Tcp(SocketAddress),
    Unix(Seq<char>),
    NamedPipe(Seq<char>),
}

impl ControlEndpoint {
    /// The endpoint, with texts for strings.
    pub open spec fn endpoint(self) -> Endpoint {
        match self {
            ControlEndpoint::Tcp(address) => Endpoint::Tcp(address),
            ControlEndpoint::Unix(path) => Endpoint::Unix(path@),
            ControlEndpoint::NamedPipe(name) => Endpoint::NamedPipe(name@),
        }
    }
}

// ---------------------------------------------------------------------------
// How endpoints are written
// ---------------------------------------------------------------------------
/// What follows one of two prefixes, the longer one first.
pub open spec fn behind_either(
    value: Seq<char>,
    long: Seq<char>,
    short: Seq<char>,
) -> Option<Seq<char>> {
    if without_prefix(value, long) is Some {
        without_prefix(value, long)
    } else {
        without_prefix(value, short)
    }
}

/// Why a text of digits is no port.
pub open spec fn port_fault(digits: Seq<char>) -> Seq<char> {
    if digits.len() == 0 {
        "cannot parse integer from empty string"@
    } else {
        "number too large to fit in target type"@
    }
}

/// The address of a TCP endpoint: a port at this machine, or an address with a port.
pub open spec fn read_tcp(value: Seq<char>) -> Result<SocketAddress, Seq<char>> {
    let address = if all_digits(value) {
        match digits_up_to(value, 65535) {
            Some(port) => Ok(SocketAddress::new(IpAddress::V4(LOCALHOST_V4), port as u16)),
            None => Err("invalid TCP port "@ + value + ": "@ + port_fault(value)),
        }
    } else {
        match read_socket(value) {
            Some(address) => Ok(address),
            None => Err("invalid TCP address "@ + value + ": "@ + "invalid socket address syntax"@),
        }
    };
    match address {
        Ok(address) => if address.port == 0 {
            Err("control TCP port must not be zero"@)
        } else {
            Ok(address)
        },
        Err(message) => Err(message),
    }
}

/// The endpoint that a text names, or why it names none.
pub open spec fn read_endpoint(value: Seq<char>, home: HomePath) -> Result<Endpoint, Seq<char>> {
    let value = trimmed(value);
    let tcp = behind_either(value, "tcp://"@, "tcp:"@);
    let unix = behind_either(value, "unix://"@, "unix:"@);
    let pipe = behind_either(value, "pipe://"@, "pipe:"@);
    if tcp is Some {
        match read_tcp(tcp->0) {
            Ok(address) => Ok(Endpoint::Tcp(address)),
            Err(message) => Err(message),
        }
    } else if unix is Some {
        if trimmed(unix->0).len() == 0 {
            Err("Unix socket path must not be empty"@)
        } else {
            Ok(Endpoint::Unix(tilde_expanded(unix->0, home)))
        }
    } else if pipe is Some {
        if trimmed(pipe->0).len() == 0 {
            Err("named pipe name must not be empty"@)
        } else {
            Ok(Endpoint::NamedPipe(pipe->0))
        }
    } else {
        Err("expected tcp:<port-or-address>, unix:<path>, or pipe:<name>"@)
    }
}

/// How an endpoint is written.
pub open spec fn endpoint_text(endpoint: Endpoint) -> Seq<char> {
    match endpoint {
        Endpoint::Tcp(address) => "tcp:"@ + socket_text(address),
        Endpoint::Unix(path) => "unix:"@ + path,
        Endpoint::NamedPipe(name) => "pipe:"@ + name,
    }
}

fn strip_either<'a>(value: &'a str, long: &str, short: &str) -> (r: Option<&'a str>)
    ensures
        (match r {
            Some(rest) => behind_either(value@, long@, short@) == Some(rest@),
            None => behind_either(value@, long@, short@) is None,
        }),
{
    match text::strip_prefix(value, long) {
        Some(rest) => Some(rest),
        None => text::strip_prefix(value, short),
    }
}

fn is_all_digits(value: &str) -> (r: bool)
    ensures
        r == all_digits(value@),
{
    let chars = text::chars_of(value);
    for i in 0..chars.len()
        invariant
            chars@ == value@,
            forall|j: int| 0 <= j < i ==> text::is_digit(#[trigger] value@[j]),
    {
        if !text::is_digit(chars[i]) {
            assert(!text::is_digit(value@[i as int]));
            return false;
        }
    }
    true
}

fn parse_tcp(value: &str) -> (r: Result<SocketAddress, String>)
    ensures
        (match r {
            Ok(address) => read_tcp(value@) == Ok::<_, Seq<char>>(address),
            Err(message) => read_tcp(value@) == Err::<SocketAddress, _>(message@),
        }),
{
    let address = if is_all_digits(value) {
        match text::parse_digits(value, 65535) {
            Some(port) => SocketAddress::new(IpAddress::V4(LOCALHOST_V4), port as u16),
            None => {
                let fault = if value.is_empty() {
                    "cannot parse integer from empty string"
                } else {
                    "number too large to fit in target type"
                };
                return Err(concat4("invalid TCP port ", value, ": ", fault));
            },
        }
    } else {
        match address::parse_socket(value) {
            Some(address) => address,
            None => {
                return Err(
                    concat4(
                        "invalid TCP address ",
                        value,
                        ": ",
                        "invalid socket address syntax",
                    ),
                );
            },
        }
    };
    if address.port == 0 {
        return Err("control TCP port must not be zero".to_owned());
    }
    Ok(address)
}

impl ControlEndpoint {
    /// Reads an endpoint; `home` is the user's home directory.
    pub fn parse(value: &str, home: &HomeDirectory) -> (r: Result<ControlEndpoint, String>)
        ensures
            (match r {
                Ok(endpoint) => read_endpoint(value@, home@) == Ok::<_, Seq<char>>(
                    endpoint.endpoint(),
                ),
                Err(message) => read_endpoint(value@, home@) == Err::<Endpoint, _>(message@),
            }),
    {
        let value = text::trim(value);
        match strip_either(value, "tcp://", "tcp:") {
            Some(rest) => {
                return match parse_tcp(rest) {
                    Ok(address) => Ok(ControlEndpoint::Tcp(address)),
                    Err(message) => Err(message),
                };
            },
            None => {},
        }
        match strip_either(value, "unix://", "unix:") {
            Some(path) => {
                if text::trim(path).is_empty() {
                    return Err("Unix socket path must not be empty".to_owned());
                }
                return Ok(ControlEndpoint::Unix(paths::expand_tilde(path, home)));
            },
            None => {},
        }
        match strip_either(value, "pipe://", "pipe:") {
            Some(name) => {
                if text::trim(name).is_empty() {
                    return Err("named pipe name must not be empty".to_owned());
                }
                return Ok(ControlEndpoint::NamedPipe(name.to_owned()));
            },
            None => {},
        }
        Err("expected tcp:<port-or-address>, unix:<path>, or pipe:<name>".to_owned())
    }

    /// Writes the endpoint.
    pub fn text(&self) -> (r: String)
        ensures
            r@ == endpoint_text(self.endpoint()),
    {
        match self {
            ControlEndpoint::Tcp(address) => concat2("tcp:", address.text().as_str()),
            ControlEndpoint::Unix(path) => concat2("unix:", path.as_str()),
            ControlEndpoint::NamedPipe(name) => concat2("pipe:", name.as_str()),
        }
    }

    /// The endpoint that the configuration names, else the one of the scope.
    pub fn from_config(
        config: &ControlConfig,
        scope: ConfigScope,
        environment: &Environment,
    ) -> (r: Result<ControlEndpoint, String>)
        ensures
            ({
                let expected = match config.endpoint {
                    Some(value) => read_endpoint(value@, environment.home_place()),
                    None => Ok(default_endpoint(scope, *environment)),
                };
                match r {
                    Ok(endpoint) => expected == Ok::<_, Seq<char>>(endpoint.endpoint()),
                    Err(message) => expected == Err::<Endpoint, _>(message@),
                }
            }),
    {
        match &config.endpoint {
            Some(value) => {
                ControlEndpoint::parse(value.as_str(), &environment.user_home())
            },
            None => Ok(default_control_endpoint(scope, environment)),
        }
    }

    /// The address to connect to in order to reach an endpoint at `address`.
    pub fn tcp_connect_address(address: SocketAddress) -> (r: SocketAddress)
        ensures
            r == reachable_address(address),
    {
        address.reachable()
    }
}

/// Whether an endpoint is what its text says: a TCP endpoint has a port, a path or a name ends
/// in no white space and does not start with two slashes, and a path does not start at the
/// home directory `home` by a tilde.
pub open spec fn is_plain(endpoint: Endpoint, home: HomePath) -> bool {
    match endpoint {
        Endpoint::Tcp(address) => address.wf() && address.port != 0,
        Endpoint::Unix(path) => {
            &&& path.len() > 0
            &&& !text::is_white_space(path.last())
            &&& without_prefix(path, "//"@) is None
            &&& tilde_expanded(path, home) == path
        },
        Endpoint::NamedPipe(name) => {
            &&& name.len() > 0
            &&& !text::is_white_space(name.last())
            &&& without_prefix(name, "//"@) is None
        },
    }
}

/// The text of a plain endpoint names that endpoint.
pub proof fn endpoint_text_reads_back(endpoint: Endpoint, home: HomePath)
    requires
        is_plain(endpoint, home),
    ensures
        read_endpoint(endpoint_text(endpoint), home) == Ok::<_, Seq<char>>(endpoint),
{
    match endpoint {
        Endpoint::Tcp(address) => {
            lemma_tcp_reads_back(address, home);
        },
        Endpoint::Unix(path) => {
            lemma_unix_reads_back(path, home);
        },
        Endpoint::NamedPipe(name) => {
            lemma_pipe_reads_back(name, home);
        },
    }
}

proof fn lemma_tcp_reads_back(address: SocketAddress, home: HomePath)
    requires
        is_plain(Endpoint::Tcp(address), home),
    ensures
        read_endpoint(endpoint_text(Endpoint::Tcp(address)), home) == Ok::<_, Seq<char>>(
            Endpoint::Tcp(address),
        ),
{
    let rest = socket_text(address);
    let s = "tcp:"@ + rest;
    reveal_strlit("tcp://");
    reveal_strlit("tcp:");
    socket_text_reads_back(address);
    lemma_socket_start(address);
    decimal_reads_back(address.port as nat);
    assert(rest.last() == decimal(address.port as nat).last());
    lemma_trim_keeps_the_end(CharClass::WhiteSpace, s);
    assert(s.take(4) == "tcp:"@);
    assert(s.skip(4) == rest);
    if s.len() >= 6 && s.take(6) == "tcp://"@ {
        assert(s.take(6)[4] == rest[0]);
    }
    assert(behind_either(s, "tcp://"@, "tcp:"@) == Some(rest));
}

proof fn lemma_unix_reads_back(path: Seq<char>, home: HomePath)
    requires
        is_plain(Endpoint::Unix(path), home),
    ensures
        read_endpoint(endpoint_text(Endpoint::Unix(path)), home) == Ok::<_, Seq<char>>(
            Endpoint::Unix(path),
        ),
{
    let s = "unix:"@ + path;
    reveal_strlit("tcp://");
    reveal_strlit("tcp:");
    reveal_strlit("unix://");
    reveal_strlit("unix:");
    reveal_strlit("//");
    assert(s.last() == path.last());
    lemma_trim_keeps_the_end(CharClass::WhiteSpace, s);
    lemma_trim_keeps_the_end(CharClass::WhiteSpace, path);
    lemma_other_start(s, "tcp://"@);
    lemma_other_start(s, "tcp:"@);
    assert(s.take(5) == "unix:"@);
    assert(s.skip(5) == path);
    assert("//"@ =~= seq!['/', '/']);
    assert("unix://"@ =~= "unix:"@ + seq!['/', '/']);
    lemma_no_slashes("unix:"@, path, "unix://"@);
    assert(behind_either(s, "unix://"@, "unix:"@) == Some(path));
}

proof fn lemma_pipe_reads_back(name: Seq<char>, home: HomePath)
    requires
        is_plain(Endpoint::NamedPipe(name), home),
    ensures
        read_endpoint(endpoint_text(Endpoint::NamedPipe(name)), home) == Ok::<_, Seq<char>>(
            Endpoint::NamedPipe(name),
        ),
{
    let s = "pipe:"@ + name;
    reveal_strlit("tcp://");
    reveal_strlit("tcp:");
    reveal_strlit("unix://");
    reveal_strlit("unix:");
    reveal_strlit("pipe://");
    reveal_strlit("pipe:");
    reveal_strlit("//");
    assert(s.last() == name.last());
    lemma_trim_keeps_the_end(CharClass::WhiteSpace, s);
    lemma_trim_keeps_the_end(CharClass::WhiteSpace, name);
    lemma_other_start(s, "tcp://"@);
    lemma_other_start(s, "tcp:"@);
    lemma_other_start(s, "unix://"@);
    lemma_other_start(s, "unix:"@);
    assert(s.take(5) == "pipe:"@);
    assert(s.skip(5) == name);
    assert("//"@ =~= seq!['/', '/']);
    assert("pipe://"@ =~= "pipe:"@ + seq!['/', '/']);
    lemma_no_slashes("pipe:"@, name, "pipe://"@);
    assert(behind_either(s, "pipe://"@, "pipe:"@) == Some(name));
}

proof fn lemma_other_start(s: Seq<char>, prefix: Seq<char>)
    requires
        s.len() > 0,
        prefix.len() > 0,
        s[0] != prefix[0],
    ensures
        without_prefix(s, prefix) is None,
{
    if prefix.len() <= s.len() {
        assert(s.take(prefix.len() as int)[0] == s[0]);
    }
}

proof fn lemma_no_slashes(short: Seq<char>, rest: Seq<char>, long: Seq<char>)
    requires
        long == short + seq!['/', '/'],
        without_prefix(rest, seq!['/', '/']) is None,
    ensures
        without_prefix(short + rest, long) is None,
{
    let s = short + rest;
    if long.len() <= s.len() && s.take(long.len() as int) == long {
        assert forall|i: int| 0 <= i < 2 implies rest[i] == '/' by {
            assert(s.take(long.len() as int)[short.len() + i] == rest[i]);
        }
        assert(rest.take(2) =~= seq!['/', '/']);
    }
}

/// The text of a socket address starts with a digit or a bracket, and is not made of digits
/// alone.
proof fn lemma_socket_start(address: SocketAddress)
    ensures
        socket_text(address).len() > 0,
        socket_text(address)[0] != '/',
        !all_digits(socket_text(address)),
{
    let s = socket_text(address);
    match address.ip {
        IpAddress::V4(bits) => {
            let dotted = ipv4_text(bits);
            ipv4_text_reads_back(bits);
            assert(is_address_char(dotted[0]));
            assert(s[0] == dotted[0]);
            assert(s[dotted.len() as int] == ':');
        },
        IpAddress::V6(_) => {
            assert(s[0] == '[');
        },
    }
}

/// The endpoint of a scope, where none is configured.
pub open spec fn default_endpoint(scope: ConfigScope, environment: Environment) -> Endpoint {
    match environment.platform {
        Platform::Linux => match scope {
            ConfigScope::User => Endpoint::Unix(
                joined_path(
                    environment.platform.path_style(),
                    config_directory(scope, environment),
                    "control.sock"@,
                ),
            ),
            ConfigScope::System => Endpoint::Unix("/run/stk/control.sock"@),
        },
        Platform::OtherUnix => match scope {
            ConfigScope::User => Endpoint::Unix(
                joined_path(
                    environment.platform.path_style(),
                    config_directory(scope, environment),
                    "control.sock"@,
                ),
            ),
            ConfigScope::System => Endpoint::Unix("/var/run/stk/control.sock"@),
        },
        Platform::Windows => match scope {
            ConfigScope::User => Endpoint::NamedPipe(
                "stk-"@ + (match environment.username {
                    Some(name) => name@,
                    None => "user"@,
                }),
            ),
            ConfigScope::System => Endpoint::NamedPipe("stk-system"@),
        },
        Platform::Other => Endpoint::Tcp(
            SocketAddress::new(IpAddress::V4(LOCALHOST_V4), DEFAULT_TCP_PORT),
        ),
    }
}

/// The port of the endpoint where there are neither Unix sockets nor named pipes.
pub const DEFAULT_TCP_PORT: u16 = 19090;

/// The endpoint of a scope, where none is configured.
pub fn default_control_endpoint(scope: ConfigScope, environment: &Environment) -> (r:
    ControlEndpoint)
    ensures
        r.endpoint() == default_endpoint(scope, *environment),
{
    match environment.platform {
        Platform::Linux | Platform::OtherUnix => match scope {
            ConfigScope::User => {
                let directory = default_config_directory(scope, environment);
                ControlEndpoint::Unix(
                    paths::join_path(
                        environment.platform.path_style(),
                        directory.as_str(),
                        "control.sock",
                    ),
                )
            },
            ConfigScope::System => if environment.platform == Platform::Linux {
                ControlEndpoint::Unix("/run/stk/control.sock".to_owned())
            } else {
                ControlEndpoint::Unix("/var/run/stk/control.sock".to_owned())
            },
        },
        Platform::Windows => match scope {
            ConfigScope::User => match &environment.username {
                Some(name) => ControlEndpoint::NamedPipe(concat2("stk-", name.as_str())),
                None => ControlEndpoint::NamedPipe(concat2("stk-", "user")),
            },
            ConfigScope::System => ControlEndpoint::NamedPipe("stk-system".to_owned()),
        },
        Platform::Other => ControlEndpoint::Tcp(
            SocketAddress::new(IpAddress::V4(LOCALHOST_V4), DEFAULT_TCP_PORT),
        ),
    }
}

/// The path of a named pipe.
pub open spec fn pipe_path(name: Seq<char>) -> Seq<char> {
    if without_prefix(name, "\\\\.\\pipe\\"@) is Some {
        name
    } else {
        "\\\\.\\pipe\\"@ + name
    }
}

/// The path of a named pipe.
pub fn named_pipe_path(name: &str) -> (r: String)
    ensures
        r@ == pipe_path(name@),
{
    match text::strip_prefix(name, "\\\\.\\pipe\\") {
        Some(_) => name.to_owned(),
        None => concat2("\\\\.\\pipe\\", name),
    }
}

// ---------------------------------------------------------------------------
// What the program answers
// ---------------------------------------------------------------------------
/// What a request asks for.
#[derive(Debug, Clone, Copy, PartialEq, Eq, Structural)]
pub enum ControlRoute {
    CaptureStart,
    CaptureStop,
    ClearConnections,
    AutoClearEnable,
    AutoClearDisable,
    Reload,
    TrafficHistory,
    StatusStream,
    Status,
    NotFound,
}

/// What a method and a path ask for.
pub open spec fn route_of(method: Seq<char>, path: Seq<char>) -> ControlRoute {
    if method == "POST"@ && path == "/v1/connections/capture/start"@ {
        ControlRoute::CaptureStart
    } else if method == "POST"@ && path == "/v1/connections/capture/stop"@ {
        ControlRoute::CaptureStop
    } else if method == "DELETE"@ && path == "/v1/connections"@ {
        ControlRoute::ClearConnections
    } else if method == "POST"@ && path == "/v1/connections/auto-clear/enable"@ {
        ControlRoute::AutoClearEnable
    } else if method == "POST"@ && path == "/v1/connections/auto-clear/disable"@ {
        ControlRoute::AutoClearDisable
    } else if method == "POST"@ && path == "/v1/reload"@ {
        ControlRoute::Reload
    } else if method == "GET"@ && path == "/v1/traffic-history"@ {
        ControlRoute::TrafficHistory
    } else if method == "GET"@ && path == "/v1/status/stream"@ {
        ControlRoute::StatusStream
    } else if method == "GET"@ && path == "/v1/status"@ {
        ControlRoute::Status
    } else {
        ControlRoute::NotFound
    }
}

/// What a request asks for.
pub fn control_route(method: &str, path: &str) -> (r: ControlRoute)
    ensures
        r == route_of(method@, path@),
{
    let post = text::same_text(method, "POST");
    let get = text::same_text(method, "GET");
    if post && text::same_text(path, "/v1/connections/capture/start") {
        ControlRoute::CaptureStart
    } else if post && text::same_text(path, "/v1/connections/capture/stop") {
        ControlRoute::CaptureStop
    } else if text::same_text(method, "DELETE") && text::same_text(path, "/v1/connections") {
        ControlRoute::ClearConnections
    } else if post && text::same_text(path, "/v1/connections/auto-clear/enable") {
        ControlRoute::AutoClearEnable
    } else if post && text::same_text(path, "/v1/connections/auto-clear/disable") {
        ControlRoute::AutoClearDisable
    } else if post && text::same_text(path, "/v1/reload") {
        ControlRoute::Reload
    } else if get && text::same_text(path, "/v1/traffic-history") {
        ControlRoute::TrafficHistory
    } else if get && text::same_text(path, "/v1/status/stream") {
        ControlRoute::StatusStream
    } else if get && text::same_text(path, "/v1/status") {
        ControlRoute::Status
    } else {
        ControlRoute::NotFound
    }
}

/// Status and text of an answer that is a text; `accepted` says whether a reload was taken up.
pub open spec fn text_answer(route: ControlRoute, accepted: bool) -> Option<(u16, Seq<char>)> {
    match route {
        ControlRoute::CaptureStart => Some((200, "connection capture started\n"@)),
        ControlRoute::CaptureStop => Some((200, "connection capture stopped\n"@)),
        ControlRoute::ClearConnections => Some((200, "captured connections cleared\n"@)),
        ControlRoute::AutoClearEnable => Some((200, "connection auto-clear enabled\n"@)),
        ControlRoute::AutoClearDisable => Some((200, "connection auto-clear disabled\n"@)),
        ControlRoute::Reload => if accepted {
            Some((202, "reload requested\n"@))
        } else {
            Some((503, "reload control unavailable\n"@))
        },
        ControlRoute::NotFound => Some((404, "not found\n"@)),
        ControlRoute::TrafficHistory | ControlRoute::StatusStream | ControlRoute::Status => None,
    }
}

/// Status and text of the answer to a request, where the answer is a text.
pub fn control_answer(route: ControlRoute, accepted: bool) -> (r: Option<(u16, &'static str)>)
    ensures
        (match r {
            Some((status, body)) => text_answer(route, accepted) == Some((status, body@)),
            None => text_answer(route, accepted) is None,
        }),
{
    match route {
        ControlRoute::CaptureStart => Some((200, "connection capture started\n")),
        ControlRoute::CaptureStop => Some((200, "connection capture stopped\n")),
        ControlRoute::ClearConnections => Some((200, "captured connections cleared\n")),
        ControlRoute::AutoClearEnable => Some((200, "connection auto-clear enabled\n")),
        ControlRoute::AutoClearDisable => Some((200, "connection auto-clear disabled\n")),
        ControlRoute::Reload => if accepted {
            Some((202, "reload requested\n"))
        } else {
            Some((503, "reload control unavailable\n"))
        },
        ControlRoute::NotFound => Some((404, "not found\n")),
        ControlRoute::TrafficHistory | ControlRoute::StatusStream | ControlRoute::Status => None,
    }
}

// ---------------------------------------------------------------------------
// What a client asks
// ---------------------------------------------------------------------------
/// The path that starts or stops the capture of connections.
pub open spec fn capture_path_text(recording: bool) -> Seq<char> {
    if recording {
        "/v1/connections/capture/start"@
    } else {
        "/v1/connections/capture/stop"@
    }
}

/// The path that has closed connections cleared away, or kept.
pub open spec fn auto_clear_path_text(enabled: bool) -> Seq<char> {
    if enabled {
        "/v1/connections/auto-clear/enable"@
    } else {
        "/v1/connections/auto-clear/disable"@
    }
}

/// The path that starts or stops the capture of connections.
pub fn capture_path(recording: bool) -> (r: &'static str)
    ensures
        r@ == capture_path_text(recording),
{
    if recording {
        "/v1/connections/capture/start"
    } else {
        "/v1/connections/capture/stop"
    }
}

/// The path that has closed connections cleared away, or kept.
pub fn auto_clear_path(enabled: bool) -> (r: &'static str)
    ensures
        r@ == auto_clear_path_text(enabled),
{
    if enabled {
        "/v1/connections/auto-clear/enable"
    } else {
        "/v1/connections/auto-clear/disable"
    }
}

/// A request for a value.
pub fn query_request(path: &str) -> (r: String)
    ensures
        r@ == "GET "@ + path@
            + " HTTP/1.1\r\nHost: localhost\r\nConnection: close\r\nAccept: application/json\r\n\r\n"@,
{
    text::concat3(
        "GET ",
        path,
        " HTTP/1.1\r\nHost: localhost\r\nConnection: close\r\nAccept: application/json\r\n\r\n",
    )
}

/// A request that something be done.
pub fn command_request(method: &str, path: &str) -> (r: String)
    ensures
        r@ == method@ + " "@ + path@
            + " HTTP/1.1\r\nHost: localhost\r\nConnection: close\r\nContent-Length: 0\r\n\r\n"@,
{
    concat4(
        method,
        " ",
        path,
        " HTTP/1.1\r\nHost: localhost\r\nConnection: close\r\nContent-Length: 0\r\n\r\n",
    )
}

/// The first line of the head of a response, and its body.
pub open spec fn response_parts(response: Seq<char>) -> Option<(Seq<char>, Seq<char>)> {
    let end = first_occurrence(response, "\r\n\r\n"@, 0);
    if end < 0 {
        None
    } else {
        let lines = text_lines(response.take(end));
        Some(
            (
                if lines.len() > 0 {
                    lines[0]
                } else {
                    Seq::empty()
                },
                response.skip(end + 4),
            ),
        )
    }
}

/// Splits a response into its status line and its body.
pub fn split_http_response(response: &str) -> (r: Result<(String, String), String>)
    ensures
        (match r {
            Ok((status, body)) => response_parts(response@) == Some((status@, body@)),
            Err(message) => response_parts(response@) is None && message@
                == "control API returned an incomplete HTTP response"@,
        }),
{
    proof {
        reveal_strlit("\r\n\r\n");
    }
    match text::find_text(response, "\r\n\r\n") {
        Some(end) => {
            let n: usize = response.unicode_len();
            let head = response.substring_char(0, end);
            let body = response.substring_char(end + 4, n);
            assert(head@ == response@.take(end as int));
            assert(body@ == response@.skip(end + 4));
            let lines = text::lines(head);
            assert(text::texts(lines@).len() == lines@.len());
            if lines.len() > 0 {
                assert(text::texts(lines@)[0] == lines@[0]@);
                Ok((lines[0].clone(), body.to_owned()))
            } else {
                Ok((String::new(), body.to_owned()))
            }
        },
        None => Err("control API returned an incomplete HTTP response".to_owned()),
    }
}

/// The body of a response with the status `code`, or what is wrong with the response; `api`
/// names the side that answered.
pub fn expect_status(response: &str, code: &str, api: &str) -> (r: Result<String, String>)
    ensures
        (match response_parts(response@) {
            Some((status, body)) => if occurs(status, code@) {
                r matches Ok(text) && text@ == body
            } else {
                r matches Err(message) && message@ == api@ + " returned "@ + status
            },
            None => r matches Err(message) && message@
                == "control API returned an incomplete HTTP response"@,
        }),
{
    match split_http_response(response) {
        Ok((status, body)) => match text::find_text(status.as_str(), code) {
            Some(_) => Ok(body),
            None => Err(text::concat3(api, " returned ", status.as_str())),
        },
        Err(message) => Err(message),
    }
}

/// What a client asks for is what the program does: every path that a client sends leads to
/// the action that it stands for.
pub proof fn requests_reach_their_actions(on: bool)
    ensures
        route_of("POST"@, capture_path_text(on)) == if on {
            ControlRoute::CaptureStart
        } else {
            ControlRoute::CaptureStop
        },
        route_of("POST"@, auto_clear_path_text(on)) == if on {
            ControlRoute::AutoClearEnable
        } else {
            ControlRoute::AutoClearDisable
        },
        route_of("DELETE"@, "/v1/connections"@) == ControlRoute::ClearConnections,
        route_of("POST"@, "/v1/reload"@) == ControlRoute::Reload,
        route_of("GET"@, "/v1/status"@) == ControlRoute::Status,
        route_of("GET"@, "/v1/status/stream"@) == ControlRoute::StatusStream,
        route_of("GET"@, "/v1/traffic-history"@) == ControlRoute::TrafficHistory,
{
    reveal_strlit("POST");
    reveal_strlit("GET");
    reveal_strlit("DELETE");
    reveal_strlit("/v1/connections/capture/start");
    reveal_strlit("/v1/connections/capture/stop");
    reveal_strlit("/v1/connections");
    reveal_strlit("/v1/connections/auto-clear/enable");
    reveal_strlit("/v1/connections/auto-clear/disable");
    reveal_strlit("/v1/reload");
    reveal_strlit("/v1/traffic-history");
    reveal_strlit("/v1/status/stream");
    reveal_strlit("/v1/status");
    assert("POST"@[0] == 'P' && "GET"@[0] == 'G' && "DELETE"@[0] == 'D');
    assert("/v1/connections/capture/start"@.len() == 29);
    assert("/v1/connections/capture/stop"@.len() == 28);
    assert("/v1/connections/auto-clear/enable"@.len() == 33);
    assert("/v1/connections/auto-clear/disable"@.len() == 34);
    assert("/v1/reload"@.len() == 10);
    assert("/v1/status"@.len() == 10);
    assert("/v1/status"@[4] == 's' && "/v1/reload"@[4] == 'r');
    assert("/v1/status/stream"@.len() == 17);
    assert("/v1/traffic-history"@.len() == 19);
}

// ---------------------------------------------------------------------------
// A stream of lines
// ---------------------------------------------------------------------------
/// The white space of ASCII.
#[verifier::allow_in_spec]
pub fn is_blank_byte(byte: u8) -> bool
    returns
        (byte == 32 || byte == 9 || byte == 10 || byte == 12 || byte == 13),
{
    byte == 32 || byte == 9 || byte == 10 || byte == 12 || byte == 13
}

/// Nothing but white space.
pub open spec fn is_blank(bytes: Seq<u8>) -> bool {
    forall|i: int| 0 <= i < bytes.len() ==> is_blank_byte(#[trigger] bytes[i])
}

/// Where a line feed first stands; the number of bytes where none does.
pub open spec fn line_feed(bytes: Seq<u8>) -> int
    decreases bytes.len(),
{
    if bytes.len() == 0 || bytes[0] == 10 {
        0
    } else {
        1 + line_feed(bytes.drop_first())
    }
}

pub proof fn lemma_line_feed(bytes: Seq<u8>)
    ensures
        0 <= line_feed(bytes) <= bytes.len(),
        forall|i: int| 0 <= i < line_feed(bytes) ==> bytes[i] != 10,
        line_feed(bytes) < bytes.len() ==> bytes[line_feed(bytes)] == 10,
    decreases bytes.len(),
{
    if bytes.len() > 0 && bytes[0] != 10 {
        lemma_line_feed(bytes.drop_first());
        assert forall|i: int| 0 <= i < line_feed(bytes) implies bytes[i] != 10 by {
            if i > 0 {
                assert(bytes.drop_first()[i - 1] == bytes[i]);
            }
        }
    }
}

/// A line without one carriage return at its end.
pub open spec fn without_carriage_return(line: Seq<u8>) -> Seq<u8> {
    if line.len() > 0 && line.last() == 13 {
        line.drop_last()
    } else {
        line
    }
}

/// The first line of a buffer that is not blank, and what follows it; blank lines in front of
/// it are gone.
pub open spec fn next_line(buffer: Seq<u8>) -> (Option<Seq<u8>>, Seq<u8>)
    decreases buffer.len(),
    via next_line_decreases
{
    let end = line_feed(buffer);
    if end == buffer.len() {
        (None, buffer)
    } else {
        let line = without_carriage_return(buffer.take(end));
        if is_blank(line) {
            next_line(buffer.skip(end + 1))
        } else {
            (Some(line), buffer.skip(end + 1))
        }
    }
}

#[via_fn]
proof fn next_line_decreases(buffer: Seq<u8>) {
    lemma_line_feed(buffer);
}

fn is_blank_line(bytes: &Vec<u8>) -> (r: bool)
    ensures
        r == is_blank(bytes@),
{
    for i in 0..bytes.len()
        invariant
            forall|j: int| 0 <= j < i ==> is_blank_byte(#[trigger] bytes@[j]),
    {
        if !is_blank_byte(bytes[i]) {
            return false;
        }
    }
    true
}

/// Takes the next line that is not blank out of a buffer, where the buffer holds all of it.
pub fn take_line(buffer: &mut Vec<u8>) -> (r: Option<Vec<u8>>)
    ensures
        (match r {
            Some(line) => next_line(old(buffer)@).0 == Some(line@),
            None => next_line(old(buffer)@).0 is None,
        }),
        final(buffer)@ == next_line(old(buffer)@).1,
{
    let ghost start = buffer@;
    loop
        invariant
            start == old(buffer)@,
            next_line(start) == next_line(buffer@),
        decreases buffer@.len(),
    {
        let ghost here = buffer@;
        let n: usize = buffer.len();
        let mut end: usize = 0;
        while end < n && buffer[end] != 10
            invariant
                n == buffer@.len(),
                end <= n,
                buffer@ == here,
                forall|j: int| 0 <= j < end ==> buffer@[j] != 10,
            decreases n - end,
        {
            end = end + 1;
        }
        proof {
            lemma_line_feed(here);
        }
        if end == n {
            return None;
        }
        assert(end == line_feed(here));
        let rest = buffer.split_off(end + 1);
        let mut line = buffer.split_off(0);
        line.truncate(end);
        assert(line@ =~= here.take(end as int));
        if end > 0 && line[end - 1] == 13 {
            line.truncate(end - 1);
        }
        assert(line@ =~= without_carriage_return(here.take(end as int)));
        assert(rest@ =~= here.skip(end + 1));
        *buffer = rest;
        if !is_blank_line(&line) {
            return Some(line);
        }
    }
}

/// Takes what is left of a stream that has ended, unless it is blank.
pub fn take_rest(buffer: &mut Vec<u8>) -> (r: Option<Vec<u8>>)
    ensures
        (match r {
            Some(rest) => {
                &&& !is_blank(old(buffer)@)
                &&& rest@ == old(buffer)@
                &&& final(buffer)@ == Seq::<u8>::empty()
            },
            None => is_blank(old(buffer)@) && final(buffer)@ == old(buffer)@,
        }),
{
    if is_blank_line(buffer) {
        None
    } else {
        let mut rest: Vec<u8> = Vec::new();
        core::mem::swap(&mut rest, buffer);
        Some(rest)
    }
}

/// One value of a stream, as a line.
pub fn frame_line(value: Vec<u8>) -> (r: Vec<u8>)
    ensures
        r@ == value@.push(10),
{
    let mut line = value;
    line.push(10);
    line
}

/// A value that was sent as a line is read back as it was, and what was sent after it is left,
/// where the value holds no line feed, does not end in a carriage return, and is not blank.
pub proof fn framed_value_reads_back(value: Seq<u8>, rest: Seq<u8>)
    requires
        !value.contains(10),
        value.len() > 0 ==> value.last() != 13,
        !is_blank(value),
    ensures
        next_line(value.push(10) + rest) == (Some(value), rest),
{
    let buffer = value.push(10) + rest;
    lemma_line_feed(buffer);
    let end = line_feed(buffer);
    assert(buffer[value.len() as int] == 10);
    assert(end <= value.len());
    if end < value.len() {
        assert(buffer[end] == value[end]);
        assert(value.contains(10));
    }
    assert(buffer.take(end) =~= value);
    assert(buffer.skip(end + 1) =~= rest);
}

// ---------------------------------------------------------------------------
// Sockets
// ---------------------------------------------------------------------------
/// What came of a connection to a socket that is in the way.
#[derive(Debug, Clone, Copy, PartialEq, Eq, Structural)]
pub enum SocketProbe {
    /// Somebody answers.
    Answered,
    /// Nobody listens.
    Refused,
    /// It is gone.
    Missing,
    /// Neither is known.
    Failed,
}

/// What to do about a socket that is in the way.
#[derive(Debug, Clone, Copy, PartialEq, Eq, Structural)]
pub enum SocketAction {
    /// Leave it: it is in use.
    InUse,
    /// Remove it and take its place: nobody uses it.
    Replace,
    /// Leave it: it may be in use.
    Unreachable,
}

/// Decides about a socket that is in the way.
#[verifier::allow_in_spec]
pub fn socket_action(probe: SocketProbe) -> SocketAction
    returns
        (match probe {
            SocketProbe::Answered => SocketAction::InUse,
            SocketProbe::Refused | SocketProbe::Missing => SocketAction::Replace,
            SocketProbe::Failed => SocketAction::Unreachable,
        }),
{
    match probe {
        SocketProbe::Answered => SocketAction::InUse,
        SocketProbe::Refused | SocketProbe::Missing => SocketAction::Replace,
        SocketProbe::Failed => SocketAction::Unreachable,
    }
}

// ---------------------------------------------------------------------------
// Pipes
// ---------------------------------------------------------------------------
/// The error code of a pipe whose instances are all in use.
pub const PIPE_BUSY: i32 = 231;

/// How often a pipe is opened at most.
pub const PIPE_ATTEMPTS: u32 = 40;

/// How long to wait before a busy pipe is opened again, in nanoseconds.
pub const PIPE_WAIT: u128 = 50_000_000;

/// How long to wait before a pipe is opened again, after `attempts` failed, the last with the
/// error `code`; none where it is given up.
#[verifier::allow_in_spec]
pub fn pipe_retry(attempts: u32, code: Option<i32>) -> Option<u128>
    returns
        (if code == Some(PIPE_BUSY) && attempts < PIPE_ATTEMPTS {
            Some(PIPE_WAIT)
        } else {
            None
        }),
{
    match code {
        Some(found) => if found == PIPE_BUSY && attempts < PIPE_ATTEMPTS {
            Some(PIPE_WAIT)
        } else {
            None
        },
        None => None,
    }
}

// ---------------------------------------------------------------------------
// Laws of control
// ---------------------------------------------------------------------------
/// Nothing but the nine requests does anything: another method or another path is not found.
pub proof fn other_requests_do_nothing(method: Seq<char>, path: Seq<char>)
    ensures
        route_of(method, path) == ControlRoute::NotFound || (method == "POST"@ && (path
            == "/v1/connections/capture/start"@ || path == "/v1/connections/capture/stop"@ || path
            == "/v1/connections/auto-clear/enable"@ || path
            == "/v1/connections/auto-clear/disable"@ || path == "/v1/reload"@)) || (method
            == "DELETE"@ && path == "/v1/connections"@) || (method == "GET"@ && (path
            == "/v1/traffic-history"@ || path == "/v1/status/stream"@ || path == "/v1/status"@)),
        path == "/v1/reload"@ && method != "POST"@ ==> route_of(method, path)
            == ControlRoute::NotFound,
        path == "/v1/connections"@ && method != "DELETE"@ ==> route_of(method, path)
            == ControlRoute::NotFound,
        path == "/v1/status"@ && method != "GET"@ ==> route_of(method, path)
            == ControlRoute::NotFound,
{
    reveal_strlit("/v1/connections/capture/start");
    reveal_strlit("/v1/connections/capture/stop");
    reveal_strlit("/v1/connections");
    reveal_strlit("/v1/connections/auto-clear/enable");
    reveal_strlit("/v1/connections/auto-clear/disable");
    reveal_strlit("/v1/reload");
    reveal_strlit("/v1/traffic-history");
    reveal_strlit("/v1/status/stream");
    reveal_strlit("/v1/status");
    assert("/v1/connections"@.len() == 15);
    assert("/v1/connections/capture/start"@.len() == 29);
    assert("/v1/connections/capture/stop"@.len() == 28);
    assert("/v1/connections/auto-clear/enable"@.len() == 33);
    assert("/v1/connections/auto-clear/disable"@.len() == 34);
    assert("/v1/status"@[4] == 's' && "/v1/reload"@[4] == 'r');
    assert("/v1/status/stream"@.len() == 17);
    assert("/v1/traffic-history"@.len() == 19);
}

/// An action that was done is answered with 200, a reload that was taken up with 202 and one that
/// could not be with 503, and what is not found with 404; a status is answered by itself.
pub proof fn answers_tell_what_came_of_it(route: ControlRoute, accepted: bool)
    ensures
        (text_answer(route, accepted) matches Some((status, _)) && status == 200) <==> (route
            == ControlRoute::CaptureStart || route == ControlRoute::CaptureStop || route
            == ControlRoute::ClearConnections || route == ControlRoute::AutoClearEnable || route
            == ControlRoute::AutoClearDisable),
        (text_answer(route, accepted) matches Some((status, _)) && status == 202) <==> route
            == ControlRoute::Reload && accepted,
        (text_answer(route, accepted) matches Some((status, _)) && status == 503) <==> route
            == ControlRoute::Reload && !accepted,
        (text_answer(route, accepted) matches Some((status, _)) && status == 404) <==> route
            == ControlRoute::NotFound,
        text_answer(route, accepted) is None <==> route == ControlRoute::Status || route
            == ControlRoute::StatusStream || route == ControlRoute::TrafficHistory,
{
}

/// A number alone stands for a port of this machine, 127.0.0.1; the port zero and numbers above
/// 65535 are refused.
pub proof fn numbers_are_ports_of_this_machine(number: nat)
    ensures
        1 <= number <= 65535 ==> read_tcp(decimal(number)) == Ok::<_, Seq<char>>(
            SocketAddress { ip: IpAddress::V4(0x7f00_0001), scope: 0, port: number as u16 },
        ),
        number == 0 || number > 65535 ==> read_tcp(decimal(number)) is Err,
{
    text::decimal_reads_back(number);
}

/// Where no endpoint is configured, a user's is a socket beside their configuration and that of
/// the system one below `/run/stk`; on Windows they are pipes, and elsewhere it is port 19090 of
/// this machine.
pub proof fn endpoints_have_their_places(environment: Environment)
    ensures
        environment.platform == Platform::Linux ==> default_endpoint(
            ConfigScope::System,
            environment,
        ) == Endpoint::Unix("/run/stk/control.sock"@),
        environment.platform == Platform::OtherUnix ==> default_endpoint(
            ConfigScope::System,
            environment,
        ) == Endpoint::Unix("/var/run/stk/control.sock"@),
        environment.platform == Platform::Linux || environment.platform == Platform::OtherUnix
            ==> default_endpoint(ConfigScope::User, environment) == Endpoint::Unix(
            joined_path(
                crate::paths::PathStyle::Unix,
                config_directory(ConfigScope::User, environment),
                "control.sock"@,
            ),
        ),
        environment.platform == Platform::Windows ==> default_endpoint(
            ConfigScope::System,
            environment,
        ) == Endpoint::NamedPipe("stk-system"@),
        environment.platform == Platform::Windows && environment.username is Some
            ==> default_endpoint(ConfigScope::User, environment) == Endpoint::NamedPipe(
            "stk-"@ + environment.username->0@,
        ),
        environment.platform == Platform::Other ==> default_endpoint(
            ConfigScope::User,
            environment,
        ) == Endpoint::Tcp(
            SocketAddress { ip: IpAddress::V4(0x7f00_0001), scope: 0, port: 19090 },
        ),
{
}

/// A response is split at its first empty line: what stands behind that is the body, whatever it
/// holds, and the first line of what stands before it is the status.
pub proof fn responses_are_split_at_the_empty_line(status: Seq<char>, body: Seq<char>)
    requires
        !status.contains('\r'),
        !status.contains('\n'),
        status.len() > 0,
    ensures
        response_parts(status + seq!['\r', '\n', '\r', '\n'] + body) == Some((status, body)),
{
    reveal_strlit("\r\n\r\n");
    let gap = seq!['\r', '\n', '\r', '\n'];
    assert("\r\n\r\n"@ =~= gap);
    let whole = status + gap + body;
    let at = status.len() as int;
    assert forall|i: int| 0 <= i < at implies !text::occurs_at(whole, gap, i) by {
        assert(whole[i] == status[i]);
        assert(status.contains(status[i]));
        if text::occurs_at(whole, gap, i) {
            assert(whole.subrange(i, i + 4)[0] == gap[0]);
        }
    }
    assert(whole.subrange(at, at + 4) =~= gap);
    lemma_first_occurrence(whole, gap, 0, at);
    assert(whole.take(at) =~= status);
    assert(whole.skip(at + 4) =~= body);
    text::lemma_first_index(status, '\n');
    assert(text_lines(status) =~= seq![status]);
}

proof fn lemma_first_occurrence(s: Seq<char>, pattern: Seq<char>, from: int, at: int)
    requires
        0 <= from <= at,
        at + pattern.len() <= s.len(),
        text::occurs_at(s, pattern, at),
        forall|i: int| from <= i < at ==> !text::occurs_at(s, pattern, i),
    ensures
        first_occurrence(s, pattern, from) == at,
    decreases at - from,
{
    if from < at {
        lemma_first_occurrence(s, pattern, from + 1, at);
    }
}

/// A socket that somebody answers at is left alone, one that nobody listens at is replaced, and
/// one that nothing is known of is left alone. A busy pipe, and no other, is tried again, forty
/// times, with a twentieth of a second between.
pub proof fn sockets_in_use_are_left_alone(attempts: u32, code: Option<i32>)
    ensures
        socket_action(SocketProbe::Answered) == SocketAction::InUse,
        socket_action(SocketProbe::Refused) == SocketAction::Replace,
        socket_action(SocketProbe::Missing) == SocketAction::Replace,
        socket_action(SocketProbe::Failed) == SocketAction::Unreachable,
        pipe_retry(attempts, code) == Some(50_000_000u128) <==> code == Some(231i32) && attempts
            < 40,
        pipe_retry(attempts, code) is None <==> code != Some(231i32) || attempts >= 40,
{
}

} // verus!
