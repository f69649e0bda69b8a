//! The laws of what is said: every failure tells what went wrong and with what, and every word
//! and name stands for one thing.
use crate::address::{socket_text, IpAddress, SocketAddress};
use crate::config::{default_hosts, fault_text, ConfigFault, ConfigFormat, HostConfig,
    ProxyEnvScheme, ProxyEnvVariable, ResolvedHostConfig};
use crate::control::{command_request, pipe_path, query_request};
use crate::inbound::{inbound_text, InboundError};
use crate::named::NamedMap;
use crate::proxy_env::{filled_value, scheme_of_arguments, variable_names, ProxyArguments};
use crate::report::{around, shows};
use crate::ssh_channel::host_failure;
use crate::ssh_connect::{slow_step_text, SlowStep};
use crate::ssh_plan::ResolvedSshEndpoint;
use crate::text::{decimal, lowercase};
use vstd::prelude::*;

verus! {

proof fn lemma_shown(line: Seq<char>, front: Seq<char>, piece: Seq<char>, back: Seq<char>)
    requires
        line =~= front + piece + back,
    ensures
        shows(line, piece),
{
    assert(line == around(front, piece, back));
}

proof fn lemma_at_the_end(front: Seq<char>, piece: Seq<char>)
    ensures
        shows(front + piece, piece),
{
    lemma_shown(front + piece, front, piece, Seq::empty());
}

proof fn lemma_both_shown(a: Seq<char>, b: Seq<char>, c: Seq<char>, d: Seq<char>)
    ensures
        shows(a + b + c + d, b),
        shows(a + b + c + d, d),
{
    lemma_shown(a + b + c + d, a, b, c + d);
    lemma_at_the_end(a + b + c, d);
}

// ---------------------------------------------------------------------------
// Failures
// ---------------------------------------------------------------------------
/// A failure of a configuration names the file, the format, the host or the address, and the
/// reason.
pub proof fn configuration_failures_are_told(
    path: Seq<char>,
    reason: Seq<char>,
    host: Seq<char>,
    listen: SocketAddress,
)
    ensures
        shows(fault_text(ConfigFault::Read { path, reason }), path),
        shows(fault_text(ConfigFault::Read { path, reason }), reason),
        fault_text(ConfigFault::Parse { format: ConfigFormat::Yaml, reason })
            == "failed to parse "@ + "YAML"@ + " config: "@ + reason,
        fault_text(ConfigFault::Parse { format: ConfigFormat::Json, reason })
            == "failed to parse "@ + "JSON"@ + " config: "@ + reason,
        fault_text(ConfigFault::Parse { format: ConfigFormat::Toml, reason })
            == "failed to parse "@ + "TOML"@ + " config: "@ + reason,
        shows(fault_text(ConfigFault::UnsupportedFormat(path)), path),
        shows(fault_text(ConfigFault::DuplicateLocalListen(listen)), socket_text(listen)),
        shows(fault_text(ConfigFault::InvalidHostConfig { host, reason }), host),
        shows(fault_text(ConfigFault::InvalidHostConfig { host, reason }), reason),
        shows(fault_text(ConfigFault::InvalidControlEndpoint(reason)), reason),
        shows(fault_text(ConfigFault::InvalidEnvConfig(reason)), reason),
{
    lemma_both_shown("failed to read config "@, path, ": "@, reason);
    lemma_both_shown("invalid SSH host "@, host, ": "@, reason);
    lemma_at_the_end("unsupported config file extension: "@, path);
    lemma_at_the_end("duplicate local listen address: "@, socket_text(listen));
    lemma_at_the_end("invalid control endpoint: "@, reason);
    lemma_at_the_end("invalid proxy environment configuration: "@, reason);
}

/// A failure of a proxy's client tells the number or the part that is not understood.
pub proof fn client_failures_are_told(number: u8, what: String)
    ensures
        inbound_text(InboundError::UnsupportedSocksVersion(number))
            == "unsupported SOCKS version: "@ + decimal(number as nat),
        inbound_text(InboundError::UnsupportedSocksCommand(number))
            == "unsupported SOCKS5 command: "@ + decimal(number as nat),
        inbound_text(InboundError::UnsupportedSocksAddressType(number))
            == "unsupported SOCKS5 address type: "@ + decimal(number as nat),
        shows(inbound_text(InboundError::Io(what)), what@),
{
    lemma_at_the_end("proxy I/O failed: "@, what@);
}

/// What is said of a host names the host, and ends with the last error where there was one.
pub proof fn host_failures_are_told(
    host: &str,
    sentence: &str,
    last_error: Option<String>,
    said: String,
)
    requires
        call_ensures(host_failure, (host, sentence, &last_error), said),
    ensures
        last_error is None ==> said@ == "SSH host "@ + host@ + sentence@,
        last_error is Some ==> said@ == "SSH host "@ + host@ + sentence@ + ": "@
            + last_error->0@,
{
    reveal_strlit("");
    assert(""@ =~= Seq::<char>::empty());
    let start = "SSH host "@ + host@ + sentence@;
    assert(start + ""@ =~= start);
    if last_error is Some {
        assert(start + (": "@ + last_error->0@) =~= start + ": "@ + last_error->0@);
    }
}

/// A step that takes too long is told by the host that it was about: by its name, and by its
/// address as far as the step goes there.
pub proof fn slow_steps_are_told(endpoint: ResolvedSshEndpoint)
    ensures
        ({
            let address = endpoint.host@ + ":"@ + decimal(endpoint.port as nat);
            &&& shows(slow_step_text(SlowStep::Tcp, endpoint), endpoint.alias@)
            &&& shows(slow_step_text(SlowStep::Tcp, endpoint), address)
            &&& shows(slow_step_text(SlowStep::Jump, endpoint), address)
            &&& shows(slow_step_text(SlowStep::Negotiation, endpoint), endpoint.alias@)
            &&& shows(slow_step_text(SlowStep::Negotiation, endpoint), address)
            &&& shows(slow_step_text(SlowStep::Authentication, endpoint), endpoint.alias@)
        }),
{
    let address = endpoint.host@ + ":"@ + decimal(endpoint.port as nat);
    lemma_both_shown(
        "timed out opening TCP transport for SSH host "@,
        endpoint.alias@,
        " at "@,
        address,
    );
    lemma_at_the_end("timed out opening ProxyJump channel to "@, address);
    lemma_both_shown("timed out negotiating SSH host "@, endpoint.alias@, " at "@, address);
    lemma_at_the_end("timed out authenticating SSH host "@, endpoint.alias@);
}

// ---------------------------------------------------------------------------
// The command line and the environment
// ---------------------------------------------------------------------------
/// At most one way to speak to a proxy can be given; the one that is given counts.
pub proof fn one_scheme_can_be_given(arguments: ProxyArguments)
    ensures
        ({
            let given = arguments.scheme is Some;
            let scheme = scheme_of_arguments(arguments);
            &&& arguments.http && arguments.socks5h ==> scheme is Err
            &&& arguments.http && arguments.socks5 ==> scheme is Err
            &&& arguments.socks5h && arguments.socks5 ==> scheme is Err
            &&& given && (arguments.http || arguments.socks5h || arguments.socks5) ==> scheme
                is Err
            &&& given && !arguments.http && !arguments.socks5h && !arguments.socks5 ==> scheme
                == Ok::<_, Seq<char>>(arguments.scheme)
            &&& !given && arguments.http && !arguments.socks5h && !arguments.socks5 ==> scheme
                == Ok::<_, Seq<char>>(Some(ProxyEnvScheme::Http))
            &&& !given && !arguments.http && arguments.socks5h && !arguments.socks5 ==> scheme
                == Ok::<_, Seq<char>>(Some(ProxyEnvScheme::Socks5h))
            &&& !given && !arguments.http && !arguments.socks5h && arguments.socks5 ==> scheme
                == Ok::<_, Seq<char>>(Some(ProxyEnvScheme::Socks5))
            &&& !given && !arguments.http && !arguments.socks5h && !arguments.socks5 ==> scheme
                == Ok::<Option<ProxyEnvScheme>, Seq<char>>(None)
        }),
{
}

/// Each variable has two names, one in capitals and one in small letters.
pub proof fn variables_have_two_names(variable: ProxyEnvVariable)
    ensures
        variable_names(ProxyEnvVariable::AllProxy) == ("ALL_PROXY"@, "all_proxy"@),
        variable_names(ProxyEnvVariable::HttpProxy) == ("HTTP_PROXY"@, "http_proxy"@),
        variable_names(ProxyEnvVariable::HttpsProxy) == ("HTTPS_PROXY"@, "https_proxy"@),
        variable_names(ProxyEnvVariable::NoProxy) == ("NO_PROXY"@, "no_proxy"@),
        lowercase(variable_names(variable).0) == variable_names(variable).1,
{
    reveal_strlit("ALL_PROXY");
    reveal_strlit("all_proxy");
    reveal_strlit("HTTP_PROXY");
    reveal_strlit("http_proxy");
    reveal_strlit("HTTPS_PROXY");
    reveal_strlit("https_proxy");
    reveal_strlit("NO_PROXY");
    reveal_strlit("no_proxy");
    assert(lowercase("ALL_PROXY"@) =~= "all_proxy"@);
    assert(lowercase("HTTP_PROXY"@) =~= "http_proxy"@);
    assert(lowercase("HTTPS_PROXY"@) =~= "https_proxy"@);
    assert(lowercase("NO_PROXY"@) =~= "no_proxy"@);
}

/// A value that must be given is refused where it is blank, by the name of what it is for, and
/// is taken without the blanks around it otherwise.
pub proof fn blank_values_are_refused(field: Seq<char>, value: Seq<char>)
    ensures
        crate::text::trimmed(value).len() == 0 ==> filled_value(field, value) == Err::<
            Seq<char>,
            _,
        >(field + " must not be empty"@),
        crate::text::trimmed(value).len() > 0 ==> filled_value(field, value) == Ok::<_, Seq<char>>(
            crate::text::trimmed(value),
        ),
{
}

// ---------------------------------------------------------------------------
// The control endpoint
// ---------------------------------------------------------------------------
/// A pipe is named below the directory of pipes, which is put in front of a name that does not
/// start with it, and once.
pub proof fn pipes_have_one_place(name: Seq<char>)
    ensures
        name.len() > 0 && name[0] != '\\' ==> pipe_path(name) == "\\\\.\\pipe\\"@ + name,
        pipe_path("\\\\.\\pipe\\"@ + name) == "\\\\.\\pipe\\"@ + name,
        pipe_path(pipe_path(name)) == pipe_path(name),
{
    reveal_strlit("\\\\.\\pipe\\");
    let directory = "\\\\.\\pipe\\"@;
    let full = directory + name;
    assert(full.take(directory.len() as int) =~= directory);
    if name.len() > 0 && name[0] != '\\' && name.len() >= directory.len() {
        assert(name.take(directory.len() as int)[0] == name[0]);
        assert(directory[0] == '\\');
    }
}

/// A question begins with the method and the path, and an empty line ends it.
pub proof fn questions_are_asked_over_http(path: &str, method: &str, asked: String, told: String)
    requires
        call_ensures(query_request, (path,), asked),
        call_ensures(command_request, (method, path), told),
    ensures
        asked@.len() > 4 && asked@.skip(asked@.len() - 4) == seq!['\r', '\n', '\r', '\n'],
        told@.len() > 4 && told@.skip(told@.len() - 4) == seq!['\r', '\n', '\r', '\n'],
        asked@.take(path@.len() as int + 15) == "GET "@ + path@ + " HTTP/1.1\r\n"@,
        told@.take(method@.len() as int + path@.len() as int + 12) == method@ + " "@ + path@
            + " HTTP/1.1\r\n"@,
{
    reveal_strlit("GET ");
    reveal_strlit(" ");
    reveal_strlit(" HTTP/1.1\r\n");
    reveal_strlit(
        " HTTP/1.1\r\nHost: localhost\r\nConnection: close\r\nAccept: application/json\r\n\r\n",
    );
    reveal_strlit(
        " HTTP/1.1\r\nHost: localhost\r\nConnection: close\r\nContent-Length: 0\r\n\r\n",
    );
    assert(asked@.skip(asked@.len() - 4) =~= seq!['\r', '\n', '\r', '\n']);
    assert(told@.skip(told@.len() - 4) =~= seq!['\r', '\n', '\r', '\n']);
    assert(asked@.take(path@.len() as int + 15) =~= "GET "@ + path@ + " HTTP/1.1\r\n"@);
    assert(told@.take(method@.len() as int + path@.len() as int + 12) =~= method@ + " "@ + path@
        + " HTTP/1.1\r\n"@);
}

// ---------------------------------------------------------------------------
// What is usual
// ---------------------------------------------------------------------------
/// A new configuration has one host, the user's own machine, with one proxy that speaks both
/// protocols at 127.0.0.1:7890.
pub proof fn new_configurations_have_one_proxy(hosts: NamedMap<HostConfig>)
    requires
        call_ensures(default_hosts, (), hosts),
    ensures
        hosts.entries@.len() == 1,
        hosts.entries@[0].name@ == "default"@,
        hosts.entries@[0].value.ssh_config_host is Some,
        hosts.entries@[0].value.ssh_config_host->0@ == "localhost"@,
        hosts.entries@[0].value.host is None,
        hosts.entries@[0].value.local_proxies@.len() == 1,
        hosts.entries@[0].value.local_proxies@[0].listen == (SocketAddress {
            ip: IpAddress::V4(0x7f00_0001),
            scope: 0,
            port: 7890,
        }),
        hosts.entries@[0].value.local_proxies@[0].mixed == Some(true),
        hosts.entries@[0].value.local_forwards@.len() == 0,
        hosts.entries@[0].value.remote_proxies@.len() == 0,
        hosts.entries@[0].value.remote_forwards@.len() == 0,
{
}

/// A host has something to start where one of its tunnels, of any kind, starts by itself.
pub proof fn one_tunnel_is_enough(host: ResolvedHostConfig, has_some: bool, i: int)
    requires
        call_ensures(ResolvedHostConfig::has_automatic_tunnels, (&host,), has_some),
    ensures
        0 <= i < host.local_proxies@.len() && host.local_proxies@[i].auto ==> has_some,
        0 <= i < host.local_forwards@.len() && host.local_forwards@[i].auto ==> has_some,
        0 <= i < host.remote_proxies@.len() && host.remote_proxies@[i].auto ==> has_some,
        0 <= i < host.remote_forwards@.len() && host.remote_forwards@[i].auto ==> has_some,
        host.local_proxies@.len() == 0 && host.local_forwards@.len() == 0
            && host.remote_proxies@.len() == 0 && host.remote_forwards@.len() == 0 ==> !has_some,
{
}

} // verus!
