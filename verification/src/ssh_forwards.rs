//! Tunnels that a host takes over from an OpenSSH configuration.
use crate::address::SocketAddress;
use crate::authority::HostPort;
use crate::config::{AppConfig, HostConfig, LocalProxyCandidate, OverrideDefaultConfig,
    ProxyProtocol, ResolvedForwardConfig, ResolvedHostConfig, ResolvedProxyConfig};
use crate::config_check::resolved_host;
use crate::paths::{HomeDirectory, HomePath};
use crate::named::Named;
use crate::ssh_files;
use crate::ssh_files::{configured_forwards, requests, SshFiles, SshStop, Stop};
use crate::ssh_syntax::{ForwardRequest, ParsedSshForward};
use crate::text;
use crate::text::{concat2, concat3, decimal, text_option, texts};
use vstd::prelude::*;

verus! {

// ---------------------------------------------------------------------------
// Tunnels, with texts for strings
// ---------------------------------------------------------------------------
/// A proxy, with a text for its name.
pub ghost struct ProxyTunnel {
    pub auto: bool,
    pub name: Option<Seq<char>>,
    pub listen: SocketAddress,
    pub mixed: bool,
    pub protocol: Option<ProxyProtocol>,
}

/// A forward, with texts for its name and its target.
pub ghost struct ForwardTunnel {
    pub auto: bool,
    pub name: Option<Seq<char>>,
    pub listen: SocketAddress,
    pub host: Seq<char>,
    pub port: u16,
}

/// The tunnels of a host.
pub ghost struct Tunnels {
    pub local_proxies: Seq<ProxyTunnel>,
    pub local_forwards: Seq<ForwardTunnel>,
    pub remote_proxies: Seq<ProxyTunnel>,
    pub remote_forwards: Seq<ForwardTunnel>,
}

/// A proxy, with a text for its name.
pub open spec fn proxy_tunnel(proxy: ResolvedProxyConfig) -> ProxyTunnel {
    ProxyTunnel {
        auto: proxy.auto,
        name: text_option(proxy.name),
        listen: proxy.listen,
        mixed: proxy.mixed,
        protocol: proxy.protocol,
    }
}

/// A forward, with texts for its name and its target.
pub open spec fn forward_tunnel(forward: ResolvedForwardConfig) -> ForwardTunnel {
    ForwardTunnel {
        auto: forward.auto,
        name: text_option(forward.name),
        listen: forward.listen,
        host: forward.target.host@,
        port: forward.target.port,
    }
}

/// The proxies of a list.
pub open spec fn proxy_tunnels(list: Seq<ResolvedProxyConfig>) -> Seq<ProxyTunnel> {
    list.map_values(|p: ResolvedProxyConfig| proxy_tunnel(p))
}

/// The forwards of a list.
pub open spec fn forward_tunnels(list: Seq<ResolvedForwardConfig>) -> Seq<ForwardTunnel> {
    list.map_values(|f: ResolvedForwardConfig| forward_tunnel(f))
}

/// The tunnels of a host.
pub open spec fn tunnels_of(host: ResolvedHostConfig) -> Tunnels {
    Tunnels {
        local_proxies: proxy_tunnels(host.local_proxies@),
        local_forwards: forward_tunnels(host.local_forwards@),
        remote_proxies: proxy_tunnels(host.remote_proxies@),
        remote_forwards: forward_tunnels(host.remote_forwards@),
    }
}

/// Whether two hosts differ in their tunnels at most.
pub open spec fn same_settings(a: ResolvedHostConfig, b: ResolvedHostConfig) -> bool {
    &&& a.auto == b.auto
    &&& a.inherit_ssh_config_forwards == b.inherit_ssh_config_forwards
    &&& a.host == b.host
    &&& a.port == b.port
    &&& a.username == b.username
    &&& a.auth == b.auth
    &&& a.ssh_config_host == b.ssh_config_host
    &&& a.ssh_config_path == b.ssh_config_path
    &&& a.host_key_policy == b.host_key_policy
    &&& a.known_hosts_path == b.known_hosts_path
    &&& a.keep_alive_secs == b.keep_alive_secs
    &&& a.min_sessions == b.min_sessions
    &&& a.max_sessions == b.max_sessions
    &&& a.session_rotation_enabled == b.session_rotation_enabled
    &&& a.session_rotation_interval_secs == b.session_rotation_interval_secs
    &&& a.max_channels_per_session == b.max_channels_per_session
    &&& a.server_alive_count_max == b.server_alive_count_max
    &&& a.connect_timeout_secs == b.connect_timeout_secs
    &&& a.restart_initial_millis == b.restart_initial_millis
    &&& a.restart_max_secs == b.restart_max_secs
    &&& a.session_spawn_cooldown_millis == b.session_spawn_cooldown_millis
    &&& a.session_drain_timeout_secs == b.session_drain_timeout_secs
    &&& a.probe == b.probe
}

// ---------------------------------------------------------------------------
// Names and ports
// ---------------------------------------------------------------------------
/// The names of proxies that have one.
pub open spec fn proxy_names(list: Seq<ProxyTunnel>) -> Seq<Seq<char>>
    decreases list.len(),
{
    if list.len() == 0 {
        Seq::empty()
    } else {
        match list.last().name {
            Some(name) => proxy_names(list.drop_last()).push(name),
            None => proxy_names(list.drop_last()),
        }
    }
}

/// The names of forwards that have one.
pub open spec fn forward_names(list: Seq<ForwardTunnel>) -> Seq<Seq<char>>
    decreases list.len(),
{
    if list.len() == 0 {
        Seq::empty()
    } else {
        match list.last().name {
            Some(name) => forward_names(list.drop_last()).push(name),
            None => forward_names(list.drop_last()),
        }
    }
}

/// The names of all tunnels that have one.
pub open spec fn tunnel_names(tunnels: Tunnels) -> Seq<Seq<char>> {
    proxy_names(tunnels.local_proxies) + forward_names(tunnels.local_forwards) + proxy_names(
        tunnels.remote_proxies,
    ) + forward_names(tunnels.remote_forwards)
}

/// Whether a port is listened at on this machine.
pub open spec fn is_local_port(tunnels: Tunnels, port: u16) -> bool {
    (exists|i: int|
        0 <= i < tunnels.local_proxies.len() && (#[trigger] tunnels.local_proxies[i]).listen.port
            == port) || (exists|i: int|
        0 <= i < tunnels.local_forwards.len() && (
        #[trigger] tunnels.local_forwards[i]).listen.port == port)
}

/// Whether a port is listened at on the host's side.
pub open spec fn is_remote_port(tunnels: Tunnels, port: u16) -> bool {
    (exists|i: int|
        0 <= i < tunnels.remote_proxies.len() && (
        #[trigger] tunnels.remote_proxies[i]).listen.port == port) || (exists|i: int|
        0 <= i < tunnels.remote_forwards.len() && (
        #[trigger] tunnels.remote_forwards[i]).listen.port == port)
}

/// A name with a number behind it.
pub open spec fn numbered(base: Seq<char>, number: int) -> Seq<char> {
    base + "-"@ + decimal(number as nat)
}

/// The first number, from `number` on, behind which a name is free. Among one number more than
/// there are names there is one.
pub open spec fn free_number(names: Seq<Seq<char>>, base: Seq<char>, number: int) -> int
    decreases names.len() + 2 - number,
{
    if number >= names.len() + 2 || !names.contains(numbered(base, number)) {
        number
    } else {
        free_number(names, base, number + 1)
    }
}

/// A name that is not among `names`: made of kind and port, and of a number where that is
/// taken.
pub open spec fn free_name(names: Seq<Seq<char>>, prefix: Seq<char>, port: u16) -> Seq<char> {
    let base = prefix + "-"@ + decimal(port as nat);
    if names.contains(base) {
        numbered(base, free_number(names, base, 2))
    } else {
        base
    }
}

/// A name that is not among `names`.
pub fn unique_forward_name(names: &Vec<String>, prefix: &str, port: u16) -> (r: String)
    ensures
        r@ == free_name(texts(names@), prefix@, port),
{
    let ghost all = texts(names@);
    assert(all.len() == names@.len());
    let port_text = text::decimal_text(port as u64);
    let base = concat3(prefix, "-", port_text.as_str());
    if !text::contains_text(names, base.as_str()) {
        return base;
    }
    let limit: u128 = names.len() as u128 + 2;
    let mut number: u128 = 2;
    while number < limit
        invariant
            all == texts(names@),
            limit == all.len() + 2,
            2 <= number <= limit,
            all.contains(base@),
            base@ == prefix@ + "-"@ + decimal(port as nat),
            free_number(all, base@, 2) == free_number(all, base@, number as int),
        decreases limit - number,
    {
        let digits = text::wide_decimal_text(number);
        let name = concat3(base.as_str(), "-", digits.as_str());
        if !text::contains_text(names, name.as_str()) {
            return name;
        }
        number = number + 1;
    }
    let digits = text::wide_decimal_text(number);
    concat3(base.as_str(), "-", digits.as_str())
}

proof fn lemma_numbered_differ(base: Seq<char>, a: nat, b: nat)
    requires
        a != b,
    ensures
        numbered(base, a as int) != numbered(base, b as int),
{
    let start = base + "-"@;
    if numbered(base, a as int) == numbered(base, b as int) {
        assert(numbered(base, a as int).skip(start.len() as int) =~= decimal(a));
        assert(numbered(base, b as int).skip(start.len() as int) =~= decimal(b));
        text::decimal_reads_back(a);
        text::decimal_reads_back(b);
    }
}

proof fn lemma_taken_numbers(names: Seq<Seq<char>>, base: Seq<char>, number: int)
    requires
        2 <= number <= names.len() + 2,
        forall|k: int| 2 <= k < number ==> names.contains(#[trigger] numbered(base, k)),
    ensures
        2 <= free_number(names, base, number) <= names.len() + 2,
        forall|k: int|
            2 <= k < free_number(names, base, number) ==> names.contains(
                #[trigger] numbered(base, k),
            ),
        free_number(names, base, number) < names.len() + 2 ==> !names.contains(
            numbered(base, free_number(names, base, number)),
        ),
    decreases names.len() + 2 - number,
{
    if number < names.len() + 2 && names.contains(numbered(base, number)) {
        lemma_taken_numbers(names, base, number + 1);
    }
}

/// A name that is made for a tunnel is not the name of another.
pub proof fn made_names_are_free(names: Seq<Seq<char>>, prefix: Seq<char>, port: u16)
    ensures
        !names.contains(free_name(names, prefix, port)),
{
    let base = prefix + "-"@ + decimal(port as nat);
    if names.contains(base) {
        lemma_taken_numbers(names, base, 2);
        let number = free_number(names, base, 2);
        if names.contains(numbered(base, number)) {
            // More numbered names than there are names would be among the names.
            assert(number == names.len() + 2);
            let many = Seq::new((names.len() + 1) as nat, |i: int| numbered(base, i + 2));
            assert forall|i: int, j: int| 0 <= i < many.len() && 0 <= j < many.len() && i
                != j implies many[i] != many[j] by {
                lemma_numbered_differ(base, (i + 2) as nat, (j + 2) as nat);
            }
            assert(many.no_duplicates());
            assert forall|i: int| 0 <= i < many.len() implies names.contains(many[i]) by {
                assert(names.contains(numbered(base, i + 2)));
            }
            many.unique_seq_to_set();
            assert forall|name: Seq<char>| many.to_set().contains(name) implies #[trigger]
                names.to_set().contains(name) by {
                let i = many.index_of(name);
                assert(many[i] == name);
            }
            vstd::seq_lib::seq_to_set_is_finite(names);
            vstd::set_lib::lemma_len_subset(many.to_set(), names.to_set());
            names.lemma_cardinality_of_set();
        }
    }
}

// ---------------------------------------------------------------------------
// Taking forwards over
// ---------------------------------------------------------------------------
/// The proxy that is made for a request.
pub open spec fn made_proxy(
    tunnels: Tunnels,
    prefix: Seq<char>,
    listen: SocketAddress,
) -> ProxyTunnel {
    ProxyTunnel {
        auto: true,
        name: Some(free_name(tunnel_names(tunnels), prefix, listen.port)),
        listen,
        mixed: true,
        protocol: Some(ProxyProtocol::Mixed),
    }
}

/// The forward that is made for a request.
pub open spec fn made_forward(
    tunnels: Tunnels,
    prefix: Seq<char>,
    listen: SocketAddress,
    host: Seq<char>,
    port: u16,
) -> ForwardTunnel {
    ForwardTunnel {
        auto: true,
        name: Some(free_name(tunnel_names(tunnels), prefix, listen.port)),
        listen,
        host,
        port,
    }
}

/// The tunnels with one that is asked for, unless its port is taken.
pub open spec fn with_request(tunnels: Tunnels, request: ForwardRequest) -> Tunnels {
    match request {
        ForwardRequest::LocalProxy { listen } => if is_local_port(tunnels, listen.port) {
            tunnels
        } else {
            Tunnels {
                local_proxies: tunnels.local_proxies.push(
                    made_proxy(tunnels, "ssh-config-dynamic"@, listen),
                ),
                ..tunnels
            }
        },
        ForwardRequest::LocalForward { listen, host, port } => if is_local_port(
            tunnels,
            listen.port,
        ) {
            tunnels
        } else {
            Tunnels {
                local_forwards: tunnels.local_forwards.push(
                    made_forward(tunnels, "ssh-config-local"@, listen, host, port),
                ),
                ..tunnels
            }
        },
        ForwardRequest::RemoteProxy { listen } => if is_remote_port(tunnels, listen.port) {
            tunnels
        } else {
            Tunnels {
                remote_proxies: tunnels.remote_proxies.push(
                    made_proxy(tunnels, "ssh-config-remote-dynamic"@, listen),
                ),
                ..tunnels
            }
        },
        ForwardRequest::RemoteForward { listen, host, port } => if is_remote_port(
            tunnels,
            listen.port,
        ) {
            tunnels
        } else {
            Tunnels {
                remote_forwards: tunnels.remote_forwards.push(
                    made_forward(tunnels, "ssh-config-remote"@, listen, host, port),
                ),
                ..tunnels
            }
        },
    }
}

/// The tunnels with all that are asked for, one after the other.
pub open spec fn with_requests(tunnels: Tunnels, list: Seq<ForwardRequest>) -> Tunnels
    decreases list.len(),
{
    if list.len() == 0 {
        tunnels
    } else {
        with_request(with_requests(tunnels, list.drop_last()), list.last())
    }
}

fn add_proxy_names(list: &Vec<ResolvedProxyConfig>, names: &mut Vec<String>)
    ensures
        texts(final(names)@) == texts(old(names)@) + proxy_names(proxy_tunnels(list@)),
{
    let ghost start = texts(names@);
    let ghost tunnels = proxy_tunnels(list@);
    assert(start + proxy_names(tunnels.take(0)) =~= start);
    for i in 0..list.len()
        invariant
            start == texts(old(names)@),
            tunnels == proxy_tunnels(list@),
            texts(names@) == start + proxy_names(tunnels.take(i as int)),
    {
        assert(tunnels.take(i + 1).drop_last() == tunnels.take(i as int));
        assert(tunnels.take(i + 1).last() == proxy_tunnel(list@[i as int]));
        let ghost before = texts(names@);
        match &list[i].name {
            Some(name) => {
                names.push(name.clone());
                assert(texts(names@) =~= before.push(name@));
            },
            None => {},
        }
        assert(texts(names@) =~= start + proxy_names(tunnels.take(i + 1)));
    }
    assert(tunnels.take(tunnels.len() as int) =~= tunnels);
}

fn add_forward_names(list: &Vec<ResolvedForwardConfig>, names: &mut Vec<String>)
    ensures
        texts(final(names)@) == texts(old(names)@) + forward_names(forward_tunnels(list@)),
{
    let ghost start = texts(names@);
    let ghost tunnels = forward_tunnels(list@);
    assert(start + forward_names(tunnels.take(0)) =~= start);
    for i in 0..list.len()
        invariant
            start == texts(old(names)@),
            tunnels == forward_tunnels(list@),
            texts(names@) == start + forward_names(tunnels.take(i as int)),
    {
        assert(tunnels.take(i + 1).drop_last() == tunnels.take(i as int));
        assert(tunnels.take(i + 1).last() == forward_tunnel(list@[i as int]));
        let ghost before = texts(names@);
        match &list[i].name {
            Some(name) => {
                names.push(name.clone());
                assert(texts(names@) =~= before.push(name@));
            },
            None => {},
        }
        assert(texts(names@) =~= start + forward_names(tunnels.take(i + 1)));
    }
    assert(tunnels.take(tunnels.len() as int) =~= tunnels);
}

fn collect_names(host: &ResolvedHostConfig) -> (r: Vec<String>)
    ensures
        texts(r@) == tunnel_names(tunnels_of(*host)),
{
    let mut names: Vec<String> = Vec::new();
    add_proxy_names(&host.local_proxies, &mut names);
    add_forward_names(&host.local_forwards, &mut names);
    add_proxy_names(&host.remote_proxies, &mut names);
    add_forward_names(&host.remote_forwards, &mut names);
    proof {
        let tunnels = tunnels_of(*host);
        assert(texts(names@) =~= tunnel_names(tunnels));
    }
    names
}

fn some_proxy_at(list: &Vec<ResolvedProxyConfig>, port: u16) -> (r: bool)
    ensures
        r == exists|i: int|
            0 <= i < proxy_tunnels(list@).len() && (
            #[trigger] proxy_tunnels(list@)[i]).listen.port == port,
{
    for i in 0..list.len()
        invariant
            forall|j: int| 0 <= j < i ==> (#[trigger] list@[j]).listen.port != port,
    {
        if list[i].listen.port == port {
            assert(proxy_tunnels(list@)[i as int].listen.port == port);
            return true;
        }
    }
    assert forall|i: int| 0 <= i < proxy_tunnels(list@).len() implies (
    #[trigger] proxy_tunnels(list@)[i]).listen.port != port by {
        assert(list@[i].listen.port != port);
    }
    false
}

fn some_forward_at(list: &Vec<ResolvedForwardConfig>, port: u16) -> (r: bool)
    ensures
        r == exists|i: int|
            0 <= i < forward_tunnels(list@).len() && (
            #[trigger] forward_tunnels(list@)[i]).listen.port == port,
{
    for i in 0..list.len()
        invariant
            forall|j: int| 0 <= j < i ==> (#[trigger] list@[j]).listen.port != port,
    {
        if list[i].listen.port == port {
            assert(forward_tunnels(list@)[i as int].listen.port == port);
            return true;
        }
    }
    assert forall|i: int| 0 <= i < forward_tunnels(list@).len() implies (
    #[trigger] forward_tunnels(list@)[i]).listen.port != port by {
        assert(list@[i].listen.port != port);
    }
    false
}

fn make_proxy(host: &ResolvedHostConfig, prefix: &str, listen: SocketAddress) -> (r:
    ResolvedProxyConfig)
    ensures
        proxy_tunnel(r) == made_proxy(tunnels_of(*host), prefix@, listen),
{
    let names = collect_names(host);
    let name = unique_forward_name(&names, prefix, listen.port);
    ResolvedProxyConfig {
        auto: true,
        name: Some(name),
        listen,
        mixed: true,
        protocol: Some(ProxyProtocol::Mixed),
    }
}

fn make_forward(
    host: &ResolvedHostConfig,
    prefix: &str,
    listen: SocketAddress,
    target: HostPort,
) -> (r: ResolvedForwardConfig)
    ensures
        forward_tunnel(r) == made_forward(
            tunnels_of(*host),
            prefix@,
            listen,
            target.host@,
            target.port,
        ),
{
    let names = collect_names(host);
    let name = unique_forward_name(&names, prefix, listen.port);
    ResolvedForwardConfig { auto: true, name: Some(name), listen, target }
}

fn merge_one(host: &mut ResolvedHostConfig, forward: &ParsedSshForward)
    ensures
        same_settings(*old(host), *final(host)),
        tunnels_of(*final(host)) == with_request(tunnels_of(*old(host)), forward.request()),
{
    let ghost before = tunnels_of(*host);
    match forward {
        ParsedSshForward::LocalProxy { listen } => {
            if !(some_proxy_at(&host.local_proxies, listen.port) || some_forward_at(
                &host.local_forwards,
                listen.port,
            )) {
                let proxy = make_proxy(host, "ssh-config-dynamic", *listen);
                host.local_proxies.push(proxy);
                assert(proxy_tunnels(host.local_proxies@) =~= before.local_proxies.push(
                    proxy_tunnel(proxy),
                ));
            }
        },
        ParsedSshForward::LocalForward { listen, target } => {
            if !(some_proxy_at(&host.local_proxies, listen.port) || some_forward_at(
                &host.local_forwards,
                listen.port,
            )) {
                let made = make_forward(host, "ssh-config-local", *listen, target.copy());
                host.local_forwards.push(made);
                assert(forward_tunnels(host.local_forwards@) =~= before.local_forwards.push(
                    forward_tunnel(made),
                ));
            }
        },
        ParsedSshForward::RemoteProxy { listen } => {
            if !(some_proxy_at(&host.remote_proxies, listen.port) || some_forward_at(
                &host.remote_forwards,
                listen.port,
            )) {
                let proxy = make_proxy(host, "ssh-config-remote-dynamic", *listen);
                host.remote_proxies.push(proxy);
                assert(proxy_tunnels(host.remote_proxies@) =~= before.remote_proxies.push(
                    proxy_tunnel(proxy),
                ));
            }
        },
        ParsedSshForward::RemoteForward { listen, target } => {
            if !(some_proxy_at(&host.remote_proxies, listen.port) || some_forward_at(
                &host.remote_forwards,
                listen.port,
            )) {
                let made = make_forward(host, "ssh-config-remote", *listen, target.copy());
                host.remote_forwards.push(made);
                assert(forward_tunnels(host.remote_forwards@) =~= before.remote_forwards.push(
                    forward_tunnel(made),
                ));
            }
        },
    }
}

/// Gives a host the tunnels that are asked for, except where a port is taken.
pub fn merge_ssh_config_forwards(host: &mut ResolvedHostConfig, forwards: &Vec<ParsedSshForward>)
    ensures
        same_settings(*old(host), *final(host)),
        tunnels_of(*final(host)) == with_requests(
            tunnels_of(*old(host)),
            requests(forwards@),
        ),
{
    let ghost start = *host;
    let ghost all = requests(forwards@);
    for i in 0..forwards.len()
        invariant
            start == *old(host),
            all == requests(forwards@),
            same_settings(start, *host),
            tunnels_of(*host) == with_requests(tunnels_of(start), all.take(i as int)),
    {
        assert(all.take(i + 1).drop_last() == all.take(i as int));
        assert(all.take(i + 1).last() == forwards@[i as int].request());
        merge_one(host, &forwards[i]);
    }
    assert(all.take(all.len() as int) =~= all);
}

/// What is configured by hand comes before what an OpenSSH configuration asks for: every tunnel
/// stays where it is, and new ones stand behind.
pub proof fn merging_keeps_tunnels(tunnels: Tunnels, list: Seq<ForwardRequest>)
    ensures
        tunnels.local_proxies.is_prefix_of(with_requests(tunnels, list).local_proxies),
        tunnels.local_forwards.is_prefix_of(with_requests(tunnels, list).local_forwards),
        tunnels.remote_proxies.is_prefix_of(with_requests(tunnels, list).remote_proxies),
        tunnels.remote_forwards.is_prefix_of(with_requests(tunnels, list).remote_forwards),
    decreases list.len(),
{
    if list.len() > 0 {
        merging_keeps_tunnels(tunnels, list.drop_last());
    }
}

/// Whether the port of a request is taken.
pub open spec fn is_served(tunnels: Tunnels, request: ForwardRequest) -> bool {
    match request {
        ForwardRequest::LocalProxy { listen } => is_local_port(tunnels, listen.port),
        ForwardRequest::LocalForward { listen, .. } => is_local_port(tunnels, listen.port),
        ForwardRequest::RemoteProxy { listen } => is_remote_port(tunnels, listen.port),
        ForwardRequest::RemoteForward { listen, .. } => is_remote_port(tunnels, listen.port),
    }
}

proof fn lemma_ports_stay(tunnels: Tunnels, request: ForwardRequest, port: u16)
    ensures
        is_local_port(tunnels, port) ==> is_local_port(with_request(tunnels, request), port),
        is_remote_port(tunnels, port) ==> is_remote_port(with_request(tunnels, request), port),
        is_served(with_request(tunnels, request), request),
{
    let after = with_request(tunnels, request);
    if is_local_port(tunnels, port) {
        if exists|i: int|
            0 <= i < tunnels.local_proxies.len() && (
            #[trigger] tunnels.local_proxies[i]).listen.port == port {
            let i = choose|i: int|
                0 <= i < tunnels.local_proxies.len() && (
                #[trigger] tunnels.local_proxies[i]).listen.port == port;
            assert(after.local_proxies[i] == tunnels.local_proxies[i]);
        } else {
            let i = choose|i: int|
                0 <= i < tunnels.local_forwards.len() && (
                #[trigger] tunnels.local_forwards[i]).listen.port == port;
            assert(after.local_forwards[i] == tunnels.local_forwards[i]);
        }
    }
    if is_remote_port(tunnels, port) {
        if exists|i: int|
            0 <= i < tunnels.remote_proxies.len() && (
            #[trigger] tunnels.remote_proxies[i]).listen.port == port {
            let i = choose|i: int|
                0 <= i < tunnels.remote_proxies.len() && (
                #[trigger] tunnels.remote_proxies[i]).listen.port == port;
            assert(after.remote_proxies[i] == tunnels.remote_proxies[i]);
        } else {
            let i = choose|i: int|
                0 <= i < tunnels.remote_forwards.len() && (
                #[trigger] tunnels.remote_forwards[i]).listen.port == port;
            assert(after.remote_forwards[i] == tunnels.remote_forwards[i]);
        }
    }
    if !is_served(tunnels, request) {
        match request {
            ForwardRequest::LocalProxy { listen } => {
                let i = tunnels.local_proxies.len() as int;
                assert(after.local_proxies[i].listen == listen);
            },
            ForwardRequest::LocalForward { listen, .. } => {
                let i = tunnels.local_forwards.len() as int;
                assert(after.local_forwards[i].listen == listen);
            },
            ForwardRequest::RemoteProxy { listen } => {
                let i = tunnels.remote_proxies.len() as int;
                assert(after.remote_proxies[i].listen == listen);
            },
            ForwardRequest::RemoteForward { listen, .. } => {
                let i = tunnels.remote_forwards.len() as int;
                assert(after.remote_forwards[i].listen == listen);
            },
        }
    }
}

/// The port of a request, by itself.
pub open spec fn request_port(request: ForwardRequest) -> u16 {
    match request {
        ForwardRequest::LocalProxy { listen } => listen.port,
        ForwardRequest::LocalForward { listen, .. } => listen.port,
        ForwardRequest::RemoteProxy { listen } => listen.port,
        ForwardRequest::RemoteForward { listen, .. } => listen.port,
    }
}

proof fn lemma_all_served(tunnels: Tunnels, list: Seq<ForwardRequest>)
    ensures
        forall|i: int|
            0 <= i < list.len() ==> is_served(with_requests(tunnels, list), #[trigger] list[i]),
    decreases list.len(),
{
    if list.len() > 0 {
        let before = with_requests(tunnels, list.drop_last());
        lemma_all_served(tunnels, list.drop_last());
        assert forall|i: int| 0 <= i < list.len() implies is_served(
            with_requests(tunnels, list),
            #[trigger] list[i],
        ) by {
            if i < list.len() - 1 {
                assert(list.drop_last()[i] == list[i]);
            }
            lemma_ports_stay(before, list.last(), request_port(list[i]));
        }
    }
}

proof fn lemma_served_changes_nothing(tunnels: Tunnels, list: Seq<ForwardRequest>)
    requires
        forall|i: int| 0 <= i < list.len() ==> is_served(tunnels, #[trigger] list[i]),
    ensures
        with_requests(tunnels, list) == tunnels,
    decreases list.len(),
{
    if list.len() > 0 {
        assert forall|i: int| 0 <= i < list.drop_last().len() implies is_served(
            tunnels,
            #[trigger] list.drop_last()[i],
        ) by {
            assert(list.drop_last()[i] == list[i]);
        }
        lemma_served_changes_nothing(tunnels, list.drop_last());
        assert(is_served(tunnels, list[list.len() - 1]));
    }
}

/// After a configuration was taken over, every port that it asks for is listened at; so to take
/// it over again changes nothing.
pub proof fn merging_again_changes_nothing(tunnels: Tunnels, list: Seq<ForwardRequest>)
    ensures
        forall|i: int|
            0 <= i < list.len() ==> is_served(with_requests(tunnels, list), #[trigger] list[i]),
        with_requests(with_requests(tunnels, list), list) == with_requests(tunnels, list),
{
    lemma_all_served(tunnels, list);
    lemma_served_changes_nothing(with_requests(tunnels, list), list);
}

// ---------------------------------------------------------------------------
// Hosts
// ---------------------------------------------------------------------------
/// The forwards that a host takes over: none where it does not want any or has no name in the
/// OpenSSH configuration.
pub open spec fn inherited(known: SshFiles, home: HomePath, host: ResolvedHostConfig) -> Result<
    Seq<ForwardRequest>,
    Stop,
> {
    if !host.inherit_ssh_config_forwards || host.ssh_config_host is None {
        Ok(Seq::empty())
    } else {
        configured_forwards(
            known,
            home,
            host.ssh_config_host->0@,
            text_option(host.ssh_config_path),
        )
    }
}

/// The forwards that a host takes over.
pub fn inherited_forwards(known: &SshFiles, home: &HomeDirectory, host: &ResolvedHostConfig) -> (r: Result<
    Vec<ParsedSshForward>,
    SshStop,
>)
    ensures
        (match r {
            Ok(forwards) => inherited(*known, home@, *host) == Ok::<_, Stop>(
                requests(forwards@),
            ),
            Err(stop) => inherited(*known, home@, *host) == Err::<Seq<ForwardRequest>, _>(
                stop.stop(),
            ),
        }),
{
    let none: Vec<ParsedSshForward> = Vec::new();
    assert(requests(none@) =~= Seq::<ForwardRequest>::empty());
    if !host.inherit_ssh_config_forwards {
        return Ok(none);
    }
    match &host.ssh_config_host {
        None => Ok(none),
        Some(alias) => {
            let configured = match &host.ssh_config_path {
                Some(path) => Some(path.as_str()),
                None => None,
            };
            ssh_files::load_ssh_config_forwards(known, home, alias.as_str(), configured)
        },
    }
}

/// Gives a host the forwards that it takes over from the OpenSSH configuration.
pub fn inherit_ssh_config_forwards(
    known: &SshFiles,
    home: &HomeDirectory,
    host: &mut ResolvedHostConfig,
) -> (r: Result<(), SshStop>)
    ensures
        same_settings(*old(host), *final(host)),
        (match inherited(*known, home@, *old(host)) {
            Ok(list) => r is Ok && tunnels_of(*final(host)) == with_requests(
                tunnels_of(*old(host)),
                list,
            ),
            Err(stop) => r is Err && r->Err_0.stop() == stop && tunnels_of(*final(host))
                == tunnels_of(*old(host)),
        }),
{
    match inherited_forwards(known, home, host) {
        Ok(forwards) => {
            merge_ssh_config_forwards(host, &forwards);
            Ok(())
        },
        Err(stop) => Err(stop),
    }
}

/// A local proxy that child processes can be told of, with texts for strings.
pub ghost struct Candidate {
    pub host: Seq<char>,
    pub tunnel: Seq<char>,
    pub listen: SocketAddress,
    pub protocol: ProxyProtocol,
}

/// A candidate, with texts for strings.
pub open spec fn candidate_of(candidate: LocalProxyCandidate) -> Candidate {
    Candidate {
        host: candidate.host@,
        tunnel: candidate.tunnel@,
        listen: candidate.listen,
        protocol: candidate.protocol,
    }
}

/// The candidates of a list, with texts for strings.
pub open spec fn candidates_of(list: Seq<LocalProxyCandidate>) -> Seq<Candidate> {
    list.map_values(|c: LocalProxyCandidate| candidate_of(c))
}

/// What a proxy speaks.
pub open spec fn tunnel_protocol(proxy: ProxyTunnel) -> ProxyProtocol {
    if proxy.mixed {
        ProxyProtocol::Mixed
    } else {
        match proxy.protocol {
            Some(protocol) => protocol,
            None => ProxyProtocol::Socks5h,
        }
    }
}

/// The local proxies of a host that start by themselves.
pub open spec fn started_candidates(host: Seq<char>, list: Seq<ProxyTunnel>) -> Seq<Candidate>
    decreases list.len(),
{
    if list.len() == 0 {
        Seq::empty()
    } else {
        let before = started_candidates(host, list.drop_last());
        let last = list.last();
        if last.auto {
            before.push(
                Candidate {
                    host,
                    tunnel: match last.name {
                        Some(name) => name,
                        None => "local-proxy"@ + "-"@ + crate::address::socket_text(last.listen),
                    },
                    listen: last.listen,
                    protocol: tunnel_protocol(last),
                },
            )
        } else {
            before
        }
    }
}

/// The local proxies of one host, with those that it takes over; none where the host does not
/// start by itself.
pub open spec fn host_candidates(
    known: SshFiles,
    home: HomePath,
    name: Seq<char>,
    host: ResolvedHostConfig,
) -> Result<Seq<Candidate>, Stop> {
    if !host.auto {
        Ok(Seq::empty())
    } else {
        match inherited(known, home, host) {
            Ok(list) => Ok(
                started_candidates(name, with_requests(tunnels_of(host), list).local_proxies),
            ),
            Err(Stop::Failed(chain)) => Err(
                Stop::Failed(
                    seq!["failed to inherit SSH config forwards for host "@ + name] + chain,
                ),
            ),
            Err(Stop::Needs(need)) => Err(Stop::Needs(need)),
        }
    }
}

/// The local proxies of all hosts, from `from` on.
pub open spec fn all_candidates(
    known: SshFiles,
    home: HomePath,
    hosts: Seq<Named<HostConfig>>,
    defaults: OverrideDefaultConfig,
    from: int,
) -> Result<Seq<Candidate>, Stop>
    decreases hosts.len() - from,
{
    if from >= hosts.len() {
        Ok(Seq::empty())
    } else {
        match host_candidates(
            known,
            home,
            hosts[from].name@,
            resolved_host(hosts[from].value, defaults),
        ) {
            Err(stop) => Err(stop),
            Ok(list) => match all_candidates(known, home, hosts, defaults, from + 1) {
                Err(stop) => Err(stop),
                Ok(rest) => Ok(list + rest),
            },
        }
    }
}

fn add_candidates(
    name: &str,
    list: &Vec<ResolvedProxyConfig>,
    candidates: &mut Vec<LocalProxyCandidate>,
)
    ensures
        candidates_of(final(candidates)@) == candidates_of(old(candidates)@)
            + started_candidates(name@, proxy_tunnels(list@)),
{
    let ghost start = candidates_of(candidates@);
    let ghost tunnels = proxy_tunnels(list@);
    assert(start + started_candidates(name@, tunnels.take(0)) =~= start);
    for i in 0..list.len()
        invariant
            start == candidates_of(old(candidates)@),
            tunnels == proxy_tunnels(list@),
            candidates_of(candidates@) == start + started_candidates(
                name@,
                tunnels.take(i as int),
            ),
    {
        assert(tunnels.take(i + 1).drop_last() == tunnels.take(i as int));
        assert(tunnels.take(i + 1).last() == proxy_tunnel(list@[i as int]));
        let ghost before = candidates_of(candidates@);
        let proxy = &list[i];
        if proxy.auto {
            let candidate = LocalProxyCandidate {
                host: name.to_owned(),
                tunnel: proxy.runtime_name("local-proxy"),
                listen: proxy.listen,
                protocol: proxy.resolved_protocol(),
            };
            candidates.push(candidate);
            assert(candidates_of(candidates@) =~= before.push(candidate_of(candidate)));
        }
        assert(candidates_of(candidates@) =~= start + started_candidates(
            name@,
            tunnels.take(i + 1),
        ));
    }
    assert(tunnels.take(tunnels.len() as int) =~= tunnels);
}

proof fn lemma_resolved_tunnels(
    host: HostConfig,
    defaults: OverrideDefaultConfig,
    resolved: ResolvedHostConfig,
    known: SshFiles,
    home: HomePath,
    name: Seq<char>,
)
    requires
        crate::config::is_resolved(host, defaults, resolved),
    ensures
        host_candidates(known, home, name, resolved) == host_candidates(
            known,
            home,
            name,
            resolved_host(host, defaults),
        ),
{
    assert(crate::config::is_resolved(host, defaults, resolved_host(host, defaults)));
}

fn add_host_candidates(
    known: &SshFiles,
    home: &HomeDirectory,
    name: &str,
    host: ResolvedHostConfig,
    candidates: &mut Vec<LocalProxyCandidate>,
) -> (r: Result<(), SshStop>)
    ensures
        (match r {
            Ok(_) => host_candidates(*known, home@, name@, host) is Ok && candidates_of(
                final(candidates)@,
            ) == candidates_of(old(candidates)@) + host_candidates(
                *known,
                home@,
                name@,
                host,
            )->Ok_0,
            Err(stop) => host_candidates(*known, home@, name@, host) == Err::<
                Seq<Candidate>,
                _,
            >(stop.stop()),
        }),
{
    let mut host = host;
    if !host.auto {
        assert(candidates_of(candidates@) + Seq::<Candidate>::empty() =~= candidates_of(
            candidates@,
        ));
        return Ok(());
    }
    match inherit_ssh_config_forwards(known, home, &mut host) {
        Ok(_) => {
            add_candidates(name, &host.local_proxies, candidates);
            Ok(())
        },
        Err(SshStop::Needs(need)) => Err(SshStop::Needs(need)),
        Err(SshStop::Failed(error)) => Err(
            SshStop::Failed(
                error.under(concat2("failed to inherit SSH config forwards for host ", name)),
            ),
        ),
    }
}

impl AppConfig {
    /// The local proxies that child processes can be told of.
    pub fn resolved_local_proxies(&self, known: &SshFiles, home: &HomeDirectory) -> (r: Result<
        Vec<LocalProxyCandidate>,
        SshStop,
    >)
        ensures
            ({
                let expected = all_candidates(
                    *known,
                    home@,
                    self.hosts.entries@,
                    self.override_default,
                    0,
                );
                match r {
                    Ok(list) => expected == Ok::<_, Stop>(candidates_of(list@)),
                    Err(stop) => expected == Err::<Seq<Candidate>, _>(stop.stop()),
                }
            }),
    {
        let hosts = &self.hosts.entries;
        let ghost expected = all_candidates(
            *known,
            home@,
            hosts@,
            self.override_default,
            0,
        );
        let mut candidates: Vec<LocalProxyCandidate> = Vec::new();
        assert(candidates_of(candidates@) =~= Seq::<Candidate>::empty());
        assert(expected is Ok ==> candidates_of(candidates@) + expected->Ok_0
            =~= expected->Ok_0);
        for i in 0..hosts.len()
            invariant
                hosts@ == self.hosts.entries@,
                expected == all_candidates(*known, home@, hosts@, self.override_default, 0),
                (match all_candidates(
                    *known,
                    home@,
                    hosts@,
                    self.override_default,
                    i as int,
                ) {
                    Ok(rest) => expected is Ok && expected->Ok_0 == candidates_of(
                        candidates@,
                    ) + rest,
                    Err(stop) => expected == Err::<Seq<Candidate>, _>(stop),
                }),
        {
            let ghost before = candidates_of(candidates@);
            let host = hosts[i].value.resolve(&self.override_default);
            proof {
                lemma_resolved_tunnels(
                    hosts@[i as int].value,
                    self.override_default,
                    host,
                    *known,
                    home@,
                    hosts@[i as int].name@,
                );
            }
            let ghost list = host_candidates(*known, home@, hosts@[i as int].name@, host);
            match add_host_candidates(
                known,
                home,
                hosts[i].name.as_str(),
                host,
                &mut candidates,
            ) {
                Ok(_) => {},
                Err(stop) => {
                    return Err(stop);
                },
            }
            proof {
                let rest = all_candidates(
                    *known,
                    home@,
                    hosts@,
                    self.override_default,
                    i + 1,
                );
                if rest is Ok {
                    assert(before + (list->Ok_0 + rest->Ok_0) =~= candidates_of(candidates@)
                        + rest->Ok_0);
                }
            }
        }
        assert(candidates_of(candidates@) + Seq::<Candidate>::empty() =~= candidates_of(
            candidates@,
        ));
        Ok(candidates)
    }
}

// ---------------------------------------------------------------------------
// What is taken over
// ---------------------------------------------------------------------------
/// Whether a request is for a listener on this machine.
pub open spec fn is_for_this_side(request: ForwardRequest) -> bool {
    request is LocalProxy || request is LocalForward
}

/// A request for a proxy on this machine adds just that proxy, which speaks both protocols and
/// starts by itself, where no tunnel listens at its port here; else it changes nothing.
pub proof fn local_proxies_are_taken_over(tunnels: Tunnels, listen: SocketAddress)
    ensures
        ({
            let after = with_request(tunnels, ForwardRequest::LocalProxy { listen });
            let n = tunnels.local_proxies.len() as int;
            if (exists|i: int|
                0 <= i < tunnels.local_proxies.len() && (
                #[trigger] tunnels.local_proxies[i]).listen.port == listen.port) || (exists|i: int|

                0 <= i < tunnels.local_forwards.len() && (
                #[trigger] tunnels.local_forwards[i]).listen.port == listen.port) {
                after == tunnels
            } else {
                &&& after.local_proxies.len() == n + 1
                &&& after.local_proxies.take(n) == tunnels.local_proxies
                &&& after.local_proxies[n].listen == listen
                &&& after.local_proxies[n].auto && after.local_proxies[n].mixed
                &&& after.local_forwards == tunnels.local_forwards
                &&& after.remote_proxies == tunnels.remote_proxies
                &&& after.remote_forwards == tunnels.remote_forwards
            }
        }),
{
    let n = tunnels.local_proxies.len() as int;
    let after = with_request(tunnels, ForwardRequest::LocalProxy { listen });
    if !is_local_port(tunnels, listen.port) {
        assert(after.local_proxies.take(n) =~= tunnels.local_proxies);
    }
}

/// A request for a forward from this machine adds just that forward, to the target that it
/// names, where no tunnel listens at its port here; else it changes nothing.
pub proof fn local_forwards_are_taken_over(
    tunnels: Tunnels,
    listen: SocketAddress,
    host: Seq<char>,
    port: u16,
)
    ensures
        ({
            let after = with_request(tunnels, ForwardRequest::LocalForward { listen, host, port });
            let n = tunnels.local_forwards.len() as int;
            if (exists|i: int|
                0 <= i < tunnels.local_proxies.len() && (
                #[trigger] tunnels.local_proxies[i]).listen.port == listen.port) || (exists|i: int|

                0 <= i < tunnels.local_forwards.len() && (
                #[trigger] tunnels.local_forwards[i]).listen.port == listen.port) {
                after == tunnels
            } else {
                &&& after.local_forwards.len() == n + 1
                &&& after.local_forwards.take(n) == tunnels.local_forwards
                &&& after.local_forwards[n].listen == listen
                &&& after.local_forwards[n].host == host
                &&& after.local_forwards[n].port == port
                &&& after.local_forwards[n].auto
                &&& after.local_proxies == tunnels.local_proxies
                &&& after.remote_proxies == tunnels.remote_proxies
                &&& after.remote_forwards == tunnels.remote_forwards
            }
        }),
{
    let n = tunnels.local_forwards.len() as int;
    let after = with_request(tunnels, ForwardRequest::LocalForward { listen, host, port });
    if !is_local_port(tunnels, listen.port) {
        assert(after.local_forwards.take(n) =~= tunnels.local_forwards);
    }
}

/// A request for a proxy on the host's side adds just that proxy, which speaks both protocols
/// and starts by itself, where no tunnel listens at its port there; else it changes nothing.
pub proof fn remote_proxies_are_taken_over(tunnels: Tunnels, listen: SocketAddress)
    ensures
        ({
            let after = with_request(tunnels, ForwardRequest::RemoteProxy { listen });
            let n = tunnels.remote_proxies.len() as int;
            if (exists|i: int|
                0 <= i < tunnels.remote_proxies.len() && (
                #[trigger] tunnels.remote_proxies[i]).listen.port == listen.port) || (exists|
                i: int,
            |
                0 <= i < tunnels.remote_forwards.len() && (
                #[trigger] tunnels.remote_forwards[i]).listen.port == listen.port) {
                after == tunnels
            } else {
                &&& after.remote_proxies.len() == n + 1
                &&& after.remote_proxies.take(n) == tunnels.remote_proxies
                &&& after.remote_proxies[n].listen == listen
                &&& after.remote_proxies[n].auto && after.remote_proxies[n].mixed
                &&& after.local_proxies == tunnels.local_proxies
                &&& after.local_forwards == tunnels.local_forwards
                &&& after.remote_forwards == tunnels.remote_forwards
            }
        }),
{
    let n = tunnels.remote_proxies.len() as int;
    let after = with_request(tunnels, ForwardRequest::RemoteProxy { listen });
    if !is_remote_port(tunnels, listen.port) {
        assert(after.remote_proxies.take(n) =~= tunnels.remote_proxies);
    }
}

/// A request for a forward from the host's side adds just that forward, to the target that it
/// names, where no tunnel listens at its port there; else it changes nothing.
pub proof fn remote_forwards_are_taken_over(
    tunnels: Tunnels,
    listen: SocketAddress,
    host: Seq<char>,
    port: u16,
)
    ensures
        ({
            let after = with_request(
                tunnels,
                ForwardRequest::RemoteForward { listen, host, port },
            );
            let n = tunnels.remote_forwards.len() as int;
            if (exists|i: int|
                0 <= i < tunnels.remote_proxies.len() && (
                #[trigger] tunnels.remote_proxies[i]).listen.port == listen.port) || (exists|
                i: int,
            |
                0 <= i < tunnels.remote_forwards.len() && (
                #[trigger] tunnels.remote_forwards[i]).listen.port == listen.port) {
                after == tunnels
            } else {
                &&& after.remote_forwards.len() == n + 1
                &&& after.remote_forwards.take(n) == tunnels.remote_forwards
                &&& after.remote_forwards[n].listen == listen
                &&& after.remote_forwards[n].host == host
                &&& after.remote_forwards[n].port == port
                &&& after.remote_forwards[n].auto
                &&& after.local_proxies == tunnels.local_proxies
                &&& after.local_forwards == tunnels.local_forwards
                &&& after.remote_proxies == tunnels.remote_proxies
            }
        }),
{
    let n = tunnels.remote_forwards.len() as int;
    let after = with_request(tunnels, ForwardRequest::RemoteForward { listen, host, port });
    if !is_remote_port(tunnels, listen.port) {
        assert(after.remote_forwards.take(n) =~= tunnels.remote_forwards);
    }
}

/// Requests are taken one after the other: one more changes what the others came to.
pub proof fn requests_are_taken_in_order(
    tunnels: Tunnels,
    list: Seq<ForwardRequest>,
    next: ForwardRequest,
)
    ensures
        with_requests(tunnels, Seq::empty()) == tunnels,
        with_requests(tunnels, list.push(next)) == with_request(
            with_requests(tunnels, list),
            next,
        ),
{
    assert(list.push(next).drop_last() =~= list);
}

/// Every tunnel that is added was asked for: it listens where a request of the list says, and
/// leads to the host and the port that this request names, unchanged.
pub proof fn added_tunnels_were_asked_for(tunnels: Tunnels, list: Seq<ForwardRequest>)
    ensures
        ({
            let after = with_requests(tunnels, list);
            &&& forall|i: int|
                tunnels.local_proxies.len() <= i < after.local_proxies.len() ==> list.contains(
                    ForwardRequest::LocalProxy { listen: (#[trigger] after.local_proxies[i]).listen },
                )
            &&& forall|i: int|
                tunnels.local_forwards.len() <= i < after.local_forwards.len() ==> list.contains(
                    ForwardRequest::LocalForward {
                        listen: (#[trigger] after.local_forwards[i]).listen,
                        host: after.local_forwards[i].host,
                        port: after.local_forwards[i].port,
                    },
                )
            &&& forall|i: int|
                tunnels.remote_proxies.len() <= i < after.remote_proxies.len() ==> list.contains(
                    ForwardRequest::RemoteProxy {
                        listen: (#[trigger] after.remote_proxies[i]).listen,
                    },
                )
            &&& forall|i: int|
                tunnels.remote_forwards.len() <= i < after.remote_forwards.len() ==> list.contains(
                    ForwardRequest::RemoteForward {
                        listen: (#[trigger] after.remote_forwards[i]).listen,
                        host: after.remote_forwards[i].host,
                        port: after.remote_forwards[i].port,
                    },
                )
        }),
    decreases list.len(),
{
    if list.len() > 0 {
        let front = list.drop_last();
        let before = with_requests(tunnels, front);
        let after = with_requests(tunnels, list);
        added_tunnels_were_asked_for(tunnels, front);
        merging_keeps_tunnels(tunnels, front);
        assert(list[list.len() - 1] == list.last());
        assert forall|r: ForwardRequest| front.contains(r) implies #[trigger] list.contains(r) by {
            let k = front.index_of(r);
            assert(list[k] == r);
        }
        assert forall|i: int|
            tunnels.local_proxies.len() <= i < after.local_proxies.len() implies list.contains(
            ForwardRequest::LocalProxy { listen: (#[trigger] after.local_proxies[i]).listen },
        ) by {
            if i < before.local_proxies.len() {
                assert(after.local_proxies[i] == before.local_proxies[i]);
            }
        }
        assert forall|i: int|
            tunnels.local_forwards.len() <= i < after.local_forwards.len() implies list.contains(
            ForwardRequest::LocalForward {
                listen: (#[trigger] after.local_forwards[i]).listen,
                host: after.local_forwards[i].host,
                port: after.local_forwards[i].port,
            },
        ) by {
            if i < before.local_forwards.len() {
                assert(after.local_forwards[i] == before.local_forwards[i]);
            }
        }
        assert forall|i: int|
            tunnels.remote_proxies.len() <= i < after.remote_proxies.len() implies list.contains(
            ForwardRequest::RemoteProxy { listen: (#[trigger] after.remote_proxies[i]).listen },
        ) by {
            if i < before.remote_proxies.len() {
                assert(after.remote_proxies[i] == before.remote_proxies[i]);
            }
        }
        assert forall|i: int|
            tunnels.remote_forwards.len() <= i < after.remote_forwards.len() implies list.contains(
            ForwardRequest::RemoteForward {
                listen: (#[trigger] after.remote_forwards[i]).listen,
                host: after.remote_forwards[i].host,
                port: after.remote_forwards[i].port,
            },
        ) by {
            if i < before.remote_forwards.len() {
                assert(after.remote_forwards[i] == before.remote_forwards[i]);
            }
        }
    }
}

/// Among the tunnels of one side only that at `i` of the proxies listens at the port.
pub open spec fn is_the_only_proxy(
    proxies: Seq<ProxyTunnel>,
    forwards: Seq<ForwardTunnel>,
    i: int,
    port: u16,
) -> bool {
    &&& forall|j: int|
        0 <= j < proxies.len() && j != i ==> (#[trigger] proxies[j]).listen.port != port
    &&& forall|j: int| 0 <= j < forwards.len() ==> (#[trigger] forwards[j]).listen.port != port
}

/// Among the tunnels of one side only that at `i` of the forwards listens at the port.
pub open spec fn is_the_only_forward(
    proxies: Seq<ProxyTunnel>,
    forwards: Seq<ForwardTunnel>,
    i: int,
    port: u16,
) -> bool {
    &&& forall|j: int| 0 <= j < proxies.len() ==> (#[trigger] proxies[j]).listen.port != port
    &&& forall|j: int|
        0 <= j < forwards.len() && j != i ==> (#[trigger] forwards[j]).listen.port != port
}

/// A request is met by one tunnel of its kind with just its values, which stands behind those
/// that were there, and no other tunnel of its side listens at its port.
pub open spec fn is_met_once(start: Tunnels, after: Tunnels, request: ForwardRequest) -> bool {
    match request {
        ForwardRequest::LocalProxy { listen } => exists|i: int|
            {
                &&& start.local_proxies.len() <= i < after.local_proxies.len()
                &&& (#[trigger] after.local_proxies[i]).listen == listen
                &&& is_the_only_proxy(after.local_proxies, after.local_forwards, i, listen.port)
            },
        ForwardRequest::LocalForward { listen, host, port } => exists|i: int|
            {
                &&& start.local_forwards.len() <= i < after.local_forwards.len()
                &&& (#[trigger] after.local_forwards[i]).listen == listen
                &&& after.local_forwards[i].host == host
                &&& after.local_forwards[i].port == port
                &&& is_the_only_forward(after.local_proxies, after.local_forwards, i, listen.port)
            },
        ForwardRequest::RemoteProxy { listen } => exists|i: int|
            {
                &&& start.remote_proxies.len() <= i < after.remote_proxies.len()
                &&& (#[trigger] after.remote_proxies[i]).listen == listen
                &&& is_the_only_proxy(after.remote_proxies, after.remote_forwards, i, listen.port)
            },
        ForwardRequest::RemoteForward { listen, host, port } => exists|i: int|
            {
                &&& start.remote_forwards.len() <= i < after.remote_forwards.len()
                &&& (#[trigger] after.remote_forwards[i]).listen == listen
                &&& after.remote_forwards[i].host == host
                &&& after.remote_forwards[i].port == port
                &&& is_the_only_forward(
                    after.remote_proxies,
                    after.remote_forwards,
                    i,
                    listen.port,
                )
            },
    }
}

proof fn lemma_stays_met(
    start: Tunnels,
    before: Tunnels,
    request: ForwardRequest,
    next: ForwardRequest,
)
    requires
        is_met_once(start, before, request),
    ensures
        is_met_once(start, with_request(before, next), request),
{
    let after = with_request(before, next);
    match request {
        ForwardRequest::LocalProxy { listen } => {
            let i = choose|i: int|
                {
                    &&& start.local_proxies.len() <= i < before.local_proxies.len()
                    &&& (#[trigger] before.local_proxies[i]).listen == listen
                    &&& is_the_only_proxy(
                        before.local_proxies,
                        before.local_forwards,
                        i,
                        listen.port,
                    )
                };
            assert(is_local_port(before, listen.port));
            assert(after.local_proxies[i].listen == listen);
            assert(is_the_only_proxy(after.local_proxies, after.local_forwards, i, listen.port));
        },
        ForwardRequest::LocalForward { listen, host, port } => {
            let i = choose|i: int|
                {
                    &&& start.local_forwards.len() <= i < before.local_forwards.len()
                    &&& (#[trigger] before.local_forwards[i]).listen == listen
                    &&& before.local_forwards[i].host == host
                    &&& before.local_forwards[i].port == port
                    &&& is_the_only_forward(
                        before.local_proxies,
                        before.local_forwards,
                        i,
                        listen.port,
                    )
                };
            assert(is_local_port(before, listen.port));
            assert(after.local_forwards[i].listen == listen);
            assert(is_the_only_forward(after.local_proxies, after.local_forwards, i, listen.port));
        },
        ForwardRequest::RemoteProxy { listen } => {
            let i = choose|i: int|
                {
                    &&& start.remote_proxies.len() <= i < before.remote_proxies.len()
                    &&& (#[trigger] before.remote_proxies[i]).listen == listen
                    &&& is_the_only_proxy(
                        before.remote_proxies,
                        before.remote_forwards,
                        i,
                        listen.port,
                    )
                };
            assert(is_remote_port(before, listen.port));
            assert(after.remote_proxies[i].listen == listen);
            assert(is_the_only_proxy(after.remote_proxies, after.remote_forwards, i, listen.port));
        },
        ForwardRequest::RemoteForward { listen, host, port } => {
            let i = choose|i: int|
                {
                    &&& start.remote_forwards.len() <= i < before.remote_forwards.len()
                    &&& (#[trigger] before.remote_forwards[i]).listen == listen
                    &&& before.remote_forwards[i].host == host
                    &&& before.remote_forwards[i].port == port
                    &&& is_the_only_forward(
                        before.remote_proxies,
                        before.remote_forwards,
                        i,
                        listen.port,
                    )
                };
            assert(is_remote_port(before, listen.port));
            assert(after.remote_forwards[i].listen == listen);
            assert(is_the_only_forward(
                after.remote_proxies,
                after.remote_forwards,
                i,
                listen.port,
            ));
        },
    }
}

proof fn lemma_port_stays_free(tunnels: Tunnels, list: Seq<ForwardRequest>, request: ForwardRequest)
    requires
        !is_served(tunnels, request),
        forall|j: int|
            0 <= j < list.len() ==> is_for_this_side(#[trigger] list[j]) != is_for_this_side(
                request,
            ) || request_port(list[j]) != request_port(request),
    ensures
        !is_served(with_requests(tunnels, list), request),
    decreases list.len(),
{
    if list.len() > 0 {
        let front = list.drop_last();
        assert forall|j: int| 0 <= j < front.len() implies is_for_this_side(#[trigger] front[j])
            != is_for_this_side(request) || request_port(front[j]) != request_port(request) by {
            assert(front[j] == list[j]);
        }
        lemma_port_stays_free(tunnels, front, request);
        assert(list[list.len() - 1] == list.last());
    }
}

/// A request whose port is free on its side, and is not asked for there earlier in the list, is
/// met by exactly one new tunnel of its kind, with just the addresses that it names.
pub proof fn free_requests_are_met_once(tunnels: Tunnels, list: Seq<ForwardRequest>, k: int)
    requires
        0 <= k < list.len(),
        is_for_this_side(list[k]) ==> (forall|i: int|
            0 <= i < tunnels.local_proxies.len() ==> (
            #[trigger] tunnels.local_proxies[i]).listen.port != request_port(list[k])) && (forall|
            i: int,
        |
            0 <= i < tunnels.local_forwards.len() ==> (
            #[trigger] tunnels.local_forwards[i]).listen.port != request_port(list[k])),
        !is_for_this_side(list[k]) ==> (forall|i: int|
            0 <= i < tunnels.remote_proxies.len() ==> (
            #[trigger] tunnels.remote_proxies[i]).listen.port != request_port(list[k]))
            && (forall|i: int|
            0 <= i < tunnels.remote_forwards.len() ==> (
            #[trigger] tunnels.remote_forwards[i]).listen.port != request_port(list[k])),
        forall|j: int|
            0 <= j < k ==> is_for_this_side(#[trigger] list[j]) != is_for_this_side(list[k])
                || request_port(list[j]) != request_port(list[k]),
    ensures
        is_met_once(tunnels, with_requests(tunnels, list), list[k]),
    decreases list.len(),
{
    let front = list.drop_last();
    let before = with_requests(tunnels, front);
    let after = with_requests(tunnels, list);
    if k < list.len() - 1 {
        assert(front[k] == list[k]);
        assert forall|j: int| 0 <= j < k implies is_for_this_side(#[trigger] front[j])
            != is_for_this_side(front[k]) || request_port(front[j]) != request_port(front[k]) by {
            assert(front[j] == list[j]);
        }
        free_requests_are_met_once(tunnels, front, k);
        lemma_stays_met(tunnels, before, list[k], list.last());
    } else {
        let request = list[k];
        assert(list.last() == request);
        assert forall|j: int| 0 <= j < front.len() implies is_for_this_side(#[trigger] front[j])
            != is_for_this_side(request) || request_port(front[j]) != request_port(request) by {
            assert(front[j] == list[j]);
        }
        lemma_port_stays_free(tunnels, front, request);
        merging_keeps_tunnels(tunnels, front);
        match request {
            ForwardRequest::LocalProxy { listen } => {
                let i = before.local_proxies.len() as int;
                assert(after.local_proxies[i].listen == listen);
                assert(is_the_only_proxy(
                    after.local_proxies,
                    after.local_forwards,
                    i,
                    listen.port,
                ));
            },
            ForwardRequest::LocalForward { listen, .. } => {
                let i = before.local_forwards.len() as int;
                assert(after.local_forwards[i].listen == listen);
                assert(is_the_only_forward(
                    after.local_proxies,
                    after.local_forwards,
                    i,
                    listen.port,
                ));
            },
            ForwardRequest::RemoteProxy { listen } => {
                let i = before.remote_proxies.len() as int;
                assert(after.remote_proxies[i].listen == listen);
                assert(is_the_only_proxy(
                    after.remote_proxies,
                    after.remote_forwards,
                    i,
                    listen.port,
                ));
            },
            ForwardRequest::RemoteForward { listen, .. } => {
                let i = before.remote_forwards.len() as int;
                assert(after.remote_forwards[i].listen == listen);
                assert(is_the_only_forward(
                    after.remote_proxies,
                    after.remote_forwards,
                    i,
                    listen.port,
                ));
            },
        }
    }
}

/// A tunnel that is taken over is named after its kind and its port, where that name is free.
pub proof fn taken_over_tunnels_are_named_by_port(
    tunnels: Tunnels,
    listen: SocketAddress,
    host: Seq<char>,
    port: u16,
)
    requires
        !is_local_port(tunnels, listen.port),
        !is_remote_port(tunnels, listen.port),
    ensures
        ({
            let names = tunnel_names(tunnels);
            let number = decimal(listen.port as nat);
            let dynamic = "ssh-config-dynamic"@ + "-"@ + number;
            let local = "ssh-config-local"@ + "-"@ + number;
            let remote_dynamic = "ssh-config-remote-dynamic"@ + "-"@ + number;
            let remote = "ssh-config-remote"@ + "-"@ + number;
            &&& !names.contains(dynamic) ==> with_request(
                tunnels,
                ForwardRequest::LocalProxy { listen },
            ).local_proxies.last().name == Some(dynamic)
            &&& !names.contains(local) ==> with_request(
                tunnels,
                ForwardRequest::LocalForward { listen, host, port },
            ).local_forwards.last().name == Some(local)
            &&& !names.contains(remote_dynamic) ==> with_request(
                tunnels,
                ForwardRequest::RemoteProxy { listen },
            ).remote_proxies.last().name == Some(remote_dynamic)
            &&& !names.contains(remote) ==> with_request(
                tunnels,
                ForwardRequest::RemoteForward { listen, host, port },
            ).remote_forwards.last().name == Some(remote)
        }),
{
}

/// Where the name of a tunnel is taken, the first number from two on that makes it a new name
/// stands behind it.
pub proof fn taken_names_are_numbered(names: Seq<Seq<char>>, prefix: Seq<char>, port: u16)
    requires
        names.contains(prefix + "-"@ + decimal(port as nat)),
    ensures
        exists|number: int| #[trigger]
            is_first_free(names, prefix + "-"@ + decimal(port as nat), number) && free_name(
                names,
                prefix,
                port,
            ) == prefix + "-"@ + decimal(port as nat) + "-"@ + decimal(number as nat),
{
    let base = prefix + "-"@ + decimal(port as nat);
    let number = free_number(names, base, 2);
    lemma_taken_numbers(names, base, 2);
    made_names_are_free(names, prefix, port);
    assert forall|k: int| 2 <= k < number implies names.contains(
        base + "-"@ + #[trigger] decimal(k as nat),
    ) by {
        assert(names.contains(numbered(base, k)));
    }
    assert(is_first_free(names, base, number));
}

/// Whether a number is the first from two on that makes a name a new one.
pub open spec fn is_first_free(names: Seq<Seq<char>>, base: Seq<char>, number: int) -> bool {
    &&& 2 <= number
    &&& !names.contains(base + "-"@ + decimal(number as nat))
    &&& forall|k: int|
        2 <= k < number ==> names.contains(base + "-"@ + #[trigger] decimal(k as nat))
}

} // verus!
