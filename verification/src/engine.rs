//! What is started from a configuration.
use crate::address::{socket_text, SocketAddress};
use crate::authority::target_text;
use crate::config::{AppConfig, ConfigError, HostConfig, OverrideDefaultConfig, ProxyProtocol,
    ResolvedForwardConfig, ResolvedHostConfig, ResolvedProxyConfig};
use crate::config_check::{config_fault, resolved_host};
use crate::config_path::ConfigScope;
use crate::environment::Environment;
use crate::paths::{HomeDirectory, HomePath};
use crate::named::Named;
use crate::outbound::{place_text, target_at, TargetAddr};
use crate::ssh_files::{SshFiles, SshStop, Stop};
use crate::ssh_forwards::{forward_tunnel, forward_tunnels, inherit_ssh_config_forwards, inherited,
    proxy_tunnel, proxy_tunnels, same_settings, tunnel_protocol, tunnels_of, with_requests,
    ForwardTunnel, ProxyTunnel, Tunnels};
use crate::status::{tunnel_id, tunnel_id_text, TunnelKind};
use crate::text;
use crate::text::{concat2, concat4, text_option};
use vstd::prelude::*;

verus! {

// ---------------------------------------------------------------------------
// The engine
// ---------------------------------------------------------------------------
/// How the program runs.
#[derive(Debug, Clone, Copy, PartialEq, Eq, Structural)]
pub enum RuntimeProfile {
    Service,
    Foreground,
}

impl Default for RuntimeProfile {
    fn default() -> (r: RuntimeProfile)
        ensures
            r == RuntimeProfile::Foreground,
    {
        RuntimeProfile::Foreground
    }
}

impl RuntimeProfile {
    /// Whose configuration is used.
    #[verifier::allow_in_spec]
    pub fn config_scope(self) -> ConfigScope
        returns
            (match self {
                RuntimeProfile::Service => ConfigScope::System,
                RuntimeProfile::Foreground => ConfigScope::User,
            }),
    {
        match self {
            RuntimeProfile::Service => ConfigScope::System,
            RuntimeProfile::Foreground => ConfigScope::User,
        }
    }
}

/// A valid configuration, and how it is run.
#[derive(Debug, Clone, PartialEq, Eq)]
pub struct Engine {
    pub config: AppConfig,
    pub profile: RuntimeProfile,
}

impl Engine {
    /// Takes a valid configuration to be run in the foreground.
    pub fn new(config: AppConfig, environment: &Environment) -> (r: Result<Engine, ConfigError>)
        ensures
            (match r {
                Ok(engine) => config_fault(config, environment.home_place()) is None
                    && engine.config == config && engine.profile == RuntimeProfile::Foreground,
                Err(error) => config_fault(config, environment.home_place()) == Some(
                    error.fault(),
                ),
            }),
    {
        Engine::with_profile(config, RuntimeProfile::Foreground, environment)
    }

    /// Takes a valid configuration to be run in some way.
    pub fn with_profile(
        config: AppConfig,
        profile: RuntimeProfile,
        environment: &Environment,
    ) -> (r: Result<Engine, ConfigError>)
        ensures
            (match r {
                Ok(engine) => config_fault(config, environment.home_place()) is None
                    && engine.config == config && engine.profile == profile,
                Err(error) => config_fault(config, environment.home_place()) == Some(
                    error.fault(),
                ),
            }),
    {
        match config.validate(environment) {
            Ok(_) => Ok(Engine { config, profile }),
            Err(error) => Err(error),
        }
    }

    /// The configuration.
    pub fn config(&self) -> (r: &AppConfig)
        ensures
            *r == self.config,
    {
        &self.config
    }
}

// ---------------------------------------------------------------------------
// Tunnels that start
// ---------------------------------------------------------------------------
/// The word for what a proxy speaks.
pub open spec fn protocol_word(protocol: ProxyProtocol) -> Seq<char> {
    match protocol {
        ProxyProtocol::Socks5h => "SOCKS5H"@,
        ProxyProtocol::Http => "HTTP"@,
        ProxyProtocol::Mixed => "Mixed"@,
    }
}

/// The word for what a proxy speaks.
pub fn proxy_protocol_name(protocol: ProxyProtocol) -> (r: &'static str)
    ensures
        r@ == protocol_word(protocol),
{
    match protocol {
        ProxyProtocol::Socks5h => "SOCKS5H",
        ProxyProtocol::Http => "HTTP",
        ProxyProtocol::Mixed => "Mixed",
    }
}

/// What a tunnel does with what it is sent.
#[derive(Debug, Clone, PartialEq, Eq)]
pub enum TunnelRole {
    Proxy(ProxyProtocol),
    Forward { host: String, port: u16 },
}

/// A tunnel that starts by itself.
#[derive(Debug, Clone, PartialEq, Eq)]
pub struct TunnelRegistration {
    pub id: String,
    pub host_name: String,
    pub name: String,
    pub kind: TunnelKind,
    pub listen: SocketAddress,
    pub role: TunnelRole,
}

/// What a tunnel does with what it is sent, with texts for strings.
pub ghost enum Role {
    Proxy(ProxyProtocol),
    Forward { host: Seq<char>, port: u16 },
}

/// A tunnel that starts by itself, with texts for strings.
pub ghost struct Registration {
    pub id: Seq<char>,
    pub host_name: Seq<char>,
    pub name: Seq<char>,
    pub kind: TunnelKind,
    pub listen: SocketAddress,
    pub role: Role,
}

impl TunnelRole {
    /// What the tunnel does, with texts for strings.
    pub open spec fn role(self) -> Role {
        match self {
            TunnelRole::Proxy(protocol) => Role::Proxy(protocol),
            TunnelRole::Forward { host, port } => Role::Forward { host: host@, port },
        }
    }
}

impl TunnelRegistration {
    /// The tunnel, with texts for strings.
    pub open spec fn registration(self) -> Registration {
        Registration {
            id: self.id@,
            host_name: self.host_name@,
            name: self.name@,
            kind: self.kind,
            listen: self.listen,
            role: self.role.role(),
        }
    }

    /// Where the tunnel leads, where it leads to one place.
    pub fn target(&self) -> (r: Option<String>)
        ensures
            text_option(r) == (match self.role {
                TunnelRole::Proxy(_) => None,
                TunnelRole::Forward { host, port } => Some(target_text(host@, port)),
            }),
    {
        match &self.role {
            TunnelRole::Proxy(_) => None,
            TunnelRole::Forward { host, port } => Some(
                crate::authority::write_target(host.as_str(), *port),
            ),
        }
    }

    /// What the tunnel speaks, where it is a proxy.
    pub fn protocol(&self) -> (r: Option<&'static str>)
        ensures
            (match self.role {
                TunnelRole::Proxy(protocol) => r is Some && r->0@ == protocol_word(protocol),
                TunnelRole::Forward { .. } => r is None,
            }),
    {
        match &self.role {
            TunnelRole::Proxy(protocol) => Some(proxy_protocol_name(*protocol)),
            TunnelRole::Forward { .. } => None,
        }
    }
}

/// The tunnels of a list, with texts for strings.
pub open spec fn registrations(list: Seq<TunnelRegistration>) -> Seq<Registration> {
    list.map_values(|r: TunnelRegistration| r.registration())
}

/// The name under which a tunnel runs: its own, else one made of its kind and its address.
pub open spec fn running_name(
    name: Option<Seq<char>>,
    prefix: Seq<char>,
    listen: SocketAddress,
) -> Seq<char> {
    match name {
        Some(name) => name,
        None => prefix + "-"@ + socket_text(listen),
    }
}

/// The proxies of a list that start by themselves.
pub open spec fn started_proxies(
    host: Seq<char>,
    kind: TunnelKind,
    prefix: Seq<char>,
    list: Seq<ProxyTunnel>,
) -> Seq<Registration>
    decreases list.len(),
{
    if list.len() == 0 {
        Seq::empty()
    } else {
        let before = started_proxies(host, kind, prefix, list.drop_last());
        let last = list.last();
        let name = running_name(last.name, prefix, last.listen);
        if last.auto {
            before.push(
                Registration {
                    id: tunnel_id_text(host, kind, name),
                    host_name: host,
                    name,
                    kind,
                    listen: last.listen,
                    role: Role::Proxy(tunnel_protocol(last)),
                },
            )
        } else {
            before
        }
    }
}

/// The forwards of a list that start by themselves.
pub open spec fn started_forwards(
    host: Seq<char>,
    kind: TunnelKind,
    prefix: Seq<char>,
    list: Seq<ForwardTunnel>,
) -> Seq<Registration>
    decreases list.len(),
{
    if list.len() == 0 {
        Seq::empty()
    } else {
        let before = started_forwards(host, kind, prefix, list.drop_last());
        let last = list.last();
        let name = running_name(last.name, prefix, last.listen);
        if last.auto {
            before.push(
                Registration {
                    id: tunnel_id_text(host, kind, name),
                    host_name: host,
                    name,
                    kind,
                    listen: last.listen,
                    role: Role::Forward { host: last.host, port: last.port },
                },
            )
        } else {
            before
        }
    }
}

/// The tunnels of a host that start by themselves and listen on this machine.
pub open spec fn started_locally(host: Seq<char>, tunnels: Tunnels) -> Seq<Registration> {
    started_proxies(host, TunnelKind::LocalProxy, "local-proxy"@, tunnels.local_proxies)
        + started_forwards(
        host,
        TunnelKind::LocalForward,
        "local-forward"@,
        tunnels.local_forwards,
    )
}

/// The tunnels of a host that start by themselves and listen on the host's side.
pub open spec fn started_remotely(host: Seq<char>, tunnels: Tunnels) -> Seq<Registration> {
    started_proxies(host, TunnelKind::RemoteProxy, "remote-proxy"@, tunnels.remote_proxies)
        + started_forwards(
        host,
        TunnelKind::RemoteForward,
        "remote-forward"@,
        tunnels.remote_forwards,
    )
}

fn add_proxies(
    host: &str,
    kind: TunnelKind,
    prefix: &str,
    list: &Vec<ResolvedProxyConfig>,
    out: &mut Vec<TunnelRegistration>,
)
    ensures
        registrations(final(out)@) == registrations(old(out)@) + started_proxies(
            host@,
            kind,
            prefix@,
            proxy_tunnels(list@),
        ),
{
    let ghost start = registrations(out@);
    let ghost all = proxy_tunnels(list@);
    assert(start + started_proxies(host@, kind, prefix@, all.take(0)) =~= start);
    for i in 0..list.len()
        invariant
            start == registrations(old(out)@),
            all == proxy_tunnels(list@),
            registrations(out@) == start + started_proxies(
                host@,
                kind,
                prefix@,
                all.take(i as int),
            ),
    {
        assert(all.take(i + 1).drop_last() == all.take(i as int));
        assert(all.take(i + 1).last() == proxy_tunnel(list@[i as int]));
        let ghost before = registrations(out@);
        let proxy = &list[i];
        if proxy.auto {
            let name = proxy.runtime_name(prefix);
            let made = TunnelRegistration {
                id: tunnel_id(host, kind, name.as_str()),
                host_name: host.to_owned(),
                name,
                kind,
                listen: proxy.listen,
                role: TunnelRole::Proxy(proxy.resolved_protocol()),
            };
            out.push(made);
            assert(registrations(out@) =~= before.push(made.registration()));
        }
        assert(registrations(out@) =~= start + started_proxies(
            host@,
            kind,
            prefix@,
            all.take(i + 1),
        ));
    }
    assert(all.take(all.len() as int) =~= all);
}

fn add_forwards(
    host: &str,
    kind: TunnelKind,
    prefix: &str,
    list: &Vec<ResolvedForwardConfig>,
    out: &mut Vec<TunnelRegistration>,
)
    ensures
        registrations(final(out)@) == registrations(old(out)@) + started_forwards(
            host@,
            kind,
            prefix@,
            forward_tunnels(list@),
        ),
{
    let ghost start = registrations(out@);
    let ghost all = forward_tunnels(list@);
    assert(start + started_forwards(host@, kind, prefix@, all.take(0)) =~= start);
    for i in 0..list.len()
        invariant
            start == registrations(old(out)@),
            all == forward_tunnels(list@),
            registrations(out@) == start + started_forwards(
                host@,
                kind,
                prefix@,
                all.take(i as int),
            ),
    {
        assert(all.take(i + 1).drop_last() == all.take(i as int));
        assert(all.take(i + 1).last() == forward_tunnel(list@[i as int]));
        let ghost before = registrations(out@);
        let forward = &list[i];
        if forward.auto {
            let name = forward.runtime_name(prefix);
            let made = TunnelRegistration {
                id: tunnel_id(host, kind, name.as_str()),
                host_name: host.to_owned(),
                name,
                kind,
                listen: forward.listen,
                role: TunnelRole::Forward {
                    host: forward.target.host.clone(),
                    port: forward.target.port,
                },
            };
            out.push(made);
            assert(registrations(out@) =~= before.push(made.registration()));
        }
        assert(registrations(out@) =~= start + started_forwards(
            host@,
            kind,
            prefix@,
            all.take(i + 1),
        ));
    }
    assert(all.take(all.len() as int) =~= all);
}

fn collect_local(name: &str, host: &ResolvedHostConfig) -> (r: Vec<TunnelRegistration>)
    ensures
        registrations(r@) == started_locally(name@, tunnels_of(*host)),
{
    let mut r: Vec<TunnelRegistration> = Vec::new();
    add_proxies(name, TunnelKind::LocalProxy, "local-proxy", &host.local_proxies, &mut r);
    add_forwards(name, TunnelKind::LocalForward, "local-forward", &host.local_forwards, &mut r);
    assert(registrations(r@) =~= started_locally(name@, tunnels_of(*host)));
    r
}

fn collect_remote(name: &str, host: &ResolvedHostConfig) -> (r: Vec<TunnelRegistration>)
    ensures
        registrations(r@) == started_remotely(name@, tunnels_of(*host)),
{
    let mut r: Vec<TunnelRegistration> = Vec::new();
    add_proxies(name, TunnelKind::RemoteProxy, "remote-proxy", &host.remote_proxies, &mut r);
    add_forwards(
        name,
        TunnelKind::RemoteForward,
        "remote-forward",
        &host.remote_forwards,
        &mut r,
    );
    assert(registrations(r@) =~= started_remotely(name@, tunnels_of(*host)));
    r
}

// ---------------------------------------------------------------------------
// Hosts that start
// ---------------------------------------------------------------------------
/// A host that starts by itself, with the tunnels that it takes over.
#[derive(Debug, Clone, PartialEq, Eq)]
pub struct HostLaunch {
    pub name: String,
    pub host: ResolvedHostConfig,
    /// The tunnels that listen on this machine.
    pub local: Vec<TunnelRegistration>,
    /// The tunnels that listen on the host's side.
    pub remote: Vec<TunnelRegistration>,
}

impl HostLaunch {
    /// Whether the host has nothing to do: no tunnel of it starts by itself.
    pub fn is_idle(&self) -> (r: bool)
        ensures
            r == (self.local@.len() == 0 && self.remote@.len() == 0),
    {
        self.local.len() == 0 && self.remote.len() == 0
    }
}

/// A host that starts by itself: its name, its settings, and its tunnels with those that it
/// takes over.
pub ghost struct Launch {
    pub name: Seq<char>,
    pub settings: ResolvedHostConfig,
    pub tunnels: Tunnels,
}

/// Whether a host is launched as it should be.
pub open spec fn is_launch(made: HostLaunch, wanted: Launch) -> bool {
    &&& made.name@ == wanted.name
    &&& same_settings(wanted.settings, made.host)
    &&& tunnels_of(made.host) == wanted.tunnels
    &&& registrations(made.local@) == started_locally(wanted.name, wanted.tunnels)
    &&& registrations(made.remote@) == started_remotely(wanted.name, wanted.tunnels)
}

/// What is said of a host whose forwards cannot be taken over.
pub open spec fn with_host(stop: Stop, name: Seq<char>) -> Stop {
    match stop {
        Stop::Failed(chain) => Stop::Failed(
            seq!["failed to inherit SSH config forwards for host "@ + name] + chain,
        ),
        Stop::Needs(need) => Stop::Needs(need),
    }
}

/// A host, where it starts by itself.
pub open spec fn launch_of(
    known: SshFiles,
    home: HomePath,
    entry: Named<HostConfig>,
    defaults: OverrideDefaultConfig,
) -> Result<Option<Launch>, Stop> {
    let host = resolved_host(entry.value, defaults);
    if !host.auto {
        Ok(None)
    } else {
        match inherited(known, home, host) {
            Err(stop) => Err(with_host(stop, entry.name@)),
            Ok(list) => Ok(
                Some(
                    Launch {
                        name: entry.name@,
                        settings: host,
                        tunnels: with_requests(tunnels_of(host), list),
                    },
                ),
            ),
        }
    }
}

/// The hosts of a list, from `from` on, that start by themselves.
pub open spec fn launches(
    known: SshFiles,
    home: HomePath,
    hosts: Seq<Named<HostConfig>>,
    defaults: OverrideDefaultConfig,
    from: int,
) -> Result<Seq<Launch>, Stop>
    decreases hosts.len() - from,
{
    if from >= hosts.len() {
        Ok(Seq::empty())
    } else {
        match launch_of(known, home, hosts[from], defaults) {
            Err(stop) => Err(stop),
            Ok(first) => match launches(known, home, hosts, defaults, from + 1) {
                Err(stop) => Err(stop),
                Ok(rest) => Ok(
                    match first {
                        Some(launch) => seq![launch] + rest,
                        None => rest,
                    },
                ),
            },
        }
    }
}

/// Whether hosts are launched as they should be.
pub open spec fn are_launches(made: Seq<HostLaunch>, wanted: Seq<Launch>) -> bool {
    made.len() == wanted.len() && forall|i: int|
        0 <= i < made.len() ==> is_launch(#[trigger] made[i], wanted[i])
}

proof fn lemma_resolved_launch(
    config: HostConfig,
    defaults: OverrideDefaultConfig,
    resolved: ResolvedHostConfig,
    known: SshFiles,
    home: HomePath,
)
    requires
        crate::config::is_resolved(config, defaults, resolved),
    ensures
        ({
            let other = resolved_host(config, defaults);
            &&& same_settings(other, resolved)
            &&& tunnels_of(other) == tunnels_of(resolved)
            &&& inherited(known, home, other) == inherited(known, home, resolved)
        }),
{
    assert(crate::config::is_resolved(config, defaults, resolved_host(config, defaults)));
}

fn launch_host(known: &SshFiles, home: &HomeDirectory, name: &String, host: ResolvedHostConfig) -> (r: Result<
    HostLaunch,
    SshStop,
>)
    ensures
        (match inherited(*known, home@, host) {
            Ok(list) => r is Ok && is_launch(
                r->Ok_0,
                Launch {
                    name: name@,
                    settings: host,
                    tunnels: with_requests(tunnels_of(host), list),
                },
            ),
            Err(stop) => r is Err && r->Err_0.stop() == with_host(stop, name@),
        }),
{
    let mut host = host;
    match inherit_ssh_config_forwards(known, home, &mut host) {
        Ok(_) => {
            let local = collect_local(name.as_str(), &host);
            let remote = collect_remote(name.as_str(), &host);
            Ok(HostLaunch { name: name.clone(), host, local, remote })
        },
        Err(SshStop::Needs(need)) => Err(SshStop::Needs(need)),
        Err(SshStop::Failed(error)) => Err(
            SshStop::Failed(
                error.under(
                    concat2(
                        "failed to inherit SSH config forwards for host ",
                        name.as_str(),
                    ),
                ),
            ),
        ),
    }
}

fn plan_host(
    known: &SshFiles,
    home: &HomeDirectory,
    entry: &Named<HostConfig>,
    defaults: &OverrideDefaultConfig,
) -> (r: Result<Option<HostLaunch>, SshStop>)
    ensures
        ({
            let wanted = launch_of(*known, home@, *entry, *defaults);
            match r {
                Ok(Some(made)) => wanted is Ok && wanted->Ok_0 is Some && is_launch(
                    made,
                    wanted->Ok_0->0,
                ),
                Ok(None) => wanted == Ok::<Option<Launch>, Stop>(None),
                Err(stop) => wanted == Err::<Option<Launch>, _>(stop.stop()),
            }
        }),
{
    let host = entry.value.resolve(defaults);
    proof {
        lemma_resolved_launch(entry.value, *defaults, host, *known, home@);
    }
    if !host.auto {
        return Ok(None);
    }
    match launch_host(known, home, &entry.name, host) {
        Ok(launch) => Ok(Some(launch)),
        Err(stop) => Err(stop),
    }
}

impl Engine {
    /// The hosts that start by themselves.
    #[verifier::rlimit(40)]
    pub fn plan_hosts(&self, known: &SshFiles, home: &HomeDirectory) -> (r: Result<Vec<HostLaunch>, SshStop>)
        ensures
            ({
                let wanted = launches(
                    *known,
                    home@,
                    self.config.hosts.entries@,
                    self.config.override_default,
                    0,
                );
                match r {
                    Ok(made) => wanted is Ok && are_launches(made@, wanted->Ok_0),
                    Err(stop) => wanted == Err::<Seq<Launch>, _>(stop.stop()),
                }
            }),
    {
        let hosts = &self.config.hosts.entries;
        let defaults = &self.config.override_default;
        let ghost wanted = launches(*known, home@, hosts@, *defaults, 0);
        let ghost mut done: Seq<Launch> = Seq::empty();
        let mut made: Vec<HostLaunch> = Vec::new();
        assert(wanted is Ok ==> Seq::<Launch>::empty() + wanted->Ok_0 =~= wanted->Ok_0);
        for i in 0..hosts.len()
            invariant
                hosts@ == self.config.hosts.entries@,
                *defaults == self.config.override_default,
                wanted == launches(*known, home@, hosts@, *defaults, 0),
                are_launches(made@, done),
                (match launches(*known, home@, hosts@, *defaults, i as int) {
                    Ok(rest) => wanted is Ok && wanted->Ok_0 == done + rest,
                    Err(stop) => wanted == Err::<Seq<Launch>, _>(stop),
                }),
        {
            let ghost next = launch_of(*known, home@, hosts@[i as int], *defaults);
            let ghost rest = launches(*known, home@, hosts@, *defaults, i + 1);
            match plan_host(known, home, &hosts[i], defaults) {
                Err(stop) => {
                    return Err(stop);
                },
                Ok(None) => {},
                Ok(Some(launch)) => {
                    let ghost before = made@;
                    made.push(launch);
                    proof {
                        let wanted_here = next->Ok_0->0;
                        if rest is Ok {
                            assert(done + (seq![wanted_here] + rest->Ok_0) =~= done.push(
                                wanted_here,
                            ) + rest->Ok_0);
                        }
                        done = done.push(wanted_here);
                        assert(made@ =~= before.push(launch));
                    }
                },
            }
        }
        assert(done + Seq::<Launch>::empty() =~= done);
        Ok(made)
    }
}

/// How many tunnels of a list of hosts listen on this machine, and how many on the hosts' side.
pub open spec fn tunnel_totals(list: Seq<HostLaunch>) -> (nat, nat)
    decreases list.len(),
{
    if list.len() == 0 {
        (0, 0)
    } else {
        let (local, remote) = tunnel_totals(list.drop_last());
        (local + list.last().local@.len(), remote + list.last().remote@.len())
    }
}

/// Counts tunnels that listen on this machine, and on the hosts' side.
pub fn count_tunnels(list: &Vec<HostLaunch>) -> (r: (u128, u128))
    ensures
        (r.0 as nat, r.1 as nat) == tunnel_totals(list@),
{
    let mut local: u128 = 0;
    let mut remote: u128 = 0;
    for i in 0..list.len()
        invariant
            local <= i * usize::MAX,
            remote <= i * usize::MAX,
            (local as nat, remote as nat) == tunnel_totals(list@.take(i as int)),
    {
        assert(list@.take(i + 1).drop_last() == list@.take(i as int));
        assert((i + 1) * usize::MAX == i * usize::MAX + usize::MAX) by (nonlinear_arith);
        assert(i * usize::MAX <= usize::MAX * usize::MAX) by (nonlinear_arith)
            requires
                0 <= i <= usize::MAX,
        ;
        assert(usize::MAX * usize::MAX + usize::MAX <= u128::MAX) by (nonlinear_arith)
            requires
                usize::MAX <= 0xffff_ffff_ffff_ffff,
        ;
        local = local + list[i].local.len() as u128;
        remote = remote + list[i].remote.len() as u128;
    }
    assert(list@.take(list@.len() as int) == list@);
    (local, remote)
}

// ---------------------------------------------------------------------------
// Listeners
// ---------------------------------------------------------------------------
/// How long to wait before a listener is tried again, once it was tried after `current`; spans
/// are in nanoseconds.
#[verifier::allow_in_spec]
pub fn next_listener_retry(current: u128, maximum: u128) -> u128
    returns
        (if current * 2 > maximum {
            maximum
        } else {
            (current * 2) as u128
        }),
{
    if current > maximum / 2 {
        maximum
    } else {
        current * 2
    }
}

/// Waits between tries of a listener never get longer than the longest one, and never shorter
/// until they are as long as that.
pub proof fn listener_retries_grow(current: u128, maximum: u128)
    ensures
        next_listener_retry(current, maximum) <= maximum,
        current <= maximum ==> next_listener_retry(current, maximum) >= current,
{
}

/// The waits of a listener that is tried again and again; spans are in nanoseconds.
#[derive(Debug, Clone, Copy, PartialEq, Eq, Structural)]
pub struct ListenerRetry {
    pub initial: u128,
    pub maximum: u128,
    /// The next wait.
    pub delay: u128,
}

impl ListenerRetry {
    /// The waits of a listener of a host.
    pub fn new(initial_millis: u64, maximum_secs: u64) -> (r: ListenerRetry)
        ensures
            r.initial == initial_millis * 1_000_000,
            r.maximum == maximum_secs * 1_000_000_000,
            r.delay == r.initial,
    {
        let initial: u128 = initial_millis as u128 * 1_000_000;
        let maximum: u128 = maximum_secs as u128 * 1_000_000_000;
        ListenerRetry { initial, maximum, delay: initial }
    }

    /// Takes in that the listener listens.
    pub fn on_listening(&mut self)
        ensures
            *final(self) == (ListenerRetry { delay: old(self).initial, ..*old(self) }),
    {
        self.delay = self.initial;
    }

    /// Takes in that the listener failed; gives the wait before the next try.
    pub fn on_failure(&mut self) -> (wait: u128)
        ensures
            wait == old(self).delay,
            *final(self) == (ListenerRetry {
                delay: next_listener_retry(old(self).delay, old(self).maximum),
                ..*old(self)
            }),
    {
        let wait: u128 = self.delay;
        self.delay = next_listener_retry(self.delay, self.maximum);
        wait
    }
}

/// How a task that should not end has ended.
#[derive(Debug, Clone, PartialEq, Eq)]
pub enum TaskEnd {
    /// No task is left.
    NoneLeft,
    /// A task has come to its end.
    Finished,
    Failed(String),
}

/// How the end of a task is told.
pub open spec fn task_end_text(end: TaskEnd) -> Seq<char> {
    match end {
        TaskEnd::NoneLeft => "all local forwards exited unexpectedly"@,
        TaskEnd::Finished => "local forward exited unexpectedly"@,
        TaskEnd::Failed(error) => error@,
    }
}

/// Tells the end of a task.
pub fn listener_exit_result(end: &TaskEnd) -> (r: String)
    ensures
        r@ == task_end_text(*end),
{
    match end {
        TaskEnd::NoneLeft => "all local forwards exited unexpectedly".to_owned(),
        TaskEnd::Finished => "local forward exited unexpectedly".to_owned(),
        TaskEnd::Failed(error) => error.clone(),
    }
}

/// What is said of a listener that cannot listen.
pub fn listen_message(listen: SocketAddress, error: &str) -> (r: String)
    ensures
        r@ == "failed to listen at "@ + socket_text(listen) + ": "@ + error@,
{
    concat4("failed to listen at ", listen.text().as_str(), ": ", error)
}

/// What is said of a listener that cannot accept a connection.
pub fn accept_message(listen: SocketAddress, error: &str) -> (r: String)
    ensures
        r@ == "listener at "@ + socket_text(listen) + " failed to accept a connection: "@
            + error@,
{
    concat4(
        "listener at ",
        listen.text().as_str(),
        " failed to accept a connection: ",
        error,
    )
}

/// Numbers for connections.
#[derive(Debug, Clone, Copy, PartialEq, Eq, Structural)]
pub struct ConnectionIds {
    pub next: u64,
}

impl ConnectionIds {
    /// No number was given out yet.
    pub fn new() -> (r: ConnectionIds)
        ensures
            r.next == 1,
    {
        ConnectionIds { next: 1 }
    }

    /// A number that was not given out yet, as long as there is one; then they start over.
    pub fn next_connection_id(&mut self) -> (r: u64)
        ensures
            r == old(self).next,
            final(self).next == old(self).next.wrapping_add(1),
            old(self).next < u64::MAX ==> final(self).next > r,
    {
        let id: u64 = self.next;
        self.next = self.next.wrapping_add(1);
        id
    }
}

/// A connection that came in at a tunnel.
#[derive(Debug, Clone, PartialEq, Eq)]
pub struct ConnectionRegistration {
    pub id: u64,
    pub host_name: String,
    pub tunnel_id: String,
    pub peer_address: String,
    pub target: Option<String>,
    pub protocol: &'static str,
    pub session_id: Option<u64>,
}

/// A connection that came in at a tunnel, with texts for strings.
pub ghost struct Connection {
    pub id: u64,
    pub host_name: Seq<char>,
    pub tunnel_id: Seq<char>,
    pub peer_address: Seq<char>,
    pub target: Option<Seq<char>>,
    pub protocol: Seq<char>,
    pub session_id: Option<u64>,
}

impl ConnectionRegistration {
    /// The connection, with texts for strings.
    pub open spec fn connection(self) -> Connection {
        Connection {
            id: self.id,
            host_name: self.host_name@,
            tunnel_id: self.tunnel_id@,
            peer_address: self.peer_address@,
            target: text_option(self.target),
            protocol: self.protocol@,
            session_id: self.session_id,
        }
    }
}

/// The connection `id` from `peer` at a tunnel: a forward knows from the start where it
/// leads, a proxy is yet to be told.
pub open spec fn arrived(tunnel: TunnelRegistration, id: u64, peer: SocketAddress) -> Connection {
    Connection {
        id,
        host_name: tunnel.host_name@,
        tunnel_id: tunnel.id@,
        peer_address: socket_text(peer),
        target: match tunnel.role {
            TunnelRole::Proxy(_) => None,
            TunnelRole::Forward { host, port } => Some(place_text(target_at(host@, port))),
        },
        protocol: match tunnel.role {
            TunnelRole::Proxy(protocol) => protocol_word(protocol),
            TunnelRole::Forward { .. } => "TCP"@,
        },
        session_id: None,
    }
}

impl TunnelRegistration {
    /// Takes in a connection from `peer`.
    pub fn accept(&self, ids: &mut ConnectionIds, peer: SocketAddress) -> (r:
        ConnectionRegistration)
        ensures
            r.connection() == arrived(*self, old(ids).next, peer),
            final(ids).next == old(ids).next.wrapping_add(1),
    {
        let (target, protocol): (Option<String>, &'static str) = match &self.role {
            TunnelRole::Proxy(protocol) => (None, proxy_protocol_name(*protocol)),
            TunnelRole::Forward { host, port } => {
                let place = TargetAddr::from_host_port(host.as_str().to_owned(), *port);
                (Some(place.text()), "TCP")
            },
        };
        ConnectionRegistration {
            id: ids.next_connection_id(),
            host_name: self.host_name.as_str().to_owned(),
            tunnel_id: self.id.as_str().to_owned(),
            peer_address: peer.text(),
            target,
            protocol,
            session_id: None,
        }
    }
}

} // verus!
