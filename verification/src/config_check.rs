//! What makes a configuration valid.
use crate::address::SocketAddress;
use crate::config::{is_resolved, AppConfig, ConfigError, ConfigFault, EnvConfig, EnvProfileConfig,
    HostConfig, OverrideDefaultConfig, ProxyProtocol, ResolvedForwardConfig, ResolvedHostConfig,
    ResolvedProxyConfig, SshAuthConfig};
use crate::control::{read_endpoint, ControlEndpoint};
use crate::environment::Environment;
use crate::paths::HomePath;
use crate::named::{value_of, Named};
use crate::text;
use crate::text::{concat2, concat3, concat4, decimal, trimmed};
use vstd::prelude::*;

verus! {

/// Nothing but white space.
pub open spec fn is_blank(value: Seq<char>) -> bool {
    trimmed(value).len() == 0
}

/// A value that is given, and blank.
pub open spec fn given_blank(value: Option<String>) -> bool {
    value is Some && is_blank(value->0@)
}

fn blank(value: &str) -> (r: bool)
    ensures
        r == is_blank(value@),
{
    text::trim(value).unicode_len() == 0
}

fn blank_option(value: &Option<String>) -> (r: bool)
    ensures
        r == given_blank(*value),
{
    match value {
        Some(value) => blank(value.as_str()),
        None => false,
    }
}

// ---------------------------------------------------------------------------
// The settings of a host
// ---------------------------------------------------------------------------
/// What is wrong with how a user proves who they are.
pub open spec fn auth_fault(auth: Option<SshAuthConfig>) -> Option<Seq<char>> {
    match auth {
        Some(SshAuthConfig::PrivateKey { path, passphrase_env }) => if is_blank(path@)
            || given_blank(passphrase_env) {
            Some("private key path and passphrase environment name must not be empty"@)
        } else {
            None
        },
        Some(SshAuthConfig::Password { password_env }) => if is_blank(password_env@) {
            Some("password environment name must not be empty"@)
        } else {
            None
        },
        _ => None,
    }
}

/// What is first wrong with the settings of a host.
pub open spec fn settings_fault(host: ResolvedHostConfig) -> Option<Seq<char>> {
    if host.host is None && host.ssh_config_host is None {
        Some("either host or ssh-config-host must be configured"@)
    } else if given_blank(host.host) || given_blank(host.ssh_config_host) || given_blank(
        host.username,
    ) {
        Some("host, ssh-config-host and an explicitly configured username must not be empty"@)
    } else if host.port == Some(0u16) {
        Some("SSH port must be greater than zero"@)
    } else if host.keep_alive_secs == Some(0u64) || host.server_alive_count_max == Some(0u32) {
        Some("keep_alive_secs and server_alive_count_max must be greater than zero"@)
    } else if host.min_sessions == 0 || host.max_sessions < host.min_sessions {
        Some(
            "max_sessions must be greater than or equal to min_sessions, and both must be greater than zero"@,
        )
    } else if host.max_channels_per_session == 0 || host.restart_initial_millis == 0
        || host.restart_max_secs == 0 || host.session_spawn_cooldown_millis == 0
        || host.session_drain_timeout_secs == 0 || host.session_rotation_interval_secs == 0
        || host.connect_timeout_secs == Some(0u64) {
        Some("session capacity, timeout and restart settings must be greater than zero"@)
    } else if host.probe.fail_threshold == 0 || host.probe.recovery_threshold == 0 {
        Some("probe thresholds must be greater than zero"@)
    } else if given_blank(host.ssh_config_path) || given_blank(host.known_hosts_path) {
        Some("SSH config and known_hosts paths must not be empty"@)
    } else if host.ssh_config_path is Some && host.ssh_config_host is None {
        Some("ssh-config-path requires ssh-config-host"@)
    } else {
        auth_fault(host.auth)
    }
}

fn is_zero_port(value: Option<u16>) -> (r: bool)
    ensures
        r == (value == Some(0u16)),
{
    match value {
        Some(value) => value == 0,
        None => false,
    }
}

fn is_zero(value: Option<u64>) -> (r: bool)
    ensures
        r == (value == Some(0u64)),
{
    match value {
        Some(value) => value == 0,
        None => false,
    }
}

fn is_zero_count(value: Option<u32>) -> (r: bool)
    ensures
        r == (value == Some(0u32)),
{
    match value {
        Some(value) => value == 0,
        None => false,
    }
}

/// What is wrong with how a user proves who they are.
pub fn validate_auth(auth: &Option<SshAuthConfig>) -> (r: Option<&'static str>)
    ensures
        (match r {
            Some(reason) => auth_fault(*auth) == Some(reason@),
            None => auth_fault(*auth) is None,
        }),
{
    match auth {
        Some(SshAuthConfig::PrivateKey { path, passphrase_env }) => {
            if blank(path.as_str()) || blank_option(passphrase_env) {
                return Some("private key path and passphrase environment name must not be empty");
            }
            None
        },
        Some(SshAuthConfig::Password { password_env }) => {
            if blank(password_env.as_str()) {
                return Some("password environment name must not be empty");
            }
            None
        },
        _ => None,
    }
}

fn validate_settings(host: &ResolvedHostConfig) -> (r: Option<&'static str>)
    ensures
        (match r {
            Some(reason) => settings_fault(*host) == Some(reason@),
            None => settings_fault(*host) is None,
        }),
{
    if host.host.is_none() && host.ssh_config_host.is_none() {
        return Some("either host or ssh-config-host must be configured");
    }
    if blank_option(&host.host) || blank_option(&host.ssh_config_host) || blank_option(
        &host.username,
    ) {
        return Some(
            "host, ssh-config-host and an explicitly configured username must not be empty",
        );
    }
    if is_zero_port(host.port) {
        return Some("SSH port must be greater than zero");
    }
    if is_zero(host.keep_alive_secs) || is_zero_count(host.server_alive_count_max) {
        return Some("keep_alive_secs and server_alive_count_max must be greater than zero");
    }
    if host.min_sessions == 0 || host.max_sessions < host.min_sessions {
        return Some(
            "max_sessions must be greater than or equal to min_sessions, and both must be greater than zero",
        );
    }
    if host.max_channels_per_session == 0 || host.restart_initial_millis == 0
        || host.restart_max_secs == 0 || host.session_spawn_cooldown_millis == 0
        || host.session_drain_timeout_secs == 0 || host.session_rotation_interval_secs == 0
        || is_zero(host.connect_timeout_secs) {
        return Some("session capacity, timeout and restart settings must be greater than zero");
    }
    if host.probe.fail_threshold == 0 || host.probe.recovery_threshold == 0 {
        return Some("probe thresholds must be greater than zero");
    }
    if blank_option(&host.ssh_config_path) || blank_option(&host.known_hosts_path) {
        return Some("SSH config and known_hosts paths must not be empty");
    }
    if host.ssh_config_path.is_some() && host.ssh_config_host.is_none() {
        return Some("ssh-config-path requires ssh-config-host");
    }
    validate_auth(&host.auth)
}

// ---------------------------------------------------------------------------
// The tunnels of a host
// ---------------------------------------------------------------------------
/// What is wrong with a proxy by itself.
pub open spec fn proxy_fault(proxy: ResolvedProxyConfig, kind: Seq<char>) -> Option<Seq<char>> {
    if proxy.listen.port == 0 {
        Some(kind + " listen port must be non-zero"@)
    } else if given_blank(proxy.name) {
        Some(kind + " name must not be empty"@)
    } else if proxy.mixed && proxy.protocol is Some && proxy.protocol->0 != ProxyProtocol::Mixed {
        Some(kind + " cannot combine mixed: true with a non-mixed protocol"@)
    } else {
        None
    }
}

/// What is wrong with a proxy beside tunnels that are named `names`.
pub open spec fn named_proxy_fault(
    proxy: ResolvedProxyConfig,
    kind: Seq<char>,
    names: Seq<Seq<char>>,
) -> Option<Seq<char>> {
    match proxy_fault(proxy, kind) {
        Some(reason) => Some(reason),
        None => if proxy.name is Some && names.contains(proxy.name->0@) {
            Some("duplicate forward name "@ + proxy.name->0@)
        } else {
            None
        },
    }
}

/// What is wrong with a forward beside tunnels that are named `names`.
pub open spec fn named_forward_fault(
    forward: ResolvedForwardConfig,
    kind: Seq<char>,
    names: Seq<Seq<char>>,
) -> Option<Seq<char>> {
    if forward.listen.port == 0 {
        Some(kind + " listen port must be non-zero"@)
    } else if forward.name is Some && (is_blank(forward.name->0@) || names.contains(
        forward.name->0@,
    )) {
        Some("invalid or duplicate forward name "@ + forward.name->0@)
    } else {
        None
    }
}

/// `names` and the name of one more tunnel.
pub open spec fn with_name(names: Seq<Seq<char>>, name: Option<String>) -> Seq<Seq<char>> {
    match name {
        Some(name) => names.push(name@),
        None => names,
    }
}

/// What is first wrong with the proxies of a list, from `from` on; where nothing is, the names
/// of all tunnels so far.
pub open spec fn proxies_check(
    list: Seq<ResolvedProxyConfig>,
    kind: Seq<char>,
    from: int,
    names: Seq<Seq<char>>,
) -> Result<Seq<Seq<char>>, Seq<char>>
    decreases list.len() - from,
{
    if from >= list.len() {
        Ok(names)
    } else {
        match named_proxy_fault(list[from], kind, names) {
            Some(reason) => Err(reason),
            None => proxies_check(list, kind, from + 1, with_name(names, list[from].name)),
        }
    }
}

/// What is first wrong with the forwards of a list, from `from` on; where nothing is, the names
/// of all tunnels so far.
pub open spec fn forwards_check(
    list: Seq<ResolvedForwardConfig>,
    kind: Seq<char>,
    from: int,
    names: Seq<Seq<char>>,
) -> Result<Seq<Seq<char>>, Seq<char>>
    decreases list.len() - from,
{
    if from >= list.len() {
        Ok(names)
    } else {
        match named_forward_fault(list[from], kind, names) {
            Some(reason) => Err(reason),
            None => forwards_check(list, kind, from + 1, with_name(names, list[from].name)),
        }
    }
}

/// What is first wrong with the tunnels of a host; where nothing is, their names.
pub open spec fn tunnels_check(host: ResolvedHostConfig) -> Result<Seq<Seq<char>>, Seq<char>> {
    match proxies_check(host.local_proxies@, "local proxy"@, 0, Seq::empty()) {
        Err(reason) => Err(reason),
        Ok(names) => match proxies_check(host.remote_proxies@, "remote proxy"@, 0, names) {
            Err(reason) => Err(reason),
            Ok(names) => match forwards_check(
                host.local_forwards@,
                "local forward"@,
                0,
                names,
            ) {
                Err(reason) => Err(reason),
                Ok(names) => forwards_check(host.remote_forwards@, "remote forward"@, 0, names),
            },
        },
    }
}

/// What is wrong with a proxy by itself.
pub fn validate_proxy(proxy: &ResolvedProxyConfig, kind: &str) -> (r: Option<String>)
    ensures
        (match r {
            Some(reason) => proxy_fault(*proxy, kind@) == Some(reason@),
            None => proxy_fault(*proxy, kind@) is None,
        }),
{
    if proxy.listen.port == 0 {
        return Some(concat2(kind, " listen port must be non-zero"));
    }
    if blank_option(&proxy.name) {
        return Some(concat2(kind, " name must not be empty"));
    }
    if proxy.mixed {
        match proxy.protocol {
            Some(protocol) => if protocol != ProxyProtocol::Mixed {
                return Some(
                    concat2(kind, " cannot combine mixed: true with a non-mixed protocol"),
                );
            },
            None => {},
        }
    }
    None
}

fn add_name(names: &mut Vec<String>, name: &Option<String>)
    ensures
        text::texts(final(names)@) == with_name(text::texts(old(names)@), *name),
{
    match name {
        Some(name) => {
            let ghost before = names@;
            names.push(name.clone());
            assert(text::texts(names@) =~= text::texts(before).push(name@));
        },
        None => {},
    }
}

fn validate_proxies(
    list: &Vec<ResolvedProxyConfig>,
    kind: &str,
    names: &mut Vec<String>,
) -> (r: Option<String>)
    ensures
        (match r {
            Some(reason) => proxies_check(list@, kind@, 0, text::texts(old(names)@))
                == Err::<Seq<Seq<char>>, _>(reason@),
            None => proxies_check(list@, kind@, 0, text::texts(old(names)@))
                == Ok::<_, Seq<char>>(text::texts(final(names)@)),
        }),
{
    let ghost start = text::texts(names@);
    for i in 0..list.len()
        invariant
            start == text::texts(old(names)@),
            proxies_check(list@, kind@, 0, start) == proxies_check(
                list@,
                kind@,
                i as int,
                text::texts(names@),
            ),
    {
        match validate_proxy(&list[i], kind) {
            Some(reason) => {
                return Some(reason);
            },
            None => {},
        }
        match &list[i].name {
            Some(name) => {
                if text::contains_text(names, name.as_str()) {
                    return Some(concat2("duplicate forward name ", name.as_str()));
                }
            },
            None => {},
        }
        add_name(names, &list[i].name);
    }
    None
}

fn validate_forwards(
    list: &Vec<ResolvedForwardConfig>,
    kind: &str,
    names: &mut Vec<String>,
) -> (r: Option<String>)
    ensures
        (match r {
            Some(reason) => forwards_check(list@, kind@, 0, text::texts(old(names)@))
                == Err::<Seq<Seq<char>>, _>(reason@),
            None => forwards_check(list@, kind@, 0, text::texts(old(names)@))
                == Ok::<_, Seq<char>>(text::texts(final(names)@)),
        }),
{
    let ghost start = text::texts(names@);
    for i in 0..list.len()
        invariant
            start == text::texts(old(names)@),
            forwards_check(list@, kind@, 0, start) == forwards_check(
                list@,
                kind@,
                i as int,
                text::texts(names@),
            ),
    {
        if list[i].listen.port == 0 {
            return Some(concat2(kind, " listen port must be non-zero"));
        }
        match &list[i].name {
            Some(name) => {
                if blank(name.as_str()) || text::contains_text(names, name.as_str()) {
                    return Some(concat2("invalid or duplicate forward name ", name.as_str()));
                }
            },
            None => {},
        }
        add_name(names, &list[i].name);
    }
    None
}

fn validate_tunnels(host: &ResolvedHostConfig) -> (r: Option<String>)
    ensures
        (match r {
            Some(reason) => tunnels_check(*host) == Err::<Seq<Seq<char>>, _>(reason@),
            None => tunnels_check(*host) is Ok,
        }),
{
    let mut names: Vec<String> = Vec::new();
    assert(text::texts(names@) =~= Seq::<Seq<char>>::empty());
    match validate_proxies(&host.local_proxies, "local proxy", &mut names) {
        Some(reason) => {
            return Some(reason);
        },
        None => {},
    }
    match validate_proxies(&host.remote_proxies, "remote proxy", &mut names) {
        Some(reason) => {
            return Some(reason);
        },
        None => {},
    }
    match validate_forwards(&host.local_forwards, "local forward", &mut names) {
        Some(reason) => {
            return Some(reason);
        },
        None => {},
    }
    validate_forwards(&host.remote_forwards, "remote forward", &mut names)
}

// ---------------------------------------------------------------------------
// Where tunnels listen
// ---------------------------------------------------------------------------
/// Where the proxies of a list that start by themselves listen.
pub open spec fn proxy_listens(list: Seq<ResolvedProxyConfig>) -> Seq<SocketAddress>
    decreases list.len(),
{
    if list.len() == 0 {
        Seq::empty()
    } else if list.last().auto {
        proxy_listens(list.drop_last()).push(list.last().listen)
    } else {
        proxy_listens(list.drop_last())
    }
}

/// Where the forwards of a list that start by themselves listen.
pub open spec fn forward_listens(list: Seq<ResolvedForwardConfig>) -> Seq<SocketAddress>
    decreases list.len(),
{
    if list.len() == 0 {
        Seq::empty()
    } else if list.last().auto {
        forward_listens(list.drop_last()).push(list.last().listen)
    } else {
        forward_listens(list.drop_last())
    }
}

/// Where a host listens on this machine.
pub open spec fn local_listens(host: ResolvedHostConfig) -> Seq<SocketAddress> {
    proxy_listens(host.local_proxies@) + forward_listens(host.local_forwards@)
}

/// Where a host listens on its own side.
pub open spec fn remote_listens(host: ResolvedHostConfig) -> Seq<SocketAddress> {
    proxy_listens(host.remote_proxies@) + forward_listens(host.remote_forwards@)
}

/// The addresses that are taken once `listens`, from `from` on, are taken too, up to the first
/// of them that was taken already; and that one.
pub open spec fn take_listens(
    taken: Seq<SocketAddress>,
    listens: Seq<SocketAddress>,
    from: int,
) -> (Seq<SocketAddress>, Option<SocketAddress>)
    decreases listens.len() - from,
{
    if from >= listens.len() {
        (taken, None)
    } else if taken.contains(listens[from]) {
        (taken, Some(listens[from]))
    } else {
        take_listens(taken.push(listens[from]), listens, from + 1)
    }
}

/// The first port of `listens`, from `from` on, that is among `ports` or before it.
pub open spec fn repeated_port(
    ports: Seq<u16>,
    listens: Seq<SocketAddress>,
    from: int,
) -> Option<u16>
    decreases listens.len() - from,
{
    if from >= listens.len() {
        None
    } else if ports.contains(listens[from].port) {
        Some(listens[from].port)
    } else {
        repeated_port(ports.push(listens[from].port), listens, from + 1)
    }
}

fn collect_listens(
    proxies: &Vec<ResolvedProxyConfig>,
    forwards: &Vec<ResolvedForwardConfig>,
) -> (r: Vec<SocketAddress>)
    ensures
        r@ == proxy_listens(proxies@) + forward_listens(forwards@),
{
    let mut r: Vec<SocketAddress> = Vec::new();
    for i in 0..proxies.len()
        invariant
            r@ == proxy_listens(proxies@.take(i as int)),
    {
        assert(proxies@.take(i + 1).drop_last() == proxies@.take(i as int));
        if proxies[i].auto {
            r.push(proxies[i].listen);
        }
    }
    assert(proxies@.take(proxies@.len() as int) == proxies@);
    assert(r@ =~= proxy_listens(proxies@) + forward_listens(forwards@.take(0)));
    for i in 0..forwards.len()
        invariant
            r@ == proxy_listens(proxies@) + forward_listens(forwards@.take(i as int)),
    {
        assert(forwards@.take(i + 1).drop_last() == forwards@.take(i as int));
        if forwards[i].auto {
            r.push(forwards[i].listen);
        }
        assert(r@ =~= proxy_listens(proxies@) + forward_listens(forwards@.take(i + 1)));
    }
    assert(forwards@.take(forwards@.len() as int) == forwards@);
    r
}

fn contains_listen(list: &Vec<SocketAddress>, listen: SocketAddress) -> (r: bool)
    ensures
        r == list@.contains(listen),
{
    for i in 0..list.len()
        invariant
            forall|j: int| 0 <= j < i ==> list@[j] != listen,
    {
        if list[i] == listen {
            return true;
        }
    }
    false
}

fn contains_port(list: &Vec<u16>, port: u16) -> (r: bool)
    ensures
        r == list@.contains(port),
{
    for i in 0..list.len()
        invariant
            forall|j: int| 0 <= j < i ==> list@[j] != port,
    {
        if list[i] == port {
            return true;
        }
    }
    false
}

fn claim_listens(taken: &mut Vec<SocketAddress>, listens: &Vec<SocketAddress>) -> (r: Option<
    SocketAddress,
>)
    ensures
        (final(taken)@, r) == take_listens(old(taken)@, listens@, 0),
{
    let ghost start = taken@;
    for i in 0..listens.len()
        invariant
            start == old(taken)@,
            take_listens(start, listens@, 0) == take_listens(taken@, listens@, i as int),
    {
        if contains_listen(taken, listens[i]) {
            return Some(listens[i]);
        }
        taken.push(listens[i]);
    }
    None
}

fn find_repeated_port(listens: &Vec<SocketAddress>) -> (r: Option<u16>)
    ensures
        r == repeated_port(Seq::empty(), listens@, 0),
{
    let mut ports: Vec<u16> = Vec::new();
    for i in 0..listens.len()
        invariant
            repeated_port(Seq::empty(), listens@, 0) == repeated_port(
                ports@,
                listens@,
                i as int,
            ),
    {
        if contains_port(&ports, listens[i].port) {
            return Some(listens[i].port);
        }
        ports.push(listens[i].port);
    }
    None
}

// ---------------------------------------------------------------------------
// A host
// ---------------------------------------------------------------------------
/// The local addresses that are taken once the host has taken its own, and what is first wrong
/// with the host.
pub open spec fn host_check(
    name: Seq<char>,
    host: ResolvedHostConfig,
    taken: Seq<SocketAddress>,
) -> (Seq<SocketAddress>, Option<ConfigFault>) {
    match settings_fault(host) {
        Some(reason) => (taken, Some(ConfigFault::InvalidHostConfig { host: name, reason })),
        None => match tunnels_check(host) {
            Err(reason) => (taken, Some(ConfigFault::InvalidHostConfig { host: name, reason })),
            Ok(_) => {
                let (claimed, repeated) = take_listens(taken, local_listens(host), 0);
                match repeated {
                    Some(listen) => (claimed, Some(ConfigFault::DuplicateLocalListen(listen))),
                    None => match repeated_port(Seq::empty(), remote_listens(host), 0) {
                        Some(port) => (
                            claimed,
                            Some(
                                ConfigFault::InvalidHostConfig {
                                    host: name,
                                    reason: "duplicate remote listen port "@ + decimal(
                                        port as nat,
                                    ),
                                },
                            ),
                        ),
                        None => (claimed, None),
                    },
                }
            },
        },
    }
}

/// Whether `r` tells the fault.
pub open spec fn tells(r: Result<(), ConfigError>, fault: Option<ConfigFault>) -> bool {
    match r {
        Ok(_) => fault is None,
        Err(error) => fault == Some(error.fault()),
    }
}

/// Checks a host whose local addresses must not be among `local_listens`, and adds them there.
pub fn validate_host(
    host_name: &str,
    host: &ResolvedHostConfig,
    local_listens: &mut Vec<SocketAddress>,
) -> (r: Result<(), ConfigError>)
    ensures
        final(local_listens)@ == host_check(host_name@, *host, old(local_listens)@).0,
        tells(r, host_check(host_name@, *host, old(local_listens)@).1),
{
    match validate_settings(host) {
        Some(reason) => {
            return Err(
                ConfigError::InvalidHostConfig {
                    host: host_name.to_owned(),
                    reason: reason.to_owned(),
                },
            );
        },
        None => {},
    }
    match validate_tunnels(host) {
        Some(reason) => {
            return Err(
                ConfigError::InvalidHostConfig { host: host_name.to_owned(), reason },
            );
        },
        None => {},
    }
    let listens = collect_listens(&host.local_proxies, &host.local_forwards);
    match claim_listens(local_listens, &listens) {
        Some(listen) => {
            return Err(ConfigError::DuplicateLocalListen(listen));
        },
        None => {},
    }
    let remote = collect_listens(&host.remote_proxies, &host.remote_forwards);
    match find_repeated_port(&remote) {
        Some(port) => Err(
            ConfigError::InvalidHostConfig {
                host: host_name.to_owned(),
                reason: concat2(
                    "duplicate remote listen port ",
                    text::decimal_text(port as u64).as_str(),
                ),
            },
        ),
        None => Ok(()),
    }
}

// ---------------------------------------------------------------------------
// Child processes
// ---------------------------------------------------------------------------
/// What is wrong with a profile.
pub open spec fn profile_fault(profile: Named<EnvProfileConfig>) -> Option<Seq<char>> {
    if is_blank(profile.name@) {
        Some("profile name must not be empty"@)
    } else if given_blank(profile.value.host) {
        Some("profile "@ + profile.name@ + " has an empty "@ + "host"@)
    } else if given_blank(profile.value.tunnel) {
        Some("profile "@ + profile.name@ + " has an empty "@ + "tunnel"@)
    } else {
        None
    }
}

/// What is first wrong with the profiles of a list, from `from` on.
pub open spec fn profiles_fault(
    profiles: Seq<Named<EnvProfileConfig>>,
    from: int,
) -> Option<Seq<char>>
    decreases profiles.len() - from,
{
    if from >= profiles.len() {
        None
    } else {
        match profile_fault(profiles[from]) {
            Some(reason) => Some(reason),
            None => profiles_fault(profiles, from + 1),
        }
    }
}

/// What is first wrong with how child processes are told of proxies.
pub open spec fn env_fault(env: EnvConfig) -> Option<Seq<char>> {
    if given_blank(env.default) {
        Some("default profile name must not be empty"@)
    } else if env.default is Some && value_of(env.profiles.entries@, env.default->0@) is None {
        Some("default profile "@ + env.default->0@ + " is not defined"@)
    } else {
        profiles_fault(env.profiles.entries@, 0)
    }
}

impl EnvConfig {
    /// Checks how child processes are told of proxies.
    pub fn validate(&self) -> (r: Result<(), ConfigError>)
        ensures
            (match r {
                Ok(_) => env_fault(*self) is None,
                Err(error) => env_fault(*self) is Some && error.fault()
                    == ConfigFault::InvalidEnvConfig(env_fault(*self)->0),
            }),
    {
        match &self.default {
            Some(default) => {
                if blank(default.as_str()) {
                    return Err(
                        ConfigError::InvalidEnvConfig(
                            "default profile name must not be empty".to_owned(),
                        ),
                    );
                }
                if self.profiles.get(default.as_str()).is_none() {
                    return Err(
                        ConfigError::InvalidEnvConfig(
                            concat3("default profile ", default.as_str(), " is not defined"),
                        ),
                    );
                }
            },
            None => {},
        }
        for i in 0..self.profiles.entries.len()
            invariant
                !given_blank(self.default),
                self.default is Some ==> value_of(
                    self.profiles.entries@,
                    self.default->0@,
                ) is Some,
                env_fault(*self) == profiles_fault(self.profiles.entries@, i as int),
        {
            let name = self.profiles.entries[i].name.as_str();
            if blank(name) {
                return Err(
                    ConfigError::InvalidEnvConfig("profile name must not be empty".to_owned()),
                );
            }
            if blank_option(&self.profiles.entries[i].value.host) {
                return Err(
                    ConfigError::InvalidEnvConfig(
                        concat4("profile ", name, " has an empty ", "host"),
                    ),
                );
            }
            if blank_option(&self.profiles.entries[i].value.tunnel) {
                return Err(
                    ConfigError::InvalidEnvConfig(
                        concat4("profile ", name, " has an empty ", "tunnel"),
                    ),
                );
            }
        }
        Ok(())
    }
}

// ---------------------------------------------------------------------------
// The whole
// ---------------------------------------------------------------------------
/// The host with nothing left out.
pub open spec fn resolved_host(
    host: HostConfig,
    defaults: OverrideDefaultConfig,
) -> ResolvedHostConfig {
    choose|resolved: ResolvedHostConfig| is_resolved(host, defaults, resolved)
}

/// The local addresses that are taken once the hosts of a list, from `from` on, have taken
/// theirs, and what is first wrong with these hosts. A host that does not start by itself is
/// not looked at beyond its name.
pub open spec fn hosts_check(
    hosts: Seq<Named<HostConfig>>,
    defaults: OverrideDefaultConfig,
    from: int,
    taken: Seq<SocketAddress>,
) -> (Seq<SocketAddress>, Option<ConfigFault>)
    decreases hosts.len() - from,
{
    if from >= hosts.len() {
        (taken, None)
    } else {
        let name = hosts[from].name@;
        let host = resolved_host(hosts[from].value, defaults);
        if is_blank(name) {
            (
                taken,
                Some(
                    ConfigFault::InvalidHostConfig {
                        host: name,
                        reason: "host name must not be empty"@,
                    },
                ),
            )
        } else if !host.auto {
            hosts_check(hosts, defaults, from + 1, taken)
        } else {
            let (claimed, fault) = host_check(name, host, taken);
            if fault is Some {
                (claimed, fault)
            } else {
                hosts_check(hosts, defaults, from + 1, claimed)
            }
        }
    }
}

/// What is first wrong with a configuration; `home` is the user's home directory.
pub open spec fn config_fault(config: AppConfig, home: HomePath) -> Option<ConfigFault> {
    let endpoint = match config.control.endpoint {
        Some(value) => match read_endpoint(value@, home) {
            Ok(_) => None,
            Err(message) => Some(message),
        },
        None => None,
    };
    if endpoint is Some {
        Some(ConfigFault::InvalidControlEndpoint(endpoint->0))
    } else if env_fault(config.env) is Some {
        Some(ConfigFault::InvalidEnvConfig(env_fault(config.env)->0))
    } else if config.hosts.entries@.len() == 0 {
        Some(ConfigFault::EmptyHosts)
    } else {
        hosts_check(config.hosts.entries@, config.override_default, 0, Seq::empty()).1
    }
}

/// What a host is with nothing left out does not depend on who fills it in.
pub proof fn resolution_is_unique(
    host: HostConfig,
    defaults: OverrideDefaultConfig,
    a: ResolvedHostConfig,
    b: ResolvedHostConfig,
    name: Seq<char>,
    taken: Seq<SocketAddress>,
)
    requires
        is_resolved(host, defaults, a),
        is_resolved(host, defaults, b),
    ensures
        a.auto == b.auto,
        host_check(name, a, taken) == host_check(name, b, taken),
{
    assert(settings_fault(a) == settings_fault(b));
    assert(tunnels_check(a) == tunnels_check(b));
}

fn validate_hosts(
    hosts: &Vec<Named<HostConfig>>,
    defaults: &OverrideDefaultConfig,
) -> (r: Result<(), ConfigError>)
    ensures
        tells(r, hosts_check(hosts@, *defaults, 0, Seq::empty()).1),
{
    let mut listens: Vec<SocketAddress> = Vec::new();
    for i in 0..hosts.len()
        invariant
            hosts_check(hosts@, *defaults, 0, Seq::empty()) == hosts_check(
                hosts@,
                *defaults,
                i as int,
                listens@,
            ),
    {
        let name = hosts[i].name.as_str();
        if blank(name) {
            return Err(
                ConfigError::InvalidHostConfig {
                    host: name.to_owned(),
                    reason: "host name must not be empty".to_owned(),
                },
            );
        }
        let host = hosts[i].value.resolve(defaults);
        proof {
            resolution_is_unique(
                hosts@[i as int].value,
                *defaults,
                host,
                resolved_host(hosts@[i as int].value, *defaults),
                name@,
                listens@,
            );
        }
        if host.auto {
            match validate_host(name, &host, &mut listens) {
                Ok(_) => {},
                Err(error) => {
                    return Err(error);
                },
            }
        }
    }
    Ok(())
}

impl AppConfig {
    /// Checks the configuration.
    pub fn validate(&self, environment: &Environment) -> (r: Result<(), ConfigError>)
        ensures
            tells(r, config_fault(*self, environment.home_place())),
    {
        match &self.control.endpoint {
            Some(value) => {
                match ControlEndpoint::parse(value.as_str(), &environment.user_home()) {
                    Ok(_) => {},
                    Err(message) => {
                        return Err(ConfigError::InvalidControlEndpoint(message));
                    },
                }
            },
            None => {},
        }
        match self.env.validate() {
            Ok(_) => {},
            Err(error) => {
                return Err(error);
            },
        }
        if self.hosts.entries.len() == 0 {
            return Err(ConfigError::EmptyHosts);
        }
        validate_hosts(&self.hosts.entries, &self.override_default)
    }
}

// ---------------------------------------------------------------------------
// What a valid configuration is worth
// ---------------------------------------------------------------------------
/// Where the hosts of a list that start by themselves listen on this machine, from `from` on.
pub open spec fn all_local_listens(
    hosts: Seq<Named<HostConfig>>,
    defaults: OverrideDefaultConfig,
    from: int,
) -> Seq<SocketAddress>
    decreases hosts.len() - from,
{
    if from >= hosts.len() {
        Seq::empty()
    } else {
        let host = resolved_host(hosts[from].value, defaults);
        let rest = all_local_listens(hosts, defaults, from + 1);
        if host.auto {
            local_listens(host) + rest
        } else {
            rest
        }
    }
}

proof fn lemma_take_listens(taken: Seq<SocketAddress>, listens: Seq<SocketAddress>, from: int)
    requires
        0 <= from <= listens.len(),
        take_listens(taken, listens, from).1 is None,
        taken.no_duplicates(),
    ensures
        take_listens(taken, listens, from).0 == taken + listens.skip(from),
        take_listens(taken, listens, from).0.no_duplicates(),
    decreases listens.len() - from,
{
    if from < listens.len() {
        let next = taken.push(listens[from]);
        assert(next.no_duplicates());
        lemma_take_listens(next, listens, from + 1);
        assert(next + listens.skip(from + 1) =~= taken + listens.skip(from));
    } else {
        assert(taken + listens.skip(from) =~= taken);
    }
}

proof fn lemma_hosts_listen_once(
    hosts: Seq<Named<HostConfig>>,
    defaults: OverrideDefaultConfig,
    from: int,
    taken: Seq<SocketAddress>,
)
    requires
        0 <= from <= hosts.len(),
        taken.no_duplicates(),
        hosts_check(hosts, defaults, from, taken).1 is None,
    ensures
        (taken + all_local_listens(hosts, defaults, from)).no_duplicates(),
    decreases hosts.len() - from,
{
    if from < hosts.len() {
        let host = resolved_host(hosts[from].value, defaults);
        let rest = all_local_listens(hosts, defaults, from + 1);
        if host.auto {
            let listens = local_listens(host);
            lemma_take_listens(taken, listens, 0);
            assert(listens.skip(0) =~= listens);
            lemma_hosts_listen_once(hosts, defaults, from + 1, taken + listens);
            assert(taken + listens + rest =~= taken + (listens + rest));
        } else {
            lemma_hosts_listen_once(hosts, defaults, from + 1, taken);
        }
    } else {
        assert(taken + all_local_listens(hosts, defaults, from) =~= taken);
    }
}

/// In a valid configuration no two tunnels that start by themselves, of whatever hosts, listen
/// at the same address of this machine.
pub proof fn valid_configuration_listens_once(config: AppConfig, home: HomePath)
    requires
        config_fault(config, home) is None,
    ensures
        all_local_listens(config.hosts.entries@, config.override_default, 0).no_duplicates(),
{
    let listens = all_local_listens(config.hosts.entries@, config.override_default, 0);
    lemma_hosts_listen_once(
        config.hosts.entries@,
        config.override_default,
        0,
        Seq::empty(),
    );
    assert(Seq::<SocketAddress>::empty() + listens =~= listens);
}

proof fn lemma_repeated_port(ports: Seq<u16>, listens: Seq<SocketAddress>, from: int)
    requires
        0 <= from <= listens.len(),
        repeated_port(ports, listens, from) is None,
    ensures
        forall|j: int|
            from <= j < listens.len() ==> !ports.contains(#[trigger] listens[j].port),
        forall|i: int, j: int|
            from <= i < j < listens.len() ==> #[trigger] listens[i].port
                != #[trigger] listens[j].port,
    decreases listens.len() - from,
{
    if from < listens.len() {
        let next = ports.push(listens[from].port);
        lemma_repeated_port(next, listens, from + 1);
        assert(next[ports.len() as int] == listens[from].port);
        assert forall|j: int| from <= j < listens.len() implies !ports.contains(
            #[trigger] listens[j].port,
        ) by {
            if ports.contains(listens[j].port) {
                let k = ports.index_of(listens[j].port);
                assert(next[k] == listens[j].port);
            }
        }
    }
}

/// A valid host asks its own side for no port twice.
pub proof fn valid_host_listens_once_remotely(
    name: Seq<char>,
    host: ResolvedHostConfig,
    taken: Seq<SocketAddress>,
)
    requires
        host_check(name, host, taken).1 is None,
    ensures
        forall|i: int, j: int|
            0 <= i < j < remote_listens(host).len() ==> #[trigger] remote_listens(host)[i].port
                != #[trigger] remote_listens(host)[j].port,
{
    lemma_repeated_port(Seq::empty(), remote_listens(host), 0);
}

proof fn lemma_proxy_names(
    list: Seq<ResolvedProxyConfig>,
    kind: Seq<char>,
    from: int,
    names: Seq<Seq<char>>,
)
    requires
        0 <= from <= list.len(),
        names.no_duplicates(),
        proxies_check(list, kind, from, names) is Ok,
    ensures
        proxies_check(list, kind, from, names)->Ok_0.no_duplicates(),
        names.is_prefix_of(proxies_check(list, kind, from, names)->Ok_0),
        forall|i: int|
            from <= i < list.len() && (#[trigger] list[i]).name is Some ==> proxies_check(
                list,
                kind,
                from,
                names,
            )->Ok_0.contains(list[i].name->0@),
    decreases list.len() - from,
{
    if from < list.len() {
        let next = with_name(names, list[from].name);
        assert(next.no_duplicates());
        lemma_proxy_names(list, kind, from + 1, next);
        let all = proxies_check(list, kind, from + 1, next)->Ok_0;
        if list[from].name is Some {
            assert(all[names.len() as int] == next[names.len() as int]);
        }
        assert(names.is_prefix_of(next));
    }
}

proof fn lemma_forward_names(
    list: Seq<ResolvedForwardConfig>,
    kind: Seq<char>,
    from: int,
    names: Seq<Seq<char>>,
)
    requires
        0 <= from <= list.len(),
        names.no_duplicates(),
        forwards_check(list, kind, from, names) is Ok,
    ensures
        forwards_check(list, kind, from, names)->Ok_0.no_duplicates(),
        names.is_prefix_of(forwards_check(list, kind, from, names)->Ok_0),
        forall|i: int|
            from <= i < list.len() && (#[trigger] list[i]).name is Some ==> forwards_check(
                list,
                kind,
                from,
                names,
            )->Ok_0.contains(list[i].name->0@),
    decreases list.len() - from,
{
    if from < list.len() {
        let next = with_name(names, list[from].name);
        assert(next.no_duplicates());
        lemma_forward_names(list, kind, from + 1, next);
        let all = forwards_check(list, kind, from + 1, next)->Ok_0;
        if list[from].name is Some {
            assert(all[names.len() as int] == next[names.len() as int]);
        }
        assert(names.is_prefix_of(next));
    }
}

/// The tunnels of a valid host that have names have distinct ones.
pub proof fn valid_host_names_tunnels_apart(
    name: Seq<char>,
    host: ResolvedHostConfig,
    taken: Seq<SocketAddress>,
)
    requires
        host_check(name, host, taken).1 is None,
    ensures
        tunnels_check(host) is Ok,
        tunnels_check(host)->Ok_0.no_duplicates(),
{
    let none = Seq::<Seq<char>>::empty();
    lemma_proxy_names(host.local_proxies@, "local proxy"@, 0, none);
    let first = proxies_check(host.local_proxies@, "local proxy"@, 0, none)->Ok_0;
    lemma_proxy_names(host.remote_proxies@, "remote proxy"@, 0, first);
    let second = proxies_check(host.remote_proxies@, "remote proxy"@, 0, first)->Ok_0;
    lemma_forward_names(host.local_forwards@, "local forward"@, 0, second);
    let third = forwards_check(host.local_forwards@, "local forward"@, 0, second)->Ok_0;
    lemma_forward_names(host.remote_forwards@, "remote forward"@, 0, third);
}

// ---------------------------------------------------------------------------
// What is valid
// ---------------------------------------------------------------------------
/// A text of at least one character that is no white space.
pub open spec fn has_ink(value: Seq<char>) -> bool {
    exists|i: int| 0 <= i < value.len() && !text::is_white_space(#[trigger] value[i])
}

/// A text is blank just where every character of it is white space.
pub proof fn blank_texts_have_no_ink(value: Seq<char>)
    ensures
        is_blank(value) <==> !has_ink(value),
    decreases value.len(),
{
    if value.len() > 0 {
        if text::is_white_space(value[0]) {
            let rest = value.drop_first();
            blank_texts_have_no_ink(rest);
            if has_ink(value) {
                let i = choose|i: int|
                    0 <= i < value.len() && !text::is_white_space(#[trigger] value[i]);
                assert(rest[i - 1] == value[i]);
            }
            if has_ink(rest) {
                let i = choose|i: int|
                    0 <= i < rest.len() && !text::is_white_space(#[trigger] rest[i]);
                assert(value[i + 1] == rest[i]);
            }
        } else {
            lemma_trim_end_keeps_first(value);
        }
    }
}

proof fn lemma_trim_end_keeps_first(value: Seq<char>)
    requires
        value.len() > 0,
        !text::is_white_space(value[0]),
    ensures
        text::trim_end_of(text::CharClass::WhiteSpace, value).len() > 0,
    decreases value.len(),
{
    if text::is_white_space(value.last()) {
        assert(value.len() > 1);
        assert(value.drop_last()[0] == value[0]);
        lemma_trim_end_keeps_first(value.drop_last());
    }
}

/// The settings of a host are right just where it is named, no name or path that is given is
/// blank, no number that counts is zero, and the pool can hold as many sessions as it must.
pub proof fn right_settings(host: ResolvedHostConfig)
    ensures
        settings_fault(host) is None <==> {
            &&& host.host is Some || host.ssh_config_host is Some
            &&& host.host is Some ==> has_ink(host.host->0@)
            &&& host.ssh_config_host is Some ==> has_ink(host.ssh_config_host->0@)
            &&& host.username is Some ==> has_ink(host.username->0@)
            &&& host.port != Some(0u16)
            &&& host.keep_alive_secs != Some(0u64)
            &&& host.server_alive_count_max != Some(0u32)
            &&& 1 <= host.min_sessions <= host.max_sessions
            &&& host.max_channels_per_session >= 1
            &&& host.restart_initial_millis >= 1
            &&& host.restart_max_secs >= 1
            &&& host.session_spawn_cooldown_millis >= 1
            &&& host.session_drain_timeout_secs >= 1
            &&& host.session_rotation_interval_secs >= 1
            &&& host.connect_timeout_secs != Some(0u64)
            &&& host.probe.fail_threshold >= 1
            &&& host.probe.recovery_threshold >= 1
            &&& host.ssh_config_path is Some ==> has_ink(host.ssh_config_path->0@)
                && host.ssh_config_host is Some
            &&& host.known_hosts_path is Some ==> has_ink(host.known_hosts_path->0@)
            &&& match host.auth {
                Some(SshAuthConfig::PrivateKey { path, passphrase_env }) => has_ink(path@) && (
                passphrase_env is Some ==> has_ink(passphrase_env->0@)),
                Some(SshAuthConfig::Password { password_env }) => has_ink(password_env@),
                _ => true,
            }
        },
{
    if host.host is Some {
        blank_texts_have_no_ink(host.host->0@);
    }
    if host.ssh_config_host is Some {
        blank_texts_have_no_ink(host.ssh_config_host->0@);
    }
    if host.username is Some {
        blank_texts_have_no_ink(host.username->0@);
    }
    if host.ssh_config_path is Some {
        blank_texts_have_no_ink(host.ssh_config_path->0@);
    }
    if host.known_hosts_path is Some {
        blank_texts_have_no_ink(host.known_hosts_path->0@);
    }
    match host.auth {
        Some(SshAuthConfig::PrivateKey { path, passphrase_env }) => {
            blank_texts_have_no_ink(path@);
            if passphrase_env is Some {
                blank_texts_have_no_ink(passphrase_env->0@);
            }
        },
        Some(SshAuthConfig::Password { password_env }) => {
            blank_texts_have_no_ink(password_env@);
        },
        _ => {},
    }
}

/// A proxy by itself is right just where its port is not zero, its name, if it has one, is not
/// blank, and a mixed one is not told to speak one protocol.
pub proof fn right_proxies(proxy: ResolvedProxyConfig, kind: Seq<char>)
    ensures
        proxy_fault(proxy, kind) is None <==> {
            &&& proxy.listen.port != 0
            &&& proxy.name is Some ==> has_ink(proxy.name->0@)
            &&& !(proxy.mixed && (proxy.protocol == Some(ProxyProtocol::Socks5h)
                || proxy.protocol == Some(ProxyProtocol::Http)))
        },
{
    if proxy.name is Some {
        blank_texts_have_no_ink(proxy.name->0@);
    }
}

/// Proxies are right just where each is right by itself and no name stands twice, among them or
/// with the tunnels before them.
pub proof fn right_lists_of_proxies(
    list: Seq<ResolvedProxyConfig>,
    kind: Seq<char>,
    from: int,
    names: Seq<Seq<char>>,
)
    requires
        0 <= from <= list.len(),
    ensures
        proxies_check(list, kind, from, names) is Ok <==> {
            &&& forall|i: int|
                from <= i < list.len() ==> proxy_fault(#[trigger] list[i], kind) is None && (
                list[i].name is Some ==> !names.contains(list[i].name->0@))
            &&& forall|i: int, j: int|
                from <= i < j < list.len() && (#[trigger] list[i]).name is Some && (
                #[trigger] list[j]).name is Some ==> list[i].name->0@ != list[j].name->0@
        },
    decreases list.len() - from,
{
    if from < list.len() {
        let first = list[from];
        let next = with_name(names, first.name);
        right_lists_of_proxies(list, kind, from + 1, next);
        assert forall|name: Seq<char>| #[trigger] next.contains(name) <==> names.contains(name) || (
        first.name is Some && first.name->0@ == name) by {
            if names.contains(name) {
                let k = names.index_of(name);
                assert(next[k] == name);
            }
            if first.name is Some {
                assert(next[names.len() as int] == first.name->0@);
            }
            if next.contains(name) && !names.contains(name) {
                let k = next.index_of(name);
                if k < names.len() {
                    assert(names[k] == name);
                }
            }
        }
    }
}

/// Forwards are right just where their ports are not zero, no name of theirs is blank, and none
/// stands twice, among them or with the tunnels before them.
pub proof fn right_lists_of_forwards(
    list: Seq<ResolvedForwardConfig>,
    kind: Seq<char>,
    from: int,
    names: Seq<Seq<char>>,
)
    requires
        0 <= from <= list.len(),
    ensures
        forwards_check(list, kind, from, names) is Ok <==> {
            &&& forall|i: int|
                from <= i < list.len() ==> (#[trigger] list[i]).listen.port != 0 && (
                list[i].name is Some ==> has_ink(list[i].name->0@) && !names.contains(
                    list[i].name->0@,
                ))
            &&& forall|i: int, j: int|
                from <= i < j < list.len() && (#[trigger] list[i]).name is Some && (
                #[trigger] list[j]).name is Some ==> list[i].name->0@ != list[j].name->0@
        },
    decreases list.len() - from,
{
    if from < list.len() {
        let first = list[from];
        let next = with_name(names, first.name);
        right_lists_of_forwards(list, kind, from + 1, next);
        if first.name is Some {
            blank_texts_have_no_ink(first.name->0@);
        }
        assert forall|name: Seq<char>| #[trigger] next.contains(name) <==> names.contains(name) || (
        first.name is Some && first.name->0@ == name) by {
            if names.contains(name) {
                let k = names.index_of(name);
                assert(next[k] == name);
            }
            if first.name is Some {
                assert(next[names.len() as int] == first.name->0@);
            }
            if next.contains(name) && !names.contains(name) {
                let k = next.index_of(name);
                if k < names.len() {
                    assert(names[k] == name);
                }
            }
        }
    }
}

/// An address of this machine that is asked for twice, or was taken before, is found; where
/// there is none, all are taken.
pub proof fn repeated_addresses_are_found(
    taken: Seq<SocketAddress>,
    listens: Seq<SocketAddress>,
    from: int,
)
    requires
        0 <= from <= listens.len(),
    ensures
        take_listens(taken, listens, from).1 is None <==> {
            &&& forall|i: int| from <= i < listens.len() ==> !taken.contains(#[trigger] listens[i])
            &&& forall|i: int, j: int|
                from <= i < j < listens.len() ==> #[trigger] listens[i] != #[trigger] listens[j]
        },
        take_listens(taken, listens, from).1 is None ==> take_listens(taken, listens, from).0
            == taken + listens.skip(from),
    decreases listens.len() - from,
{
    if from < listens.len() {
        let first = listens[from];
        let next = taken.push(first);
        repeated_addresses_are_found(next, listens, from + 1);
        assert forall|address: SocketAddress| #[trigger] next.contains(address)
            <==> taken.contains(address) || first == address by {
            if taken.contains(address) {
                let k = taken.index_of(address);
                assert(next[k] == address);
            }
            assert(next[taken.len() as int] == first);
            if next.contains(address) && first != address {
                let k = next.index_of(address);
                assert(taken[k] == address);
            }
        }
        assert(next + listens.skip(from + 1) =~= taken + listens.skip(from));
    } else {
        assert(taken + listens.skip(from) =~= taken);
    }
}

/// A port that a host is asked for twice on its own side is found.
pub proof fn repeated_ports_are_found(ports: Seq<u16>, listens: Seq<SocketAddress>, from: int)
    requires
        0 <= from <= listens.len(),
    ensures
        repeated_port(ports, listens, from) is None <==> {
            &&& forall|i: int|
                from <= i < listens.len() ==> !ports.contains((#[trigger] listens[i]).port)
            &&& forall|i: int, j: int|
                from <= i < j < listens.len() ==> (#[trigger] listens[i]).port != (
                #[trigger] listens[j]).port
        },
    decreases listens.len() - from,
{
    if from < listens.len() {
        let first = listens[from].port;
        let next = ports.push(first);
        repeated_ports_are_found(next, listens, from + 1);
        assert forall|port: u16| #[trigger] next.contains(port) <==> ports.contains(port) || first
            == port by {
            if ports.contains(port) {
                let k = ports.index_of(port);
                assert(next[k] == port);
            }
            assert(next[ports.len() as int] == first);
            if next.contains(port) && first != port {
                let k = next.index_of(port);
                assert(ports[k] == port);
            }
        }
    }
}

/// Of the tunnels just those that start by themselves listen, in their order, each at its own
/// address.
pub proof fn tunnels_that_start_listen(
    proxies: Seq<ResolvedProxyConfig>,
    proxy: ResolvedProxyConfig,
    forwards: Seq<ResolvedForwardConfig>,
    forward: ResolvedForwardConfig,
)
    ensures
        proxy_listens(Seq::empty()) == Seq::<SocketAddress>::empty(),
        forward_listens(Seq::empty()) == Seq::<SocketAddress>::empty(),
        proxy.auto ==> proxy_listens(proxies.push(proxy)) == proxy_listens(proxies).push(
            proxy.listen,
        ),
        !proxy.auto ==> proxy_listens(proxies.push(proxy)) == proxy_listens(proxies),
        forward.auto ==> forward_listens(forwards.push(forward)) == forward_listens(forwards).push(
            forward.listen,
        ),
        !forward.auto ==> forward_listens(forwards.push(forward)) == forward_listens(forwards),
{
    assert(proxies.push(proxy).drop_last() =~= proxies);
    assert(forwards.push(forward).drop_last() =~= forwards);
}

/// A host is valid just where its settings and its tunnels are right, no address of this machine
/// that it listens at was taken or stands twice, and no port of its own side stands twice.
pub proof fn valid_hosts(name: Seq<char>, host: ResolvedHostConfig, taken: Seq<SocketAddress>)
    ensures
        host_check(name, host, taken).1 is None <==> {
            &&& settings_fault(host) is None
            &&& tunnels_check(host) is Ok
            &&& forall|i: int|
                0 <= i < local_listens(host).len() ==> !taken.contains(
                    #[trigger] local_listens(host)[i],
                )
            &&& forall|i: int, j: int|
                0 <= i < j < local_listens(host).len() ==> #[trigger] local_listens(host)[i]
                    != #[trigger] local_listens(host)[j]
            &&& forall|i: int, j: int|
                0 <= i < j < remote_listens(host).len() ==> (
                #[trigger] remote_listens(host)[i]).port != (
                #[trigger] remote_listens(host)[j]).port
        },
{
    repeated_addresses_are_found(taken, local_listens(host), 0);
    repeated_ports_are_found(Seq::empty(), remote_listens(host), 0);
}

proof fn lemma_valid_hosts(
    hosts: Seq<Named<HostConfig>>,
    defaults: OverrideDefaultConfig,
    from: int,
    taken: Seq<SocketAddress>,
)
    requires
        0 <= from <= hosts.len(),
        hosts_check(hosts, defaults, from, taken).1 is None,
    ensures
        forall|i: int|
            from <= i < hosts.len() ==> has_ink((#[trigger] hosts[i]).name@) && (resolved_host(
                hosts[i].value,
                defaults,
            ).auto ==> settings_fault(resolved_host(hosts[i].value, defaults)) is None
                && tunnels_check(resolved_host(hosts[i].value, defaults)) is Ok),
    decreases hosts.len() - from,
{
    if from < hosts.len() {
        blank_texts_have_no_ink(hosts[from].name@);
        let host = resolved_host(hosts[from].value, defaults);
        if host.auto {
            lemma_valid_hosts(
                hosts,
                defaults,
                from + 1,
                host_check(hosts[from].name@, host, taken).0,
            );
        } else {
            lemma_valid_hosts(hosts, defaults, from + 1, taken);
        }
    }
}

/// In a valid configuration there is a host, every host has a name, every host that starts by
/// itself has right settings and right tunnels, and the default profile, if one is named, is
/// defined.
pub proof fn valid_configurations(config: AppConfig, home: HomePath)
    requires
        config_fault(config, home) is None,
    ensures
        config.hosts.entries@.len() > 0,
        forall|i: int|
            0 <= i < config.hosts.entries@.len() ==> has_ink(
                (#[trigger] config.hosts.entries@[i]).name@,
            ) && (resolved_host(config.hosts.entries@[i].value, config.override_default).auto
                ==> settings_fault(
                resolved_host(config.hosts.entries@[i].value, config.override_default),
            ) is None && tunnels_check(
                resolved_host(config.hosts.entries@[i].value, config.override_default),
            ) is Ok),
        config.env.default is Some ==> value_of(
            config.env.profiles.entries@,
            config.env.default->0@,
        ) is Some,
        config.control.endpoint is Some ==> read_endpoint(config.control.endpoint->0@, home) is Ok,
{
    lemma_valid_hosts(config.hosts.entries@, config.override_default, 0, Seq::empty());
}

proof fn lemma_resting_hosts(
    hosts: Seq<Named<HostConfig>>,
    defaults: OverrideDefaultConfig,
    from: int,
    taken: Seq<SocketAddress>,
)
    requires
        0 <= from <= hosts.len(),
        forall|i: int|
            from <= i < hosts.len() ==> has_ink((#[trigger] hosts[i]).name@) && !resolved_host(
                hosts[i].value,
                defaults,
            ).auto,
    ensures
        hosts_check(hosts, defaults, from, taken) == (taken, None::<ConfigFault>),
    decreases hosts.len() - from,
{
    if from < hosts.len() {
        blank_texts_have_no_ink(hosts[from].name@);
        lemma_resting_hosts(hosts, defaults, from + 1, taken);
    }
}

/// Hosts that do not start by themselves are not looked at beyond their names: whatever else
/// stands there, they are no fault.
pub proof fn resting_hosts_are_no_fault(config: AppConfig, home: HomePath)
    requires
        config.control.endpoint is None,
        env_fault(config.env) is None,
        config.hosts.entries@.len() > 0,
        forall|i: int|
            0 <= i < config.hosts.entries@.len() ==> has_ink(
                (#[trigger] config.hosts.entries@[i]).name@,
            ) && !resolved_host(config.hosts.entries@[i].value, config.override_default).auto,
    ensures
        config_fault(config, home) is None,
{
    lemma_resting_hosts(config.hosts.entries@, config.override_default, 0, Seq::empty());
}

/// How child processes are told of proxies is right just where the default profile, if one is
/// named, has a name and is defined, and no profile has a blank name, host or tunnel.
pub proof fn right_profiles(env: EnvConfig)
    ensures
        env_fault(env) is None <==> {
            &&& env.default is Some ==> has_ink(env.default->0@) && value_of(
                env.profiles.entries@,
                env.default->0@,
            ) is Some
            &&& forall|i: int|
                0 <= i < env.profiles.entries@.len() ==> is_right_profile(
                    #[trigger] env.profiles.entries@[i],
                )
        },
{
    if env.default is Some {
        blank_texts_have_no_ink(env.default->0@);
    }
    lemma_right_profiles(env.profiles.entries@, 0);
}

/// A profile has a name, and names no blank host or tunnel.
pub open spec fn is_right_profile(profile: Named<EnvProfileConfig>) -> bool {
    &&& has_ink(profile.name@)
    &&& profile.value.host is Some ==> has_ink(profile.value.host->0@)
    &&& profile.value.tunnel is Some ==> has_ink(profile.value.tunnel->0@)
}

proof fn lemma_right_profiles(profiles: Seq<Named<EnvProfileConfig>>, from: int)
    requires
        0 <= from <= profiles.len(),
    ensures
        profiles_fault(profiles, from) is None <==> forall|i: int|
            from <= i < profiles.len() ==> is_right_profile(#[trigger] profiles[i]),
    decreases profiles.len() - from,
{
    if from < profiles.len() {
        lemma_right_profiles(profiles, from + 1);
        let first = profiles[from];
        blank_texts_have_no_ink(first.name@);
        if first.value.host is Some {
            blank_texts_have_no_ink(first.value.host->0@);
        }
        if first.value.tunnel is Some {
            blank_texts_have_no_ink(first.value.tunnel->0@);
        }
    }
}

} // verus!
