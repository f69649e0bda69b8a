//! The laws of what is started from a configuration: which hosts and tunnels start, under which
//! names, and how long a listener that fails waits.
use crate::address::{socket_text, SocketAddress};
use crate::config::{HostConfig, OverrideDefaultConfig, ProxyProtocol};
use crate::config_check::resolved_host;
use crate::config_path::ConfigScope;
use crate::engine::{arrived, launches, next_listener_retry, started_forwards, started_locally,
    started_proxies, started_remotely, tunnel_totals, HostLaunch, Launch, Role, RuntimeProfile,
    TunnelRegistration, TunnelRole};
use crate::named::Named;
use crate::outbound::{place_text, target_at};
use crate::paths::HomePath;
use crate::ssh_files::{SshFiles, Stop};
use crate::ssh_forwards::{all_candidates, inherited, started_candidates, tunnel_protocol,
    tunnels_of, with_requests, Candidate, ForwardTunnel, ProxyTunnel, Tunnels};
use crate::status::{tunnel_id_text, TunnelKind};
use vstd::prelude::*;

verus! {

/// A service uses the configuration of the system, a program in the foreground that of the user.
pub proof fn services_use_the_system_configuration(profile: RuntimeProfile)
    ensures
        profile.config_scope() == ConfigScope::System <==> profile == RuntimeProfile::Service,
        profile.config_scope() == ConfigScope::User <==> profile == RuntimeProfile::Foreground,
{
}

/// Behind the proxies that start, one more proxy starts if and only if it does so by itself; it
/// listens where it is told, speaks what it is told, and has the name that it was given.
pub proof fn proxies_that_start_listen(
    host: Seq<char>,
    kind: TunnelKind,
    prefix: Seq<char>,
    list: Seq<ProxyTunnel>,
    proxy: ProxyTunnel,
)
    ensures
        ({
            let before = started_proxies(host, kind, prefix, list);
            let after = started_proxies(host, kind, prefix, list.push(proxy));
            &&& !proxy.auto ==> after == before
            &&& proxy.auto ==> {
                &&& after.len() == before.len() + 1
                &&& after.drop_last() == before
                &&& after.last().host_name == host
                &&& after.last().kind == kind
                &&& after.last().listen == proxy.listen
                &&& after.last().role == Role::Proxy(tunnel_protocol(proxy))
                &&& after.last().id == tunnel_id_text(host, kind, after.last().name)
                &&& proxy.name is Some ==> after.last().name == proxy.name->0
                &&& proxy.name is None ==> after.last().name == prefix + seq!['-'] + socket_text(
                    proxy.listen,
                )
            }
        }),
        started_proxies(host, kind, prefix, Seq::empty()).len() == 0,
{
    reveal_strlit("-");
    assert("-"@ =~= seq!['-']);
    assert(list.push(proxy).drop_last() =~= list);
    let before = started_proxies(host, kind, prefix, list);
    let after = started_proxies(host, kind, prefix, list.push(proxy));
    if proxy.auto {
        assert(after.drop_last() =~= before);
    }
}

/// Behind the forwards that start, one more forward starts if and only if it does so by itself;
/// it listens and leads where it is told, and has the name that it was given.
pub proof fn forwards_that_start_listen(
    host: Seq<char>,
    kind: TunnelKind,
    prefix: Seq<char>,
    list: Seq<ForwardTunnel>,
    forward: ForwardTunnel,
)
    ensures
        ({
            let before = started_forwards(host, kind, prefix, list);
            let after = started_forwards(host, kind, prefix, list.push(forward));
            &&& !forward.auto ==> after == before
            &&& forward.auto ==> {
                &&& after.len() == before.len() + 1
                &&& after.drop_last() == before
                &&& after.last().host_name == host
                &&& after.last().kind == kind
                &&& after.last().listen == forward.listen
                &&& after.last().role == Role::Forward { host: forward.host, port: forward.port }
                &&& after.last().id == tunnel_id_text(host, kind, after.last().name)
                &&& forward.name is Some ==> after.last().name == forward.name->0
                &&& forward.name is None ==> after.last().name == prefix + seq!['-']
                    + socket_text(forward.listen)
            }
        }),
        started_forwards(host, kind, prefix, Seq::empty()).len() == 0,
{
    reveal_strlit("-");
    assert("-"@ =~= seq!['-']);
    assert(list.push(forward).drop_last() =~= list);
    let before = started_forwards(host, kind, prefix, list);
    let after = started_forwards(host, kind, prefix, list.push(forward));
    if forward.auto {
        assert(after.drop_last() =~= before);
    }
}

proof fn lemma_started_kinds(
    host: Seq<char>,
    kind: TunnelKind,
    prefix: Seq<char>,
    proxies: Seq<ProxyTunnel>,
    forwards: Seq<ForwardTunnel>,
)
    ensures
        forall|i: int|
            0 <= i < started_proxies(host, kind, prefix, proxies).len() ==> (
            #[trigger] started_proxies(host, kind, prefix, proxies)[i]).kind == kind,
        forall|i: int|
            0 <= i < started_forwards(host, kind, prefix, forwards).len() ==> (
            #[trigger] started_forwards(host, kind, prefix, forwards)[i]).kind == kind,
    decreases proxies.len() + forwards.len(),
{
    if proxies.len() > 0 {
        lemma_started_kinds(host, kind, prefix, proxies.drop_last(), forwards);
    } else if forwards.len() > 0 {
        lemma_started_kinds(host, kind, prefix, proxies, forwards.drop_last());
    }
}

/// A tunnel that listens on this machine is a local one, and one that listens on the side of
/// the host a remote one; the proxies come before the forwards.
pub proof fn tunnels_start_on_their_side(host: Seq<char>, tunnels: Tunnels, place: int)
    ensures
        ({
            let here = started_locally(host, tunnels);
            let there = started_remotely(host, tunnels);
            &&& 0 <= place < here.len() ==> here[place].kind == TunnelKind::LocalProxy
                || here[place].kind == TunnelKind::LocalForward
            &&& 0 <= place < there.len() ==> there[place].kind == TunnelKind::RemoteProxy
                || there[place].kind == TunnelKind::RemoteForward
            &&& 0 < place < here.len() && here[place].kind == TunnelKind::LocalProxy ==> here[place
                - 1].kind == TunnelKind::LocalProxy
            &&& 0 < place < there.len() && there[place].kind == TunnelKind::RemoteProxy
                ==> there[place - 1].kind == TunnelKind::RemoteProxy
        }),
{
    lemma_started_kinds(
        host,
        TunnelKind::LocalProxy,
        "local-proxy"@,
        tunnels.local_proxies,
        Seq::empty(),
    );
    lemma_started_kinds(
        host,
        TunnelKind::LocalForward,
        "local-forward"@,
        Seq::empty(),
        tunnels.local_forwards,
    );
    lemma_started_kinds(
        host,
        TunnelKind::RemoteProxy,
        "remote-proxy"@,
        tunnels.remote_proxies,
        Seq::empty(),
    );
    lemma_started_kinds(
        host,
        TunnelKind::RemoteForward,
        "remote-forward"@,
        Seq::empty(),
        tunnels.remote_forwards,
    );
}

/// A tunnel that starts by itself on this machine is among those that start here, and one on
/// the side of the host among those that start there; no tunnel is among both.
pub proof fn started_tunnels_are_counted(host: Seq<char>, tunnels: Tunnels)
    ensures
        started_locally(host, tunnels).len() == auto_proxies(tunnels.local_proxies)
            + auto_forwards(tunnels.local_forwards),
        started_remotely(host, tunnels).len() == auto_proxies(tunnels.remote_proxies)
            + auto_forwards(tunnels.remote_forwards),
{
    lemma_started_counts(
        host,
        TunnelKind::LocalProxy,
        "local-proxy"@,
        tunnels.local_proxies,
        Seq::empty(),
    );
    lemma_started_counts(
        host,
        TunnelKind::LocalForward,
        "local-forward"@,
        Seq::empty(),
        tunnels.local_forwards,
    );
    lemma_started_counts(
        host,
        TunnelKind::RemoteProxy,
        "remote-proxy"@,
        tunnels.remote_proxies,
        Seq::empty(),
    );
    lemma_started_counts(
        host,
        TunnelKind::RemoteForward,
        "remote-forward"@,
        Seq::empty(),
        tunnels.remote_forwards,
    );
}

/// How many proxies of a list start by themselves.
pub open spec fn auto_proxies(list: Seq<ProxyTunnel>) -> nat {
    list.filter(|p: ProxyTunnel| p.auto).len()
}

/// How many forwards of a list start by themselves.
pub open spec fn auto_forwards(list: Seq<ForwardTunnel>) -> nat {
    list.filter(|f: ForwardTunnel| f.auto).len()
}

proof fn lemma_started_counts(
    host: Seq<char>,
    kind: TunnelKind,
    prefix: Seq<char>,
    proxies: Seq<ProxyTunnel>,
    forwards: Seq<ForwardTunnel>,
)
    ensures
        started_proxies(host, kind, prefix, proxies).len() == auto_proxies(proxies),
        started_forwards(host, kind, prefix, forwards).len() == auto_forwards(forwards),
    decreases proxies.len() + forwards.len(),
{
    reveal(Seq::filter);
    if proxies.len() > 0 {
        lemma_started_counts(host, kind, prefix, proxies.drop_last(), forwards);
    } else if forwards.len() > 0 {
        lemma_started_counts(host, kind, prefix, proxies, forwards.drop_last());
    }
}

/// The hosts start in their order: one that does not start by itself is passed over; one that
/// does starts under its name, with its own settings and tunnels; the first one whose forwards
/// cannot be taken over stops the start.
pub proof fn hosts_start_in_order(
    known: SshFiles,
    home: HomePath,
    hosts: Seq<Named<HostConfig>>,
    defaults: OverrideDefaultConfig,
    from: int,
)
    requires
        0 <= from < hosts.len(),
    ensures
        ({
            let host = resolved_host(hosts[from].value, defaults);
            let here = launches(known, home, hosts, defaults, from);
            let behind = launches(known, home, hosts, defaults, from + 1);
            let found = inherited(known, home, host);
            &&& !host.auto ==> here == behind
            &&& host.auto && found is Err ==> here is Err
            &&& host.auto && found is Ok && behind is Ok ==> {
                &&& here is Ok
                &&& here->Ok_0.len() == behind->Ok_0.len() + 1
                &&& here->Ok_0.skip(1) == behind->Ok_0
                &&& here->Ok_0[0].name == hosts[from].name@
                &&& here->Ok_0[0].settings == host
                &&& here->Ok_0[0].tunnels == with_requests(tunnels_of(host), found->Ok_0)
            }
            &&& behind is Err ==> here is Err
        }),
        launches(known, home, hosts, defaults, hosts.len() as int) == Ok::<Seq<Launch>, Stop>(
            Seq::empty(),
        ),
{
    let here = launches(known, home, hosts, defaults, from);
    let behind = launches(known, home, hosts, defaults, from + 1);
    if here is Ok && behind is Ok && here->Ok_0.len() > behind->Ok_0.len() {
        assert(here->Ok_0.skip(1) =~= behind->Ok_0);
    }
}

/// The tunnels of one host more are counted with those before it, each on its side.
pub proof fn tunnels_are_counted_by_side(list: Seq<HostLaunch>, host: HostLaunch)
    ensures
        tunnel_totals(list.push(host)).0 == tunnel_totals(list).0 + host.local@.len(),
        tunnel_totals(list.push(host)).1 == tunnel_totals(list).1 + host.remote@.len(),
        tunnel_totals(Seq::empty()) == (0nat, 0nat),
{
    assert(list.push(host).drop_last() =~= list);
}

/// Each wait of a listener is twice the one before, until it would be longer than the longest.
pub proof fn listener_waits_double(current: u128, maximum: u128)
    ensures
        2 * current <= maximum ==> next_listener_retry(current, maximum) == 2 * current,
        2 * current >= maximum ==> next_listener_retry(current, maximum) == maximum,
{
}

/// A connection belongs to the tunnel at which it came in, and bears the address that it came
/// from. At a forward it leads where the forward leads; at a proxy nothing is known yet of
/// where it leads. No session carries it yet.
pub proof fn connections_belong_to_their_tunnel(
    tunnel: TunnelRegistration,
    id: u64,
    peer: SocketAddress,
)
    ensures
        ({
            let connection = arrived(tunnel, id, peer);
            &&& connection.id == id
            &&& connection.host_name == tunnel.host_name@
            &&& connection.tunnel_id == tunnel.id@
            &&& connection.peer_address == socket_text(peer)
            &&& connection.session_id is None
            &&& match tunnel.role {
                TunnelRole::Proxy(protocol) => connection.target is None && connection.protocol
                    == match protocol {
                    ProxyProtocol::Socks5h => "SOCKS5H"@,
                    ProxyProtocol::Http => "HTTP"@,
                    ProxyProtocol::Mixed => "Mixed"@,
                },
                TunnelRole::Forward { host, port } => connection.target == Some(
                    place_text(target_at(host@, port)),
                ) && connection.protocol == "TCP"@,
            }
        }),
{
}

// ---------------------------------------------------------------------------
// Proxies that other programs can use
// ---------------------------------------------------------------------------
/// The proxies that other programs can use are the proxies on this machine that start by
/// themselves, in their order, each with its name, its address and what it speaks.
pub proof fn started_proxies_can_be_used(host: Seq<char>, list: Seq<ProxyTunnel>)
    ensures
        ({
            let usable = started_candidates(host, list);
            let started = started_proxies(
                host,
                TunnelKind::LocalProxy,
                "local-proxy"@,
                list,
            );
            &&& usable.len() == started.len()
            &&& forall|i: int|
                0 <= i < usable.len() ==> {
                    &&& (#[trigger] usable[i]).host == host
                    &&& usable[i].tunnel == started[i].name
                    &&& usable[i].listen == started[i].listen
                    &&& started[i].role == Role::Proxy(usable[i].protocol)
                }
        }),
    decreases list.len(),
{
    if list.len() > 0 {
        started_proxies_can_be_used(host, list.drop_last());
    }
}

/// The proxies of a host that does not start by itself cannot be used; those of the hosts that
/// do come in the order of the hosts.
pub proof fn usable_proxies_come_by_host(
    known: SshFiles,
    home: HomePath,
    hosts: Seq<Named<HostConfig>>,
    defaults: OverrideDefaultConfig,
    from: int,
)
    requires
        0 <= from < hosts.len(),
    ensures
        ({
            let host = resolved_host(hosts[from].value, defaults);
            let here = all_candidates(known, home, hosts, defaults, from);
            let behind = all_candidates(known, home, hosts, defaults, from + 1);
            let found = inherited(known, home, host);
            &&& !host.auto ==> here == behind
            &&& host.auto && found is Err ==> here is Err
            &&& behind is Err ==> here is Err
            &&& host.auto && found is Ok && behind is Ok ==> here == Ok::<_, Stop>(
                started_candidates(
                    hosts[from].name@,
                    with_requests(tunnels_of(host), found->Ok_0).local_proxies,
                ) + behind->Ok_0,
            )
        }),
        all_candidates(known, home, hosts, defaults, hosts.len() as int) == Ok::<
            Seq<Candidate>,
            Stop,
        >(Seq::empty()),
{
    let behind = all_candidates(known, home, hosts, defaults, from + 1);
    if behind is Ok {
        assert(Seq::<Candidate>::empty() + behind->Ok_0 =~= behind->Ok_0);
    }
}

} // verus!
