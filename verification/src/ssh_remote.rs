//! The forwards that an SSH host listens for: where their connections go, how they are
//! registered with a session, and how they move from one session to another.
use crate::address;
use crate::address::{read_ip, IpAddress, SocketAddress};
use crate::config::{remote_forwards_of, ProxyProtocol, RemoteForward, SshHostConfig,
    SshRemoteForwardConfig};
use crate::outbound::{target_at, TargetAddr};
use crate::status;
use crate::status::{tunnel_id_text, TunnelKind};
use crate::text::{concat2, concat3, concat4, decimal, decimal_text, trim_class, trim_of, CharClass};
use std::collections::HashMap;
use vstd::prelude::*;

verus! {

broadcast use vstd::std_specs::hash::group_hash_axioms;

// ---------------------------------------------------------------------------
// Routes
// ---------------------------------------------------------------------------
/// Where the connections of a forward go.
#[derive(Debug, Clone, PartialEq, Eq)]
pub enum RemoteForwardRoute {
    /// To one place.
    Tcp { name: String, tunnel_id: String, local_host: String, local_port: u16 },
    /// Wherever they ask a proxy to.
    Dynamic { name: String, tunnel_id: String, protocol: ProxyProtocol },
}

/// Where the connections of a forward go, with texts for strings.
pub ghost enum Route {
    Tcp { name: Seq<char>, tunnel_id: Seq<char>, local_host: Seq<char>, local_port: u16 },
    Dynamic { name: Seq<char>, tunnel_id: Seq<char>, protocol: ProxyProtocol },
}

impl RemoteForwardRoute {
    /// The route, with texts for strings.
    pub open spec fn route(self) -> Route {
        match self {
            RemoteForwardRoute::Tcp { name, tunnel_id, local_host, local_port } => Route::Tcp {
                name: name@,
                tunnel_id: tunnel_id@,
                local_host: local_host@,
                local_port,
            },
            RemoteForwardRoute::Dynamic { name, tunnel_id, protocol } => Route::Dynamic {
                name: name@,
                tunnel_id: tunnel_id@,
                protocol,
            },
        }
    }
}

/// Where a forward is listened for.
pub open spec fn listen_of(forward: RemoteForward) -> SocketAddress {
    match forward {
        RemoteForward::Tcp { listen, .. } => listen,
        RemoteForward::Dynamic { listen, .. } => listen,
    }
}

/// The name by which the tunnel of a forward is told from all others.
pub open spec fn forward_tunnel(host: Seq<char>, forward: RemoteForward) -> Seq<char> {
    match forward {
        RemoteForward::Tcp { name, .. } => tunnel_id_text(host, TunnelKind::RemoteForward, name),
        RemoteForward::Dynamic { name, .. } => tunnel_id_text(host, TunnelKind::RemoteProxy, name),
    }
}

/// Where the connections of a forward of `host` go.
pub open spec fn route_of(host: Seq<char>, forward: RemoteForward) -> Route {
    let tunnel_id = forward_tunnel(host, forward);
    match forward {
        RemoteForward::Tcp { name, local_host, local_port, .. } => Route::Tcp {
            name,
            tunnel_id,
            local_host,
            local_port,
        },
        RemoteForward::Dynamic { name, protocol, .. } => Route::Dynamic {
            name,
            tunnel_id,
            protocol,
        },
    }
}

/// Where the connections at a port go: to the last of the forwards at that port.
pub open spec fn route_at(
    host: Seq<char>,
    forwards: Seq<RemoteForward>,
    port: u32,
) -> Option<Route>
    decreases forwards.len(),
{
    if forwards.len() == 0 {
        None
    } else if listen_of(forwards.last()).port == port {
        Some(route_of(host, forwards.last()))
    } else {
        route_at(host, forwards.drop_last(), port)
    }
}

/// `routes` sends the connections of every port where they go.
pub open spec fn are_routes(
    host: Seq<char>,
    forwards: Seq<RemoteForward>,
    routes: Map<u32, RemoteForwardRoute>,
) -> bool {
    forall|port: u32|
        #![trigger routes.contains_key(port)]
        #![trigger route_at(host, forwards, port)]
        match route_at(host, forwards, port) {
            Some(route) => routes.contains_key(port) && routes[port].route() == route,
            None => !routes.contains_key(port),
        }
}

/// The name by which the tunnel of a forward is told from all others.
pub fn remote_forward_tunnel_id(host: &str, forward: &SshRemoteForwardConfig) -> (r: String)
    ensures
        r@ == forward_tunnel(host@, forward.forward()),
{
    match forward {
        SshRemoteForwardConfig::Tcp { name, .. } => {
            status::tunnel_id(host, TunnelKind::RemoteForward, name.as_str())
        },
        SshRemoteForwardConfig::Dynamic { name, .. } => {
            status::tunnel_id(host, TunnelKind::RemoteProxy, name.as_str())
        },
    }
}

/// Where the connections at the ports of a host go.
pub fn build_remote_routes(upstream: &SshHostConfig) -> (r: HashMap<u32, RemoteForwardRoute>)
    ensures
        are_routes(upstream.name@, remote_forwards_of(upstream.remote_forwards@), r@),
{
    let mut routes: HashMap<u32, RemoteForwardRoute> = HashMap::new();
    let ghost all = remote_forwards_of(upstream.remote_forwards@);
    for i in 0..upstream.remote_forwards.len()
        invariant
            all == remote_forwards_of(upstream.remote_forwards@),
            are_routes(upstream.name@, all.take(i as int), routes@),
    {
        let forward = &upstream.remote_forwards[i];
        let tunnel_id = remote_forward_tunnel_id(upstream.name.as_str(), forward);
        let port: u32 = forward.remote_forward_listen().port as u32;
        let route = match forward {
            SshRemoteForwardConfig::Tcp { name, local_host, local_port, .. } => {
                RemoteForwardRoute::Tcp {
                    name: name.as_str().to_owned(),
                    tunnel_id,
                    local_host: local_host.as_str().to_owned(),
                    local_port: *local_port,
                }
            },
            SshRemoteForwardConfig::Dynamic { name, protocol, .. } => {
                RemoteForwardRoute::Dynamic {
                    name: name.as_str().to_owned(),
                    tunnel_id,
                    protocol: *protocol,
                }
            },
        };
        let ghost before = routes@;
        routes.insert(port, route);
        proof {
            let next = all.take(i + 1);
            assert(next.drop_last() == all.take(i as int));
            assert(next.last() == all[i as int]);
            assert(all[i as int] == forward.forward());
            assert(route.route() == route_of(upstream.name@, next.last()));
            assert forall|p: u32|
                #![trigger routes@.contains_key(p)]
                #![trigger route_at(upstream.name@, next, p)]
                match route_at(upstream.name@, next, p) {
                    Some(expected) => routes@.contains_key(p) && routes@[p].route() == expected,
                    None => !routes@.contains_key(p),
                } by {
                assert(before.contains_key(p) || !before.contains_key(p));
                if p != port {
                    assert(routes@.contains_key(p) == before.contains_key(p));
                    assert(route_at(upstream.name@, next, p) == route_at(
                        upstream.name@,
                        all.take(i as int),
                        p,
                    ));
                }
            }
        }
    }
    assert(all.take(all.len() as int) == all);
    routes
}

/// Where no two forwards listen at one port, the connections of each port go to its forward.
pub proof fn routes_reach_their_forwards(
    host: Seq<char>,
    forwards: Seq<RemoteForward>,
    i: int,
)
    requires
        0 <= i < forwards.len(),
        forall|a: int, b: int|
            0 <= a < b < forwards.len() ==> listen_of(#[trigger] forwards[a]).port != listen_of(
                #[trigger] forwards[b],
            ).port,
    ensures
        route_at(host, forwards, listen_of(forwards[i]).port as u32) == Some(
            route_of(host, forwards[i]),
        ),
    decreases forwards.len(),
{
    if i < forwards.len() - 1 {
        let before = forwards.drop_last();
        assert(forwards[forwards.len() - 1] == forwards.last());
        assert forall|a: int, b: int| 0 <= a < b < before.len() implies listen_of(
            #[trigger] before[a],
        ).port != listen_of(#[trigger] before[b]).port by {
            assert(before[a] == forwards[a] && before[b] == forwards[b]);
        }
        routes_reach_their_forwards(host, before, i);
        assert(before[i] == forwards[i]);
    }
}

// ---------------------------------------------------------------------------
// Connections
// ---------------------------------------------------------------------------
/// What to do about a connection that came in at the host.
#[derive(Debug)]
pub enum RemoteArrival {
    /// Refuse it as prohibited: no forward is at that port.
    Prohibited,
    /// Connect it to `target` under the name `dial_name`.
    Connect { tunnel_id: String, forward: String, peer: String, dial_name: String, target: TargetAddr },
    /// Accept it and serve it as a proxy that dials under the name `dial_name`.
    Serve {
        tunnel_id: String,
        forward: String,
        peer: SocketAddress,
        dial_name: String,
        protocol: ProxyProtocol,
    },
}

/// The address that a host names as the other end of a connection: 0.0.0.0 where it names
/// none, and no port where the port is none.
pub open spec fn peer_address(address: Seq<char>, port: u32) -> SocketAddress {
    SocketAddress::new(
        match read_ip(trim_of(CharClass::Bracket, address)) {
            Some(ip) => ip,
            None => IpAddress::V4(0),
        },
        if port <= u16::MAX {
            port as u16
        } else {
            0
        },
    )
}

/// The address that a host names as the other end of a connection.
pub fn remote_peer_addr(address: &str, port: u32) -> (r: SocketAddress)
    ensures
        r == peer_address(address@, port),
{
    let ip = match address::parse_ip(trim_class(CharClass::Bracket, address)) {
        Some(ip) => ip,
        None => IpAddress::V4(0),
    };
    let port: u16 = if port <= u16::MAX as u32 {
        port as u16
    } else {
        0
    };
    SocketAddress::new(ip, port)
}

/// `arrival` is what to do about a connection that goes along `route`.
pub open spec fn is_arrival(
    route: Option<Route>,
    upstream: Seq<char>,
    address: Seq<char>,
    port: u32,
    arrival: RemoteArrival,
) -> bool {
    match (route, arrival) {
        (None, RemoteArrival::Prohibited) => true,
        (
            Some(Route::Tcp { name, tunnel_id, local_host, local_port }),
            RemoteArrival::Connect { tunnel_id: id, forward, peer, dial_name, target },
        ) => {
            &&& id@ == tunnel_id
            &&& forward@ == name
            &&& peer@ == address + ":"@ + decimal(port as nat)
            &&& dial_name@ == "ssh-remote/"@ + upstream + "/"@ + name
            &&& target.target() == target_at(local_host, local_port)
        },
        (
            Some(Route::Dynamic { name, tunnel_id, protocol }),
            RemoteArrival::Serve { tunnel_id: id, forward, peer, dial_name, protocol: served },
        ) => {
            &&& id@ == tunnel_id
            &&& forward@ == name
            &&& peer == peer_address(address, port)
            &&& dial_name@ == "remote/"@ + upstream
            &&& served == protocol
        },
        _ => false,
    }
}

/// Decides about a connection that came in at the port `connected_port` of a host, from the
/// address and port that the host names.
pub fn route_arrival(
    routes: &HashMap<u32, RemoteForwardRoute>,
    upstream: &str,
    connected_port: u32,
    originator_address: &str,
    originator_port: u32,
) -> (r: RemoteArrival)
    ensures
        is_arrival(
            if routes@.contains_key(connected_port) {
                Some(routes@[connected_port].route())
            } else {
                None
            },
            upstream@,
            originator_address@,
            originator_port,
            r,
        ),
{
    match routes.get(&connected_port) {
        None => RemoteArrival::Prohibited,
        Some(RemoteForwardRoute::Tcp { name, tunnel_id, local_host, local_port }) => {
            let number = decimal_text(originator_port as u64);
            RemoteArrival::Connect {
                tunnel_id: tunnel_id.as_str().to_owned(),
                forward: name.as_str().to_owned(),
                peer: concat3(originator_address, ":", number.as_str()),
                dial_name: concat4("ssh-remote/", upstream, "/", name.as_str()),
                target: TargetAddr::from_host_port(local_host.as_str().to_owned(), *local_port),
            }
        },
        Some(RemoteForwardRoute::Dynamic { name, tunnel_id, protocol }) => RemoteArrival::Serve {
            tunnel_id: tunnel_id.as_str().to_owned(),
            forward: name.as_str().to_owned(),
            peer: remote_peer_addr(originator_address, originator_port),
            dial_name: concat2("remote/", upstream),
            protocol: *protocol,
        },
    }
}

// ---------------------------------------------------------------------------
// Laws of routes
// ---------------------------------------------------------------------------
/// A connection is let in just at a port that some forward listens at.
pub proof fn only_forwarded_ports_are_open(host: Seq<char>, forwards: Seq<RemoteForward>, port: u32)
    ensures
        route_at(host, forwards, port) is Some <==> exists|i: int|
            0 <= i < forwards.len() && listen_of(#[trigger] forwards[i]).port == port,
    decreases forwards.len(),
{
    if forwards.len() > 0 {
        let front = forwards.drop_last();
        only_forwarded_ports_are_open(host, front, port);
        assert(forwards[forwards.len() - 1] == forwards.last());
        if exists|i: int| 0 <= i < front.len() && listen_of(#[trigger] front[i]).port == port {
            let i = choose|i: int|
                0 <= i < front.len() && listen_of(#[trigger] front[i]).port == port;
            assert(forwards[i] == front[i]);
        }
        if listen_of(forwards.last()).port != port {
            assert forall|i: int|
                0 <= i < forwards.len() && listen_of(#[trigger] forwards[i]).port
                    == port implies i < front.len() && listen_of(front[i]).port == port by {
                if i < front.len() {
                    assert(front[i] == forwards[i]);
                }
            }
        }
    }
}

/// What comes in at the port of a forward goes to the host and the port that the forward names;
/// what comes in at the port of a proxy is served with what that speaks.
pub proof fn routes_lead_where_forwards_say(
    host: Seq<char>,
    name: Seq<char>,
    listen: SocketAddress,
    local_host: Seq<char>,
    local_port: u16,
    protocol: ProxyProtocol,
    address: Seq<char>,
    port: u32,
    arrival: RemoteArrival,
)
    ensures
        listen_of(RemoteForward::Tcp { name, listen, local_host, local_port }) == listen,
        listen_of(RemoteForward::Dynamic { name, listen, protocol }) == listen,
        is_arrival(
            Some(route_of(host, RemoteForward::Tcp { name, listen, local_host, local_port })),
            host,
            address,
            port,
            arrival,
        ) ==> (arrival matches RemoteArrival::Connect { target, forward, .. } && target.target()
            == target_at(local_host, local_port) && forward@ == name),
        is_arrival(
            Some(route_of(host, RemoteForward::Dynamic { name, listen, protocol })),
            host,
            address,
            port,
            arrival,
        ) ==> (arrival matches RemoteArrival::Serve { protocol: served, forward, .. } && served
            == protocol && forward@ == name),
        is_arrival(None, host, address, port, arrival) ==> arrival is Prohibited,
{
}

/// The other end of a connection is the address and the port that the host names, with or
/// without brackets; a port that is none is taken for zero.
pub proof fn peers_are_named(ip: IpAddress, port: u32)
    ensures
        port <= 65535 ==> peer_address(address::ip_text(ip), port) == (SocketAddress {
            ip,
            scope: 0,
            port: port as u16,
        }),
        port > 65535 ==> peer_address(address::ip_text(ip), port) == (SocketAddress {
            ip,
            scope: 0,
            port: 0,
        }),
{
    address::ip_text_reads_back(ip);
    address::ip_texts_have_no_brackets(ip);
    assert(trim_of(CharClass::Bracket, address::ip_text(ip)) == address::ip_text(ip));
}

} // verus!
