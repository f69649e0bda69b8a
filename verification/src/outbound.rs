//! Where connections go.
use crate::address;
use crate::address::{read_ip, socket_text, SocketAddress};
use crate::authority::AuthorityParts;
use crate::text;
use crate::text::{concat3, concat4, decimal, trim_of, CharClass};
use vstd::prelude::*;

verus! {

/// A place to connect to.
#[derive(Debug, Clone, PartialEq, Eq)]
pub enum TargetAddr {
    DomainPort { domain: String, port: u16 },
    Socket(SocketAddress),
}

/// A place to connect to, with texts for strings.
pub ghost enum Target {
    DomainPort { domain: Seq<char>, port: u16 },
    Socket(SocketAddress),
}

/// The place that a host and a port name: an address, which may stand in brackets, or a domain.
pub open spec fn target_at(host: Seq<char>, port: u16) -> Target {
    match read_ip(trim_of(CharClass::Bracket, host)) {
        Some(ip) => Target::Socket(SocketAddress::new(ip, port)),
        None => Target::DomainPort { domain: host, port },
    }
}

/// The port of a place.
pub open spec fn port_of(target: Target) -> u16 {
    match target {
        Target::DomainPort { port, .. } => port,
        Target::Socket(address) => address.port,
    }
}

/// How a place is written.
pub open spec fn place_text(target: Target) -> Seq<char> {
    match target {
        Target::DomainPort { domain, port } => domain + ":"@ + decimal(port as nat),
        Target::Socket(address) => socket_text(address),
    }
}

impl TargetAddr {
    /// The place, with texts for strings.
    pub open spec fn target(self) -> Target {
        match self {
            TargetAddr::DomainPort { domain, port } => Target::DomainPort { domain: domain@, port },
            TargetAddr::Socket(address) => Target::Socket(address),
        }
    }

    /// The place that a host and a port name.
    pub fn from_host_port(host: String, port: u16) -> (r: TargetAddr)
        ensures
            r.target() == target_at(host@, port),
    {
        match address::parse_ip(text::trim_class(CharClass::Bracket, host.as_str())) {
            Some(ip) => TargetAddr::Socket(SocketAddress::new(ip, port)),
            None => TargetAddr::DomainPort { domain: host, port },
        }
    }

    /// The port.
    pub fn port(&self) -> (r: u16)
        ensures
            r == port_of(self.target()),
    {
        match self {
            TargetAddr::DomainPort { port, .. } => *port,
            TargetAddr::Socket(address) => address.port,
        }
    }

    /// Writes the place.
    pub fn text(&self) -> (r: String)
        ensures
            r@ == place_text(self.target()),
    {
        match self {
            TargetAddr::DomainPort { domain, port } => {
                let number = text::decimal_text(*port as u64);
                concat3(domain.as_str(), ":", number.as_str())
            },
            TargetAddr::Socket(address) => address.text(),
        }
    }
}

/// Host and port of a place: an address without brackets.
pub open spec fn host_and_port(target: Target) -> (Seq<char>, u16) {
    match target {
        Target::DomainPort { domain, port } => (domain, port),
        Target::Socket(address) => (crate::address::ip_text(address.ip), address.port),
    }
}

/// Host and port of a place.
pub fn target_host_port(target: &TargetAddr) -> (r: (String, u16))
    ensures
        (r.0@, r.1) == host_and_port(target.target()),
{
    match target {
        TargetAddr::DomainPort { domain, port } => (domain.clone(), *port),
        TargetAddr::Socket(address) => (address.ip.text(), address.port),
    }
}

/// The place that an authority names; `default_port` stands for a port that is left out.
pub open spec fn authority_target(
    host: Seq<char>,
    port: Option<u16>,
    default_port: u16,
) -> Result<Target, Seq<char>> {
    let port = match port {
        Some(port) => port,
        None => default_port,
    };
    let bare = trim_of(CharClass::Bracket, host);
    if port == 0 {
        Err("target port must be greater than zero"@)
    } else if bare.len() == 0 {
        Err("target host must not be empty"@)
    } else {
        match read_ip(bare) {
            Some(ip) => Ok(Target::Socket(SocketAddress::new(ip, port))),
            None => Ok(Target::DomainPort { domain: bare, port }),
        }
    }
}

/// The place that an authority names.
pub fn target_from_authority(parts: &AuthorityParts, default_port: u16) -> (r: Result<
    TargetAddr,
    String,
>)
    ensures
        ({
            let expected = authority_target(parts.host@, parts.port, default_port);
            match r {
                Ok(target) => expected == Ok::<_, Seq<char>>(target.target()),
                Err(message) => expected == Err::<Target, _>(message@),
            }
        }),
{
    let port: u16 = match parts.port {
        Some(port) => port,
        None => default_port,
    };
    if port == 0 {
        return Err("target port must be greater than zero".to_owned());
    }
    let host = text::trim_class(CharClass::Bracket, parts.host.as_str());
    if host.is_empty() {
        return Err("target host must not be empty".to_owned());
    }
    match address::parse_ip(host) {
        Some(ip) => Ok(TargetAddr::Socket(SocketAddress::new(ip, port))),
        None => Ok(TargetAddr::DomainPort { domain: host.to_owned(), port }),
    }
}

/// What a failed connection to a place on this machine is told by.
pub fn local_dial_message(host_name: &str, verb: &str, target: &TargetAddr) -> (r: String)
    ensures
        r@ == host_name@ + " "@ + verb@ + " "@ + place_text(target.target()),
{
    let place = target.text();
    let front = concat4(host_name, " ", verb, " ");
    text::concat2(front.as_str(), place.as_str())
}

// ---------------------------------------------------------------------------
// Laws of places
// ---------------------------------------------------------------------------
proof fn lemma_bare(host: Seq<char>)
    requires
        host.len() > 0,
        host[0] != '[' && host[0] != ']',
        host.last() != '[' && host.last() != ']',
    ensures
        trim_of(CharClass::Bracket, host) == host,
{
}

/// An address with a port is that address, whatever family it is of; another host is a domain,
/// with its name as it stands; and the port is the port.
pub proof fn hosts_and_ports_name_places(ip: address::IpAddress, host: Seq<char>, port: u16)
    requires
        host.len() > 0,
        host[0] != '[' && host[0] != ']',
        host.last() != '[' && host.last() != ']',
        read_ip(host) is None,
    ensures
        target_at(address::ip_text(ip), port) == Target::Socket(
            SocketAddress { ip, scope: 0, port },
        ),
        target_at(seq!['['] + address::ip_text(ip) + seq![']'], port) == Target::Socket(
            SocketAddress { ip, scope: 0, port },
        ),
        target_at(host, port) == (Target::DomainPort { domain: host, port }),
        port_of(target_at(host, port)) == port,
        host_and_port(target_at(host, port)) == (host, port),
        host_and_port(target_at(address::ip_text(ip), port)) == (address::ip_text(ip), port),
{
    address::ip_text_reads_back(ip);
    address::ip_texts_have_no_brackets(ip);
    lemma_bare(address::ip_text(ip));
    lemma_bare(host);
    lemma_brackets_go(address::ip_text(ip));
}

proof fn lemma_brackets_go(inner: Seq<char>)
    requires
        inner.len() > 0,
        inner[0] != '[' && inner[0] != ']',
        inner.last() != '[' && inner.last() != ']',
    ensures
        trim_of(CharClass::Bracket, seq!['['] + inner + seq![']']) == inner,
{
    let s = seq!['['] + inner + seq![']'];
    let class = CharClass::Bracket;
    assert(s[0] == '[');
    assert(s.drop_first() =~= inner + seq![']']);
    assert((inner + seq![']'])[0] == inner[0]);
    assert(text::trim_start_of(class, inner + seq![']']) == inner + seq![']']);
    assert((inner + seq![']']).last() == ']');
    assert((inner + seq![']']).drop_last() =~= inner);
    assert(text::trim_end_of(class, inner) == inner);
}

/// A place is what its authority names, with the usual port where that names none; the port zero
/// and an empty host name no place.
pub proof fn authorities_name_places(
    ip: address::IpAddress,
    host: Seq<char>,
    port: Option<u16>,
    usual: u16,
)
    requires
        host.len() > 0,
        host[0] != '[' && host[0] != ']',
        host.last() != '[' && host.last() != ']',
        read_ip(host) is None,
        usual > 0,
    ensures
        port is None ==> authority_target(host, port, usual) == Ok::<_, Seq<char>>(
            Target::DomainPort { domain: host, port: usual },
        ),
        port is Some && port->0 > 0 ==> authority_target(host, port, usual) == Ok::<
            _,
            Seq<char>,
        >(Target::DomainPort { domain: host, port: port->0 }),
        port is Some && port->0 > 0 ==> authority_target(address::ip_text(ip), port, usual)
            == Ok::<_, Seq<char>>(
            Target::Socket(SocketAddress { ip, scope: 0, port: port->0 }),
        ),
        port is None ==> authority_target(
            seq!['['] + address::ip_text(ip) + seq![']'],
            port,
            usual,
        ) == Ok::<_, Seq<char>>(Target::Socket(SocketAddress { ip, scope: 0, port: usual })),
        port == Some(0u16) ==> authority_target(host, port, usual) is Err,
        authority_target(Seq::empty(), port, usual) is Err,
{
    address::ip_text_reads_back(ip);
    address::ip_texts_have_no_brackets(ip);
    lemma_bare(address::ip_text(ip));
    lemma_bare(host);
    lemma_brackets_go(address::ip_text(ip));
}

/// A domain is written with its port behind a colon.
pub proof fn places_are_written_with_their_ports(domain: Seq<char>, port: u16)
    ensures
        place_text(Target::DomainPort { domain, port }) == domain + seq![':'] + decimal(
            port as nat,
        ),
{
    reveal_strlit(":");
    assert(":"@ =~= seq![':']);
}

} // verus!
