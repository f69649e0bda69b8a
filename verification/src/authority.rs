//! The `host:port` part of a URI, and targets that are written in that form.
use crate::address;
use crate::address::{ipv6_holds_address_chars, is_address_char, is_address_text, read_ip, IpAddress};
use crate::text;
use crate::text::{concat2, concat4, decimal, decimal_reads_back, first_index, integer_up_to, last_index,
    lemma_first_index_unique, lemma_last_index, lemma_trim_keeps_the_end, trim_end_of, trim_of, trim_start_of,
    CharClass};
use hyper::http::uri::Authority;
use std::str::FromStr;
use vstd::prelude::*;

verus! {

/// Host and port of an authority.
#[derive(Debug, Clone, PartialEq, Eq)]
pub struct AuthorityParts {
    pub host: String,
    pub port: Option<u16>,
}

/// What `Authority::from_str` finds wrong with a text; nothing where the text is an authority.
pub uninterp spec fn authority_error(text: Seq<char>) -> Option<Seq<char>>;

/// What stands behind the last `@` of a text, which may be all of it.
pub open spec fn behind_user_info(text: Seq<char>) -> Seq<char> {
    text.skip(last_index(text, '@') + 1)
}

/// The host of an authority: what stands behind the user information, up to the port; an
/// address in brackets with its brackets.
pub open spec fn authority_host(text: Seq<char>) -> Seq<char> {
    let rest = behind_user_info(text);
    if rest.len() > 0 && rest[0] == '[' {
        rest.take(first_index(rest, ']') + 1)
    } else {
        rest.take(first_index(rest, ':'))
    }
}

/// The port of an authority: the number behind its last colon, where there is one.
pub open spec fn authority_port(text: Seq<char>) -> Option<u16> {
    let colon = last_index(text, ':');
    if colon < 0 {
        None
    } else {
        match integer_up_to(text.skip(colon + 1), 65535) {
            Some(port) => Some(port as u16),
            None => None,
        }
    }
}

/// A character of a host name: an ASCII letter or digit, a dot, a hyphen or an underscore.
pub open spec fn is_name_char(c: char) -> bool {
    ||| 'a' <= c <= 'z'
    ||| 'A' <= c <= 'Z'
    ||| '0' <= c <= '9'
    ||| c == '.'
    ||| c == '-'
    ||| c == '_'
}

/// A host name: one or more of its characters.
pub open spec fn is_host_name(s: Seq<char>) -> bool {
    s.len() > 0 && forall|i: int| 0 <= i < s.len() ==> is_name_char(#[trigger] s[i])
}

/// A host name with a port behind it.
pub open spec fn name_and_port(name: Seq<char>, port: u16) -> Seq<char> {
    name + seq![':'] + decimal(port as nat)
}

/// `Authority::from_str` of the `http` crate, with `Authority::host` and
/// `Authority::port_u16` of its result. The contract claims that a text is an authority or is
/// refused with a message by itself alone, that a host name with a port is not refused, and that
/// host and port of an authority are the parts of its text that those two methods cut out.
#[verifier::external_body]
pub(crate) fn parse_authority(input: &str) -> (r: Result<AuthorityParts, String>)
    ensures
        (match r {
            Ok(parts) => {
                &&& authority_error(input@) is None
                &&& parts.host@ == authority_host(input@)
                &&& parts.port == authority_port(input@)
            },
            Err(message) => authority_error(input@) == Some(message@),
        }),
        forall|name: Seq<char>, port: u16|
            is_host_name(name) && input@ == #[trigger] name_and_port(name, port) ==> r is Ok,
{
    match Authority::from_str(input) {
        Ok(authority) => Ok(
            AuthorityParts {
                host: authority.host().to_string(),
                port: authority.port_u16(),
            },
        ),
        Err(error) => Err(error.to_string()),
    }
}

/// A host and a port.
#[derive(Debug, Clone, PartialEq, Eq, Hash)]
pub struct HostPort {
    pub host: String,
    pub port: u16,
}

/// Host and port of a target, or why the text names none.
pub open spec fn read_target(
    input: Seq<char>,
    error: Option<Seq<char>>,
    host: Seq<char>,
    port: Option<u16>,
) -> Result<(Seq<char>, u16), Seq<char>> {
    let bare = trim_of(CharClass::Bracket, host);
    if error is Some {
        Err("invalid host:port target "@ + input + ": "@ + error->0)
    } else if port is None || port == Some(0u16) {
        Err("target must include a non-zero port: "@ + input)
    } else if bare.len() == 0 {
        Err("target host must not be empty: "@ + input)
    } else {
        Ok((bare, port->0))
    }
}

/// How a target is written: an IPv6 address in brackets.
pub open spec fn target_text(host: Seq<char>, port: u16) -> Seq<char> {
    if read_ip(host) matches Some(ip) && ip is V6 {
        "["@ + host + "]:"@ + decimal(port as nat)
    } else {
        host + ":"@ + decimal(port as nat)
    }
}

/// Writes a host and a port.
pub fn write_target(host: &str, port: u16) -> (r: String)
    ensures
        r@ == target_text(host@, port),
{
    let port_text = text::decimal_text(port as u64);
    let in_brackets = match address::parse_ip(host) {
        Some(IpAddress::V6(_)) => true,
        _ => false,
    };
    if in_brackets {
        concat4("[", host, "]:", port_text.as_str())
    } else {
        text::concat3(host, ":", port_text.as_str())
    }
}

impl HostPort {
    /// The target that an authority, or what is wrong with it, gives.
    pub fn from_parts(input: &str, parts: Result<AuthorityParts, String>) -> (r: Result<
        HostPort,
        String,
    >)
        ensures
            ({
                let read = match parts {
                    Ok(parts) => read_target(input@, None, parts.host@, parts.port),
                    Err(message) => read_target(input@, Some(message@), Seq::empty(), None),
                };
                match r {
                    Ok(target) => read == Ok::<_, Seq<char>>((target.host@, target.port)),
                    Err(message) => read == Err::<(Seq<char>, u16), _>(message@),
                }
            }),
    {
        let parts = match parts {
            Ok(parts) => parts,
            Err(message) => {
                return Err(concat4("invalid host:port target ", input, ": ", message.as_str()));
            },
        };
        let port: u16 = match parts.port {
            Some(port) => port,
            None => return Err(concat2("target must include a non-zero port: ", input)),
        };
        if port == 0 {
            return Err(concat2("target must include a non-zero port: ", input));
        }
        let host = text::trim_class(CharClass::Bracket, parts.host.as_str());
        if host.is_empty() {
            return Err(concat2("target host must not be empty: ", input));
        }
        Ok(HostPort { host: host.to_owned(), port })
    }

    /// Reads a target in the form `host:port`. A host name with a port is always read.
    pub fn parse(input: &str) -> (r: Result<HostPort, String>)
        ensures
            ({
                let read = read_target(
                    input@,
                    authority_error(input@),
                    authority_host(input@),
                    authority_port(input@),
                );
                match r {
                    Ok(target) => read == Ok::<_, Seq<char>>((target.host@, target.port)),
                    Err(message) => read == Err::<(Seq<char>, u16), _>(message@),
                }
            }),
            forall|name: Seq<char>, port: u16|
                is_host_name(name) && port != 0 && input@ == #[trigger] name_and_port(name, port)
                    ==> (r matches Ok(target) && target.host@ == name && target.port == port),
    {
        let parts = parse_authority(input);
        proof {
            assert forall|name: Seq<char>, port: u16|
                is_host_name(name) && port != 0 && input@ == #[trigger] name_and_port(
                    name,
                    port,
                ) implies {
                &&& parts is Ok
                &&& trim_of(CharClass::Bracket, authority_host(input@)) == name
                &&& authority_port(input@) == Some(port)
            } by {
                lemma_bare_target(name, port, input@);
            }
        }
        HostPort::from_parts(input, parts)
    }

    /// Writes the target.
    pub fn text(&self) -> (r: String)
        ensures
            r@ == target_text(self.host@, self.port),
    {
        write_target(self.host.as_str(), self.port)
    }

    /// A copy of the target.
    pub fn copy(&self) -> (r: HostPort)
        ensures
            r == *self,
    {
        HostPort { host: self.host.clone(), port: self.port }
    }
}

/// Whether a host can be told from what may stand around it in an authority: it is an IPv6
/// address, or it holds no `@`, no colon and no bracket.
pub open spec fn is_plain_host(host: Seq<char>) -> bool {
    &&& host.len() > 0
    &&& {
        ||| read_ip(host) matches Some(ip) && ip is V6
        ||| !host.contains('@') && !host.contains(':') && !host.contains('[') && !host.contains(']')
    }
}

/// The text of a target names that target, where the text is an authority at all.
pub proof fn target_text_reads_back(host: Seq<char>, port: u16)
    requires
        is_plain_host(host),
        port != 0,
        authority_error(target_text(host, port)) is None,
    ensures
        ({
            let s = target_text(host, port);
            read_target(s, authority_error(s), authority_host(s), authority_port(s)) == Ok::<
                _,
                Seq<char>,
            >((host, port))
        }),
{
    reveal_strlit("[");
    reveal_strlit("]:");
    reveal_strlit(":");
    let s = target_text(host, port);
    let digits = decimal(port as nat);
    if read_ip(host) matches Some(ip) && ip is V6 {
        ipv6_holds_address_chars(host);
        assert(s =~= seq!['['] + host + seq![']', ':'] + digits);
        lemma_bracketed_target(host, port, s);
    } else {
        assert(s =~= host + seq![':'] + digits);
        lemma_bare_target(host, port, s);
    }
}

proof fn lemma_bracketed_target(host: Seq<char>, port: u16, s: Seq<char>)
    requires
        host.len() > 0,
        is_address_text(host),
        s == seq!['['] + host + seq![']', ':'] + decimal(port as nat),
    ensures
        trim_of(CharClass::Bracket, authority_host(s)) == host,
        authority_port(s) == Some(port),
{
    let digits = decimal(port as nat);
    let n = host.len() as int;
    decimal_reads_back(port as nat);
    assert forall|i: int| 0 < i <= n implies is_address_char(#[trigger] s[i]) by {
        assert(s[i] == host[i - 1]);
    }
    assert forall|i: int| n + 2 < i < s.len() implies text::is_digit(#[trigger] s[i]) by {
        assert(s[i] == digits[i - n - 3]);
    }
    assert(s[0] == '[' && s[n + 1] == ']' && s[n + 2] == ':');
    lemma_last_index(s, '@');
    assert(last_index(s, '@') == -1);
    assert(s.skip(0) == s);
    lemma_first_index_unique(s, ']', n + 1);
    let held = s.take(n + 2);
    assert(held.drop_first() =~= host.push(']'));
    assert(held.drop_first().drop_last() =~= host);
    assert(is_address_char(host[0]) && is_address_char(host[n - 1]));
    assert(held.drop_first()[0] == host[0]);
    assert(trim_start_of(CharClass::Bracket, held.drop_first()) == held.drop_first());
    assert(trim_end_of(CharClass::Bracket, host) == host);
    lemma_last_index(s, ':');
    assert(last_index(s, ':') == n + 2);
    assert(s.skip(n + 3) =~= digits);
}

proof fn lemma_bare_target(host: Seq<char>, port: u16, s: Seq<char>)
    requires
        host.len() > 0,
        !host.contains('@') && !host.contains(':') && !host.contains('[') && !host.contains(']'),
        s == host + seq![':'] + decimal(port as nat),
    ensures
        trim_of(CharClass::Bracket, authority_host(s)) == host,
        authority_port(s) == Some(port),
{
    let digits = decimal(port as nat);
    let n = host.len() as int;
    decimal_reads_back(port as nat);
    assert forall|i: int| 0 <= i < n implies #[trigger] s[i] != '@' && s[i] != ':' && s[i] != '[' by {
        assert(s[i] == host[i]);
        assert(host.contains(s[i]));
    }
    assert forall|i: int| n < i < s.len() implies text::is_digit(#[trigger] s[i]) by {
        assert(s[i] == digits[i - n - 1]);
    }
    assert(s[n] == ':');
    lemma_last_index(s, '@');
    assert(last_index(s, '@') == -1);
    assert(s.skip(0) == s);
    lemma_first_index_unique(s, ':', n);
    assert(s.take(n) =~= host);
    assert(host.contains(host[0]) && host.contains(host[n - 1]));
    lemma_trim_keeps_the_end(CharClass::Bracket, host);
    lemma_last_index(s, ':');
    assert(last_index(s, ':') == n);
    assert(s.skip(n + 1) =~= digits);
}

} // verus!
