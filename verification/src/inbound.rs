//! What clients of a proxy say first.
use crate::address::{IpAddress, SocketAddress};
use crate::config::ProxyProtocol;
use crate::outbound::{Target, TargetAddr};
use crate::text;
use crate::text::{concat2, decimal};
use vstd::prelude::*;
use vstd::utf8::{decode_utf8, encode_utf8, valid_utf8};

verus! {

/// The version of SOCKS that is spoken.
pub const SOCKS5_VERSION: u8 = 0x05;

/// The way to prove nothing.
pub const SOCKS5_AUTH_NONE: u8 = 0x00;

/// No way to prove anything is accepted.
pub const SOCKS5_AUTH_UNACCEPTABLE: u8 = 0xff;

/// The command to connect.
pub const SOCKS5_COMMAND_CONNECT: u8 = 0x01;

/// The answer that all is well.
pub const SOCKS5_REPLY_SUCCEEDED: u8 = 0x00;

/// The answer that something failed.
pub const SOCKS5_REPLY_GENERAL_FAILURE: u8 = 0x01;

/// The answer that a command is not known.
pub const SOCKS5_REPLY_COMMAND_NOT_SUPPORTED: u8 = 0x07;

/// The answer that a kind of address is not known.
pub const SOCKS5_REPLY_ADDRESS_TYPE_NOT_SUPPORTED: u8 = 0x08;

// ---------------------------------------------------------------------------
// Which protocol it is
// ---------------------------------------------------------------------------
/// The protocol that a client speaks.
#[derive(Debug, Clone, Copy, PartialEq, Eq, Structural)]
pub enum DetectedProtocol {
    Socks5,
    Http,
    Unknown,
}

/// The protocol that a client speaks: the one that the proxy speaks, else what the first byte
/// tells.
pub open spec fn detected(configured: ProxyProtocol, bytes: Seq<u8>) -> DetectedProtocol {
    match configured {
        ProxyProtocol::Socks5h => DetectedProtocol::Socks5,
        ProxyProtocol::Http => DetectedProtocol::Http,
        ProxyProtocol::Mixed => if bytes.len() > 0 && bytes[0] == SOCKS5_VERSION {
            DetectedProtocol::Socks5
        } else if bytes.len() > 0 && 0x41 <= bytes[0] <= 0x5a {
            DetectedProtocol::Http
        } else {
            DetectedProtocol::Unknown
        },
    }
}

/// The protocol that a client speaks.
pub fn detect_protocol(configured: ProxyProtocol, bytes: &[u8]) -> (r: DetectedProtocol)
    ensures
        r == detected(configured, bytes@),
{
    match configured {
        ProxyProtocol::Socks5h => DetectedProtocol::Socks5,
        ProxyProtocol::Http => DetectedProtocol::Http,
        ProxyProtocol::Mixed => {
            if bytes.len() == 0 {
                DetectedProtocol::Unknown
            } else if bytes[0] == SOCKS5_VERSION {
                DetectedProtocol::Socks5
            } else if 0x41 <= bytes[0] && bytes[0] <= 0x5a {
                DetectedProtocol::Http
            } else {
                DetectedProtocol::Unknown
            }
        },
    }
}

/// The word for a protocol that was found out.
pub fn detected_protocol_name(detected: DetectedProtocol) -> (r: &'static str)
    ensures
        r@ == (match detected {
            DetectedProtocol::Socks5 => "SOCKS5H"@,
            DetectedProtocol::Http => "HTTP"@,
            DetectedProtocol::Unknown => "Unknown"@,
        }),
{
    match detected {
        DetectedProtocol::Socks5 => "SOCKS5H",
        DetectedProtocol::Http => "HTTP",
        DetectedProtocol::Unknown => "Unknown",
    }
}

// ---------------------------------------------------------------------------
// Errors
// ---------------------------------------------------------------------------
/// What is wrong with what a client says.
#[derive(Debug, Clone, PartialEq, Eq)]
pub enum InboundError {
    /// The client cannot be heard.
    Io(String),
    UnsupportedSocksVersion(u8),
    NoAcceptableSocksAuth,
    /// The request is not made as it should be.
    MalformedSocksRequest(&'static str),
    UnsupportedSocksCommand(u8),
    UnsupportedSocksAddressType(u8),
    InvalidSocksDomain,
    InvalidTargetPort,
}

/// How an error is told.
pub open spec fn inbound_text(error: InboundError) -> Seq<char> {
    match error {
        InboundError::Io(reason) => "proxy I/O failed: "@ + reason@,
        InboundError::UnsupportedSocksVersion(version) => "unsupported SOCKS version: "@ + decimal(
            version as nat,
        ),
        InboundError::NoAcceptableSocksAuth => {
            "SOCKS5 client offered no supported authentication method"@
        },
        InboundError::MalformedSocksRequest(what) => "malformed SOCKS5 request: "@ + what@,
        InboundError::UnsupportedSocksCommand(command) => "unsupported SOCKS5 command: "@
            + decimal(command as nat),
        InboundError::UnsupportedSocksAddressType(kind) => "unsupported SOCKS5 address type: "@
            + decimal(kind as nat),
        InboundError::InvalidSocksDomain => "invalid SOCKS5 domain name"@,
        InboundError::InvalidTargetPort => "target port must be greater than zero"@,
    }
}

impl InboundError {
    /// Tells the error.
    pub fn message(&self) -> (r: String)
        ensures
            r@ == inbound_text(*self),
    {
        match self {
            InboundError::Io(reason) => concat2("proxy I/O failed: ", reason.as_str()),
            InboundError::UnsupportedSocksVersion(version) => {
                let number = text::decimal_text(*version as u64);
                concat2("unsupported SOCKS version: ", number.as_str())
            },
            InboundError::NoAcceptableSocksAuth => {
                "SOCKS5 client offered no supported authentication method".to_owned()
            },
            InboundError::MalformedSocksRequest(what) => {
                concat2("malformed SOCKS5 request: ", what)
            },
            InboundError::UnsupportedSocksCommand(command) => {
                let number = text::decimal_text(*command as u64);
                concat2("unsupported SOCKS5 command: ", number.as_str())
            },
            InboundError::UnsupportedSocksAddressType(kind) => {
                let number = text::decimal_text(*kind as u64);
                concat2("unsupported SOCKS5 address type: ", number.as_str())
            },
            InboundError::InvalidSocksDomain => "invalid SOCKS5 domain name".to_owned(),
            InboundError::InvalidTargetPort => {
                "target port must be greater than zero".to_owned()
            },
        }
    }
}

/// The answer to a client whose request is refused; some errors are not answered.
pub open spec fn refusal_reply(error: InboundError) -> Option<u8> {
    match error {
        InboundError::UnsupportedSocksCommand(_) => Some(SOCKS5_REPLY_COMMAND_NOT_SUPPORTED),
        InboundError::UnsupportedSocksAddressType(_) => Some(
            SOCKS5_REPLY_ADDRESS_TYPE_NOT_SUPPORTED,
        ),
        InboundError::InvalidSocksDomain => Some(SOCKS5_REPLY_ADDRESS_TYPE_NOT_SUPPORTED),
        InboundError::InvalidTargetPort => Some(SOCKS5_REPLY_ADDRESS_TYPE_NOT_SUPPORTED),
        InboundError::MalformedSocksRequest(_) => Some(SOCKS5_REPLY_GENERAL_FAILURE),
        _ => None,
    }
}

/// The answer to a client whose request is refused.
pub fn socks5_handshake_reply(error: &InboundError) -> (r: Option<u8>)
    ensures
        r == refusal_reply(*error),
{
    match error {
        InboundError::UnsupportedSocksCommand(_) => Some(SOCKS5_REPLY_COMMAND_NOT_SUPPORTED),
        InboundError::UnsupportedSocksAddressType(_) => Some(
            SOCKS5_REPLY_ADDRESS_TYPE_NOT_SUPPORTED,
        ),
        InboundError::InvalidSocksDomain => Some(SOCKS5_REPLY_ADDRESS_TYPE_NOT_SUPPORTED),
        InboundError::InvalidTargetPort => Some(SOCKS5_REPLY_ADDRESS_TYPE_NOT_SUPPORTED),
        InboundError::MalformedSocksRequest(_) => Some(SOCKS5_REPLY_GENERAL_FAILURE),
        _ => None,
    }
}

/// What kept a connection from coming about, as far as clients are told.
#[derive(Debug, Clone, Copy, PartialEq, Eq, Structural)]
pub enum DialFailure {
    PermissionDenied,
    TimedOut,
    ConnectionRefused,
    Other,
}

/// The answer to a client whose connection did not come about; `cause` is the first failure of
/// the machine among the causes, where there is one.
#[verifier::allow_in_spec]
pub fn socks5_dial_reply(cause: Option<DialFailure>) -> u8
    returns
        (match cause {
            Some(DialFailure::PermissionDenied) => 0x02,
            Some(DialFailure::TimedOut) => 0x04,
            Some(DialFailure::ConnectionRefused) => 0x05,
            _ => SOCKS5_REPLY_GENERAL_FAILURE,
        }),
{
    match cause {
        Some(DialFailure::PermissionDenied) => 0x02,
        Some(DialFailure::TimedOut) => 0x04,
        Some(DialFailure::ConnectionRefused) => 0x05,
        _ => SOCKS5_REPLY_GENERAL_FAILURE,
    }
}

/// The bytes of an answer.
pub open spec fn reply_bytes(reply: u8) -> Seq<u8> {
    seq![SOCKS5_VERSION, reply, 0, 1, 0, 0, 0, 0, 0, 0]
}

/// The bytes of an answer.
pub fn write_socks5_reply(reply: u8) -> (r: Vec<u8>)
    ensures
        r@ == reply_bytes(reply),
{
    let r: Vec<u8> = vec![SOCKS5_VERSION, reply, 0, 1, 0, 0, 0, 0, 0, 0];
    assert(r@ =~= reply_bytes(reply));
    r
}

// ---------------------------------------------------------------------------
// The SOCKS5 handshake
// ---------------------------------------------------------------------------
/// How far a client has come with what it said so far.
#[derive(Debug, Clone, PartialEq, Eq)]
pub enum Socks5Step {
    /// So many bytes more are needed before anything can be said.
    More(usize),
    /// The client wants to go there, and has said so in so many bytes.
    Accepted { target: TargetAddr, used: usize },
    Refused(InboundError),
}

/// How far a client has come, with texts for strings.
pub ghost enum Step {
    More(int),
    Accepted { target: Target, used: int },
    Refused(InboundError),
}

impl Socks5Step {
    /// How far the client has come, with texts for strings.
    pub open spec fn step(self) -> Step {
        match self {
            Socks5Step::More(count) => Step::More(count as int),
            Socks5Step::Accepted { target, used } => Step::Accepted {
                target: target.target(),
                used: used as int,
            },
            Socks5Step::Refused(error) => Step::Refused(error),
        }
    }
}

/// The number that bytes make, the first one counting most.
pub open spec fn number_of(bytes: Seq<u8>) -> nat
    decreases bytes.len(),
{
    if bytes.len() == 0 {
        0
    } else {
        number_of(bytes.drop_last()) * 256 + bytes.last() as nat
    }
}

/// The target with a port that must not be zero.
pub open spec fn accepted(target: Target, port: nat, used: int) -> Step {
    if port == 0 {
        Step::Refused(InboundError::InvalidTargetPort)
    } else {
        Step::Accepted { target, used }
    }
}

/// How far a client has come that has `kind` as the kind of its address, which starts at `at`.
pub open spec fn address_step(bytes: Seq<u8>, kind: u8, at: int) -> Step {
    let n = bytes.len() as int;
    if kind == 1 || kind == 4 {
        let size: int = if kind == 1 {
            4
        } else {
            16
        };
        if n < at + size + 2 {
            Step::More(at + size + 2 - n)
        } else {
            let value = number_of(bytes.subrange(at, at + size));
            let port = number_of(bytes.subrange(at + size, at + size + 2));
            let ip = if kind == 1 {
                IpAddress::V4(value as u32)
            } else {
                IpAddress::V6(value as u128)
            };
            accepted(
                Target::Socket(SocketAddress::new(ip, port as u16)),
                port,
                at + size + 2,
            )
        }
    } else if kind == 3 {
        if n < at + 1 {
            Step::More(at + 1 - n)
        } else {
            let size = bytes[at] as int;
            let end = at + 1 + size;
            if size == 0 {
                Step::Refused(InboundError::InvalidSocksDomain)
            } else if n < end {
                Step::More(end - n)
            } else if !valid_utf8(bytes.subrange(at + 1, end)) {
                Step::Refused(InboundError::InvalidSocksDomain)
            } else if n < end + 2 {
                Step::More(end + 2 - n)
            } else {
                let port = number_of(bytes.subrange(end, end + 2));
                accepted(
                    Target::DomainPort {
                        domain: decode_utf8(bytes.subrange(at + 1, end)),
                        port: port as u16,
                    },
                    port,
                    end + 2,
                )
            }
        }
    } else {
        Step::Refused(InboundError::UnsupportedSocksAddressType(kind))
    }
}

/// How far a client has come that starts its request at `at`.
pub open spec fn request_step(bytes: Seq<u8>, at: int) -> Step {
    let n = bytes.len() as int;
    if n < at + 4 {
        Step::More(at + 4 - n)
    } else if bytes[at] != SOCKS5_VERSION {
        Step::Refused(InboundError::UnsupportedSocksVersion(bytes[at]))
    } else if bytes[at + 2] != 0 {
        Step::Refused(InboundError::MalformedSocksRequest("reserved byte must be zero"))
    } else if bytes[at + 1] != SOCKS5_COMMAND_CONNECT {
        Step::Refused(InboundError::UnsupportedSocksCommand(bytes[at + 1]))
    } else {
        address_step(bytes, bytes[at + 3], at + 4)
    }
}

/// How far a client has come, and what it is answered on the way to that.
pub open spec fn handshake(bytes: Seq<u8>) -> (Step, Seq<u8>) {
    let n = bytes.len() as int;
    if n < 2 {
        (Step::More(2 - n), Seq::empty())
    } else if bytes[0] != SOCKS5_VERSION {
        (Step::Refused(InboundError::UnsupportedSocksVersion(bytes[0])), Seq::empty())
    } else {
        let at = 2 + bytes[1] as int;
        if n < at {
            (Step::More(at - n), Seq::empty())
        } else if !bytes.subrange(2, at).contains(SOCKS5_AUTH_NONE) {
            (
                Step::Refused(InboundError::NoAcceptableSocksAuth),
                seq![SOCKS5_VERSION, SOCKS5_AUTH_UNACCEPTABLE],
            )
        } else {
            (request_step(bytes, at), seq![SOCKS5_VERSION, SOCKS5_AUTH_NONE])
        }
    }
}

/// `String::from_utf8` of the standard library. The contract claims that bytes become a text
/// where they are UTF-8, and which one.
#[verifier::external_body]
fn text_of_bytes(bytes: Vec<u8>) -> (r: Option<String>)
    ensures
        (match r {
            Some(text) => valid_utf8(bytes@) && text@ == decode_utf8(bytes@),
            None => !valid_utf8(bytes@),
        }),
{
    String::from_utf8(bytes).ok()
}

fn copy_bytes(bytes: &Vec<u8>, from: usize, to: usize) -> (r: Vec<u8>)
    requires
        from <= to <= bytes@.len(),
    ensures
        r@ == bytes@.subrange(from as int, to as int),
{
    let mut r: Vec<u8> = Vec::new();
    for i in from..to
        invariant
            from <= to <= bytes@.len(),
            r@ == bytes@.subrange(from as int, i as int),
    {
        r.push(bytes[i]);
        assert(r@ =~= bytes@.subrange(from as int, i + 1));
    }
    r
}

proof fn lemma_number_bound(bytes: Seq<u8>, limit: nat)
    requires
        limit == power256(bytes.len()),
    ensures
        number_of(bytes) < limit,
    decreases bytes.len(),
{
    if bytes.len() > 0 {
        lemma_number_bound(bytes.drop_last(), power256((bytes.len() - 1) as nat));
    }
}

/// How many numbers `count` bytes make.
pub open spec fn power256(count: nat) -> nat
    decreases count,
{
    if count == 0 {
        1
    } else {
        256 * power256((count - 1) as nat)
    }
}

fn read_number(bytes: &Vec<u8>, from: usize, count: usize) -> (r: u128)
    requires
        from + count <= bytes@.len(),
        count <= 16,
    ensures
        r == number_of(bytes@.subrange(from as int, from + count)),
        count == 2 ==> r <= 0xffff,
        count == 4 ==> r <= 0xffff_ffff,
{
    let n: usize = bytes.len();
    let mut value: u128 = 0;
    let ghost all = bytes@.subrange(from as int, from + count);
    proof {
        reveal_with_fuel(power256, 17);
    }
    for i in 0..count
        invariant
            n == bytes@.len(),
            from + count <= n,
            count <= 16,
            all == bytes@.subrange(from as int, from + count),
            value == number_of(all.take(i as int)),
            power256(16) == 0x1_0000_0000_0000_0000_0000_0000_0000_0000,
    {
        assert(all.take(i + 1).drop_last() == all.take(i as int));
        assert(all.take(i + 1).last() == bytes@[from + i]);
        proof {
            lemma_number_bound(all.take(i + 1), power256((i + 1) as nat));
            lemma_power_grows((i + 1) as nat, 16);
        }
        value = value * 256 + bytes[from + i] as u128;
    }
    assert(all.take(count as int) == all);
    proof {
        lemma_number_bound(all, power256(count as nat));
    }
    value
}

proof fn lemma_power_grows(a: nat, b: nat)
    requires
        a <= b,
    ensures
        power256(a) <= power256(b),
    decreases b,
{
    if a < b {
        lemma_power_grows(a, (b - 1) as nat);
    }
}

fn finish(target: TargetAddr, port: u16, used: usize) -> (r: Socks5Step)
    ensures
        r.step() == accepted(target.target(), port as nat, used as int),
{
    if port == 0 {
        Socks5Step::Refused(InboundError::InvalidTargetPort)
    } else {
        Socks5Step::Accepted { target, used }
    }
}

fn read_socks5_target(bytes: &Vec<u8>, kind: u8, at: usize) -> (r: Socks5Step)
    requires
        at <= bytes@.len(),
        bytes@.len() <= usize::MAX - 300,
    ensures
        r.step() == address_step(bytes@, kind, at as int),
{
    let n: usize = bytes.len();
    if kind == 1 || kind == 4 {
        let size: usize = if kind == 1 {
            4
        } else {
            16
        };
        if n < at + size + 2 {
            return Socks5Step::More(at + size + 2 - n);
        }
        let value: u128 = read_number(bytes, at, size);
        let port: u128 = read_number(bytes, at + size, 2);
        let ip = if kind == 1 {
            IpAddress::V4(value as u32)
        } else {
            IpAddress::V6(value)
        };
        return finish(
            TargetAddr::Socket(SocketAddress::new(ip, port as u16)),
            port as u16,
            at + size + 2,
        );
    }
    if kind != 3 {
        return Socks5Step::Refused(InboundError::UnsupportedSocksAddressType(kind));
    }
    if n < at + 1 {
        return Socks5Step::More(at + 1 - n);
    }
    let size: usize = bytes[at] as usize;
    if size == 0 {
        return Socks5Step::Refused(InboundError::InvalidSocksDomain);
    }
    let end: usize = at + 1 + size;
    if n < end {
        return Socks5Step::More(end - n);
    }
    let domain = match text_of_bytes(copy_bytes(bytes, at + 1, end)) {
        Some(domain) => domain,
        None => {
            return Socks5Step::Refused(InboundError::InvalidSocksDomain);
        },
    };
    if n < end + 2 {
        return Socks5Step::More(end + 2 - n);
    }
    let port: u128 = read_number(bytes, end, 2);
    finish(TargetAddr::DomainPort { domain, port: port as u16 }, port as u16, end + 2)
}

fn holds_byte(bytes: &Vec<u8>, from: usize, to: usize, byte: u8) -> (r: bool)
    requires
        from <= to <= bytes@.len(),
    ensures
        r == bytes@.subrange(from as int, to as int).contains(byte),
{
    let ghost part = bytes@.subrange(from as int, to as int);
    for i in from..to
        invariant
            from <= to <= bytes@.len(),
            part == bytes@.subrange(from as int, to as int),
            forall|j: int| 0 <= j < i - from ==> part[j] != byte,
    {
        assert(part[i - from] == bytes@[i as int]);
        if bytes[i] == byte {
            return true;
        }
    }
    false
}

/// How far a client has come with what it said so far, and all that it is answered on the way.
pub fn accept_socks5(bytes: &Vec<u8>) -> (r: (Socks5Step, Vec<u8>))
    requires
        bytes@.len() <= usize::MAX - 600,
    ensures
        (r.0.step(), r.1@) == handshake(bytes@),
{
    let n: usize = bytes.len();
    let silence: Vec<u8> = Vec::new();
    assert(silence@ =~= Seq::<u8>::empty());
    if n < 2 {
        return (Socks5Step::More(2 - n), silence);
    }
    if bytes[0] != SOCKS5_VERSION {
        return (
            Socks5Step::Refused(InboundError::UnsupportedSocksVersion(bytes[0])),
            silence,
        );
    }
    let at: usize = 2 + bytes[1] as usize;
    if n < at {
        return (Socks5Step::More(at - n), silence);
    }
    if !holds_byte(bytes, 2, at, SOCKS5_AUTH_NONE) {
        let reply: Vec<u8> = vec![SOCKS5_VERSION, SOCKS5_AUTH_UNACCEPTABLE];
        assert(reply@ =~= seq![SOCKS5_VERSION, SOCKS5_AUTH_UNACCEPTABLE]);
        return (Socks5Step::Refused(InboundError::NoAcceptableSocksAuth), reply);
    }
    let reply: Vec<u8> = vec![SOCKS5_VERSION, SOCKS5_AUTH_NONE];
    assert(reply@ =~= seq![SOCKS5_VERSION, SOCKS5_AUTH_NONE]);
    if n < at + 4 {
        return (Socks5Step::More(at + 4 - n), reply);
    }
    if bytes[at] != SOCKS5_VERSION {
        return (
            Socks5Step::Refused(InboundError::UnsupportedSocksVersion(bytes[at])),
            reply,
        );
    }
    if bytes[at + 2] != 0 {
        return (
            Socks5Step::Refused(
                InboundError::MalformedSocksRequest("reserved byte must be zero"),
            ),
            reply,
        );
    }
    if bytes[at + 1] != SOCKS5_COMMAND_CONNECT {
        return (
            Socks5Step::Refused(InboundError::UnsupportedSocksCommand(bytes[at + 1])),
            reply,
        );
    }
    (read_socks5_target(bytes, bytes[at + 3], at + 4), reply)
}

/// A client that is waited for is waited for exactly: with fewer bytes than are needed nothing
/// is decided and nothing more is answered. So no byte is read that does not belong to the
/// handshake.
pub proof fn handshake_waits_exactly(bytes: Seq<u8>, more: Seq<u8>)
    requires
        handshake(bytes).0 matches Step::More(count) && more.len() < count,
    ensures
        handshake(bytes + more).0 == Step::More(handshake(bytes).0->More_0 - more.len()),
        handshake(bytes + more).1 == handshake(bytes).1,
{
    let all = bytes + more;
    let n = bytes.len() as int;
    assert forall|i: int| 0 <= i < n implies all[i] == bytes[i] by {}
    if n >= 2 {
        let at = 2 + bytes[1] as int;
        if n >= at {
            assert(all.subrange(2, at) =~= bytes.subrange(2, at));
            if n >= at + 4 && bytes[at + 3] == 3 && n >= at + 5 {
                let end = at + 5 + bytes[at + 4] as int;
                if n >= end {
                    assert(all.subrange(at + 5, end) =~= bytes.subrange(at + 5, end));
                }
            }
        }
    }
}

/// What was decided stays decided, and what was answered stays answered, whatever else a client
/// says.
pub proof fn handshake_is_final(bytes: Seq<u8>, more: Seq<u8>)
    requires
        !(handshake(bytes).0 is More),
    ensures
        handshake(bytes + more) == handshake(bytes),
{
    let all = bytes + more;
    let n = bytes.len() as int;
    assert forall|i: int| 0 <= i < n implies all[i] == bytes[i] by {}
    let at = 2 + bytes[1] as int;
    if n >= 2 && n >= at {
        assert(all.subrange(2, at) =~= bytes.subrange(2, at));
        if n >= at + 4 {
            let kind = bytes[at + 3];
            let start = at + 4;
            if kind == 3 && n >= start + 1 {
                let end = start + 1 + bytes[start] as int;
                if n >= end {
                    assert(all.subrange(start + 1, end) =~= bytes.subrange(start + 1, end));
                    if n >= end + 2 {
                        assert(all.subrange(end, end + 2) =~= bytes.subrange(end, end + 2));
                    }
                }
            } else if kind == 1 && n >= start + 6 {
                assert(all.subrange(start, start + 4) =~= bytes.subrange(start, start + 4));
                assert(all.subrange(start + 4, start + 6) =~= bytes.subrange(
                    start + 4,
                    start + 6,
                ));
            } else if kind == 4 && n >= start + 18 {
                assert(all.subrange(start, start + 16) =~= bytes.subrange(start, start + 16));
                assert(all.subrange(start + 16, start + 18) =~= bytes.subrange(
                    start + 16,
                    start + 18,
                ));
            }
        }
    }
}

// ---------------------------------------------------------------------------
// Laws of the handshake
// ---------------------------------------------------------------------------
/// The byte of a number that has `k` bytes behind it.
pub open spec fn byte_of(n: nat, k: nat) -> nat
    decreases k,
{
    if k == 0 {
        n % 256
    } else {
        byte_of(n / 256, (k - 1) as nat)
    }
}

proof fn lemma_bytes_of_number(bytes: Seq<u8>, i: int)
    requires
        0 <= i < bytes.len(),
    ensures
        byte_of(number_of(bytes), (bytes.len() - 1 - i) as nat) == bytes[i],
    decreases bytes.len(),
{
    let front = number_of(bytes.drop_last());
    let last = bytes.last() as nat;
    assert((front * 256 + last) % 256 == last && (front * 256 + last) / 256 == front);
    if i < bytes.len() - 1 {
        lemma_bytes_of_number(bytes.drop_last(), i);
        assert(bytes.drop_last()[i] == bytes[i]);
    }
}

proof fn lemma_four_bytes(a: u8, b: u8, c: u8, d: u8)
    ensures
        number_of(seq![a, b, c, d]) == a * 0x100_0000 + b * 0x1_0000 + c * 0x100 + d,
        number_of(seq![a, b]) == a * 0x100 + b,
{
    reveal_with_fuel(number_of, 5);
    assert(seq![a, b, c, d].drop_last() =~= seq![a, b, c]);
    assert(seq![a, b, c].drop_last() =~= seq![a, b]);
    assert(seq![a, b].drop_last() =~= seq![a]);
    assert(seq![a].drop_last() =~= Seq::<u8>::empty());
}

/// A client that offers ways to prove who it is, `methods`, says `request` next and goes on
/// with `rest`.
pub open spec fn said(methods: Seq<u8>, request: Seq<u8>, rest: Seq<u8>) -> Seq<u8> {
    seq![5u8, methods.len() as u8] + methods + request + rest
}

proof fn lemma_said(methods: Seq<u8>, request: Seq<u8>, rest: Seq<u8>)
    requires
        methods.len() <= 255,
        methods.contains(0),
    ensures
        handshake(said(methods, request, rest)) == (
            request_step(said(methods, request, rest), methods.len() as int + 2),
            seq![5u8, 0u8],
        ),
        forall|i: int|
            0 <= i < request.len() ==> said(methods, request, rest)[methods.len() + 2 + i]
                == #[trigger] request[i],
        said(methods, request, rest).len() == methods.len() + 2 + request.len() + rest.len(),
{
    let bytes = said(methods, request, rest);
    assert(bytes.subrange(2, methods.len() as int + 2) =~= methods);
}

/// A request for an IPv4 address is accepted with the address of just its four bytes, and with
/// the port of the next two; what the client says behind it is left to the connection.
pub proof fn ipv4_requests_are_read(
    methods: Seq<u8>,
    a: u8,
    b: u8,
    c: u8,
    d: u8,
    high: u8,
    low: u8,
    rest: Seq<u8>,
)
    requires
        methods.len() <= 255,
        methods.contains(0),
        high != 0 || low != 0,
    ensures
        handshake(said(methods, seq![5u8, 1, 0, 1, a, b, c, d, high, low], rest)) == (
            Step::Accepted {
                target: Target::Socket(
                    SocketAddress {
                        ip: IpAddress::V4(
                            (a * 0x100_0000 + b * 0x1_0000 + c * 0x100 + d) as u32,
                        ),
                        scope: 0,
                        port: (high * 0x100 + low) as u16,
                    },
                ),
                used: methods.len() as int + 12,
            },
            seq![5u8, 0u8],
        ),
        ({
            let bits = (a * 0x100_0000 + b * 0x1_0000 + c * 0x100 + d) as u32;
            &&& bits / 0x100_0000 == a
            &&& bits / 0x1_0000 % 256 == b
            &&& bits / 0x100 % 256 == c
            &&& bits % 256 == d
        }),
        ({
            let port = (high * 0x100 + low) as u16;
            port / 256 == high && port % 256 == low
        }),
{
    lemma_ipv4_request(methods, a, b, c, d, high, low, rest);
    lemma_octets_of(a, b, c, d, (a * 0x100_0000 + b * 0x1_0000 + c * 0x100 + d) as u32);
    lemma_port_bytes(high, low, (high * 0x100 + low) as u16);
}

proof fn lemma_octets_of(a: u8, b: u8, c: u8, d: u8, bits: u32)
    requires
        bits == a * 0x100_0000 + b * 0x1_0000 + c * 0x100 + d,
    ensures
        bits / 0x100_0000 == a,
        bits / 0x1_0000 % 256 == b,
        bits / 0x100 % 256 == c,
        bits % 256 == d,
{
}

proof fn lemma_port_bytes(high: u8, low: u8, port: u16)
    requires
        port == high * 0x100 + low,
    ensures
        port / 256 == high,
        port % 256 == low,
{
}

proof fn lemma_ipv4_request(
    methods: Seq<u8>,
    a: u8,
    b: u8,
    c: u8,
    d: u8,
    high: u8,
    low: u8,
    rest: Seq<u8>,
)
    requires
        methods.len() <= 255,
        methods.contains(0),
        high != 0 || low != 0,
    ensures
        handshake(said(methods, seq![5u8, 1, 0, 1, a, b, c, d, high, low], rest)) == (
            Step::Accepted {
                target: Target::Socket(
                    SocketAddress {
                        ip: IpAddress::V4(
                            (a * 0x100_0000 + b * 0x1_0000 + c * 0x100 + d) as u32,
                        ),
                        scope: 0,
                        port: (high * 0x100 + low) as u16,
                    },
                ),
                used: methods.len() as int + 12,
            },
            seq![5u8, 0u8],
        ),
{
    let request = seq![5u8, 1, 0, 1, a, b, c, d, high, low];
    let bytes = said(methods, request, rest);
    let at = methods.len() as int + 6;
    lemma_said(methods, request, rest);
    assert(bytes[at - 4] == request[0] && bytes[at - 3] == request[1] && bytes[at - 2]
        == request[2] && bytes[at - 1] == request[3]);
    assert(bytes.subrange(at, at + 4) =~= seq![a, b, c, d]);
    assert(bytes.subrange(at + 4, at + 6) =~= seq![high, low]);
    lemma_four_bytes(a, b, c, d);
    lemma_four_bytes(high, low, c, d);
}

/// Requests for two IPv4 addresses, or for two ports, that differ in any byte go to two places.
pub proof fn ipv4_requests_stay_apart(
    methods: Seq<u8>,
    first: Seq<u8>,
    second: Seq<u8>,
    rest: Seq<u8>,
)
    requires
        methods.len() <= 255,
        methods.contains(0),
        first.len() == 6,
        second.len() == 6,
        first[4] != 0 || first[5] != 0,
        second[4] != 0 || second[5] != 0,
        first != second,
    ensures
        handshake(said(methods, seq![5u8, 1, 0, 1] + first, rest)).0 != handshake(
            said(methods, seq![5u8, 1, 0, 1] + second, rest),
        ).0,
{
    let (x, y) = (first, second);
    ipv4_requests_are_read(methods, x[0], x[1], x[2], x[3], x[4], x[5], rest);
    ipv4_requests_are_read(methods, y[0], y[1], y[2], y[3], y[4], y[5], rest);
    assert(seq![5u8, 1, 0, 1] + first =~= seq![5u8, 1, 0, 1, x[0], x[1], x[2], x[3], x[4], x[5]]);
    assert(seq![5u8, 1, 0, 1] + second =~= seq![
        5u8,
        1,
        0,
        1,
        y[0],
        y[1],
        y[2],
        y[3],
        y[4],
        y[5],
    ]);
    if x[0] == y[0] && x[1] == y[1] && x[2] == y[2] && x[3] == y[3] && x[4] == y[4] && x[5]
        == y[5] {
        assert(first =~= second);
    }
}

/// A request for an IPv6 address is accepted with the address of just its sixteen bytes, each in
/// its place, and with the port of the next two.
pub proof fn ipv6_requests_are_read(
    methods: Seq<u8>,
    octets: Seq<u8>,
    high: u8,
    low: u8,
    rest: Seq<u8>,
)
    requires
        methods.len() <= 255,
        methods.contains(0),
        octets.len() == 16,
        high != 0 || low != 0,
    ensures
        ({
            let r = handshake(
                said(methods, seq![5u8, 1, 0, 4] + octets + seq![high, low], rest),
            );
            &&& r.1 == seq![5u8, 0u8]
            &&& r.0 matches Step::Accepted { target, used } && {
                &&& used == methods.len() + 24
                &&& target matches Target::Socket(address) && {
                    &&& address.scope == 0
                    &&& address.port == high * 0x100 + low
                    &&& address.ip matches IpAddress::V6(bits) && forall|i: int|
                        0 <= i < 16 ==> byte_of(bits as nat, (15 - i) as nat)
                            == #[trigger] octets[i]
                }
            }
        }),
{
    let request = seq![5u8, 1, 0, 4] + octets + seq![high, low];
    let bytes = said(methods, request, rest);
    let at = methods.len() as int + 6;
    lemma_said(methods, request, rest);
    assert(bytes[at - 4] == request[0] && bytes[at - 3] == request[1] && bytes[at - 2]
        == request[2] && bytes[at - 1] == request[3]);
    assert(bytes.subrange(at, at + 16) =~= octets);
    assert(bytes.subrange(at + 16, at + 18) =~= seq![high, low]);
    lemma_four_bytes(high, low, 0, 0);
    reveal_with_fuel(power256, 17);
    lemma_number_bound(octets, power256(16));
    assert forall|i: int| 0 <= i < 16 implies byte_of(number_of(octets), (15 - i) as nat)
        == #[trigger] octets[i] by {
        lemma_bytes_of_number(octets, i);
    }
}

/// A request for a domain is accepted with just that domain, whatever text it is, and with the
/// port of the two bytes behind it.
pub proof fn domain_requests_are_read(
    methods: Seq<u8>,
    domain: Seq<char>,
    high: u8,
    low: u8,
    rest: Seq<u8>,
)
    requires
        methods.len() <= 255,
        methods.contains(0),
        1 <= encode_utf8(domain).len() <= 255,
        high != 0 || low != 0,
    ensures
        handshake(
            said(
                methods,
                seq![5u8, 1, 0, 3, encode_utf8(domain).len() as u8] + encode_utf8(domain)
                    + seq![high, low],
                rest,
            ),
        ) == (
            Step::Accepted {
                target: Target::DomainPort { domain, port: (high * 0x100 + low) as u16 },
                used: methods.len() as int + 9 + encode_utf8(domain).len(),
            },
            seq![5u8, 0u8],
        ),
{
    let name = encode_utf8(domain);
    let request = seq![5u8, 1, 0, 3, name.len() as u8] + name + seq![high, low];
    let bytes = said(methods, request, rest);
    let at = methods.len() as int + 6;
    lemma_said(methods, request, rest);
    assert(bytes[at - 4] == request[0] && bytes[at - 3] == request[1] && bytes[at - 2]
        == request[2] && bytes[at - 1] == request[3] && bytes[at] == request[4]);
    let end = at + 1 + name.len() as int;
    assert(bytes.subrange(at + 1, end) =~= name);
    assert(bytes.subrange(end, end + 2) =~= seq![high, low]);
    lemma_four_bytes(high, low, 0, 0);
    vstd::utf8::encode_utf8_valid_utf8(domain);
    vstd::utf8::encode_utf8_decode_utf8(domain);
}

/// A greeting of another version is refused without an answer; one that offers nothing but ways
/// to prove who one is is refused with the answer that none of them is accepted.
pub proof fn other_greetings_are_refused(version: u8, methods: Seq<u8>, rest: Seq<u8>)
    requires
        methods.len() <= 255,
        !methods.contains(0),
    ensures
        version != 5 ==> handshake(seq![version, methods.len() as u8] + rest) == (
            Step::Refused(InboundError::UnsupportedSocksVersion(version)),
            Seq::<u8>::empty(),
        ),
        handshake(said(methods, Seq::empty(), rest)) == (
            Step::Refused(InboundError::NoAcceptableSocksAuth),
            seq![5u8, 255u8],
        ),
{
    let bytes = said(methods, Seq::empty(), rest);
    assert(bytes.subrange(2, methods.len() as int + 2) =~= methods);
}

/// A request of another version is refused; then one whose third byte is not zero, then one to
/// do anything else than to connect, then one for another kind of address.
pub proof fn other_requests_are_refused(
    methods: Seq<u8>,
    version: u8,
    command: u8,
    reserved: u8,
    kind: u8,
    rest: Seq<u8>,
)
    requires
        methods.len() <= 255,
        methods.contains(0),
    ensures
        ({
            let r = handshake(said(methods, seq![version, command, reserved, kind], rest)).0;
            &&& version != 5 ==> r == Step::Refused(InboundError::UnsupportedSocksVersion(version))
            &&& version == 5 && reserved != 0 ==> r == Step::Refused(
                InboundError::MalformedSocksRequest("reserved byte must be zero"),
            )
            &&& version == 5 && reserved == 0 && command != 1 ==> r == Step::Refused(
                InboundError::UnsupportedSocksCommand(command),
            )
            &&& version == 5 && reserved == 0 && command == 1 && kind != 1 && kind != 3 && kind
                != 4 ==> r == Step::Refused(InboundError::UnsupportedSocksAddressType(kind))
        }),
{
    let at = methods.len() as int + 2;
    let request = seq![version, command, reserved, kind];
    let bytes = said(methods, request, rest);
    lemma_said(methods, request, rest);
    assert(bytes[at + 0] == request[0] && bytes[at + 1] == request[1] && bytes[at + 2]
        == request[2] && bytes[at + 3] == request[3]);
}

/// The port zero is refused, and so is a domain without a name.
pub proof fn empty_targets_are_refused(
    methods: Seq<u8>,
    a: u8,
    b: u8,
    c: u8,
    d: u8,
    rest: Seq<u8>,
)
    requires
        methods.len() <= 255,
        methods.contains(0),
    ensures
        handshake(said(methods, seq![5u8, 1, 0, 1, a, b, c, d, 0, 0], rest)).0 == Step::Refused(
            InboundError::InvalidTargetPort,
        ),
        handshake(said(methods, seq![5u8, 1, 0, 3, 0], rest)).0 == Step::Refused(
            InboundError::InvalidSocksDomain,
        ),
{
    let at = methods.len() as int + 2;
    let numbered = seq![5u8, 1, 0, 1, a, b, c, d, 0, 0];
    let bytes = said(methods, numbered, rest);
    lemma_said(methods, numbered, rest);
    assert(bytes[at + 0] == numbered[0] && bytes[at + 1] == numbered[1] && bytes[at + 2]
        == numbered[2] && bytes[at + 3] == numbered[3]);
    assert(bytes.subrange(at + 8, at + 10) =~= seq![0u8, 0u8]);
    lemma_four_bytes(0, 0, 0, 0);
    let nameless = seq![5u8, 1, 0, 3, 0];
    let named = said(methods, nameless, rest);
    lemma_said(methods, nameless, rest);
    assert(named[at + 0] == nameless[0] && named[at + 1] == nameless[1] && named[at + 2]
        == nameless[2] && named[at + 3] == nameless[3] && named[at + 4] == nameless[4]);
}

/// The answers to a client: a command, a kind of address and a failed connection each have
/// their own number, and every answer is ten bytes of version five with an address of zeros.
pub proof fn answers_are_told_apart(number: u8)
    ensures
        reply_bytes(number) == seq![5u8, number, 0, 1, 0, 0, 0, 0, 0, 0],
        refusal_reply(InboundError::UnsupportedSocksCommand(number)) == Some(7u8),
        refusal_reply(InboundError::UnsupportedSocksAddressType(number)) == Some(8u8),
        refusal_reply(InboundError::InvalidSocksDomain) == Some(8u8),
        refusal_reply(InboundError::InvalidTargetPort) == Some(8u8),
        refusal_reply(InboundError::MalformedSocksRequest("reserved byte must be zero"))
            == Some(1u8),
        refusal_reply(InboundError::UnsupportedSocksVersion(number)) is None,
        refusal_reply(InboundError::NoAcceptableSocksAuth) is None,
        socks5_dial_reply(Some(DialFailure::PermissionDenied)) == 2,
        socks5_dial_reply(Some(DialFailure::TimedOut)) == 4,
        socks5_dial_reply(Some(DialFailure::ConnectionRefused)) == 5,
        socks5_dial_reply(Some(DialFailure::Other)) == 1,
        socks5_dial_reply(None) == 1,
{
}

/// A mixed proxy takes the byte five for SOCKS and a capital of ASCII for HTTP, and nothing
/// else; a proxy of one protocol takes everything for that.
pub proof fn the_first_byte_tells_the_protocol(first: u8, rest: Seq<u8>)
    ensures
        ({
            let mixed = detected(ProxyProtocol::Mixed, seq![first] + rest);
            &&& mixed == DetectedProtocol::Socks5 <==> first == 5
            &&& mixed == DetectedProtocol::Http <==> 65 <= first <= 90
        }),
        detected(ProxyProtocol::Mixed, Seq::empty()) == DetectedProtocol::Unknown,
        detected(ProxyProtocol::Socks5h, rest) == DetectedProtocol::Socks5,
        detected(ProxyProtocol::Http, rest) == DetectedProtocol::Http,
{
}

} // verus!
