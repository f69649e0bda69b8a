//! IP addresses and socket addresses, how they are written and how they are read.
use crate::text;
use crate::text::{all_digits, all_hex_digits, decimal, decimal_reads_back, decimal_value, digits_up_to, first_index,
    first_split, hex_value, hexadecimal, hexadecimal_reads_back, joined, lemma_first_index,
    lemma_first_index_unique, lemma_joined_front, pieces, splitting_undoes_joining, texts};
use vstd::prelude::*;

verus! {

/// An address of the Internet Protocol, as the number that its bits write.
#[derive(Debug, Clone, Copy, PartialEq, Eq, Hash, Structural)]
pub enum IpAddress {
    V4(u32),
    V6(u128),
}

/// The address 127.0.0.1.
pub const LOCALHOST_V4: u32 = 0x7f00_0001;

/// An address to listen at or to connect to. An IPv6 address may name the scope that it
/// belongs to; zero stands for none.
#[derive(Debug, Clone, Copy, PartialEq, Eq, Hash, Structural)]
pub struct SocketAddress {
    pub ip: IpAddress,
    pub scope: u32,
    pub port: u16,
}

impl IpAddress {
    /// The address that stands for every local address.
    #[verifier::allow_in_spec]
    pub fn is_unspecified(self) -> bool
        returns
            (match self {
                IpAddress::V4(bits) => bits == 0,
                IpAddress::V6(bits) => bits == 0,
            }),
    {
        match self {
            IpAddress::V4(bits) => bits == 0,
            IpAddress::V6(bits) => bits == 0,
        }
    }

    /// An address of the machine itself: 127.0.0.0/8, or ::1.
    #[verifier::allow_in_spec]
    pub fn is_loopback(self) -> bool
        returns
            (match self {
                IpAddress::V4(bits) => bits / 0x100_0000 == 127,
                IpAddress::V6(bits) => bits == 1,
            }),
    {
        match self {
            IpAddress::V4(bits) => bits / 0x100_0000 == 127,
            IpAddress::V6(bits) => bits == 1,
        }
    }

    /// Writes the address.
    pub fn text(self) -> (r: String)
        ensures
            r@ == ip_text(self),
    {
        match self {
            IpAddress::V4(bits) => write_ipv4(bits),
            IpAddress::V6(bits) => write_ipv6(bits),
        }
    }
}

impl SocketAddress {
    /// Only an IPv6 address has a scope.
    pub open spec fn wf(self) -> bool {
        self.ip is V4 ==> self.scope == 0
    }

    /// The address `ip` with the port `port`, in no scope.
    #[verifier::allow_in_spec]
    pub fn new(ip: IpAddress, port: u16) -> SocketAddress
        returns
            (SocketAddress { ip, scope: 0, port }),
    {
        SocketAddress { ip, scope: 0, port }
    }

    /// Writes the address.
    pub fn text(self) -> (r: String)
        ensures
            r@ == socket_text(self),
    {
        match self.ip {
            IpAddress::V4(bits) => {
                let mut r = write_ipv4(bits);
                r.push(':');
                r.append(text::decimal_text(self.port as u64).as_str());
                assert(r@ =~= socket_text(self));
                r
            },
            IpAddress::V6(bits) => {
                let mut r = String::new();
                r.push('[');
                r.append(write_ipv6(bits).as_str());
                if self.scope != 0 {
                    r.push('%');
                    r.append(text::decimal_text(self.scope as u64).as_str());
                }
                r.push(']');
                r.push(':');
                r.append(text::decimal_text(self.port as u64).as_str());
                assert(r@ =~= socket_text(self));
                r
            },
        }
    }

    /// The address that a client on this machine connects to in order to reach a listener
    /// at this address: an unspecified address stands for the loopback address.
    pub fn reachable(self) -> (r: SocketAddress)
        ensures
            r == reachable_address(self),
    {
        if !self.ip.is_unspecified() {
            return self;
        }
        match self.ip {
            IpAddress::V4(_) => SocketAddress::new(IpAddress::V4(LOCALHOST_V4), self.port),
            IpAddress::V6(_) => SocketAddress::new(IpAddress::V6(1), self.port),
        }
    }
}

/// The address itself, but for an unspecified one: the loopback address of its family.
pub open spec fn reachable_address(address: SocketAddress) -> SocketAddress {
    if !address.ip.is_unspecified() {
        address
    } else {
        match address.ip {
            IpAddress::V4(_) => SocketAddress::new(IpAddress::V4(LOCALHOST_V4), address.port),
            IpAddress::V6(_) => SocketAddress::new(IpAddress::V6(1), address.port),
        }
    }
}

// ---------------------------------------------------------------------------
// How addresses are written
// ---------------------------------------------------------------------------
/// The base-65536 digits of `bits`, `count` of them, the most significant first.
pub open spec fn groups_of(bits: nat, count: nat) -> Seq<u16>
    decreases count,
{
    if count == 0 {
        Seq::empty()
    } else {
        groups_of(bits / 65536, (count - 1) as nat).push((bits % 65536) as u16)
    }
}

/// The number that base-65536 digits write.
pub open spec fn groups_value(groups: Seq<u16>) -> nat
    decreases groups.len(),
{
    if groups.len() == 0 {
        0
    } else {
        65536 * groups_value(groups.drop_last()) + groups.last() as nat
    }
}

/// The dotted form of an IPv4 address.
pub open spec fn ipv4_text(bits: u32) -> Seq<char> {
    decimal((bits / 0x100_0000) as nat) + seq!['.'] + decimal(((bits / 0x1_0000) % 256) as nat)
        + seq!['.'] + decimal(((bits / 0x100) % 256) as nat) + seq!['.'] + decimal(
        (bits % 256) as nat,
    )
}

/// How many zeros stand in `groups` from `start` on without a break.
pub open spec fn zero_run(groups: Seq<u16>, start: int) -> int
    decreases groups.len() - start,
{
    if 0 <= start < groups.len() && groups[start] == 0 {
        1 + zero_run(groups, start + 1)
    } else {
        0
    }
}

/// Start and length of the first of the longest runs of zeros that start at `from` or later.
pub open spec fn longest_zero_run(groups: Seq<u16>, from: int) -> (int, int)
    decreases groups.len() - from,
{
    if 0 <= from < groups.len() {
        let rest = longest_zero_run(groups, from + 1);
        let here = zero_run(groups, from);
        if here > 0 && here >= rest.1 {
            (from, here)
        } else {
            rest
        }
    } else {
        (from, 0)
    }
}

/// Groups in hexadecimal with a colon between neighbours.
pub open spec fn group_list_text(groups: Seq<u16>) -> Seq<char> {
    joined(groups.map_values(|g: u16| hexadecimal(g as nat)), seq![':'])
}

/// The canonical form of an IPv6 address: a mapped IPv4 address in dotted form, else the first
/// of the longest runs of two or more zero groups as a double colon.
pub open spec fn ipv6_text(bits: u128) -> Seq<char> {
    let groups = groups_of(bits as nat, 8);
    let run = longest_zero_run(groups, 0);
    if bits / 0x1_0000_0000 == 0xffff {
        seq![':', ':', 'f', 'f', 'f', 'f', ':'] + ipv4_text((bits % 0x1_0000_0000) as u32)
    } else if run.1 > 1 {
        group_list_text(groups.take(run.0)) + seq![':', ':'] + group_list_text(
            groups.skip(run.0 + run.1),
        )
    } else {
        group_list_text(groups)
    }
}

/// How an IP address is written.
pub open spec fn ip_text(ip: IpAddress) -> Seq<char> {
    match ip {
        IpAddress::V4(bits) => ipv4_text(bits),
        IpAddress::V6(bits) => ipv6_text(bits),
    }
}

/// How a socket address is written: an IPv6 address in brackets, with its scope where it has
/// one, then the port.
pub open spec fn socket_text(address: SocketAddress) -> Seq<char> {
    match address.ip {
        IpAddress::V4(bits) => ipv4_text(bits) + seq![':'] + decimal(address.port as nat),
        IpAddress::V6(bits) => if address.scope == 0 {
            seq!['['] + ipv6_text(bits) + seq![']', ':'] + decimal(address.port as nat)
        } else {
            seq!['['] + ipv6_text(bits) + seq!['%'] + decimal(address.scope as nat)
                + seq![']', ':'] + decimal(address.port as nat)
        },
    }
}

fn write_ipv4(bits: u32) -> (r: String)
    ensures
        r@ == ipv4_text(bits),
{
    let mut r = text::decimal_text((bits / 0x100_0000) as u64);
    r.push('.');
    r.append(text::decimal_text(((bits / 0x1_0000) % 256) as u64).as_str());
    r.push('.');
    r.append(text::decimal_text(((bits / 0x100) % 256) as u64).as_str());
    r.push('.');
    r.append(text::decimal_text((bits % 256) as u64).as_str());
    assert(r@ =~= ipv4_text(bits));
    r
}

/// The eight groups of an IPv6 address.
fn split_groups(bits: u128, count: usize) -> (r: Vec<u16>)
    ensures
        r@ == groups_of(bits as nat, count as nat),
        r@.len() == count,
    decreases count,
{
    if count == 0 {
        Vec::new()
    } else {
        let mut r = split_groups(bits / 65536, count - 1);
        r.push((bits % 65536) as u16);
        r
    }
}

fn write_group_list(groups: &Vec<u16>, from: usize, to: usize) -> (r: String)
    requires
        from <= to <= groups@.len(),
    ensures
        r@ == group_list_text(groups@.subrange(from as int, to as int)),
{
    let mut parts: Vec<String> = Vec::new();
    let ghost range = groups@.subrange(from as int, to as int);
    for i in from..to
        invariant
            from <= i <= to <= groups@.len(),
            range == groups@.subrange(from as int, to as int),
            texts(parts@) == range.take(i - from).map_values(|g: u16| hexadecimal(g as nat)),
    {
        let ghost before = texts(parts@);
        parts.push(text::hexadecimal_text(groups[i] as u64));
        assert(range.take(i + 1 - from) == range.take(i - from).push(groups@[i as int]));
        assert(texts(parts@) =~= before.push(hexadecimal(groups@[i as int] as nat)));
        assert(texts(parts@) =~= range.take(i + 1 - from).map_values(
            |g: u16| hexadecimal(g as nat),
        ));
    }
    assert(range.take(to - from) == range);
    let mut separator = String::new();
    separator.push(':');
    assert(separator@ =~= seq![':']);
    text::join(&parts, separator.as_str())
}

/// The first of the longest runs of zeros.
fn find_zero_run(groups: &Vec<u16>) -> (r: (usize, usize))
    ensures
        longest_zero_run(groups@, 0) == (r.0 as int, r.1 as int),
        r.0 + r.1 <= groups@.len(),
{
    let n: usize = groups.len();
    let mut i: usize = n;
    let mut here: usize = 0;
    let mut best: (usize, usize) = (n, 0);
    while i > 0
        invariant
            i <= n == groups@.len(),
            here == zero_run(groups@, i as int),
            i + here <= n,
            longest_zero_run(groups@, i as int) == (best.0 as int, best.1 as int),
            best.0 + best.1 <= n,
        decreases i,
    {
        i = i - 1;
        if groups[i] == 0 {
            here = here + 1;
        } else {
            here = 0;
        }
        if here > 0 && here >= best.1 {
            best = (i, here);
        }
    }
    best
}

fn write_ipv6(bits: u128) -> (r: String)
    ensures
        r@ == ipv6_text(bits),
{
    let mut r = String::new();
    if bits / 0x1_0000_0000 == 0xffff {
        r.push(':');
        r.push(':');
        r.push('f');
        r.push('f');
        r.push('f');
        r.push('f');
        r.push(':');
        r.append(write_ipv4((bits % 0x1_0000_0000) as u32).as_str());
        assert(r@ =~= ipv6_text(bits));
        return r;
    }
    let groups = split_groups(bits, 8);
    let run = find_zero_run(&groups);
    assert(groups@.subrange(0, run.0 as int) == groups@.take(run.0 as int));
    assert(groups@.subrange(run.0 + run.1, 8) == groups@.skip(run.0 + run.1));
    assert(groups@.subrange(0, 8) == groups@);
    if run.1 > 1 {
        r.append(write_group_list(&groups, 0, run.0).as_str());
        r.push(':');
        r.push(':');
        r.append(write_group_list(&groups, run.0 + run.1, 8).as_str());
        assert(r@ =~= ipv6_text(bits));
        r
    } else {
        write_group_list(&groups, 0, 8)
    }
}

// ---------------------------------------------------------------------------
// How addresses are read
// ---------------------------------------------------------------------------
/// A decimal octet: at most three digits, no leading zero, at most 255.
pub open spec fn octet_value(s: Seq<char>) -> Option<nat> {
    if 1 <= s.len() <= 3 && all_digits(s) && (s.len() > 1 ==> s[0] != '0') && decimal_value(s)
        <= 255 {
        Some(decimal_value(s))
    } else {
        None
    }
}

/// The address that a dotted form names: four octets.
pub open spec fn read_ipv4(s: Seq<char>) -> Option<u32> {
    let parts = pieces(s, '.');
    if parts.len() == 4 && octet_value(parts[0]) is Some && octet_value(parts[1]) is Some
        && octet_value(parts[2]) is Some && octet_value(parts[3]) is Some {
        Some(
            (octet_value(parts[0])->0 * 0x100_0000 + octet_value(parts[1])->0 * 0x1_0000
                + octet_value(parts[2])->0 * 0x100 + octet_value(parts[3])->0) as u32,
        )
    } else {
        None
    }
}

/// One to four hexadecimal digits.
pub open spec fn is_group(s: Seq<char>) -> bool {
    1 <= s.len() <= 4 && all_hex_digits(s)
}

/// The values of a list of groups.
pub open spec fn group_values(parts: Seq<Seq<char>>) -> Seq<u16> {
    parts.map_values(|p: Seq<char>| hex_value(p) as u16)
}

/// Whether every part is a group.
pub open spec fn all_groups(parts: Seq<Seq<char>>) -> bool {
    forall|i: int| 0 <= i < parts.len() ==> is_group(#[trigger] parts[i])
}

/// The groups of a list with a colon between neighbours; where `dotted_end` allows it, the
/// last two of them may be written as one dotted IPv4 address.
pub open spec fn read_groups(s: Seq<char>, dotted_end: bool) -> Option<Seq<u16>> {
    let parts = pieces(s, ':');
    if s.len() == 0 {
        Some(Seq::empty())
    } else if all_groups(parts) {
        Some(group_values(parts))
    } else if dotted_end && all_groups(parts.drop_last()) && read_ipv4(parts.last()) is Some {
        let tail = read_ipv4(parts.last())->0;
        Some(
            group_values(parts.drop_last()).push((tail / 0x1_0000) as u16).push(
                (tail % 0x1_0000) as u16,
            ),
        )
    } else {
        None
    }
}

/// Where two colons first stand side by side from `from` on; the length of `s` where they
/// do not.
pub open spec fn double_colon(s: Seq<char>, from: int) -> int
    decreases s.len() - from,
{
    if from + 1 >= s.len() {
        s.len() as int
    } else if s[from] == ':' && s[from + 1] == ':' {
        from
    } else {
        double_colon(s, from + 1)
    }
}

/// The address that an IPv6 text names: eight groups, or fewer around one double colon that
/// stands for the missing ones, at least one.
pub open spec fn read_ipv6(s: Seq<char>) -> Option<u128> {
    let i = double_colon(s, 0);
    if i == s.len() {
        match read_groups(s, true) {
            Some(groups) => if groups.len() == 8 {
                Some(groups_value(groups) as u128)
            } else {
                None
            },
            None => None,
        }
    } else {
        match (read_groups(s.take(i), false), read_groups(s.skip(i + 2), true)) {
            (Some(head), Some(tail)) => if head.len() + tail.len() <= 7 {
                Some(groups_value(head + zeros(8 - head.len() - tail.len()) + tail) as u128)
            } else {
                None
            },
            _ => None,
        }
    }
}

/// So many zero groups.
pub open spec fn zeros(count: int) -> Seq<u16> {
    Seq::new(count as nat, |i: int| 0u16)
}

/// The IP address that a text names.
pub open spec fn read_ip(s: Seq<char>) -> Option<IpAddress> {
    if read_ipv4(s) is Some {
        Some(IpAddress::V4(read_ipv4(s)->0))
    } else if read_ipv6(s) is Some {
        Some(IpAddress::V6(read_ipv6(s)->0))
    } else {
        None
    }
}

/// A port behind a colon.
pub open spec fn read_port(s: Seq<char>) -> Option<u16> {
    if s.len() > 0 && s[0] == ':' && digits_up_to(s.drop_first(), 65535) is Some {
        Some(digits_up_to(s.drop_first(), 65535)->0 as u16)
    } else {
        None
    }
}

/// The IPv6 address and scope between brackets.
pub open spec fn read_scoped(s: Seq<char>) -> Option<(u128, u32)> {
    match first_split(s, '%') {
        Some((ip, scope)) => if read_ipv6(ip) is Some && digits_up_to(scope, 0xffff_ffff)
            is Some {
            Some((read_ipv6(ip)->0, digits_up_to(scope, 0xffff_ffff)->0 as u32))
        } else {
            None
        },
        None => if read_ipv6(s) is Some {
            Some((read_ipv6(s)->0, 0))
        } else {
            None
        },
    }
}

/// The socket address that a text names: a dotted IPv4 address or a bracketed IPv6 address,
/// then the port.
pub open spec fn read_socket(s: Seq<char>) -> Option<SocketAddress> {
    let colon = first_index(s, ':');
    let close = first_index(s, ']');
    if read_ipv4(s.take(colon)) is Some && read_port(s.skip(colon)) is Some {
        Some(
            SocketAddress::new(
                IpAddress::V4(read_ipv4(s.take(colon))->0),
                read_port(s.skip(colon))->0,
            ),
        )
    } else if close < s.len() && s[0] == '[' && read_scoped(s.subrange(1, close)) is Some
        && read_port(s.skip(close + 1)) is Some {
        let inner = read_scoped(s.subrange(1, close))->0;
        Some(
            SocketAddress {
                ip: IpAddress::V6(inner.0),
                scope: inner.1,
                port: read_port(s.skip(close + 1))->0,
            },
        )
    } else {
        None
    }
}

fn parse_octet(s: &str) -> (r: Option<u32>)
    ensures
        (match r {
            Some(n) => octet_value(s@) == Some(n as nat) && n <= 255,
            None => octet_value(s@) is None,
        }),
{
    let n: usize = s.unicode_len();
    if n == 0 || n > 3 || (n > 1 && s.get_char(0) == '0') {
        return None;
    }
    match text::parse_digits(s, 255) {
        Some(value) => Some(value as u32),
        None => None,
    }
}

/// Reads a dotted IPv4 address.
pub fn parse_ipv4(s: &str) -> (r: Option<u32>)
    ensures
        r == read_ipv4(s@),
{
    let parts = text::split(s, '.');
    assert(texts(parts@).len() == parts@.len());
    if parts.len() != 4 {
        return None;
    }
    assert(forall|i: int| 0 <= i < 4 ==> texts(parts@)[i] == parts@[i]@);
    let a = parse_octet(parts[0].as_str());
    let b = parse_octet(parts[1].as_str());
    let c = parse_octet(parts[2].as_str());
    let d = parse_octet(parts[3].as_str());
    match (a, b, c, d) {
        (Some(a), Some(b), Some(c), Some(d)) => {
            Some(a * 0x100_0000 + b * 0x1_0000 + c * 0x100 + d)
        },
        _ => None,
    }
}

/// Reads a list of groups.
fn parse_groups(s: &str, dotted_end: bool) -> (r: Option<Vec<u16>>)
    ensures
        (match r {
            Some(groups) => read_groups(s@, dotted_end) == Some(groups@),
            None => read_groups(s@, dotted_end) is None,
        }),
{
    let mut groups: Vec<u16> = Vec::new();
    if s.is_empty() {
        return Some(groups);
    }
    let parts = text::split(s, ':');
    let ghost all = texts(parts@);
    assert(all.len() == parts@.len());
    proof {
        lemma_pieces_not_empty(s@, ':');
    }
    let last: usize = parts.len() - 1;
    for i in 0..last
        invariant
            all == texts(parts@),
            all.len() == parts@.len() == last + 1,
            forall|j: int| 0 <= j < i ==> is_group(#[trigger] all[j]),
            groups@ == group_values(all.take(i as int)),
            all == pieces(s@, ':'),
            s@.len() > 0,
    {
        assert(all[i as int] == parts@[i as int]@);
        match text::parse_hex_group(parts[i].as_str()) {
            Some(value) => {
                groups.push(value);
                assert(all.take(i + 1) == all.take(i as int).push(all[i as int]));
                assert(groups@ =~= group_values(all.take(i + 1)));
            },
            None => {
                assert(!is_group(all[i as int]));
                assert(all.drop_last()[i as int] == all[i as int]);
                return None;
            },
        }
    }
    assert(all.take(last as int) == all.drop_last());
    assert(all.last() == parts@[last as int]@);
    assert forall|j: int| 0 <= j < last implies is_group(#[trigger] all.drop_last()[j]) by {
        assert(all.drop_last()[j] == all[j]);
    }
    match text::parse_hex_group(parts[last].as_str()) {
        Some(value) => {
            groups.push(value);
            assert(groups@ =~= group_values(all));
            return Some(groups);
        },
        None => {
            assert(!is_group(all[last as int]));
        },
    }
    if dotted_end {
        match parse_ipv4(parts[last].as_str()) {
            Some(tail) => {
                groups.push((tail / 0x1_0000) as u16);
                groups.push((tail % 0x1_0000) as u16);
                return Some(groups);
            },
            None => {},
        }
    }
    None
}

proof fn lemma_pieces_not_empty(s: Seq<char>, c: char)
    ensures
        pieces(s, c).len() > 0,
{
    reveal_with_fuel(pieces, 1);
}

/// The number that eight groups write.
fn join_groups(groups: &Vec<u16>) -> (r: u128)
    requires
        groups@.len() == 8,
    ensures
        r as nat == groups_value(groups@),
{
    let mut value: u128 = 0;
    for i in 0..8
        invariant
            groups@.len() == 8,
            value as nat == groups_value(groups@.take(i as int)),
            i == 0 ==> value == 0,
            i == 1 ==> value < 0x1_0000,
            i == 2 ==> value < 0x1_0000_0000,
            i == 3 ==> value < 0x1_0000_0000_0000,
            i == 4 ==> value < 0x1_0000_0000_0000_0000,
            i == 5 ==> value < 0x1_0000_0000_0000_0000_0000,
            i == 6 ==> value < 0x1_0000_0000_0000_0000_0000_0000,
            i == 7 ==> value < 0x1_0000_0000_0000_0000_0000_0000_0000,
    {
        assert(groups@.take(i + 1).drop_last() == groups@.take(i as int));
        value = value * 65536 + groups[i] as u128;
    }
    assert(groups@.take(8) == groups@);
    value
}

fn find_double_colon(s: &str) -> (r: usize)
    ensures
        r == double_colon(s@, 0),
        r <= s@.len(),
        r < s@.len() ==> r + 1 < s@.len(),
{
    let chars = text::chars_of(s);
    let n: usize = chars.len();
    let mut i: usize = 0;
    while i < n && i + 1 < n
        invariant
            chars@ == s@,
            n == chars@.len(),
            i <= n,
            double_colon(s@, 0) == double_colon(s@, i as int),
        decreases n - i,
    {
        if chars[i] == ':' && chars[i + 1] == ':' {
            return i;
        }
        i = i + 1;
    }
    n
}

/// Reads an IPv6 address.
pub fn parse_ipv6(s: &str) -> (r: Option<u128>)
    ensures
        r == read_ipv6(s@),
{
    let n: usize = s.unicode_len();
    let i = find_double_colon(s);
    if i == n {
        match parse_groups(s, true) {
            Some(groups) => if groups.len() == 8 {
                Some(join_groups(&groups))
            } else {
                None
            },
            None => None,
        }
    } else {
        let head_text = s.substring_char(0, i);
        let tail_text = s.substring_char(i + 2, n);
        assert(head_text@ == s@.take(i as int));
        assert(tail_text@ == s@.skip(i + 2));
        let head = parse_groups(head_text, false);
        let tail = parse_groups(tail_text, true);
        match (head, tail) {
            (Some(head), Some(tail)) => {
                if head.len() > 7 || tail.len() > 7 || head.len() + tail.len() > 7 {
                    return None;
                }
                let missing: usize = 8 - head.len() - tail.len();
                let mut groups: Vec<u16> = head;
                let ghost start = groups@;
                for k in 0..missing
                    invariant
                        groups@ == start + zeros(k as int),
                {
                    groups.push(0);
                    assert(groups@ =~= start + zeros(k + 1));
                }
                for k in 0..tail.len()
                    invariant
                        groups@ == start + zeros(missing as int) + tail@.take(k as int),
                {
                    groups.push(tail[k]);
                    assert(tail@.take(k + 1) == tail@.take(k as int).push(tail@[k as int]));
                    assert(groups@ =~= start + zeros(missing as int) + tail@.take(k + 1));
                }
                assert(tail@.take(tail@.len() as int) == tail@);
                Some(join_groups(&groups))
            },
            _ => None,
        }
    }
}

/// Reads an IP address of either family.
pub fn parse_ip(s: &str) -> (r: Option<IpAddress>)
    ensures
        r == read_ip(s@),
{
    match parse_ipv4(s) {
        Some(bits) => Some(IpAddress::V4(bits)),
        None => match parse_ipv6(s) {
            Some(bits) => Some(IpAddress::V6(bits)),
            None => None,
        },
    }
}

fn parse_port(s: &str) -> (r: Option<u16>)
    ensures
        r == read_port(s@),
{
    let n: usize = s.unicode_len();
    if n == 0 || s.get_char(0) != ':' {
        return None;
    }
    let digits = s.substring_char(1, n);
    assert(digits@ == s@.drop_first());
    match text::parse_digits(digits, 65535) {
        Some(port) => Some(port as u16),
        None => None,
    }
}

fn parse_scoped(s: &str) -> (r: Option<(u128, u32)>)
    ensures
        r == read_scoped(s@),
{
    match text::split_once(s, '%') {
        Some((ip, scope)) => match (parse_ipv6(ip), text::parse_digits(scope, 0xffff_ffff)) {
            (Some(bits), Some(scope)) => Some((bits, scope as u32)),
            _ => None,
        },
        None => match parse_ipv6(s) {
            Some(bits) => Some((bits, 0)),
            None => None,
        },
    }
}

/// Reads a socket address.
pub fn parse_socket(s: &str) -> (r: Option<SocketAddress>)
    ensures
        r == read_socket(s@),
        r matches Some(address) ==> address.wf(),
{
    let n: usize = s.unicode_len();
    let colon = match text::find_char(s, ':') {
        Some(i) => i,
        None => n,
    };
    let host = s.substring_char(0, colon);
    let rest = s.substring_char(colon, n);
    assert(host@ == s@.take(colon as int));
    assert(rest@ == s@.skip(colon as int));
    match (parse_ipv4(host), parse_port(rest)) {
        (Some(bits), Some(port)) => return Some(SocketAddress::new(IpAddress::V4(bits), port)),
        _ => {},
    }
    match text::find_char(s, ']') {
        Some(close) => {
            if s.get_char(0) != '[' {
                return None;
            }
            proof {
                lemma_first_index(s@, ']');
            }
            let inner = s.substring_char(1, close);
            let rest = s.substring_char(close + 1, n);
            assert(rest@ == s@.skip(close + 1));
            match (parse_scoped(inner), parse_port(rest)) {
                (Some((bits, scope)), Some(port)) => Some(
                    SocketAddress { ip: IpAddress::V6(bits), scope, port },
                ),
                _ => None,
            }
        },
        None => None,
    }
}

// ---------------------------------------------------------------------------
// What is written is read back
// ---------------------------------------------------------------------------
/// A character of the text of an address: a hexadecimal digit, a colon or a dot.
pub open spec fn is_address_char(c: char) -> bool {
    text::is_hex_digit(c) || c == ':' || c == '.'
}

/// Whether `s` is made of such characters.
pub open spec fn is_address_text(s: Seq<char>) -> bool {
    forall|i: int| 0 <= i < s.len() ==> is_address_char(#[trigger] s[i])
}

/// No two colons stand side by side, nor one at either end.
spec fn has_single_colons(s: Seq<char>) -> bool {
    &&& s.len() > 0 ==> s[0] != ':' && s.last() != ':'
    &&& forall|i: int| 0 <= i < s.len() - 1 && #[trigger] s[i] == ':' ==> s[i + 1] != ':'
}

/// The four octets of an IPv4 address, in decimal.
spec fn octet_texts(bits: u32) -> Seq<Seq<char>> {
    seq![
        decimal((bits / 0x100_0000) as nat),
        decimal(((bits / 0x1_0000) % 256) as nat),
        decimal(((bits / 0x100) % 256) as nat),
        decimal((bits % 256) as nat),
    ]
}

proof fn lemma_octet_reads_back(n: nat)
    requires
        n < 256,
    ensures
        octet_value(decimal(n)) == Some(n),
        all_digits(decimal(n)),
        !decimal(n).contains('.'),
{
    decimal_reads_back(n);
    if n < 10 {
        assert(decimal(n).len() == 1);
    }
}

proof fn lemma_ipv4_is_joined(bits: u32)
    ensures
        ipv4_text(bits) == joined(octet_texts(bits), seq!['.']),
{
    let parts = octet_texts(bits);
    let dot = seq!['.'];
    assert(parts.drop_last().drop_last().drop_last() =~= seq![parts[0]]);
    assert(joined(seq![parts[0]], dot) == parts[0]);
    assert(joined(parts.drop_last().drop_last(), dot) == parts[0] + dot + parts[1]);
    assert(joined(parts.drop_last(), dot) == parts[0] + dot + parts[1] + dot + parts[2]);
    assert(ipv4_text(bits) =~= joined(parts, dot));
}

proof fn lemma_octets(bits: u32)
    ensures
        bits / 0x100_0000 < 256,
        (bits / 0x100_0000) * 0x100_0000 + ((bits / 0x1_0000) % 256) * 0x1_0000 + ((bits / 0x100)
            % 256) * 0x100 + bits % 256 == bits,
{
}

/// Digits that are joined with dots are digits and dots.
proof fn lemma_joined_digits(parts: Seq<Seq<char>>)
    requires
        forall|i: int| 0 <= i < parts.len() ==> all_digits(#[trigger] parts[i]),
    ensures
        forall|i: int|
            0 <= i < joined(parts, seq!['.']).len() ==> text::is_digit(
                #[trigger] joined(parts, seq!['.'])[i],
            ) || joined(parts, seq!['.'])[i] == '.',
    decreases parts.len(),
{
    let s = joined(parts, seq!['.']);
    if parts.len() == 1 {
        assert(all_digits(parts[0]));
    } else if parts.len() > 1 {
        let front = parts.drop_last();
        let head = joined(front, seq!['.']);
        let last = parts[parts.len() - 1];
        assert(all_digits(last));
        assert forall|i: int| 0 <= i < front.len() implies all_digits(#[trigger] front[i]) by {
            assert(front[i] == parts[i]);
        }
        lemma_joined_digits(front);
        let n = head.len() as int;
        assert(s == head + seq!['.'] + last);
        assert forall|i: int| 0 <= i < s.len() implies text::is_digit(#[trigger] s[i]) || s[i]
            == '.' by {
            if i < n {
                assert(s[i] == head[i]);
            } else if i > n {
                assert(s[i] == last[i - n - 1]);
            }
        }
    }
}

/// The dotted form of an IPv4 address names that address.
#[verifier::rlimit(40)]
pub proof fn ipv4_text_reads_back(bits: u32)
    ensures
        read_ipv4(ipv4_text(bits)) == Some(bits),
        is_address_text(ipv4_text(bits)),
        !ipv4_text(bits).contains(':'),
        ipv4_text(bits).contains('.'),
        ipv4_text(bits).len() > 0,
{
    let s = ipv4_text(bits);
    let parts = octet_texts(bits);
    let a = (bits / 0x100_0000) as nat;
    lemma_octets(bits);
    lemma_octet_reads_back(a);
    lemma_octet_reads_back(((bits / 0x1_0000) % 256) as nat);
    lemma_octet_reads_back(((bits / 0x100) % 256) as nat);
    lemma_octet_reads_back((bits % 256) as nat);
    lemma_ipv4_is_joined(bits);
    assert forall|i: int| 0 <= i < parts.len() implies !(#[trigger] parts[i]).contains('.')
        && all_digits(parts[i]) by {
        assert(i == 0 || i == 1 || i == 2 || i == 3);
    }
    lemma_joined_digits(parts);
    assert(is_address_text(s) && !s.contains(':'));
    assert(s.contains('.')) by {
        lemma_joined_front(parts, seq!['.']);
        assert(s[parts[0].len() as int] == '.');
    }
    assert(read_ipv4(s) == Some(bits)) by {
        splitting_undoes_joining(parts, '.');
    }
}

/// Groups in hexadecimal.
spec fn group_texts(groups: Seq<u16>) -> Seq<Seq<char>> {
    groups.map_values(|g: u16| hexadecimal(g as nat))
}

proof fn lemma_group_reads_back(g: u16)
    ensures
        is_group(hexadecimal(g as nat)),
        hex_value(hexadecimal(g as nat)) == g,
        !hexadecimal(g as nat).contains(':'),
{
    hexadecimal_reads_back(g as nat);
}

/// A list of groups is read back, and its colons stand alone.
proof fn lemma_group_list_reads_back(groups: Seq<u16>, dotted_end: bool)
    ensures
        read_groups(group_list_text(groups), dotted_end) == Some(groups),
        has_single_colons(group_list_text(groups)),
        is_address_text(group_list_text(groups)),
{
    let parts = group_texts(groups);
    let s = group_list_text(groups);
    assert(s == joined(parts, seq![':']));
    assert forall|i: int| 0 <= i < parts.len() implies is_group(#[trigger] parts[i])
        && !parts[i].contains(':') && hex_value(parts[i]) == groups[i] by {
        lemma_group_reads_back(groups[i]);
    }
    lemma_joined_groups(parts);
    if groups.len() > 0 {
        splitting_undoes_joining(parts, ':');
        assert(group_values(parts) =~= groups);
    } else {
        assert(groups =~= Seq::empty());
    }
}

proof fn lemma_joined_groups(parts: Seq<Seq<char>>)
    requires
        forall|i: int| 0 <= i < parts.len() ==> is_group(#[trigger] parts[i]) && !parts[i].contains(':'),
    ensures
        has_single_colons(joined(parts, seq![':'])),
        is_address_text(joined(parts, seq![':'])),
        parts.len() > 0 ==> joined(parts, seq![':']).len() > 0,
    decreases parts.len(),
{
    let s = joined(parts, seq![':']);
    if parts.len() == 1 {
        assert(is_group(parts[0]));
        assert forall|i: int| 0 <= i < s.len() implies #[trigger] s[i] != ':' by {
            assert(parts[0].contains(s[i]));
        }
    } else if parts.len() > 1 {
        let front = parts.drop_last();
        let head = joined(front, seq![':']);
        let last = parts.last();
        assert forall|i: int| 0 <= i < front.len() implies is_group(#[trigger] front[i])
            && !front[i].contains(':') by {
            assert(front[i] == parts[i]);
        }
        lemma_joined_groups(front);
        assert(is_group(parts[parts.len() - 1]));
        assert(s == head + seq![':'] + last);
        let n = head.len() as int;
        assert forall|i: int| 0 <= i < s.len() implies is_address_char(#[trigger] s[i]) by {
            if i < n {
                assert(s[i] == head[i]);
            } else if i > n {
                assert(s[i] == last[i - n - 1]);
            }
        }
        assert forall|i: int| n < i < s.len() implies #[trigger] s[i] != ':' by {
            assert(s[i] == last[i - n - 1]);
            assert(last.contains(s[i]));
        }
        assert forall|i: int| 0 <= i < s.len() - 1 && #[trigger] s[i] == ':' implies s[i + 1] != ':' by {
            if i < n {
                assert(s[i] == head[i]);
                if i + 1 < n {
                    assert(s[i + 1] == head[i + 1]);
                }
            }
        }
        assert(s[0] == head[0]);
    }
}

proof fn lemma_double_colon_at(s: Seq<char>, from: int, k: int)
    requires
        0 <= from <= k <= s.len(),
        k < s.len() ==> k + 1 < s.len() && s[k] == ':' && s[k + 1] == ':',
        forall|i: int| from <= i < k && i + 1 < s.len() && #[trigger] s[i] == ':' ==> s[i + 1] != ':',
    ensures
        double_colon(s, from) == k,
    decreases k - from,
{
    if from < k && from + 1 < s.len() {
        lemma_double_colon_at(s, from + 1, k);
    }
}

/// What is left of `bits` without its `count` last base-65536 digits.
spec fn beyond(bits: nat, count: nat) -> nat
    decreases count,
{
    if count == 0 {
        bits
    } else {
        beyond(bits / 65536, (count - 1) as nat)
    }
}

proof fn lemma_groups_read_back(bits: nat, count: nat)
    requires
        beyond(bits, count) == 0,
    ensures
        groups_value(groups_of(bits, count)) == bits,
        groups_of(bits, count).len() == count,
    decreases count,
{
    if count > 0 {
        lemma_groups_read_back(bits / 65536, (count - 1) as nat);
        let groups = groups_of(bits, count);
        assert(groups.drop_last() == groups_of(bits / 65536, (count - 1) as nat));
    }
}

proof fn lemma_eight_groups_read_back(bits: u128)
    ensures
        groups_value(groups_of(bits as nat, 8)) == bits,
        groups_of(bits as nat, 8).len() == 8,
{
    let b0 = bits as nat;
    let b1 = b0 / 65536;
    let b2 = b1 / 65536;
    let b3 = b2 / 65536;
    let b4 = b3 / 65536;
    let b5 = b4 / 65536;
    let b6 = b5 / 65536;
    let b7 = b6 / 65536;
    assert(b7 / 65536 == 0);
    reveal_with_fuel(beyond, 9);
    lemma_groups_read_back(b0, 8);
}

pub proof fn lemma_zero_run(groups: Seq<u16>, start: int)
    requires
        0 <= start <= groups.len(),
    ensures
        0 <= zero_run(groups, start) <= groups.len() - start,
        forall|i: int| start <= i < start + zero_run(groups, start) ==> #[trigger] groups[i] == 0,
    decreases groups.len() - start,
{
    if start < groups.len() && groups[start] == 0 {
        lemma_zero_run(groups, start + 1);
    }
}

proof fn lemma_longest_zero_run(groups: Seq<u16>, from: int)
    requires
        0 <= from <= groups.len(),
    ensures
        ({
            let run = longest_zero_run(groups, from);
            &&& from <= run.0
            &&& 0 <= run.1
            &&& run.0 + run.1 <= groups.len()
            &&& forall|i: int| run.0 <= i < run.0 + run.1 ==> #[trigger] groups[i] == 0
        }),
    decreases groups.len() - from,
{
    lemma_zero_run(groups, from);
    if from < groups.len() {
        lemma_longest_zero_run(groups, from + 1);
    }
}

proof fn lemma_leading_zeros(groups: Seq<u16>, count: int)
    requires
        count >= 0,
    ensures
        groups_value(zeros(count) + groups) == groups_value(groups),
    decreases count + groups.len(),
{
    let all = zeros(count) + groups;
    if groups.len() > 0 {
        assert(all.drop_last() == zeros(count) + groups.drop_last());
        lemma_leading_zeros(groups.drop_last(), count);
    } else if count > 0 {
        assert(all.drop_last() == zeros(count - 1) + groups);
        lemma_leading_zeros(groups, count - 1);
    } else {
        assert(all =~= groups);
    }
}

/// A mapped IPv4 address is read back.
#[verifier::rlimit(40)]
proof fn lemma_mapped_reads_back(bits: u128)
    requires
        bits / 0x1_0000_0000 == 0xffff,
    ensures
        read_ipv6(ipv6_text(bits)) == Some(bits),
        is_address_text(ipv6_text(bits)),
        ipv6_text(bits).contains(':'),
{
    let low = (bits % 0x1_0000_0000) as u32;
    let dotted = ipv4_text(low);
    let mapped = seq!['f', 'f', 'f', 'f'];
    let s = ipv6_text(bits);
    ipv4_text_reads_back(low);
    assert(s == seq![':', ':', 'f', 'f', 'f', 'f', ':'] + dotted);
    assert(s[0] == ':');
    lemma_double_colon_at(s, 0, 0);
    assert(s.take(0) == Seq::<char>::empty());
    let parts = seq![mapped, dotted];
    let tail = s.skip(2);
    assert(parts.drop_last() =~= seq![mapped]);
    assert(joined(seq![mapped], seq![':']) == mapped);
    assert(tail =~= joined(parts, seq![':']));
    assert forall|i: int| 0 <= i < parts.len() implies !(#[trigger] parts[i]).contains(':') by {
        assert(i == 0 || i == 1);
    }
    splitting_undoes_joining(parts, ':');
    let dot = choose|i: int| 0 <= i < dotted.len() && dotted[i] == '.';
    assert(!text::is_hex_digit(dotted[dot]));
    assert(!is_group(parts[1]));
    assert(all_groups(seq![mapped]));
    assert(hex_value(mapped) == 0xffff) by {
        reveal_with_fuel(hex_value, 5);
        assert(mapped.drop_last() =~= seq!['f', 'f', 'f']);
        assert(mapped.drop_last().drop_last() =~= seq!['f', 'f']);
        assert(mapped.drop_last().drop_last().drop_last() =~= seq!['f']);
        assert(mapped.drop_last().drop_last().drop_last().drop_last() =~= seq![]);
    }
    assert(group_values(seq![mapped]) =~= seq![0xffffu16]);
    let high = (low / 0x1_0000) as u16;
    let end = (low % 0x1_0000) as u16;
    let groups = seq![0xffffu16].push(high).push(end);
    assert(read_groups(tail, true) == Some(groups));
    assert(Seq::<u16>::empty() + zeros(5) + groups =~= zeros(5) + groups);
    lemma_leading_zeros(groups, 5);
    assert(groups.drop_last() == seq![0xffffu16].push(high));
    assert(groups.drop_last().drop_last() == seq![0xffffu16]);
    assert(groups.drop_last().drop_last().drop_last() == Seq::<u16>::empty());
    reveal_with_fuel(groups_value, 4);
    assert(groups_value(groups) == 65536 * (65536 * 0xffff + high) + end);
    assert(groups_value(groups) == bits);
    assert forall|i: int| 0 <= i < s.len() implies is_address_char(#[trigger] s[i]) by {
        if i >= 7 {
            assert(s[i] == dotted[i - 7]);
        }
    }
}

/// The text of an IPv6 address names that address.
#[verifier::rlimit(40)]
pub proof fn ipv6_text_reads_back(bits: u128)
    ensures
        read_ipv6(ipv6_text(bits)) == Some(bits),
        is_address_text(ipv6_text(bits)),
        ipv6_text(bits).contains(':'),
{
    let groups = groups_of(bits as nat, 8);
    let run = longest_zero_run(groups, 0);
    let s = ipv6_text(bits);
    lemma_eight_groups_read_back(bits);
    lemma_longest_zero_run(groups, 0);
    if bits / 0x1_0000_0000 == 0xffff {
        lemma_mapped_reads_back(bits);
    } else if run.1 > 1 {
        let head = groups.take(run.0);
        let tail = groups.skip(run.0 + run.1);
        let a = group_list_text(head);
        let b = group_list_text(tail);
        lemma_group_list_reads_back(head, false);
        lemma_group_list_reads_back(tail, true);
        let n = a.len() as int;
        assert(s == a + seq![':', ':'] + b);
        assert(s[n] == ':' && s[n + 1] == ':');
        assert forall|i: int| 0 <= i < n && i + 1 < s.len() && #[trigger] s[i] == ':' implies s[i + 1] != ':' by {
            assert(s[i] == a[i]);
            if i + 1 < n {
                assert(s[i + 1] == a[i + 1]);
            }
        }
        lemma_double_colon_at(s, 0, n);
        assert(s.take(n) == a);
        assert(s.skip(n + 2) == b);
        assert(head + zeros(8 - head.len() - tail.len()) + tail =~= groups);
        assert forall|i: int| 0 <= i < s.len() implies is_address_char(#[trigger] s[i]) by {
            if i < n {
                assert(s[i] == a[i]);
            } else if i > n + 1 {
                assert(s[i] == b[i - n - 2]);
            }
        }
    } else {
        lemma_group_list_reads_back(groups, true);
        lemma_double_colon_at(s, 0, s.len() as int);
        let parts = group_texts(groups);
        lemma_joined_front(parts, seq![':']);
        assert(s[parts[0].len() as int] == ':');
    }
}

proof fn lemma_pieces_hold_the_rest(s: Seq<char>, c: char, other: char)
    requires
        s.contains(other),
        other != c,
    ensures
        exists|i: int| 0 <= i < pieces(s, c).len() && (#[trigger] pieces(s, c)[i]).contains(other),
    decreases s.len(),
{
    lemma_first_index(s, c);
    let k = first_index(s, c);
    let all = pieces(s, c);
    let at = choose|i: int| 0 <= i < s.len() && s[i] == other;
    if k >= s.len() {
        assert(all[0] == s);
    } else if at < k {
        assert(all[0] == s.take(k));
        assert(s.take(k)[at] == other);
    } else {
        let rest = s.skip(k + 1);
        assert(rest[at - k - 1] == other);
        lemma_pieces_hold_the_rest(rest, c, other);
        let i = choose|i: int| 0 <= i < pieces(rest, c).len() && (#[trigger] pieces(rest, c)[i]).contains(other);
        assert(all[i + 1] == pieces(rest, c)[i]);
    }
}

/// A dotted form holds digits and dots alone.
proof fn lemma_dotted_form(s: Seq<char>, other: char)
    requires
        s.contains(other),
        !text::is_digit(other),
        other != '.',
    ensures
        read_ipv4(s) is None,
{
    lemma_pieces_hold_the_rest(s, '.', other);
    let parts = pieces(s, '.');
    let i = choose|i: int| 0 <= i < parts.len() && (#[trigger] parts[i]).contains(other);
    let at = choose|k: int| 0 <= k < parts[i].len() && parts[i][k] == other;
    assert(!text::is_digit(parts[i][at]));
    assert(octet_value(parts[i]) is None);
    if parts.len() == 4 {
        assert(i == 0 || i == 1 || i == 2 || i == 3);
    }
}

/// The text of an IP address names that address.
pub proof fn ip_text_reads_back(ip: IpAddress)
    ensures
        read_ip(ip_text(ip)) == Some(ip),
{
    match ip {
        IpAddress::V4(bits) => {
            ipv4_text_reads_back(bits);
        },
        IpAddress::V6(bits) => {
            ipv6_text_reads_back(bits);
            lemma_dotted_form(ipv6_text(bits), ':');
        },
    }
}

proof fn lemma_port_reads_back(port: u16, s: Seq<char>)
    requires
        s == seq![':'] + decimal(port as nat),
    ensures
        read_port(s) == Some(port),
{
    decimal_reads_back(port as nat);
    assert(s.drop_first() == decimal(port as nat));
}

proof fn lemma_v4_socket_reads_back(bits: u32, port: u16, s: Seq<char>)
    requires
        s == ipv4_text(bits) + seq![':'] + decimal(port as nat),
    ensures
        read_socket(s) == Some(SocketAddress::new(IpAddress::V4(bits), port)),
{
    let dotted = ipv4_text(bits);
    let n = dotted.len() as int;
    ipv4_text_reads_back(bits);
    assert forall|i: int| 0 <= i < n implies s[i] != ':' by {
        assert(s[i] == dotted[i]);
        assert(dotted.contains(s[i]));
    }
    lemma_first_index_unique(s, ':', n);
    assert(s.take(n) == dotted);
    assert(s.skip(n) == seq![':'] + decimal(port as nat));
    lemma_port_reads_back(port, s.skip(n));
}

/// What stands between the brackets is read back, and holds no bracket.
proof fn lemma_scoped_reads_back(bits: u128, scope: u32, inner: Seq<char>)
    requires
        inner == if scope == 0 {
            ipv6_text(bits)
        } else {
            ipv6_text(bits) + seq!['%'] + decimal(scope as nat)
        },
    ensures
        read_scoped(inner) == Some((bits, scope)),
        forall|i: int| 0 <= i < inner.len() ==> inner[i] != ']',
{
    let v6 = ipv6_text(bits);
    let digits = decimal(scope as nat);
    let n = v6.len() as int;
    ipv6_text_reads_back(bits);
    decimal_reads_back(scope as nat);
    assert forall|i: int| 0 <= i < n implies is_address_char(#[trigger] inner[i]) by {
        assert(inner[i] == v6[i]);
    }
    assert forall|i: int| n < i < inner.len() implies text::is_digit(#[trigger] inner[i]) by {
        assert(inner[i] == digits[i - n - 1]);
    }
    lemma_first_index_unique(inner, '%', n);
    if scope != 0 {
        assert(inner.take(n) == v6);
        assert(inner.skip(n + 1) == digits);
    }
}

proof fn lemma_bracketed_socket_reads_back(
    bits: u128,
    scope: u32,
    port: u16,
    inner: Seq<char>,
    s: Seq<char>,
)
    requires
        read_scoped(inner) == Some((bits, scope)),
        forall|i: int| 0 <= i < inner.len() ==> inner[i] != ']',
        s == seq!['['] + inner + seq![']', ':'] + decimal(port as nat),
    ensures
        read_socket(s) == Some(SocketAddress { ip: IpAddress::V6(bits), scope, port }),
{
    let close = inner.len() as int + 1;
    assert forall|i: int| 0 <= i < close implies s[i] != ']' by {
        if i > 0 {
            assert(s[i] == inner[i - 1]);
        }
    }
    assert(s[0] == '[' && s[close] == ']' && s[close + 1] == ':');
    lemma_first_index_unique(s, ']', close);
    assert(s.subrange(1, close) == inner);
    assert(s.skip(close + 1) == seq![':'] + decimal(port as nat));
    lemma_port_reads_back(port, s.skip(close + 1));
    let colon = first_index(s, ':');
    lemma_first_index(s, ':');
    assert(s.take(colon)[0] == '[');
    lemma_dotted_form(s.take(colon), '[');
}

/// The text of a socket address names that address.
pub proof fn socket_text_reads_back(address: SocketAddress)
    requires
        address.wf(),
    ensures
        read_socket(socket_text(address)) == Some(address),
{
    let s = socket_text(address);
    match address.ip {
        IpAddress::V4(bits) => {
            lemma_v4_socket_reads_back(bits, address.port, s);
        },
        IpAddress::V6(bits) => {
            let inner = if address.scope == 0 {
                ipv6_text(bits)
            } else {
                ipv6_text(bits) + seq!['%'] + decimal(address.scope as nat)
            };
            lemma_scoped_reads_back(bits, address.scope, inner);
            assert(s =~= seq!['['] + inner + seq![']', ':'] + decimal(address.port as nat));
            lemma_bracketed_socket_reads_back(bits, address.scope, address.port, inner, s);
        },
    }
}

proof fn lemma_double_colon(s: Seq<char>, from: int)
    requires
        0 <= from <= s.len(),
    ensures
        ({
            let i = double_colon(s, from);
            &&& from <= i <= s.len()
            &&& i < s.len() ==> i + 1 < s.len() && s[i] == ':' && s[i + 1] == ':'
        }),
    decreases s.len() - from,
{
    if from + 1 < s.len() {
        lemma_double_colon(s, from + 1);
    }
}

proof fn lemma_groups_hold(s: Seq<char>, dotted_end: bool, other: char)
    requires
        s.contains(other),
        !is_address_char(other),
    ensures
        read_groups(s, dotted_end) is None,
{
    lemma_pieces_hold_the_rest(s, ':', other);
    let parts = pieces(s, ':');
    let i = choose|i: int| 0 <= i < parts.len() && (#[trigger] parts[i]).contains(other);
    let at = choose|k: int| 0 <= k < parts[i].len() && parts[i][k] == other;
    assert(!text::is_hex_digit(parts[i][at]));
    assert(!is_group(parts[i]));
    if i == parts.len() - 1 {
        lemma_dotted_form(parts[i], other);
    } else {
        assert(parts.drop_last()[i] == parts[i]);
    }
}

/// What names an IPv6 address is made of hexadecimal digits, colons and dots.
pub proof fn ipv6_holds_address_chars(s: Seq<char>)
    requires
        read_ipv6(s) is Some,
    ensures
        is_address_text(s),
{
    assert forall|at: int| 0 <= at < s.len() implies is_address_char(#[trigger] s[at]) by {
        if !is_address_char(s[at]) {
            let i = double_colon(s, 0);
            lemma_double_colon(s, 0);
            if i == s.len() {
                lemma_groups_hold(s, true, s[at]);
            } else if at < i {
                assert(s.take(i)[at] == s[at]);
                lemma_groups_hold(s.take(i), false, s[at]);
            } else {
                assert(s.skip(i + 2)[at - i - 2] == s[at]);
                lemma_groups_hold(s.skip(i + 2), true, s[at]);
            }
        }
    }
}

// ---------------------------------------------------------------------------
// How addresses look
// ---------------------------------------------------------------------------
/// An IPv4 address is written as its four octets in decimal with dots between them, the most
/// significant first.
pub proof fn ipv4_addresses_are_dotted(a: u8, b: u8, c: u8, d: u8)
    ensures
        ({
            let bits = (a * 0x100_0000 + b * 0x1_0000 + c * 0x100 + d) as u32;
            let dotted = decimal(a as nat) + seq!['.'] + decimal(b as nat) + seq!['.'] + decimal(
                c as nat,
            ) + seq!['.'] + decimal(d as nat);
            &&& ipv4_text(bits) == dotted
            &&& read_ipv4(dotted) == Some(bits)
        }),
{
    let bits = (a * 0x100_0000 + b * 0x1_0000 + c * 0x100 + d) as u32;
    lemma_octets_of(a, b, c, d, bits);
    ipv4_text_reads_back(bits);
}

proof fn lemma_octets_of(a: u8, b: u8, c: u8, d: u8, bits: u32)
    requires
        bits == a * 0x100_0000 + b * 0x1_0000 + c * 0x100 + d,
    ensures
        (bits / 0x100_0000) as nat == a as nat,
        ((bits / 0x1_0000) % 256) as nat == b as nat,
        ((bits / 0x100) % 256) as nat == c as nat,
        (bits % 256) as nat == d as nat,
{
}

/// The group of an IPv6 address that has `k` groups behind it.
pub open spec fn group_of(bits: nat, k: nat) -> nat
    decreases k,
{
    if k == 0 {
        bits % 65536
    } else {
        group_of(bits / 65536, (k - 1) as nat)
    }
}

pub proof fn lemma_group_at(bits: nat, count: nat, i: int)
    requires
        0 <= i < count,
    ensures
        groups_of(bits, count).len() == count,
        groups_of(bits, count)[i] == group_of(bits, (count - 1 - i) as nat),
    decreases count,
{
    lemma_groups_len(bits / 65536, (count - 1) as nat);
    if i < count - 1 {
        lemma_group_at(bits / 65536, (count - 1) as nat, i);
    }
}

proof fn lemma_groups_len(bits: nat, count: nat)
    ensures
        groups_of(bits, count).len() == count,
    decreases count,
{
    if count > 0 {
        lemma_groups_len(bits / 65536, (count - 1) as nat);
    }
}

/// An IPv6 address without a group that is zero is written as its eight groups in hexadecimal
/// with colons between them, the most significant first.
pub proof fn ipv6_addresses_are_grouped(bits: u128)
    requires
        forall|k: nat| k < 8 ==> #[trigger] group_of(bits as nat, k) > 0,
    ensures
        ipv6_text(bits) == joined(
            seq![
                hexadecimal(group_of(bits as nat, 7)),
                hexadecimal(group_of(bits as nat, 6)),
                hexadecimal(group_of(bits as nat, 5)),
                hexadecimal(group_of(bits as nat, 4)),
                hexadecimal(group_of(bits as nat, 3)),
                hexadecimal(group_of(bits as nat, 2)),
                hexadecimal(group_of(bits as nat, 1)),
                hexadecimal(group_of(bits as nat, 0)),
            ],
            seq![':'],
        ),
{
    let groups = groups_of(bits as nat, 8);
    lemma_group_at(bits as nat, 8, 0);
    lemma_group_at(bits as nat, 8, 1);
    lemma_group_at(bits as nat, 8, 2);
    lemma_group_at(bits as nat, 8, 3);
    lemma_group_at(bits as nat, 8, 4);
    lemma_group_at(bits as nat, 8, 5);
    lemma_group_at(bits as nat, 8, 6);
    lemma_group_at(bits as nat, 8, 7);
    assert(group_of(bits as nat, 7) > 0);
    assert forall|i: int| 0 <= i < 8 implies groups[i] != 0 by {
        lemma_group_at(bits as nat, 8, i);
        assert(group_of(bits as nat, (7 - i) as nat) > 0);
    }
    lemma_no_zero_run(groups, 0);
    if bits / 0x1_0000_0000 == 0xffff {
        reveal_with_fuel(group_of, 8);
        assert(group_of(bits as nat, 7) == 0) by {
            let n = bits as nat;
            assert(n < 0x1_0000_0000_0000);
            assert(n / 65536 / 65536 / 65536 == 0);
        }
    }
    let texts = groups.map_values(|g: u16| hexadecimal(g as nat));
    assert(texts =~= seq![
        hexadecimal(group_of(bits as nat, 7)),
        hexadecimal(group_of(bits as nat, 6)),
        hexadecimal(group_of(bits as nat, 5)),
        hexadecimal(group_of(bits as nat, 4)),
        hexadecimal(group_of(bits as nat, 3)),
        hexadecimal(group_of(bits as nat, 2)),
        hexadecimal(group_of(bits as nat, 1)),
        hexadecimal(group_of(bits as nat, 0)),
    ]);
}

proof fn lemma_no_zero_run(groups: Seq<u16>, from: int)
    requires
        0 <= from,
        forall|i: int| 0 <= i < groups.len() ==> groups[i] != 0,
    ensures
        longest_zero_run(groups, from).1 == 0,
    decreases groups.len() - from,
{
    if from < groups.len() {
        lemma_no_zero_run(groups, from + 1);
        assert(groups[from] != 0);
    }
}

/// The addresses 127.x.x.x and ::1 are those of the machine itself; 0.0.0.0 and :: stand for all
/// its addresses, and a client reaches a listener at one of them at 127.0.0.1 or ::1.
pub proof fn unspecified_addresses_are_reached_at_home(
    a: u8,
    b: u8,
    c: u8,
    d: u8,
    wide: u128,
    address: SocketAddress,
)
    ensures
        IpAddress::V4((a * 0x100_0000 + b * 0x1_0000 + c * 0x100 + d) as u32).is_loopback() <==> a
            == 127,
        IpAddress::V6(wide).is_loopback() <==> wide == 1,
        address.ip == IpAddress::V4(0) ==> reachable_address(address) == (SocketAddress {
            ip: IpAddress::V4(0x7f00_0001),
            scope: 0,
            port: address.port,
        }),
        address.ip == IpAddress::V6(0) ==> reachable_address(address) == (SocketAddress {
            ip: IpAddress::V6(1),
            scope: 0,
            port: address.port,
        }),
        address.ip != IpAddress::V4(0) && address.ip != IpAddress::V6(0) ==> reachable_address(
            address,
        ) == address,
{
    let bits = (a * 0x100_0000 + b * 0x1_0000 + c * 0x100 + d) as u32;
    assert(bits / 0x100_0000 == a);
}

/// The text of an IP address starts and ends in a hexadecimal digit or a colon.
pub proof fn ip_texts_have_no_brackets(ip: IpAddress)
    ensures
        ip_text(ip).len() > 0,
        ip_text(ip)[0] != '[' && ip_text(ip)[0] != ']',
        ip_text(ip).last() != '[' && ip_text(ip).last() != ']',
{
    match ip {
        IpAddress::V4(bits) => {
            let first = decimal((bits / 0x100_0000) as nat);
            let last = decimal((bits % 256) as nat);
            decimal_reads_back((bits / 0x100_0000) as nat);
            decimal_reads_back((bits % 256) as nat);
            let s = ipv4_text(bits);
            assert(s[0] == first[0]);
            assert(s.last() == last[last.len() - 1]);
            assert(text::is_digit(first[0]));
            assert(text::is_digit(last[last.len() - 1]));
        },
        IpAddress::V6(bits) => {
            ipv6_text_reads_back(bits);
            let s = ipv6_text(bits);
            ipv6_holds_address_chars(s);
            if s.len() == 0 {
                lemma_empty_is_no_address(s);
            }
            assert(is_address_char(s[0]));
            assert(is_address_char(s[s.len() - 1]));
        },
    }
}

proof fn lemma_empty_is_no_address(s: Seq<char>)
    requires
        s.len() == 0,
    ensures
        read_ipv6(s) is None,
{
    lemma_double_colon(s, 0);
    assert(pieces(s, ':') =~= seq![s]);
}

} // verus!
