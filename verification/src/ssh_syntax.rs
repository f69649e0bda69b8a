//! How OpenSSH configurations are written: comments, directives, arguments, patterns, forwards
//! and destinations.
use crate::address;
use crate::address::{read_ip, read_socket, IpAddress, SocketAddress, LOCALHOST_V4};
use crate::authority::{authority_error, authority_host, authority_port, read_target, HostPort};
use crate::paths::{HomeDirectory, HomePath};
use crate::text;
use crate::text::{concat2, decimal, first_split, integer_up_to, is_white_space, last_split,
    lowercase, read_integer, trim_of, trim_start_of, trimmed, without_prefix, CharClass};
use ssh2_config::HostClause;
use vstd::prelude::*;

verus! {

// ---------------------------------------------------------------------------
// Errors
// ---------------------------------------------------------------------------
/// What went wrong: the outermost message first, each followed by its cause.
#[derive(Debug, Clone, PartialEq, Eq)]
pub struct SshConfigError {
    pub messages: Vec<String>,
}

impl SshConfigError {
    /// The messages.
    pub open spec fn chain(self) -> Seq<Seq<char>> {
        text::texts(self.messages@)
    }

    /// A message without a cause.
    pub fn new(message: String) -> (r: SshConfigError)
        ensures
            r.chain() == seq![message@],
    {
        let mut messages: Vec<String> = Vec::new();
        messages.push(message);
        let r = SshConfigError { messages };
        assert(r.chain() =~= seq![message@]);
        r
    }

    /// A message and its cause.
    pub fn caused(message: String, cause: &str) -> (r: SshConfigError)
        ensures
            r.chain() == seq![message@, cause@],
    {
        let mut messages: Vec<String> = Vec::new();
        messages.push(message);
        messages.push(cause.to_owned());
        let r = SshConfigError { messages };
        assert(r.chain() =~= seq![message@, cause@]);
        r
    }

    /// The error under one more message.
    pub fn under(self, message: String) -> (r: SshConfigError)
        ensures
            r.chain() == seq![message@] + self.chain(),
    {
        let mut messages: Vec<String> = Vec::new();
        messages.push(message);
        let mut inner = self.messages;
        messages.append(&mut inner);
        let r = SshConfigError { messages };
        assert(r.chain() =~= seq![message@] + self.chain());
        r
    }

    /// Tells the error with its causes.
    pub fn text(&self) -> (r: String)
        ensures
            r@ == text::joined(self.chain(), ": "@),
    {
        text::join(&self.messages, ": ")
    }
}

// ---------------------------------------------------------------------------
// Lines
// ---------------------------------------------------------------------------
/// A line up to its comment. Inside quotes `#` starts none, and a backslash takes the meaning
/// from what follows it.
pub open spec fn without_comment(line: Seq<char>, quoted: bool, escaped: bool) -> Seq<char>
    decreases line.len(),
{
    if line.len() == 0 {
        Seq::empty()
    } else {
        let c = line[0];
        let rest = line.drop_first();
        if escaped {
            seq![c] + without_comment(rest, quoted, false)
        } else if c == '\\' && quoted {
            seq![c] + without_comment(rest, quoted, true)
        } else if c == '"' {
            seq![c] + without_comment(rest, !quoted, false)
        } else if c == '#' && !quoted {
            Seq::empty()
        } else {
            seq![c] + without_comment(rest, quoted, false)
        }
    }
}

/// Where white space or `=` first stands; the length of the text where neither does.
pub open spec fn first_separator(line: Seq<char>) -> int
    decreases line.len(),
{
    if line.len() == 0 || CharClass::Separator.has(line[0]) {
        0
    } else {
        1 + first_separator(line.drop_first())
    }
}

/// Directive and arguments of a line; nothing where the line is empty.
pub open spec fn directive_of(line: Seq<char>) -> Option<(Seq<char>, Seq<char>)> {
    if line.len() == 0 {
        None
    } else {
        let end = first_separator(line);
        Some(
            (
                line.take(end),
                trimmed(trim_start_of(CharClass::Separator, line.skip(end))),
            ),
        )
    }
}

/// The arguments that follow `value`, which is the start of one. White space outside quotes
/// stands between arguments; quotes are taken away, and inside them a backslash takes the
/// meaning from what follows it.
pub open spec fn arguments_from(
    s: Seq<char>,
    value: Seq<char>,
    quoted: bool,
    escaped: bool,
) -> Seq<Seq<char>>
    decreases s.len(),
{
    if s.len() == 0 {
        if value.len() == 0 {
            Seq::empty()
        } else {
            seq![value]
        }
    } else {
        let c = s[0];
        let rest = s.drop_first();
        if escaped {
            arguments_from(rest, value.push(c), quoted, false)
        } else if c == '\\' && quoted {
            arguments_from(rest, value, quoted, true)
        } else if c == '"' {
            arguments_from(rest, value, !quoted, false)
        } else if is_white_space(c) && !quoted {
            if value.len() == 0 {
                arguments_from(rest, value, quoted, false)
            } else {
                seq![value] + arguments_from(rest, Seq::empty(), quoted, false)
            }
        } else {
            arguments_from(rest, value.push(c), quoted, false)
        }
    }
}

/// The arguments of a directive.
pub open spec fn arguments_of(s: Seq<char>) -> Seq<Seq<char>> {
    arguments_from(s, Seq::empty(), false, false)
}

/// Takes the comment from a line.
pub fn strip_config_comment(line: &str) -> (r: String)
    ensures
        r@ == without_comment(line@, false, false),
{
    let chars = text::chars_of(line);
    let mut quoted = false;
    let mut escaped = false;
    let mut output = String::new();
    assert(line@.skip(0) == line@);
    for i in 0..chars.len()
        invariant
            chars@ == line@,
            without_comment(line@, false, false) == output@ + without_comment(
                line@.skip(i as int),
                quoted,
                escaped,
            ),
    {
        let c: char = chars[i];
        assert(line@.skip(i as int).drop_first() == line@.skip(i + 1));
        assert(line@.skip(i as int)[0] == c);
        let ghost rest = line@.skip(i + 1);
        let ghost before = output@;
        if !escaped && c == '#' && !quoted {
            assert(output@ + Seq::<char>::empty() =~= output@);
            return output;
        }
        output.push(c);
        if escaped {
            escaped = false;
        } else if c == '\\' && quoted {
            escaped = true;
        } else if c == '"' {
            quoted = !quoted;
        }
        assert(before + (seq![c] + without_comment(rest, quoted, escaped)) =~= output@
            + without_comment(rest, quoted, escaped));
    }
    assert(line@.skip(chars@.len() as int) =~= Seq::<char>::empty());
    assert(output@ + Seq::<char>::empty() =~= output@);
    output
}

/// Splits a line into directive and arguments.
pub fn split_config_directive<'a>(line: &'a str) -> (r: Option<(&'a str, &'a str)>)
    ensures
        (match r {
            Some((directive, arguments)) => directive_of(line@) == Some(
                (directive@, arguments@),
            ),
            None => directive_of(line@) is None,
        }),
{
    let n: usize = line.unicode_len();
    if n == 0 {
        return None;
    }
    let chars = text::chars_of(line);
    let mut end: usize = 0;
    assert(line@.skip(0) == line@);
    while end < n && !CharClass::Separator.has(chars[end])
        invariant
            n == line@.len(),
            chars@ == line@,
            end <= n,
            first_separator(line@) == end + first_separator(line@.skip(end as int)),
        decreases n - end,
    {
        assert(line@.skip(end as int).drop_first() == line@.skip(end + 1));
        assert(line@.skip(end as int)[0] == chars@[end as int]);
        end = end + 1;
    }
    assert(end < n ==> line@.skip(end as int)[0] == chars@[end as int]);
    assert(first_separator(line@) == end);
    let directive = line.substring_char(0, end);
    let rest = line.substring_char(end, n);
    assert(directive@ == line@.take(end as int));
    assert(rest@ == line@.skip(end as int));
    Some((directive, text::trim(text::trim_start(CharClass::Separator, rest))))
}

/// Splits the arguments of a directive.
pub fn split_config_arguments(arguments: &str) -> (r: Vec<String>)
    ensures
        text::texts(r@) == arguments_of(arguments@),
{
    let chars = text::chars_of(arguments);
    let mut values: Vec<String> = Vec::new();
    let mut value = String::new();
    let mut quoted = false;
    let mut escaped = false;
    assert(arguments@.skip(0) == arguments@);
    assert(value@ =~= Seq::<char>::empty());
    assert(arguments_of(arguments@) =~= text::texts(values@) + arguments_of(arguments@));
    for i in 0..chars.len()
        invariant
            chars@ == arguments@,
            arguments_of(arguments@) == text::texts(values@) + arguments_from(
                arguments@.skip(i as int),
                value@,
                quoted,
                escaped,
            ),
    {
        let c: char = chars[i];
        assert(arguments@.skip(i as int).drop_first() == arguments@.skip(i + 1));
        assert(arguments@.skip(i as int)[0] == c);
        if escaped {
            value.push(c);
            escaped = false;
        } else if c == '\\' && quoted {
            escaped = true;
        } else if c == '"' {
            quoted = !quoted;
        } else if is_white_space(c) && !quoted {
            if !value.as_str().is_empty() {
                let ghost before = values@;
                let ghost word = value@;
                values.push(value);
                value = String::new();
                assert(value@ =~= Seq::<char>::empty());
                proof {
                    let rest = arguments_from(
                        arguments@.skip(i + 1),
                        Seq::empty(),
                        quoted,
                        false,
                    );
                    assert(text::texts(before) + (seq![word] + rest) =~= text::texts(values@)
                        + rest);
                }
            }
        } else {
            value.push(c);
        }
    }
    assert(arguments@.skip(chars@.len() as int) =~= Seq::<char>::empty());
    if !value.as_str().is_empty() {
        let ghost before = values@;
        let ghost word = value@;
        values.push(value);
        assert(text::texts(before) + seq![word] =~= text::texts(values@));
    } else {
        assert(text::texts(values@) + Seq::<Seq<char>>::empty() =~= text::texts(values@));
    }
    values
}

/// Whether a directive is about forwards.
pub open spec fn is_about_forwards(directive: Seq<char>) -> bool {
    lowercase(directive) == "dynamicforward"@ || lowercase(directive) == "localforward"@
        || lowercase(directive) == "remoteforward"@ || lowercase(directive)
        == "clearallforwardings"@
}

/// Whether a directive is the one that is named in lower case.
pub fn is_directive(directive: &str, name: &str) -> (r: bool)
    ensures
        r == (lowercase(directive@) == name@),
{
    text::same_text(text::to_lowercase(directive).as_str(), name)
}

/// Whether a directive is about forwards.
pub fn is_forwarding_directive(directive: &str) -> (r: bool)
    ensures
        r == is_about_forwards(directive@),
{
    is_directive(directive, "dynamicforward") || is_directive(directive, "localforward")
        || is_directive(directive, "remoteforward") || is_directive(
        directive,
        "clearallforwardings",
    )
}

// ---------------------------------------------------------------------------
// Values
// ---------------------------------------------------------------------------
/// What a word that says yes or no says.
pub open spec fn yes_or_no(word: Seq<char>) -> Option<bool> {
    let word = lowercase(word);
    if word == "yes"@ || word == "true"@ || word == "on"@ || word == "1"@ {
        Some(true)
    } else if word == "no"@ || word == "false"@ || word == "off"@ || word == "0"@ {
        Some(false)
    } else {
        None
    }
}

/// What a word that says yes or no says.
pub fn read_yes_or_no(word: &str) -> (r: Option<bool>)
    ensures
        r == yes_or_no(word@),
{
    let lower = text::to_lowercase(word);
    let word = lower.as_str();
    if text::same_text(word, "yes") || text::same_text(word, "true") || text::same_text(word, "on")
        || text::same_text(word, "1") {
        Some(true)
    } else if text::same_text(word, "no") || text::same_text(word, "false") || text::same_text(
        word,
        "off",
    ) || text::same_text(word, "0") {
        Some(false)
    } else {
        None
    }
}

/// What the arguments of a directive that says yes or no say.
pub open spec fn read_bool(arguments: Seq<char>) -> Result<bool, Seq<Seq<char>>> {
    let words = arguments_of(arguments);
    if words.len() != 1 {
        Err(seq!["expected one yes/no value"@])
    } else {
        match yes_or_no(words[0]) {
            Some(value) => Ok(value),
            None => Err(seq!["expected yes or no"@]),
        }
    }
}

/// What the arguments of a directive that says yes or no say.
pub fn parse_ssh_bool(arguments: &str) -> (r: Result<bool, SshConfigError>)
    ensures
        (match r {
            Ok(value) => read_bool(arguments@) == Ok::<_, Seq<Seq<char>>>(value),
            Err(error) => read_bool(arguments@) == Err::<bool, _>(error.chain()),
        }),
{
    let words = split_config_arguments(arguments);
    assert(text::texts(words@).len() == words@.len());
    if words.len() != 1 {
        return Err(SshConfigError::new("expected one yes/no value".to_owned()));
    }
    assert(text::texts(words@)[0] == words@[0]@);
    match read_yes_or_no(words[0].as_str()) {
        Some(value) => Ok(value),
        None => Err(SshConfigError::new("expected yes or no".to_owned())),
    }
}

/// A value without the quotes round it.
pub open spec fn unquoted(value: Seq<char>) -> Seq<char> {
    if value.len() >= 2 && value[0] == '"' && value.last() == '"' {
        value.subrange(1, value.len() - 1)
    } else {
        value
    }
}

/// A value without the quotes round it.
pub fn unquote(value: &str) -> (r: String)
    ensures
        r@ == unquoted(value@),
{
    let n: usize = value.unicode_len();
    if n >= 2 && value.get_char(0) == '"' && value.get_char(n - 1) == '"' {
        value.substring_char(1, n - 1).to_owned()
    } else {
        value.to_owned()
    }
}

// ---------------------------------------------------------------------------
// Patterns of hosts
// ---------------------------------------------------------------------------
/// Whether a pattern matches all of a text: `*` stands for any characters, `?` for one.
pub open spec fn wildcard_match(pattern: Seq<char>, s: Seq<char>) -> bool
    decreases pattern.len() + s.len(),
{
    if pattern.len() == 0 {
        s.len() == 0
    } else if pattern[0] == '*' {
        wildcard_match(pattern.drop_first(), s) || (s.len() > 0 && wildcard_match(
            pattern,
            s.drop_first(),
        ))
    } else {
        s.len() > 0 && (pattern[0] == '?' || pattern[0] == s[0]) && wildcard_match(
            pattern.drop_first(),
            s.drop_first(),
        )
    }
}

/// `HostClause::intersects` of the `ssh2-config` crate on a clause from `HostClause::new`. The
/// contract claims that the clause's pattern, whether or not it is negated, matches the name as
/// the `wildmatch` crate documents: all of it, with `*` for any characters and `?` for one.
#[verifier::external_body]
pub(crate) fn clause_intersects(pattern: &str, negated: bool, alias: &str) -> (r: bool)
    ensures
        r == wildcard_match(pattern@, alias@),
{
    HostClause::new(pattern.to_string(), negated).intersects(alias)
}

/// Whether patterns, from `from` on, match a name, where `matched` says whether one before
/// does. A negated pattern that matches decides against the name.
pub open spec fn patterns_match(
    patterns: Seq<Seq<char>>,
    alias: Seq<char>,
    from: int,
    matched: bool,
) -> Result<bool, Seq<Seq<char>>>
    decreases patterns.len() - from,
{
    if from >= patterns.len() {
        Ok(matched)
    } else {
        let negated = without_prefix(patterns[from], "!"@) is Some;
        let pattern = if negated {
            without_prefix(patterns[from], "!"@)->0
        } else {
            patterns[from]
        };
        if pattern.len() == 0 {
            Err(seq!["Host pattern must not be empty"@])
        } else if negated && wildcard_match(pattern, alias) {
            Ok(false)
        } else {
            patterns_match(
                patterns,
                alias,
                from + 1,
                matched || (!negated && wildcard_match(pattern, alias)),
            )
        }
    }
}

/// Whether the arguments of a `Host` directive match a name.
pub open spec fn host_matches(arguments: Seq<char>, alias: Seq<char>) -> Result<
    bool,
    Seq<Seq<char>>,
> {
    let patterns = arguments_of(arguments);
    if patterns.len() == 0 {
        Err(seq!["Host requires at least one pattern"@])
    } else {
        patterns_match(patterns, alias, 0, false)
    }
}

/// Whether the arguments of a `Host` directive match a name.
pub fn host_patterns_match(arguments: &str, alias: &str) -> (r: Result<bool, SshConfigError>)
    ensures
        (match r {
            Ok(value) => host_matches(arguments@, alias@) == Ok::<_, Seq<Seq<char>>>(value),
            Err(error) => host_matches(arguments@, alias@) == Err::<bool, _>(error.chain()),
        }),
{
    let patterns = split_config_arguments(arguments);
    let ghost all = text::texts(patterns@);
    assert(all.len() == patterns@.len());
    if patterns.len() == 0 {
        return Err(SshConfigError::new("Host requires at least one pattern".to_owned()));
    }
    let mut matched = false;
    for i in 0..patterns.len()
        invariant
            all == text::texts(patterns@),
            patterns_match(all, alias@, 0, false) == patterns_match(
                all,
                alias@,
                i as int,
                matched,
            ),
            host_matches(arguments@, alias@) == patterns_match(all, alias@, 0, false),
    {
        assert(all[i as int] == patterns@[i as int]@);
        let whole = patterns[i].as_str();
        let (negated, pattern) = match text::strip_prefix(whole, "!") {
            Some(pattern) => (true, pattern),
            None => (false, whole),
        };
        if pattern.unicode_len() == 0 {
            return Err(SshConfigError::new("Host pattern must not be empty".to_owned()));
        }
        let intersects = clause_intersects(pattern, negated, alias);
        if negated && intersects {
            return Ok(false);
        }
        if !negated && intersects {
            matched = true;
        }
    }
    Ok(matched)
}

// ---------------------------------------------------------------------------
// Forwards
// ---------------------------------------------------------------------------
/// A forward that a configuration asks for.
#[derive(Debug, Clone, PartialEq, Eq)]
pub enum ParsedSshForward {
    LocalProxy { listen: SocketAddress },
    LocalForward { listen: SocketAddress, target: HostPort },
    RemoteProxy { listen: SocketAddress },
    RemoteForward { listen: SocketAddress, target: HostPort },
}

/// A forward that a configuration asks for, with texts for strings.
pub ghost enum ForwardRequest {
    LocalProxy { listen: SocketAddress },
    LocalForward { listen: SocketAddress, host: Seq<char>, port: u16 },
    RemoteProxy { listen: SocketAddress },
    RemoteForward { listen: SocketAddress, host: Seq<char>, port: u16 },
}

impl ParsedSshForward {
    /// The forward, with texts for strings.
    pub open spec fn request(self) -> ForwardRequest {
        match self {
            ParsedSshForward::LocalProxy { listen } => ForwardRequest::LocalProxy { listen },
            ParsedSshForward::LocalForward { listen, target } => ForwardRequest::LocalForward {
                listen,
                host: target.host@,
                port: target.port,
            },
            ParsedSshForward::RemoteProxy { listen } => ForwardRequest::RemoteProxy { listen },
            ParsedSshForward::RemoteForward { listen, target } => ForwardRequest::RemoteForward {
                listen,
                host: target.host@,
                port: target.port,
            },
        }
    }
}

/// An address to bind, in words or figures.
pub open spec fn bind_address(host: Seq<char>) -> Option<IpAddress> {
    let lower = lowercase(host);
    if lower.len() == 0 || lower == "localhost"@ {
        Some(IpAddress::V4(LOCALHOST_V4))
    } else if lower == "*"@ {
        Some(IpAddress::V4(0))
    } else {
        read_ip(host)
    }
}

/// An address to listen at: a port of this machine, an address with a port, or a word for an
/// address with a port.
pub open spec fn read_listen(value: Seq<char>) -> Result<SocketAddress, Seq<Seq<char>>> {
    let zero: Seq<Seq<char>> = seq!["forward listen port must be non-zero"@];
    if integer_up_to(value, 65535) is Some {
        let port = integer_up_to(value, 65535)->0;
        if port == 0 {
            Err(zero)
        } else {
            Ok(SocketAddress::new(IpAddress::V4(LOCALHOST_V4), port as u16))
        }
    } else if read_socket(value) is Some {
        if read_socket(value)->0.port == 0 {
            Err(zero)
        } else {
            Ok(read_socket(value)->0)
        }
    } else {
        match last_split(value, ':') {
            None => Err(seq!["forward listen must be [bind-address:]port: "@ + value]),
            Some((host, port)) => match read_integer(port, 65535) {
                Err(cause) => Err(seq!["invalid forward listen port: "@ + value, cause]),
                Ok(port) => if port == 0 {
                    Err(zero)
                } else {
                    let bare = trim_of(CharClass::Bracket, host);
                    match bind_address(bare) {
                        None => Err(
                            seq![
                                "forward bind address must be an IP address: "@ + bare,
                                "invalid IP address syntax"@,
                            ],
                        ),
                        Some(ip) => Ok(SocketAddress::new(ip, port as u16)),
                    }
                },
            },
        }
    }
}

/// Whether `r` is what was read.
pub open spec fn gives_listen(
    r: Result<SocketAddress, SshConfigError>,
    read: Result<SocketAddress, Seq<Seq<char>>>,
) -> bool {
    match r {
        Ok(listen) => read == Ok::<_, Seq<Seq<char>>>(listen),
        Err(error) => read == Err::<SocketAddress, _>(error.chain()),
    }
}

fn parse_bind_address(host: &str) -> (r: Option<IpAddress>)
    ensures
        r == bind_address(host@),
{
    let lower = text::to_lowercase(host);
    if lower.as_str().is_empty() || text::same_text(lower.as_str(), "localhost") {
        return Some(IpAddress::V4(LOCALHOST_V4));
    }
    if text::same_text(lower.as_str(), "*") {
        return Some(IpAddress::V4(0));
    }
    address::parse_ip(host)
}

fn zero_port() -> (r: SshConfigError)
    ensures
        r.chain() == seq!["forward listen port must be non-zero"@],
{
    SshConfigError::new("forward listen port must be non-zero".to_owned())
}

/// Reads an address to listen at.
pub fn parse_forward_listen(value: &str) -> (r: Result<SocketAddress, SshConfigError>)
    ensures
        gives_listen(r, read_listen(value@)),
{
    match text::parse_integer(value, 65535) {
        Some(port) => {
            if port == 0 {
                return Err(zero_port());
            }
            return Ok(SocketAddress::new(IpAddress::V4(LOCALHOST_V4), port as u16));
        },
        None => {},
    }
    match address::parse_socket(value) {
        Some(listen) => {
            if listen.port == 0 {
                return Err(zero_port());
            }
            return Ok(listen);
        },
        None => {},
    }
    match text::rsplit_once(value, ':') {
        None => Err(
            SshConfigError::new(concat2("forward listen must be [bind-address:]port: ", value)),
        ),
        Some((host, port)) => match text::parse_number(port, 65535) {
            Err(cause) => Err(
                SshConfigError::caused(concat2("invalid forward listen port: ", value), cause),
            ),
            Ok(port) => {
                if port == 0 {
                    return Err(zero_port());
                }
                let bare = text::trim_class(CharClass::Bracket, host);
                match parse_bind_address(bare) {
                    None => Err(
                        SshConfigError::caused(
                            concat2("forward bind address must be an IP address: ", bare),
                            "invalid IP address syntax",
                        ),
                    ),
                    Some(ip) => Ok(SocketAddress::new(ip, port as u16)),
                }
            },
        },
    }
}

/// Host and port of a target, or why the text names none.
pub open spec fn target_of(value: Seq<char>) -> Result<(Seq<char>, u16), Seq<char>> {
    read_target(value, authority_error(value), authority_host(value), authority_port(value))
}

/// The proxy that a `DynamicForward` directive asks for.
pub open spec fn read_dynamic_forward(arguments: Seq<char>) -> Result<
    ForwardRequest,
    Seq<Seq<char>>,
> {
    let words = arguments_of(arguments);
    if words.len() != 1 {
        Err(seq!["DynamicForward requires one listen address"@])
    } else {
        match read_listen(words[0]) {
            Ok(listen) => Ok(ForwardRequest::LocalProxy { listen }),
            Err(chain) => Err(chain),
        }
    }
}

/// The forward that a `LocalForward` directive asks for.
pub open spec fn read_local_forward(arguments: Seq<char>) -> Result<
    ForwardRequest,
    Seq<Seq<char>>,
> {
    let words = arguments_of(arguments);
    if words.len() != 2 {
        Err(seq!["LocalForward requires a listen address and target"@])
    } else {
        match read_listen(words[0]) {
            Ok(listen) => match target_of(words[1]) {
                Ok((host, port)) => Ok(ForwardRequest::LocalForward { listen, host, port }),
                Err(message) => Err(seq![message]),
            },
            Err(chain) => Err(chain),
        }
    }
}

/// The proxy or forward that a `RemoteForward` directive asks for.
pub open spec fn read_remote_forward(arguments: Seq<char>) -> Result<
    ForwardRequest,
    Seq<Seq<char>>,
> {
    let words = arguments_of(arguments);
    if words.len() == 1 {
        match read_listen(words[0]) {
            Ok(listen) => Ok(ForwardRequest::RemoteProxy { listen }),
            Err(chain) => Err(chain),
        }
    } else if words.len() == 2 {
        match read_listen(words[0]) {
            Ok(listen) => match target_of(words[1]) {
                Ok((host, port)) => Ok(ForwardRequest::RemoteForward { listen, host, port }),
                Err(message) => Err(seq![message]),
            },
            Err(chain) => Err(chain),
        }
    } else {
        Err(seq!["RemoteForward requires a listen address and optional target"@])
    }
}

/// Whether `r` is what was read.
pub open spec fn gives_forward(
    r: Result<ParsedSshForward, SshConfigError>,
    read: Result<ForwardRequest, Seq<Seq<char>>>,
) -> bool {
    match r {
        Ok(forward) => read == Ok::<_, Seq<Seq<char>>>(forward.request()),
        Err(error) => read == Err::<ForwardRequest, _>(error.chain()),
    }
}

/// Reads the arguments of a `DynamicForward` directive.
pub fn parse_dynamic_forward(arguments: &str) -> (r: Result<ParsedSshForward, SshConfigError>)
    ensures
        gives_forward(r, read_dynamic_forward(arguments@)),
{
    let words = split_config_arguments(arguments);
    assert(text::texts(words@).len() == words@.len());
    if words.len() != 1 {
        return Err(
            SshConfigError::new("DynamicForward requires one listen address".to_owned()),
        );
    }
    assert(text::texts(words@)[0] == words@[0]@);
    match parse_forward_listen(words[0].as_str()) {
        Ok(listen) => Ok(ParsedSshForward::LocalProxy { listen }),
        Err(error) => Err(error),
    }
}

/// Reads the arguments of a `LocalForward` directive.
pub fn parse_local_forward(arguments: &str) -> (r: Result<ParsedSshForward, SshConfigError>)
    ensures
        gives_forward(r, read_local_forward(arguments@)),
{
    let words = split_config_arguments(arguments);
    assert(text::texts(words@).len() == words@.len());
    if words.len() != 2 {
        return Err(
            SshConfigError::new("LocalForward requires a listen address and target".to_owned()),
        );
    }
    assert(text::texts(words@)[0] == words@[0]@);
    assert(text::texts(words@)[1] == words@[1]@);
    match parse_forward_listen(words[0].as_str()) {
        Ok(listen) => match HostPort::parse(words[1].as_str()) {
            Ok(target) => Ok(ParsedSshForward::LocalForward { listen, target }),
            Err(message) => Err(SshConfigError::new(message)),
        },
        Err(error) => Err(error),
    }
}

/// Reads the arguments of a `RemoteForward` directive.
pub fn parse_remote_forward(arguments: &str) -> (r: Result<ParsedSshForward, SshConfigError>)
    ensures
        gives_forward(r, read_remote_forward(arguments@)),
{
    let words = split_config_arguments(arguments);
    assert(text::texts(words@).len() == words@.len());
    if words.len() == 1 {
        assert(text::texts(words@)[0] == words@[0]@);
        match parse_forward_listen(words[0].as_str()) {
            Ok(listen) => Ok(ParsedSshForward::RemoteProxy { listen }),
            Err(error) => Err(error),
        }
    } else if words.len() == 2 {
        assert(text::texts(words@)[0] == words@[0]@);
        assert(text::texts(words@)[1] == words@[1]@);
        match parse_forward_listen(words[0].as_str()) {
            Ok(listen) => match HostPort::parse(words[1].as_str()) {
                Ok(target) => Ok(ParsedSshForward::RemoteForward { listen, target }),
                Err(message) => Err(SshConfigError::new(message)),
            },
            Err(error) => Err(error),
        }
    } else {
        Err(
            SshConfigError::new(
                "RemoteForward requires a listen address and optional target".to_owned(),
            ),
        )
    }
}

// ---------------------------------------------------------------------------
// Destinations
// ---------------------------------------------------------------------------
/// A host to go to, and what is said of user and port.
#[derive(Debug, Clone, PartialEq, Eq)]
pub struct DestinationSpec {
    pub alias: String,
    pub username: Option<String>,
    pub port: Option<u16>,
}

/// A host to go to, with texts for strings.
pub ghost struct Destination {
    pub alias: Seq<char>,
    pub username: Option<Seq<char>>,
    pub port: Option<u16>,
}

impl DestinationSpec {
    /// The destination, with texts for strings.
    pub open spec fn destination(self) -> Destination {
        Destination {
            alias: self.alias@,
            username: text::text_option(self.username),
            port: self.port,
        }
    }
}

/// How often `c` stands in a text.
pub open spec fn occurrences(s: Seq<char>, c: char) -> int
    decreases s.len(),
{
    if s.len() == 0 {
        0
    } else {
        occurrences(s.drop_last(), c) + if s.last() == c {
            1int
        } else {
            0int
        }
    }
}

/// The port that a text names, which may be none.
pub open spec fn read_port_suffix(
    whole: Seq<char>,
    port: Option<Seq<char>>,
) -> Result<Option<u16>, Seq<Seq<char>>> {
    match port {
        None => Ok(None),
        Some(port) => match read_integer(port, 65535) {
            Ok(port) => Ok(Some(port as u16)),
            Err(cause) => Err(seq!["invalid SSH port in destination "@ + whole, cause]),
        },
    }
}

/// Host and port of a destination, without its user.
pub open spec fn read_host_port(whole: Seq<char>, s: Seq<char>) -> Result<
    (Seq<char>, Option<u16>),
    Seq<Seq<char>>,
> {
    if s.len() > 0 && s[0] == '[' {
        match first_split(s.skip(1), ']') {
            None => Err(seq!["invalid SSH destination "@ + whole]),
            Some((host, suffix)) => match read_port_suffix(whole, without_prefix(suffix, ":"@)) {
                Ok(port) => Ok((host, port)),
                Err(chain) => Err(chain),
            },
        }
    } else if occurrences(s, ':') == 1 {
        let (host, port) = last_split(s, ':')->0;
        match read_port_suffix(whole, Some(port)) {
            Ok(port) => Ok((host, port)),
            Err(chain) => Err(chain),
        }
    } else {
        Ok((s, None))
    }
}

/// A destination in the form `[user@]host[:port]`, which may follow `ssh://`.
pub open spec fn read_destination(value: Seq<char>) -> Result<Destination, Seq<Seq<char>>> {
    let plain = trimmed(value);
    let whole = match without_prefix(plain, "ssh://"@) {
        Some(rest) => rest,
        None => plain,
    };
    let (username, host_port) = match last_split(whole, '@') {
        Some((username, host)) => (Some(username), host),
        None => (None, whole),
    };
    match read_host_port(whole, host_port) {
        Err(chain) => Err(chain),
        Ok((alias, port)) => if alias.len() == 0 || (username is Some && username->0.len() == 0)
            || port == Some(0u16) {
            Err(seq!["invalid SSH destination "@ + whole])
        } else {
            Ok(Destination { alias, username, port })
        },
    }
}

proof fn lemma_occurrences(s: Seq<char>, c: char)
    ensures
        occurrences(s, c) >= 0,
        occurrences(s, c) > 0 ==> s.contains(c),
    decreases s.len(),
{
    if s.len() > 0 {
        lemma_occurrences(s.drop_last(), c);
        if s.last() == c {
            assert(s[s.len() - 1] == c);
        } else if occurrences(s, c) > 0 {
            let k = s.drop_last().index_of(c);
            assert(s[k] == c);
        }
    }
}

fn count_char(s: &str, c: char) -> (r: usize)
    ensures
        r == occurrences(s@, c),
{
    let chars = text::chars_of(s);
    let mut count: usize = 0;
    for i in 0..chars.len()
        invariant
            chars@ == s@,
            count <= i,
            count == occurrences(s@.take(i as int), c),
    {
        assert(s@.take(i + 1).drop_last() == s@.take(i as int));
        if chars[i] == c {
            count = count + 1;
        }
    }
    assert(s@.take(s@.len() as int) == s@);
    count
}

fn parse_port_suffix(whole: &str, port: Option<&str>) -> (r: Result<Option<u16>, SshConfigError>)
    ensures
        ({
            let read = read_port_suffix(
                whole@,
                match port {
                    Some(port) => Some(port@),
                    None => None,
                },
            );
            match r {
                Ok(port) => read == Ok::<_, Seq<Seq<char>>>(port),
                Err(error) => read == Err::<Option<u16>, _>(error.chain()),
            }
        }),
{
    match port {
        None => Ok(None),
        Some(port) => match text::parse_number(port, 65535) {
            Ok(port) => Ok(Some(port as u16)),
            Err(cause) => Err(
                SshConfigError::caused(concat2("invalid SSH port in destination ", whole), cause),
            ),
        },
    }
}

fn parse_host_port(whole: &str, s: &str) -> (r: Result<(String, Option<u16>), SshConfigError>)
    ensures
        (match r {
            Ok((host, port)) => read_host_port(whole@, s@) == Ok::<_, Seq<Seq<char>>>(
                (host@, port),
            ),
            Err(error) => read_host_port(whole@, s@) == Err::<(Seq<char>, Option<u16>), _>(
                error.chain(),
            ),
        }),
{
    let n: usize = s.unicode_len();
    if n > 0 && s.get_char(0) == '[' {
        let rest = s.substring_char(1, n);
        assert(rest@ == s@.skip(1));
        match text::split_once(rest, ']') {
            None => Err(SshConfigError::new(concat2("invalid SSH destination ", whole))),
            Some((host, suffix)) => match parse_port_suffix(
                whole,
                text::strip_prefix(suffix, ":"),
            ) {
                Ok(port) => Ok((host.to_owned(), port)),
                Err(error) => Err(error),
            },
        }
    } else if count_char(s, ':') == 1 {
        match text::rsplit_once(s, ':') {
            Some((host, port)) => match parse_port_suffix(whole, Some(port)) {
                Ok(port) => Ok((host.to_owned(), port)),
                Err(error) => Err(error),
            },
            None => {
                proof {
                    lemma_occurrences(s@, ':');
                    text::lemma_last_index(s@, ':');
                    assert(false);
                }
                Ok((s.to_owned(), None))
            },
        }
    } else {
        Ok((s.to_owned(), None))
    }
}

/// Reads a destination.
pub fn parse_destination(value: &str) -> (r: Result<DestinationSpec, SshConfigError>)
    ensures
        (match r {
            Ok(spec) => read_destination(value@) == Ok::<_, Seq<Seq<char>>>(spec.destination()),
            Err(error) => read_destination(value@) == Err::<Destination, _>(error.chain()),
        }),
{
    let plain = text::trim(value);
    let whole = match text::strip_prefix(plain, "ssh://") {
        Some(rest) => rest,
        None => plain,
    };
    let (username, host_port) = match text::rsplit_once(whole, '@') {
        Some((username, host)) => (Some(username.to_owned()), host),
        None => (None, whole),
    };
    let (alias, port) = match parse_host_port(whole, host_port) {
        Ok((alias, port)) => (alias, port),
        Err(error) => {
            return Err(error);
        },
    };
    let nobody = match &username {
        Some(name) => name.as_str().is_empty(),
        None => false,
    };
    let nowhere = match port {
        Some(port) => port == 0,
        None => false,
    };
    if alias.as_str().is_empty() || nobody || nowhere {
        return Err(SshConfigError::new(concat2("invalid SSH destination ", whole)));
    }
    Ok(DestinationSpec { alias, username, port })
}

// ---------------------------------------------------------------------------
// Tokens
// ---------------------------------------------------------------------------
/// What stands for the tokens of a value.
#[derive(Debug, Clone, PartialEq, Eq)]
pub struct TokenValues {
    pub home: HomeDirectory,
    pub host: String,
    pub local_host: String,
    pub alias: String,
    pub port: u16,
    pub username: String,
    pub local_user: String,
}

/// What stands for the tokens of a value, with texts for strings.
pub ghost struct Tokens {
    pub home: HomePath,
    pub host: Seq<char>,
    pub local_host: Seq<char>,
    pub alias: Seq<char>,
    pub port: u16,
    pub username: Seq<char>,
    pub local_user: Seq<char>,
}

impl TokenValues {
    /// The values, with texts for strings.
    pub open spec fn tokens(self) -> Tokens {
        Tokens {
            home: self.home@,
            host: self.host@,
            local_host: self.local_host@,
            alias: self.alias@,
            port: self.port,
            username: self.username@,
            local_user: self.local_user@,
        }
    }
}

/// What stands for `%` and the character behind it.
pub open spec fn token_text(tokens: Tokens, c: char) -> Seq<char> {
    if c == '%' {
        seq!['%']
    } else if c == 'd' {
        tokens.home.path
    } else if c == 'h' {
        tokens.host
    } else if c == 'l' {
        tokens.local_host
    } else if c == 'n' {
        tokens.alias
    } else if c == 'p' {
        decimal(tokens.port as nat)
    } else if c == 'r' {
        tokens.username
    } else if c == 'u' {
        tokens.local_user
    } else {
        seq!['%', c]
    }
}

/// A value with its tokens replaced.
pub open spec fn tokens_expanded(tokens: Tokens, s: Seq<char>) -> Seq<char>
    decreases s.len(),
{
    if s.len() == 0 {
        Seq::empty()
    } else if s[0] != '%' {
        seq![s[0]] + tokens_expanded(tokens, s.skip(1))
    } else if s.len() == 1 {
        seq!['%']
    } else {
        token_text(tokens, s[1]) + tokens_expanded(tokens, s.skip(2))
    }
}

fn write_token(values: &TokenValues, c: char) -> (r: String)
    ensures
        r@ == token_text(values.tokens(), c),
{
    if c == '%' {
        let mut r = String::new();
        r.push('%');
        assert(r@ =~= seq!['%']);
        r
    } else if c == 'd' {
        values.home.path.clone()
    } else if c == 'h' {
        values.host.clone()
    } else if c == 'l' {
        values.local_host.clone()
    } else if c == 'n' {
        values.alias.clone()
    } else if c == 'p' {
        text::decimal_text(values.port as u64)
    } else if c == 'r' {
        values.username.clone()
    } else if c == 'u' {
        values.local_user.clone()
    } else {
        let mut r = String::new();
        r.push('%');
        r.push(c);
        assert(r@ =~= seq!['%', c]);
        r
    }
}

/// Replaces the tokens of a value.
pub fn expand_percent_tokens(s: &str, values: &TokenValues) -> (r: String)
    ensures
        r@ == tokens_expanded(values.tokens(), s@),
{
    let chars = text::chars_of(s);
    let n: usize = chars.len();
    let mut output = String::new();
    let mut i: usize = 0;
    assert(s@.skip(0) == s@);
    assert(output@ + tokens_expanded(values.tokens(), s@) =~= tokens_expanded(values.tokens(), s@));
    while i < n
        invariant
            chars@ == s@,
            n == s@.len(),
            i <= n,
            tokens_expanded(values.tokens(), s@) == output@ + tokens_expanded(values.tokens(), s@.skip(i as int)),
        decreases n - i,
    {
        let ghost before = output@;
        assert(s@.skip(i as int)[0] == chars@[i as int]);
        if chars[i] != '%' {
            output.push(chars[i]);
            assert(s@.skip(i as int).skip(1) == s@.skip(i + 1));
            proof {
                let rest = tokens_expanded(values.tokens(), s@.skip(i + 1));
                assert(before + (seq![chars@[i as int]] + rest) =~= output@ + rest);
            }
            i = i + 1;
        } else if i + 1 == n {
            output.push('%');
            assert(output@ =~= before + seq!['%']);
            return output;
        } else {
            assert(s@.skip(i as int)[1] == chars@[i + 1]);
            let token = write_token(values, chars[i + 1]);
            output.append(token.as_str());
            assert(s@.skip(i as int).skip(2) == s@.skip(i + 2));
            proof {
                let rest = tokens_expanded(values.tokens(), s@.skip(i + 2));
                assert(before + (token@ + rest) =~= output@ + rest);
            }
            i = i + 2;
        }
    }
    assert(s@.skip(n as int) =~= Seq::<char>::empty());
    assert(output@ + Seq::<char>::empty() =~= output@);
    output
}

/// A text without a percent sign holds no tokens.
pub proof fn text_without_tokens_stays(tokens: Tokens, s: Seq<char>)
    requires
        !s.contains('%'),
    ensures
        tokens_expanded(tokens, s) == s,
    decreases s.len(),
{
    if s.len() > 0 {
        assert(s[0] != '%');
        assert forall|i: int| 0 <= i < s.skip(1).len() implies s.skip(1)[i] != '%' by {
            assert(s[i + 1] != '%');
        }
        text_without_tokens_stays(tokens, s.skip(1));
        assert(seq![s[0]] + s.skip(1) =~= s);
    }
}

/// A line that holds no `#` has no comment.
pub proof fn line_without_hash_stays(line: Seq<char>, quoted: bool, escaped: bool)
    requires
        !line.contains('#'),
    ensures
        without_comment(line, quoted, escaped) == line,
    decreases line.len(),
{
    if line.len() > 0 {
        assert(line[0] != '#');
        let rest = line.drop_first();
        assert forall|i: int| 0 <= i < rest.len() implies rest[i] != '#' by {
            assert(line[i + 1] != '#');
        }
        line_without_hash_stays(rest, quoted, true);
        line_without_hash_stays(rest, quoted, false);
        line_without_hash_stays(rest, !quoted, false);
        assert(seq![line[0]] + rest =~= line);
    }
}

// ---------------------------------------------------------------------------
// Laws of lines
// ---------------------------------------------------------------------------
/// A text without white space, quotes and `#`.
pub open spec fn is_plain_word(word: Seq<char>) -> bool {
    word.len() > 0 && forall|i: int|
        0 <= i < word.len() ==> !is_white_space(#[trigger] word[i]) && word[i] != '"' && word[i]
            != '#'
}

/// Outside quotes a `#` ends a line, and what stands before it is kept.
pub proof fn comments_are_cut(front: Seq<char>, back: Seq<char>)
    requires
        !front.contains('#'),
        !front.contains('"'),
    ensures
        without_comment(front + seq!['#'] + back, false, false) == front,
    decreases front.len(),
{
    let line = front + seq!['#'] + back;
    if front.len() > 0 {
        let rest = front.drop_first();
        assert(front.contains(front[0]));
        assert forall|c: char| rest.contains(c) implies #[trigger] front.contains(c) by {
            let k = rest.index_of(c);
            assert(front[k + 1] == c);
        }
        comments_are_cut(rest, back);
        assert(line.drop_first() =~= rest + seq!['#'] + back);
        assert(line[0] == front[0]);
        assert(seq![front[0]] + rest =~= front);
    } else {
        assert(line[0] == '#');
    }
}

/// Inside quotes a `#` is kept like any other character.
pub proof fn quoted_hashes_are_kept(inner: Seq<char>, rest: Seq<char>)
    requires
        !inner.contains('"'),
        !inner.contains('\\'),
    ensures
        without_comment(seq!['"'] + inner + seq!['"'] + rest, false, false) == seq!['"'] + inner
            + seq!['"'] + without_comment(rest, false, false),
{
    lemma_quoted_kept(inner, rest);
    let line = seq!['"'] + inner + seq!['"'] + rest;
    assert(line[0] == '"');
    assert(line.drop_first() =~= inner + seq!['"'] + rest);
    assert(seq!['"'] + (inner + seq!['"'] + without_comment(rest, false, false)) =~= seq!['"']
        + inner + seq!['"'] + without_comment(rest, false, false));
}

proof fn lemma_quoted_kept(inner: Seq<char>, rest: Seq<char>)
    requires
        !inner.contains('"'),
        !inner.contains('\\'),
    ensures
        without_comment(inner + seq!['"'] + rest, true, false) == inner + seq!['"']
            + without_comment(rest, false, false),
    decreases inner.len(),
{
    let line = inner + seq!['"'] + rest;
    if inner.len() > 0 {
        let less = inner.drop_first();
        assert(inner.contains(inner[0]));
        assert forall|c: char| less.contains(c) implies #[trigger] inner.contains(c) by {
            let k = less.index_of(c);
            assert(inner[k + 1] == c);
        }
        lemma_quoted_kept(less, rest);
        assert(line[0] == inner[0]);
        assert(line.drop_first() =~= less + seq!['"'] + rest);
        assert(seq![inner[0]] + (less + seq!['"'] + without_comment(rest, false, false))
            =~= inner + seq!['"'] + without_comment(rest, false, false));
    } else {
        assert(line[0] == '"');
        assert(line.drop_first() =~= rest);
        assert(seq!['"'] + without_comment(rest, false, false) =~= inner + seq!['"']
            + without_comment(rest, false, false));
    }
}

/// A directive and its arguments stand apart by white space or an equals sign, however much of
/// it there is.
pub proof fn directives_stand_before_arguments(
    name: Seq<char>,
    gap: Seq<char>,
    arguments: Seq<char>,
)
    requires
        name.len() > 0,
        forall|i: int|
            0 <= i < name.len() ==> !is_white_space(#[trigger] name[i]) && name[i] != '=',
        gap.len() > 0,
        forall|i: int| 0 <= i < gap.len() ==> is_white_space(#[trigger] gap[i]) || gap[i] == '=',
        arguments.len() > 0,
        !is_white_space(arguments[0]) && arguments[0] != '=',
        !is_white_space(arguments.last()),
    ensures
        directive_of(name + gap + arguments) == Some((name, arguments)),
        directive_of(name) == Some((name, Seq::<char>::empty())),
{
    let line = name + gap + arguments;
    lemma_separator_at(name, gap + arguments);
    assert(line =~= name + (gap + arguments));
    assert((gap + arguments)[0] == gap[0]);
    assert(line.take(name.len() as int) =~= name);
    assert(line.skip(name.len() as int) =~= gap + arguments);
    lemma_gap_is_cut(gap, arguments);
    text::trimming_takes_the_ends_alone(Seq::empty(), arguments, Seq::empty());
    assert(Seq::<char>::empty() + arguments + Seq::<char>::empty() =~= arguments);
    lemma_separator_at(name, Seq::empty());
    assert(name + Seq::<char>::empty() =~= name);
    assert(name.take(name.len() as int) =~= name);
    assert(name.skip(name.len() as int) =~= Seq::<char>::empty());
    text::trimming_takes_the_ends_alone(Seq::empty(), Seq::empty(), Seq::empty());
    assert(Seq::<char>::empty() + Seq::<char>::empty() + Seq::<char>::empty() =~= Seq::<
        char,
    >::empty());
}

proof fn lemma_separator_at(name: Seq<char>, rest: Seq<char>)
    requires
        forall|i: int|
            0 <= i < name.len() ==> !is_white_space(#[trigger] name[i]) && name[i] != '=',
        rest.len() > 0 ==> CharClass::Separator.has(rest[0]),
    ensures
        first_separator(name + rest) == name.len(),
    decreases name.len(),
{
    let line = name + rest;
    if name.len() > 0 {
        assert(line[0] == name[0]);
        assert(line.drop_first() =~= name.drop_first() + rest);
        assert forall|i: int| 0 <= i < name.drop_first().len() implies !is_white_space(
            #[trigger] name.drop_first()[i],
        ) && name.drop_first()[i] != '=' by {
            assert(name.drop_first()[i] == name[i + 1]);
        }
        lemma_separator_at(name.drop_first(), rest);
    } else {
        assert(line =~= rest);
    }
}

proof fn lemma_gap_is_cut(gap: Seq<char>, arguments: Seq<char>)
    requires
        forall|i: int| 0 <= i < gap.len() ==> is_white_space(#[trigger] gap[i]) || gap[i] == '=',
        arguments.len() > 0,
        !is_white_space(arguments[0]) && arguments[0] != '=',
    ensures
        trim_start_of(CharClass::Separator, gap + arguments) == arguments,
    decreases gap.len(),
{
    let all = gap + arguments;
    if gap.len() > 0 {
        assert(all[0] == gap[0]);
        assert(all.drop_first() =~= gap.drop_first() + arguments);
        assert forall|i: int| 0 <= i < gap.drop_first().len() implies is_white_space(
            #[trigger] gap.drop_first()[i],
        ) || gap.drop_first()[i] == '=' by {
            assert(gap.drop_first()[i] == gap[i + 1]);
        }
        lemma_gap_is_cut(gap.drop_first(), arguments);
    } else {
        assert(all =~= arguments);
    }
}

proof fn lemma_word_is_taken(word: Seq<char>, rest: Seq<char>, value: Seq<char>)
    requires
        forall|i: int|
            0 <= i < word.len() ==> !is_white_space(#[trigger] word[i]) && word[i] != '"',
    ensures
        arguments_from(word + rest, value, false, false) == arguments_from(
            rest,
            value + word,
            false,
            false,
        ),
    decreases word.len(),
{
    let all = word + rest;
    if word.len() > 0 {
        assert(all[0] == word[0]);
        assert(all.drop_first() =~= word.drop_first() + rest);
        assert forall|i: int| 0 <= i < word.drop_first().len() implies !is_white_space(
            #[trigger] word.drop_first()[i],
        ) && word.drop_first()[i] != '"' by {
            assert(word.drop_first()[i] == word[i + 1]);
        }
        lemma_word_is_taken(word.drop_first(), rest, value.push(word[0]));
        assert(value.push(word[0]) + word.drop_first() =~= value + word);
    } else {
        assert(all =~= rest);
        assert(value + word =~= value);
    }
}

/// Plain words with spaces between them are the arguments, in their order, each as it stands.
pub proof fn words_are_arguments(words: Seq<Seq<char>>)
    requires
        forall|i: int| 0 <= i < words.len() ==> is_plain_word(#[trigger] words[i]),
    ensures
        arguments_of(text::joined(words, seq![' '])) == words,
    decreases words.len(),
{
    let none = Seq::<char>::empty();
    if words.len() == 1 {
        lemma_word_is_taken(words[0], none, none);
        assert(words[0] + none =~= words[0]);
        assert(none + words[0] =~= words[0]);
        assert(words =~= seq![words[0]]);
    } else if words.len() > 1 {
        let rest = words.drop_first();
        assert forall|i: int| 0 <= i < rest.len() implies is_plain_word(#[trigger] rest[i]) by {
            assert(rest[i] == words[i + 1]);
        }
        words_are_arguments(rest);
        text::lemma_joined_front(words, seq![' ']);
        let tail = seq![' '] + text::joined(rest, seq![' ']);
        assert(text::joined(words, seq![' ']) =~= words[0] + tail);
        lemma_word_is_taken(words[0], tail, none);
        assert(none + words[0] =~= words[0]);
        assert(tail[0] == ' ');
        assert(tail.drop_first() =~= text::joined(rest, seq![' ']));
        assert(seq![words[0]] + rest =~= words);
    } else {
        assert(words =~= Seq::empty());
    }
}

proof fn lemma_quoted_word(inner: Seq<char>, value: Seq<char>)
    requires
        !inner.contains('"'),
        !inner.contains('\\'),
    ensures
        arguments_from(inner + seq!['"'], value, true, false) == arguments_from(
            Seq::empty(),
            value + inner,
            false,
            false,
        ),
    decreases inner.len(),
{
    let all = inner + seq!['"'];
    if inner.len() > 0 {
        let less = inner.drop_first();
        assert(inner.contains(inner[0]));
        assert forall|c: char| less.contains(c) implies #[trigger] inner.contains(c) by {
            let k = less.index_of(c);
            assert(inner[k + 1] == c);
        }
        assert(all[0] == inner[0]);
        assert(all.drop_first() =~= less + seq!['"']);
        lemma_quoted_word(less, value.push(inner[0]));
        assert(value.push(inner[0]) + less =~= value + inner);
    } else {
        assert(all[0] == '"');
        assert(all.drop_first() =~= Seq::<char>::empty());
        assert(value + inner =~= value);
    }
}

/// Quotes hold an argument together, whatever white space it has, and are no part of it; and
/// they are taken from round a value, and from nowhere else.
pub proof fn quotes_hold_together(inner: Seq<char>, plain: Seq<char>)
    requires
        inner.len() > 0,
        !inner.contains('"'),
        !inner.contains('\\'),
        !plain.contains('"'),
    ensures
        arguments_of(seq!['"'] + inner + seq!['"']) == seq![inner],
        unquoted(seq!['"'] + inner + seq!['"']) == inner,
        unquoted(plain) == plain,
{
    let all = seq!['"'] + inner + seq!['"'];
    assert(all[0] == '"');
    assert(all.drop_first() =~= inner + seq!['"']);
    lemma_quoted_word(inner, Seq::empty());
    assert(Seq::<char>::empty() + inner =~= inner);
    assert(all.subrange(1, all.len() - 1) =~= inner);
    if plain.len() > 0 && plain[0] == '"' {
        assert(plain.contains(plain[0]));
    }
}

/// Four words say yes and four say no, in any case of letters; every other word is refused.
pub proof fn words_say_yes_or_no(word: Seq<char>)
    ensures
        yes_or_no(word) == Some(true) <==> lowercase(word) == "yes"@ || lowercase(word) == "true"@
            || lowercase(word) == "on"@ || lowercase(word) == "1"@,
        yes_or_no(word) == Some(false) <==> lowercase(word) == "no"@ || lowercase(word)
            == "false"@ || lowercase(word) == "off"@ || lowercase(word) == "0"@,
{
    reveal_strlit("yes");
    reveal_strlit("true");
    reveal_strlit("on");
    reveal_strlit("1");
    reveal_strlit("no");
    reveal_strlit("false");
    reveal_strlit("off");
    reveal_strlit("0");
    assert("yes"@[0] == 'y' && "true"@[0] == 't' && "on"@[1] == 'n' && "1"@[0] == '1');
    assert("no"@[0] == 'n' && "false"@[0] == 'f' && "off"@[1] == 'f' && "0"@[0] == '0');
}

// ---------------------------------------------------------------------------
// Laws of patterns
// ---------------------------------------------------------------------------
/// A pattern without `*` and `?` matches just itself.
pub proof fn plain_patterns_match_themselves(pattern: Seq<char>, s: Seq<char>)
    requires
        !pattern.contains('*'),
        !pattern.contains('?'),
    ensures
        wildcard_match(pattern, s) <==> pattern == s,
    decreases pattern.len(),
{
    if pattern.len() > 0 {
        assert(pattern.contains(pattern[0]));
        if s.len() > 0 {
            let less = pattern.drop_first();
            assert forall|c: char| less.contains(c) implies #[trigger] pattern.contains(c) by {
                let k = less.index_of(c);
                assert(pattern[k + 1] == c);
            }
            plain_patterns_match_themselves(less, s.drop_first());
            assert(pattern =~= seq![pattern[0]] + less);
            assert(s =~= seq![s[0]] + s.drop_first());
            if pattern == s {
                assert(less =~= s.drop_first());
            }
        }
    } else if s.len() == 0 {
        assert(pattern =~= s);
    }
}

/// A star alone matches everything.
pub proof fn a_star_matches_everything(s: Seq<char>)
    ensures
        wildcard_match(seq!['*'], s),
    decreases s.len(),
{
    let star = seq!['*'];
    assert(star.drop_first() =~= Seq::<char>::empty());
    if s.len() > 0 {
        a_star_matches_everything(s.drop_first());
    } else {
        assert(wildcard_match(star.drop_first(), s));
    }
}

/// A star behind a plain start matches just the texts with that start; a question mark matches
/// one character, whichever it is, and not none.
pub proof fn stars_and_question_marks(front: Seq<char>, pattern: Seq<char>, s: Seq<char>, c: char)
    requires
        !front.contains('*'),
        !front.contains('?'),
    ensures
        wildcard_match(front + seq!['*'], s) <==> front.is_prefix_of(s),
        wildcard_match(seq!['?'] + pattern, seq![c] + s) == wildcard_match(pattern, s),
        !wildcard_match(seq!['?'] + pattern, Seq::empty()),
    decreases front.len(),
{
    let one = seq!['?'] + pattern;
    assert(one[0] == '?');
    assert(one.drop_first() =~= pattern);
    assert((seq![c] + s).drop_first() =~= s);
    let whole = front + seq!['*'];
    if front.len() == 0 {
        assert(whole =~= seq!['*']);
        a_star_matches_everything(s);
    } else {
        let less = front.drop_first();
        assert(front.contains(front[0]));
        assert(whole[0] == front[0]);
        assert(whole.drop_first() =~= less + seq!['*']);
        if s.len() > 0 {
            assert forall|x: char| less.contains(x) implies #[trigger] front.contains(x) by {
                let k = less.index_of(x);
                assert(front[k + 1] == x);
            }
            stars_and_question_marks(less, pattern, s.drop_first(), c);
            if front.is_prefix_of(s) {
                assert(front[0] == s[0]);
                assert(less =~= s.drop_first().subrange(0, less.len() as int));
            }
            if front[0] == s[0] && less.is_prefix_of(s.drop_first()) {
                assert(front =~= s.subrange(0, front.len() as int)) by {
                    assert forall|i: int| 0 <= i < front.len() implies front[i] == s[i] by {
                        if i > 0 {
                            assert(front[i] == less[i - 1]);
                            assert(s[i] == s.drop_first()[i - 1]);
                        }
                    }
                }
            }
        }
    }
}

/// Whether a pattern is negated and matches without its exclamation mark.
pub open spec fn excludes(pattern: Seq<char>, alias: Seq<char>) -> bool {
    pattern.len() > 0 && pattern[0] == '!' && wildcard_match(pattern.skip(1), alias)
}

/// Whether a pattern is not negated and matches.
pub open spec fn takes_in(pattern: Seq<char>, alias: Seq<char>) -> bool {
    pattern.len() > 0 && pattern[0] != '!' && wildcard_match(pattern, alias)
}

proof fn lemma_patterns(
    patterns: Seq<Seq<char>>,
    alias: Seq<char>,
    from: int,
    matched: bool,
)
    requires
        0 <= from <= patterns.len(),
    ensures
        patterns_match(patterns, alias, from, matched) matches Ok(found) ==> (found <==> (matched
            || exists|i: int|
            from <= i < patterns.len() && takes_in(#[trigger] patterns[i], alias)) && forall|
            i: int,
        |
            from <= i < patterns.len() ==> !excludes(#[trigger] patterns[i], alias)),
    decreases patterns.len() - from,
{
    if from < patterns.len() {
        let first = patterns[from];
        reveal_strlit("!");
        assert("!"@ =~= seq!['!']);
        if first.len() > 0 {
            assert(first.take(1) =~= seq![first[0]]);
            assert(seq![first[0]][0] == first[0]);
            if first[0] == '!' {
                assert(first.take(1) =~= "!"@);
            } else {
                assert(first.take(1)[0] != "!"@[0]);
            }
        }
        let negated = without_prefix(first, "!"@) is Some;
        assert(negated <==> first.len() > 0 && first[0] == '!');
        lemma_patterns(
            patterns,
            alias,
            from + 1,
            matched || (!negated && wildcard_match(first, alias)),
        );
        if patterns_match(patterns, alias, from, matched) is Ok {
            if negated && wildcard_match(first.skip(1), alias) {
                assert(excludes(patterns[from], alias));
            }
            if !negated && wildcard_match(first, alias) {
                assert(takes_in(patterns[from], alias));
            }
        }
    }
}

/// A `Host` directive is about a name just where some of its patterns takes the name in, and no
/// negated one matches it, wherever the negated ones stand.
pub proof fn negated_patterns_exclude(arguments: Seq<char>, alias: Seq<char>)
    requires
        host_matches(arguments, alias) is Ok,
    ensures
        host_matches(arguments, alias)->Ok_0 <==> (exists|i: int|
            0 <= i < arguments_of(arguments).len() && takes_in(
                #[trigger] arguments_of(arguments)[i],
                alias,
            )) && forall|i: int|
            0 <= i < arguments_of(arguments).len() ==> !excludes(
                #[trigger] arguments_of(arguments)[i],
                alias,
            ),
{
    lemma_patterns(arguments_of(arguments), alias, 0, false);
}

// ---------------------------------------------------------------------------
// Laws of forwards
// ---------------------------------------------------------------------------
/// A port alone listens at this machine only; an address with a port listens there; the port
/// zero is refused.
pub proof fn ports_listen_at_this_machine(port: u16, listen: SocketAddress)
    requires
        listen.wf(),
    ensures
        port > 0 ==> read_listen(decimal(port as nat)) == Ok::<_, Seq<Seq<char>>>(
            SocketAddress { ip: IpAddress::V4(0x7f00_0001), scope: 0, port },
        ),
        read_listen(seq!['0']) is Err,
        listen.port > 0 ==> read_listen(address::socket_text(listen)) == Ok::<_, Seq<Seq<char>>>(
            listen,
        ),
{
    text::decimal_reads_back(port as nat);
    text::numbers_are_read_up_to_a_bound(port as nat, 65535, seq![':'], 0);
    text::numbers_are_read_up_to_a_bound(0, 65535, seq![':'], 0);
    assert(decimal(0) =~= seq!['0']);
    address::socket_text_reads_back(listen);
    let s = address::socket_text(listen);
    let at = choose|at: int| 0 <= at < s.len() && s[at] == ':';
    assert(s.contains(':')) by {
        match listen.ip {
            IpAddress::V4(bits) => {
                assert(s[address::ipv4_text(bits).len() as int] == ':');
            },
            IpAddress::V6(bits) => {
                let digits = decimal(listen.port as nat);
                assert(s[s.len() - digits.len() - 1] == ':');
            },
        }
    }
    text::decimal_reads_back(listen.port as nat);
    assert(s[0] != '+') by {
        match listen.ip {
            IpAddress::V4(bits) => {
                let first = decimal((bits / 0x100_0000) as nat);
                text::decimal_reads_back((bits / 0x100_0000) as nat);
                assert(s[0] == first[0]);
                assert(text::is_digit(first[0]));
            },
            IpAddress::V6(_) => {
                assert(s[0] == '[');
            },
        }
    }
    text::numbers_are_read_up_to_a_bound(0, 65535, s, at);
}

/// A forward names its listener first and its target behind that, and both are taken as they
/// stand; without a target a local one is refused, and a remote one is a proxy.
pub proof fn forwards_name_listener_and_target(
    first: Seq<char>,
    second: Seq<char>,
    listen: SocketAddress,
    host: Seq<char>,
    port: u16,
)
    requires
        is_plain_word(first),
        is_plain_word(second),
        read_listen(first) == Ok::<_, Seq<Seq<char>>>(listen),
        target_of(second) == Ok::<_, Seq<char>>((host, port)),
    ensures
        read_local_forward(first + seq![' '] + second) == Ok::<_, Seq<Seq<char>>>(
            ForwardRequest::LocalForward { listen, host, port },
        ),
        read_remote_forward(first + seq![' '] + second) == Ok::<_, Seq<Seq<char>>>(
            ForwardRequest::RemoteForward { listen, host, port },
        ),
        read_remote_forward(first) == Ok::<_, Seq<Seq<char>>>(
            ForwardRequest::RemoteProxy { listen },
        ),
        read_dynamic_forward(first) == Ok::<_, Seq<Seq<char>>>(
            ForwardRequest::LocalProxy { listen },
        ),
        read_local_forward(first) is Err,
        read_dynamic_forward(first + seq![' '] + second) is Err,
{
    let both = seq![first, second];
    words_are_arguments(both);
    text::lemma_joined_front(both, seq![' ']);
    assert(both.drop_first() =~= seq![second]);
    assert(text::joined(both, seq![' ']) =~= first + seq![' '] + second);
    words_are_arguments(seq![first]);
    assert(text::joined(seq![first], seq![' ']) == first);
}

// ---------------------------------------------------------------------------
// Laws of destinations and tokens
// ---------------------------------------------------------------------------
/// A text without white space, `@`, `:` and `[`.
pub open spec fn is_plain_name(name: Seq<char>) -> bool {
    name.len() > 0 && forall|i: int|
        0 <= i < name.len() ==> !is_white_space(#[trigger] name[i]) && name[i] != '@' && name[i]
            != ':' && name[i] != '['
}

proof fn lemma_plain_place(whole: Seq<char>, host: Seq<char>, port: u16)
    requires
        is_plain_name(host),
    ensures
        read_host_port(whole, host) == Ok::<_, Seq<Seq<char>>>((host, None::<u16>)),
        read_host_port(whole, host + seq![':'] + decimal(port as nat)) == Ok::<
            _,
            Seq<Seq<char>>,
        >((host, Some(port))),
{
    let digits = decimal(port as nat);
    let s = host + seq![':'] + digits;
    text::decimal_reads_back(port as nat);
    assert(host[0] != '[');
    assert(s[0] == host[0]);
    lemma_no_occurrences(host, ':');
    assert forall|i: int| 0 <= i < digits.len() implies digits[i] != ':' by {
        assert(text::is_digit(digits[i]));
    }
    lemma_one_occurrence(host, digits, ':');
    assert(!digits.contains(':'));
    text::splits_keep_both_sides(host, ':', digits);
    text::numbers_are_read_up_to_a_bound(port as nat, 65535, seq![':'], 0);
    assert(text::is_digit(digits[0]));
    lemma_integer_reads(digits, port as nat);
}

proof fn lemma_integer_reads(digits: Seq<char>, value: nat)
    requires
        integer_up_to(digits, 65535) == Some(value),
    ensures
        read_integer(digits, 65535) == Ok::<_, Seq<char>>(value),
{
}

proof fn lemma_no_occurrences(s: Seq<char>, c: char)
    requires
        forall|i: int| 0 <= i < s.len() ==> s[i] != c,
    ensures
        occurrences(s, c) == 0,
    decreases s.len(),
{
    if s.len() > 0 {
        assert forall|i: int| 0 <= i < s.drop_last().len() implies s.drop_last()[i] != c by {
            assert(s.drop_last()[i] == s[i]);
        }
        lemma_no_occurrences(s.drop_last(), c);
    }
}

proof fn lemma_one_occurrence(a: Seq<char>, b: Seq<char>, c: char)
    requires
        forall|i: int| 0 <= i < a.len() ==> a[i] != c,
        forall|i: int| 0 <= i < b.len() ==> b[i] != c,
    ensures
        occurrences(a + seq![c] + b, c) == 1,
    decreases b.len(),
{
    let s = a + seq![c] + b;
    if b.len() > 0 {
        assert forall|i: int| 0 <= i < b.drop_last().len() implies b.drop_last()[i] != c by {
            assert(b.drop_last()[i] == b[i]);
        }
        lemma_one_occurrence(a, b.drop_last(), c);
        assert(s.drop_last() =~= a + seq![c] + b.drop_last());
        assert(s.last() == b.last());
    } else {
        assert(s.drop_last() =~= a);
        assert(s.last() == c);
        lemma_no_occurrences(a, c);
    }
}

proof fn lemma_read_whole(
    whole: Seq<char>,
    username: Option<Seq<char>>,
    place: Seq<char>,
    alias: Seq<char>,
    port: Option<u16>,
)
    requires
        whole.len() > 0,
        !is_white_space(whole[0]),
        !is_white_space(whole.last()),
        without_prefix(whole, "ssh://"@) is None,
        last_split(whole, '@') == (match username {
            Some(name) => Some((name, place)),
            None => None,
        }),
        username is None ==> place == whole,
        username is Some ==> username->0.len() > 0,
        read_host_port(whole, place) == Ok::<_, Seq<Seq<char>>>((alias, port)),
        alias.len() > 0,
        port != Some(0u16),
    ensures
        read_destination(whole) == Ok::<_, Seq<Seq<char>>>(Destination { alias, username, port }),
        read_destination("ssh://"@ + whole) == Ok::<_, Seq<Seq<char>>>(
            Destination { alias, username, port },
        ),
{
    reveal_strlit("ssh://");
    let none = Seq::<char>::empty();
    text::trimming_takes_the_ends_alone(none, whole, none);
    assert(none + whole + none =~= whole);
    let long = "ssh://"@ + whole;
    assert(long[0] == 's');
    assert(long.last() == whole.last());
    text::trimming_takes_the_ends_alone(none, long, none);
    assert(none + long + none =~= long);
    assert(long.take("ssh://"@.len() as int) =~= "ssh://"@);
    assert(long.skip("ssh://"@.len() as int) =~= whole);
}

/// A destination is a host, with a user before an `@` and a port behind a colon where it has
/// them; `ssh://` in front says nothing more.
pub proof fn destinations_are_read(user: Seq<char>, host: Seq<char>, port: u16)
    requires
        is_plain_name(user),
        is_plain_name(host),
        port > 0,
    ensures
        read_destination(host) == Ok::<_, Seq<Seq<char>>>(
            Destination { alias: host, username: None, port: None },
        ),
        read_destination(host + seq![':'] + decimal(port as nat)) == Ok::<_, Seq<Seq<char>>>(
            Destination { alias: host, username: None, port: Some(port) },
        ),
        read_destination(user + seq!['@'] + host) == Ok::<_, Seq<Seq<char>>>(
            Destination { alias: host, username: Some(user), port: None },
        ),
        read_destination(user + seq!['@'] + (host + seq![':'] + decimal(port as nat))) == Ok::<
            _,
            Seq<Seq<char>>,
        >(Destination { alias: host, username: Some(user), port: Some(port) }),
        read_destination(
            "ssh://"@ + (user + seq!['@'] + (host + seq![':'] + decimal(port as nat))),
        ) == Ok::<_, Seq<Seq<char>>>(
            Destination { alias: host, username: Some(user), port: Some(port) },
        ),
{
    reveal_strlit("ssh://");
    let digits = decimal(port as nat);
    text::decimal_reads_back(port as nat);
    let place = host + seq![':'] + digits;
    let short = user + seq!['@'] + host;
    let full = user + seq!['@'] + place;
    assert(text::is_digit(digits[digits.len() - 1]));
    assert(place.last() == digits[digits.len() - 1]);
    assert(full.last() == place.last());
    assert(place[0] == host[0]);
    assert(short[0] == user[0] && short.last() == host[host.len() - 1]);
    assert(full[0] == user[0]);
    assert(host.last() == host[host.len() - 1]);
    text::signs_are_no_white_space(place.last());
    assert(!host.contains('@'));
    assert forall|i: int| 0 <= i < place.len() implies place[i] != '@' by {
        if i < host.len() {
            assert(place[i] == host[i]);
        } else if i > host.len() {
            assert(place[i] == digits[i - host.len() - 1]);
            assert(text::is_digit(digits[i - host.len() - 1]));
        }
    }
    assert(!place.contains('@'));
    text::splits_keep_both_sides(host, '@', host);
    text::splits_keep_both_sides(place, '@', host);
    text::splits_keep_both_sides(user, '@', host);
    text::splits_keep_both_sides(user, '@', place);
    assert(text::is_digit(digits[0]));
    assert forall|i: int| 0 <= i < place.len() && place[i] == ':' implies i == host.len() by {
        if i < host.len() {
            assert(place[i] == host[i]);
        } else if i > host.len() {
            assert(text::is_digit(digits[i - host.len() - 1]));
        }
    }
    assert(place[host.len() as int + 1] == digits[0]);
    if full.len() > 4 && full[3] == ':' {
        if 3 < user.len() {
            assert(full[3] == user[3]);
        }
        assert(full[3] == place[3 - user.len() - 1]);
        assert(full[4] == place[4 - user.len() - 1]);
    }
    if short.len() > 4 && short[3] == ':' {
        if 3 < user.len() {
            assert(short[3] == user[3]);
        }
        assert(short[3] == host[3 - user.len() - 1]);
    }
    if host.len() > 4 {
        assert(host[3] != ':');
    }
    lemma_no_scheme(host);
    lemma_no_scheme(place);
    lemma_no_scheme(short);
    lemma_no_scheme(full);
    lemma_plain_place(host, host, port);
    lemma_plain_place(place, host, port);
    lemma_plain_place(short, host, port);
    lemma_plain_place(full, host, port);
    lemma_read_whole(host, None, host, host, None);
    lemma_read_whole(place, None, place, host, Some(port));
    lemma_read_whole(short, Some(user), host, host, None);
    lemma_read_whole(full, Some(user), place, host, Some(port));
}

proof fn lemma_no_scheme(s: Seq<char>)
    requires
        s.len() > 4 ==> s[3] != ':' || s[4] != '/',
    ensures
        without_prefix(s, "ssh://"@) is None,
{
    reveal_strlit("ssh://");
    if s.len() >= 6 {
        assert(s.take(6)[3] == s[3] && s.take(6)[4] == s[4]);
        assert("ssh://"@[3] == ':' && "ssh://"@[4] == '/');
    }
}

/// The tokens of a value: the host, its name, its port, its user, and the local home, host and
/// user each have a letter, a doubled percent sign is one, and another letter stays as it is.
/// Text without a percent sign stays too.
pub proof fn tokens_stand_for_their_values(
    tokens: Tokens,
    front: Seq<char>,
    rest: Seq<char>,
    other: char,
)
    requires
        !front.contains('%'),
        other != '%' && other != 'd' && other != 'h' && other != 'l' && other != 'n' && other
            != 'p' && other != 'r' && other != 'u',
    ensures
        tokens_expanded(tokens, front + rest) == front + tokens_expanded(tokens, rest),
        tokens_expanded(tokens, seq!['%', 'h'] + rest) == tokens.host + tokens_expanded(
            tokens,
            rest,
        ),
        tokens_expanded(tokens, seq!['%', 'n'] + rest) == tokens.alias + tokens_expanded(
            tokens,
            rest,
        ),
        tokens_expanded(tokens, seq!['%', 'p'] + rest) == decimal(tokens.port as nat)
            + tokens_expanded(tokens, rest),
        tokens_expanded(tokens, seq!['%', 'r'] + rest) == tokens.username + tokens_expanded(
            tokens,
            rest,
        ),
        tokens_expanded(tokens, seq!['%', 'u'] + rest) == tokens.local_user + tokens_expanded(
            tokens,
            rest,
        ),
        tokens_expanded(tokens, seq!['%', 'd'] + rest) == tokens.home.path + tokens_expanded(
            tokens,
            rest,
        ),
        tokens_expanded(tokens, seq!['%', 'l'] + rest) == tokens.local_host + tokens_expanded(
            tokens,
            rest,
        ),
        tokens_expanded(tokens, seq!['%', '%'] + rest) == seq!['%'] + tokens_expanded(
            tokens,
            rest,
        ),
        tokens_expanded(tokens, seq!['%', other] + rest) == seq!['%', other] + tokens_expanded(
            tokens,
            rest,
        ),
    decreases front.len(),
{
    lemma_token(tokens, 'h', rest);
    lemma_token(tokens, 'n', rest);
    lemma_token(tokens, 'p', rest);
    lemma_token(tokens, 'r', rest);
    lemma_token(tokens, 'u', rest);
    lemma_token(tokens, 'd', rest);
    lemma_token(tokens, 'l', rest);
    lemma_token(tokens, '%', rest);
    lemma_token(tokens, other, rest);
    let all = front + rest;
    if front.len() > 0 {
        let less = front.skip(1);
        assert(front.contains(front[0]));
        assert forall|c: char| less.contains(c) implies #[trigger] front.contains(c) by {
            let k = less.index_of(c);
            assert(front[k + 1] == c);
        }
        tokens_stand_for_their_values(tokens, less, rest, other);
        assert(all[0] == front[0]);
        assert(all.skip(1) =~= less + rest);
        assert(seq![front[0]] + (less + tokens_expanded(tokens, rest)) =~= front
            + tokens_expanded(tokens, rest));
    } else {
        assert(all =~= rest);
        assert(front + tokens_expanded(tokens, rest) =~= tokens_expanded(tokens, rest));
    }
}

proof fn lemma_token(tokens: Tokens, c: char, rest: Seq<char>)
    ensures
        tokens_expanded(tokens, seq!['%', c] + rest) == token_text(tokens, c) + tokens_expanded(
            tokens,
            rest,
        ),
{
    let all = seq!['%', c] + rest;
    assert(all[0] == '%' && all[1] == c);
    assert(all.skip(2) =~= rest);
}

} // verus!
