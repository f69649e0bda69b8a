//! How child processes are told of a proxy.
use crate::address;
use crate::address::{reachable_address, read_socket, socket_text, IpAddress, SocketAddress};
use crate::config::{AppConfig, EnvConfig, EnvProfileConfig, LocalProxyCandidate, ProxyEnvScheme,
    ProxyEnvVariable, ProxyProtocol, ProxyVariableSet};
use crate::paths::HomeDirectory;
use crate::named::{text_map, value_of, NamedMap};
use crate::ssh_files::{SshFiles, SshStop};
use crate::ssh_forwards::{all_candidates, candidate_of, candidates_of, Candidate};
use crate::status;
use crate::status::{tunnel_status_word, HostRuntimeSnapshot, TunnelKind, TunnelRuntimeSnapshot,
    TunnelRuntimeStatus};
use crate::text;
use crate::text::{concat2, concat3, concat4, first_split, last_split, lowercase, text_option, texts,
    trimmed};
use vstd::prelude::*;

verus! {

// ---------------------------------------------------------------------------
// Selections
// ---------------------------------------------------------------------------
/// Which proxy is wanted, and how it is told of.
#[derive(Debug, Clone, PartialEq, Eq)]
pub struct ProxySelection {
    pub host: Option<String>,
    pub tunnel: Option<String>,
    pub scheme: Option<ProxyEnvScheme>,
    pub port: Option<u16>,
    pub inject: Option<ProxyVariableSet>,
    pub inherit: Option<ProxyVariableSet>,
}

/// Which proxy is wanted, with texts for strings.
pub ghost struct Selection {
    pub host: Option<Seq<char>>,
    pub tunnel: Option<Seq<char>>,
    pub scheme: Option<ProxyEnvScheme>,
    pub port: Option<u16>,
    pub inject: Option<ProxyVariableSet>,
    pub inherit: Option<ProxyVariableSet>,
}

impl ProxySelection {
    /// The selection, with texts for strings.
    pub open spec fn selection(self) -> Selection {
        Selection {
            host: text_option(self.host),
            tunnel: text_option(self.tunnel),
            scheme: self.scheme,
            port: self.port,
            inject: self.inject,
            inherit: self.inherit,
        }
    }
}

/// Nothing is said of which proxy is wanted.
pub open spec fn any_proxy() -> Selection {
    Selection {
        host: None,
        tunnel: None,
        scheme: None,
        port: None,
        inject: None,
        inherit: None,
    }
}

impl Default for ProxySelection {
    fn default() -> (r: ProxySelection)
        ensures
            r.selection() == any_proxy(),
    {
        ProxySelection {
            host: None,
            tunnel: None,
            scheme: None,
            port: None,
            inject: None,
            inherit: None,
        }
    }
}

/// What a profile selects.
pub open spec fn profile_selection(profile: EnvProfileConfig) -> Selection {
    Selection {
        host: text_option(profile.host),
        tunnel: text_option(profile.tunnel),
        scheme: profile.scheme,
        port: None,
        inject: profile.inject,
        inherit: profile.inherit,
    }
}

/// What a profile selects.
pub fn selection_of_profile(profile: &EnvProfileConfig) -> (r: ProxySelection)
    ensures
        r.selection() == profile_selection(*profile),
{
    ProxySelection {
        host: text::copy_text_option(&profile.host),
        tunnel: text::copy_text_option(&profile.tunnel),
        scheme: profile.scheme,
        port: None,
        inject: profile.inject,
        inherit: profile.inherit,
    }
}

/// Whether `r` is what was read.
pub open spec fn gives_selection(
    r: Result<ProxySelection, String>,
    read: Result<Selection, Seq<char>>,
) -> bool {
    match r {
        Ok(selection) => read == Ok::<_, Seq<char>>(selection.selection()),
        Err(message) => read == Err::<Selection, _>(message@),
    }
}

/// The scheme that a word names.
pub open spec fn read_scheme(value: Seq<char>) -> Result<ProxyEnvScheme, Seq<char>> {
    let lower = lowercase(value);
    if lower == "auto"@ {
        Ok(ProxyEnvScheme::Auto)
    } else if lower == "socks5h"@ {
        Ok(ProxyEnvScheme::Socks5h)
    } else if lower == "socks5"@ {
        Ok(ProxyEnvScheme::Socks5)
    } else if lower == "http"@ {
        Ok(ProxyEnvScheme::Http)
    } else {
        Err(
            "unsupported proxy scheme "@ + value
                + "; expected auto, socks5h, socks5, or http"@,
        )
    }
}

/// Reads a scheme.
pub fn parse_proxy_scheme(value: &str) -> (r: Result<ProxyEnvScheme, String>)
    ensures
        (match r {
            Ok(scheme) => read_scheme(value@) == Ok::<_, Seq<char>>(scheme),
            Err(message) => read_scheme(value@) == Err::<ProxyEnvScheme, _>(message@),
        }),
{
    let lower = text::to_lowercase(value);
    let word = lower.as_str();
    if text::same_text(word, "auto") {
        Ok(ProxyEnvScheme::Auto)
    } else if text::same_text(word, "socks5h") {
        Ok(ProxyEnvScheme::Socks5h)
    } else if text::same_text(word, "socks5") {
        Ok(ProxyEnvScheme::Socks5)
    } else if text::same_text(word, "http") {
        Ok(ProxyEnvScheme::Http)
    } else {
        Err(
            concat3(
                "unsupported proxy scheme ",
                value,
                "; expected auto, socks5h, socks5, or http",
            ),
        )
    }
}

/// Whether a text holds a character.
pub open spec fn has_char(s: Seq<char>, c: char) -> bool {
    text::last_index(s, c) >= 0
}

/// What is said of a selector that has another form.
pub open spec fn selector_form(value: Seq<char>) -> Seq<char> {
    "invalid proxy selector "@ + value + "; expected HOST/TUNNEL@SCHEME"@
}

/// Host and tunnel of a selector.
pub open spec fn read_location(value: Seq<char>, location: Seq<char>) -> Result<
    (Option<Seq<char>>, Option<Seq<char>>),
    Seq<char>,
> {
    if location.len() == 0 {
        Ok((None, None))
    } else {
        match first_split(location, '/') {
            Some((host, tunnel)) => if host.len() == 0 || tunnel.len() == 0 || has_char(
                tunnel,
                '/',
            ) {
                Err(selector_form(value))
            } else {
                Ok((Some(host), Some(tunnel)))
            },
            None => Ok((Some(location), None)),
        }
    }
}

/// Where a selector ends its location and which scheme it names.
pub open spec fn read_selector_parts(value: Seq<char>) -> Result<
    (Seq<char>, Option<ProxyEnvScheme>),
    Seq<char>,
> {
    match last_split(value, '@') {
        Some((location, scheme)) => if has_char(location, '@') || scheme.len() == 0 {
            Err(selector_form(value))
        } else {
            match read_scheme(scheme) {
                Ok(scheme) => Ok((location, Some(scheme))),
                Err(message) => Err(message),
            }
        },
        None => Ok((value, None)),
    }
}

/// What a selector of the form `HOST/TUNNEL@SCHEME` selects; each part may be left out, but not
/// all of them.
pub open spec fn read_selector(text: Seq<char>) -> Result<Selection, Seq<char>> {
    let value = trimmed(text);
    if value.len() == 0 {
        Err("proxy profile or selector must not be empty"@)
    } else {
        match read_selector_parts(value) {
            Err(message) => Err(message),
            Ok((location, scheme)) => match read_location(value, location) {
                Err(message) => Err(message),
                Ok((host, tunnel)) => if host is None && tunnel is None && scheme is None {
                    Err("proxy selector must select a host, tunnel, or scheme"@)
                } else {
                    Ok(Selection { host, tunnel, scheme, ..any_proxy() })
                },
            },
        }
    }
}

fn holds_char(s: &str, c: char) -> (r: bool)
    ensures
        r == has_char(s@, c),
{
    proof {
        text::lemma_last_index(s@, c);
        text::lemma_first_index(s@, c);
    }
    text::rsplit_once(s, c).is_some()
}

fn bad_selector(value: &str) -> (r: String)
    ensures
        r@ == selector_form(value@),
{
    concat3("invalid proxy selector ", value, "; expected HOST/TUNNEL@SCHEME")
}

fn parse_selector_parts<'a>(value: &'a str) -> (r: Result<
    (&'a str, Option<ProxyEnvScheme>),
    String,
>)
    ensures
        (match r {
            Ok((location, scheme)) => read_selector_parts(value@) == Ok::<_, Seq<char>>(
                (location@, scheme),
            ),
            Err(message) => read_selector_parts(value@) == Err::<
                (Seq<char>, Option<ProxyEnvScheme>),
                _,
            >(message@),
        }),
{
    match text::rsplit_once(value, '@') {
        Some((location, scheme)) => {
            if holds_char(location, '@') || scheme.is_empty() {
                return Err(bad_selector(value));
            }
            match parse_proxy_scheme(scheme) {
                Ok(scheme) => Ok((location, Some(scheme))),
                Err(message) => Err(message),
            }
        },
        None => Ok((value, None)),
    }
}

fn parse_location(value: &str, location: &str) -> (r: Result<
    (Option<String>, Option<String>),
    String,
>)
    ensures
        (match r {
            Ok((host, tunnel)) => read_location(value@, location@) == Ok::<_, Seq<char>>(
                (text_option(host), text_option(tunnel)),
            ),
            Err(message) => read_location(value@, location@) == Err::<
                (Option<Seq<char>>, Option<Seq<char>>),
                _,
            >(message@),
        }),
{
    if location.is_empty() {
        return Ok((None, None));
    }
    match text::split_once(location, '/') {
        Some((host, tunnel)) => {
            if host.is_empty() || tunnel.is_empty() || holds_char(tunnel, '/') {
                return Err(bad_selector(value));
            }
            Ok((Some(host.to_owned()), Some(tunnel.to_owned())))
        },
        None => Ok((Some(location.to_owned()), None)),
    }
}

/// Reads a selector.
pub fn parse_proxy_selector(text: &str) -> (r: Result<ProxySelection, String>)
    ensures
        gives_selection(r, read_selector(text@)),
{
    let value = text::trim(text);
    if value.is_empty() {
        return Err("proxy profile or selector must not be empty".to_owned());
    }
    let (location, scheme) = match parse_selector_parts(value) {
        Ok((location, scheme)) => (location, scheme),
        Err(message) => {
            return Err(message);
        },
    };
    let (host, tunnel) = match parse_location(value, location) {
        Ok((host, tunnel)) => (host, tunnel),
        Err(message) => {
            return Err(message);
        },
    };
    if host.is_none() && tunnel.is_none() && scheme.is_none() {
        return Err("proxy selector must select a host, tunnel, or scheme".to_owned());
    }
    Ok(ProxySelection { host, tunnel, scheme, port: None, inject: None, inherit: None })
}

/// What a profile, or else a selector, selects.
pub open spec fn named_selection(env: EnvConfig, value: Seq<char>) -> Result<
    Selection,
    Seq<char>,
> {
    match value_of(env.profiles.entries@, value) {
        Some(profile) => Ok(profile_selection(profile)),
        None => read_selector(value),
    }
}

/// What a profile, or else a selector, selects.
pub fn selection_from_profile_or_selector(env: &EnvConfig, value: &str) -> (r: Result<
    ProxySelection,
    String,
>)
    ensures
        gives_selection(r, named_selection(*env, value@)),
{
    match env.profiles.get(value) {
        Some(profile) => Ok(selection_of_profile(profile)),
        None => parse_proxy_selector(value),
    }
}

// ---------------------------------------------------------------------------
// The command line
// ---------------------------------------------------------------------------
/// What the command line says of the proxy that is wanted.
#[derive(Debug, Clone, PartialEq, Eq)]
pub struct ProxyArguments {
    pub proxy: Option<String>,
    pub host: Option<String>,
    pub tunnel: Option<String>,
    pub scheme: Option<ProxyEnvScheme>,
    pub http: bool,
    pub socks5h: bool,
    pub socks5: bool,
    pub port: Option<u16>,
}

impl Default for ProxyArguments {
    fn default() -> (r: ProxyArguments)
        ensures
            r.proxy is None,
            r.host is None,
            r.tunnel is None,
            r.scheme is None,
            !r.http,
            !r.socks5h,
            !r.socks5,
            r.port is None,
    {
        ProxyArguments {
            proxy: None,
            host: None,
            tunnel: None,
            scheme: None,
            http: false,
            socks5h: false,
            socks5: false,
            port: None,
        }
    }
}

/// How many of the ways to name a scheme are used.
pub open spec fn scheme_count(arguments: ProxyArguments) -> int {
    (if arguments.scheme is Some {
        1int
    } else {
        0
    }) + (if arguments.http {
        1int
    } else {
        0
    }) + (if arguments.socks5h {
        1int
    } else {
        0
    }) + (if arguments.socks5 {
        1int
    } else {
        0
    })
}

/// The scheme that the command line names; it may name one in one way only.
pub open spec fn scheme_of_arguments(arguments: ProxyArguments) -> Result<
    Option<ProxyEnvScheme>,
    Seq<char>,
> {
    if scheme_count(arguments) > 1 {
        Err("-s/--scheme, -w/--http, -r/--socks5h, and -l/--socks5 are mutually exclusive"@)
    } else if arguments.scheme is Some {
        Ok(arguments.scheme)
    } else if arguments.http {
        Ok(Some(ProxyEnvScheme::Http))
    } else if arguments.socks5h {
        Ok(Some(ProxyEnvScheme::Socks5h))
    } else if arguments.socks5 {
        Ok(Some(ProxyEnvScheme::Socks5))
    } else {
        Ok(None)
    }
}

/// The scheme that the command line names.
pub fn command_line_scheme(arguments: &ProxyArguments) -> (r: Result<
    Option<ProxyEnvScheme>,
    String,
>)
    ensures
        (match r {
            Ok(scheme) => scheme_of_arguments(*arguments) == Ok::<_, Seq<char>>(scheme),
            Err(message) => scheme_of_arguments(*arguments) == Err::<Option<ProxyEnvScheme>, _>(
                message@,
            ),
        }),
{
    let mut count: u8 = 0;
    let mut scheme: Option<ProxyEnvScheme> = None;
    if arguments.socks5 {
        count = count + 1;
        scheme = Some(ProxyEnvScheme::Socks5);
    }
    if arguments.socks5h {
        count = count + 1;
        scheme = Some(ProxyEnvScheme::Socks5h);
    }
    if arguments.http {
        count = count + 1;
        scheme = Some(ProxyEnvScheme::Http);
    }
    if arguments.scheme.is_some() {
        count = count + 1;
        scheme = arguments.scheme;
    }
    if count > 1 {
        return Err(
            "-s/--scheme, -w/--http, -r/--socks5h, and -l/--socks5 are mutually exclusive".to_owned(),
        );
    }
    Ok(scheme)
}

/// A value without the white space round it, which must not be all of it.
pub open spec fn filled_value(field: Seq<char>, value: Seq<char>) -> Result<Seq<char>, Seq<char>> {
    if trimmed(value).len() == 0 {
        Err(field + " must not be empty"@)
    } else {
        Ok(trimmed(value))
    }
}

/// A value without the white space round it.
pub fn non_empty_value(field: &str, value: &str) -> (r: Result<String, String>)
    ensures
        (match r {
            Ok(text) => filled_value(field@, value@) == Ok::<_, Seq<char>>(text@),
            Err(message) => filled_value(field@, value@) == Err::<Seq<char>, _>(message@),
        }),
{
    let value = text::trim(value);
    if value.is_empty() {
        return Err(concat2(field, " must not be empty"));
    }
    Ok(value.to_owned())
}

/// The first of three texts that is given.
pub open spec fn first_given(
    a: Option<String>,
    b: Option<Seq<char>>,
    c: Option<String>,
) -> Option<Seq<char>> {
    if a is Some {
        text_option(a)
    } else if b is Some {
        b
    } else {
        text_option(c)
    }
}

/// A value that the command line gives in place of one that is selected.
pub open spec fn overridden(
    field: Seq<char>,
    selected: Option<Seq<char>>,
    given: Option<String>,
) -> Result<Option<Seq<char>>, Seq<char>> {
    match given {
        None => Ok(selected),
        Some(value) => match filled_value(field, value@) {
            Ok(value) => Ok(Some(value)),
            Err(message) => Err(message),
        },
    }
}

/// Which proxy is wanted: what the command line names, else the environment, else the
/// configuration, with what the command line says of host, tunnel, scheme and port in place of
/// it.
pub open spec fn requested(
    env: EnvConfig,
    arguments: ProxyArguments,
    profile: Option<Seq<char>>,
) -> Result<Selection, Seq<char>> {
    let start = match first_given(arguments.proxy, profile, env.default) {
        Some(source) => named_selection(env, source),
        None => Ok(any_proxy()),
    };
    match start {
        Err(message) => Err(message),
        Ok(selection) => match overridden("host"@, selection.host, arguments.host) {
            Err(message) => Err(message),
            Ok(host) => match overridden("tunnel"@, selection.tunnel, arguments.tunnel) {
                Err(message) => Err(message),
                Ok(tunnel) => match scheme_of_arguments(arguments) {
                    Err(message) => Err(message),
                    Ok(scheme) => Ok(
                        Selection {
                            host,
                            tunnel,
                            scheme: if scheme is Some {
                                scheme
                            } else {
                                selection.scheme
                            },
                            port: arguments.port,
                            inject: selection.inject,
                            inherit: selection.inherit,
                        },
                    ),
                },
            },
        },
    }
}

fn override_value(field: &str, selected: Option<String>, given: &Option<String>) -> (r: Result<
    Option<String>,
    String,
>)
    ensures
        (match r {
            Ok(value) => overridden(field@, text_option(selected), *given) == Ok::<_, Seq<char>>(
                text_option(value),
            ),
            Err(message) => overridden(field@, text_option(selected), *given) == Err::<
                Option<Seq<char>>,
                _,
            >(message@),
        }),
{
    match given {
        None => Ok(selected),
        Some(value) => match non_empty_value(field, value.as_str()) {
            Ok(value) => Ok(Some(value)),
            Err(message) => Err(message),
        },
    }
}

/// Which proxy is wanted; `profile` is what the environment names.
pub fn requested_proxy_selection_with_environment(
    env: &EnvConfig,
    arguments: &ProxyArguments,
    profile: Option<&str>,
) -> (r: Result<ProxySelection, String>)
    ensures
        gives_selection(
            r,
            requested(*env, *arguments, crate::ssh_files::section_of(profile)),
        ),
{
    let source = match &arguments.proxy {
        Some(value) => Some(value.as_str()),
        None => match profile {
            Some(value) => Some(value),
            None => match &env.default {
                Some(value) => Some(value.as_str()),
                None => None,
            },
        },
    };
    let selection = match source {
        Some(source) => match selection_from_profile_or_selector(env, source) {
            Ok(selection) => selection,
            Err(message) => {
                return Err(message);
            },
        },
        None => ProxySelection::default(),
    };
    let host = match override_value("host", selection.host, &arguments.host) {
        Ok(host) => host,
        Err(message) => {
            return Err(message);
        },
    };
    let tunnel = match override_value("tunnel", selection.tunnel, &arguments.tunnel) {
        Ok(tunnel) => tunnel,
        Err(message) => {
            return Err(message);
        },
    };
    let scheme = match command_line_scheme(arguments) {
        Ok(Some(scheme)) => Some(scheme),
        Ok(None) => selection.scheme,
        Err(message) => {
            return Err(message);
        },
    };
    Ok(
        ProxySelection {
            host,
            tunnel,
            scheme,
            port: arguments.port,
            inject: selection.inject,
            inherit: selection.inherit,
        },
    )
}

// ---------------------------------------------------------------------------
// Schemes
// ---------------------------------------------------------------------------
/// Whether a proxy can be spoken to under a scheme.
#[verifier::allow_in_spec]
pub fn proxy_scheme_is_compatible(protocol: ProxyProtocol, scheme: ProxyEnvScheme) -> bool
    returns
        (match (protocol, scheme) {
            (_, ProxyEnvScheme::Auto) => true,
            (ProxyProtocol::Mixed, _) => true,
            (ProxyProtocol::Socks5h, ProxyEnvScheme::Socks5h) => true,
            (ProxyProtocol::Socks5h, ProxyEnvScheme::Socks5) => true,
            (ProxyProtocol::Http, ProxyEnvScheme::Http) => true,
            _ => false,
        }),
{
    match (protocol, scheme) {
        (_, ProxyEnvScheme::Auto) => true,
        (ProxyProtocol::Mixed, _) => true,
        (ProxyProtocol::Socks5h, ProxyEnvScheme::Socks5h) => true,
        (ProxyProtocol::Socks5h, ProxyEnvScheme::Socks5) => true,
        (ProxyProtocol::Http, ProxyEnvScheme::Http) => true,
        _ => false,
    }
}

/// The scheme that is used where one is asked for.
#[verifier::allow_in_spec]
pub fn resolve_proxy_scheme(protocol: ProxyProtocol, requested: ProxyEnvScheme) -> ProxyEnvScheme
    returns
        (if requested != ProxyEnvScheme::Auto {
            requested
        } else if protocol == ProxyProtocol::Socks5h {
            ProxyEnvScheme::Socks5h
        } else {
            ProxyEnvScheme::Http
        }),
{
    if requested != ProxyEnvScheme::Auto {
        requested
    } else if protocol == ProxyProtocol::Socks5h {
        ProxyEnvScheme::Socks5h
    } else {
        ProxyEnvScheme::Http
    }
}

/// The scheme that is used is one that the proxy can be spoken to under, and never left open.
pub proof fn used_scheme_is_compatible(protocol: ProxyProtocol, requested: ProxyEnvScheme)
    requires
        proxy_scheme_is_compatible(protocol, requested),
    ensures
        proxy_scheme_is_compatible(protocol, resolve_proxy_scheme(protocol, requested)),
        resolve_proxy_scheme(protocol, requested) != ProxyEnvScheme::Auto,
{
}

/// The word for a scheme.
pub open spec fn scheme_word(scheme: ProxyEnvScheme) -> Seq<char> {
    match scheme {
        ProxyEnvScheme::Auto => "auto"@,
        ProxyEnvScheme::Socks5h => "socks5h"@,
        ProxyEnvScheme::Socks5 => "socks5"@,
        ProxyEnvScheme::Http => "http"@,
    }
}

/// The word for a scheme.
pub fn proxy_scheme_name(scheme: ProxyEnvScheme) -> (r: &'static str)
    ensures
        r@ == scheme_word(scheme),
{
    match scheme {
        ProxyEnvScheme::Auto => "auto",
        ProxyEnvScheme::Socks5h => "socks5h",
        ProxyEnvScheme::Socks5 => "socks5",
        ProxyEnvScheme::Http => "http",
    }
}

/// The address at which a proxy that listens at `address` is reached from this machine.
pub fn proxy_connect_address(address: SocketAddress) -> (r: SocketAddress)
    ensures
        r == reachable_address(address),
{
    address.reachable()
}

/// How a selection is told.
pub open spec fn selection_text(selection: Selection) -> Seq<char> {
    "host "@ + (match selection.host {
        Some(host) => host,
        None => "any host"@,
    }) + ", tunnel "@ + (match selection.tunnel {
        Some(tunnel) => tunnel,
        None => "any tunnel"@,
    })
}

/// Tells a selection.
pub fn format_proxy_selection(selection: &ProxySelection) -> (r: String)
    ensures
        r@ == selection_text(selection.selection()),
{
    let host = match &selection.host {
        Some(host) => host.as_str(),
        None => "any host",
    };
    let tunnel = match &selection.tunnel {
        Some(tunnel) => tunnel.as_str(),
        None => "any tunnel",
    };
    concat4("host ", host, ", tunnel ", tunnel)
}

// ---------------------------------------------------------------------------
// Plans
// ---------------------------------------------------------------------------
/// How a child process is told of a proxy.
#[derive(Debug, Clone, PartialEq, Eq)]
pub struct ProxyEnvironmentPlan {
    pub candidate: LocalProxyCandidate,
    pub scheme: ProxyEnvScheme,
    pub address: SocketAddress,
    pub port_overridden: bool,
    pub url: String,
    /// The variables that are set.
    pub set: NamedMap<String>,
    /// The variables that are taken away.
    pub remove: Vec<String>,
}

/// How a child process is told of a proxy, with texts for strings.
pub ghost struct EnvironmentPlan {
    pub candidate: Candidate,
    pub scheme: ProxyEnvScheme,
    pub address: SocketAddress,
    pub port_overridden: bool,
    pub url: Seq<char>,
    pub set: Map<Seq<char>, Seq<char>>,
    pub remove: Seq<Seq<char>>,
}

impl ProxyEnvironmentPlan {
    /// The plan, with texts for strings.
    pub open spec fn plan(self) -> EnvironmentPlan {
        EnvironmentPlan {
            candidate: candidate_of(self.candidate),
            scheme: self.scheme,
            address: self.address,
            port_overridden: self.port_overridden,
            url: self.url@,
            set: text_map(self.set.entries@),
            remove: texts(self.remove@),
        }
    }
}

/// The candidates of a list that stand where the proxy is wanted.
pub open spec fn fitting(
    list: Seq<Candidate>,
    host: Option<Seq<char>>,
    tunnel: Option<Seq<char>>,
) -> Seq<Candidate>
    decreases list.len(),
{
    if list.len() == 0 {
        Seq::empty()
    } else {
        let before = fitting(list.drop_last(), host, tunnel);
        let last = list.last();
        if (host is None || last.host == host->0) && (tunnel is None || last.tunnel == tunnel->0) {
            before.push(last)
        } else {
            before
        }
    }
}

/// The candidates of a list that can be spoken to under a scheme.
pub open spec fn serving(list: Seq<Candidate>, scheme: ProxyEnvScheme) -> Seq<Candidate>
    decreases list.len(),
{
    if list.len() == 0 {
        Seq::empty()
    } else {
        let before = serving(list.drop_last(), scheme);
        if proxy_scheme_is_compatible(list.last().protocol, scheme) {
            before.push(list.last())
        } else {
            before
        }
    }
}

/// The two names of a variable.
pub open spec fn variable_names(variable: ProxyEnvVariable) -> (Seq<char>, Seq<char>) {
    match variable {
        ProxyEnvVariable::AllProxy => ("ALL_PROXY"@, "all_proxy"@),
        ProxyEnvVariable::HttpProxy => ("HTTP_PROXY"@, "http_proxy"@),
        ProxyEnvVariable::HttpsProxy => ("HTTPS_PROXY"@, "https_proxy"@),
        ProxyEnvVariable::NoProxy => ("NO_PROXY"@, "no_proxy"@),
    }
}

/// The two names of a variable.
pub fn proxy_environment_variable_names(variable: ProxyEnvVariable) -> (r: (
    &'static str,
    &'static str,
))
    ensures
        (r.0@, r.1@) == variable_names(variable),
{
    match variable {
        ProxyEnvVariable::AllProxy => ("ALL_PROXY", "all_proxy"),
        ProxyEnvVariable::HttpProxy => ("HTTP_PROXY", "http_proxy"),
        ProxyEnvVariable::HttpsProxy => ("HTTPS_PROXY", "https_proxy"),
        ProxyEnvVariable::NoProxy => ("NO_PROXY", "no_proxy"),
    }
}

/// What is set and what is taken away once a variable was dealt with: one that names the proxy
/// is set under both names, one that is left alone stays, and any other is taken away.
pub open spec fn with_variable(
    so_far: (Map<Seq<char>, Seq<char>>, Seq<Seq<char>>),
    variable: ProxyEnvVariable,
    inject: ProxyVariableSet,
    inherit: ProxyVariableSet,
    url: Seq<char>,
) -> (Map<Seq<char>, Seq<char>>, Seq<Seq<char>>) {
    let (set, remove) = so_far;
    let (upper, lower) = variable_names(variable);
    if inject.contains(variable) {
        (set.insert(upper, url).insert(lower, url), remove)
    } else if !inherit.contains(variable) {
        (set, remove.push(upper).push(lower))
    } else {
        (set, remove)
    }
}

/// What is set and what is taken away for all variables that proxies are told by.
pub open spec fn proxy_variables(
    inject: ProxyVariableSet,
    inherit: ProxyVariableSet,
    url: Seq<char>,
) -> (Map<Seq<char>, Seq<char>>, Seq<Seq<char>>) {
    let none = (Map::<Seq<char>, Seq<char>>::empty(), Seq::<Seq<char>>::empty());
    let a = with_variable(none, ProxyEnvVariable::AllProxy, inject, inherit, url);
    let b = with_variable(a, ProxyEnvVariable::HttpProxy, inject, inherit, url);
    let c = with_variable(b, ProxyEnvVariable::HttpsProxy, inject, inherit, url);
    with_variable(c, ProxyEnvVariable::NoProxy, inject, inherit, url)
}

/// The variables that tell a child process which proxy was chosen.
pub open spec fn with_own_variables(
    set: Map<Seq<char>, Seq<char>>,
    candidate: Candidate,
    scheme: ProxyEnvScheme,
    url: Seq<char>,
) -> Map<Seq<char>, Seq<char>> {
    set.insert("STK_PROXY_HOST"@, candidate.host).insert(
        "STK_PROXY_SCHEME"@,
        scheme_word(scheme),
    ).insert("STK_PROXY_TUNNEL"@, candidate.tunnel).insert("STK_PROXY_URL"@, url)
}

/// The plan for a candidate.
pub open spec fn plan_for(
    candidate: Candidate,
    env: EnvConfig,
    selection: Selection,
) -> Result<EnvironmentPlan, Seq<char>> {
    let asked = match selection.scheme {
        Some(scheme) => scheme,
        None => ProxyEnvScheme::Auto,
    };
    let scheme = resolve_proxy_scheme(candidate.protocol, asked);
    let reachable = reachable_address(candidate.listen);
    let address = match selection.port {
        Some(port) => SocketAddress { port, ..reachable },
        None => reachable,
    };
    let url = scheme_word(scheme) + "://"@ + socket_text(address);
    let inject = match selection.inject {
        Some(set) => set,
        None => env.inject,
    };
    let inherit = match selection.inherit {
        Some(set) => set,
        None => env.inherit,
    };
    let (set, remove) = proxy_variables(inject, inherit, url);
    if inject.contains(ProxyEnvVariable::NoProxy) {
        Err("no-proxy cannot be injected; add it to inherit instead"@)
    } else {
        Ok(
            EnvironmentPlan {
                candidate,
                scheme,
                address,
                port_overridden: selection.port is Some,
                url,
                set: with_own_variables(set, candidate, scheme, url),
                remove,
            },
        )
    }
}

/// The plan for a selection among candidates.
pub open spec fn chosen_plan(
    candidates: Seq<Candidate>,
    env: EnvConfig,
    selection: Selection,
) -> Result<EnvironmentPlan, Seq<char>> {
    let there = fitting(candidates, selection.host, selection.tunnel);
    let asked = match selection.scheme {
        Some(scheme) => scheme,
        None => ProxyEnvScheme::Auto,
    };
    let able = serving(there, asked);
    if candidates.len() == 0 {
        Err("configuration has no enabled local proxy tunnels"@)
    } else if there.len() == 0 {
        Err("no enabled local proxy matches "@ + selection_text(selection))
    } else if able.len() == 0 {
        Err(
            "no local proxy matching "@ + selection_text(selection) + " supports scheme "@
                + scheme_word(asked),
        )
    } else if selection.host is None && selection.tunnel is Some && able.len() > 1 {
        Err(
            "local proxy tunnel "@ + selection.tunnel->0
                + " is ambiguous across hosts; specify --host"@,
        )
    } else {
        plan_for(able[0], env, selection)
    }
}

fn copy_candidate(candidate: &LocalProxyCandidate) -> (r: LocalProxyCandidate)
    ensures
        candidate_of(r) == candidate_of(*candidate),
{
    LocalProxyCandidate {
        host: candidate.host.clone(),
        tunnel: candidate.tunnel.clone(),
        listen: candidate.listen,
        protocol: candidate.protocol,
    }
}

fn is_or_any(wanted: &Option<String>, value: &String) -> (r: bool)
    ensures
        r == (text_option(*wanted) is None || value@ == text_option(*wanted)->0),
{
    match wanted {
        Some(wanted) => text::same_text(value.as_str(), wanted.as_str()),
        None => true,
    }
}

fn collect_fitting(list: &Vec<LocalProxyCandidate>, selection: &ProxySelection) -> (r: Vec<
    LocalProxyCandidate,
>)
    ensures
        candidates_of(r@) == fitting(
            candidates_of(list@),
            text_option(selection.host),
            text_option(selection.tunnel),
        ),
{
    let ghost all = candidates_of(list@);
    let ghost host = text_option(selection.host);
    let ghost tunnel = text_option(selection.tunnel);
    let mut r: Vec<LocalProxyCandidate> = Vec::new();
    assert(candidates_of(r@) =~= Seq::<Candidate>::empty());
    for i in 0..list.len()
        invariant
            all == candidates_of(list@),
            host == text_option(selection.host),
            tunnel == text_option(selection.tunnel),
            candidates_of(r@) == fitting(all.take(i as int), host, tunnel),
    {
        assert(all.take(i + 1).drop_last() == all.take(i as int));
        assert(all.take(i + 1).last() == candidate_of(list@[i as int]));
        let ghost before = r@;
        if is_or_any(&selection.host, &list[i].host) && is_or_any(
            &selection.tunnel,
            &list[i].tunnel,
        ) {
            r.push(copy_candidate(&list[i]));
            assert(candidates_of(r@) =~= candidates_of(before).push(
                candidate_of(list@[i as int]),
            ));
        }
    }
    assert(all.take(all.len() as int) =~= all);
    r
}

fn collect_serving(list: &Vec<LocalProxyCandidate>, scheme: ProxyEnvScheme) -> (r: Vec<
    LocalProxyCandidate,
>)
    ensures
        candidates_of(r@) == serving(candidates_of(list@), scheme),
{
    let ghost all = candidates_of(list@);
    let mut r: Vec<LocalProxyCandidate> = Vec::new();
    assert(candidates_of(r@) =~= Seq::<Candidate>::empty());
    for i in 0..list.len()
        invariant
            all == candidates_of(list@),
            candidates_of(r@) == serving(all.take(i as int), scheme),
    {
        assert(all.take(i + 1).drop_last() == all.take(i as int));
        assert(all.take(i + 1).last() == candidate_of(list@[i as int]));
        let ghost before = r@;
        if proxy_scheme_is_compatible(list[i].protocol, scheme) {
            r.push(copy_candidate(&list[i]));
            assert(candidates_of(r@) =~= candidates_of(before).push(
                candidate_of(list@[i as int]),
            ));
        }
    }
    assert(all.take(all.len() as int) =~= all);
    r
}

fn add_variable(
    set: &mut NamedMap<String>,
    remove: &mut Vec<String>,
    variable: ProxyEnvVariable,
    inject: ProxyVariableSet,
    inherit: ProxyVariableSet,
    url: &str,
)
    requires
        old(set).wf(),
    ensures
        final(set).wf(),
        (text_map(final(set).entries@), texts(final(remove)@)) == with_variable(
            (text_map(old(set).entries@), texts(old(remove)@)),
            variable,
            inject,
            inherit,
            url@,
        ),
{
    let (upper, lower) = proxy_environment_variable_names(variable);
    if inject.contains(variable) {
        set.put(upper, url);
        set.put(lower, url);
    } else if !inherit.contains(variable) {
        let ghost before = texts(remove@);
        remove.push(upper.to_owned());
        assert(texts(remove@) =~= before.push(upper@));
        remove.push(lower.to_owned());
        assert(texts(remove@) =~= before.push(upper@).push(lower@));
    }
}

fn plan_candidate(
    candidate: LocalProxyCandidate,
    env: &EnvConfig,
    selection: &ProxySelection,
) -> (r: Result<ProxyEnvironmentPlan, String>)
    ensures
        ({
            let expected = plan_for(candidate_of(candidate), *env, selection.selection());
            match r {
                Ok(plan) => expected == Ok::<_, Seq<char>>(plan.plan()) && plan.set.wf(),
                Err(message) => expected == Err::<EnvironmentPlan, _>(message@),
            }
        }),
{
    let asked = match selection.scheme {
        Some(scheme) => scheme,
        None => ProxyEnvScheme::Auto,
    };
    let scheme = resolve_proxy_scheme(candidate.protocol, asked);
    let mut address = proxy_connect_address(candidate.listen);
    match selection.port {
        Some(port) => {
            address.port = port;
        },
        None => {},
    }
    let word = proxy_scheme_name(scheme);
    let at = address.text();
    let url = concat3(word, "://", at.as_str());
    let inject = match selection.inject {
        Some(set) => set,
        None => env.inject,
    };
    let inherit = match selection.inherit {
        Some(set) => set,
        None => env.inherit,
    };
    if inject.contains(ProxyEnvVariable::NoProxy) {
        return Err("no-proxy cannot be injected; add it to inherit instead".to_owned());
    }
    let mut set: NamedMap<String> = NamedMap::new();
    let mut remove: Vec<String> = Vec::new();
    assert(text_map(set.entries@) =~= Map::<Seq<char>, Seq<char>>::empty());
    assert(texts(remove@) =~= Seq::<Seq<char>>::empty());
    let u = url.as_str();
    add_variable(&mut set, &mut remove, ProxyEnvVariable::AllProxy, inject, inherit, u);
    add_variable(&mut set, &mut remove, ProxyEnvVariable::HttpProxy, inject, inherit, u);
    add_variable(&mut set, &mut remove, ProxyEnvVariable::HttpsProxy, inject, inherit, u);
    add_variable(&mut set, &mut remove, ProxyEnvVariable::NoProxy, inject, inherit, u);
    set.put("STK_PROXY_HOST", candidate.host.as_str());
    set.put("STK_PROXY_SCHEME", word);
    set.put("STK_PROXY_TUNNEL", candidate.tunnel.as_str());
    set.put("STK_PROXY_URL", u);
    Ok(
        ProxyEnvironmentPlan {
            candidate,
            scheme,
            address,
            port_overridden: selection.port.is_some(),
            url,
            set,
            remove,
        },
    )
}

/// The plan for a selection among candidates.
pub fn choose_proxy_environment_plan(
    candidates: &Vec<LocalProxyCandidate>,
    env: &EnvConfig,
    selection: &ProxySelection,
) -> (r: Result<ProxyEnvironmentPlan, String>)
    ensures
        ({
            let expected = chosen_plan(
                candidates_of(candidates@),
                *env,
                selection.selection(),
            );
            match r {
                Ok(plan) => expected == Ok::<_, Seq<char>>(plan.plan()) && plan.set.wf(),
                Err(message) => expected == Err::<EnvironmentPlan, _>(message@),
            }
        }),
{
    assert(candidates_of(candidates@).len() == candidates@.len());
    if candidates.len() == 0 {
        return Err("configuration has no enabled local proxy tunnels".to_owned());
    }
    let there = collect_fitting(candidates, selection);
    assert(candidates_of(there@).len() == there@.len());
    let told = format_proxy_selection(selection);
    if there.len() == 0 {
        return Err(concat2("no enabled local proxy matches ", told.as_str()));
    }
    let asked = match selection.scheme {
        Some(scheme) => scheme,
        None => ProxyEnvScheme::Auto,
    };
    let able = collect_serving(&there, asked);
    assert(candidates_of(able@).len() == able@.len());
    if able.len() == 0 {
        return Err(
            concat4(
                "no local proxy matching ",
                told.as_str(),
                " supports scheme ",
                proxy_scheme_name(asked),
            ),
        );
    }
    if selection.host.is_none() && able.len() > 1 {
        match &selection.tunnel {
            Some(tunnel) => {
                return Err(
                    concat3(
                        "local proxy tunnel ",
                        tunnel.as_str(),
                        " is ambiguous across hosts; specify --host",
                    ),
                );
            },
            None => {},
        }
    }
    assert(candidates_of(able@)[0] == candidate_of(able@[0]));
    plan_candidate(copy_candidate(&able[0]), env, selection)
}

/// Why there is no plan: what the configuration's files keep from being known, or what is wrong
/// with the selection.
#[derive(Debug, Clone, PartialEq, Eq)]
pub enum PlanRefusal {
    Files(SshStop),
    Selection(String),
}

/// The plan for a selection among all local proxies of a configuration.
pub fn build_proxy_environment_plan(
    config: &AppConfig,
    known: &SshFiles,
    home: &HomeDirectory,
    selection: &ProxySelection,
) -> (r: Result<ProxyEnvironmentPlan, PlanRefusal>)
    ensures
        (match all_candidates(
            *known,
            home@,
            config.hosts.entries@,
            config.override_default,
            0,
        ) {
            Err(stop) => r matches Err(PlanRefusal::Files(found)) && found.stop() == stop,
            Ok(candidates) => match chosen_plan(
                candidates,
                config.env,
                selection.selection(),
            ) {
                Ok(plan) => r matches Ok(found) && found.plan() == plan && found.set.wf(),
                Err(message) => r matches Err(PlanRefusal::Selection(found)) && found@
                    == message,
            },
        }),
{
    let candidates = match config.resolved_local_proxies(known, home) {
        Ok(candidates) => candidates,
        Err(stop) => {
            return Err(PlanRefusal::Files(stop));
        },
    };
    match choose_proxy_environment_plan(&candidates, &config.env, selection) {
        Ok(plan) => Ok(plan),
        Err(message) => Err(PlanRefusal::Selection(message)),
    }
}

/// A child process is never told of a proxy and kept from it: no variable is both set and taken
/// away.
pub proof fn set_variables_are_not_removed(
    inject: ProxyVariableSet,
    inherit: ProxyVariableSet,
    url: Seq<char>,
    name: Seq<char>,
)
    ensures
        !(proxy_variables(inject, inherit, url).0.contains_key(name) && proxy_variables(
            inject,
            inherit,
            url,
        ).1.contains(name)),
{
    reveal_strlit("ALL_PROXY");
    reveal_strlit("all_proxy");
    reveal_strlit("HTTP_PROXY");
    reveal_strlit("http_proxy");
    reveal_strlit("HTTPS_PROXY");
    reveal_strlit("https_proxy");
    reveal_strlit("NO_PROXY");
    reveal_strlit("no_proxy");
    let all = seq![
        "ALL_PROXY"@,
        "all_proxy"@,
        "HTTP_PROXY"@,
        "http_proxy"@,
        "HTTPS_PROXY"@,
        "https_proxy"@,
        "NO_PROXY"@,
        "no_proxy"@,
    ];
    assert(all[0][0] == 'A' && all[1][0] == 'a' && all[2][0] == 'H' && all[3][0] == 'h'
        && all[4][0] == 'H' && all[5][0] == 'h' && all[6][0] == 'N' && all[7][0] == 'n');
    assert(all[2].len() == 10 && all[4].len() == 11 && all[3].len() == 10 && all[5].len()
        == 11);
    let none = (Map::<Seq<char>, Seq<char>>::empty(), Seq::<Seq<char>>::empty());
    let a = with_variable(none, ProxyEnvVariable::AllProxy, inject, inherit, url);
    let b = with_variable(a, ProxyEnvVariable::HttpProxy, inject, inherit, url);
    let c = with_variable(b, ProxyEnvVariable::HttpsProxy, inject, inherit, url);
    let d = with_variable(c, ProxyEnvVariable::NoProxy, inject, inherit, url);
    lemma_removed(none, ProxyEnvVariable::AllProxy, inject, inherit, url, name);
    lemma_removed(a, ProxyEnvVariable::HttpProxy, inject, inherit, url, name);
    lemma_removed(b, ProxyEnvVariable::HttpsProxy, inject, inherit, url, name);
    lemma_removed(c, ProxyEnvVariable::NoProxy, inject, inherit, url, name);
}

proof fn lemma_removed(
    so_far: (Map<Seq<char>, Seq<char>>, Seq<Seq<char>>),
    variable: ProxyEnvVariable,
    inject: ProxyVariableSet,
    inherit: ProxyVariableSet,
    url: Seq<char>,
    name: Seq<char>,
)
    ensures
        ({
            let after = with_variable(so_far, variable, inject, inherit, url);
            let (upper, lower) = variable_names(variable);
            let named = name == upper || name == lower;
            &&& after.0.contains_key(name) == (so_far.0.contains_key(name) || (named
                && inject.contains(variable)))
            &&& after.1.contains(name) == (so_far.1.contains(name) || (named
                && !inject.contains(variable) && !inherit.contains(variable)))
        }),
{
    let after = with_variable(so_far, variable, inject, inherit, url);
    let (upper, lower) = variable_names(variable);
    let before = so_far.1;
    if !inject.contains(variable) && !inherit.contains(variable) {
        assert(after.1[before.len() as int] == upper);
        assert(after.1[(before.len() + 1) as int] == lower);
        if before.contains(name) {
            let k = before.index_of(name);
            assert(after.1[k] == name);
        }
        if after.1.contains(name) {
            let k = after.1.index_of(name);
            if k < before.len() {
                assert(before[k] == name);
            }
        }
    }
}

// ---------------------------------------------------------------------------
// Proxies that are running
// ---------------------------------------------------------------------------
/// Whether a tunnel is the local proxy of a plan: the one at its address where the port was
/// chosen by hand, else the one of its name.
pub open spec fn is_planned_tunnel(
    tunnel: TunnelRuntimeSnapshot,
    name: Seq<char>,
    address: SocketAddress,
    by_address: bool,
) -> bool {
    tunnel.kind == TunnelKind::LocalProxy && if by_address {
        match read_socket(tunnel.listen@) {
            Some(listen) => reachable_address(listen) == address,
            None => false,
        }
    } else {
        tunnel.name@ == name
    }
}

/// The first tunnel of a list, from `from` on, that is the local proxy of a plan.
pub open spec fn planned_tunnel(
    tunnels: Seq<TunnelRuntimeSnapshot>,
    name: Seq<char>,
    address: SocketAddress,
    by_address: bool,
    from: int,
) -> Option<TunnelRuntimeSnapshot>
    decreases tunnels.len() - from,
{
    if from >= tunnels.len() {
        None
    } else if is_planned_tunnel(tunnels[from], name, address, by_address) {
        Some(tunnels[from])
    } else {
        planned_tunnel(tunnels, name, address, by_address, from + 1)
    }
}

/// The first host of a list, from `from` on, with a name.
pub open spec fn host_named(hosts: Seq<HostRuntimeSnapshot>, name: Seq<char>, from: int) -> Option<
    HostRuntimeSnapshot,
>
    decreases hosts.len() - from,
{
    if from >= hosts.len() {
        None
    } else if hosts[from].name@ == name {
        Some(hosts[from])
    } else {
        host_named(hosts, name, from + 1)
    }
}

/// What keeps the proxy of a plan from being used right now.
pub open spec fn live_fault(
    hosts: Seq<HostRuntimeSnapshot>,
    plan: EnvironmentPlan,
) -> Option<Seq<char>> {
    let candidate = plan.candidate;
    match host_named(hosts, candidate.host, 0) {
        None => Some("runtime does not contain SSH host "@ + candidate.host),
        Some(host) => match planned_tunnel(
            host.tunnels@,
            candidate.tunnel,
            plan.address,
            plan.port_overridden,
            0,
        ) {
            None => if plan.port_overridden {
                Some(
                    "runtime does not contain a local proxy for host "@ + candidate.host + " at "@
                        + socket_text(plan.address),
                )
            } else {
                Some(
                    "runtime does not contain local proxy "@ + candidate.host + "/"@
                        + candidate.tunnel,
                )
            },
            Some(tunnel) => if tunnel.status == TunnelRuntimeStatus::Listening {
                None
            } else {
                let detail = match tunnel.last_error {
                    Some(error) => ": "@ + error@,
                    None => Seq::empty(),
                };
                if plan.port_overridden {
                    Some(
                        "local proxy endpoint "@ + socket_text(plan.address) + " for host "@
                            + candidate.host + " is "@ + tunnel_status_word(tunnel.status)
                            + detail,
                    )
                } else {
                    Some(
                        "local proxy "@ + candidate.host + "/"@ + candidate.tunnel + " is "@
                            + tunnel_status_word(tunnel.status) + detail,
                    )
                }
            },
        },
    }
}

fn find_host<'a>(hosts: &'a Vec<HostRuntimeSnapshot>, name: &str) -> (r: Option<
    &'a HostRuntimeSnapshot,
>)
    ensures
        (match r {
            Some(host) => host_named(hosts@, name@, 0) == Some(*host),
            None => host_named(hosts@, name@, 0) is None,
        }),
{
    for i in 0..hosts.len()
        invariant
            host_named(hosts@, name@, 0) == host_named(hosts@, name@, i as int),
    {
        if text::same_text(hosts[i].name.as_str(), name) {
            return Some(&hosts[i]);
        }
    }
    None
}

fn tunnel_is_planned(
    tunnel: &TunnelRuntimeSnapshot,
    name: &str,
    address: SocketAddress,
    by_address: bool,
) -> (r: bool)
    ensures
        r == is_planned_tunnel(*tunnel, name@, address, by_address),
{
    if tunnel.kind != TunnelKind::LocalProxy {
        return false;
    }
    if by_address {
        match address::parse_socket(tunnel.listen.as_str()) {
            Some(listen) => proxy_connect_address(listen) == address,
            None => false,
        }
    } else {
        text::same_text(tunnel.name.as_str(), name)
    }
}

fn find_tunnel<'a>(
    tunnels: &'a Vec<TunnelRuntimeSnapshot>,
    name: &str,
    address: SocketAddress,
    by_address: bool,
) -> (r: Option<&'a TunnelRuntimeSnapshot>)
    ensures
        (match r {
            Some(tunnel) => planned_tunnel(tunnels@, name@, address, by_address, 0) == Some(
                *tunnel,
            ),
            None => planned_tunnel(tunnels@, name@, address, by_address, 0) is None,
        }),
{
    for i in 0..tunnels.len()
        invariant
            planned_tunnel(tunnels@, name@, address, by_address, 0) == planned_tunnel(
                tunnels@,
                name@,
                address,
                by_address,
                i as int,
            ),
    {
        if tunnel_is_planned(&tunnels[i], name, address, by_address) {
            return Some(&tunnels[i]);
        }
    }
    None
}

/// Checks that the proxy of a plan can be used right now; `hosts` is what the running program
/// tells.
pub fn check_live_proxy(hosts: &Vec<HostRuntimeSnapshot>, plan: &ProxyEnvironmentPlan) -> (r:
    Result<(), String>)
    ensures
        (match r {
            Ok(_) => live_fault(hosts@, plan.plan()) is None,
            Err(message) => live_fault(hosts@, plan.plan()) == Some(message@),
        }),
{
    let host_name = plan.candidate.host.as_str();
    let tunnel_name = plan.candidate.tunnel.as_str();
    let at = plan.address.text();
    let host = match find_host(hosts, host_name) {
        Some(host) => host,
        None => {
            return Err(concat2("runtime does not contain SSH host ", host_name));
        },
    };
    match find_tunnel(&host.tunnels, tunnel_name, plan.address, plan.port_overridden) {
        None => if plan.port_overridden {
            Err(
                concat4(
                    "runtime does not contain a local proxy for host ",
                    host_name,
                    " at ",
                    at.as_str(),
                ),
            )
        } else {
            Err(concat4("runtime does not contain local proxy ", host_name, "/", tunnel_name))
        },
        Some(tunnel) => {
            if tunnel.status == TunnelRuntimeStatus::Listening {
                return Ok(());
            }
            let detail = match &tunnel.last_error {
                Some(error) => concat2(": ", error.as_str()),
                None => String::new(),
            };
            let mut message = if plan.port_overridden {
                concat4("local proxy endpoint ", at.as_str(), " for host ", host_name)
            } else {
                concat4("local proxy ", host_name, "/", tunnel_name)
            };
            message.append(" is ");
            message.append(status::tunnel_status_label(tunnel.status));
            message.append(detail.as_str());
            Err(message)
        },
    }
}

// ---------------------------------------------------------------------------
// Commands
// ---------------------------------------------------------------------------
/// The exit code that tells how a command ended: its own, else the one by which a shell tells
/// of the signal that ended it.
#[verifier::allow_in_spec]
pub fn command_exit_code(code: Option<i32>, signal: Option<i32>) -> i32
    requires
        signal matches Some(number) ==> number <= i32::MAX - 128,
    returns
        (match (code, signal) {
            (Some(code), _) => code,
            (None, Some(number)) => (128 + number) as i32,
            (None, None) => 1,
        }),
{
    match (code, signal) {
        (Some(code), _) => code,
        (None, Some(number)) => 128 + number,
        (None, None) => 1,
    }
}

// ---------------------------------------------------------------------------
// Laws of proxies for child processes
// ---------------------------------------------------------------------------
/// Whether a candidate is the one that is wanted: at the host and the tunnel that are named, and
/// speaking what is asked for.
pub open spec fn is_wanted(
    candidate: Candidate,
    host: Option<Seq<char>>,
    tunnel: Option<Seq<char>>,
    scheme: ProxyEnvScheme,
) -> bool {
    &&& host is Some ==> candidate.host == host->0
    &&& tunnel is Some ==> candidate.tunnel == tunnel->0
    &&& match scheme {
        ProxyEnvScheme::Auto => true,
        ProxyEnvScheme::Http => candidate.protocol != ProxyProtocol::Socks5h,
        ProxyEnvScheme::Socks5h | ProxyEnvScheme::Socks5 => candidate.protocol
            != ProxyProtocol::Http,
    }
}

proof fn lemma_first_wanted(
    list: Seq<Candidate>,
    host: Option<Seq<char>>,
    tunnel: Option<Seq<char>>,
    scheme: ProxyEnvScheme,
)
    ensures
        ({
            let able = serving(fitting(list, host, tunnel), scheme);
            &&& able.len() > 0 ==> exists|i: int|
                0 <= i < list.len() && #[trigger] list[i] == able[0] && is_wanted(
                    list[i],
                    host,
                    tunnel,
                    scheme,
                ) && forall|j: int|
                    0 <= j < i ==> !is_wanted(#[trigger] list[j], host, tunnel, scheme)
            &&& able.len() == 0 ==> forall|j: int|
                0 <= j < list.len() ==> !is_wanted(#[trigger] list[j], host, tunnel, scheme)
        }),
    decreases list.len(),
{
    if list.len() > 0 {
        let front = list.drop_last();
        let last = list.last();
        lemma_first_wanted(front, host, tunnel, scheme);
        let before = serving(fitting(front, host, tunnel), scheme);
        let able = serving(fitting(list, host, tunnel), scheme);
        let fits = (host is None || last.host == host->0) && (tunnel is None || last.tunnel
            == tunnel->0);
        if fits {
            assert(fitting(list, host, tunnel).drop_last() =~= fitting(front, host, tunnel));
        }
        assert(able == if is_wanted(last, host, tunnel, scheme) {
            before.push(last)
        } else {
            before
        });
        if before.len() > 0 {
            let i = choose|i: int|
                0 <= i < front.len() && #[trigger] front[i] == before[0] && is_wanted(
                    front[i],
                    host,
                    tunnel,
                    scheme,
                ) && forall|j: int|
                    0 <= j < i ==> !is_wanted(#[trigger] front[j], host, tunnel, scheme);
            assert(list[i] == able[0]);
            assert forall|j: int| 0 <= j < i implies !is_wanted(
                #[trigger] list[j],
                host,
                tunnel,
                scheme,
            ) by {
                assert(front[j] == list[j]);
            }
        } else {
            assert forall|j: int| 0 <= j < front.len() implies !is_wanted(
                #[trigger] list[j],
                host,
                tunnel,
                scheme,
            ) by {
                assert(front[j] == list[j]);
            }
            assert(list[list.len() - 1] == last);
        }
    }
}

/// A plan is for the first proxy of the configuration that is wanted; where no proxy is, there is
/// no plan.
pub proof fn the_first_wanted_proxy_is_taken(
    candidates: Seq<Candidate>,
    env: EnvConfig,
    selection: Selection,
)
    ensures
        ({
            let scheme = match selection.scheme {
                Some(scheme) => scheme,
                None => ProxyEnvScheme::Auto,
            };
            match chosen_plan(candidates, env, selection) {
                Ok(plan) => exists|i: int|
                    0 <= i < candidates.len() && #[trigger] candidates[i] == plan.candidate
                        && is_wanted(candidates[i], selection.host, selection.tunnel, scheme)
                        && forall|j: int|
                        0 <= j < i ==> !is_wanted(
                            #[trigger] candidates[j],
                            selection.host,
                            selection.tunnel,
                            scheme,
                        ),
                Err(_) => true,
            }
        }),
        (forall|j: int|
            0 <= j < candidates.len() ==> !is_wanted(
                #[trigger] candidates[j],
                selection.host,
                selection.tunnel,
                match selection.scheme {
                    Some(scheme) => scheme,
                    None => ProxyEnvScheme::Auto,
                },
            )) ==> chosen_plan(candidates, env, selection) is Err,
{
    let scheme = match selection.scheme {
        Some(scheme) => scheme,
        None => ProxyEnvScheme::Auto,
    };
    lemma_first_wanted(candidates, selection.host, selection.tunnel, scheme);
    let able = serving(fitting(candidates, selection.host, selection.tunnel), scheme);
    if able.len() > 0 {
        let i = choose|i: int|
            0 <= i < candidates.len() && #[trigger] candidates[i] == able[0] && is_wanted(
                candidates[i],
                selection.host,
                selection.tunnel,
                scheme,
            ) && forall|j: int|
                0 <= j < i ==> !is_wanted(
                    #[trigger] candidates[j],
                    selection.host,
                    selection.tunnel,
                    scheme,
                );
        assert(is_wanted(candidates[i], selection.host, selection.tunnel, scheme));
    }
}

/// A plan tells of the proxy at the address where a client reaches it, at the port that is named
/// by hand where one is, under the scheme that is asked for; where none is, that is what the
/// proxy speaks, and HTTP where it speaks both.
pub proof fn plans_name_reachable_proxies(
    candidate: Candidate,
    env: EnvConfig,
    selection: Selection,
)
    requires
        plan_for(candidate, env, selection) is Ok,
    ensures
        ({
            let plan = plan_for(candidate, env, selection)->Ok_0;
            let asked = selection.scheme;
            &&& plan.candidate == candidate
            &&& selection.port is Some ==> plan.address.port == selection.port->0
            &&& selection.port is None ==> plan.address.port == candidate.listen.port
            &&& candidate.listen.ip == IpAddress::V4(0) ==> plan.address.ip == IpAddress::V4(
                0x7f00_0001,
            )
            &&& candidate.listen.ip == IpAddress::V6(0) ==> plan.address.ip == IpAddress::V6(1)
            &&& candidate.listen.ip != IpAddress::V4(0) && candidate.listen.ip != IpAddress::V6(
                0,
            ) ==> plan.address.ip == candidate.listen.ip
            &&& asked is Some && asked->0 != ProxyEnvScheme::Auto ==> plan.scheme == asked->0
            &&& (asked is None || asked->0 == ProxyEnvScheme::Auto) ==> plan.scheme == if
            candidate.protocol == ProxyProtocol::Socks5h {
                ProxyEnvScheme::Socks5h
            } else {
                ProxyEnvScheme::Http
            }
            &&& plan.scheme == ProxyEnvScheme::Http ==> plan.url == "http"@ + "://"@ + socket_text(
                plan.address,
            )
            &&& plan.scheme == ProxyEnvScheme::Socks5h ==> plan.url == "socks5h"@ + "://"@
                + socket_text(plan.address)
            &&& plan.scheme == ProxyEnvScheme::Socks5 ==> plan.url == "socks5"@ + "://"@
                + socket_text(plan.address)
        }),
{
}

/// A variable that is to name the proxy is set to its URL, under both its names; one that is to
/// be left alone is; and any other is taken away, under both its names.
pub proof fn variables_are_set_left_or_removed(
    inject: ProxyVariableSet,
    inherit: ProxyVariableSet,
    url: Seq<char>,
)
    ensures
        ({
            let (set, remove) = proxy_variables(inject, inherit, url);
            &&& inject.all_proxy ==> set.contains_key("ALL_PROXY"@) && set["ALL_PROXY"@] == url
                && set.contains_key("all_proxy"@) && set["all_proxy"@] == url
            &&& inject.http_proxy ==> set.contains_key("HTTP_PROXY"@) && set["HTTP_PROXY"@] == url
                && set.contains_key("http_proxy"@) && set["http_proxy"@] == url
            &&& inject.https_proxy ==> set.contains_key("HTTPS_PROXY"@) && set["HTTPS_PROXY"@]
                == url && set.contains_key("https_proxy"@) && set["https_proxy"@] == url
            &&& !inject.all_proxy ==> !set.contains_key("ALL_PROXY"@) && !set.contains_key(
                "all_proxy"@,
            )
            &&& !inject.http_proxy ==> !set.contains_key("HTTP_PROXY"@) && !set.contains_key(
                "http_proxy"@,
            )
            &&& !inject.https_proxy ==> !set.contains_key("HTTPS_PROXY"@) && !set.contains_key(
                "https_proxy"@,
            )
            &&& (!inject.all_proxy && !inherit.all_proxy) == remove.contains("ALL_PROXY"@)
            &&& (!inject.all_proxy && !inherit.all_proxy) == remove.contains("all_proxy"@)
            &&& (!inject.http_proxy && !inherit.http_proxy) == remove.contains("HTTP_PROXY"@)
            &&& (!inject.http_proxy && !inherit.http_proxy) == remove.contains("http_proxy"@)
            &&& (!inject.https_proxy && !inherit.https_proxy) == remove.contains("HTTPS_PROXY"@)
            &&& (!inject.https_proxy && !inherit.https_proxy) == remove.contains("https_proxy"@)
            &&& (!inject.no_proxy && !inherit.no_proxy) == remove.contains("NO_PROXY"@)
            &&& (!inject.no_proxy && !inherit.no_proxy) == remove.contains("no_proxy"@)
        }),
{
    lemma_variable_names();
    lemma_variable(inject, inherit, url, "ALL_PROXY"@);
    lemma_variable(inject, inherit, url, "all_proxy"@);
    lemma_variable(inject, inherit, url, "HTTP_PROXY"@);
    lemma_variable(inject, inherit, url, "http_proxy"@);
    lemma_variable(inject, inherit, url, "HTTPS_PROXY"@);
    lemma_variable(inject, inherit, url, "https_proxy"@);
    lemma_variable(inject, inherit, url, "NO_PROXY"@);
    lemma_variable(inject, inherit, url, "no_proxy"@);
}

proof fn lemma_variable_names()
    ensures
        "ALL_PROXY"@[0] == 'A' && "all_proxy"@[0] == 'a' && "HTTP_PROXY"@[0] == 'H'
            && "http_proxy"@[0] == 'h' && "HTTPS_PROXY"@[0] == 'H' && "https_proxy"@[0] == 'h'
            && "NO_PROXY"@[0] == 'N' && "no_proxy"@[0] == 'n',
        "HTTP_PROXY"@.len() == 10 && "HTTPS_PROXY"@.len() == 11 && "http_proxy"@.len() == 10
            && "https_proxy"@.len() == 11,
{
    reveal_strlit("ALL_PROXY");
    reveal_strlit("all_proxy");
    reveal_strlit("HTTP_PROXY");
    reveal_strlit("http_proxy");
    reveal_strlit("HTTPS_PROXY");
    reveal_strlit("https_proxy");
    reveal_strlit("NO_PROXY");
    reveal_strlit("no_proxy");
}

proof fn lemma_variable(
    inject: ProxyVariableSet,
    inherit: ProxyVariableSet,
    url: Seq<char>,
    name: Seq<char>,
)
    ensures
        ({
            let (set, remove) = proxy_variables(inject, inherit, url);
            let all = name == "ALL_PROXY"@ || name == "all_proxy"@;
            let http = name == "HTTP_PROXY"@ || name == "http_proxy"@;
            let https = name == "HTTPS_PROXY"@ || name == "https_proxy"@;
            let no = name == "NO_PROXY"@ || name == "no_proxy"@;
            &&& set.contains_key(name) == ((all && inject.all_proxy) || (http
                && inject.http_proxy) || (https && inject.https_proxy) || (no && inject.no_proxy))
            &&& set.contains_key(name) ==> set[name] == url
            &&& remove.contains(name) == ((all && !inject.all_proxy && !inherit.all_proxy) || (
            http && !inject.http_proxy && !inherit.http_proxy) || (https && !inject.https_proxy
                && !inherit.https_proxy) || (no && !inject.no_proxy && !inherit.no_proxy))
        }),
{
    let none = (Map::<Seq<char>, Seq<char>>::empty(), Seq::<Seq<char>>::empty());
    let a = with_variable(none, ProxyEnvVariable::AllProxy, inject, inherit, url);
    let b = with_variable(a, ProxyEnvVariable::HttpProxy, inject, inherit, url);
    let c = with_variable(b, ProxyEnvVariable::HttpsProxy, inject, inherit, url);
    lemma_removed(none, ProxyEnvVariable::AllProxy, inject, inherit, url, name);
    lemma_removed(a, ProxyEnvVariable::HttpProxy, inject, inherit, url, name);
    lemma_removed(b, ProxyEnvVariable::HttpsProxy, inject, inherit, url, name);
    lemma_removed(c, ProxyEnvVariable::NoProxy, inject, inherit, url, name);
}

/// A child process is told which proxy was chosen by four variables, and `NO_PROXY` can never be
/// set.
pub proof fn child_processes_are_told_of_the_choice(
    candidate: Candidate,
    env: EnvConfig,
    selection: Selection,
)
    ensures
        (match selection.inject {
            Some(set) => set.no_proxy,
            None => env.inject.no_proxy,
        }) <==> plan_for(candidate, env, selection) is Err,
        plan_for(candidate, env, selection) matches Ok(plan) ==> {
            &&& plan.set.contains_key("STK_PROXY_HOST"@) && plan.set["STK_PROXY_HOST"@]
                == candidate.host
            &&& plan.set.contains_key("STK_PROXY_TUNNEL"@) && plan.set["STK_PROXY_TUNNEL"@]
                == candidate.tunnel
            &&& plan.set.contains_key("STK_PROXY_URL"@) && plan.set["STK_PROXY_URL"@] == plan.url
            &&& plan.set.contains_key("STK_PROXY_SCHEME"@) && plan.set["STK_PROXY_SCHEME"@]
                == scheme_word(plan.scheme)
        },
{
    reveal_strlit("STK_PROXY_HOST");
    reveal_strlit("STK_PROXY_SCHEME");
    reveal_strlit("STK_PROXY_TUNNEL");
    reveal_strlit("STK_PROXY_URL");
    assert("STK_PROXY_HOST"@.len() == 14 && "STK_PROXY_SCHEME"@[10] == 'S'
        && "STK_PROXY_TUNNEL"@[10] == 'T' && "STK_PROXY_URL"@.len() == 13
        && "STK_PROXY_SCHEME"@.len() == 16 && "STK_PROXY_TUNNEL"@.len() == 16);
}

/// A SOCKS proxy can be spoken to under both SOCKS schemes and not under HTTP, an HTTP proxy
/// under HTTP alone, a mixed one under all; the word for a scheme names it, in any case of
/// letters.
pub proof fn proxies_are_spoken_to_in_their_protocol(scheme: ProxyEnvScheme)
    ensures
        proxy_scheme_is_compatible(ProxyProtocol::Mixed, scheme),
        proxy_scheme_is_compatible(ProxyProtocol::Http, scheme) <==> scheme == ProxyEnvScheme::Http
            || scheme == ProxyEnvScheme::Auto,
        proxy_scheme_is_compatible(ProxyProtocol::Socks5h, scheme) <==> scheme
            != ProxyEnvScheme::Http,
        read_scheme(scheme_word(scheme)) == Ok::<_, Seq<char>>(scheme),
        read_scheme("HTTP"@) == Ok::<_, Seq<char>>(ProxyEnvScheme::Http),
{
    reveal_strlit("auto");
    reveal_strlit("socks5h");
    reveal_strlit("socks5");
    reveal_strlit("http");
    reveal_strlit("HTTP");
    assert(lowercase("auto"@) =~= "auto"@);
    assert(lowercase("socks5h"@) =~= "socks5h"@);
    assert(lowercase("socks5"@) =~= "socks5"@);
    assert(lowercase("http"@) =~= "http"@);
    assert(lowercase("HTTP"@) =~= "http"@);
    assert("auto"@[0] == 'a' && "socks5h"@.len() == 7 && "socks5"@.len() == 6 && "http"@[0] == 'h'
        && "http"@.len() == 4 && "socks5"@[0] == 's');
}

/// What the command line names comes before what the environment names, and that before what the
/// configuration names; and what the command line says of the scheme and the port comes before
/// what was named.
pub proof fn command_lines_come_first(
    env: EnvConfig,
    arguments: ProxyArguments,
    profile: Option<Seq<char>>,
)
    ensures
        arguments.proxy is Some ==> first_given(arguments.proxy, profile, env.default) == Some(
            arguments.proxy->0@,
        ),
        arguments.proxy is None && profile is Some ==> first_given(
            arguments.proxy,
            profile,
            env.default,
        ) == profile,
        arguments.proxy is None && profile is None && env.default is Some ==> first_given(
            arguments.proxy,
            profile,
            env.default,
        ) == Some(env.default->0@),
        requested(env, arguments, profile) matches Ok(selection) ==> {
            &&& selection.port == arguments.port
            &&& arguments.scheme is Some ==> selection.scheme == arguments.scheme
            &&& arguments.http ==> selection.scheme == Some(ProxyEnvScheme::Http)
            &&& arguments.socks5h ==> selection.scheme == Some(ProxyEnvScheme::Socks5h)
            &&& arguments.socks5 ==> selection.scheme == Some(ProxyEnvScheme::Socks5)
            &&& arguments.host is Some ==> selection.host == Some(trimmed(arguments.host->0@))
            &&& arguments.tunnel is Some ==> selection.tunnel == Some(
                trimmed(arguments.tunnel->0@),
            )
        },
        arguments.http && arguments.socks5h ==> requested(env, arguments, profile) is Err,
        arguments.proxy is None && profile is None && env.default is None && arguments.host is None
            && arguments.tunnel is None && arguments.scheme is None && !arguments.http
            && !arguments.socks5h && !arguments.socks5 ==> requested(env, arguments, profile)
            == Ok::<_, Seq<char>>(
            Selection {
                host: None,
                tunnel: None,
                scheme: None,
                port: arguments.port,
                inject: None,
                inherit: None,
            },
        ),
{
}

/// A profile of the configuration comes before a selector of the same text, and selects what it
/// says.
pub proof fn profiles_come_before_selectors(env: EnvConfig, name: Seq<char>)
    ensures
        value_of(env.profiles.entries@, name) matches Some(profile) ==> named_selection(env, name)
            == Ok::<_, Seq<char>>(
            Selection {
                host: text_option(profile.host),
                tunnel: text_option(profile.tunnel),
                scheme: profile.scheme,
                port: None,
                inject: profile.inject,
                inherit: profile.inherit,
            },
        ),
        value_of(env.profiles.entries@, name) is None ==> named_selection(env, name)
            == read_selector(name),
{
}

/// A text without white space, slash and `@`.
pub open spec fn is_selector_word(word: Seq<char>) -> bool {
    word.len() > 0 && forall|i: int|
        0 <= i < word.len() ==> !text::is_white_space(#[trigger] word[i]) && word[i] != '/'
            && word[i] != '@'
}

/// A selector names a host, and behind a slash a tunnel, and behind an `@` a scheme, each as it
/// stands.
pub proof fn selectors_are_read(host: Seq<char>, tunnel: Seq<char>)
    requires
        is_selector_word(host),
        is_selector_word(tunnel),
    ensures
        read_selector(host) == Ok::<_, Seq<char>>(
            Selection { host: Some(host), tunnel: None, scheme: None, ..any_proxy() },
        ),
        read_selector(host + seq!['/'] + tunnel) == Ok::<_, Seq<char>>(
            Selection { host: Some(host), tunnel: Some(tunnel), scheme: None, ..any_proxy() },
        ),
        read_selector((host + seq!['/'] + tunnel) + seq!['@'] + "http"@) == Ok::<_, Seq<char>>(
            Selection {
                host: Some(host),
                tunnel: Some(tunnel),
                scheme: Some(ProxyEnvScheme::Http),
                ..any_proxy()
            },
        ),
        read_selector(seq!['@'] + "http"@) == Ok::<_, Seq<char>>(
            Selection {
                host: None,
                tunnel: None,
                scheme: Some(ProxyEnvScheme::Http),
                ..any_proxy()
            },
        ),
        read_selector(Seq::empty()) is Err,
{
    reveal_strlit("http");
    proxies_are_spoken_to_in_their_protocol(ProxyEnvScheme::Http);
    let none = Seq::<char>::empty();
    let place = host + seq!['/'] + tunnel;
    let full = place + seq!['@'] + "http"@;
    let scheme = seq!['@'] + "http"@;
    lemma_no_char(host, '@');
    lemma_no_char(host, '/');
    lemma_no_char(tunnel, '/');
    assert forall|i: int| 0 <= i < place.len() implies place[i] != '@' by {
        if i < host.len() {
            assert(place[i] == host[i]);
        } else if i > host.len() {
            assert(place[i] == tunnel[i - host.len() - 1]);
        }
    }
    lemma_no_char(place, '@');
    lemma_no_char("http"@, '@');
    lemma_no_char(none, '@');
    text::splits_keep_both_sides(host, '@', host);
    text::splits_keep_both_sides(host, '/', tunnel);
    text::splits_keep_both_sides(place, '@', "http"@);
    text::splits_keep_both_sides(none, '@', "http"@);
    assert(none + seq!['@'] + "http"@ =~= scheme);
    text::trimming_takes_the_ends_alone(none, none, none);
    assert(none + none + none =~= none);
    assert(host.last() == host[host.len() - 1]);
    text::trimming_takes_the_ends_alone(none, host, none);
    assert(none + host + none =~= host);
    assert(place[0] == host[0]);
    assert(place.last() == tunnel[tunnel.len() - 1]);
    text::trimming_takes_the_ends_alone(none, place, none);
    assert(none + place + none =~= place);
    assert(full[0] == host[0]);
    assert(full.last() == 'p');
    text::trimming_takes_the_ends_alone(none, full, none);
    assert(none + full + none =~= full);
    assert(scheme[0] == '@' && scheme.last() == 'p');
    text::trimming_takes_the_ends_alone(none, scheme, none);
    assert(none + scheme + none =~= scheme);
}

proof fn lemma_no_char(s: Seq<char>, c: char)
    requires
        forall|i: int| 0 <= i < s.len() ==> s[i] != c,
    ensures
        !s.contains(c),
        !has_char(s, c),
{
    text::lemma_last_index(s, c);
}

/// The proxy of a plan can be used just while its tunnel listens.
pub proof fn only_listening_proxies_are_used(
    hosts: Seq<HostRuntimeSnapshot>,
    plan: EnvironmentPlan,
)
    ensures
        live_fault(hosts, plan) is None <==> (host_named(hosts, plan.candidate.host, 0) matches Some(
            host,
        ) && (planned_tunnel(
            host.tunnels@,
            plan.candidate.tunnel,
            plan.address,
            plan.port_overridden,
            0,
        ) matches Some(tunnel) && tunnel.status == TunnelRuntimeStatus::Listening)),
{
}

/// A command ends with its own code, else with 128 and the signal that ended it, else with 1.
pub proof fn exit_codes_are_passed_on(code: i32, signal: i32)
    requires
        0 < signal <= i32::MAX - 128,
    ensures
        command_exit_code(Some(code), None) == code,
        command_exit_code(Some(code), Some(signal)) == code,
        command_exit_code(None, Some(signal)) == 128 + signal,
        command_exit_code(None, None) == 1,
{
}

} // verus!
