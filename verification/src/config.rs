//! The configuration: what it holds, what is left out stands for, and what runs from it.
use crate::address::{IpAddress, SocketAddress, LOCALHOST_V4};
use crate::authority::HostPort;
use crate::health::LoadBalancePolicy;
use crate::named::{first_repeat, listed, value_of, Named, NamedMap};
use crate::paths::{file_name, path_file_name, PathStyle};
use crate::text;
use crate::text::{copy_text_option, lowercase};
use vstd::prelude::*;

verus! {

// ---------------------------------------------------------------------------
// Choices
// ---------------------------------------------------------------------------
/// The languages that a configuration is written in.
#[derive(Debug, Clone, Copy, PartialEq, Eq, Structural)]
pub enum ConfigFormat {
    Yaml,
    Json,
    Toml,
}

/// What a proxy speaks.
#[derive(Debug, Clone, Copy, PartialEq, Eq, Structural)]
pub enum ProxyProtocol {
    Socks5h,
    Http,
    Mixed,
}

/// How a child process is told to speak to a proxy.
#[derive(Debug, Clone, Copy, PartialEq, Eq, Structural)]
pub enum ProxyEnvScheme {
    Auto,
    Socks5h,
    Socks5,
    Http,
}

impl Default for ProxyEnvScheme {
    fn default() -> (r: ProxyEnvScheme)
        ensures
            r == ProxyEnvScheme::Auto,
    {
        ProxyEnvScheme::Auto
    }
}

/// The environment variables that a proxy is told by.
#[derive(Debug, Clone, Copy, PartialEq, Eq, Structural)]
pub enum ProxyEnvVariable {
    AllProxy,
    HttpProxy,
    HttpsProxy,
    NoProxy,
}

/// A set of those variables.
#[derive(Debug, Clone, Copy, PartialEq, Eq, Structural)]
pub struct ProxyVariableSet {
    pub all_proxy: bool,
    pub http_proxy: bool,
    pub https_proxy: bool,
    pub no_proxy: bool,
}

impl ProxyVariableSet {
    /// No variable.
    #[verifier::allow_in_spec]
    pub fn none() -> ProxyVariableSet
        returns
            (ProxyVariableSet {
                all_proxy: false,
                http_proxy: false,
                https_proxy: false,
                no_proxy: false,
            }),
    {
        ProxyVariableSet {
            all_proxy: false,
            http_proxy: false,
            https_proxy: false,
            no_proxy: false,
        }
    }

    /// The variables that name a proxy.
    #[verifier::allow_in_spec]
    pub fn proxies() -> ProxyVariableSet
        returns
            (ProxyVariableSet {
                all_proxy: true,
                http_proxy: true,
                https_proxy: true,
                no_proxy: false,
            }),
    {
        ProxyVariableSet { all_proxy: true, http_proxy: true, https_proxy: true, no_proxy: false }
    }

    /// Whether `variable` belongs to the set.
    #[verifier::allow_in_spec]
    pub fn contains(self, variable: ProxyEnvVariable) -> bool
        returns
            (match variable {
                ProxyEnvVariable::AllProxy => self.all_proxy,
                ProxyEnvVariable::HttpProxy => self.http_proxy,
                ProxyEnvVariable::HttpsProxy => self.https_proxy,
                ProxyEnvVariable::NoProxy => self.no_proxy,
            }),
    {
        match variable {
            ProxyEnvVariable::AllProxy => self.all_proxy,
            ProxyEnvVariable::HttpProxy => self.http_proxy,
            ProxyEnvVariable::HttpsProxy => self.https_proxy,
            ProxyEnvVariable::NoProxy => self.no_proxy,
        }
    }
}

/// Which host keys are accepted.
#[derive(Debug, Clone, Copy, PartialEq, Eq, Structural)]
pub enum SshHostKeyPolicy {
    KnownHosts,
    InsecureAcceptAny,
}

impl Default for SshHostKeyPolicy {
    fn default() -> (r: SshHostKeyPolicy)
        ensures
            r == SshHostKeyPolicy::KnownHosts,
    {
        SshHostKeyPolicy::KnownHosts
    }
}

/// How a user proves who they are.
#[derive(Debug, Clone, PartialEq, Eq)]
pub enum SshAuthConfig {
    Agent,
    PrivateKey { path: String, passphrase_env: Option<String> },
    Password { password_env: String },
}

impl Default for SshAuthConfig {
    fn default() -> (r: SshAuthConfig)
        ensures
            r is Agent,
    {
        SshAuthConfig::Agent
    }
}

/// A copy of a way to prove who one is.
pub fn copy_auth(value: &Option<SshAuthConfig>) -> (r: Option<SshAuthConfig>)
    ensures
        r == *value,
{
    match value {
        Some(SshAuthConfig::Agent) => Some(SshAuthConfig::Agent),
        Some(SshAuthConfig::PrivateKey { path, passphrase_env }) => Some(
            SshAuthConfig::PrivateKey {
                path: path.clone(),
                passphrase_env: copy_text_option(passphrase_env),
            },
        ),
        Some(SshAuthConfig::Password { password_env }) => Some(
            SshAuthConfig::Password { password_env: password_env.clone() },
        ),
        None => None,
    }
}

// ---------------------------------------------------------------------------
// Formats
// ---------------------------------------------------------------------------
/// What stands behind the last dot of a file name, where the name has a dot that it does not
/// start with.
pub open spec fn extension(name: Seq<char>) -> Option<Seq<char>> {
    let dot = text::last_index(name, '.');
    if dot > 0 && name != ".."@ {
        Some(name.skip(dot + 1))
    } else {
        None
    }
}

/// The format that a file extension, in lower case, stands for.
pub open spec fn format_of_extension(extension: Option<Seq<char>>) -> Option<ConfigFormat> {
    match extension {
        Some(name) => {
            let lower = lowercase(name);
            if lower == "yaml"@ || lower == "yml"@ {
                Some(ConfigFormat::Yaml)
            } else if lower == "json"@ {
                Some(ConfigFormat::Json)
            } else if lower == "toml"@ {
                Some(ConfigFormat::Toml)
            } else {
                None
            }
        },
        None => None,
    }
}

/// The extension of a file name.
fn extension_of(style: PathStyle, path: &str) -> (r: Option<String>)
    ensures
        (match r {
            Some(found) => extension(path_file_name(style, path@)) == Some(found@),
            None => extension(path_file_name(style, path@)) is None,
        }),
{
    let whole = file_name(style, path);
    let name = whole.as_str();
    if text::same_text(name, "..") {
        return None;
    }
    match text::rsplit_once(name, '.') {
        Some((before, after)) => {
            proof {
                text::lemma_last_index(name@, '.');
            }
            if before.is_empty() {
                None
            } else {
                Some(after.to_owned())
            }
        },
        None => None,
    }
}

impl ConfigFormat {
    /// The format of the file at `path`, by its extension.
    pub fn from_path(style: PathStyle, path: &str) -> (r: Result<ConfigFormat, ConfigError>)
        ensures
            (match r {
                Ok(format) => format_of_extension(extension(path_file_name(style, path@))) == Some(format),
                Err(error) => {
                    &&& format_of_extension(extension(path_file_name(style, path@))) is None
                    &&& error.fault() == ConfigFault::UnsupportedFormat(path@)
                },
            }),
    {
        match extension_of(style, path) {
            Some(found) => {
                let lower = text::to_lowercase(found.as_str());
                let name = lower.as_str();
                if text::same_text(name, "yaml") || text::same_text(name, "yml") {
                    return Ok(ConfigFormat::Yaml);
                }
                if text::same_text(name, "json") {
                    return Ok(ConfigFormat::Json);
                }
                if text::same_text(name, "toml") {
                    return Ok(ConfigFormat::Toml);
                }
            },
            None => {},
        }
        Err(ConfigError::UnsupportedFormat(path.to_owned()))
    }

    /// The name of the format.
    pub fn text(self) -> (r: &'static str)
        ensures
            r@ == format_name(self),
    {
        match self {
            ConfigFormat::Yaml => "YAML",
            ConfigFormat::Json => "JSON",
            ConfigFormat::Toml => "TOML",
        }
    }
}

/// The name of a format.
pub open spec fn format_name(format: ConfigFormat) -> Seq<char> {
    match format {
        ConfigFormat::Yaml => "YAML"@,
        ConfigFormat::Json => "JSON"@,
        ConfigFormat::Toml => "TOML"@,
    }
}

// ---------------------------------------------------------------------------
// Errors
// ---------------------------------------------------------------------------
/// What is wrong with a configuration.
#[derive(Debug, Clone, PartialEq, Eq)]
pub enum ConfigError {
    Read { path: String, reason: String },
    Parse { format: ConfigFormat, reason: String },
    Serialize { format: ConfigFormat, reason: String },
    UnsupportedFormat(String),
    EmptyHosts,
    DuplicateLocalListen(SocketAddress),
    InvalidHostConfig { host: String, reason: String },
    InvalidControlEndpoint(String),
    InvalidEnvConfig(String),
}

/// What is wrong with a configuration, with texts for strings.
pub ghost enum ConfigFault {
    Read { path: Seq<char>, reason: Seq<char> },
    Parse { format: ConfigFormat, reason: Seq<char> },
    Serialize { format: ConfigFormat, reason: Seq<char> },
    UnsupportedFormat(Seq<char>),
    EmptyHosts,
    DuplicateLocalListen(SocketAddress),
    InvalidHostConfig { host: Seq<char>, reason: Seq<char> },
    InvalidControlEndpoint(Seq<char>),
    InvalidEnvConfig(Seq<char>),
}

impl ConfigError {
    /// The error, with texts for strings.
    pub open spec fn fault(self) -> ConfigFault {
        match self {
            ConfigError::Read { path, reason } => ConfigFault::Read {
                path: path@,
                reason: reason@,
            },
            ConfigError::Parse { format, reason } => ConfigFault::Parse {
                format,
                reason: reason@,
            },
            ConfigError::Serialize { format, reason } => ConfigFault::Serialize {
                format,
                reason: reason@,
            },
            ConfigError::UnsupportedFormat(path) => ConfigFault::UnsupportedFormat(path@),
            ConfigError::EmptyHosts => ConfigFault::EmptyHosts,
            ConfigError::DuplicateLocalListen(listen) => ConfigFault::DuplicateLocalListen(listen),
            ConfigError::InvalidHostConfig { host, reason } => ConfigFault::InvalidHostConfig {
                host: host@,
                reason: reason@,
            },
            ConfigError::InvalidControlEndpoint(reason) => ConfigFault::InvalidControlEndpoint(
                reason@,
            ),
            ConfigError::InvalidEnvConfig(reason) => ConfigFault::InvalidEnvConfig(reason@),
        }
    }

    /// Tells the error.
    pub fn message(&self) -> (r: String)
        ensures
            r@ == fault_text(self.fault()),
    {
        match self {
            ConfigError::Read { path, reason } => text::concat4(
                "failed to read config ",
                path.as_str(),
                ": ",
                reason.as_str(),
            ),
            ConfigError::Parse { format, reason } => text::concat4(
                "failed to parse ",
                format.text(),
                " config: ",
                reason.as_str(),
            ),
            ConfigError::Serialize { format, reason } => text::concat4(
                "failed to serialize ",
                format.text(),
                " config: ",
                reason.as_str(),
            ),
            ConfigError::UnsupportedFormat(path) => text::concat2(
                "unsupported config file extension: ",
                path.as_str(),
            ),
            ConfigError::EmptyHosts => "at least one SSH host is required".to_owned(),
            ConfigError::DuplicateLocalListen(listen) => text::concat2(
                "duplicate local listen address: ",
                listen.text().as_str(),
            ),
            ConfigError::InvalidHostConfig { host, reason } => text::concat4(
                "invalid SSH host ",
                host.as_str(),
                ": ",
                reason.as_str(),
            ),
            ConfigError::InvalidControlEndpoint(reason) => text::concat2(
                "invalid control endpoint: ",
                reason.as_str(),
            ),
            ConfigError::InvalidEnvConfig(reason) => text::concat2(
                "invalid proxy environment configuration: ",
                reason.as_str(),
            ),
        }
    }
}

/// How an error is told.
pub open spec fn fault_text(fault: ConfigFault) -> Seq<char> {
    match fault {
        ConfigFault::Read { path, reason } => "failed to read config "@ + path + ": "@ + reason,
        ConfigFault::Parse { format, reason } => "failed to parse "@ + format_name(format)
            + " config: "@ + reason,
        ConfigFault::Serialize { format, reason } => "failed to serialize "@ + format_name(format)
            + " config: "@ + reason,
        ConfigFault::UnsupportedFormat(path) => "unsupported config file extension: "@ + path,
        ConfigFault::EmptyHosts => "at least one SSH host is required"@,
        ConfigFault::DuplicateLocalListen(listen) => "duplicate local listen address: "@
            + crate::address::socket_text(listen),
        ConfigFault::InvalidHostConfig { host, reason } => "invalid SSH host "@ + host + ": "@
            + reason,
        ConfigFault::InvalidControlEndpoint(reason) => "invalid control endpoint: "@ + reason,
        ConfigFault::InvalidEnvConfig(reason) => "invalid proxy environment configuration: "@
            + reason,
    }
}

// ---------------------------------------------------------------------------
// The configuration
// ---------------------------------------------------------------------------
/// The whole configuration.
#[derive(Debug, Clone, PartialEq, Eq)]
pub struct AppConfig {
    pub control: ControlConfig,
    pub env: EnvConfig,
    pub override_default: OverrideDefaultConfig,
    pub hosts: NamedMap<HostConfig>,
}

/// Where the running program is controlled.
#[derive(Debug, Clone, PartialEq, Eq)]
pub struct ControlConfig {
    pub endpoint: Option<String>,
}

/// How child processes are told of proxies.
#[derive(Debug, Clone, PartialEq, Eq)]
pub struct EnvConfig {
    pub default: Option<String>,
    pub profiles: NamedMap<EnvProfileConfig>,
    /// The variables that name the proxy.
    pub inject: ProxyVariableSet,
    /// The variables that are left as they are.
    pub inherit: ProxyVariableSet,
}

/// A choice of a proxy under a name.
#[derive(Debug, Clone, PartialEq, Eq)]
pub struct EnvProfileConfig {
    pub host: Option<String>,
    pub tunnel: Option<String>,
    pub scheme: Option<ProxyEnvScheme>,
    pub inject: Option<ProxyVariableSet>,
    pub inherit: Option<ProxyVariableSet>,
}

/// A local proxy that child processes can be told of.
#[derive(Debug, Clone, PartialEq, Eq)]
pub struct LocalProxyCandidate {
    pub host: String,
    pub tunnel: String,
    pub listen: SocketAddress,
    pub protocol: ProxyProtocol,
}

/// What stands for what hosts leave out.
#[derive(Debug, Clone, PartialEq, Eq)]
pub struct OverrideDefaultConfig {
    pub auto: Option<bool>,
    pub inherit_ssh_config_forwards: Option<bool>,
    pub port: Option<u16>,
    pub username: Option<String>,
    pub auth: Option<SshAuthConfig>,
    pub ssh_config_path: Option<String>,
    pub host_key_policy: Option<SshHostKeyPolicy>,
    pub known_hosts_path: Option<String>,
    pub keep_alive_secs: Option<u64>,
    pub min_sessions: Option<usize>,
    pub max_sessions: Option<usize>,
    pub session_rotation_enabled: Option<bool>,
    pub session_rotation_interval_secs: Option<u64>,
    pub max_channels_per_session: Option<usize>,
    pub server_alive_count_max: Option<u32>,
    pub connect_timeout_secs: Option<u64>,
    pub restart_initial_millis: Option<u64>,
    pub restart_max_secs: Option<u64>,
    pub session_spawn_cooldown_millis: Option<u64>,
    pub session_drain_timeout_secs: Option<u64>,
    pub probe: ProbeOverrideConfig,
    pub proxy: ProxyDefaultConfig,
    pub forward: ForwardDefaultConfig,
}

/// An SSH host and what is forwarded through it.
#[derive(Debug, Clone, PartialEq, Eq)]
pub struct HostConfig {
    pub auto: Option<bool>,
    pub inherit_ssh_config_forwards: Option<bool>,
    pub tags: Vec<String>,
    pub host: Option<String>,
    pub port: Option<u16>,
    pub username: Option<String>,
    pub auth: Option<SshAuthConfig>,
    pub ssh_config_host: Option<String>,
    pub ssh_config_path: Option<String>,
    pub host_key_policy: Option<SshHostKeyPolicy>,
    pub known_hosts_path: Option<String>,
    pub keep_alive_secs: Option<u64>,
    pub min_sessions: Option<usize>,
    pub max_sessions: Option<usize>,
    pub session_rotation_enabled: Option<bool>,
    pub session_rotation_interval_secs: Option<u64>,
    pub max_channels_per_session: Option<usize>,
    pub server_alive_count_max: Option<u32>,
    pub connect_timeout_secs: Option<u64>,
    pub restart_initial_millis: Option<u64>,
    pub restart_max_secs: Option<u64>,
    pub session_spawn_cooldown_millis: Option<u64>,
    pub session_drain_timeout_secs: Option<u64>,
    pub probe: ProbeOverrideConfig,
    pub local_proxies: Vec<ProxyConfig>,
    pub local_forwards: Vec<ForwardConfig>,
    pub remote_proxies: Vec<ProxyConfig>,
    pub remote_forwards: Vec<ForwardConfig>,
}

/// A proxy, local or remote.
#[derive(Debug, Clone, PartialEq, Eq)]
pub struct ProxyConfig {
    pub auto: Option<bool>,
    pub name: Option<String>,
    pub listen: SocketAddress,
    pub mixed: Option<bool>,
    pub protocol: Option<ProxyProtocol>,
}

/// What stands for what proxies leave out.
#[derive(Debug, Clone, Copy, PartialEq, Eq, Structural)]
pub struct ProxyDefaultConfig {
    pub auto: Option<bool>,
    pub mixed: Option<bool>,
    pub protocol: Option<ProxyProtocol>,
}

/// A forward to one target, local or remote.
#[derive(Debug, Clone, PartialEq, Eq)]
pub struct ForwardConfig {
    pub auto: Option<bool>,
    pub name: Option<String>,
    pub listen: SocketAddress,
    pub target: HostPort,
}

/// What stands for what forwards leave out.
#[derive(Debug, Clone, Copy, PartialEq, Eq, Structural)]
pub struct ForwardDefaultConfig {
    pub auto: Option<bool>,
}

/// How sessions are probed.
#[derive(Debug, Clone, Copy, PartialEq, Eq, Structural)]
pub struct ProbeConfig {
    pub enabled: bool,
    pub interval_secs: u64,
    pub timeout_millis: u64,
    pub fail_threshold: u32,
    pub recovery_threshold: u32,
}

/// How sessions are probed, as far as that is said.
#[derive(Debug, Clone, Copy, PartialEq, Eq, Structural)]
pub struct ProbeOverrideConfig {
    pub enabled: Option<bool>,
    pub interval_secs: Option<u64>,
    pub timeout_millis: Option<u64>,
    pub fail_threshold: Option<u32>,
    pub recovery_threshold: Option<u32>,
}

// ---------------------------------------------------------------------------
// What is left out
// ---------------------------------------------------------------------------
pub const DEFAULT_MIN_SESSIONS: usize = 3;

pub const DEFAULT_MAX_SESSIONS: usize = 10;

pub const DEFAULT_SESSION_ROTATION_INTERVAL_SECS: u64 = 3600;

pub const DEFAULT_MAX_CHANNELS_PER_SESSION: usize = 64;

pub const DEFAULT_RESTART_INITIAL_MILLIS: u64 = 500;

pub const DEFAULT_RESTART_MAX_SECS: u64 = 30;

pub const DEFAULT_SESSION_SPAWN_COOLDOWN_MILLIS: u64 = 1000;

pub const DEFAULT_SESSION_DRAIN_TIMEOUT_SECS: u64 = 300;

pub const DEFAULT_PROBE_INTERVAL_SECS: u64 = 10;

pub const DEFAULT_PROBE_TIMEOUT_MILLIS: u64 = 1500;

pub const DEFAULT_PROBE_FAIL_THRESHOLD: u32 = 3;

pub const DEFAULT_PROBE_RECOVERY_THRESHOLD: u32 = 2;

/// What is said here, else what is said for all.
pub open spec fn said<T>(own: Option<T>, for_all: Option<T>) -> Option<T> {
    if own is Some {
        own
    } else {
        for_all
    }
}

/// What is said here, else what is said for all, else `otherwise`.
pub open spec fn setting<T>(own: Option<T>, for_all: Option<T>, otherwise: T) -> T {
    match said(own, for_all) {
        Some(value) => value,
        None => otherwise,
    }
}

fn pick<T: Copy>(own: Option<T>, for_all: Option<T>) -> (r: Option<T>)
    ensures
        r == said(own, for_all),
{
    match own {
        Some(value) => Some(value),
        None => for_all,
    }
}

fn pick_or<T: Copy>(own: Option<T>, for_all: Option<T>, otherwise: T) -> (r: T)
    ensures
        r == setting(own, for_all, otherwise),
{
    match own {
        Some(value) => value,
        None => match for_all {
            Some(value) => value,
            None => otherwise,
        },
    }
}

fn pick_text(own: &Option<String>, for_all: &Option<String>) -> (r: Option<String>)
    ensures
        r == said(*own, *for_all),
{
    if own.is_some() {
        copy_text_option(own)
    } else {
        copy_text_option(for_all)
    }
}

fn pick_auth(own: &Option<SshAuthConfig>, for_all: &Option<SshAuthConfig>) -> (r: Option<
    SshAuthConfig,
>)
    ensures
        r == said(*own, *for_all),
{
    if own.is_some() {
        copy_auth(own)
    } else {
        copy_auth(for_all)
    }
}

impl Default for ControlConfig {
    fn default() -> (r: ControlConfig)
        ensures
            r.endpoint is None,
    {
        ControlConfig { endpoint: None }
    }
}

impl ControlConfig {
    /// Whether nothing is said.
    pub fn is_empty(&self) -> (r: bool)
        ensures
            r == (self.endpoint is None),
    {
        self.endpoint.is_none()
    }
}

impl Default for EnvConfig {
    fn default() -> (r: EnvConfig)
        ensures
            r.default is None,
            r.profiles.entries@.len() == 0,
            r.inject == ProxyVariableSet::proxies(),
            r.inherit == ProxyVariableSet::none(),
    {
        EnvConfig {
            default: None,
            profiles: NamedMap::new(),
            inject: ProxyVariableSet::proxies(),
            inherit: ProxyVariableSet::none(),
        }
    }
}

impl EnvConfig {
    /// Whether nothing is said.
    pub fn is_empty(&self) -> (r: bool)
        ensures
            r == (self.default is None && self.profiles.entries@.len() == 0 && self.inject
                == ProxyVariableSet::proxies() && self.inherit == ProxyVariableSet::none()),
    {
        self.default.is_none() && self.profiles.entries.len() == 0 && self.inject
            == ProxyVariableSet::proxies() && self.inherit == ProxyVariableSet::none()
    }
}

impl Default for EnvProfileConfig {
    fn default() -> (r: EnvProfileConfig)
        ensures
            r == (EnvProfileConfig {
                host: None,
                tunnel: None,
                scheme: None,
                inject: None,
                inherit: None,
            }),
    {
        EnvProfileConfig { host: None, tunnel: None, scheme: None, inject: None, inherit: None }
    }
}

impl Default for ProxyDefaultConfig {
    fn default() -> (r: ProxyDefaultConfig)
        ensures
            r == (ProxyDefaultConfig { auto: None, mixed: None, protocol: None }),
    {
        ProxyDefaultConfig { auto: None, mixed: None, protocol: None }
    }
}

impl ProxyDefaultConfig {
    /// Whether nothing is said.
    pub fn is_empty(&self) -> (r: bool)
        ensures
            r == (*self == (ProxyDefaultConfig { auto: None, mixed: None, protocol: None })),
    {
        self.auto.is_none() && self.mixed.is_none() && self.protocol.is_none()
    }
}

impl Default for ForwardDefaultConfig {
    fn default() -> (r: ForwardDefaultConfig)
        ensures
            r == (ForwardDefaultConfig { auto: None }),
    {
        ForwardDefaultConfig { auto: None }
    }
}

impl ForwardDefaultConfig {
    /// Whether nothing is said.
    pub fn is_empty(&self) -> (r: bool)
        ensures
            r == (self.auto is None),
    {
        self.auto.is_none()
    }
}

impl Default for ProbeOverrideConfig {
    fn default() -> (r: ProbeOverrideConfig)
        ensures
            r == no_probe_settings(),
    {
        ProbeOverrideConfig {
            enabled: None,
            interval_secs: None,
            timeout_millis: None,
            fail_threshold: None,
            recovery_threshold: None,
        }
    }
}

/// Nothing said of probes.
pub open spec fn no_probe_settings() -> ProbeOverrideConfig {
    ProbeOverrideConfig {
        enabled: None,
        interval_secs: None,
        timeout_millis: None,
        fail_threshold: None,
        recovery_threshold: None,
    }
}

/// How sessions are probed after all.
pub open spec fn resolved_probe(
    own: ProbeOverrideConfig,
    for_all: ProbeOverrideConfig,
) -> ProbeConfig {
    ProbeConfig {
        enabled: setting(own.enabled, for_all.enabled, true),
        interval_secs: setting(
            own.interval_secs,
            for_all.interval_secs,
            DEFAULT_PROBE_INTERVAL_SECS,
        ),
        timeout_millis: setting(
            own.timeout_millis,
            for_all.timeout_millis,
            DEFAULT_PROBE_TIMEOUT_MILLIS,
        ),
        fail_threshold: setting(
            own.fail_threshold,
            for_all.fail_threshold,
            DEFAULT_PROBE_FAIL_THRESHOLD,
        ),
        recovery_threshold: setting(
            own.recovery_threshold,
            for_all.recovery_threshold,
            DEFAULT_PROBE_RECOVERY_THRESHOLD,
        ),
    }
}

impl ProbeOverrideConfig {
    /// Whether nothing is said.
    pub fn is_empty(&self) -> (r: bool)
        ensures
            r == (*self == no_probe_settings()),
    {
        self.enabled.is_none() && self.interval_secs.is_none() && self.timeout_millis.is_none()
            && self.fail_threshold.is_none() && self.recovery_threshold.is_none()
    }

    /// How sessions are probed after all.
    pub fn resolve(&self, defaults: &ProbeOverrideConfig) -> (r: ProbeConfig)
        ensures
            r == resolved_probe(*self, *defaults),
    {
        ProbeConfig {
            enabled: pick_or(self.enabled, defaults.enabled, true),
            interval_secs: pick_or(
                self.interval_secs,
                defaults.interval_secs,
                DEFAULT_PROBE_INTERVAL_SECS,
            ),
            timeout_millis: pick_or(
                self.timeout_millis,
                defaults.timeout_millis,
                DEFAULT_PROBE_TIMEOUT_MILLIS,
            ),
            fail_threshold: pick_or(
                self.fail_threshold,
                defaults.fail_threshold,
                DEFAULT_PROBE_FAIL_THRESHOLD,
            ),
            recovery_threshold: pick_or(
                self.recovery_threshold,
                defaults.recovery_threshold,
                DEFAULT_PROBE_RECOVERY_THRESHOLD,
            ),
        }
    }
}

impl Default for ProbeConfig {
    fn default() -> (r: ProbeConfig)
        ensures
            r == resolved_probe(no_probe_settings(), no_probe_settings()),
    {
        ProbeConfig {
            enabled: true,
            interval_secs: DEFAULT_PROBE_INTERVAL_SECS,
            timeout_millis: DEFAULT_PROBE_TIMEOUT_MILLIS,
            fail_threshold: DEFAULT_PROBE_FAIL_THRESHOLD,
            recovery_threshold: DEFAULT_PROBE_RECOVERY_THRESHOLD,
        }
    }
}

impl OverrideDefaultConfig {
    /// Nothing is said.
    pub open spec fn says_nothing(self) -> bool {
        &&& self.auto is None
        &&& self.inherit_ssh_config_forwards is None
        &&& self.port is None
        &&& self.username is None
        &&& self.auth is None
        &&& self.ssh_config_path is None
        &&& self.host_key_policy is None
        &&& self.known_hosts_path is None
        &&& self.keep_alive_secs is None
        &&& self.min_sessions is None
        &&& self.max_sessions is None
        &&& self.session_rotation_enabled is None
        &&& self.session_rotation_interval_secs is None
        &&& self.max_channels_per_session is None
        &&& self.server_alive_count_max is None
        &&& self.connect_timeout_secs is None
        &&& self.restart_initial_millis is None
        &&& self.restart_max_secs is None
        &&& self.session_spawn_cooldown_millis is None
        &&& self.session_drain_timeout_secs is None
        &&& self.probe == no_probe_settings()
        &&& self.proxy == (ProxyDefaultConfig { auto: None, mixed: None, protocol: None })
        &&& self.forward == (ForwardDefaultConfig { auto: None })
    }

    /// Whether nothing is said.
    pub fn is_empty(&self) -> (r: bool)
        ensures
            r == self.says_nothing(),
    {
        self.auto.is_none() && self.inherit_ssh_config_forwards.is_none() && self.port.is_none()
            && self.username.is_none() && self.auth.is_none() && self.ssh_config_path.is_none()
            && self.host_key_policy.is_none() && self.known_hosts_path.is_none()
            && self.keep_alive_secs.is_none() && self.min_sessions.is_none()
            && self.max_sessions.is_none() && self.session_rotation_enabled.is_none()
            && self.session_rotation_interval_secs.is_none()
            && self.max_channels_per_session.is_none() && self.server_alive_count_max.is_none()
            && self.connect_timeout_secs.is_none() && self.restart_initial_millis.is_none()
            && self.restart_max_secs.is_none() && self.session_spawn_cooldown_millis.is_none()
            && self.session_drain_timeout_secs.is_none() && self.probe.is_empty()
            && self.proxy.is_empty() && self.forward.is_empty()
    }
}

impl Default for OverrideDefaultConfig {
    fn default() -> (r: OverrideDefaultConfig)
        ensures
            r.says_nothing(),
    {
        OverrideDefaultConfig {
            auto: None,
            inherit_ssh_config_forwards: None,
            port: None,
            username: None,
            auth: None,
            ssh_config_path: None,
            host_key_policy: None,
            known_hosts_path: None,
            keep_alive_secs: None,
            min_sessions: None,
            max_sessions: None,
            session_rotation_enabled: None,
            session_rotation_interval_secs: None,
            max_channels_per_session: None,
            server_alive_count_max: None,
            connect_timeout_secs: None,
            restart_initial_millis: None,
            restart_max_secs: None,
            session_spawn_cooldown_millis: None,
            session_drain_timeout_secs: None,
            probe: ProbeOverrideConfig::default(),
            proxy: ProxyDefaultConfig::default(),
            forward: ForwardDefaultConfig::default(),
        }
    }
}

// ---------------------------------------------------------------------------
// What runs
// ---------------------------------------------------------------------------
/// A host with nothing left out.
#[derive(Debug, Clone, PartialEq, Eq)]
pub struct ResolvedHostConfig {
    pub auto: bool,
    pub inherit_ssh_config_forwards: bool,
    pub host: Option<String>,
    pub port: Option<u16>,
    pub username: Option<String>,
    pub auth: Option<SshAuthConfig>,
    pub ssh_config_host: Option<String>,
    pub ssh_config_path: Option<String>,
    pub host_key_policy: Option<SshHostKeyPolicy>,
    pub known_hosts_path: Option<String>,
    pub keep_alive_secs: Option<u64>,
    pub min_sessions: usize,
    pub max_sessions: usize,
    pub session_rotation_enabled: bool,
    pub session_rotation_interval_secs: u64,
    pub max_channels_per_session: usize,
    pub server_alive_count_max: Option<u32>,
    pub connect_timeout_secs: Option<u64>,
    pub restart_initial_millis: u64,
    pub restart_max_secs: u64,
    pub session_spawn_cooldown_millis: u64,
    pub session_drain_timeout_secs: u64,
    pub probe: ProbeConfig,
    pub local_proxies: Vec<ResolvedProxyConfig>,
    pub local_forwards: Vec<ResolvedForwardConfig>,
    pub remote_proxies: Vec<ResolvedProxyConfig>,
    pub remote_forwards: Vec<ResolvedForwardConfig>,
}

/// A proxy with nothing left out.
#[derive(Debug, Clone, PartialEq, Eq)]
pub struct ResolvedProxyConfig {
    pub auto: bool,
    pub name: Option<String>,
    pub listen: SocketAddress,
    pub mixed: bool,
    pub protocol: Option<ProxyProtocol>,
}

/// A forward with nothing left out.
#[derive(Debug, Clone, PartialEq, Eq)]
pub struct ResolvedForwardConfig {
    pub auto: bool,
    pub name: Option<String>,
    pub listen: SocketAddress,
    pub target: HostPort,
}

/// A proxy with nothing left out.
pub open spec fn resolved_proxy(
    proxy: ProxyConfig,
    defaults: ProxyDefaultConfig,
) -> ResolvedProxyConfig {
    ResolvedProxyConfig {
        auto: setting(proxy.auto, defaults.auto, true),
        name: proxy.name,
        listen: proxy.listen,
        mixed: setting(proxy.mixed, defaults.mixed, false),
        protocol: said(proxy.protocol, defaults.protocol),
    }
}

/// A forward with nothing left out.
pub open spec fn resolved_forward(
    forward: ForwardConfig,
    defaults: ForwardDefaultConfig,
) -> ResolvedForwardConfig {
    ResolvedForwardConfig {
        auto: setting(forward.auto, defaults.auto, true),
        name: forward.name,
        listen: forward.listen,
        target: forward.target,
    }
}

impl ProxyConfig {
    /// The proxy with nothing left out.
    pub fn resolve(&self, defaults: &ProxyDefaultConfig) -> (r: ResolvedProxyConfig)
        ensures
            r == resolved_proxy(*self, *defaults),
    {
        ResolvedProxyConfig {
            auto: pick_or(self.auto, defaults.auto, true),
            name: copy_text_option(&self.name),
            listen: self.listen,
            mixed: pick_or(self.mixed, defaults.mixed, false),
            protocol: pick(self.protocol, defaults.protocol),
        }
    }
}

impl ForwardConfig {
    /// The forward with nothing left out.
    pub fn resolve(&self, defaults: &ForwardDefaultConfig) -> (r: ResolvedForwardConfig)
        ensures
            r == resolved_forward(*self, *defaults),
    {
        ResolvedForwardConfig {
            auto: pick_or(self.auto, defaults.auto, true),
            name: copy_text_option(&self.name),
            listen: self.listen,
            target: self.target.copy(),
        }
    }
}

/// The proxies of a list with nothing left out.
pub open spec fn resolved_proxies(
    list: Seq<ProxyConfig>,
    defaults: ProxyDefaultConfig,
) -> Seq<ResolvedProxyConfig> {
    list.map_values(|p: ProxyConfig| resolved_proxy(p, defaults))
}

/// The forwards of a list with nothing left out.
pub open spec fn resolved_forwards(
    list: Seq<ForwardConfig>,
    defaults: ForwardDefaultConfig,
) -> Seq<ResolvedForwardConfig> {
    list.map_values(|f: ForwardConfig| resolved_forward(f, defaults))
}

fn resolve_proxies(list: &Vec<ProxyConfig>, defaults: &ProxyDefaultConfig) -> (r: Vec<
    ResolvedProxyConfig,
>)
    ensures
        r@ == resolved_proxies(list@, *defaults),
{
    let mut r: Vec<ResolvedProxyConfig> = Vec::new();
    for i in 0..list.len()
        invariant
            r@ == resolved_proxies(list@.take(i as int), *defaults),
    {
        r.push(list[i].resolve(defaults));
        assert(list@.take(i + 1) == list@.take(i as int).push(list@[i as int]));
        assert(r@ =~= resolved_proxies(list@.take(i + 1), *defaults));
    }
    assert(list@.take(list@.len() as int) == list@);
    r
}

fn resolve_forwards(list: &Vec<ForwardConfig>, defaults: &ForwardDefaultConfig) -> (r: Vec<
    ResolvedForwardConfig,
>)
    ensures
        r@ == resolved_forwards(list@, *defaults),
{
    let mut r: Vec<ResolvedForwardConfig> = Vec::new();
    for i in 0..list.len()
        invariant
            r@ == resolved_forwards(list@.take(i as int), *defaults),
    {
        r.push(list[i].resolve(defaults));
        assert(list@.take(i + 1) == list@.take(i as int).push(list@[i as int]));
        assert(r@ =~= resolved_forwards(list@.take(i + 1), *defaults));
    }
    assert(list@.take(list@.len() as int) == list@);
    r
}

/// `resolved` is `host` with nothing left out: what the host says, else what is said for all
/// hosts, else what stands for it when nobody says anything.
pub open spec fn is_resolved(
    host: HostConfig,
    defaults: OverrideDefaultConfig,
    resolved: ResolvedHostConfig,
) -> bool {
    &&& resolved.auto == setting(host.auto, defaults.auto, true)
    &&& resolved.inherit_ssh_config_forwards == setting(
        host.inherit_ssh_config_forwards,
        defaults.inherit_ssh_config_forwards,
        true,
    )
    &&& resolved.host == host.host
    &&& resolved.port == said(host.port, defaults.port)
    &&& resolved.username == said(host.username, defaults.username)
    &&& resolved.auth == said(host.auth, defaults.auth)
    &&& resolved.ssh_config_host == host.ssh_config_host
    &&& resolved.ssh_config_path == said(host.ssh_config_path, defaults.ssh_config_path)
    &&& resolved.host_key_policy == said(host.host_key_policy, defaults.host_key_policy)
    &&& resolved.known_hosts_path == said(host.known_hosts_path, defaults.known_hosts_path)
    &&& resolved.keep_alive_secs == said(host.keep_alive_secs, defaults.keep_alive_secs)
    &&& resolved.min_sessions == setting(
        host.min_sessions,
        defaults.min_sessions,
        DEFAULT_MIN_SESSIONS,
    )
    &&& resolved.max_sessions == setting(
        host.max_sessions,
        defaults.max_sessions,
        DEFAULT_MAX_SESSIONS,
    )
    &&& resolved.session_rotation_enabled == setting(
        host.session_rotation_enabled,
        defaults.session_rotation_enabled,
        true,
    )
    &&& resolved.session_rotation_interval_secs == setting(
        host.session_rotation_interval_secs,
        defaults.session_rotation_interval_secs,
        DEFAULT_SESSION_ROTATION_INTERVAL_SECS,
    )
    &&& resolved.max_channels_per_session == setting(
        host.max_channels_per_session,
        defaults.max_channels_per_session,
        DEFAULT_MAX_CHANNELS_PER_SESSION,
    )
    &&& resolved.server_alive_count_max == said(
        host.server_alive_count_max,
        defaults.server_alive_count_max,
    )
    &&& resolved.connect_timeout_secs == said(
        host.connect_timeout_secs,
        defaults.connect_timeout_secs,
    )
    &&& resolved.restart_initial_millis == setting(
        host.restart_initial_millis,
        defaults.restart_initial_millis,
        DEFAULT_RESTART_INITIAL_MILLIS,
    )
    &&& resolved.restart_max_secs == setting(
        host.restart_max_secs,
        defaults.restart_max_secs,
        DEFAULT_RESTART_MAX_SECS,
    )
    &&& resolved.session_spawn_cooldown_millis == setting(
        host.session_spawn_cooldown_millis,
        defaults.session_spawn_cooldown_millis,
        DEFAULT_SESSION_SPAWN_COOLDOWN_MILLIS,
    )
    &&& resolved.session_drain_timeout_secs == setting(
        host.session_drain_timeout_secs,
        defaults.session_drain_timeout_secs,
        DEFAULT_SESSION_DRAIN_TIMEOUT_SECS,
    )
    &&& resolved.probe == resolved_probe(host.probe, defaults.probe)
    &&& resolved.local_proxies@ == resolved_proxies(host.local_proxies@, defaults.proxy)
    &&& resolved.local_forwards@ == resolved_forwards(host.local_forwards@, defaults.forward)
    &&& resolved.remote_proxies@ == resolved_proxies(host.remote_proxies@, defaults.proxy)
    &&& resolved.remote_forwards@ == resolved_forwards(host.remote_forwards@, defaults.forward)
}

impl HostConfig {
    /// The host with nothing left out.
    pub fn resolve(&self, defaults: &OverrideDefaultConfig) -> (r: ResolvedHostConfig)
        ensures
            is_resolved(*self, *defaults, r),
    {
        ResolvedHostConfig {
            auto: pick_or(self.auto, defaults.auto, true),
            inherit_ssh_config_forwards: pick_or(
                self.inherit_ssh_config_forwards,
                defaults.inherit_ssh_config_forwards,
                true,
            ),
            host: copy_text_option(&self.host),
            port: pick(self.port, defaults.port),
            username: pick_text(&self.username, &defaults.username),
            auth: pick_auth(&self.auth, &defaults.auth),
            ssh_config_host: copy_text_option(&self.ssh_config_host),
            ssh_config_path: pick_text(&self.ssh_config_path, &defaults.ssh_config_path),
            host_key_policy: pick(self.host_key_policy, defaults.host_key_policy),
            known_hosts_path: pick_text(&self.known_hosts_path, &defaults.known_hosts_path),
            keep_alive_secs: pick(self.keep_alive_secs, defaults.keep_alive_secs),
            min_sessions: pick_or(
                self.min_sessions,
                defaults.min_sessions,
                DEFAULT_MIN_SESSIONS,
            ),
            max_sessions: pick_or(
                self.max_sessions,
                defaults.max_sessions,
                DEFAULT_MAX_SESSIONS,
            ),
            session_rotation_enabled: pick_or(
                self.session_rotation_enabled,
                defaults.session_rotation_enabled,
                true,
            ),
            session_rotation_interval_secs: pick_or(
                self.session_rotation_interval_secs,
                defaults.session_rotation_interval_secs,
                DEFAULT_SESSION_ROTATION_INTERVAL_SECS,
            ),
            max_channels_per_session: pick_or(
                self.max_channels_per_session,
                defaults.max_channels_per_session,
                DEFAULT_MAX_CHANNELS_PER_SESSION,
            ),
            server_alive_count_max: pick(
                self.server_alive_count_max,
                defaults.server_alive_count_max,
            ),
            connect_timeout_secs: pick(self.connect_timeout_secs, defaults.connect_timeout_secs),
            restart_initial_millis: pick_or(
                self.restart_initial_millis,
                defaults.restart_initial_millis,
                DEFAULT_RESTART_INITIAL_MILLIS,
            ),
            restart_max_secs: pick_or(
                self.restart_max_secs,
                defaults.restart_max_secs,
                DEFAULT_RESTART_MAX_SECS,
            ),
            session_spawn_cooldown_millis: pick_or(
                self.session_spawn_cooldown_millis,
                defaults.session_spawn_cooldown_millis,
                DEFAULT_SESSION_SPAWN_COOLDOWN_MILLIS,
            ),
            session_drain_timeout_secs: pick_or(
                self.session_drain_timeout_secs,
                defaults.session_drain_timeout_secs,
                DEFAULT_SESSION_DRAIN_TIMEOUT_SECS,
            ),
            probe: self.probe.resolve(&defaults.probe),
            local_proxies: resolve_proxies(&self.local_proxies, &defaults.proxy),
            local_forwards: resolve_forwards(&self.local_forwards, &defaults.forward),
            remote_proxies: resolve_proxies(&self.remote_proxies, &defaults.proxy),
            remote_forwards: resolve_forwards(&self.remote_forwards, &defaults.forward),
        }
    }
}

/// What a proxy speaks after all.
pub open spec fn protocol_of(proxy: ResolvedProxyConfig) -> ProxyProtocol {
    if proxy.mixed {
        ProxyProtocol::Mixed
    } else {
        match proxy.protocol {
            Some(protocol) => protocol,
            None => ProxyProtocol::Socks5h,
        }
    }
}

/// The name under which a tunnel runs: its own, else one made of its kind and its address.
pub open spec fn tunnel_name(
    name: Option<String>,
    prefix: Seq<char>,
    listen: SocketAddress,
) -> Seq<char> {
    match name {
        Some(name) => name@,
        None => prefix + "-"@ + crate::address::socket_text(listen),
    }
}

fn name_tunnel(name: &Option<String>, prefix: &str, listen: SocketAddress) -> (r: String)
    ensures
        r@ == tunnel_name(*name, prefix@, listen),
{
    match name {
        Some(name) => name.clone(),
        None => text::concat3(prefix, "-", listen.text().as_str()),
    }
}

impl ResolvedProxyConfig {
    /// What the proxy speaks.
    pub fn resolved_protocol(&self) -> (r: ProxyProtocol)
        ensures
            r == protocol_of(*self),
    {
        if self.mixed {
            ProxyProtocol::Mixed
        } else {
            self.protocol.unwrap_or(ProxyProtocol::Socks5h)
        }
    }

    /// The name under which the proxy runs.
    pub fn runtime_name(&self, prefix: &str) -> (r: String)
        ensures
            r@ == tunnel_name(self.name, prefix@, self.listen),
    {
        name_tunnel(&self.name, prefix, self.listen)
    }
}

impl ResolvedForwardConfig {
    /// The name under which the forward runs.
    pub fn runtime_name(&self, prefix: &str) -> (r: String)
        ensures
            r@ == tunnel_name(self.name, prefix@, self.listen),
    {
        name_tunnel(&self.name, prefix, self.listen)
    }
}

/// Some proxy of the list starts by itself.
pub open spec fn some_proxy_starts(list: Seq<ResolvedProxyConfig>) -> bool {
    exists|i: int| 0 <= i < list.len() && (#[trigger] list[i]).auto
}

/// Some forward of the list starts by itself.
pub open spec fn some_forward_starts(list: Seq<ResolvedForwardConfig>) -> bool {
    exists|i: int| 0 <= i < list.len() && (#[trigger] list[i]).auto
}

fn any_proxy_starts(list: &Vec<ResolvedProxyConfig>) -> (r: bool)
    ensures
        r == some_proxy_starts(list@),
{
    for i in 0..list.len()
        invariant
            forall|j: int| 0 <= j < i ==> !(#[trigger] list@[j]).auto,
    {
        if list[i].auto {
            return true;
        }
    }
    false
}

fn any_forward_starts(list: &Vec<ResolvedForwardConfig>) -> (r: bool)
    ensures
        r == some_forward_starts(list@),
{
    for i in 0..list.len()
        invariant
            forall|j: int| 0 <= j < i ==> !(#[trigger] list@[j]).auto,
    {
        if list[i].auto {
            return true;
        }
    }
    false
}

/// The sessions of hosts that serve the same tunnels.
#[derive(Debug, Clone, PartialEq, Eq)]
pub struct SshPoolConfig {
    pub policy: LoadBalancePolicy,
    pub keep_alive_secs: Option<u64>,
    pub min_sessions_per_host: usize,
    pub max_sessions_per_host: usize,
    pub session_rotation_enabled: bool,
    pub session_rotation_interval_secs: u64,
    pub max_channels_per_session: usize,
    pub server_alive_count_max: Option<u32>,
    pub connect_timeout_secs: Option<u64>,
    pub restart_initial_millis: u64,
    pub restart_max_secs: u64,
    pub session_spawn_cooldown_millis: u64,
    pub session_drain_timeout_secs: u64,
    pub hosts: Vec<SshHostConfig>,
}

/// A host to connect to.
#[derive(Debug, Clone, PartialEq, Eq)]
pub struct SshHostConfig {
    pub name: String,
    pub host: Option<String>,
    pub ssh_config_host: Option<String>,
    pub port: Option<u16>,
    pub username: Option<String>,
    pub auth: Option<SshAuthConfig>,
    pub ssh_config_path: Option<String>,
    pub host_key_policy: Option<SshHostKeyPolicy>,
    pub known_hosts_path: Option<String>,
    pub remote_forwards: Vec<SshRemoteForwardConfig>,
}

/// A forward that the host listens for.
#[derive(Debug, Clone, PartialEq, Eq)]
pub enum SshRemoteForwardConfig {
    Tcp { name: String, listen: SocketAddress, local_host: String, local_port: u16 },
    Dynamic { name: String, listen: SocketAddress, protocol: ProxyProtocol },
}

/// A forward that the host listens for, with texts for strings.
pub ghost enum RemoteForward {
    Tcp { name: Seq<char>, listen: SocketAddress, local_host: Seq<char>, local_port: u16 },
    Dynamic { name: Seq<char>, listen: SocketAddress, protocol: ProxyProtocol },
}

impl SshRemoteForwardConfig {
    /// The forward, with texts for strings.
    pub open spec fn forward(self) -> RemoteForward {
        match self {
            SshRemoteForwardConfig::Tcp { name, listen, local_host, local_port } => {
                RemoteForward::Tcp { name: name@, listen, local_host: local_host@, local_port }
            },
            SshRemoteForwardConfig::Dynamic { name, listen, protocol } => RemoteForward::Dynamic {
                name: name@,
                listen,
                protocol,
            },
        }
    }

    /// Where the host listens.
    pub open spec fn listens_at(self) -> SocketAddress {
        match self {
            SshRemoteForwardConfig::Tcp { listen, .. } => listen,
            SshRemoteForwardConfig::Dynamic { listen, .. } => listen,
        }
    }

    /// Where the host listens.
    pub fn remote_forward_listen(&self) -> (r: SocketAddress)
        ensures
            r == self.listens_at(),
    {
        match self {
            SshRemoteForwardConfig::Tcp { listen, .. } => *listen,
            SshRemoteForwardConfig::Dynamic { listen, .. } => *listen,
        }
    }
}

/// The forwards of a list, with texts for strings.
pub open spec fn remote_forwards_of(list: Seq<SshRemoteForwardConfig>) -> Seq<RemoteForward> {
    list.map_values(|f: SshRemoteForwardConfig| f.forward())
}

/// The remote proxies that start by themselves.
pub open spec fn started_proxies(list: Seq<ResolvedProxyConfig>) -> Seq<RemoteForward>
    decreases list.len(),
{
    if list.len() == 0 {
        Seq::empty()
    } else {
        let before = started_proxies(list.drop_last());
        let last = list.last();
        if last.auto {
            before.push(
                RemoteForward::Dynamic {
                    name: tunnel_name(last.name, "remote-proxy"@, last.listen),
                    listen: last.listen,
                    protocol: protocol_of(last),
                },
            )
        } else {
            before
        }
    }
}

/// The remote forwards that start by themselves.
pub open spec fn started_forwards(list: Seq<ResolvedForwardConfig>) -> Seq<RemoteForward>
    decreases list.len(),
{
    if list.len() == 0 {
        Seq::empty()
    } else {
        let before = started_forwards(list.drop_last());
        let last = list.last();
        if last.auto {
            before.push(
                RemoteForward::Tcp {
                    name: tunnel_name(last.name, "remote-forward"@, last.listen),
                    listen: last.listen,
                    local_host: last.target.host@,
                    local_port: last.target.port,
                },
            )
        } else {
            before
        }
    }
}

impl ResolvedHostConfig {
    /// Whether some tunnel starts by itself.
    pub fn has_automatic_tunnels(&self) -> (r: bool)
        ensures
            r == (some_proxy_starts(self.local_proxies@) || some_forward_starts(
                self.local_forwards@,
            ) || some_proxy_starts(self.remote_proxies@) || some_forward_starts(
                self.remote_forwards@,
            )),
    {
        any_proxy_starts(&self.local_proxies) || any_forward_starts(&self.local_forwards)
            || any_proxy_starts(&self.remote_proxies) || any_forward_starts(&self.remote_forwards)
    }

    /// The sessions that serve the tunnels of the host: its remote proxies that start by
    /// themselves come first, then its remote forwards that do.
    pub fn runtime_pool(&self, host_name: &str) -> (r: SshPoolConfig)
        ensures
            r.policy == LoadBalancePolicy::WeightedRtt,
            r.keep_alive_secs == self.keep_alive_secs,
            r.min_sessions_per_host == self.min_sessions,
            r.max_sessions_per_host == self.max_sessions,
            r.session_rotation_enabled == self.session_rotation_enabled,
            r.session_rotation_interval_secs == self.session_rotation_interval_secs,
            r.max_channels_per_session == self.max_channels_per_session,
            r.server_alive_count_max == self.server_alive_count_max,
            r.connect_timeout_secs == self.connect_timeout_secs,
            r.restart_initial_millis == self.restart_initial_millis,
            r.restart_max_secs == self.restart_max_secs,
            r.session_spawn_cooldown_millis == self.session_spawn_cooldown_millis,
            r.session_drain_timeout_secs == self.session_drain_timeout_secs,
            r.hosts@.len() == 1,
            r.hosts@[0].name@ == host_name@,
            r.hosts@[0].host == self.host,
            r.hosts@[0].ssh_config_host == self.ssh_config_host,
            r.hosts@[0].port == self.port,
            r.hosts@[0].username == self.username,
            r.hosts@[0].auth == self.auth,
            r.hosts@[0].ssh_config_path == self.ssh_config_path,
            r.hosts@[0].host_key_policy == self.host_key_policy,
            r.hosts@[0].known_hosts_path == self.known_hosts_path,
            remote_forwards_of(r.hosts@[0].remote_forwards@) == started_proxies(
                self.remote_proxies@,
            ) + started_forwards(self.remote_forwards@),
    {
        let mut forwards: Vec<SshRemoteForwardConfig> = Vec::new();
        for i in 0..self.remote_proxies.len()
            invariant
                remote_forwards_of(forwards@) == started_proxies(
                    self.remote_proxies@.take(i as int),
                ),
        {
            let proxy = &self.remote_proxies[i];
            let ghost done = forwards@;
            assert(self.remote_proxies@.take(i + 1).drop_last() == self.remote_proxies@.take(
                i as int,
            ));
            if proxy.auto {
                forwards.push(
                    SshRemoteForwardConfig::Dynamic {
                        name: proxy.runtime_name("remote-proxy"),
                        listen: proxy.listen,
                        protocol: proxy.resolved_protocol(),
                    },
                );
                assert(remote_forwards_of(forwards@) =~= remote_forwards_of(done).push(
                    forwards@.last().forward(),
                ));
            }
        }
        assert(self.remote_proxies@.take(self.remote_proxies@.len() as int)
            == self.remote_proxies@);
        let ghost proxies = started_proxies(self.remote_proxies@);
        for i in 0..self.remote_forwards.len()
            invariant
                proxies == started_proxies(self.remote_proxies@),
                remote_forwards_of(forwards@) == proxies + started_forwards(
                    self.remote_forwards@.take(i as int),
                ),
        {
            let forward = &self.remote_forwards[i];
            let ghost done = forwards@;
            assert(self.remote_forwards@.take(i + 1).drop_last() == self.remote_forwards@.take(
                i as int,
            ));
            if forward.auto {
                forwards.push(
                    SshRemoteForwardConfig::Tcp {
                        name: forward.runtime_name("remote-forward"),
                        listen: forward.listen,
                        local_host: forward.target.host.clone(),
                        local_port: forward.target.port,
                    },
                );
                assert(remote_forwards_of(forwards@) =~= remote_forwards_of(done).push(
                    forwards@.last().forward(),
                ));
                assert(remote_forwards_of(forwards@) =~= proxies + started_forwards(
                    self.remote_forwards@.take(i + 1),
                ));
            }
        }
        assert(self.remote_forwards@.take(self.remote_forwards@.len() as int)
            == self.remote_forwards@);
        let host = SshHostConfig {
            name: host_name.to_owned(),
            host: copy_text_option(&self.host),
            ssh_config_host: copy_text_option(&self.ssh_config_host),
            port: self.port,
            username: copy_text_option(&self.username),
            auth: copy_auth(&self.auth),
            ssh_config_path: copy_text_option(&self.ssh_config_path),
            host_key_policy: self.host_key_policy,
            known_hosts_path: copy_text_option(&self.known_hosts_path),
            remote_forwards: forwards,
        };
        let mut hosts: Vec<SshHostConfig> = Vec::new();
        hosts.push(host);
        SshPoolConfig {
            policy: LoadBalancePolicy::WeightedRtt,
            keep_alive_secs: self.keep_alive_secs,
            min_sessions_per_host: self.min_sessions,
            max_sessions_per_host: self.max_sessions,
            session_rotation_enabled: self.session_rotation_enabled,
            session_rotation_interval_secs: self.session_rotation_interval_secs,
            max_channels_per_session: self.max_channels_per_session,
            server_alive_count_max: self.server_alive_count_max,
            connect_timeout_secs: self.connect_timeout_secs,
            restart_initial_millis: self.restart_initial_millis,
            restart_max_secs: self.restart_max_secs,
            session_spawn_cooldown_millis: self.session_spawn_cooldown_millis,
            session_drain_timeout_secs: self.session_drain_timeout_secs,
            hosts,
        }
    }
}

// ---------------------------------------------------------------------------
// The configuration to start from
// ---------------------------------------------------------------------------
/// The address of the proxy to start from: 127.0.0.1:7890.
pub open spec fn default_listen() -> SocketAddress {
    SocketAddress::new(IpAddress::V4(LOCALHOST_V4), 7890)
}

impl HostConfig {
    /// A host of which nothing is said.
    pub fn unset() -> (r: HostConfig)
        ensures
            r.says_nothing(),
    {
        HostConfig {
            auto: None,
            inherit_ssh_config_forwards: None,
            tags: Vec::new(),
            host: None,
            port: None,
            username: None,
            auth: None,
            ssh_config_host: None,
            ssh_config_path: None,
            host_key_policy: None,
            known_hosts_path: None,
            keep_alive_secs: None,
            min_sessions: None,
            max_sessions: None,
            session_rotation_enabled: None,
            session_rotation_interval_secs: None,
            max_channels_per_session: None,
            server_alive_count_max: None,
            connect_timeout_secs: None,
            restart_initial_millis: None,
            restart_max_secs: None,
            session_spawn_cooldown_millis: None,
            session_drain_timeout_secs: None,
            probe: ProbeOverrideConfig::default(),
            local_proxies: Vec::new(),
            local_forwards: Vec::new(),
            remote_proxies: Vec::new(),
            remote_forwards: Vec::new(),
        }
    }

    /// Nothing is said of the host.
    pub open spec fn says_nothing(self) -> bool {
        &&& self.host is None
        &&& self.ssh_config_host is None
        &&& self.local_proxies@.len() == 0
        &&& self.says_nothing_else()
    }

    /// Nothing is said of the host but where it is and what its local proxies are.
    pub open spec fn says_nothing_else(self) -> bool {
        &&& self.auto is None
        &&& self.inherit_ssh_config_forwards is None
        &&& self.tags@.len() == 0
        &&& self.port is None
        &&& self.username is None
        &&& self.auth is None
        &&& self.ssh_config_path is None
        &&& self.host_key_policy is None
        &&& self.known_hosts_path is None
        &&& self.keep_alive_secs is None
        &&& self.min_sessions is None
        &&& self.max_sessions is None
        &&& self.session_rotation_enabled is None
        &&& self.session_rotation_interval_secs is None
        &&& self.max_channels_per_session is None
        &&& self.server_alive_count_max is None
        &&& self.connect_timeout_secs is None
        &&& self.restart_initial_millis is None
        &&& self.restart_max_secs is None
        &&& self.session_spawn_cooldown_millis is None
        &&& self.session_drain_timeout_secs is None
        &&& self.probe == no_probe_settings()
        &&& self.local_forwards@.len() == 0
        &&& self.remote_proxies@.len() == 0
        &&& self.remote_forwards@.len() == 0
    }
}

/// The hosts of a configuration; a name can be given once.
pub fn named_hosts(list: Vec<Named<HostConfig>>) -> (r: Result<NamedMap<HostConfig>, String>)
    ensures
        (match r {
            Ok(hosts) => {
                &&& first_repeat(list@, 0) is None
                &&& hosts.wf()
                &&& forall|name: Seq<char>| #[trigger]
                    value_of(hosts.entries@, name) == listed(list@, name)
            },
            Err(error) => first_repeat(list@, 0) matches Some(name) && error@
                == "duplicate SSH host name: "@ + name,
        }),
{
    match NamedMap::collect(list) {
        Ok(hosts) => Ok(hosts),
        Err(name) => Err(text::concat2("duplicate SSH host name: ", name.as_str())),
    }
}

/// The hosts to start from: one, under the name `default`, with one mixed local proxy.
pub fn default_hosts() -> (r: NamedMap<HostConfig>)
    ensures
        r.wf(),
        r.entries@.len() == 1,
        r.entries@[0].name@ == "default"@,
        ({
            let host = r.entries@[0].value;
            &&& host.says_nothing_else()
            &&& host.host is None
            &&& text::text_option(host.ssh_config_host) == Some("localhost"@)
            &&& host.local_proxies@ == seq![
                ProxyConfig {
                    auto: None,
                    name: None,
                    listen: default_listen(),
                    mixed: Some(true),
                    protocol: None,
                },
            ]
        }),
{
    let mut host = HostConfig::unset();
    host.ssh_config_host = Some("localhost".to_owned());
    host.local_proxies.push(
        ProxyConfig {
            auto: None,
            name: None,
            listen: SocketAddress::new(IpAddress::V4(LOCALHOST_V4), 7890),
            mixed: Some(true),
            protocol: None,
        },
    );
    let mut entries: Vec<Named<HostConfig>> = Vec::new();
    entries.push(Named { name: "default".to_owned(), value: host });
    NamedMap { entries }
}

impl Default for AppConfig {
    fn default() -> (r: AppConfig)
        ensures
            r.control.endpoint is None,
            r.env.default is None,
            r.env.profiles.entries@.len() == 0,
            r.env.inject == ProxyVariableSet::proxies(),
            r.env.inherit == ProxyVariableSet::none(),
            r.override_default.says_nothing(),
            r.hosts.entries@.len() == 1,
            r.hosts.entries@[0].name@ == "default"@,
            r.hosts.entries@[0].value.says_nothing_else(),
            text::text_option(r.hosts.entries@[0].value.ssh_config_host) == Some("localhost"@),
            r.hosts.entries@[0].value.host is None,
            r.hosts.entries@[0].value.local_proxies@ == seq![
                ProxyConfig {
                    auto: None,
                    name: None,
                    listen: default_listen(),
                    mixed: Some(true),
                    protocol: None,
                },
            ],
    {
        AppConfig {
            control: ControlConfig::default(),
            env: EnvConfig::default(),
            override_default: OverrideDefaultConfig::default(),
            hosts: default_hosts(),
        }
    }
}

// ---------------------------------------------------------------------------
// Laws of the configuration
// ---------------------------------------------------------------------------
/// What a host says of itself comes first, then what is said for all hosts; the name of a host
/// is its own alone.
pub proof fn own_settings_come_first(
    host: HostConfig,
    defaults: OverrideDefaultConfig,
    resolved: ResolvedHostConfig,
)
    requires
        is_resolved(host, defaults, resolved),
    ensures
        resolved.host == host.host,
        resolved.ssh_config_host == host.ssh_config_host,
        host.port is Some ==> resolved.port == host.port,
        host.port is None ==> resolved.port == defaults.port,
        host.username is Some ==> resolved.username == host.username,
        host.username is None ==> resolved.username == defaults.username,
        host.auth is Some ==> resolved.auth == host.auth,
        host.auth is None ==> resolved.auth == defaults.auth,
        host.ssh_config_path is Some ==> resolved.ssh_config_path == host.ssh_config_path,
        host.ssh_config_path is None ==> resolved.ssh_config_path == defaults.ssh_config_path,
        host.host_key_policy is Some ==> resolved.host_key_policy == host.host_key_policy,
        host.host_key_policy is None ==> resolved.host_key_policy == defaults.host_key_policy,
        host.known_hosts_path is Some ==> resolved.known_hosts_path == host.known_hosts_path,
        host.known_hosts_path is None ==> resolved.known_hosts_path == defaults.known_hosts_path,
        host.keep_alive_secs is Some ==> resolved.keep_alive_secs == host.keep_alive_secs,
        host.keep_alive_secs is None ==> resolved.keep_alive_secs == defaults.keep_alive_secs,
        host.server_alive_count_max is Some ==> resolved.server_alive_count_max == host.server_alive_count_max,
        host.server_alive_count_max is None ==> resolved.server_alive_count_max == defaults.server_alive_count_max,
        host.connect_timeout_secs is Some ==> resolved.connect_timeout_secs == host.connect_timeout_secs,
        host.connect_timeout_secs is None ==> resolved.connect_timeout_secs == defaults.connect_timeout_secs,
        host.auto is Some ==> resolved.auto == host.auto->0,
        host.auto is None && defaults.auto is Some ==> resolved.auto == defaults.auto->0,
        host.inherit_ssh_config_forwards is Some ==> resolved.inherit_ssh_config_forwards == host.inherit_ssh_config_forwards->0,
        host.inherit_ssh_config_forwards is None && defaults.inherit_ssh_config_forwards is Some ==> resolved.inherit_ssh_config_forwards == defaults.inherit_ssh_config_forwards->0,
        host.min_sessions is Some ==> resolved.min_sessions == host.min_sessions->0,
        host.min_sessions is None && defaults.min_sessions is Some ==> resolved.min_sessions == defaults.min_sessions->0,
        host.max_sessions is Some ==> resolved.max_sessions == host.max_sessions->0,
        host.max_sessions is None && defaults.max_sessions is Some ==> resolved.max_sessions == defaults.max_sessions->0,
        host.session_rotation_enabled is Some ==> resolved.session_rotation_enabled == host.session_rotation_enabled->0,
        host.session_rotation_enabled is None && defaults.session_rotation_enabled is Some ==> resolved.session_rotation_enabled == defaults.session_rotation_enabled->0,
        host.session_rotation_interval_secs is Some ==> resolved.session_rotation_interval_secs == host.session_rotation_interval_secs->0,
        host.session_rotation_interval_secs is None && defaults.session_rotation_interval_secs is Some ==> resolved.session_rotation_interval_secs == defaults.session_rotation_interval_secs->0,
        host.max_channels_per_session is Some ==> resolved.max_channels_per_session == host.max_channels_per_session->0,
        host.max_channels_per_session is None && defaults.max_channels_per_session is Some ==> resolved.max_channels_per_session == defaults.max_channels_per_session->0,
        host.restart_initial_millis is Some ==> resolved.restart_initial_millis == host.restart_initial_millis->0,
        host.restart_initial_millis is None && defaults.restart_initial_millis is Some ==> resolved.restart_initial_millis == defaults.restart_initial_millis->0,
        host.restart_max_secs is Some ==> resolved.restart_max_secs == host.restart_max_secs->0,
        host.restart_max_secs is None && defaults.restart_max_secs is Some ==> resolved.restart_max_secs == defaults.restart_max_secs->0,
        host.session_spawn_cooldown_millis is Some ==> resolved.session_spawn_cooldown_millis == host.session_spawn_cooldown_millis->0,
        host.session_spawn_cooldown_millis is None && defaults.session_spawn_cooldown_millis is Some ==> resolved.session_spawn_cooldown_millis == defaults.session_spawn_cooldown_millis->0,
        host.session_drain_timeout_secs is Some ==> resolved.session_drain_timeout_secs == host.session_drain_timeout_secs->0,
        host.session_drain_timeout_secs is None && defaults.session_drain_timeout_secs is Some ==> resolved.session_drain_timeout_secs == defaults.session_drain_timeout_secs->0,
{
}

/// Of what nobody says anything: a host starts by itself and takes over the forwards of the
/// OpenSSH configuration; it holds three to ten sessions with sixty-four channels each,
/// exchanges one an hour, waits half a second to half a minute after failures, a second between
/// starts and five minutes for a session to drain; it probes a session every ten seconds, for a
/// second and a half, and goes by three failures and two successes.
pub proof fn usual_settings(
    host: HostConfig,
    defaults: OverrideDefaultConfig,
    resolved: ResolvedHostConfig,
)
    requires
        is_resolved(host, defaults, resolved),
    ensures
        host.auto is None && defaults.auto is None ==> resolved.auto,
        host.inherit_ssh_config_forwards is None && defaults.inherit_ssh_config_forwards is None ==> resolved.inherit_ssh_config_forwards,
        host.min_sessions is None && defaults.min_sessions is None ==> resolved.min_sessions == 3,
        host.max_sessions is None && defaults.max_sessions is None ==> resolved.max_sessions == 10,
        host.session_rotation_enabled is None && defaults.session_rotation_enabled is None ==> resolved.session_rotation_enabled,
        host.session_rotation_interval_secs is None && defaults.session_rotation_interval_secs is None ==> resolved.session_rotation_interval_secs == 3600,
        host.max_channels_per_session is None && defaults.max_channels_per_session is None ==> resolved.max_channels_per_session == 64,
        host.restart_initial_millis is None && defaults.restart_initial_millis is None ==> resolved.restart_initial_millis == 500,
        host.restart_max_secs is None && defaults.restart_max_secs is None ==> resolved.restart_max_secs == 30,
        host.session_spawn_cooldown_millis is None && defaults.session_spawn_cooldown_millis is None ==> resolved.session_spawn_cooldown_millis == 1000,
        host.session_drain_timeout_secs is None && defaults.session_drain_timeout_secs is None ==> resolved.session_drain_timeout_secs == 300,
        host.probe.enabled is None && defaults.probe.enabled is None ==> resolved.probe.enabled,
        host.probe.interval_secs is None && defaults.probe.interval_secs is None ==> resolved.probe.interval_secs == 10,
        host.probe.timeout_millis is None && defaults.probe.timeout_millis is None ==> resolved.probe.timeout_millis == 1500,
        host.probe.fail_threshold is None && defaults.probe.fail_threshold is None ==> resolved.probe.fail_threshold == 3,
        host.probe.recovery_threshold is None && defaults.probe.recovery_threshold is None ==> resolved.probe.recovery_threshold == 2,
{
}

/// Probes go by what a host says of them, then by what is said for all hosts.
pub proof fn own_probe_settings_come_first(
    host: HostConfig,
    defaults: OverrideDefaultConfig,
    resolved: ResolvedHostConfig,
)
    requires
        is_resolved(host, defaults, resolved),
    ensures
        host.probe.enabled is Some ==> resolved.probe.enabled == host.probe.enabled->0,
        host.probe.enabled is None && defaults.probe.enabled is Some ==> resolved.probe.enabled
            == defaults.probe.enabled->0,
        host.probe.interval_secs is Some ==> resolved.probe.interval_secs == host.probe.interval_secs->0,
        host.probe.interval_secs is None && defaults.probe.interval_secs is Some ==> resolved.probe.interval_secs
            == defaults.probe.interval_secs->0,
        host.probe.timeout_millis is Some ==> resolved.probe.timeout_millis == host.probe.timeout_millis->0,
        host.probe.timeout_millis is None && defaults.probe.timeout_millis is Some ==> resolved.probe.timeout_millis
            == defaults.probe.timeout_millis->0,
        host.probe.fail_threshold is Some ==> resolved.probe.fail_threshold == host.probe.fail_threshold->0,
        host.probe.fail_threshold is None && defaults.probe.fail_threshold is Some ==> resolved.probe.fail_threshold
            == defaults.probe.fail_threshold->0,
        host.probe.recovery_threshold is Some ==> resolved.probe.recovery_threshold == host.probe.recovery_threshold->0,
        host.probe.recovery_threshold is None && defaults.probe.recovery_threshold is Some ==> resolved.probe.recovery_threshold
            == defaults.probe.recovery_threshold->0,
{
}

/// Every proxy and every forward of a host is there, in its place, with its own name and
/// addresses; what it leaves out is what is said for all, else that it starts by itself and
/// is not mixed.
pub proof fn tunnels_keep_their_places(
    host: HostConfig,
    defaults: OverrideDefaultConfig,
    resolved: ResolvedHostConfig,
    i: int,
)
    requires
        is_resolved(host, defaults, resolved),
    ensures
        resolved.local_proxies@.len() == host.local_proxies@.len(),
        resolved.remote_proxies@.len() == host.remote_proxies@.len(),
        resolved.local_forwards@.len() == host.local_forwards@.len(),
        resolved.remote_forwards@.len() == host.remote_forwards@.len(),
        0 <= i < host.local_proxies@.len() ==> is_filled_in_proxy(
            host.local_proxies@[i],
            defaults.proxy,
            resolved.local_proxies@[i],
        ),
        0 <= i < host.remote_proxies@.len() ==> is_filled_in_proxy(
            host.remote_proxies@[i],
            defaults.proxy,
            resolved.remote_proxies@[i],
        ),
        0 <= i < host.local_forwards@.len() ==> is_filled_in_forward(
            host.local_forwards@[i],
            defaults.forward,
            resolved.local_forwards@[i],
        ),
        0 <= i < host.remote_forwards@.len() ==> is_filled_in_forward(
            host.remote_forwards@[i],
            defaults.forward,
            resolved.remote_forwards@[i],
        ),
{
}

/// `full` is `proxy`, with its own name and address, and with what it leaves out filled in.
pub open spec fn is_filled_in_proxy(
    proxy: ProxyConfig,
    defaults: ProxyDefaultConfig,
    full: ResolvedProxyConfig,
) -> bool {
    &&& full.name == proxy.name
    &&& full.listen == proxy.listen
    &&& proxy.auto is Some ==> full.auto == proxy.auto->0
    &&& proxy.auto is None && defaults.auto is Some ==> full.auto == defaults.auto->0
    &&& proxy.auto is None && defaults.auto is None ==> full.auto
    &&& proxy.mixed is Some ==> full.mixed == proxy.mixed->0
    &&& proxy.mixed is None && defaults.mixed is Some ==> full.mixed == defaults.mixed->0
    &&& proxy.mixed is None && defaults.mixed is None ==> !full.mixed
    &&& proxy.protocol is Some ==> full.protocol == proxy.protocol
    &&& proxy.protocol is None ==> full.protocol == defaults.protocol
}

/// `full` is `forward`, with its own name and addresses, and with what it leaves out filled in.
pub open spec fn is_filled_in_forward(
    forward: ForwardConfig,
    defaults: ForwardDefaultConfig,
    full: ResolvedForwardConfig,
) -> bool {
    &&& full.name == forward.name
    &&& full.listen == forward.listen
    &&& full.target == forward.target
    &&& forward.auto is Some ==> full.auto == forward.auto->0
    &&& forward.auto is None && defaults.auto is Some ==> full.auto == defaults.auto->0
    &&& forward.auto is None && defaults.auto is None ==> full.auto
}

/// A mixed proxy speaks both protocols, another one what it is told, and SOCKS where it is told
/// nothing; a tunnel without a name is named after its kind and its address.
pub proof fn proxies_speak_what_they_are_told(proxy: ResolvedProxyConfig, kind: Seq<char>)
    ensures
        proxy.mixed ==> protocol_of(proxy) == ProxyProtocol::Mixed,
        !proxy.mixed && proxy.protocol is Some ==> protocol_of(proxy) == proxy.protocol->0,
        !proxy.mixed && proxy.protocol is None ==> protocol_of(proxy) == ProxyProtocol::Socks5h,
        proxy.name is Some ==> tunnel_name(proxy.name, kind, proxy.listen) == proxy.name->0@,
        proxy.name is None ==> tunnel_name(proxy.name, kind, proxy.listen) == kind + seq!['-']
            + crate::address::socket_text(proxy.listen),
{
    reveal_strlit("-");
    assert("-"@ =~= seq!['-']);
}

/// Of the remote proxies of a host just those are asked for that start by themselves, in their
/// order, each at its own address and with what it speaks.
pub proof fn remote_proxies_that_start_are_asked_for(
    list: Seq<ResolvedProxyConfig>,
    next: ResolvedProxyConfig,
)
    ensures
        started_proxies(Seq::empty()) == Seq::<RemoteForward>::empty(),
        !next.auto ==> started_proxies(list.push(next)) == started_proxies(list),
        next.auto ==> {
            let all = started_proxies(list.push(next));
            let n = started_proxies(list).len() as int;
            &&& all.len() == n + 1
            &&& all.take(n) == started_proxies(list)
            &&& all[n] matches RemoteForward::Dynamic { name, listen, protocol } && listen
                == next.listen && protocol == protocol_of(next) && name == tunnel_name(
                next.name,
                "remote-proxy"@,
                next.listen,
            )
        },
{
    assert(list.push(next).drop_last() =~= list);
    assert(started_proxies(list.push(next)).take(started_proxies(list).len() as int)
        =~= started_proxies(list));
}

/// Of the remote forwards of a host just those are asked for that start by themselves, in their
/// order, each at its own address and to its own target.
pub proof fn remote_forwards_that_start_are_asked_for(
    list: Seq<ResolvedForwardConfig>,
    next: ResolvedForwardConfig,
)
    ensures
        started_forwards(Seq::empty()) == Seq::<RemoteForward>::empty(),
        !next.auto ==> started_forwards(list.push(next)) == started_forwards(list),
        next.auto ==> {
            let all = started_forwards(list.push(next));
            let n = started_forwards(list).len() as int;
            &&& all.len() == n + 1
            &&& all.take(n) == started_forwards(list)
            &&& all[n] matches RemoteForward::Tcp { name, listen, local_host, local_port }
                && listen == next.listen && local_host == next.target.host@ && local_port
                == next.target.port && name == tunnel_name(
                next.name,
                "remote-forward"@,
                next.listen,
            )
        },
{
    assert(list.push(next).drop_last() =~= list);
    assert(started_forwards(list.push(next)).take(started_forwards(list).len() as int)
        =~= started_forwards(list));
}

/// The format of a file is told by what stands behind the last dot of its name, in any case of
/// letters; a name that has no dot, or starts with its only one, tells none.
pub proof fn formats_are_told_by_extension(front: Seq<char>, end: Seq<char>, plain: Seq<char>)
    requires
        front.len() > 0,
        !end.contains('.'),
        end.len() > 0,
        !plain.contains('.'),
    ensures
        extension(front + seq!['.'] + end) == Some(end),
        extension(plain) is None,
        extension(seq!['.'] + plain) is None,
        format_of_extension(Some(end)) == Some(ConfigFormat::Yaml) <==> lowercase(end) == "yaml"@
            || lowercase(end) == "yml"@,
        format_of_extension(Some(end)) == Some(ConfigFormat::Json) <==> lowercase(end) == "json"@,
        format_of_extension(Some(end)) == Some(ConfigFormat::Toml) <==> lowercase(end) == "toml"@,
        format_of_extension(None) is None,
{
    reveal_strlit("yaml");
    reveal_strlit("yml");
    reveal_strlit("json");
    reveal_strlit("toml");
    reveal_strlit("..");
    text::splits_keep_both_sides(front, '.', end);
    text::splits_keep_both_sides(plain, '.', end);
    text::splits_keep_both_sides(Seq::empty(), '.', plain);
    text::lemma_last_index(front + seq!['.'] + end, '.');
    text::lemma_last_index(plain, '.');
    let whole = front + seq!['.'] + end;
    let dot = text::last_index(whole, '.');
    assert(whole[front.len() as int] == '.');
    assert(whole.skip(dot + 1) == end);
    assert(whole.len() - dot - 1 == end.len());
    if whole == ".."@ {
        assert(whole[1] == '.');
        assert(end[0] == '.');
        assert(end.contains(end[0]));
    }
    let hidden = seq!['.'] + plain;
    text::lemma_last_index(hidden, '.');
    if text::last_index(hidden, '.') > 0 {
        let k = text::last_index(hidden, '.');
        assert(plain[k - 1] == '.');
        assert(plain.contains(plain[k - 1]));
    }
    assert("yaml"@[0] == 'y' && "yml"@[0] == 'y' && "json"@[0] == 'j' && "toml"@[0] == 't');
}

} // verus!
