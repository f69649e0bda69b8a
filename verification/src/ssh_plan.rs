//! How an SSH host is reached: by which address, as which user, with which keys, and through
//! which other hosts.
use crate::config::{copy_auth, SshAuthConfig, SshHostConfig, SshHostKeyPolicy, SshPoolConfig};
use crate::environment::Environment;
use crate::named::{value_of, Named};
use crate::paths;
use crate::paths::{joined_path, tilde_expanded, HomeDirectory, HomePath};
use crate::ssh_files::{configured_source, connection_ssh_config_source, default_ssh_dir, first_config_file,
    first_file, section_of, ssh_directory, SshFiles, SshStop, Stop};
use crate::ssh_policy::SECOND;
use crate::ssh_source::{names_no_files, rests_on_text, sources_are_complete};
use crate::ssh_syntax;
use crate::ssh_syntax::{read_destination, tokens_expanded, unquoted, yes_or_no, Destination,
    DestinationSpec, SshConfigError, TokenValues, Tokens};
use crate::text;
use crate::text::{concat2, concat3, decimal, integer_up_to, joined, lowercase, text_option, texts};
use ssh2_config::{ParseRule, SshConfig};
use vstd::prelude::*;

verus! {

/// The port of SSH.
pub const DEFAULT_SSH_PORT: u16 = 22;

/// How long a connection may take to come about, in seconds.
pub const DEFAULT_CONNECT_TIMEOUT_SECS: u64 = 10;

/// How often the other side is asked whether it is there, in seconds.
pub const DEFAULT_KEEP_ALIVE_SECS: u64 = 30;

/// How often the other side may fail to answer that.
pub const DEFAULT_KEEP_ALIVE_MAX: usize = 3;

/// Through how many hosts a host is reached at most.
pub const MAX_PROXY_JUMPS: usize = 8;

// ---------------------------------------------------------------------------
// What an OpenSSH configuration says of a host
// ---------------------------------------------------------------------------
/// What an OpenSSH configuration says of a host; durations are in nanoseconds.
#[derive(Debug, Clone, PartialEq, Eq)]
pub struct HostSettings {
    pub host_name: Option<String>,
    pub user: Option<String>,
    pub port: Option<u16>,
    pub connect_timeout: Option<u128>,
    pub server_alive_interval: Option<u128>,
    pub tcp_keep_alive: Option<bool>,
    pub pubkey_authentication: Option<bool>,
    pub identity_file: Option<Vec<String>>,
    pub proxy_jump: Option<Vec<String>>,
    /// The other directives, in lower case, with their arguments.
    pub fields: Vec<Named<Vec<String>>>,
}

/// What an OpenSSH configuration says of a host, with texts for strings.
pub ghost struct Settings {
    pub host_name: Option<Seq<char>>,
    pub user: Option<Seq<char>>,
    pub port: Option<u16>,
    pub connect_timeout: Option<u128>,
    pub server_alive_interval: Option<u128>,
    pub tcp_keep_alive: Option<bool>,
    pub pubkey_authentication: Option<bool>,
    pub identity_file: Option<Seq<Seq<char>>>,
    pub proxy_jump: Option<Seq<Seq<char>>>,
    pub fields: Map<Seq<char>, Seq<Seq<char>>>,
}

/// A list that may be left out, with texts for strings.
pub open spec fn texts_option(list: Option<Vec<String>>) -> Option<Seq<Seq<char>>> {
    match list {
        Some(list) => Some(texts(list@)),
        None => None,
    }
}

/// Directives and their arguments, with texts for strings.
pub open spec fn fields_of(fields: Seq<Named<Vec<String>>>) -> Map<Seq<char>, Seq<Seq<char>>> {
    Map::new(
        |name: Seq<char>| value_of(fields, name) is Some,
        |name: Seq<char>| texts(value_of(fields, name)->0@),
    )
}

impl HostSettings {
    /// The settings, with texts for strings.
    pub open spec fn settings(self) -> Settings {
        Settings {
            host_name: text_option(self.host_name),
            user: text_option(self.user),
            port: self.port,
            connect_timeout: self.connect_timeout,
            server_alive_interval: self.server_alive_interval,
            tcp_keep_alive: self.tcp_keep_alive,
            pubkey_authentication: self.pubkey_authentication,
            identity_file: texts_option(self.identity_file),
            proxy_jump: texts_option(self.proxy_jump),
            fields: fields_of(self.fields@),
        }
    }

    /// Nothing is said.
    pub fn none() -> (r: HostSettings)
        ensures
            r.settings() == nothing_said(),
    {
        let r = HostSettings {
            host_name: None,
            user: None,
            port: None,
            connect_timeout: None,
            server_alive_interval: None,
            tcp_keep_alive: None,
            pubkey_authentication: None,
            identity_file: None,
            proxy_jump: None,
            fields: Vec::new(),
        };
        assert(r.settings().fields =~= Map::empty());
        r
    }
}

/// Nothing is said of a host.
pub open spec fn nothing_said() -> Settings {
    Settings {
        host_name: None,
        user: None,
        port: None,
        connect_timeout: None,
        server_alive_interval: None,
        tcp_keep_alive: None,
        pubkey_authentication: None,
        identity_file: None,
        proxy_jump: None,
        fields: Map::empty(),
    }
}

/// A configuration that the `ssh2-config` crate has read.
#[verifier::external_type_specification]
#[verifier::external_body]
pub struct ExSshConfig(SshConfig);

/// What a configuration says of each name: what `SshConfig::query` gives for it.
pub uninterp spec fn said_of_hosts(config: SshConfig) -> Map<Seq<char>, Settings>;

/// Whether nothing is said of any host.
pub open spec fn says_nothing(said: Map<Seq<char>, Settings>) -> bool {
    forall|name: Seq<char>| #[trigger] said[name] == nothing_said()
}

/// `SshConfig::default` of the `ssh2-config` crate. The contract claims that a configuration
/// that was not read from anywhere says nothing of any host.
#[verifier::external_body]
fn no_config() -> (r: SshConfig)
    ensures
        says_nothing(said_of_hosts(r)),
{
    SshConfig::default()
}

/// What `SshConfig::parse` makes of a text that means the same on every machine: what it says
/// of each name, or what is wrong with it.
pub uninterp spec fn config_of_text(source: Seq<char>) -> Result<
    Map<Seq<char>, Settings>,
    Seq<char>,
>;

/// What a configuration that was read says of each name, or why it was not read.
pub open spec fn said_or_refused(r: Result<SshConfig, String>) -> Result<
    Map<Seq<char>, Settings>,
    Seq<char>,
> {
    match r {
        Ok(config) => Ok(said_of_hosts(config)),
        Err(message) => Err(message@),
    }
}

/// `SshConfig::parse` of the `ssh2-config` crate, with unknown and unsupported fields allowed.
/// It opens the files that a text names, so there must be none. The contract claims that an
/// empty text is read and says nothing of any host, and that a text which means the same on
/// every machine is read or refused, with a message, by itself alone. Left unsaid is what
/// becomes of the others: a key file that starts with a tilde is completed with the home
/// directory of whoever runs the program, UseKeychain is known to some systems only, and a
/// count may be more than the machine's word holds.
#[verifier::external_body]
fn read_config(source: &str) -> (r: Result<SshConfig, String>)
    requires
        names_no_files(source@),
    ensures
        source@.len() == 0 ==> r is Ok && says_nothing(said_of_hosts(r->Ok_0)),
        rests_on_text(source@) ==> config_of_text(source@) == said_or_refused(r),
{
    let rules = ParseRule::ALLOW_UNKNOWN_FIELDS | ParseRule::ALLOW_UNSUPPORTED_FIELDS;
    SshConfig::default().parse(&mut source.as_bytes(), rules).map_err(|error| error.to_string())
}

/// `SshConfig::query` of the `ssh2-config` crate. The contract claims that what a configuration
/// says of a name depends on the two alone; paths and durations come as texts and nanoseconds.
#[verifier::external_body]
fn query_config(config: &SshConfig, alias: &str) -> (r: HostSettings)
    ensures
        r.settings() == said_of_hosts(*config)[alias@],
{
    let p = config.query(alias);
    let path_texts = |list: Vec<std::path::PathBuf>| {
        list.iter().map(|path| path.to_string_lossy().into_owned()).collect()
    };
    let named = |(name, value)| Named { name, value };
    HostSettings {
        host_name: p.host_name, user: p.user, port: p.port,
        connect_timeout: p.connect_timeout.map(|d| d.as_nanos()),
        server_alive_interval: p.server_alive_interval.map(|d| d.as_nanos()),
        tcp_keep_alive: p.tcp_keep_alive, pubkey_authentication: p.pubkey_authentication,
        identity_file: p.identity_file.map(path_texts), proxy_jump: p.proxy_jump,
        fields: p.unsupported_fields.into_iter().map(named).collect(),
    }
}

/// The arguments of a directive; none where it is not there.
pub open spec fn field_values(settings: Settings, name: Seq<char>) -> Seq<Seq<char>> {
    if settings.fields.contains_key(name) {
        settings.fields[name]
    } else {
        Seq::empty()
    }
}

/// The first argument of a directive, without quotes.
pub open spec fn field_value(settings: Settings, name: Seq<char>) -> Option<Seq<char>> {
    let values = field_values(settings, name);
    if values.len() == 0 {
        None
    } else {
        Some(unquoted(values[0]))
    }
}

/// The arguments of a directive as one command, without quotes.
pub open spec fn field_command(settings: Settings, name: Seq<char>) -> Option<Seq<char>> {
    let command = joined(field_values(settings, name), " "@);
    if command.len() == 0 {
        None
    } else {
        Some(unquoted(command))
    }
}

impl HostSettings {
    /// The arguments of a directive; none where it is not there.
    pub fn unsupported_values(&self, name: &str) -> (r: Vec<String>)
        ensures
            texts(r@) == field_values(self.settings(), name@),
    {
        for i in 0..self.fields.len()
            invariant
                forall|j: int| 0 <= j < i ==> (#[trigger] self.fields@[j]).name@ != name@,
        {
            if text::same_text(self.fields[i].name.as_str(), name) {
                proof {
                    crate::named::lemma_name_index(self.fields@, name@);
                }
                return text::copy_texts(&self.fields[i].value);
            }
        }
        proof {
            crate::named::lemma_name_index(self.fields@, name@);
        }
        let none: Vec<String> = Vec::new();
        assert(texts(none@) =~= Seq::<Seq<char>>::empty());
        none
    }

    /// Whether a directive is there.
    pub fn has_field(&self, name: &str) -> (r: bool)
        ensures
            r == self.settings().fields.contains_key(name@),
    {
        for i in 0..self.fields.len()
            invariant
                forall|j: int| 0 <= j < i ==> (#[trigger] self.fields@[j]).name@ != name@,
        {
            if text::same_text(self.fields[i].name.as_str(), name) {
                proof {
                    crate::named::lemma_name_index(self.fields@, name@);
                }
                return true;
            }
        }
        proof {
            crate::named::lemma_name_index(self.fields@, name@);
        }
        false
    }

    /// The first argument of a directive, without quotes.
    pub fn unsupported_value(&self, name: &str) -> (r: Option<String>)
        ensures
            text_option(r) == field_value(self.settings(), name@),
    {
        let values = self.unsupported_values(name);
        assert(texts(values@).len() == values@.len());
        if values.len() == 0 {
            None
        } else {
            assert(texts(values@)[0] == values@[0]@);
            Some(ssh_syntax::unquote(values[0].as_str()))
        }
    }

    /// The arguments of a directive as one command, without quotes.
    pub fn unsupported_command(&self, name: &str) -> (r: Option<String>)
        ensures
            text_option(r) == field_command(self.settings(), name@),
    {
        let values = self.unsupported_values(name);
        let command = text::join(&values, " ");
        if command.as_str().is_empty() {
            None
        } else {
            Some(ssh_syntax::unquote(command.as_str()))
        }
    }

    /// What a directive that says yes or no says.
    pub fn unsupported_bool(&self, name: &str) -> (r: Option<bool>)
        ensures
            r == (match field_value(self.settings(), name@) {
                Some(value) => yes_or_no(value),
                None => None,
            }),
    {
        match self.unsupported_value(name) {
            Some(value) => ssh_syntax::read_yes_or_no(value.as_str()),
            None => None,
        }
    }

    /// The number that a directive gives.
    pub fn unsupported_usize(&self, name: &str) -> (r: Option<usize>)
        ensures
            (match r {
                Some(value) => field_number(self.settings(), name@) == Some(value as nat),
                None => field_number(self.settings(), name@) is None,
            }),
    {
        match self.unsupported_value(name) {
            Some(value) => match text::parse_integer(value.as_str(), usize::MAX as u64) {
                Some(number) => Some(number as usize),
                None => None,
            },
            None => None,
        }
    }
}

/// The number that a directive gives.
pub open spec fn field_number(settings: Settings, name: Seq<char>) -> Option<nat> {
    match field_value(settings, name) {
        Some(value) => integer_up_to(value, usize::MAX as nat),
        None => None,
    }
}

// ---------------------------------------------------------------------------
// Endpoints
// ---------------------------------------------------------------------------
/// Which host keys are accepted.
#[derive(Debug, Clone, Copy, PartialEq, Eq, Structural)]
pub enum ResolvedHostKeyPolicy {
    KnownHosts,
    AcceptNew,
    InsecureAcceptAny,
}

/// How a user proves who they are: in the way that was chosen, else with keys.
#[derive(Debug, Clone, PartialEq, Eq)]
pub struct ResolvedSshAuth {
    pub explicit: Option<SshAuthConfig>,
    pub identity_files: Vec<String>,
    pub use_agent: bool,
}

/// A host and all that it takes to reach it; durations are in nanoseconds.
#[derive(Debug, Clone, PartialEq, Eq)]
pub struct ResolvedSshEndpoint {
    pub alias: String,
    pub host: String,
    pub port: u16,
    pub username: String,
    pub auth: ResolvedSshAuth,
    pub host_key_policy: ResolvedHostKeyPolicy,
    pub host_key_name: String,
    pub known_hosts_paths: Vec<String>,
    pub connect_timeout: u128,
    pub keep_alive: u128,
    pub keep_alive_max: usize,
    pub tcp_keep_alive: bool,
    pub proxy_command: Option<String>,
}

/// A host and all that it takes to reach it, with texts for strings.
pub ghost struct Endpoint {
    pub alias: Seq<char>,
    pub host: Seq<char>,
    pub port: u16,
    pub username: Seq<char>,
    pub explicit: Option<SshAuthConfig>,
    pub identity_files: Seq<Seq<char>>,
    pub use_agent: bool,
    pub host_key_policy: ResolvedHostKeyPolicy,
    pub host_key_name: Seq<char>,
    pub known_hosts_paths: Seq<Seq<char>>,
    pub connect_timeout: u128,
    pub keep_alive: u128,
    pub keep_alive_max: nat,
    pub tcp_keep_alive: bool,
    pub proxy_command: Option<Seq<char>>,
}

impl ResolvedSshEndpoint {
    /// The endpoint, with texts for strings.
    pub open spec fn endpoint(self) -> Endpoint {
        Endpoint {
            alias: self.alias@,
            host: self.host@,
            port: self.port,
            username: self.username@,
            explicit: self.auth.explicit,
            identity_files: texts(self.auth.identity_files@),
            use_agent: self.auth.use_agent,
            host_key_policy: self.host_key_policy,
            host_key_name: self.host_key_name@,
            known_hosts_paths: texts(self.known_hosts_paths@),
            connect_timeout: self.connect_timeout,
            keep_alive: self.keep_alive,
            keep_alive_max: self.keep_alive_max as nat,
            tcp_keep_alive: self.tcp_keep_alive,
            proxy_command: text_option(self.proxy_command),
        }
    }
}

/// The endpoints of a list, with texts for strings.
pub open spec fn endpoints_of(list: Seq<ResolvedSshEndpoint>) -> Seq<Endpoint> {
    list.map_values(|e: ResolvedSshEndpoint| e.endpoint())
}

/// The words of a list other than "none".
pub open spec fn but_none(list: Seq<Seq<char>>) -> Seq<Seq<char>>
    decreases list.len(),
{
    if list.len() == 0 {
        Seq::empty()
    } else if lowercase(list.last()) == "none"@ {
        but_none(list.drop_last())
    } else {
        but_none(list.drop_last()).push(list.last())
    }
}

fn without_none(list: &Vec<String>) -> (r: Vec<String>)
    ensures
        texts(r@) == but_none(texts(list@)),
{
    let ghost all = texts(list@);
    let mut r: Vec<String> = Vec::new();
    assert(texts(r@) =~= Seq::<Seq<char>>::empty());
    for i in 0..list.len()
        invariant
            all == texts(list@),
            texts(r@) == but_none(all.take(i as int)),
    {
        assert(all.take(i + 1).drop_last() == all.take(i as int));
        assert(all.take(i + 1).last() == list@[i as int]@);
        let ghost before = r@;
        if !ssh_syntax::is_directive(list[i].as_str(), "none") {
            r.push(list[i].clone());
            assert(texts(r@) =~= texts(before).push(list@[i as int]@));
        }
    }
    assert(all.take(all.len() as int) =~= all);
    r
}

/// The keys of a user that are looked for where none are named.
pub open spec fn identity_paths(home: HomePath) -> Seq<Seq<char>> {
    seq![
        "id_rsa"@,
        "id_ecdsa"@,
        "id_ecdsa_sk"@,
        "id_ed25519"@,
        "id_ed25519_sk"@,
        "id_xmss"@,
        "id_dsa"@,
    ].map_values(|name: Seq<char>| joined_path(home.style, ssh_directory(home), name))
}

/// The keys of a user that are looked for where none are named.
pub fn default_identity_files(home: &HomeDirectory) -> (r: Vec<String>)
    ensures
        texts(r@) == identity_paths(home@),
{
    let directory = default_ssh_dir(home);
    let base = directory.as_str();
    let mut r: Vec<String> = Vec::new();
    r.push(paths::join_path(home.style, base, "id_rsa"));
    r.push(paths::join_path(home.style, base, "id_ecdsa"));
    r.push(paths::join_path(home.style, base, "id_ecdsa_sk"));
    r.push(paths::join_path(home.style, base, "id_ed25519"));
    r.push(paths::join_path(home.style, base, "id_ed25519_sk"));
    r.push(paths::join_path(home.style, base, "id_xmss"));
    r.push(paths::join_path(home.style, base, "id_dsa"));
    assert(texts(r@) =~= identity_paths(home@));
    r
}

/// A way to prove who one is: the one that was chosen, the files of keys before their tokens
/// are replaced, and whether an agent is asked.
pub open spec fn auth_of(
    chosen: Option<SshAuthConfig>,
    settings: Settings,
    home: HomePath,
) -> (Option<SshAuthConfig>, Seq<Seq<char>>, bool) {
    if chosen is Some {
        (chosen, Seq::empty(), false)
    } else {
        let keys = settings.pubkey_authentication != Some(false);
        let only = match field_value(settings, "identitiesonly"@) {
            Some(value) => yes_or_no(value) == Some(true),
            None => false,
        };
        let files = match settings.identity_file {
            Some(list) => list,
            None => identity_paths(home),
        };
        (
            None,
            if keys {
                but_none(files)
            } else {
                Seq::empty()
            },
            keys && !only,
        )
    }
}

/// How a user proves who they are; the files of keys are not completed yet.
pub fn resolve_auth(
    chosen: &Option<SshAuthConfig>,
    settings: &HostSettings,
    home: &HomeDirectory,
) -> (r: ResolvedSshAuth)
    ensures
        (r.explicit, texts(r.identity_files@), r.use_agent) == auth_of(
            *chosen,
            settings.settings(),
            home@,
        ),
{
    let none: Vec<String> = Vec::new();
    assert(texts(none@) =~= Seq::<Seq<char>>::empty());
    if chosen.is_some() {
        return ResolvedSshAuth {
            explicit: copy_auth(chosen),
            identity_files: none,
            use_agent: false,
        };
    }
    let keys = match settings.pubkey_authentication {
        Some(value) => value,
        None => true,
    };
    let only = match settings.unsupported_bool("identitiesonly") {
        Some(value) => value,
        None => false,
    };
    let files = if keys {
        match &settings.identity_file {
            Some(list) => without_none(list),
            None => {
                let list = default_identity_files(home);
                without_none(&list)
            },
        }
    } else {
        none
    };
    ResolvedSshAuth { explicit: None, identity_files: files, use_agent: keys && !only }
}

/// Which host keys are accepted: what is configured by hand, else what OpenSSH is told.
pub open spec fn key_policy(
    chosen: Option<SshHostKeyPolicy>,
    settings: Settings,
) -> ResolvedHostKeyPolicy {
    match chosen {
        Some(SshHostKeyPolicy::KnownHosts) => ResolvedHostKeyPolicy::KnownHosts,
        Some(SshHostKeyPolicy::InsecureAcceptAny) => ResolvedHostKeyPolicy::InsecureAcceptAny,
        None => match field_value(settings, "stricthostkeychecking"@) {
            None => ResolvedHostKeyPolicy::KnownHosts,
            Some(value) => {
                let lower = lowercase(value);
                if lower == "no"@ || lower == "off"@ {
                    ResolvedHostKeyPolicy::InsecureAcceptAny
                } else if lower == "accept-new"@ {
                    ResolvedHostKeyPolicy::AcceptNew
                } else {
                    ResolvedHostKeyPolicy::KnownHosts
                }
            },
        },
    }
}

/// Which host keys are accepted.
pub fn resolve_host_key_policy(
    chosen: Option<SshHostKeyPolicy>,
    settings: &HostSettings,
) -> (r: ResolvedHostKeyPolicy)
    ensures
        r == key_policy(chosen, settings.settings()),
{
    match chosen {
        Some(SshHostKeyPolicy::KnownHosts) => ResolvedHostKeyPolicy::KnownHosts,
        Some(SshHostKeyPolicy::InsecureAcceptAny) => ResolvedHostKeyPolicy::InsecureAcceptAny,
        None => match settings.unsupported_value("stricthostkeychecking") {
            None => ResolvedHostKeyPolicy::KnownHosts,
            Some(value) => {
                let lower = text::to_lowercase(value.as_str());
                if text::same_text(lower.as_str(), "no") || text::same_text(
                    lower.as_str(),
                    "off",
                ) {
                    ResolvedHostKeyPolicy::InsecureAcceptAny
                } else if text::same_text(lower.as_str(), "accept-new") {
                    ResolvedHostKeyPolicy::AcceptNew
                } else {
                    ResolvedHostKeyPolicy::KnownHosts
                }
            },
        },
    }
}

/// The files of known host keys, before their tokens are replaced: the one that is configured
/// by hand, else those that OpenSSH is told of, else the user's own.
pub open spec fn known_hosts_of(
    chosen: Option<String>,
    settings: Settings,
    home: HomePath,
) -> Seq<Seq<char>> {
    if chosen is Some {
        seq![chosen->0@]
    } else {
        let told = but_none(
            field_values(settings, "userknownhostsfile"@) + field_values(
                settings,
                "globalknownhostsfile"@,
            ),
        );
        if told.len() == 0 && !settings.fields.contains_key("userknownhostsfile"@)
            && !settings.fields.contains_key("globalknownhostsfile"@) {
            seq![joined_path(home.style, ssh_directory(home), "known_hosts"@)]
        } else {
            told
        }
    }
}

/// The files of known host keys; they are not completed yet.
pub fn resolve_known_hosts_paths(
    chosen: &Option<String>,
    settings: &HostSettings,
    home: &HomeDirectory,
) -> (r: Vec<String>)
    ensures
        texts(r@) == known_hosts_of(*chosen, settings.settings(), home@),
{
    match chosen {
        Some(path) => {
            let mut r: Vec<String> = Vec::new();
            r.push(path.clone());
            assert(texts(r@) =~= seq![path@]);
            r
        },
        None => {
            let mut all = settings.unsupported_values("userknownhostsfile");
            let ghost first = all@;
            let mut more = settings.unsupported_values("globalknownhostsfile");
            let ghost second = more@;
            all.append(&mut more);
            assert(texts(all@) =~= texts(first) + texts(second));
            let mut r = without_none(&all);
            assert(texts(r@).len() == r@.len());
            if r.len() == 0 && !settings.has_field("userknownhostsfile") && !settings.has_field(
                "globalknownhostsfile",
            ) {
                let directory = default_ssh_dir(home);
                r.push(paths::join_path(home.style, directory.as_str(), "known_hosts"));
                assert(texts(r@) =~= seq![joined_path(
                    home@.style,
                    ssh_directory(home@),
                    "known_hosts"@,
                )]);
            }
            r
        },
    }
}

/// A path without quotes, with its tokens replaced and the home directory for a tilde.
pub open spec fn completed(path: Seq<char>, tokens: Tokens) -> Seq<char> {
    tilde_expanded(tokens_expanded(tokens, unquoted(path)), tokens.home)
}

/// The paths of a list, completed.
pub open spec fn all_completed(list: Seq<Seq<char>>, tokens: Tokens) -> Seq<Seq<char>> {
    list.map_values(|path: Seq<char>| completed(path, tokens))
}

/// Completes a path.
pub fn expand_path_tokens(path: &str, values: &TokenValues) -> (r: String)
    ensures
        r@ == completed(path@, values.tokens()),
{
    let raw = ssh_syntax::unquote(path);
    let expanded = ssh_syntax::expand_percent_tokens(raw.as_str(), values);
    paths::expand_tilde(expanded.as_str(), &values.home)
}

fn complete_all(list: &Vec<String>, values: &TokenValues) -> (r: Vec<String>)
    ensures
        texts(r@) == all_completed(texts(list@), values.tokens()),
{
    let ghost all = texts(list@);
    let mut r: Vec<String> = Vec::new();
    for i in 0..list.len()
        invariant
            all == texts(list@),
            texts(r@) == all_completed(all.take(i as int), values.tokens()),
    {
        assert(all[i as int] == list@[i as int]@);
        let ghost before = r@;
        r.push(expand_path_tokens(list[i].as_str(), values));
        assert(texts(r@) =~= texts(before).push(completed(all[i as int], values.tokens())));
        assert(all.take(i + 1) =~= all.take(i as int).push(all[i as int]));
        assert(texts(r@) =~= all_completed(all.take(i + 1), values.tokens()));
    }
    assert(all.take(all.len() as int) =~= all);
    r
}

/// What a host is configured by hand with.
pub ghost struct Chosen {
    pub host: Option<Seq<char>>,
    pub auth: Option<SshAuthConfig>,
    pub host_key_policy: Option<SshHostKeyPolicy>,
    pub known_hosts_path: Option<String>,
}

/// What a host is configured by hand with; a host on the way is not.
pub open spec fn chosen_of(upstream: Option<SshHostConfig>) -> Chosen {
    match upstream {
        Some(host) => Chosen {
            host: text_option(host.host),
            auth: host.auth,
            host_key_policy: host.host_key_policy,
            known_hosts_path: host.known_hosts_path,
        },
        None => Chosen {
            host: None,
            auth: None,
            host_key_policy: None,
            known_hosts_path: None,
        },
    }
}

/// The user to be at a destination.
pub open spec fn user_at(
    destination: Destination,
    settings: Settings,
    environment: Environment,
) -> Option<Seq<char>> {
    if destination.username is Some {
        destination.username
    } else if settings.user is Some {
        settings.user
    } else {
        environment.user_name()
    }
}

/// A span of time: the one of the configuration in seconds, else the one that OpenSSH is told,
/// else the usual one in seconds.
pub open spec fn span_of(configured: Option<u64>, told: Option<u128>, usual: u64) -> u128 {
    match configured {
        Some(seconds) => (seconds * SECOND) as u128,
        None => match told {
            Some(span) => span,
            None => (usual * SECOND) as u128,
        },
    }
}

fn pick_span(configured: Option<u64>, told: Option<u128>, usual: u64) -> (r: u128)
    ensures
        r == span_of(configured, told, usual),
{
    match configured {
        Some(seconds) => (seconds as u128) * SECOND,
        None => match told {
            Some(span) => span,
            None => (usual as u128) * SECOND,
        },
    }
}

/// A destination and the hosts on the way to it, or why there is none.
pub open spec fn endpoint_at(
    destination: Destination,
    settings: Settings,
    chosen: Chosen,
    pool: SshPoolConfig,
    environment: Environment,
) -> Result<(Endpoint, Seq<Seq<char>>), Seq<Seq<char>>> {
    let user = user_at(destination, settings, environment);
    if user is None {
        Err(seq!["no SSH username configured for host "@ + destination.alias])
    } else {
        let home = environment.home_place();
        let host = if chosen.host is Some {
            chosen.host->0
        } else if settings.host_name is Some {
            settings.host_name->0
        } else {
            destination.alias
        };
        let port = if destination.port is Some {
            destination.port->0
        } else if settings.port is Some {
            settings.port->0
        } else {
            DEFAULT_SSH_PORT
        };
        let tokens = Tokens {
            home,
            host,
            local_host: environment.host_name(),
            alias: destination.alias,
            port,
            username: user->0,
            local_user: match environment.user_name() {
                Some(name) => name,
                None => Seq::empty(),
            },
        };
        let (explicit, identity_files, use_agent) = auth_of(chosen.auth, settings, home);
        Ok(
            (
                Endpoint {
                    alias: destination.alias,
                    host,
                    port,
                    username: user->0,
                    explicit,
                    identity_files: all_completed(identity_files, tokens),
                    use_agent,
                    host_key_policy: key_policy(chosen.host_key_policy, settings),
                    host_key_name: match field_value(settings, "hostkeyalias"@) {
                        Some(name) => name,
                        None => host,
                    },
                    known_hosts_paths: all_completed(
                        known_hosts_of(chosen.known_hosts_path, settings, home),
                        tokens,
                    ),
                    connect_timeout: span_of(
                        pool.connect_timeout_secs,
                        settings.connect_timeout,
                        DEFAULT_CONNECT_TIMEOUT_SECS,
                    ),
                    keep_alive: span_of(
                        pool.keep_alive_secs,
                        settings.server_alive_interval,
                        DEFAULT_KEEP_ALIVE_SECS,
                    ),
                    keep_alive_max: match pool.server_alive_count_max {
                        Some(count) => count as nat,
                        None => match field_number(settings, "serveralivecountmax"@) {
                            Some(count) => count,
                            None => DEFAULT_KEEP_ALIVE_MAX as nat,
                        },
                    },
                    tcp_keep_alive: settings.tcp_keep_alive != Some(false),
                    proxy_command: match field_command(settings, "proxycommand"@) {
                        Some(command) => if lowercase(command) == "none"@ {
                            None
                        } else {
                            Some(command)
                        },
                        None => None,
                    },
                },
                match settings.proxy_jump {
                    Some(list) => but_none(list),
                    None => Seq::empty(),
                },
            ),
        )
    }
}

/// A destination and the hosts on the way to it.
#[derive(Debug, Clone, PartialEq, Eq)]
pub struct ResolvedDestination {
    pub endpoint: ResolvedSshEndpoint,
    pub proxy_jump: Vec<String>,
}

fn token_values(
    destination: &DestinationSpec,
    host: &String,
    port: u16,
    username: &String,
    environment: &Environment,
) -> (r: TokenValues)
    ensures
        r.tokens() == (Tokens {
            home: environment.home_place(),
            host: host@,
            local_host: environment.host_name(),
            alias: destination.alias@,
            port,
            username: username@,
            local_user: match environment.user_name() {
                Some(name) => name,
                None => Seq::empty(),
            },
        }),
{
    let local_user = match environment.local_username() {
        Some(name) => name.to_owned(),
        None => String::new(),
    };
    TokenValues {
        home: environment.user_home(),
        host: host.clone(),
        local_host: environment.local_host(),
        alias: destination.alias.clone(),
        port,
        username: username.clone(),
        local_user,
    }
}

fn pick_user(
    destination: &DestinationSpec,
    settings: &HostSettings,
    environment: &Environment,
) -> (r: Option<String>)
    ensures
        text_option(r) == user_at(destination.destination(), settings.settings(), *environment),
{
    match &destination.username {
        Some(name) => Some(name.clone()),
        None => match &settings.user {
            Some(name) => Some(name.clone()),
            None => match environment.local_username() {
                Some(name) => Some(name.to_owned()),
                None => None,
            },
        },
    }
}

fn pick_command(settings: &HostSettings) -> (r: Option<String>)
    ensures
        text_option(r) == (match field_command(settings.settings(), "proxycommand"@) {
            Some(command) => if lowercase(command) == "none"@ {
                None
            } else {
                Some(command)
            },
            None => None,
        }),
{
    match settings.unsupported_command("proxycommand") {
        Some(command) => if ssh_syntax::is_directive(command.as_str(), "none") {
            None
        } else {
            Some(command)
        },
        None => None,
    }
}

fn pick_keep_alive_max(pool: &SshPoolConfig, settings: &HostSettings) -> (r: usize)
    ensures
        r == (match pool.server_alive_count_max {
            Some(count) => count as nat,
            None => match field_number(settings.settings(), "serveralivecountmax"@) {
                Some(count) => count,
                None => DEFAULT_KEEP_ALIVE_MAX as nat,
            },
        }),
{
    match pool.server_alive_count_max {
        Some(count) => count as usize,
        None => match settings.unsupported_usize("serveralivecountmax") {
            Some(count) => count,
            None => DEFAULT_KEEP_ALIVE_MAX,
        },
    }
}

/// What it takes to reach a destination.
pub fn resolve_destination(
    destination: &DestinationSpec,
    settings: &HostSettings,
    upstream: Option<&SshHostConfig>,
    pool: &SshPoolConfig,
    environment: &Environment,
) -> (r: Result<ResolvedDestination, SshConfigError>)
    ensures
        ({
            let expected = endpoint_at(
                destination.destination(),
                settings.settings(),
                chosen_of(
                    match upstream {
                        Some(host) => Some(*host),
                        None => None,
                    },
                ),
                *pool,
                *environment,
            );
            match r {
                Ok(found) => expected == Ok::<_, Seq<Seq<char>>>(
                    (found.endpoint.endpoint(), texts(found.proxy_jump@)),
                ),
                Err(error) => expected == Err::<(Endpoint, Seq<Seq<char>>), _>(error.chain()),
            }
        }),
{
    let username = match pick_user(destination, settings, environment) {
        Some(name) => name,
        None => {
            return Err(
                SshConfigError::new(
                    concat2(
                        "no SSH username configured for host ",
                        destination.alias.as_str(),
                    ),
                ),
            );
        },
    };
    let (own_host, own_auth, own_policy, own_known_hosts) = match upstream {
        Some(host) => (
            text::copy_text_option(&host.host),
            copy_auth(&host.auth),
            host.host_key_policy,
            text::copy_text_option(&host.known_hosts_path),
        ),
        None => (None, None, None, None),
    };
    let host = match own_host {
        Some(host) => host,
        None => match &settings.host_name {
            Some(host) => host.clone(),
            None => destination.alias.clone(),
        },
    };
    let port: u16 = match destination.port {
        Some(port) => port,
        None => match settings.port {
            Some(port) => port,
            None => DEFAULT_SSH_PORT,
        },
    };
    let values = token_values(destination, &host, port, &username, environment);
    let home = environment.user_home();
    let mut auth = resolve_auth(&own_auth, settings, &home);
    auth.identity_files = complete_all(&auth.identity_files, &values);
    let known_hosts = resolve_known_hosts_paths(&own_known_hosts, settings, &home);
    let host_key_name = match settings.unsupported_value("hostkeyalias") {
        Some(name) => name,
        None => host.clone(),
    };
    let tcp_keep_alive = match settings.tcp_keep_alive {
        Some(value) => value,
        None => true,
    };
    let proxy_jump = match &settings.proxy_jump {
        Some(list) => without_none(list),
        None => Vec::new(),
    };
    assert(settings.proxy_jump is None ==> texts(proxy_jump@) =~= Seq::<Seq<char>>::empty());
    Ok(
        ResolvedDestination {
            endpoint: ResolvedSshEndpoint {
                alias: destination.alias.clone(),
                host,
                port,
                username,
                auth,
                host_key_policy: resolve_host_key_policy(own_policy, settings),
                host_key_name,
                known_hosts_paths: complete_all(&known_hosts, &values),
                connect_timeout: pick_span(
                    pool.connect_timeout_secs,
                    settings.connect_timeout,
                    DEFAULT_CONNECT_TIMEOUT_SECS,
                ),
                keep_alive: pick_span(
                    pool.keep_alive_secs,
                    settings.server_alive_interval,
                    DEFAULT_KEEP_ALIVE_SECS,
                ),
                keep_alive_max: pick_keep_alive_max(pool, settings),
                tcp_keep_alive,
                proxy_command: pick_command(settings),
            },
            proxy_jump,
        },
    )
}

// ---------------------------------------------------------------------------
// The way to a host
// ---------------------------------------------------------------------------
/// Why there is no plan: something is wrong, or it is not known yet what the configuration says
/// of a host.
#[derive(Debug, Clone, PartialEq, Eq)]
pub enum PlanStop {
    Failed(SshConfigError),
    Asks(String),
}

/// Why there is no plan, with texts for strings.
pub ghost enum NoPlan {
    Failed(Seq<Seq<char>>),
    Asks(Seq<char>),
}

impl PlanStop {
    /// Why there is no plan, with texts for strings.
    pub open spec fn no_plan(self) -> NoPlan {
        match self {
            PlanStop::Failed(error) => NoPlan::Failed(error.chain()),
            PlanStop::Asks(alias) => NoPlan::Asks(alias@),
        }
    }
}

/// Whether a host stands in a list, whatever the case of letters.
pub open spec fn is_on_way(stack: Seq<Seq<char>>, alias: Seq<char>) -> bool {
    exists|i: int| 0 <= i < stack.len() && lowercase(#[trigger] stack[i]) == lowercase(alias)
}

/// How many answers are about hosts that are not on the way.
pub open spec fn off_way(answers: Seq<Named<HostSettings>>, stack: Seq<Seq<char>>) -> nat
    decreases answers.len(),
{
    if answers.len() == 0 {
        0
    } else {
        let rest = off_way(answers.drop_last(), stack);
        if is_on_way(stack, answers.last().name@) {
            rest
        } else {
            rest + 1
        }
    }
}

/// A host on the way leaves fewer answers about others.
pub proof fn lemma_on_way(
    answers: Seq<Named<HostSettings>>,
    stack: Seq<Seq<char>>,
    alias: Seq<char>,
)
    requires
        !is_on_way(stack, alias),
    ensures
        off_way(answers, stack.push(alias)) <= off_way(answers, stack),
        value_of(answers, alias) is Some ==> off_way(answers, stack.push(alias)) < off_way(
            answers,
            stack,
        ),
    decreases answers.len(),
{
    crate::named::lemma_name_index(answers, alias);
    let index = crate::named::name_index(answers, alias);
    lemma_way_grows(answers, stack, alias);
    if index < answers.len() {
        lemma_answer_on_way(answers, stack, alias, index);
    }
}

proof fn lemma_still_on_way(stack: Seq<Seq<char>>, alias: Seq<char>, other: Seq<char>)
    ensures
        is_on_way(stack, other) ==> is_on_way(stack.push(alias), other),
        is_on_way(stack.push(alias), alias),
{
    let next = stack.push(alias);
    assert(next[stack.len() as int] == alias);
    if is_on_way(stack, other) {
        let k = choose|k: int|
            0 <= k < stack.len() && lowercase(#[trigger] stack[k]) == lowercase(other);
        assert(next[k] == stack[k]);
    }
}

proof fn lemma_way_grows(
    answers: Seq<Named<HostSettings>>,
    stack: Seq<Seq<char>>,
    alias: Seq<char>,
)
    ensures
        off_way(answers, stack.push(alias)) <= off_way(answers, stack),
    decreases answers.len(),
{
    if answers.len() > 0 {
        lemma_way_grows(answers.drop_last(), stack, alias);
        lemma_still_on_way(stack, alias, answers.last().name@);
    }
}

proof fn lemma_answer_on_way(
    answers: Seq<Named<HostSettings>>,
    stack: Seq<Seq<char>>,
    alias: Seq<char>,
    index: int,
)
    requires
        0 <= index < answers.len(),
        answers[index].name@ == alias,
        !is_on_way(stack, alias),
    ensures
        off_way(answers, stack.push(alias)) < off_way(answers, stack),
    decreases answers.len(),
{
    let rest = answers.drop_last();
    lemma_still_on_way(stack, alias, answers.last().name@);
    if index == answers.len() - 1 {
        lemma_still_on_way(stack, alias, alias);
        lemma_way_grows(rest, stack, alias);
    } else {
        assert(rest[index] == answers[index]);
        lemma_answer_on_way(rest, stack, alias, index);
    }
}

/// What is said of a chain that is too long.
pub open spec fn too_long() -> Seq<char> {
    "SSH ProxyJump chain exceeds "@ + decimal(MAX_PROXY_JUMPS as nat) + " hops"@
}

/// The hosts that are passed once one more was added, with the hosts on the way to it in front.
/// `stack` holds the hosts whose way this is.
pub open spec fn after_jump(
    answers: Seq<Named<HostSettings>>,
    pool: SshPoolConfig,
    environment: Environment,
    jump: Seq<char>,
    stack: Seq<Seq<char>>,
    passed: Seq<Endpoint>,
) -> Result<Seq<Endpoint>, NoPlan>
    decreases off_way(answers, stack), 1nat, 0nat,
{
    if lowercase(jump) == "none"@ {
        Ok(passed)
    } else {
        match read_destination(jump) {
            Err(chain) => Err(NoPlan::Failed(chain)),
            Ok(destination) => if is_on_way(stack, destination.alias) {
                Err(
                    NoPlan::Failed(
                        seq!["SSH ProxyJump cycle detected: "@ + joined(
                            stack.push(destination.alias),
                            " -> "@,
                        )],
                    ),
                )
            } else {
                match value_of(answers, destination.alias) {
                    None => Err(NoPlan::Asks(destination.alias)),
                    Some(settings) => {
                        proof {
                            lemma_on_way(answers, stack, destination.alias);
                        }
                        match endpoint_at(
                            destination,
                            settings.settings(),
                            chosen_of(None),
                            pool,
                            environment,
                        ) {
                            Err(chain) => Err(NoPlan::Failed(chain)),
                            Ok((endpoint, jumps)) => if jumps.len() > 0
                                && endpoint.proxy_command is Some {
                                Err(
                                    NoPlan::Failed(
                                        seq!["SSH jump host "@ + endpoint.alias
                                            + " configures both ProxyJump and ProxyCommand"@],
                                    ),
                                )
                            } else {
                                match after_jumps(
                                    answers,
                                    pool,
                                    environment,
                                    jumps,
                                    0,
                                    stack.push(destination.alias),
                                    passed,
                                ) {
                                    Err(stop) => Err(stop),
                                    Ok(now) => if now.len() + 1 > MAX_PROXY_JUMPS {
                                        Err(NoPlan::Failed(seq![too_long()]))
                                    } else {
                                        Ok(now.push(endpoint))
                                    },
                                }
                            },
                        }
                    },
                }
            },
        }
    }
}

/// The hosts that are passed once those of a list, from `from` on, were added.
pub open spec fn after_jumps(
    answers: Seq<Named<HostSettings>>,
    pool: SshPoolConfig,
    environment: Environment,
    jumps: Seq<Seq<char>>,
    from: int,
    stack: Seq<Seq<char>>,
    passed: Seq<Endpoint>,
) -> Result<Seq<Endpoint>, NoPlan>
    decreases off_way(answers, stack), 2nat, jumps.len() - from,
{
    if from >= jumps.len() {
        Ok(passed)
    } else {
        match after_jump(answers, pool, environment, jumps[from], stack, passed) {
            Err(stop) => Err(stop),
            Ok(now) => after_jumps(answers, pool, environment, jumps, from + 1, stack, now),
        }
    }
}

fn find_on_way(stack: &Vec<String>, alias: &str) -> (r: bool)
    ensures
        r == is_on_way(texts(stack@), alias@),
{
    let ghost all = texts(stack@);
    for i in 0..stack.len()
        invariant
            all == texts(stack@),
            forall|j: int| 0 <= j < i ==> lowercase(#[trigger] all[j]) != lowercase(alias@),
    {
        assert(all[i as int] == stack@[i as int]@);
        if text::same_text_ignoring_case(stack[i].as_str(), alias) {
            return true;
        }
    }
    false
}

fn find_answer<'a>(answers: &'a Vec<Named<HostSettings>>, alias: &str) -> (r: Option<
    &'a HostSettings,
>)
    ensures
        (match r {
            Some(settings) => value_of(answers@, alias@) == Some(*settings),
            None => value_of(answers@, alias@) is None,
        }),
{
    for i in 0..answers.len()
        invariant
            forall|j: int| 0 <= j < i ==> (#[trigger] answers@[j]).name@ != alias@,
    {
        if text::same_text(answers[i].name.as_str(), alias) {
            proof {
                crate::named::lemma_name_index(answers@, alias@);
            }
            return Some(&answers[i].value);
        }
    }
    proof {
        crate::named::lemma_name_index(answers@, alias@);
    }
    None
}

/// Whether `r` are the hosts that are passed.
pub open spec fn passes(
    r: Result<Vec<ResolvedSshEndpoint>, PlanStop>,
    expected: Result<Seq<Endpoint>, NoPlan>,
) -> bool {
    match r {
        Ok(list) => expected == Ok::<_, NoPlan>(endpoints_of(list@)),
        Err(stop) => expected == Err::<Seq<Endpoint>, _>(stop.no_plan()),
    }
}

fn too_long_error() -> (r: SshConfigError)
    ensures
        r.chain() == seq![too_long()],
{
    let most = text::decimal_text(MAX_PROXY_JUMPS as u64);
    SshConfigError::new(concat3("SSH ProxyJump chain exceeds ", most.as_str(), " hops"))
}

fn resolve_jump(
    answers: &Vec<Named<HostSettings>>,
    pool: &SshPoolConfig,
    environment: &Environment,
    jump: &str,
    stack: &Vec<String>,
    passed: Vec<ResolvedSshEndpoint>,
) -> (r: Result<Vec<ResolvedSshEndpoint>, PlanStop>)
    ensures
        passes(
            r,
            after_jump(
                answers@,
                *pool,
                *environment,
                jump@,
                texts(stack@),
                endpoints_of(passed@),
            ),
        ),
    decreases off_way(answers@, texts(stack@)), 1nat, 0nat,
{
    if ssh_syntax::is_directive(jump, "none") {
        return Ok(passed);
    }
    let destination = match ssh_syntax::parse_destination(jump) {
        Ok(destination) => destination,
        Err(error) => {
            return Err(PlanStop::Failed(error));
        },
    };
    let ghost alias = destination.alias@;
    let mut inside = text::copy_texts(stack);
    inside.push(destination.alias.clone());
    assert(texts(inside@) =~= texts(stack@).push(alias));
    if find_on_way(stack, destination.alias.as_str()) {
        let way = text::join(&inside, " -> ");
        return Err(
            PlanStop::Failed(
                SshConfigError::new(concat2("SSH ProxyJump cycle detected: ", way.as_str())),
            ),
        );
    }
    proof {
        lemma_on_way(answers@, texts(stack@), alias);
    }
    let settings = match find_answer(answers, destination.alias.as_str()) {
        Some(settings) => settings,
        None => {
            return Err(PlanStop::Asks(destination.alias));
        },
    };
    let found = match resolve_destination(&destination, settings, None, pool, environment) {
        Ok(found) => found,
        Err(error) => {
            return Err(PlanStop::Failed(error));
        },
    };
    assert(texts(found.proxy_jump@).len() == found.proxy_jump@.len());
    if found.proxy_jump.len() > 0 && found.endpoint.proxy_command.is_some() {
        return Err(
            PlanStop::Failed(
                SshConfigError::new(
                    concat3(
                        "SSH jump host ",
                        found.endpoint.alias.as_str(),
                        " configures both ProxyJump and ProxyCommand",
                    ),
                ),
            ),
        );
    }
    match resolve_jumps(answers, pool, environment, &found.proxy_jump, &inside, passed) {
        Err(stop) => Err(stop),
        Ok(now) => {
            let mut now = now;
            let ghost before = now@;
            assert(endpoints_of(before).len() == before.len());
            if now.len() >= MAX_PROXY_JUMPS {
                return Err(PlanStop::Failed(too_long_error()));
            }
            let endpoint = found.endpoint;
            now.push(endpoint);
            assert(endpoints_of(now@) =~= endpoints_of(before).push(endpoint.endpoint()));
            Ok(now)
        },
    }
}

fn resolve_jumps(
    answers: &Vec<Named<HostSettings>>,
    pool: &SshPoolConfig,
    environment: &Environment,
    jumps: &Vec<String>,
    stack: &Vec<String>,
    passed: Vec<ResolvedSshEndpoint>,
) -> (r: Result<Vec<ResolvedSshEndpoint>, PlanStop>)
    ensures
        passes(
            r,
            after_jumps(
                answers@,
                *pool,
                *environment,
                texts(jumps@),
                0,
                texts(stack@),
                endpoints_of(passed@),
            ),
        ),
    decreases off_way(answers@, texts(stack@)), 2nat, 0nat,
{
    let ghost all = texts(jumps@);
    let ghost whole = after_jumps(
        answers@,
        *pool,
        *environment,
        all,
        0,
        texts(stack@),
        endpoints_of(passed@),
    );
    let mut reached = passed;
    for i in 0..jumps.len()
        invariant
            all == texts(jumps@),
            all.len() == jumps@.len(),
            whole == after_jumps(
                answers@,
                *pool,
                *environment,
                all,
                0,
                texts(stack@),
                endpoints_of(passed@),
            ),
            whole == after_jumps(
                answers@,
                *pool,
                *environment,
                all,
                i as int,
                texts(stack@),
                endpoints_of(reached@),
            ),
    {
        assert(all[i as int] == jumps@[i as int]@);
        match resolve_jump(answers, pool, environment, jumps[i].as_str(), stack, reached) {
            Err(stop) => {
                return Err(stop);
            },
            Ok(now) => {
                reached = now;
            },
        }
    }
    Ok(reached)
}

/// The way to a host.
#[derive(Debug, Clone, PartialEq, Eq)]
pub struct ResolvedSshPlan {
    pub target: ResolvedSshEndpoint,
    pub jumps: Vec<ResolvedSshEndpoint>,
    /// The file that the OpenSSH configuration starts with, where the host is known to one.
    pub config_path: Option<String>,
}

/// The file that the OpenSSH configuration of a host starts with; none where the host is not
/// known to one.
pub open spec fn plan_file(upstream: SshHostConfig, environment: Environment) -> Option<Seq<char>> {
    if upstream.ssh_config_host is None {
        None
    } else {
        Some(first_file(text_option(upstream.ssh_config_path), environment.home_place()))
    }
}

fn find_plan_file(upstream: &SshHostConfig, environment: &Environment) -> (r: Option<String>)
    ensures
        text_option(r) == plan_file(*upstream, *environment),
{
    if upstream.ssh_config_host.is_none() {
        return None;
    }
    let configured = match &upstream.ssh_config_path {
        Some(path) => Some(path.as_str()),
        None => None,
    };
    Some(first_config_file(configured, &environment.user_home()))
}

/// The first host after the first one that is reached by a command of its own.
pub open spec fn stray_command(jumps: Seq<Endpoint>, from: int) -> Option<Seq<char>>
    decreases jumps.len() - from,
{
    if from >= jumps.len() {
        None
    } else if jumps[from].proxy_command is Some {
        Some(jumps[from].alias)
    } else {
        stray_command(jumps, from + 1)
    }
}

/// The destination that a host of the configuration stands for.
pub open spec fn target_of(upstream: SshHostConfig) -> Option<Destination> {
    let alias = if upstream.ssh_config_host is Some {
        text_option(upstream.ssh_config_host)
    } else {
        text_option(upstream.host)
    };
    match alias {
        Some(alias) => Some(
            Destination {
                alias,
                username: text_option(upstream.username),
                port: upstream.port,
            },
        ),
        None => None,
    }
}

/// What is said of a host that is not known to the OpenSSH configuration, or what the answers
/// tell.
pub open spec fn settings_for(
    answers: Seq<Named<HostSettings>>,
    upstream: SshHostConfig,
    alias: Seq<char>,
) -> Option<Settings> {
    if upstream.ssh_config_host is None {
        Some(nothing_said())
    } else {
        match value_of(answers, alias) {
            Some(settings) => Some(settings.settings()),
            None => None,
        }
    }
}

/// The way to a host, by what the answers tell of it and of the hosts on the way.
pub open spec fn plan_for(
    answers: Seq<Named<HostSettings>>,
    upstream: SshHostConfig,
    pool: SshPoolConfig,
    environment: Environment,
) -> Result<(Endpoint, Seq<Endpoint>), NoPlan> {
    match target_of(upstream) {
        None => Err(NoPlan::Failed(seq!["SSH host has neither host nor ssh-config-host"@])),
        Some(destination) => match settings_for(answers, upstream, destination.alias) {
            None => Err(NoPlan::Asks(destination.alias)),
            Some(settings) => match endpoint_at(
                destination,
                settings,
                chosen_of(Some(upstream)),
                pool,
                environment,
            ) {
                Err(chain) => Err(NoPlan::Failed(chain)),
                Ok((target, jumps)) => if jumps.len() > 0 && target.proxy_command is Some {
                    Err(
                        NoPlan::Failed(
                            seq!["SSH host "@ + target.alias
                                + " configures both ProxyJump and ProxyCommand"@],
                        ),
                    )
                } else {
                    match after_jumps(
                        answers,
                        pool,
                        environment,
                        jumps,
                        0,
                        seq![target.alias],
                        Seq::empty(),
                    ) {
                        Err(stop) => Err(stop),
                        Ok(passed) => if passed.len() > MAX_PROXY_JUMPS {
                            Err(NoPlan::Failed(seq![too_long()]))
                        } else {
                            match stray_command(passed, 1) {
                                Some(alias) => Err(
                                    NoPlan::Failed(
                                        seq!["SSH ProxyCommand for jump host "@ + alias
                                            + " cannot run after another ProxyJump hop"@],
                                    ),
                                ),
                                None => Ok((target, passed)),
                            }
                        },
                    }
                },
            },
        },
    }
}

/// Whether `r` is what is expected of a plan.
pub open spec fn is_plan(
    r: Result<ResolvedSshPlan, PlanStop>,
    expected: Result<(Endpoint, Seq<Endpoint>), NoPlan>,
) -> bool {
    match r {
        Ok(plan) => expected == Ok::<_, NoPlan>(
            (plan.target.endpoint(), endpoints_of(plan.jumps@)),
        ),
        Err(stop) => expected == Err::<(Endpoint, Seq<Endpoint>), _>(stop.no_plan()),
    }
}

fn find_stray_command(jumps: &Vec<ResolvedSshEndpoint>) -> (r: Option<String>)
    ensures
        text_option(r) == stray_command(endpoints_of(jumps@), 1),
{
    let ghost all = endpoints_of(jumps@);
    assert(all.len() == jumps@.len());
    let mut i: usize = 1;
    while i < jumps.len()
        invariant
            all == endpoints_of(jumps@),
            all.len() == jumps@.len(),
            1 <= i,
            stray_command(all, 1) == stray_command(all, i as int),
        decreases jumps@.len() - i,
    {
        assert(all[i as int] == jumps@[i as int].endpoint());
        if jumps[i].proxy_command.is_some() {
            return Some(jumps[i].alias.clone());
        }
        i = i + 1;
    }
    None
}

fn read_target(upstream: &SshHostConfig) -> (r: Option<DestinationSpec>)
    ensures
        (match r {
            Some(destination) => target_of(*upstream) == Some(destination.destination()),
            None => target_of(*upstream) is None,
        }),
{
    let alias = match &upstream.ssh_config_host {
        Some(alias) => alias.clone(),
        None => match &upstream.host {
            Some(alias) => alias.clone(),
            None => {
                return None;
            },
        },
    };
    Some(
        DestinationSpec {
            alias,
            username: text::copy_text_option(&upstream.username),
            port: upstream.port,
        },
    )
}

/// The way to a host, by what the answers tell of it and of the hosts on the way.
pub fn resolve_ssh_plan(
    answers: &Vec<Named<HostSettings>>,
    upstream: &SshHostConfig,
    pool: &SshPoolConfig,
    environment: &Environment,
) -> (r: Result<ResolvedSshPlan, PlanStop>)
    ensures
        is_plan(r, plan_for(answers@, *upstream, *pool, *environment)),
        r matches Ok(plan) ==> text_option(plan.config_path) == plan_file(*upstream, *environment),
{
    let destination = match read_target(upstream) {
        Some(destination) => destination,
        None => {
            return Err(
                PlanStop::Failed(
                    SshConfigError::new(
                        "SSH host has neither host nor ssh-config-host".to_owned(),
                    ),
                ),
            );
        },
    };
    let nothing = HostSettings::none();
    let settings = if upstream.ssh_config_host.is_none() {
        &nothing
    } else {
        match find_answer(answers, destination.alias.as_str()) {
            Some(settings) => settings,
            None => {
                return Err(PlanStop::Asks(destination.alias));
            },
        }
    };
    let found = match resolve_destination(
        &destination,
        settings,
        Some(upstream),
        pool,
        environment,
    ) {
        Ok(found) => found,
        Err(error) => {
            return Err(PlanStop::Failed(error));
        },
    };
    assert(texts(found.proxy_jump@).len() == found.proxy_jump@.len());
    if found.proxy_jump.len() > 0 && found.endpoint.proxy_command.is_some() {
        return Err(
            PlanStop::Failed(
                SshConfigError::new(
                    concat3(
                        "SSH host ",
                        found.endpoint.alias.as_str(),
                        " configures both ProxyJump and ProxyCommand",
                    ),
                ),
            ),
        );
    }
    let mut stack: Vec<String> = Vec::new();
    stack.push(found.endpoint.alias.clone());
    assert(texts(stack@) =~= seq![found.endpoint.alias@]);
    let none: Vec<ResolvedSshEndpoint> = Vec::new();
    assert(endpoints_of(none@) =~= Seq::<Endpoint>::empty());
    let jumps = match resolve_jumps(
        answers,
        pool,
        environment,
        &found.proxy_jump,
        &stack,
        none,
    ) {
        Ok(jumps) => jumps,
        Err(stop) => {
            return Err(stop);
        },
    };
    assert(endpoints_of(jumps@).len() == jumps@.len());
    if jumps.len() > MAX_PROXY_JUMPS {
        return Err(PlanStop::Failed(too_long_error()));
    }
    match find_stray_command(&jumps) {
        Some(alias) => Err(
            PlanStop::Failed(
                SshConfigError::new(
                    concat3(
                        "SSH ProxyCommand for jump host ",
                        alias.as_str(),
                        " cannot run after another ProxyJump hop",
                    ),
                ),
            ),
        ),
        None => {
            let config_path = find_plan_file(upstream, environment);
            Ok(ResolvedSshPlan { target: found.endpoint, jumps, config_path })
        },
    }
}

/// A plan leads through no more hosts than are allowed, and only the first of them may be
/// reached by a command of its own.
pub proof fn plans_are_bounded(
    answers: Seq<Named<HostSettings>>,
    upstream: SshHostConfig,
    pool: SshPoolConfig,
    environment: Environment,
    i: int,
)
    requires
        plan_for(answers, upstream, pool, environment) is Ok,
        1 <= i < plan_for(answers, upstream, pool, environment)->Ok_0.1.len(),
    ensures
        plan_for(answers, upstream, pool, environment)->Ok_0.1.len() <= MAX_PROXY_JUMPS,
        plan_for(answers, upstream, pool, environment)->Ok_0.1[i].proxy_command is None,
{
    lemma_no_stray_command(plan_for(answers, upstream, pool, environment)->Ok_0.1, 1, i);
}

proof fn lemma_no_stray_command(jumps: Seq<Endpoint>, from: int, i: int)
    requires
        stray_command(jumps, from) is None,
        from <= i < jumps.len(),
    ensures
        jumps[i].proxy_command is None,
    decreases jumps.len() - from,
{
    if from < i {
        lemma_no_stray_command(jumps, from + 1, i);
    }
}

/// Whether there is no plan because a host has to be asked about.
pub open spec fn asks<T>(r: Result<T, NoPlan>) -> bool {
    r matches Err(NoPlan::Asks(_))
}

/// The answers are what `said` holds.
pub open spec fn follow(
    answers: Seq<Named<HostSettings>>,
    said: Map<Seq<char>, Settings>,
) -> bool {
    forall|i: int|
        0 <= i < answers.len() ==> (#[trigger] answers[i]).value.settings()
            == said[answers[i].name@]
}

proof fn lemma_jump_asks(
    answers: Seq<Named<HostSettings>>,
    pool: SshPoolConfig,
    environment: Environment,
    jump: Seq<char>,
    stack: Seq<Seq<char>>,
    passed: Seq<Endpoint>,
)
    ensures
        after_jump(answers, pool, environment, jump, stack, passed) matches Err(
            NoPlan::Asks(alias),
        ) ==> value_of(answers, alias) is None,
    decreases off_way(answers, stack), 1nat, 0nat,
{
    if lowercase(jump) != "none"@ && read_destination(jump) is Ok {
        let destination = read_destination(jump)->Ok_0;
        if !is_on_way(stack, destination.alias) && value_of(answers, destination.alias) is Some {
            lemma_on_way(answers, stack, destination.alias);
            let settings = value_of(answers, destination.alias)->0.settings();
            match endpoint_at(destination, settings, chosen_of(None), pool, environment) {
                Err(_) => {},
                Ok((endpoint, jumps)) => {
                    lemma_jumps_ask(
                        answers,
                        pool,
                        environment,
                        jumps,
                        0,
                        stack.push(destination.alias),
                        passed,
                    );
                },
            }
        }
    }
}

proof fn lemma_jumps_ask(
    answers: Seq<Named<HostSettings>>,
    pool: SshPoolConfig,
    environment: Environment,
    jumps: Seq<Seq<char>>,
    from: int,
    stack: Seq<Seq<char>>,
    passed: Seq<Endpoint>,
)
    ensures
        after_jumps(answers, pool, environment, jumps, from, stack, passed) matches Err(
            NoPlan::Asks(alias),
        ) ==> value_of(answers, alias) is None,
    decreases off_way(answers, stack), 2nat, jumps.len() - from,
{
    if from < jumps.len() {
        lemma_jump_asks(answers, pool, environment, jumps[from], stack, passed);
        match after_jump(answers, pool, environment, jumps[from], stack, passed) {
            Err(_) => {},
            Ok(now) => {
                lemma_jumps_ask(answers, pool, environment, jumps, from + 1, stack, now);
            },
        }
    }
}

/// A plan asks only about a host that there is no answer about yet.
pub proof fn asked_hosts_are_new(
    answers: Seq<Named<HostSettings>>,
    upstream: SshHostConfig,
    pool: SshPoolConfig,
    environment: Environment,
)
    ensures
        plan_for(answers, upstream, pool, environment) matches Err(NoPlan::Asks(alias))
            ==> value_of(answers, alias) is None,
{
    match target_of(upstream) {
        None => {},
        Some(destination) => match settings_for(answers, upstream, destination.alias) {
            None => {},
            Some(settings) => match endpoint_at(
                destination,
                settings,
                chosen_of(Some(upstream)),
                pool,
                environment,
            ) {
                Err(_) => {},
                Ok((target, jumps)) => {
                    lemma_jumps_ask(
                        answers,
                        pool,
                        environment,
                        jumps,
                        0,
                        seq![target.alias],
                        Seq::empty(),
                    );
                },
            },
        },
    }
}

proof fn lemma_same_answer(
    a: Seq<Named<HostSettings>>,
    said: Map<Seq<char>, Settings>,
    alias: Seq<char>,
)
    requires
        follow(a, said),
    ensures
        value_of(a, alias) matches Some(settings) ==> settings.settings() == said[alias],
{
    crate::named::lemma_name_index(a, alias);
}

proof fn lemma_same_jump(
    a: Seq<Named<HostSettings>>,
    b: Seq<Named<HostSettings>>,
    said: Map<Seq<char>, Settings>,
    pool: SshPoolConfig,
    environment: Environment,
    jump: Seq<char>,
    stack: Seq<Seq<char>>,
    passed: Seq<Endpoint>,
)
    requires
        follow(a, said),
        follow(b, said),
        !asks(after_jump(a, pool, environment, jump, stack, passed)),
        !asks(after_jump(b, pool, environment, jump, stack, passed)),
    ensures
        after_jump(a, pool, environment, jump, stack, passed) == after_jump(
            b,
            pool,
            environment,
            jump,
            stack,
            passed,
        ),
    decreases off_way(a, stack), 1nat, 0nat,
{
    if lowercase(jump) != "none"@ && read_destination(jump) is Ok {
        let destination = read_destination(jump)->Ok_0;
        if !is_on_way(stack, destination.alias) {
            lemma_on_way(a, stack, destination.alias);
            lemma_on_way(b, stack, destination.alias);
            lemma_same_answer(a, said, destination.alias);
            lemma_same_answer(b, said, destination.alias);
            let settings = said[destination.alias];
            match endpoint_at(destination, settings, chosen_of(None), pool, environment) {
                Err(_) => {},
                Ok((endpoint, jumps)) => {
                    if !(jumps.len() > 0 && endpoint.proxy_command is Some) {
                        lemma_same_jumps(
                            a,
                            b,
                            said,
                            pool,
                            environment,
                            jumps,
                            0,
                            stack.push(destination.alias),
                            passed,
                        );
                    }
                },
            }
        }
    }
}

proof fn lemma_same_jumps(
    a: Seq<Named<HostSettings>>,
    b: Seq<Named<HostSettings>>,
    said: Map<Seq<char>, Settings>,
    pool: SshPoolConfig,
    environment: Environment,
    jumps: Seq<Seq<char>>,
    from: int,
    stack: Seq<Seq<char>>,
    passed: Seq<Endpoint>,
)
    requires
        follow(a, said),
        follow(b, said),
        !asks(after_jumps(a, pool, environment, jumps, from, stack, passed)),
        !asks(after_jumps(b, pool, environment, jumps, from, stack, passed)),
    ensures
        after_jumps(a, pool, environment, jumps, from, stack, passed) == after_jumps(
            b,
            pool,
            environment,
            jumps,
            from,
            stack,
            passed,
        ),
    decreases off_way(a, stack), 2nat, jumps.len() - from,
{
    if from < jumps.len() {
        lemma_same_jump(a, b, said, pool, environment, jumps[from], stack, passed);
        match after_jump(a, pool, environment, jumps[from], stack, passed) {
            Err(_) => {},
            Ok(now) => {
                lemma_same_jumps(a, b, said, pool, environment, jumps, from + 1, stack, now);
            },
        }
    }
}

/// What comes of a plan, once no host is left to ask about, is settled by what the
/// configuration says: more answers, or answers in another order, change nothing.
pub proof fn plans_follow_the_configuration(
    a: Seq<Named<HostSettings>>,
    b: Seq<Named<HostSettings>>,
    said: Map<Seq<char>, Settings>,
    upstream: SshHostConfig,
    pool: SshPoolConfig,
    environment: Environment,
)
    requires
        follow(a, said),
        follow(b, said),
        !asks(plan_for(a, upstream, pool, environment)),
        !asks(plan_for(b, upstream, pool, environment)),
    ensures
        plan_for(a, upstream, pool, environment) == plan_for(b, upstream, pool, environment),
{
    match target_of(upstream) {
        None => {},
        Some(destination) => {
            lemma_same_answer(a, said, destination.alias);
            lemma_same_answer(b, said, destination.alias);
            match settings_for(a, upstream, destination.alias) {
                None => {},
                Some(settings) => match endpoint_at(
                    destination,
                    settings,
                    chosen_of(Some(upstream)),
                    pool,
                    environment,
                ) {
                    Err(_) => {},
                    Ok((target, jumps)) => {
                        if !(jumps.len() > 0 && target.proxy_command is Some) {
                            lemma_same_jumps(
                                a,
                                b,
                                said,
                                pool,
                                environment,
                                jumps,
                                0,
                                seq![target.alias],
                                Seq::empty(),
                            );
                        }
                    },
                },
            }
        },
    }
}

// ---------------------------------------------------------------------------
// Asking the OpenSSH configuration
// ---------------------------------------------------------------------------
/// The text that a host's configuration is read from; none where the host is not known to one,
/// or there is none.
pub open spec fn loaded_source(known: SshFiles, upstream: SshHostConfig, home: HomePath) -> Result<
    Option<Seq<char>>,
    Stop,
> {
    if upstream.ssh_config_host is None {
        Ok(None)
    } else {
        configured_source(known, home, text_option(upstream.ssh_config_path))
    }
}

/// Whether reading a text, which starts in the file `path`, may come out so: an empty text says
/// nothing, and one that means the same on every machine is read or refused by itself alone.
pub open spec fn reads(
    source: Seq<char>,
    path: Seq<char>,
    outcome: Result<Map<Seq<char>, Settings>, Seq<Seq<char>>>,
) -> bool {
    &&& source.len() == 0 ==> outcome is Ok && says_nothing(outcome->Ok_0)
    &&& match outcome {
        Ok(said) => rests_on_text(source) ==> config_of_text(source) == Ok::<_, Seq<char>>(said),
        Err(chain) => {
            &&& chain.len() == 2
            &&& chain[0] == "failed to parse SSH config "@ + path
            &&& rests_on_text(source) ==> config_of_text(source) == Err::<
                Map<Seq<char>, Settings>,
                _,
            >(chain[1])
        },
    }
}

/// A text that means the same on every machine is read always or never, and always says the
/// same, wherever it starts.
pub proof fn portable_texts_say_the_same(
    source: Seq<char>,
    first: Seq<char>,
    second: Seq<char>,
    a: Result<Map<Seq<char>, Settings>, Seq<Seq<char>>>,
    b: Result<Map<Seq<char>, Settings>, Seq<Seq<char>>>,
)
    requires
        rests_on_text(source),
        reads(source, first, a),
        reads(source, second, b),
    ensures
        a is Ok <==> b is Ok,
        a is Ok ==> a == b,
        a is Err ==> a->Err_0[1] == b->Err_0[1],
{
}

/// An OpenSSH configuration, and what it was asked so far.
pub struct SshPlanner {
    pub config: SshConfig,
    pub answers: Vec<Named<HostSettings>>,
}

impl SshPlanner {
    /// What the configuration says of hosts.
    pub open spec fn said(self) -> Map<Seq<char>, Settings> {
        said_of_hosts(self.config)
    }

    /// Every answer is what the configuration says.
    pub open spec fn wf(self) -> bool {
        follow(self.answers@, self.said())
    }

    /// What came of reading a configuration.
    pub open spec fn outcome(r: Result<SshPlanner, SshConfigError>) -> Result<
        Map<Seq<char>, Settings>,
        Seq<Seq<char>>,
    > {
        match r {
            Ok(planner) => Ok(planner.said()),
            Err(error) => Err(error.chain()),
        }
    }

    /// Reads a configuration that names no files; `path` is where it starts.
    pub fn new(source: &str, path: &str) -> (r: Result<SshPlanner, SshConfigError>)
        requires
            names_no_files(source@),
        ensures
            reads(source@, path@, SshPlanner::outcome(r)),
            r matches Ok(planner) ==> planner.wf() && planner.answers@.len() == 0,
    {
        match read_config(source) {
            Ok(config) => Ok(SshPlanner { config, answers: Vec::new() }),
            Err(reason) => Err(
                SshConfigError::caused(
                    concat2("failed to parse SSH config ", path),
                    reason.as_str(),
                ),
            ),
        }
    }

    /// Reads the configuration that a host is to be reached by. A host that no configuration
    /// knows has none, and the user's own need not be there.
    pub fn load(known: &SshFiles, upstream: &SshHostConfig, environment: &Environment) -> (r: Result<
        SshPlanner,
        SshStop,
    >)
        ensures
            (match loaded_source(*known, *upstream, environment.home_place()) {
                Err(stop) => r matches Err(found) && found.stop() == stop,
                Ok(None) => r matches Ok(planner) && says_nothing(planner.said()),
                Ok(Some(source)) => {
                    let path = first_file(
                        text_option(upstream.ssh_config_path),
                        environment.home_place(),
                    );
                    match r {
                        Ok(planner) => reads(source, path, Ok(planner.said())),
                        Err(stop) => stop.stop() matches Stop::Failed(chain) && reads(
                            source,
                            path,
                            Err(chain),
                        ),
                    }
                },
            }),
            r matches Ok(planner) ==> planner.wf() && planner.answers@.len() == 0,
    {
        let home = environment.user_home();
        let configured = match &upstream.ssh_config_path {
            Some(path) => Some(path.as_str()),
            None => None,
        };
        let source = if upstream.ssh_config_host.is_none() {
            None
        } else {
            match connection_ssh_config_source(known, &home, configured) {
                Ok(source) => source,
                Err(stop) => {
                    return Err(stop);
                },
            }
        };
        match source {
            None => Ok(SshPlanner { config: no_config(), answers: Vec::new() }),
            Some(source) => {
                proof {
                    sources_are_complete(*known, home@, section_of(configured), source@);
                }
                let path = first_config_file(configured, &home);
                match SshPlanner::new(source.as_str(), path.as_str()) {
                    Ok(planner) => Ok(planner),
                    Err(error) => Err(SshStop::Failed(error)),
                }
            },
        }
    }

    /// Asks the configuration about a host.
    pub fn ask(&mut self, alias: String)
        requires
            old(self).wf(),
        ensures
            final(self).wf(),
            final(self).said() == old(self).said(),
            final(self).answers@.len() == old(self).answers@.len() + 1,
            final(self).answers@.drop_last() == old(self).answers@,
            final(self).answers@.last().name@ == alias@,
            final(self).answers@.last().value.settings() == old(self).said()[alias@],
    {
        let settings = query_config(&self.config, alias.as_str());
        let ghost before = self.answers@;
        self.answers.push(Named { name: alias, value: settings });
        assert(self.answers@.drop_last() =~= before);
        assert(follow(self.answers@, self.said())) by {
            assert forall|i: int| 0 <= i < self.answers@.len() implies (
            #[trigger] self.answers@[i]).value.settings() == self.said()[self.answers@[i].name@] by {
                if i < before.len() {
                    assert(self.answers@[i] == before[i]);
                }
            }
        }
    }

    /// The way to a host: the configuration is asked about it and about the hosts on the way,
    /// about `most` hosts at most.
    pub fn plan(
        &mut self,
        upstream: &SshHostConfig,
        pool: &SshPoolConfig,
        environment: &Environment,
        most: usize,
    ) -> (r: Result<ResolvedSshPlan, PlanStop>)
        requires
            old(self).wf(),
        ensures
            final(self).wf(),
            final(self).said() == old(self).said(),
            old(self).answers@.len() <= final(self).answers@.len() <= old(self).answers@.len()
                + most,
            final(self).answers@.take(old(self).answers@.len() as int) == old(self).answers@,
            is_plan(r, plan_for(final(self).answers@, *upstream, *pool, *environment)),
            r matches Ok(plan) ==> text_option(plan.config_path) == plan_file(
                *upstream,
                *environment,
            ),
            r matches Err(PlanStop::Asks(_)) ==> final(self).answers@.len()
                == old(self).answers@.len() + most,
    {
        let ghost before = self.answers@;
        let mut left: usize = most;
        assert(self.answers@.take(before.len() as int) =~= before);
        loop
            invariant
                before == old(self).answers@,
                self.wf(),
                self.said() == old(self).said(),
                left <= most,
                self.answers@.len() == before.len() + most - left,
                self.answers@.take(before.len() as int) == before,
            decreases left,
        {
            match resolve_ssh_plan(&self.answers, upstream, pool, environment) {
                Ok(plan) => {
                    return Ok(plan);
                },
                Err(PlanStop::Failed(error)) => {
                    return Err(PlanStop::Failed(error));
                },
                Err(PlanStop::Asks(alias)) => {
                    if left == 0 {
                        return Err(PlanStop::Asks(alias));
                    }
                    left = left - 1;
                    let ghost known = self.answers@;
                    self.ask(alias);
                    assert(self.answers@.take(before.len() as int) =~= known.take(
                        before.len() as int,
                    ));
                },
            }
        }
    }
}

} // verus!
