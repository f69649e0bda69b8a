//! The way to an SSH host: the transports of its hops, the check of the keys of the hosts, and
//! the ways in which a user proves who they are.
use crate::config::SshAuthConfig;
use crate::environment::{either, Environment, Platform};
use crate::paths;
use crate::paths::joined_path;
use crate::ssh_plan::{ResolvedHostKeyPolicy, ResolvedSshAuth, ResolvedSshEndpoint,
    ResolvedSshPlan};
use crate::ssh_syntax;
use crate::ssh_syntax::{tokens_expanded, tokens_stand_for_their_values, TokenValues, Tokens};
use crate::text;
use crate::text::{concat2, concat3, concat4, copy_text_option, decimal, decimal_text, text_option,
    texts, without_prefix};
use vstd::prelude::*;

verus! {

// ---------------------------------------------------------------------------
// Transports
// ---------------------------------------------------------------------------
/// What stands for the tokens in the values of an endpoint.
pub open spec fn endpoint_tokens(
    endpoint: ResolvedSshEndpoint,
    environment: Environment,
) -> Tokens {
    Tokens {
        home: environment.home_place(),
        host: endpoint.host@,
        local_host: environment.host_name(),
        alias: endpoint.alias@,
        port: endpoint.port,
        username: endpoint.username@,
        local_user: match environment.user_name() {
            Some(name) => name,
            None => Seq::empty(),
        },
    }
}

/// The command that reaches an endpoint, with its tokens replaced.
pub fn expand_proxy_command(
    command: &str,
    endpoint: &ResolvedSshEndpoint,
    environment: &Environment,
) -> (r: String)
    ensures
        r@ == tokens_expanded(endpoint_tokens(*endpoint, *environment), command@),
{
    let local_user = match environment.local_username() {
        Some(name) => name.to_owned(),
        None => String::new(),
    };
    let values = TokenValues {
        home: environment.user_home(),
        host: endpoint.host.as_str().to_owned(),
        local_host: environment.local_host(),
        alias: endpoint.alias.as_str().to_owned(),
        port: endpoint.port,
        username: endpoint.username.as_str().to_owned(),
        local_user,
    };
    ssh_syntax::expand_percent_tokens(command, &values)
}

/// A program to run, with its arguments.
#[derive(Debug)]
pub struct ProxyCommandLine {
    pub program: &'static str,
    pub flag: &'static str,
    pub command: String,
}

/// How the shell of a platform runs a command.
pub fn proxy_command_process(platform: Platform, command: &str) -> (r: ProxyCommandLine)
    ensures
        r.command@ == command@,
        (r.program@, r.flag@) == (if platform == Platform::Windows {
            ("cmd"@, "/C"@)
        } else {
            ("/bin/sh"@, "-c"@)
        }),
{
    if platform == Platform::Windows {
        ProxyCommandLine { program: "cmd", flag: "/C", command: command.to_owned() }
    } else {
        ProxyCommandLine { program: "/bin/sh", flag: "-c", command: command.to_owned() }
    }
}

/// What carries the connection to a hop.
#[derive(Debug)]
pub enum HopTransport {
    /// A command of its own.
    Command(String),
    /// A connection from this machine.
    Tcp,
    /// A channel of the hop before.
    Jump,
}

/// The hop at `place`: those on the way, then the target.
pub open spec fn hop_at(plan: ResolvedSshPlan, place: int) -> ResolvedSshEndpoint {
    if 0 <= place < plan.jumps@.len() {
        plan.jumps@[place]
    } else {
        plan.target
    }
}

/// The hop at `place`: those on the way, then the target.
pub fn hop<'a>(plan: &'a ResolvedSshPlan, place: usize) -> (r: &'a ResolvedSshEndpoint)
    ensures
        *r == hop_at(*plan, place as int),
{
    if place < plan.jumps.len() {
        &plan.jumps[place]
    } else {
        &plan.target
    }
}

/// What carries the connection to the hop at `place`. A command can reach the first hop only.
pub fn hop_transport(plan: &ResolvedSshPlan, place: usize, environment: &Environment) -> (r: Result<
    HopTransport,
    String,
>)
    ensures
        ({
            let endpoint = hop_at(*plan, place as int);
            match (r, text_option(endpoint.proxy_command)) {
                (Ok(HopTransport::Command(command)), Some(given)) => place == 0 && command@
                    == tokens_expanded(endpoint_tokens(endpoint, *environment), given),
                (Ok(HopTransport::Tcp), None) => place == 0,
                (Ok(HopTransport::Jump), None) => place > 0,
                (Err(error), Some(_)) => place > 0 && error@ == "SSH ProxyCommand for host "@
                    + endpoint.alias@ + " cannot replace an active ProxyJump transport"@,
                _ => false,
            }
        }),
{
    let endpoint = hop(plan, place);
    match &endpoint.proxy_command {
        Some(command) => if place == 0 {
            Ok(
                HopTransport::Command(
                    expand_proxy_command(command.as_str(), endpoint, environment),
                ),
            )
        } else {
            Err(
                concat3(
                    "SSH ProxyCommand for host ",
                    endpoint.alias.as_str(),
                    " cannot replace an active ProxyJump transport",
                ),
            )
        },
        None => if place == 0 {
            Ok(HopTransport::Tcp)
        } else {
            Ok(HopTransport::Jump)
        },
    }
}

/// What took too long on the way to an endpoint.
#[derive(Debug, Clone, Copy, PartialEq, Eq, Structural)]
pub enum SlowStep {
    Tcp,
    Jump,
    Negotiation,
    Authentication,
}

/// A host and port as they are, without brackets.
pub open spec fn plain_address(endpoint: ResolvedSshEndpoint) -> Seq<char> {
    endpoint.host@ + ":"@ + decimal(endpoint.port as nat)
}

/// What is said of a step that took too long.
pub open spec fn slow_step_text(step: SlowStep, endpoint: ResolvedSshEndpoint) -> Seq<char> {
    match step {
        SlowStep::Tcp => "timed out opening TCP transport for SSH host "@ + endpoint.alias@
            + " at "@ + plain_address(endpoint),
        SlowStep::Jump => "timed out opening ProxyJump channel to "@ + plain_address(endpoint),
        SlowStep::Negotiation => "timed out negotiating SSH host "@ + endpoint.alias@ + " at "@
            + plain_address(endpoint),
        SlowStep::Authentication => "timed out authenticating SSH host "@ + endpoint.alias@,
    }
}

/// Says that a step took too long.
pub fn timeout_text(step: SlowStep, endpoint: &ResolvedSshEndpoint) -> (r: String)
    ensures
        r@ == slow_step_text(step, *endpoint),
{
    let number = decimal_text(endpoint.port as u64);
    let place = concat3(endpoint.host.as_str(), ":", number.as_str());
    match step {
        SlowStep::Tcp => concat4(
            "timed out opening TCP transport for SSH host ",
            endpoint.alias.as_str(),
            " at ",
            place.as_str(),
        ),
        SlowStep::Jump => concat2("timed out opening ProxyJump channel to ", place.as_str()),
        SlowStep::Negotiation => concat4(
            "timed out negotiating SSH host ",
            endpoint.alias.as_str(),
            " at ",
            place.as_str(),
        ),
        SlowStep::Authentication => {
            concat2("timed out authenticating SSH host ", endpoint.alias.as_str())
        },
    }
}

// ---------------------------------------------------------------------------
// Host keys
// ---------------------------------------------------------------------------
/// What to do next about the key of a host.
#[derive(Debug)]
pub enum HostKeyStep<'a> {
    /// Look for it in the file of known hosts at this place.
    Look(usize),
    /// Trust it.
    Accept,
    /// Write it to this file and trust it.
    Learn(&'a str),
    /// Do not trust it.
    Refuse,
    /// It cannot be written anywhere.
    Fail(&'static str),
}

/// What to do about the key of a host after `looked` files were looked into; `found` says
/// whether the last of them has it.
pub fn host_key_step<'a>(
    policy: ResolvedHostKeyPolicy,
    known_hosts_paths: &'a Vec<String>,
    looked: usize,
    found: bool,
) -> (r: HostKeyStep<'a>)
    ensures
        ({
            let paths = known_hosts_paths@;
            if policy == ResolvedHostKeyPolicy::InsecureAcceptAny || found {
                r is Accept
            } else if looked < paths.len() {
                r matches HostKeyStep::Look(place) && place == looked
            } else if policy != ResolvedHostKeyPolicy::AcceptNew {
                r is Refuse
            } else if paths.len() > 0 {
                r matches HostKeyStep::Learn(path) && path@ == paths[0]@
            } else {
                r matches HostKeyStep::Fail(error) && error@
                    == "SSH accept-new requires a known_hosts path"@
            }
        }),
{
    if policy == ResolvedHostKeyPolicy::InsecureAcceptAny || found {
        HostKeyStep::Accept
    } else if looked < known_hosts_paths.len() {
        HostKeyStep::Look(looked)
    } else if policy != ResolvedHostKeyPolicy::AcceptNew {
        HostKeyStep::Refuse
    } else if known_hosts_paths.len() > 0 {
        HostKeyStep::Learn(known_hosts_paths[0].as_str())
    } else {
        HostKeyStep::Fail("SSH accept-new requires a known_hosts path")
    }
}

// ---------------------------------------------------------------------------
// Authentication
// ---------------------------------------------------------------------------
/// One step towards proving who a user is.
#[derive(Debug)]
pub enum AuthAttempt {
    /// Ask the host which hash it takes with RSA keys.
    AskHash,
    /// With the keys of an agent.
    Agent,
    /// With a key that was chosen, its passphrase in an environment variable.
    ChosenKey { path: String, passphrase_env: Option<String> },
    /// With a key that was found.
    FoundKey { path: String },
    /// With a password in an environment variable.
    Password { password_env: String },
}

/// One step towards proving who a user is, with texts for strings.
pub ghost enum Attempt {
    AskHash,
    Agent,
    ChosenKey { path: Seq<char>, passphrase_env: Option<Seq<char>> },
    FoundKey { path: Seq<char> },
    Password { password_env: Seq<char> },
}

impl AuthAttempt {
    /// The attempt, with texts for strings.
    pub open spec fn attempt(self) -> Attempt {
        match self {
            AuthAttempt::AskHash => Attempt::AskHash,
            AuthAttempt::Agent => Attempt::Agent,
            AuthAttempt::ChosenKey { path, passphrase_env } => Attempt::ChosenKey {
                path: path@,
                passphrase_env: text_option(passphrase_env),
            },
            AuthAttempt::FoundKey { path } => Attempt::FoundKey { path: path@ },
            AuthAttempt::Password { password_env } => Attempt::Password {
                password_env: password_env@,
            },
        }
    }
}

/// The attempts of a list, with texts for strings.
pub open spec fn attempts_of(list: Seq<AuthAttempt>) -> Seq<Attempt> {
    list.map_values(|a: AuthAttempt| a.attempt())
}

/// The path of a key that was chosen, with the home directory for a tilde where it is known.
pub open spec fn key_path(path: Seq<char>, environment: Environment) -> Seq<char> {
    match either(environment.home, environment.user_profile) {
        Some(home) => if path == "~"@ {
            joined_path(environment.platform.path_style(), home, ""@)
        } else if without_prefix(path, "~/"@) is Some {
            joined_path(
                environment.platform.path_style(),
                home,
                without_prefix(path, "~/"@)->0,
            )
        } else if without_prefix(path, "~\\"@) is Some {
            joined_path(
                environment.platform.path_style(),
                home,
                without_prefix(path, "~\\"@)->0,
            )
        } else {
            path
        },
        None => path,
    }
}

/// The path of a key that was chosen, with the home directory for a tilde where it is known.
pub fn expand_key_path(path: &str, environment: &Environment) -> (r: String)
    ensures
        r@ == key_path(path@, *environment),
{
    if environment.home.is_none() && environment.user_profile.is_none() {
        return path.to_owned();
    }
    let home = environment.home_directory();
    let style = environment.platform.path_style();
    if text::same_text(path, "~") {
        return paths::join_path(style, home, "");
    }
    match text::strip_prefix(path, "~/") {
        Some(suffix) => return paths::join_path(style, home, suffix),
        None => {},
    }
    match text::strip_prefix(path, "~\\") {
        Some(suffix) => paths::join_path(style, home, suffix),
        None => path.to_owned(),
    }
}

/// The steps to try, in order: the way that was chosen; else, once the host was asked for its
/// hash, every key that was found, then the agent where it is to be used.
pub open spec fn attempts_for(auth: ResolvedSshAuth, environment: Environment) -> Seq<Attempt> {
    match auth.explicit {
        Some(SshAuthConfig::Agent) => seq![Attempt::Agent],
        Some(SshAuthConfig::PrivateKey { path, passphrase_env }) => seq![
            Attempt::ChosenKey {
                path: key_path(path@, environment),
                passphrase_env: text_option(passphrase_env),
            },
        ],
        Some(SshAuthConfig::Password { password_env }) => seq![
            Attempt::Password { password_env: password_env@ },
        ],
        None => {
            let keys = seq![Attempt::AskHash] + texts(auth.identity_files@).map_values(
                |path: Seq<char>| Attempt::FoundKey { path },
            );
            if auth.use_agent {
                keys.push(Attempt::Agent)
            } else {
                keys
            }
        },
    }
}

/// The steps to try, in order.
pub fn auth_attempts(auth: &ResolvedSshAuth, environment: &Environment) -> (r: Vec<AuthAttempt>)
    ensures
        attempts_of(r@) == attempts_for(*auth, *environment),
{
    let mut r: Vec<AuthAttempt> = Vec::new();
    match &auth.explicit {
        Some(SshAuthConfig::Agent) => {
            r.push(AuthAttempt::Agent);
        },
        Some(SshAuthConfig::PrivateKey { path, passphrase_env }) => {
            r.push(
                AuthAttempt::ChosenKey {
                    path: expand_key_path(path.as_str(), environment),
                    passphrase_env: copy_text_option(passphrase_env),
                },
            );
        },
        Some(SshAuthConfig::Password { password_env }) => {
            r.push(AuthAttempt::Password { password_env: password_env.as_str().to_owned() });
        },
        None => {
            let ghost all = texts(auth.identity_files@);
            r.push(AuthAttempt::AskHash);
            assert(attempts_of(r@) =~= seq![Attempt::AskHash] + all.take(0).map_values(
                |path: Seq<char>| Attempt::FoundKey { path },
            ));
            for i in 0..auth.identity_files.len()
                invariant
                    all == texts(auth.identity_files@),
                    attempts_of(r@) == seq![Attempt::AskHash] + all.take(i as int).map_values(
                        |path: Seq<char>| Attempt::FoundKey { path },
                    ),
            {
                let ghost before = r@;
                r.push(AuthAttempt::FoundKey { path: auth.identity_files[i].as_str().to_owned() });
                assert(attempts_of(r@) =~= attempts_of(before).push(
                    Attempt::FoundKey { path: all[i as int] },
                ));
                assert(all.take(i + 1) == all.take(i as int).push(all[i as int]));
                assert(attempts_of(r@) =~= seq![Attempt::AskHash] + all.take(i + 1).map_values(
                    |path: Seq<char>| Attempt::FoundKey { path },
                ));
            }
            assert(all.take(all.len() as int) == all);
            if auth.use_agent {
                r.push(AuthAttempt::Agent);
            }
        },
    }
    assert(attempts_of(r@) =~= attempts_for(*auth, *environment));
    r
}

/// What came of an attempt.
#[derive(Debug)]
pub enum AuthOutcome {
    /// The host answered what it was asked.
    Answered,
    /// The host believes it.
    Accepted,
    /// The host does not believe it.
    Rejected,
    /// It could not be made.
    Failed(String),
}

/// What to do after an attempt.
#[derive(Debug)]
pub enum AuthStep {
    /// Nothing: the host believes it.
    Done,
    /// Make the attempt at this place.
    Try(usize),
    /// Give up.
    Fail(String),
}

/// What to do next, with texts for strings.
pub ghost enum AuthNext {
    Done,
    Try(int),
    Fail(Seq<char>),
}

impl AuthStep {
    /// The step, with texts for strings.
    pub open spec fn step(self) -> AuthNext {
        match self {
            AuthStep::Done => AuthNext::Done,
            AuthStep::Try(place) => AuthNext::Try(place as int),
            AuthStep::Fail(error) => AuthNext::Fail(error@),
        }
    }
}

/// The attempt at `place`, where there is one; else the user is not believed.
pub open spec fn attempt_or_give_up(count: int, place: int, alias: Seq<char>) -> AuthNext {
    if place < count {
        AuthNext::Try(place)
    } else {
        AuthNext::Fail("SSH authentication failed for host "@ + alias)
    }
}

/// What to do after the attempt at `place`. A key that was found may fail; the other ways may
/// not.
pub open spec fn next_attempt(
    attempts: Seq<Attempt>,
    place: int,
    outcome: AuthOutcome,
    alias: Seq<char>,
) -> AuthNext {
    match outcome {
        AuthOutcome::Accepted => AuthNext::Done,
        AuthOutcome::Failed(error) if !(attempts[place] is FoundKey) => AuthNext::Fail(error@),
        _ => attempt_or_give_up(attempts.len() as int, place + 1, alias),
    }
}

/// The first attempt.
pub fn first_auth_step(attempts: &Vec<AuthAttempt>, alias: &str) -> (r: AuthStep)
    ensures
        r.step() == attempt_or_give_up(attempts@.len() as int, 0, alias@),
{
    if attempts.len() > 0 {
        AuthStep::Try(0)
    } else {
        AuthStep::Fail(concat2("SSH authentication failed for host ", alias))
    }
}

/// What to do after the attempt at `place`.
pub fn auth_step(
    attempts: &Vec<AuthAttempt>,
    place: usize,
    outcome: &AuthOutcome,
    alias: &str,
) -> (r: AuthStep)
    requires
        place < attempts@.len(),
    ensures
        r.step() == next_attempt(attempts_of(attempts@), place as int, *outcome, alias@),
{
    match outcome {
        AuthOutcome::Accepted => return AuthStep::Done,
        AuthOutcome::Failed(error) => match &attempts[place] {
            AuthAttempt::FoundKey { .. } => {},
            _ => return AuthStep::Fail(error.as_str().to_owned()),
        },
        AuthOutcome::Answered | AuthOutcome::Rejected => {},
    }
    if place < attempts.len() - 1 {
        AuthStep::Try(place + 1)
    } else {
        AuthStep::Fail(concat2("SSH authentication failed for host ", alias))
    }
}

/// What to do with the keys of an agent.
#[derive(Debug, Clone, Copy, PartialEq, Eq, Structural)]
pub enum AgentStep {
    /// Offer the key at this place.
    Offer(usize),
    /// Nothing: the host believes the last one.
    Accepted,
    /// Nothing: the host believes none of them.
    Rejected,
}

/// What to do after `offered` of the `count` keys of an agent were offered; `accepted` says
/// whether the host believes the last of them.
pub fn agent_step(count: usize, offered: usize, accepted: bool) -> AgentStep
    returns
        (if accepted {
            AgentStep::Accepted
        } else if offered < count {
            AgentStep::Offer(offered)
        } else {
            AgentStep::Rejected
        }),
{
    if accepted {
        AgentStep::Accepted
    } else if offered < count {
        AgentStep::Offer(offered)
    } else {
        AgentStep::Rejected
    }
}

/// What is said of an environment variable that is not set.
pub fn missing_environment_text(name: &str) -> (r: String)
    ensures
        r@ == "missing environment "@ + name@,
{
    concat2("missing environment ", name)
}

/// What is said of an agent that does not answer.
pub fn agent_failure_text(alias: &str) -> (r: String)
    ensures
        r@ == "failed to connect to SSH agent for host "@ + alias@,
{
    concat2("failed to connect to SSH agent for host ", alias)
}

/// Every step either ends the authentication or moves on to the attempt behind.
pub proof fn authentication_moves_on(
    attempts: Seq<Attempt>,
    place: int,
    outcome: AuthOutcome,
    alias: Seq<char>,
)
    requires
        0 <= place < attempts.len(),
    ensures
        next_attempt(attempts, place, outcome, alias) matches AuthNext::Try(next) ==> next
            == place + 1 && next < attempts.len() && !(outcome is Accepted),
{
}

/// Without a hash no key is offered: where the host cannot be asked for it, the authentication
/// ends with what went wrong.
pub proof fn keys_need_the_hash(
    auth: ResolvedSshAuth,
    environment: Environment,
    error: String,
    alias: Seq<char>,
)
    requires
        auth.explicit is None,
    ensures
        attempt_or_give_up(attempts_for(auth, environment).len() as int, 0, alias)
            == AuthNext::Try(0),
        attempts_for(auth, environment)[0] is AskHash,
        next_attempt(attempts_for(auth, environment), 0, AuthOutcome::Failed(error), alias)
            == AuthNext::Fail(error@),
{
}

// ---------------------------------------------------------------------------
// Laws of connections
// ---------------------------------------------------------------------------
/// A key that no file of known hosts has is trusted only where any key is; it is written down
/// and trusted only where new keys are, in the first of the files; in every other case it is
/// refused once all files were looked into, and not before.
pub proof fn unknown_keys_are_not_trusted<'a>(
    policy: ResolvedHostKeyPolicy,
    paths: &'a Vec<String>,
    looked: usize,
    step: HostKeyStep<'a>,
)
    requires
        call_ensures(host_key_step, (policy, paths, looked, false), step),
    ensures
        step is Accept <==> policy == ResolvedHostKeyPolicy::InsecureAcceptAny,
        step is Learn ==> policy == ResolvedHostKeyPolicy::AcceptNew && looked >= paths@.len(),
        step is Refuse <==> policy == ResolvedHostKeyPolicy::KnownHosts && looked >= paths@.len(),
        policy != ResolvedHostKeyPolicy::InsecureAcceptAny && looked < paths@.len() ==> (step
            matches HostKeyStep::Look(place) && place == looked),
{
}

/// A key that a file of known hosts has is trusted, whatever the policy, and looked for no
/// further.
pub proof fn known_keys_are_trusted<'a>(
    policy: ResolvedHostKeyPolicy,
    paths: &'a Vec<String>,
    looked: usize,
    step: HostKeyStep<'a>,
)
    requires
        call_ensures(host_key_step, (policy, paths, looked, true), step),
    ensures
        step is Accept,
{
}

/// A new key is learned into the first of the files of known hosts; without a file it cannot be
/// learned, and that is an error.
pub proof fn new_keys_are_learned<'a>(
    paths: &'a Vec<String>,
    looked: usize,
    step: HostKeyStep<'a>,
)
    requires
        looked >= paths@.len(),
        call_ensures(
            host_key_step,
            (ResolvedHostKeyPolicy::AcceptNew, paths, looked, false),
            step,
        ),
    ensures
        paths@.len() > 0 ==> (step matches HostKeyStep::Learn(path) && path@ == paths@[0]@),
        paths@.len() == 0 ==> step is Fail,
{
}

/// The hops of a plan are its jumps in their order, and then its target.
pub proof fn hops_come_in_order(plan: ResolvedSshPlan, place: int)
    requires
        0 <= place <= plan.jumps@.len(),
    ensures
        place < plan.jumps@.len() ==> hop_at(plan, place) == plan.jumps@[place],
        place == plan.jumps@.len() ==> hop_at(plan, place) == plan.target,
{
}

/// The first hop is reached from this machine, by its command where it has one; every other hop
/// through the hop before, and a command there is an error.
pub proof fn commands_reach_the_first_hop(
    plan: ResolvedSshPlan,
    place: usize,
    environment: Environment,
    transport: Result<HopTransport, String>,
)
    requires
        call_ensures(hop_transport, (&plan, place, &environment), transport),
    ensures
        place == 0 ==> transport is Ok && !(transport->Ok_0 is Jump),
        place == 0 && plan.jumps@.len() > 0 ==> (transport->Ok_0 is Command
            <==> plan.jumps@[0].proxy_command is Some),
        place == 0 && plan.jumps@.len() == 0 ==> (transport->Ok_0 is Command
            <==> plan.target.proxy_command is Some),
        0 < place < plan.jumps@.len() ==> (transport is Err
            <==> plan.jumps@[place as int].proxy_command is Some),
        place > 0 && place == plan.jumps@.len() ==> (transport is Err
            <==> plan.target.proxy_command is Some),
        place > 0 && transport is Ok ==> transport->Ok_0 is Jump,
{
}

/// In the command of a hop the tokens stand for the host, the name, the port and the user of
/// that hop, and for the user, the machine and the home directory here.
pub proof fn commands_know_their_hop(
    endpoint: ResolvedSshEndpoint,
    environment: Environment,
    rest: Seq<char>,
)
    ensures
        ({
            let tokens = endpoint_tokens(endpoint, environment);
            let behind = tokens_expanded(tokens, rest);
            &&& tokens_expanded(tokens, seq!['%', 'h'] + rest) == endpoint.host@ + behind
            &&& tokens_expanded(tokens, seq!['%', 'n'] + rest) == endpoint.alias@ + behind
            &&& tokens_expanded(tokens, seq!['%', 'p'] + rest) == decimal(endpoint.port as nat)
                + behind
            &&& tokens_expanded(tokens, seq!['%', 'r'] + rest) == endpoint.username@ + behind
            &&& environment.user is Some && environment.user->0@.len() > 0 ==> tokens_expanded(
                tokens,
                seq!['%', 'u'] + rest,
            ) == environment.user->0@ + behind
            &&& environment.hostname is Some ==> tokens_expanded(tokens, seq!['%', 'l'] + rest)
                == environment.hostname->0@ + behind
            &&& environment.home is Some ==> tokens_expanded(tokens, seq!['%', 'd'] + rest)
                == environment.home->0@ + behind
            &&& tokens_expanded(tokens, seq!['%', '%'] + rest) == seq!['%'] + behind
        }),
{
    tokens_stand_for_their_values(
        endpoint_tokens(endpoint, environment),
        Seq::empty(),
        rest,
        'x',
    );
}

/// A command is run by the shell of the platform, and as it stands.
pub proof fn shells_run_commands(platform: Platform, command: &str, line: ProxyCommandLine)
    requires
        call_ensures(proxy_command_process, (platform, command), line),
    ensures
        line.command@ == command@,
        platform == Platform::Windows ==> line.program@ == "cmd"@ && line.flag@ == "/C"@,
        platform != Platform::Windows ==> line.program@ == "/bin/sh"@ && line.flag@ == "-c"@,
{
}

/// Where a way to prove who the user is was chosen, that way and no other is tried.
pub proof fn chosen_ways_are_the_only_ones(auth: ResolvedSshAuth, environment: Environment)
    requires
        auth.explicit is Some,
    ensures
        ({
            let attempts = attempts_for(auth, environment);
            &&& attempts.len() == 1
            &&& match auth.explicit->0 {
                SshAuthConfig::Agent => attempts[0] is Agent,
                SshAuthConfig::Password { password_env } => attempts[0] == Attempt::Password {
                    password_env: password_env@,
                },
                SshAuthConfig::PrivateKey { path, passphrase_env } => attempts[0]
                    == Attempt::ChosenKey {
                    path: key_path(path@, environment),
                    passphrase_env: match passphrase_env {
                        Some(name) => Some(name@),
                        None => None,
                    },
                },
            }
        }),
{
}

/// Where no way was chosen, the keys that were found are tried one after the other and as they
/// are named, once the host was asked for its hash; the agent comes last, where it is used.
pub proof fn found_keys_are_tried_in_order(auth: ResolvedSshAuth, environment: Environment)
    requires
        auth.explicit is None,
    ensures
        ({
            let attempts = attempts_for(auth, environment);
            let files = auth.identity_files@;
            &&& attempts[0] is AskHash
            &&& forall|i: int|
                0 <= i < files.len() ==> attempts[i + 1] == (Attempt::FoundKey {
                    path: (#[trigger] files[i])@,
                })
            &&& auth.use_agent ==> attempts.len() == files.len() + 2 && attempts.last() is Agent
            &&& !auth.use_agent ==> attempts.len() == files.len() + 1
        }),
{
}

/// A chosen key below a tilde is looked for in the home directory, and every other one where it
/// is said to be; so is each where no home directory is known.
pub proof fn chosen_keys_are_below_home(
    environment: Environment,
    rest: Seq<char>,
    path: Seq<char>,
)
    requires
        path.len() == 0 || path[0] != '~' || (path.len() > 1 && path[1] != '/' && path[1] != '\\'),
    ensures
        key_path(path, environment) == path,
        environment.home is None && environment.user_profile is None ==> key_path(
            seq!['~', '/'] + rest,
            environment,
        ) == seq!['~', '/'] + rest,
        environment.home is Some ==> key_path(seq!['~', '/'] + rest, environment) == joined_path(
            environment.platform.path_style(),
            environment.home->0@,
            rest,
        ),
        environment.home is None && environment.user_profile is Some ==> key_path(
            seq!['~', '/'] + rest,
            environment,
        ) == joined_path(
            environment.platform.path_style(),
            environment.user_profile->0@,
            rest,
        ),
        environment.home is Some ==> key_path(seq!['~', '\\'] + rest, environment) == joined_path(
            environment.platform.path_style(),
            environment.home->0@,
            rest,
        ),
{
    reveal_strlit("~");
    reveal_strlit("~/");
    reveal_strlit("~\\");
    assert("~"@ =~= seq!['~']);
    assert("~/"@ =~= seq!['~', '/']);
    assert("~\\"@ =~= seq!['~', '\\']);
    let slashed = seq!['~', '/'] + rest;
    let backslashed = seq!['~', '\\'] + rest;
    assert(slashed.take(2) =~= "~/"@);
    assert(slashed.skip(2) =~= rest);
    assert(slashed.len() >= 2 && "~"@.len() == 1);
    assert(backslashed.take(2) =~= "~\\"@);
    assert(backslashed.skip(2) =~= rest);
    assert(backslashed.take(2)[1] == '\\' && "~/"@[1] == '/');
    if path.len() >= 2 {
        assert(path.take(2)[0] == path[0] && path.take(2)[1] == path[1]);
    }
}

/// The user is believed once one attempt is accepted, and only then. An attempt that is not
/// accepted is followed by the next one; the last one ends the authentication with the name of
/// the host. A key that was found may be broken; what was chosen, the agent and the question
/// for the hash may not: their error ends the authentication.
pub proof fn one_accepted_attempt_is_enough(
    attempts: Seq<Attempt>,
    place: int,
    outcome: AuthOutcome,
    alias: Seq<char>,
)
    requires
        0 <= place < attempts.len(),
    ensures
        ({
            let next = next_attempt(attempts, place, outcome, alias);
            let is_passed_over = outcome is Answered || outcome is Rejected || (outcome is Failed
                && attempts[place] is FoundKey);
            &&& next is Done <==> outcome is Accepted
            &&& next is Try <==> is_passed_over && place + 1 < attempts.len()
            &&& next is Try ==> next->Try_0 == place + 1
            &&& is_passed_over && place + 1 == attempts.len() ==> next == AuthNext::Fail(
                "SSH authentication failed for host "@ + alias,
            )
            &&& outcome is Failed && !(attempts[place] is FoundKey) ==> next == AuthNext::Fail(
                outcome->Failed_0@,
            )
        }),
{
}

/// The keys of an agent are offered one after the other until the host believes one; it is told
/// that none was believed only after all were offered.
pub proof fn agent_keys_are_offered_in_turn(
    count: usize,
    offered: usize,
    accepted: bool,
    step: AgentStep,
)
    requires
        call_ensures(agent_step, (count, offered, accepted), step),
    ensures
        step == AgentStep::Accepted <==> accepted,
        step == AgentStep::Rejected <==> !accepted && offered >= count,
        !accepted && offered < count ==> step == AgentStep::Offer(offered),
{
}

} // verus!
