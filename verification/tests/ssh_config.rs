use stk::address::{parse_socket, SocketAddress};
use stk::authority::HostPort;
use stk::config::{
    AppConfig, ForwardConfig, ProxyConfig, ProxyProtocol, ResolvedHostConfig, SshAuthConfig,
    SshHostConfig, SshHostKeyPolicy, SshPoolConfig,
};
use stk::environment::{Environment, Platform};
use stk::paths::{HomeDirectory, PathStyle};
use stk::health::LoadBalancePolicy;
use stk::ssh_connect::expand_proxy_command;
use stk::ssh_files::{
    connection_ssh_config_source, expand_include_path, first_config_file, load_ssh_config_forwards,
    SshContents, SshFile, SshFiles, SshNeed, SshPattern, SshStop,
};
use stk::ssh_forwards::{inherit_ssh_config_forwards, unique_forward_name};
use stk::ssh_plan::{
    resolve_ssh_plan, PlanStop, ResolvedHostKeyPolicy, ResolvedSshAuth, ResolvedSshEndpoint,
    ResolvedSshPlan, SshPlanner, DEFAULT_SSH_PORT,
};
use stk::ssh_syntax::{
    host_patterns_match, parse_destination, split_config_arguments, split_config_directive,
    strip_config_comment,
};

const HOME: &str = "/home/me";
const SECOND: u128 = 1_000_000_000;

fn socket(text: &str) -> SocketAddress {
    parse_socket(text).unwrap()
}

fn environment() -> Environment {
    let mut environment = Environment::bare(Platform::Linux);
    environment.home = Some(HOME.to_string());
    environment.user = Some("me".to_string());
    environment
}

fn home() -> HomeDirectory {
    environment().user_home()
}

/// The files of a disk, by path.
type Disk = Vec<(&'static str, String)>;

fn look(disk: &Disk, known: &mut SshFiles, need: SshNeed) {
    match need {
        SshNeed::File(path) => {
            let contents = match disk.iter().find(|(name, _)| *name == path) {
                Some((_, text)) => SshContents::Text(text.clone()),
                None => SshContents::Missing("No such file or directory".to_string()),
            };
            known.files.push(SshFile {
                identity: path.clone(),
                path,
                contents,
            });
        }
        SshNeed::Pattern(pattern) => {
            let paths = disk
                .iter()
                .filter(|(name, _)| *name == pattern)
                .map(|(name, _)| Ok(name.to_string()))
                .collect();
            known.patterns.push(SshPattern {
                pattern,
                paths: Ok(paths),
            });
        }
    }
}

fn inherit(disk: &Disk, host: &mut ResolvedHostConfig) -> Result<(), String> {
    let mut known = SshFiles::new();
    loop {
        match inherit_ssh_config_forwards(&known, &home(), host) {
            Ok(()) => return Ok(()),
            Err(SshStop::Failed(error)) => return Err(error.text()),
            Err(SshStop::Needs(need)) => look(disk, &mut known, need),
        }
    }
}

fn plan(disk: &Disk, upstream: &SshHostConfig) -> Result<ResolvedSshPlan, String> {
    let mut known = SshFiles::new();
    let mut planner = loop {
        match SshPlanner::load(&known, upstream, &environment()) {
            Ok(planner) => break planner,
            Err(SshStop::Failed(error)) => return Err(error.text()),
            Err(SshStop::Needs(need)) => look(disk, &mut known, need),
        }
    };
    match planner.plan(upstream, &pool(), &environment(), 100) {
        Ok(plan) => Ok(plan),
        Err(PlanStop::Failed(error)) => Err(error.text()),
        Err(PlanStop::Asks(alias)) => panic!("asks about {alias} after all"),
    }
}

fn pool() -> SshPoolConfig {
    SshPoolConfig {
        policy: LoadBalancePolicy::RoundRobin,
        keep_alive_secs: None,
        min_sessions_per_host: 1,
        max_sessions_per_host: 1,
        session_rotation_enabled: false,
        session_rotation_interval_secs: 3_600,
        max_channels_per_session: 8,
        server_alive_count_max: None,
        connect_timeout_secs: None,
        restart_initial_millis: 100,
        restart_max_secs: 1,
        session_spawn_cooldown_millis: 100,
        session_drain_timeout_secs: 1,
        hosts: Vec::new(),
    }
}

fn upstream(alias: &str) -> SshHostConfig {
    SshHostConfig {
        name: "test".to_string(),
        host: None,
        ssh_config_host: Some(alias.to_string()),
        port: None,
        username: None,
        auth: None,
        ssh_config_path: None,
        host_key_policy: None,
        known_hosts_path: None,
        remote_forwards: Vec::new(),
    }
}

fn upstream_with_path(alias: &str, path: &str) -> SshHostConfig {
    SshHostConfig {
        ssh_config_path: Some(path.to_string()),
        ..upstream(alias)
    }
}

fn direct_upstream(host: &str) -> SshHostConfig {
    SshHostConfig {
        host: Some(host.to_string()),
        ssh_config_host: None,
        username: Some("test".to_string()),
        ..upstream("unused")
    }
}

fn resolved_host(alias: &str, config_path: &str) -> ResolvedHostConfig {
    let mut config = AppConfig::default();
    let host = &mut config.hosts.entries[0].value;
    host.ssh_config_host = Some(alias.to_string());
    host.ssh_config_path = Some(config_path.to_string());
    host.local_proxies.clear();
    host.local_forwards.clear();
    host.remote_proxies.clear();
    host.remote_forwards.clear();
    config.hosts.entries[0].value.resolve(&config.override_default)
}

#[test]
fn inherits_all_forward_kinds_with_additive_host_and_include_rules() {
    let disk: Disk = vec![
        (
            "/d/included.conf",
            "Host target\n  DynamicForward 1080\n  DynamicForward [::1]:1081\n  LocalForward 127.0.0.1:8080 app.internal:80\n".to_string(),
        ),
        (
            "/d/config",
            format!(
                "Include {}\nHost ignored\n  DynamicForward 9999\nHost target !target\n  DynamicForward 9998\nHost target\n  RemoteForward *:9000 localhost:9000\n  RemoteForward 9001\nHost *\n  LocalForward 8082 fallback.internal:82\n",
                "/d/included.conf"
            ),
        ),
    ];

    let mut host = resolved_host("target", "/d/config");
    inherit(&disk, &mut host).unwrap();

    assert_eq!(host.local_proxies.len(), 2);
    assert_eq!(host.local_proxies[0].listen, socket("127.0.0.1:1080"));
    assert_eq!(host.local_proxies[1].listen, socket("[::1]:1081"));
    assert!(host.local_proxies.iter().all(|proxy| proxy.mixed));
    assert!(host
        .local_proxies
        .iter()
        .all(|proxy| proxy.resolved_protocol() == ProxyProtocol::Mixed));
    assert_eq!(host.local_forwards.len(), 2);
    assert_eq!(host.local_forwards[0].target.text(), "app.internal:80");
    assert_eq!(host.local_forwards[1].listen, socket("127.0.0.1:8082"));
    assert_eq!(host.remote_forwards.len(), 1);
    assert_eq!(host.remote_forwards[0].listen, socket("0.0.0.0:9000"));
    assert_eq!(host.remote_proxies.len(), 1);
    assert_eq!(host.remote_proxies[0].listen, socket("127.0.0.1:9001"));
    assert_eq!(
        host.remote_proxies[0].resolved_protocol(),
        ProxyProtocol::Mixed
    );
}

#[test]
fn explicit_ports_override_inherited_forwards_even_when_disabled() {
    let disk: Disk = vec![(
        "/d/config",
        "Host target\n  DynamicForward 1080\n  LocalForward 1081 app.internal:80\n  RemoteForward 9000\n  RemoteForward 9001 localhost:9001\n".to_string(),
    )];

    let mut config = AppConfig::default();
    let source = &mut config.hosts.entries[0].value;
    source.ssh_config_host = Some("target".to_string());
    source.ssh_config_path = Some("/d/config".to_string());
    source.local_proxies = vec![ProxyConfig {
        auto: Some(false),
        name: Some("disabled-explicit-local".to_string()),
        listen: socket("[::1]:1080"),
        mixed: Some(false),
        protocol: None,
    }];
    source.local_forwards.clear();
    source.remote_proxies.clear();
    source.remote_forwards = vec![ForwardConfig {
        auto: Some(false),
        name: Some("disabled-explicit-remote".to_string()),
        listen: socket("0.0.0.0:9000"),
        target: HostPort::parse("localhost:9000").unwrap(),
    }];
    let mut host = config.hosts.entries[0].value.resolve(&config.override_default);

    inherit(&disk, &mut host).unwrap();

    assert_eq!(host.local_proxies.len(), 1);
    assert_eq!(host.local_forwards.len(), 1);
    assert_eq!(host.local_forwards[0].listen.port, 1081);
    assert_eq!(host.remote_proxies.len(), 0);
    assert_eq!(host.remote_forwards.len(), 2);
    assert!(host
        .remote_forwards
        .iter()
        .any(|forward| forward.listen.port == 9001));
}

#[test]
fn forward_inheritance_can_be_disabled_without_reading_ssh_config() {
    let mut host = resolved_host("target", "/d/missing");
    host.inherit_ssh_config_forwards = false;

    inherit_ssh_config_forwards(&SshFiles::new(), &home(), &mut host).unwrap();

    assert!(host.local_proxies.is_empty());
    assert!(host.local_forwards.is_empty());
    assert!(host.remote_proxies.is_empty());
    assert!(host.remote_forwards.is_empty());
}

#[test]
fn clear_all_forwardings_disables_inherited_forwards() {
    let disk: Disk = vec![(
        "/d/config",
        "Host target\n  DynamicForward 1080\n  ClearAllForwardings yes\n  LocalForward 8080 app.internal:80\n".to_string(),
    )];
    let mut host = resolved_host("target", "/d/config");

    inherit(&disk, &mut host).unwrap();

    assert!(host.local_proxies.is_empty());
    assert!(host.local_forwards.is_empty());
    assert!(host.remote_proxies.is_empty());
    assert!(host.remote_forwards.is_empty());
}

#[test]
fn merging_the_same_forwards_again_changes_nothing() {
    let disk: Disk = vec![(
        "/d/config",
        "Host target\n  DynamicForward 1080\n  RemoteForward 9001 localhost:9001\n".to_string(),
    )];
    let mut host = resolved_host("target", "/d/config");
    inherit(&disk, &mut host).unwrap();
    let once = host.clone();
    inherit(&disk, &mut host).unwrap();
    assert_eq!(host, once);
}

#[test]
fn made_names_of_forwards_are_free() {
    let names = vec!["p-1".to_string(), "p-1-2".to_string()];
    assert_eq!(unique_forward_name(&names, "p", 2), "p-2");
    let made = unique_forward_name(&names, "p", 1);
    assert!(!names.contains(&made));
}

#[test]
fn resolves_alias_and_common_options_from_custom_config() {
    let disk: Disk = vec![(
        "/d/config",
        "Host target\n  HostName 192.0.2.10\n  User alice\n  Port 2222\n  IdentityFile /d/id_test\n  IdentitiesOnly yes\n  ConnectTimeout 7\n  ServerAliveInterval 11\n  ServerAliveCountMax 5\n  StrictHostKeyChecking accept-new\n  UserKnownHostsFile /d/known_hosts\n".to_string(),
    )];

    let plan = plan(&disk, &upstream_with_path("target", "/d/config")).unwrap();
    assert_eq!(plan.target.host, "192.0.2.10");
    assert_eq!(plan.target.username, "alice");
    assert_eq!(plan.target.port, 2222);
    assert_eq!(plan.target.connect_timeout, 7 * SECOND);
    assert_eq!(plan.target.keep_alive, 11 * SECOND);
    assert_eq!(plan.target.keep_alive_max, 5);
    assert_eq!(
        plan.target.host_key_policy,
        ResolvedHostKeyPolicy::AcceptNew
    );
    assert!(!plan.target.auth.use_agent);
    assert_eq!(plan.target.auth.identity_files, vec!["/d/id_test"]);
    assert_eq!(plan.target.known_hosts_paths, vec!["/d/known_hosts"]);
}

#[test]
fn connection_options_ignore_forwarding_directives() {
    let disk: Disk = vec![
        (
            "/d/forwards.conf",
            "Host target\n  DynamicForward 7990\n  LocalForward 2222 localhost:22\n  RemoteForward 7990\n  RemoteForward 3126 localhost:3126\n".to_string(),
        ),
        (
            "/d/config",
            "Include /d/forwards.conf\nHost unrelated\n  RemoteForward 7890 localhost:7890\nHost target\n  HostName target.internal\n  User alice\n  Port 2222\n".to_string(),
        ),
    ];

    let plan = plan(&disk, &upstream_with_path("target", "/d/config")).unwrap();

    assert_eq!(plan.target.host, "target.internal");
    assert_eq!(plan.target.username, "alice");
    assert_eq!(plan.target.port, 2222);
}

#[test]
fn included_host_scope_does_not_leak_into_the_parent_config() {
    let disk: Disk = vec![
        (
            "/d/included.conf",
            "Host other\n  HostName other.internal\n".to_string(),
        ),
        (
            "/d/config",
            "Host target\n  User alice\n  Include /d/included.conf\n  Port 2222\n".to_string(),
        ),
    ];

    let target = plan(&disk, &upstream_with_path("target", "/d/config")).unwrap();
    let other = plan(&disk, &upstream_with_path("other", "/d/config")).unwrap();

    assert_eq!(target.target.port, 2222);
    assert_eq!(other.target.host, "other.internal");
    assert_eq!(other.target.port, DEFAULT_SSH_PORT);
}

#[test]
fn explicit_upstream_values_override_ssh_config() {
    let disk: Disk = vec![(
        "/d/config",
        "Host target\n  HostName config.example\n  User config-user\n  Port 2200\n  StrictHostKeyChecking no\n".to_string(),
    )];
    let mut target = upstream_with_path("target", "/d/config");
    target.host = Some("explicit.example".to_string());
    target.username = Some("explicit-user".to_string());
    target.port = Some(2022);
    target.auth = Some(SshAuthConfig::Agent);
    target.host_key_policy = Some(SshHostKeyPolicy::KnownHosts);

    let plan = plan(&disk, &target).unwrap();
    assert_eq!(plan.target.host, "explicit.example");
    assert_eq!(plan.target.username, "explicit-user");
    assert_eq!(plan.target.port, 2022);
    assert!(matches!(
        plan.target.auth.explicit,
        Some(SshAuthConfig::Agent)
    ));
    assert_eq!(
        plan.target.host_key_policy,
        ResolvedHostKeyPolicy::KnownHosts
    );
}

#[test]
fn resolves_proxy_jump_aliases_and_detects_cycles() {
    let disk: Disk = vec![
        (
            "/d/config",
            "Host target\n  HostName target.internal\n  ProxyJump jump-a,jump-b\nHost jump-a\n  HostName 192.0.2.1\n  User first\nHost jump-b\n  HostName 192.0.2.2\n  User second\n".to_string(),
        ),
        (
            "/d/cycle",
            "Host target\n  ProxyJump jump\nHost jump\n  ProxyJump target\n".to_string(),
        ),
    ];
    let way = plan(&disk, &upstream_with_path("target", "/d/config")).unwrap();
    assert_eq!(
        way.jumps
            .iter()
            .map(|jump| jump.host.as_str())
            .collect::<Vec<_>>(),
        vec!["192.0.2.1", "192.0.2.2"]
    );

    let error = plan(&disk, &upstream_with_path("target", "/d/cycle")).unwrap_err();
    assert!(error.contains("cycle detected"));
}

#[test]
fn resolves_included_hosts_and_preserves_first_value_wins() {
    let disk: Disk = vec![
        (
            "/d/included.conf",
            "Host target\n  HostName included.example\n  User included-user\nHost *\n  Port 2200\n"
                .to_string(),
        ),
        (
            "/d/config",
            "Host target\n  User first-user\nInclude /d/included.conf\nHost *\n  User fallback-user\n  Port 22\n".to_string(),
        ),
    ];

    let plan = plan(&disk, &upstream_with_path("target", "/d/config")).unwrap();
    assert_eq!(plan.target.host, "included.example");
    assert_eq!(plan.target.username, "first-user");
    assert_eq!(plan.target.port, 2200);
}

#[test]
fn rejects_match_blocks_in_included_configs() {
    let disk: Disk = vec![
        (
            "/d/included.conf",
            "Match host target\n  User conditional\n".to_string(),
        ),
        (
            "/d/config",
            "Include /d/included.conf\nHost target\n  User alice\n".to_string(),
        ),
    ];

    let error = plan(&disk, &upstream_with_path("target", "/d/config")).unwrap_err();
    assert!(error.contains("Match blocks are not supported"));
}

#[test]
fn default_config_path_is_optional_and_can_expand_tilde() {
    let disk: Disk = vec![];
    let absent = plan(&disk, &upstream("example.test")).unwrap();
    assert_eq!(absent.target.host, "example.test");
    assert_eq!(absent.config_path.as_deref(), Some("/home/me/.ssh/config"));

    let disk: Disk = vec![(
        "/home/me/.ssh/custom",
        "Host alias\n  HostName custom.example\n  User alice\n".to_string(),
    )];
    let custom = plan(&disk, &upstream_with_path("alias", "~/.ssh/custom")).unwrap();
    assert_eq!(custom.target.host, "custom.example");
}

#[test]
fn a_configured_file_must_exist() {
    let disk: Disk = vec![];
    assert!(plan(&disk, &upstream_with_path("target", "/d/missing")).is_err());
}

#[test]
fn direct_host_does_not_load_ssh_config() {
    let disk: Disk = vec![(
        "/home/me/.ssh/config",
        "Host *\n  HostName config.example\n".to_string(),
    )];
    let plan = plan(&disk, &direct_upstream("direct.example")).unwrap();
    assert_eq!(plan.target.host, "direct.example");
    assert_eq!(plan.config_path, None);
}

#[test]
fn a_plan_asks_about_the_hosts_that_it_needs() {
    let stop = resolve_ssh_plan(&vec![], &upstream("target"), &pool(), &environment());
    assert_eq!(stop.unwrap_err(), PlanStop::Asks("target".to_string()));

    let mut planner = SshPlanner::new("Host target\n  ProxyJump way\n", "config").unwrap();
    let stop = planner.plan(&upstream("target"), &pool(), &environment(), 1);
    assert_eq!(stop.unwrap_err(), PlanStop::Asks("way".to_string()));
    assert_eq!(planner.answers.len(), 1);
    let way = planner
        .plan(&upstream("target"), &pool(), &environment(), 1)
        .unwrap();
    assert_eq!(way.jumps.len(), 1);
    assert_eq!(way.jumps[0].alias, "way");
}

#[test]
fn a_host_without_an_address_has_no_plan() {
    let mut nowhere = upstream("target");
    nowhere.ssh_config_host = None;
    let stop = resolve_ssh_plan(&vec![], &nowhere, &pool(), &environment());
    match stop {
        Err(PlanStop::Failed(error)) => assert_eq!(
            error.text(),
            "SSH host has neither host nor ssh-config-host"
        ),
        other => panic!("{other:?}"),
    }
}

#[test]
fn expands_proxy_command_tokens() {
    let endpoint = ResolvedSshEndpoint {
        alias: "target".to_string(),
        host: "target.internal".to_string(),
        port: 2222,
        username: "alice".to_string(),
        auth: ResolvedSshAuth {
            explicit: None,
            identity_files: Vec::new(),
            use_agent: true,
        },
        host_key_policy: ResolvedHostKeyPolicy::KnownHosts,
        host_key_name: "target.internal".to_string(),
        known_hosts_paths: Vec::new(),
        connect_timeout: SECOND,
        keep_alive: SECOND,
        keep_alive_max: 1,
        tcp_keep_alive: true,
        proxy_command: None,
    };
    assert_eq!(
        expand_proxy_command("proxy %h %p %r %n %%", &endpoint, &environment()),
        "proxy target.internal 2222 alice target %"
    );
}

#[test]
fn host_patterns_follow_the_wildcards() {
    assert!(host_patterns_match("*.example !bad.example", "good.example").unwrap());
    assert!(!host_patterns_match("*.example !bad.example", "bad.example").unwrap());
    assert!(host_patterns_match("host?", "host1").unwrap());
    assert!(!host_patterns_match("other", "host1").unwrap());
}

#[test]
fn lines_are_taken_apart() {
    assert_eq!(strip_config_comment("Port 22 # usual"), "Port 22 ");
    assert_eq!(strip_config_comment("User \"a#b\""), "User \"a#b\"");
    assert_eq!(
        split_config_directive("HostName = example.com"),
        Some(("HostName", "example.com"))
    );
    assert_eq!(
        split_config_arguments("one \"two three\" four"),
        vec!["one", "two three", "four"]
    );
}

#[test]
fn destinations_name_user_host_and_port() {
    let destination = parse_destination("alice@example.com:2222").unwrap();
    assert_eq!(destination.alias, "example.com");
    assert_eq!(destination.username.as_deref(), Some("alice"));
    assert_eq!(destination.port, Some(2222));
    assert!(parse_destination("").is_err());
}

#[test]
fn sources_hold_their_files_and_no_forwards() {
    let disk: Disk = vec![
        (
            "/home/me/.ssh/config",
            "Host target\r\n  Include /d/more\n  LocalForward 1 h:2\n  User alice\n".to_string(),
        ),
        ("/d/more", "Port 2200\nRemoteForward 3 h:4".to_string()),
    ];
    let mut known = SshFiles::new();
    let source = loop {
        match connection_ssh_config_source(&known, &home(), None) {
            Ok(source) => break source.unwrap(),
            Err(SshStop::Needs(need)) => look(&disk, &mut known, need),
            Err(SshStop::Failed(error)) => panic!("{}", error.text()),
        }
    };
    assert_eq!(
        source,
        "Host target\nPort 2200\n\nHost target\n\n  User alice\n"
    );
    let plan = plan(&disk, &upstream("target")).unwrap();
    assert_eq!(plan.target.port, 2200);
    assert_eq!(plan.target.username, "alice");
    assert_eq!(first_config_file(None, &home()), "/home/me/.ssh/config");
}

#[test]
fn an_empty_configuration_says_nothing() {
    let mut planner = SshPlanner::new("", "config").unwrap();
    planner.ask("target".to_string());
    let said = &planner.answers[0].value;
    assert_eq!(said.host_name, None);
    assert!(said.fields.is_empty());

    let direct = direct_upstream("direct.example");
    let mut planner = SshPlanner::load(&SshFiles::new(), &direct, &environment()).unwrap();
    planner.ask("target".to_string());
    assert_eq!(planner.answers[0].value, said.clone());
}

#[test]
fn a_configuration_that_cannot_be_read_is_refused() {
    let error = SshPlanner::new("Host target\n  Port many\n", "config")
        .err()
        .unwrap();
    assert_eq!(
        error.messages,
        vec!["failed to parse SSH config config", "expected port number"]
    );
    let elsewhere = SshPlanner::new("Host target\n  Port many\n", "other")
        .err()
        .unwrap();
    assert_eq!(elsewhere.messages[1], error.messages[1]);
    let disk: Disk = vec![(
        "/home/me/.ssh/config",
        "Host target\n  ConnectTimeout soon\n".to_string(),
    )];
    assert_eq!(
        plan(&disk, &upstream("target")).unwrap_err(),
        "failed to parse SSH config /home/me/.ssh/config: expected unsigned value"
    );
}

#[test]
fn windows_includes_keep_their_drive() {
    let home = HomeDirectory {
        path: "C:\\Users\\me".to_string(),
        style: PathStyle::Windows,
    };
    assert_eq!(expand_include_path("D:\\cfg", &home), "D:\\cfg");
    assert_eq!(expand_include_path("~\\cfg", &home), "C:\\Users\\me\\cfg");
    assert_eq!(expand_include_path("cfg", &home), "C:\\Users\\me\\.ssh\\cfg");
    assert_eq!(expand_include_path("\\cfg", &home), "C:\\cfg");
}

#[test]
fn long_configurations_are_walked_through() {
    let mut text = String::new();
    for i in 0..20_000 {
        text.push_str(&format!("# a comment, and a host behind it: {i}\n"));
    }
    text.push_str("Host target\n  HostName far.example\n  User alice\n");
    text.push_str("  LocalForward 127.0.0.1:19081 inside.example:80\n");
    let disk: Disk = vec![("/home/me/.ssh/config", text)];
    let plan = plan(&disk, &upstream("target")).unwrap();
    assert_eq!(plan.target.host, "far.example");

    let mut known = SshFiles::new();
    let forwards = loop {
        match load_ssh_config_forwards(&known, &home(), "target", None) {
            Ok(forwards) => break forwards,
            Err(SshStop::Needs(need)) => look(&disk, &mut known, need),
            Err(SshStop::Failed(error)) => panic!("{}", error.text()),
        }
    };
    assert_eq!(forwards.len(), 1);
}

#[test]
fn long_lists_of_jumps_are_walked_through() {
    let jumps = vec!["none"; 20_000].join(",");
    let disk: Disk = vec![(
        "/home/me/.ssh/config",
        format!("Host target\n  User alice\n  ProxyJump {jumps}\n"),
    )];
    assert!(plan(&disk, &upstream("target")).unwrap().jumps.is_empty());
}

#[test]
fn many_included_files_are_walked_through() {
    let mut known = SshFiles::new();
    let source = loop {
        match connection_ssh_config_source(&known, &home(), None) {
            Ok(source) => break source.unwrap(),
            Err(SshStop::Needs(SshNeed::File(path))) => {
                let contents = if path == "/home/me/.ssh/config" {
                    "Include /d/*\n".to_string()
                } else {
                    "Port 22\n".to_string()
                };
                known.files.push(SshFile {
                    identity: path.clone(),
                    path,
                    contents: SshContents::Text(contents),
                });
            }
            Err(SshStop::Needs(SshNeed::Pattern(pattern))) => known.patterns.push(SshPattern {
                pattern,
                paths: Ok((0..200).map(|i| Ok(format!("/d/{i:04}"))).collect()),
            }),
            Err(SshStop::Failed(error)) => panic!("{}", error.text()),
        }
    };
    assert_eq!(source.matches("Port 22\n").count(), 200);
}
