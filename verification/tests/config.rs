use stk::address::{parse_socket, SocketAddress};
use stk::authority::HostPort;
use stk::config::{
    named_hosts, AppConfig, ConfigError, ConfigFormat, EnvProfileConfig, ForwardConfig, HostConfig,
    OverrideDefaultConfig, ProbeConfig, ProbeOverrideConfig, ProxyConfig, ProxyEnvScheme,
    ProxyProtocol, SshAuthConfig,
};
use stk::environment::{Environment, Platform};
use stk::paths::PathStyle;
use stk::named::{Named, NamedMap};
use stk::ssh_files::{SshContents, SshFile, SshFiles};

fn environment() -> Environment {
    let mut environment = Environment::bare(Platform::Linux);
    environment.home = Some("/home/me".to_string());
    environment
}

fn socket(text: &str) -> SocketAddress {
    parse_socket(text).unwrap()
}

fn default_host(config: &AppConfig) -> &HostConfig {
    config.hosts.get("default").unwrap()
}

fn default_host_mut(config: &mut AppConfig) -> &mut HostConfig {
    &mut config
        .hosts
        .entries
        .iter_mut()
        .find(|entry| entry.name == "default")
        .unwrap()
        .value
}

fn proxy(listen: &str) -> ProxyConfig {
    ProxyConfig {
        auto: None,
        name: None,
        listen: socket(listen),
        mixed: None,
        protocol: None,
    }
}

fn forward(listen: &str, target: &str) -> ForwardConfig {
    ForwardConfig {
        auto: None,
        name: None,
        listen: socket(listen),
        target: HostPort::parse(target).unwrap(),
    }
}

fn named(name: &str, value: HostConfig) -> Named<HostConfig> {
    Named {
        name: name.to_string(),
        value,
    }
}

#[test]
fn default_config_is_valid() {
    AppConfig::default().validate(&environment()).unwrap();
}

#[test]
fn automatic_tunnel_detection_ignores_empty_and_disabled_entries() {
    let mut config = AppConfig::default();
    let resolved = default_host(&config).resolve(&config.override_default);
    assert!(resolved.has_automatic_tunnels());

    let host = default_host_mut(&mut config);
    host.local_proxies[0].auto = Some(false);
    let resolved = default_host(&config).resolve(&config.override_default);
    assert!(!resolved.has_automatic_tunnels());

    default_host_mut(&mut config).local_proxies.clear();
    let resolved = default_host(&config).resolve(&config.override_default);
    assert!(!resolved.has_automatic_tunnels());
}

#[test]
fn control_endpoints_and_env_profiles_are_valid() {
    let mut config = AppConfig::default();
    config.control.endpoint = Some("tcp:0.0.0.0:19090".to_string());
    config.validate(&environment()).unwrap();

    let mut config = AppConfig::default();
    config.env.default = Some("corp".to_string());
    let mut profile = EnvProfileConfig::default();
    profile.host = Some("default".to_string());
    profile.tunnel = Some("local-proxy-127.0.0.1:7890".to_string());
    profile.scheme = Some(ProxyEnvScheme::Socks5h);
    assert!(config.env.profiles.insert("corp".to_string(), profile));
    config.validate(&environment()).unwrap();
}

#[test]
fn env_default_must_name_a_defined_profile() {
    let mut config = AppConfig::default();
    config.env.default = Some("missing".to_string());
    assert!(matches!(
        config.validate(&environment()).unwrap_err(),
        ConfigError::InvalidEnvConfig(_)
    ));
}

#[test]
fn resolved_local_proxies_include_ssh_dynamic_forwards() {
    let mut config = AppConfig::default();
    let host = default_host_mut(&mut config);
    host.ssh_config_host = Some("target".to_string());
    host.ssh_config_path = Some("/home/me/ssh/config".to_string());
    host.local_proxies[0].auto = Some(false);
    let mut known = SshFiles::new();
    known.files.push(SshFile {
        path: "/home/me/ssh/config".to_string(),
        identity: "/home/me/ssh/config".to_string(),
        contents: SshContents::Text(
            "Host target\n  DynamicForward 127.0.0.1:19080\n".to_string(),
        ),
    });

    let candidates = config.resolved_local_proxies(&known, &environment().user_home()).unwrap();
    assert_eq!(candidates.len(), 1);
    assert_eq!(candidates[0].host, "default");
    assert_eq!(candidates[0].tunnel, "ssh-config-dynamic-19080");
    assert_eq!(candidates[0].listen.port, 19080);
    assert_eq!(candidates[0].protocol, ProxyProtocol::Mixed);
}

#[test]
fn invalid_control_endpoint_is_rejected_by_validation() {
    let mut config = AppConfig::default();
    config.control.endpoint = Some("udp:127.0.0.1:19090".to_string());
    assert!(matches!(
        config.validate(&environment()).unwrap_err(),
        ConfigError::InvalidControlEndpoint(_)
    ));
}

#[test]
fn override_default_is_applied_before_host_and_port_overrides() {
    let mut defaults = OverrideDefaultConfig::default();
    defaults.inherit_ssh_config_forwards = Some(false);
    defaults.min_sessions = Some(1);
    defaults.session_rotation_enabled = Some(false);
    defaults.session_rotation_interval_secs = Some(120);
    defaults.probe.interval_secs = Some(20);
    defaults.proxy.auto = Some(false);
    defaults.proxy.mixed = Some(true);
    defaults.forward.auto = Some(false);

    let mut inherited = HostConfig::unset();
    inherited.host = Some("inherited.example".to_string());
    inherited.local_proxies.push(proxy("127.0.0.1:17001"));
    inherited
        .local_forwards
        .push(forward("127.0.0.1:17002", "example.internal:80"));

    let mut overridden = HostConfig::unset();
    overridden.host = Some("overridden.example".to_string());
    overridden.inherit_ssh_config_forwards = Some(true);
    overridden.min_sessions = Some(3);
    overridden.session_rotation_enabled = Some(true);
    overridden.session_rotation_interval_secs = Some(60);
    overridden.probe.interval_secs = Some(5);
    let mut own_proxy = proxy("127.0.0.1:17003");
    own_proxy.auto = Some(true);
    own_proxy.mixed = Some(false);
    overridden.local_proxies.push(own_proxy);
    let mut own_forward = forward("127.0.0.1:17004", "example.internal:80");
    own_forward.auto = Some(true);
    overridden.local_forwards.push(own_forward);

    let inherited = inherited.resolve(&defaults);
    assert!(!inherited.inherit_ssh_config_forwards);
    assert_eq!(inherited.min_sessions, 1);
    assert_eq!(inherited.max_sessions, 10);
    assert!(!inherited.session_rotation_enabled);
    assert_eq!(inherited.session_rotation_interval_secs, 120);
    assert_eq!(inherited.probe.interval_secs, 20);
    assert!(!inherited.local_proxies[0].auto);
    assert!(inherited.local_proxies[0].mixed);
    assert!(!inherited.local_forwards[0].auto);

    let overridden = overridden.resolve(&defaults);
    assert!(overridden.inherit_ssh_config_forwards);
    assert_eq!(overridden.min_sessions, 3);
    assert_eq!(overridden.max_sessions, 10);
    assert!(overridden.session_rotation_enabled);
    assert_eq!(overridden.session_rotation_interval_secs, 60);
    assert_eq!(overridden.probe.interval_secs, 5);
    assert!(overridden.local_proxies[0].auto);
    assert!(!overridden.local_proxies[0].mixed);
    assert!(overridden.local_forwards[0].auto);
}

#[test]
fn format_is_detected_from_file_extension() {
    assert_eq!(
        ConfigFormat::from_path(PathStyle::Unix, "config.yml").unwrap(),
        ConfigFormat::Yaml
    );
    assert_eq!(
        ConfigFormat::from_path(PathStyle::Unix, "config.json").unwrap(),
        ConfigFormat::Json
    );
    assert_eq!(
        ConfigFormat::from_path(PathStyle::Unix, "config.toml").unwrap(),
        ConfigFormat::Toml
    );
    assert!(matches!(
        ConfigFormat::from_path(PathStyle::Unix, "config.txt").unwrap_err(),
        ConfigError::UnsupportedFormat(_)
    ));
}

#[test]
fn auto_defaults_to_true_at_host_and_port_levels() {
    let mut host = HostConfig::unset();
    host.host = Some("example.com".to_string());
    host.local_proxies.push(proxy("127.0.0.1:17890"));
    host.local_forwards
        .push(forward("127.0.0.1:17891", "127.0.0.1:80"));
    let host = host.resolve(&OverrideDefaultConfig::default());
    assert!(host.auto);
    assert!(host.inherit_ssh_config_forwards);
    assert!(host.local_proxies[0].auto);
    assert!(host.local_forwards[0].auto);
    assert_eq!(host.min_sessions, 3);
    assert_eq!(host.max_sessions, 10);
    assert!(host.session_rotation_enabled);
    assert_eq!(host.session_rotation_interval_secs, 3_600);
    assert_eq!(host.max_channels_per_session, 64);
    assert_eq!(host.restart_initial_millis, 500);
    assert_eq!(host.restart_max_secs, 30);
    assert_eq!(host.session_spawn_cooldown_millis, 1000);
    assert_eq!(host.session_drain_timeout_secs, 300);
    assert_eq!(host.probe, ProbeConfig::default());
}

#[test]
fn logical_host_key_is_separate_from_ssh_config_alias() {
    let config = AppConfig::default();
    let host = default_host(&config).resolve(&config.override_default);
    let pool = host.runtime_pool("logical-name");
    assert_eq!(pool.hosts[0].name, "logical-name");
    assert_eq!(pool.hosts[0].host, None);
    assert_eq!(pool.hosts[0].ssh_config_host.as_deref(), Some("localhost"));
}

#[test]
fn duplicate_named_hosts_are_rejected() {
    let list = vec![
        named("server1", HostConfig::unset()),
        named("server1", HostConfig::unset()),
    ];
    let error = named_hosts(list).unwrap_err();
    assert!(error.contains("duplicate SSH host name: server1"));

    let list = vec![
        named("b", HostConfig::unset()),
        named("a", HostConfig::unset()),
    ];
    let hosts = named_hosts(list).unwrap();
    assert_eq!(hosts.entries.len(), 2);
    assert_eq!(hosts.entries[0].name, "a");
    assert_eq!(hosts.entries[1].name, "b");
}

#[test]
fn host_port_parses_domains_and_ipv6() {
    assert_eq!(
        HostPort::parse("database.internal:5432").unwrap(),
        HostPort {
            host: "database.internal".to_string(),
            port: 5432,
        }
    );
    assert_eq!(HostPort::parse("[::1]:8080").unwrap().text(), "[::1]:8080");
}

#[test]
fn host_port_rejects_what_names_no_target() {
    assert_eq!(
        HostPort::parse("example.com").unwrap_err(),
        "target must include a non-zero port: example.com"
    );
    assert_eq!(
        HostPort::parse("example.com:0").unwrap_err(),
        "target must include a non-zero port: example.com:0"
    );
    assert!(HostPort::parse("a b:80")
        .unwrap_err()
        .starts_with("invalid host:port target a b:80: "));
    assert!(HostPort::parse("").is_err());
}

#[test]
fn all_forward_listens_accept_ipv4_and_ipv6() {
    let mut host = HostConfig::unset();
    host.host = Some("example.com".to_string());
    host.local_proxies = vec![proxy("127.0.0.1:17001"), proxy("[::1]:17002")];
    host.local_forwards = vec![
        forward("127.0.0.1:17003", "example.internal:80"),
        forward("[::1]:17004", "example.internal:80"),
    ];
    host.remote_proxies = vec![proxy("127.0.0.1:17005"), proxy("[::1]:17006")];
    host.remote_forwards = vec![
        forward("127.0.0.1:17007", "localhost:80"),
        forward("[::1]:17008", "localhost:80"),
    ];
    let mut config = AppConfig::default();
    config.hosts = named_hosts(vec![named("server1", host)]).unwrap();
    config.validate(&environment()).unwrap();

    let host = config.hosts.get("server1").unwrap();
    assert_eq!(host.local_proxies[0].listen.text(), "127.0.0.1:17001");
    assert_eq!(host.local_proxies[1].listen.text(), "[::1]:17002");
    assert_eq!(host.local_forwards[0].listen.text(), "127.0.0.1:17003");
    assert_eq!(host.local_forwards[1].listen.text(), "[::1]:17004");
    assert_eq!(host.remote_proxies[0].listen.text(), "127.0.0.1:17005");
    assert_eq!(host.remote_proxies[1].listen.text(), "[::1]:17006");
    assert_eq!(host.remote_forwards[0].listen.text(), "127.0.0.1:17007");
    assert_eq!(host.remote_forwards[1].listen.text(), "[::1]:17008");
}

#[test]
fn validation_rejects_duplicate_local_listens() {
    let mut config = AppConfig::default();
    let mut extra = forward("127.0.0.1:7890", "127.0.0.1:80");
    extra.auto = Some(true);
    default_host_mut(&mut config).local_forwards.push(extra);
    assert!(matches!(
        config.validate(&environment()).unwrap_err(),
        ConfigError::DuplicateLocalListen(_)
    ));
}

#[test]
fn validation_rejects_duplicate_remote_ports() {
    let mut config = AppConfig::default();
    let mut remote_proxy = proxy("127.0.0.1:1080");
    remote_proxy.auto = Some(true);
    remote_proxy.mixed = Some(false);
    default_host_mut(&mut config).remote_proxies.push(remote_proxy);
    let mut remote_forward = forward("0.0.0.0:1080", "127.0.0.1:8080");
    remote_forward.auto = Some(true);
    default_host_mut(&mut config).remote_forwards.push(remote_forward);
    assert!(matches!(
        config.validate(&environment()).unwrap_err(),
        ConfigError::InvalidHostConfig { .. }
    ));
}

#[test]
fn validation_rejects_invalid_session_pool() {
    let mut config = AppConfig::default();
    let host = default_host_mut(&mut config);
    host.min_sessions = Some(3);
    host.max_sessions = Some(2);
    assert!(matches!(
        config.validate(&environment()).unwrap_err(),
        ConfigError::InvalidHostConfig { .. }
    ));

    let mut config = AppConfig::default();
    default_host_mut(&mut config).session_rotation_interval_secs = Some(0);
    assert!(matches!(
        config.validate(&environment()).unwrap_err(),
        ConfigError::InvalidHostConfig { .. }
    ));
}

#[test]
fn validation_requires_host_or_ssh_config_host() {
    let mut config = AppConfig::default();
    let host = default_host_mut(&mut config);
    host.host = None;
    host.ssh_config_host = None;
    assert!(matches!(
        config.validate(&environment()).unwrap_err(),
        ConfigError::InvalidHostConfig { .. }
    ));
}

#[test]
fn auto_false_host_can_remain_dormant_without_forwards() {
    let mut config = AppConfig::default();
    let host = default_host_mut(&mut config);
    host.auto = Some(false);
    host.local_proxies.clear();
    config.validate(&environment()).unwrap();
}

#[test]
fn auto_false_port_does_not_conflict_or_register() {
    let mut config = AppConfig::default();
    let mut local = forward("127.0.0.1:7890", "127.0.0.1:80");
    local.auto = Some(false);
    local.name = Some("manual-local".to_string());
    default_host_mut(&mut config).local_forwards.push(local);
    let mut remote = proxy("127.0.0.1:1080");
    remote.auto = Some(false);
    remote.name = Some("manual-remote".to_string());
    remote.mixed = Some(false);
    default_host_mut(&mut config).remote_proxies.push(remote);
    config.validate(&environment()).unwrap();
    assert!(default_host(&config)
        .resolve(&config.override_default)
        .runtime_pool("default")
        .hosts[0]
        .remote_forwards
        .is_empty());
}

#[test]
fn validation_rejects_conflicting_mixed_protocol() {
    let mut config = AppConfig::default();
    default_host_mut(&mut config).local_proxies[0].protocol = Some(ProxyProtocol::Http);
    assert!(matches!(
        config.validate(&environment()).unwrap_err(),
        ConfigError::InvalidHostConfig { .. }
    ));
}

#[test]
fn validation_needs_a_host() {
    let mut config = AppConfig::default();
    config.hosts = NamedMap::new();
    assert_eq!(
        config.validate(&environment()).unwrap_err(),
        ConfigError::EmptyHosts
    );
}

#[test]
fn validation_rejects_empty_credentials() {
    let mut config = AppConfig::default();
    default_host_mut(&mut config).auth = Some(SshAuthConfig::PrivateKey {
        path: " ".to_string(),
        passphrase_env: None,
    });
    assert!(matches!(
        config.validate(&environment()).unwrap_err(),
        ConfigError::InvalidHostConfig { .. }
    ));
}

#[test]
fn errors_are_told() {
    assert_eq!(
        ConfigError::EmptyHosts.message(),
        "at least one SSH host is required"
    );
    assert_eq!(
        ConfigError::DuplicateLocalListen(socket("[::1]:80")).message(),
        "duplicate local listen address: [::1]:80"
    );
    assert_eq!(
        ConfigError::UnsupportedFormat("config.txt".to_string()).message(),
        "unsupported config file extension: config.txt"
    );
    assert_eq!(
        ConfigError::Parse {
            format: ConfigFormat::Yaml,
            reason: "bad".to_string()
        }
        .message(),
        "failed to parse YAML config: bad"
    );
    assert_eq!(
        ConfigError::Serialize {
            format: ConfigFormat::Toml,
            reason: "bad".to_string()
        }
        .message(),
        "failed to serialize TOML config: bad"
    );
    assert_eq!(
        ConfigError::Read {
            path: "a".to_string(),
            reason: "gone".to_string()
        }
        .message(),
        "failed to read config a: gone"
    );
    assert_eq!(
        ConfigError::InvalidHostConfig {
            host: "h".to_string(),
            reason: "r".to_string()
        }
        .message(),
        "invalid SSH host h: r"
    );
    assert_eq!(
        ConfigError::InvalidControlEndpoint("e".to_string()).message(),
        "invalid control endpoint: e"
    );
    assert_eq!(
        ConfigError::InvalidEnvConfig("e".to_string()).message(),
        "invalid proxy environment configuration: e"
    );
}

#[test]
fn probe_settings_fall_back_field_by_field() {
    let mut own = ProbeOverrideConfig::default();
    own.enabled = Some(false);
    let mut for_all = ProbeOverrideConfig::default();
    for_all.timeout_millis = Some(70);
    let probe = own.resolve(&for_all);
    assert!(!probe.enabled);
    assert_eq!(probe.timeout_millis, 70);
    assert_eq!(probe.interval_secs, ProbeConfig::default().interval_secs);
    assert_eq!(probe.fail_threshold, 3);
    assert_eq!(probe.recovery_threshold, 2);
}

#[test]
fn written_targets_are_read_back() {
    for host in ["database.internal", "10.0.0.7", "::1", "2001:db8::8a2e:370:7334"] {
        for port in [1, 80, 65535] {
            let target = HostPort {
                host: host.to_string(),
                port,
            };
            assert_eq!(HostPort::parse(&target.text()), Ok(target));
        }
    }
}
