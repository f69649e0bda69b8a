use stk::address::parse_socket;
use stk::authority::HostPort;
use stk::config::{AppConfig, ConfigError, ForwardConfig, ProxyProtocol};
use stk::config_path::ConfigScope;
use stk::engine::{
    accept_message, count_tunnels, listen_message, listener_exit_result, next_listener_retry,
    proxy_protocol_name, ConnectionIds, Engine, ListenerRetry, RuntimeProfile, TaskEnd,
};
use stk::environment::{Environment, Platform};
use stk::ssh_files::SshFiles;
use stk::status::TunnelKind;

fn environment() -> Environment {
    let mut environment = Environment::bare(Platform::Linux);
    environment.home = Some("/home/me".to_string());
    environment
}

#[test]
fn connection_ids_are_monotonically_unique() {
    let mut ids = ConnectionIds::new();
    let first = ids.next_connection_id();
    let second = ids.next_connection_id();
    assert!(second > first);
}

#[test]
fn profiles_have_their_scopes() {
    assert_eq!(RuntimeProfile::Service.config_scope(), ConfigScope::System);
    assert_eq!(RuntimeProfile::Foreground.config_scope(), ConfigScope::User);
    assert_eq!(RuntimeProfile::default(), RuntimeProfile::Foreground);
}

#[test]
fn an_engine_needs_a_valid_configuration() {
    let engine = Engine::new(AppConfig::default(), &environment()).unwrap();
    assert_eq!(engine.profile, RuntimeProfile::Foreground);
    assert_eq!(*engine.config(), AppConfig::default());

    let mut broken = AppConfig::default();
    broken.hosts.entries.clear();
    assert_eq!(
        Engine::with_profile(broken, RuntimeProfile::Service, &environment()).unwrap_err(),
        ConfigError::EmptyHosts
    );
}

#[test]
fn hosts_are_launched_with_their_automatic_tunnels() {
    let mut config = AppConfig::default();
    let host = &mut config.hosts.entries[0].value;
    host.inherit_ssh_config_forwards = Some(false);
    host.remote_forwards.push(ForwardConfig {
        auto: None,
        name: Some("web".to_string()),
        listen: parse_socket("127.0.0.1:9000").unwrap(),
        target: HostPort::parse("localhost:80").unwrap(),
    });
    host.local_forwards.push(ForwardConfig {
        auto: Some(false),
        name: None,
        listen: parse_socket("127.0.0.1:9001").unwrap(),
        target: HostPort::parse("localhost:80").unwrap(),
    });
    let engine = Engine::new(config, &environment()).unwrap();
    let hosts = engine.plan_hosts(&SshFiles::new(), &environment().user_home()).unwrap();
    assert_eq!(hosts.len(), 1);
    assert_eq!(hosts[0].name, "default");
    assert!(!hosts[0].is_idle());
    assert_eq!(hosts[0].local.len(), 1);
    assert_eq!(hosts[0].local[0].id, "default/local-proxy/local-proxy-127.0.0.1:7890");
    assert_eq!(hosts[0].local[0].kind, TunnelKind::LocalProxy);
    assert_eq!(hosts[0].local[0].protocol(), Some("Mixed"));
    assert_eq!(hosts[0].local[0].target(), None);
    assert_eq!(hosts[0].remote.len(), 1);
    assert_eq!(hosts[0].remote[0].id, "default/remote-forward/web");
    assert_eq!(hosts[0].remote[0].target().as_deref(), Some("localhost:80"));
    assert_eq!(count_tunnels(&hosts), (1, 1));
}

#[test]
fn connections_are_registered_at_their_tunnel() {
    let mut config = AppConfig::default();
    let host = &mut config.hosts.entries[0].value;
    host.inherit_ssh_config_forwards = Some(false);
    host.local_forwards.push(ForwardConfig {
        auto: None,
        name: Some("web".to_string()),
        listen: parse_socket("127.0.0.1:9001").unwrap(),
        target: HostPort::parse("[::1]:80").unwrap(),
    });
    let engine = Engine::new(config, &environment()).unwrap();
    let hosts = engine.plan_hosts(&SshFiles::new(), &environment().user_home()).unwrap();
    let mut ids = ConnectionIds::new();
    let peer = parse_socket("127.0.0.1:5000").unwrap();

    let proxied = hosts[0].local[0].accept(&mut ids, peer);
    assert_eq!(proxied.id, 1);
    assert_eq!(proxied.target, None);
    assert_eq!(proxied.protocol, "Mixed");
    assert_eq!(proxied.peer_address, "127.0.0.1:5000");

    let forwarded = hosts[0].local[1].accept(&mut ids, peer);
    assert_eq!(forwarded.id, 2);
    assert_eq!(forwarded.tunnel_id, "default/local-forward/web");
    assert_eq!(forwarded.target.as_deref(), Some("[::1]:80"));
    assert_eq!(forwarded.protocol, "TCP");
    assert_eq!(ids.next, 3);
}

#[test]
fn listeners_are_tried_again_ever_more_slowly() {
    let mut retry = ListenerRetry::new(100, 1);
    assert_eq!(retry.on_failure(), 100_000_000);
    assert_eq!(retry.on_failure(), 200_000_000);
    assert_eq!(retry.on_failure(), 400_000_000);
    assert_eq!(retry.on_failure(), 800_000_000);
    assert_eq!(retry.on_failure(), 1_000_000_000);
    assert_eq!(retry.on_failure(), 1_000_000_000);
    retry.on_listening();
    assert_eq!(retry.on_failure(), 100_000_000);
    assert_eq!(next_listener_retry(u128::MAX, u128::MAX), u128::MAX);
}

#[test]
fn ends_and_failures_are_told() {
    let listen = parse_socket("127.0.0.1:80").unwrap();
    assert_eq!(
        listen_message(listen, "in use"),
        "failed to listen at 127.0.0.1:80: in use"
    );
    assert_eq!(
        accept_message(listen, "no files"),
        "listener at 127.0.0.1:80 failed to accept a connection: no files"
    );
    assert_eq!(
        listener_exit_result(&TaskEnd::NoneLeft),
        "all local forwards exited unexpectedly"
    );
    assert_eq!(
        listener_exit_result(&TaskEnd::Finished),
        "local forward exited unexpectedly"
    );
    assert_eq!(
        listener_exit_result(&TaskEnd::Failed("broken".to_string())),
        "broken"
    );
    assert_eq!(proxy_protocol_name(ProxyProtocol::Socks5h), "SOCKS5H");
}
