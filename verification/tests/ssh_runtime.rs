use stk::config::{
    ProbeConfig, ProxyProtocol, SshAuthConfig, SshHostConfig, SshPoolConfig,
    SshRemoteForwardConfig,
};
use stk::address::parse_socket;
use stk::environment::{Environment, Platform};
use stk::handshake::{HandshakeGate, HandshakeGuard, HandshakeSide};
use stk::health::{HealthStatus, LoadBalancePolicy, LoadBalancer};
use stk::network::{ConnectivitySnapshot, NetworkAvailability};
use stk::outbound::{target_host_port, TargetAddr};
use stk::ssh_channel::{ChannelFailure, ChannelSearch};
use stk::ssh_connect::{
    agent_step, auth_attempts, auth_step, expand_key_path, first_auth_step, hop, hop_transport, host_key_step,
    proxy_command_process, timeout_text, AgentStep, AuthAttempt, AuthOutcome, AuthStep, HopTransport,
    HostKeyStep, SlowStep,
};
use stk::ssh_dial::{
    format_ssh_address, has_available_session, idle_endpoint, manager_stopped_text, needs_refresh,
    recovery_poll_interval, register_resolved_host, session_runtime_status, DialAttempts, DialWait,
    SshNode,
};
use stk::ssh_handover::{
    cancel_step, cancel_timeout_text, first_cancel_step, mark_remote_tunnels_starting, CancelStep,
    HandoverStep, RegistrationAction, RemoteRegistration, RemoteReply,
};
use stk::ssh_monitor::{disconnect_text, PingOutcome, SessionMonitor};
use stk::ssh_plan::{
    ResolvedHostKeyPolicy, ResolvedSshAuth, ResolvedSshEndpoint, ResolvedSshPlan,
};
use stk::ssh_pool::{SessionPool, SshNodeState, SshSessionStatus};
use stk::ssh_remote::{
    build_remote_routes, remote_forward_tunnel_id, remote_peer_addr, route_arrival, RemoteArrival,
    RemoteForwardRoute,
};
use stk::status::{SshSessionRuntimeStatus, TunnelRuntimeStatus};

const SECOND: u128 = 1_000_000_000;
const NOW: u128 = 1_000 * SECOND;

fn sample_upstream() -> SshHostConfig {
    SshHostConfig {
        name: "upstream".to_string(),
        host: Some("127.0.0.1".to_string()),
        ssh_config_host: None,
        port: None,
        username: None,
        auth: None,
        ssh_config_path: None,
        host_key_policy: None,
        known_hosts_path: None,
        remote_forwards: vec![
            SshRemoteForwardConfig::Tcp {
                name: "web".to_string(),
                listen: parse_socket("127.0.0.1:18080").unwrap(),
                local_host: "localhost".to_string(),
                local_port: 8080,
            },
            SshRemoteForwardConfig::Dynamic {
                name: "socks".to_string(),
                listen: parse_socket("127.0.0.1:1080").unwrap(),
                protocol: ProxyProtocol::Mixed,
            },
        ],
    }
}

fn sample_pool(hosts: Vec<SshHostConfig>) -> SshPoolConfig {
    SshPoolConfig {
        policy: LoadBalancePolicy::RoundRobin,
        keep_alive_secs: None,
        min_sessions_per_host: 1,
        max_sessions_per_host: 2,
        session_rotation_enabled: false,
        session_rotation_interval_secs: 60,
        max_channels_per_session: 8,
        server_alive_count_max: None,
        connect_timeout_secs: None,
        restart_initial_millis: 100,
        restart_max_secs: 7,
        session_spawn_cooldown_millis: 250,
        session_drain_timeout_secs: 9,
        hosts,
    }
}

fn endpoint(alias: &str) -> ResolvedSshEndpoint {
    ResolvedSshEndpoint {
        alias: alias.to_string(),
        host: format!("{alias}.internal"),
        port: 2222,
        username: "alice".to_string(),
        auth: ResolvedSshAuth {
            explicit: None,
            identity_files: vec!["/k/a".to_string(), "/k/b".to_string()],
            use_agent: true,
        },
        host_key_policy: ResolvedHostKeyPolicy::KnownHosts,
        host_key_name: format!("{alias}.internal"),
        known_hosts_paths: Vec::new(),
        connect_timeout: SECOND,
        keep_alive: SECOND,
        keep_alive_max: 1,
        tcp_keep_alive: true,
        proxy_command: None,
    }
}

fn environment() -> Environment {
    let mut environment = Environment::bare(Platform::Linux);
    environment.home = Some("/home/me".to_string());
    environment
}

fn serving_pool(ids: &[u64]) -> SessionPool {
    let mut pool = SessionPool::new();
    for id in ids {
        pool.add_session(*id);
        pool.session_established(*id, 10);
    }
    pool
}

fn node(name: &str, pool: SessionPool) -> SshNode {
    SshNode {
        name: name.to_string(),
        state: SshNodeState::unknown(),
        pool,
        max_channels_per_session: 2,
    }
}

#[test]
fn target_host_port_preserves_domains_and_ips() {
    assert_eq!(
        target_host_port(&TargetAddr::from_host_port("example.com".to_string(), 443)),
        ("example.com".to_string(), 443)
    );
    assert_eq!(
        target_host_port(&TargetAddr::from_host_port("127.0.0.1".to_string(), 8080)),
        ("127.0.0.1".to_string(), 8080)
    );
}

#[test]
fn remote_routes_distinguish_fixed_and_dynamic_modes() {
    let upstream = sample_upstream();
    let routes = build_remote_routes(&upstream);
    assert!(matches!(
        routes.get(&18080),
        Some(RemoteForwardRoute::Tcp { .. })
    ));
    assert!(matches!(
        routes.get(&1080),
        Some(RemoteForwardRoute::Dynamic { .. })
    ));
    assert!(routes.get(&9).is_none());
    assert_eq!(
        remote_forward_tunnel_id("upstream", &upstream.remote_forwards[1]),
        "upstream/remote-proxy/socks"
    );
}

#[test]
fn remote_connections_go_along_their_routes() {
    let routes = build_remote_routes(&sample_upstream());
    assert!(matches!(
        route_arrival(&routes, "upstream", 9, "10.0.0.1", 5),
        RemoteArrival::Prohibited
    ));
    match route_arrival(&routes, "upstream", 18080, "10.0.0.1", 5) {
        RemoteArrival::Connect {
            tunnel_id,
            forward,
            peer,
            dial_name,
            target,
        } => {
            assert_eq!(tunnel_id, "upstream/remote-forward/web");
            assert_eq!(forward, "web");
            assert_eq!(peer, "10.0.0.1:5");
            assert_eq!(dial_name, "ssh-remote/upstream/web");
            assert_eq!(target.text(), "localhost:8080");
        }
        other => panic!("{other:?}"),
    }
    match route_arrival(&routes, "upstream", 1080, "[::1]", 70_000) {
        RemoteArrival::Serve {
            peer,
            dial_name,
            protocol,
            ..
        } => {
            assert_eq!(peer.text(), "[::1]:0");
            assert_eq!(dial_name, "remote/upstream");
            assert_eq!(protocol, ProxyProtocol::Mixed);
        }
        other => panic!("{other:?}"),
    }
    assert_eq!(remote_peer_addr("somewhere", 80).text(), "0.0.0.0:80");
}

fn probe() -> ProbeConfig {
    ProbeConfig {
        enabled: true,
        interval_secs: 10,
        timeout_millis: 1500,
        fail_threshold: 3,
        recovery_threshold: 2,
    }
}

#[test]
fn failed_probes_replace_and_then_end_a_session() {
    let mut pool = serving_pool(&[1]);
    let mut monitor = SessionMonitor::start(probe(), 0);
    let wait = monitor.wait(false);
    assert_eq!(wait.probe_after, Some(10 * SECOND));
    assert!(wait.connectivity);
    assert!(monitor.on_probe_due(&mut pool, 1));
    assert_eq!(
        monitor.on_ping(&mut pool, 1, false, &PingOutcome::TimedOut, NOW),
        None
    );
    assert_eq!(pool.sessions[0].state.status, SshSessionStatus::Suspect);
    assert_eq!(
        pool.sessions[0].state.last_error.as_deref(),
        Some("SSH ping timed out after 1500 ms")
    );
    assert!(!pool.sessions[0].retire_requested);
    let failed = PingOutcome::Failed("reset".to_string());
    assert_eq!(monitor.on_ping(&mut pool, 1, false, &failed, NOW), None);
    assert!(pool.sessions[0].retire_requested);
    assert_eq!(
        monitor.on_ping(&mut pool, 1, false, &failed, NOW),
        Some("SSH ping failed: reset".to_string())
    );
}

#[test]
fn open_channels_keep_a_session_alive() {
    let mut pool = serving_pool(&[1]);
    pool.sessions[0].in_flight = 1;
    let mut monitor = SessionMonitor::start(probe(), 0);
    for _ in 0..9 {
        assert_eq!(
            monitor.on_ping(&mut pool, 1, false, &PingOutcome::TimedOut, NOW),
            None
        );
    }
    assert_eq!(monitor.consecutive_failures, 9);
    pool.sessions[0].payload_generation = 4;
    assert!(!monitor.on_probe_due(&mut pool, 1));
    assert_eq!(monitor.consecutive_failures, 0);
    assert_eq!(pool.sessions[0].state.last_error, None);
    assert!(monitor.on_probe_due(&mut pool, 1));
}

#[test]
fn suspect_sessions_recover_after_enough_answers() {
    let mut pool = serving_pool(&[1]);
    let mut monitor = SessionMonitor::start(probe(), 0);
    monitor.on_ping(&mut pool, 1, false, &PingOutcome::TimedOut, NOW);
    monitor.on_ping(&mut pool, 1, false, &PingOutcome::Answered(90), NOW);
    assert_eq!(pool.sessions[0].state.status, SshSessionStatus::Suspect);
    assert_eq!(pool.sessions[0].state.rtt_millis, Some(20));
    monitor.on_ping(&mut pool, 1, false, &PingOutcome::Answered(20), NOW);
    assert_eq!(pool.sessions[0].state.status, SshSessionStatus::Healthy);
}

#[test]
fn being_offline_forgives_failed_probes() {
    let mut pool = serving_pool(&[1]);
    let mut monitor = SessionMonitor::start(probe(), 0);
    monitor.on_ping(&mut pool, 1, false, &PingOutcome::TimedOut, NOW);
    assert_eq!(
        monitor.on_ping(&mut pool, 1, true, &PingOutcome::TimedOut, NOW),
        None
    );
    assert_eq!(monitor.consecutive_failures, 0);
    assert_eq!(monitor.wait(true).probe_after, None);
    monitor.on_connectivity_closed();
    assert!(!monitor.wait(false).connectivity);

    let mut quiet = probe();
    quiet.enabled = false;
    let mut monitor = SessionMonitor::start(quiet, 0);
    assert_eq!(monitor.wait(false).probe_after, None);
    assert_eq!(disconnect_text(None), "SSH session disconnected");
    assert_eq!(disconnect_text(Some("bye".to_string())), "bye");
}

#[test]
fn a_channel_is_asked_of_one_session_after_the_other() {
    let mut pool = serving_pool(&[1, 2, 3]);
    pool.sessions[1].connected = false;
    let mut search = ChannelSearch::start(&pool, 2);
    assert_eq!(search.try_next(&mut pool, 2), Some(1));
    assert_eq!(pool.sessions[0].in_flight, 1);
    search.on_failure(
        &mut pool,
        1,
        &ChannelFailure::Refused("prohibited".to_string()),
    );
    assert_eq!(pool.sessions[0].in_flight, 0);
    assert_eq!(search.try_next(&mut pool, 2), Some(3));
    search.on_failure(&mut pool, 3, &ChannelFailure::TimedOut(1500));
    assert_eq!(search.try_next(&mut pool, 2), None);
    assert_eq!(
        pool.sessions[0].state.last_error.as_deref(),
        Some("failed to open SSH channel: prohibited")
    );
    assert_eq!(
        search.failure_text("host"),
        "SSH host host has no available session: timed out opening SSH channel after 1500 ms"
    );
    let none = ChannelSearch::start(&SessionPool::new(), 2);
    assert_eq!(
        none.failure_text("host"),
        "SSH host host has no available session"
    );
}

#[test]
fn hosts_that_failed_are_not_dialed_again() {
    let nodes = vec![
        node("a", serving_pool(&[1])),
        node("b", serving_pool(&[2])),
        node("c", SessionPool::new()),
    ];
    assert!(has_available_session(&nodes));
    let mut balancer = LoadBalancer::new(LoadBalancePolicy::Failover);
    let mut attempts = DialAttempts::start();
    assert_eq!(attempts.choose_node(&nodes, &mut balancer), Some(0));
    attempts.on_failure("a", "broken");
    assert_eq!(attempts.choose_node(&nodes, &mut balancer), Some(1));
    attempts.on_failure("b", "broken too");
    assert_eq!(attempts.choose_node(&nodes, &mut balancer), None);
    assert_eq!(
        attempts.failure_text("pool"),
        "SSH host pool has no healthy session for dynamic forwarding: broken too"
    );
}

#[test]
fn dialed_hosts_are_healthy_and_others_degraded() {
    let mut state = SshNodeState::unknown();
    state.on_dialed(30);
    assert_eq!(state.status, HealthStatus::Healthy);
    assert_eq!(state.rtt_millis, Some(30));
    state.on_dial_failure("broken");
    assert_eq!(state.status, HealthStatus::Degraded);
    assert_eq!(state.rtt_millis, Some(30));
    assert_eq!(state.last_error.as_deref(), Some("broken"));
}

#[test]
fn sessions_that_break_down_count_as_restarts() {
    let mut state = SshNodeState::unknown();
    state.on_session_exit(true, "replaced");
    assert_eq!(state.restart_count, 0);
    assert_eq!(state.last_error, None);
    state.on_session_exit(false, "broken");
    assert_eq!(state.restart_count, 1);
    assert_eq!(state.last_error.as_deref(), Some("broken"));
    assert_eq!(state.status, HealthStatus::Unknown);
    state.restart_count = u64::MAX;
    state.on_session_exit(false, "broken again");
    assert_eq!(state.restart_count, u64::MAX);
}

#[test]
fn sessions_are_shown_as_they_are() {
    assert_eq!(
        session_runtime_status(SshSessionStatus::Suspect),
        SshSessionRuntimeStatus::Suspect
    );
    assert_eq!(
        session_runtime_status(SshSessionStatus::Draining),
        SshSessionRuntimeStatus::Draining
    );
}

#[test]
fn waiting_connections_ask_for_sessions_unless_offline() {
    let online = ConnectivitySnapshot {
        availability: NetworkAvailability::Online,
        events_available: true,
        resume_generation: 0,
        generation: 1,
    };
    let mut offline = online;
    offline.availability = NetworkAvailability::Offline;
    let mut eventless = online;
    eventless.events_available = false;
    assert!(!needs_refresh(online));
    assert!(needs_refresh(offline));
    assert!(needs_refresh(eventless));
    let mut wait = DialWait::start(online);
    assert!(wait.asks_for_capacity());
    wait.on_connectivity(offline);
    assert!(!wait.asks_for_capacity());
    wait.on_connectivity_closed();
    assert!(!wait.connectivity_events_open);
    assert_eq!(
        manager_stopped_text("host"),
        "SSH host host session manager stopped"
    );
}

#[test]
fn hosts_are_registered_with_their_address() {
    let plan = ResolvedSshPlan {
        target: endpoint("target"),
        jumps: vec![endpoint("jump")],
        config_path: None,
    };
    let upstream = sample_upstream();
    let pool = sample_pool(vec![sample_upstream()]);
    let registration = register_resolved_host(&upstream, &plan, &pool);
    assert_eq!(registration.name, "upstream");
    assert_eq!(registration.ssh_alias, "target");
    assert_eq!(registration.address, "target.internal:2222");
    assert_eq!(registration.min_sessions, 1);
    assert_eq!(registration.max_sessions, 2);
    assert_eq!(format_ssh_address("::1", 22), "[::1]:22");
    assert_eq!(recovery_poll_interval(&vec![plan]), 4 * SECOND);
    assert_eq!(recovery_poll_interval(&vec![]), SECOND);
    assert_eq!(idle_endpoint("h", &pool).unwrap().name, "upstream");
    assert_eq!(
        idle_endpoint("h", &sample_pool(vec![])).unwrap_err(),
        "SSH host h has no runtime endpoint"
    );
}

#[test]
fn a_failed_registration_rolls_the_others_back() {
    let upstream = sample_upstream();
    let mut registration = RemoteRegistration::start();
    assert_eq!(registration.action(2), RegistrationAction::Register(0));
    let update = registration.on_registered(&upstream, 9, &RemoteReply::Done);
    assert_eq!(update.tunnel_id, "upstream/remote-forward/web");
    assert_eq!(update.status, TunnelRuntimeStatus::Listening);
    assert_eq!(update.owner_session, Some(9));
    assert_eq!(registration.action(2), RegistrationAction::Register(1));
    let update = registration.on_registered(&upstream, 9, &RemoteReply::TimedOut);
    assert_eq!(
        update.error.as_deref(),
        Some("timed out registering SSH remote forward at 127.0.0.1:1080")
    );
    assert_eq!(registration.action(2), RegistrationAction::Cancel(1));
    registration.on_cancelled();
    assert_eq!(registration.action(2), RegistrationAction::RollBack(0));
    let update = registration.on_rolled_back(&upstream, &RemoteReply::Done);
    assert_eq!(
        update.error.as_deref(),
        Some(
            "remote forward at 127.0.0.1:18080 was rolled back because another listener failed: \
             timed out registering SSH remote forward at 127.0.0.1:1080"
        )
    );
    assert_eq!(registration.action(2), RegistrationAction::Failed);
}

#[test]
fn a_refused_registration_is_not_cancelled() {
    let upstream = sample_upstream();
    let mut registration = RemoteRegistration::start();
    let update =
        registration.on_registered(&upstream, 9, &RemoteReply::Refused("denied".to_string()));
    assert_eq!(
        update.error.as_deref(),
        Some("failed to register SSH remote forward at 127.0.0.1:18080: denied")
    );
    assert_eq!(registration.action(2), RegistrationAction::Failed);
    let starting = mark_remote_tunnels_starting(&upstream);
    assert_eq!(starting.len(), 2);
    assert_eq!(starting[1].status, TunnelRuntimeStatus::Starting);
    assert_eq!(
        cancel_timeout_text(parse_socket("127.0.0.1:1").unwrap()),
        "timed out cancelling SSH remote forward at 127.0.0.1:1"
    );
}

#[test]
fn remote_forwards_are_released_before_they_are_registered() {
    let mut pool = serving_pool(&[1, 2]);
    pool.remote_owner = Some(1);
    pool.request_session_retirement(1, NOW);
    let decision = pool.remote_owner_decision(true);
    assert!(matches!(
        pool.begin_handover(decision),
        HandoverStep::Cancel(1)
    ));
    assert!(matches!(
        pool.on_forwards_cancelled(decision, &None),
        HandoverStep::Register(2)
    ));
    assert_eq!(pool.remote_owner, None);
    assert!(matches!(
        pool.on_forwards_registered(2, &None),
        HandoverStep::Settled
    ));
    assert_eq!(pool.remote_owner, Some(2));
}

#[test]
fn a_holder_that_keeps_the_forwards_is_disconnected() {
    let mut pool = serving_pool(&[1, 2]);
    pool.remote_owner = Some(1);
    pool.request_session_retirement(1, NOW);
    let decision = pool.remote_owner_decision(true);
    match pool.on_forwards_cancelled(decision, &Some("stuck".to_string())) {
        HandoverStep::Disconnect {
            session,
            reason,
            error,
        } => {
            assert_eq!(session, 1);
            assert_eq!(reason, "remote forward handover: stuck");
            assert_eq!(
                error,
                "failed to release remote forwards from session 1: stuck"
            );
        }
        other => panic!("{other:?}"),
    }
    assert_eq!(pool.remote_owner, None);
    match pool.on_forwards_registered(2, &Some("denied".to_string())) {
        HandoverStep::Failed(error) => assert_eq!(error, "denied"),
        other => panic!("{other:?}"),
    }
    let mut empty = SessionPool::new();
    let decision = empty.remote_owner_decision(true);
    match empty.begin_handover(decision) {
        HandoverStep::Failed(error) => assert_eq!(
            error,
            "no healthy standby SSH session is ready for remote forwarding"
        ),
        other => panic!("{other:?}"),
    }
}

#[test]
fn cancelled_handshakes_wake_those_who_wait() {
    let mut guard = HandshakeGuard::new();
    assert_eq!(guard.gate(), HandshakeGate::Watch);
    assert!(!guard.register(HandshakeSide::Read));
    let woken = guard.abort();
    assert!(woken.reader);
    assert!(!woken.writer);
    assert_eq!(guard.gate(), HandshakeGate::Refuse);
    assert!(guard.register(HandshakeSide::Write));
    guard.disarm();
    assert_eq!(guard.gate(), HandshakeGate::Refuse);

    let mut guard = HandshakeGuard::new();
    guard.register(HandshakeSide::Write);
    guard.clear(HandshakeSide::Write);
    guard.disarm();
    assert_eq!(guard.gate(), HandshakeGate::Pass);
    let woken = guard.abort();
    assert!(!woken.reader && !woken.writer);
    assert_eq!(guard.gate(), HandshakeGate::Pass);
}

#[test]
fn hops_have_their_transports() {
    let mut plan = ResolvedSshPlan {
        target: endpoint("target"),
        jumps: vec![endpoint("jump")],
        config_path: None,
    };
    assert_eq!(hop(&plan, 0).alias, "jump");
    assert_eq!(hop(&plan, 1).alias, "target");
    assert!(matches!(
        hop_transport(&plan, 0, &environment()),
        Ok(HopTransport::Tcp)
    ));
    assert!(matches!(
        hop_transport(&plan, 1, &environment()),
        Ok(HopTransport::Jump)
    ));
    plan.jumps[0].proxy_command = Some("nc %h %p".to_string());
    match hop_transport(&plan, 0, &environment()) {
        Ok(HopTransport::Command(command)) => assert_eq!(command, "nc jump.internal 2222"),
        other => panic!("{other:?}"),
    }
    plan.target.proxy_command = Some("nc".to_string());
    assert_eq!(
        hop_transport(&plan, 1, &environment()).unwrap_err(),
        "SSH ProxyCommand for host target cannot replace an active ProxyJump transport"
    );
    let line = proxy_command_process(Platform::Linux, "nc");
    assert_eq!((line.program, line.flag), ("/bin/sh", "-c"));
    let line = proxy_command_process(Platform::Windows, "nc");
    assert_eq!((line.program, line.flag), ("cmd", "/C"));
    assert_eq!(
        timeout_text(SlowStep::Tcp, &plan.target),
        "timed out opening TCP transport for SSH host target at target.internal:2222"
    );
    assert_eq!(
        timeout_text(SlowStep::Authentication, &plan.target),
        "timed out authenticating SSH host target"
    );
}

#[test]
fn host_keys_are_looked_up_in_every_file() {
    let none: Vec<String> = vec![];
    let files = vec!["/k/one".to_string(), "/k/two".to_string()];
    assert!(matches!(
        host_key_step(ResolvedHostKeyPolicy::InsecureAcceptAny, &none, 0, false),
        HostKeyStep::Accept
    ));
    assert!(matches!(
        host_key_step(ResolvedHostKeyPolicy::KnownHosts, &files, 1, false),
        HostKeyStep::Look(1)
    ));
    assert!(matches!(
        host_key_step(ResolvedHostKeyPolicy::KnownHosts, &files, 1, true),
        HostKeyStep::Accept
    ));
    assert!(matches!(
        host_key_step(ResolvedHostKeyPolicy::KnownHosts, &files, 2, false),
        HostKeyStep::Refuse
    ));
    assert!(matches!(
        host_key_step(ResolvedHostKeyPolicy::AcceptNew, &files, 2, false),
        HostKeyStep::Learn("/k/one")
    ));
    assert!(matches!(
        host_key_step(ResolvedHostKeyPolicy::AcceptNew, &none, 0, false),
        HostKeyStep::Fail("SSH accept-new requires a known_hosts path")
    ));
}

#[test]
fn identities_are_tried_before_the_agent() {
    let attempts = auth_attempts(&endpoint("target").auth, &environment());
    assert_eq!(attempts.len(), 4);
    assert!(matches!(attempts[0], AuthAttempt::AskHash));
    assert!(matches!(&attempts[1], AuthAttempt::FoundKey { path } if path == "/k/a"));
    assert!(matches!(attempts[3], AuthAttempt::Agent));
    assert!(matches!(
        first_auth_step(&attempts, "target"),
        AuthStep::Try(0)
    ));
    let failed = AuthOutcome::Failed("unreadable".to_string());
    match auth_step(&attempts, 0, &failed, "target") {
        AuthStep::Fail(error) => assert_eq!(error, "unreadable"),
        other => panic!("{other:?}"),
    }
    assert!(matches!(
        auth_step(&attempts, 0, &AuthOutcome::Answered, "target"),
        AuthStep::Try(1)
    ));
    assert!(matches!(
        auth_step(&attempts, 1, &failed, "target"),
        AuthStep::Try(2)
    ));
    assert!(matches!(
        auth_step(&attempts, 2, &AuthOutcome::Accepted, "target"),
        AuthStep::Done
    ));
    match auth_step(&attempts, 3, &failed, "target") {
        AuthStep::Fail(error) => assert_eq!(error, "unreadable"),
        other => panic!("{other:?}"),
    }
    match auth_step(&attempts, 3, &AuthOutcome::Rejected, "target") {
        AuthStep::Fail(error) => {
            assert_eq!(error, "SSH authentication failed for host target")
        }
        other => panic!("{other:?}"),
    }
}

#[test]
fn the_keys_of_an_agent_are_offered_in_turn() {
    assert_eq!(agent_step(0, 0, false), AgentStep::Rejected);
    assert_eq!(agent_step(2, 0, false), AgentStep::Offer(0));
    assert_eq!(agent_step(2, 1, false), AgentStep::Offer(1));
    assert_eq!(agent_step(2, 1, true), AgentStep::Accepted);
    assert_eq!(agent_step(2, 2, false), AgentStep::Rejected);
}

#[test]
fn cancelling_stops_at_the_first_failure() {
    let upstream = sample_upstream();
    let count = upstream.remote_forwards.len();
    assert!(count > 0);
    assert!(matches!(first_cancel_step(&upstream), CancelStep::Cancel(0)));
    assert!(matches!(
        cancel_step(&upstream, count - 1, &RemoteReply::Done),
        CancelStep::Done
    ));
    match cancel_step(&upstream, 0, &RemoteReply::Refused("denied".to_string())) {
        CancelStep::Failed(error) => assert_eq!(error, "denied"),
        other => panic!("{other:?}"),
    }
    match cancel_step(&upstream, 0, &RemoteReply::TimedOut) {
        CancelStep::Failed(error) => assert_eq!(
            error,
            cancel_timeout_text(upstream.remote_forwards[0].remote_forward_listen())
        ),
        other => panic!("{other:?}"),
    }
    let mut idle = sample_upstream();
    idle.remote_forwards.clear();
    assert!(matches!(first_cancel_step(&idle), CancelStep::Done));
}

#[test]
fn a_chosen_way_is_the_only_one() {
    let mut auth = endpoint("target").auth;
    auth.explicit = Some(SshAuthConfig::PrivateKey {
        path: "~/key".to_string(),
        passphrase_env: Some("PASS".to_string()),
    });
    let attempts = auth_attempts(&auth, &environment());
    assert_eq!(attempts.len(), 1);
    assert!(matches!(
        &attempts[0],
        AuthAttempt::ChosenKey { path, passphrase_env }
            if path == "/home/me/key" && passphrase_env.as_deref() == Some("PASS")
    ));
    auth.explicit = Some(SshAuthConfig::Agent);
    assert_eq!(auth_attempts(&auth, &environment()).len(), 1);
    let homeless = Environment::bare(Platform::Linux);
    assert_eq!(expand_key_path("~/key", &homeless), "~/key");
}
