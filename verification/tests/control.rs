use stk::address::parse_socket;
use stk::config::ControlConfig;
use stk::config_path::ConfigScope;
use stk::control::{
    auto_clear_path, capture_path, command_request, control_answer, control_route,
    default_control_endpoint, expect_status, frame_line, named_pipe_path, pipe_retry, query_request,
    socket_action, split_http_response, take_line, take_rest, ControlEndpoint, ControlRoute,
    SocketAction, SocketProbe,
};
use stk::environment::{Environment, Platform};
use stk::paths::HomeDirectory;
use stk::reload::{
    debounce_reload_requests, reload_decision, rollback_failure_text, start_outcome,
    ContentDecision, ReloadDecision, ReloadNext, ReloadRequest, ReloadState,
};

const HOME: &str = "/home/me";

fn environment(platform: Platform) -> Environment {
    let mut environment = Environment::bare(platform);
    environment.home = Some(HOME.to_string());
    environment
}

fn home() -> HomeDirectory {
    environment(Platform::Linux).user_home()
}

#[test]
fn parses_all_endpoint_kinds() {
    assert_eq!(
        ControlEndpoint::parse("tcp:19090", &home()).unwrap(),
        ControlEndpoint::Tcp(parse_socket("127.0.0.1:19090").unwrap())
    );
    assert_eq!(
        ControlEndpoint::parse("tcp:[::]:19091", &home()).unwrap(),
        ControlEndpoint::Tcp(parse_socket("[::]:19091").unwrap())
    );
    assert_eq!(
        ControlEndpoint::parse("unix:/tmp/stk.sock", &home()).unwrap(),
        ControlEndpoint::Unix("/tmp/stk.sock".to_string())
    );
    assert_eq!(
        ControlEndpoint::parse("pipe:stk-test", &home()).unwrap(),
        ControlEndpoint::NamedPipe("stk-test".to_string())
    );
}

#[test]
fn endpoints_are_read_back() {
    for text in [
        "tcp:127.0.0.1:19090",
        "tcp:[::1]:19091",
        "unix:/tmp/stk.sock",
        "pipe:stk-test",
    ] {
        assert_eq!(ControlEndpoint::parse(text, &home()).unwrap().text(), text);
    }
    assert_eq!(
        ControlEndpoint::parse("unix://~/s", &home()).unwrap().text(),
        "unix:/home/me/s"
    );
}

#[test]
fn other_endpoints_are_refused() {
    for text in ["udp:1", "", "unix:", "pipe: ", "tcp:", "tcp:x"] {
        assert!(ControlEndpoint::parse(text, &home()).is_err(), "{text}");
    }
    assert_eq!(
        ControlEndpoint::parse("unix: ", &home()).unwrap_err(),
        "Unix socket path must not be empty"
    );
}

#[test]
fn endpoints_come_from_the_configuration_or_the_scope() {
    let mut config = ControlConfig::default();
    assert_eq!(
        ControlEndpoint::from_config(&config, ConfigScope::System, &environment(Platform::Linux))
            .unwrap(),
        ControlEndpoint::Unix("/run/stk/control.sock".to_string())
    );
    config.endpoint = Some("tcp:1234".to_string());
    assert_eq!(
        ControlEndpoint::from_config(&config, ConfigScope::System, &environment(Platform::Linux))
            .unwrap()
            .text(),
        "tcp:127.0.0.1:1234"
    );
    assert_eq!(
        default_control_endpoint(ConfigScope::User, &environment(Platform::Linux)).text(),
        "unix:/home/me/.config/stk/control.sock"
    );
    assert!(matches!(
        default_control_endpoint(ConfigScope::User, &environment(Platform::Windows)),
        ControlEndpoint::NamedPipe(_)
    ));
    assert_eq!(
        ControlEndpoint::tcp_connect_address(parse_socket("0.0.0.0:80").unwrap()).text(),
        "127.0.0.1:80"
    );
    assert_eq!(named_pipe_path("stk"), r"\\.\pipe\stk");
    assert_eq!(named_pipe_path(r"\\.\pipe\stk"), r"\\.\pipe\stk");
}

#[test]
fn requests_reach_their_routes() {
    assert_eq!(control_route("GET", "/v1/status"), ControlRoute::Status);
    assert_eq!(
        control_route("POST", capture_path(true)),
        ControlRoute::CaptureStart
    );
    assert_eq!(
        control_route("POST", auto_clear_path(false)),
        ControlRoute::AutoClearDisable
    );
    assert_eq!(control_route("POST", "/v1/reload"), ControlRoute::Reload);
    assert_eq!(control_route("PUT", "/v1/reload"), ControlRoute::NotFound);
    assert_eq!(
        control_answer(ControlRoute::Reload, true),
        Some((202, "reload requested\n"))
    );
    assert_eq!(
        control_answer(ControlRoute::Reload, false),
        Some((503, "reload control unavailable\n"))
    );
    assert_eq!(
        control_answer(ControlRoute::NotFound, false),
        Some((404, "not found\n"))
    );
    assert_eq!(control_answer(ControlRoute::Status, false), None);
}

#[test]
fn requests_and_responses_are_written_and_read() {
    assert_eq!(
        query_request("/v1/status"),
        "GET /v1/status HTTP/1.1\r\nHost: localhost\r\nConnection: close\r\nAccept: application/json\r\n\r\n"
    );
    assert_eq!(
        command_request("POST", "/v1/reload"),
        "POST /v1/reload HTTP/1.1\r\nHost: localhost\r\nConnection: close\r\nContent-Length: 0\r\n\r\n"
    );
    let response = "HTTP/1.1 200 OK\r\nContent-Length: 2\r\n\r\n{}";
    assert_eq!(
        split_http_response(response).unwrap(),
        ("HTTP/1.1 200 OK".to_string(), "{}".to_string())
    );
    assert_eq!(expect_status(response, " 200 ", "control API").unwrap(), "{}");
    assert_eq!(
        expect_status(response, " 202 ", "runtime control API").unwrap_err(),
        "runtime control API returned HTTP/1.1 200 OK"
    );
    assert_eq!(
        split_http_response("HTTP/1.1 200 OK\r\n").unwrap_err(),
        "control API returned an incomplete HTTP response"
    );
}

#[test]
fn lines_of_a_stream_are_taken_one_by_one() {
    let mut buffer = b"  \r\n{\"a\":1}\r\n\n{\"b\"".to_vec();
    assert_eq!(take_line(&mut buffer), Some(b"{\"a\":1}".to_vec()));
    assert_eq!(take_line(&mut buffer), None);
    assert_eq!(take_rest(&mut buffer), Some(b"{\"b\"".to_vec()));
    assert_eq!(take_rest(&mut buffer), None);
    let mut framed = frame_line(b"{}".to_vec());
    framed.extend_from_slice(b"rest");
    assert_eq!(take_line(&mut framed), Some(b"{}".to_vec()));
    assert_eq!(framed, b"rest");
}

#[test]
fn sockets_are_replaced_only_where_nobody_listens() {
    assert_eq!(socket_action(SocketProbe::Answered), SocketAction::InUse);
    assert_eq!(socket_action(SocketProbe::Refused), SocketAction::Replace);
    assert_eq!(socket_action(SocketProbe::Missing), SocketAction::Replace);
    assert_eq!(socket_action(SocketProbe::Failed), SocketAction::Unreachable);
}

#[test]
fn valid_config_changes_reload_and_invalid_changes_are_ignored() {
    let mut state = ReloadState {
        last_observed_content: "a".to_string(),
    };
    assert_eq!(state.on_content(false, "a"), ContentDecision::Unchanged);
    assert_eq!(state.on_content(false, "broken"), ContentDecision::Parse);
    assert_eq!(reload_decision(false, false, false), ReloadDecision::Invalid);
    assert_eq!(
        state.on_content(false, "broken"),
        ContentDecision::Unchanged
    );
    assert_eq!(state.on_content(false, "b"), ContentDecision::Parse);
    assert_eq!(reload_decision(false, true, false), ReloadDecision::Replace);
    assert_eq!(
        reload_decision(false, true, true),
        ReloadDecision::Unchanged
    );
    assert_eq!(state.on_content(true, "b"), ContentDecision::Parse);
    assert_eq!(reload_decision(true, true, true), ReloadDecision::Replace);
}

#[test]
fn one_wish_forces_a_reload() {
    assert!(debounce_reload_requests(&vec![
        ReloadRequest::Filesystem,
        ReloadRequest::Force
    ]));
    assert!(!debounce_reload_requests(&vec![ReloadRequest::Filesystem]));
    assert_eq!(
        rollback_failure_text("a", "b"),
        "new configuration failed to start: a; rollback also failed: b"
    );
}

#[test]
fn busy_pipes_are_opened_again() {
    assert_eq!(pipe_retry(1, Some(231)), Some(50_000_000));
    assert_eq!(pipe_retry(39, Some(231)), Some(50_000_000));
    assert_eq!(pipe_retry(40, Some(231)), None);
    assert_eq!(pipe_retry(1, Some(2)), None);
    assert_eq!(pipe_retry(1, None), None);
}

#[test]
fn a_failed_start_is_rolled_back_once() {
    assert_eq!(start_outcome(false, true), ReloadNext::Running);
    assert_eq!(start_outcome(true, true), ReloadNext::Running);
    assert_eq!(start_outcome(false, false), ReloadNext::RollBack);
    assert_eq!(start_outcome(true, false), ReloadNext::GiveUp);
}
