use stk::status::{
    connection_status_label, format_bytes, format_bytes_per_second, format_channel_latency,
    format_duration, format_optional_millis, format_runtime_status, format_speed,
    host_status_label, page_start, session_status_label, tunnel_id, tunnel_kind_label,
    tunnel_status_label, ConnectionRuntimeStatus, HostRuntimeSnapshot, HostRuntimeStatus,
    LatencySnapshot, RuntimeSnapshot, SshSessionRuntimeSnapshot, SshSessionRuntimeStatus,
    TunnelKind, TunnelRuntimeSnapshot, TunnelRuntimeStatus,
};

#[test]
fn human_status_is_not_raw_json() {
    let output = format_runtime_status(&RuntimeSnapshot::stopped());
    assert!(output.starts_with("SSH Tunnel Keeper\n"));
    assert!(output.contains("State: stopped"));
    assert!(output.contains("Speed: upload 0 B/s    download 0 B/s"));
    assert!(output.contains("Hosts: none"));
    assert!(!output.trim_start().starts_with('{'));
}

#[test]
fn current_speed_comes_from_the_runtime_snapshot() {
    let mut current = RuntimeSnapshot::stopped();
    current.upload_bps = 1_024;
    current.download_bps = 2_048;

    let output = format_runtime_status(&current);
    assert!(output.contains("Speed: upload 1.0 KiB/s    download 2.0 KiB/s"));
}

#[test]
fn sizes_and_durations_are_compact() {
    assert_eq!(format_bytes(0), "0 B");
    assert_eq!(format_bytes(1_536), "1.5 KiB");
    assert_eq!(format_bytes_per_second(1_536), "1.5 KiB/s");
    assert_eq!(format_duration(999), "999 ms");
    assert_eq!(format_duration(65_000), "1m 5s");
    assert_eq!(format_duration(3_660_000), "1h 1m");
}

fn rounded(bytes: u64) -> String {
    let units = ["B", "KiB", "MiB", "GiB", "TiB", "PiB"];
    let mut value = bytes as f64;
    let mut unit = 0;
    while value >= 1024.0 && unit + 1 < units.len() {
        value /= 1024.0;
        unit += 1;
    }
    if unit == 0 || value >= 10.0 {
        format!("{value:.0} {}", units[unit])
    } else {
        format!("{value:.1} {}", units[unit])
    }
}

#[test]
fn sizes_round_as_floating_point_numbers_do() {
    let mut seed: u64 = 88_172_645_463_325_252;
    for shift in 0..64_u32 {
        for offset in [0_u64, 1, 51, 52, 255, 256, 511, 512, 1023] {
            let around = (1_u64 << shift).wrapping_add(offset);
            assert_eq!(format_bytes(around), rounded(around), "{around}");
        }
        seed ^= seed << 13;
        seed ^= seed >> 7;
        seed ^= seed << 17;
        assert_eq!(format_bytes(seed >> shift), rounded(seed >> shift));
        assert_eq!(
            format_bytes_per_second(seed >> shift),
            format!("{}/s", rounded(seed >> shift))
        );
    }
    assert_eq!(format_bytes(u64::MAX), rounded(u64::MAX));
}

#[test]
fn durations_name_the_two_largest_units() {
    assert_eq!(format_duration(0), "0 ms");
    assert_eq!(format_duration(1_000), "1s");
    assert_eq!(format_duration(90_061_000), "1d 1h");
    assert_eq!(format_optional_millis(Some(7)), "7 ms");
    assert_eq!(format_optional_millis(None), "-");
}

#[test]
fn latencies_are_told_where_there_are_samples() {
    let none = LatencySnapshot {
        samples: 0,
        average_ms: None,
        max_ms: None,
    };
    let some = LatencySnapshot {
        samples: 2,
        average_ms: Some("1.5".to_string()),
        max_ms: Some("2.0".to_string()),
    };
    assert_ne!(format_channel_latency(&none), format_channel_latency(&some));
    assert!(format_channel_latency(&some).contains("1.5"));
    assert!(format_channel_latency(&some).contains("2.0"));
}

#[test]
fn labels_are_lower_case_words() {
    assert_eq!(host_status_label(HostRuntimeStatus::Degraded), "degraded");
    assert_eq!(
        session_status_label(SshSessionRuntimeStatus::Draining),
        "draining"
    );
    assert_eq!(
        tunnel_status_label(TunnelRuntimeStatus::Listening),
        "listening"
    );
    assert_eq!(tunnel_kind_label(TunnelKind::RemoteProxy), "remote-proxy");
    assert_eq!(
        connection_status_label(ConnectionRuntimeStatus::Closed),
        "closed"
    );
    assert_eq!(
        tunnel_id("host", TunnelKind::LocalForward, "name"),
        "host/local-forward/name"
    );
    assert_eq!(format_speed(0, 1), "upload 0 B/s    download 1 B/s");
    assert_ne!(page_start(true), page_start(false));
}

#[test]
fn hosts_are_told_with_their_sessions_and_tunnels() {
    let mut snapshot = RuntimeSnapshot::stopped();
    snapshot.running = true;
    snapshot.hosts.push(HostRuntimeSnapshot {
        name: "alpha".to_string(),
        status: HostRuntimeStatus::Healthy,
        ssh_alias: "alias".to_string(),
        address: "192.0.2.1:22".to_string(),
        rtt_ms: Some(12),
        min_sessions: 1,
        max_sessions: 2,
        connections_active: 0,
        connections_total: 0,
        restart_count: 0,
        errors_total: 1,
        upload_bps: 0,
        download_bps: 0,
        uploaded_bytes_total: 0,
        downloaded_bytes_total: 0,
        last_error: Some("it broke".to_string()),
        sessions: vec![SshSessionRuntimeSnapshot {
            id: 77,
            status: SshSessionRuntimeStatus::Suspect,
            uptime_ms: None,
            rtt_ms: None,
            remote_forward_owner: true,
            retiring: true,
            startup_ms: Some("12.5".to_string()),
            active_channels: 3,
            channels_total: 4,
            channel_open_errors_total: 0,
            upload_bps: 0,
            download_bps: 0,
            uploaded_bytes_total: 0,
            downloaded_bytes_total: 0,
            last_error: None,
        }],
        tunnels: vec![TunnelRuntimeSnapshot {
            kind: TunnelKind::LocalProxy,
            name: "socks".to_string(),
            status: TunnelRuntimeStatus::Listening,
            listen: "127.0.0.1:1080".to_string(),
            target: None,
            protocol: Some("SOCKS5H".to_string()),
            connections_active: 0,
            connections_total: 0,
            errors_total: 0,
            upload_bps: 0,
            download_bps: 0,
            uploaded_bytes_total: 0,
            downloaded_bytes_total: 0,
            owner_session_id: None,
            last_error: None,
        }],
        connections: vec![],
    });
    let output = format_runtime_status(&snapshot);
    assert!(output.contains("State: running"));
    assert!(output.contains("alpha"));
    assert!(output.contains("192.0.2.1:22"));
    assert!(output.contains("it broke"));
    assert!(output.contains("77"));
    assert!(output.contains("suspect"));
    assert!(output.contains("local-proxy"));
    assert!(output.contains("127.0.0.1:1080"));
    assert!(!output.contains("Hosts: none"));
}
