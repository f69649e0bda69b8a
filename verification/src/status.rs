//! What a running program tells of itself, and how that is shown to people.
use crate::text;
use crate::text::{concat2, concat3, concat4, decimal, joined, texts};
use vstd::prelude::*;

verus! {

// ---------------------------------------------------------------------------
// What is told
// ---------------------------------------------------------------------------
/// How a host is.
#[derive(Debug, Clone, Copy, PartialEq, Eq, Structural)]
pub enum HostRuntimeStatus {
    Idle,
    Connecting,
    Healthy,
    Degraded,
    Offline,
}

/// How a session is.
#[derive(Debug, Clone, Copy, PartialEq, Eq, Structural)]
pub enum SshSessionRuntimeStatus {
    Connecting,
    Healthy,
    Suspect,
    Draining,
    Offline,
}

/// How a tunnel is.
#[derive(Debug, Clone, Copy, PartialEq, Eq, Structural)]
pub enum TunnelRuntimeStatus {
    Starting,
    Listening,
    Error,
    Stopped,
}

/// What a tunnel does.
#[derive(Debug, Clone, Copy, PartialEq, Eq, Structural)]
pub enum TunnelKind {
    LocalProxy,
    LocalForward,
    RemoteProxy,
    RemoteForward,
}

/// How a connection is.
#[derive(Debug, Clone, Copy, PartialEq, Eq, Structural)]
pub enum ConnectionRuntimeStatus {
    Connecting,
    Active,
    Closed,
    Error,
}

/// Whether connections are captured, and whether closed ones are cleared away.
#[derive(Debug, Clone, Copy, PartialEq, Eq, Structural)]
pub struct ConnectionCaptureSnapshot {
    pub recording: bool,
    pub auto_clear_closed: bool,
}

/// How long something takes, in milliseconds with one digit behind the point.
#[derive(Debug, Clone, PartialEq, Eq)]
pub struct LatencySnapshot {
    pub samples: u64,
    pub average_ms: Option<String>,
    pub max_ms: Option<String>,
}

/// A session.
#[derive(Debug, Clone, PartialEq, Eq)]
pub struct SshSessionRuntimeSnapshot {
    pub id: u64,
    pub status: SshSessionRuntimeStatus,
    pub uptime_ms: Option<u64>,
    pub rtt_ms: Option<u64>,
    pub remote_forward_owner: bool,
    pub retiring: bool,
    /// In milliseconds with one digit behind the point.
    pub startup_ms: Option<String>,
    pub active_channels: usize,
    pub channels_total: u64,
    pub channel_open_errors_total: u64,
    pub upload_bps: u64,
    pub download_bps: u64,
    pub uploaded_bytes_total: u64,
    pub downloaded_bytes_total: u64,
    pub last_error: Option<String>,
}

/// A tunnel.
#[derive(Debug, Clone, PartialEq, Eq)]
pub struct TunnelRuntimeSnapshot {
    pub kind: TunnelKind,
    pub name: String,
    pub status: TunnelRuntimeStatus,
    pub listen: String,
    pub target: Option<String>,
    pub protocol: Option<String>,
    pub connections_active: usize,
    pub connections_total: u64,
    pub errors_total: u64,
    pub upload_bps: u64,
    pub download_bps: u64,
    pub uploaded_bytes_total: u64,
    pub downloaded_bytes_total: u64,
    pub owner_session_id: Option<u64>,
    pub last_error: Option<String>,
}

/// A connection.
#[derive(Debug, Clone, PartialEq, Eq)]
pub struct ConnectionRuntimeSnapshot {
    pub id: u64,
    pub status: ConnectionRuntimeStatus,
    pub peer_address: String,
    pub target: Option<String>,
    pub tunnel_id: String,
    pub protocol: Option<String>,
    pub session_id: Option<u64>,
    pub uptime_ms: u64,
    pub upload_bps: u64,
    pub download_bps: u64,
    pub uploaded_bytes_total: u64,
    pub downloaded_bytes_total: u64,
    pub errors_total: u64,
    pub last_error: Option<String>,
}

/// A host.
#[derive(Debug, Clone, PartialEq, Eq)]
pub struct HostRuntimeSnapshot {
    pub name: String,
    pub status: HostRuntimeStatus,
    pub ssh_alias: String,
    pub address: String,
    pub rtt_ms: Option<u64>,
    pub min_sessions: usize,
    pub max_sessions: usize,
    pub connections_active: usize,
    pub connections_total: u64,
    pub restart_count: u64,
    pub errors_total: u64,
    pub upload_bps: u64,
    pub download_bps: u64,
    pub uploaded_bytes_total: u64,
    pub downloaded_bytes_total: u64,
    pub last_error: Option<String>,
    pub sessions: Vec<SshSessionRuntimeSnapshot>,
    pub tunnels: Vec<TunnelRuntimeSnapshot>,
    pub connections: Vec<ConnectionRuntimeSnapshot>,
}

/// The whole program.
#[derive(Debug, Clone, PartialEq, Eq)]
pub struct RuntimeSnapshot {
    pub running: bool,
    pub uptime_ms: Option<u64>,
    pub config_generation: u64,
    pub config_reloads_total: u64,
    pub config_reload_errors_total: u64,
    pub configured_hosts: usize,
    pub ssh_sessions_active: usize,
    pub ssh_sessions_total: u64,
    pub local_connections_active: usize,
    pub local_connections_total: u64,
    pub connection_capture: ConnectionCaptureSnapshot,
    pub upload_bps: u64,
    pub download_bps: u64,
    pub uploaded_bytes_total: u64,
    pub downloaded_bytes_total: u64,
    pub transferred_bytes_total: u64,
    pub ssh_channel_open: LatencySnapshot,
    pub errors_total: u64,
    pub hosts: Vec<HostRuntimeSnapshot>,
}

impl RuntimeSnapshot {
    /// A program that does not run.
    pub fn stopped() -> (r: RuntimeSnapshot)
        ensures
            !r.running,
            r.uptime_ms is None,
            r.config_generation == 0,
            r.config_reloads_total == 0,
            r.config_reload_errors_total == 0,
            r.configured_hosts == 0,
            r.ssh_sessions_active == 0,
            r.ssh_sessions_total == 0,
            r.local_connections_active == 0,
            r.local_connections_total == 0,
            !r.connection_capture.recording,
            !r.connection_capture.auto_clear_closed,
            r.upload_bps == 0,
            r.download_bps == 0,
            r.uploaded_bytes_total == 0,
            r.downloaded_bytes_total == 0,
            r.transferred_bytes_total == 0,
            r.ssh_channel_open.samples == 0,
            r.ssh_channel_open.average_ms is None,
            r.ssh_channel_open.max_ms is None,
            r.errors_total == 0,
            r.hosts@.len() == 0,
    {
        RuntimeSnapshot {
            running: false,
            uptime_ms: None,
            config_generation: 0,
            config_reloads_total: 0,
            config_reload_errors_total: 0,
            configured_hosts: 0,
            ssh_sessions_active: 0,
            ssh_sessions_total: 0,
            local_connections_active: 0,
            local_connections_total: 0,
            connection_capture: ConnectionCaptureSnapshot {
                recording: false,
                auto_clear_closed: false,
            },
            upload_bps: 0,
            download_bps: 0,
            uploaded_bytes_total: 0,
            downloaded_bytes_total: 0,
            transferred_bytes_total: 0,
            ssh_channel_open: LatencySnapshot { samples: 0, average_ms: None, max_ms: None },
            errors_total: 0,
            hosts: Vec::new(),
        }
    }
}

// ---------------------------------------------------------------------------
// Words
// ---------------------------------------------------------------------------
/// The word for how a host is.
pub open spec fn host_status_word(status: HostRuntimeStatus) -> Seq<char> {
    match status {
        HostRuntimeStatus::Idle => "idle"@,
        HostRuntimeStatus::Connecting => "connecting"@,
        HostRuntimeStatus::Healthy => "healthy"@,
        HostRuntimeStatus::Degraded => "degraded"@,
        HostRuntimeStatus::Offline => "offline"@,
    }
}

/// The word for how a session is.
pub open spec fn session_status_word(status: SshSessionRuntimeStatus) -> Seq<char> {
    match status {
        SshSessionRuntimeStatus::Connecting => "connecting"@,
        SshSessionRuntimeStatus::Healthy => "healthy"@,
        SshSessionRuntimeStatus::Suspect => "suspect"@,
        SshSessionRuntimeStatus::Draining => "draining"@,
        SshSessionRuntimeStatus::Offline => "offline"@,
    }
}

/// The word for how a tunnel is.
pub open spec fn tunnel_status_word(status: TunnelRuntimeStatus) -> Seq<char> {
    match status {
        TunnelRuntimeStatus::Starting => "starting"@,
        TunnelRuntimeStatus::Listening => "listening"@,
        TunnelRuntimeStatus::Error => "listen-failed"@,
        TunnelRuntimeStatus::Stopped => "stopped"@,
    }
}

/// The word for what a tunnel does.
pub open spec fn tunnel_kind_word(kind: TunnelKind) -> Seq<char> {
    match kind {
        TunnelKind::LocalProxy => "local-proxy"@,
        TunnelKind::LocalForward => "local-forward"@,
        TunnelKind::RemoteProxy => "remote-proxy"@,
        TunnelKind::RemoteForward => "remote-forward"@,
    }
}

/// The word for how a connection is.
pub open spec fn connection_status_word(status: ConnectionRuntimeStatus) -> Seq<char> {
    match status {
        ConnectionRuntimeStatus::Connecting => "connecting"@,
        ConnectionRuntimeStatus::Active => "active"@,
        ConnectionRuntimeStatus::Closed => "closed"@,
        ConnectionRuntimeStatus::Error => "error"@,
    }
}

/// The word for how a host is.
pub fn host_status_label(status: HostRuntimeStatus) -> (r: &'static str)
    ensures
        r@ == host_status_word(status),
{
    match status {
        HostRuntimeStatus::Idle => "idle",
        HostRuntimeStatus::Connecting => "connecting",
        HostRuntimeStatus::Healthy => "healthy",
        HostRuntimeStatus::Degraded => "degraded",
        HostRuntimeStatus::Offline => "offline",
    }
}

/// The word for how a session is.
pub fn session_status_label(status: SshSessionRuntimeStatus) -> (r: &'static str)
    ensures
        r@ == session_status_word(status),
{
    match status {
        SshSessionRuntimeStatus::Connecting => "connecting",
        SshSessionRuntimeStatus::Healthy => "healthy",
        SshSessionRuntimeStatus::Suspect => "suspect",
        SshSessionRuntimeStatus::Draining => "draining",
        SshSessionRuntimeStatus::Offline => "offline",
    }
}

/// The word for how a tunnel is.
pub fn tunnel_status_label(status: TunnelRuntimeStatus) -> (r: &'static str)
    ensures
        r@ == tunnel_status_word(status),
{
    match status {
        TunnelRuntimeStatus::Starting => "starting",
        TunnelRuntimeStatus::Listening => "listening",
        TunnelRuntimeStatus::Error => "listen-failed",
        TunnelRuntimeStatus::Stopped => "stopped",
    }
}

/// The word for what a tunnel does.
pub fn tunnel_kind_label(kind: TunnelKind) -> (r: &'static str)
    ensures
        r@ == tunnel_kind_word(kind),
{
    match kind {
        TunnelKind::LocalProxy => "local-proxy",
        TunnelKind::LocalForward => "local-forward",
        TunnelKind::RemoteProxy => "remote-proxy",
        TunnelKind::RemoteForward => "remote-forward",
    }
}

/// The word for how a connection is.
pub fn connection_status_label(status: ConnectionRuntimeStatus) -> (r: &'static str)
    ensures
        r@ == connection_status_word(status),
{
    match status {
        ConnectionRuntimeStatus::Connecting => "connecting",
        ConnectionRuntimeStatus::Active => "active",
        ConnectionRuntimeStatus::Closed => "closed",
        ConnectionRuntimeStatus::Error => "error",
    }
}

/// The name by which a tunnel is told from all others.
pub open spec fn tunnel_id_text(host: Seq<char>, kind: TunnelKind, name: Seq<char>) -> Seq<char> {
    host + "/"@ + tunnel_kind_word(kind) + "/"@ + name
}

/// The name by which a tunnel is told from all others.
pub fn tunnel_id(host: &str, kind: TunnelKind, name: &str) -> (r: String)
    ensures
        r@ == tunnel_id_text(host@, kind, name@),
{
    let front = concat4(host, "/", tunnel_kind_label(kind), "/");
    concat2(front.as_str(), name)
}

// ---------------------------------------------------------------------------
// Numbers
// ---------------------------------------------------------------------------
/// How long something took.
pub open spec fn duration_text(milliseconds: u64) -> Seq<char> {
    let total = milliseconds as int / 1000;
    let days = total / 86400;
    let hours = total % 86400 / 3600;
    let minutes = total % 3600 / 60;
    let seconds = total % 60;
    if milliseconds < 1000 {
        decimal(milliseconds as nat) + " ms"@
    } else if days > 0 {
        decimal(days as nat) + "d "@ + decimal(hours as nat) + "h"@
    } else if hours > 0 {
        decimal(hours as nat) + "h "@ + decimal(minutes as nat) + "m"@
    } else if minutes > 0 {
        decimal(minutes as nat) + "m "@ + decimal(seconds as nat) + "s"@
    } else {
        decimal(seconds as nat) + "s"@
    }
}

/// Says how long something took.
pub fn format_duration(milliseconds: u64) -> (r: String)
    ensures
        r@ == duration_text(milliseconds),
{
    if milliseconds < 1000 {
        return concat2(text::decimal_text(milliseconds).as_str(), " ms");
    }
    let total: u64 = milliseconds / 1000;
    let days = text::decimal_text(total / 86400);
    let hours = text::decimal_text(total % 86400 / 3600);
    let minutes = text::decimal_text(total % 3600 / 60);
    let seconds = text::decimal_text(total % 60);
    if total / 86400 > 0 {
        concat4(days.as_str(), "d ", hours.as_str(), "h")
    } else if total % 86400 / 3600 > 0 {
        concat4(hours.as_str(), "h ", minutes.as_str(), "m")
    } else if total % 3600 / 60 > 0 {
        concat4(minutes.as_str(), "m ", seconds.as_str(), "s")
    } else {
        concat2(seconds.as_str(), "s")
    }
}

/// How long something took, or a dash.
pub open spec fn optional_duration_text(milliseconds: Option<u64>) -> Seq<char> {
    match milliseconds {
        Some(value) => duration_text(value),
        None => "-"@,
    }
}

/// Says how long something took.
pub fn format_optional_duration(milliseconds: Option<u64>) -> (r: String)
    ensures
        r@ == optional_duration_text(milliseconds),
{
    match milliseconds {
        Some(value) => format_duration(value),
        None => "-".to_owned(),
    }
}

/// Milliseconds, or a dash.
pub open spec fn optional_millis_text(milliseconds: Option<u64>) -> Seq<char> {
    match milliseconds {
        Some(value) => decimal(value as nat) + " ms"@,
        None => "-"@,
    }
}

/// Writes milliseconds.
pub fn format_optional_millis(milliseconds: Option<u64>) -> (r: String)
    ensures
        r@ == optional_millis_text(milliseconds),
{
    match milliseconds {
        Some(value) => concat2(text::decimal_text(value).as_str(), " ms"),
        None => "-".to_owned(),
    }
}

/// Milliseconds that are written already, or a dash.
pub open spec fn decimal_millis_text(milliseconds: Option<String>) -> Seq<char> {
    match milliseconds {
        Some(value) => value@ + " ms"@,
        None => "-"@,
    }
}

/// Writes milliseconds that are written already.
pub fn format_optional_decimal_millis(milliseconds: &Option<String>) -> (r: String)
    ensures
        r@ == decimal_millis_text(*milliseconds),
{
    match milliseconds {
        Some(value) => concat2(value.as_str(), " ms"),
        None => "-".to_owned(),
    }
}

/// The integer that is nearest to a fraction; the even one of two.
pub open spec fn nearest(numerator: nat, denominator: nat) -> nat {
    let whole = numerator / denominator;
    let rest = numerator % denominator;
    if 2 * rest > denominator || (2 * rest == denominator && whole % 2 == 1) {
        whole + 1
    } else {
        whole
    }
}

/// How far apart numbers with fifty-three significant binary digits are, around `n`.
pub open spec fn float_step(n: nat) -> nat
    decreases n,
{
    if n < 0x20_0000_0000_0000 {
        1
    } else {
        2 * float_step(n / 2)
    }
}

/// `n` with fifty-three significant binary digits.
pub open spec fn float_rounded(n: nat) -> nat {
    nearest(n, float_step(n)) * float_step(n)
}

/// 1024 to the power of `unit`, up to the fifth.
pub open spec fn unit_size(unit: int) -> nat {
    if unit <= 0 {
        1
    } else if unit == 1 {
        1024
    } else if unit == 2 {
        1_048_576
    } else if unit == 3 {
        1_073_741_824
    } else if unit == 4 {
        1_099_511_627_776
    } else {
        1_125_899_906_842_624
    }
}

/// The largest unit that a number of bytes fills.
pub open spec fn unit_of(bytes: nat) -> int {
    if bytes < unit_size(1) {
        0
    } else if bytes < unit_size(2) {
        1
    } else if bytes < unit_size(3) {
        2
    } else if bytes < unit_size(4) {
        3
    } else if bytes < unit_size(5) {
        4
    } else {
        5
    }
}

/// A number of bytes in a unit: below ten with one digit behind the point.
pub open spec fn scaled_text(bytes: nat) -> Seq<char> {
    let size = unit_size(unit_of(bytes));
    if unit_of(bytes) == 0 || bytes >= 10 * size {
        decimal(nearest(bytes, size))
    } else {
        let tenths = nearest(10 * bytes, size);
        decimal(tenths / 10) + "."@ + decimal(tenths % 10)
    }
}

/// The word for a unit.
pub open spec fn unit_word(unit: int) -> Seq<char> {
    if unit <= 0 {
        "B"@
    } else if unit == 1 {
        "KiB"@
    } else if unit == 2 {
        "MiB"@
    } else if unit == 3 {
        "GiB"@
    } else if unit == 4 {
        "TiB"@
    } else {
        "PiB"@
    }
}

/// A number of bytes.
pub open spec fn bytes_text(bytes: u64) -> Seq<char> {
    let rounded = float_rounded(bytes as nat);
    scaled_text(rounded) + " "@ + unit_word(unit_of(rounded))
}

/// A number of bytes in each second.
pub open spec fn speed_text(bytes: u64) -> Seq<char> {
    bytes_text(bytes) + "/s"@
}

fn round_fraction(numerator: u128, denominator: u128) -> (r: u128)
    requires
        denominator > 0,
        numerator < 0x1000_0000_0000_0000_0000_0000,
        denominator < 0x1000_0000_0000_0000_0000_0000,
    ensures
        r == nearest(numerator as nat, denominator as nat),
{
    let whole: u128 = numerator / denominator;
    let rest: u128 = numerator % denominator;
    assert(whole <= numerator) by (nonlinear_arith)
        requires
            whole == numerator / denominator,
            denominator > 0,
    ;
    if 2 * rest > denominator || (2 * rest == denominator && whole % 2 == 1) {
        whole + 1
    } else {
        whole
    }
}

proof fn lemma_float_step(n: nat)
    ensures
        float_step(n) >= 1,
        n < 0x20_0000_0000_0000 ==> float_step(n) == 1,
        n >= 0x20_0000_0000_0000 ==> float_step(n) <= n,
    decreases n,
{
    if n >= 0x20_0000_0000_0000 {
        lemma_float_step(n / 2);
    }
}

fn find_float_step(n: u64) -> (r: u64)
    ensures
        r == float_step(n as nat),
        r >= 1,
    decreases n,
{
    proof {
        lemma_float_step(n as nat);
    }
    if n < 0x20_0000_0000_0000 {
        1
    } else {
        let half = find_float_step(n / 2);
        proof {
            lemma_float_step((n / 2) as nat);
        }
        2 * half
    }
}

fn round_to_float(n: u64) -> (r: u128)
    ensures
        r == float_rounded(n as nat),
        r < 0x4_0000_0000_0000_0000,
{
    let step: u64 = find_float_step(n);
    proof {
        lemma_float_step(n as nat);
    }
    let whole: u128 = round_fraction(n as u128, step as u128);
    proof {
        let (a, s, w) = (n as int, step as int, whole as int);
        assert(w <= a / s + 1);
        assert((a / s) * s <= a) by (nonlinear_arith)
            requires
                s > 0,
                a >= 0,
        ;
        assert(w * s <= a + s) by (nonlinear_arith)
            requires
                w <= a / s + 1,
                (a / s) * s <= a,
                s > 0,
        ;
        assert(0 <= w * s) by (nonlinear_arith)
            requires
                w >= 0,
                s > 0,
        ;
    }
    whole * (step as u128)
}

fn size_of_unit(unit: u8) -> (r: u128)
    ensures
        r == unit_size(unit as int),
        1 <= r <= 1_125_899_906_842_624,
{
    if unit == 0 {
        1
    } else if unit == 1 {
        1024
    } else if unit == 2 {
        1_048_576
    } else if unit == 3 {
        1_073_741_824
    } else if unit == 4 {
        1_099_511_627_776
    } else {
        1_125_899_906_842_624
    }
}

fn find_unit(bytes: u128) -> (r: u8)
    ensures
        r == unit_of(bytes as nat),
{
    if bytes < 1024 {
        0
    } else if bytes < 1_048_576 {
        1
    } else if bytes < 1_073_741_824 {
        2
    } else if bytes < 1_099_511_627_776 {
        3
    } else if bytes < 1_125_899_906_842_624 {
        4
    } else {
        5
    }
}

fn write_scaled(bytes: u128) -> (r: String)
    requires
        bytes < 0x4_0000_0000_0000_0000,
    ensures
        r@ == scaled_text(bytes as nat),
{
    let unit: u8 = find_unit(bytes);
    let size: u128 = size_of_unit(unit);
    if unit == 0 || bytes >= 10 * size {
        text::wide_decimal_text(round_fraction(bytes, size))
    } else {
        let tenths: u128 = round_fraction(10 * bytes, size);
        let whole = text::wide_decimal_text(tenths / 10);
        let rest = text::wide_decimal_text(tenths % 10);
        concat3(whole.as_str(), ".", rest.as_str())
    }
}

fn unit_label(unit: u8) -> (r: &'static str)
    ensures
        r@ == unit_word(unit as int),
{
    if unit == 0 {
        "B"
    } else if unit == 1 {
        "KiB"
    } else if unit == 2 {
        "MiB"
    } else if unit == 3 {
        "GiB"
    } else if unit == 4 {
        "TiB"
    } else {
        "PiB"
    }
}

/// Writes a number of bytes.
pub fn format_bytes(bytes: u64) -> (r: String)
    ensures
        r@ == bytes_text(bytes),
{
    let rounded = round_to_float(bytes);
    let scaled = write_scaled(rounded);
    concat3(scaled.as_str(), " ", unit_label(find_unit(rounded)))
}

/// Writes a number of bytes in each second.
pub fn format_bytes_per_second(bytes_per_second: u64) -> (r: String)
    ensures
        r@ == speed_text(bytes_per_second),
{
    let bytes = format_bytes(bytes_per_second);
    concat2(bytes.as_str(), "/s")
}

/// Speeds in both directions.
pub open spec fn speeds_text(upload: u64, download: u64) -> Seq<char> {
    "upload "@ + speed_text(upload) + "    download "@ + speed_text(download)
}

/// Writes speeds in both directions.
pub fn format_speed(upload_bps: u64, download_bps: u64) -> (r: String)
    ensures
        r@ == speeds_text(upload_bps, download_bps),
{
    let upload = format_bytes_per_second(upload_bps);
    let download = format_bytes_per_second(download_bps);
    concat4("upload ", upload.as_str(), "    download ", download.as_str())
}

/// A number of bytes below two to the fifty-third is shown without loss before it is cut to a
/// digit behind the point.
pub proof fn small_numbers_are_exact(bytes: u64)
    requires
        bytes < 0x20_0000_0000_0000,
    ensures
        float_rounded(bytes as nat) == bytes,
        bytes < 1024 ==> bytes_text(bytes) == decimal(bytes as nat) + " "@ + "B"@,
{
    lemma_float_step(bytes as nat);
    assert(nearest(bytes as nat, 1) == bytes);
}

// ---------------------------------------------------------------------------
// Lines
// ---------------------------------------------------------------------------
/// What is special about a session.
pub open spec fn session_flags(owner: bool, retiring: bool) -> Seq<char> {
    if owner && retiring {
        "    remote-forward owner, retiring"@
    } else if owner {
        "    remote-forward owner"@
    } else if retiring {
        "    retiring"@
    } else {
        Seq::empty()
    }
}

fn format_session_flags(owner: bool, retiring: bool) -> (r: String)
    ensures
        r@ == session_flags(owner, retiring),
{
    if owner && retiring {
        "    remote-forward owner, retiring".to_owned()
    } else if owner {
        "    remote-forward owner".to_owned()
    } else if retiring {
        "    retiring".to_owned()
    } else {
        String::new()
    }
}

/// The first line about a session.
pub open spec fn session_line_text(session: SshSessionRuntimeSnapshot) -> Seq<char> {
    "      #"@ + decimal(session.id as nat) + " ["@ + session_status_word(session.status) + "]    uptime "@ + optional_duration_text(session.uptime_ms) + "    RTT "@ + optional_millis_text(session.rtt_ms) + session_flags(session.remote_forward_owner, session.retiring)
}

fn session_line(session: &SshSessionRuntimeSnapshot) -> (r: String)
    ensures
        r@ == session_line_text(*session),
{
    let mut line = "      #".to_owned();
    let part_0 = text::decimal_text(session.id);
    line.append(part_0.as_str());
    line.append(" [");
    line.append(session_status_label(session.status));
    line.append("]    uptime ");
    let part_1 = format_optional_duration(session.uptime_ms);
    line.append(part_1.as_str());
    line.append("    RTT ");
    let part_2 = format_optional_millis(session.rtt_ms);
    line.append(part_2.as_str());
    let part_3 = format_session_flags(session.remote_forward_owner, session.retiring);
    line.append(part_3.as_str());
    line
}

/// The line about the channels of a session.
pub open spec fn session_startup_text(session: SshSessionRuntimeSnapshot) -> Seq<char> {
    "        Startup: "@ + decimal_millis_text(session.startup_ms) + "    channels "@ + decimal(session.active_channels as nat) + " active / "@ + decimal(session.channels_total as nat) + " total    channel errors "@ + decimal(session.channel_open_errors_total as nat)
}

fn session_startup(session: &SshSessionRuntimeSnapshot) -> (r: String)
    ensures
        r@ == session_startup_text(*session),
{
    let mut line = "        Startup: ".to_owned();
    let part_0 = format_optional_decimal_millis(&session.startup_ms);
    line.append(part_0.as_str());
    line.append("    channels ");
    let part_1 = text::decimal_text(session.active_channels as u64);
    line.append(part_1.as_str());
    line.append(" active / ");
    let part_2 = text::decimal_text(session.channels_total);
    line.append(part_2.as_str());
    line.append(" total    channel errors ");
    let part_3 = text::decimal_text(session.channel_open_errors_total);
    line.append(part_3.as_str());
    line
}

/// The line about the speed of a session.
pub open spec fn session_speed_text(session: SshSessionRuntimeSnapshot) -> Seq<char> {
    "        Speed: "@ + speeds_text(session.upload_bps, session.download_bps)
}

fn session_speed(session: &SshSessionRuntimeSnapshot) -> (r: String)
    ensures
        r@ == session_speed_text(*session),
{
    let mut line = "        Speed: ".to_owned();
    let part_0 = format_speed(session.upload_bps, session.download_bps);
    line.append(part_0.as_str());
    line
}

/// The line about the traffic of a session.
pub open spec fn session_traffic_text(session: SshSessionRuntimeSnapshot) -> Seq<char> {
    "        Traffic: upload "@ + bytes_text(session.uploaded_bytes_total) + "    download "@ + bytes_text(session.downloaded_bytes_total)
}

fn session_traffic(session: &SshSessionRuntimeSnapshot) -> (r: String)
    ensures
        r@ == session_traffic_text(*session),
{
    let mut line = "        Traffic: upload ".to_owned();
    let part_0 = format_bytes(session.uploaded_bytes_total);
    line.append(part_0.as_str());
    line.append("    download ");
    let part_1 = format_bytes(session.downloaded_bytes_total);
    line.append(part_1.as_str());
    line
}

/// The first line about a tunnel.
pub open spec fn tunnel_line_text(tunnel: TunnelRuntimeSnapshot) -> Seq<char> {
    "      "@ + tunnel_kind_word(tunnel.kind) + " "@ + tunnel.name@ + " ["@ + tunnel_status_word(tunnel.status) + "]"@
}

fn tunnel_line(tunnel: &TunnelRuntimeSnapshot) -> (r: String)
    ensures
        r@ == tunnel_line_text(*tunnel),
{
    let mut line = "      ".to_owned();
    line.append(tunnel_kind_label(tunnel.kind));
    line.append(" ");
    line.append(tunnel.name.as_str());
    line.append(" [");
    line.append(tunnel_status_label(tunnel.status));
    line.append("]");
    line
}

/// Where a tunnel leads.
pub open spec fn destination_text(tunnel: TunnelRuntimeSnapshot) -> Seq<char> {
    match tunnel.target {
        Some(target) => "target "@ + target@,
        None => match tunnel.protocol {
            Some(protocol) => "protocol "@ + protocol@,
            None => "dynamic target"@,
        },
    }
}

fn format_destination(tunnel: &TunnelRuntimeSnapshot) -> (r: String)
    ensures
        r@ == destination_text(*tunnel),
{
    match &tunnel.target {
        Some(target) => concat2("target ", target.as_str()),
        None => match &tunnel.protocol {
            Some(protocol) => concat2("protocol ", protocol.as_str()),
            None => "dynamic target".to_owned(),
        },
    }
}

/// The line about where a tunnel listens.
pub open spec fn tunnel_listen_text(tunnel: TunnelRuntimeSnapshot) -> Seq<char> {
    "        Listen: "@ + tunnel.listen@ + "    "@ + destination_text(tunnel)
}

fn tunnel_listen(tunnel: &TunnelRuntimeSnapshot) -> (r: String)
    ensures
        r@ == tunnel_listen_text(*tunnel),
{
    let mut line = "        Listen: ".to_owned();
    line.append(tunnel.listen.as_str());
    line.append("    ");
    let part_0 = format_destination(tunnel);
    line.append(part_0.as_str());
    line
}

/// The line about the connections of a tunnel.
pub open spec fn tunnel_connections_text(tunnel: TunnelRuntimeSnapshot) -> Seq<char> {
    "        Connections: "@ + decimal(tunnel.connections_active as nat) + " active / "@ + decimal(tunnel.connections_total as nat) + " total    errors "@ + decimal(tunnel.errors_total as nat)
}

fn tunnel_connections(tunnel: &TunnelRuntimeSnapshot) -> (r: String)
    ensures
        r@ == tunnel_connections_text(*tunnel),
{
    let mut line = "        Connections: ".to_owned();
    let part_0 = text::decimal_text(tunnel.connections_active as u64);
    line.append(part_0.as_str());
    line.append(" active / ");
    let part_1 = text::decimal_text(tunnel.connections_total);
    line.append(part_1.as_str());
    line.append(" total    errors ");
    let part_2 = text::decimal_text(tunnel.errors_total);
    line.append(part_2.as_str());
    line
}

/// The line about the speed of a tunnel.
pub open spec fn tunnel_speed_text(tunnel: TunnelRuntimeSnapshot) -> Seq<char> {
    "        Speed: "@ + speeds_text(tunnel.upload_bps, tunnel.download_bps)
}

fn tunnel_speed(tunnel: &TunnelRuntimeSnapshot) -> (r: String)
    ensures
        r@ == tunnel_speed_text(*tunnel),
{
    let mut line = "        Speed: ".to_owned();
    let part_0 = format_speed(tunnel.upload_bps, tunnel.download_bps);
    line.append(part_0.as_str());
    line
}

/// The line about the traffic of a tunnel.
pub open spec fn tunnel_traffic_text(tunnel: TunnelRuntimeSnapshot) -> Seq<char> {
    "        Traffic: upload "@ + bytes_text(tunnel.uploaded_bytes_total) + "    download "@ + bytes_text(tunnel.downloaded_bytes_total)
}

fn tunnel_traffic(tunnel: &TunnelRuntimeSnapshot) -> (r: String)
    ensures
        r@ == tunnel_traffic_text(*tunnel),
{
    let mut line = "        Traffic: upload ".to_owned();
    let part_0 = format_bytes(tunnel.uploaded_bytes_total);
    line.append(part_0.as_str());
    line.append("    download ");
    let part_1 = format_bytes(tunnel.downloaded_bytes_total);
    line.append(part_1.as_str());
    line
}

/// A text, or a dash.
pub open spec fn text_or_dash(value: Option<String>) -> Seq<char> {
    match value {
        Some(value) => value@,
        None => "-"@,
    }
}

fn or_dash(value: &Option<String>) -> (r: &str)
    ensures
        r@ == text_or_dash(*value),
{
    match value {
        Some(value) => value.as_str(),
        None => "-",
    }
}

/// The session of a connection, or a dash.
pub open spec fn session_text(session: Option<u64>) -> Seq<char> {
    match session {
        Some(id) => "#"@ + decimal(id as nat),
        None => "-"@,
    }
}

fn format_session(session: Option<u64>) -> (r: String)
    ensures
        r@ == session_text(session),
{
    match session {
        Some(id) => concat2("#", text::decimal_text(id).as_str()),
        None => "-".to_owned(),
    }
}

/// The first line about a connection.
pub open spec fn connection_line_text(connection: ConnectionRuntimeSnapshot) -> Seq<char> {
    "      #"@ + decimal(connection.id as nat) + " ["@ + connection_status_word(connection.status) + "]    "@ + connection.peer_address@ + " -> "@ + text_or_dash(connection.target)
}

fn connection_line(connection: &ConnectionRuntimeSnapshot) -> (r: String)
    ensures
        r@ == connection_line_text(*connection),
{
    let mut line = "      #".to_owned();
    let part_0 = text::decimal_text(connection.id);
    line.append(part_0.as_str());
    line.append(" [");
    line.append(connection_status_label(connection.status));
    line.append("]    ");
    line.append(connection.peer_address.as_str());
    line.append(" -> ");
    line.append(or_dash(&connection.target));
    line
}

/// The line about the way of a connection.
pub open spec fn connection_route_text(connection: ConnectionRuntimeSnapshot) -> Seq<char> {
    "        Tunnel: "@ + connection.tunnel_id@ + "    protocol "@ + text_or_dash(connection.protocol) + "    session "@ + session_text(connection.session_id) + "    uptime "@ + duration_text(connection.uptime_ms)
}

fn connection_route(connection: &ConnectionRuntimeSnapshot) -> (r: String)
    ensures
        r@ == connection_route_text(*connection),
{
    let mut line = "        Tunnel: ".to_owned();
    line.append(connection.tunnel_id.as_str());
    line.append("    protocol ");
    line.append(or_dash(&connection.protocol));
    line.append("    session ");
    let part_0 = format_session(connection.session_id);
    line.append(part_0.as_str());
    line.append("    uptime ");
    let part_1 = format_duration(connection.uptime_ms);
    line.append(part_1.as_str());
    line
}

/// The line about the speed of a connection.
pub open spec fn connection_speed_text(connection: ConnectionRuntimeSnapshot) -> Seq<char> {
    "        Speed: "@ + speeds_text(connection.upload_bps, connection.download_bps)
}

fn connection_speed(connection: &ConnectionRuntimeSnapshot) -> (r: String)
    ensures
        r@ == connection_speed_text(*connection),
{
    let mut line = "        Speed: ".to_owned();
    let part_0 = format_speed(connection.upload_bps, connection.download_bps);
    line.append(part_0.as_str());
    line
}

/// The line about the traffic of a connection.
pub open spec fn connection_traffic_text(connection: ConnectionRuntimeSnapshot) -> Seq<char> {
    "        Traffic: upload "@ + bytes_text(connection.uploaded_bytes_total) + "    download "@ + bytes_text(connection.downloaded_bytes_total) + "    errors "@ + decimal(connection.errors_total as nat)
}

fn connection_traffic(connection: &ConnectionRuntimeSnapshot) -> (r: String)
    ensures
        r@ == connection_traffic_text(*connection),
{
    let mut line = "        Traffic: upload ".to_owned();
    let part_0 = format_bytes(connection.uploaded_bytes_total);
    line.append(part_0.as_str());
    line.append("    download ");
    let part_1 = format_bytes(connection.downloaded_bytes_total);
    line.append(part_1.as_str());
    line.append("    errors ");
    let part_2 = text::decimal_text(connection.errors_total);
    line.append(part_2.as_str());
    line
}

/// The first line about a host.
pub open spec fn host_line_text(host: HostRuntimeSnapshot) -> Seq<char> {
    "  "@ + host.name@ + " ["@ + host_status_word(host.status) + "]"@
}

fn host_line(host: &HostRuntimeSnapshot) -> (r: String)
    ensures
        r@ == host_line_text(*host),
{
    let mut line = "  ".to_owned();
    line.append(host.name.as_str());
    line.append(" [");
    line.append(host_status_label(host.status));
    line.append("]");
    line
}

/// The line about the address of a host.
pub open spec fn host_address_text(host: HostRuntimeSnapshot) -> Seq<char> {
    "    SSH: "@ + host.ssh_alias@ + " -> "@ + host.address@ + "    RTT: "@ + optional_millis_text(host.rtt_ms)
}

fn host_address(host: &HostRuntimeSnapshot) -> (r: String)
    ensures
        r@ == host_address_text(*host),
{
    let mut line = "    SSH: ".to_owned();
    line.append(host.ssh_alias.as_str());
    line.append(" -> ");
    line.append(host.address.as_str());
    line.append("    RTT: ");
    let part_0 = format_optional_millis(host.rtt_ms);
    line.append(part_0.as_str());
    line
}

/// How many sessions of a list are not offline.
pub open spec fn online_count(sessions: Seq<SshSessionRuntimeSnapshot>) -> nat
    decreases sessions.len(),
{
    if sessions.len() == 0 {
        0
    } else {
        online_count(sessions.drop_last()) + if sessions.last().status
            != SshSessionRuntimeStatus::Offline {
            1nat
        } else {
            0nat
        }
    }
}

fn count_online(sessions: &Vec<SshSessionRuntimeSnapshot>) -> (r: usize)
    ensures
        r == online_count(sessions@),
{
    let mut count: usize = 0;
    for i in 0..sessions.len()
        invariant
            count <= i,
            count == online_count(sessions@.take(i as int)),
    {
        assert(sessions@.take(i + 1).drop_last() == sessions@.take(i as int));
        if sessions[i].status != SshSessionRuntimeStatus::Offline {
            count = count + 1;
        }
    }
    assert(sessions@.take(sessions@.len() as int) == sessions@);
    count
}

/// The line about the sessions of a host.
pub open spec fn host_pool_text(host: HostRuntimeSnapshot) -> Seq<char> {
    "    Pool: "@ + decimal(host.min_sessions as nat) + "-"@ + decimal(host.max_sessions as nat) + " sessions    active "@ + decimal(online_count(host.sessions@)) + " / "@ + decimal(host.sessions@.len()) + " retained"@
}

fn host_pool(host: &HostRuntimeSnapshot) -> (r: String)
    ensures
        r@ == host_pool_text(*host),
{
    let mut line = "    Pool: ".to_owned();
    let part_0 = text::decimal_text(host.min_sessions as u64);
    line.append(part_0.as_str());
    line.append("-");
    let part_1 = text::decimal_text(host.max_sessions as u64);
    line.append(part_1.as_str());
    line.append(" sessions    active ");
    let part_2 = text::decimal_text(count_online(&host.sessions) as u64);
    line.append(part_2.as_str());
    line.append(" / ");
    let part_3 = text::decimal_text(host.sessions.len() as u64);
    line.append(part_3.as_str());
    line.append(" retained");
    line
}

/// The line about the connections of a host.
pub open spec fn host_connections_text(host: HostRuntimeSnapshot) -> Seq<char> {
    "    Connections: "@ + decimal(host.connections_active as nat) + " active / "@ + decimal(host.connections_total as nat) + " total    restarts "@ + decimal(host.restart_count as nat) + "    errors "@ + decimal(host.errors_total as nat)
}

fn host_connections(host: &HostRuntimeSnapshot) -> (r: String)
    ensures
        r@ == host_connections_text(*host),
{
    let mut line = "    Connections: ".to_owned();
    let part_0 = text::decimal_text(host.connections_active as u64);
    line.append(part_0.as_str());
    line.append(" active / ");
    let part_1 = text::decimal_text(host.connections_total);
    line.append(part_1.as_str());
    line.append(" total    restarts ");
    let part_2 = text::decimal_text(host.restart_count);
    line.append(part_2.as_str());
    line.append("    errors ");
    let part_3 = text::decimal_text(host.errors_total);
    line.append(part_3.as_str());
    line
}

/// The line about the speed of a host.
pub open spec fn host_speed_text(host: HostRuntimeSnapshot) -> Seq<char> {
    "    Speed: "@ + speeds_text(host.upload_bps, host.download_bps)
}

fn host_speed(host: &HostRuntimeSnapshot) -> (r: String)
    ensures
        r@ == host_speed_text(*host),
{
    let mut line = "    Speed: ".to_owned();
    let part_0 = format_speed(host.upload_bps, host.download_bps);
    line.append(part_0.as_str());
    line
}

/// The line about the traffic of a host.
pub open spec fn host_traffic_text(host: HostRuntimeSnapshot) -> Seq<char> {
    "    Traffic: upload "@ + bytes_text(host.uploaded_bytes_total) + "    download "@ + bytes_text(host.downloaded_bytes_total)
}

fn host_traffic(host: &HostRuntimeSnapshot) -> (r: String)
    ensures
        r@ == host_traffic_text(*host),
{
    let mut line = "    Traffic: upload ".to_owned();
    let part_0 = format_bytes(host.uploaded_bytes_total);
    line.append(part_0.as_str());
    line.append("    download ");
    let part_1 = format_bytes(host.downloaded_bytes_total);
    line.append(part_1.as_str());
    line
}

/// The line about the state of the program.
pub open spec fn state_line_text(snapshot: RuntimeSnapshot) -> Seq<char> {
    "  State: "@ + (if snapshot.running {
        "running"@
    } else {
        "stopped"@
    }) + "    Uptime: "@ + optional_duration_text(snapshot.uptime_ms)
}

fn state_line(snapshot: &RuntimeSnapshot) -> (r: String)
    ensures
        r@ == state_line_text(*snapshot),
{
    let mut line = "  State: ".to_owned();
    line.append(if snapshot.running { "running" } else { "stopped" });
    line.append("    Uptime: ");
    let part_0 = format_optional_duration(snapshot.uptime_ms);
    line.append(part_0.as_str());
    line
}

/// The line about the configuration.
pub open spec fn config_line_text(snapshot: RuntimeSnapshot) -> Seq<char> {
    "  Config: generation "@ + decimal(snapshot.config_generation as nat) + "    reloads "@ + decimal(snapshot.config_reloads_total as nat) + "    reload errors "@ + decimal(snapshot.config_reload_errors_total as nat)
}

fn config_line(snapshot: &RuntimeSnapshot) -> (r: String)
    ensures
        r@ == config_line_text(*snapshot),
{
    let mut line = "  Config: generation ".to_owned();
    let part_0 = text::decimal_text(snapshot.config_generation);
    line.append(part_0.as_str());
    line.append("    reloads ");
    let part_1 = text::decimal_text(snapshot.config_reloads_total);
    line.append(part_1.as_str());
    line.append("    reload errors ");
    let part_2 = text::decimal_text(snapshot.config_reload_errors_total);
    line.append(part_2.as_str());
    line
}

/// The line about hosts and sessions.
pub open spec fn sessions_line_text(snapshot: RuntimeSnapshot) -> Seq<char> {
    "  Hosts: "@ + decimal(snapshot.configured_hosts as nat) + "    SSH sessions: "@ + decimal(snapshot.ssh_sessions_active as nat) + " active / "@ + decimal(snapshot.ssh_sessions_total as nat) + " created"@
}

fn sessions_line(snapshot: &RuntimeSnapshot) -> (r: String)
    ensures
        r@ == sessions_line_text(*snapshot),
{
    let mut line = "  Hosts: ".to_owned();
    let part_0 = text::decimal_text(snapshot.configured_hosts as u64);
    line.append(part_0.as_str());
    line.append("    SSH sessions: ");
    let part_1 = text::decimal_text(snapshot.ssh_sessions_active as u64);
    line.append(part_1.as_str());
    line.append(" active / ");
    let part_2 = text::decimal_text(snapshot.ssh_sessions_total);
    line.append(part_2.as_str());
    line.append(" created");
    line
}

/// The line about connections.
pub open spec fn connections_line_text(snapshot: RuntimeSnapshot) -> Seq<char> {
    "  Connections: "@ + decimal(snapshot.local_connections_active as nat) + " active / "@ + decimal(snapshot.local_connections_total as nat) + " accepted"@
}

fn connections_line(snapshot: &RuntimeSnapshot) -> (r: String)
    ensures
        r@ == connections_line_text(*snapshot),
{
    let mut line = "  Connections: ".to_owned();
    let part_0 = text::decimal_text(snapshot.local_connections_active as u64);
    line.append(part_0.as_str());
    line.append(" active / ");
    let part_1 = text::decimal_text(snapshot.local_connections_total);
    line.append(part_1.as_str());
    line.append(" accepted");
    line
}

/// How many connections of a list of hosts are captured.
pub open spec fn captured_count(hosts: Seq<HostRuntimeSnapshot>) -> nat
    decreases hosts.len(),
{
    if hosts.len() == 0 {
        0
    } else {
        captured_count(hosts.drop_last()) + hosts.last().connections@.len()
    }
}

fn count_captured(hosts: &Vec<HostRuntimeSnapshot>) -> (r: u128)
    ensures
        r == captured_count(hosts@),
{
    let mut count: u128 = 0;
    for i in 0..hosts.len()
        invariant
            count <= i * usize::MAX,
            count == captured_count(hosts@.take(i as int)),
    {
        assert(hosts@.take(i + 1).drop_last() == hosts@.take(i as int));
        assert((i + 1) * usize::MAX == i * usize::MAX + usize::MAX) by (nonlinear_arith);
        assert(i * usize::MAX <= usize::MAX * usize::MAX) by (nonlinear_arith)
            requires
                0 <= i <= usize::MAX,
        ;
        assert(usize::MAX * usize::MAX + usize::MAX <= u128::MAX) by (nonlinear_arith)
            requires
                usize::MAX <= 0xffff_ffff_ffff_ffff,
        ;
        count = count + hosts[i].connections.len() as u128;
    }
    assert(hosts@.take(hosts@.len() as int) == hosts@);
    count
}

/// The line about captured connections.
pub open spec fn capture_line_text(snapshot: RuntimeSnapshot) -> Seq<char> {
    "  Connection capture: "@ + (if snapshot.connection_capture.recording {
        "recording"@
    } else {
        "stopped"@
    }) + "    auto-clear "@ + (if snapshot.connection_capture.auto_clear_closed {
        "on"@
    } else {
        "off"@
    }) + "    "@ + decimal(captured_count(snapshot.hosts@)) + " captured"@
}

fn capture_line(snapshot: &RuntimeSnapshot) -> (r: String)
    ensures
        r@ == capture_line_text(*snapshot),
{
    let mut line = "  Connection capture: ".to_owned();
    line.append(if snapshot.connection_capture.recording { "recording" } else { "stopped" });
    line.append("    auto-clear ");
    line.append(if snapshot.connection_capture.auto_clear_closed { "on" } else { "off" });
    line.append("    ");
    let part_0 = text::wide_decimal_text(count_captured(&snapshot.hosts));
    line.append(part_0.as_str());
    line.append(" captured");
    line
}

/// The line about the speed of the program.
pub open spec fn speed_line_text(snapshot: RuntimeSnapshot) -> Seq<char> {
    "  Speed: "@ + speeds_text(snapshot.upload_bps, snapshot.download_bps)
}

fn speed_line(snapshot: &RuntimeSnapshot) -> (r: String)
    ensures
        r@ == speed_line_text(*snapshot),
{
    let mut line = "  Speed: ".to_owned();
    let part_0 = format_speed(snapshot.upload_bps, snapshot.download_bps);
    line.append(part_0.as_str());
    line
}

/// The line about the traffic of the program.
pub open spec fn traffic_line_text(snapshot: RuntimeSnapshot) -> Seq<char> {
    "  Traffic: upload "@ + bytes_text(snapshot.uploaded_bytes_total) + "    download "@ + bytes_text(snapshot.downloaded_bytes_total) + "    total "@ + bytes_text(snapshot.transferred_bytes_total)
}

fn traffic_line(snapshot: &RuntimeSnapshot) -> (r: String)
    ensures
        r@ == traffic_line_text(*snapshot),
{
    let mut line = "  Traffic: upload ".to_owned();
    let part_0 = format_bytes(snapshot.uploaded_bytes_total);
    line.append(part_0.as_str());
    line.append("    download ");
    let part_1 = format_bytes(snapshot.downloaded_bytes_total);
    line.append(part_1.as_str());
    line.append("    total ");
    let part_2 = format_bytes(snapshot.transferred_bytes_total);
    line.append(part_2.as_str());
    line
}

/// How long it takes to open a channel.
pub open spec fn channel_latency_text(latency: LatencySnapshot) -> Seq<char> {
    if latency.samples == 0 {
        "no samples"@
    } else {
        "average "@ + decimal_millis_text(latency.average_ms) + "    max "@ + decimal_millis_text(
            latency.max_ms,
        ) + "    "@ + decimal(latency.samples as nat) + " samples"@
    }
}

/// Says how long it takes to open a channel.
pub fn format_channel_latency(latency: &LatencySnapshot) -> (r: String)
    ensures
        r@ == channel_latency_text(*latency),
{
    if latency.samples == 0 {
        return "no samples".to_owned();
    }
    let mut line = "average ".to_owned();
    let average = format_optional_decimal_millis(&latency.average_ms);
    line.append(average.as_str());
    line.append("    max ");
    let most = format_optional_decimal_millis(&latency.max_ms);
    line.append(most.as_str());
    line.append("    ");
    let samples = text::decimal_text(latency.samples);
    line.append(samples.as_str());
    line.append(" samples");
    line
}

/// The line about the time that it takes to open a channel.
pub open spec fn latency_line_text(snapshot: RuntimeSnapshot) -> Seq<char> {
    "  SSH channel open: "@ + channel_latency_text(snapshot.ssh_channel_open)
}

fn latency_line(snapshot: &RuntimeSnapshot) -> (r: String)
    ensures
        r@ == latency_line_text(*snapshot),
{
    let mut line = "  SSH channel open: ".to_owned();
    let part_0 = format_channel_latency(&snapshot.ssh_channel_open);
    line.append(part_0.as_str());
    line
}

/// The line about errors.
pub open spec fn errors_line_text(snapshot: RuntimeSnapshot) -> Seq<char> {
    "  Errors: "@ + decimal(snapshot.errors_total as nat)
}

fn errors_line(snapshot: &RuntimeSnapshot) -> (r: String)
    ensures
        r@ == errors_line_text(*snapshot),
{
    let mut line = "  Errors: ".to_owned();
    let part_0 = text::decimal_text(snapshot.errors_total);
    line.append(part_0.as_str());
    line
}

// ---------------------------------------------------------------------------
// Pages
// ---------------------------------------------------------------------------
/// Lines, and one more about an error where there was one.
pub open spec fn with_error(
    lines: Seq<Seq<char>>,
    indent: Seq<char>,
    error: Option<String>,
) -> Seq<Seq<char>> {
    match error {
        Some(error) => lines.push(indent + "Last error: "@ + error@),
        None => lines,
    }
}

/// The lines about a session.
#[verifier::opaque]
pub open spec fn session_lines(session: SshSessionRuntimeSnapshot) -> Seq<Seq<char>> {
    with_error(
        seq![
            session_line_text(session),
            session_startup_text(session),
            session_speed_text(session),
            session_traffic_text(session),
        ],
        "        "@,
        session.last_error,
    )
}

/// The lines about a tunnel.
#[verifier::opaque]
pub open spec fn tunnel_lines(tunnel: TunnelRuntimeSnapshot) -> Seq<Seq<char>> {
    let lines = seq![
        tunnel_line_text(tunnel),
        tunnel_listen_text(tunnel),
        tunnel_connections_text(tunnel),
        tunnel_speed_text(tunnel),
        tunnel_traffic_text(tunnel),
    ];
    let owned = match tunnel.owner_session_id {
        Some(owner) => lines.push("        Owner session: #"@ + decimal(owner as nat)),
        None => lines,
    };
    with_error(owned, "        "@, tunnel.last_error)
}

/// The lines about a connection.
#[verifier::opaque]
pub open spec fn connection_lines(connection: ConnectionRuntimeSnapshot) -> Seq<Seq<char>> {
    with_error(
        seq![
            connection_line_text(connection),
            connection_route_text(connection),
            connection_speed_text(connection),
            connection_traffic_text(connection),
        ],
        "        "@,
        connection.last_error,
    )
}

/// The lines about all sessions of a list.
pub open spec fn all_session_lines(list: Seq<SshSessionRuntimeSnapshot>) -> Seq<Seq<char>>
    decreases list.len(),
{
    if list.len() == 0 {
        Seq::empty()
    } else {
        all_session_lines(list.drop_last()) + session_lines(list.last())
    }
}

/// The lines about all tunnels of a list.
pub open spec fn all_tunnel_lines(list: Seq<TunnelRuntimeSnapshot>) -> Seq<Seq<char>>
    decreases list.len(),
{
    if list.len() == 0 {
        Seq::empty()
    } else {
        all_tunnel_lines(list.drop_last()) + tunnel_lines(list.last())
    }
}

/// The lines about all connections of a list.
pub open spec fn all_connection_lines(list: Seq<ConnectionRuntimeSnapshot>) -> Seq<Seq<char>>
    decreases list.len(),
{
    if list.len() == 0 {
        Seq::empty()
    } else {
        all_connection_lines(list.drop_last()) + connection_lines(list.last())
    }
}

/// Lines under a heading; none where there is nothing to show.
pub open spec fn under_heading(heading: Seq<char>, lines: Seq<Seq<char>>, empty: bool) -> Seq<
    Seq<char>,
> {
    if empty {
        Seq::empty()
    } else {
        seq![heading] + lines
    }
}

/// The lines about a host.
#[verifier::opaque]
pub open spec fn host_lines(host: HostRuntimeSnapshot) -> Seq<Seq<char>> {
    with_error(
        seq![
            host_line_text(host),
            host_address_text(host),
            host_pool_text(host),
            host_connections_text(host),
            host_speed_text(host),
            host_traffic_text(host),
        ],
        "    "@,
        host.last_error,
    ) + under_heading(
        "    Sessions"@,
        all_session_lines(host.sessions@),
        host.sessions@.len() == 0,
    ) + under_heading(
        "    Tunnels"@,
        all_tunnel_lines(host.tunnels@),
        host.tunnels@.len() == 0,
    ) + under_heading(
        "    Connections"@,
        all_connection_lines(host.connections@),
        host.connections@.len() == 0,
    )
}

/// The lines about all hosts of a list.
pub open spec fn all_host_lines(list: Seq<HostRuntimeSnapshot>) -> Seq<Seq<char>>
    decreases list.len(),
{
    if list.len() == 0 {
        Seq::empty()
    } else {
        all_host_lines(list.drop_last()) + host_lines(list.last())
    }
}

/// The lines in front of those about hosts.
pub open spec fn status_head(snapshot: RuntimeSnapshot) -> Seq<Seq<char>> {
    seq![
        "SSH Tunnel Keeper"@,
        state_line_text(snapshot),
        config_line_text(snapshot),
        sessions_line_text(snapshot),
        connections_line_text(snapshot),
        capture_line_text(snapshot),
        speed_line_text(snapshot),
        traffic_line_text(snapshot),
        latency_line_text(snapshot),
        errors_line_text(snapshot),
        Seq::<char>::empty(),
    ]
}

/// The lines about the whole program.
pub open spec fn status_lines(snapshot: RuntimeSnapshot) -> Seq<Seq<char>> {
    let head = status_head(snapshot);
    if snapshot.hosts@.len() == 0 {
        head.push("Hosts: none"@)
    } else {
        head.push("Hosts ("@ + decimal(snapshot.hosts@.len()) + ")"@) + all_host_lines(
            snapshot.hosts@,
        )
    }
}

fn push_line(output: &mut Vec<String>, line: String)
    ensures
        texts(final(output)@) == texts(old(output)@).push(line@),
{
    let ghost before = output@;
    output.push(line);
    assert(texts(output@) =~= texts(before).push(line@));
}

fn push_error(output: &mut Vec<String>, indent: &str, error: &Option<String>)
    ensures
        texts(final(output)@) == with_error(texts(old(output)@), indent@, *error),
{
    match error {
        Some(error) => push_line(output, concat3(indent, "Last error: ", error.as_str())),
        None => {},
    }
}

fn append_session_status(output: &mut Vec<String>, session: &SshSessionRuntimeSnapshot)
    ensures
        texts(final(output)@) == texts(old(output)@) + session_lines(*session),
{
    let ghost start = texts(output@);
    push_line(output, session_line(session));
    push_line(output, session_startup(session));
    push_line(output, session_speed(session));
    push_line(output, session_traffic(session));
    push_error(output, "        ", &session.last_error);
    reveal(session_lines);
    assert(texts(output@) =~= start + session_lines(*session));
}

fn append_tunnel_status(output: &mut Vec<String>, tunnel: &TunnelRuntimeSnapshot)
    ensures
        texts(final(output)@) == texts(old(output)@) + tunnel_lines(*tunnel),
{
    let ghost start = texts(output@);
    push_line(output, tunnel_line(tunnel));
    push_line(output, tunnel_listen(tunnel));
    push_line(output, tunnel_connections(tunnel));
    push_line(output, tunnel_speed(tunnel));
    push_line(output, tunnel_traffic(tunnel));
    match tunnel.owner_session_id {
        Some(owner) => {
            let id = text::decimal_text(owner);
            push_line(output, concat2("        Owner session: #", id.as_str()));
        },
        None => {},
    }
    push_error(output, "        ", &tunnel.last_error);
    reveal(tunnel_lines);
    assert(texts(output@) =~= start + tunnel_lines(*tunnel));
}

fn append_connection_status(output: &mut Vec<String>, connection: &ConnectionRuntimeSnapshot)
    ensures
        texts(final(output)@) == texts(old(output)@) + connection_lines(*connection),
{
    let ghost start = texts(output@);
    push_line(output, connection_line(connection));
    push_line(output, connection_route(connection));
    push_line(output, connection_speed(connection));
    push_line(output, connection_traffic(connection));
    push_error(output, "        ", &connection.last_error);
    reveal(connection_lines);
    assert(texts(output@) =~= start + connection_lines(*connection));
}

fn append_sessions(output: &mut Vec<String>, list: &Vec<SshSessionRuntimeSnapshot>)
    ensures
        texts(final(output)@) == texts(old(output)@) + under_heading(
            "    Sessions"@,
            all_session_lines(list@),
            list@.len() == 0,
        ),
{
    let ghost start = texts(output@);
    if list.len() == 0 {
        assert(start + Seq::<Seq<char>>::empty() =~= start);
        return;
    }
    push_line(output, "    Sessions".to_owned());
    let ghost heading = texts(output@);
    assert(heading + all_session_lines(list@.take(0)) =~= heading);
    for i in 0..list.len()
        invariant
            texts(output@) == heading + all_session_lines(list@.take(i as int)),
    {
        assert(list@.take(i + 1).drop_last() == list@.take(i as int));
        append_session_status(output, &list[i]);
        assert(texts(output@) =~= heading + all_session_lines(list@.take(i + 1)));
    }
    assert(list@.take(list@.len() as int) == list@);
    assert(texts(output@) =~= start + under_heading(
        "    Sessions"@,
        all_session_lines(list@),
        false,
    ));
}

fn append_tunnels(output: &mut Vec<String>, list: &Vec<TunnelRuntimeSnapshot>)
    ensures
        texts(final(output)@) == texts(old(output)@) + under_heading(
            "    Tunnels"@,
            all_tunnel_lines(list@),
            list@.len() == 0,
        ),
{
    let ghost start = texts(output@);
    if list.len() == 0 {
        assert(start + Seq::<Seq<char>>::empty() =~= start);
        return;
    }
    push_line(output, "    Tunnels".to_owned());
    let ghost heading = texts(output@);
    assert(heading + all_tunnel_lines(list@.take(0)) =~= heading);
    for i in 0..list.len()
        invariant
            texts(output@) == heading + all_tunnel_lines(list@.take(i as int)),
    {
        assert(list@.take(i + 1).drop_last() == list@.take(i as int));
        append_tunnel_status(output, &list[i]);
        assert(texts(output@) =~= heading + all_tunnel_lines(list@.take(i + 1)));
    }
    assert(list@.take(list@.len() as int) == list@);
    assert(texts(output@) =~= start + under_heading(
        "    Tunnels"@,
        all_tunnel_lines(list@),
        false,
    ));
}

fn append_connections(output: &mut Vec<String>, list: &Vec<ConnectionRuntimeSnapshot>)
    ensures
        texts(final(output)@) == texts(old(output)@) + under_heading(
            "    Connections"@,
            all_connection_lines(list@),
            list@.len() == 0,
        ),
{
    let ghost start = texts(output@);
    if list.len() == 0 {
        assert(start + Seq::<Seq<char>>::empty() =~= start);
        return;
    }
    push_line(output, "    Connections".to_owned());
    let ghost heading = texts(output@);
    assert(heading + all_connection_lines(list@.take(0)) =~= heading);
    for i in 0..list.len()
        invariant
            texts(output@) == heading + all_connection_lines(list@.take(i as int)),
    {
        assert(list@.take(i + 1).drop_last() == list@.take(i as int));
        append_connection_status(output, &list[i]);
        assert(texts(output@) =~= heading + all_connection_lines(list@.take(i + 1)));
    }
    assert(list@.take(list@.len() as int) == list@);
    assert(texts(output@) =~= start + under_heading(
        "    Connections"@,
        all_connection_lines(list@),
        false,
    ));
}

fn append_host_status(output: &mut Vec<String>, host: &HostRuntimeSnapshot)
    ensures
        texts(final(output)@) == texts(old(output)@) + host_lines(*host),
{
    let ghost start = texts(output@);
    push_line(output, host_line(host));
    push_line(output, host_address(host));
    push_line(output, host_pool(host));
    push_line(output, host_connections(host));
    push_line(output, host_speed(host));
    push_line(output, host_traffic(host));
    push_error(output, "    ", &host.last_error);
    append_sessions(output, &host.sessions);
    append_tunnels(output, &host.tunnels);
    append_connections(output, &host.connections);
    reveal(host_lines);
    assert(texts(output@) =~= start + host_lines(*host));
}

fn write_head(snapshot: &RuntimeSnapshot) -> (r: Vec<String>)
    ensures
        texts(r@) == status_head(*snapshot),
{
    let mut output: Vec<String> = Vec::new();
    push_line(&mut output, "SSH Tunnel Keeper".to_owned());
    push_line(&mut output, state_line(snapshot));
    push_line(&mut output, config_line(snapshot));
    push_line(&mut output, sessions_line(snapshot));
    push_line(&mut output, connections_line(snapshot));
    push_line(&mut output, capture_line(snapshot));
    push_line(&mut output, speed_line(snapshot));
    push_line(&mut output, traffic_line(snapshot));
    push_line(&mut output, latency_line(snapshot));
    push_line(&mut output, errors_line(snapshot));
    push_line(&mut output, String::new());
    assert(texts(output@) =~= status_head(*snapshot));
    output
}

/// Shows the whole program.
pub fn format_runtime_status(snapshot: &RuntimeSnapshot) -> (r: String)
    ensures
        r@ == joined(status_lines(*snapshot), "\n"@),
{
    let mut output = write_head(snapshot);
    if snapshot.hosts.len() == 0 {
        push_line(&mut output, "Hosts: none".to_owned());
        return text::join(&output, "\n");
    }
    let count = text::decimal_text(snapshot.hosts.len() as u64);
    push_line(&mut output, concat3("Hosts (", count.as_str(), ")"));
    let ghost head = texts(output@);
    assert(head + all_host_lines(snapshot.hosts@.take(0)) =~= head);
    for i in 0..snapshot.hosts.len()
        invariant
            texts(output@) == head + all_host_lines(snapshot.hosts@.take(i as int)),
    {
        assert(snapshot.hosts@.take(i + 1).drop_last() == snapshot.hosts@.take(i as int));
        append_host_status(&mut output, &snapshot.hosts[i]);
        assert(texts(output@) =~= head + all_host_lines(snapshot.hosts@.take(i + 1)));
    }
    assert(snapshot.hosts@.take(snapshot.hosts@.len() as int) == snapshot.hosts@);
    text::join(&output, "\n")
}

/// The text that comes before a page that is shown again and again.
pub fn page_start(interactive: bool) -> (r: &'static str)
    ensures
        r@ == if interactive {
            "\x1b[2J\x1b[H"@
        } else {
            "---\n"@
        },
{
    if interactive {
        "\x1b[2J\x1b[H"
    } else {
        "---\n"
    }
}

} // verus!
