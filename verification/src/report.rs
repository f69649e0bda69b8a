//! The laws of what is shown of the program: how spans, sizes, words and names are written, and
//! that nothing is left out.
use crate::status::{all_connection_lines, all_host_lines, all_session_lines, all_tunnel_lines,
    bytes_text, captured_count, channel_latency_text, connection_lines, connection_status_word,
    decimal_millis_text, destination_text, duration_text, float_rounded, float_step, host_lines,
    host_status_word, nearest, online_count, optional_duration_text, optional_millis_text,
    session_flags, session_lines, session_status_word, session_text, small_numbers_are_exact,
    speed_text, status_lines, text_or_dash, tunnel_id_text, tunnel_kind_word, tunnel_lines,
    tunnel_status_word, unit_of, unit_size, unit_word, ConnectionRuntimeSnapshot,
    ConnectionRuntimeStatus, HostRuntimeSnapshot, HostRuntimeStatus, LatencySnapshot,
    RuntimeSnapshot, SshSessionRuntimeSnapshot, SshSessionRuntimeStatus, TunnelKind,
    TunnelRuntimeSnapshot, TunnelRuntimeStatus};
use crate::text::decimal;
use vstd::prelude::*;

verus! {

// ---------------------------------------------------------------------------
// Numbers
// ---------------------------------------------------------------------------
/// A span is written in its two largest units, cut to whole ones: days and hours, hours and
/// minutes, minutes and seconds; below a minute in seconds, below a second in milliseconds.
pub proof fn spans_have_two_units(days: int, hours: int, minutes: int, seconds: int, millis: int)
    requires
        0 <= days <= 100_000_000,
        0 <= hours < 24,
        0 <= minutes < 60,
        0 <= seconds < 60,
        0 <= millis < 1000,
    ensures
        ({
            let span = ((((days * 24 + hours) * 60 + minutes) * 60 + seconds) * 1000
                + millis) as u64;
            &&& days > 0 ==> duration_text(span) == decimal(days as nat) + "d "@ + decimal(
                hours as nat,
            ) + "h"@
            &&& days == 0 && hours > 0 ==> duration_text(span) == decimal(hours as nat) + "h "@
                + decimal(minutes as nat) + "m"@
            &&& days == 0 && hours == 0 && minutes > 0 ==> duration_text(span) == decimal(
                minutes as nat,
            ) + "m "@ + decimal(seconds as nat) + "s"@
            &&& days == 0 && hours == 0 && minutes == 0 && seconds > 0 ==> duration_text(span)
                == decimal(seconds as nat) + "s"@
            &&& days == 0 && hours == 0 && minutes == 0 && seconds == 0 ==> duration_text(span)
                == decimal(millis as nat) + " ms"@
        }),
{
    let total = ((days * 24 + hours) * 60 + minutes) * 60 + seconds;
    lemma_span(days, hours, minutes, seconds);
    assert((total * 1000 + millis) / 1000 == total);
    assert(total * 1000 + millis <= u64::MAX);
}

proof fn lemma_span(days: int, hours: int, minutes: int, seconds: int)
    requires
        0 <= days,
        0 <= hours < 24,
        0 <= minutes < 60,
        0 <= seconds < 60,
    ensures
        ({
            let total = ((days * 24 + hours) * 60 + minutes) * 60 + seconds;
            &&& total / 86400 == days
            &&& total % 86400 / 3600 == hours
            &&& total % 3600 / 60 == minutes
            &&& total % 60 == seconds
        }),
{
    let total = ((days * 24 + hours) * 60 + minutes) * 60 + seconds;
    assert(total == 86400 * days + (3600 * hours + 60 * minutes + seconds));
    lemma_rest(total, days, 3600 * hours + 60 * minutes + seconds, 86400);
    lemma_rest(3600 * hours + 60 * minutes + seconds, hours, 60 * minutes + seconds, 3600);
    lemma_rest(total, 24 * days + hours, 60 * minutes + seconds, 3600);
    lemma_rest(60 * minutes + seconds, minutes, seconds, 60);
    lemma_rest(total, 1440 * days + 60 * hours + minutes, seconds, 60);
}

proof fn lemma_rest(total: int, count: int, rest: int, size: int)
    requires
        0 <= rest < size,
        total == size * count + rest,
    ensures
        total / size == count,
        total % size == rest,
{
    assert(size * count == count * size) by (nonlinear_arith);
    vstd::arithmetic::div_mod::lemma_fundamental_div_mod_converse(total, size, count, rest);
}

/// A span that is not known is a dash, and one that is known is written.
pub proof fn unknown_spans_are_dashes(span: u64, written: String)
    ensures
        optional_duration_text(None) == "-"@,
        optional_duration_text(Some(span)) == duration_text(span),
        optional_millis_text(None) == "-"@,
        optional_millis_text(Some(span)) == decimal(span as nat) + " ms"@,
        decimal_millis_text(None) == "-"@,
        decimal_millis_text(Some(written)) == written@ + " ms"@,
{
}

/// No integer is nearer to a fraction than the nearest one; of two that are as near it is the
/// even one.
pub proof fn nearest_integers_are_nearest(numerator: nat, denominator: nat)
    requires
        denominator > 0,
    ensures
        ({
            let n = nearest(numerator, denominator);
            let below = 2 * numerator - 2 * (n * denominator);
            &&& -(denominator as int) <= below <= denominator
            &&& below == denominator || below == -(denominator as int) ==> n % 2 == 0
        }),
{
    let whole = numerator as int / denominator as int;
    let rest = numerator as int % denominator as int;
    assert(numerator == denominator * whole + rest && 0 <= rest < denominator)
        by (nonlinear_arith)
        requires
            denominator > 0,
            numerator >= 0,
            whole == numerator as int / denominator as int,
            rest == numerator as int % denominator as int,
    ;
    assert(denominator * whole == whole * denominator) by (nonlinear_arith);
    assert((whole + 1) * denominator == whole * denominator + denominator) by (nonlinear_arith);
}

/// Each unit of size is 1024 times the one before; the unit of a number of bytes is the largest
/// that the number fills.
pub proof fn units_are_powers(unit: int, bytes: nat)
    requires
        0 <= unit < 5,
    ensures
        unit_size(0) == 1,
        unit_size(unit + 1) == 1024 * unit_size(unit),
        0 <= unit_of(bytes) <= 5,
        bytes > 0 ==> unit_size(unit_of(bytes)) <= bytes,
        unit_of(bytes) < 5 ==> bytes < 1024 * unit_size(unit_of(bytes)),
{
}

/// Whole multiples of a unit are written exactly: below ten with a zero behind the point, above
/// without a point; and in bytes without one always.
pub proof fn whole_sizes_are_exact(count: u64)
    requires
        0 < count < 1024,
    ensures
        bytes_text(count) == decimal(count as nat) + " "@ + "B"@,
        count < 10 ==> bytes_text((count * 1024) as u64) == decimal(count as nat) + "."@
            + decimal(0) + " "@ + "KiB"@,
        count >= 10 ==> bytes_text((count * 1024) as u64) == decimal(count as nat) + " "@
            + "KiB"@,
        count < 10 ==> bytes_text((count * 1_048_576) as u64) == decimal(count as nat) + "."@
            + decimal(0) + " "@ + "MiB"@,
        count >= 10 ==> bytes_text((count * 1_048_576) as u64) == decimal(count as nat) + " "@
            + "MiB"@,
        count < 10 ==> bytes_text((count * 1_073_741_824) as u64) == decimal(count as nat)
            + "."@ + decimal(0) + " "@ + "GiB"@,
        count >= 10 ==> bytes_text((count * 1_073_741_824) as u64) == decimal(count as nat)
            + " "@ + "GiB"@,
        count < 10 ==> bytes_text((count * 1_099_511_627_776) as u64) == decimal(count as nat)
            + "."@ + decimal(0) + " "@ + "TiB"@,
        count >= 10 ==> bytes_text((count * 1_099_511_627_776) as u64) == decimal(count as nat)
            + " "@ + "TiB"@,
        count < 8 ==> bytes_text((count * 1_125_899_906_842_624) as u64) == decimal(count as nat)
            + "."@ + decimal(0) + " "@ + "PiB"@,
{
    small_numbers_are_exact(count);
    small_numbers_are_exact((count * 1024) as u64);
    small_numbers_are_exact((count * 1_048_576) as u64);
    small_numbers_are_exact((count * 1_073_741_824) as u64);
    small_numbers_are_exact((count * 1_099_511_627_776) as u64);
    if count < 8 {
        small_numbers_are_exact((count * 1_125_899_906_842_624) as u64);
    }
}

/// Numbers of bytes that are not whole multiples are written with the tenths that are nearest,
/// below ten units; above with the nearest whole number.
pub proof fn sizes_are_cut_to_the_nearest(bytes: u64)
    requires
        1024 <= bytes < 0x20_0000_0000_0000,
    ensures
        ({
            let unit = unit_of(bytes as nat);
            let tenths = nearest(10 * bytes as nat, unit_size(unit));
            &&& bytes < 10 * unit_size(unit) ==> bytes_text(bytes) == decimal(tenths / 10) + "."@
                + decimal(tenths % 10) + " "@ + unit_word(unit)
            &&& bytes >= 10 * unit_size(unit) ==> bytes_text(bytes) == decimal(
                nearest(bytes as nat, unit_size(unit)),
            ) + " "@ + unit_word(unit)
        }),
{
    small_numbers_are_exact(bytes);
}

proof fn lemma_float_step_range(n: nat)
    requires
        n >= 0x20_0000_0000_0000,
    ensures
        float_step(n) >= 2,
        float_step(n) * 0x10_0000_0000_0000 <= n,
        n < float_step(n) * 0x20_0000_0000_0000,
    decreases n,
{
    if n / 2 >= 0x20_0000_0000_0000 {
        lemma_float_step_range(n / 2);
    } else {
        assert(float_step(n / 2) == 1);
    }
}

/// A number is rounded to fifty-three significant binary digits: a small one is not changed,
/// and a large one by no more than half of its last digit.
pub proof fn large_numbers_are_rounded(n: nat)
    ensures
        n < 0x20_0000_0000_0000 ==> float_rounded(n) == n,
        n >= 0x20_0000_0000_0000 ==> {
            &&& float_rounded(n) % float_step(n) == 0
            &&& float_step(n) * 0x10_0000_0000_0000 <= n < float_step(n) * 0x20_0000_0000_0000
            &&& -(float_step(n) as int) <= 2 * n - 2 * float_rounded(n) <= float_step(n)
        },
{
    if n < 0x20_0000_0000_0000 {
        assert(float_step(n) == 1);
        assert(nearest(n, 1) == n);
        assert(nearest(n, 1) * 1 == n) by (nonlinear_arith)
            requires
                nearest(n, 1) == n,
        ;
    } else {
        lemma_float_step_range(n);
        nearest_integers_are_nearest(n, float_step(n));
        let (a, b) = (nearest(n, float_step(n)) as int, float_step(n) as int);
        assert((a * b) % b == 0) by (nonlinear_arith)
            requires
                b > 0,
        ;
    }
}

/// A speed is a size in each second.
pub proof fn speeds_are_sizes(bytes: u64)
    ensures
        speed_text(bytes) == bytes_text(bytes) + "/s"@,
{
}

// ---------------------------------------------------------------------------
// Words and names
// ---------------------------------------------------------------------------
/// Each word says one thing of a host.
pub proof fn hosts_are_called_what_they_are(status: HostRuntimeStatus)
    ensures
        host_status_word(status) == "idle"@ <==> status == HostRuntimeStatus::Idle,
        host_status_word(status) == "connecting"@ <==> status == HostRuntimeStatus::Connecting,
        host_status_word(status) == "healthy"@ <==> status == HostRuntimeStatus::Healthy,
        host_status_word(status) == "degraded"@ <==> status == HostRuntimeStatus::Degraded,
        host_status_word(status) == "offline"@ <==> status == HostRuntimeStatus::Offline,
{
    reveal_strlit("idle");
    assert("idle"@.len() == 4 && "idle"@[0] == 'i');
    reveal_strlit("connecting");
    assert("connecting"@.len() == 10 && "connecting"@[0] == 'c');
    reveal_strlit("healthy");
    assert("healthy"@.len() == 7 && "healthy"@[0] == 'h');
    reveal_strlit("degraded");
    assert("degraded"@.len() == 8 && "degraded"@[0] == 'd');
    reveal_strlit("offline");
    assert("offline"@.len() == 7 && "offline"@[0] == 'o');
}

/// Each word says one thing of a session.
pub proof fn sessions_are_called_what_they_are(status: SshSessionRuntimeStatus)
    ensures
        session_status_word(status) == "connecting"@ <==> status
            == SshSessionRuntimeStatus::Connecting,
        session_status_word(status) == "healthy"@ <==> status == SshSessionRuntimeStatus::Healthy,
        session_status_word(status) == "suspect"@ <==> status == SshSessionRuntimeStatus::Suspect,
        session_status_word(status) == "draining"@ <==> status
            == SshSessionRuntimeStatus::Draining,
        session_status_word(status) == "offline"@ <==> status == SshSessionRuntimeStatus::Offline,
{
    reveal_strlit("connecting");
    assert("connecting"@.len() == 10 && "connecting"@[0] == 'c');
    reveal_strlit("healthy");
    assert("healthy"@.len() == 7 && "healthy"@[0] == 'h');
    reveal_strlit("suspect");
    assert("suspect"@.len() == 7 && "suspect"@[0] == 's');
    reveal_strlit("draining");
    assert("draining"@.len() == 8 && "draining"@[0] == 'd');
    reveal_strlit("offline");
    assert("offline"@.len() == 7 && "offline"@[0] == 'o');
}

/// Each word says one thing of a tunnel.
pub proof fn tunnels_are_called_what_they_are(status: TunnelRuntimeStatus)
    ensures
        tunnel_status_word(status) == "starting"@ <==> status == TunnelRuntimeStatus::Starting,
        tunnel_status_word(status) == "listening"@ <==> status == TunnelRuntimeStatus::Listening,
        tunnel_status_word(status) == "listen-failed"@ <==> status == TunnelRuntimeStatus::Error,
        tunnel_status_word(status) == "stopped"@ <==> status == TunnelRuntimeStatus::Stopped,
{
    reveal_strlit("starting");
    assert("starting"@.len() == 8 && "starting"@[0] == 's');
    reveal_strlit("listening");
    assert("listening"@.len() == 9 && "listening"@[0] == 'l');
    reveal_strlit("listen-failed");
    assert("listen-failed"@.len() == 13 && "listen-failed"@[0] == 'l');
    reveal_strlit("stopped");
    assert("stopped"@.len() == 7 && "stopped"@[0] == 's');
}

/// Each word says one thing of a connection.
pub proof fn connections_are_called_what_they_are(status: ConnectionRuntimeStatus)
    ensures
        connection_status_word(status) == "connecting"@ <==> status
            == ConnectionRuntimeStatus::Connecting,
        connection_status_word(status) == "active"@ <==> status
            == ConnectionRuntimeStatus::Active,
        connection_status_word(status) == "closed"@ <==> status
            == ConnectionRuntimeStatus::Closed,
        connection_status_word(status) == "error"@ <==> status == ConnectionRuntimeStatus::Error,
{
    reveal_strlit("connecting");
    assert("connecting"@.len() == 10 && "connecting"@[0] == 'c');
    reveal_strlit("active");
    assert("active"@.len() == 6 && "active"@[0] == 'a');
    reveal_strlit("closed");
    assert("closed"@.len() == 6 && "closed"@[0] == 'c');
    reveal_strlit("error");
    assert("error"@.len() == 5 && "error"@[0] == 'e');
}

/// Each word names one kind of tunnel, and has no slash in it.
pub proof fn kinds_are_called_what_they_are(kind: TunnelKind)
    ensures
        tunnel_kind_word(kind) == "local-proxy"@ <==> kind == TunnelKind::LocalProxy,
        tunnel_kind_word(kind) == "local-forward"@ <==> kind == TunnelKind::LocalForward,
        tunnel_kind_word(kind) == "remote-proxy"@ <==> kind == TunnelKind::RemoteProxy,
        tunnel_kind_word(kind) == "remote-forward"@ <==> kind == TunnelKind::RemoteForward,
        !tunnel_kind_word(kind).contains('/'),
{
    reveal_strlit("local-proxy");
    assert("local-proxy"@.len() == 11 && "local-proxy"@[0] == 'l');
    reveal_strlit("local-forward");
    assert("local-forward"@.len() == 13 && "local-forward"@[0] == 'l');
    reveal_strlit("remote-proxy");
    assert("remote-proxy"@.len() == 12 && "remote-proxy"@[0] == 'r');
    reveal_strlit("remote-forward");
    assert("remote-forward"@.len() == 14 && "remote-forward"@[0] == 'r');
}

proof fn lemma_cut_at_slash(a: Seq<char>, b: Seq<char>, behind_a: Seq<char>, behind_b: Seq<char>)
    requires
        !a.contains('/'),
        !b.contains('/'),
        a + seq!['/'] + behind_a == b + seq!['/'] + behind_b,
    ensures
        a == b,
        behind_a == behind_b,
{
    let x = a + seq!['/'] + behind_a;
    let y = b + seq!['/'] + behind_b;
    assert(x[a.len() as int] == '/');
    assert(y[b.len() as int] == '/');
    if a.len() < b.len() {
        assert(b[a.len() as int] == y[a.len() as int]);
    }
    if b.len() < a.len() {
        assert(a[b.len() as int] == x[b.len() as int]);
    }
    assert(a =~= x.take(a.len() as int));
    assert(b =~= y.take(b.len() as int));
    assert(behind_a =~= x.skip(a.len() as int + 1));
    assert(behind_b =~= y.skip(b.len() as int + 1));
}

/// Two tunnels with different hosts, kinds or names are never called the same, where the names
/// of the hosts have no slash.
pub proof fn tunnels_are_told_apart(
    host: Seq<char>,
    kind: TunnelKind,
    name: Seq<char>,
    other_host: Seq<char>,
    other_kind: TunnelKind,
    other_name: Seq<char>,
)
    requires
        !host.contains('/'),
        !other_host.contains('/'),
        tunnel_id_text(host, kind, name) == tunnel_id_text(other_host, other_kind, other_name),
    ensures
        host == other_host,
        kind == other_kind,
        name == other_name,
{
    reveal_strlit("/");
    assert("/"@ =~= seq!['/']);
    kinds_are_called_what_they_are(kind);
    kinds_are_called_what_they_are(other_kind);
    let behind = tunnel_kind_word(kind) + seq!['/'] + name;
    let other_behind = tunnel_kind_word(other_kind) + seq!['/'] + other_name;
    assert(tunnel_id_text(host, kind, name) =~= host + seq!['/'] + behind);
    assert(tunnel_id_text(other_host, other_kind, other_name) =~= other_host + seq!['/']
        + other_behind);
    lemma_cut_at_slash(host, other_host, behind, other_behind);
    lemma_cut_at_slash(
        tunnel_kind_word(kind),
        tunnel_kind_word(other_kind),
        name,
        other_name,
    );
}

/// The name of a tunnel begins with its host, then names its kind, and ends with its own name.
pub proof fn tunnels_are_named_by_host_and_kind(
    host: Seq<char>,
    kind: TunnelKind,
    name: Seq<char>,
)
    ensures
        tunnel_id_text(host, TunnelKind::LocalProxy, name) == host + "/local-proxy/"@ + name,
        tunnel_id_text(host, TunnelKind::LocalForward, name) == host + "/local-forward/"@ + name,
        tunnel_id_text(host, TunnelKind::RemoteProxy, name) == host + "/remote-proxy/"@ + name,
        tunnel_id_text(host, TunnelKind::RemoteForward, name) == host + "/remote-forward/"@ + name,
{
    reveal_strlit("/");
    reveal_strlit("local-proxy");
    reveal_strlit("/local-proxy/");
    assert("/"@ + "local-proxy"@ + "/"@ =~= "/local-proxy/"@);
    assert(tunnel_id_text(host, TunnelKind::LocalProxy, name) =~= host + ("/"@ + "local-proxy"@
        + "/"@) + name);
    reveal_strlit("local-forward");
    reveal_strlit("/local-forward/");
    assert("/"@ + "local-forward"@ + "/"@ =~= "/local-forward/"@);
    assert(tunnel_id_text(host, TunnelKind::LocalForward, name) =~= host + ("/"@
        + "local-forward"@ + "/"@) + name);
    reveal_strlit("remote-proxy");
    reveal_strlit("/remote-proxy/");
    assert("/"@ + "remote-proxy"@ + "/"@ =~= "/remote-proxy/"@);
    assert(tunnel_id_text(host, TunnelKind::RemoteProxy, name) =~= host + ("/"@
        + "remote-proxy"@ + "/"@) + name);
    reveal_strlit("remote-forward");
    reveal_strlit("/remote-forward/");
    assert("/"@ + "remote-forward"@ + "/"@ =~= "/remote-forward/"@);
    assert(tunnel_id_text(host, TunnelKind::RemoteForward, name) =~= host + ("/"@
        + "remote-forward"@ + "/"@) + name);
}

// ---------------------------------------------------------------------------
// Lines and pages
// ---------------------------------------------------------------------------
/// Whether a line has a piece in it.
pub open spec fn shows(line: Seq<char>, piece: Seq<char>) -> bool {
    exists|front: Seq<char>, back: Seq<char>| line == #[trigger] around(front, piece, back)
}

/// A piece with what stands in front of it and behind it.
pub open spec fn around(front: Seq<char>, piece: Seq<char>, back: Seq<char>) -> Seq<char> {
    front + piece + back
}

proof fn lemma_shows(line: Seq<char>, front: Seq<char>, piece: Seq<char>, back: Seq<char>)
    requires
        line =~= front + piece + back,
    ensures
        shows(line, piece),
{
    assert(line == around(front, piece, back));
}

proof fn lemma_two(a: Seq<char>, b: Seq<char>, c: Seq<char>, d: Seq<char>, z: Seq<char>)
    ensures
        shows(a + b + c + d, a + b),
        shows(a + b + c + d, c + d),
        shows(a + b + c + d + z, a + b),
        shows(a + b + c + d + z, c + d),
{
    lemma_shows(a + b + c + d, Seq::empty(), a + b, c + d);
    lemma_shows(a + b + c + d, a + b, c + d, Seq::empty());
    lemma_shows(a + b + c + d + z, Seq::empty(), a + b, c + d + z);
    lemma_shows(a + b + c + d + z, a + b, c + d, z);
}

proof fn lemma_three(
    a: Seq<char>,
    b: Seq<char>,
    c: Seq<char>,
    d: Seq<char>,
    e: Seq<char>,
    f: Seq<char>,
    z: Seq<char>,
)
    ensures
        shows(a + b + c + d + e + f, a + b),
        shows(a + b + c + d + e + f, c + d),
        shows(a + b + c + d + e + f, e + f),
        shows(a + b + c + d + e + f + z, a + b),
        shows(a + b + c + d + e + f + z, c + d),
        shows(a + b + c + d + e + f + z, e + f),
{
    lemma_shows(a + b + c + d + e + f, Seq::empty(), a + b, c + d + e + f);
    lemma_shows(a + b + c + d + e + f, a + b, c + d, e + f);
    lemma_shows(a + b + c + d + e + f, a + b + c + d, e + f, Seq::empty());
    lemma_shows(a + b + c + d + e + f + z, Seq::empty(), a + b, c + d + e + f + z);
    lemma_shows(a + b + c + d + e + f + z, a + b, c + d, e + f + z);
    lemma_shows(a + b + c + d + e + f + z, a + b + c + d, e + f, z);
}

proof fn lemma_four(
    a: Seq<char>,
    b: Seq<char>,
    c: Seq<char>,
    d: Seq<char>,
    e: Seq<char>,
    f: Seq<char>,
    g: Seq<char>,
    h: Seq<char>,
    z: Seq<char>,
)
    ensures
        shows(a + b + c + d + e + f + g + h, a + b),
        shows(a + b + c + d + e + f + g + h, c + d),
        shows(a + b + c + d + e + f + g + h, e + f),
        shows(a + b + c + d + e + f + g + h, g + h),
        shows(a + b + c + d + e + f + g + h + z, a + b),
        shows(a + b + c + d + e + f + g + h + z, c + d),
        shows(a + b + c + d + e + f + g + h + z, e + f),
        shows(a + b + c + d + e + f + g + h + z, g + h),
{
    lemma_shows(a + b + c + d + e + f + g + h, Seq::empty(), a + b, c + d + e + f + g + h);
    lemma_shows(a + b + c + d + e + f + g + h, a + b, c + d, e + f + g + h);
    lemma_shows(a + b + c + d + e + f + g + h, a + b + c + d, e + f, g + h);
    lemma_shows(a + b + c + d + e + f + g + h, a + b + c + d + e + f, g + h, Seq::empty());
    lemma_shows(a + b + c + d + e + f + g + h + z, Seq::empty(), a + b, c + d + e + f + g + h + z);
    lemma_shows(a + b + c + d + e + f + g + h + z, a + b, c + d, e + f + g + h + z);
    lemma_shows(a + b + c + d + e + f + g + h + z, a + b + c + d, e + f, g + h + z);
    lemma_shows(a + b + c + d + e + f + g + h + z, a + b + c + d + e + f, g + h, z);
}

proof fn lemma_speeds(front: Seq<char>, up: Seq<char>, a: Seq<char>, down: Seq<char>, b: Seq<char>)
    ensures
        shows(front + (up + a + down + b), up + a),
        shows(front + (up + a + down + b), down + b),
{
    lemma_shows(front + (up + a + down + b), front, up + a, down + b);
    lemma_shows(front + (up + a + down + b), front + (up + a), down + b, Seq::empty());
}

/// The lines about a session show its number and state, how long it runs and how quick it
/// answers, its channels and their errors, its speed and its traffic, each under its name.
pub proof fn sessions_show_what_they_are(session: SshSessionRuntimeSnapshot)
    ensures
        shows(session_lines(session)[0], "      #"@ + decimal(session.id as nat)),
        shows(session_lines(session)[0], " ["@ + session_status_word(session.status)),
        shows(
            session_lines(session)[0],
            "]    uptime "@ + optional_duration_text(session.uptime_ms),
        ),
        shows(session_lines(session)[0], "    RTT "@ + optional_millis_text(session.rtt_ms)),
        shows(
            session_lines(session)[1],
            "        Startup: "@ + decimal_millis_text(session.startup_ms),
        ),
        shows(
            session_lines(session)[1],
            "    channels "@ + decimal(session.active_channels as nat),
        ),
        shows(session_lines(session)[1], " active / "@ + decimal(session.channels_total as nat)),
        shows(
            session_lines(session)[1],
            " total    channel errors "@ + decimal(session.channel_open_errors_total as nat),
        ),
        shows(session_lines(session)[2], "upload "@ + speed_text(session.upload_bps)),
        shows(session_lines(session)[2], "    download "@ + speed_text(session.download_bps)),
        shows(
            session_lines(session)[3],
            "        Traffic: upload "@ + bytes_text(session.uploaded_bytes_total),
        ),
        shows(
            session_lines(session)[3],
            "    download "@ + bytes_text(session.downloaded_bytes_total),
        ),
{
    reveal(session_lines);
    lemma_four(
        "      #"@,
        decimal(session.id as nat),
        " ["@,
        session_status_word(session.status),
        "]    uptime "@,
        optional_duration_text(session.uptime_ms),
        "    RTT "@,
        optional_millis_text(session.rtt_ms),
        session_flags(session.remote_forward_owner, session.retiring),
    );
    lemma_four(
        "        Startup: "@,
        decimal_millis_text(session.startup_ms),
        "    channels "@,
        decimal(session.active_channels as nat),
        " active / "@,
        decimal(session.channels_total as nat),
        " total    channel errors "@,
        decimal(session.channel_open_errors_total as nat),
        Seq::empty(),
    );
    lemma_speeds(
        "        Speed: "@,
        "upload "@,
        speed_text(session.upload_bps),
        "    download "@,
        speed_text(session.download_bps),
    );
    lemma_two(
        "        Traffic: upload "@,
        bytes_text(session.uploaded_bytes_total),
        "    download "@,
        bytes_text(session.downloaded_bytes_total),
        Seq::empty(),
    );
}

/// The lines about a tunnel show its kind, name and state, where it listens, its connections
/// and errors, its speed and its traffic, each under its name.
pub proof fn tunnels_show_what_they_are(tunnel: TunnelRuntimeSnapshot)
    ensures
        shows(tunnel_lines(tunnel)[0], "      "@ + tunnel_kind_word(tunnel.kind)),
        shows(tunnel_lines(tunnel)[0], " "@ + tunnel.name@),
        shows(tunnel_lines(tunnel)[0], " ["@ + tunnel_status_word(tunnel.status)),
        shows(tunnel_lines(tunnel)[1], "        Listen: "@ + tunnel.listen@),
        shows(tunnel_lines(tunnel)[1], "    "@ + destination_text(tunnel)),
        shows(
            tunnel_lines(tunnel)[2],
            "        Connections: "@ + decimal(tunnel.connections_active as nat),
        ),
        shows(tunnel_lines(tunnel)[2], " active / "@ + decimal(tunnel.connections_total as nat)),
        shows(tunnel_lines(tunnel)[2], " total    errors "@ + decimal(tunnel.errors_total as nat)),
        shows(tunnel_lines(tunnel)[3], "upload "@ + speed_text(tunnel.upload_bps)),
        shows(tunnel_lines(tunnel)[3], "    download "@ + speed_text(tunnel.download_bps)),
        shows(
            tunnel_lines(tunnel)[4],
            "        Traffic: upload "@ + bytes_text(tunnel.uploaded_bytes_total),
        ),
        shows(
            tunnel_lines(tunnel)[4],
            "    download "@ + bytes_text(tunnel.downloaded_bytes_total),
        ),
{
    reveal(tunnel_lines);
    lemma_three(
        "      "@,
        tunnel_kind_word(tunnel.kind),
        " "@,
        tunnel.name@,
        " ["@,
        tunnel_status_word(tunnel.status),
        "]"@,
    );
    lemma_two("        Listen: "@, tunnel.listen@, "    "@, destination_text(tunnel), Seq::empty());
    lemma_three(
        "        Connections: "@,
        decimal(tunnel.connections_active as nat),
        " active / "@,
        decimal(tunnel.connections_total as nat),
        " total    errors "@,
        decimal(tunnel.errors_total as nat),
        Seq::empty(),
    );
    lemma_speeds(
        "        Speed: "@,
        "upload "@,
        speed_text(tunnel.upload_bps),
        "    download "@,
        speed_text(tunnel.download_bps),
    );
    lemma_two(
        "        Traffic: upload "@,
        bytes_text(tunnel.uploaded_bytes_total),
        "    download "@,
        bytes_text(tunnel.downloaded_bytes_total),
        Seq::empty(),
    );
}

/// The lines about a connection show its number and state, where it comes from and leads, its
/// tunnel, protocol and session, how long it lasts, its speed, its traffic and its errors, each
/// under its name.
pub proof fn connections_show_what_they_are(connection: ConnectionRuntimeSnapshot)
    ensures
        shows(connection_lines(connection)[0], "      #"@ + decimal(connection.id as nat)),
        shows(connection_lines(connection)[0], " ["@ + connection_status_word(connection.status)),
        shows(connection_lines(connection)[0], "]    "@ + connection.peer_address@),
        shows(connection_lines(connection)[0], " -> "@ + text_or_dash(connection.target)),
        shows(connection_lines(connection)[1], "        Tunnel: "@ + connection.tunnel_id@),
        shows(
            connection_lines(connection)[1],
            "    protocol "@ + text_or_dash(connection.protocol),
        ),
        shows(
            connection_lines(connection)[1],
            "    session "@ + session_text(connection.session_id),
        ),
        shows(
            connection_lines(connection)[1],
            "    uptime "@ + duration_text(connection.uptime_ms),
        ),
        shows(connection_lines(connection)[2], "upload "@ + speed_text(connection.upload_bps)),
        shows(
            connection_lines(connection)[2],
            "    download "@ + speed_text(connection.download_bps),
        ),
        shows(
            connection_lines(connection)[3],
            "        Traffic: upload "@ + bytes_text(connection.uploaded_bytes_total),
        ),
        shows(
            connection_lines(connection)[3],
            "    download "@ + bytes_text(connection.downloaded_bytes_total),
        ),
        shows(
            connection_lines(connection)[3],
            "    errors "@ + decimal(connection.errors_total as nat),
        ),
{
    reveal(connection_lines);
    lemma_four(
        "      #"@,
        decimal(connection.id as nat),
        " ["@,
        connection_status_word(connection.status),
        "]    "@,
        connection.peer_address@,
        " -> "@,
        text_or_dash(connection.target),
        Seq::empty(),
    );
    lemma_four(
        "        Tunnel: "@,
        connection.tunnel_id@,
        "    protocol "@,
        text_or_dash(connection.protocol),
        "    session "@,
        session_text(connection.session_id),
        "    uptime "@,
        duration_text(connection.uptime_ms),
        Seq::empty(),
    );
    lemma_speeds(
        "        Speed: "@,
        "upload "@,
        speed_text(connection.upload_bps),
        "    download "@,
        speed_text(connection.download_bps),
    );
    lemma_three(
        "        Traffic: upload "@,
        bytes_text(connection.uploaded_bytes_total),
        "    download "@,
        bytes_text(connection.downloaded_bytes_total),
        "    errors "@,
        decimal(connection.errors_total as nat),
        Seq::empty(),
    );
}

/// The lines about a host show its name and state, its alias and address, its sessions and
/// connections, its speed and its traffic, each under its name.
pub proof fn hosts_show_what_they_are(host: HostRuntimeSnapshot)
    ensures
        shows(host_lines(host)[0], "  "@ + host.name@),
        shows(host_lines(host)[0], " ["@ + host_status_word(host.status)),
        shows(host_lines(host)[1], "    SSH: "@ + host.ssh_alias@),
        shows(host_lines(host)[1], " -> "@ + host.address@),
        shows(host_lines(host)[1], "    RTT: "@ + optional_millis_text(host.rtt_ms)),
        shows(host_lines(host)[2], "    Pool: "@ + decimal(host.min_sessions as nat)),
        shows(host_lines(host)[2], "-"@ + decimal(host.max_sessions as nat)),
        shows(host_lines(host)[2], " sessions    active "@ + decimal(online_count(host.sessions@))),
        shows(host_lines(host)[2], " / "@ + decimal(host.sessions@.len())),
        shows(host_lines(host)[3], "    Connections: "@ + decimal(host.connections_active as nat)),
        shows(host_lines(host)[3], " active / "@ + decimal(host.connections_total as nat)),
        shows(host_lines(host)[3], " total    restarts "@ + decimal(host.restart_count as nat)),
        shows(host_lines(host)[3], "    errors "@ + decimal(host.errors_total as nat)),
        shows(host_lines(host)[4], "upload "@ + speed_text(host.upload_bps)),
        shows(host_lines(host)[4], "    download "@ + speed_text(host.download_bps)),
        shows(host_lines(host)[5], "    Traffic: upload "@ + bytes_text(host.uploaded_bytes_total)),
        shows(host_lines(host)[5], "    download "@ + bytes_text(host.downloaded_bytes_total)),
{
    reveal(host_lines);
    lemma_two("  "@, host.name@, " ["@, host_status_word(host.status), "]"@);
    lemma_three(
        "    SSH: "@,
        host.ssh_alias@,
        " -> "@,
        host.address@,
        "    RTT: "@,
        optional_millis_text(host.rtt_ms),
        Seq::empty(),
    );
    lemma_four(
        "    Pool: "@,
        decimal(host.min_sessions as nat),
        "-"@,
        decimal(host.max_sessions as nat),
        " sessions    active "@,
        decimal(online_count(host.sessions@)),
        " / "@,
        decimal(host.sessions@.len()),
        " retained"@,
    );
    lemma_four(
        "    Connections: "@,
        decimal(host.connections_active as nat),
        " active / "@,
        decimal(host.connections_total as nat),
        " total    restarts "@,
        decimal(host.restart_count as nat),
        "    errors "@,
        decimal(host.errors_total as nat),
        Seq::empty(),
    );
    lemma_speeds(
        "    Speed: "@,
        "upload "@,
        speed_text(host.upload_bps),
        "    download "@,
        speed_text(host.download_bps),
    );
    lemma_two(
        "    Traffic: upload "@,
        bytes_text(host.uploaded_bytes_total),
        "    download "@,
        bytes_text(host.downloaded_bytes_total),
        Seq::empty(),
    );
}

/// The lines about the program show its configuration, hosts, sessions and connections, its speed
/// and its traffic, and its errors, each under its name.
pub proof fn programs_show_what_they_do(snapshot: RuntimeSnapshot)
    ensures
        shows(
            status_lines(snapshot)[2],
            "  Config: generation "@ + decimal(snapshot.config_generation as nat),
        ),
        shows(
            status_lines(snapshot)[2],
            "    reloads "@ + decimal(snapshot.config_reloads_total as nat),
        ),
        shows(
            status_lines(snapshot)[2],
            "    reload errors "@ + decimal(snapshot.config_reload_errors_total as nat),
        ),
        shows(status_lines(snapshot)[3], "  Hosts: "@ + decimal(snapshot.configured_hosts as nat)),
        shows(
            status_lines(snapshot)[3],
            "    SSH sessions: "@ + decimal(snapshot.ssh_sessions_active as nat),
        ),
        shows(
            status_lines(snapshot)[3],
            " active / "@ + decimal(snapshot.ssh_sessions_total as nat),
        ),
        shows(
            status_lines(snapshot)[4],
            "  Connections: "@ + decimal(snapshot.local_connections_active as nat),
        ),
        shows(
            status_lines(snapshot)[4],
            " active / "@ + decimal(snapshot.local_connections_total as nat),
        ),
        shows(status_lines(snapshot)[6], "upload "@ + speed_text(snapshot.upload_bps)),
        shows(status_lines(snapshot)[6], "    download "@ + speed_text(snapshot.download_bps)),
        shows(
            status_lines(snapshot)[7],
            "  Traffic: upload "@ + bytes_text(snapshot.uploaded_bytes_total),
        ),
        shows(
            status_lines(snapshot)[7],
            "    download "@ + bytes_text(snapshot.downloaded_bytes_total),
        ),
        shows(
            status_lines(snapshot)[7],
            "    total "@ + bytes_text(snapshot.transferred_bytes_total),
        ),
{
    lemma_three(
        "  Config: generation "@,
        decimal(snapshot.config_generation as nat),
        "    reloads "@,
        decimal(snapshot.config_reloads_total as nat),
        "    reload errors "@,
        decimal(snapshot.config_reload_errors_total as nat),
        Seq::empty(),
    );
    lemma_three(
        "  Hosts: "@,
        decimal(snapshot.configured_hosts as nat),
        "    SSH sessions: "@,
        decimal(snapshot.ssh_sessions_active as nat),
        " active / "@,
        decimal(snapshot.ssh_sessions_total as nat),
        " created"@,
    );
    lemma_two(
        "  Connections: "@,
        decimal(snapshot.local_connections_active as nat),
        " active / "@,
        decimal(snapshot.local_connections_total as nat),
        " accepted"@,
    );
    lemma_speeds(
        "  Speed: "@,
        "upload "@,
        speed_text(snapshot.upload_bps),
        "    download "@,
        speed_text(snapshot.download_bps),
    );
    lemma_three(
        "  Traffic: upload "@,
        bytes_text(snapshot.uploaded_bytes_total),
        "    download "@,
        bytes_text(snapshot.downloaded_bytes_total),
        "    total "@,
        bytes_text(snapshot.transferred_bytes_total),
        Seq::empty(),
    );
}

/// The program says whether it runs and for how long, whether connections are captured and
/// cleared and how many were, how long channels take to open, and how many errors there were.
pub proof fn programs_show_their_state(snapshot: RuntimeSnapshot)
    ensures
        ({
            let line = status_lines(snapshot)[1];
            &&& snapshot.running ==> shows(line, "  State: "@ + "running"@)
            &&& !snapshot.running ==> shows(line, "  State: "@ + "stopped"@)
            &&& shows(line, "    Uptime: "@ + optional_duration_text(snapshot.uptime_ms))
        }),
        ({
            let line = status_lines(snapshot)[5];
            let capture = snapshot.connection_capture;
            &&& capture.recording ==> shows(line, "  Connection capture: "@ + "recording"@)
            &&& !capture.recording ==> shows(line, "  Connection capture: "@ + "stopped"@)
            &&& capture.auto_clear_closed ==> shows(line, "    auto-clear "@ + "on"@)
            &&& !capture.auto_clear_closed ==> shows(line, "    auto-clear "@ + "off"@)
            &&& shows(line, "    "@ + decimal(captured_count(snapshot.hosts@)))
        }),
        status_lines(snapshot)[8] == "  SSH channel open: "@ + channel_latency_text(
            snapshot.ssh_channel_open,
        ),
        status_lines(snapshot)[9] == "  Errors: "@ + decimal(snapshot.errors_total as nat),
{
    lemma_two(
        "  State: "@,
        if snapshot.running {
            "running"@
        } else {
            "stopped"@
        },
        "    Uptime: "@,
        optional_duration_text(snapshot.uptime_ms),
        Seq::empty(),
    );
    lemma_three(
        "  Connection capture: "@,
        if snapshot.connection_capture.recording {
            "recording"@
        } else {
            "stopped"@
        },
        "    auto-clear "@,
        if snapshot.connection_capture.auto_clear_closed {
            "on"@
        } else {
            "off"@
        },
        "    "@,
        decimal(captured_count(snapshot.hosts@)),
        " captured"@,
    );
}

/// The first line names the program, and an empty one stands in front of the hosts; these are
/// counted, and their lines come in their order.
pub proof fn pages_show_every_host(snapshot: RuntimeSnapshot)
    ensures
        status_lines(snapshot)[0] == "SSH Tunnel Keeper"@,
        status_lines(snapshot)[10].len() == 0,
        snapshot.hosts@.len() == 0 ==> status_lines(snapshot).len() == 12 && status_lines(
            snapshot,
        )[11] == "Hosts: none"@,
        snapshot.hosts@.len() > 0 ==> status_lines(snapshot)[11] == "Hosts ("@ + decimal(
            snapshot.hosts@.len(),
        ) + ")"@ && status_lines(snapshot).skip(12) == all_host_lines(snapshot.hosts@),
{
    if snapshot.hosts@.len() > 0 {
        assert(status_lines(snapshot).skip(12) =~= all_host_lines(snapshot.hosts@));
    }
}

/// The lines about one thing more stand behind the lines about those before it.
pub proof fn lists_are_shown_in_order(
    hosts: Seq<HostRuntimeSnapshot>,
    host: HostRuntimeSnapshot,
    sessions: Seq<SshSessionRuntimeSnapshot>,
    session: SshSessionRuntimeSnapshot,
    tunnels: Seq<TunnelRuntimeSnapshot>,
    tunnel: TunnelRuntimeSnapshot,
    connections: Seq<ConnectionRuntimeSnapshot>,
    connection: ConnectionRuntimeSnapshot,
)
    ensures
        all_host_lines(hosts.push(host)) == all_host_lines(hosts) + host_lines(host),
        all_session_lines(sessions.push(session)) == all_session_lines(sessions) + session_lines(
            session,
        ),
        all_tunnel_lines(tunnels.push(tunnel)) == all_tunnel_lines(tunnels) + tunnel_lines(tunnel),
        all_connection_lines(connections.push(connection)) == all_connection_lines(connections)
            + connection_lines(connection),
        all_host_lines(Seq::empty()).len() == 0,
        all_session_lines(Seq::empty()).len() == 0,
        all_tunnel_lines(Seq::empty()).len() == 0,
        all_connection_lines(Seq::empty()).len() == 0,
{
    assert(hosts.push(host).drop_last() =~= hosts);
    assert(sessions.push(session).drop_last() =~= sessions);
    assert(tunnels.push(tunnel).drop_last() =~= tunnels);
    assert(connections.push(connection).drop_last() =~= connections);
}

/// Sessions that are not offline are counted as active, and the others are not.
pub proof fn active_sessions_are_counted(
    sessions: Seq<SshSessionRuntimeSnapshot>,
    session: SshSessionRuntimeSnapshot,
)
    ensures
        session.status == SshSessionRuntimeStatus::Offline ==> online_count(sessions.push(session))
            == online_count(sessions),
        session.status != SshSessionRuntimeStatus::Offline ==> online_count(sessions.push(session))
            == online_count(sessions) + 1,
        online_count(Seq::empty()) == 0,
{
    assert(sessions.push(session).drop_last() =~= sessions);
}

/// The captured connections of a program are those of all its hosts.
pub proof fn captured_connections_are_counted(
    hosts: Seq<HostRuntimeSnapshot>,
    host: HostRuntimeSnapshot,
)
    ensures
        captured_count(hosts.push(host)) == captured_count(hosts) + host.connections@.len(),
        captured_count(Seq::empty()) == 0,
{
    assert(hosts.push(host).drop_last() =~= hosts);
}

/// An error of a session is shown in a line of its own behind the others, and only where there
/// was one.
pub proof fn session_errors_are_shown(session: SshSessionRuntimeSnapshot)
    ensures
        session.last_error is None ==> session_lines(session).len() == 4,
        session.last_error is Some ==> session_lines(session).len() == 5 && session_lines(
            session,
        )[4] == "        "@ + "Last error: "@ + session.last_error->0@,
{
    reveal(session_lines);
}

/// An error of a connection is shown in a line of its own behind the others, and only where
/// there was one.
pub proof fn connection_errors_are_shown(connection: ConnectionRuntimeSnapshot)
    ensures
        connection.last_error is None ==> connection_lines(connection).len() == 4,
        connection.last_error is Some ==> connection_lines(connection).len() == 5
            && connection_lines(connection)[4] == "        "@ + "Last error: "@
            + connection.last_error->0@,
{
    reveal(connection_lines);
}

/// The session that holds a tunnel is shown behind the other lines, and an error of the tunnel
/// behind that; each only where there is one.
pub proof fn tunnel_holders_and_errors_are_shown(tunnel: TunnelRuntimeSnapshot)
    ensures
        ({
            let lines = tunnel_lines(tunnel);
            let (held, failed) = (tunnel.owner_session_id, tunnel.last_error);
            &&& held is None && failed is None ==> lines.len() == 5
            &&& held is Some && failed is None ==> lines.len() == 6
            &&& held is None && failed is Some ==> lines.len() == 6
            &&& held is Some && failed is Some ==> lines.len() == 7
            &&& held is Some ==> lines[5] == "        Owner session: #"@ + decimal(held->0 as nat)
            &&& failed is Some ==> lines.last() == "        "@ + "Last error: "@ + failed->0@
        }),
{
    reveal(tunnel_lines);
}

/// An error of a host is shown in a line of its own behind those about the host itself.
pub proof fn host_errors_are_shown(host: HostRuntimeSnapshot)
    requires
        host.last_error is Some,
    ensures
        host_lines(host)[6] == "    "@ + "Last error: "@ + host.last_error->0@,
{
    reveal(host_lines);
}

/// Behind the lines about a host itself stand those about its sessions, its tunnels and its
/// connections, each under a heading and none where there are none.
pub proof fn hosts_show_what_they_have(host: HostRuntimeSnapshot)
    ensures
        ({
            let lines = host_lines(host);
            let own: int = if host.last_error is Some {
                7
            } else {
                6
            };
            let sessions = all_session_lines(host.sessions@);
            let tunnels = all_tunnel_lines(host.tunnels@);
            let connections = all_connection_lines(host.connections@);
            let first = if host.sessions@.len() == 0 {
                own
            } else {
                own + 1 + sessions.len()
            };
            let second = if host.tunnels@.len() == 0 {
                first
            } else {
                first + 1 + tunnels.len()
            };
            let third = if host.connections@.len() == 0 {
                second
            } else {
                second + 1 + connections.len()
            };
            &&& lines.len() == third
            &&& host.sessions@.len() > 0 ==> lines[own] == "    Sessions"@ && lines.subrange(
                own + 1,
                first,
            ) == sessions
            &&& host.tunnels@.len() > 0 ==> lines[first] == "    Tunnels"@ && lines.subrange(
                first + 1,
                second,
            ) == tunnels
            &&& host.connections@.len() > 0 ==> lines[second] == "    Connections"@
                && lines.subrange(second + 1, third) == connections
        }),
{
    reveal(host_lines);
    let lines = host_lines(host);
    let own: int = if host.last_error is Some {
        7
    } else {
        6
    };
    let sessions = all_session_lines(host.sessions@);
    let tunnels = all_tunnel_lines(host.tunnels@);
    let connections = all_connection_lines(host.connections@);
    let first = if host.sessions@.len() == 0 {
        own
    } else {
        own + 1 + sessions.len()
    };
    let second = if host.tunnels@.len() == 0 {
        first
    } else {
        first + 1 + tunnels.len()
    };
    let third = if host.connections@.len() == 0 {
        second
    } else {
        second + 1 + connections.len()
    };
    assert(lines.len() == third);
    if host.sessions@.len() > 0 {
        assert(lines.subrange(own + 1, first) =~= sessions);
    }
    if host.tunnels@.len() > 0 {
        assert(lines.subrange(first + 1, second) =~= tunnels);
    }
    if host.connections@.len() > 0 {
        assert(lines.subrange(second + 1, third) =~= connections);
    }
}

/// A session is marked as the holder of the remote forwards, and as leaving, where it is that.
pub proof fn marks_are_shown(owner: bool, retiring: bool)
    ensures
        session_flags(owner, retiring) == "    remote-forward owner, retiring"@ <==> owner
            && retiring,
        session_flags(owner, retiring) == "    remote-forward owner"@ <==> owner && !retiring,
        session_flags(owner, retiring) == "    retiring"@ <==> !owner && retiring,
        session_flags(owner, retiring).len() == 0 <==> !owner && !retiring,
{
    reveal_strlit("    remote-forward owner, retiring");
    reveal_strlit("    remote-forward owner");
    reveal_strlit("    retiring");
    assert("    remote-forward owner, retiring"@.len() == 34);
    assert("    remote-forward owner"@.len() == 24);
    assert("    retiring"@.len() == 12);
}

/// A forward shows its target, a proxy its protocol; what has neither is told at each
/// connection.
pub proof fn tunnels_show_where_they_lead(tunnel: TunnelRuntimeSnapshot)
    ensures
        tunnel.target is Some ==> destination_text(tunnel) == "target "@ + tunnel.target->0@,
        tunnel.target is None && tunnel.protocol is Some ==> destination_text(tunnel)
            == "protocol "@ + tunnel.protocol->0@,
        tunnel.target is None && tunnel.protocol is None ==> destination_text(tunnel)
            == "dynamic target"@,
{
}

/// Without samples no time is shown.
pub proof fn latencies_need_samples(latency: LatencySnapshot)
    ensures
        latency.samples == 0 ==> channel_latency_text(latency) == "no samples"@,
        latency.samples > 0 ==> shows(
            channel_latency_text(latency),
            "average "@ + decimal_millis_text(latency.average_ms),
        ) && shows(
            channel_latency_text(latency),
            "    max "@ + decimal_millis_text(latency.max_ms),
        ) && shows(
            channel_latency_text(latency),
            "    "@ + decimal(latency.samples as nat) + " samples"@,
        ),
{
    if latency.samples > 0 {
        let average = "average "@ + decimal_millis_text(latency.average_ms);
        let most = "    max "@ + decimal_millis_text(latency.max_ms);
        let samples = "    "@ + decimal(latency.samples as nat) + " samples"@;
        let line = channel_latency_text(latency);
        lemma_shows(line, Seq::empty(), average, most + samples);
        lemma_shows(line, average, most, samples);
        lemma_shows(line, average + most, samples, Seq::empty());
    }
}

} // verus!
