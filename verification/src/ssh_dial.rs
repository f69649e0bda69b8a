//! The dialing through SSH hosts: a host is chosen among those with a session to spare, others
//! are tried where it fails, and without any the connection waits. Times and durations are
//! nanoseconds.
use crate::address;
use crate::address::read_ipv6;
use crate::arith::larger;
use crate::config::{SshHostConfig, SshPoolConfig};
use crate::health::{candidate_positions, is_choice, lemma_candidate_positions, HealthStatus,
    LoadBalancePolicy, LoadBalancer, SshHostState};
use crate::network::{ConnectivitySnapshot, NetworkAvailability};
use crate::ssh_channel::{error_tail, host_failure};
use crate::ssh_plan::{ResolvedSshEndpoint, ResolvedSshPlan};
use crate::ssh_policy;
use crate::ssh_policy::{DURATION_MAX, SECOND};
use crate::ssh_pool::{takes_channels, total_in_flight, SessionPool, SshNodeState, SshSessionStatus};
use crate::status::{HostRuntimeStatus, SshSessionRuntimeStatus};
use crate::text::{concat3, concat4, contains_text, decimal, decimal_text, same_text, text_option,
    texts};
use vstd::prelude::*;

verus! {

// ---------------------------------------------------------------------------
// Hosts
// ---------------------------------------------------------------------------
/// A host with its sessions.
#[derive(Debug)]
pub struct SshNode {
    pub name: String,
    pub state: SshNodeState,
    pub pool: SessionPool,
    pub max_channels_per_session: usize,
}

/// What is known of a host from the start.
#[derive(Debug)]
pub struct HostRegistration {
    pub name: String,
    pub ssh_alias: String,
    pub address: String,
    pub min_sessions: usize,
    pub max_sessions: usize,
}

/// A host and port: an IPv6 address stands in brackets.
pub open spec fn ssh_address_text(host: Seq<char>, port: u16) -> Seq<char> {
    if read_ipv6(host) is Some {
        "["@ + host + "]:"@ + decimal(port as nat)
    } else {
        host + ":"@ + decimal(port as nat)
    }
}

/// Writes a host and port.
pub fn format_ssh_address(host: &str, port: u16) -> (r: String)
    ensures
        r@ == ssh_address_text(host@, port),
{
    let number = decimal_text(port as u64);
    if address::parse_ipv6(host).is_some() {
        concat4("[", host, "]:", number.as_str())
    } else {
        concat3(host, ":", number.as_str())
    }
}

/// What is known of a host once its configuration is resolved.
pub fn register_resolved_host(
    upstream: &SshHostConfig,
    plan: &ResolvedSshPlan,
    pool: &SshPoolConfig,
) -> (r: HostRegistration)
    ensures
        r.name@ == upstream.name@,
        r.ssh_alias@ == plan.target.alias@,
        r.address@ == ssh_address_text(plan.target.host@, plan.target.port),
        r.min_sessions == pool.min_sessions_per_host,
        r.max_sessions == pool.max_sessions_per_host,
{
    HostRegistration {
        name: upstream.name.as_str().to_owned(),
        ssh_alias: plan.target.alias.as_str().to_owned(),
        address: format_ssh_address(plan.target.host.as_str(), plan.target.port),
        min_sessions: pool.min_sessions_per_host,
        max_sessions: pool.max_sessions_per_host,
    }
}

/// The endpoint of a host that is not used yet.
pub fn idle_endpoint<'a>(host_name: &str, pool: &'a SshPoolConfig) -> (r: Result<
    &'a SshHostConfig,
    String,
>)
    ensures
        (match r {
            Ok(upstream) => pool.hosts@.len() > 0 && *upstream == pool.hosts@[0],
            Err(error) => pool.hosts@.len() == 0 && error@ == "SSH host "@ + host_name@
                + " has no runtime endpoint"@,
        }),
{
    if pool.hosts.len() > 0 {
        Ok(&pool.hosts[0])
    } else {
        Err(concat3("SSH host ", host_name, " has no runtime endpoint"))
    }
}

/// How the state of a host is shown.
#[verifier::allow_in_spec]
pub fn host_runtime_status(status: HealthStatus) -> HostRuntimeStatus
    returns
        (match status {
            HealthStatus::Healthy => HostRuntimeStatus::Healthy,
            HealthStatus::Degraded => HostRuntimeStatus::Degraded,
            HealthStatus::Offline => HostRuntimeStatus::Offline,
            HealthStatus::Unknown => HostRuntimeStatus::Connecting,
        }),
{
    match status {
        HealthStatus::Healthy => HostRuntimeStatus::Healthy,
        HealthStatus::Degraded => HostRuntimeStatus::Degraded,
        HealthStatus::Offline => HostRuntimeStatus::Offline,
        HealthStatus::Unknown => HostRuntimeStatus::Connecting,
    }
}

/// What is shown of a session.
#[verifier::allow_in_spec]
pub fn session_runtime_status(status: SshSessionStatus) -> SshSessionRuntimeStatus
    returns
        (match status {
            SshSessionStatus::Connecting => SshSessionRuntimeStatus::Connecting,
            SshSessionStatus::Healthy => SshSessionRuntimeStatus::Healthy,
            SshSessionStatus::Suspect => SshSessionRuntimeStatus::Suspect,
            SshSessionStatus::Draining => SshSessionRuntimeStatus::Draining,
            SshSessionStatus::Offline => SshSessionRuntimeStatus::Offline,
        }),
{
    match status {
        SshSessionStatus::Connecting => SshSessionRuntimeStatus::Connecting,
        SshSessionStatus::Healthy => SshSessionRuntimeStatus::Healthy,
        SshSessionStatus::Suspect => SshSessionRuntimeStatus::Suspect,
        SshSessionStatus::Draining => SshSessionRuntimeStatus::Draining,
        SshSessionStatus::Offline => SshSessionRuntimeStatus::Offline,
    }
}

impl SshNodeState {
    /// Takes in that a connection went through the host, and how many milliseconds that took.
    pub fn on_dialed(&mut self, millis: u64)
        ensures
            *final(self) == (SshNodeState {
                status: HealthStatus::Healthy,
                rtt_millis: Some(millis),
                last_error: None,
                ..*old(self)
            }),
    {
        self.status = HealthStatus::Healthy;
        self.rtt_millis = Some(millis);
        self.last_error = None;
    }

    /// Takes in that no connection went through the host.
    pub fn on_dial_failure(&mut self, error: &str)
        ensures
            final(self).status == HealthStatus::Degraded,
            final(self).rtt_millis == old(self).rtt_millis,
            final(self).restart_count == old(self).restart_count,
            text_option(final(self).last_error) == Some(error@),
    {
        self.status = HealthStatus::Degraded;
        self.last_error = Some(error.to_owned());
    }

    /// Takes in that a session has left the pool with an error; one that was to leave counts
    /// for nothing.
    pub fn on_session_exit(&mut self, retired: bool, error: &str)
        ensures
            final(self).status == old(self).status,
            final(self).rtt_millis == old(self).rtt_millis,
            retired ==> *final(self) == *old(self),
            !retired ==> {
                &&& final(self).restart_count == if old(self).restart_count == u64::MAX {
                    u64::MAX as int
                } else {
                    old(self).restart_count + 1
                }
                &&& text_option(final(self).last_error) == Some(error@)
            },
    {
        if !retired {
            self.restart_count = self.restart_count.saturating_add(1);
            self.last_error = Some(error.to_owned());
        }
    }
}

// ---------------------------------------------------------------------------
// The choice of a host
// ---------------------------------------------------------------------------
/// Some session of the host takes a channel.
pub open spec fn has_room(node: SshNode) -> bool {
    exists|i: int|
        0 <= i < node.pool.sessions@.len() && takes_channels(
            #[trigger] node.pool.sessions@[i],
            node.max_channels_per_session,
        )
}

/// Whether a host can be dialed: it has room and was not excluded.
pub open spec fn is_available(node: SshNode, excluded: Seq<Seq<char>>) -> bool {
    !excluded.contains(node.name@) && has_room(node)
}

/// What the choice of a host goes by.
pub open spec fn is_snapshot(
    node: SshNode,
    excluded: Seq<Seq<char>>,
    snapshot: SshHostState,
) -> bool {
    &&& snapshot.name@ == node.name@
    &&& snapshot.enabled == is_available(node, excluded)
    &&& snapshot.status == if is_available(node, excluded) {
        HealthStatus::Healthy
    } else if node.state.status == HealthStatus::Unknown {
        HealthStatus::Offline
    } else {
        node.state.status
    }
    &&& snapshot.rtt_millis == node.state.rtt_millis
    &&& snapshot.in_flight == total_in_flight(node.pool.sessions@)
}

/// What the choice among hosts goes by.
pub open spec fn are_snapshots(
    nodes: Seq<SshNode>,
    excluded: Seq<Seq<char>>,
    list: Seq<SshHostState>,
) -> bool {
    &&& list.len() == nodes.len()
    &&& forall|i: int| 0 <= i < nodes.len() ==> is_snapshot(nodes[i], excluded, #[trigger] list[i])
}

/// The channels of every host can be counted.
pub open spec fn countable(nodes: Seq<SshNode>) -> bool {
    forall|i: int|
        0 <= i < nodes.len() ==> total_in_flight((#[trigger] nodes[i]).pool.sessions@)
            <= usize::MAX
}

/// Where the host `name` first stands; the number of hosts where it does not.
pub open spec fn node_index(nodes: Seq<SshNode>, name: Seq<char>, from: int) -> int
    decreases nodes.len() - from,
{
    if from >= nodes.len() {
        nodes.len() as int
    } else if nodes[from].name@ == name {
        from
    } else {
        node_index(nodes, name, from + 1)
    }
}

/// Whether some host has a session that takes a channel.
pub fn has_available_session(nodes: &Vec<SshNode>) -> (r: bool)
    ensures
        r == exists|i: int| 0 <= i < nodes@.len() && has_room(#[trigger] nodes@[i]),
{
    for i in 0..nodes.len()
        invariant
            forall|j: int| 0 <= j < i ==> !has_room(#[trigger] nodes@[j]),
    {
        if nodes[i].pool.has_available_session(nodes[i].max_channels_per_session) {
            assert(has_room(nodes@[i as int]));
            return true;
        }
    }
    false
}

/// What the choice among hosts goes by, where those named in `excluded` are left out.
pub fn snapshots(nodes: &Vec<SshNode>, excluded: &Vec<String>) -> (r: Vec<SshHostState>)
    requires
        countable(nodes@),
    ensures
        are_snapshots(nodes@, texts(excluded@), r@),
{
    let mut list: Vec<SshHostState> = Vec::new();
    for i in 0..nodes.len()
        invariant
            countable(nodes@),
            list@.len() == i,
            forall|j: int|
                0 <= j < i ==> is_snapshot(nodes@[j], texts(excluded@), #[trigger] list@[j]),
    {
        let node = &nodes[i];
        let available = !contains_text(excluded, node.name.as_str())
            && node.pool.has_available_session(node.max_channels_per_session);
        let status = if available {
            HealthStatus::Healthy
        } else if node.state.status == HealthStatus::Unknown {
            HealthStatus::Offline
        } else {
            node.state.status
        };
        list.push(
            SshHostState {
                name: node.name.as_str().to_owned(),
                enabled: available,
                status,
                rtt_millis: node.state.rtt_millis,
                in_flight: node.pool.in_flight(),
            },
        );
    }
    list
}

/// The attempts to dial one connection.
#[derive(Debug)]
pub struct DialAttempts {
    /// The hosts that failed.
    pub excluded: Vec<String>,
    /// What the last of them said.
    pub last_error: Option<String>,
}

/// `place` is the host that `balancer` takes, where the hosts in `excluded` are left out; the
/// number of hosts where it takes none.
pub open spec fn is_dial_choice(
    nodes: Seq<SshNode>,
    excluded: Seq<Seq<char>>,
    balancer: LoadBalancer,
    place: int,
) -> bool {
    exists|list: Seq<SshHostState>| #[trigger]
        are_snapshots(nodes, excluded, list) && if candidate_positions(list).len() == 0 {
            place == nodes.len()
        } else {
            exists|k: int| #[trigger]
                is_choice(balancer.policy, balancer.next, list, k) && place == node_index(
                    nodes,
                    list[candidate_positions(list)[k] as int].name@,
                    0,
                )
        }
}

impl DialAttempts {
    /// No host was tried yet.
    pub fn start() -> (r: DialAttempts)
        ensures
            r.excluded@.len() == 0,
            r.last_error is None,
    {
        DialAttempts { excluded: Vec::new(), last_error: None }
    }

    /// The host to try next. None where every host was tried, or none is to be had.
    pub fn choose_node(&self, nodes: &Vec<SshNode>, balancer: &mut LoadBalancer) -> (r: Option<usize>)
        requires
            countable(nodes@),
        ensures
            final(balancer).policy == old(balancer).policy,
            final(balancer).next == (if r is Some && old(balancer).policy
                == LoadBalancePolicy::RoundRobin {
                old(balancer).next.wrapping_add(1)
            } else {
                old(balancer).next
            }),
            if self.excluded@.len() >= nodes@.len() {
                r is None
            } else {
                is_dial_choice(
                    nodes@,
                    texts(self.excluded@),
                    *old(balancer),
                    match r {
                        Some(i) => i as int,
                        None => nodes@.len() as int,
                    },
                )
            },
            r matches Some(i) ==> i < nodes@.len(),
    {
        if self.excluded.len() >= nodes.len() {
            return None;
        }
        let list = snapshots(nodes, &self.excluded);
        match balancer.select(&list) {
            Some(selected) => {
                let ghost k = choose|k: int| #[trigger]
                    is_choice(old(balancer).policy, old(balancer).next, list@, k) && *selected
                        == list@[candidate_positions(list@)[k] as int];
                let ghost place = candidate_positions(list@)[k] as int;
                proof {
                    lemma_candidate_positions(list@);
                    assert(is_snapshot(nodes@[place], texts(self.excluded@), list@[place]));
                }
                for i in 0..nodes.len()
                    invariant
                        node_index(nodes@, selected.name@, 0) == node_index(
                            nodes@,
                            selected.name@,
                            i as int,
                        ),
                        self.excluded@.len() < nodes@.len(),
                        0 <= place < nodes@.len(),
                        nodes@[place].name@ == selected.name@,
                        place >= i,
                        are_snapshots(nodes@, texts(self.excluded@), list@),
                        is_choice(old(balancer).policy, old(balancer).next, list@, k),
                        *selected == list@[candidate_positions(list@)[k] as int],
                        candidate_positions(list@).len() > 0,
                        balancer.policy == old(balancer).policy,
                        balancer.next == (if old(balancer).policy
                            == LoadBalancePolicy::RoundRobin {
                            old(balancer).next.wrapping_add(1)
                        } else {
                            old(balancer).next
                        }),
                {
                    if same_text(nodes[i].name.as_str(), selected.name.as_str()) {
                        return Some(i);
                    }
                }
                None
            },
            None => None,
        }
    }

    /// Takes in that a host failed: it is not tried again for this connection.
    pub fn on_failure(&mut self, name: &str, error: &str)
        ensures
            texts(final(self).excluded@) == (if texts(old(self).excluded@).contains(name@) {
                texts(old(self).excluded@)
            } else {
                texts(old(self).excluded@).push(name@)
            }),
            text_option(final(self).last_error) == Some(error@),
    {
        if !contains_text(&self.excluded, name) {
            self.excluded.push(name.to_owned());
            assert(texts(self.excluded@) =~= texts(old(self).excluded@).push(name@));
        }
        self.last_error = Some(error.to_owned());
    }

    /// What is said where no host took the connection.
    pub fn failure_text(&self, name: &str) -> (r: String)
        ensures
            r@ == "SSH host "@ + name@ + " has no healthy session for dynamic forwarding"@
                + error_tail(text_option(self.last_error)),
    {
        host_failure(
            name,
            " has no healthy session for dynamic forwarding",
            &self.last_error,
        )
    }
}

/// A host that is chosen for a connection has room, and has not failed for it before.
pub proof fn failed_hosts_are_not_chosen_again(
    nodes: Seq<SshNode>,
    excluded: Seq<Seq<char>>,
    list: Seq<SshHostState>,
    policy: LoadBalancePolicy,
    next: usize,
    k: int,
)
    requires
        nodes.len() <= usize::MAX,
        are_snapshots(nodes, excluded, list),
        is_choice(policy, next, list, k),
    ensures
        ({
            let chosen = nodes[candidate_positions(list)[k] as int];
            has_room(chosen) && !excluded.contains(chosen.name@)
        }),
{
    lemma_candidate_positions(list);
    let place = candidate_positions(list)[k] as int;
    assert(is_snapshot(nodes[place], excluded, list[place]));
}

// ---------------------------------------------------------------------------
// Waiting for a session
// ---------------------------------------------------------------------------
/// What a waiting connection knows of the network.
#[derive(Debug, Clone, Copy, PartialEq, Eq, Structural)]
pub struct DialWait {
    pub connectivity: ConnectivitySnapshot,
    /// Whether changes of the network are still reported.
    pub connectivity_events_open: bool,
}

/// Whether what is known of the network is worth a fresh look before a connection waits: the
/// machine is offline, or nothing is known, or changes are not reported.
#[verifier::allow_in_spec]
pub fn needs_refresh(connectivity: ConnectivitySnapshot) -> bool
    returns
        (connectivity.availability != NetworkAvailability::Online
            || !connectivity.events_available),
{
    connectivity.is_offline() || connectivity.availability == NetworkAvailability::Unknown
        || !connectivity.events_available
}

impl DialWait {
    /// The wait of a connection.
    #[verifier::allow_in_spec]
    pub fn start(connectivity: ConnectivitySnapshot) -> DialWait
        returns
            (DialWait { connectivity, connectivity_events_open: true }),
    {
        DialWait { connectivity, connectivity_events_open: true }
    }

    /// Whether sessions are to be asked for: always but offline.
    #[verifier::allow_in_spec]
    pub fn asks_for_capacity(self) -> bool
        returns
            (self.connectivity.availability != NetworkAvailability::Offline),
    {
        !self.connectivity.is_offline()
    }

    /// Takes in how the network is.
    pub fn on_connectivity(&mut self, connectivity: ConnectivitySnapshot)
        ensures
            *final(self) == (DialWait { connectivity, ..*old(self) }),
    {
        self.connectivity = connectivity;
    }

    /// Takes in that changes of the network are no longer reported.
    pub fn on_connectivity_closed(&mut self)
        ensures
            *final(self) == (DialWait { connectivity_events_open: false, ..*old(self) }),
    {
        self.connectivity_events_open = false;
    }
}

/// What is said of a wait that nobody can end.
pub fn manager_stopped_text(name: &str) -> (r: String)
    ensures
        r@ == "SSH host "@ + name@ + " session manager stopped"@,
{
    concat3("SSH host ", name, " session manager stopped")
}

/// The connect timeouts on the way of a plan, the target last.
pub open spec fn hop_timeouts(plan: ResolvedSshPlan) -> Seq<u128> {
    plan.jumps@.map_values(|e: ResolvedSshEndpoint| e.connect_timeout).push(
        plan.target.connect_timeout,
    )
}

/// The connect timeouts of every plan are durations.
pub open spec fn are_timed(plans: Seq<ResolvedSshPlan>) -> bool {
    forall|p: int, i: int|
        0 <= p < plans.len() && 0 <= i < hop_timeouts(plans[p]).len()
            ==> #[trigger] hop_timeouts(plans[p])[i] <= DURATION_MAX
}

/// How often a connection that waits for one of `plans` looks for a session: as seldom as any
/// of them wants it; every second where there is none.
pub open spec fn longest_interval(plans: Seq<ResolvedSshPlan>) -> u128
    decreases plans.len(),
{
    if plans.len() == 0 {
        SECOND
    } else {
        larger(
            longest_interval(plans.drop_last()) as int,
            ssh_policy::recovery_interval(hop_timeouts(plans.last())),
        ) as u128
    }
}

/// How often a connection that waits for one of `plans` looks for a session.
pub fn recovery_poll_interval(plans: &Vec<ResolvedSshPlan>) -> (r: u128)
    requires
        are_timed(plans@),
    ensures
        r == longest_interval(plans@),
{
    let mut longest: u128 = SECOND;
    for p in 0..plans.len()
        invariant
            are_timed(plans@),
            longest == longest_interval(plans@.take(p as int)),
    {
        let plan = &plans[p];
        let mut timeouts: Vec<u128> = Vec::new();
        for i in 0..plan.jumps.len()
            invariant
                timeouts@ == plan.jumps@.take(i as int).map_values(
                    |e: ResolvedSshEndpoint| e.connect_timeout,
                ),
        {
            timeouts.push(plan.jumps[i].connect_timeout);
            assert(timeouts@ =~= plan.jumps@.take(i + 1).map_values(
                |e: ResolvedSshEndpoint| e.connect_timeout,
            ));
        }
        timeouts.push(plan.target.connect_timeout);
        assert(plan.jumps@.take(plan.jumps@.len() as int) == plan.jumps@);
        assert(timeouts@ =~= hop_timeouts(plans@[p as int]));
        let interval: u128 = ssh_policy::session_recovery_poll_interval(&timeouts);
        assert(plans@.take(p + 1).drop_last() == plans@.take(p as int));
        if interval > longest {
            longest = interval;
        }
    }
    assert(plans@.take(plans@.len() as int) == plans@);
    longest
}

/// A host is written with its port behind a colon, an IPv6 address in brackets.
pub proof fn addresses_are_written_with_ports(host: Seq<char>, bits: u128, port: u16)
    requires
        read_ipv6(host) is None,
    ensures
        ssh_address_text(host, port) == host + seq![':'] + decimal(port as nat),
        ssh_address_text(address::ipv6_text(bits), port) == seq!['['] + address::ipv6_text(bits)
            + seq![']', ':'] + decimal(port as nat),
{
    reveal_strlit(":");
    reveal_strlit("[");
    reveal_strlit("]:");
    assert(":"@ =~= seq![':']);
    assert("["@ =~= seq!['[']);
    assert("]:"@ =~= seq![']', ':']);
    address::ipv6_text_reads_back(bits);
}

/// A host can be dialed just where it has not failed for the connection and some session of it
/// is healthy, is to stay and has a channel left.
pub proof fn hosts_with_room_can_be_dialed(
    node: SshNode,
    excluded: Seq<Seq<char>>,
    snapshot: SshHostState,
)
    requires
        is_snapshot(node, excluded, snapshot),
    ensures
        (snapshot.enabled && snapshot.status != HealthStatus::Offline) <==> !excluded.contains(
            node.name@,
        ) && exists|i: int|
            0 <= i < node.pool.sessions@.len() && (
            #[trigger] node.pool.sessions@[i]).state.status == SshSessionStatus::Healthy
                && !node.pool.sessions@[i].retire_requested && node.pool.sessions@[i].in_flight
                < node.max_channels_per_session,
        snapshot.name@ == node.name@,
        snapshot.rtt_millis == node.state.rtt_millis,
{
    let sessions = node.pool.sessions@;
    if has_room(node) {
        let i = choose|i: int|
            0 <= i < sessions.len() && takes_channels(
                #[trigger] sessions[i],
                node.max_channels_per_session,
            );
        assert(sessions[i].state.status == SshSessionStatus::Healthy);
    }
    if exists|i: int|
        0 <= i < sessions.len() && (#[trigger] sessions[i]).state.status
            == SshSessionStatus::Healthy && !sessions[i].retire_requested && sessions[i].in_flight
            < node.max_channels_per_session {
        let i = choose|i: int|
            0 <= i < sessions.len() && (#[trigger] sessions[i]).state.status
                == SshSessionStatus::Healthy && !sessions[i].retire_requested
                && sessions[i].in_flight < node.max_channels_per_session;
        assert(takes_channels(sessions[i], node.max_channels_per_session));
    }
}

/// The timeouts on the way of a plan are those of its hosts, in order, and of its target.
pub proof fn every_hop_has_its_time(plan: ResolvedSshPlan, i: int)
    ensures
        hop_timeouts(plan).len() == plan.jumps@.len() + 1,
        hop_timeouts(plan).last() == plan.target.connect_timeout,
        0 <= i < plan.jumps@.len() ==> hop_timeouts(plan)[i] == plan.jumps@[i].connect_timeout,
{
}

/// Offline a waiting connection asks for no session; online, where changes are reported, it goes
/// by what is known.
pub proof fn waiting_connections_ask_while_online(connectivity: ConnectivitySnapshot)
    ensures
        DialWait::start(connectivity).asks_for_capacity() <==> connectivity.availability
            != NetworkAvailability::Offline,
        !needs_refresh(connectivity) <==> connectivity.availability == NetworkAvailability::Online
            && connectivity.events_available,
        host_runtime_status(HealthStatus::Healthy) == HostRuntimeStatus::Healthy,
        host_runtime_status(HealthStatus::Degraded) == HostRuntimeStatus::Degraded,
        host_runtime_status(HealthStatus::Offline) == HostRuntimeStatus::Offline,
        host_runtime_status(HealthStatus::Unknown) == HostRuntimeStatus::Connecting,
        session_runtime_status(SshSessionStatus::Connecting)
            == SshSessionRuntimeStatus::Connecting,
        session_runtime_status(SshSessionStatus::Healthy) == SshSessionRuntimeStatus::Healthy,
        session_runtime_status(SshSessionStatus::Suspect) == SshSessionRuntimeStatus::Suspect,
        session_runtime_status(SshSessionStatus::Draining) == SshSessionRuntimeStatus::Draining,
        session_runtime_status(SshSessionStatus::Offline) == SshSessionRuntimeStatus::Offline,
{
}

/// A connection that waits for several plans looks as seldom as the slowest of them wants it,
/// and every second where there is none.
pub proof fn waiting_connections_follow_the_slowest_plan(
    plans: Seq<ResolvedSshPlan>,
    plan: ResolvedSshPlan,
)
    requires
        ssh_policy::recovery_interval(hop_timeouts(plan)) <= u128::MAX,
    ensures
        ({
            let before = longest_interval(plans);
            let after = longest_interval(plans.push(plan));
            let own = ssh_policy::recovery_interval(hop_timeouts(plan));
            &&& before <= after && own <= after
            &&& after == before || after == own
        }),
        longest_interval(Seq::empty()) == 1_000_000_000,
{
    assert(plans.push(plan).drop_last() =~= plans);
}

/// What is shown of a host is its name and address, and how many sessions it may hold.
pub proof fn hosts_are_registered(
    upstream: SshHostConfig,
    plan: ResolvedSshPlan,
    pool: SshPoolConfig,
    made: HostRegistration,
)
    requires
        call_ensures(register_resolved_host, (&upstream, &plan, &pool), made),
    ensures
        made.name@ == upstream.name@,
        made.ssh_alias@ == plan.target.alias@,
        read_ipv6(plan.target.host@) is None ==> made.address@ == plan.target.host@ + seq![':']
            + decimal(plan.target.port as nat),
        made.min_sessions == pool.min_sessions_per_host,
        made.max_sessions == pool.max_sessions_per_host,
{
    if read_ipv6(plan.target.host@) is None {
        addresses_are_written_with_ports(plan.target.host@, 0, plan.target.port);
    }
}

} // verus!
