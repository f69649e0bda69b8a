//! The health of SSH hosts and the choice among them.
use crate::arith::{saturating_product, smaller};
use crate::order::{first_minimum, is_first_minimum};
use vstd::prelude::*;

verus! {

/// How a host was last seen.
#[derive(Debug, Clone, Copy, PartialEq, Eq, Structural)]
pub enum HealthStatus {
    Unknown,
    Healthy,
    Degraded,
    Offline,
}

impl HealthStatus {
    /// Whether connections may go to the host: every host that is not offline.
    #[verifier::allow_in_spec]
    pub fn is_selectable(self) -> bool
        returns
            (self != HealthStatus::Offline),
    {
        matches!(self, HealthStatus::Unknown | HealthStatus::Healthy | HealthStatus::Degraded)
    }
}

/// How a host is chosen among several.
#[derive(Debug, Clone, Copy, PartialEq, Eq, Structural)]
pub enum LoadBalancePolicy {
    /// The least product of round-trip time and load.
    WeightedRtt,
    /// One after the other.
    RoundRobin,
    /// The least round-trip time.
    LeastLatency,
    /// The first.
    Failover,
}

/// What the choice among hosts goes by.
#[derive(Debug)]
pub struct SshHostState {
    pub name: String,
    pub enabled: bool,
    pub status: HealthStatus,
    pub rtt_millis: Option<u64>,
    pub in_flight: usize,
}

impl SshHostState {
    /// A healthy, idle host.
    pub fn selectable(name: &str, rtt_millis: Option<u64>) -> (r: SshHostState)
        ensures
            r.name@ == name@,
            r.enabled,
            r.status == HealthStatus::Healthy,
            r.rtt_millis == rtt_millis,
            r.in_flight == 0,
    {
        SshHostState {
            name: name.to_owned(),
            enabled: true,
            status: HealthStatus::Healthy,
            rtt_millis,
            in_flight: 0,
        }
    }
}

/// Chooses among hosts by one policy.
#[derive(Debug)]
pub struct LoadBalancer {
    pub policy: LoadBalancePolicy,
    /// How many choices were made in turn.
    pub next: usize,
}

/// Whether a host can be chosen at all.
pub open spec fn is_candidate(host: SshHostState) -> bool {
    host.enabled && host.status.is_selectable()
}

/// The positions of the hosts that can be chosen, in order.
pub open spec fn candidate_positions(hosts: Seq<SshHostState>) -> Seq<usize>
    decreases hosts.len(),
{
    if hosts.len() == 0 {
        Seq::empty()
    } else {
        let before = candidate_positions(hosts.drop_last());
        if is_candidate(hosts.last()) {
            before.push((hosts.len() - 1) as usize)
        } else {
            before
        }
    }
}

/// The round-trip time; the largest number where none is known.
pub open spec fn latency_key(host: SshHostState) -> u64 {
    match host.rtt_millis {
        Some(rtt) => rtt,
        None => u64::MAX,
    }
}

/// Round-trip time, half the largest number where none is known, times one more than the
/// open connections.
pub open spec fn weighted_key(host: SshHostState) -> u64 {
    let rtt = match host.rtt_millis {
        Some(rtt) => rtt,
        None => u64::MAX / 2,
    };
    smaller(rtt * smaller(host.in_flight + 1, usize::MAX as int), u64::MAX as int) as u64
}

/// The keys of the hosts at `positions`.
pub open spec fn keys_at(
    policy: LoadBalancePolicy,
    hosts: Seq<SshHostState>,
    positions: Seq<usize>,
) -> Seq<u64> {
    positions.map_values(
        |p: usize|
            if policy == LoadBalancePolicy::WeightedRtt {
                weighted_key(hosts[p as int])
            } else {
                latency_key(hosts[p as int])
            },
    )
}

/// `k` is the place among the candidates of the one that the policy takes.
pub open spec fn is_choice(
    policy: LoadBalancePolicy,
    next: usize,
    hosts: Seq<SshHostState>,
    k: int,
) -> bool {
    let positions = candidate_positions(hosts);
    &&& 0 <= k < positions.len()
    &&& match policy {
        LoadBalancePolicy::RoundRobin => k == next as int % positions.len() as int,
        LoadBalancePolicy::Failover => k == 0,
        LoadBalancePolicy::WeightedRtt | LoadBalancePolicy::LeastLatency => is_first_minimum(
            keys_at(policy, hosts, positions),
            k,
        ),
    }
}

/// One place at most is the policy's choice.
pub proof fn choice_is_unique(
    policy: LoadBalancePolicy,
    next: usize,
    hosts: Seq<SshHostState>,
    a: int,
    b: int,
)
    requires
        is_choice(policy, next, hosts, a),
        is_choice(policy, next, hosts, b),
    ensures
        a == b,
{
    let keys = keys_at(policy, hosts, candidate_positions(hosts));
    if a < b {
        assert(keys[a] <= keys[b] && keys[b] <= keys[a]);
    } else if b < a {
        assert(keys[a] <= keys[b] && keys[b] <= keys[a]);
    }
}

pub proof fn lemma_candidate_positions(hosts: Seq<SshHostState>)
    requires
        hosts.len() <= usize::MAX,
    ensures
        forall|k: int|
            0 <= k < candidate_positions(hosts).len() ==> {
                &&& 0 <= #[trigger] candidate_positions(hosts)[k] < hosts.len()
                &&& is_candidate(hosts[candidate_positions(hosts)[k] as int])
            },
    decreases hosts.len(),
{
    if hosts.len() > 0 {
        lemma_candidate_positions(hosts.drop_last());
        assert forall|k: int| 0 <= k < candidate_positions(hosts).len() implies {
            &&& 0 <= #[trigger] candidate_positions(hosts)[k] < hosts.len()
            &&& is_candidate(hosts[candidate_positions(hosts)[k] as int])
        } by {
            let before = candidate_positions(hosts.drop_last());
            if k < before.len() {
                assert(candidate_positions(hosts)[k] == before[k]);
                assert(hosts.drop_last()[before[k] as int] == hosts[before[k] as int]);
            }
        }
    }
}

impl LoadBalancer {
    /// A balancer that has made no choice yet.
    pub fn new(policy: LoadBalancePolicy) -> (r: LoadBalancer)
        ensures
            r.policy == policy,
            r.next == 0,
    {
        LoadBalancer { policy, next: 0 }
    }

    /// Chooses a host that is enabled and not offline; none where there is no such host.
    pub fn select<'a>(&mut self, candidates: &'a Vec<SshHostState>) -> (r: Option<
        &'a SshHostState,
    >)
        ensures
            (match r {
                Some(host) => exists|k: int| #[trigger]
                    is_choice(old(self).policy, old(self).next, candidates@, k) && *host
                        == candidates@[candidate_positions(candidates@)[k] as int],
                None => candidate_positions(candidates@).len() == 0,
            }),
            final(self).policy == old(self).policy,
            final(self).next == (if r is Some && old(self).policy
                == LoadBalancePolicy::RoundRobin {
                old(self).next.wrapping_add(1)
            } else {
                old(self).next
            }),
    {
        let mut selectable: Vec<usize> = Vec::new();
        for i in 0..candidates.len()
            invariant
                selectable@ == candidate_positions(candidates@.take(i as int)),
        {
            let host = &candidates[i];
            assert(candidates@.take(i + 1).drop_last() == candidates@.take(i as int));
            if host.enabled && host.status.is_selectable() {
                selectable.push(i);
            }
        }
        assert(candidates@.take(candidates@.len() as int) == candidates@);
        proof {
            lemma_candidate_positions(candidates@);
        }
        if selectable.is_empty() {
            return None;
        }
        let k: usize = match self.policy {
            LoadBalancePolicy::RoundRobin => {
                let k: usize = self.next % selectable.len();
                self.next = self.next.wrapping_add(1);
                k
            },
            LoadBalancePolicy::Failover => 0,
            LoadBalancePolicy::WeightedRtt | LoadBalancePolicy::LeastLatency => {
                let mut keys: Vec<u64> = Vec::new();
                for i in 0..selectable.len()
                    invariant
                        selectable@ == candidate_positions(candidates@),
                        forall|k: int|
                            0 <= k < selectable@.len() ==> 0 <= #[trigger] selectable@[k]
                                < candidates@.len(),
                        keys@ == keys_at(
                            self.policy,
                            candidates@,
                            selectable@.take(i as int),
                        ),
                {
                    let host = &candidates[selectable[i]];
                    let key = if self.policy == LoadBalancePolicy::WeightedRtt {
                        let rtt: u64 = host.rtt_millis.unwrap_or(u64::MAX / 2);
                        saturating_product(rtt, host.in_flight.saturating_add(1) as u64)
                    } else {
                        host.rtt_millis.unwrap_or(u64::MAX)
                    };
                    keys.push(key);
                    assert(selectable@.take(i + 1) == selectable@.take(i as int).push(
                        selectable@[i as int],
                    ));
                    assert(keys@ =~= keys_at(self.policy, candidates@, selectable@.take(i + 1)));
                }
                assert(selectable@.take(selectable@.len() as int) == selectable@);
                first_minimum(&keys)
            },
        };
        assert(is_choice(old(self).policy, old(self).next, candidates@, k as int));
        Some(&candidates[selectable[k]])
    }
}

// ---------------------------------------------------------------------------
// Laws of the choice
// ---------------------------------------------------------------------------
proof fn lemma_every_candidate_has_a_place(hosts: Seq<SshHostState>, i: int)
    requires
        hosts.len() <= usize::MAX,
        0 <= i < hosts.len(),
        is_candidate(hosts[i]),
    ensures
        candidate_positions(hosts).contains(i as usize),
    decreases hosts.len(),
{
    let front = hosts.drop_last();
    let before = candidate_positions(front);
    let all = candidate_positions(hosts);
    if i < hosts.len() - 1 {
        assert(front[i] == hosts[i]);
        lemma_every_candidate_has_a_place(front, i);
        let k = before.index_of(i as usize);
        assert(all[k] == i as usize);
    } else {
        assert(all[before.len() as int] == i as usize);
    }
}

proof fn lemma_places_ascend(hosts: Seq<SshHostState>)
    requires
        hosts.len() <= usize::MAX,
    ensures
        forall|a: int, b: int|
            0 <= a < b < candidate_positions(hosts).len() ==> #[trigger] candidate_positions(
                hosts,
            )[a] < #[trigger] candidate_positions(hosts)[b],
    decreases hosts.len(),
{
    if hosts.len() > 0 {
        let front = hosts.drop_last();
        lemma_places_ascend(front);
        lemma_candidate_positions(front);
        let before = candidate_positions(front);
        let all = candidate_positions(hosts);
        assert forall|a: int, b: int| 0 <= a < b < all.len() implies #[trigger] all[a]
            < #[trigger] all[b] by {
            assert(all[a] == before[a]);
            if b < before.len() {
                assert(all[b] == before[b]);
            }
        }
    }
}

/// A host that is chosen is enabled and not offline; and one is chosen where there is such a
/// host.
pub proof fn only_usable_hosts_are_chosen(
    policy: LoadBalancePolicy,
    next: usize,
    hosts: Seq<SshHostState>,
    k: int,
    usable: int,
)
    requires
        hosts.len() <= usize::MAX,
        is_choice(policy, next, hosts, k),
    ensures
        ({
            let p = candidate_positions(hosts)[k] as int;
            &&& 0 <= p < hosts.len()
            &&& hosts[p].enabled
            &&& hosts[p].status != HealthStatus::Offline
        }),
        0 <= usable < hosts.len() && hosts[usable].enabled && hosts[usable].status
            != HealthStatus::Offline ==> candidate_positions(hosts).len() > 0,
{
    lemma_candidate_positions(hosts);
    if 0 <= usable < hosts.len() && is_candidate(hosts[usable]) {
        lemma_every_candidate_has_a_place(hosts, usable);
    }
}

/// By latency: no usable host has a shorter round-trip time than the chosen one, one with a known
/// time comes before one without, and of equals the first is taken.
pub proof fn least_latency_is_least(
    next: usize,
    hosts: Seq<SshHostState>,
    k: int,
    other: int,
)
    requires
        hosts.len() <= usize::MAX,
        is_choice(LoadBalancePolicy::LeastLatency, next, hosts, k),
        0 <= other < hosts.len(),
        hosts[other].enabled,
        hosts[other].status != HealthStatus::Offline,
    ensures
        ({
            let p = candidate_positions(hosts)[k] as int;
            &&& hosts[p].rtt_millis is Some && hosts[other].rtt_millis is Some
                ==> hosts[p].rtt_millis->0 <= hosts[other].rtt_millis->0
            &&& hosts[other].rtt_millis is Some && hosts[other].rtt_millis->0 < u64::MAX
                ==> hosts[p].rtt_millis is Some
            &&& hosts[p].rtt_millis == hosts[other].rtt_millis ==> p <= other
        }),
{
    lemma_chosen_key(LoadBalancePolicy::LeastLatency, next, hosts, k, other);
}

/// By weight: no usable host has a smaller product of its round-trip time and one more than its
/// open connections than the chosen one, and of equals the first is taken.
pub proof fn least_weight_is_least(next: usize, hosts: Seq<SshHostState>, k: int, other: int)
    requires
        hosts.len() <= usize::MAX,
        is_choice(LoadBalancePolicy::WeightedRtt, next, hosts, k),
        0 <= other < hosts.len(),
        hosts[other].enabled,
        hosts[other].status != HealthStatus::Offline,
        hosts[other].rtt_millis is Some,
        hosts[other].in_flight < usize::MAX,
        hosts[other].rtt_millis->0 * (hosts[other].in_flight + 1) < u64::MAX,
    ensures
        ({
            let p = candidate_positions(hosts)[k] as int;
            let weight = hosts[other].rtt_millis->0 * (hosts[other].in_flight + 1);
            &&& hosts[p].rtt_millis is Some && hosts[p].in_flight < usize::MAX
                ==> hosts[p].rtt_millis->0 * (hosts[p].in_flight + 1) <= weight
            &&& hosts[p].rtt_millis is Some && hosts[p].in_flight < usize::MAX
                && hosts[p].rtt_millis->0 * (hosts[p].in_flight + 1) == weight ==> p <= other
            &&& hosts[p].rtt_millis is None ==> u64::MAX / 2 <= weight
        }),
{
    lemma_chosen_key(LoadBalancePolicy::WeightedRtt, next, hosts, k, other);
    let p = candidate_positions(hosts)[k] as int;
    let load = smaller(hosts[p].in_flight + 1, usize::MAX as int);
    if hosts[p].rtt_millis is None {
        let half = u64::MAX / 2;
        assert(half * load >= half) by (nonlinear_arith)
            requires
                load >= 1,
                half >= 0,
        ;
    } else {
        let rtt = hosts[p].rtt_millis->0;
        assert(rtt * load >= 0) by (nonlinear_arith)
            requires
                load >= 1,
                rtt >= 0,
        ;
    }
    let other_rtt = hosts[other].rtt_millis->0;
    let other_load = hosts[other].in_flight + 1;
    assert(other_rtt * other_load >= 0) by (nonlinear_arith)
        requires
            other_load >= 1,
            other_rtt >= 0,
    ;
}

proof fn lemma_chosen_key(
    policy: LoadBalancePolicy,
    next: usize,
    hosts: Seq<SshHostState>,
    k: int,
    other: int,
)
    requires
        hosts.len() <= usize::MAX,
        policy == LoadBalancePolicy::WeightedRtt || policy == LoadBalancePolicy::LeastLatency,
        is_choice(policy, next, hosts, k),
        0 <= other < hosts.len(),
        is_candidate(hosts[other]),
    ensures
        ({
            let p = candidate_positions(hosts)[k] as int;
            let (a, b) = if policy == LoadBalancePolicy::WeightedRtt {
                (weighted_key(hosts[p]), weighted_key(hosts[other]))
            } else {
                (latency_key(hosts[p]), latency_key(hosts[other]))
            };
            a <= b && (a == b ==> p <= other)
        }),
{
    lemma_every_candidate_has_a_place(hosts, other);
    lemma_places_ascend(hosts);
    let positions = candidate_positions(hosts);
    let keys = keys_at(policy, hosts, positions);
    let j = positions.index_of(other as usize);
    assert(keys[k] <= keys[j]);
    if j < k {
        assert(keys[k] < keys[j]);
    } else if k < j {
        assert(positions[k] < positions[j]);
    }
}

/// By failover: no usable host stands before the chosen one.
pub proof fn failover_takes_the_first(next: usize, hosts: Seq<SshHostState>, k: int, other: int)
    requires
        hosts.len() <= usize::MAX,
        is_choice(LoadBalancePolicy::Failover, next, hosts, k),
        0 <= other < hosts.len(),
        hosts[other].enabled,
        hosts[other].status != HealthStatus::Offline,
    ensures
        candidate_positions(hosts)[k] as int <= other,
{
    lemma_every_candidate_has_a_place(hosts, other);
    lemma_places_ascend(hosts);
    let positions = candidate_positions(hosts);
    let j = positions.index_of(other as usize);
    if k < j {
        assert(positions[k] < positions[j]);
    }
}

/// In turn: the next choice is the next usable host behind this one, and behind the last comes
/// the first; so each is taken once before one is taken again.
pub proof fn turns_go_round(next: usize, hosts: Seq<SshHostState>, a: int, b: int)
    requires
        hosts.len() <= usize::MAX,
        next < usize::MAX,
        is_choice(LoadBalancePolicy::RoundRobin, next, hosts, a),
        is_choice(LoadBalancePolicy::RoundRobin, (next + 1) as usize, hosts, b),
    ensures
        next == 0 ==> a == 0,
        a + 1 < candidate_positions(hosts).len() ==> b == a + 1,
        a + 1 == candidate_positions(hosts).len() ==> b == 0,
        a < b ==> candidate_positions(hosts)[a] < candidate_positions(hosts)[b],
{
    lemma_places_ascend(hosts);
    let n = candidate_positions(hosts).len() as int;
    let q = next as int / n;
    assert(next as int == q * n + a) by {
        vstd::arithmetic::div_mod::lemma_fundamental_div_mod(next as int, n);
        assert(n * q == q * n) by (nonlinear_arith);
    }
    if a + 1 < n {
        vstd::arithmetic::div_mod::lemma_fundamental_div_mod_converse(next as int + 1, n, q, a + 1);
    } else {
        assert((q + 1) * n == q * n + n) by (nonlinear_arith);
        vstd::arithmetic::div_mod::lemma_fundamental_div_mod_converse(next as int + 1, n, q + 1, 0);
    }
}

} // verus!
