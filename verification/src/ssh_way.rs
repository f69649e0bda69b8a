//! The way to a host: through which hosts a plan leads and in which order, and what it takes to
//! reach each of them.
use crate::config::{SshAuthConfig, SshHostConfig, SshHostKeyPolicy, SshPoolConfig};
use crate::environment::Environment;
use crate::named::{value_of, Named};
use crate::paths::{joined_path, tildes_stand_for_home, HomePath};
use crate::ssh_files::ssh_directory;
use crate::ssh_plan::{after_jump, after_jumps, all_completed, auth_of, but_none, chosen_of,
    completed, endpoint_at, field_values, identity_paths, is_on_way, key_policy, known_hosts_of,
    lemma_on_way, off_way, plan_for, stray_command, target_of, Chosen, Endpoint, HostSettings,
    NoPlan, ResolvedHostKeyPolicy, Settings};
use crate::ssh_syntax::{read_destination, tokens_expanded, tokens_stand_for_their_values, unquoted,
    Destination, Tokens};
use crate::text::{joined, lowercase, text_option, texts};
use vstd::prelude::*;

verus! {

/// What `ProxyJump` of a host holds, by what the answers tell of the host; nothing where it has
/// none.
pub open spec fn jumps_of(answers: Seq<Named<HostSettings>>, alias: Seq<char>) -> Seq<Seq<char>> {
    match value_of(answers, alias) {
        Some(settings) => match settings.proxy_jump {
            Some(list) => texts(list@),
            None => Seq::empty(),
        },
        None => Seq::empty(),
    }
}

/// No entry of a list is the word "none", in any case of letters.
pub open spec fn names_hosts(jumps: Seq<Seq<char>>) -> bool {
    forall|i: int| 0 <= i < jumps.len() ==> lowercase(#[trigger] jumps[i]) != "none"@
}

/// No host has "none" among the entries of its `ProxyJump`.
pub open spec fn all_name_hosts(answers: Seq<Named<HostSettings>>) -> bool {
    forall|alias: Seq<char>| names_hosts(#[trigger] jumps_of(answers, alias))
}

proof fn lemma_but_none(jumps: Seq<Seq<char>>)
    requires
        names_hosts(jumps),
    ensures
        but_none(jumps) == jumps,
    decreases jumps.len(),
{
    if jumps.len() > 0 {
        let front = jumps.drop_last();
        assert forall|i: int| 0 <= i < front.len() implies lowercase(#[trigger] front[i])
            != "none"@ by {
            assert(front[i] == jumps[i]);
        }
        lemma_but_none(front);
        assert(jumps[jumps.len() - 1] == jumps.last());
        assert(front.push(jumps.last()) =~= jumps);
    }
}

/// The word "none" in a `ProxyJump`, in any case of letters, stands for no host; every other
/// entry stays, in its place.
pub proof fn none_is_no_host(jumps: Seq<Seq<char>>, word: Seq<char>)
    ensures
        lowercase(word) == "none"@ ==> but_none(jumps.push(word)) == but_none(jumps),
        lowercase(word) != "none"@ ==> but_none(jumps.push(word)) == but_none(jumps).push(word),
        but_none(Seq::empty()) == Seq::<Seq<char>>::empty(),
{
    assert(jumps.push(word).drop_last() =~= jumps);
}

/// Every host of `smaller` is one of `larger`.
spec fn is_within(smaller: Seq<Seq<char>>, larger: Seq<Seq<char>>) -> bool {
    forall|alias: Seq<char>| #[trigger] is_on_way(smaller, alias) ==> is_on_way(larger, alias)
}

proof fn lemma_within(smaller: Seq<Seq<char>>, larger: Seq<Seq<char>>, alias: Seq<char>)
    requires
        is_within(smaller, larger),
    ensures
        is_within(smaller.push(alias), larger.push(alias)),
{
    let (a, b) = (smaller.push(alias), larger.push(alias));
    assert forall|other: Seq<char>| #[trigger] is_on_way(a, other) implies is_on_way(
        b,
        other,
    ) by {
        let k = choose|k: int| 0 <= k < a.len() && lowercase(#[trigger] a[k]) == lowercase(other);
        if k < smaller.len() {
            assert(lowercase(smaller[k]) == lowercase(other));
            assert(is_on_way(smaller, other));
            let j = choose|j: int|
                0 <= j < larger.len() && lowercase(#[trigger] larger[j]) == lowercase(other);
            assert(b[j] == larger[j]);
        } else {
            assert(b[larger.len() as int] == alias);
        }
    }
}

proof fn lemma_jump_alone(
    answers: Seq<Named<HostSettings>>,
    pool: SshPoolConfig,
    environment: Environment,
    jump: Seq<char>,
    stack: Seq<Seq<char>>,
    passed: Seq<Endpoint>,
    fewer: Seq<Seq<char>>,
    front: Seq<Endpoint>,
)
    requires
        after_jump(answers, pool, environment, jump, stack, passed) is Ok,
        is_within(fewer, stack),
        front.len() <= passed.len(),
    ensures
        ({
            let r = after_jump(answers, pool, environment, jump, stack, passed)->Ok_0;
            &&& passed.len() <= r.len()
            &&& r.take(passed.len() as int) == passed
            &&& after_jump(answers, pool, environment, jump, fewer, front) == Ok::<_, NoPlan>(
                front + r.skip(passed.len() as int),
            )
        }),
    decreases off_way(answers, stack), 1nat, 0nat,
{
    let r = after_jump(answers, pool, environment, jump, stack, passed)->Ok_0;
    if lowercase(jump) == "none"@ {
        assert(r.take(passed.len() as int) =~= passed);
        assert(front + r.skip(passed.len() as int) =~= front);
    } else {
        let destination = read_destination(jump)->Ok_0;
        let settings = value_of(answers, destination.alias)->0;
        let (endpoint, jumps) = endpoint_at(
            destination,
            settings.settings(),
            chosen_of(None),
            pool,
            environment,
        )->Ok_0;
        lemma_on_way(answers, stack, destination.alias);
        lemma_within(fewer, stack, destination.alias);
        lemma_jumps_alone(
            answers,
            pool,
            environment,
            jumps,
            0,
            stack.push(destination.alias),
            passed,
            fewer.push(destination.alias),
            front,
        );
        let now = after_jumps(
            answers,
            pool,
            environment,
            jumps,
            0,
            stack.push(destination.alias),
            passed,
        )->Ok_0;
        assert(r == now.push(endpoint));
        assert(r.take(passed.len() as int) =~= now.take(passed.len() as int));
        assert((front + now.skip(passed.len() as int)).push(endpoint) =~= front + r.skip(
            passed.len() as int,
        ));
    }
}

proof fn lemma_jumps_alone(
    answers: Seq<Named<HostSettings>>,
    pool: SshPoolConfig,
    environment: Environment,
    jumps: Seq<Seq<char>>,
    from: int,
    stack: Seq<Seq<char>>,
    passed: Seq<Endpoint>,
    fewer: Seq<Seq<char>>,
    front: Seq<Endpoint>,
)
    requires
        after_jumps(answers, pool, environment, jumps, from, stack, passed) is Ok,
        is_within(fewer, stack),
        front.len() <= passed.len(),
    ensures
        ({
            let r = after_jumps(answers, pool, environment, jumps, from, stack, passed)->Ok_0;
            &&& passed.len() <= r.len()
            &&& r.take(passed.len() as int) == passed
            &&& after_jumps(answers, pool, environment, jumps, from, fewer, front) == Ok::<
                _,
                NoPlan,
            >(front + r.skip(passed.len() as int))
        }),
    decreases off_way(answers, stack), 2nat, jumps.len() - from,
{
    let r = after_jumps(answers, pool, environment, jumps, from, stack, passed)->Ok_0;
    let n = passed.len() as int;
    if from >= jumps.len() {
        assert(r.take(n) =~= passed);
        assert(front + r.skip(n) =~= front);
    } else {
        lemma_jump_alone(answers, pool, environment, jumps[from], stack, passed, fewer, front);
        let now = after_jump(answers, pool, environment, jumps[from], stack, passed)->Ok_0;
        let next = front + now.skip(n);
        lemma_jumps_alone(answers, pool, environment, jumps, from + 1, stack, now, fewer, next);
        assert(r.take(n) =~= r.take(now.len() as int).take(n));
        assert(r.take(n) =~= passed);
        assert(next + r.skip(now.len() as int) =~= front + r.skip(n)) by {
            assert(r =~= now + r.skip(now.len() as int));
        }
    }
}

proof fn lemma_jumps_split(
    answers: Seq<Named<HostSettings>>,
    pool: SshPoolConfig,
    environment: Environment,
    jumps: Seq<Seq<char>>,
    last: Seq<char>,
    from: int,
    stack: Seq<Seq<char>>,
    passed: Seq<Endpoint>,
)
    requires
        0 <= from <= jumps.len(),
    ensures
        after_jumps(answers, pool, environment, jumps.push(last), from, stack, passed) == (
        match after_jumps(answers, pool, environment, jumps, from, stack, passed) {
            Err(stop) => Err(stop),
            Ok(now) => after_jump(answers, pool, environment, last, stack, now),
        }),
    decreases jumps.len() - from,
{
    let all = jumps.push(last);
    if from < jumps.len() {
        assert(all[from] == jumps[from]);
        match after_jump(answers, pool, environment, jumps[from], stack, passed) {
            Err(_) => {},
            Ok(now) => {
                lemma_jumps_split(answers, pool, environment, jumps, last, from + 1, stack, now);
            },
        }
    } else {
        assert(all[from] == last);
        match after_jump(answers, pool, environment, last, stack, passed) {
            Err(_) => {},
            Ok(now) => {
                assert(after_jumps(answers, pool, environment, all, from + 1, stack, now)
                    == Ok::<_, NoPlan>(now));
            },
        }
    }
}

/// `upstream` is a host of the OpenSSH configuration, by nothing but what that says of `alias`
/// and by the user and the port that are given.
pub open spec fn is_plain_host(
    upstream: SshHostConfig,
    alias: Seq<char>,
    username: Option<Seq<char>>,
    port: Option<u16>,
) -> bool {
    &&& text_option(upstream.ssh_config_host) == Some(alias)
    &&& text_option(upstream.username) == username
    &&& upstream.port == port
    &&& upstream.host is None
    &&& upstream.auth is None
    &&& upstream.host_key_policy is None
    &&& upstream.known_hosts_path is None
}

/// A host without a `ProxyJump` is reached through no other host.
pub proof fn plain_hosts_are_reached_at_once(
    answers: Seq<Named<HostSettings>>,
    upstream: SshHostConfig,
    pool: SshPoolConfig,
    environment: Environment,
)
    requires
        plan_for(answers, upstream, pool, environment) is Ok,
        upstream.ssh_config_host is Some ==> jumps_of(answers, upstream.ssh_config_host->0@).len()
            == 0,
    ensures
        plan_for(answers, upstream, pool, environment)->Ok_0.1.len() == 0,
{
    lemma_but_none(Seq::empty());
}

/// One more host at the end of a `ProxyJump` puts the way to that host, and then that host,
/// behind the way there was: the hosts that its own `ProxyJump` names stand directly in front of
/// it. The host itself is planned as if it were the one to go to.
pub proof fn ways_are_put_together(
    answers: Seq<Named<HostSettings>>,
    pool: SshPoolConfig,
    environment: Environment,
    shorter: SshHostConfig,
    longer: SshHostConfig,
    jump: Seq<char>,
    via: SshHostConfig,
)
    requires
        plan_for(answers, shorter, pool, environment) is Ok,
        plan_for(answers, longer, pool, environment) is Ok,
        shorter.ssh_config_host is Some,
        longer.ssh_config_host is Some,
        lowercase(jump) != "none"@,
        names_hosts(jumps_of(answers, shorter.ssh_config_host->0@)),
        jumps_of(answers, longer.ssh_config_host->0@) == jumps_of(
            answers,
            shorter.ssh_config_host->0@,
        ).push(jump),
        read_destination(jump) matches Ok(place) ==> is_plain_host(
            via,
            place.alias,
            place.username,
            place.port,
        ),
    ensures
        read_destination(jump) is Ok,
        plan_for(answers, via, pool, environment) is Ok,
        ({
            let before = plan_for(answers, shorter, pool, environment)->Ok_0.1;
            let (host, way) = plan_for(answers, via, pool, environment)->Ok_0;
            plan_for(answers, longer, pool, environment)->Ok_0.1 == before + way.push(host)
        }),
{
    let short_list = jumps_of(answers, shorter.ssh_config_host->0@);
    let long_list = jumps_of(answers, longer.ssh_config_host->0@);
    assert(names_hosts(long_list)) by {
        assert forall|i: int| 0 <= i < long_list.len() implies lowercase(#[trigger] long_list[i])
            != "none"@ by {
            if i < short_list.len() {
                assert(long_list[i] == short_list[i]);
            }
        }
    }
    lemma_but_none(short_list);
    lemma_but_none(long_list);
    let (short_target, before) = plan_for(answers, shorter, pool, environment)->Ok_0;
    let (long_target, after) = plan_for(answers, longer, pool, environment)->Ok_0;
    let none = Seq::<Endpoint>::empty();
    let nobody = Seq::<Seq<char>>::empty();
    let stack = seq![long_target.alias];
    assert(is_within(nobody, seq![short_target.alias]));
    assert(is_within(nobody, stack));
    lemma_jumps_alone(
        answers,
        pool,
        environment,
        short_list,
        0,
        seq![short_target.alias],
        none,
        nobody,
        none,
    );
    lemma_jumps_split(answers, pool, environment, short_list, jump, 0, stack, none);
    lemma_jumps_alone(answers, pool, environment, short_list, 0, stack, none, nobody, none);
    assert(before.skip(0) =~= before);
    assert(none + before =~= before);
    let here = after_jumps(answers, pool, environment, short_list, 0, stack, none)->Ok_0;
    assert(none + here.skip(0) =~= here);
    assert(here == before);
    assert(after_jump(answers, pool, environment, jump, stack, before) == Ok::<_, NoPlan>(after));
    let place = read_destination(jump)->Ok_0;
    let settings = value_of(answers, place.alias)->0;
    let (endpoint, own) = endpoint_at(
        place,
        settings.settings(),
        chosen_of(None),
        pool,
        environment,
    )->Ok_0;
    assert(chosen_of(Some(via)) == chosen_of(None));
    assert(endpoint.alias == place.alias);
    let way = after_jumps(
        answers,
        pool,
        environment,
        own,
        0,
        stack.push(place.alias),
        before,
    )->Ok_0;
    assert(after == way.push(endpoint));
    assert(is_within(seq![place.alias], stack.push(place.alias))) by {
        lemma_within(nobody, stack, place.alias);
        assert(nobody.push(place.alias) =~= seq![place.alias]);
    }
    lemma_jumps_alone(
        answers,
        pool,
        environment,
        own,
        0,
        stack.push(place.alias),
        before,
        seq![place.alias],
        none,
    );
    let rest = way.skip(before.len() as int);
    assert(none + rest =~= rest);
    assert(way =~= before + rest);
    assert(after =~= before + rest.push(endpoint));
    assert(rest =~= after.subrange(before.len() as int, before.len() + rest.len() as int));
    lemma_later_commands(after, before.len() as int, rest);
}

proof fn lemma_later_commands(all: Seq<Endpoint>, at: int, part: Seq<Endpoint>)
    requires
        0 <= at,
        at + part.len() <= all.len(),
        part == all.subrange(at, at + part.len() as int),
        stray_command(all, 1) is None,
    ensures
        stray_command(part, 1) is None,
{
    assert forall|i: int| 1 <= i < part.len() implies (#[trigger] part[i]).proxy_command is None by {
        assert(part[i] == all[at + i]);
        lemma_no_command(all, 1, at + i);
    }
    lemma_no_stray(part, 1);
}

proof fn lemma_no_command(jumps: Seq<Endpoint>, from: int, i: int)
    requires
        stray_command(jumps, from) is None,
        from <= i < jumps.len(),
    ensures
        jumps[i].proxy_command is None,
    decreases jumps.len() - from,
{
    if from < i {
        lemma_no_command(jumps, from + 1, i);
    }
}

proof fn lemma_no_stray(jumps: Seq<Endpoint>, from: int)
    requires
        forall|i: int| from <= i < jumps.len() ==> (#[trigger] jumps[i]).proxy_command is None,
    ensures
        stray_command(jumps, from) is None,
    decreases jumps.len() - from,
{
    if from < jumps.len() {
        lemma_no_stray(jumps, from + 1);
    }
}

/// The host that an entry of a `ProxyJump` names.
pub open spec fn named_host(jump: Seq<char>) -> Option<Seq<char>> {
    match read_destination(jump) {
        Ok(place) => Some(place.alias),
        Err(_) => None,
    }
}

/// The host at `i` of a way that starts at `from`, where it has a `ProxyJump`, stands right behind
/// the host that the last entry of it names.
pub open spec fn stands_behind(
    answers: Seq<Named<HostSettings>>,
    way: Seq<Endpoint>,
    from: int,
    i: int,
) -> bool {
    jumps_of(answers, way[i].alias).len() > 0 ==> i > from && named_host(
        jumps_of(answers, way[i].alias).last(),
    ) == Some(way[i - 1].alias)
}

/// From `from` on, every host of a way that has a `ProxyJump` stands right behind the host that
/// the last entry of it names.
pub open spec fn follow_their_jumps(
    answers: Seq<Named<HostSettings>>,
    way: Seq<Endpoint>,
    from: int,
) -> bool {
    forall|i: int| from <= i < way.len() ==> #[trigger] stands_behind(answers, way, from, i)
}

proof fn lemma_jump_order(
    answers: Seq<Named<HostSettings>>,
    pool: SshPoolConfig,
    environment: Environment,
    jump: Seq<char>,
    stack: Seq<Seq<char>>,
    passed: Seq<Endpoint>,
)
    requires
        after_jump(answers, pool, environment, jump, stack, passed) is Ok,
        lowercase(jump) != "none"@,
        all_name_hosts(answers),
    ensures
        ({
            let r = after_jump(answers, pool, environment, jump, stack, passed)->Ok_0;
            &&& r.len() > passed.len()
            &&& r.take(passed.len() as int) == passed
            &&& named_host(jump) == Some(r.last().alias)
            &&& follow_their_jumps(answers, r, passed.len() as int)
        }),
    decreases off_way(answers, stack), 1nat, 0nat,
{
    let destination = read_destination(jump)->Ok_0;
    let settings = value_of(answers, destination.alias)->0;
    let (endpoint, jumps) = endpoint_at(
        destination,
        settings.settings(),
        chosen_of(None),
        pool,
        environment,
    )->Ok_0;
    let own = jumps_of(answers, destination.alias);
    assert(names_hosts(own));
    lemma_but_none(own);
    assert(jumps =~= own);
    lemma_on_way(answers, stack, destination.alias);
    lemma_jumps_order(
        answers,
        pool,
        environment,
        jumps,
        0,
        stack.push(destination.alias),
        passed,
    );
    let now = after_jumps(
        answers,
        pool,
        environment,
        jumps,
        0,
        stack.push(destination.alias),
        passed,
    )->Ok_0;
    let r = after_jump(answers, pool, environment, jump, stack, passed)->Ok_0;
    assert(r == now.push(endpoint));
    assert(r.take(passed.len() as int) =~= now.take(passed.len() as int));
    assert forall|i: int| passed.len() <= i < r.len() implies #[trigger] stands_behind(
        answers,
        r,
        passed.len() as int,
        i,
    ) by {
        if i < now.len() {
            assert(stands_behind(answers, now, passed.len() as int, i));
            assert(r[i] == now[i]);
            if i > 0 {
                assert(r[i - 1] == now[i - 1]);
            }
        } else if jumps.len() > 0 {
            assert(r[i - 1] == now.last());
        }
    }
}

proof fn lemma_jumps_order(
    answers: Seq<Named<HostSettings>>,
    pool: SshPoolConfig,
    environment: Environment,
    jumps: Seq<Seq<char>>,
    from: int,
    stack: Seq<Seq<char>>,
    passed: Seq<Endpoint>,
)
    requires
        after_jumps(answers, pool, environment, jumps, from, stack, passed) is Ok,
        names_hosts(jumps),
        all_name_hosts(answers),
        0 <= from <= jumps.len(),
    ensures
        ({
            let r = after_jumps(answers, pool, environment, jumps, from, stack, passed)->Ok_0;
            &&& r.len() >= passed.len()
            &&& r.take(passed.len() as int) == passed
            &&& from < jumps.len() ==> r.len() > passed.len() && named_host(jumps.last())
                == Some(r.last().alias)
            &&& from == jumps.len() ==> r == passed
            &&& follow_their_jumps(answers, r, passed.len() as int)
        }),
    decreases off_way(answers, stack), 2nat, jumps.len() - from,
{
    let r = after_jumps(answers, pool, environment, jumps, from, stack, passed)->Ok_0;
    let n = passed.len() as int;
    if from < jumps.len() {
        lemma_jump_order(answers, pool, environment, jumps[from], stack, passed);
        let now = after_jump(answers, pool, environment, jumps[from], stack, passed)->Ok_0;
        lemma_jumps_order(answers, pool, environment, jumps, from + 1, stack, now);
        assert(r.take(n) =~= r.take(now.len() as int).take(n));
        assert forall|i: int| n <= i < r.len() implies #[trigger] stands_behind(
            answers,
            r,
            n,
            i,
        ) by {
            if i < now.len() {
                assert(stands_behind(answers, now, n, i));
                assert(r.take(now.len() as int)[i] == now[i]);
                if i > n {
                    assert(r.take(now.len() as int)[i - 1] == now[i - 1]);
                }
            } else {
                assert(stands_behind(answers, r, now.len() as int, i));
            }
        }
    } else {
        assert(r.take(n) =~= passed);
    }
}

/// The last host of a plan is the one that the last entry of the target's own `ProxyJump` names;
/// every host with a `ProxyJump` of its own stands right behind the host that the last entry of
/// that names; so the first host has none.
pub proof fn hosts_stand_behind_their_jumps(
    answers: Seq<Named<HostSettings>>,
    upstream: SshHostConfig,
    pool: SshPoolConfig,
    environment: Environment,
)
    requires
        plan_for(answers, upstream, pool, environment) is Ok,
        upstream.ssh_config_host is Some,
        all_name_hosts(answers),
    ensures
        ({
            let way = plan_for(answers, upstream, pool, environment)->Ok_0.1;
            let own = jumps_of(answers, upstream.ssh_config_host->0@);
            &&& own.len() > 0 <==> way.len() > 0
            &&& own.len() > 0 ==> named_host(own.last()) == Some(way.last().alias)
            &&& way.len() > 0 ==> jumps_of(answers, way[0].alias).len() == 0
            &&& forall|i: int|
                0 <= i < way.len() ==> #[trigger] stands_behind(answers, way, 0, i)
        }),
{
    let own = jumps_of(answers, upstream.ssh_config_host->0@);
    assert(names_hosts(own));
    lemma_but_none(own);
    let (target, way) = plan_for(answers, upstream, pool, environment)->Ok_0;
    lemma_jumps_order(answers, pool, environment, own, 0, seq![target.alias], Seq::empty());
    assert(follow_their_jumps(answers, way, 0));
    if way.len() > 0 {
        assert(stands_behind(answers, way, 0, 0));
    }
}

// ---------------------------------------------------------------------------
// Bounds and cycles
// ---------------------------------------------------------------------------
proof fn lemma_jump_leaves_stack(
    answers: Seq<Named<HostSettings>>,
    pool: SshPoolConfig,
    environment: Environment,
    jump: Seq<char>,
    stack: Seq<Seq<char>>,
    passed: Seq<Endpoint>,
    alias: Seq<char>,
)
    requires
        after_jump(answers, pool, environment, jump, stack, passed) is Ok,
        is_on_way(stack, alias),
        forall|i: int| 0 <= i < passed.len() ==> lowercase((#[trigger] passed[i]).alias)
            != lowercase(alias),
    ensures
        ({
            let r = after_jump(answers, pool, environment, jump, stack, passed)->Ok_0;
            forall|i: int| 0 <= i < r.len() ==> lowercase((#[trigger] r[i]).alias) != lowercase(
                alias,
            )
        }),
    decreases off_way(answers, stack), 1nat, 0nat,
{
    if lowercase(jump) != "none"@ {
        let destination = read_destination(jump)->Ok_0;
        let settings = value_of(answers, destination.alias)->0;
        let (endpoint, jumps) = endpoint_at(
            destination,
            settings.settings(),
            chosen_of(None),
            pool,
            environment,
        )->Ok_0;
        lemma_on_way(answers, stack, destination.alias);
        let inside = stack.push(destination.alias);
        let k = choose|k: int|
            0 <= k < stack.len() && lowercase(#[trigger] stack[k]) == lowercase(alias);
        assert(inside[k] == stack[k]);
        assert(is_on_way(inside, alias));
        lemma_jumps_leave_stack(
            answers,
            pool,
            environment,
            jumps,
            0,
            inside,
            passed,
            alias,
        );
        if lowercase(destination.alias) == lowercase(alias) {
            assert(lowercase(stack[k]) == lowercase(destination.alias));
            assert(is_on_way(stack, destination.alias));
        }
    }
}

proof fn lemma_jumps_leave_stack(
    answers: Seq<Named<HostSettings>>,
    pool: SshPoolConfig,
    environment: Environment,
    jumps: Seq<Seq<char>>,
    from: int,
    stack: Seq<Seq<char>>,
    passed: Seq<Endpoint>,
    alias: Seq<char>,
)
    requires
        after_jumps(answers, pool, environment, jumps, from, stack, passed) is Ok,
        is_on_way(stack, alias),
        forall|i: int| 0 <= i < passed.len() ==> lowercase((#[trigger] passed[i]).alias)
            != lowercase(alias),
    ensures
        ({
            let r = after_jumps(answers, pool, environment, jumps, from, stack, passed)->Ok_0;
            forall|i: int| 0 <= i < r.len() ==> lowercase((#[trigger] r[i]).alias) != lowercase(
                alias,
            )
        }),
    decreases off_way(answers, stack), 2nat, jumps.len() - from,
{
    if from < jumps.len() {
        lemma_jump_leaves_stack(answers, pool, environment, jumps[from], stack, passed, alias);
        let now = after_jump(answers, pool, environment, jumps[from], stack, passed)->Ok_0;
        lemma_jumps_leave_stack(answers, pool, environment, jumps, from + 1, stack, now, alias);
    }
}

/// A plan leads through at most eight hosts, never through its own target, and only its first
/// host may be reached by a command.
pub proof fn plans_do_not_come_back(
    answers: Seq<Named<HostSettings>>,
    upstream: SshHostConfig,
    pool: SshPoolConfig,
    environment: Environment,
    i: int,
)
    requires
        plan_for(answers, upstream, pool, environment) is Ok,
        0 <= i < plan_for(answers, upstream, pool, environment)->Ok_0.1.len(),
    ensures
        ({
            let (target, way) = plan_for(answers, upstream, pool, environment)->Ok_0;
            &&& way.len() <= 8
            &&& lowercase(way[i].alias) != lowercase(target.alias)
            &&& i > 0 ==> way[i].proxy_command is None
            &&& target.proxy_command is None
        }),
{
    let (target, way) = plan_for(answers, upstream, pool, environment)->Ok_0;
    let stack = seq![target.alias];
    assert(stack[0] == target.alias);
    assert(is_on_way(stack, target.alias));
    let alias = crate::ssh_plan::target_of(upstream)->0.alias;
    let settings = crate::ssh_plan::settings_for(answers, upstream, alias)->0;
    let jumps = match settings.proxy_jump {
        Some(list) => but_none(list),
        None => Seq::empty(),
    };
    lemma_jumps_leave_stack(
        answers,
        pool,
        environment,
        jumps,
        0,
        stack,
        Seq::empty(),
        target.alias,
    );
    if i > 0 {
        lemma_no_command(way, 1, i);
    }
}

// ---------------------------------------------------------------------------
// What it takes to reach a host
// ---------------------------------------------------------------------------
/// A host goes by its own name; its address is the one that was chosen, else its `HostName`,
/// else its name; its port is that of the destination, else its `Port`, else 22; its user is
/// that of the destination, else its `User`, else the local one, and there must be one.
pub proof fn addresses_come_in_order(
    destination: Destination,
    settings: Settings,
    chosen: Chosen,
    pool: SshPoolConfig,
    environment: Environment,
)
    ensures
        ({
            let local = environment.user_name();
            match endpoint_at(destination, settings, chosen, pool, environment) {
                Ok((found, _)) => {
                    &&& found.alias == destination.alias
                    &&& chosen.host is Some ==> found.host == chosen.host->0
                    &&& chosen.host is None && settings.host_name is Some ==> found.host
                        == settings.host_name->0
                    &&& chosen.host is None && settings.host_name is None ==> found.host
                        == destination.alias
                    &&& destination.port is Some ==> found.port == destination.port->0
                    &&& destination.port is None && settings.port is Some ==> found.port
                        == settings.port->0
                    &&& destination.port is None && settings.port is None ==> found.port == 22
                    &&& destination.username is Some ==> found.username == destination.username->0
                    &&& destination.username is None && settings.user is Some ==> found.username
                        == settings.user->0
                    &&& destination.username is None && settings.user is None ==> Some(
                        found.username,
                    ) == local
                },
                Err(_) => destination.username is None && settings.user is None && local is None,
            }
        }),
{
}

/// Times come from the pool in seconds, else from the OpenSSH configuration, else they are ten
/// seconds to connect and half a minute between signs of life, of which three may be missed.
pub proof fn times_come_in_order(
    destination: Destination,
    settings: Settings,
    chosen: Chosen,
    pool: SshPoolConfig,
    environment: Environment,
)
    requires
        endpoint_at(destination, settings, chosen, pool, environment) is Ok,
    ensures
        ({
            let found = endpoint_at(destination, settings, chosen, pool, environment)->Ok_0.0;
            &&& pool.connect_timeout_secs is Some ==> found.connect_timeout
                == pool.connect_timeout_secs->0 * 1_000_000_000
            &&& pool.connect_timeout_secs is None && settings.connect_timeout is Some
                ==> found.connect_timeout == settings.connect_timeout->0
            &&& pool.connect_timeout_secs is None && settings.connect_timeout is None
                ==> found.connect_timeout == 10_000_000_000
            &&& pool.keep_alive_secs is Some ==> found.keep_alive == pool.keep_alive_secs->0
                * 1_000_000_000
            &&& pool.keep_alive_secs is None && settings.server_alive_interval is Some
                ==> found.keep_alive == settings.server_alive_interval->0
            &&& pool.keep_alive_secs is None && settings.server_alive_interval is None
                ==> found.keep_alive == 30_000_000_000
            &&& pool.server_alive_count_max is Some ==> found.keep_alive_max
                == pool.server_alive_count_max->0
            &&& pool.server_alive_count_max is None && !settings.fields.contains_key(
                "serveralivecountmax"@,
            ) ==> found.keep_alive_max == 3
            &&& found.tcp_keep_alive == (settings.tcp_keep_alive != Some(false))
        }),
{
}

/// Any host key is accepted only where that is configured by hand, or where nothing is and the
/// OpenSSH configuration turns the check off by the word "no" or "off"; a new one also by
/// "accept-new"; in every other case the key must be known.
pub proof fn host_keys_are_checked(chosen: Option<SshHostKeyPolicy>, settings: Settings)
    ensures
        ({
            let word = if field_values(settings, "stricthostkeychecking"@).len() > 0 {
                lowercase(unquoted(field_values(settings, "stricthostkeychecking"@)[0]))
            } else {
                Seq::empty()
            };
            let policy = key_policy(chosen, settings);
            &&& policy == ResolvedHostKeyPolicy::InsecureAcceptAny <==> chosen == Some(
                SshHostKeyPolicy::InsecureAcceptAny,
            ) || (chosen is None && (word == "no"@ || word == "off"@))
            &&& policy == ResolvedHostKeyPolicy::AcceptNew <==> chosen is None && word
                == "accept-new"@
            &&& chosen == Some(SshHostKeyPolicy::KnownHosts) ==> policy
                == ResolvedHostKeyPolicy::KnownHosts
        }),
{
    reveal_strlit("no");
    reveal_strlit("off");
    reveal_strlit("accept-new");
    assert("no"@.len() == 2 && "off"@.len() == 3 && "accept-new"@.len() == 10);
}

/// A way to prove who one is that was chosen is the only one. Else keys are used unless the
/// OpenSSH configuration turns them off, those that it names or the seven usual ones; and the
/// agent is asked with them, unless only the named ones may be used.
pub proof fn keys_are_used_as_told(
    chosen: Option<SshAuthConfig>,
    settings: Settings,
    home: HomePath,
)
    ensures
        ({
            let (explicit, files, agent) = auth_of(chosen, settings, home);
            let directory = ssh_directory(home);
            &&& chosen is Some ==> explicit == chosen && files.len() == 0 && !agent
            &&& chosen is None ==> explicit is None
            &&& chosen is None && settings.pubkey_authentication == Some(false) ==> files.len()
                == 0 && !agent
            &&& chosen is None && settings.pubkey_authentication != Some(false)
                && settings.identity_file is Some ==> files == but_none(settings.identity_file->0)
            &&& chosen is None && settings.pubkey_authentication != Some(false)
                && settings.identity_file is None ==> files == but_none(
                seq![
                    joined_path(home.style, directory, "id_rsa"@),
                    joined_path(home.style, directory, "id_ecdsa"@),
                    joined_path(home.style, directory, "id_ecdsa_sk"@),
                    joined_path(home.style, directory, "id_ed25519"@),
                    joined_path(home.style, directory, "id_ed25519_sk"@),
                    joined_path(home.style, directory, "id_xmss"@),
                    joined_path(home.style, directory, "id_dsa"@),
                ],
            )
            &&& chosen is None && settings.pubkey_authentication != Some(false)
                && !settings.fields.contains_key("identitiesonly"@) ==> agent
            &&& chosen is None && field_values(settings, "identitiesonly"@).len() > 0 && lowercase(
                unquoted(field_values(settings, "identitiesonly"@)[0]),
            ) == "yes"@ ==> !agent
        }),
{
    let directory = ssh_directory(home);
    assert(identity_paths(home) =~= seq![
        joined_path(home.style, directory, "id_rsa"@),
        joined_path(home.style, directory, "id_ecdsa"@),
        joined_path(home.style, directory, "id_ecdsa_sk"@),
        joined_path(home.style, directory, "id_ed25519"@),
        joined_path(home.style, directory, "id_ed25519_sk"@),
        joined_path(home.style, directory, "id_xmss"@),
        joined_path(home.style, directory, "id_dsa"@),
    ]);
}

/// The known hosts are in the file that is configured by hand, else in those that the OpenSSH
/// configuration names, the user's before those of the machine, else in the user's own file.
pub proof fn known_hosts_come_in_order(
    chosen: Option<String>,
    settings: Settings,
    home: HomePath,
)
    ensures
        chosen is Some ==> known_hosts_of(chosen, settings, home) == seq![chosen->0@],
        chosen is None && !settings.fields.contains_key("userknownhostsfile"@)
            && !settings.fields.contains_key("globalknownhostsfile"@) ==> known_hosts_of(
            chosen,
            settings,
            home,
        ) == seq![joined_path(home.style, ssh_directory(home), "known_hosts"@)],
        chosen is None && (settings.fields.contains_key("userknownhostsfile"@)
            || settings.fields.contains_key("globalknownhostsfile"@)) ==> known_hosts_of(
            chosen,
            settings,
            home,
        ) == but_none(
            field_values(settings, "userknownhostsfile"@) + field_values(
                settings,
                "globalknownhostsfile"@,
            ),
        ),
{
    assert(field_values(settings, "userknownhostsfile"@).len() == 0 && field_values(
        settings,
        "globalknownhostsfile"@,
    ).len() == 0 ==> field_values(settings, "userknownhostsfile"@) + field_values(
        settings,
        "globalknownhostsfile"@,
    ) =~= Seq::<Seq<char>>::empty());
    assert(!settings.fields.contains_key("userknownhostsfile"@) ==> field_values(
        settings,
        "userknownhostsfile"@,
    ).len() == 0);
    assert(!settings.fields.contains_key("globalknownhostsfile"@) ==> field_values(
        settings,
        "globalknownhostsfile"@,
    ).len() == 0);
}

/// A host is reached by the command of its configuration, its words with blanks between them,
/// unless that is the word "none". Its key goes by the name that is configured for it, else by
/// its address.
pub proof fn commands_and_key_names_are_taken(
    destination: Destination,
    settings: Settings,
    chosen: Chosen,
    pool: SshPoolConfig,
    environment: Environment,
    command: Seq<char>,
    name: Seq<char>,
)
    requires
        endpoint_at(destination, settings, chosen, pool, environment) is Ok,
        command.len() > 0 && command[0] != '"',
        name.len() == 0 || name[0] != '"',
    ensures
        ({
            let found = endpoint_at(destination, settings, chosen, pool, environment)->Ok_0.0;
            let told = field_values(settings, "proxycommand"@);
            let called = field_values(settings, "hostkeyalias"@);
            &&& told.len() == 0 ==> found.proxy_command is None
            &&& told == seq![command] && lowercase(command) != "none"@ ==> found.proxy_command
                == Some(command)
            &&& told == seq![command] && lowercase(command) == "none"@ ==> found.proxy_command
                is None
            &&& called.len() == 0 ==> found.host_key_name == found.host
            &&& called.len() > 0 && called[0] == name ==> found.host_key_name == name
            &&& called.len() > 0 && called[0] == seq!['"'] + name + seq!['"']
                ==> found.host_key_name == name
        }),
{
    let told = field_values(settings, "proxycommand"@);
    let called = field_values(settings, "hostkeyalias"@);
    if told.len() == 0 {
        assert(joined(told, " "@).len() == 0);
    } else if told == seq![command] {
        reveal_with_fuel(joined, 3);
        assert(told.drop_last().len() == 0);
        assert(joined(told, " "@) =~= command);
    }
    let quoted = seq!['"'] + name + seq!['"'];
    assert(quoted[0] == '"' && quoted.last() == '"');
    assert(quoted.subrange(1, quoted.len() - 1) =~= name);
}

/// The paths of keys and of known hosts are completed one by one: quotes around a path are taken
/// away, its tokens stand for what is known of the host, and its tilde for the home directory.
pub proof fn paths_are_completed(path: Seq<char>, tokens: Tokens, list: Seq<Seq<char>>, i: int)
    requires
        path.len() > 0,
        path[0] != '"',
        path[0] != '~',
        !path.contains('%'),
        0 <= i < list.len(),
    ensures
        completed(path, tokens) == path,
        completed(seq!['"'] + path + seq!['"'], tokens) == path,
        completed(seq!['~', '/'] + path, tokens) == joined_path(
            tokens.home.style,
            tokens.home.path,
            path,
        ),
        all_completed(list, tokens).len() == list.len(),
        all_completed(list, tokens)[i] == completed(list[i], tokens),
{
    let nothing = Seq::<char>::empty();
    tokens_stand_for_their_values(tokens, path, nothing, 'x');
    assert(tokens_expanded(tokens, nothing) =~= nothing);
    assert(path + nothing =~= path);
    tildes_stand_for_home(tokens.home, path, path);
    let quoted = seq!['"'] + path + seq!['"'];
    assert(quoted[0] == '"' && quoted.last() == '"');
    assert(quoted.subrange(1, quoted.len() - 1) =~= path);
    let below = seq!['~', '/'] + path;
    assert(below[0] == '~');
    assert(!below.contains('%')) by {
        if below.contains('%') {
            let k = below.index_of('%');
            assert(k >= 2 && path[k - 2] == '%');
        }
    }
    tokens_stand_for_their_values(tokens, below, nothing, 'x');
    assert(below + nothing =~= below);
}

/// A host goes by its name in the OpenSSH configuration, else by its address; one of them must be
/// there. Its user and port are those that are configured by hand.
pub proof fn targets_are_named(upstream: SshHostConfig)
    ensures
        upstream.ssh_config_host is None && upstream.host is None <==> target_of(upstream) is None,
        upstream.ssh_config_host is Some ==> target_of(upstream)->0.alias
            == upstream.ssh_config_host->0@,
        upstream.ssh_config_host is None && upstream.host is Some ==> target_of(upstream)->0.alias
            == upstream.host->0@,
        target_of(upstream) is Some ==> target_of(upstream)->0.port == upstream.port,
        target_of(upstream) is Some && upstream.username is Some ==> target_of(
            upstream,
        )->0.username == Some(upstream.username->0@),
        target_of(upstream) is Some && upstream.username is None ==> target_of(
            upstream,
        )->0.username is None,
{
}

/// What is configured by hand for a host counts for that host; nothing is for the hosts on the
/// way to it.
pub proof fn choices_count_for_the_target(upstream: SshHostConfig)
    ensures
        chosen_of(Some(upstream)).auth == upstream.auth,
        chosen_of(Some(upstream)).host_key_policy == upstream.host_key_policy,
        chosen_of(Some(upstream)).known_hosts_path == upstream.known_hosts_path,
        upstream.host is Some ==> chosen_of(Some(upstream)).host == Some(upstream.host->0@),
        upstream.host is None ==> chosen_of(Some(upstream)).host is None,
        chosen_of(None).auth is None,
        chosen_of(None).host_key_policy is None,
        chosen_of(None).known_hosts_path is None,
        chosen_of(None).host is None,
{
}

/// There is no plan for a host without a name, nor for one that is to be reached both through
/// other hosts and by a command; a host that nothing is known of yet is asked about.
pub proof fn plans_need_one_way(
    answers: Seq<Named<HostSettings>>,
    upstream: SshHostConfig,
    pool: SshPoolConfig,
    environment: Environment,
)
    ensures
        ({
            let plan = plan_for(answers, upstream, pool, environment);
            &&& upstream.ssh_config_host is None && upstream.host is None ==> plan is Err
                && plan->Err_0 is Failed
            &&& upstream.ssh_config_host is Some && value_of(
                answers,
                upstream.ssh_config_host->0@,
            ) is None ==> plan == Err::<(Endpoint, Seq<Endpoint>), _>(
                NoPlan::Asks(upstream.ssh_config_host->0@),
            )
            &&& plan is Ok && plan->Ok_0.0.proxy_command is Some ==> plan->Ok_0.1.len() == 0
        }),
{
}

} // verus!
