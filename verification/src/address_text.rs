//! The laws of the texts of addresses: each IPv4 address has one text, and the zeros of an IPv6
//! address are left out in one place.
use crate::address::{group_of, groups_of, ipv4_text, ipv6_text, lemma_group_at, lemma_zero_run,
    longest_zero_run, octet_value, read_ipv4, zero_run};
use crate::text::{all_digits, decimal, decimal_value, first_index, hexadecimal, joined,
    lemma_first_index, lemma_joined_front, numerals_are_positional, pieces};
use vstd::arithmetic::div_mod::lemma_fundamental_div_mod_converse;
use vstd::prelude::*;

verus! {

/// The pieces of a text, put together again, are the text.
pub proof fn joining_undoes_splitting(s: Seq<char>, c: char)
    ensures
        joined(pieces(s, c), seq![c]) == s,
        pieces(s, c).len() > 0,
    decreases s.len(),
{
    let i = first_index(s, c);
    lemma_first_index(s, c);
    if i < s.len() {
        let rest = s.skip(i + 1);
        joining_undoes_splitting(rest, c);
        let all = pieces(s, c);
        assert(all =~= seq![s.take(i)] + pieces(rest, c));
        assert(all.drop_first() =~= pieces(rest, c));
        lemma_joined_front(all, seq![c]);
        assert(s.take(i) + seq![c] + rest =~= s);
    }
}

/// A number has one decimal form without zeros in front.
pub proof fn numbers_have_one_form(s: Seq<char>)
    requires
        s.len() > 0,
        all_digits(s),
        s.len() > 1 ==> s[0] != '0',
    ensures
        decimal(decimal_value(s)) == s,
        s.len() > 1 ==> decimal_value(s) > 0,
        s[0] != '0' ==> decimal_value(s) > 0,
    decreases s.len(),
{
    let front = s.drop_last();
    let d = (s.last() as u32 - 48) as nat;
    assert(s[s.len() - 1] == s.last());
    assert('0' <= s.last() <= '9');
    assert((48 + d) as char == s.last());
    assert(front.push(s.last()) =~= s);
    if front.len() > 0 {
        assert forall|i: int| 0 <= i < front.len() implies crate::text::is_digit(
            #[trigger] front[i],
        ) by {
            assert(front[i] == s[i]);
        }
        assert(front[0] == s[0]);
        numbers_have_one_form(front);
        numerals_are_positional(decimal_value(front), front, d);
    } else {
        numerals_are_positional(0, front, d);
        assert(front =~= Seq::empty());
        assert(s =~= seq![s.last()]);
    }
}

proof fn lemma_octet_has_one_form(s: Seq<char>)
    requires
        octet_value(s) is Some,
    ensures
        s == decimal(octet_value(s)->0),
        octet_value(s)->0 <= 255,
{
    numbers_have_one_form(s);
}

proof fn lemma_four_octets(a: nat, b: nat, c: nat, d: nat, bits: u32)
    requires
        a <= 255,
        b <= 255,
        c <= 255,
        d <= 255,
        bits == a * 0x100_0000 + b * 0x1_0000 + c * 0x100 + d,
    ensures
        bits / 0x100_0000 == a,
        bits / 0x1_0000 % 256 == b,
        bits / 0x100 % 256 == c,
        bits % 256 == d,
{
    let n = bits as int;
    let two = a * 256 + b;
    let three = two * 256 + c;
    lemma_fundamental_div_mod_converse(
        n,
        0x100_0000,
        a as int,
        (b * 0x1_0000 + c * 0x100 + d) as int,
    );
    lemma_fundamental_div_mod_converse(n, 0x1_0000, two as int, (c * 0x100 + d) as int);
    lemma_fundamental_div_mod_converse(n, 0x100, three as int, d as int);
    lemma_fundamental_div_mod_converse(two as int, 256, a as int, b as int);
    lemma_fundamental_div_mod_converse(three as int, 256, two as int, c as int);
}

/// Every IPv4 address has one text: no text but that one names it, so that a number above 255, a
/// zero in front of a number, or a number more or less is no address.
pub proof fn ipv4_addresses_have_one_text(s: Seq<char>, bits: u32)
    ensures
        read_ipv4(s) == Some(bits) <==> s == ipv4_text(bits),
{
    crate::address::ipv4_text_reads_back(bits);
    if read_ipv4(s) == Some(bits) {
        let parts = pieces(s, '.');
        joining_undoes_splitting(s, '.');
        lemma_octet_has_one_form(parts[0]);
        lemma_octet_has_one_form(parts[1]);
        lemma_octet_has_one_form(parts[2]);
        lemma_octet_has_one_form(parts[3]);
        lemma_four_octets(
            octet_value(parts[0])->0,
            octet_value(parts[1])->0,
            octet_value(parts[2])->0,
            octet_value(parts[3])->0,
            bits,
        );
        lemma_four_joined(parts);
    }
}

proof fn lemma_four_joined(parts: Seq<Seq<char>>)
    requires
        parts.len() == 4,
    ensures
        joined(parts, seq!['.']) == parts[0] + seq!['.'] + parts[1] + seq!['.'] + parts[2]
            + seq!['.'] + parts[3],
{
    reveal_with_fuel(joined, 5);
    let three = parts.drop_last();
    let two = three.drop_last();
    assert(three.last() == parts[2] && two.last() == parts[1] && two.drop_last()[0] == parts[0]);
    assert(joined(two.drop_last(), seq!['.']) == parts[0]);
}

/// Whether groups `from` to `to` of an address are zero.
pub open spec fn are_zero(bits: u128, from: int, to: int) -> bool {
    forall|i: int| from <= i < to ==> #[trigger] group_at(bits, i) == 0
}

/// The group of an address at a place, the most significant first.
pub open spec fn group_at(bits: u128, i: int) -> nat {
    group_of(bits as nat, (7 - i) as nat)
}

/// Whether the groups `from` to `to` are the zeros that are left out of a text: there are two of
/// them or more, there is no longer stretch of zeros, and none as long before them.
pub open spec fn is_left_out(bits: u128, from: int, to: int) -> bool {
    &&& 0 <= from && from + 2 <= to <= 8
    &&& are_zero(bits, from, to)
    &&& forall|a: int, b: int|
        0 <= a < b <= 8 && #[trigger] are_zero(bits, a, b) ==> b - a < to - from || (b - a == to
            - from && from <= a)
}

/// The texts of groups `from` to `to` with colons between them.
pub open spec fn written_groups(bits: u128, from: int, to: int) -> Seq<char> {
    joined(
        Seq::new((to - from) as nat, |i: int| hexadecimal(group_at(bits, from + i))),
        seq![':'],
    )
}

proof fn lemma_groups_at(bits: u128)
    ensures
        groups_of(bits as nat, 8).len() == 8,
        forall|i: int|
            0 <= i < 8 ==> #[trigger] groups_of(bits as nat, 8)[i] == group_at(bits, i) && group_at(
                bits,
                i,
            ) < 0x1_0000,
{
    assert forall|i: int| 0 <= i < 8 implies #[trigger] groups_of(bits as nat, 8)[i] == group_at(
        bits,
        i,
    ) && group_at(bits, i) < 0x1_0000 by {
        lemma_group_at(bits as nat, 8, i);
    }
    lemma_group_at(bits as nat, 8, 0);
}

proof fn lemma_zeros_run_on(bits: u128, from: int, to: int)
    requires
        0 <= from <= to <= 8,
        are_zero(bits, from, to),
    ensures
        zero_run(groups_of(bits as nat, 8), from) >= to - from,
    decreases to - from,
{
    lemma_groups_at(bits);
    if from < to {
        assert(group_at(bits, from) == 0);
        assert(groups_of(bits as nat, 8)[from] == 0);
        lemma_zeros_run_on(bits, from + 1, to);
    } else {
        lemma_zero_run(groups_of(bits as nat, 8), from);
    }
}

proof fn lemma_longest_is_longest(groups: Seq<u16>, from: int, other: int)
    requires
        0 <= from <= other <= groups.len(),
    ensures
        ({
            let run = longest_zero_run(groups, from);
            &&& 0 <= zero_run(groups, other) <= run.1
            &&& from <= run.0 <= groups.len()
            &&& run.1 > 0 ==> run.1 == zero_run(groups, run.0)
            &&& zero_run(groups, other) == run.1 && run.1 > 0 ==> run.0 <= other
        }),
    decreases groups.len() - from,
{
    lemma_zero_run(groups, other);
    if from < groups.len() {
        lemma_zero_run(groups, from);
        if from < other {
            lemma_longest_is_longest(groups, from + 1, other);
        } else {
            lemma_longest_is_longest(groups, from + 1, from + 1);
        }
    }
}

proof fn lemma_left_out(bits: u128, from: int, to: int)
    requires
        is_left_out(bits, from, to),
    ensures
        longest_zero_run(groups_of(bits as nat, 8), 0) == (from, to - from),
{
    let groups = groups_of(bits as nat, 8);
    let run = longest_zero_run(groups, 0);
    lemma_groups_at(bits);
    lemma_zeros_run_on(bits, from, to);
    lemma_longest_is_longest(groups, 0, from);
    lemma_zero_run(groups, run.0);
    assert(run.1 >= to - from);
    assert forall|i: int| run.0 <= i < run.0 + run.1 implies #[trigger] group_at(bits, i) == 0 by {
        assert(groups[i] == 0);
    }
    assert(are_zero(bits, run.0, run.0 + run.1));
    assert(run.1 <= to - from);
    assert(run.0 >= from);
}

/// The longest stretch of zero groups of an IPv6 address, and the first of them where there are
/// several, is left out of its text and two colons stand in its place; the other groups are
/// written in hexadecimal with colons between them.
pub proof fn the_longest_zeros_are_left_out(bits: u128, from: int, to: int)
    requires
        bits / 0x1_0000_0000 != 0xffff,
        is_left_out(bits, from, to),
    ensures
        ipv6_text(bits) == written_groups(bits, 0, from) + seq![':', ':'] + written_groups(
            bits,
            to,
            8,
        ),
{
    let groups = groups_of(bits as nat, 8);
    lemma_groups_at(bits);
    lemma_left_out(bits, from, to);
    assert(groups.take(from).map_values(|g: u16| hexadecimal(g as nat)) =~= Seq::new(
        from as nat,
        |i: int| hexadecimal(group_at(bits, 0 + i)),
    ));
    assert(groups.skip(to).map_values(|g: u16| hexadecimal(g as nat)) =~= Seq::new(
        (8 - to) as nat,
        |i: int| hexadecimal(group_at(bits, to + i)),
    ));
}

/// Where no two groups side by side are zero, all eight groups are written.
pub proof fn single_zeros_are_written(bits: u128)
    requires
        bits / 0x1_0000_0000 != 0xffff,
        forall|i: int|
            0 <= i < 7 && #[trigger] group_at(bits, i) == 0 ==> group_at(bits, i + 1) > 0,
    ensures
        ipv6_text(bits) == written_groups(bits, 0, 8),
{
    let groups = groups_of(bits as nat, 8);
    let run = longest_zero_run(groups, 0);
    lemma_groups_at(bits);
    lemma_longest_is_longest(groups, 0, 0);
    lemma_zero_run(groups, run.0);
    if run.1 > 1 {
        assert(groups[run.0] == 0 && groups[run.0 + 1] == 0);
        assert(group_at(bits, run.0) == 0 && group_at(bits, run.0 + 1) == 0);
    }
    assert(groups.map_values(|g: u16| hexadecimal(g as nat)) =~= Seq::new(
        8,
        |i: int| hexadecimal(group_at(bits, 0 + i)),
    ));
}

/// An IPv4 address within IPv6 is written with the IPv4 address at its end.
pub proof fn mapped_addresses_end_in_ipv4(inner: u32)
    ensures
        ipv6_text((0xffff_0000_0000 + inner) as u128) == seq![':', ':', 'f', 'f', 'f', 'f', ':']
            + ipv4_text(inner),
{
    let bits = (0xffff_0000_0000 + inner) as u128;
    assert(bits / 0x1_0000_0000 == 0xffff);
    assert(bits % 0x1_0000_0000 == inner);
}

} // verus!
