//! The addresses of this machine.

use crate::text::{decimal_text, push_decimal};
use vstd::prelude::*;
use vstd::string::StringExecFns;

verus! {

/// An IPv4 address, byte by byte.
#[derive(Clone, Copy, Debug, PartialEq, Eq, Structural)]
pub struct Ipv4 {
    pub a: u8,
    pub b: u8,
    pub c: u8,
    pub d: u8,
}

/// An address written out.
pub open spec fn address_text(address: Ipv4) -> Seq<char> {
    decimal_text(address.a as nat) + "."@ + decimal_text(address.b as nat) + "."@ + decimal_text(
        address.c as nat,
    ) + "."@ + decimal_text(address.d as nat)
}

/// Whether an address belongs to a private network.
pub open spec fn is_private(address: Ipv4) -> bool {
    ||| address.a == 10
    ||| address.a == 172 && 16 <= address.b <= 31
    ||| address.a == 192 && address.b == 168
}

/// Whether an address leads nowhere but to the machine itself: the loopback, a link, no
/// address at all, a tunnel, or a network that the provider shares.
pub open spec fn is_unreachable(address: Ipv4) -> bool {
    ||| address.a == 127
    ||| address.a == 169 && address.b == 254
    ||| address.a == 0 && address.b == 0 && address.c == 0 && address.d == 0
    ||| address.a == 198 && 18 <= address.b <= 19
    ||| address.a == 100 && 64 <= address.b <= 127
}

/// The addresses that others can reach, each once, in the order in which they came.
pub open spec fn reachable(addresses: Seq<Ipv4>) -> Seq<Ipv4>
    decreases addresses.len(),
{
    if addresses.len() == 0 {
        Seq::empty()
    } else {
        let rest = reachable(addresses.drop_last());
        let last = addresses.last();
        if is_unreachable(last) || rest.contains(last) {
            rest
        } else {
            rest.push(last)
        }
    }
}

/// Those of some addresses that are private, or those that are not.
pub open spec fn chosen(addresses: Seq<Ipv4>, private: bool) -> Seq<Ipv4>
    decreases addresses.len(),
{
    if addresses.len() == 0 {
        Seq::empty()
    } else {
        let rest = chosen(addresses.drop_last(), private);
        if is_private(addresses.last()) == private {
            rest.push(addresses.last())
        } else {
            rest
        }
    }
}

/// The addresses that others can reach, private ones first.
pub open spec fn ranked(addresses: Seq<Ipv4>) -> Seq<Ipv4> {
    chosen(reachable(addresses), true) + chosen(reachable(addresses), false)
}

/// Whether an address belongs to a private network.
pub fn is_rfc1918(address: Ipv4) -> (private: bool)
    ensures
        private == is_private(address),
{
    address.a == 10 || (address.a == 172 && 16 <= address.b && address.b <= 31) || (address.a == 192
        && address.b == 168)
}

fn leads_nowhere(address: Ipv4) -> (unreachable: bool)
    ensures
        unreachable == is_unreachable(address),
{
    address.a == 127 || (address.a == 169 && address.b == 254) || (address.a == 0 && address.b == 0
        && address.c == 0 && address.d == 0) || (address.a == 198 && 18 <= address.b && address.b
        <= 19) || (address.a == 100 && 64 <= address.b && address.b <= 127)
}

/// Writes an address out.
pub fn show_address(address: Ipv4) -> (text: String)
    ensures
        text@ == address_text(address),
{
    let mut text = String::new();
    push_decimal(&mut text, address.a as u64);
    text.append(".");
    push_decimal(&mut text, address.b as u64);
    text.append(".");
    push_decimal(&mut text, address.c as u64);
    text.append(".");
    push_decimal(&mut text, address.d as u64);
    assert(text@ =~= address_text(address));
    text
}

fn has_address(addresses: &Vec<Ipv4>, address: Ipv4) -> (found: bool)
    ensures
        found == addresses@.contains(address),
{
    for i in 0..addresses.len()
        invariant
            forall|j: int| 0 <= j < i ==> addresses@[j] != address,
    {
        if addresses[i] == address {
            return true;
        }
    }
    false
}

/// Those of some addresses that others can reach.
pub fn keep_reachable(addresses: &[Ipv4]) -> (kept: Vec<Ipv4>)
    ensures
        kept@ == reachable(addresses@),
{
    let mut kept: Vec<Ipv4> = Vec::new();
    assert(addresses@.take(0) =~= Seq::<Ipv4>::empty());
    for i in 0..addresses.len()
        invariant
            kept@ == reachable(addresses@.take(i as int)),
    {
        let address = addresses[i];
        assert(addresses@.take(i + 1).drop_last() =~= addresses@.take(i as int));
        if !leads_nowhere(address) && !has_address(&kept, address) {
            kept.push(address);
        }
    }
    assert(addresses@.take(addresses@.len() as int) =~= addresses@);
    kept
}

fn push_chosen(texts: &mut Vec<String>, addresses: &Vec<Ipv4>, private: bool)
    ensures
        shown(final(texts)@) == shown(old(texts)@) + chosen(addresses@, private).map_values(
            |a: Ipv4| address_text(a),
        ),
{
    let ghost before = shown(texts@);
    let ghost write = |a: Ipv4| address_text(a);
    assert(before + chosen(addresses@.take(0), private).map_values(write) =~= before) by {
        assert(addresses@.take(0) =~= Seq::<Ipv4>::empty());
    }
    for i in 0..addresses.len()
        invariant
            write == (|a: Ipv4| address_text(a)),
            shown(texts@) == before + chosen(addresses@.take(i as int), private).map_values(write),
    {
        let address = addresses[i];
        let ghost prior = shown(texts@);
        let ghost so_far = chosen(addresses@.take(i as int), private);
        assert(addresses@.take(i + 1).drop_last() =~= addresses@.take(i as int));
        if is_rfc1918(address) == private {
            let text = show_address(address);
            texts.push(text);
            assert(shown(texts@) =~= prior.push(text@));
            assert(so_far.push(address).map_values(write) =~= so_far.map_values(write).push(
                write(address),
            ));
            assert(prior.push(text@) =~= before + so_far.push(address).map_values(write));
        }
    }
    assert(addresses@.take(addresses@.len() as int) =~= addresses@);
}

/// The texts of a list.
pub open spec fn shown(texts: Seq<String>) -> Seq<Seq<char>> {
    texts.map_values(|t: String| t@)
}

/// The addresses that others can reach, written out, private ones first.
pub fn local_ipv4_addresses(addresses: &[Ipv4]) -> (texts: Vec<String>)
    ensures
        shown(texts@) == ranked(addresses@).map_values(|a: Ipv4| address_text(a)),
{
    let kept = keep_reachable(addresses);
    let mut texts: Vec<String> = Vec::new();
    assert(shown(texts@) =~= Seq::<Seq<char>>::empty());
    push_chosen(&mut texts, &kept, true);
    push_chosen(&mut texts, &kept, false);
    assert(shown(texts@) =~= ranked(addresses@).map_values(|a: Ipv4| address_text(a)));
    texts
}

/// The addresses that others can reach are told once each, and no other ones.
pub proof fn lemma_reachable(addresses: Seq<Ipv4>)
    ensures
        reachable(addresses).no_duplicates(),
        forall|a: Ipv4|
            #[trigger] reachable(addresses).contains(a) == (addresses.contains(a)
                && !is_unreachable(a)),
    decreases addresses.len(),
{
    if addresses.len() > 0 {
        let init = addresses.drop_last();
        let rest = reachable(init);
        lemma_reachable(init);
        assert forall|a: Ipv4|
            #[trigger] reachable(addresses).contains(a) == (addresses.contains(a)
                && !is_unreachable(a)) by {
            assert(addresses.contains(a) <==> init.contains(a) || a == addresses.last()) by {
                assert(addresses =~= init.push(addresses.last()));
                lemma_push_contains(init, addresses.last(), a);
            }
            lemma_push_contains(rest, addresses.last(), a);
            assert(rest.contains(a) <==> init.contains(a) && !is_unreachable(a));
        }
    }
}

proof fn lemma_push_contains(list: Seq<Ipv4>, last: Ipv4, a: Ipv4)
    ensures
        list.push(last).contains(a) <==> list.contains(a) || a == last,
{
    let longer = list.push(last);
    if longer.contains(a) {
        let i = choose|i: int| 0 <= i < longer.len() && longer[i] == a;
        if i < list.len() {
            assert(list[i] == a);
        }
    }
    if list.contains(a) {
        let i = choose|i: int| 0 <= i < list.len() && list[i] == a;
        assert(longer[i] == a);
    }
    assert(longer[list.len() as int] == last);
}

proof fn lemma_chosen(addresses: Seq<Ipv4>, private: bool)
    ensures
        forall|a: Ipv4|
            #[trigger] chosen(addresses, private).contains(a) == (addresses.contains(a)
                && is_private(a) == private),
        forall|i: int|
            0 <= i < chosen(addresses, private).len() ==> is_private(
                #[trigger] chosen(addresses, private)[i],
            ) == private,
    decreases addresses.len(),
{
    if addresses.len() > 0 {
        let init = addresses.drop_last();
        let rest = chosen(init, private);
        lemma_chosen(init, private);
        assert(addresses =~= init.push(addresses.last()));
        assert forall|a: Ipv4|
            #[trigger] chosen(addresses, private).contains(a) == (addresses.contains(a)
                && is_private(a) == private) by {
            lemma_push_contains(init, addresses.last(), a);
            lemma_push_contains(rest, addresses.last(), a);
            assert(rest.contains(a) <==> init.contains(a) && is_private(a) == private);
        }
        assert forall|i: int| 0 <= i < chosen(addresses, private).len() implies is_private(
            #[trigger] chosen(addresses, private)[i],
        ) == private by {
            if i < rest.len() {
                assert(rest[i] == chosen(addresses, private)[i]);
            }
        }
    }
}

/// Exactly the addresses that others can reach are listed, and no private one stands
/// behind one that is not.
pub proof fn law_ranking(addresses: Seq<Ipv4>)
    ensures
        forall|a: Ipv4|
            #[trigger] ranked(addresses).contains(a) == (addresses.contains(a) && !is_unreachable(
                a,
            )),
        forall|i: int, j: int|
            0 <= i < j < ranked(addresses).len() && is_private(#[trigger] ranked(addresses)[j])
                ==> is_private(#[trigger] ranked(addresses)[i]),
{
    let kept = reachable(addresses);
    let (first, second) = (chosen(kept, true), chosen(kept, false));
    lemma_reachable(addresses);
    lemma_chosen(kept, true);
    lemma_chosen(kept, false);
    let all = ranked(addresses);
    assert forall|a: Ipv4| #[trigger]
        all.contains(a) == (addresses.contains(a) && !is_unreachable(a)) by {
        if all.contains(a) {
            let i = choose|i: int| 0 <= i < all.len() && all[i] == a;
            if i < first.len() {
                assert(first[i] == a);
                assert(first.contains(a));
            } else {
                assert(second[i - first.len()] == a);
                assert(second.contains(a));
            }
        }
        if addresses.contains(a) && !is_unreachable(a) {
            assert(kept.contains(a));
            if is_private(a) {
                assert(first.contains(a));
                let i = choose|i: int| 0 <= i < first.len() && first[i] == a;
                assert(all[i] == a);
            } else {
                assert(second.contains(a));
                let i = choose|i: int| 0 <= i < second.len() && second[i] == a;
                assert(all[first.len() + i] == a);
            }
        }
    }
    assert forall|i: int, j: int|
        0 <= i < j < all.len() && is_private(#[trigger] all[j]) implies is_private(
        #[trigger] all[i],
    ) by {
        if j >= first.len() {
            assert(all[j] == second[j - first.len()]);
        } else {
            assert(all[i] == first[i]);
        }
    }
}

} // verus!
