//! What is made known to other machines and learned of them.

use crate::editor::laws::kept;
use crate::editor::lemma_filter;
use crate::network::addresses::{
    address_text, chosen, is_private, is_unreachable, ranked, reachable, Ipv4,
};
use crate::network::identity::{
    byte_prefix, host_label, meta_of, number_or, short_id, txt_of, txt_value, utf8_length,
    MetaModel,
};
use crate::network::nodes::{
    event_of, node_of, services_after, NetworkEventModel, ServiceNotice, ServiceRecord,
};
use crate::routing::optional_text;
use crate::text::{decimal_text, law_decimal_reads_back};
use crate::text_map::law_inserted_value_is_found;
use vstd::prelude::*;

verus! {

/// Addresses of the machine itself, those that it gave itself, the empty one, those for tests of
/// networks and those of large providers are not reachable from other machines.
pub proof fn law_unreachable_addresses(address: Ipv4)
    ensures
        is_unreachable(address) <==> {
            ||| address.a == 127
            ||| address.a == 169 && address.b == 254
            ||| address == (Ipv4 { a: 0, b: 0, c: 0, d: 0 })
            ||| address.a == 198 && address.b / 2 == 9
            ||| address.a == 100 && address.b / 64 == 1
        },
{
}

/// The addresses of private networks are the three ranges that are set aside for them.
pub proof fn law_private_addresses(address: Ipv4)
    ensures
        is_private(address) <==> {
            ||| address.a == 10
            ||| address.a == 172 && address.b / 16 == 1
            ||| address.a == 192 && address.b == 168
        },
{
}

/// An address is shown as its four numbers with points between them.
pub proof fn law_addresses_are_shown_by_their_numbers(address: Ipv4)
    ensures
        address_text(address) == decimal_text(address.a as nat) + "."@ + decimal_text(
            address.b as nat,
        ) + "."@ + decimal_text(address.c as nat) + "."@ + decimal_text(address.d as nat),
{
}

/// Whether no element of a list stands in it twice.
pub open spec fn are_different<A>(list: Seq<A>) -> bool {
    forall|i: int, j: int| 0 <= i < j < list.len() ==> #[trigger] list[i] != #[trigger] list[j]
}

proof fn lemma_reachable_differ(addresses: Seq<Ipv4>)
    ensures
        are_different(reachable(addresses)),
    decreases addresses.len(),
{
    if addresses.len() > 0 {
        let rest = reachable(addresses.drop_last());
        let all = reachable(addresses);
        lemma_reachable_differ(addresses.drop_last());
        assert forall|i: int, j: int| 0 <= i < j < all.len() implies #[trigger] all[i]
            != #[trigger] all[j] by {
            if j < rest.len() {
                assert(rest[i] != rest[j]);
            } else {
                assert(rest.contains(rest[i]));
            }
        }
    }
}

proof fn lemma_chosen_differ(addresses: Seq<Ipv4>, private: bool)
    requires
        are_different(addresses),
    ensures
        are_different(chosen(addresses, private)),
        forall|i: int|
            0 <= i < chosen(addresses, private).len() ==> is_private(
                #[trigger] chosen(addresses, private)[i],
            ) == private && addresses.contains(chosen(addresses, private)[i]),
    decreases addresses.len(),
{
    if addresses.len() > 0 {
        let init = addresses.drop_last();
        let rest = chosen(init, private);
        let all = chosen(addresses, private);
        assert(are_different(init)) by {
            assert forall|i: int, j: int| 0 <= i < j < init.len() implies #[trigger] init[i]
                != #[trigger] init[j] by {
                assert(addresses[i] != addresses[j]);
            }
        }
        lemma_chosen_differ(init, private);
        assert forall|i: int| 0 <= i < all.len() implies is_private(#[trigger] all[i]) == private
            && addresses.contains(all[i]) by {
            if i < rest.len() {
                assert(all[i] == rest[i]);
                let k = init.index_of(rest[i]);
                assert(addresses[k] == rest[i]);
            } else {
                assert(addresses[addresses.len() - 1] == all[i]);
            }
        }
        assert forall|i: int, j: int| 0 <= i < j < all.len() implies #[trigger] all[i]
            != #[trigger] all[j] by {
            if j < rest.len() {
                assert(rest[i] != rest[j]);
            } else {
                assert(all[i] == rest[i]);
                let k = init.index_of(rest[i]);
                assert(init.contains(rest[i]));
                assert(addresses[k] != addresses[addresses.len() - 1]);
            }
        }
    }
}

/// Each address is told once.
pub proof fn law_addresses_are_told_once(addresses: Seq<Ipv4>)
    ensures
        are_different(ranked(addresses)),
{
    let list = reachable(addresses);
    lemma_reachable_differ(addresses);
    lemma_chosen_differ(list, true);
    lemma_chosen_differ(list, false);
    let (first, second) = (chosen(list, true), chosen(list, false));
    let all = ranked(addresses);
    assert forall|i: int, j: int| 0 <= i < j < all.len() implies #[trigger] all[i]
        != #[trigger] all[j] by {
        if j < first.len() {
            assert(first[i] != first[j]);
        } else if i >= first.len() {
            assert(second[i - first.len()] != second[j - first.len()]);
        } else {
            assert(is_private(first[i]));
            assert(!is_private(second[j - first.len()]));
        }
    }
}

/// Blanks and points of a name become hyphens in the name of a host, and all else stays.
pub proof fn law_host_names_have_no_blanks(name: Seq<char>, i: int)
    requires
        0 <= i < name.len(),
    ensures
        host_label(name).len() == name.len(),
        name[i] == ' ' || name[i] == '.' ==> host_label(name)[i] == '-',
        name[i] != ' ' && name[i] != '.' ==> host_label(name)[i] == name[i],
{
}

proof fn lemma_plain_length(text: Seq<char>)
    requires
        forall|i: int| 0 <= i < text.len() ==> (#[trigger] text[i] as nat) < 0x80,
    ensures
        utf8_length(text) == text.len(),
    decreases text.len(),
{
    if text.len() > 0 {
        assert((text[text.len() - 1] as nat) < 0x80);
        lemma_plain_length(text.drop_last());
    }
}

proof fn lemma_plain_prefix(text: Seq<char>, bytes: nat, n: nat)
    requires
        forall|i: int| 0 <= i < text.len() ==> (#[trigger] text[i] as nat) < 0x80,
        n <= bytes,
    ensures
        byte_prefix(text, bytes, n) == if bytes <= text.len() {
            Some(text.take(bytes as int))
        } else {
            None
        },
    decreases text.len() + 1 - n,
{
    if n <= text.len() {
        lemma_plain_length(text.take(n as int));
        if n < bytes {
            lemma_plain_prefix(text, bytes, n + 1);
        }
    }
}

/// The short form of an identifier of plain characters is its first eight, or all where it has
/// fewer.
pub proof fn law_short_identifiers(id: Seq<char>)
    requires
        forall|i: int| 0 <= i < id.len() ==> (#[trigger] id[i] as nat) < 0x80,
    ensures
        id.len() >= 8 ==> short_id(id) == id.take(8),
        id.len() < 8 ==> short_id(id) == id,
{
    lemma_plain_prefix(id, 8, 0);
}

/// A number that another machine tells is read where it is one and within its range; otherwise
/// the usual one is taken.
pub proof fn law_told_numbers_are_read(n: nat, limit: nat, usual: nat)
    ensures
        n <= limit ==> number_or(Some(decimal_text(n)), limit, usual) == n,
        number_or(None, limit, usual) == usual,
        number_or(Some(Seq::empty()), limit, usual) == usual,
{
    if n <= limit {
        law_decimal_reads_back(n, limit);
    }
}

/// A machine that tells no identifier is not known; of one that tells nothing else the usual
/// format is taken.
pub proof fn law_machines_are_known_by_their_identifiers(id: Seq<char>)
    ensures
        meta_of(None, Seq::empty()) is None,
        meta_of(Some(id), Seq::empty()) matches Some(meta) && meta.node_id == id
            && meta.sample_rate == 48000 && meta.channels == 2 && meta.web_port == 0
            && meta.name.len() == 0,
{
}

/// A service that was found is told with what it says of itself: its identifier, its name, its
/// port and the addresses that are not empty, in their order. One without an identifier is not
/// told.
pub proof fn law_found_services_are_told(
    services: Seq<(Seq<char>, Seq<char>)>,
    record: ServiceRecord,
)
    ensures
        event_of(services, ServiceNotice::Resolved(record)) is Some <==> record.node_id is Some,
        record.node_id is Some ==> (event_of(
            services,
            ServiceNotice::Resolved(record),
        ) matches Some(NetworkEventModel::NodeResolved(node)) && {
            &&& Some(node.node_id) == optional_text(record.node_id)
            &&& record.name is Some ==> Some(node.name) == optional_text(record.name)
            &&& record.caps is Some ==> Some(node.caps) == optional_text(record.caps)
            &&& node.port == record.port
            &&& kept(
                record.addresses@,
                node.addresses,
                |a: Ipv4| a != (Ipv4 { a: 0, b: 0, c: 0, d: 0 }),
            )
            &&& record.sample_rate is None ==> node.sample_rate == 48000
            &&& record.channels is None ==> node.channels == 2
        }),
{
    let keep = |a: Ipv4| !crate::network::nodes::is_unspecified(a);
    let other = |a: Ipv4| a != (Ipv4 { a: 0, b: 0, c: 0, d: 0 });
    lemma_filter(record.addresses@, keep);
    assert(keep =~= other);
    let node = node_of(record);
}

/// A service that goes is told by the identifier that it was found with, and is not remembered
/// any more; one that was never found is not told.
pub proof fn law_gone_services_are_told(
    services: Seq<(Seq<char>, Seq<char>)>,
    record: ServiceRecord,
    name: String,
    id: Seq<char>,
)
    requires
        optional_text(record.node_id) == Some(id),
        name@ == record.fullname@,
    ensures
        event_of(
            services_after(services, ServiceNotice::Resolved(record)),
            ServiceNotice::Removed(name),
        ) == Some(NetworkEventModel::NodeRemoved(id)),
        event_of(Seq::empty(), ServiceNotice::Removed(name)) is None,
        event_of(services, ServiceNotice::Other) is None,
        services_after(services, ServiceNotice::Other) == services,
{
    law_inserted_value_is_found(services, record.fullname@, id, id);
}

/// A machine tells each thing of itself under its own key.
pub proof fn law_machines_tell_what_they_are(meta: MetaModel)
    ensures
        ({
            let told = txt_of(meta);
            &&& told.len() == 7
            &&& told.contains(("node_id"@, meta.node_id))
            &&& told.contains(("name"@, meta.name))
            &&& told.contains(("ver"@, meta.version))
            &&& told.contains(("web_port"@, decimal_text(meta.web_port as nat)))
            &&& told.contains(("sr"@, decimal_text(meta.sample_rate as nat)))
            &&& told.contains(("ch"@, decimal_text(meta.channels as nat)))
            &&& told.contains(("caps"@, meta.caps))
        }),
{
    let told = txt_of(meta);
    assert(told[0] == ("node_id"@, meta.node_id));
    assert(told[1] == ("name"@, meta.name));
    assert(told[2] == ("ver"@, meta.version));
    assert(told[3] == ("web_port"@, decimal_text(meta.web_port as nat)));
    assert(told[4] == ("sr"@, decimal_text(meta.sample_rate as nat)));
    assert(told[5] == ("ch"@, decimal_text(meta.channels as nat)));
    assert(told[6] == ("caps"@, meta.caps));
}

/// What a machine tells under a key is what is known of it.
pub proof fn law_machines_are_known_by_what_they_tell(
    id: Seq<char>,
    told: Seq<(Seq<char>, Seq<char>)>,
    n: nat,
)
    ensures
        ({
            let meta = meta_of(Some(id), told)->0;
            &&& txt_value(told, "name"@) matches Some(text) ==> meta.name == text
            &&& txt_value(told, "ver"@) matches Some(text) ==> meta.version == text
            &&& txt_value(told, "caps"@) matches Some(text) ==> meta.caps == text
            &&& n <= u16::MAX && txt_value(told, "web_port"@) == Some(decimal_text(n))
                ==> meta.web_port == n
            &&& n <= u32::MAX && txt_value(told, "sr"@) == Some(decimal_text(n))
                ==> meta.sample_rate == n
            &&& n <= u8::MAX && txt_value(told, "ch"@) == Some(decimal_text(n)) ==> meta.channels
                == n
        }),
{
    if n <= u16::MAX {
        law_decimal_reads_back(n, u16::MAX as nat);
    }
    if n <= u32::MAX {
        law_decimal_reads_back(n, u32::MAX as nat);
    }
    if n <= u8::MAX {
        law_decimal_reads_back(n, u8::MAX as nat);
    }
}

} // verus!
