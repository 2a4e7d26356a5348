//! What devices that ask to pair, and listeners, are granted, said of what they were told.

use crate::arithmetic::{binary, unary};
use crate::editor::laws::kept;
use crate::editor::lemma_filter;
use crate::network::addresses::{address_text, shown, Ipv4};
use crate::paths::laws::{is_name, law_files_stand_beside_each_other};
use crate::routing::{optional_text, GraphModel, SendEnds};
use crate::text::laws::{
    hex_value, is_blank, is_tight, law_bytes_are_written_in_hexadecimal, law_first_of_a_character,
    law_white_space_around_is_trimmed,
};
use crate::text::{first_index, hex_text, text_before, trimmed};
use crate::text_map::{
    has_key, key_index, keys_differ, lemma_kept, lemma_key_index, value_of, without_key,
};
use crate::web::auth::{
    after_request, connections_closed, connections_left, connections_of, cookie_in, cookie_value,
    devices_path, forgotten, has_hash, hash_index, is_sound, new_device, pairing_fault, pin_digit,
    pin_text, pruned, recent, seen, six_digits, still_counts, summary_of, uuid_bytes, uuid_text,
    AuthFault, AuthModel, PairRequest, TrustedModel,
};
use crate::web::certificates::{authority_certificate, console_certificate};
use crate::web::monitor::{
    has_peer, lemma_peer_at, of_owner, peer_at, peer_ids, with_stage, without_owner, without_peer,
    MonitorFault, MonitorModel, PeerModel, PeerStage,
};
use crate::web::negotiation::{offer_next, OfferEventModel, OfferProgressModel, OfferStep};
use crate::web::projection::{
    all_meter_bytes, are_sorted_meters, byte_count, four_bytes, meter_frame, metered, shows_levels,
    tells_graph, InitialState, MeterModel, MeterOps, SendLevels,
};
use crate::web::server::{relative, static_answer, StaticModel};
use crate::web::tls::{is_stale, quoted, trust_status, CaProbe, ServerCertMeta};
use vstd::prelude::*;

verus! {

/// How many of some times lie no more than a minute back.
pub open spec fn within_a_minute(times: Seq<i64>, now: i64) -> nat
    decreases times.len(),
{
    if times.len() == 0 {
        0
    } else {
        within_a_minute(times.drop_last(), now) + if times.last() + 60 >= now {
            1nat
        } else {
            0
        }
    }
}

proof fn lemma_recent(times: Seq<i64>, now: i64)
    ensures
        recent(times, now).len() == within_a_minute(times, now),
    decreases times.len(),
{
    reveal(Seq::filter);
    if times.len() > 0 {
        lemma_recent(times.drop_last(), now);
    }
}

/// A device is turned away for its failures exactly where five of them lie no more than a minute
/// back. Otherwise it is turned away where no pairing is open, and else where neither the secret
/// nor the PIN that it gives is the right one; and never for anything else.
pub proof fn law_pairing_is_granted(auth: AuthModel, request: PairRequest)
    ensures
        ({
            let failed = match value_of(auth.failures, request.ip) {
                Some(times) => within_a_minute(times, request.now),
                None => 0,
            };
            let fault = pairing_fault(auth, request);
            &&& failed >= 5 <==> fault == Some(AuthFault::RateLimited)
            &&& failed < 5 ==> match auth.pairing {
                Some(pairing) => if request.now >= pairing.expires_unix {
                    fault == Some(AuthFault::PairingClosed)
                } else if request.secret == Some(pairing.secret) || request.pin == Some(
                    pairing.pin,
                ) {
                    fault is None
                } else {
                    fault == Some(AuthFault::InvalidCredential)
                },
                None => fault == Some(AuthFault::PairingClosed),
            }
        }),
{
    if let Some(times) = value_of(auth.failures, request.ip) {
        lemma_recent(times, request.now);
    }
}

/// A wrong secret or PIN counts once for the address that it came from, and for no other. What
/// counts for the others and lies no more than a minute back is kept, whatever is asked.
pub proof fn law_failures_count_by_address(
    auth: AuthModel,
    request: PairRequest,
    other: Seq<char>,
    times: Seq<i64>,
)
    requires
        is_sound(auth),
        value_of(auth.failures, other) == Some(times),
        within_a_minute(times, request.now) > 0,
        other != request.ip,
    ensures
        value_of(after_request(auth, request).failures, other) == Some(times),
{
    lemma_recent(times, request.now);
    lemma_kept(auth.failures, |t: Seq<i64>| still_counts(t, request.now), other);
    if pairing_fault(auth, request) == Some(AuthFault::InvalidCredential) {
        let failures = pruned(auth.failures, request.now);
        let mine = match value_of(failures, request.ip) {
            Some(times) => times,
            None => Seq::empty(),
        };
        crate::text_map::law_inserted_value_is_found(
            failures,
            request.ip,
            recent(mine.push(request.now), request.now),
            other,
        );
    }
}

/// A pairing that is granted is over, and nothing else but the failures that lie further back
/// changes.
pub proof fn law_granted_pairing_is_over(auth: AuthModel, request: PairRequest)
    requires
        pairing_fault(auth, request) is None,
    ensures
        after_request(auth, request).pairing is None,
        after_request(auth, request).devices == auth.devices,
        after_request(auth, request).connections == auth.connections,
{
}

/// The first device of a credential is the one that it stands for: it was seen now, keeps all
/// else, and no other device changes.
pub proof fn law_device_of_a_credential_was_seen(
    devices: Seq<TrustedModel>,
    hash: Seq<char>,
    now: i64,
    at: int,
)
    requires
        0 <= at < devices.len(),
        devices[at].credential_hash == hash,
        forall|i: int| 0 <= i < at ==> (#[trigger] devices[i]).credential_hash != hash,
    ensures
        has_hash(devices, hash),
        hash_index(devices, hash) == at,
        seen(devices, at, now).len() == devices.len(),
        forall|i: int|
            0 <= i < devices.len() && i != at ==> #[trigger] seen(devices, at, now)[i]
                == devices[i],
        ({
            let (was, is) = (devices[at], seen(devices, at, now)[at]);
            &&& is.id == was.id
            &&& is.credential_hash == was.credential_hash
            &&& is.name == was.name
            &&& is.permission == was.permission
            &&& is.last_seen_unix == now
        }),
{
    crate::web::auth::lemma_hash_index(devices, hash, at);
}

/// What is shown of a device is all but its credential.
pub proof fn law_devices_are_shown_without_their_credentials(device: TrustedModel)
    ensures
        summary_of(device).id == device.id,
        summary_of(device).name == device.name,
        summary_of(device).permission == device.permission,
        summary_of(device).last_seen_unix == device.last_seen_unix,
{
}

/// A new device has the name that was given, may control, and was seen now.
pub proof fn law_new_device_is_as_it_was_told(
    credential: Seq<u8>,
    id: Seq<u8>,
    name: Seq<char>,
    now: i64,
)
    ensures
        new_device(credential, id, name, now).name == name,
        new_device(credential, id, name, now).permission == "control"@,
        new_device(credential, id, name, now).last_seen_unix == now,
        new_device(credential, id, name, now).id == uuid_text(id),
{
}

proof fn lemma_removed_key_leaves_others<V>(
    entries: Seq<(Seq<char>, V)>,
    key: Seq<char>,
    other: Seq<char>,
)
    requires
        keys_differ(entries),
        other != key,
    ensures
        value_of(without_key(entries, key), other) == value_of(entries, other),
{
    let next = without_key(entries, key);
    if has_key(entries, key) {
        lemma_key_index(entries, key);
        let at = key_index(entries, key);
        if has_key(entries, other) {
            lemma_key_index(entries, other);
            let k = key_index(entries, other);
            let moved = if k < at {
                k
            } else {
                k - 1
            };
            assert(next[moved] == entries[k]);
            lemma_key_index(next, other);
            let found = key_index(next, other);
            let back = if found < at {
                found
            } else {
                found + 1
            };
            assert(entries[back] == next[found]);
            if back < k {
                assert(entries[back].0 != entries[k].0);
            } else if k < back {
                assert(entries[k].0 != entries[back].0);
            }
        } else if has_key(next, other) {
            lemma_key_index(next, other);
            let found = key_index(next, other);
            if found < at {
                assert(entries[found].0 == other);
            } else {
                assert(entries[found + 1].0 == other);
            }
        }
    }
}

/// A device that is forgotten goes alone: the others stay, in their order, with their
/// connections.
pub proof fn law_forgotten_device_goes_alone(auth: AuthModel, id: Seq<char>, other: Seq<char>)
    requires
        is_sound(auth),
        other != id,
    ensures
        kept(auth.devices, forgotten(auth, id).devices, |d: TrustedModel| d.id != id),
        connections_of(forgotten(auth, id).connections, other) == connections_of(
            auth.connections,
            other,
        ),
        forgotten(auth, id).pairing == auth.pairing,
        forgotten(auth, id).failures == auth.failures,
{
    lemma_filter(auth.devices, |d: TrustedModel| d.id != id);
    lemma_removed_key_leaves_others(auth.connections, id, other);
}

proof fn lemma_left_keeps(
    connections: Seq<(Seq<char>, Seq<u64>)>,
    devices: Seq<TrustedModel>,
    n: nat,
    id: Seq<char>,
)
    requires
        keys_differ(connections),
        n <= devices.len(),
        forall|i: int| 0 <= i < n ==> (#[trigger] devices[i]).id != id,
    ensures
        keys_differ(connections_left(connections, devices, n)),
        value_of(connections_left(connections, devices, n), id) == value_of(connections, id),
    decreases n,
{
    if n > 0 {
        let before = connections_left(connections, devices, (n - 1) as nat);
        lemma_left_keeps(connections, devices, (n - 1) as nat, id);
        lemma_removed_key_leaves_others(before, devices[n - 1].id, id);
        crate::text_map::lemma_keys_stay_different(before, devices[n - 1].id, Seq::empty());
    }
}

/// When all devices are forgotten, every connection of every device is closed.
pub proof fn law_reset_closes_every_connection(auth: AuthModel, i: int, connection: u64, n: nat)
    requires
        is_sound(auth),
        0 <= i < n <= auth.devices.len(),
        connections_of(auth.connections, auth.devices[i].id).contains(connection),
        forall|j: int| 0 <= j < i ==> (#[trigger] auth.devices[j]).id != auth.devices[i].id,
    ensures
        connections_closed(auth.connections, auth.devices, n).contains(connection),
    decreases n,
{
    let rest = connections_closed(auth.connections, auth.devices, (n - 1) as nat);
    let last = connections_of(
        connections_left(auth.connections, auth.devices, (n - 1) as nat),
        auth.devices[n - 1].id,
    );
    let all = connections_closed(auth.connections, auth.devices, n);
    assert(all == rest + last);
    if i == n - 1 {
        lemma_left_keeps(auth.connections, auth.devices, (n - 1) as nat, auth.devices[i].id);
        let k = last.index_of(connection);
        assert(all[rest.len() + k] == connection);
    } else {
        law_reset_closes_every_connection(auth, i, connection, (n - 1) as nat);
        let k = rest.index_of(connection);
        assert(all[k] == connection);
    }
}

/// A PIN has six digits, which together are the number that three drawn bytes give, without the
/// millions.
pub proof fn law_pin_has_six_digits(bytes: Seq<u8>)
    ensures
        ({
            let pin = pin_text(bytes);
            let drawn = bytes[0] * 0x1_0000 + bytes[1] * 0x100 + bytes[2];
            let digit = |i: int| pin[i] as int - '0' as int;
            &&& pin.len() == 6
            &&& forall|i: int| 0 <= i < 6 ==> '0' <= #[trigger] pin[i] <= '9'
            &&& 100_000 * digit(0) + 10_000 * digit(1) + 1000 * digit(2) + 100 * digit(3) + 10
                * digit(4) + digit(5) == drawn % 1_000_000
        }),
{
    let n = (bytes[0] * 0x1_0000 + bytes[1] * 0x100 + bytes[2]) % 1_000_000;
    lemma_six_digits(n);
    let pin = pin_text(bytes);
    assert(pin == six_digits(n));
    assert forall|i: int| 0 <= i < 6 implies '0' <= #[trigger] pin[i] <= '9' by {
        assert(pin[0] == pin_digit(n, 100_000) && pin[1] == pin_digit(n, 10_000) && pin[2]
            == pin_digit(n, 1000) && pin[3] == pin_digit(n, 100) && pin[4] == pin_digit(n, 10)
            && pin[5] == pin_digit(n, 1));
    }
}

proof fn lemma_six_digits(n: int)
    requires
        0 <= n < 1_000_000,
    ensures
        ({
            let digit = |place: int| pin_digit(n, place) as int - '0' as int;
            &&& 100_000 * digit(100_000) + 10_000 * digit(10_000) + 1000 * digit(1000) + 100
                * digit(100) + 10 * digit(10) + digit(1) == n
            &&& 0 <= digit(100_000) <= 9 && 0 <= digit(10_000) <= 9 && 0 <= digit(1000) <= 9
            &&& 0 <= digit(100) <= 9 && 0 <= digit(10) <= 9 && 0 <= digit(1) <= 9
        }),
{
    let (a, b, c, d, e) = (n / 10, n / 100, n / 1000, n / 10_000, n / 100_000);
    assert(a == 10 * b + a % 10) by {
        assert(b == a / 10);
    }
    assert(b == 10 * c + b % 10) by {
        assert(c == b / 10);
    }
    assert(c == 10 * d + c % 10) by {
        assert(d == c / 10);
    }
    assert(d == 10 * e + d % 10) by {
        assert(e == d / 10);
    }
    assert(e % 10 == e);
    assert(n / 1 == n);
    assert(n == 10 * a + n % 10);
}

/// An identifier of a device is a random one: thirty-two digits in five groups, with the marks
/// of its version and its variant, and the drawn bytes in all other places.
pub proof fn law_identifiers_are_random(bytes: Seq<u8>)
    requires
        bytes.len() == 16,
    ensures
        ({
            let id = uuid_text(bytes);
            let own = uuid_bytes(bytes);
            &&& id.len() == 36
            &&& id[8] == '-' && id[13] == '-' && id[18] == '-' && id[23] == '-'
            &&& id[14] == '4'
            &&& id[19] == '8' || id[19] == '9' || id[19] == 'a' || id[19] == 'b'
            &&& own.len() == 16
            &&& own[6] % 16 == bytes[6] % 16
            &&& own[8] % 64 == bytes[8] % 64
            &&& forall|i: int| 0 <= i < 16 && i != 6 && i != 8 ==> #[trigger] own[i] == bytes[i]
        }),
{
    let own = uuid_bytes(bytes);
    let digits = hex_text(own);
    reveal_strlit("-");
    law_bytes_are_written_in_hexadecimal(own, 6);
    law_bytes_are_written_in_hexadecimal(own, 8);
    assert(digits.len() == 32);
    let id = uuid_text(bytes);
    assert(id[14] == digits[12]);
    assert(id[19] == digits[16]);
    assert(own[6] as int / 16 == 4);
    assert(8 <= own[8] as int / 16 < 12);
    assert(16 * hex_value(digits[12]) + hex_value(digits[13]) == own[6]);
    assert(16 * hex_value(digits[16]) + hex_value(digits[17]) == own[8]);
}

proof fn lemma_first_index_is(text: Seq<char>, c: char, at: int)
    requires
        0 <= at < text.len(),
        text[at] == c,
        forall|i: int| 0 <= i < at ==> #[trigger] text[i] != c,
    ensures
        first_index(text, c) == at,
{
    law_first_of_a_character(text, c);
    let found = first_index(text, c);
    if found > at {
        assert(text[at] != c);
    }
    if found < at {
        assert(text[found] != c);
    }
}

/// Of a header of cookies the first one of a name counts: a cookie in front of others is theirs
/// if it has the name, and otherwise does not matter.
pub proof fn law_first_cookie_of_a_name_counts(
    first: Seq<char>,
    others: Seq<char>,
    name: Seq<char>,
)
    requires
        forall|i: int| 0 <= i < first.len() ==> #[trigger] first[i] != ';',
    ensures
        cookie_value(first + seq![';'] + others, name) == match cookie_value(first, name) {
            Some(value) => Some(value),
            None => cookie_value(others, name),
        },
{
    let header = first + seq![';'] + others;
    let end = first.len() as int;
    assert forall|i: int| 0 <= i < end implies #[trigger] header[i] != ';' by {
        assert(header[i] == first[i]);
    }
    assert(header[end] == ';');
    lemma_first_index_is(header, ';', end);
    law_first_of_a_character(first, ';');
    assert(header.take(end) =~= first);
    assert(header.skip(end + 1) =~= others);
    assert(cookie_value(first, name) == cookie_in(first, name));
}

/// A cookie is a name, an equals sign and a value, with white space around it; it has that value
/// under that name, and none under another.
pub proof fn law_cookie_has_its_value(
    before: Seq<char>,
    name: Seq<char>,
    value: Seq<char>,
    behind: Seq<char>,
    other: Seq<char>,
)
    requires
        is_blank(before),
        is_blank(behind),
        name.len() > 0,
        is_tight(name),
        value.len() > 0,
        is_tight(value),
        forall|i: int| 0 <= i < name.len() ==> #[trigger] name[i] != '=',
        forall|i: int| 0 <= i < value.len() ==> #[trigger] value[i] != ';',
        forall|i: int| 0 <= i < name.len() ==> #[trigger] name[i] != ';',
        other != name,
    ensures
        ({
            let header = before + (name + seq!['='] + value) + behind;
            &&& cookie_value(header, name) == Some(value)
            &&& cookie_value(header, other) is None
        }),
{
    let piece = name + seq!['='] + value;
    let header = before + piece + behind;
    let at = name.len() as int;
    assert(piece[0] == name[0] && piece[piece.len() - 1] == value[value.len() - 1]);
    law_white_space_around_is_trimmed(before, piece, behind);
    assert forall|i: int| 0 <= i < at implies #[trigger] piece[i] != '=' by {
        assert(piece[i] == name[i]);
    }
    lemma_first_index_is(piece, '=', at);
    assert(piece.take(at) =~= name);
    assert(piece.skip(at + 1) =~= value);
    let none = Seq::<char>::empty();
    law_white_space_around_is_trimmed(none, name, none);
    law_white_space_around_is_trimmed(none, value, none);
    assert(none + name + none =~= name);
    assert(none + value + none =~= value);
    law_first_of_a_character(header, ';');
    let end = first_index(header, ';');
    if end < header.len() {
        if end < before.len() {
            assert(crate::text::is_white_space(before[end]));
        } else if end < before.len() + piece.len() {
            let i = end - before.len();
            assert(piece[i] == ';');
            if i < at {
                assert(name[i] == ';');
            } else if i > at {
                assert(value[i - at - 1] == ';');
            }
        } else {
            assert(crate::text::is_white_space(behind[end - before.len() - piece.len()]));
        }
    }
}

/// Two listeners are let in at most, and only to a channel that can be heard.
pub proof fn law_listeners_are_let_in(
    service: MonitorModel,
    bus_id: Seq<char>,
    taps: Seq<Seq<char>>,
)
    ensures
        service.start_fault(bus_id, taps) is None <==> service.peers.len() < 2 && exists|i: int|
            0 <= i < taps.len() && #[trigger] taps[i] == bus_id,
        service.peers.len() >= 2 ==> service.start_fault(bus_id, taps) == Some(
            MonitorFault::LimitReached,
        ),
{
}

/// An offer is taken exactly from the owner of a listener that waits.
pub proof fn law_offers_are_taken_from_the_owner(
    service: MonitorModel,
    owner: u64,
    id: u64,
    at: int,
)
    requires
        service.is_sound(),
        0 <= at < service.peers.len(),
        service.peers[at].id == id,
    ensures
        service.offer_fault(owner, id) is None <==> service.peers[at].owner == owner
            && service.peers[at].stage == PeerStage::Waiting,
        service.peers[at].owner != owner ==> service.offer_fault(owner, id) == Some(
            MonitorFault::UnknownPeer,
        ),
        peer_at(service.peers, id) == service.peers[at],
        has_peer(service.peers, owner, id) <==> service.peers[at].owner == owner,
{
    lemma_peer_at(service.peers, at);
    if has_peer(service.peers, owner, id) {
        let i = choose|i: int|
            0 <= i < service.peers.len() && (#[trigger] service.peers[i]).id == id
                && service.peers[i].owner == owner;
        if i < at {
            assert(service.peers[i].id != service.peers[at].id);
        } else if at < i {
            assert(service.peers[at].id != service.peers[i].id);
        }
    }
}

/// A listener that moves on is at the stage that it moved to, and no other listener changes.
pub proof fn law_one_listener_moves_on(
    peers: Seq<PeerModel>,
    id: u64,
    stage: PeerStage,
    i: int,
)
    requires
        0 <= i < peers.len(),
    ensures
        with_stage(peers, id, stage).len() == peers.len(),
        with_stage(peers, id, stage)[i].id == peers[i].id,
        with_stage(peers, id, stage)[i].owner == peers[i].owner,
        with_stage(peers, id, stage)[i].bus_id == peers[i].bus_id,
        with_stage(peers, id, stage)[i].stage == if peers[i].id == id {
            stage
        } else {
            peers[i].stage
        },
{
}

/// A listener that stops goes alone, and with an owner all of its listeners go and no others;
/// those that go are told.
pub proof fn law_listeners_leave(peers: Seq<PeerModel>, id: u64, owner: u64, i: int)
    requires
        0 <= i < peers.len(),
    ensures
        kept(peers, without_peer(peers, id), |p: PeerModel| p.id != id),
        kept(peers, without_owner(peers, owner), |p: PeerModel| p.owner != owner),
        peers[i].owner == owner ==> peer_ids(of_owner(peers, owner)).contains(peers[i].id),
        forall|k: int|
            0 <= k < of_owner(peers, owner).len() ==> (#[trigger] of_owner(peers, owner)[k]).owner
                == owner,
{
    lemma_filter(peers, |p: PeerModel| p.id != id);
    lemma_filter(peers, |p: PeerModel| p.owner != owner);
    lemma_filter(peers, |p: PeerModel| p.owner == owner);
    if peers[i].owner == owner {
        let own = of_owner(peers, owner);
        let k = own.index_of(peers[i]);
        assert(own.contains(peers[i]));
        assert(peer_ids(own)[k] == peers[i].id);
    }
}

/// An offer is answered step by step: the connection, its track, the offer of the other side,
/// the answer, its candidates, and then the answer is read. What fails on the way ends it.
pub proof fn law_offer_is_answered_in_order(reason: Seq<char>, sdp: Seq<char>)
    ensures
        ({
            let goes = |from: OfferStep, to: OfferStep|
                offer_next(from, OfferEventModel::Done) == Ok::<OfferProgressModel, MonitorFault>(
                    OfferProgressModel::Continue(to),
                );
            let fails = |step: OfferStep|
                offer_next(step, OfferEventModel::Failed { reason }) matches Err(
                    MonitorFault::Internal(_),
                );
            &&& goes(OfferStep::Connect, OfferStep::MakeTrack)
            &&& goes(OfferStep::MakeTrack, OfferStep::AddTrack)
            &&& goes(OfferStep::AddTrack, OfferStep::ReadOffer)
            &&& goes(OfferStep::ReadOffer, OfferStep::SetRemote)
            &&& goes(OfferStep::SetRemote, OfferStep::CreateAnswer)
            &&& goes(OfferStep::CreateAnswer, OfferStep::SetLocal)
            &&& goes(OfferStep::SetLocal, OfferStep::Gather)
            &&& goes(OfferStep::Gather, OfferStep::Describe)
            &&& fails(OfferStep::Connect) && fails(OfferStep::MakeTrack)
            &&& fails(OfferStep::AddTrack) && fails(OfferStep::ReadOffer)
            &&& fails(OfferStep::SetRemote) && fails(OfferStep::CreateAnswer)
            &&& fails(OfferStep::SetLocal)
            &&& offer_next(OfferStep::Describe, OfferEventModel::Described { sdp: Some(sdp) })
                == Ok::<OfferProgressModel, MonitorFault>(OfferProgressModel::Answered { sdp })
            &&& offer_next(OfferStep::Describe, OfferEventModel::Described { sdp: None }) is Err
        }),
{
}

/// A certificate of the console is made anew where there is none, where it is not for the
/// addresses that the machine has now, and within a week of its end; otherwise it is kept.
pub proof fn law_certificates_are_renewed(meta: ServerCertMeta, ips: Seq<Seq<char>>, now: i64)
    ensures
        is_stale(None, ips, now),
        is_stale(Some(meta), ips, now) <==> shown(meta.ips@) != ips || meta.not_after_unix - now
            <= 7 * 24 * 3600,
{
}

/// A certificate of the console is for the machine itself and for each of its addresses, holds
/// from a day before now for thirty days, and makes no others; an authority makes others and holds
/// for ten years.
pub proof fn law_certificates_are_for_the_machine(ips: Seq<Ipv4>, now: int, i: int)
    requires
        0 <= i < ips.len(),
    ensures
        ({
            let console = console_certificate(ips, now);
            let authority = authority_certificate(now);
            let day = 24 * 3600int;
            &&& console.names.len() == ips.len() + 1
            &&& console.names[0] == "localhost"@
            &&& console.names[i + 1] == address_text(ips[i])
            &&& !console.is_ca
            &&& console.not_before == now - day
            &&& console.not_after == now + 30 * day
            &&& authority.is_ca
            &&& authority.not_before == now - day
            &&& authority.not_after == now + 3650 * day
            &&& authority.names.len() == 0
        }),
{
}

/// A quote in a text that stands in quotes is written twice, and all else once.
pub proof fn law_quotes_are_written_twice(text: Seq<char>, c: char)
    ensures
        quoted(Seq::empty()) == Seq::<char>::empty(),
        c != '\'' ==> quoted(text.push(c)) == quoted(text).push(c),
        quoted(text.push('\'')) == quoted(text).push('\'').push('\''),
{
    assert(text.push(c).drop_last() =~= text);
    assert(text.push('\'').drop_last() =~= text);
    assert(quoted(text) + seq!['\'', '\''] =~= quoted(text).push('\'').push('\''));
}

/// A machine trusts an authority exactly where its answer, without white space around it, says
/// that it is installed; that is known where the machine answered.
pub proof fn law_trust_is_what_the_machine_says(path: Seq<char>, output: String, error: String)
    ensures
        trust_status(path, CaProbe::Answered(output)).installed <==> trimmed(output@)
            == "installed"@,
        trust_status(path, CaProbe::Answered(output)).checked,
        trust_status(path, CaProbe::Answered(output)).ca_path == Some(path),
        !trust_status(path, CaProbe::Failed(error)).installed,
        !trust_status(path, CaProbe::Failed(error)).checked,
        !trust_status(path, CaProbe::Unsupported).installed,
        !trust_status(path, CaProbe::Missing).installed,
        trust_status(path, CaProbe::Missing).ca_path is None,
{
}

/// A file that is asked for is sent where it is there; anything else is answered with the start
/// page, and with nothing only where that is not there either. Slashes in front do not matter.
pub proof fn law_pages_are_sent(path: Seq<char>, has_index: bool, kind: Seq<char>)
    requires
        path.len() > 0,
        path[0] != '/',
    ensures
        static_answer(path, true, has_index, kind) == (StaticModel::File {
            path,
            content_type: kind,
        }),
        static_answer(seq!['/'] + path, true, has_index, kind) == (StaticModel::File {
            path,
            content_type: kind,
        }),
        static_answer(seq!['/'], true, has_index, kind) == (StaticModel::File {
            path: "index.html"@,
            content_type: kind,
        }),
        static_answer(path, false, true, kind) == (StaticModel::File {
            path: "index.html"@,
            content_type: "text/html"@,
        }),
        static_answer(path, false, false, kind) == StaticModel::NotFound,
{
    let slash = seq!['/'] + path;
    let root = seq!['/'];
    assert(slash.skip(1) =~= path);
    assert(relative(path) == path);
    assert(relative(slash) == relative(slash.skip(1)));
    assert(root.skip(1) =~= Seq::<char>::empty());
    assert(relative(root) == relative(root.skip(1)));
}

/// The console is told every send as it is: its settings, its bus, and the source in front of it or
/// the sink behind it, whichever it has.
pub proof fn law_console_is_told_the_sends(state: InitialState, graph: GraphModel, i: int)
    requires
        tells_graph(state, graph),
        0 <= i < graph.sends.len(),
    ensures
        state.sends@.len() == graph.sends.len(),
        ({
            let (told, send) = (state.sends@[i], graph.sends[i]);
            &&& told.send_id@ == send.id
            &&& told.gain_db == send.gain_db
            &&& told.muted == send.muted
            &&& told.enabled == send.enabled
            &&& told.channel_map@ == send.channel_map
            &&& match send.ends {
                SendEnds::SourceToBus { source_id, bus_id } => optional_text(told.source) == Some(
                    source_id,
                ) && optional_text(told.output_channel) == Some(bus_id)
                    && told.external_output is None,
                SendEnds::BusToSink { bus_id, sink_id } => told.source is None && optional_text(
                    told.output_channel,
                ) == Some(bus_id) && optional_text(told.external_output) == Some(sink_id),
            }
        }),
{
    let told = state.sends@[i];
}

/// The console is told every source, bus and sink with its identifier and its name, in their order.
pub proof fn law_console_is_told_the_nodes(state: InitialState, graph: GraphModel, i: int)
    requires
        tells_graph(state, graph),
    ensures
        state.sources@.len() == graph.sources.len(),
        state.output_channels@.len() == graph.buses.len(),
        state.external_outputs@.len() == graph.sinks.len(),
        0 <= i < graph.sources.len() ==> state.sources@[i].id@ == graph.sources[i].id
            && state.sources@[i].display_name@ == graph.sources[i].display_name
            && state.sources@[i].process_id == graph.sources[i].process_id && optional_text(
            state.sources@[i].endpoint_id,
        ) == graph.sources[i].endpoint_id,
        0 <= i < graph.buses.len() ==> state.output_channels@[i].id@ == graph.buses[i].id
            && state.output_channels@[i].display_name@ == graph.buses[i].display_name,
        0 <= i < graph.sinks.len() ==> state.external_outputs@[i].id@ == graph.sinks[i].id
            && state.external_outputs@[i].display_name@ == graph.sinks[i].display_name
            && state.external_outputs@[i].endpoint_id@ == graph.sinks[i].endpoint_id,
{
    if 0 <= i < graph.sources.len() {
        let told = state.sources@[i];
    }
    if 0 <= i < graph.buses.len() {
        let told = state.output_channels@[i];
    }
    if 0 <= i < graph.sinks.len() {
        let told = state.external_outputs@[i];
    }
}

/// The level that is shown of a send is that of its louder side, for its peaks as for its means; a
/// send without means is silent.
pub proof fn law_louder_side_is_shown<L: Fn(u32, u32) -> u32, D: Fn(u32) -> u32>(
    ops: MeterOps<L, D>,
    levels: SendLevels,
)
    ensures
        metered(ops, levels).id == levels.id@,
        metered(ops, levels).peak_db == unary(
            ops.to_db,
            binary(ops.louder, levels.peaks.0, levels.peaks.1),
        ),
        levels.rms matches Some(rms) ==> metered(ops, levels).rms_db == unary(
            ops.to_db,
            binary(ops.louder, rms.0, rms.1),
        ),
        levels.rms is None ==> metered(ops, levels).rms_db == unary(
            ops.to_db,
            binary(ops.louder, 0u32, 0u32),
        ),
{
}

/// The levels that are shown are those of all sends, each once, ordered by their identifiers.
pub proof fn law_all_levels_are_shown(frame: Seq<u8>, all: Seq<MeterModel>, timestamp_ms: u32)
    requires
        shows_levels(frame, all, timestamp_ms),
    ensures
        frame.len() >= 6,
        frame[0] == 1,
        frame[1] == if all.len() < 255 {
            all.len()
        } else {
            255
        },
        frame[2] + 0x100 * frame[3] + 0x1_0000 * frame[4] + 0x100_0000 * frame[5] == timestamp_ms,
        exists|nodes: Seq<MeterModel>| #[trigger]
            nodes.to_multiset() == all.to_multiset() && frame == meter_frame(nodes, timestamp_ms)
                && forall|i: int, j: int|
                0 <= i < j < nodes.len() ==> !text_before(
                    (#[trigger] nodes[j]).id,
                    (#[trigger] nodes[i]).id,
                ),
{
    let nodes = choose|nodes: Seq<MeterModel>|
        are_sorted_meters(nodes, all) && frame == #[trigger] meter_frame(nodes, timestamp_ms);
    nodes.to_multiset_ensures();
    all.to_multiset_ensures();
    assert(nodes.len() == all.len());
    lemma_frame_starts(nodes, timestamp_ms);
    assert(nodes.to_multiset() == all.to_multiset());
}

proof fn lemma_frame_starts(nodes: Seq<MeterModel>, timestamp_ms: u32)
    ensures
        ({
            let frame = meter_frame(nodes, timestamp_ms);
            &&& frame.len() >= 6
            &&& frame[0] == 1
            &&& frame[1] == byte_count(nodes.len())
            &&& frame[2] + 0x100 * frame[3] + 0x1_0000 * frame[4] + 0x100_0000 * frame[5]
                == timestamp_ms
        }),
{
    let frame = meter_frame(nodes, timestamp_ms);
    let head = seq![1u8, byte_count(nodes.len())];
    let time = four_bytes(timestamp_ms);
    let levels = all_meter_bytes(nodes, byte_count(nodes.len()) as nat);
    assert(frame == head + time + levels);
    assert(head.len() == 2 && time.len() == 4);
    assert(frame[0] == head[0] && frame[1] == head[1]);
    assert(frame[2] == time[0] && frame[3] == time[1] && frame[4] == time[2] && frame[5]
        == time[3]);
}

/// The devices that are trusted are kept beside the configuration.
pub proof fn law_devices_are_kept_beside_the_configuration(
    directory: Seq<char>,
    name: Seq<char>,
)
    requires
        directory.len() > 0,
        crate::paths::is_separator(directory.last()),
        is_name(name),
    ensures
        devices_path(directory + name) == directory + "trusted-devices.json"@,
{
    law_files_stand_beside_each_other(directory, name, "trusted-devices.json"@);
}

} // verus!
