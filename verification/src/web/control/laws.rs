//! What a message of the console does to the routes, said of its fields and of the graph.

use crate::decibels::Decibels;
use crate::editor::laws::{
    gained, law_set_send_is_there, law_setting_is_what_the_send_has, replaced, same_nodes,
};
use crate::routing::{SendEnds, SendModel};
use crate::service::state::HubModel;
use crate::web::control::{
    after_message, answer_to, edit_of, field, first_answer, json_object_text, refusal,
    with_answer, ControlModel, ValueModel,
};
use vstd::prelude::*;

verus! {

/// Whether a message holds one field of the key, with the value.
pub open spec fn says(message: ControlModel, key: Seq<char>, value: ValueModel) -> bool {
    exists|i: int|
        0 <= i < message.data.len() && #[trigger] message.data[i] == (key, value) && forall|j: int|
            0 <= j < message.data.len() && j != i ==> (#[trigger] message.data[j]).0 != key
}

/// Whether a message holds no field of the key.
pub open spec fn is_silent_on(message: ControlModel, key: Seq<char>) -> bool {
    forall|j: int| 0 <= j < message.data.len() ==> (#[trigger] message.data[j]).0 != key
}

proof fn lemma_field_is_found(data: Seq<(Seq<char>, ValueModel)>, key: Seq<char>, i: int)
    requires
        0 <= i < data.len(),
        data[i].0 == key,
        forall|j: int| 0 <= j < data.len() && j != i ==> (#[trigger] data[j]).0 != key,
    ensures
        field(data, key) == Some(data[i].1),
    decreases data.len(),
{
    if i > 0 {
        let rest = data.skip(1);
        assert(data[0].0 != key);
        assert(rest[i - 1] == data[i]);
        assert forall|j: int| 0 <= j < rest.len() && j != i - 1 implies (#[trigger] rest[j]).0
            != key by {
            assert(rest[j] == data[j + 1]);
        }
        lemma_field_is_found(rest, key, i - 1);
    }
}

proof fn lemma_field_is_missing(data: Seq<(Seq<char>, ValueModel)>, key: Seq<char>)
    requires
        forall|j: int| 0 <= j < data.len() ==> (#[trigger] data[j]).0 != key,
    ensures
        field(data, key) is None,
    decreases data.len(),
{
    if data.len() > 0 {
        let rest = data.skip(1);
        assert(data[0].0 != key);
        assert forall|j: int| 0 <= j < rest.len() implies (#[trigger] rest[j]).0 != key by {
            assert(rest[j] == data[j + 1]);
        }
        lemma_field_is_missing(rest, key);
    }
}

proof fn lemma_says(message: ControlModel, key: Seq<char>, value: ValueModel)
    requires
        says(message, key, value),
    ensures
        field(message.data, key) == Some(value),
{
    let i = choose|i: int|
        0 <= i < message.data.len() && #[trigger] message.data[i] == (key, value) && forall|j: int|
            0 <= j < message.data.len() && j != i ==> (#[trigger] message.data[j]).0 != key;
    lemma_field_is_found(message.data, key, i);
}

proof fn lemma_actions_differ()
    ensures
        "set_send_gain"@ != "set_send_muted"@,
        "set_send_gain"@ != "set_send_enabled"@,
        "set_send_gain"@ != "add_send"@,
        "set_send_muted"@ != "set_send_enabled"@,
        "set_send_muted"@ != "add_send"@,
        "set_send_enabled"@ != "add_send"@,
{
    reveal_strlit("set_send_gain");
    reveal_strlit("set_send_muted");
    reveal_strlit("set_send_enabled");
    reveal_strlit("add_send");
    assert("set_send_gain"@.len() == 13);
    assert("set_send_muted"@.len() == 14);
    assert("set_send_enabled"@.len() == 16);
    assert("add_send"@.len() == 8);
}

/// Whether nothing but the graph, the engine behind it and the revision differs.
pub open spec fn same_but_routes<B, W>(before: HubModel<B, W>, after: HubModel<B, W>) -> bool {
    &&& after.config_path == before.config_path
    &&& after.settings == before.settings
    &&& after.identity == before.identity
    &&& after.discovery == before.discovery
    &&& after.bridge == before.bridge
    &&& after.web == before.web
    &&& after.auth == before.auth
    &&& after.monitor_taps == before.monitor_taps
}

/// A message that mutes a send, or takes the mute back, does what it says: the send has the
/// mute of the message, and nothing else in the graph changes.
pub proof fn law_mute_of_the_message_is_set<B, W>(
    hub: HubModel<B, W>,
    message: ControlModel,
    shown: spec_fn(Decibels) -> Seq<char>,
    id: Seq<char>,
    muted: bool,
    k: int,
)
    requires
        message.action == "set_send_muted"@,
        says(message, "send_id"@, ValueModel::Text(id)),
        says(message, "muted"@, ValueModel::Flag(muted)),
        0 <= k < hub.editor.sends.len(),
        hub.editor.sends[k].id == id,
        forall|i: int|
            0 <= i < hub.editor.sends.len() && i != k ==> (#[trigger] hub.editor.sends[i]).id != id,
        refusal(hub, message, shown) is None,
    ensures
        ({
            let after = after_message(hub, message);
            let send = hub.editor.sends[k];
            &&& same_nodes(hub.editor, after.editor)
            &&& replaced(
                hub.editor.sends,
                after.editor.sends,
                k,
                SendModel {
                    id,
                    ends: send.ends,
                    gain_db: send.gain_db,
                    muted,
                    enabled: send.enabled,
                    channel_map: send.channel_map,
                },
            )
            &&& same_but_routes(hub, after)
        }),
{
    lemma_actions_differ();
    lemma_says(message, "send_id"@, ValueModel::Text(id));
    lemma_says(message, "muted"@, ValueModel::Flag(muted));
    law_setting_is_what_the_send_has(
        hub.editor,
        id,
        hub.editor.sends[k].gain_db,
        muted,
        Seq::empty(),
        k,
    );
}

/// A message that switches a send on or off does what it says, and nothing else in the graph
/// changes.
pub proof fn law_switch_of_the_message_is_set<B, W>(
    hub: HubModel<B, W>,
    message: ControlModel,
    shown: spec_fn(Decibels) -> Seq<char>,
    id: Seq<char>,
    enabled: bool,
    k: int,
)
    requires
        message.action == "set_send_enabled"@,
        says(message, "send_id"@, ValueModel::Text(id)),
        says(message, "enabled"@, ValueModel::Flag(enabled)),
        0 <= k < hub.editor.sends.len(),
        hub.editor.sends[k].id == id,
        forall|i: int|
            0 <= i < hub.editor.sends.len() && i != k ==> (#[trigger] hub.editor.sends[i]).id != id,
        refusal(hub, message, shown) is None,
    ensures
        ({
            let after = after_message(hub, message);
            let send = hub.editor.sends[k];
            &&& same_nodes(hub.editor, after.editor)
            &&& replaced(
                hub.editor.sends,
                after.editor.sends,
                k,
                SendModel {
                    id,
                    ends: send.ends,
                    gain_db: send.gain_db,
                    muted: send.muted,
                    enabled,
                    channel_map: send.channel_map,
                },
            )
            &&& same_but_routes(hub, after)
        }),
{
    lemma_actions_differ();
    lemma_says(message, "send_id"@, ValueModel::Text(id));
    lemma_says(message, "enabled"@, ValueModel::Flag(enabled));
    law_setting_is_what_the_send_has(
        hub.editor,
        id,
        hub.editor.sends[k].gain_db,
        enabled,
        Seq::empty(),
        k,
    );
}

/// A message that sets the gain of a send does what it says, and nothing else in the graph
/// changes.
pub proof fn law_gain_of_the_message_is_set<B, W>(
    hub: HubModel<B, W>,
    message: ControlModel,
    shown: spec_fn(Decibels) -> Seq<char>,
    id: Seq<char>,
    gain_db: Decibels,
    k: int,
)
    requires
        message.action == "set_send_gain"@,
        says(message, "send_id"@, ValueModel::Text(id)),
        says(message, "gain_db"@, ValueModel::Number(gain_db)),
        0 <= k < hub.editor.sends.len(),
        hub.editor.sends[k].id == id,
        forall|i: int|
            0 <= i < hub.editor.sends.len() && i != k ==> (#[trigger] hub.editor.sends[i]).id != id,
        refusal(hub, message, shown) is None,
    ensures
        ({
            let after = after_message(hub, message);
            let send = hub.editor.sends[k];
            &&& same_nodes(hub.editor, after.editor)
            &&& replaced(
                hub.editor.sends,
                after.editor.sends,
                k,
                SendModel {
                    id,
                    ends: send.ends,
                    gain_db,
                    muted: send.muted,
                    enabled: send.enabled,
                    channel_map: send.channel_map,
                },
            )
            &&& same_but_routes(hub, after)
        }),
{
    lemma_actions_differ();
    lemma_says(message, "send_id"@, ValueModel::Text(id));
    lemma_says(message, "gain_db"@, ValueModel::Number(gain_db));
    law_setting_is_what_the_send_has(hub.editor, id, gain_db, true, Seq::empty(), k);
}

/// A message that adds a send joins the source that it names to the output that it names: at
/// 0 dB, audible, switched on, with equal channels joined. It takes the place of a send of its
/// identifier, or stands behind the others.
pub proof fn law_send_of_the_message_is_added<B, W>(
    hub: HubModel<B, W>,
    message: ControlModel,
    shown: spec_fn(Decibels) -> Seq<char>,
    id: Seq<char>,
    source_id: Seq<char>,
    bus_id: Seq<char>,
)
    requires
        message.action == "add_send"@,
        says(message, "send_id"@, ValueModel::Text(id)),
        says(message, "source_id"@, ValueModel::Text(source_id)),
        says(message, "output_channel_id"@, ValueModel::Text(bus_id)),
        refusal(hub, message, shown) is None,
    ensures
        ({
            let after = after_message(hub, message);
            let added = SendModel {
                id,
                ends: SendEnds::SourceToBus { source_id, bus_id },
                gain_db: Decibels { bits: 0 },
                muted: false,
                enabled: true,
                channel_map: Seq::empty(),
            };
            &&& same_nodes(hub.editor, after.editor)
            &&& if exists|i: int|
                0 <= i < hub.editor.sends.len() && (#[trigger] hub.editor.sends[i]).id == id {
                exists|i: int|
                    #![trigger hub.editor.sends[i]]
                    hub.editor.sends[i].id == id && replaced(
                        hub.editor.sends,
                        after.editor.sends,
                        i,
                        added,
                    )
            } else {
                gained(hub.editor.sends, after.editor.sends, added)
            }
            &&& after.engine == hub.engine
            &&& same_but_routes(hub, after)
        }),
{
    lemma_actions_differ();
    lemma_says(message, "send_id"@, ValueModel::Text(id));
    lemma_says(message, "source_id"@, ValueModel::Text(source_id));
    lemma_says(message, "output_channel_id"@, ValueModel::Text(bus_id));
    law_set_send_is_there(
        hub.editor,
        SendModel {
            id,
            ends: SendEnds::SourceToBus { source_id, bus_id },
            gain_db: Decibels { bits: 0 },
            muted: false,
            enabled: true,
            channel_map: Seq::empty(),
        },
    );
}

/// Whether an answer names a message's number and why the message is refused.
pub open spec fn tells_refusal(answer: Seq<char>, number: u64, reason: Seq<char>) -> bool {
    answer == json_object_text(
        seq![("seq"@, number)],
        seq![("error"@, "rejected"@), ("message"@, reason)],
    )
}

/// A message of another action, or one that lacks a field that it needs, is refused: nothing
/// changes, and the answer names the message's number and the reason.
pub proof fn law_incomplete_message_is_refused<B, W>(
    hub: HubModel<B, W>,
    message: ControlModel,
    shown: spec_fn(Decibels) -> Seq<char>,
)
    requires
        ({
            ||| message.action != "set_send_gain"@ && message.action != "set_send_muted"@
                && message.action != "set_send_enabled"@ && message.action != "add_send"@
            ||| is_silent_on(message, "send_id"@)
            ||| message.action == "set_send_gain"@ && is_silent_on(message, "gain_db"@)
            ||| message.action == "set_send_muted"@ && is_silent_on(message, "muted"@)
            ||| message.action == "set_send_enabled"@ && is_silent_on(message, "enabled"@)
            ||| message.action == "add_send"@ && is_silent_on(message, "source_id"@)
            ||| message.action == "add_send"@ && is_silent_on(message, "output_channel_id"@)
        }),
    ensures
        after_message(hub, message) == hub,
        exists|reason: Seq<char>| #[trigger]
            tells_refusal(first_answer(hub, message, shown), message.seq, reason),
{
    lemma_actions_differ();
    if is_silent_on(message, "send_id"@) {
        lemma_field_is_missing(message.data, "send_id"@);
    }
    if is_silent_on(message, "gain_db"@) {
        lemma_field_is_missing(message.data, "gain_db"@);
    }
    if is_silent_on(message, "muted"@) {
        lemma_field_is_missing(message.data, "muted"@);
    }
    if is_silent_on(message, "enabled"@) {
        lemma_field_is_missing(message.data, "enabled"@);
    }
    if is_silent_on(message, "source_id"@) {
        lemma_field_is_missing(message.data, "source_id"@);
    }
    if is_silent_on(message, "output_channel_id"@) {
        lemma_field_is_missing(message.data, "output_channel_id"@);
    }
    let reason = edit_of(message)->Err_0;
    assert(tells_refusal(first_answer(hub, message, shown), message.seq, reason));
}

/// A message that is carried out is answered with its number and its action, and one that is
/// refused with its number and the reason; then nothing has changed.
pub proof fn law_answer_says_what_was_done<B, W>(
    hub: HubModel<B, W>,
    message: ControlModel,
    shown: spec_fn(Decibels) -> Seq<char>,
)
    ensures
        match refusal(hub, message, shown) {
            None => first_answer(hub, message, shown) == json_object_text(
                seq![("seq"@, message.seq)],
                seq![("ack"@, message.action)],
            ),
            Some(reason) => first_answer(hub, message, shown) == json_object_text(
                seq![("seq"@, message.seq)],
                seq![("error"@, "rejected"@), ("message"@, reason)],
            ) && after_message(hub, message) == hub,
        },
{
}

/// Answers stay remembered as long as there are no more than 512: a new one is remembered, and
/// the others still are. Where there are more, the oldest is forgotten and no other one.
pub proof fn law_recent_answers_are_remembered(
    answers: Seq<(u64, Seq<char>)>,
    seq: u64,
    text: Seq<char>,
    i: int,
)
    requires
        0 <= i < answers.len() <= 512,
        forall|a: int, b: int|
            0 <= a < b < answers.len() ==> (#[trigger] answers[a]).0 != (#[trigger] answers[b]).0,
        forall|a: int| 0 <= a < answers.len() ==> (#[trigger] answers[a]).0 != seq,
    ensures
        ({
            let after = with_answer(answers, seq, text);
            &&& answer_to(after, seq) == Some(text)
            &&& answers.len() < 512 || i > 0 ==> answer_to(after, answers[i].0) == Some(answers[i].1)
            &&& answers.len() == 512 && i == 0 ==> answer_to(after, answers[i].0) is None
        }),
{
    lemma_no_answer(answers, seq);
    let more = answers.push((seq, text));
    let after = with_answer(answers, seq, text);
    if answers.len() < 512 {
        lemma_answer_at(after, after.len() - 1);
        lemma_answer_at(after, i);
    } else {
        assert forall|a: int, b: int| 0 <= a < b < after.len() implies (#[trigger] after[a]).0 != (
        #[trigger] after[b]).0 by {
            assert(after[a] == more[a + 1] && after[b] == more[b + 1]);
            if b + 1 < answers.len() {
                assert(answers[a + 1].0 != answers[b + 1].0);
            } else {
                assert(answers[a + 1].0 != seq);
            }
        }
        lemma_answer_at(after, after.len() - 1);
        if i > 0 {
            assert(after[i - 1] == answers[i]);
            lemma_answer_at(after, i - 1);
        } else {
            assert forall|a: int| 0 <= a < after.len() implies (#[trigger] after[a]).0
                != answers[0].0 by {
                assert(after[a] == more[a + 1]);
                if a + 1 < answers.len() {
                    assert(answers[0].0 != answers[a + 1].0);
                }
            }
            lemma_no_answer(after, answers[0].0);
        }
    }
}

proof fn lemma_no_answer(answers: Seq<(u64, Seq<char>)>, seq: u64)
    requires
        forall|a: int| 0 <= a < answers.len() ==> (#[trigger] answers[a]).0 != seq,
    ensures
        answer_to(answers, seq) is None,
    decreases answers.len(),
{
    if answers.len() > 0 {
        let init = answers.drop_last();
        assert(answers.last() == answers[answers.len() - 1]);
        assert forall|a: int| 0 <= a < init.len() implies (#[trigger] init[a]).0 != seq by {
            assert(init[a] == answers[a]);
        }
        lemma_no_answer(init, seq);
    }
}

proof fn lemma_answer_at(answers: Seq<(u64, Seq<char>)>, i: int)
    requires
        0 <= i < answers.len(),
        forall|a: int, b: int|
            0 <= a < b < answers.len() ==> (#[trigger] answers[a]).0 != (#[trigger] answers[b]).0,
    ensures
        answer_to(answers, answers[i].0) == Some(answers[i].1),
    decreases answers.len(),
{
    if i < answers.len() - 1 {
        let init = answers.drop_last();
        assert(answers.last() == answers[answers.len() - 1]);
        assert(answers[i].0 != answers[answers.len() - 1].0);
        assert(init[i] == answers[i]);
        assert forall|a: int, b: int| 0 <= a < b < init.len() implies (#[trigger] init[a]).0 != (
        #[trigger] init[b]).0 by {
            assert(init[a] == answers[a] && init[b] == answers[b]);
        }
        lemma_answer_at(init, i);
    }
}

/// Where there is no engine that could refuse it, a message about a send of a sound graph is
/// carried out exactly where the send is there.
pub proof fn law_message_about_a_send_is_carried_out<B, W>(
    hub: HubModel<B, W>,
    message: ControlModel,
    shown: spec_fn(Decibels) -> Seq<char>,
    id: Seq<char>,
    muted: bool,
)
    requires
        crate::routing::laws::is_sound(hub.editor),
        hub.engine is None,
        message.action == "set_send_muted"@,
        says(message, "send_id"@, ValueModel::Text(id)),
        says(message, "muted"@, ValueModel::Flag(muted)),
    ensures
        refusal(hub, message, shown) is None <==> exists|i: int|
            0 <= i < hub.editor.sends.len() && (#[trigger] hub.editor.sends[i]).id == id,
{
    lemma_actions_differ();
    lemma_says(message, "send_id"@, ValueModel::Text(id));
    lemma_says(message, "muted"@, ValueModel::Flag(muted));
    crate::editor::laws::law_settings_are_accepted(
        hub.editor,
        id,
        Decibels { bits: 0 },
        muted,
        Seq::empty(),
    );
}

} // verus!
