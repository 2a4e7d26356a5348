//! What the console asks for, and what it is answered.

pub mod laws;

use crate::arithmetic::is_unary;
use crate::decibels::Decibels;
use crate::editor::{EditModel, RouteEdit};
use crate::routing::{
    shown_gain, BusId, SendEnds, SendId, SendModel, SendSpec, SourceId,
};
use crate::service::error::service_fault_text;
use crate::service::state::{HubModel, StateHub};
use crate::text::joined;
use std::collections::{HashMap, VecDeque};
use vstd::prelude::*;

verus! {

/// How many answers a connection remembers.
pub const MAX_SEQ_CACHE: usize = 512;

/// A value that the console sends along.
#[derive(Debug, PartialEq, Eq)]
pub enum ControlValue {
    Text(String),
    /// A number, as a gain.
    Number(Decibels),
    Flag(bool),
    /// Anything else.
    Other,
}

/// What a `ControlValue` says.
#[verifier::ext_equal]
pub enum ValueModel {
    Text(Seq<char>),
    Number(Decibels),
    Flag(bool),
    Other,
}

impl View for ControlValue {
    type V = ValueModel;

    open spec fn view(&self) -> ValueModel {
        match *self {
            ControlValue::Text(text) => ValueModel::Text(text@),
            ControlValue::Number(number) => ValueModel::Number(number),
            ControlValue::Flag(flag) => ValueModel::Flag(flag),
            ControlValue::Other => ValueModel::Other,
        }
    }
}

/// A message of the console.
#[derive(Debug, PartialEq, Eq)]
pub struct ControlMessage {
    /// The number by which the answer is known.
    pub seq: u64,
    pub action: String,
    pub data: Vec<(String, ControlValue)>,
}

/// What a `ControlMessage` says.
#[verifier::ext_equal]
pub struct ControlModel {
    pub seq: u64,
    pub action: Seq<char>,
    pub data: Seq<(Seq<char>, ValueModel)>,
}

/// The fields of a message.
pub open spec fn field_models(data: Seq<(String, ControlValue)>) -> Seq<(Seq<char>, ValueModel)> {
    data.map_values(|f: (String, ControlValue)| (f.0@, f.1@))
}

impl View for ControlMessage {
    type V = ControlModel;

    open spec fn view(&self) -> ControlModel {
        ControlModel { seq: self.seq, action: self.action@, data: field_models(self.data@) }
    }
}

/// The value of the first field with a key.
pub open spec fn field(data: Seq<(Seq<char>, ValueModel)>, key: Seq<char>) -> Option<ValueModel>
    decreases data.len(),
{
    if data.len() == 0 {
        None
    } else if data[0].0 == key {
        Some(data[0].1)
    } else {
        field(data.skip(1), key)
    }
}

/// What is said of a field that is missing, or that is of another kind.
pub open spec fn missing(key: Seq<char>) -> Seq<char> {
    "缺少字段 "@ + key
}

/// The text of a field.
pub open spec fn text_field(data: Seq<(Seq<char>, ValueModel)>, key: Seq<char>) -> Result<
    Seq<char>,
    Seq<char>,
> {
    match field(data, key) {
        Some(ValueModel::Text(text)) => Ok(text),
        _ => Err(missing(key)),
    }
}

/// The number of a field.
pub open spec fn number_field(data: Seq<(Seq<char>, ValueModel)>, key: Seq<char>) -> Result<
    Decibels,
    Seq<char>,
> {
    match field(data, key) {
        Some(ValueModel::Number(number)) => Ok(number),
        _ => Err(missing(key)),
    }
}

/// The flag of a field.
pub open spec fn flag_field(data: Seq<(Seq<char>, ValueModel)>, key: Seq<char>) -> Result<
    bool,
    Seq<char>,
> {
    match field(data, key) {
        Some(ValueModel::Flag(flag)) => Ok(flag),
        _ => Err(missing(key)),
    }
}

/// The edit that a message asks for. The first field that is missing is told.
pub open spec fn edit_of(message: ControlModel) -> Result<EditModel, Seq<char>> {
    let data = message.data;
    if message.action == "set_send_gain"@ {
        match (text_field(data, "send_id"@), number_field(data, "gain_db"@)) {
            (Ok(send_id), Ok(gain_db)) => Ok(EditModel::SetSendGain { send_id, gain_db }),
            (Err(reason), _) => Err(reason),
            (_, Err(reason)) => Err(reason),
        }
    } else if message.action == "set_send_muted"@ {
        match (text_field(data, "send_id"@), flag_field(data, "muted"@)) {
            (Ok(send_id), Ok(muted)) => Ok(EditModel::SetSendMuted { send_id, muted }),
            (Err(reason), _) => Err(reason),
            (_, Err(reason)) => Err(reason),
        }
    } else if message.action == "set_send_enabled"@ {
        match (text_field(data, "send_id"@), flag_field(data, "enabled"@)) {
            (Ok(send_id), Ok(enabled)) => Ok(EditModel::SetSendEnabled { send_id, enabled }),
            (Err(reason), _) => Err(reason),
            (_, Err(reason)) => Err(reason),
        }
    } else if message.action == "add_send"@ {
        match (
            text_field(data, "send_id"@),
            text_field(data, "source_id"@),
            text_field(data, "output_channel_id"@),
        ) {
            (Ok(id), Ok(source_id), Ok(bus_id)) => Ok(
                EditModel::SetSend(
                    SendModel {
                        id,
                        ends: SendEnds::SourceToBus { source_id, bus_id },
                        gain_db: Decibels { bits: 0 },
                        muted: false,
                        enabled: true,
                        channel_map: Seq::empty(),
                    },
                ),
            ),
            (Err(reason), _, _) => Err(reason),
            (_, Err(reason), _) => Err(reason),
            (_, _, Err(reason)) => Err(reason),
        }
    } else {
        Err("未知 action: "@ + message.action)
    }
}

fn find_field<'a>(data: &'a Vec<(String, ControlValue)>, key: &str) -> (value: Option<
    &'a ControlValue,
>)
    ensures
        match value {
            Some(value) => field(field_models(data@), key@) == Some(value@),
            None => field(field_models(data@), key@) is None,
        },
{
    let ghost all = field_models(data@);
    let wanted = key.to_owned();
    assert(all.skip(0) =~= all);
    for i in 0..data.len()
        invariant
            all == field_models(data@),
            wanted@ == key@,
            field(all, key@) == field(all.skip(i as int), key@),
    {
        assert(all.skip(i as int)[0] == (data@[i as int].0@, data@[i as int].1@));
        assert(all.skip(i as int).skip(1) =~= all.skip(i + 1));
        if data[i].0 == wanted {
            return Some(&data[i].1);
        }
    }
    None
}

fn get_str(data: &Vec<(String, ControlValue)>, key: &str) -> (result: Result<String, String>)
    ensures
        match result {
            Ok(text) => text_field(field_models(data@), key@) == Ok::<Seq<char>, Seq<char>>(text@),
            Err(reason) => text_field(field_models(data@), key@) == Err::<Seq<char>, Seq<char>>(
                reason@,
            ),
        },
{
    match find_field(data, key) {
        Some(ControlValue::Text(text)) => Ok(text.clone()),
        _ => Err(joined("缺少字段 ", key)),
    }
}

fn get_number(data: &Vec<(String, ControlValue)>, key: &str) -> (result: Result<Decibels, String>)
    ensures
        match result {
            Ok(number) => number_field(field_models(data@), key@) == Ok::<Decibels, Seq<char>>(
                number,
            ),
            Err(reason) => number_field(field_models(data@), key@) == Err::<Decibels, Seq<char>>(
                reason@,
            ),
        },
{
    match find_field(data, key) {
        Some(ControlValue::Number(number)) => Ok(*number),
        _ => Err(joined("缺少字段 ", key)),
    }
}

fn get_bool(data: &Vec<(String, ControlValue)>, key: &str) -> (result: Result<bool, String>)
    ensures
        match result {
            Ok(flag) => flag_field(field_models(data@), key@) == Ok::<bool, Seq<char>>(flag),
            Err(reason) => flag_field(field_models(data@), key@) == Err::<bool, Seq<char>>(
                reason@,
            ),
        },
{
    match find_field(data, key) {
        Some(ControlValue::Flag(flag)) => Ok(*flag),
        _ => Err(joined("缺少字段 ", key)),
    }
}

/// Whether a result says what a model says.
pub open spec fn same_edit(
    result: Result<RouteEdit, String>,
    model: Result<EditModel, Seq<char>>,
) -> bool {
    match (result, model) {
        (Ok(edit), Ok(wanted)) => edit@ == wanted,
        (Err(reason), Err(wanted)) => reason@ == wanted,
        _ => false,
    }
}

/// The edit that a message asks for.
pub fn control_to_edit(message: &ControlMessage) -> (result: Result<RouteEdit, String>)
    ensures
        same_edit(result, edit_of(message@)),
{
    let data = &message.data;
    if message.action == "set_send_gain".to_owned() {
        match get_str(data, "send_id") {
            Ok(send_id) => match get_number(data, "gain_db") {
                Ok(gain_db) => Ok(RouteEdit::SetSendGain { send_id: SendId(send_id), gain_db }),
                Err(reason) => Err(reason),
            },
            Err(reason) => Err(reason),
        }
    } else if message.action == "set_send_muted".to_owned() {
        match get_str(data, "send_id") {
            Ok(send_id) => match get_bool(data, "muted") {
                Ok(muted) => Ok(RouteEdit::SetSendMuted { send_id: SendId(send_id), muted }),
                Err(reason) => Err(reason),
            },
            Err(reason) => Err(reason),
        }
    } else if message.action == "set_send_enabled".to_owned() {
        match get_str(data, "send_id") {
            Ok(send_id) => match get_bool(data, "enabled") {
                Ok(enabled) => Ok(
                    RouteEdit::SetSendEnabled { send_id: SendId(send_id), enabled },
                ),
                Err(reason) => Err(reason),
            },
            Err(reason) => Err(reason),
        }
    } else if message.action == "add_send".to_owned() {
        let id = match get_str(data, "send_id") {
            Ok(id) => id,
            Err(reason) => {
                return Err(reason);
            },
        };
        let source_id = match get_str(data, "source_id") {
            Ok(source_id) => source_id,
            Err(reason) => {
                return Err(reason);
            },
        };
        let bus_id = match get_str(data, "output_channel_id") {
            Ok(bus_id) => bus_id,
            Err(reason) => {
                return Err(reason);
            },
        };
        let send = SendSpec::SourceToBus {
            id: SendId(id),
            source_id: SourceId(source_id),
            bus_id: BusId(bus_id),
            gain_db: Decibels { bits: 0 },
            muted: false,
            enabled: true,
            channel_map: Vec::new(),
        };
        assert(send@.channel_map =~= Seq::empty());
        Ok(RouteEdit::SetSend(send))
    } else {
        Err(joined("未知 action: ", message.action.as_str()))
    }
}

/// The answers that a connection remembers, the oldest first.
#[derive(Debug)]
pub struct SeqCache {
    responses: HashMap<u64, String>,
    order: VecDeque<u64>,
}

/// The answers in their order.
pub open spec fn remembered(order: Seq<u64>, responses: Map<u64, String>) -> Seq<(u64, Seq<char>)> {
    order.map_values(|seq: u64| (seq, responses[seq]@))
}

impl View for SeqCache {
    type V = Seq<(u64, Seq<char>)>;

    closed spec fn view(&self) -> Seq<(u64, Seq<char>)> {
        remembered(self.order@, self.responses@)
    }
}

/// The answer that was given under a number.
pub open spec fn answer_to(answers: Seq<(u64, Seq<char>)>, seq: u64) -> Option<Seq<char>>
    decreases answers.len(),
{
    if answers.len() == 0 {
        None
    } else if answers.last().0 == seq {
        Some(answers.last().1)
    } else {
        answer_to(answers.drop_last(), seq)
    }
}

/// The answers with another one. The oldest is forgotten where there are too many.
pub open spec fn with_answer(answers: Seq<(u64, Seq<char>)>, seq: u64, text: Seq<char>) -> Seq<
    (u64, Seq<char>),
> {
    if answer_to(answers, seq) is Some {
        answers
    } else {
        let more = answers.push((seq, text));
        if more.len() > MAX_SEQ_CACHE {
            more.skip(1)
        } else {
            more
        }
    }
}

proof fn lemma_answer_to(order: Seq<u64>, responses: Map<u64, String>, seq: u64)
    ensures
        order.contains(seq) ==> answer_to(remembered(order, responses), seq) == Some(
            responses[seq]@,
        ),
        !order.contains(seq) ==> answer_to(remembered(order, responses), seq) is None,
    decreases order.len(),
{
    if order.len() > 0 {
        let init = order.drop_last();
        assert(remembered(order, responses).drop_last() =~= remembered(init, responses));
        lemma_answer_to(init, responses, seq);
        if order.contains(seq) && order.last() != seq {
            let i = choose|i: int| 0 <= i < order.len() && order[i] == seq;
            assert(init[i] == seq);
        }
        if init.contains(seq) {
            let i = choose|i: int| 0 <= i < init.len() && init[i] == seq;
            assert(order[i] == seq);
        }
        assert(order[order.len() - 1] == order.last());
    }
}

impl SeqCache {
    /// Whether each number stands once in the order and has an answer, and nothing else
    /// has one.
    pub closed spec fn wf(self) -> bool {
        &&& self.order@.no_duplicates()
        &&& self.order@.len() <= MAX_SEQ_CACHE
        &&& forall|seq: u64| #[trigger]
            self.responses@.dom().contains(seq) <==> self.order@.contains(seq)
    }

    /// Nothing is remembered.
    pub fn new() -> (cache: Self)
        ensures
            cache.wf(),
            cache@ == Seq::<(u64, Seq<char>)>::empty(),
    {
        broadcast use vstd::std_specs::hash::group_hash_axioms;

        let cache = SeqCache { responses: HashMap::new(), order: VecDeque::new() };
        assert(cache@ =~= Seq::<(u64, Seq<char>)>::empty());
        cache
    }

    /// How many answers are remembered.
    pub fn len(&self) -> (count: usize)
        ensures
            count == self@.len(),
    {
        self.order.len()
    }

    /// The answer that was given under a number.
    pub fn get(&self, seq: &u64) -> (text: Option<&String>)
        requires
            self.wf(),
        ensures
            match text {
                Some(text) => answer_to(self@, *seq) == Some(text@),
                None => answer_to(self@, *seq) is None,
            },
    {
        broadcast use vstd::std_specs::hash::group_hash_axioms;

        proof {
            lemma_answer_to(self.order@, self.responses@, *seq);
            assert(self.responses@.dom().contains(*seq) <==> self.order@.contains(*seq));
        }
        self.responses.get(seq)
    }

    /// Remembers an answer. One that was given under the same number stays.
    pub fn insert(&mut self, seq: u64, response: String)
        requires
            old(self).wf(),
        ensures
            final(self).wf(),
            final(self)@ == with_answer(old(self)@, seq, response@),
            final(self)@.len() <= MAX_SEQ_CACHE,
    {
        broadcast use vstd::std_specs::hash::group_hash_axioms;

        let ghost before = self@;
        let ghost order = self.order@;
        let ghost responses = self.responses@;
        proof {
            lemma_answer_to(order, responses, seq);
            assert(responses.dom().contains(seq) <==> order.contains(seq));
        }
        if self.responses.contains_key(&seq) {
            return;
        }
        self.responses.insert(seq, response);
        self.order.push_back(seq);
        assert(self@ =~= before.push((seq, response@))) by {
            assert forall|i: int| 0 <= i < order.len() implies #[trigger] order[i] != seq by {
                assert(order.contains(order[i]));
            }
        }
        assert forall|other: u64| #[trigger]
            self.responses@.dom().contains(other) <==> self.order@.contains(other) by {
            lemma_pushed(order, seq, other);
            assert(responses.dom().contains(other) <==> order.contains(other));
        }
        assert(self.order@.no_duplicates());
        if self.order.len() > MAX_SEQ_CACHE {
            let ghost longer = self.order@;
            let ghost answers = self.responses@;
            let ghost pushed = self@;
            if let Some(oldest) = self.order.pop_front() {
                self.responses.remove(&oldest);
                proof {
                    let left = self.order@;
                    assert(left =~= longer.skip(1));
                    assert(self@ =~= pushed.skip(1)) by {
                        assert forall|i: int| 0 <= i < left.len() implies #[trigger] left[i]
                            != oldest by {
                            assert(longer[i + 1] != longer[0]);
                        }
                    }
                    assert forall|other: u64| #[trigger]
                        self.responses@.dom().contains(other) <==> left.contains(other) by {
                        lemma_rest(longer, other);
                        assert(answers.dom().contains(other) <==> longer.contains(other));
                    }
                    assert(left.no_duplicates()) by {
                        assert forall|i: int, j: int|
                            0 <= i < left.len() && 0 <= j < left.len() && i
                                != j implies left[i] != left[j] by {
                            assert(longer[i + 1] != longer[j + 1]);
                        }
                    }
                }
            }
        }
    }
}

proof fn lemma_pushed(order: Seq<u64>, last: u64, seq: u64)
    ensures
        order.push(last).contains(seq) <==> order.contains(seq) || seq == last,
{
    let longer = order.push(last);
    if longer.contains(seq) {
        let i = choose|i: int| 0 <= i < longer.len() && longer[i] == seq;
        if i < order.len() {
            assert(order[i] == seq);
        }
    }
    if order.contains(seq) {
        let i = choose|i: int| 0 <= i < order.len() && order[i] == seq;
        assert(longer[i] == seq);
    }
    assert(longer[order.len() as int] == last);
}

proof fn lemma_rest(order: Seq<u64>, seq: u64)
    requires
        order.len() > 0,
        order.no_duplicates(),
    ensures
        order.skip(1).contains(seq) <==> order.contains(seq) && seq != order[0],
{
    let rest = order.skip(1);
    if rest.contains(seq) {
        let i = choose|i: int| 0 <= i < rest.len() && rest[i] == seq;
        assert(order[i + 1] == seq);
    }
    if order.contains(seq) && seq != order[0] {
        let i = choose|i: int| 0 <= i < order.len() && order[i] == seq;
        assert(rest[i - 1] == seq);
    }
}

/// The text of a JSON object with numbers and texts in it.
pub uninterp spec fn json_object_text(
    numbers: Seq<(Seq<char>, u64)>,
    texts: Seq<(Seq<char>, Seq<char>)>,
) -> Seq<char>;

/// The numbers of an object.
pub open spec fn number_entries(entries: Seq<(&str, u64)>) -> Seq<(Seq<char>, u64)> {
    entries.map_values(|e: (&str, u64)| (e.0@, e.1))
}

/// The texts of an object.
pub open spec fn text_entries(entries: Seq<(&str, &str)>) -> Seq<(Seq<char>, Seq<char>)> {
    entries.map_values(|e: (&str, &str)| (e.0@, e.1@))
}

/// Calls `serde_json::Value::to_string` on an object with the given entries.
#[verifier::external_body]
fn json_object(numbers: &[(&str, u64)], texts: &[(&str, &str)]) -> (text: String)
    ensures
        text@ == json_object_text(number_entries(numbers@), text_entries(texts@)),
{
    let mut object = serde_json::Map::new();
    for (key, number) in numbers {
        object.insert((*key).to_owned(), serde_json::Value::from(*number));
    }
    for (key, text) in texts {
        object.insert((*key).to_owned(), serde_json::Value::from(*text));
    }
    serde_json::Value::Object(object).to_string()
}

/// The answer to a message that cannot be read.
pub open spec fn unreadable_answer(reason: Seq<char>) -> Seq<char> {
    json_object_text(
        Seq::empty(),
        seq![("error"@, "invalid_json"@), ("message"@, "消息解析失败: "@ + reason)],
    )
}

/// The answer to a message that was carried out.
pub open spec fn accepted_answer(message: ControlModel) -> Seq<char> {
    json_object_text(seq![("seq"@, message.seq)], seq![("ack"@, message.action)])
}

/// The answer to a message that was refused.
pub open spec fn refused_answer(message: ControlModel, reason: Seq<char>) -> Seq<char> {
    json_object_text(
        seq![("seq"@, message.seq)],
        seq![("error"@, "rejected"@), ("message"@, reason)],
    )
}

/// Why a message is refused, if it is.
pub open spec fn refusal<B, W>(
    hub: HubModel<B, W>,
    message: ControlModel,
    shown: spec_fn(Decibels) -> Seq<char>,
) -> Option<Seq<char>> {
    match edit_of(message) {
        Ok(edit) => match hub.route_fault(edit) {
            Some(fault) => Some(service_fault_text(fault, shown)),
            None => None,
        },
        Err(reason) => Some(reason),
    }
}

/// The answer to a message that was not answered before.
pub open spec fn first_answer<B, W>(
    hub: HubModel<B, W>,
    message: ControlModel,
    shown: spec_fn(Decibels) -> Seq<char>,
) -> Seq<char> {
    match refusal(hub, message, shown) {
        Some(reason) => refused_answer(message, reason),
        None => accepted_answer(message),
    }
}

/// What is known after a message that was not answered before.
pub open spec fn after_message<B, W>(hub: HubModel<B, W>, message: ControlModel) -> HubModel<B, W> {
    match edit_of(message) {
        Ok(edit) => hub.edited(edit),
        Err(_) => hub,
    }
}

fn answer_unreadable(reason: &str) -> (text: String)
    ensures
        text@ == unreadable_answer(reason@),
{
    let message = joined("消息解析失败: ", reason);
    let numbers: [(&str, u64); 0] = [];
    let texts = [("error", "invalid_json"), ("message", message.as_str())];
    assert(number_entries(numbers@) =~= Seq::empty());
    assert(text_entries(texts@) =~= seq![
        ("error"@, "invalid_json"@),
        ("message"@, "消息解析失败: "@ + reason@),
    ]);
    json_object(&numbers, &texts)
}

fn answer_accepted(message: &ControlMessage) -> (text: String)
    ensures
        text@ == accepted_answer(message@),
{
    let numbers = [("seq", message.seq)];
    let texts = [("ack", message.action.as_str())];
    assert(number_entries(numbers@) =~= seq![("seq"@, message@.seq)]);
    assert(text_entries(texts@) =~= seq![("ack"@, message@.action)]);
    json_object(&numbers, &texts)
}

fn answer_refused(message: &ControlMessage, reason: &str) -> (text: String)
    ensures
        text@ == refused_answer(message@, reason@),
{
    let numbers = [("seq", message.seq)];
    let texts = [("error", "rejected"), ("message", reason)];
    assert(number_entries(numbers@) =~= seq![("seq"@, message@.seq)]);
    assert(text_entries(texts@) =~= seq![("error"@, "rejected"@), ("message"@, reason@)]);
    json_object(&numbers, &texts)
}

/// Carries out a message, and says what it is answered. A message that could not be read
/// is told so. A number that was answered before is answered the same again, and nothing
/// is done. `show_gain` writes a gain as a number.
pub fn handle_control<B, W, F: Fn(Decibels) -> String>(
    hub: &mut StateHub<B, W>,
    message: Result<ControlMessage, String>,
    cache: &mut SeqCache,
    show_gain: &F,
) -> (answer: Option<String>)
    requires
        old(cache).wf(),
        is_unary::<Decibels, String, F>(*show_gain),
    ensures
        final(cache).wf(),
        answer is Some,
        match message {
            Err(reason) => {
                &&& answer->Some_0@ == unreadable_answer(reason@)
                &&& final(hub)@ == old(hub)@
                &&& final(cache)@ == old(cache)@
            },
            Ok(message) => match answer_to(old(cache)@, message.seq) {
                Some(text) => {
                    &&& answer->Some_0@ == text
                    &&& final(hub)@ == old(hub)@
                    &&& final(cache)@ == old(cache)@
                },
                None => {
                    let text = first_answer(old(hub)@, message@, shown_gain(*show_gain));
                    &&& answer->Some_0@ == text
                    &&& final(hub)@ == after_message(old(hub)@, message@)
                    &&& final(cache)@ == with_answer(old(cache)@, message.seq, text)
                },
            },
        },
{
    let asked = match message {
        Ok(asked) => asked,
        Err(reason) => {
            return Some(answer_unreadable(reason.as_str()));
        },
    };
    match cache.get(&asked.seq) {
        Some(text) => {
            return Some(text.clone());
        },
        None => {},
    }
    let response = match control_to_edit(&asked) {
        Ok(edit) => match hub.apply_route_edit(edit) {
            Ok(_) => answer_accepted(&asked),
            Err(error) => answer_refused(&asked, error.message(show_gain).as_str()),
        },
        Err(reason) => answer_refused(&asked, reason.as_str()),
    };
    cache.insert(asked.seq, response.clone());
    Some(response)
}

/// A number that was answered is answered the same again while it is remembered.
pub proof fn law_answer_is_remembered(answers: Seq<(u64, Seq<char>)>, seq: u64, text: Seq<char>)
    ensures
        answer_to(answers, seq) is None ==> answer_to(with_answer(answers, seq, text), seq)
            == Some(text),
        answer_to(answers, seq) is Some ==> answer_to(with_answer(answers, seq, text), seq)
            == answer_to(answers, seq),
{
    let more = answers.push((seq, text));
    if answer_to(answers, seq) is None {
        assert(more.drop_last() =~= answers);
        if more.len() > MAX_SEQ_CACHE {
            assert(more.skip(1).last() == more.last());
        }
    }
}

/// A message that is refused changes nothing, and is answered with an error.
pub proof fn law_refused_message_changes_nothing<B, W>(
    hub: HubModel<B, W>,
    message: ControlModel,
    shown: spec_fn(Decibels) -> Seq<char>,
)
    requires
        refusal(hub, message, shown) is Some,
    ensures
        after_message(hub, message) == hub,
        first_answer(hub, message, shown) == refused_answer(
            message,
            refusal(hub, message, shown)->Some_0,
        ),
{
}

} // verus!
