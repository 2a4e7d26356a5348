//! How this machine is known in the network.

use crate::text::{
    chars_of, decimal, decimal_text, hex_text, joined, law_decimal_reads_back, number_in,
    parse_number, text_of,
};
use crate::web::auth::{random_bytes, uuid_bytes, uuid_text, uuid_v4};
use vstd::prelude::*;

verus! {

/// The type of the service that is announced.
pub const VBAN_SERVICE_TYPE: &'static str = "_loopmaster-vban._udp.local.";

/// The port that audio comes in on.
pub const VBAN_SERVICE_PORT: u16 = 6980;

/// Keys of what is announced.
pub const TXT_NODE_ID: &'static str = "node_id";

pub const TXT_NAME: &'static str = "name";

pub const TXT_VER: &'static str = "ver";

pub const TXT_WEB_PORT: &'static str = "web_port";

pub const TXT_SR: &'static str = "sr";

pub const TXT_CH: &'static str = "ch";

pub const TXT_CAPS: &'static str = "caps";

/// What a machine can do.
pub const CAPS_VBAN_AUDIO: &'static str = "vban_audio";

pub const CAPS_WEBRTC_MONITOR: &'static str = "webrtc_monitor";

/// Whether a character is a digit of a number in base 16, in lower case.
pub open spec fn is_hex(c: char) -> bool {
    ('0' <= c && c <= '9') || ('a' <= c && c <= 'f')
}

/// Whether a text is a random UUID: five groups of digits in base 16, parted by hyphens,
/// with the version and the variant of a random one.
pub open spec fn is_random_uuid(text: Seq<char>) -> bool {
    &&& text.len() == 36
    &&& forall|i: int|
        0 <= i < 36 ==> if i == 8 || i == 13 || i == 18 || i == 23 {
            #[trigger] text[i] == '-'
        } else {
            is_hex(text[i])
        }
    &&& text[14] == '4'
    &&& text[19] == '8' || text[19] == '9' || text[19] == 'a' || text[19] == 'b'
}

/// Whatever bytes are drawn, what is made of them is a random UUID.
pub proof fn law_drawn_uuid_is_random(bytes: Seq<u8>)
    requires
        bytes.len() == 16,
    ensures
        is_random_uuid(uuid_text(bytes)),
{
    reveal_strlit("-");
    let marked = uuid_bytes(bytes);
    let digits = hex_text(marked);
    let text = uuid_text(bytes);
    assert forall|i: int| 0 <= i < 32 implies is_hex(#[trigger] digits[i]) by {}
    assert(text.len() == 36);
    assert(text[14] == digits[12] && text[19] == digits[16]);
    assert(marked[6] / 16 == 4);
    assert(8 <= marked[8] / 16 < 12);
    assert forall|i: int| 0 <= i < 36 implies if i == 8 || i == 13 || i == 18 || i == 23 {
        #[trigger] text[i] == '-'
    } else {
        is_hex(text[i])
    } by {
        if i < 8 {
            assert(text[i] == digits[i]);
        } else if 8 < i < 13 {
            assert(text[i] == digits[i - 1]);
        } else if 13 < i < 18 {
            assert(text[i] == digits[i - 2]);
        } else if 18 < i < 23 {
            assert(text[i] == digits[i - 3]);
        } else if 23 < i {
            assert(text[i] == digits[i - 4]);
        }
    }
}

/// How this machine is known.
#[derive(Debug, PartialEq, Eq)]
pub struct NodeIdentity {
    pub node_id: String,
    pub device_name: String,
}

impl Clone for NodeIdentity {
    fn clone(&self) -> (copy: Self)
        ensures
            copy.node_id@ == self.node_id@,
            copy.device_name@ == self.device_name@,
    {
        NodeIdentity { node_id: self.node_id.clone(), device_name: self.device_name.clone() }
    }
}

/// The name of a machine that has none.
pub open spec fn device_name_or_default(computer_name: Option<Seq<char>>) -> Seq<char> {
    match computer_name {
        Some(name) => name,
        None => "LoopMaster-PC"@,
    }
}

/// The name of the machine, or another one where it has none.
pub fn default_device_name(computer_name: Option<String>) -> (name: String)
    ensures
        name@ == device_name_or_default(crate::routing::optional_text(computer_name)),
{
    match computer_name {
        Some(name) => name,
        None => "LoopMaster-PC".to_owned(),
    }
}

/// The bytes of a character in UTF-8.
pub open spec fn utf8_width(c: char) -> nat {
    if (c as nat) < 0x80 {
        1
    } else if (c as nat) < 0x800 {
        2
    } else if (c as nat) < 0x1_0000 {
        3
    } else {
        4
    }
}

/// The bytes of a text in UTF-8.
pub open spec fn utf8_length(text: Seq<char>) -> nat
    decreases text.len(),
{
    if text.len() == 0 {
        0
    } else {
        utf8_length(text.drop_last()) + utf8_width(text.last())
    }
}

/// The first characters that make up so many bytes, where some do.
pub open spec fn byte_prefix(text: Seq<char>, bytes: nat, n: nat) -> Option<Seq<char>>
    decreases text.len() + 1 - n,
{
    if n > text.len() || utf8_length(text.take(n as int)) > bytes {
        None
    } else if utf8_length(text.take(n as int)) == bytes {
        Some(text.take(n as int))
    } else {
        byte_prefix(text, bytes, n + 1)
    }
}

/// The short form of an identifier: its first eight bytes, or all of it where they do not
/// end with a character.
pub open spec fn short_id(node_id: Seq<char>) -> Seq<char> {
    match byte_prefix(node_id, 8, 0) {
        Some(prefix) => prefix,
        None => node_id,
    }
}

fn width_of(c: char) -> (width: usize)
    ensures
        width == utf8_width(c),
        1 <= width <= 4,
{
    let code = c as u32;
    if code < 0x80 {
        1
    } else if code < 0x800 {
        2
    } else if code < 0x1_0000 {
        3
    } else {
        4
    }
}

fn shorten(node_id: &String) -> (short: String)
    ensures
        short@ == short_id(node_id@),
{
    let chars = chars_of(node_id.as_str());
    let count = chars.len();
    let mut prefix: Vec<char> = Vec::new();
    let mut bytes: usize = 0;
    let mut n: usize = 0;
    assert(node_id@.take(0) =~= Seq::<char>::empty());
    loop
        invariant
            chars@ == node_id@,
            count == chars@.len(),
            n <= count,
            prefix@ == node_id@.take(n as int),
            bytes == utf8_length(node_id@.take(n as int)),
            bytes <= 12,
            byte_prefix(node_id@, 8, 0) == byte_prefix(node_id@, 8, n as nat),
        decreases count - n,
    {
        if bytes == 8 {
            return text_of(prefix.as_slice());
        }
        if bytes > 8 || n == count {
            assert(byte_prefix(node_id@, 8, n as nat) is None) by {
                reveal_with_fuel(byte_prefix, 2);
            }
            return node_id.clone();
        }
        let c = chars[n];
        prefix.push(c);
        assert(node_id@.take(n + 1) =~= node_id@.take(n as int).push(c));
        assert(node_id@.take(n + 1).drop_last() =~= node_id@.take(n as int));
        bytes = bytes + width_of(c);
        n = n + 1;
    }
}

impl NodeIdentity {
    /// An identity with an identifier of its own.
    pub fn with_id(node_id: String, computer_name: Option<String>) -> (identity: Self)
        ensures
            identity.node_id@ == node_id@,
            identity.device_name@ == device_name_or_default(
                crate::routing::optional_text(computer_name),
            ),
    {
        NodeIdentity { node_id, device_name: default_device_name(computer_name) }
    }

    /// An identity with an identifier out of the sixteen bytes that were drawn for it; none
    /// where none could be had.
    pub fn with_drawn_id(drawn: Option<Vec<u8>>, computer_name: Option<String>) -> (identity:
        Option<Self>)
        requires
            drawn matches Some(bytes) ==> bytes@.len() == 16,
        ensures
            match (drawn, identity) {
                (Some(bytes), Some(identity)) => {
                    &&& identity.node_id@ == uuid_text(bytes@)
                    &&& is_random_uuid(identity.node_id@)
                    &&& identity.device_name@ == device_name_or_default(
                        crate::routing::optional_text(computer_name),
                    )
                },
                (None, None) => true,
                _ => false,
            },
    {
        match drawn {
            Some(bytes) => {
                proof {
                    law_drawn_uuid_is_random(bytes@);
                }
                Some(NodeIdentity::with_id(uuid_v4(bytes), computer_name))
            },
            None => None,
        }
    }

    /// A new identity. Its identifier is up to chance; without random bytes there is none.
    pub fn generate(computer_name: Option<String>) -> (identity: Option<Self>)
        ensures
            identity matches Some(identity) ==> {
                &&& is_random_uuid(identity.node_id@)
                &&& exists|bytes: Seq<u8>|
                    bytes.len() == 16 && identity.node_id@ == #[trigger] uuid_text(bytes)
                &&& identity.device_name@ == device_name_or_default(
                    crate::routing::optional_text(computer_name),
                )
            },
    {
        NodeIdentity::with_drawn_id(random_bytes(16), computer_name)
    }

    /// The name that the service is announced under.
    pub fn instance_name(&self) -> (name: String)
        ensures
            name@ == "LoopMaster-"@ + short_id(self.node_id@),
    {
        joined("LoopMaster-", shorten(&self.node_id).as_str())
    }

    /// The name of the machine as a host: blanks and dots become hyphens.
    pub fn host_name(&self) -> (name: String)
        ensures
            name@ == host_label(self.device_name@) + ".local."@,
    {
        let chars = chars_of(self.device_name.as_str());
        let mut label: Vec<char> = Vec::new();
        for i in 0..chars.len()
            invariant
                chars@ == self.device_name@,
                label@ == host_label(self.device_name@.take(i as int)),
        {
            let c = chars[i];
            label.push(
                if c == ' ' || c == '.' {
                    '-'
                } else {
                    c
                },
            );
            assert(label@ =~= host_label(self.device_name@.take(i + 1)));
        }
        assert(self.device_name@.take(self.device_name@.len() as int) =~= self.device_name@);
        joined(text_of(label.as_slice()).as_str(), ".local.")
    }
}

/// A name as the label of a host: blanks and dots become hyphens.
pub open spec fn host_label(name: Seq<char>) -> Seq<char> {
    name.map_values(
        |c: char|
            if c == ' ' || c == '.' {
                '-'
            } else {
                c
            },
    )
}

/// What a machine announces.
#[derive(Debug, PartialEq, Eq)]
pub struct NodeMeta {
    pub node_id: String,
    pub name: String,
    pub version: String,
    /// The port of the console; 0 where it is off.
    pub web_port: u16,
    pub sample_rate: u32,
    pub channels: u8,
    /// What the machine can do, parted by commas.
    pub caps: String,
}

/// What a `NodeMeta` says.
#[verifier::ext_equal]
pub struct MetaModel {
    pub node_id: Seq<char>,
    pub name: Seq<char>,
    pub version: Seq<char>,
    pub web_port: u16,
    pub sample_rate: u32,
    pub channels: u8,
    pub caps: Seq<char>,
}

impl View for NodeMeta {
    type V = MetaModel;

    open spec fn view(&self) -> MetaModel {
        MetaModel {
            node_id: self.node_id@,
            name: self.name@,
            version: self.version@,
            web_port: self.web_port,
            sample_rate: self.sample_rate,
            channels: self.channels,
            caps: self.caps@,
        }
    }
}

/// What is announced, key by key.
pub open spec fn txt_of(meta: MetaModel) -> Seq<(Seq<char>, Seq<char>)> {
    seq![
        (TXT_NODE_ID@, meta.node_id),
        (TXT_NAME@, meta.name),
        (TXT_VER@, meta.version),
        (TXT_WEB_PORT@, decimal_text(meta.web_port as nat)),
        (TXT_SR@, decimal_text(meta.sample_rate as nat)),
        (TXT_CH@, decimal_text(meta.channels as nat)),
        (TXT_CAPS@, meta.caps),
    ]
}

/// The value of the first entry with a key.
pub open spec fn txt_value(props: Seq<(Seq<char>, Seq<char>)>, key: Seq<char>) -> Option<Seq<char>>
    decreases props.len(),
{
    if props.len() == 0 {
        None
    } else if props[0].0 == key {
        Some(props[0].1)
    } else {
        txt_value(props.skip(1), key)
    }
}

/// A text, or none at all as an empty one.
pub open spec fn text_or_empty(text: Option<Seq<char>>) -> Seq<char> {
    match text {
        Some(text) => text,
        None => Seq::empty(),
    }
}

/// The number that a text says, or another one where it says none.
pub open spec fn number_or(text: Option<Seq<char>>, limit: nat, other: nat) -> nat {
    match text {
        Some(text) => match number_in(text, limit) {
            Some(number) => number,
            None => other,
        },
        None => other,
    }
}

/// What entries announce. Without an identifier they announce nothing; numbers that are
/// missing are those of a plain machine.
pub open spec fn meta_of(node_id: Option<Seq<char>>, props: Seq<(Seq<char>, Seq<char>)>) -> Option<
    MetaModel,
> {
    match node_id {
        None => None,
        Some(node_id) => Some(
            MetaModel {
                node_id,
                name: text_or_empty(txt_value(props, TXT_NAME@)),
                version: text_or_empty(txt_value(props, TXT_VER@)),
                web_port: number_or(txt_value(props, TXT_WEB_PORT@), u16::MAX as nat, 0) as u16,
                sample_rate: number_or(
                    txt_value(props, TXT_SR@),
                    u32::MAX as nat,
                    48_000,
                ) as u32,
                channels: number_or(txt_value(props, TXT_CH@), u8::MAX as nat, 2) as u8,
                caps: text_or_empty(txt_value(props, TXT_CAPS@)),
            },
        ),
    }
}

/// The entries of a list.
pub open spec fn owned_props(props: Seq<(String, String)>) -> Seq<(Seq<char>, Seq<char>)> {
    props.map_values(|p: (String, String)| (p.0@, p.1@))
}

/// The entries of a list.
pub open spec fn borrowed_props(props: Seq<(&str, &str)>) -> Seq<(Seq<char>, Seq<char>)> {
    props.map_values(|p: (&str, &str)| (p.0@, p.1@))
}

fn find_txt<'a>(props: &[(&'a str, &'a str)], key: &str) -> (value: Option<&'a str>)
    ensures
        match value {
            Some(value) => txt_value(borrowed_props(props@), key@) == Some(value@),
            None => txt_value(borrowed_props(props@), key@) is None,
        },
{
    let wanted = key.to_owned();
    let ghost all = borrowed_props(props@);
    assert(all.skip(0) =~= all);
    for i in 0..props.len()
        invariant
            all == borrowed_props(props@),
            wanted@ == key@,
            txt_value(all, key@) == txt_value(all.skip(i as int), key@),
    {
        let prop = props[i];
        assert(all[i as int] == (prop.0@, prop.1@));
        if prop.0.to_owned() == wanted {
            return Some(prop.1);
        }
        assert(all.skip(i as int).skip(1) =~= all.skip(i + 1));
    }
    None
}

/// The number that a text says, or another one where it says none.
pub fn number_or_else(text: Option<&str>, limit: u64, other: u64) -> (number: u64)
    ensures
        number == number_or(
            match text {
                Some(text) => Some(text@),
                None => None,
            },
            limit as nat,
            other as nat,
        ),
{
    match text {
        Some(text) => match parse_number(text, limit) {
            Some(number) => number,
            None => other,
        },
        None => other,
    }
}

fn text_or_nothing(text: Option<&str>) -> (owned: String)
    ensures
        owned@ == text_or_empty(
            match text {
                Some(text) => Some(text@),
                None => None,
            },
        ),
{
    match text {
        Some(text) => text.to_owned(),
        None => String::new(),
    }
}

impl NodeMeta {
    /// What is announced, key by key.
    pub fn to_txt(&self) -> (props: Vec<(String, String)>)
        ensures
            owned_props(props@) == txt_of(self@),
    {
        let mut props: Vec<(String, String)> = Vec::new();
        props.push((TXT_NODE_ID.to_owned(), self.node_id.clone()));
        props.push((TXT_NAME.to_owned(), self.name.clone()));
        props.push((TXT_VER.to_owned(), self.version.clone()));
        props.push((TXT_WEB_PORT.to_owned(), decimal(self.web_port as u64)));
        props.push((TXT_SR.to_owned(), decimal(self.sample_rate as u64)));
        props.push((TXT_CH.to_owned(), decimal(self.channels as u64)));
        props.push((TXT_CAPS.to_owned(), self.caps.clone()));
        assert(owned_props(props@) =~= txt_of(self@));
        props
    }

    /// What entries announce.
    pub fn from_txt_props(node_id: Option<&str>, props: &[(&str, &str)]) -> (meta: Option<NodeMeta>)
        ensures
            match meta {
                Some(meta) => meta_of(
                    match node_id {
                        Some(id) => Some(id@),
                        None => None,
                    },
                    borrowed_props(props@),
                ) == Some(meta@),
                None => node_id is None,
            },
    {
        let node_id = match node_id {
            Some(node_id) => node_id.to_owned(),
            None => {
                return None;
            },
        };
        Some(
            NodeMeta {
                node_id,
                name: text_or_nothing(find_txt(props, TXT_NAME)),
                version: text_or_nothing(find_txt(props, TXT_VER)),
                web_port: number_or_else(find_txt(props, TXT_WEB_PORT), 0xffff, 0) as u16,
                sample_rate: number_or_else(find_txt(props, TXT_SR), 0xffff_ffff, 48_000) as u32,
                channels: number_or_else(find_txt(props, TXT_CH), 0xff, 2) as u8,
                caps: text_or_nothing(find_txt(props, TXT_CAPS)),
            },
        )
    }
}

/// What was announced is what is understood, in whatever order the entries arrive.
pub proof fn law_txt_round_trip(meta: MetaModel, props: Seq<(Seq<char>, Seq<char>)>)
    requires
        forall|e: (Seq<char>, Seq<char>)|
            #![trigger props.contains(e)]
            props.contains(e) <==> txt_of(meta).contains(e),
    ensures
        txt_value(props, TXT_NODE_ID@) == Some(meta.node_id),
        meta_of(txt_value(props, TXT_NODE_ID@), props) == Some(meta),
{
    reveal_strlit("node_id");
    reveal_strlit("name");
    reveal_strlit("ver");
    reveal_strlit("web_port");
    reveal_strlit("sr");
    reveal_strlit("ch");
    reveal_strlit("caps");
    let all = txt_of(meta);
    assert(TXT_NODE_ID@.len() == 7 && TXT_NAME@.len() == 4 && TXT_VER@.len() == 3);
    assert(TXT_WEB_PORT@.len() == 8 && TXT_SR@.len() == 2 && TXT_CH@.len() == 2);
    assert(TXT_CAPS@.len() == 4);
    assert(TXT_NAME@[0] != TXT_CAPS@[0] && TXT_SR@[0] != TXT_CH@[0]);
    assert forall|i: int| 0 <= i < props.len() implies all.contains(#[trigger] props[i]) by {
        assert(props.contains(props[i]));
    }
    assert forall|i: int| 0 <= i < all.len() implies txt_value(props, (#[trigger] all[i]).0) == Some(
        all[i].1,
    ) by {
        assert(all.contains(all[i]));
        assert(props.contains(all[i]));
        lemma_txt_in_any_order(props, all, i);
    }
    assert(txt_value(props, all[0].0) == Some(all[0].1));
    assert(txt_value(props, all[1].0) == Some(all[1].1));
    assert(txt_value(props, all[2].0) == Some(all[2].1));
    assert(txt_value(props, all[3].0) == Some(all[3].1));
    assert(txt_value(props, all[4].0) == Some(all[4].1));
    assert(txt_value(props, all[5].0) == Some(all[5].1));
    assert(txt_value(props, all[6].0) == Some(all[6].1));
    law_decimal_reads_back(meta.web_port as nat, u16::MAX as nat);
    law_decimal_reads_back(meta.sample_rate as nat, u32::MAX as nat);
    law_decimal_reads_back(meta.channels as nat, u8::MAX as nat);
}

/// An entry is found among entries with different keys, in whatever order they stand.
proof fn lemma_txt_in_any_order(
    props: Seq<(Seq<char>, Seq<char>)>,
    all: Seq<(Seq<char>, Seq<char>)>,
    at: int,
)
    requires
        0 <= at < all.len(),
        forall|i: int| 0 <= i < all.len() && i != at ==> (#[trigger] all[i]).0 != all[at].0,
        forall|i: int| 0 <= i < props.len() ==> all.contains(#[trigger] props[i]),
        props.contains(all[at]),
    ensures
        txt_value(props, all[at].0) == Some(all[at].1),
    decreases props.len(),
{
    let k = props.index_of(all[at]);
    if props[0].0 == all[at].0 {
        assert(all.contains(props[0]));
        let i = all.index_of(props[0]);
        assert(all[i] == props[0]);
    } else {
        let rest = props.skip(1);
        assert(rest[k - 1] == all[at]);
        assert forall|i: int| 0 <= i < rest.len() implies all.contains(#[trigger] rest[i]) by {
            assert(rest[i] == props[i + 1]);
        }
        lemma_txt_in_any_order(rest, all, at);
    }
}

} // verus!
