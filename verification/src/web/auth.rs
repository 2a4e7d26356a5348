//! Devices that may use the console: pairing, trust and its end.

use crate::paths::{beside, path_beside};
use crate::text::{
    chars_of, find_char, first_index, hex, hex_text, joined, part_of, text_of, trim_chars, trimmed,
};
use crate::text_map::{
    has_key, kept, key_index, keys_differ, lemma_kept, lemma_key_index, lemma_keys_stay_different,
    lemma_mapped, lemma_mapped_with, law_inserted_value_is_found, law_removed_key_is_gone, mapped,
    value_of, with_value, without_key, TextMap,
};
use vstd::prelude::*;
use vstd::string::StringExecFns;
use vstd::utf8::{encode_utf8, encode_utf8_decode_utf8};

verus! {

/// How long a pairing stays open, in seconds.
pub const PAIR_WINDOW_SECS: u64 = 300;

/// How long a failure counts, in seconds.
pub const RATE_WINDOW_SECS: i64 = 60;

/// How many failures of one address are let pass.
pub const RATE_MAX_FAILURES: usize = 5;

/// The bytes of a credential.
pub const CREDENTIAL_BYTES: usize = 32;

/// The cookie that holds a credential.
pub const COOKIE_NAME: &'static str = "lm_device";

/// How long the cookie is kept, in seconds.
pub const COOKIE_MAX_AGE: u64 = 34_560_000;

/// A device that is trusted. Of its credential only a hash is kept.
#[derive(Debug, PartialEq, Eq)]
pub struct TrustedDevice {
    pub id: String,
    /// The SHA-256 of the credential, in hexadecimal.
    pub credential_hash: String,
    pub name: String,
    pub permission: String,
    /// When it was last heard of, in seconds of Unix time.
    pub last_seen_unix: i64,
}

/// What a `TrustedDevice` says.
#[verifier::ext_equal]
pub struct TrustedModel {
    pub id: Seq<char>,
    pub credential_hash: Seq<char>,
    pub name: Seq<char>,
    pub permission: Seq<char>,
    pub last_seen_unix: i64,
}

impl View for TrustedDevice {
    type V = TrustedModel;

    open spec fn view(&self) -> TrustedModel {
        TrustedModel {
            id: self.id@,
            credential_hash: self.credential_hash@,
            name: self.name@,
            permission: self.permission@,
            last_seen_unix: self.last_seen_unix,
        }
    }
}

impl Clone for TrustedDevice {
    fn clone(&self) -> (copy: Self)
        ensures
            copy@ == self@,
    {
        TrustedDevice {
            id: self.id.clone(),
            credential_hash: self.credential_hash.clone(),
            name: self.name.clone(),
            permission: self.permission.clone(),
            last_seen_unix: self.last_seen_unix,
        }
    }
}

/// The devices of a list.
pub open spec fn trusted_models(devices: Seq<TrustedDevice>) -> Seq<TrustedModel> {
    devices.map_values(|d: TrustedDevice| d@)
}

/// What is told of a device. Its hash is not.
#[derive(Debug, PartialEq, Eq)]
pub struct DeviceSummary {
    pub id: String,
    pub name: String,
    pub permission: String,
    pub last_seen_unix: i64,
}

/// What a `DeviceSummary` says.
#[verifier::ext_equal]
pub struct SummaryModel {
    pub id: Seq<char>,
    pub name: Seq<char>,
    pub permission: Seq<char>,
    pub last_seen_unix: i64,
}

impl View for DeviceSummary {
    type V = SummaryModel;

    open spec fn view(&self) -> SummaryModel {
        SummaryModel {
            id: self.id@,
            name: self.name@,
            permission: self.permission@,
            last_seen_unix: self.last_seen_unix,
        }
    }
}

/// The summary of a device.
pub open spec fn summary_of(device: TrustedModel) -> SummaryModel {
    SummaryModel {
        id: device.id,
        name: device.name,
        permission: device.permission,
        last_seen_unix: device.last_seen_unix,
    }
}

/// The summaries of a list.
pub open spec fn summary_models(summaries: Seq<DeviceSummary>) -> Seq<SummaryModel> {
    summaries.map_values(|s: DeviceSummary| s@)
}

/// What a device needs to pair.
#[derive(Debug, PartialEq, Eq)]
pub struct PairingInfo {
    pub secret: String,
    pub pin: String,
    /// The seconds that are left.
    pub expires_in_secs: u64,
}

/// Why a device is turned away.
#[derive(Debug, PartialEq, Eq)]
pub enum AuthError {
    /// No pairing is open.
    PairingClosed,
    /// Neither the secret nor the PIN is right.
    InvalidCredential,
    /// Too many failures.
    RateLimited,
    Unauthorized,
    DeviceNotFound,
    /// The devices could not be kept.
    Persist(String),
    /// No random bytes could be had.
    NoRandomness,
}

/// What an `AuthError` says.
#[verifier::ext_equal]
pub enum AuthFault {
    PairingClosed,
    InvalidCredential,
    RateLimited,
    Unauthorized,
    DeviceNotFound,
    Persist(Seq<char>),
    NoRandomness,
}

impl View for AuthError {
    type V = AuthFault;

    open spec fn view(&self) -> AuthFault {
        match *self {
            AuthError::PairingClosed => AuthFault::PairingClosed,
            AuthError::InvalidCredential => AuthFault::InvalidCredential,
            AuthError::RateLimited => AuthFault::RateLimited,
            AuthError::Unauthorized => AuthFault::Unauthorized,
            AuthError::DeviceNotFound => AuthFault::DeviceNotFound,
            AuthError::Persist(reason) => AuthFault::Persist(reason@),
            AuthError::NoRandomness => AuthFault::NoRandomness,
        }
    }
}

/// What is said of an `AuthError`.
pub open spec fn auth_fault_text(fault: AuthFault) -> Seq<char> {
    match fault {
        AuthFault::PairingClosed => "配对窗口未开启或已过期"@,
        AuthFault::InvalidCredential => "配对凭据不匹配"@,
        AuthFault::RateLimited => "配对失败次数过多，请 60 秒后重试"@,
        AuthFault::Unauthorized => "未认证"@,
        AuthFault::DeviceNotFound => "设备不存在"@,
        AuthFault::Persist(reason) => "持久化失败: "@ + reason,
        AuthFault::NoRandomness => "CSPRNG 不可用"@,
    }
}

impl AuthError {
    /// What is said of the error.
    pub fn message(&self) -> (text: String)
        ensures
            text@ == auth_fault_text(self@),
    {
        match self {
            AuthError::PairingClosed => "配对窗口未开启或已过期".to_owned(),
            AuthError::InvalidCredential => "配对凭据不匹配".to_owned(),
            AuthError::RateLimited => "配对失败次数过多，请 60 秒后重试".to_owned(),
            AuthError::Unauthorized => "未认证".to_owned(),
            AuthError::DeviceNotFound => "设备不存在".to_owned(),
            AuthError::Persist(reason) => joined("持久化失败: ", reason.as_str()),
            AuthError::NoRandomness => "CSPRNG 不可用".to_owned(),
        }
    }
}

/// Calls `getrandom::getrandom` on a buffer of `count` bytes. Which bytes come is up to
/// chance, and so is whether any come.
#[verifier::external_body]
pub(crate) fn random_bytes(count: usize) -> (bytes: Option<Vec<u8>>)
    ensures
        match bytes {
            Some(bytes) => bytes@.len() == count,
            None => true,
        },
{
    let mut bytes = vec![0u8; count];
    match getrandom::getrandom(&mut bytes) {
        Ok(()) => Some(bytes),
        Err(_) => None,
    }
}

/// The SHA-256 of some bytes.
pub uninterp spec fn sha256(bytes: Seq<u8>) -> Seq<u8>;

/// Calls `sha2::Sha256::digest`, which gives the 32 bytes of the SHA-256 of its argument.
#[verifier::external_body]
fn sha256_digest(bytes: &[u8]) -> (digest: Vec<u8>)
    ensures
        digest@ == sha256(bytes@),
        digest@.len() == 32,
{
    <sha2::Sha256 as sha2::Digest>::digest(bytes).to_vec()
}

/// The hash of a text: the SHA-256 of its UTF-8, in hexadecimal.
pub open spec fn text_hash(text: Seq<char>) -> Seq<char> {
    hex_text(sha256(encode_utf8(text)))
}

/// The hash of a text.
pub fn sha256_hex(text: &str) -> (hash: String)
    ensures
        hash@ == text_hash(text@),
        hash@.len() == 64,
{
    let digest = sha256_digest(text.as_bytes());
    hex(digest.as_slice())
}

/// Whether two texts are the same. Texts of one length take the same time, wherever they
/// differ.
pub fn constant_time_eq(left: &str, right: &str) -> (same: bool)
    ensures
        same == (left@ == right@),
{
    let a = left.as_bytes();
    let b = right.as_bytes();
    proof {
        encode_utf8_decode_utf8(left@);
        encode_utf8_decode_utf8(right@);
    }
    let count = a.len();
    if count != b.len() {
        return false;
    }
    let mut diff: u8 = 0;
    for i in 0..count
        invariant
            count == a@.len(),
            count == b@.len(),
            diff == 0 <==> (forall|j: int| 0 <= j < i ==> a@[j] == b@[j]),
    {
        let x = a[i];
        let y = b[i];
        assert((diff | (x ^ y)) == 0 <==> diff == 0 && x == y) by (bit_vector);
        diff = diff | (x ^ y);
    }
    proof {
        if diff == 0 {
            assert(a@ =~= b@);
        }
    }
    diff == 0
}

/// The digit of a number at a place, counted from the right.
pub open spec fn pin_digit(n: int, place: int) -> char {
    crate::text::digit_char(n / place % 10)
}

/// A number below a million in six digits.
pub open spec fn six_digits(n: int) -> Seq<char> {
    seq![
        pin_digit(n, 100_000),
        pin_digit(n, 10_000),
        pin_digit(n, 1000),
        pin_digit(n, 100),
        pin_digit(n, 10),
        pin_digit(n, 1),
    ]
}

/// The PIN out of three bytes.
pub open spec fn pin_text(bytes: Seq<u8>) -> Seq<char> {
    six_digits((bytes[0] * 0x1_0000 + bytes[1] * 0x100 + bytes[2]) % 1_000_000)
}

fn push_pin_digit(text: &mut String, value: u32, place: u32)
    requires
        place > 0,
    ensures
        final(text)@ == old(text)@.push(pin_digit(value as int, place as int)),
{
    text.push((48u8 + (value / place % 10) as u8) as char);
}

/// The PIN out of three bytes.
pub fn pin_of(bytes: &[u8]) -> (pin: String)
    requires
        bytes@.len() == 3,
    ensures
        pin@ == pin_text(bytes@),
{
    let value: u32 = (bytes[0] as u32 * 0x1_0000 + bytes[1] as u32 * 0x100 + bytes[2] as u32)
        % 1_000_000;
    let mut pin = String::new();
    push_pin_digit(&mut pin, value, 100_000);
    push_pin_digit(&mut pin, value, 10_000);
    push_pin_digit(&mut pin, value, 1000);
    push_pin_digit(&mut pin, value, 100);
    push_pin_digit(&mut pin, value, 10);
    push_pin_digit(&mut pin, value, 1);
    assert(pin@ =~= pin_text(bytes@));
    pin
}

/// Random bytes marked as a UUID of version 4.
pub open spec fn uuid_bytes(bytes: Seq<u8>) -> Seq<u8> {
    bytes.update(6, (64 + bytes[6] % 16) as u8).update(8, (128 + bytes[8] % 64) as u8)
}

/// A UUID of version 4 out of sixteen bytes.
pub open spec fn uuid_text(bytes: Seq<u8>) -> Seq<char> {
    let digits = hex_text(uuid_bytes(bytes));
    digits.subrange(0, 8) + "-"@ + digits.subrange(8, 12) + "-"@ + digits.subrange(12, 16) + "-"@
        + digits.subrange(16, 20) + "-"@ + digits.subrange(20, 32)
}

/// A UUID of version 4 out of sixteen bytes.
pub fn uuid_v4(bytes: Vec<u8>) -> (id: String)
    requires
        bytes@.len() == 16,
    ensures
        id@ == uuid_text(bytes@),
{
    let ghost given = bytes@;
    let mut bytes = bytes;
    let version = bytes[6];
    let variant = bytes[8];
    assert((version & 0x0f) | 0x40 == 64 + version % 16) by (bit_vector);
    assert((variant & 0x3f) | 0x80 == 128 + variant % 64) by (bit_vector);
    bytes.set(6, (version & 0x0f) | 0x40);
    bytes.set(8, (variant & 0x3f) | 0x80);
    assert(bytes@ =~= uuid_bytes(given));
    let digits = chars_of(hex(bytes.as_slice()).as_str());
    let mut id = text_of(part_of(digits.as_slice(), 0, 8).as_slice());
    id.append("-");
    id.append(text_of(part_of(digits.as_slice(), 8, 12).as_slice()).as_str());
    id.append("-");
    id.append(text_of(part_of(digits.as_slice(), 12, 16).as_slice()).as_str());
    id.append("-");
    id.append(text_of(part_of(digits.as_slice(), 16, 20).as_slice()).as_str());
    id.append("-");
    id.append(text_of(part_of(digits.as_slice(), 20, 32).as_slice()).as_str());
    assert(id@ =~= uuid_text(given));
    id
}

/// Where the trusted devices are kept: beside the configuration.
pub open spec fn devices_path(config_path: Seq<char>) -> Seq<char> {
    match beside(config_path, "trusted-devices.json"@) {
        Some(path) => path,
        None => "trusted-devices.json"@,
    }
}

/// Where the trusted devices are kept.
pub fn trusted_devices_path(config_path: &str) -> (path: String)
    ensures
        path@ == devices_path(config_path@),
{
    match path_beside(config_path, "trusted-devices.json") {
        Some(path) => path,
        None => "trusted-devices.json".to_owned(),
    }
}

/// What a piece of a cookie header says of a cookie.
pub open spec fn cookie_in(piece: Seq<char>, name: Seq<char>) -> Option<Seq<char>> {
    let piece = trimmed(piece);
    let at = first_index(piece, '=');
    if at < piece.len() && trimmed(piece.take(at)) == name {
        Some(trimmed(piece.skip(at + 1)))
    } else {
        None
    }
}

/// What a cookie header says of a cookie: the first piece that names it counts.
pub open spec fn cookie_value(header: Seq<char>, name: Seq<char>) -> Option<Seq<char>>
    decreases header.len(),
{
    let end = first_index(header, ';');
    if !(0 <= end < header.len()) {
        cookie_in(header, name)
    } else {
        match cookie_in(header.take(end), name) {
            Some(value) => Some(value),
            None => cookie_value(header.skip(end + 1), name),
        }
    }
}

fn read_cookie(piece: &[char], name: &str) -> (value: Option<String>)
    ensures
        match value {
            Some(value) => cookie_in(piece@, name@) == Some(value@),
            None => cookie_in(piece@, name@) is None,
        },
{
    let part = trim_chars(piece);
    let count = part.len();
    let at = find_char(part.as_slice(), '=');
    if at >= count {
        return None;
    }
    assert(part@.take(at as int) =~= part@.subrange(0, at as int));
    assert(part@.skip(at + 1) =~= part@.subrange(at + 1, count as int));
    let key = trim_chars(part_of(part.as_slice(), 0, at).as_slice());
    if text_of(key.as_slice()) == name.to_owned() {
        let value = trim_chars(part_of(part.as_slice(), at + 1, count).as_slice());
        Some(text_of(value.as_slice()))
    } else {
        None
    }
}

/// Reads a cookie out of the text of a cookie header, where there is one.
pub fn extract_cookie(header: Option<&str>, name: &str) -> (value: Option<String>)
    ensures
        match value {
            Some(value) => header is Some && cookie_value(header->Some_0@, name@) == Some(value@),
            None => header is None || cookie_value(header->Some_0@, name@) is None,
        },
{
    let text = match header {
        Some(text) => text,
        None => {
            return None;
        },
    };
    let mut rest = chars_of(text);
    loop
        invariant
            header == Some(text),
            cookie_value(text@, name@) == cookie_value(rest@, name@),
        decreases rest@.len(),
    {
        let end = find_char(rest.as_slice(), ';');
        let count = rest.len();
        if end >= count {
            return read_cookie(rest.as_slice(), name);
        }
        assert(rest@.take(end as int) =~= rest@.subrange(0, end as int));
        assert(rest@.skip(end + 1) =~= rest@.subrange(end + 1, count as int));
        let piece = part_of(rest.as_slice(), 0, end);
        match read_cookie(piece.as_slice(), name) {
            Some(value) => {
                return Some(value);
            },
            None => {},
        }
        rest = part_of(rest.as_slice(), end + 1, count);
    }
}

/// An open pairing.
#[derive(Debug, PartialEq, Eq)]
pub struct Pairing {
    pub secret: String,
    pub pin: String,
    pub expires_unix: i64,
}

/// What a `Pairing` says.
#[verifier::ext_equal]
pub struct PairingModel {
    pub secret: Seq<char>,
    pub pin: Seq<char>,
    pub expires_unix: i64,
}

/// Who is trusted, who wants to be, and who has failed.
#[derive(Debug, PartialEq, Eq)]
pub struct AuthState {
    pairing: Option<Pairing>,
    devices: Vec<TrustedDevice>,
    /// When pairing failed, by address.
    failures: TextMap<Vec<i64>>,
    /// The connections that are open, by device.
    connections: TextMap<Vec<u64>>,
}

/// What an `AuthState` says.
#[verifier::ext_equal]
pub struct AuthModel {
    pub pairing: Option<PairingModel>,
    pub devices: Seq<TrustedModel>,
    pub failures: Seq<(Seq<char>, Seq<i64>)>,
    pub connections: Seq<(Seq<char>, Seq<u64>)>,
}

/// What a pairing says.
pub open spec fn pairing_model(pairing: Option<Pairing>) -> Option<PairingModel> {
    match pairing {
        Some(pairing) => Some(
            PairingModel {
                secret: pairing.secret@,
                pin: pairing.pin@,
                expires_unix: pairing.expires_unix,
            },
        ),
        None => None,
    }
}

impl View for AuthState {
    type V = AuthModel;

    closed spec fn view(&self) -> AuthModel {
        AuthModel {
            pairing: pairing_model(self.pairing),
            devices: trusted_models(self.devices@),
            failures: mapped(self.failures@, |times: Vec<i64>| times@),
            connections: mapped(self.connections@, |list: Vec<u64>| list@),
        }
    }
}

/// The times that are not too long ago.
pub open spec fn recent(times: Seq<i64>, now: i64) -> Seq<i64> {
    times.filter(|t: i64| now - t <= RATE_WINDOW_SECS)
}

/// Whether some failure of an address still counts.
pub open spec fn still_counts(times: Seq<i64>, now: i64) -> bool {
    recent(times, now).len() > 0
}

/// The failures of the addresses that have some that still counts.
pub open spec fn pruned(failures: Seq<(Seq<char>, Seq<i64>)>, now: i64) -> Seq<
    (Seq<char>, Seq<i64>),
> {
    kept(failures, |times: Seq<i64>| still_counts(times, now))
}

/// Whether an address has failed too often of late.
pub open spec fn is_limited(
    failures: Seq<(Seq<char>, Seq<i64>)>,
    ip: Seq<char>,
    now: i64,
) -> bool {
    value_of(failures, ip) matches Some(times) && recent(times, now).len() >= RATE_MAX_FAILURES
}

/// The failures with another one of an address.
pub open spec fn with_failure(
    failures: Seq<(Seq<char>, Seq<i64>)>,
    ip: Seq<char>,
    now: i64,
) -> Seq<(Seq<char>, Seq<i64>)> {
    let times = match value_of(failures, ip) {
        Some(times) => times,
        None => Seq::empty(),
    };
    with_value(failures, ip, recent(times.push(now), now))
}

/// Whether a pairing tells bytes that were drawn: as many as a secret and a PIN take.
pub open spec fn are_drawn(secret: Seq<u8>, pin: Seq<u8>, info: PairingInfo) -> bool {
    &&& secret.len() == CREDENTIAL_BYTES
    &&& pin.len() == 3
    &&& info.secret@ == hex_text(secret)
    &&& info.pin@ == pin_text(pin)
}

/// Whether a pairing is open.
pub open spec fn is_open(pairing: Option<PairingModel>, now: i64) -> bool {
    pairing matches Some(pairing) && pairing.expires_unix > now
}

/// Whether a secret or a PIN is the one of the pairing.
pub open spec fn is_right(
    pairing: Option<PairingModel>,
    secret: Option<Seq<char>>,
    pin: Option<Seq<char>>,
) -> bool {
    pairing matches Some(pairing) && (secret == Some(pairing.secret) || pin == Some(pairing.pin))
}

/// What a device that wants to pair says.
#[verifier::ext_equal]
pub struct PairRequest {
    pub secret: Option<Seq<char>>,
    pub pin: Option<Seq<char>>,
    pub ip: Seq<char>,
    pub now: i64,
}

/// Why a request to pair is turned away, if it is: too many failures first, a pairing
/// that is not open next, and a wrong secret or PIN last.
pub open spec fn pairing_fault(auth: AuthModel, request: PairRequest) -> Option<AuthFault> {
    if is_limited(auth.failures, request.ip, request.now) {
        Some(AuthFault::RateLimited)
    } else if !is_open(auth.pairing, request.now) {
        Some(AuthFault::PairingClosed)
    } else if !is_right(auth.pairing, request.secret, request.pin) {
        Some(AuthFault::InvalidCredential)
    } else {
        None
    }
}

/// What is known after a request to pair was looked at. A wrong secret or PIN counts as a
/// failure; a right one closes the pairing.
pub open spec fn after_request(auth: AuthModel, request: PairRequest) -> AuthModel {
    let failures = pruned(auth.failures, request.now);
    match pairing_fault(auth, request) {
        Some(AuthFault::InvalidCredential) => AuthModel {
            failures: with_failure(failures, request.ip, request.now),
            ..auth
        },
        Some(_) => AuthModel { failures, ..auth },
        None => AuthModel { failures, pairing: None, ..auth },
    }
}

/// The device that a credential is given to.
pub open spec fn new_device(
    credential: Seq<u8>,
    id: Seq<u8>,
    name: Seq<char>,
    now: i64,
) -> TrustedModel {
    TrustedModel {
        id: uuid_text(id),
        credential_hash: text_hash(hex_text(credential)),
        name,
        permission: "control"@,
        last_seen_unix: now,
    }
}

/// Whether `after` is `before` with a device that holds the credential.
pub open spec fn newly_trusted(
    before: AuthModel,
    after: AuthModel,
    credential: Seq<char>,
    name: Seq<char>,
    now: i64,
) -> bool {
    exists|bytes: Seq<u8>, id: Seq<u8>|
        bytes.len() == CREDENTIAL_BYTES && id.len() == 16 && credential == hex_text(bytes) && after
            == (AuthModel {
            devices: before.devices.push(#[trigger] new_device(bytes, id, name, now)),
            ..before
        })
}

/// Where the first device with a hash stands; the number of devices where none has it.
pub open spec fn hash_index(devices: Seq<TrustedModel>, hash: Seq<char>) -> int
    decreases devices.len(),
{
    if devices.len() == 0 || devices[0].credential_hash == hash {
        0
    } else {
        1 + hash_index(devices.skip(1), hash)
    }
}

/// Whether a device has a hash.
pub open spec fn has_hash(devices: Seq<TrustedModel>, hash: Seq<char>) -> bool {
    exists|i: int| 0 <= i < devices.len() && (#[trigger] devices[i]).credential_hash == hash
}

/// Whether a device has an identifier.
pub open spec fn has_device(devices: Seq<TrustedModel>, id: Seq<char>) -> bool {
    exists|i: int| 0 <= i < devices.len() && (#[trigger] devices[i]).id == id
}

/// The devices after one of them was heard of.
pub open spec fn seen(devices: Seq<TrustedModel>, at: int, now: i64) -> Seq<TrustedModel> {
    devices.update(at, TrustedModel { last_seen_unix: now, ..devices[at] })
}

/// The devices without an identifier.
pub open spec fn without_device(devices: Seq<TrustedModel>, id: Seq<char>) -> Seq<TrustedModel> {
    devices.filter(|d: TrustedModel| d.id != id)
}

/// The connections of a device.
pub open spec fn connections_of(
    connections: Seq<(Seq<char>, Seq<u64>)>,
    id: Seq<char>,
) -> Seq<u64> {
    match value_of(connections, id) {
        Some(list) => list,
        None => Seq::empty(),
    }
}

/// What is known after a device was forgotten.
pub open spec fn forgotten(auth: AuthModel, id: Seq<char>) -> AuthModel {
    AuthModel {
        devices: without_device(auth.devices, id),
        connections: without_key(auth.connections, id),
        ..auth
    }
}

/// The connections that are left after those of some devices were closed.
pub open spec fn connections_left(
    connections: Seq<(Seq<char>, Seq<u64>)>,
    devices: Seq<TrustedModel>,
    n: nat,
) -> Seq<(Seq<char>, Seq<u64>)>
    decreases n,
{
    if n == 0 {
        connections
    } else {
        without_key(
            connections_left(connections, devices, (n - 1) as nat),
            devices[n - 1].id,
        )
    }
}

/// The connections of some devices.
pub open spec fn connections_closed(
    connections: Seq<(Seq<char>, Seq<u64>)>,
    devices: Seq<TrustedModel>,
    n: nat,
) -> Seq<u64>
    decreases n,
{
    if n == 0 {
        Seq::empty()
    } else {
        connections_closed(connections, devices, (n - 1) as nat) + connections_of(
            connections_left(connections, devices, (n - 1) as nat),
            devices[n - 1].id,
        )
    }
}

pub(crate) proof fn lemma_hash_index(devices: Seq<TrustedModel>, hash: Seq<char>, at: int)
    requires
        0 <= at < devices.len(),
        devices[at].credential_hash == hash,
        forall|i: int| 0 <= i < at ==> (#[trigger] devices[i]).credential_hash != hash,
    ensures
        hash_index(devices, hash) == at,
    decreases devices.len(),
{
    if at > 0 {
        assert(devices[0].credential_hash != hash);
        let rest = devices.skip(1);
        assert forall|i: int| 0 <= i < at - 1 implies (#[trigger] rest[i]).credential_hash
            != hash by {
            assert(rest[i] == devices[i + 1]);
        }
        lemma_hash_index(rest, hash, at - 1);
    }
}

proof fn lemma_filter_step<A>(list: Seq<A>, i: int, keep: spec_fn(A) -> bool)
    requires
        0 <= i < list.len(),
    ensures
        list.take(i + 1).filter(keep) == if keep(list[i]) {
            list.take(i).filter(keep).push(list[i])
        } else {
            list.take(i).filter(keep)
        },
{
    reveal(Seq::filter);
    assert(list.take(i + 1).drop_last() =~= list.take(i));
}

fn keep_recent(times: &Vec<i64>, now: i64) -> (kept: Vec<i64>)
    ensures
        kept@ == recent(times@, now),
{
    let ghost keep = |t: i64| now - t <= RATE_WINDOW_SECS;
    let mut kept: Vec<i64> = Vec::new();
    assert(kept@ =~= times@.take(0).filter(keep)) by {
        reveal(Seq::filter);
    }
    for i in 0..times.len()
        invariant
            keep == (|t: i64| now - t <= RATE_WINDOW_SECS),
            kept@ == times@.take(i as int).filter(keep),
    {
        proof {
            lemma_filter_step(times@, i as int, keep);
        }
        if now as i128 - times[i] as i128 <= RATE_WINDOW_SECS as i128 {
            kept.push(times[i]);
        }
    }
    assert(times@.take(times@.len() as int) =~= times@);
    kept
}

fn copy_times(times: &Vec<i64>) -> (copy: Vec<i64>)
    ensures
        copy@ == times@,
{
    let mut copy: Vec<i64> = Vec::new();
    for i in 0..times.len()
        invariant
            copy@ =~= times@.take(i as int),
    {
        copy.push(times[i]);
    }
    assert(times@.take(times@.len() as int) =~= times@);
    copy
}

fn copy_connections(open: &Vec<u64>, list: &mut Vec<u64>)
    ensures
        final(list)@ == old(list)@ + open@,
{
    let ghost before = list@;
    for i in 0..open.len()
        invariant
            list@ =~= before + open@.take(i as int),
    {
        list.push(open[i]);
    }
    assert(open@.take(open@.len() as int) =~= open@);
}

/// Forgets the failures that do not count any more.
fn prune(failures: &mut TextMap<Vec<i64>>, now: i64)
    ensures
        mapped(final(failures)@, |times: Vec<i64>| times@) == pruned(
            mapped(old(failures)@, |times: Vec<i64>| times@),
            now,
        ),
{
    let ghost view = |times: Vec<i64>| times@;
    let ghost counts = |times: Seq<i64>| still_counts(times, now);
    let ghost keep = |e: (Seq<char>, Seq<i64>)| counts(e.1);
    let ghost all = mapped(failures@, view);
    let ghost mut done: int = 0;
    let mut at: usize = 0;
    assert(all.take(0).filter(keep) =~= Seq::empty()) by {
        reveal(Seq::filter);
    }
    assert(mapped(failures@, view) =~= all.take(0).filter(keep) + all.skip(0));
    let mut count = failures.len();
    while at < count
        invariant
            view == (|times: Vec<i64>| times@),
            counts == (|times: Seq<i64>| still_counts(times, now)),
            keep == (|e: (Seq<char>, Seq<i64>)| counts(e.1)),
            0 <= done <= all.len(),
            count == failures@.len(),
            at == all.take(done).filter(keep).len(),
            mapped(failures@, view) == all.take(done).filter(keep) + all.skip(done),
            count - at == all.len() - done,
        decreases count - at,
    {
        let ghost before = mapped(failures@, view);
        proof {
            lemma_filter_step(all, done, keep);
            assert(before[at as int] == all.skip(done)[0]);
            assert(before[at as int] == (failures@[at as int].0, failures@[at as int].1@));
        }
        let fresh = keep_recent(failures.value_at(at), now).len() > 0;
        let ghost prior = all.take(done).filter(keep);
        if fresh {
            assert(before =~= prior.push(all[done]) + all.skip(done + 1));
            at = at + 1;
        } else {
            failures.remove_at(at);
            count = count - 1;
            assert(mapped(failures@, view) =~= before.remove(at as int));
            assert(before.remove(at as int) =~= prior + all.skip(done + 1));
        }
        proof {
            done = done + 1;
        }
    }
    assert(all.take(done) =~= all);
    assert(all.take(done).filter(keep) + all.skip(done) =~= all.filter(keep));
}

/// Counts a failure of an address.
fn record_failure(failures: &mut TextMap<Vec<i64>>, ip: &str, now: i64)
    ensures
        mapped(final(failures)@, |times: Vec<i64>| times@) == with_failure(
            mapped(old(failures)@, |times: Vec<i64>| times@),
            ip@,
            now,
        ),
{
    let ghost view = |times: Vec<i64>| times@;
    let ip = ip.to_owned();
    let mut times = match failures.get(&ip) {
        Some(times) => copy_times(times),
        None => Vec::new(),
    };
    times.push(now);
    let kept = keep_recent(&times, now);
    proof {
        lemma_mapped(failures@, view, ip@);
        lemma_mapped_with(failures@, view, ip@, kept);
    }
    failures.insert(ip, kept);
}

fn is_same(given: Option<&str>, wanted: &String) -> (same: bool)
    ensures
        same == (given matches Some(given) && given@ == wanted@),
{
    match given {
        Some(given) => constant_time_eq(given, wanted.as_str()),
        None => false,
    }
}

/// The text of an optional text.
pub open spec fn given_text(text: Option<&str>) -> Option<Seq<char>> {
    match text {
        Some(text) => Some(text@),
        None => None,
    }
}

fn summary(device: &TrustedDevice) -> (summary: DeviceSummary)
    ensures
        summary@ == summary_of(device@),
{
    DeviceSummary {
        id: device.id.clone(),
        name: device.name.clone(),
        permission: device.permission.clone(),
        last_seen_unix: device.last_seen_unix,
    }
}

impl AuthState {
    /// What is known when the devices that were kept have been read.
    pub fn new(devices: Vec<TrustedDevice>) -> (auth: Self)
        ensures
            auth@ == (AuthModel {
                pairing: None,
                devices: trusted_models(devices@),
                failures: Seq::empty(),
                connections: Seq::empty(),
            }),
    {
        let auth = AuthState {
            pairing: None,
            devices,
            failures: TextMap::new(),
            connections: TextMap::new(),
        };
        assert(auth@.failures =~= Seq::empty());
        assert(auth@.connections =~= Seq::empty());
        auth
    }

    /// Opens a pairing, in place of one that is open, with a secret of 32 bytes and a PIN
    /// out of three.
    pub fn open_pairing(&mut self, secret: &[u8], pin: &[u8], now: i64) -> (info: PairingInfo)
        requires
            pin@.len() == 3,
            now + PAIR_WINDOW_SECS <= i64::MAX,
        ensures
            info.secret@ == hex_text(secret@),
            info.pin@ == pin_text(pin@),
            info.expires_in_secs == PAIR_WINDOW_SECS,
            final(self)@ == (AuthModel {
                pairing: Some(
                    PairingModel {
                        secret: hex_text(secret@),
                        pin: pin_text(pin@),
                        expires_unix: (now + PAIR_WINDOW_SECS) as i64,
                    },
                ),
                ..old(self)@
            }),
    {
        let secret = hex(secret);
        let pin = pin_of(pin);
        self.pairing = Some(
            Pairing { secret: secret.clone(), pin: pin.clone(), expires_unix: now + 300 },
        );
        PairingInfo { secret, pin, expires_in_secs: PAIR_WINDOW_SECS }
    }

    /// Opens a pairing with the bytes that were drawn for its secret and its PIN. Where
    /// either could not be had, nothing changes.
    pub fn open_drawn_pairing(
        &mut self,
        secret: Option<Vec<u8>>,
        pin: Option<Vec<u8>>,
        now: i64,
    ) -> (info: Option<PairingInfo>)
        requires
            pin matches Some(pin) ==> pin@.len() == 3,
            now + PAIR_WINDOW_SECS <= i64::MAX,
        ensures
            info is Some <==> secret is Some && pin is Some,
            match info {
                Some(info) => {
                    &&& info.secret@ == hex_text(secret->Some_0@)
                    &&& info.pin@ == pin_text(pin->Some_0@)
                    &&& info.expires_in_secs == PAIR_WINDOW_SECS
                    &&& final(self)@ == (AuthModel {
                        pairing: Some(
                            PairingModel {
                                secret: hex_text(secret->Some_0@),
                                pin: pin_text(pin->Some_0@),
                                expires_unix: (now + PAIR_WINDOW_SECS) as i64,
                            },
                        ),
                        ..old(self)@
                    })
                },
                None => final(self)@ == old(self)@,
            },
    {
        match (secret, pin) {
            (Some(secret), Some(pin)) => {
                Some(self.open_pairing(secret.as_slice(), pin.as_slice(), now))
            },
            _ => None,
        }
    }

    /// Opens a pairing with random bytes. Where none can be had, nothing changes.
    pub fn start_pairing(&mut self, now: i64) -> (info: Option<PairingInfo>)
        requires
            now + PAIR_WINDOW_SECS <= i64::MAX,
        ensures
            match info {
                Some(info) => {
                    &&& exists|secret: Seq<u8>, pin: Seq<u8>| #[trigger]
                        are_drawn(secret, pin, info)
                    &&& info.secret@.len() == 2 * CREDENTIAL_BYTES
                    &&& info.pin@.len() == 6
                    &&& info.expires_in_secs == PAIR_WINDOW_SECS
                    &&& final(self)@ == (AuthModel {
                        pairing: Some(
                            PairingModel {
                                secret: info.secret@,
                                pin: info.pin@,
                                expires_unix: (now + PAIR_WINDOW_SECS) as i64,
                            },
                        ),
                        ..old(self)@
                    })
                },
                None => final(self)@ == old(self)@,
            },
    {
        let secret = random_bytes(CREDENTIAL_BYTES);
        let pin = random_bytes(3);
        let ghost drawn = (secret, pin);
        let info = self.open_drawn_pairing(secret, pin, now);
        proof {
            if info is Some {
                assert(are_drawn(drawn.0->Some_0@, drawn.1->Some_0@, info->Some_0));
            }
        }
        info
    }

    /// Closes the pairing.
    pub fn stop_pairing(&mut self)
        ensures
            final(self)@ == (AuthModel { pairing: None, ..old(self)@ }),
    {
        self.pairing = None;
    }

    /// The pairing, while it is open.
    pub fn pairing_status(&self, now: i64) -> (info: Option<PairingInfo>)
        ensures
            match info {
                Some(info) => {
                    &&& is_open(self@.pairing, now)
                    &&& info.secret@ == self@.pairing->Some_0.secret
                    &&& info.pin@ == self@.pairing->Some_0.pin
                    &&& info.expires_in_secs == self@.pairing->Some_0.expires_unix - now
                },
                None => !is_open(self@.pairing, now),
            },
    {
        match &self.pairing {
            Some(pairing) => {
                let remaining = pairing.expires_unix as i128 - now as i128;
                if remaining <= 0 {
                    None
                } else {
                    Some(
                        PairingInfo {
                            secret: pairing.secret.clone(),
                            pin: pairing.pin.clone(),
                            expires_in_secs: remaining as u64,
                        },
                    )
                }
            },
            None => None,
        }
    }

    /// Looks at a request to pair.
    pub fn check_request(
        &mut self,
        secret: Option<&str>,
        pin: Option<&str>,
        client_ip: &str,
        now: i64,
    ) -> (result: Result<(), AuthError>)
        ensures
            ({
                let request = PairRequest {
                    secret: given_text(secret),
                    pin: given_text(pin),
                    ip: client_ip@,
                    now,
                };
                &&& final(self)@ == after_request(old(self)@, request)
                &&& match result {
                    Ok(_) => pairing_fault(old(self)@, request) is None,
                    Err(error) => pairing_fault(old(self)@, request) == Some(error@),
                }
            }),
    {
        let ghost view = |times: Vec<i64>| times@;
        let ip = client_ip.to_owned();
        proof {
            lemma_mapped(self.failures@, view, ip@);
        }
        let limited = match self.failures.get(&ip) {
            Some(times) => keep_recent(times, now).len() >= RATE_MAX_FAILURES,
            None => false,
        };
        prune(&mut self.failures, now);
        if limited {
            return Err(AuthError::RateLimited);
        }
        let valid = match &self.pairing {
            Some(pairing) => {
                if pairing.expires_unix <= now {
                    return Err(AuthError::PairingClosed);
                }
                let secret_ok = is_same(secret, &pairing.secret);
                let pin_ok = is_same(pin, &pairing.pin);
                secret_ok || pin_ok
            },
            None => {
                return Err(AuthError::PairingClosed);
            },
        };
        if !valid {
            record_failure(&mut self.failures, client_ip, now);
            return Err(AuthError::InvalidCredential);
        }
        self.pairing = None;
        Ok(())
    }

    /// Trusts a new device, and gives the credential that it is to show.
    pub fn trust(&mut self, credential: &[u8], id: Vec<u8>, client_name: &str, now: i64) -> (text:
        String)
        requires
            id@.len() == 16,
        ensures
            text@ == hex_text(credential@),
            final(self)@ == (AuthModel {
                devices: old(self)@.devices.push(
                    new_device(credential@, id@, client_name@, now),
                ),
                ..old(self)@
            }),
    {
        let ghost before = self@;
        let text = hex(credential);
        let device = TrustedDevice {
            id: uuid_v4(id),
            credential_hash: sha256_hex(text.as_str()),
            name: client_name.to_owned(),
            permission: "control".to_owned(),
            last_seen_unix: now,
        };
        self.devices.push(device);
        assert(self@.devices =~= before.devices.push(device@));
        text
    }

    /// Pairs a device: the secret or the PIN of the open pairing is exchanged for a
    /// credential, once. Where no random bytes can be had for one, the pairing is closed
    /// and no device is trusted.
    pub fn pair(
        &mut self,
        secret: Option<&str>,
        pin: Option<&str>,
        client_name: &str,
        client_ip: &str,
        now: i64,
    ) -> (result: Result<String, AuthError>)
        ensures
            ({
                let request = PairRequest {
                    secret: given_text(secret),
                    pin: given_text(pin),
                    ip: client_ip@,
                    now,
                };
                let looked = after_request(old(self)@, request);
                match (pairing_fault(old(self)@, request), result) {
                    (Some(fault), Err(error)) => error@ == fault && final(self)@ == looked,
                    (None, Ok(credential)) => newly_trusted(
                        looked,
                        final(self)@,
                        credential@,
                        client_name@,
                        now,
                    ),
                    (None, Err(error)) => error@ == AuthFault::NoRandomness && final(self)@
                        == looked,
                    (Some(_), Ok(_)) => false,
                }
            }),
    {
        match self.check_request(secret, pin, client_ip, now) {
            Ok(_) => {},
            Err(error) => {
                return Err(error);
            },
        }
        let ghost looked = self@;
        match (random_bytes(CREDENTIAL_BYTES), random_bytes(16)) {
            (Some(credential), Some(id)) => {
                let ghost device = new_device(credential@, id@, client_name@, now);
                let text = self.trust(credential.as_slice(), id, client_name, now);
                assert(newly_trusted(looked, self@, text@, client_name@, now)) by {
                    assert(device == new_device(credential@, id@, client_name@, now));
                }
                Ok(text)
            },
            _ => Err(AuthError::NoRandomness),
        }
    }

    /// Looks for the device that holds a credential, and notes that it was heard of.
    pub fn verify_credential(&mut self, cookie: Option<&str>, now: i64) -> (device: Option<
        DeviceSummary,
    >)
        ensures
            match cookie {
                Some(cookie) => {
                    let devices = old(self)@.devices;
                    let hash = text_hash(cookie@);
                    if has_hash(devices, hash) {
                        let at = hash_index(devices, hash);
                        &&& final(self)@ == (AuthModel {
                            devices: seen(devices, at, now),
                            ..old(self)@
                        })
                        &&& device matches Some(device) && device@ == summary_of(
                            seen(devices, at, now)[at],
                        )
                    } else {
                        device is None && final(self)@ == old(self)@
                    }
                },
                None => device is None && final(self)@ == old(self)@,
            },
    {
        let shown = match cookie {
            Some(shown) => shown,
            None => {
                return None;
            },
        };
        let hash = sha256_hex(shown);
        let ghost before = self@;
        let count = self.devices.len();
        let mut at: usize = 0;
        while at < count
            invariant
                *self == *old(self),
                before == self@,
                count == self.devices@.len(),
                at <= count,
                cookie == Some(shown),
                hash@ == text_hash(shown@),
                forall|j: int|
                    0 <= j < at ==> (#[trigger] before.devices[j]).credential_hash != hash@,
            decreases count - at,
        {
            assert(before.devices[at as int] == self.devices@[at as int]@);
            if self.devices[at].credential_hash == hash {
                proof {
                    lemma_hash_index(before.devices, hash@, at as int);
                }
                let mut device = self.devices[at].clone();
                device.last_seen_unix = now;
                let told = summary(&device);
                self.devices.set(at, device);
                assert(self@.devices =~= seen(before.devices, at as int, now));
                return Some(told);
            }
            at = at + 1;
        }
        None
    }

    /// What is told of the devices.
    pub fn list_devices(&self) -> (summaries: Vec<DeviceSummary>)
        ensures
            summary_models(summaries@) == self@.devices.map_values(
                |d: TrustedModel| summary_of(d),
            ),
    {
        let mut summaries: Vec<DeviceSummary> = Vec::new();
        for i in 0..self.devices.len()
            invariant
                summaries@.len() == i,
                forall|j: int|
                    0 <= j < i ==> (#[trigger] summaries@[j])@ == summary_of(self.devices@[j]@),
        {
            summaries.push(summary(&self.devices[i]));
        }
        assert(summary_models(summaries@) =~= self@.devices.map_values(
            |d: TrustedModel| summary_of(d),
        ));
        summaries
    }

    /// The devices as they are to be kept.
    pub fn devices(&self) -> (devices: &Vec<TrustedDevice>)
        ensures
            trusted_models(devices@) == self@.devices,
    {
        &self.devices
    }

    /// Notes that a device has opened a connection.
    pub fn register_connection(&mut self, device_id: &str, connection: u64)
        ensures
            final(self)@ == (AuthModel {
                connections: with_value(
                    old(self)@.connections,
                    device_id@,
                    connections_of(old(self)@.connections, device_id@).push(connection),
                ),
                ..old(self)@
            }),
    {
        let ghost view = |list: Vec<u64>| list@;
        let id = device_id.to_owned();
        let mut list: Vec<u64> = Vec::new();
        match self.connections.get(&id) {
            Some(open) => copy_connections(open, &mut list),
            None => {},
        }
        list.push(connection);
        proof {
            lemma_mapped(self.connections@, view, id@);
            lemma_mapped_with(self.connections@, view, id@, list);
        }
        self.connections.insert(id, list);
    }

    fn revoke_connections(&mut self, device_id: &String) -> (closed: Vec<u64>)
        ensures
            closed@ == connections_of(old(self)@.connections, device_id@),
            final(self)@ == (AuthModel {
                connections: without_key(old(self)@.connections, device_id@),
                ..old(self)@
            }),
    {
        let ghost view = |list: Vec<u64>| list@;
        proof {
            lemma_mapped(self.connections@, view, device_id@);
        }
        match self.connections.remove(device_id) {
            Some(list) => list,
            None => Vec::new(),
        }
    }

    /// Forgets a device, and gives the connections that are to be closed.
    pub fn forget(&mut self, device_id: &str) -> (result: Result<Vec<u64>, AuthError>)
        ensures
            match result {
                Ok(closed) => {
                    &&& has_device(old(self)@.devices, device_id@)
                    &&& closed@ == connections_of(old(self)@.connections, device_id@)
                    &&& final(self)@ == forgotten(old(self)@, device_id@)
                },
                Err(error) => {
                    &&& !has_device(old(self)@.devices, device_id@)
                    &&& error@ == AuthFault::DeviceNotFound
                    &&& final(self)@ == old(self)@
                },
            },
    {
        let id = device_id.to_owned();
        let ghost before = self@;
        let ghost keep = |d: TrustedModel| d.id != device_id@;
        let mut kept: Vec<TrustedDevice> = Vec::new();
        let mut found = false;
        assert(trusted_models(kept@) =~= before.devices.take(0).filter(keep)) by {
            reveal(Seq::filter);
        }
        for i in 0..self.devices.len()
            invariant
                before == self@,
                id@ == device_id@,
                keep == (|d: TrustedModel| d.id != device_id@),
                trusted_models(kept@) == before.devices.take(i as int).filter(keep),
                found == (exists|j: int|
                    0 <= j < i && (#[trigger] before.devices[j]).id == device_id@),
        {
            proof {
                lemma_filter_step(before.devices, i as int, keep);
            }
            assert(before.devices[i as int] == self.devices@[i as int]@);
            if self.devices[i].id == id {
                found = true;
            } else {
                let ghost so_far = trusted_models(kept@);
                kept.push(self.devices[i].clone());
                assert(trusted_models(kept@) =~= so_far.push(before.devices[i as int]));
            }
        }
        assert(before.devices.take(before.devices.len() as int) =~= before.devices);
        if !found {
            return Err(AuthError::DeviceNotFound);
        }
        self.devices = kept;
        let closed = self.revoke_connections(&id);
        Ok(closed)
    }

    /// Forgets every device, and gives the connections that are to be closed.
    pub fn reset(&mut self) -> (closed: Vec<u64>)
        ensures
            closed@ == connections_closed(
                old(self)@.connections,
                old(self)@.devices,
                old(self)@.devices.len(),
            ),
            final(self)@ == (AuthModel {
                devices: Seq::empty(),
                connections: connections_left(
                    old(self)@.connections,
                    old(self)@.devices,
                    old(self)@.devices.len(),
                ),
                ..old(self)@
            }),
    {
        let ghost before = self@;
        let mut closed: Vec<u64> = Vec::new();
        let count = self.devices.len();
        for i in 0..count
            invariant
                count == before.devices.len(),
                self@ == (AuthModel {
                    connections: connections_left(before.connections, before.devices, i as nat),
                    ..before
                }),
                closed@ == connections_closed(before.connections, before.devices, i as nat),
        {
            assert(self@.devices == trusted_models(self.devices@));
            let id = self.devices[i].id.clone();
            assert(before.devices[i as int].id == id@);
            let mut list = self.revoke_connections(&id);
            let ghost so_far = closed@;
            let ghost more = list@;
            closed.append(&mut list);
            assert(closed@ =~= so_far + more);
        }
        self.devices = Vec::new();
        assert(self@.devices =~= Seq::empty());
        closed
    }
}

/// Whether no address and no device is listed twice.
pub open spec fn is_sound(auth: AuthModel) -> bool {
    keys_differ(auth.failures) && keys_differ(auth.connections)
}

/// Nothing that happens lists an address or a device twice.
pub proof fn law_auth_stays_sound(auth: AuthModel, request: PairRequest, id: Seq<char>, n: u64)
    requires
        is_sound(auth),
    ensures
        is_sound(after_request(auth, request)),
        is_sound(forgotten(auth, id)),
        keys_differ(
            with_value(
                auth.connections,
                id,
                connections_of(auth.connections, id).push(n),
            ),
        ),
        keys_differ(connections_left(auth.connections, auth.devices, auth.devices.len())),
{
    let counts = |times: Seq<i64>| still_counts(times, request.now);
    lemma_kept(auth.failures, counts, request.ip);
    let failures = pruned(auth.failures, request.now);
    let times = match value_of(failures, request.ip) {
        Some(times) => times,
        None => Seq::empty(),
    };
    lemma_keys_stay_different(
        failures,
        request.ip,
        recent(times.push(request.now), request.now),
    );
    lemma_keys_stay_different(
        auth.connections,
        id,
        connections_of(auth.connections, id).push(n),
    );
    lemma_left_differ(auth.connections, auth.devices, auth.devices.len());
}

proof fn lemma_left_differ(
    connections: Seq<(Seq<char>, Seq<u64>)>,
    devices: Seq<TrustedModel>,
    n: nat,
)
    requires
        keys_differ(connections),
    ensures
        keys_differ(connections_left(connections, devices, n)),
    decreases n,
{
    if n > 0 {
        lemma_left_differ(connections, devices, (n - 1) as nat);
        lemma_keys_stay_different(
            connections_left(connections, devices, (n - 1) as nat),
            devices[n - 1].id,
            Seq::empty(),
        );
    }
}

/// A pairing is good for one device: a request after the one that it was used for is
/// turned away, whatever it says.
pub proof fn law_pairing_is_used_once(auth: AuthModel, first: PairRequest, second: PairRequest)
    requires
        pairing_fault(auth, first) is None,
    ensures
        pairing_fault(after_request(auth, first), second) == Some(AuthFault::PairingClosed)
            || pairing_fault(after_request(auth, first), second) == Some(AuthFault::RateLimited),
{
}

/// The credential that a device was given is one that it can show.
pub proof fn law_credential_is_accepted(
    before: AuthModel,
    after: AuthModel,
    credential: Seq<char>,
    name: Seq<char>,
    now: i64,
)
    requires
        newly_trusted(before, after, credential, name, now),
    ensures
        has_hash(after.devices, text_hash(credential)),
{
    let (bytes, id) = choose|bytes: Seq<u8>, id: Seq<u8>|
        bytes.len() == CREDENTIAL_BYTES && id.len() == 16 && credential == hex_text(bytes) && after
            == (AuthModel {
            devices: before.devices.push(#[trigger] new_device(bytes, id, name, now)),
            ..before
        });
    assert(after.devices[before.devices.len() as int].credential_hash == text_hash(credential));
}

/// A request that is turned away makes no device trusted, and neither closes the pairing
/// nor any connection.
pub proof fn law_refusal_keeps_devices(auth: AuthModel, request: PairRequest)
    requires
        pairing_fault(auth, request) is Some,
    ensures
        after_request(auth, request).devices == auth.devices,
        after_request(auth, request).pairing == auth.pairing,
        after_request(auth, request).connections == auth.connections,
{
}

proof fn lemma_kept_devices(devices: Seq<TrustedModel>, id: Seq<char>, i: int)
    requires
        0 <= i < without_device(devices, id).len(),
    ensures
        without_device(devices, id)[i].id != id,
        devices.contains(without_device(devices, id)[i]),
    decreases devices.len(),
{
    reveal(Seq::filter);
    let init = devices.drop_last();
    let part = without_device(init, id);
    if i < part.len() {
        lemma_kept_devices(init, id, i);
        let k = choose|k: int| 0 <= k < init.len() && init[k] == part[i];
        assert(devices[k] == part[i]);
    } else {
        assert(devices[devices.len() - 1] == devices.last());
    }
}

proof fn lemma_device_stays(devices: Seq<TrustedModel>, id: Seq<char>, i: int)
    requires
        0 <= i < devices.len(),
        devices[i].id != id,
    ensures
        without_device(devices, id).contains(devices[i]),
    decreases devices.len(),
{
    reveal(Seq::filter);
    let init = devices.drop_last();
    let part = without_device(init, id);
    let all = without_device(devices, id);
    if i < init.len() {
        lemma_device_stays(init, id, i);
        let k = choose|k: int| 0 <= k < part.len() && part[k] == devices[i];
        assert(all[k] == devices[i]);
    } else {
        assert(all[part.len() as int] == devices[i]);
    }
}

/// A device that was forgotten is gone, and so is a credential that only it held; its
/// connections are closed. The other devices stay.
pub proof fn law_forgotten_device_is_gone(auth: AuthModel, id: Seq<char>, hash: Seq<char>)
    requires
        is_sound(auth),
    ensures
        !has_device(forgotten(auth, id).devices, id),
        connections_of(forgotten(auth, id).connections, id) == Seq::<u64>::empty(),
        (forall|i: int|
            0 <= i < auth.devices.len() && (#[trigger] auth.devices[i]).credential_hash == hash
                ==> auth.devices[i].id == id) ==> !has_hash(forgotten(auth, id).devices, hash),
        forall|i: int|
            0 <= i < auth.devices.len() && (#[trigger] auth.devices[i]).id != id ==> forgotten(
                auth,
                id,
            ).devices.contains(auth.devices[i]),
{
    let left = forgotten(auth, id).devices;
    law_removed_key_is_gone(auth.connections, id);
    assert forall|i: int| 0 <= i < left.len() implies (#[trigger] left[i]).id != id
        && auth.devices.contains(left[i]) by {
        lemma_kept_devices(auth.devices, id, i);
    }
    assert forall|i: int|
        0 <= i < auth.devices.len() && (#[trigger] auth.devices[i]).id != id implies left.contains(
        auth.devices[i],
    ) by {
        lemma_device_stays(auth.devices, id, i);
    }
    if has_hash(left, hash) && (forall|i: int|
        0 <= i < auth.devices.len() && (#[trigger] auth.devices[i]).credential_hash == hash
            ==> auth.devices[i].id == id) {
        let i = choose|i: int| 0 <= i < left.len() && (#[trigger] left[i]).credential_hash == hash;
        let k = choose|k: int| 0 <= k < auth.devices.len() && auth.devices[k] == left[i];
        assert(auth.devices[k].credential_hash == hash);
    }
}

/// After a wrong secret or PIN the address has one failure more beside those that still
/// count; the failures of the other addresses stay while they count.
pub proof fn law_wrong_try_counts(
    auth: AuthModel,
    request: PairRequest,
    times: Seq<i64>,
    other: Seq<char>,
)
    requires
        is_sound(auth),
        pairing_fault(auth, request) == Some(AuthFault::InvalidCredential),
        value_of(auth.failures, request.ip) == Some(times) || value_of(
            auth.failures,
            request.ip,
        ) is None && times.len() == 0,
    ensures
        value_of(after_request(auth, request).failures, request.ip) == Some(
            recent(times, request.now).push(request.now),
        ),
        other != request.ip ==> value_of(after_request(auth, request).failures, other)
            == value_of(pruned(auth.failures, request.now), other),
{
    let counts = |times: Seq<i64>| still_counts(times, request.now);
    lemma_kept(auth.failures, counts, request.ip);
    let failures = pruned(auth.failures, request.now);
    let known = match value_of(failures, request.ip) {
        Some(known) => known,
        None => Seq::empty(),
    };
    assert(recent(known, request.now) =~= recent(times, request.now)) by {
        reveal(Seq::filter);
    }
    assert(recent(known.push(request.now), request.now) =~= recent(known, request.now).push(
        request.now,
    )) by {
        reveal(Seq::filter);
        assert(known.push(request.now).drop_last() =~= known);
    }
    law_inserted_value_is_found(
        failures,
        request.ip,
        recent(known.push(request.now), request.now),
        other,
    );
}

/// An address that has failed five times within the last minute is turned away, whatever it
/// says, and being turned away changes nothing for it.
pub proof fn law_limit_holds(auth: AuthModel, request: PairRequest, times: Seq<i64>)
    requires
        is_sound(auth),
        value_of(auth.failures, request.ip) == Some(times),
        recent(times, request.now).len() >= RATE_MAX_FAILURES,
    ensures
        pairing_fault(auth, request) == Some(AuthFault::RateLimited),
        value_of(after_request(auth, request).failures, request.ip) == Some(times),
{
    let counts = |times: Seq<i64>| still_counts(times, request.now);
    lemma_kept(auth.failures, counts, request.ip);
}

/// An address with fewer than five failures within the last minute may try, however often it
/// failed before.
pub proof fn law_limit_ends(auth: AuthModel, request: PairRequest, times: Seq<i64>)
    requires
        value_of(auth.failures, request.ip) == Some(times),
        recent(times, request.now).len() < RATE_MAX_FAILURES,
    ensures
        pairing_fault(auth, request) != Some(AuthFault::RateLimited),
{
}

/// As time goes by, fewer failures count.
proof fn lemma_recent_shrinks(times: Seq<i64>, now: i64, later: i64)
    requires
        now <= later,
    ensures
        recent(times, later).len() <= recent(times, now).len(),
    decreases times.len(),
{
    reveal(Seq::filter);
    if times.len() > 0 {
        lemma_recent_shrinks(times.drop_last(), now, later);
    }
}

/// Whether a character is a digit or one of the small letters up to `f`.
pub open spec fn is_hex_char(c: char) -> bool {
    '0' <= c <= '9' || 'a' <= c <= 'f'
}

/// A device that pairs is trusted from then on: the credential that it gets is 64 hex
/// digits; exactly one device is new, under the device's name, and may control; the
/// credential leads to that device, unless an earlier device shares its hash; and the
/// pairing is used up, so that the same address is told that it is closed from then on.
pub proof fn law_pairing_makes_trusted(
    auth: AuthModel,
    request: PairRequest,
    after: AuthModel,
    credential: Seq<char>,
    name: Seq<char>,
    again: PairRequest,
)
    requires
        is_sound(auth),
        pairing_fault(auth, request) is None,
        newly_trusted(after_request(auth, request), after, credential, name, request.now),
        !has_hash(auth.devices, text_hash(credential)),
        again.ip == request.ip,
        again.now >= request.now,
    ensures
        credential.len() == 64,
        forall|i: int| 0 <= i < credential.len() ==> is_hex_char(#[trigger] credential[i]),
        ({
            let at = auth.devices.len() as int;
            let device = after.devices[at];
            &&& after.devices == auth.devices.push(device)
            &&& device.name == name
            &&& device.permission == "control"@
            &&& device.last_seen_unix == request.now
            &&& has_hash(after.devices, text_hash(credential))
            &&& hash_index(after.devices, text_hash(credential)) == at
        }),
        after.pairing is None,
        after.connections == auth.connections,
        pairing_fault(after, again) == Some(AuthFault::PairingClosed),
{
    let looked = after_request(auth, request);
    let (bytes, id) = choose|bytes: Seq<u8>, id: Seq<u8>|
        bytes.len() == CREDENTIAL_BYTES && id.len() == 16 && credential == hex_text(bytes) && after
            == (AuthModel {
            devices: looked.devices.push(#[trigger] new_device(bytes, id, name, request.now)),
            ..looked
        });
    let at = auth.devices.len() as int;
    let hash = text_hash(credential);
    assert(after.devices[at].credential_hash == hash);
    assert forall|i: int| 0 <= i < at implies (#[trigger] after.devices[i]).credential_hash
        != hash by {
        assert(after.devices[i] == auth.devices[i]);
    }
    lemma_hash_index(after.devices, hash, at);
    let counts = |times: Seq<i64>| still_counts(times, request.now);
    lemma_kept(auth.failures, counts, request.ip);
    if let Some(times) = value_of(auth.failures, request.ip) {
        lemma_recent_shrinks(times, request.now, again.now);
    }
}

/// When every device has been forgotten, none of them has a connection.
pub proof fn law_reset_closes_connections(auth: AuthModel, i: int)
    requires
        is_sound(auth),
        0 <= i < auth.devices.len(),
    ensures
        connections_of(
            connections_left(auth.connections, auth.devices, auth.devices.len()),
            auth.devices[i].id,
        ) == Seq::<u64>::empty(),
{
    lemma_left_without(auth.connections, auth.devices, auth.devices.len(), i);
}

pub(crate) proof fn lemma_left_without(
    connections: Seq<(Seq<char>, Seq<u64>)>,
    devices: Seq<TrustedModel>,
    n: nat,
    i: int,
)
    requires
        keys_differ(connections),
        0 <= i < n <= devices.len(),
    ensures
        value_of(connections_left(connections, devices, n), devices[i].id) is None,
    decreases n,
{
    let before = connections_left(connections, devices, (n - 1) as nat);
    let after = connections_left(connections, devices, n);
    lemma_left_differ(connections, devices, (n - 1) as nat);
    law_removed_key_is_gone(before, devices[n - 1].id);
    if i < n - 1 {
        lemma_left_without(connections, devices, (n - 1) as nat, i);
        if has_key(after, devices[i].id) {
            let k = choose|k: int|
                0 <= k < after.len() && (#[trigger] after[k]).0 == devices[i].id;
            if has_key(before, devices[n - 1].id) {
                lemma_key_index(before, devices[n - 1].id);
                let at = key_index(before, devices[n - 1].id);
                if k < at {
                    assert(before[k].0 == devices[i].id);
                } else {
                    assert(before[k + 1].0 == devices[i].id);
                }
            } else {
                assert(before[k].0 == devices[i].id);
            }
        }
    }
}

/// A credential stays accepted, whoever asks to pair, whoever is trusted besides, and whoever
/// is heard of: only forgetting devices ends it.
pub proof fn law_trust_lasts(
    auth: AuthModel,
    request: PairRequest,
    after: AuthModel,
    credential: Seq<char>,
    name: Seq<char>,
    at: int,
    now: i64,
    hash: Seq<char>,
)
    requires
        has_hash(auth.devices, hash),
        0 <= at < auth.devices.len(),
        newly_trusted(auth, after, credential, name, now),
    ensures
        has_hash(after_request(auth, request).devices, hash),
        has_hash(after.devices, hash),
        has_hash(seen(auth.devices, at, now), hash),
{
    let i = choose|i: int|
        0 <= i < auth.devices.len() && (#[trigger] auth.devices[i]).credential_hash == hash;
    assert(after_request(auth, request).devices[i].credential_hash == hash);
    let (bytes, id) = choose|bytes: Seq<u8>, id: Seq<u8>|
        bytes.len() == CREDENTIAL_BYTES && id.len() == 16 && credential == hex_text(bytes) && after
            == (AuthModel {
            devices: auth.devices.push(#[trigger] new_device(bytes, id, name, now)),
            ..auth
        });
    assert(after.devices[i] == auth.devices[i]);
    assert(seen(auth.devices, at, now)[i].credential_hash == hash);
}

} // verus!
