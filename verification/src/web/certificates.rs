//! The certificates of the console: the authority that signs them, and the one for the
//! addresses of the machine.

use crate::network::addresses::{address_text, shown, Ipv4};
use crate::text::{chars_of, joined};
use crate::web::server::{WebServerError, WebServerFault};
use crate::web::tls::{
    address_texts, is_stale, issued_meta, needs_reissue, ServerCertMeta, CA_VALIDITY_SECS,
    SERVER_CERT_VALIDITY_SECS,
};
use rcgen::{BasicConstraints, CertificateParams, DnType, DnValue, IsCa, KeyPair};
use time::OffsetDateTime;
use vstd::prelude::*;

verus! {

/// How long before it is made a certificate begins, in seconds: clocks differ.
pub const VALID_BEFORE_SECS: i64 = 86_400;

/// What a certificate is to say of its holder and its time.
#[derive(Debug, PartialEq, Eq)]
pub struct CertificateRequest {
    pub common_name: String,
    /// When it begins and ends, in seconds of Unix time.
    pub not_before: i64,
    pub not_after: i64,
}

/// What a certificate says.
#[verifier::ext_equal]
pub struct CertificateModel {
    pub common_name: Seq<char>,
    /// Whether it may sign others.
    pub is_ca: bool,
    /// The hosts and the addresses that it is for.
    pub names: Seq<Seq<char>>,
    pub not_before: int,
    pub not_after: int,
}

/// A certificate and its key, both in PEM.
#[derive(Debug, PartialEq, Eq)]
pub struct PemPair {
    pub cert: String,
    pub key: String,
}

/// An entry of the subject of a certificate, as far as it decides whether the subject can be
/// written.
#[derive(Debug, PartialEq, Eq)]
pub struct SubjectEntry {
    /// The object identifier of the attribute, unless it is one of the usual ones.
    pub kind: Option<Vec<u64>>,
    /// The value, where it is a printable string.
    pub printable: Option<String>,
}

/// What a `SubjectEntry` says.
#[verifier::ext_equal]
pub struct SubjectEntryModel {
    pub kind: Option<Seq<u64>>,
    pub printable: Option<Seq<char>>,
}

impl View for SubjectEntry {
    type V = SubjectEntryModel;

    open spec fn view(&self) -> SubjectEntryModel {
        SubjectEntryModel {
            kind: match self.kind {
                Some(kind) => Some(kind@),
                None => None,
            },
            printable: crate::routing::optional_text(self.printable),
        }
    }
}

/// What some entries say.
pub open spec fn entry_models(entries: Seq<SubjectEntry>) -> Seq<SubjectEntryModel> {
    entries.map_values(|e: SubjectEntry| e@)
}

/// What a certificate in PEM says: its subject, what it is for, and when it is valid.
pub uninterp spec fn certificate_says(cert: Seq<char>) -> CertificateModel;

/// The public key that a certificate in PEM is for.
pub uninterp spec fn certificate_key(cert: Seq<char>) -> Seq<u8>;

/// The public key that belongs to a private key in PEM.
pub uninterp spec fn public_key(key: Seq<char>) -> Seq<u8>;

/// Whether the signature of a certificate in PEM holds under a public key.
pub uninterp spec fn signed_with(cert: Seq<char>, key: Seq<u8>) -> bool;

/// The name of the holder of a certificate in PEM, as it is encoded there.
pub uninterp spec fn subject_name(cert: Seq<char>) -> Seq<u8>;

/// The name of the issuer of a certificate in PEM, as it is encoded there.
pub uninterp spec fn issuer_name(cert: Seq<char>) -> Seq<u8>;

/// The encoded name that `rcgen::CertificateParams::from_ca_cert_pem` makes of the holder of
/// a certificate in PEM. It keeps one value of each type of attribute: where a type is
/// repeated, the last.
pub uninterp spec fn name_as_read(cert: Seq<char>) -> Seq<u8>;

/// The subject of a certificate in PEM, or why the text cannot be read as one.
pub uninterp spec fn certificate_subject(cert: Seq<char>) -> Result<
    Seq<SubjectEntryModel>,
    Seq<char>,
>;

/// The largest second number of an object identifier that can be written.
pub const LAST_SECOND_ARC: u64 = 18_446_744_073_709_551_534;

/// Whether an object identifier can be written: it has two numbers at least, and the first
/// two fit into one.
pub open spec fn identifier_is_writable(kind: Seq<u64>) -> bool {
    &&& kind.len() >= 2
    &&& kind[0] <= 2
    &&& kind[1] <= LAST_SECOND_ARC
    &&& kind[0] < 2 ==> kind[1] < 40
}

/// Whether an entry can be written. A printable string is written without question marks.
pub open spec fn entry_is_writable(entry: SubjectEntryModel) -> bool {
    &&& entry.kind matches Some(kind) ==> identifier_is_writable(kind)
    &&& entry.printable matches Some(text) ==> !text.contains('?')
}

/// Whether every entry of a subject can be written.
pub open spec fn subject_is_writable(entries: Seq<SubjectEntryModel>) -> bool {
    forall|i: int| 0 <= i < entries.len() ==> entry_is_writable(#[trigger] entries[i])
}

/// Why a text cannot serve as the certificate of an authority, if it cannot: it cannot be
/// read, or its subject cannot be written as that of an issuer.
pub open spec fn certificate_fault(cert: Seq<char>) -> Option<Seq<char>> {
    match certificate_subject(cert) {
        Err(reason) => Some(reason),
        Ok(entries) => if subject_is_writable(entries) {
            None
        } else {
            Some("证书主题无法写出"@)
        },
    }
}

/// Calls `rcgen::KeyPair::generate` and gives the key in PEM. The key is drawn at random, so
/// nothing is said of it, nor of whether randomness was there.
#[verifier::external_body]
fn generate_key() -> (key: Result<String, String>) {
    KeyPair::generate().map(|key| key.serialize_pem()).map_err(|error| error.to_string())
}

/// Calls `rcgen::KeyPair::from_pem` and says whether the text is a key. Loading a key draws
/// randomness, which may be missing, so nothing is said of the outcome.
#[verifier::external_body]
fn check_key(key: &str) -> (result: Result<(), String>) {
    KeyPair::from_pem(key).map(|_| ()).map_err(|error| error.to_string())
}

/// Calls `rcgen::CertificateParams::from_ca_cert_pem` and gives the entries of the subject.
/// Nothing else of the certificate is looked at, not even whether it may sign others.
#[verifier::external_body]
fn read_subject(cert: &str) -> (result: Result<Vec<SubjectEntry>, String>)
    ensures
        match result {
            Ok(entries) => certificate_subject(cert@) == Ok::<Seq<SubjectEntryModel>, Seq<char>>(
                entry_models(entries@),
            ),
            Err(reason) => certificate_subject(cert@) == Err::<Seq<SubjectEntryModel>, Seq<char>>(
                reason@,
            ),
        },
{
    let entry = |(kind, value): (&DnType, &DnValue)| SubjectEntry {
        kind: match kind {
            DnType::CustomDnType(kind) => Some(kind.clone()),
            _ => None,
        },
        printable: match value {
            DnValue::PrintableString(text) => Some(text.as_str().to_owned()),
            _ => None,
        },
    };
    CertificateParams::from_ca_cert_pem(cert)
        .map(|params| params.distinguished_name.iter().map(entry).collect())
        .map_err(|error| error.to_string())
}

fn can_be_written(entry: &SubjectEntry) -> (writable: bool)
    ensures
        writable == entry_is_writable(entry@),
{
    let kind_fits = match &entry.kind {
        Some(kind) => kind.len() >= 2 && kind[0] <= 2 && kind[1] <= LAST_SECOND_ARC && (kind[0]
            == 2 || kind[1] < 40),
        None => true,
    };
    let text_fits = match &entry.printable {
        Some(text) => !has_question_mark(text.as_str()),
        None => true,
    };
    kind_fits && text_fits
}

fn has_question_mark(text: &str) -> (has: bool)
    ensures
        has == text@.contains('?'),
{
    let chars = chars_of(text);
    for i in 0..chars.len()
        invariant
            chars@ == text@,
            forall|j: int| 0 <= j < i ==> chars@[j] != '?',
    {
        if chars[i] == '?' {
            return true;
        }
    }
    false
}

/// Says whether a text can serve as the certificate of an authority.
pub fn check_authority(cert: &str) -> (result: Result<(), String>)
    ensures
        match result {
            Ok(_) => certificate_fault(cert@) is None,
            Err(reason) => certificate_fault(cert@) == Some(reason@),
        },
{
    let entries = match read_subject(cert) {
        Ok(entries) => entries,
        Err(reason) => {
            return Err(reason);
        },
    };
    for i in 0..entries.len()
        invariant
            certificate_subject(cert@) == Ok::<Seq<SubjectEntryModel>, Seq<char>>(
                entry_models(entries@),
            ),
            forall|j: int| 0 <= j < i ==> entry_is_writable((#[trigger] entries@[j])@),
    {
        assert(entry_models(entries@)[i as int] == entries@[i as int]@);
        if !can_be_written(&entries[i]) {
            assert(!subject_is_writable(entry_models(entries@)));
            return Err("证书主题无法写出".to_owned());
        }
    }
    Ok(())
}

/// Calls `rcgen::CertificateParams::self_signed` for an issuer with the subject of a
/// certificate and with a key, both in PEM, and says whether it can be signed anew. A
/// signature draws randomness, so nothing is said of the outcome. The call panics where the
/// subject cannot be written.
#[verifier::external_body]
fn restore_issuer(cert: &str, key: &str) -> (result: Result<(), String>)
    requires
        certificate_fault(cert@) is None,
{
    let restored = || {
        let found = CertificateParams::from_ca_cert_pem(cert)?;
        let mut issuer = CertificateParams::default();
        issuer.distinguished_name = found.distinguished_name;
        issuer.self_signed(&KeyPair::from_pem(key)?)
    };
    restored().map(|_| ()).map_err(|error| error.to_string())
}

/// Calls `rcgen::CertificateParams::self_signed` with a key in PEM, and gives the certificate
/// in PEM: one of an authority, that says what it is to say, is for the key's public key and
/// signed with the key. Its subject is a common name, which is its issuer as well and reads
/// back as it is. A signature draws randomness, so nothing is said of whether there is one.
#[verifier::external_body]
fn self_sign(request: &CertificateRequest, key: &str) -> (result: Result<String, String>)
    requires
        -VALID_BEFORE_SECS <= request.not_before <= request.not_after,
    ensures
        result matches Ok(cert) ==> certificate_says(cert@) == (CertificateModel {
            common_name: request.common_name@,
            is_ca: true,
            names: Seq::empty(),
            not_before: request.not_before as int,
            not_after: request.not_after as int,
        }),
        result matches Ok(cert) ==> {
            &&& certificate_subject(cert@) == Ok::<Seq<SubjectEntryModel>, Seq<char>>(
                seq![SubjectEntryModel { kind: None, printable: None }],
            )
            &&& certificate_key(cert@) == public_key(key@)
            &&& signed_with(cert@, public_key(key@))
            &&& subject_name(cert@) == name_as_read(cert@)
            &&& issuer_name(cert@) == name_as_read(cert@)
        },
{
    let time = |at| OffsetDateTime::from_unix_timestamp(at).map_err(|_| rcgen::Error::Time);
    let signed = || {
        let mut params = CertificateParams::default();
        params.is_ca = IsCa::Ca(BasicConstraints::Unconstrained);
        params.distinguished_name.push(DnType::CommonName, request.common_name.as_str());
        params.not_before = time(request.not_before)?;
        params.not_after = time(request.not_after)?;
        params.self_signed(&KeyPair::from_pem(key)?)
    };
    signed().map(|cert| cert.pem()).map_err(|error| error.to_string())
}

/// The names that a certificate of the console is for: the machine itself, and its
/// addresses.
pub open spec fn console_names(ips: Seq<Ipv4>) -> Seq<Seq<char>> {
    seq!["localhost"@] + ips.map_values(|a: Ipv4| address_text(a))
}

/// Calls `rcgen::CertificateParams::signed_by` with a key and an authority in PEM, and gives
/// the certificate in PEM: one for some names, that says what it is to say, is for the key's
/// public key and signed with the authority's key, and names as its issuer what is read as the
/// authority's subject. An address in dotted decimals stands in it as an address, and reads
/// back in the same form. A signature draws randomness, so nothing is said of whether there is
/// one. The call panics where the authority's subject cannot be written.
#[verifier::external_body]
fn sign(request: &CertificateRequest, names: Vec<String>, key: &str, authority: &PemPair)
    -> (result: Result<String, String>)
    requires
        -VALID_BEFORE_SECS <= request.not_before <= request.not_after,
        exists|ips: Seq<Ipv4>| shown(names@) == #[trigger] console_names(ips),
        certificate_fault(authority.cert@) is None,
    ensures
        result matches Ok(cert) ==> certificate_says(cert@) == (CertificateModel {
            common_name: request.common_name@,
            is_ca: false,
            names: shown(names@),
            not_before: request.not_before as int,
            not_after: request.not_after as int,
        }),
        result matches Ok(cert) ==> {
            &&& certificate_key(cert@) == public_key(key@)
            &&& signed_with(cert@, public_key(authority.key@))
            &&& issuer_name(cert@) == name_as_read(authority.cert@)
        },
{
    let time = |at| OffsetDateTime::from_unix_timestamp(at).map_err(|_| rcgen::Error::Time);
    let signed = || {
        let mut params = CertificateParams::new(names)?;
        params.distinguished_name.push(DnType::CommonName, request.common_name.as_str());
        params.not_before = time(request.not_before)?;
        params.not_after = time(request.not_after)?;
        let signer = KeyPair::from_pem(&authority.key)?;
        let found = CertificateParams::from_ca_cert_pem(&authority.cert)?;
        let mut issuer = CertificateParams::default();
        issuer.distinguished_name = found.distinguished_name;
        params.signed_by(&KeyPair::from_pem(key)?, &issuer.self_signed(&signer)?, &signer)
    };
    signed().map(|cert| cert.pem()).map_err(|error| error.to_string())
}

/// What the certificate of an authority says.
pub open spec fn authority_certificate(now: int) -> CertificateModel {
    CertificateModel {
        common_name: "LoopMaster Local CA"@,
        is_ca: true,
        names: Seq::empty(),
        not_before: now - VALID_BEFORE_SECS,
        not_after: now + CA_VALIDITY_SECS,
    }
}

/// What the certificate of the console says: it is for the machine itself and for its
/// addresses.
pub open spec fn console_certificate(ips: Seq<Ipv4>, now: int) -> CertificateModel {
    CertificateModel {
        common_name: "LoopMaster Web Console"@,
        is_ca: false,
        names: console_names(ips),
        not_before: now - VALID_BEFORE_SECS,
        not_after: now + SERVER_CERT_VALIDITY_SECS,
    }
}

/// Whether an error tells that something failed, and why.
pub open spec fn fails_for(fault: WebServerFault, what: Seq<char>, reason: Seq<char>) -> bool {
    fault == WebServerFault::Tls(what + reason)
}

/// Takes what a call gave, or tells what it was for and why it failed.
pub fn or_told<T>(result: Result<T, String>, what: &str) -> (told: Result<T, WebServerError>)
    ensures
        match (result, told) {
            (Ok(value), Ok(taken)) => taken == value,
            (Err(reason), Err(error)) => fails_for(error@, what@, reason@),
            _ => false,
        },
{
    match result {
        Ok(value) => Ok(value),
        Err(reason) => Err(WebServerError::Tls(joined(what, reason.as_str()))),
    }
}

/// Whether an error tells that one of two things failed.
pub open spec fn tells_either(fault: WebServerFault, first: Seq<char>, second: Seq<char>) -> bool {
    ||| exists|reason: Seq<char>| #[trigger] fails_for(fault, first, reason)
    ||| exists|reason: Seq<char>| #[trigger] fails_for(fault, second, reason)
}

/// Whether a pair is a new authority: its certificate is that of an authority, for the
/// pair's own key and signed with it, and serves to sign others.
pub open spec fn is_new_authority(pair: PemPair, now: int) -> bool {
    &&& certificate_says(pair.cert@) == authority_certificate(now)
    &&& certificate_fault(pair.cert@) is None
    &&& certificate_key(pair.cert@) == public_key(pair.key@)
    &&& signed_with(pair.cert@, public_key(pair.key@))
    &&& subject_name(pair.cert@) == name_as_read(pair.cert@)
    &&& issuer_name(pair.cert@) == name_as_read(pair.cert@)
}

/// Makes an authority: a new key, and a certificate that it signs itself.
fn new_authority(now: i64) -> (result: Result<PemPair, WebServerError>)
    requires
        now >= 0,
        now + CA_VALIDITY_SECS <= i64::MAX,
    ensures
        match result {
            Ok(pair) => is_new_authority(pair, now as int),
            Err(error) => tells_either(error@, "生成 CA 私钥失败: "@, "自签 CA 失败: "@),
        },
{
    let key = match or_told(generate_key(), "生成 CA 私钥失败: ") {
        Ok(key) => key,
        Err(error) => {
            return Err(error);
        },
    };
    let request = CertificateRequest {
        common_name: "LoopMaster Local CA".to_owned(),
        not_before: now - VALID_BEFORE_SECS,
        not_after: now + CA_VALIDITY_SECS,
    };
    match or_told(self_sign(&request, key.as_str()), "自签 CA 失败: ") {
        Ok(cert) => Ok(PemPair { cert, key }),
        Err(error) => Err(error),
    }
}

/// Whether a pair that was found serves as the authority: its key has to be a key, its
/// certificate one that can serve, and the issuer has to be signed anew.
pub fn judge_authority(
    found: PemPair,
    key: Result<(), String>,
    cert: Result<(), String>,
    restored: Result<(), String>,
) -> (result: Result<PemPair, WebServerError>)
    ensures
        match (key, cert, restored, result) {
            (Err(reason), _, _, Err(error)) => fails_for(
                error@,
                "恢复 CA 私钥失败: "@,
                reason@,
            ),
            (Ok(_), Err(reason), _, Err(error)) => fails_for(
                error@,
                "解析 CA 证书失败: "@,
                reason@,
            ),
            (Ok(_), Ok(_), Err(reason), Err(error)) => fails_for(
                error@,
                "恢复 CA 证书失败: "@,
                reason@,
            ),
            (Ok(_), Ok(_), Ok(_), Ok(pair)) => pair == found,
            _ => false,
        },
{
    match or_told(key, "恢复 CA 私钥失败: ") {
        Ok(_) => {},
        Err(error) => {
            return Err(error);
        },
    }
    match or_told(cert, "解析 CA 证书失败: ") {
        Ok(_) => {},
        Err(error) => {
            return Err(error);
        },
    }
    match or_told(restored, "恢复 CA 证书失败: ") {
        Ok(_) => Ok(found),
        Err(error) => Err(error),
    }
}

/// What is answered where a pair was found: the pair itself, unless its key cannot be read,
/// its certificate cannot serve, or the issuer cannot be signed anew.
pub open spec fn authority_answer(
    found: Option<PemPair>,
    result: Result<(PemPair, bool), WebServerError>,
) -> bool {
    found matches Some(pair) && match result {
        Ok((authority, fresh)) => !fresh && authority == pair && certificate_fault(
            pair.cert@,
        ) is None,
        Err(error) => {
            ||| tells_key_or_issuer(error@) && (certificate_fault(pair.cert@) is Some ==> exists|
                reason: Seq<char>,
            | #[trigger]
                fails_for(error@, "恢复 CA 私钥失败: "@, reason))
            ||| (certificate_fault(pair.cert@) matches Some(reason) && fails_for(
                error@,
                "解析 CA 证书失败: "@,
                reason,
            ))
        },
    }
}

/// Whether an error tells that the key of an authority could not be read, or that the
/// issuer could not be signed anew.
pub open spec fn tells_key_or_issuer(fault: WebServerFault) -> bool {
    tells_either(fault, "恢复 CA 私钥失败: "@, "恢复 CA 证书失败: "@)
}

/// The authority of the console: the one that was found, or a new one. Says as well whether
/// it is new, and so has to be stored.
///
/// The authority stays the same for as long as its files are there, so that a device has to
/// trust it only once.
pub fn ensure_ca(found: Option<PemPair>, now: i64) -> (result: Result<
    (PemPair, bool),
    WebServerError,
>)
    requires
        now >= 0,
        now + CA_VALIDITY_SECS <= i64::MAX,
    ensures
        found is Some ==> authority_answer(found, result),
        found is None ==> match result {
            Ok((authority, fresh)) => fresh && is_new_authority(authority, now as int),
            Err(error) => tells_either(error@, "生成 CA 私钥失败: "@, "自签 CA 失败: "@),
        },
{
    match found {
        Some(pair) => {
            let key = check_key(pair.key.as_str());
            let cert = check_authority(pair.cert.as_str());
            let restored = if key.is_ok() && cert.is_ok() {
                restore_issuer(pair.cert.as_str(), pair.key.as_str())
            } else {
                Ok(())
            };
            match judge_authority(pair, key, cert, restored) {
                Ok(authority) => Ok((authority, false)),
                Err(error) => Err(error),
            }
        },
        None => match new_authority(now) {
            Ok(authority) => Ok((authority, true)),
            Err(error) => Err(error),
        },
    }
}

/// A certificate of the console that was made, and what is known of it.
#[derive(Debug, PartialEq, Eq)]
pub struct IssuedCertificate {
    pub pair: PemPair,
    pub meta: ServerCertMeta,
}

/// Whether a certificate of the console was issued by an authority: it is for the addresses
/// of the machine and for the key that comes with it, it is signed with the authority's key,
/// and it names as its issuer what is read as the authority's subject.
pub open spec fn is_issued(
    issued: IssuedCertificate,
    authority: PemPair,
    ips: Seq<Ipv4>,
    now: int,
) -> bool {
    &&& certificate_says(issued.pair.cert@) == console_certificate(ips, now)
    &&& certificate_key(issued.pair.cert@) == public_key(issued.pair.key@)
    &&& signed_with(issued.pair.cert@, public_key(authority.key@))
    &&& issuer_name(issued.pair.cert@) == name_as_read(authority.cert@)
    &&& shown(issued.meta.ips@) == ips.map_values(|a: Ipv4| address_text(a))
    &&& issued.meta.not_after_unix == now + SERVER_CERT_VALIDITY_SECS
}

/// What comes of making a key and of signing a certificate for it: both, with what is known
/// of the certificate, or what failed first.
pub fn judge_issue(
    key: Result<String, String>,
    cert: Result<String, String>,
    texts: Vec<String>,
    now: i64,
) -> (result: Result<IssuedCertificate, WebServerError>)
    requires
        now + SERVER_CERT_VALIDITY_SECS <= i64::MAX,
    ensures
        match (key, cert, result) {
            (Err(reason), _, Err(error)) => fails_for(
                error@,
                "生成服务器私钥失败: "@,
                reason@,
            ),
            (Ok(_), Err(reason), Err(error)) => fails_for(
                error@,
                "签发服务器证书失败: "@,
                reason@,
            ),
            (Ok(key), Ok(cert), Ok(issued)) => {
                &&& issued.pair == (PemPair { cert, key })
                &&& shown(issued.meta.ips@) == shown(texts@)
                &&& issued.meta.not_after_unix == now + SERVER_CERT_VALIDITY_SECS
            },
            _ => false,
        },
{
    let key = match or_told(key, "生成服务器私钥失败: ") {
        Ok(key) => key,
        Err(error) => {
            return Err(error);
        },
    };
    match or_told(cert, "签发服务器证书失败: ") {
        Ok(cert) => Ok(
            IssuedCertificate { pair: PemPair { cert, key }, meta: issued_meta(texts, now) },
        ),
        Err(error) => Err(error),
    }
}

/// The certificate of the console: none where the one that is there still serves, else a new
/// one with a new key, signed by the authority. An authority that cannot serve signs nothing,
/// and the reason is told.
pub fn ensure_server_cert(
    authority: &PemPair,
    ips: &Vec<Ipv4>,
    meta: &Option<ServerCertMeta>,
    now: i64,
    cert_exists: bool,
    key_exists: bool,
) -> (result: Result<Option<IssuedCertificate>, WebServerError>)
    requires
        now >= 0,
        now + SERVER_CERT_VALIDITY_SECS <= i64::MAX,
    ensures
        ({
            let texts = ips@.map_values(|a: Ipv4| address_text(a));
            let wanted = is_stale(*meta, texts, now) || !cert_exists || !key_exists;
            if !wanted {
                result == Ok::<Option<IssuedCertificate>, WebServerError>(None)
            } else {
                match (certificate_fault(authority.cert@), result) {
                    (Some(reason), Err(error)) => fails_for(
                        error@,
                        "签发服务器证书失败: "@,
                        reason,
                    ),
                    (None, Ok(Some(issued))) => is_issued(issued, *authority, ips@, now as int),
                    (None, Err(error)) => tells_either(
                        error@,
                        "生成服务器私钥失败: "@,
                        "签发服务器证书失败: "@,
                    ),
                    _ => false,
                }
            }
        }),
{
    let texts = address_texts(ips);
    if !needs_reissue(meta, &texts, now, cert_exists, key_exists) {
        return Ok(None);
    }
    match or_told(check_authority(authority.cert.as_str()), "签发服务器证书失败: ") {
        Ok(_) => {},
        Err(error) => {
            return Err(error);
        },
    }
    let key = generate_key();
    let request = CertificateRequest {
        common_name: "LoopMaster Web Console".to_owned(),
        not_before: now - VALID_BEFORE_SECS,
        not_after: now + SERVER_CERT_VALIDITY_SECS,
    };
    let mut names = address_texts(ips);
    names.insert(0, "localhost".to_owned());
    assert(shown(names@) =~= console_names(ips@));
    let cert = match &key {
        Ok(key) => sign(&request, names, key.as_str(), authority),
        Err(_) => Err(String::new()),
    };
    match judge_issue(key, cert, texts, now) {
        Ok(issued) => Ok(Some(issued)),
        Err(error) => Err(error),
    }
}

/// An authority that was made is kept: found again, its certificate is never refused, and
/// where it serves it is the same one and is not stored again.
pub proof fn law_authority_is_kept(
    made: PemPair,
    now: int,
    later: Result<(PemPair, bool), WebServerError>,
)
    requires
        is_new_authority(made, now),
        authority_answer(Some(made), later),
    ensures
        match later {
            Ok((authority, fresh)) => authority == made && !fresh,
            Err(error) => tells_key_or_issuer(error@),
        },
{
}

/// A device has to trust the authority only once: whenever the authority that was made is
/// found again and issues a certificate of the console, that one is signed with the key that
/// the authority's first certificate is for, and names it as its issuer.
pub proof fn law_same_authority_signs_again(
    made: PemPair,
    made_at: int,
    later: Result<(PemPair, bool), WebServerError>,
    authority: PemPair,
    fresh: bool,
    issued: IssuedCertificate,
    ips: Seq<Ipv4>,
    now: int,
)
    requires
        is_new_authority(made, made_at),
        authority_answer(Some(made), later),
        later == Ok::<(PemPair, bool), WebServerError>((authority, fresh)),
        is_issued(issued, authority, ips, now),
    ensures
        signed_with(issued.pair.cert@, certificate_key(made.cert@)),
        issuer_name(issued.pair.cert@) == subject_name(made.cert@),
        certificate_key(issued.pair.cert@) == public_key(issued.pair.key@),
{
}

} // verus!
