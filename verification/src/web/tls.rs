//! When the certificate of the console is to be renewed, and whether it is trusted.

use crate::network::addresses::{
    address_text, is_unreachable, keep_reachable, lemma_reachable, reachable, show_address, shown,
    Ipv4,
};
use crate::paths::{beside, inside, path_beside, path_inside};
use crate::text::{chars_of, joined, text_of, trim_chars, trimmed};
use crate::web::server::{WebServerError, WebServerFault};
use vstd::prelude::*;
use vstd::string::StringExecFns;

verus! {

/// How long the root certificate is good, in seconds.
pub const CA_VALIDITY_SECS: i64 = 315_360_000;

/// How long the certificate of the console is good, in seconds.
pub const SERVER_CERT_VALIDITY_SECS: i64 = 2_592_000;

/// How long before its end a certificate is renewed, in seconds.
pub const REISSUE_THRESHOLD_SECS: i64 = 604_800;

/// The file of the root certificate.
pub const CA_CERT_FILE: &'static str = "ca.crt";

/// The file of the key of the root certificate.
pub const CA_KEY_FILE: &'static str = "ca.key";

/// The file of the certificate of the console.
pub const SERVER_CERT_FILE: &'static str = "server.crt";

/// The file of the key of the console.
pub const SERVER_KEY_FILE: &'static str = "server.key";

/// The file of what is known of the certificate.
pub const SERVER_META_FILE: &'static str = "server.meta.json";

/// What is known of the certificate of the console.
#[derive(Debug, PartialEq, Eq)]
pub struct ServerCertMeta {
    /// The addresses that it is for.
    pub ips: Vec<String>,
    /// When it ends, in seconds of Unix time.
    pub not_after_unix: i64,
}

/// Whether a certificate is to be renewed: it is for other addresses, it ends within a
/// week, or nothing is known of it.
pub open spec fn is_stale(meta: Option<ServerCertMeta>, ips: Seq<Seq<char>>, now: i64) -> bool {
    match meta {
        Some(meta) => shown(meta.ips@) != ips || now + REISSUE_THRESHOLD_SECS
            >= meta.not_after_unix,
        None => true,
    }
}

fn same_texts(a: &Vec<String>, b: &Vec<String>) -> (same: bool)
    ensures
        same == (shown(a@) == shown(b@)),
{
    let count = a.len();
    if count != b.len() {
        assert(shown(a@).len() != shown(b@).len());
        return false;
    }
    for i in 0..count
        invariant
            count == a@.len(),
            count == b@.len(),
            forall|j: int| 0 <= j < i ==> a@[j]@ == b@[j]@,
    {
        if a[i] != b[i] {
            assert(shown(a@)[i as int] != shown(b@)[i as int]);
            return false;
        }
    }
    assert(shown(a@) =~= shown(b@));
    true
}

/// Whether the certificate of the console is to be made anew: it is stale, or a file of
/// it is missing.
pub fn needs_reissue(
    meta: &Option<ServerCertMeta>,
    ips: &Vec<String>,
    now: i64,
    cert_exists: bool,
    key_exists: bool,
) -> (reissue: bool)
    ensures
        reissue == (is_stale(*meta, shown(ips@), now) || !cert_exists || !key_exists),
{
    let stale = match meta {
        Some(meta) => !same_texts(&meta.ips, ips) || now as i128 + REISSUE_THRESHOLD_SECS as i128
            >= meta.not_after_unix as i128,
        None => true,
    };
    stale || !cert_exists || !key_exists
}

/// What is to be noted of a certificate that is made now.
pub fn issued_meta(ips: Vec<String>, now: i64) -> (meta: ServerCertMeta)
    requires
        now + SERVER_CERT_VALIDITY_SECS <= i64::MAX,
    ensures
        meta.ips == ips,
        meta.not_after_unix == now + SERVER_CERT_VALIDITY_SECS,
{
    ServerCertMeta { ips, not_after_unix: now + SERVER_CERT_VALIDITY_SECS }
}

/// A certificate that was just made is not made again for the same addresses, for
/// twenty-three days; it is for other ones.
pub proof fn law_new_certificate_is_kept(
    meta: ServerCertMeta,
    issued: i64,
    now: i64,
    ips: Seq<Seq<char>>,
)
    requires
        meta.not_after_unix == issued + SERVER_CERT_VALIDITY_SECS,
    ensures
        now < issued + 23 * 86_400 ==> (is_stale(Some(meta), ips, now) <==> shown(meta.ips@)
            != ips),
        now >= issued + 23 * 86_400 ==> is_stale(Some(meta), ips, now),
{
}

/// An address as a number.
pub open spec fn address_number(address: Ipv4) -> int {
    address.a * 0x100_0000 + address.b * 0x1_0000 + address.c * 0x100 + address.d
}

/// Whether addresses stand in order, each once.
pub open spec fn addresses_in_order(addresses: Seq<Ipv4>) -> bool {
    forall|i: int, j: int|
        0 <= i < j < addresses.len() ==> address_number(#[trigger] addresses[i]) < address_number(
            #[trigger] addresses[j],
        )
}

fn number_of(address: Ipv4) -> (number: u32)
    ensures
        number == address_number(address),
{
    address.a as u32 * 0x100_0000 + address.b as u32 * 0x1_0000 + address.c as u32 * 0x100
        + address.d as u32
}

proof fn lemma_bytes_of(address: Ipv4)
    ensures
        address_number(address) / 0x100_0000 == address.a,
        address_number(address) % 0x100_0000 / 0x1_0000 == address.b,
        address_number(address) % 0x1_0000 / 0x100 == address.c,
        address_number(address) % 0x100 == address.d,
{
    let n = address_number(address);
    let low = address.b * 0x1_0000 + address.c * 0x100 + address.d;
    let lower = address.c * 0x100 + address.d;
    assert(n == address.a * 0x100_0000 + low && 0 <= low < 0x100_0000);
    assert(n / 0x100_0000 == address.a && n % 0x100_0000 == low);
    assert(low / 0x1_0000 == address.b);
    assert(n % 0x1_0000 == lower);
    assert(lower / 0x100 == address.c);
    assert(n % 0x100 == address.d);
}

proof fn lemma_number_tells(a: Ipv4, b: Ipv4)
    requires
        address_number(a) == address_number(b),
    ensures
        a == b,
{
    lemma_bytes_of(a);
    lemma_bytes_of(b);
}

fn put_address(addresses: &mut Vec<Ipv4>, address: Ipv4)
    requires
        addresses_in_order(old(addresses)@),
    ensures
        addresses_in_order(final(addresses)@),
        forall|a: Ipv4| #[trigger]
            final(addresses)@.contains(a) == (old(addresses)@.contains(a) || a == address),
{
    let ghost before = addresses@;
    let number = number_of(address);
    let count = addresses.len();
    let mut at: usize = 0;
    while at < count && number_of(addresses[at]) < number
        invariant
            at <= count,
            count == addresses@.len(),
            addresses@ == before,
            number == address_number(address),
            forall|i: int| 0 <= i < at ==> address_number(#[trigger] before[i]) < number,
        decreases count - at,
    {
        at = at + 1;
    }
    if at < count && number_of(addresses[at]) == number {
        proof {
            lemma_number_tells(before[at as int], address);
            assert(before.contains(before[at as int]));
        }
        return;
    }
    addresses.insert(at, address);
    proof {
        let after = addresses@;
        assert(after =~= before.insert(at as int, address));
        assert forall|i: int, j: int| 0 <= i < j < after.len() implies address_number(
            #[trigger] after[i],
        ) < address_number(#[trigger] after[j]) by {
            let a = if i < at {
                i
            } else {
                i - 1
            };
            let b = if j < at {
                j
            } else {
                j - 1
            };
            if j == at {
                assert(after[i] == before[i]);
            } else if i == at {
                assert(after[j] == before[b]);
                if b > at {
                    assert(address_number(before[at as int]) < address_number(before[b]));
                }
            } else {
                assert(after[i] == before[a]);
                assert(after[j] == before[b]);
            }
        }
        assert forall|a: Ipv4| #[trigger]
            after.contains(a) == (before.contains(a) || a == address) by {
            if after.contains(a) {
                let i = choose|i: int| 0 <= i < after.len() && after[i] == a;
                if i < at {
                    assert(before[i] == a);
                } else if i > at {
                    assert(before[i - 1] == a);
                }
            }
            if before.contains(a) {
                let i = choose|i: int| 0 <= i < before.len() && before[i] == a;
                if i < at {
                    assert(after[i] == a);
                } else {
                    assert(after[i + 1] == a);
                }
            }
            assert(after[at as int] == address);
        }
    }
}

/// The addresses that a certificate is for: those that others reach and the one of the
/// machine itself, in order, each once.
pub fn default_host_ips(addresses: &[Ipv4]) -> (ips: Vec<Ipv4>)
    ensures
        addresses_in_order(ips@),
        forall|a: Ipv4| #[trigger]
            ips@.contains(a) == ((addresses@.contains(a) && !is_unreachable(a)) || a == Ipv4 {
                a: 127,
                b: 0,
                c: 0,
                d: 1,
            }),
{
    let kept = keep_reachable(addresses);
    proof {
        lemma_reachable(addresses@);
    }
    let own = Ipv4 { a: 127, b: 0, c: 0, d: 1 };
    let mut ips: Vec<Ipv4> = Vec::new();
    ips.push(own);
    assert(ips@ =~= seq![own]);
    assert forall|a: Ipv4| #[trigger]
        ips@.contains(a) == (kept@.take(0).contains(a) || a == own) by {
        assert(ips@[0] == own);
    }
    for i in 0..kept.len()
        invariant
            addresses_in_order(ips@),
            forall|a: Ipv4| #[trigger]
                ips@.contains(a) == (kept@.take(i as int).contains(a) || a == own),
    {
        let ghost before = ips@;
        put_address(&mut ips, kept[i]);
        proof {
            let shorter = kept@.take(i as int);
            let longer = kept@.take(i + 1);
            assert forall|a: Ipv4| #[trigger]
                ips@.contains(a) == (longer.contains(a) || a == own) by {
                assert(before.contains(a) == (shorter.contains(a) || a == own));
                assert(longer[i as int] == kept@[i as int]);
                if longer.contains(a) {
                    let k = choose|k: int| 0 <= k < longer.len() && longer[k] == a;
                    if k < i {
                        assert(shorter[k] == a);
                    }
                }
                if shorter.contains(a) {
                    let k = choose|k: int| 0 <= k < shorter.len() && shorter[k] == a;
                    assert(longer[k] == a);
                }
            }
        }
    }
    assert(kept@.take(kept@.len() as int) =~= kept@);
    assert forall|a: Ipv4| #[trigger]
        ips@.contains(a) == ((addresses@.contains(a) && !is_unreachable(a)) || a == own) by {
        assert(reachable(addresses@).contains(a) == (addresses@.contains(a) && !is_unreachable(a)));
    }
    ips
}

/// Writes addresses out.
pub fn address_texts(ips: &Vec<Ipv4>) -> (texts: Vec<String>)
    ensures
        shown(texts@) == ips@.map_values(|a: Ipv4| address_text(a)),
{
    let mut texts: Vec<String> = Vec::new();
    for i in 0..ips.len()
        invariant
            texts@.len() == i,
            forall|j: int| 0 <= j < i ==> (#[trigger] texts@[j])@ == address_text(ips@[j]),
    {
        texts.push(show_address(ips[i]));
    }
    assert(shown(texts@) =~= ips@.map_values(|a: Ipv4| address_text(a)));
    texts
}

/// The directory of the certificates, which lies beside the configuration.
pub fn tls_dir_for(config_path: &str) -> (directory: Option<String>)
    ensures
        match directory {
            Some(directory) => beside(config_path@, "tls"@) == Some(directory@),
            None => beside(config_path@, "tls"@) is None,
        },
{
    path_beside(config_path, "tls")
}

/// Where the certificate of the console and its key are.
#[derive(Debug, PartialEq, Eq)]
pub struct TlsMaterial {
    pub cert_path: String,
    pub key_path: String,
}

/// Where the certificate of the console and its key are.
pub fn tls_material(tls_dir: &str) -> (material: TlsMaterial)
    ensures
        material.cert_path@ == inside(tls_dir@, SERVER_CERT_FILE@),
        material.key_path@ == inside(tls_dir@, SERVER_KEY_FILE@),
{
    TlsMaterial {
        cert_path: path_inside(tls_dir, SERVER_CERT_FILE),
        key_path: path_inside(tls_dir, SERVER_KEY_FILE),
    }
}

/// Whether the root certificate is trusted on this machine.
#[derive(Debug, PartialEq, Eq)]
pub struct CaTrustStatus {
    pub installed: bool,
    /// Whether it could be found out.
    pub checked: bool,
    /// Where the certificate is.
    pub ca_path: Option<String>,
    pub message: String,
}

/// What a `CaTrustStatus` says.
#[verifier::ext_equal]
pub struct TrustModel {
    pub installed: bool,
    pub checked: bool,
    pub ca_path: Option<Seq<char>>,
    pub message: Seq<char>,
}

impl View for CaTrustStatus {
    type V = TrustModel;

    open spec fn view(&self) -> TrustModel {
        TrustModel {
            installed: self.installed,
            checked: self.checked,
            ca_path: crate::routing::optional_text(self.ca_path),
            message: self.message@,
        }
    }
}

/// What was found out of the root certificate.
#[derive(Debug, PartialEq, Eq)]
pub enum CaProbe {
    /// There is no store that could be asked.
    Unsupported,
    /// There is no certificate.
    Missing,
    /// The store answered.
    Answered(String),
    /// The store could not be asked.
    Failed(String),
}

/// What is said of the root certificate.
pub open spec fn trust_status(ca_path: Seq<char>, probe: CaProbe) -> TrustModel {
    match probe {
        CaProbe::Unsupported => TrustModel {
            installed: false,
            checked: false,
            ca_path: Some(ca_path),
            message: "当前平台不支持自动安装根证书，请手动导入 CA。"@,
        },
        CaProbe::Missing => TrustModel {
            installed: false,
            checked: true,
            ca_path: None,
            message: "尚未生成本地根证书，请先开启网络功能。"@,
        },
        CaProbe::Answered(output) => if trimmed(output@) == "installed"@ {
            TrustModel {
                installed: true,
                checked: true,
                ca_path: Some(ca_path),
                message: "本机已信任该根证书，Chrome / Edge 访问不再告警。"@,
            }
        } else {
            TrustModel {
                installed: false,
                checked: true,
                ca_path: Some(ca_path),
                message: "本机尚未信任该根证书，浏览器会提示不安全。"@,
            }
        },
        CaProbe::Failed(error) => TrustModel {
            installed: false,
            checked: false,
            ca_path: Some(ca_path),
            message: "检测根证书信任状态失败: "@ + error@,
        },
    }
}

/// Says whether the root certificate is trusted.
pub fn local_ca_status(ca_path: &str, probe: &CaProbe) -> (status: CaTrustStatus)
    ensures
        status@ == trust_status(ca_path@, *probe),
{
    match probe {
        CaProbe::Unsupported => CaTrustStatus {
            installed: false,
            checked: false,
            ca_path: Some(ca_path.to_owned()),
            message: "当前平台不支持自动安装根证书，请手动导入 CA。".to_owned(),
        },
        CaProbe::Missing => CaTrustStatus {
            installed: false,
            checked: true,
            ca_path: None,
            message: "尚未生成本地根证书，请先开启网络功能。".to_owned(),
        },
        CaProbe::Answered(output) => {
            let answer = text_of(trim_chars(chars_of(output.as_str()).as_slice()).as_slice());
            if answer == "installed".to_owned() {
                CaTrustStatus {
                    installed: true,
                    checked: true,
                    ca_path: Some(ca_path.to_owned()),
                    message: "本机已信任该根证书，Chrome / Edge 访问不再告警。".to_owned(),
                }
            } else {
                CaTrustStatus {
                    installed: false,
                    checked: true,
                    ca_path: Some(ca_path.to_owned()),
                    message: "本机尚未信任该根证书，浏览器会提示不安全。".to_owned(),
                }
            }
        },
        CaProbe::Failed(error) => CaTrustStatus {
            installed: false,
            checked: false,
            ca_path: Some(ca_path.to_owned()),
            message: joined("检测根证书信任状态失败: ", error.as_str()),
        },
    }
}

/// What came of a change of the store of certificates.
#[derive(Debug, PartialEq, Eq)]
pub enum StoreChange {
    /// There is no store that could be changed.
    Unsupported,
    Done,
    Failed(String),
}

/// What is said of the attempt to make the root certificate trusted. `probe` is what is
/// found out of it afterwards.
pub fn install_local_ca(ca_path: &str, change: &StoreChange, probe: &CaProbe) -> (result: Result<
    CaTrustStatus,
    WebServerError,
>)
    ensures
        match (*change, result) {
            (StoreChange::Done, Ok(status)) => status@ == trust_status(ca_path@, *probe),
            (StoreChange::Unsupported, Err(error)) => error@ == WebServerFault::Tls(
                "当前平台不支持自动安装根证书"@,
            ),
            (StoreChange::Failed(reason), Err(error)) => error@ == WebServerFault::Tls(
                "安装根证书失败: "@ + reason@,
            ),
            _ => false,
        },
{
    match change {
        StoreChange::Done => Ok(local_ca_status(ca_path, probe)),
        StoreChange::Unsupported => Err(
            WebServerError::Tls("当前平台不支持自动安装根证书".to_owned()),
        ),
        StoreChange::Failed(reason) => Err(
            WebServerError::Tls(joined("安装根证书失败: ", reason.as_str())),
        ),
    }
}

/// What is said of the attempt to take the root certificate out. `probe` is what is found
/// out of it afterwards.
pub fn remove_local_ca(ca_path: &str, change: &StoreChange, probe: &CaProbe) -> (result: Result<
    CaTrustStatus,
    WebServerError,
>)
    ensures
        match (*change, result) {
            (StoreChange::Done, Ok(status)) => status@ == trust_status(ca_path@, *probe),
            (StoreChange::Unsupported, Err(error)) => error@ == WebServerFault::Tls(
                "当前平台不支持移除根证书"@,
            ),
            (StoreChange::Failed(reason), Err(error)) => error@ == WebServerFault::Tls(
                "移除根证书失败: "@ + reason@,
            ),
            _ => false,
        },
{
    match change {
        StoreChange::Done => Ok(local_ca_status(ca_path, probe)),
        StoreChange::Unsupported => Err(
            WebServerError::Tls("当前平台不支持移除根证书".to_owned()),
        ),
        StoreChange::Failed(reason) => Err(
            WebServerError::Tls(joined("移除根证书失败: ", reason.as_str())),
        ),
    }
}

/// A text for a PowerShell string in single quotes: every quote is doubled.
pub open spec fn quoted(text: Seq<char>) -> Seq<char>
    decreases text.len(),
{
    if text.len() == 0 {
        Seq::empty()
    } else if text.last() == '\'' {
        quoted(text.drop_last()) + seq!['\'', '\'']
    } else {
        quoted(text.drop_last()).push(text.last())
    }
}

fn quote(text: &str) -> (result: String)
    ensures
        result@ == quoted(text@),
{
    let chars = chars_of(text);
    let mut result = String::new();
    assert(text@.take(0) =~= Seq::empty());
    for i in 0..chars.len()
        invariant
            chars@ == text@,
            result@ == quoted(text@.take(i as int)),
    {
        let ghost before = result@;
        assert(text@.take(i + 1).drop_last() =~= text@.take(i as int));
        if chars[i] == '\'' {
            result.push('\'');
            result.push('\'');
            assert(result@ =~= before + seq!['\'', '\'']);
        } else {
            result.push(chars[i]);
        }
    }
    assert(text@.take(text@.len() as int) =~= text@);
    result
}

/// The lines of a script, each indented and ended.
pub open spec fn indented(lines: Seq<&str>, n: nat) -> Seq<char>
    decreases n,
{
    if n == 0 {
        Seq::empty()
    } else {
        indented(lines, (n - 1) as nat) + "  "@ + lines[n - 1]@ + "\r\n"@
    }
}

/// A script that opens the store of root certificates of the user and runs some lines on
/// it.
pub open spec fn script_text(open_mode: Seq<char>, lines: Seq<&str>, ca_path: Seq<char>) -> Seq<
    char,
> {
    "$ErrorActionPreference = 'Stop'\r\n"@
        + "$cert = [System.Security.Cryptography.X509Certificates.X509Certificate2]::new('"@
        + quoted(ca_path) + "')\r\n"@
        + "$store = [System.Security.Cryptography.X509Certificates.X509Store]::new('Root','CurrentUser')\r\n"@
        + "$store.Open('"@ + open_mode + "')\r\n"@ + "try {\r\n"@ + indented(lines, lines.len())
        + "} finally { $store.Close() }"@
}

/// Writes a script that opens the store and runs some lines on it.
pub fn store_script(open_mode: &str, body: &[&str], ca_path: &str) -> (script: String)
    ensures
        script@ == script_text(open_mode@, body@, ca_path@),
{
    let mut script = "$ErrorActionPreference = 'Stop'\r\n".to_owned();
    script.append("$cert = [System.Security.Cryptography.X509Certificates.X509Certificate2]::new('");
    script.append(quote(ca_path).as_str());
    script.append("')\r\n");
    script.append(
        "$store = [System.Security.Cryptography.X509Certificates.X509Store]::new('Root','CurrentUser')\r\n",
    );
    script.append("$store.Open('");
    script.append(open_mode);
    script.append("')\r\n");
    script.append("try {\r\n");
    let ghost head = script@;
    for i in 0..body.len()
        invariant
            script@ == head + indented(body@, i as nat),
    {
        let ghost before = script@;
        script.append("  ");
        script.append(body[i]);
        script.append("\r\n");
        assert(script@ =~= head + indented(body@, (i + 1) as nat));
    }
    script.append("} finally { $store.Close() }");
    assert(script@ =~= script_text(open_mode@, body@, ca_path@));
    script
}

/// The script that asks whether the root certificate is trusted.
pub fn status_script(ca_path: &str) -> (script: String)
    ensures
        script@ == script_text(
            "ReadOnly"@,
            seq![
                "$present = @($store.Certificates | Where-Object { $_.Thumbprint -eq $cert.Thumbprint }).Count",
                "if ($present -gt 0) { 'installed' } else { 'not_installed' }",
            ],
            ca_path@,
        ),
{
    let body = [
        "$present = @($store.Certificates | Where-Object { $_.Thumbprint -eq $cert.Thumbprint }).Count",
        "if ($present -gt 0) { 'installed' } else { 'not_installed' }",
    ];
    assert(body@ =~= seq![body@[0], body@[1]]);
    store_script("ReadOnly", &body, ca_path)
}

/// The script that makes the root certificate trusted and takes older ones out.
pub fn install_script(ca_path: &str) -> (script: String)
    ensures
        script@ == script_text(
            "ReadWrite"@,
            seq![
                "$stale = @($store.Certificates | Where-Object { $_.Subject -like '*LoopMaster*' -and $_.Thumbprint -ne $cert.Thumbprint })",
                "foreach ($item in $stale) { $store.Remove($item) }",
                "$present = @($store.Certificates | Where-Object { $_.Thumbprint -eq $cert.Thumbprint }).Count",
                "if ($present -eq 0) { $store.Add($cert) }",
                "'installed'",
            ],
            ca_path@,
        ),
{
    let body = [
        "$stale = @($store.Certificates | Where-Object { $_.Subject -like '*LoopMaster*' -and $_.Thumbprint -ne $cert.Thumbprint })",
        "foreach ($item in $stale) { $store.Remove($item) }",
        "$present = @($store.Certificates | Where-Object { $_.Thumbprint -eq $cert.Thumbprint }).Count",
        "if ($present -eq 0) { $store.Add($cert) }",
        "'installed'",
    ];
    assert(body@ =~= seq![body@[0], body@[1], body@[2], body@[3], body@[4]]);
    store_script("ReadWrite", &body, ca_path)
}

/// The script that takes the root certificates of this program out.
pub fn remove_script(ca_path: &str) -> (script: String)
    ensures
        script@ == script_text(
            "ReadWrite"@,
            seq![
                "$matches = @($store.Certificates | Where-Object { $_.Subject -like '*LoopMaster*' })",
                "foreach ($item in $matches) { $store.Remove($item) }",
                "'removed'",
            ],
            ca_path@,
        ),
{
    let body = [
        "$matches = @($store.Certificates | Where-Object { $_.Subject -like '*LoopMaster*' })",
        "foreach ($item in $matches) { $store.Remove($item) }",
        "'removed'",
    ];
    assert(body@ =~= seq![body@[0], body@[1], body@[2]]);
    store_script("ReadWrite", &body, ca_path)
}

} // verus!
