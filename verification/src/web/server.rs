//! Where the console is served, and what files it is made of.

use crate::network::addresses::{address_text, show_address, Ipv4};
use crate::text::{chars_of, decimal_text, joined, part_of, push_decimal, text_of};
use vstd::prelude::*;
use vstd::string::StringExecFns;

verus! {

/// The port of the console.
pub const DEFAULT_WEB_PORT: u16 = 8920;

/// How the console is served.
#[derive(Clone, Copy, Debug, PartialEq, Eq, Structural)]
pub struct WebServerConfig {
    pub port: u16,
    /// Whether connections are encrypted.
    pub tls: bool,
}

/// An address and a port.
#[derive(Clone, Copy, Debug, PartialEq, Eq, Structural)]
pub struct BindAddress {
    pub ip: Ipv4,
    pub port: u16,
}

/// An address and a port written out.
pub open spec fn bind_text(address: BindAddress) -> Seq<char> {
    address_text(address.ip) + ":"@ + decimal_text(address.port as nat)
}

/// Every address of the machine.
pub open spec fn any_address() -> Ipv4 {
    Ipv4 { a: 0, b: 0, c: 0, d: 0 }
}

/// The address of the machine for itself.
pub open spec fn own_address() -> Ipv4 {
    Ipv4 { a: 127, b: 0, c: 0, d: 1 }
}

impl WebServerConfig {
    /// Where the console listens: on every address.
    pub fn bind_addr(&self) -> (address: BindAddress)
        ensures
            address == (BindAddress { ip: any_address(), port: self.port }),
    {
        BindAddress { ip: Ipv4 { a: 0, b: 0, c: 0, d: 0 }, port: self.port }
    }
}

impl BindAddress {
    /// The address and the port written out.
    pub fn text(&self) -> (text: String)
        ensures
            text@ == bind_text(*self),
    {
        let mut text = show_address(self.ip);
        text.append(":");
        push_decimal(&mut text, self.port as u64);
        assert(text@ =~= bind_text(*self));
        text
    }

    /// The address that the machine itself can connect to: one that stands for every
    /// address cannot be connected to.
    pub fn reported(&self) -> (address: BindAddress)
        ensures
            address == if self.ip == any_address() {
                BindAddress { ip: own_address(), port: self.port }
            } else {
                *self
            },
    {
        if self.ip == (Ipv4 { a: 0, b: 0, c: 0, d: 0 }) {
            BindAddress { ip: Ipv4 { a: 127, b: 0, c: 0, d: 1 }, port: self.port }
        } else {
            *self
        }
    }
}

/// Why the console is not served.
#[derive(Debug, PartialEq, Eq)]
pub enum WebServerError {
    /// There is no directory for certificates.
    NoConfigDir,
    Tls(String),
    Start(String),
}

/// What a `WebServerError` says.
#[verifier::ext_equal]
pub enum WebServerFault {
    NoConfigDir,
    Tls(Seq<char>),
    Start(Seq<char>),
}

impl View for WebServerError {
    type V = WebServerFault;

    open spec fn view(&self) -> WebServerFault {
        match *self {
            WebServerError::NoConfigDir => WebServerFault::NoConfigDir,
            WebServerError::Tls(reason) => WebServerFault::Tls(reason@),
            WebServerError::Start(reason) => WebServerFault::Start(reason@),
        }
    }
}

/// What is said of a fault.
pub open spec fn web_fault_text(fault: WebServerFault) -> Seq<char> {
    match fault {
        WebServerFault::NoConfigDir => "配置目录无效，无法定位 TLS 材料目录"@,
        WebServerFault::Tls(reason) => "TLS 材料错误: "@ + reason,
        WebServerFault::Start(reason) => "Web 服务启动失败: "@ + reason,
    }
}

impl WebServerError {
    /// What is said of the error.
    pub fn message(&self) -> (text: String)
        ensures
            text@ == web_fault_text(self@),
    {
        match self {
            WebServerError::NoConfigDir => "配置目录无效，无法定位 TLS 材料目录".to_owned(),
            WebServerError::Tls(reason) => joined("TLS 材料错误: ", reason.as_str()),
            WebServerError::Start(reason) => joined("Web 服务启动失败: ", reason.as_str()),
        }
    }

    /// The error for a file that could not be read or written.
    pub fn from_io(reason: &str) -> (error: Self)
        ensures
            error@ == WebServerFault::Tls("文件读写失败: "@ + reason@),
    {
        WebServerError::Tls(joined("文件读写失败: ", reason))
    }
}

/// What the thread that serves the console has said.
#[derive(Debug, PartialEq, Eq)]
pub enum Readiness {
    /// It listens.
    Ready(BindAddress),
    /// It does not.
    Failed(String),
    /// Nothing, for thirty seconds.
    TimedOut,
}

/// Whether the console is served, and where. A thread that has said nothing is to be
/// stopped.
pub fn started(readiness: Readiness) -> (result: Result<BindAddress, WebServerError>)
    ensures
        match readiness {
            Readiness::Ready(address) => result == Ok::<BindAddress, WebServerError>(address),
            Readiness::Failed(reason) => result matches Err(error) && error@
                == WebServerFault::Start(reason@),
            Readiness::TimedOut => result matches Err(error) && error@ == WebServerFault::Start(
                "Web 服务启动超时（30 秒）"@,
            ),
        },
{
    match readiness {
        Readiness::Ready(address) => Ok(address),
        Readiness::Failed(reason) => Err(WebServerError::Start(reason)),
        Readiness::TimedOut => Err(
            WebServerError::Start("Web 服务启动超时（30 秒）".to_owned()),
        ),
    }
}

/// A path without the slashes at its start.
pub open spec fn relative(path: Seq<char>) -> Seq<char>
    decreases path.len(),
{
    if path.len() > 0 && path[0] == '/' {
        relative(path.skip(1))
    } else {
        path
    }
}

/// The file that a path asks for.
pub open spec fn asset_of(path: Seq<char>) -> Seq<char> {
    if relative(path).len() == 0 {
        "index.html"@
    } else {
        relative(path)
    }
}

/// The file that a path asks for: the start page for the bare address.
pub fn asset_path(path: &str) -> (asset: String)
    ensures
        asset@ == asset_of(path@),
{
    let chars = chars_of(path);
    let count = chars.len();
    let mut from: usize = 0;
    assert(path@.skip(0) =~= path@);
    while from < count && chars[from] == '/'
        invariant
            from <= count,
            count == chars@.len(),
            chars@ == path@,
            relative(path@) == relative(path@.skip(from as int)),
        decreases count - from,
    {
        assert(path@.skip(from as int).skip(1) =~= path@.skip(from + 1));
        from = from + 1;
    }
    assert(path@.skip(from as int) =~= path@.subrange(from as int, count as int));
    if from == count {
        "index.html".to_owned()
    } else {
        text_of(part_of(chars.as_slice(), from, count).as_slice())
    }
}

/// The media type of a file, by its name.
pub uninterp spec fn media_type(path: Seq<char>) -> Seq<char>;

/// Calls `mime_guess::from_path` and takes the first guess, or `application/octet-stream`
/// where there is none.
#[verifier::external_body]
fn guess_media_type(path: &str) -> (kind: String)
    ensures
        kind@ == media_type(path@),
{
    mime_guess::from_path(path).first_or_octet_stream().as_ref().to_owned()
}

/// What a request for a file is answered.
#[derive(Debug, PartialEq, Eq)]
pub enum StaticReply {
    /// A file, with its media type.
    File { path: String, content_type: String },
    NotFound,
}

/// What a `StaticReply` says.
#[verifier::ext_equal]
pub enum StaticModel {
    File { path: Seq<char>, content_type: Seq<char> },
    NotFound,
}

impl View for StaticReply {
    type V = StaticModel;

    open spec fn view(&self) -> StaticModel {
        match *self {
            StaticReply::File { path, content_type } => StaticModel::File {
                path: path@,
                content_type: content_type@,
            },
            StaticReply::NotFound => StaticModel::NotFound,
        }
    }
}

/// What a request for a file is answered: the file where it is there, else the start page.
/// `kind` is the media type of the file.
pub open spec fn static_answer(
    path: Seq<char>,
    has_asset: bool,
    has_index: bool,
    kind: Seq<char>,
) -> StaticModel {
    if has_asset {
        StaticModel::File { path: asset_of(path), content_type: kind }
    } else if has_index {
        StaticModel::File { path: "index.html"@, content_type: "text/html"@ }
    } else {
        StaticModel::NotFound
    }
}

/// Answers a request for a file, whose media type is known.
pub fn choose_file(path: &str, has_asset: bool, has_index: bool, kind: String) -> (reply:
    StaticReply)
    ensures
        reply@ == static_answer(path@, has_asset, has_index, kind@),
{
    if has_asset {
        StaticReply::File { path: asset_path(path), content_type: kind }
    } else if has_index {
        StaticReply::File {
            path: "index.html".to_owned(),
            content_type: "text/html".to_owned(),
        }
    } else {
        StaticReply::NotFound
    }
}

/// Answers a request for a file. `has_asset` says whether there is the file that the path
/// asks for, and `has_index` whether there is a start page.
pub fn static_reply(path: &str, has_asset: bool, has_index: bool) -> (reply: StaticReply)
    ensures
        reply@ == static_answer(path@, has_asset, has_index, media_type(asset_of(path@))),
{
    let kind = guess_media_type(asset_path(path).as_str());
    choose_file(path, has_asset, has_index, kind)
}

/// Whatever path is asked for, a console that has a start page answers with a file.
pub proof fn law_start_page_catches_all(
    path: Seq<char>,
    has_asset: bool,
    kind: Seq<char>,
)
    ensures
        static_answer(path, has_asset, true, kind) is File,
{
}

} // verus!
