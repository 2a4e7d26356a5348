//! Processes that play audio, and their icons.

use crate::text::{chars_of, decimal_text, push_decimal, text_of};
use crate::windows::endpoint::ProcessInfo;
use vstd::prelude::*;
use vstd::string::StringExecFns;

verus! {

/// What looking a process up has come to.
#[derive(Debug, PartialEq, Eq)]
pub enum ProcessLookup {
    /// It could not be opened, or its path could not be read.
    Failed { code: u32 },
    /// The path of its executable.
    Path(String),
}

/// Whether a failure means that the process has ended: an invalid parameter, an element
/// or a file that is not found.
pub open spec fn process_has_ended(code: u32) -> bool {
    code == 0x8007_0057 || code == 0x8007_0490 || code == 0x8007_0002
}

/// What a process is.
#[verifier::ext_equal]
pub struct ProcessRecord {
    pub pid: u32,
    pub name: Seq<char>,
    pub executable_path: Option<Seq<char>>,
}

impl View for ProcessInfo {
    type V = ProcessRecord;

    open spec fn view(&self) -> ProcessRecord {
        ProcessRecord {
            pid: self.pid,
            name: self.name@,
            executable_path: crate::routing::optional_text(self.executable_path),
        }
    }
}

/// Whether a character parts the components of a path.
pub open spec fn is_separator(c: char) -> bool {
    c == '\\' || c == '/'
}

/// The part of a path behind its last separator; the whole path where that part is empty.
pub open spec fn file_name(path: Seq<char>) -> Seq<char> {
    let start = name_start(path, path.len());
    if start < path.len() {
        path.skip(start as int)
    } else {
        path
    }
}

/// Where the last component of the first `n` characters starts.
pub open spec fn name_start(path: Seq<char>, n: nat) -> nat
    decreases n,
{
    if n == 0 || is_separator(path[n - 1]) {
        n
    } else {
        name_start(path, (n - 1) as nat)
    }
}

/// What is known of a process after it was looked up. One that has ended is left out; one
/// that cannot be read gets a name in place of its own.
pub open spec fn described_process(pid: u32, lookup: ProcessLookup) -> Option<ProcessRecord> {
    match lookup {
        ProcessLookup::Failed { code } => if process_has_ended(code) {
            None
        } else {
            Some(
                ProcessRecord {
                    pid,
                    name: "PID "@ + decimal_text(pid as nat) + "（无法读取名称：权限不足）"@,
                    executable_path: None,
                },
            )
        },
        ProcessLookup::Path(path) => if path@.len() == 0 {
            Some(
                ProcessRecord {
                    pid,
                    name: "PID "@ + decimal_text(pid as nat) + "（无法读取名称）"@,
                    executable_path: None,
                },
            )
        } else {
            Some(
                ProcessRecord { pid, name: file_name(path@), executable_path: Some(path@) },
            )
        },
    }
}

fn placeholder(pid: u32, note: &str) -> (name: String)
    ensures
        name@ == "PID "@ + decimal_text(pid as nat) + note@,
{
    let mut name = "PID ".to_owned();
    push_decimal(&mut name, pid as u64);
    name.append(note);
    name
}

fn last_component(path: &String) -> (name: String)
    ensures
        name@ == file_name(path@),
{
    let chars = chars_of(path.as_str());
    let mut start = chars.len();
    while start > 0 && chars[start - 1] != '\\' && chars[start - 1] != '/'
        invariant
            chars@ == path@,
            start <= chars@.len(),
            name_start(path@, path@.len()) == name_start(path@, start as nat),
        decreases start,
    {
        start = start - 1;
    }
    if start == chars.len() {
        return path.clone();
    }
    let mut name: Vec<char> = Vec::new();
    for i in start..chars.len()
        invariant
            start <= i,
            name@ == chars@.subrange(start as int, i as int),
    {
        name.push(chars[i]);
        assert(chars@.subrange(start as int, i + 1) =~= chars@.subrange(
            start as int,
            i as int,
        ).push(chars@[i as int]));
    }
    assert(chars@.subrange(start as int, chars@.len() as int) =~= path@.skip(start as int));
    text_of(name.as_slice())
}

/// Describes a process that was looked up.
pub fn describe_process(pid: u32, lookup: ProcessLookup) -> (info: Option<ProcessInfo>)
    ensures
        match info {
            Some(info) => described_process(pid, lookup) == Some(info@),
            None => described_process(pid, lookup) is None,
        },
{
    match lookup {
        ProcessLookup::Failed { code } => {
            if code == 0x8007_0057 || code == 0x8007_0490 || code == 0x8007_0002 {
                return None;
            }
            let name = placeholder(pid, "（无法读取名称：权限不足）");
            Some(ProcessInfo { pid, name, executable_path: None })
        },
        ProcessLookup::Path(path) => {
            if path.as_str().unicode_len() == 0 {
                let name = placeholder(pid, "（无法读取名称）");
                return Some(ProcessInfo { pid, name, executable_path: None });
            }
            let name = last_component(&path);
            Some(ProcessInfo { pid, name, executable_path: Some(path) })
        },
    }
}

/// The processes that have been found, each once, in the order of their numbers.
pub struct ProcessList {
    processes: Vec<ProcessInfo>,
}

/// Whether processes stand in the order of their numbers, each once.
pub open spec fn ordered_by_pid(processes: Seq<ProcessRecord>) -> bool {
    forall|i: int, j: int| 0 <= i < j < processes.len() ==> processes[i].pid < processes[j].pid
}

/// The processes of a list.
pub open spec fn process_models(processes: Seq<ProcessInfo>) -> Seq<ProcessRecord> {
    processes.map_values(|p: ProcessInfo| p@)
}

impl View for ProcessList {
    type V = Seq<ProcessRecord>;

    closed spec fn view(&self) -> Seq<ProcessRecord> {
        process_models(self.processes@)
    }
}

impl ProcessList {
    #[verifier::type_invariant]
    spec fn well_formed(self) -> bool {
        ordered_by_pid(process_models(self.processes@))
    }

    /// A list without a process.
    pub fn new() -> (list: Self)
        ensures
            list@ == Seq::<ProcessRecord>::empty(),
    {
        let list = ProcessList { processes: Vec::new() };
        assert(list@ =~= Seq::<ProcessRecord>::empty());
        list
    }

    /// Where a process stands or would stand.
    fn position(&self, pid: u32) -> (position: usize)
        ensures
            position <= self.processes@.len(),
            forall|i: int| 0 <= i < position ==> (#[trigger] self.processes@[i]).pid < pid,
            forall|i: int| position <= i < self.processes@.len() ==> (#[trigger] self.processes@[i]).pid
                >= pid,
    {
        proof {
            use_type_invariant(self);
        }
        let mut position: usize = 0;
        while position < self.processes.len() && self.processes[position].pid < pid
            invariant
                position <= self.processes@.len(),
                forall|i: int| 0 <= i < position ==> (#[trigger] self.processes@[i]).pid < pid,
            decreases self.processes@.len() - position,
        {
            position = position + 1;
        }
        proof {
            assert forall|i: int| position <= i < self.processes@.len() implies (
            #[trigger] self.processes@[i]).pid >= pid by {
                let models = process_models(self.processes@);
                assert(models[i].pid == self.processes@[i].pid);
                assert(models[position as int].pid == self.processes@[position as int].pid);
            }
        }
        position
    }

    /// Whether a process is to be looked up: it is new, and not the session of the system.
    pub fn wants(&self, pid: u32) -> (wanted: bool)
        ensures
            wanted == (pid != 0 && forall|i: int|
                0 <= i < self@.len() ==> (#[trigger] self@[i]).pid != pid),
    {
        if pid == 0 {
            return false;
        }
        let position = self.position(pid);
        if position < self.processes.len() && self.processes[position].pid == pid {
            assert(self@[position as int].pid == pid);
            return false;
        }
        proof {
            use_type_invariant(self);
            assert forall|i: int| 0 <= i < self@.len() implies (#[trigger] self@[i]).pid != pid by {
                assert(self@[i].pid == self.processes@[i].pid);
                if i > position {
                    assert(self@[position as int].pid == self.processes@[position as int].pid);
                }
            }
        }
        true
    }

    /// Adds a process that is not in the list.
    pub fn add(self, info: ProcessInfo) -> (list: Self)
        requires
            forall|i: int| 0 <= i < self@.len() ==> (#[trigger] self@[i]).pid != info.pid,
        ensures
            ordered_by_pid(list@),
            exists|at: int|
                0 <= at <= self@.len() && list@ == #[trigger] self@.insert(at, info@),
    {
        let position = self.position(info.pid);
        proof {
            use_type_invariant(&self);
        }
        let ghost model = info@;
        let ghost before = self@;
        assert forall|i: int| 0 <= i < before.len() implies (#[trigger] before[i]).pid != model.pid
            && (i < position ==> before[i].pid < model.pid) && (i >= position ==> before[i].pid
            > model.pid) by {
            assert(before[i].pid == self.processes@[i].pid);
        }
        let mut processes = self.processes;
        processes.insert(position, info);
        assert(process_models(processes@) =~= before.insert(position as int, model));
        assert(ordered_by_pid(process_models(processes@)));
        let list = ProcessList { processes };
        assert(list@ == before.insert(position as int, model));
        list
    }

    /// The processes.
    pub fn into_processes(self) -> (processes: Vec<ProcessInfo>)
        ensures
            process_models(processes@) == self@,
            ordered_by_pid(self@),
    {
        proof {
            use_type_invariant(&self);
        }
        self.processes
    }
}

/// The character of a base64 digit.
pub open spec fn base64_char(digit: int) -> char {
    if digit < 26 {
        (65 + digit) as char
    } else if digit < 52 {
        (97 + digit - 26) as char
    } else if digit < 62 {
        (48 + digit - 52) as char
    } else if digit == 62 {
        '+'
    } else {
        '/'
    }
}

/// A byte, or 0 behind the last one.
pub open spec fn byte_or_zero(bytes: Seq<u8>, index: int) -> int {
    if index < bytes.len() {
        bytes[index] as int
    } else {
        0
    }
}

/// A character of the base64 text: six bits, or padding where the bytes end before.
pub open spec fn base64_at(bytes: Seq<u8>, index: int) -> char {
    let first = 3 * (index / 4);
    let a = byte_or_zero(bytes, first);
    let b = byte_or_zero(bytes, first + 1);
    let c = byte_or_zero(bytes, first + 2);
    if index % 4 == 0 {
        base64_char(a / 4)
    } else if index % 4 == 1 {
        base64_char(a % 4 * 16 + b / 16)
    } else if index % 4 == 2 {
        if first + 1 < bytes.len() {
            base64_char(b % 16 * 4 + c / 64)
        } else {
            '='
        }
    } else {
        if first + 2 < bytes.len() {
            base64_char(c % 64)
        } else {
            '='
        }
    }
}

/// The groups of three bytes, the last of which may be shorter.
pub open spec fn base64_groups(bytes: nat) -> nat {
    ((bytes + 2) / 3) as nat
}

/// The base64 text of bytes.
pub open spec fn base64_text(bytes: Seq<u8>) -> Seq<char> {
    Seq::new(4 * base64_groups(bytes.len()), |i: int| base64_at(bytes, i))
}

fn push_base64(text: &mut String, digit: u8)
    requires
        digit < 64,
    ensures
        final(text)@ == old(text)@.push(base64_char(digit as int)),
{
    if digit < 26 {
        text.push((65 + digit) as char);
    } else if digit < 52 {
        text.push((97 + (digit - 26)) as char);
    } else if digit < 62 {
        text.push((48 + (digit - 52)) as char);
    } else if digit == 62 {
        text.push('+');
    } else {
        text.push('/');
    }
}

/// Encodes bytes as base64 with padding.
pub fn base64_encode(bytes: &[u8]) -> (text: String)
    ensures
        text@ == base64_text(bytes@),
{
    let mut text = String::new();
    let length = bytes.len();
    let mut done: usize = 0;
    while done < length
        invariant
            length == bytes@.len(),
            done <= length,
            done % 3 == 0 || done == length,
            text@ == base64_text(bytes@).take(4 * base64_groups(done as nat) as int),
            base64_groups(done as nat) <= base64_groups(length as nat),
        decreases length - done,
    {
        let ghost groups = base64_groups(done as nat) as int;
        let ghost start = text@;
        assert(done == 3 * groups);
        let a = bytes[done];
        let b = if length - done > 1 {
            bytes[done + 1]
        } else {
            0
        };
        let c = if length - done > 2 {
            bytes[done + 2]
        } else {
            0
        };
        push_base64(&mut text, a / 4);
        push_base64(&mut text, a % 4 * 16 + b / 16);
        if length - done > 1 {
            push_base64(&mut text, b % 16 * 4 + c / 64);
        } else {
            text.push('=');
        }
        if length - done > 2 {
            push_base64(&mut text, c % 64);
        } else {
            text.push('=');
        }
        assert((4 * groups) / 4 == groups && (4 * groups) % 4 == 0);
        assert((4 * groups + 1) / 4 == groups && (4 * groups + 1) % 4 == 1);
        assert((4 * groups + 2) / 4 == groups && (4 * groups + 2) % 4 == 2);
        assert((4 * groups + 3) / 4 == groups && (4 * groups + 3) % 4 == 3);
        assert(base64_groups(length as nat) >= groups + 1);
        assert(text@ =~= base64_text(bytes@).take(4 * (groups + 1))) by {
            let whole = base64_text(bytes@);
            assert(start =~= whole.take(4 * groups));
            assert(whole[4 * groups] == base64_at(bytes@, 4 * groups));
            assert(whole[4 * groups + 1] == base64_at(bytes@, 4 * groups + 1));
            assert(whole[4 * groups + 2] == base64_at(bytes@, 4 * groups + 2));
            assert(whole[4 * groups + 3] == base64_at(bytes@, 4 * groups + 3));
        }
        done = if length - done > 2 {
            done + 3
        } else {
            length
        };
        assert(base64_groups(done as nat) == groups + 1);
    }
    assert(base64_text(bytes@).take(4 * base64_groups(length as nat) as int) =~= base64_text(
        bytes@,
    ));
    text
}

/// The address that carries a picture, where there is one.
pub open spec fn icon_address(png: Seq<u8>) -> Option<Seq<char>> {
    if png.len() == 0 {
        None
    } else {
        Some("data:image/png;base64,"@ + base64_text(png))
    }
}

/// Turns the bytes of a PNG picture into an address that carries it.
pub fn icon_data_uri(png: &[u8]) -> (address: Option<String>)
    ensures
        match address {
            Some(address) => icon_address(png@) == Some(address@),
            None => icon_address(png@) is None,
        },
{
    if png.len() == 0 {
        return None;
    }
    let mut address = "data:image/png;base64,".to_owned();
    address.append(base64_encode(png).as_str());
    Some(address)
}

/// The icon of an executable as an address that carries it. `png` is the picture that was
/// drawn of the icon, and none where the executable has no icon or nothing can draw it.
pub fn process_icon_data_uri(png: Option<Vec<u8>>) -> (address: Option<String>)
    ensures
        match (png, address) {
            (Some(png), Some(address)) => icon_address(png@) == Some(address@),
            (Some(png), None) => icon_address(png@) is None,
            (None, address) => address is None,
        },
{
    match png {
        Some(png) => icon_data_uri(png.as_slice()),
        None => None,
    }
}

/// Different digits have different characters, and none is the padding.
proof fn lemma_base64_char_is_injective(x: int, y: int)
    requires
        0 <= x < 64,
        0 <= y < 64,
    ensures
        base64_char(x) == base64_char(y) ==> x == y,
        base64_char(x) != '=',
{
}

/// Base64 loses nothing: only equal bytes have equal texts.
pub proof fn law_base64_is_injective(first: Seq<u8>, second: Seq<u8>)
    requires
        base64_text(first) == base64_text(second),
    ensures
        first == second,
{
    let text = base64_text(first);
    let groups = base64_groups(first.len()) as int;
    assert(base64_text(second).len() == 4 * groups);
    assert(base64_groups(second.len()) == groups);
    if groups > 0 {
        lemma_base64_group(first, second, groups - 1);
    }
    assert(first.len() == second.len());
    assert forall|i: int| 0 <= i < first.len() implies first[i] == second[i] by {
        let g = i / 3;
        assert(0 <= g < groups);
        lemma_base64_group(first, second, g);
        assert(i == 3 * g || i == 3 * g + 1 || i == 3 * g + 2);
        assert(byte_or_zero(first, i) == byte_or_zero(second, i));
    }
    assert(first =~= second);
}

/// Equal texts have equal groups.
proof fn lemma_base64_group(first: Seq<u8>, second: Seq<u8>, g: int)
    requires
        base64_text(first) == base64_text(second),
        0 <= g < base64_groups(first.len()),
    ensures
        byte_or_zero(first, 3 * g) == byte_or_zero(second, 3 * g),
        byte_or_zero(first, 3 * g + 1) == byte_or_zero(second, 3 * g + 1),
        byte_or_zero(first, 3 * g + 2) == byte_or_zero(second, 3 * g + 2),
        (3 * g + 1 < first.len()) == (3 * g + 1 < second.len()),
        (3 * g + 2 < first.len()) == (3 * g + 2 < second.len()),
{
    let text = base64_text(first);
    let other = base64_text(second);
    assert(text.len() == 4 * base64_groups(first.len()));
    assert(other.len() == 4 * base64_groups(second.len()));
    assert(base64_groups(first.len()) == base64_groups(second.len()));
    assert((4 * g) / 4 == g && (4 * g) % 4 == 0);
    assert((4 * g + 1) / 4 == g && (4 * g + 1) % 4 == 1);
    assert((4 * g + 2) / 4 == g && (4 * g + 2) % 4 == 2);
    assert((4 * g + 3) / 4 == g && (4 * g + 3) % 4 == 3);
    assert(text[4 * g] == base64_at(first, 4 * g) && other[4 * g] == base64_at(second, 4 * g));
    assert(text[4 * g + 1] == base64_at(first, 4 * g + 1) && other[4 * g + 1] == base64_at(
        second,
        4 * g + 1,
    ));
    assert(text[4 * g + 2] == base64_at(first, 4 * g + 2) && other[4 * g + 2] == base64_at(
        second,
        4 * g + 2,
    ));
    assert(text[4 * g + 3] == base64_at(first, 4 * g + 3) && other[4 * g + 3] == base64_at(
        second,
        4 * g + 3,
    ));
    let (a, b, c) = (
        byte_or_zero(first, 3 * g),
        byte_or_zero(first, 3 * g + 1),
        byte_or_zero(first, 3 * g + 2),
    );
    let (x, y, z) = (
        byte_or_zero(second, 3 * g),
        byte_or_zero(second, 3 * g + 1),
        byte_or_zero(second, 3 * g + 2),
    );
    lemma_base64_char_is_injective(a / 4, x / 4);
    lemma_base64_char_is_injective(a % 4 * 16 + b / 16, x % 4 * 16 + y / 16);
    lemma_base64_char_is_injective(b % 16 * 4 + c / 64, y % 16 * 4 + z / 64);
    lemma_base64_char_is_injective(c % 64, z % 64);
}

} // verus!
