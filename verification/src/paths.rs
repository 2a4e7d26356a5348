//! Paths of files, as texts, by the rules that Windows has for them. The parts of a path are
//! separated by slashes or backslashes, and a letter with a colon in front of them is a drive.
//! Separators at the end of a path and parts of one dot, other than the first one, do not
//! count. The server and the share of a network path are parts like others.
//!
//! A name is joined to a directory with the separator that the directory used last, a slash
//! where it used none. So a path that has neither backslashes nor a drive is read and joined
//! by the rules of the other systems as well.

pub mod laws;

use crate::text::{chars_of, part_of, text_of};
use vstd::prelude::*;
use vstd::string::StringExecFns;

verus! {

/// Whether a character separates the parts of a path.
pub open spec fn is_separator(c: char) -> bool {
    c == '/' || c == '\\'
}

/// Whether a character is the letter of a drive.
pub open spec fn is_drive_letter(c: char) -> bool {
    'a' <= c <= 'z' || 'A' <= c <= 'Z'
}

/// How many characters of a path say the drive.
pub open spec fn drive_length(path: Seq<char>) -> nat {
    if path.len() >= 2 && is_drive_letter(path[0]) && path[1] == ':' {
        2
    } else {
        0
    }
}

/// A path up to the end of its last part; the first `drive` characters stay.
pub open spec fn without_end(path: Seq<char>, drive: nat) -> Seq<char>
    decreases path.len(),
{
    if path.len() > drive && is_separator(path.last()) {
        without_end(path.drop_last(), drive)
    } else if path.len() >= drive + 2 && path.last() == '.' && is_separator(path[path.len() - 2]) {
        without_end(path.drop_last(), drive)
    } else {
        path
    }
}

/// A path up to its last separator, which is kept; the first `drive` characters stay.
pub open spec fn up_to_separator(path: Seq<char>, drive: nat) -> Seq<char>
    decreases path.len(),
{
    if path.len() <= drive || is_separator(path.last()) {
        path
    } else {
        up_to_separator(path.drop_last(), drive)
    }
}

/// A path up to the end of its last part.
pub open spec fn stem(path: Seq<char>) -> Seq<char> {
    without_end(path, drive_length(path))
}

/// Whether a path has parts: it is more than a drive and a root.
pub open spec fn has_parts(path: Seq<char>) -> bool {
    stem(path).len() > drive_length(path)
}

/// The directory that a path is in, with the separator behind it.
pub open spec fn directory_of(path: Seq<char>) -> Seq<char> {
    up_to_separator(stem(path), drive_length(path))
}

/// The last part of a path.
pub open spec fn last_part(path: Seq<char>) -> Seq<char> {
    stem(path).skip(directory_of(path).len() as int)
}

/// Whether a path ends with the name of a file: its last part is not made of one or two dots.
pub open spec fn has_file_name(path: Seq<char>) -> bool {
    has_parts(path) && last_part(path) != seq!['.'] && last_part(path) != seq!['.', '.']
}

/// The drive and the root of a path.
pub open spec fn root_of(path: Seq<char>) -> Seq<char> {
    let drive = drive_length(path);
    if path.len() > drive && is_separator(path[drive as int]) {
        path.take(drive as int + 1)
    } else {
        path.take(drive as int)
    }
}

/// The path of a file in the directory that a path is in. A path that has no parts is in
/// none.
pub open spec fn beside(path: Seq<char>, name: Seq<char>) -> Option<Seq<char>> {
    if has_parts(path) {
        Some(directory_of(path) + name)
    } else {
        None
    }
}

/// What separates a path from a part that is joined to it: the separator that it used last,
/// a slash where it used none.
pub open spec fn joint(path: Seq<char>) -> Seq<char>
    decreases path.len(),
{
    if path.len() == 0 {
        "/"@
    } else if path.last() == '/' {
        "/"@
    } else if path.last() == '\\' {
        "\\"@
    } else {
        joint(path.drop_last())
    }
}

/// The path of a file in a directory. Behind a drive alone there is no separator.
pub open spec fn inside(directory: Seq<char>, name: Seq<char>) -> Seq<char> {
    if directory.len() == drive_length(directory) || is_separator(directory.last()) {
        directory + name
    } else {
        directory + joint(directory) + name
    }
}

fn separates(c: char) -> (separator: bool)
    ensures
        separator == is_separator(c),
{
    c == '/' || c == '\\'
}

/// How many characters of a path say the drive.
fn drive_end(chars: &[char]) -> (end: usize)
    ensures
        end == drive_length(chars@),
        end <= chars@.len(),
{
    if chars.len() >= 2 && (('a' <= chars[0] && chars[0] <= 'z') || ('A' <= chars[0] && chars[0]
        <= 'Z')) && chars[1] == ':' {
        2
    } else {
        0
    }
}

/// Where the last part of a path ends.
fn stem_end(chars: &[char], drive: usize) -> (end: usize)
    requires
        drive <= chars@.len(),
    ensures
        drive <= end <= chars@.len(),
        chars@.take(end as int) == without_end(chars@, drive as nat),
{
    let mut end = chars.len();
    assert(chars@.take(end as int) =~= chars@);
    while end > drive && (separates(chars[end - 1]) || (end - drive >= 2 && chars[end - 1] == '.'
        && separates(chars[end - 2])))
        invariant
            drive <= end <= chars@.len(),
            without_end(chars@, drive as nat) == without_end(
                chars@.take(end as int),
                drive as nat,
            ),
        decreases end,
    {
        assert(chars@.take(end as int).drop_last() =~= chars@.take(end - 1));
        end = end - 1;
    }
    end
}

/// Where the last part of a path starts.
fn part_start(chars: &[char], drive: usize, end: usize) -> (start: usize)
    requires
        drive <= end <= chars@.len(),
    ensures
        drive <= start <= end,
        chars@.take(start as int) == up_to_separator(chars@.take(end as int), drive as nat),
{
    let ghost path = chars@.take(end as int);
    let mut start = end;
    assert(path.take(start as int) =~= path);
    while start > drive && !separates(chars[start - 1])
        invariant
            drive <= start <= end <= chars@.len(),
            path == chars@.take(end as int),
            up_to_separator(path, drive as nat) == up_to_separator(
                path.take(start as int),
                drive as nat,
            ),
        decreases start,
    {
        assert(path.take(start as int).drop_last() =~= path.take(start - 1));
        start = start - 1;
    }
    assert(path.take(start as int) =~= chars@.take(start as int));
    start
}

/// The first characters of a path, as a text.
fn front_of(chars: &[char], end: usize) -> (text: String)
    requires
        end <= chars@.len(),
    ensures
        text@ == chars@.take(end as int),
{
    assert(chars@.subrange(0, end as int) =~= chars@.take(end as int));
    text_of(part_of(chars, 0, end).as_slice())
}

/// What separates the first characters of a path from a part that is joined to them.
fn joint_of(chars: &[char], end: usize) -> (text: &'static str)
    requires
        end <= chars@.len(),
    ensures
        text@ == joint(chars@.take(end as int)),
{
    let mut rest = end;
    while rest > 0
        invariant
            rest <= end <= chars@.len(),
            joint(chars@.take(end as int)) == joint(chars@.take(rest as int)),
        decreases rest,
    {
        assert(chars@.take(rest as int).last() == chars@[rest - 1]);
        assert(chars@.take(rest as int).drop_last() =~= chars@.take(rest - 1));
        if chars[rest - 1] == '/' {
            return "/";
        }
        if chars[rest - 1] == '\\' {
            return "\\";
        }
        rest = rest - 1;
    }
    "/"
}

/// The path of a file in the directory that a path is in.
pub fn path_beside(path: &str, name: &str) -> (result: Option<String>)
    ensures
        match result {
            Some(result) => beside(path@, name@) == Some(result@),
            None => beside(path@, name@) is None,
        },
{
    let chars = chars_of(path);
    let drive = drive_end(chars.as_slice());
    let end = stem_end(chars.as_slice(), drive);
    if end == drive {
        return None;
    }
    let start = part_start(chars.as_slice(), drive, end);
    let mut result = front_of(chars.as_slice(), start);
    result.append(name);
    Some(result)
}

/// The path of a file in a directory.
pub fn path_inside(directory: &str, name: &str) -> (path: String)
    ensures
        path@ == inside(directory@, name@),
{
    let chars = chars_of(directory);
    let count = chars.len();
    let mut path = directory.to_owned();
    assert(chars@.take(count as int) =~= directory@);
    if count > drive_end(chars.as_slice()) && !separates(chars[count - 1]) {
        path.append(joint_of(chars.as_slice(), count));
    }
    path.append(name);
    path
}

/// The path that a file is written to before it takes the place of another one. A path
/// without a file name gets one.
pub open spec fn temporary(path: Seq<char>) -> Seq<char> {
    if has_file_name(path) {
        stem(path) + ".tmp"@
    } else if has_parts(path) {
        stem(path) + joint(stem(path)) + ".tmp"@
    } else {
        root_of(path) + ".tmp"@
    }
}

/// The path that a file is written to before it takes the place of another one.
pub fn temp_path_for(path: &str) -> (result: String)
    ensures
        result@ == temporary(path@),
{
    let chars = chars_of(path);
    let drive = drive_end(chars.as_slice());
    let end = stem_end(chars.as_slice(), drive);
    if end == drive {
        let root = if chars.len() > drive && separates(chars[drive]) {
            drive + 1
        } else {
            drive
        };
        let mut result = front_of(chars.as_slice(), root);
        result.append(".tmp");
        return result;
    }
    let start = part_start(chars.as_slice(), drive, end);
    let one_dot = end - start == 1 && chars[start] == '.';
    let two_dots = end - start == 2 && chars[start] == '.' && chars[start + 1] == '.';
    proof {
        let part = last_part(path@);
        assert(part =~= path@.subrange(start as int, end as int));
        if one_dot {
            assert(part =~= seq!['.']);
        }
        if two_dots {
            assert(part =~= seq!['.', '.']);
        }
        if part == seq!['.'] {
            assert(part[0] == '.');
        }
        if part == seq!['.', '.'] {
            assert(part[0] == '.' && part[1] == '.');
        }
    }
    let mut result = front_of(chars.as_slice(), end);
    if one_dot || two_dots {
        result.append(joint_of(chars.as_slice(), end));
    }
    result.append(".tmp");
    result
}

proof fn lemma_no_separator_behind(front: Seq<char>, name: Seq<char>, drive: nat)
    requires
        drive <= front.len(),
        forall|i: int| 0 <= i < name.len() ==> !is_separator(#[trigger] name[i]),
    ensures
        up_to_separator(front + name, drive) == up_to_separator(front, drive),
    decreases name.len(),
{
    if name.len() > 0 {
        let path = front + name;
        assert(path.last() == name[name.len() - 1]);
        assert(path.drop_last() =~= front + name.drop_last());
        assert forall|i: int| 0 <= i < name.drop_last().len() implies !is_separator(
            #[trigger] name.drop_last()[i],
        ) by {
            assert(name.drop_last()[i] == name[i]);
        }
        lemma_no_separator_behind(front, name.drop_last(), drive);
    } else {
        assert(front + name =~= front);
    }
}

proof fn lemma_stem_is_front(path: Seq<char>, drive: nat)
    requires
        drive <= path.len(),
    ensures
        without_end(path, drive).is_prefix_of(path),
        without_end(path, drive).len() >= drive,
    decreases path.len(),
{
    let shorter = path.drop_last();
    if path.len() > drive && is_separator(path.last()) {
        lemma_stem_is_front(shorter, drive);
    } else if path.len() >= drive + 2 && path.last() == '.' && is_separator(path[path.len() - 2]) {
        lemma_stem_is_front(shorter, drive);
    }
}

/// A file is written to the directory that it is to stand in, so that it can take the
/// place of the old one in one step.
pub proof fn law_temporary_file_is_beside(path: Seq<char>, name: Seq<char>)
    requires
        has_file_name(path),
    ensures
        beside(temporary(path), name) == beside(path, name),
{
    let drive = drive_length(path);
    let front = stem(path);
    let dotted = front + ".tmp"@;
    reveal_strlit(".tmp");
    lemma_stem_is_front(path, drive);
    assert(dotted[front.len() as int] == '.');
    assert(forall|i: int| 0 <= i < front.len() ==> dotted[i] == path[i]);
    assert(drive_length(dotted) == drive);
    assert(dotted.last() == 'p');
    assert(without_end(dotted, drive) == dotted);
    lemma_no_separator_behind(front, ".tmp"@, drive);
}

} // verus!
