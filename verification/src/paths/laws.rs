//! Where the paths that are made stand.

use crate::paths::{
    beside, directory_of, drive_length, inside, is_separator, joint, last_part, stem, temporary,
    up_to_separator, without_end,
};
use vstd::prelude::*;

verus! {

/// Whether a text names a file: it is not empty, has no separator, and is none of the two names
/// of directories.
pub open spec fn is_name(text: Seq<char>) -> bool {
    &&& text.len() > 0
    &&& forall|i: int| 0 <= i < text.len() ==> !is_separator(#[trigger] text[i])
    &&& text != seq!['.']
    &&& text != seq!['.', '.']
}

proof fn lemma_up_to_separator(directory: Seq<char>, name: Seq<char>, drive: nat)
    requires
        directory.len() > drive,
        is_separator(directory.last()),
        forall|i: int| 0 <= i < name.len() ==> !is_separator(#[trigger] name[i]),
    ensures
        up_to_separator(directory + name, drive) == directory,
    decreases name.len(),
{
    let path = directory + name;
    if name.len() > 0 {
        assert(path.last() == name[name.len() - 1]);
        assert(path.drop_last() =~= directory + name.drop_last());
        lemma_up_to_separator(directory, name.drop_last(), drive);
    } else {
        assert(path =~= directory);
    }
}

/// A file beside another one stands in the same directory under its own name, and a temporary
/// file there under the other one's name and an ending.
pub proof fn law_files_stand_beside_each_other(
    directory: Seq<char>,
    name: Seq<char>,
    other: Seq<char>,
)
    requires
        directory.len() > 0,
        is_separator(directory.last()),
        is_name(name),
    ensures
        directory_of(directory + name) == directory,
        beside(directory + name, other) == Some(directory + other),
        temporary(directory + name) == directory + name + ".tmp"@,
{
    let path = directory + name;
    let drive = drive_length(path);
    if drive == 2 {
        if directory.len() == 1 {
            assert(path[0] == directory.last());
        } else if directory.len() == 2 {
            assert(path[1] == directory.last());
        }
    }
    assert(path.last() == name[name.len() - 1]);
    if name.len() == 1 {
        assert(name =~= seq![name[0]]);
        assert(name[0] != '.');
    } else {
        assert(path[path.len() - 2] == name[name.len() - 2]);
    }
    assert(without_end(path, drive) == path);
    assert(stem(path) == path);
    lemma_up_to_separator(directory, name, drive);
    assert(last_part(path) =~= name);
    assert(path + ".tmp"@ =~= directory + name + ".tmp"@);
}

/// A file in a directory is named behind it, and behind one separator where the directory does
/// not end with one: the last separator that the directory has, or a slash.
pub proof fn law_file_stands_inside(directory: Seq<char>, name: Seq<char>)
    requires
        directory.len() > drive_length(directory),
    ensures
        is_separator(directory.last()) ==> inside(directory, name) == directory + name,
        !is_separator(directory.last()) ==> {
            ||| inside(directory, name) == directory + "/"@ + name
            ||| inside(directory, name) == directory + "\\"@ + name
        },
        (forall|i: int| 0 <= i < directory.len() ==> !is_separator(#[trigger] directory[i]))
            ==> inside(directory, name) == directory + "/"@ + name,
{
    lemma_joint(directory);
}

proof fn lemma_joint(path: Seq<char>)
    ensures
        joint(path) == "/"@ || joint(path) == "\\"@,
        (forall|i: int| 0 <= i < path.len() ==> !is_separator(#[trigger] path[i])) ==> joint(path)
            == "/"@,
    decreases path.len(),
{
    if path.len() > 0 {
        lemma_joint(path.drop_last());
        if forall|i: int| 0 <= i < path.len() ==> !is_separator(#[trigger] path[i]) {
            let rest = path.drop_last();
            assert(!is_separator(path[path.len() - 1]));
            assert forall|i: int| 0 <= i < rest.len() implies !is_separator(#[trigger] rest[i]) by {
                assert(rest[i] == path[i]);
            }
        }
    }
}

} // verus!
