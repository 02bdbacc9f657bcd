//! Paths of files, as texts.

use vstd::prelude::*;
use vstd::string::*;

use crate::text::append;
use crate::text::chars_of;

verus! {

/// The path of the file `name` in the directory `directory`: the two joined
/// by one `/`, which is not doubled where the directory ends with one and
/// left out for an empty directory. A name that starts at the root stands
/// for itself.
pub open spec fn joined_path(directory: Seq<char>, name: Seq<char>) -> Seq<char> {
    if name.len() > 0 && name[0] == '/' {
        name
    } else if directory.len() == 0 || directory.last() == '/' {
        directory + name
    } else {
        directory + seq!['/'] + name
    }
}

/// The path of the file `name` in the directory `directory`.
pub fn join_path(directory: &str, name: &str) -> (r: String)
    ensures
        r@ == joined_path(directory@, name@),
{
    let d = chars_of(directory);
    let n = chars_of(name);
    if n.len() > 0 && n[0] == '/' {
        String::from_str(name)
    } else if d.len() == 0 || d[d.len() - 1] == '/' {
        append(directory, name)
    } else {
        let mut out = String::from_str(directory);
        out.append("/");
        out.append(name);
        proof {
            reveal_strlit("/");
            assert("/"@ =~= seq!['/']);
        }
        out
    }
}

/// Whether `path` names a file in `directory` itself: it is the directory
/// joined with a name that holds no `/`.
pub open spec fn lies_in(path: Seq<char>, directory: Seq<char>) -> bool {
    exists|name: Seq<char>| !name.contains('/') && path == #[trigger] joined_path(directory, name)
}

/// A file in a directory has a path that begins with the directory.
pub proof fn lemma_lies_in(path: Seq<char>, directory: Seq<char>)
    requires
        lies_in(path, directory),
    ensures
        directory.is_prefix_of(path),
{
    let name = choose|name: Seq<char>|
        !name.contains('/') && path == #[trigger] joined_path(directory, name);
    if name.len() > 0 && name[0] == '/' {
        assert(name.contains('/'));
    }
    assert(path.subrange(0, directory.len() as int) =~= directory);
}

} // verus!
