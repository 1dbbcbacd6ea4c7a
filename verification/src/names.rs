//! Names of graph files: which names are tracked, and how a name is put under a directory.
//!
//! A name is a path written with `/` between its components. The watched directory
//! is scanned recursively, so a name may hold several components; the rule on the
//! extension looks at the last one only.

use vstd::prelude::*;
use vstd::string::*;

verus! {

/// Whether `name` ends in a component with the tracked extension: a non-empty stem
/// followed by `.dot`. A component that is `.dot` and nothing else is a hidden file
/// without an extension, and is not tracked.
pub open spec fn is_dot_name(name: Seq<char>) -> bool {
    let n = name.len() as int;
    &&& n >= 5
    &&& name[n - 4] == '.'
    &&& name[n - 3] == 'd'
    &&& name[n - 2] == 'o'
    &&& name[n - 1] == 't'
    &&& name[n - 5] != '/'
}

/// Tells whether `name` is the name of a graph file.
pub fn is_dot_file(name: &str) -> (found: bool)
    ensures
        found == is_dot_name(name@),
{
    let n = name.unicode_len();
    if n < 5 {
        return false;
    }
    name.get_char(n - 4) == '.' && name.get_char(n - 3) == 'd' && name.get_char(n - 2) == 'o'
        && name.get_char(n - 1) == 't' && name.get_char(n - 5) != '/'
}

/// `leaf` placed under the directory `base`: one `/` comes between the two unless
/// `base` is empty or already ends in one.
pub open spec fn joined(base: Seq<char>, leaf: Seq<char>) -> Seq<char> {
    if base.len() == 0 || base.last() == '/' {
        base + leaf
    } else {
        base + seq!['/'] + leaf
    }
}

/// Forms the path of `leaf` under the directory `base`.
pub fn join(base: &str, leaf: &str) -> (path: String)
    ensures
        path@ == joined(base@, leaf@),
{
    let n = base.unicode_len();
    let mut path = base.to_owned();
    if n > 0 && base.get_char(n - 1) != '/' {
        proof {
            reveal_strlit("/");
        }
        path.append("/");
        assert("/"@ =~= seq!['/']);
    }
    path.append(leaf);
    path
}

/// Putting a file under a directory does not change whether it is a graph file:
/// the rule looks at the last component only, and `leaf` is the last component, or
/// ends in it.
pub proof fn lemma_join_keeps_extension(base: Seq<char>, leaf: Seq<char>)
    ensures
        is_dot_name(joined(base, leaf)) == is_dot_name(leaf),
{
    let path = joined(base, leaf);
    let shift = path.len() - leaf.len();
    let n = path.len() as int;
    assert forall|i: int| 0 <= i < leaf.len() implies path[shift + i] == leaf[i] by {}
    if leaf.len() >= 5 {
        let k = leaf.len() as int;
        assert(path[shift + (k - 1)] == leaf[k - 1]);
        assert(path[shift + (k - 2)] == leaf[k - 2]);
        assert(path[shift + (k - 3)] == leaf[k - 3]);
        assert(path[shift + (k - 4)] == leaf[k - 4]);
        assert(path[shift + (k - 5)] == leaf[k - 5]);
    } else if shift > 0 {
        // The character before the leaf is a `/`, and it falls among the last five.
        assert(path[shift - 1] == '/');
    }
}

} // verus!
