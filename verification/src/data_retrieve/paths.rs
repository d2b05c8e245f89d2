//! Paths as `/`-separated strings.

use vstd::prelude::*;
use vstd::string::*;

verus! {

/// The path that names `name` inside the directory `base`: the two with a
/// separator between them. An empty `base` adds nothing, and no separator
/// is added to a `base` that already ends in one.
pub open spec fn joined(base: Seq<char>, name: Seq<char>) -> Seq<char> {
    if base.len() == 0 {
        name
    } else if base.last() == '/' {
        base + name
    } else {
        base + seq!['/'] + name
    }
}

/// Joins a directory and a name into one path.
pub fn join(base: &str, name: &str) -> (path: String)
    ensures
        path@ == joined(base@, name@),
{
    let base_len: usize = base.unicode_len();
    if base_len == 0 {
        name.to_owned()
    } else if base.get_char(base_len - 1) == '/' {
        let mut path = base.to_owned();
        path.append(name);
        path
    } else {
        proof {
            reveal_strlit("/");
            assert("/"@ =~= seq!['/']);
        }
        let mut path = base.to_owned();
        path.append("/");
        path.append(name);
        path
    }
}

} // verus!
