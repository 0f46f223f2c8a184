//! Paths as text, with `/` between their parts.
use vstd::prelude::*;

verus! {

/// The entry `name` of the directory `dir`.
pub open spec fn child_path(dir: Seq<char>, name: Seq<char>) -> Seq<char> {
    if dir.len() == 0 || dir.last() == '/' {
        dir + name
    } else {
        dir + "/"@ + name
    }
}

/// The entry `name` of the directory `dir`; `name` is a relative name.
pub fn child(dir: &str, name: &str) -> (r: String)
    ensures
        r@ == child_path(dir@, name@),
{
    let v = crate::text::chars_of(dir);
    if v.len() == 0 || v[v.len() - 1] == '/' {
        dir.to_owned().concat(name)
    } else {
        dir.to_owned().concat("/").concat(name)
    }
}

} // verus!
