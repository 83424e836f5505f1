//! Paths as texts, with `/` between their parts.
use vstd::prelude::*;

use crate::text::{concat, concat3};

verus! {

/// The path of `name` in the directory `parent`.
pub open spec fn joined_path(parent: Seq<char>, name: Seq<char>) -> Seq<char> {
    if parent.len() == 0 {
        name
    } else if parent.last() == '/' {
        parent + name
    } else {
        parent + "/"@ + name
    }
}

/// The path of `name` in the directory `parent`.
pub fn join_path(parent: &str, name: &str) -> (r: String)
    ensures
        r@ == joined_path(parent@, name@),
{
    let n: usize = parent.unicode_len();
    if n == 0 {
        name.to_owned()
    } else if parent.get_char(n - 1) == '/' {
        concat(parent, name)
    } else {
        concat3(parent, "/", name)
    }
}

} // verus!
