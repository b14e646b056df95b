//! File paths as text, joined the way `Path::join` joins them on Unix.
use vstd::prelude::*;

use crate::text::{char_at, concat2, concat3, str_len};

verus! {

pub open spec fn is_absolute(p: Seq<char>) -> bool {
    p.len() > 0 && p[0] == '/'
}

/// `root.join(p)`: an absolute `p` replaces `root`; otherwise `p` is appended after a
/// separator, which is added only when `root` is non-empty and does not end in one.
pub open spec fn join_path(root: Seq<char>, p: Seq<char>) -> Seq<char> {
    if is_absolute(p) {
        p
    } else if root.len() == 0 || root.last() == '/' {
        root + p
    } else {
        root + "/"@ + p
    }
}

pub fn path_is_absolute(p: &str) -> (r: bool)
    ensures
        r == is_absolute(p@),
{
    str_len(p) > 0 && char_at(p, 0) == '/'
}

pub fn join(root: &str, p: &str) -> (r: String)
    ensures
        r@ == join_path(root@, p@),
{
    if path_is_absolute(p) {
        p.to_owned()
    } else {
        let n = str_len(root);
        if n == 0 || char_at(root, n - 1) == '/' {
            concat2(root, p)
        } else {
            proof {
                reveal_strlit("/");
            }
            concat3(root, "/", p)
        }
    }
}

} // verus!
