//! Joining paths as Unix has them.

use vstd::prelude::*;
use vstd::string::*;

use crate::text::chars_of;

verus! {

/// A path below another: an absolute path stands alone, and one slash parts the two otherwise.
pub open spec fn path_below(base: Seq<char>, path: Seq<char>) -> Seq<char> {
    if path.len() > 0 && path[0] == '/' {
        path
    } else if base.len() == 0 || base.last() == '/' {
        base + path
    } else {
        base + "/"@ + path
    }
}

/// A path below another.
pub fn join_path(base: &str, path: &str) -> (r: String)
    ensures
        r@ == path_below(base@, path@),
{
    let front = chars_of(base);
    let back = chars_of(path);
    if back.len() > 0 && back[0] == '/' {
        return path.to_string();
    }
    let mut out = base.to_string();
    if front.len() > 0 && front[front.len() - 1] != '/' {
        out.append("/");
    }
    out.append(path);
    out
}

/// A relative path stays below the path it is joined to.
pub proof fn law_relative_path_stays_below(base: Seq<char>, path: Seq<char>)
    requires
        path.len() == 0 || path[0] != '/',
    ensures
        path_below(base, path).len() >= base.len(),
        path_below(base, path).take(base.len() as int) == base,
{
    assert(path_below(base, path).take(base.len() as int) =~= base);
}

}
