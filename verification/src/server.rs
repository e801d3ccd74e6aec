//! What the server needs to know of paths.

use vstd::prelude::*;
use vstd::string::StrSliceExecFns;
use vstd::string::StringExecFns;

verus! {

/// The path of a static file to be served.
pub struct StaticFile<T>(pub T);

/// `path` without the slashes at its end.
pub open spec fn trimmed(path: Seq<char>) -> Seq<char>
    decreases path.len(),
{
    if path.len() > 0 && path.last() == '/' {
        trimmed(path.drop_last())
    } else {
        path
    }
}

/// The prefix under which a window is routed: `path` without the slashes at
/// its end, or `None` where nothing is left of it.
pub fn route_prefix(path: &str) -> (prefix: Option<String>)
    ensures
        match prefix {
            Some(prefix) => prefix@ == trimmed(path@) && prefix@.len() > 0,
            None => trimmed(path@).len() == 0,
        },
{
    let mut end = path.unicode_len();
    proof {
        assert(path@.take(end as int) =~= path@);
    }
    while end > 0 && path.get_char(end - 1) == '/'
        invariant
            end <= path@.len(),
            trimmed(path@) == trimmed(path@.take(end as int)),
        decreases end,
    {
        proof {
            assert(path@.take(end as int).drop_last() =~= path@.take(end - 1));
        }
        end = end - 1;
    }
    proof {
        assert(path@.take(path@.len() as int) =~= path@);
        assert(path@.subrange(0, end as int) =~= path@.take(end as int));
    }
    if end == 0 {
        None
    } else {
        Some(String::from_str(path.substring_char(0, end)))
    }
}

} // verus!
