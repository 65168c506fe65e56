//! Reading a file name out of a path given as user input: the
//! component after the last separator, with surrounding white space
//! and trailing separators ignored.
use vstd::prelude::*;
use vstd::string::{StrSliceExecFns, StringExecFns};

use crate::strings::{spec_trim, str_trim};

verus! {

/// The start of the path component that ends at `i`: scanning back
/// from `i`, the position just past the nearest separator.
pub open spec fn component_start(s: Seq<char>, i: int) -> int
    decreases i,
{
    if i <= 0 {
        0
    } else if s[i - 1] == '/' {
        i
    } else {
        component_start(s, i - 1)
    }
}

/// The path without its trailing separators.
pub open spec fn strip_trailing_slashes(s: Seq<char>) -> Seq<char>
    decreases s.len(),
{
    if s.len() > 0 && s.last() == '/' {
        strip_trailing_slashes(s.drop_last())
    } else {
        s
    }
}

/// The file name a path points at: the last component of the trimmed
/// path, trailing separators ignored.
pub open spec fn spec_file_name(path: Seq<char>) -> Seq<char> {
    let t = strip_trailing_slashes(spec_trim(path));
    t.subrange(component_start(t, t.len() as int), t.len() as int)
}

/// The file name a path points at. The path must name a real file:
/// the last component may be neither empty nor a dot component.
pub fn get_file_name(path: &str) -> (r: String)
    requires
        spec_file_name(path@).len() > 0,
        spec_file_name(path@) != seq!['.'],
        spec_file_name(path@) != seq!['.', '.'],
    ensures
        r@ == spec_file_name(path@),
{
    let t = str_trim(path);
    let ts = t.as_str();
    let n = ts.unicode_len();
    let mut e: usize = n;
    proof {
        assert(ts@.subrange(0, n as int) =~= ts@);
    }
    while e > 0 && ts.get_char(e - 1) == '/'
        invariant
            e <= n,
            n == ts@.len(),
            strip_trailing_slashes(ts@) == strip_trailing_slashes(ts@.subrange(0, e as int)),
        decreases e,
    {
        proof {
            assert(ts@.subrange(0, e as int).drop_last() =~= ts@.subrange(0, e as int - 1));
        }
        e -= 1;
    }
    let ghost u = strip_trailing_slashes(ts@);
    proof {
        assert(u =~= ts@.subrange(0, e as int));
    }
    let mut st: usize = e;
    while st > 0 && ts.get_char(st - 1) != '/'
        invariant
            st <= e <= n,
            n == ts@.len(),
            u == ts@.subrange(0, e as int),
            component_start(u, e as int) == component_start(u, st as int),
        decreases st,
    {
        proof {
            assert(u[st as int - 1] == ts@[st as int - 1]);
        }
        st -= 1;
    }
    proof {
        if st > 0 {
            assert(u[st as int - 1] == ts@[st as int - 1]);
        }
        assert(component_start(u, st as int) == st);
        assert(u.subrange(st as int, e as int) =~= ts@.subrange(st as int, e as int));
    }
    String::from_str(ts.substring_char(st, e))
}

} // verus!
