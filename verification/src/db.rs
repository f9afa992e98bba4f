//! The database location.
use vstd::prelude::*;
use crate::text::{chars_of, slice_of, string_of};

verus! {

/// The scheme of SQLite database URLs.
pub open spec fn sqlite_scheme() -> Seq<char> {
    "sqlite://"@
}

/// The file of a SQLite database URL: what follows `sqlite://`, where the
/// URL starts with it.
pub open spec fn sqlite_file(url: Seq<char>) -> Option<Seq<char>> {
    if url.len() >= sqlite_scheme().len() && url.take(sqlite_scheme().len() as int)
        == sqlite_scheme() {
        Some(url.skip(sqlite_scheme().len() as int))
    } else {
        None
    }
}

/// The file that a SQLite database URL names, whose directory has to exist
/// before connecting.
pub fn sqlite_file_path(url: &str) -> (r: Option<String>)
    ensures
        r matches Some(p) ==> sqlite_file(url@) == Some(p@),
        r is None ==> sqlite_file(url@) is None,
{
    let u = chars_of(url);
    let scheme = chars_of("sqlite://");
    let n = scheme.len();
    if u.len() < n {
        return None;
    }
    let head = slice_of(&u, 0, n);
    let mut same = true;
    let mut i: usize = 0;
    while i < n
        invariant
            head@ == u@.subrange(0, n as int),
            n == scheme@.len(),
            n <= u@.len(),
            i <= n,
            same == (forall|j: int| 0 <= j < i ==> head@[j] == scheme@[j]),
        decreases n - i,
    {
        if head[i] != scheme[i] {
            same = false;
        }
        i += 1;
    }
    proof {
        assert(u@.take(n as int) =~= head@);
        if same {
            assert(head@ =~= scheme@);
        } else {
            assert(head@ != scheme@);
        }
    }
    if same {
        let rest = slice_of(&u, n, u.len());
        proof {
            assert(rest@ =~= u@.skip(n as int));
        }
        Some(string_of(&rest))
    } else {
        None
    }
}

} // verus!
