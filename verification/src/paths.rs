//! A plain-text model of filesystem paths.
//!
//! A path is a string; `/` separates its segments and a leading `/` makes it
//! absolute. A path written with a trailing `/` denotes a directory and has
//! no final segment. Joining follows the usual rule: an absolute right-hand
//! side replaces the base, and a separator is inserted only where the base
//! does not already end with one.

use vstd::prelude::*;
use vstd::string::*;

verus! {

/// A path is absolute when it starts with `/`.
pub open spec fn is_absolute_path(p: Seq<char>) -> bool {
    p.len() > 0 && p[0] == '/'
}

/// The join of `base` and `rel`: `rel` alone when it is absolute or the base
/// is empty, otherwise the base, a separator where one is missing, and `rel`.
pub open spec fn joined(base: Seq<char>, rel: Seq<char>) -> Seq<char> {
    if is_absolute_path(rel) {
        rel
    } else if base.len() == 0 {
        rel
    } else if base.last() == '/' {
        base + rel
    } else {
        base + "/"@ + rel
    }
}

/// The final segment of a path: the characters after the last `/`. Empty
/// when the path is empty or ends with a separator.
pub open spec fn last_segment(p: Seq<char>) -> Seq<char>
    decreases p.len(),
{
    if p.len() == 0 {
        Seq::empty()
    } else if p.last() == '/' {
        Seq::empty()
    } else {
        last_segment(p.drop_last()).push(p.last())
    }
}

/// The basename of a path: its final segment, or `None` when there is none
/// (an empty path, or one that denotes a directory by its trailing `/`).
pub open spec fn basename_of(p: Seq<char>) -> Option<Seq<char>> {
    if last_segment(p).len() == 0 {
        None
    } else {
        Some(last_segment(p))
    }
}

/// A suffix that starts at the beginning of the path or right after a `/`,
/// and holds no further `/`, is the final segment.
proof fn lemma_last_segment_at(p: Seq<char>, i: int)
    requires
        0 <= i <= p.len(),
        i == 0 || p[i - 1] == '/',
        forall|k: int| i <= k < p.len() ==> p[k] != '/',
    ensures
        last_segment(p) == p.skip(i),
    decreases p.len(),
{
    if i == p.len() {
        if p.len() == 0 {
            assert(p.skip(i) =~= Seq::<char>::empty());
        } else {
            assert(p.last() == '/');
            assert(p.skip(i) =~= Seq::<char>::empty());
        }
    } else {
        assert(p[p.len() - 1] != '/');
        let q = p.drop_last();
        assert forall|k: int| i <= k < q.len() implies q[k] != '/' by {
            assert(q[k] == p[k]);
        }
        lemma_last_segment_at(q, i);
        assert(q.skip(i).push(p.last()) =~= p.skip(i));
    }
}

/// Whether the path `p` is absolute.
pub fn is_absolute(p: &str) -> (b: bool)
    ensures
        b == is_absolute_path(p@),
{
    if p.unicode_len() == 0 {
        false
    } else {
        p.get_char(0) == '/'
    }
}

/// The join of `base` and `rel`, following `joined`.
pub fn join_paths(base: &str, rel: &str) -> (r: String)
    ensures
        r@ == joined(base@, rel@),
{
    if is_absolute(rel) {
        return rel.to_owned();
    }
    let n: usize = base.unicode_len();
    if n == 0 {
        return rel.to_owned();
    }
    let mut r = base.to_owned();
    if base.get_char(n - 1) != '/' {
        r.append("/");
    }
    r.append(rel);
    r
}

/// The basename of `p`, following `basename_of`.
pub fn basename(p: &str) -> (r: Option<String>)
    ensures
        r.deep_view() == basename_of(p@),
{
    let n: usize = p.unicode_len();
    let mut i: usize = n;
    while i > 0 && p.get_char(i - 1) != '/'
        invariant
            i <= n,
            n == p@.len(),
            forall|k: int| i <= k < n ==> p@[k] != '/',
        decreases i,
    {
        i = i - 1;
    }
    proof {
        lemma_last_segment_at(p@, i as int);
        assert(p@.skip(i as int).len() == n - i);
    }
    if i == n {
        None
    } else {
        let seg = p.substring_char(i, n);
        proof {
            assert(seg@ =~= p@.skip(i as int));
        }
        Some(seg.to_owned())
    }
}

} // verus!
