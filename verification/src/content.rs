//! The content-truncation convention.
//!
//! A tracked file may carry machine-local content that must never be compared
//! or synced. A sentinel marker string demarcates it: every line from the
//! first line containing the marker (by substring match) onward is cut off,
//! and only the complete lines before that line, each with its terminating
//! newline, remain. A text without a marker line is kept verbatim.

use vstd::prelude::*;
use vstd::string::*;

verus! {

/// The sentinel marker string.
pub open spec fn marker() -> Seq<char> {
    "dot-manager: ignore after this"@
}

/// `pat` occurs in `text` starting at position `i`.
pub open spec fn matches_at(text: Seq<char>, pat: Seq<char>, i: int) -> bool {
    0 <= i && i + pat.len() <= text.len() && text.subrange(i, i + pat.len()) == pat
}

/// `text` contains the marker as a substring.
pub open spec fn contains_marker(text: Seq<char>) -> bool {
    exists|i: int| matches_at(text, marker(), i)
}

/// Position of the first newline in `s`, or `s.len()` if there is none.
pub open spec fn first_newline(s: Seq<char>) -> nat
    decreases s.len(),
{
    if s.len() == 0 {
        0
    } else if s[0] == '\n' {
        0
    } else {
        1 + first_newline(s.skip(1))
    }
}

/// The truncated form of a text: the complete lines, each with its newline,
/// strictly before the first line that contains the marker; the whole text
/// verbatim when no line contains the marker.
pub open spec fn truncated(s: Seq<char>) -> Seq<char>
    decreases s.len(),
{
    let e = first_newline(s) as int;
    if contains_marker(s.take(e)) {
        Seq::empty()
    } else if e >= s.len() {
        s
    } else {
        s.take(e + 1) + truncated(s.skip(e + 1))
    }
}

/// `first_newline` points at the first newline: it is in bounds, the
/// character there (if any) is a newline, and no earlier character is.
proof fn lemma_first_newline(s: Seq<char>)
    ensures
        first_newline(s) <= s.len(),
        first_newline(s) < s.len() ==> s[first_newline(s) as int] == '\n',
        forall|k: int| 0 <= k < first_newline(s) ==> s[k] != '\n',
    decreases s.len(),
{
    if s.len() == 0 {
    } else if s[0] == '\n' {
    } else {
        lemma_first_newline(s.skip(1));
        assert forall|k: int| 0 <= k < first_newline(s) implies s[k] != '\n' by {
            if k > 0 {
                assert(s.skip(1)[k - 1] == s[k]);
            }
        }
    }
}

/// A position scan that finds no newline before `m`, and a newline (or the
/// end of the text) at `m`, has found `first_newline`.
proof fn lemma_first_newline_at(s: Seq<char>, m: nat)
    requires
        m <= s.len(),
        forall|k: int| 0 <= k < m ==> s[k] != '\n',
        m < s.len() ==> s[m as int] == '\n',
    ensures
        first_newline(s) == m,
    decreases s.len(),
{
    if s.len() == 0 {
    } else if s[0] == '\n' {
        assert(m == 0);
    } else {
        assert(m >= 1);
        let t = s.skip(1);
        assert forall|k: int| 0 <= k < m - 1 implies t[k] != '\n' by {
            assert(t[k] == s[k + 1]);
        }
        assert(m - 1 < t.len() ==> t[m - 1] == '\n');
        lemma_first_newline_at(t, (m - 1) as nat);
    }
}

/// The marker is not the empty string.
proof fn lemma_marker_nonempty()
    ensures
        marker().len() > 0,
{
    reveal_strlit("dot-manager: ignore after this");
}

/// The empty text truncates to itself.
pub proof fn lemma_truncated_empty()
    ensures
        truncated(Seq::<char>::empty()) == Seq::<char>::empty(),
{
    let s = Seq::<char>::empty();
    lemma_marker_nonempty();
    assert(s.take(first_newline(s) as int) =~= s);
    assert(!contains_marker(s));
}

/// A match found inside a subrange of `s` is a match inside `s`.
proof fn lemma_matches_in_subrange(s: Seq<char>, a: int, b: int, i: int)
    requires
        0 <= a <= b <= s.len(),
        matches_at(s.subrange(a, b), marker(), i),
    ensures
        matches_at(s, marker(), a + i),
{
    let sub = s.subrange(a, b);
    assert(s.subrange(a + i, a + i + marker().len()) =~= sub.subrange(
        i,
        i + marker().len(),
    ));
}

/// Prepending one complete, marker-free line (newline included) to a text
/// commutes with truncation.
proof fn lemma_truncated_prepend_line(head: Seq<char>, u: Seq<char>)
    requires
        head.len() > 0,
        head.last() == '\n',
        forall|k: int| 0 <= k < head.len() - 1 ==> head[k] != '\n',
        !contains_marker(head.take(head.len() - 1)),
    ensures
        truncated(head + u) == head + truncated(u),
{
    let s = head + u;
    let e = (head.len() - 1) as nat;
    assert forall|k: int| 0 <= k < e implies s[k] != '\n' by {
        assert(s[k] == head[k]);
    }
    assert(s[e as int] == head[e as int]);
    lemma_first_newline_at(s, e);
    assert(s.take(e as int) =~= head.take(head.len() - 1));
    assert(s.take(e as int + 1) =~= head);
    assert(s.skip(e as int + 1) =~= u);
}

/// Truncation is idempotent: a truncated text holds no marker line, so
/// truncating it again changes nothing.
pub proof fn lemma_truncated_idempotent(s: Seq<char>)
    ensures
        truncated(truncated(s)) == truncated(s),
    decreases s.len(),
{
    lemma_first_newline(s);
    let e = first_newline(s) as int;
    if contains_marker(s.take(e)) {
        lemma_truncated_empty();
    } else if e >= s.len() {
    } else {
        let head = s.take(e + 1);
        let tail = s.skip(e + 1);
        assert(head.last() == s[e]);
        assert forall|k: int| 0 <= k < head.len() - 1 implies head[k] != '\n' by {
            assert(head[k] == s[k]);
        }
        assert(head.take(head.len() - 1) =~= s.take(e));
        lemma_truncated_idempotent(tail);
        lemma_truncated_prepend_line(head, truncated(tail));
    }
}

/// A text without a marker line truncates to itself.
pub proof fn lemma_truncated_no_marker(s: Seq<char>)
    requires
        !contains_marker(s),
    ensures
        truncated(s) == s,
    decreases s.len(),
{
    lemma_first_newline(s);
    let e = first_newline(s) as int;
    assert forall|i: int| !matches_at(s.take(e), marker(), i) by {
        if matches_at(s.take(e), marker(), i) {
            assert(s.take(e) =~= s.subrange(0, e));
            lemma_matches_in_subrange(s, 0, e, i);
        }
    }
    if e < s.len() {
        let tail = s.skip(e + 1);
        assert forall|i: int| !matches_at(tail, marker(), i) by {
            if matches_at(tail, marker(), i) {
                assert(tail =~= s.subrange(e + 1, s.len() as int));
                lemma_matches_in_subrange(s, e + 1, s.len() as int, i);
            }
        }
        lemma_truncated_no_marker(tail);
        assert(s.take(e + 1) + s.skip(e + 1) =~= s);
    }
}

/// Whether `t` contains the sentinel marker as a substring.
pub fn contains_marker_in(t: &str) -> (b: bool)
    ensures
        b == contains_marker(t@),
{
    let pat = "dot-manager: ignore after this";
    let n: usize = t.unicode_len();
    let m: usize = pat.unicode_len();
    if m > n {
        proof {
            assert forall|i: int| !matches_at(t@, marker(), i) by {}
        }
        return false;
    }
    let mut i: usize = 0;
    while i <= n - m
        invariant
            m <= n,
            n == t@.len(),
            pat@ == marker(),
            m == marker().len(),
            i <= n - m + 1,
            forall|p: int| 0 <= p < i ==> !matches_at(t@, marker(), p),
        decreases n - m + 1 - i,
    {
        let mut k: usize = 0;
        while k < m && t.get_char(i + k) == pat.get_char(k)
            invariant
                m <= n,
                i + m <= n,
                n == t@.len(),
                pat@ == marker(),
                m == marker().len(),
                k <= m,
                forall|q: int| 0 <= q < k ==> t@[i + q] == marker()[q],
            decreases m - k,
    {
            k = k + 1;
        }
        if k == m {
            proof {
                assert(t@.subrange(i as int, i + m as int) =~= marker());
                assert(matches_at(t@, marker(), i as int));
            }
            return true;
        }
        proof {
            assert forall|p: int| 0 <= p < i + 1 implies !matches_at(t@, marker(), p) by {
                if p == i && matches_at(t@, marker(), p) {
                    assert(t@.subrange(i as int, i + m as int)[k as int] == t@[i + k]);
                }
            }
        }
        i = i + 1;
    }
    proof {
        assert forall|p: int| !matches_at(t@, marker(), p) by {
            if matches_at(t@, marker(), p) {
                assert(p + m <= n);
            }
        }
    }
    false
}

/// The truncated form of `s`: everything from the first marker line on is
/// cut off; a text without a marker line is returned verbatim.
pub fn truncate_content(s: &str) -> (r: String)
    ensures
        r@ == truncated(s@),
{
    let n: usize = s.unicode_len();
    let mut out = String::new();
    let mut start: usize = 0;
    proof {
        assert(s@.skip(0) =~= s@);
        assert(out@ + truncated(s@) =~= truncated(s@));
    }
    while start < n
        invariant
            start <= n,
            n == s@.len(),
            truncated(s@) == out@ + truncated(s@.skip(start as int)),
        decreases n - start,
    {
        let ghost rest = s@.skip(start as int);
        let mut j: usize = start;
        while j < n && s.get_char(j) != '\n'
            invariant
                start <= j <= n,
                n == s@.len(),
                forall|k: int| start <= k < j ==> s@[k] != '\n',
            decreases n - j,
        {
            j = j + 1;
        }
        proof {
            assert forall|k: int| 0 <= k < j - start implies rest[k] != '\n' by {
                assert(rest[k] == s@[start + k]);
            }
            if j < n {
                assert(rest[j - start] == s@[j as int]);
            }
            lemma_first_newline_at(rest, (j - start) as nat);
        }
        let line = s.substring_char(start, j);
        proof {
            assert(line@ =~= rest.take(j - start));
        }
        if contains_marker_in(line) {
            proof {
                assert(truncated(rest) == Seq::<char>::empty());
                assert(out@ + truncated(rest) =~= out@);
            }
            return out;
        }
        if j == n {
            out.append(line);
            proof {
                assert(rest.take(j - start) =~= rest);
                assert(truncated(rest) == rest);
            }
            return out;
        }
        let piece = s.substring_char(start, j + 1);
        let ghost old_out = out@;
        out.append(piece);
        proof {
            assert(piece@ =~= rest.take(j - start + 1));
            assert(rest.skip(j - start + 1) =~= s@.skip(j + 1));
            assert(truncated(rest) == rest.take(j - start + 1) + truncated(
                rest.skip(j - start + 1),
            ));
            assert(old_out + truncated(rest) =~= out@ + truncated(s@.skip(j + 1)));
        }
        start = j + 1;
    }
    proof {
        assert(s@.skip(n as int) =~= Seq::<char>::empty());
        lemma_truncated_empty();
        assert(out@ + truncated(s@.skip(n as int)) =~= out@);
    }
    out
}

} // verus!
