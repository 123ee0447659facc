//! Substring search and replacement on character sequences.
//!
//! `replace_spec` is the mathematical meaning of replacing every
//! non-overlapping occurrence of one substring by another, scanning left to
//! right; `replace_all` is the executable function proved against it.

use vstd::prelude::*;
use vstd::string::StrSliceExecFns;
use vstd::string::StringExecFns;

verus! {

/// Replace every non-overlapping occurrence of `from` in `s` by `to`,
/// scanning left to right. With an empty `from` the text is unchanged.
pub open spec fn replace_spec(s: Seq<char>, from: Seq<char>, to: Seq<char>) -> Seq<char>
    decreases s.len(),
{
    if from.len() == 0 || s.len() < from.len() {
        s
    } else if s.take(from.len() as int) == from {
        to + replace_spec(s.skip(from.len() as int), from, to)
    } else {
        seq![s[0]] + replace_spec(s.skip(1), from, to)
    }
}

/// `sub` occurs somewhere in `s` as a contiguous run.
pub open spec fn has_sub(s: Seq<char>, sub: Seq<char>) -> bool {
    exists|i: int|
        0 <= i && i + sub.len() <= s.len() && #[trigger] s.subrange(i, i + sub.len()) == sub
}

/// The middle part of a three-way concatenation occurs in the whole.
pub proof fn lemma_sub_of_concat(a: Seq<char>, b: Seq<char>, c: Seq<char>)
    ensures
        has_sub(a + b + c, b),
{
    let s = a + b + c;
    assert(s.subrange(a.len() as int, a.len() as int + b.len() as int) =~= b);
}

/// Text without an occurrence of `from` is left unchanged by replacement.
pub proof fn lemma_replace_absent(s: Seq<char>, from: Seq<char>, to: Seq<char>)
    requires
        from.len() >= 1,
        !has_sub(s, from),
    ensures
        replace_spec(s, from, to) == s,
    decreases s.len(),
{
    if s.len() >= from.len() {
        if s.take(from.len() as int) == from {
            let z: int = 0;
            assert(s.subrange(z, z + from.len()) == from);
            assert(false);
        }
        if has_sub(s.skip(1), from) {
            let i = choose|i: int|
                0 <= i && i + from.len() <= s.skip(1).len() && #[trigger] s.skip(1).subrange(
                    i,
                    i + from.len(),
                ) == from;
            assert(s.subrange(i + 1, i + 1 + from.len()) =~= s.skip(1).subrange(
                i,
                i + from.len(),
            ));
            assert(false);
        }
        lemma_replace_absent(s.skip(1), from, to);
        assert(seq![s[0]] + s.skip(1) =~= s);
    }
}

/// An occurrence of `from` that nothing earlier overlaps is rewritten to
/// `to`, and replacement carries on in the text after it.
pub proof fn lemma_replace_at(u: Seq<char>, from: Seq<char>, to: Seq<char>, v: Seq<char>)
    requires
        from.len() >= 1,
        forall|i: int|
            0 <= i < u.len() ==> #[trigger] (u + from + v).subrange(i, i + from.len()) != from,
    ensures
        replace_spec(u + from + v, from, to) == u + to + replace_spec(v, from, to),
    decreases u.len(),
{
    let s = u + from + v;
    if u.len() == 0 {
        assert(s.take(from.len() as int) =~= from);
        assert(s.skip(from.len() as int) =~= v);
        assert(u + to + replace_spec(v, from, to) =~= to + replace_spec(v, from, to));
    } else {
        let z: int = 0;
        assert((u + from + v).subrange(z, z + from.len()) != from);
        assert(s.take(from.len() as int) == s.subrange(z, z + from.len()));
        let u1 = u.skip(1);
        assert(s.skip(1) =~= u1 + from + v);
        assert forall|i: int| 0 <= i < u1.len() implies #[trigger] (u1 + from + v).subrange(
            i,
            i + from.len(),
        ) != from by {
            assert((u1 + from + v).subrange(i, i + from.len()) =~= s.subrange(
                i + 1,
                i + 1 + from.len(),
            ));
        }
        lemma_replace_at(u1, from, to, v);
        assert(replace_spec(s, from, to) == seq![s[0]] + (u1 + to + replace_spec(v, from, to)));
        assert(seq![s[0]] + (u1 + to + replace_spec(v, from, to)) =~= u + to + replace_spec(
            v,
            from,
            to,
        ));
    }
}

/// Law: replacement is not single-shot. In text carrying two occurrences of
/// `from`, neither overlapped by an earlier match, both are rewritten.
pub proof fn lemma_replace_all_occurrences(
    u: Seq<char>,
    w: Seq<char>,
    x: Seq<char>,
    from: Seq<char>,
    to: Seq<char>,
)
    requires
        from.len() >= 1,
        forall|i: int|
            0 <= i < u.len() ==> #[trigger] (u + from + (w + from + x)).subrange(i, i + from.len())
                != from,
        forall|i: int|
            0 <= i < w.len() ==> #[trigger] (w + from + x).subrange(i, i + from.len()) != from,
        !has_sub(x, from),
    ensures
        replace_spec(u + from + w + from + x, from, to) == u + to + w + to + x,
{
    let v = w + from + x;
    assert(u + from + w + from + x =~= u + from + v);
    lemma_replace_at(u, from, to, v);
    lemma_replace_at(w, from, to, x);
    lemma_replace_absent(x, from, to);
    assert(u + to + (w + to + x) =~= u + to + w + to + x);
}

/// Whether the characters of `pat` stand in `s` at position `i`.
fn matches_at(s: &str, i: usize, pat: &str) -> (r: bool)
    requires
        i + pat@.len() <= s@.len(),
    ensures
        r == (s@.subrange(i as int, i + pat@.len()) == pat@),
{
    let n = s.unicode_len();
    let m = pat.unicode_len();
    let mut j: usize = 0;
    while j < m
        invariant
            n == s@.len(),
            m == pat@.len(),
            i + m <= n,
            j <= m,
            forall|k: int| 0 <= k < j ==> s@[i + k] == pat@[k],
        decreases m - j,
    {
        if s.get_char(i + j) != pat.get_char(j) {
            proof {
                assert(s@.subrange(i as int, i + pat@.len())[j as int] == s@[i + j]);
            }
            return false;
        }
        j += 1;
    }
    proof {
        assert(s@.subrange(i as int, i + pat@.len()) =~= pat@);
    }
    true
}

/// Replace every non-overlapping occurrence of `from` in `s` by `to`,
/// scanning left to right, as `str::replace` does.
pub fn replace_all(s: &str, from: &str, to: &str) -> (r: String)
    requires
        from@.len() >= 1,
    ensures
        r@ == replace_spec(s@, from@, to@),
{
    let n = s.unicode_len();
    let m = from.unicode_len();
    let mut out = String::new();
    if m > n {
        out.append(s);
        return out;
    }
    let mut i: usize = 0;
    proof {
        assert(s@.skip(0) =~= s@);
        assert(out@ + replace_spec(s@, from@, to@) =~= replace_spec(s@, from@, to@));
    }
    while i <= n - m
        invariant
            n == s@.len(),
            m == from@.len(),
            1 <= m <= n,
            i <= n,
            replace_spec(s@, from@, to@) == out@ + replace_spec(s@.skip(i as int), from@, to@),
        decreases n - i,
    {
        let ghost tail = s@.skip(i as int);
        if matches_at(s, i, from) {
            out.append(to);
            proof {
                assert(tail.take(m as int) =~= s@.subrange(i as int, i + m));
                assert(tail.skip(m as int) =~= s@.skip(i + m));
            }
            i += m;
        } else {
            let c = s.substring_char(i, i + 1);
            out.append(c);
            proof {
                assert(tail.take(m as int) =~= s@.subrange(i as int, i + m));
                assert(c@ =~= seq![tail[0]]);
                assert(tail.skip(1) =~= s@.skip(i + 1));
            }
            i += 1;
        }
    }
    let tail = s.substring_char(i, n);
    out.append(tail);
    proof {
        assert(tail@ =~= s@.skip(i as int));
    }
    out
}

} // verus!
