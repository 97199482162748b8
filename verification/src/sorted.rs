//! Strictly increasing sequences of identifiers: the deterministic set
//! representation used wherever the server lists identifiers in `String`
//! order.
use vstd::prelude::*;

use crate::text::{
    chars_eq, lemma_lex_asymmetric, lemma_lex_total, lex_less, lex_lt, str_chars,
    string_from_chars, vview,
};

verus! {

/// Each element is below the next one in code point order.
pub open spec fn strictly_sorted(s: Seq<Seq<char>>) -> bool {
    forall|i: int| 0 <= i < s.len() - 1 ==> lex_lt(#[trigger] s[i], s[i + 1])
}

/// The character sequences of a vector of strings.
pub open spec fn sview(v: Seq<String>) -> Seq<Seq<char>> {
    v.map_values(|x: String| x@)
}

/// Whether `v` holds a vector with the characters of `x`.
pub fn contains_chars(v: &Vec<Vec<char>>, x: &Vec<char>) -> (r: bool)
    ensures
        r == vview(v@).contains(x@),
{
    let mut i: usize = 0;
    while i < v.len()
        invariant
            i <= v.len(),
            forall|j: int| 0 <= j < i ==> vview(v@)[j] != x@,
        decreases v.len() - i,
    {
        if chars_eq(&v[i], x) {
            assert(vview(v@)[i as int] == x@);
            return true;
        }
        i = i + 1;
    }
    false
}

/// Inserts `x` at its place in a strictly increasing vector, unless it is
/// already there.
pub fn sorted_insert(v: &mut Vec<Vec<char>>, x: Vec<char>)
    requires
        strictly_sorted(vview(old(v)@)),
    ensures
        strictly_sorted(vview(final(v)@)),
        vview(final(v)@).to_set() == vview(old(v)@).to_set().insert(x@),
        vview(old(v)@).contains(x@) ==> final(v)@ == old(v)@,
{
    if contains_chars(v, &x) {
        proof {
            assert(vview(v@).to_set() =~= vview(v@).to_set().insert(x@));
        }
        return;
    }
    let ghost old_v = vview(v@);
    let mut p: usize = 0;
    while p < v.len() && lex_less(&v[p], &x)
        invariant
            p <= v.len(),
            vview(v@) == old_v,
            forall|j: int| 0 <= j < p ==> lex_lt(#[trigger] old_v[j], x@),
        decreases v.len() - p,
    {
        p = p + 1;
    }
    let ghost xv = x@;
    v.insert(p, x);
    proof {
        let nv = vview(v@);
        assert(nv =~= old_v.insert(p as int, xv));
        if p < old_v.len() {
            assert(old_v[p as int] != xv);
            lemma_lex_total(old_v[p as int], xv);
            assert(lex_lt(xv, old_v[p as int]));
        }
        assert forall|i: int| 0 <= i < nv.len() - 1 implies lex_lt(#[trigger] nv[i], nv[i + 1]) by {
            if i < p as int - 1 {
                assert(nv[i] == old_v[i] && nv[i + 1] == old_v[i + 1]);
            } else if i == p as int - 1 {
                assert(nv[i] == old_v[i] && nv[i + 1] == xv);
            } else if i == p as int {
                assert(nv[i] == xv && nv[i + 1] == old_v[i]);
            } else {
                assert(nv[i] == old_v[i - 1] && nv[i + 1] == old_v[i]);
            }
        }
        assert forall|y: Seq<char>| nv.to_set().contains(y) == old_v.to_set().insert(xv).contains(
            y,
        ) by {
            if nv.contains(y) {
                let k = choose|k: int| 0 <= k < nv.len() && nv[k] == y;
                if k < p {
                    assert(old_v[k] == y);
                } else if k > p {
                    assert(old_v[k - 1] == y);
                }
            }
            if old_v.contains(y) {
                let k = choose|k: int| 0 <= k < old_v.len() && old_v[k] == y;
                if k < p {
                    assert(nv[k] == y);
                } else {
                    assert(nv[k + 1] == y);
                }
            }
            if y == xv {
                assert(nv[p as int] == y);
            }
        }
        assert(nv.to_set() =~= old_v.to_set().insert(xv));
    }
}

/// The strings holding the characters of each vector, in order.
pub fn strings_from_chars(v: &Vec<Vec<char>>) -> (r: Vec<String>)
    ensures
        sview(r@) == vview(v@),
{
    let mut out: Vec<String> = Vec::new();
    let mut i: usize = 0;
    while i < v.len()
        invariant
            i <= v.len(),
            sview(out@) == vview(v@).take(i as int),
        decreases v.len() - i,
    {
        let s = string_from_chars(&v[i]);
        let ghost before = out@;
        out.push(s);
        proof {
            assert(sview(out@) =~= sview(before).push(s@));
            assert(vview(v@).take(i + 1) =~= vview(v@).take(i as int).push(vview(v@)[i as int]));
        }
        i = i + 1;
    }
    assert(vview(v@).take(v.len() as int) =~= vview(v@));
    out
}

/// The characters of each string, in order.
pub fn chars_of_strings(v: &Vec<String>) -> (r: Vec<Vec<char>>)
    ensures
        vview(r@) == sview(v@),
{
    let mut out: Vec<Vec<char>> = Vec::new();
    let mut i: usize = 0;
    while i < v.len()
        invariant
            i <= v.len(),
            vview(out@) == sview(v@).take(i as int),
        decreases v.len() - i,
    {
        let s = str_chars(v[i].as_str());
        let ghost before = out@;
        out.push(s);
        proof {
            assert(vview(out@) =~= vview(before).push(s@));
            assert(sview(v@).take(i + 1) =~= sview(v@).take(i as int).push(sview(v@)[i as int]));
        }
        i = i + 1;
    }
    assert(sview(v@).take(v.len() as int) =~= sview(v@));
    out
}

/// A strictly increasing sequence is determined by its set of elements.
pub proof fn lemma_sorted_unique(a: Seq<Seq<char>>, b: Seq<Seq<char>>)
    requires
        strictly_sorted(a),
        strictly_sorted(b),
        a.to_set() == b.to_set(),
    ensures
        a == b,
    decreases a.len() + b.len(),
{
    lemma_sorted_transitive(a);
    lemma_sorted_transitive(b);
    if a.len() == 0 {
        if b.len() > 0 {
            assert(b.to_set().contains(b[0]));
        }
        assert(a =~= b);
        return;
    }
    if b.len() == 0 {
        assert(a.to_set().contains(a[0]));
        return;
    }
    // The last elements are both the maximum of the common set.
    let la = a.last();
    let lb = b.last();
    assert(a.to_set().contains(la));
    assert(b.to_set().contains(lb));
    assert(b.contains(la));
    assert(a.contains(lb));
    let ia = choose|k: int| 0 <= k < b.len() && b[k] == la;
    let ib = choose|k: int| 0 <= k < a.len() && a[k] == lb;
    if la != lb {
        lemma_lex_total(la, lb);
        if lex_lt(la, lb) {
            // lb sits below la in a.
            assert(ib < a.len() - 1);
            assert(lex_lt(a[ib], a[a.len() - 1]));
            lemma_lex_asymmetric(la, lb);
        } else {
            assert(ia < b.len() - 1);
            assert(lex_lt(b[ia], b[b.len() - 1]));
            lemma_lex_asymmetric(la, lb);
        }
    }
    let a2 = a.drop_last();
    let b2 = b.drop_last();
    assert(strictly_sorted(a2));
    assert(strictly_sorted(b2));
    assert forall|y: Seq<char>| a2.to_set().contains(y) == b2.to_set().contains(y) by {
        if a2.contains(y) {
            let k = choose|k: int| 0 <= k < a2.len() && a2[k] == y;
            assert(lex_lt(a[k], a[a.len() - 1]));
            lemma_lex_asymmetric(y, la);
            assert(a.to_set().contains(y));
            assert(b.contains(y));
            let j = choose|j: int| 0 <= j < b.len() && b[j] == y;
            assert(j != b.len() - 1);
            assert(b2[j] == y);
        }
        if b2.contains(y) {
            let k = choose|k: int| 0 <= k < b2.len() && b2[k] == y;
            assert(lex_lt(b[k], b[b.len() - 1]));
            lemma_lex_asymmetric(y, lb);
            assert(b.to_set().contains(y));
            assert(a.contains(y));
            let j = choose|j: int| 0 <= j < a.len() && a[j] == y;
            assert(j != a.len() - 1);
            assert(a2[j] == y);
        }
    }
    assert(a2.to_set() =~= b2.to_set());
    lemma_sorted_unique(a2, b2);
    assert(a =~= a2.push(la));
    assert(b =~= b2.push(lb));
}

/// In a strictly increasing sequence every earlier element is below every
/// later one.
pub proof fn lemma_sorted_transitive(a: Seq<Seq<char>>)
    requires
        strictly_sorted(a),
    ensures
        forall|i: int, j: int| 0 <= i < j < a.len() ==> lex_lt(#[trigger] a[i], #[trigger] a[j]),
    decreases a.len(),
{
    if a.len() > 1 {
        let a2 = a.drop_last();
        assert(strictly_sorted(a2));
        lemma_sorted_transitive(a2);
        assert forall|i: int, j: int| 0 <= i < j < a.len() implies lex_lt(
            #[trigger] a[i],
            #[trigger] a[j],
        ) by {
            if j < a.len() - 1 {
                assert(a2[i] == a[i] && a2[j] == a[j]);
            } else if i < j - 1 {
                assert(a2[i] == a[i] && a2[j - 1] == a[j - 1]);
                assert(lex_lt(a[i], a[j - 1]));
                crate::text::lemma_lex_transitive(a[i], a[j - 1], a[j]);
            }
        }
    }
}

} // verus!
