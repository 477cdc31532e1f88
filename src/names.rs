//! Lists of distinct names, kept in first-seen order.

use vstd::prelude::*;


verus! {

/// The character sequences of a sequence of strings.
pub open spec fn strs(v: Seq<String>) -> Seq<Seq<char>> {
    v.map_values(|s: String| s@)
}

/// Whether `v` holds `t`.
pub fn contains_name(v: &Vec<String>, t: &String) -> (r: bool)
    ensures
        r == strs(v@).contains(t@),
{
    let mut i: usize = 0;
    while i < v.len()
        invariant
            i <= v.len(),
            forall|j: int| 0 <= j < i ==> strs(v@)[j] != t@,
        decreases v.len() - i,
    {
        if v[i] == *t {
            assert(strs(v@)[i as int] == t@);
            return true;
        }
        i = i + 1;
    }
    false
}

/// Appends `t` to `v` unless `v` holds it already.
pub fn insert_name(v: &mut Vec<String>, t: &String)
    ensures
        strs(old(v)@).contains(t@) ==> strs(final(v)@) == strs(old(v)@),
        !strs(old(v)@).contains(t@) ==> strs(final(v)@) == strs(old(v)@).push(t@),
        strs(old(v)@).no_duplicates() ==> strs(final(v)@).no_duplicates(),
        strs(final(v)@).to_set() == strs(old(v)@).to_set().insert(t@),
{
    if !contains_name(v, t) {
        let ghost before = strs(v@);
        v.push(t.clone());
        assert(strs(v@) =~= before.push(t@));
        assert(strs(v@).to_set() =~= before.to_set().insert(t@)) by {
            assert forall|x| strs(v@).contains(x) <==> before.contains(x) || x == t@ by {
                if strs(v@).contains(x) {
                    let j = choose|j: int| 0 <= j < strs(v@).len() && strs(v@)[j] == x;
                    if j < before.len() {
                        assert(before[j] == x);
                    }
                }
                if before.contains(x) {
                    let j = choose|j: int| 0 <= j < before.len() && before[j] == x;
                    assert(strs(v@)[j] == x);
                }
                if x == t@ {
                    assert(strs(v@)[before.len() as int] == x);
                }
            }
        }
    } else {
        assert(strs(v@).to_set() =~= strs(v@).to_set().insert(t@));
    }
}

/// The items of `s` that satisfy `p`, in order.
pub open spec fn keep(s: Seq<Seq<char>>, p: spec_fn(Seq<char>) -> bool) -> Seq<Seq<char>>
    decreases s.len(),
{
    if s.len() == 0 {
        s
    } else if p(s.last()) {
        keep(s.drop_last(), p).push(s.last())
    } else {
        keep(s.drop_last(), p)
    }
}

/// What `keep` holds is what satisfies the predicate, and its items stay
/// distinct when those of the sequence are.
pub proof fn lemma_keep(s: Seq<Seq<char>>, pr: spec_fn(Seq<char>) -> bool)
    ensures
        forall|x: Seq<char>| keep(s, pr).contains(x) <==> (s.contains(x) && pr(x)),
        s.no_duplicates() ==> keep(s, pr).no_duplicates(),
    decreases s.len(),
{
    if s.len() > 0 {
        let p = s.drop_last();
        let l = s.last();
        lemma_keep(p, pr);
        assert(s =~= p.push(l));
        assert forall|x: Seq<char>| s.contains(x) <==> (p.contains(x) || x == l) by {
            if s.contains(x) {
                let j = choose|j: int| 0 <= j < s.len() && s[j] == x;
                if j < p.len() {
                    assert(p[j] == x);
                }
            }
            if p.contains(x) {
                let j = choose|j: int| 0 <= j < p.len() && p[j] == x;
                assert(s[j] == x);
            }
            if x == l {
                assert(s[s.len() - 1] == x);
            }
        }
        let w = keep(p, pr);
        if pr(l) {
            assert forall|x: Seq<char>| w.push(l).contains(x) <==> (w.contains(x) || x == l) by {
                if w.push(l).contains(x) {
                    let j = choose|j: int| 0 <= j < w.push(l).len() && w.push(l)[j] == x;
                    if j < w.len() {
                        assert(w[j] == x);
                    }
                }
                if w.contains(x) {
                    let j = choose|j: int| 0 <= j < w.len() && w[j] == x;
                    assert(w.push(l)[j] == x);
                }
                if x == l {
                    assert(w.push(l)[w.len() as int] == x);
                }
            }
            if s.no_duplicates() {
                assert(!p.contains(l)) by {
                    if p.contains(l) {
                        let j = choose|j: int| 0 <= j < p.len() && p[j] == l;
                        assert(s[j] == s[s.len() - 1]);
                    }
                }
                assert(p.no_duplicates()) by {
                    assert forall|a: int, b: int|
                        0 <= a < p.len() && 0 <= b < p.len() && a != b implies p[a] != p[b] by {
                        assert(p[a] == s[a] && p[b] == s[b]);
                    }
                }
                assert(!w.contains(l));
                assert forall|a: int, b: int|
                    0 <= a < w.push(l).len() && 0 <= b < w.push(l).len() && a != b implies w.push(
                    l,
                )[a] != w.push(l)[b] by {
                    if a == w.len() {
                        assert(w[b] == w.push(l)[b]);
                    } else if b == w.len() {
                        assert(w[a] == w.push(l)[a]);
                    }
                }
            }
        } else {
            if s.no_duplicates() {
                assert(p.no_duplicates()) by {
                    assert forall|a: int, b: int|
                        0 <= a < p.len() && 0 <= b < p.len() && a != b implies p[a] != p[b] by {
                        assert(p[a] == s[a] && p[b] == s[b]);
                    }
                }
            }
        }
    }
}

/// A copy of `v`.
pub fn clone_names(v: &Vec<String>) -> (r: Vec<String>)
    ensures
        strs(r@) == strs(v@),
{
    let mut r: Vec<String> = Vec::new();
    let mut i: usize = 0;
    while i < v.len()
        invariant
            i <= v.len(),
            strs(r@) == strs(v@).subrange(0, i as int),
        decreases v.len() - i,
    {
        let ghost before = strs(r@);
        let c = v[i].clone();
        assert(c@ == v@[i as int]@);
        r.push(c);
        assert(strs(r@) =~= before.push(v@[i as int]@));
        assert(strs(v@).subrange(0, i + 1) =~= strs(v@).subrange(0, i as int).push(v@[i as int]@));
        i = i + 1;
    }
    assert(strs(v@).subrange(0, i as int) =~= strs(v@));
    r
}

} // verus!
