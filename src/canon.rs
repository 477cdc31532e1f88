//! Reduction of a work's or a series's raw fandom tags to one filing label.

use vstd::prelude::*;

use crate::config::Config;
use crate::names::{contains_name, insert_name, keep, lemma_keep, strs};

verus! {

/// The rename table as pairs of character sequences.
pub open spec fn rename_table(m: Seq<(String, String)>) -> Seq<(Seq<char>, Seq<char>)> {
    m.map_values(|e: (String, String)| (e.0@, e.1@))
}

/// The suppression table as pairs of a name and the names it suppresses.
pub open spec fn filter_table(f: Seq<(String, Vec<String>)>) -> Seq<(Seq<char>, Seq<Seq<char>>)> {
    f.map_values(|e: (String, Vec<String>)| (e.0@, strs(e.1@)))
}

/// The value of the first entry of `t` whose key is `k`.
pub open spec fn lookup<V>(t: Seq<(Seq<char>, V)>, k: Seq<char>) -> Option<V>
    decreases t.len(),
{
    if t.len() == 0 {
        None
    } else if t[0].0 == k {
        Some(t[0].1)
    } else {
        lookup(t.drop_first(), k)
    }
}

/// The canonical name of raw tag `t`: its rename, or `t` itself when the
/// table does not rename it.
pub open spec fn canonical_name(m: Seq<(Seq<char>, Seq<char>)>, t: Seq<char>) -> Seq<char> {
    match lookup(m, t) {
        Some(c) => c,
        None => t,
    }
}

/// The canonical fandoms of a list of raw tags, before suppression: the
/// canonical names of its distinct tags.
pub open spec fn mapped_fandoms(raw: Seq<Seq<char>>, m: Seq<(Seq<char>, Seq<char>)>) -> Set<
    Seq<char>,
> {
    raw.to_set().map(|t: Seq<char>| canonical_name(m, t))
}

/// The table lists `s` among the names that `c` suppresses.
pub open spec fn suppresses(f: Seq<(Seq<char>, Seq<Seq<char>>)>, c: Seq<char>, s: Seq<char>) -> bool {
    match lookup(f, c) {
        Some(l) => l.contains(s),
        None => false,
    }
}

/// Some member of `mapped` suppresses `s`.
pub open spec fn is_suppressed(
    mapped: Set<Seq<char>>,
    f: Seq<(Seq<char>, Seq<Seq<char>>)>,
    s: Seq<char>,
) -> bool {
    exists|c: Seq<char>| mapped.contains(c) && suppresses(f, c, s)
}

/// The canonical fandoms that no canonical fandom of the same tags suppresses.
pub open spec fn kept_fandoms(
    raw: Seq<Seq<char>>,
    m: Seq<(Seq<char>, Seq<char>)>,
    f: Seq<(Seq<char>, Seq<Seq<char>>)>,
) -> Set<Seq<char>> {
    let mapped = mapped_fandoms(raw, m);
    mapped.filter(|s: Seq<char>| !is_suppressed(mapped, f, s))
}

/// The label given to tags that span several fandoms.
pub open spec fn multiple_label() -> Seq<char> {
    seq!['M', 'u', 'l', 't', 'i', 'p', 'l', 'e']
}

/// The label given to an empty list of tags.
pub open spec fn unknown_label() -> Seq<char> {
    seq!['U', 'n', 'k', 'n', 'o', 'w', 'n']
}

/// The label of a set of kept fandoms: its one member, `multiple_label` for
/// several, `unknown_label` for none.
pub open spec fn label_of(kept: Set<Seq<char>>) -> Seq<char> {
    if kept.len() > 1 {
        multiple_label()
    } else if kept.len() == 1 {
        kept.choose()
    } else {
        unknown_label()
    }
}

/// The filing label of a list of raw fandom tags under the two tables.
pub open spec fn canonical_label(
    raw: Seq<Seq<char>>,
    m: Seq<(Seq<char>, Seq<char>)>,
    f: Seq<(Seq<char>, Seq<Seq<char>>)>,
) -> Seq<char> {
    label_of(kept_fandoms(raw, m, f))
}

fn find_rename<'a>(m: &'a Vec<(String, String)>, k: &String) -> (r: Option<&'a String>)
    ensures
        match r {
            Some(v) => lookup(rename_table(m@), k@) == Some(v@),
            None => lookup(rename_table(m@), k@) is None,
        },
{
    let ghost t = rename_table(m@);
    let mut i: usize = 0;
    assert(t.subrange(0, m.len() as int) =~= t);
    while i < m.len()
        invariant
            t == rename_table(m@),
            i <= m.len(),
            lookup(t, k@) == lookup(t.subrange(i as int, m.len() as int), k@),
        decreases m.len() - i,
    {
        assert(t.subrange(i as int, m.len() as int).drop_first() =~= t.subrange(
            i + 1,
            m.len() as int,
        ));
        if m[i].0 == *k {
            return Some(&m[i].1);
        }
        i = i + 1;
    }
    None
}

fn find_filter<'a>(f: &'a Vec<(String, Vec<String>)>, k: &String) -> (r: Option<&'a Vec<String>>)
    ensures
        match r {
            Some(v) => lookup(filter_table(f@), k@) == Some(strs(v@)),
            None => lookup(filter_table(f@), k@) is None,
        },
{
    let ghost t = filter_table(f@);
    let mut i: usize = 0;
    assert(t.subrange(0, f.len() as int) =~= t);
    while i < f.len()
        invariant
            t == filter_table(f@),
            i <= f.len(),
            lookup(t, k@) == lookup(t.subrange(i as int, f.len() as int), k@),
        decreases f.len() - i,
    {
        assert(t.subrange(i as int, f.len() as int).drop_first() =~= t.subrange(
            i + 1,
            f.len() as int,
        ));
        if f[i].0 == *k {
            return Some(&f[i].1);
        }
        i = i + 1;
    }
    None
}


/// Whether some name of `mapped` suppresses `s`.
fn suppressed_in(mapped: &Vec<String>, f: &Vec<(String, Vec<String>)>, s: &String) -> (r: bool)
    ensures
        r == is_suppressed(strs(mapped@).to_set(), filter_table(f@), s@),
{
    let ghost set = strs(mapped@).to_set();
    let mut i: usize = 0;
    while i < mapped.len()
        invariant
            set == strs(mapped@).to_set(),
            i <= mapped.len(),
            forall|j: int| 0 <= j < i ==> !suppresses(filter_table(f@), #[trigger] strs(mapped@)[j], s@),
        decreases mapped.len() - i,
    {
        match find_filter(f, &mapped[i]) {
            Some(l) => {
                if contains_name(l, s) {
                    assert(strs(mapped@)[i as int] == mapped@[i as int]@);
                    assert(set.contains(strs(mapped@)[i as int]));
                    assert(suppresses(filter_table(f@), strs(mapped@)[i as int], s@));
                    return true;
                }
            },
            None => {},
        }
        assert(strs(mapped@)[i as int] == mapped@[i as int]@);
        i = i + 1;
    }
    assert forall|c: Seq<char>| set.contains(c) implies !suppresses(filter_table(f@), c, s@) by {
        let j = choose|j: int| 0 <= j < strs(mapped@).len() && strs(mapped@)[j] == c;
        assert(!suppresses(filter_table(f@), strs(mapped@)[j], s@));
    }
    false
}

/// A set of one member chooses that member.
proof fn lemma_choose_single(s: Set<Seq<char>>, x: Seq<char>)
    requires
        s.finite(),
        s.len() == 1,
        s.contains(x),
    ensures
        s.choose() == x,
{
    let y = s.choose();
    assert(s.contains(y));
    if y != x {
        assert(s.remove(x).contains(y));
        assert(s.remove(x).len() == 0);
        assert(s.remove(x) =~= Set::empty()) by {
            vstd::set_lib::lemma_set_empty_equivalency_len(s.remove(x));
        }
    }
}

proof fn lemma_map_insert(s: Set<Seq<char>>, x: Seq<char>, f: spec_fn(Seq<char>) -> Seq<char>)
    ensures
        s.insert(x).map(f) == s.map(f).insert(f(x)),
{
    assert forall|y: Seq<char>| s.insert(x).map(f).contains(y) <==> s.map(f).insert(f(x)).contains(
        y,
    ) by {
        if s.insert(x).map(f).contains(y) {
            let z = choose|z: Seq<char>| s.insert(x).contains(z) && f(z) == y;
            if z != x {
                assert(s.contains(z));
            }
        }
        if s.map(f).contains(y) {
            let z = choose|z: Seq<char>| s.contains(z) && f(z) == y;
            assert(s.insert(x).contains(z));
        }
        if y == f(x) {
            assert(s.insert(x).contains(x));
        }
    }
    assert(s.insert(x).map(f) =~= s.map(f).insert(f(x)));
}

/// Reduces raw fandom tags to one filing label.
///
/// Each distinct tag is replaced by its canonical name through
/// `config.fandom_map`; a canonical name that another canonical name of the
/// same tags suppresses through `config.fandom_filter` is dropped. The label
/// depends on the set of tags alone, not on their order or repeats. One remaining name
/// is the label; several give "Multiple", none gives "Unknown".
pub fn filter_fandoms(fandoms: &Vec<String>, config: &Config) -> (r: String)
    ensures
        r@ == canonical_label(
            strs(fandoms@),
            rename_table(config.fandom_map@),
            filter_table(config.fandom_filter@),
        ),
{
    let ghost raw = strs(fandoms@);
    let ghost m = rename_table(config.fandom_map@);
    let ghost f = filter_table(config.fandom_filter@);
    let ghost cf = |t: Seq<char>| canonical_name(m, t);
    let mut mapped: Vec<String> = Vec::new();
    let mut i: usize = 0;
    assert(raw.subrange(0, 0).to_set() =~= Set::<Seq<char>>::empty());
    assert(strs(mapped@).to_set() =~= raw.subrange(0, 0).to_set().map(cf));
    while i < fandoms.len()
        invariant
            raw == strs(fandoms@),
            m == rename_table(config.fandom_map@),
            cf == (|t: Seq<char>| canonical_name(m, t)),
            i <= fandoms.len(),
            strs(mapped@).no_duplicates(),
            strs(mapped@).to_set() == raw.subrange(0, i as int).to_set().map(cf),
        decreases fandoms.len() - i,
    {
        assert(raw[i as int] == fandoms@[i as int]@);
        let name = match find_rename(&config.fandom_map, &fandoms[i]) {
            Some(c) => c,
            None => &fandoms[i],
        };
        assert(name@ == cf(raw[i as int]));
        insert_name(&mut mapped, name);
        proof {
            let pre = raw.subrange(0, i as int);
            assert(raw.subrange(0, i + 1) =~= pre.push(raw[i as int]));
            pre.lemma_push_to_set_commute(raw[i as int]);
            lemma_map_insert(pre.to_set(), raw[i as int], cf);
        }
        i = i + 1;
    }
    assert(raw.subrange(0, fandoms.len() as int) =~= raw);
    let ghost mset = strs(mapped@).to_set();
    assert(mset == mapped_fandoms(raw, m));
    let ghost pr = |x: Seq<char>| !is_suppressed(mset, f, x);
    let mut kept: Vec<String> = Vec::new();
    let mut k: usize = 0;
    while k < mapped.len()
        invariant
            f == filter_table(config.fandom_filter@),
            mset == strs(mapped@).to_set(),
            pr == (|x: Seq<char>| !is_suppressed(mset, f, x)),
            k <= mapped.len(),
            strs(kept@) == keep(strs(mapped@).subrange(0, k as int), pr),
        decreases mapped.len() - k,
    {
        let ghost before = strs(kept@);
        assert(strs(mapped@).subrange(0, k + 1).drop_last() =~= strs(mapped@).subrange(0, k as int));
        assert(strs(mapped@).subrange(0, k + 1).last() == mapped@[k as int]@);
        if !suppressed_in(&mapped, &config.fandom_filter, &mapped[k]) {
            kept.push(mapped[k].clone());
            assert(strs(kept@) =~= before.push(mapped@[k as int]@));
        }
        k = k + 1;
    }
    assert(strs(mapped@).subrange(0, mapped.len() as int) =~= strs(mapped@));
    let ghost kset = kept_fandoms(raw, m, f);
    proof {
        lemma_keep(strs(mapped@), pr);
        assert(strs(kept@).to_set() =~= kset);
        strs(kept@).unique_seq_to_set();
    }
    if kept.len() > 1 {
        proof {
            reveal_strlit("Multiple");
        }
        let r = String::from_str("Multiple");
        assert(r@ =~= multiple_label());
        r
    } else if kept.len() == 1 {
        proof {
            assert(strs(kept@)[0] == kept@[0]@);
            assert(strs(kept@).to_set().contains(strs(kept@)[0]));
            vstd::seq_lib::seq_to_set_is_finite(strs(kept@));
            lemma_choose_single(kset, kept@[0]@);
        }
        kept[0].clone()
    } else {
        proof {
            reveal_strlit("Unknown");
        }
        let r = String::from_str("Unknown");
        assert(r@ =~= unknown_label());
        r
    }
}


/// When renaming leaves exactly one canonical fandom, and that fandom does not
/// suppress itself, the label is that fandom.
pub proof fn lemma_single_fandom_label(
    raw: Seq<Seq<char>>,
    m: Seq<(Seq<char>, Seq<char>)>,
    f: Seq<(Seq<char>, Seq<Seq<char>>)>,
    x: Seq<char>,
)
    requires
        mapped_fandoms(raw, m) == set![x],
        !suppresses(f, x, x),
    ensures
        canonical_label(raw, m, f) == x,
{
    let mp = mapped_fandoms(raw, m);
    let kept = kept_fandoms(raw, m, f);
    assert(!is_suppressed(mp, f, x));
    assert(kept =~= set![x]);
    assert(set![x].len() == 1);
    lemma_choose_single(kept, x);
}

/// When renaming leaves two or more canonical fandoms and none of them
/// suppresses any of them, the label is "Multiple".
pub proof fn lemma_several_fandoms_label(
    raw: Seq<Seq<char>>,
    m: Seq<(Seq<char>, Seq<char>)>,
    f: Seq<(Seq<char>, Seq<Seq<char>>)>,
)
    requires
        mapped_fandoms(raw, m).len() >= 2,
        forall|c: Seq<char>, s: Seq<char>|
            mapped_fandoms(raw, m).contains(c) && mapped_fandoms(raw, m).contains(s)
                ==> !suppresses(f, c, s),
    ensures
        canonical_label(raw, m, f) == multiple_label(),
{
    let mp = mapped_fandoms(raw, m);
    assert(kept_fandoms(raw, m, f) =~= mp);
}

/// Renaming keeps the raw tags that the rename table does not name: each of
/// them is a canonical fandom, and when the table names none of the tags the
/// canonical fandoms are exactly the distinct raw tags.
pub proof fn lemma_unmapped_tags_pass_through(raw: Seq<Seq<char>>, m: Seq<(Seq<char>, Seq<char>)>)
    ensures
        forall|i: int|
            0 <= i < raw.len() && lookup(m, raw[i]) is None ==> #[trigger] mapped_fandoms(
                raw,
                m,
            ).contains(raw[i]),
        (forall|i: int| 0 <= i < raw.len() ==> lookup(m, #[trigger] raw[i]) is None)
            ==> mapped_fandoms(raw, m) == raw.to_set(),
{
    let cf = |t: Seq<char>| canonical_name(m, t);
    assert forall|i: int| 0 <= i < raw.len() && lookup(m, raw[i]) is None implies #[trigger] mapped_fandoms(
        raw,
        m,
    ).contains(raw[i]) by {
        assert(raw.to_set().contains(raw[i]));
        assert(cf(raw[i]) == raw[i]);
    }
    if forall|i: int| 0 <= i < raw.len() ==> lookup(m, #[trigger] raw[i]) is None {
        assert forall|y: Seq<char>| mapped_fandoms(raw, m).contains(y) <==> raw.to_set().contains(
            y,
        ) by {
            if mapped_fandoms(raw, m).contains(y) {
                let z = choose|z: Seq<char>| raw.to_set().contains(z) && cf(z) == y;
                let i = choose|i: int| 0 <= i < raw.len() && raw[i] == z;
                assert(lookup(m, raw[i]) is None);
            }
            if raw.to_set().contains(y) {
                let i = choose|i: int| 0 <= i < raw.len() && raw[i] == y;
                assert(lookup(m, raw[i]) is None);
                assert(cf(y) == y);
            }
        }
        assert(mapped_fandoms(raw, m) =~= raw.to_set());
    }
}

/// The label depends on the set of raw tags alone: two tag lists with the
/// same distinct tags, in any order and with any repeats, get the same label.
pub proof fn lemma_label_depends_on_tag_set(
    a: Seq<Seq<char>>,
    b: Seq<Seq<char>>,
    m: Seq<(Seq<char>, Seq<char>)>,
    f: Seq<(Seq<char>, Seq<Seq<char>>)>,
)
    requires
        a.to_set() == b.to_set(),
    ensures
        canonical_label(a, m, f) == canonical_label(b, m, f),
{
}

} // verus!
