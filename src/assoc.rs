//! Association lists keyed by strings: a sequence of entries in which a
//! later setting of a key replaces the earlier entry in place.

use vstd::prelude::*;

verus! {

/// `s` with the entry for `k` set to `v`: the first entry with key `k` is
/// replaced in place, or the new entry is added at the end.
pub open spec fn assoc_insert<V>(s: Seq<(Seq<char>, V)>, k: Seq<char>, v: V) -> Seq<(Seq<char>, V)>
    decreases s.len(),
{
    if s.len() == 0 {
        seq![(k, v)]
    } else if s[0].0 == k {
        seq![(k, v)] + s.drop_first()
    } else {
        seq![s[0]] + assoc_insert(s.drop_first(), k, v)
    }
}

/// The entries of `s` with keys and values seen as plain values.
pub open spec fn assoc_view<V: DeepView>(s: Seq<(String, V)>) -> Seq<(Seq<char>, V::V)> {
    s.map_values(|p: (String, V)| (p.0@, p.1.deep_view()))
}

proof fn lemma_assoc_insert_at<V>(s: Seq<(Seq<char>, V)>, k: Seq<char>, v: V, j: int)
    requires
        0 <= j <= s.len(),
        forall|i: int| 0 <= i < j ==> #[trigger] s[i].0 != k,
        j < s.len() ==> s[j].0 == k,
    ensures
        assoc_insert(s, k, v) == (if j < s.len() {
            s.update(j, (k, v))
        } else {
            s.push((k, v))
        }),
    decreases j,
{
    if j == 0 {
        if s.len() == 0 {
            assert(seq![(k, v)] =~= s.push((k, v)));
        } else {
            assert(seq![(k, v)] + s.drop_first() =~= s.update(0, (k, v)));
        }
    } else {
        assert(s[0].0 != k);
        let t = s.drop_first();
        assert forall|i: int| 0 <= i < j - 1 implies #[trigger] t[i].0 != k by {
            assert(t[i] == s[i + 1]);
        }
        lemma_assoc_insert_at(t, k, v, j - 1);
        if j < s.len() {
            assert(seq![s[0]] + t.update(j - 1, (k, v)) =~= s.update(j, (k, v)));
        } else {
            assert(seq![s[0]] + t.push((k, v)) =~= s.push((k, v)));
        }
    }
}

/// Set the entry for `k` to `val`, as `assoc_insert` says.
pub(crate) fn assoc_put<V: DeepView>(m: &mut Vec<(String, V)>, k: String, val: V)
    ensures
        assoc_view(final(m)@) == assoc_insert(assoc_view(old(m)@), k@, val.deep_view()),
{
    let ghost s = assoc_view(m@);
    let mut j: usize = 0;
    while j < m.len()
        invariant
            j <= m@.len(),
            m@ == old(m)@,
            s == assoc_view(m@),
            forall|i: int| 0 <= i < j ==> #[trigger] s[i].0 != k@,
        decreases m@.len() - j,
    {
        if m[j].0 == k {
            assert(s[j as int].0 == k@);
            proof {
                lemma_assoc_insert_at(s, k@, val.deep_view(), j as int);
            }
            let ghost kv = k@;
            let ghost vv = val.deep_view();
            m.set(j, (k, val));
            assert(assoc_view(m@) =~= s.update(j as int, (kv, vv)));
            return;
        }
        j = j + 1;
    }
    proof {
        lemma_assoc_insert_at(s, k@, val.deep_view(), j as int);
    }
    let ghost kv = k@;
    let ghost vv = val.deep_view();
    m.push((k, val));
    assert(assoc_view(m@) =~= s.push((kv, vv)));
}

/// The value of the first entry of `s` with key `k`.
pub open spec fn lookup<V>(s: Seq<(Seq<char>, V)>, k: Seq<char>) -> Option<V>
    decreases s.len(),
{
    if s.len() == 0 {
        None
    } else if s[0].0 == k {
        Some(s[0].1)
    } else {
        lookup(s.drop_first(), k)
    }
}

proof fn lemma_lookup_at<V>(s: Seq<(Seq<char>, V)>, k: Seq<char>, j: int)
    requires
        0 <= j <= s.len(),
        forall|i: int| 0 <= i < j ==> #[trigger] s[i].0 != k,
    ensures
        lookup(s, k) == (if j < s.len() && s[j].0 == k {
            Some(s[j].1)
        } else {
            lookup(s.subrange(j, s.len() as int), k)
        }),
    decreases j,
{
    if j == 0 {
        assert(s.subrange(0, s.len() as int) =~= s);
    } else {
        let t = s.drop_first();
        assert forall|i: int| 0 <= i < j - 1 implies #[trigger] t[i].0 != k by {
            assert(t[i] == s[i + 1]);
        }
        lemma_lookup_at(t, k, j - 1);
        assert(t.subrange(j - 1, t.len() as int) =~= s.subrange(j, s.len() as int));
    }
}

/// The position of the first entry of `m` with key `k`, if there is one.
pub(crate) fn find_key<V: DeepView>(m: &Vec<(String, V)>, k: &str) -> (r: Option<usize>)
    ensures
        match r {
            Some(j) => j < m@.len() && lookup(assoc_view(m@), k@) == Some(m@[j as int].1.deep_view())
                && m@[j as int].0@ == k@,
            None => lookup(assoc_view(m@), k@) is None,
        },
{
    let ghost s = assoc_view(m@);
    let key = k.to_owned();
    let mut j: usize = 0;
    while j < m.len()
        invariant
            j <= m@.len(),
            s == assoc_view(m@),
            key@ == k@,
            forall|i: int| 0 <= i < j ==> #[trigger] s[i].0 != k@,
        decreases m@.len() - j,
    {
        if m[j].0 == key {
            proof {
                lemma_lookup_at(s, k@, j as int);
            }
            return Some(j);
        }
        j = j + 1;
    }
    proof {
        lemma_lookup_at(s, k@, j as int);
        assert(s.subrange(j as int, s.len() as int) =~= Seq::<(Seq<char>, V::V)>::empty());
    }
    None
}

} // verus!
