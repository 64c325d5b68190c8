//! Ordered association lists keyed by strings.
//!
//! The derived indexes of this crate are JSON objects: ordered key/value
//! lists with insert-or-replace semantics. This module gives that one
//! shape, with lookup and insertion specified over the first occurrence of
//! a key.
use vstd::prelude::*;

use crate::strutil::str_eq;

verus! {

/// The value under the first occurrence of `key`.
pub open spec fn spec_assoc_get<V>(m: Seq<(String, V)>, key: Seq<char>) -> Option<V>
    decreases m.len(),
{
    if m.len() == 0 {
        None
    } else if m[0].0@ == key {
        Some(m[0].1)
    } else {
        spec_assoc_get(m.subrange(1, m.len() as int), key)
    }
}

pub open spec fn spec_assoc_has<V>(m: Seq<(String, V)>, key: Seq<char>) -> bool {
    spec_assoc_get(m, key) is Some
}

/// Insert-or-replace: the first pair carrying `key` is replaced in place;
/// with no such pair the new pair goes to the end.
pub open spec fn spec_assoc_insert<V>(m: Seq<(String, V)>, key: String, v: V) -> Seq<(String, V)>
    decreases m.len(),
{
    if m.len() == 0 {
        seq![(key, v)]
    } else if m[0].0@ == key@ {
        seq![(key, v)] + m.subrange(1, m.len() as int)
    } else {
        seq![m[0]] + spec_assoc_insert(m.subrange(1, m.len() as int), key, v)
    }
}

/// Inserting at the first match is an in-place update.
proof fn lemma_assoc_insert_found<V>(m: Seq<(String, V)>, key: String, v: V, i: int)
    requires
        0 <= i < m.len(),
        m[i].0@ == key@,
        forall|k: int| 0 <= k < i ==> (#[trigger] m[k]).0@ != key@,
    ensures
        spec_assoc_insert(m, key, v) == m.update(i, (key, v)),
    decreases i,
{
    if i == 0 {
        assert(seq![(key, v)] + m.subrange(1, m.len() as int) =~= m.update(0, (key, v)));
    } else {
        let t = m.subrange(1, m.len() as int);
        lemma_assoc_insert_found(t, key, v, i - 1);
        assert(seq![m[0]] + t.update(i - 1, (key, v)) =~= m.update(i, (key, v)));
    }
}

/// Inserting an absent key appends.
proof fn lemma_assoc_insert_absent<V>(m: Seq<(String, V)>, key: String, v: V)
    requires
        forall|k: int| 0 <= k < m.len() ==> (#[trigger] m[k]).0@ != key@,
    ensures
        spec_assoc_insert(m, key, v) == m.push((key, v)),
    decreases m.len(),
{
    if m.len() == 0 {
        assert(spec_assoc_insert(m, key, v) =~= m.push((key, v)));
    } else {
        let t = m.subrange(1, m.len() as int);
        lemma_assoc_insert_absent(t, key, v);
        assert(seq![m[0]] + t.push((key, v)) =~= m.push((key, v)));
    }
}

/// Lookup after insertion of the same key finds the inserted value.
pub proof fn lemma_assoc_insert_get_same<V>(m: Seq<(String, V)>, key: String, v: V)
    ensures
        spec_assoc_get(spec_assoc_insert(m, key, v), key@) == Some(v),
    decreases m.len(),
{
    if m.len() == 0 {
    } else if m[0].0@ == key@ {
        let r = spec_assoc_insert(m, key, v);
        assert(r[0] == (key, v));
    } else {
        let t = m.subrange(1, m.len() as int);
        lemma_assoc_insert_get_same(t, key, v);
        let r = spec_assoc_insert(m, key, v);
        assert(r[0] == m[0]);
        assert(r.subrange(1, r.len() as int) =~= spec_assoc_insert(t, key, v));
    }
}

/// Lookup of a different key is untouched by insertion.
pub proof fn lemma_assoc_insert_get_other<V>(m: Seq<(String, V)>, key: String, v: V, k: Seq<char>)
    requires
        k != key@,
    ensures
        spec_assoc_get(spec_assoc_insert(m, key, v), k) == spec_assoc_get(m, k),
    decreases m.len(),
{
    if m.len() == 0 {
        let r = spec_assoc_insert(m, key, v);
        assert(r == seq![(key, v)]);
        assert(r[0] == (key, v));
        assert(r.subrange(1, 1) =~= Seq::<(String, V)>::empty());
        assert(spec_assoc_get(r, k) == spec_assoc_get(r.subrange(1, 1), k));
        assert(spec_assoc_get(r.subrange(1, 1), k) is None);
        assert(spec_assoc_get(m, k) is None);
    } else if m[0].0@ == key@ {
        let r = spec_assoc_insert(m, key, v);
        assert(r[0] == (key, v));
        assert(r.subrange(1, r.len() as int) =~= m.subrange(1, m.len() as int));
        assert(spec_assoc_get(r, k) == spec_assoc_get(r.subrange(1, r.len() as int), k));
        assert(spec_assoc_get(m, k) == spec_assoc_get(m.subrange(1, m.len() as int), k));
    } else {
        let t = m.subrange(1, m.len() as int);
        lemma_assoc_insert_get_other(t, key, v, k);
        let r = spec_assoc_insert(m, key, v);
        assert(r[0] == m[0]);
        assert(r.subrange(1, r.len() as int) =~= spec_assoc_insert(t, key, v));
        if m[0].0@ == k {
            assert(spec_assoc_get(r, k) == Some(r[0].1));
            assert(spec_assoc_get(m, k) == Some(m[0].1));
        } else {
            assert(spec_assoc_get(r, k) == spec_assoc_get(spec_assoc_insert(t, key, v), k));
            assert(spec_assoc_get(m, k) == spec_assoc_get(t, k));
        }
    }
}

/// A key is found exactly when some pair carries it.
pub proof fn lemma_assoc_get_exists<V>(m: Seq<(String, V)>, k: Seq<char>)
    ensures
        spec_assoc_get(m, k) is Some <==> exists|i: int| 0 <= i < m.len() && (#[trigger] m[i]).0@
            == k,
    decreases m.len(),
{
    if m.len() == 0 {
    } else if m[0].0@ == k {
    } else {
        let t = m.subrange(1, m.len() as int);
        lemma_assoc_get_exists(t, k);
        if spec_assoc_get(m, k) is Some {
            let i = choose|i: int| 0 <= i < t.len() && (#[trigger] t[i]).0@ == k;
            assert(m[i + 1].0@ == k);
        }
        if exists|i: int| 0 <= i < m.len() && (#[trigger] m[i]).0@ == k {
            let i = choose|i: int| 0 <= i < m.len() && (#[trigger] m[i]).0@ == k;
            assert(i >= 1);
            assert(t[i - 1].0@ == k);
        }
    }
}

/// With no earlier occurrence of its key, the pair at `i` is what lookup
/// finds.
pub proof fn lemma_assoc_get_at<V>(m: Seq<(String, V)>, i: int)
    requires
        0 <= i < m.len(),
        forall|k: int| 0 <= k < i ==> (#[trigger] m[k]).0@ != m[i].0@,
    ensures
        spec_assoc_get(m, m[i].0@) == Some(m[i].1),
    decreases i,
{
    if i == 0 {
    } else {
        let t = m.subrange(1, m.len() as int);
        assert(forall|k: int| 0 <= k < i - 1 ==> (#[trigger] t[k]).0@ != t[i - 1].0@) by {
            assert(forall|k: int| 0 <= k < i - 1 ==> t[k] == m[k + 1]);
        }
        lemma_assoc_get_at(t, i - 1);
    }
}

/// Every pair of an insertion result is the inserted pair or one of the
/// original pairs.
pub proof fn lemma_assoc_insert_elems<V>(m: Seq<(String, V)>, key: String, v: V)
    ensures
        forall|k: int|
            0 <= k < spec_assoc_insert(m, key, v).len() ==> (#[trigger] spec_assoc_insert(
                m,
                key,
                v,
            )[k]) == (key, v) || m.contains(spec_assoc_insert(m, key, v)[k]),
    decreases m.len(),
{
    let r = spec_assoc_insert(m, key, v);
    if m.len() == 0 {
    } else if m[0].0@ == key@ {
        assert forall|k: int| 0 <= k < r.len() implies (#[trigger] r[k]) == (key, v) || m.contains(
            r[k],
        ) by {
            if k > 0 {
                assert(r[k] == m[k]);
            }
        }
    } else {
        let t = m.subrange(1, m.len() as int);
        lemma_assoc_insert_elems(t, key, v);
        let rt = spec_assoc_insert(t, key, v);
        assert forall|k: int| 0 <= k < r.len() implies (#[trigger] r[k]) == (key, v) || m.contains(
            r[k],
        ) by {
            if k == 0 {
                assert(r[0] == m[0]);
            } else {
                assert(r[k] == rt[k - 1]);
                if rt[k - 1] == (key, v) {
                } else {
                    let w = choose|w: int| 0 <= w < t.len() && t[w] == rt[k - 1];
                    assert(m[w + 1] == rt[k - 1]);
                }
            }
        }
    }
}

/// Lookup on an association list.
pub fn assoc_get<'a, V>(m: &'a Vec<(String, V)>, key: &str) -> (r: Option<&'a V>)
    ensures
        match r {
            Some(v) => spec_assoc_get(m@, key@) == Some(*v),
            None => spec_assoc_get(m@, key@) is None,
        },
{
    let n = m.len();
    let mut i: usize = 0;
    proof {
        assert(m@.subrange(0, n as int) =~= m@);
    }
    while i < n
        invariant
            n == m@.len(),
            0 <= i <= n,
            spec_assoc_get(m@, key@) == spec_assoc_get(m@.subrange(i as int, n as int), key@),
        decreases n - i,
    {
        proof {
            assert(m@.subrange(i as int, n as int).subrange(1, (n - i) as int) =~= m@.subrange(
                i as int + 1,
                n as int,
            ));
        }
        if str_eq(m[i].0.as_str(), key) {
            return Some(&m[i].1);
        }
        i += 1;
    }
    proof {
        assert(m@.subrange(n as int, n as int) =~= Seq::<(String, V)>::empty());
    }
    None
}

/// The position of the first pair carrying `key`.
pub fn assoc_index_of<V>(m: &Vec<(String, V)>, key: &str) -> (r: Option<usize>)
    ensures
        match r {
            Some(i) => i < m@.len() && m@[i as int].0@ == key@ && (forall|k: int|
                0 <= k < i ==> (#[trigger] m@[k]).0@ != key@) && spec_assoc_get(m@, key@) == Some(
                m@[i as int].1,
            ),
            None => spec_assoc_get(m@, key@) is None,
        },
{
    let n = m.len();
    let mut i: usize = 0;
    proof {
        assert(m@.subrange(0, n as int) =~= m@);
    }
    while i < n
        invariant
            n == m@.len(),
            0 <= i <= n,
            forall|k: int| 0 <= k < i ==> (#[trigger] m@[k]).0@ != key@,
            spec_assoc_get(m@, key@) == spec_assoc_get(m@.subrange(i as int, n as int), key@),
        decreases n - i,
    {
        proof {
            assert(m@.subrange(i as int, n as int).subrange(1, (n - i) as int) =~= m@.subrange(
                i as int + 1,
                n as int,
            ));
        }
        if str_eq(m[i].0.as_str(), key) {
            return Some(i);
        }
        i += 1;
    }
    proof {
        assert(m@.subrange(n as int, n as int) =~= Seq::<(String, V)>::empty());
    }
    None
}

/// Insert-or-replace on an association list.
pub fn assoc_insert<V>(m: &mut Vec<(String, V)>, key: String, v: V)
    ensures
        final(m)@ == spec_assoc_insert(old(m)@, key, v),
{
    let n = m.len();
    let mut i: usize = 0;
    while i < n
        invariant
            n == m@.len(),
            m@ == old(m)@,
            0 <= i <= n,
            forall|k: int| 0 <= k < i ==> (#[trigger] m@[k]).0@ != key@,
        decreases n - i,
    {
        if str_eq(m[i].0.as_str(), key.as_str()) {
            proof {
                lemma_assoc_insert_found(m@, key, v, i as int);
            }
            m.set(i, (key, v));
            return ;
        }
        i += 1;
    }
    proof {
        lemma_assoc_insert_absent(m@, key, v);
    }
    m.push((key, v));
}

} // verus!
