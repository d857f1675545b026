//! Byte-wise order on names, and sorted name lists.
//!
//! An all-tools upgrade processes the installed names in ascending byte-wise
//! order, independent of the order the store's listing returned them — the
//! listing models a directory read, which promises no order of its own.

use vstd::prelude::*;
use crate::bytes::{bytes_eq, copy_bytes, lemma_bytes_deep_view};

verus! {

/// Byte-wise lexicographic order: `a` at or before `b`.
pub open spec fn bytes_le(a: Seq<u8>, b: Seq<u8>) -> bool
    decreases a.len(),
{
    if a.len() == 0 {
        true
    } else if b.len() == 0 {
        false
    } else if a[0] < b[0] {
        true
    } else if a[0] > b[0] {
        false
    } else {
        bytes_le(a.drop_first(), b.drop_first())
    }
}

/// Executable byte-wise comparison.
pub fn bytes_le_exec(a: &Vec<u8>, b: &Vec<u8>) -> (r: bool)
    ensures
        r == bytes_le(a@, b@),
{
    let mut i: usize = 0;
    proof {
        assert(a@.skip(0) =~= a@);
        assert(b@.skip(0) =~= b@);
    }
    while i < a.len() && i < b.len()
        invariant
            i <= a.len(),
            i <= b.len(),
            bytes_le(a@, b@) == bytes_le(a@.skip(i as int), b@.skip(i as int)),
        decreases a.len() - i,
    {
        proof {
            assert(a@.skip(i as int)[0] == a@[i as int]);
            assert(b@.skip(i as int)[0] == b@[i as int]);
            assert(a@.skip(i as int).drop_first() =~= a@.skip(i as int + 1));
            assert(b@.skip(i as int).drop_first() =~= b@.skip(i as int + 1));
        }
        if a[i] < b[i] {
            return true;
        }
        if a[i] > b[i] {
            return false;
        }
        i += 1;
    }
    if i == a.len() {
        assert(a@.skip(i as int) =~= Seq::<u8>::empty());
        true
    } else {
        assert(b@.skip(i as int) =~= Seq::<u8>::empty());
        assert(a@.skip(i as int).len() > 0);
        false
    }
}

/// `x` inserted before the first element it is at or before.
pub open spec fn insert_sorted(x: Seq<u8>, s: Seq<Seq<u8>>) -> Seq<Seq<u8>>
    decreases s.len(),
{
    if s.len() == 0 {
        seq![x]
    } else if bytes_le(x, s[0]) {
        seq![x] + s
    } else {
        seq![s[0]] + insert_sorted(x, s.drop_first())
    }
}

/// The names of `s` in ascending byte-wise order.
pub open spec fn sort_names(s: Seq<Seq<u8>>) -> Seq<Seq<u8>>
    decreases s.len(),
{
    if s.len() == 0 {
        s
    } else {
        insert_sorted(s[0], sort_names(s.drop_first()))
    }
}

/// No name occurs twice.
pub open spec fn distinct_names(s: Seq<Seq<u8>>) -> bool {
    forall|i: int, j: int| 0 <= i < j < s.len() ==> s[i] != s[j]
}

/// What a list holds after one element is put in front.
proof fn lemma_cons_contains(x: Seq<u8>, s: Seq<Seq<u8>>, y: Seq<u8>)
    ensures
        (seq![x] + s).contains(y) <==> (y == x || s.contains(y)),
{
    let c = seq![x] + s;
    if c.contains(y) {
        let k = choose|k: int| 0 <= k < c.len() && c[k] == y;
        if k != 0 {
            assert(s[k - 1] == y);
        }
    }
    if y == x {
        assert(c[0] == y);
    }
    if s.contains(y) {
        let k = choose|k: int| 0 <= k < s.len() && s[k] == y;
        assert(c[k + 1] == y);
    }
}

/// Putting a fresh element in front keeps the names distinct.
proof fn lemma_cons_distinct(x: Seq<u8>, s: Seq<Seq<u8>>)
    requires
        distinct_names(s),
        !s.contains(x),
    ensures
        distinct_names(seq![x] + s),
{
    let c = seq![x] + s;
    assert forall|i: int, j: int| 0 <= i < j < c.len() implies c[i] != c[j] by {
        if i == 0 {
            assert(c[j] == s[j - 1]);
            if c[j] == x {
                assert(s.contains(x));
            }
        } else {
            assert(c[i] == s[i - 1]);
            assert(c[j] == s[j - 1]);
        }
    }
}

/// Insertion keeps the length, the contents, and distinctness.
proof fn lemma_insert_sorted_props(x: Seq<u8>, s: Seq<Seq<u8>>)
    ensures
        insert_sorted(x, s).len() == s.len() + 1,
        forall|y: Seq<u8>| #![trigger insert_sorted(x, s).contains(y)]
            insert_sorted(x, s).contains(y) <==> (y == x || s.contains(y)),
        distinct_names(s) && !s.contains(x) ==> distinct_names(insert_sorted(x, s)),
    decreases s.len(),
{
    if s.len() == 0 {
        assert forall|y: Seq<u8>| insert_sorted(x, s).contains(y) <==> (y == x || s.contains(y)) by {
            lemma_cons_contains(x, Seq::empty(), y);
            assert(seq![x] + Seq::<Seq<u8>>::empty() =~= seq![x]);
        }
        if !s.contains(x) {
            lemma_cons_distinct(x, Seq::empty());
            assert(seq![x] + Seq::<Seq<u8>>::empty() =~= seq![x]);
        }
    } else if bytes_le(x, s[0]) {
        assert forall|y: Seq<u8>| insert_sorted(x, s).contains(y) <==> (y == x || s.contains(y)) by {
            lemma_cons_contains(x, s, y);
        }
        if distinct_names(s) && !s.contains(x) {
            lemma_cons_distinct(x, s);
        }
    } else {
        let tail = s.drop_first();
        assert(forall|k: int| 0 <= k < tail.len() ==> tail[k] == s[k + 1]);
        lemma_insert_sorted_props(x, tail);
        let rec = insert_sorted(x, tail);
        assert forall|y: Seq<u8>| insert_sorted(x, s).contains(y) <==> (y == x || s.contains(y)) by {
            lemma_cons_contains(s[0], rec, y);
            lemma_cons_contains(s[0], tail, y);
            assert(seq![s[0]] + tail =~= s);
        }
        if distinct_names(s) && !s.contains(x) {
            assert(distinct_names(tail));
            assert(!tail.contains(x)) by {
                if tail.contains(x) {
                    let k = choose|k: int| 0 <= k < tail.len() && tail[k] == x;
                    assert(s[k + 1] == x);
                }
            }
            assert(!tail.contains(s[0])) by {
                if tail.contains(s[0]) {
                    let k = choose|k: int| 0 <= k < tail.len() && tail[k] == s[0];
                }
            }
            assert(!s.contains(x) ==> x != s[0]) by {
                if x == s[0] {
                    assert(s[0] == x);
                }
            }
            assert(!rec.contains(s[0]));
            lemma_cons_distinct(s[0], rec);
        }
    }
}

/// The order relates every name to itself.
proof fn lemma_bytes_le_refl(a: Seq<u8>)
    ensures
        bytes_le(a, a),
    decreases a.len(),
{
    if a.len() > 0 {
        lemma_bytes_le_refl(a.drop_first());
    }
}

/// Any two names are ordered one way or the other.
proof fn lemma_bytes_le_total(a: Seq<u8>, b: Seq<u8>)
    ensures
        bytes_le(a, b) || bytes_le(b, a),
    decreases a.len(),
{
    if a.len() > 0 && b.len() > 0 && a[0] == b[0] {
        lemma_bytes_le_total(a.drop_first(), b.drop_first());
    }
}

/// The order is transitive.
proof fn lemma_bytes_le_trans(a: Seq<u8>, b: Seq<u8>, c: Seq<u8>)
    requires
        bytes_le(a, b),
        bytes_le(b, c),
    ensures
        bytes_le(a, c),
    decreases a.len(),
{
    if a.len() > 0 {
        if a[0] == b[0] && b[0] == c[0] {
            lemma_bytes_le_trans(a.drop_first(), b.drop_first(), c.drop_first());
        }
    }
}

/// Every name of the list is at or before every later one.
pub open spec fn ascending(s: Seq<Seq<u8>>) -> bool {
    forall|p: int, q: int| 0 <= p <= q < s.len() ==> bytes_le(s[p], s[q])
}

/// Inserting into an ascending list keeps it ascending.
proof fn lemma_insert_sorted_ascending(x: Seq<u8>, s: Seq<Seq<u8>>)
    requires
        ascending(s),
    ensures
        ascending(insert_sorted(x, s)),
    decreases s.len(),
{
    if s.len() == 0 {
        lemma_bytes_le_refl(x);
    } else if bytes_le(x, s[0]) {
        let out = seq![x] + s;
        assert forall|p: int, q: int| 0 <= p <= q < out.len() implies bytes_le(out[p], out[q]) by {
            if p == 0 {
                lemma_bytes_le_refl(x);
                if q > 0 {
                    assert(out[q] == s[q - 1]);
                    lemma_bytes_le_trans(x, s[0], s[q - 1]);
                }
            } else {
                assert(out[p] == s[p - 1]);
                assert(out[q] == s[q - 1]);
            }
        }
    } else {
        let tail = s.drop_first();
        assert(forall|k: int| 0 <= k < tail.len() ==> tail[k] == s[k + 1]);
        lemma_insert_sorted_ascending(x, tail);
        lemma_insert_sorted_props(x, tail);
        lemma_bytes_le_total(x, s[0]);
        let rec = insert_sorted(x, tail);
        let out = seq![s[0]] + rec;
        assert forall|p: int, q: int| 0 <= p <= q < out.len() implies bytes_le(out[p], out[q]) by {
            if p == 0 {
                lemma_bytes_le_refl(s[0]);
                if q > 0 {
                    assert(out[q] == rec[q - 1]);
                    assert(rec.contains(rec[q - 1]));
                    if rec[q - 1] == x {
                        assert(bytes_le(s[0], x));
                    } else {
                        assert(tail.contains(rec[q - 1]));
                        let m = choose|m: int| 0 <= m < tail.len() && tail[m] == rec[q - 1];
                        assert(bytes_le(s[0], s[m + 1]));
                    }
                }
            } else {
                assert(out[p] == rec[p - 1]);
                assert(out[q] == rec[q - 1]);
            }
        }
    }
}

/// `sort_names` puts the names in ascending byte-wise order.
pub proof fn lemma_sort_names_ascending(s: Seq<Seq<u8>>)
    ensures
        ascending(sort_names(s)),
    decreases s.len(),
{
    if s.len() > 0 {
        lemma_sort_names_ascending(s.drop_first());
        lemma_insert_sorted_ascending(s[0], sort_names(s.drop_first()));
    }
}

/// Sorting keeps the length, the contents, and distinctness.
pub proof fn lemma_sort_names_props(s: Seq<Seq<u8>>)
    ensures
        sort_names(s).len() == s.len(),
        forall|y: Seq<u8>| #![trigger sort_names(s).contains(y)]
            sort_names(s).contains(y) <==> s.contains(y),
        distinct_names(s) ==> distinct_names(sort_names(s)),
    decreases s.len(),
{
    if s.len() > 0 {
        let tail = s.drop_first();
        assert(forall|k: int| 0 <= k < tail.len() ==> tail[k] == s[k + 1]);
        lemma_sort_names_props(tail);
        lemma_insert_sorted_props(s[0], sort_names(tail));
        assert forall|y: Seq<u8>| sort_names(s).contains(y) <==> s.contains(y) by {
            lemma_cons_contains(s[0], tail, y);
            assert(seq![s[0]] + tail =~= s);
            assert(sort_names(s) == insert_sorted(s[0], sort_names(tail)));
            assert(insert_sorted(s[0], sort_names(tail)).contains(y) <==> (y == s[0]
                || sort_names(tail).contains(y)));
        }
        if distinct_names(s) {
            assert(distinct_names(tail));
            assert(!tail.contains(s[0])) by {
                if tail.contains(s[0]) {
                    let k = choose|k: int| 0 <= k < tail.len() && tail[k] == s[0];
                }
            }
            assert(!sort_names(tail).contains(s[0]));
        }
    }
}

/// A prefix of elements strictly below `x` passes through an insertion.
proof fn lemma_insert_sorted_split(x: Seq<u8>, s: Seq<Seq<u8>>, j: int)
    requires
        0 <= j <= s.len(),
        forall|k: int| 0 <= k < j ==> !bytes_le(x, s[k]),
    ensures
        insert_sorted(x, s) == s.take(j) + insert_sorted(x, s.skip(j)),
    decreases j,
{
    if j == 0 {
        assert(s.skip(0) =~= s);
        assert(s.take(0) + insert_sorted(x, s) =~= insert_sorted(x, s));
    } else {
        let tail = s.drop_first();
        assert(forall|k: int| 0 <= k < tail.len() ==> tail[k] == s[k + 1]);
        lemma_insert_sorted_split(x, tail, j - 1);
        assert(tail.skip(j - 1) =~= s.skip(j));
        assert(seq![s[0]] + (tail.take(j - 1) + insert_sorted(x, s.skip(j))) =~= s.take(j)
            + insert_sorted(x, s.skip(j)));
    }
}

/// The first index whose name `x` is at or before: where `x` belongs in an
/// ascending list.
fn insertion_point(v: &Vec<Vec<u8>>, x: &Vec<u8>) -> (j: usize)
    ensures
        j <= v.len(),
        forall|k: int| 0 <= k < j ==> !bytes_le(x@, v.deep_view()[k]),
        j < v.len() ==> bytes_le(x@, v.deep_view()[j as int]),
{
    let n = v.len();
    let mut j: usize = 0;
    while j < n
        invariant
            n == v.len(),
            j <= n,
            forall|k: int| 0 <= k < j ==> !bytes_le(x@, v.deep_view()[k]),
        decreases n - j,
    {
        let at_or_before = bytes_le_exec(x, &v[j]);
        proof {
            lemma_bytes_deep_view(v@[j as int]);
        }
        if at_or_before {
            return j;
        }
        j += 1;
    }
    j
}

/// Insert a name into an ascending list, before the first name it is at or
/// before.
fn insert_name_sorted(v: &mut Vec<Vec<u8>>, x: Vec<u8>)
    ensures
        final(v).deep_view() == insert_sorted(x@, old(v).deep_view()),
{
    let ghost dv = v.deep_view();
    let ghost xv = x@;
    let j = insertion_point(v, &x);
    proof {
        lemma_insert_sorted_split(xv, dv, j as int);
        if (j as int) < dv.len() {
            assert(insert_sorted(xv, dv.skip(j as int)) == seq![xv] + dv.skip(j as int));
        } else {
            assert(dv.skip(j as int) =~= Seq::<Seq<u8>>::empty());
            assert(insert_sorted(xv, dv.skip(j as int)) =~= seq![xv] + dv.skip(j as int));
        }
    }
    v.insert(j, x);
    proof {
        assert forall|k: int| 0 <= k < v.deep_view().len() implies v.deep_view()[k] == (dv.take(
            j as int,
        ) + (seq![xv] + dv.skip(j as int)))[k] by {
            assert(v@ == old(v)@.insert(j as int, x));
            if k < j {
                assert(v@[k] == old(v)@[k]);
            } else if k == j {
                assert(v@[k] == x);
            } else {
                assert(v@[k] == old(v)@[k - 1]);
            }
        }
        assert(v.deep_view() =~= dv.take(j as int) + (seq![xv] + dv.skip(j as int)));
    }
}

/// The given names in ascending byte-wise order.
pub fn sorted_names(v: &Vec<Vec<u8>>) -> (r: Vec<Vec<u8>>)
    ensures
        r.deep_view() == sort_names(v.deep_view()),
{
    let ghost dv = v.deep_view();
    let mut out: Vec<Vec<u8>> = Vec::new();
    let mut i: usize = v.len();
    proof {
        assert(dv.skip(v.len() as int) =~= Seq::<Seq<u8>>::empty());
        assert(out.deep_view() =~= Seq::<Seq<u8>>::empty());
    }
    while i > 0
        invariant
            i <= v.len(),
            dv == v.deep_view(),
            out.deep_view() == sort_names(dv.skip(i as int)),
        decreases i,
    {
        i -= 1;
        proof {
            assert(dv.skip(i as int)[0] == dv[i as int]);
            assert(dv.skip(i as int).drop_first() =~= dv.skip(i as int + 1));
            lemma_bytes_deep_view(v@[i as int]);
        }
        insert_name_sorted(&mut out, copy_bytes(&v[i]));
    }
    proof {
        assert(dv.skip(0) =~= dv);
    }
    out
}

} // verus!
