//! Byte-string helpers.
//!
//! Names, version constraints and entrypoint identifiers are byte strings
//! (`Vec<u8>`). These functions give executable equality and copying with
//! exact contracts over the sequence views.

use vstd::prelude::*;

verus! {

/// Structural equality of two byte strings.
pub fn bytes_eq(a: &Vec<u8>, b: &Vec<u8>) -> (r: bool)
    ensures
        r == (a@ == b@),
{
    if a.len() != b.len() {
        return false;
    }
    let n = a.len();
    let mut i: usize = 0;
    while i < n
        invariant
            n == a.len() == b.len(),
            i <= n,
            forall|j: int| 0 <= j < i ==> a@[j] == b@[j],
        decreases n - i,
    {
        if a[i] != b[i] {
            assert(a@[i as int] != b@[i as int]);
            return false;
        }
        i += 1;
    }
    assert(a@ =~= b@);
    true
}

/// Structural equality of two optional byte strings.
pub fn opt_bytes_eq(a: &Option<Vec<u8>>, b: &Option<Vec<u8>>) -> (r: bool)
    ensures
        r == (a.deep_view() == b.deep_view()),
{
    match (a, b) {
        (Some(x), Some(y)) => {
            let r = bytes_eq(x, y);
            proof {
                lemma_bytes_deep_view(*x);
                lemma_bytes_deep_view(*y);
            }
            r
        },
        (None, None) => true,
        _ => false,
    }
}

/// The deep view of a byte string is its sequence view.
pub proof fn lemma_bytes_deep_view(v: Vec<u8>)
    ensures
        v.deep_view() == v@,
{
    assert(v.deep_view() =~= v@);
}

/// Structural equality of two lists of byte strings.
pub fn bytes_list_eq(a: &Vec<Vec<u8>>, b: &Vec<Vec<u8>>) -> (r: bool)
    ensures
        r == (a.deep_view() == b.deep_view()),
{
    if a.len() != b.len() {
        assert(a.deep_view().len() != b.deep_view().len());
        return false;
    }
    let n = a.len();
    let mut i: usize = 0;
    while i < n
        invariant
            n == a.len() == b.len(),
            i <= n,
            forall|j: int| 0 <= j < i ==> a.deep_view()[j] == b.deep_view()[j],
        decreases n - i,
    {
        let same = bytes_eq(&a[i], &b[i]);
        proof {
            lemma_bytes_deep_view(a@[i as int]);
            lemma_bytes_deep_view(b@[i as int]);
        }
        if !same {
            assert(a.deep_view()[i as int] != b.deep_view()[i as int]);
            return false;
        }
        assert(a.deep_view()[i as int] == b.deep_view()[i as int]);
        i += 1;
    }
    assert(a.deep_view() =~= b.deep_view());
    true
}

/// A fresh copy of a byte string.
pub fn copy_bytes(v: &Vec<u8>) -> (r: Vec<u8>)
    ensures
        r@ == v@,
{
    let n = v.len();
    let mut out: Vec<u8> = Vec::new();
    let mut i: usize = 0;
    while i < n
        invariant
            n == v.len(),
            i <= n,
            out@ == v@.take(i as int),
        decreases n - i,
    {
        out.push(v[i]);
        assert(out@ =~= v@.take(i as int + 1));
        i += 1;
    }
    assert(v@.take(n as int) =~= v@);
    out
}

/// A fresh copy of an optional byte string.
pub fn copy_opt_bytes(v: &Option<Vec<u8>>) -> (r: Option<Vec<u8>>)
    ensures
        r.deep_view() == v.deep_view(),
{
    match v {
        Some(x) => Some(copy_bytes(x)),
        None => None,
    }
}

/// A fresh copy of a list of byte strings.
pub fn copy_bytes_list(v: &Vec<Vec<u8>>) -> (r: Vec<Vec<u8>>)
    ensures
        r.deep_view() == v.deep_view(),
{
    let n = v.len();
    let mut out: Vec<Vec<u8>> = Vec::new();
    let mut i: usize = 0;
    while i < n
        invariant
            n == v.len(),
            i <= n,
            out.len() == i,
            forall|j: int| 0 <= j < i ==> out.deep_view()[j] == v.deep_view()[j],
        decreases n - i,
    {
        let ghost prev = out@;
        let item = copy_bytes(&v[i]);
        out.push(item);
        proof {
            lemma_bytes_deep_view(out@[i as int]);
            lemma_bytes_deep_view(v@[i as int]);
            assert forall|j: int| 0 <= j < i + 1 implies out.deep_view()[j] == v.deep_view()[j] by {
                if j < i {
                    assert(out@[j] == prev[j]);
                }
            }
        }
        i += 1;
    }
    assert(out.deep_view() =~= v.deep_view());
    out
}

} // verus!
