//! The order in which an ordered key-value store walks its keys.

use vstd::prelude::*;

verus! {

/// `a` and `b` agree before position `i`, and at `i` either `a` has ended or its byte is smaller.
pub open spec fn less_at(a: Seq<u8>, b: Seq<u8>, i: int) -> bool {
    &&& 0 <= i <= a.len()
    &&& i < b.len()
    &&& forall|j: int| 0 <= j < i ==> a[j] == b[j]
    &&& i == a.len() || a[i] < b[i]
}

/// Bytewise lexicographic order: `a` comes strictly before `b`.
pub open spec fn lex_less(a: Seq<u8>, b: Seq<u8>) -> bool {
    exists|i: int| less_at(a, b, i)
}

/// The order is asymmetric: of two sequences at most one comes before the other.
pub proof fn lemma_lex_asymmetric(a: Seq<u8>, b: Seq<u8>)
    requires
        lex_less(a, b),
    ensures
        !lex_less(b, a),
        a != b,
{
    let i = choose|i: int| less_at(a, b, i);
    if lex_less(b, a) {
        let k = choose|k: int| less_at(b, a, k);
        if i < k {
            assert(b[i] == a[i]);
        } else if k < i {
            assert(a[k] == b[k]);
        }
    }
}

/// The order is total: two different sequences are always ordered.
pub proof fn lemma_lex_total(a: Seq<u8>, b: Seq<u8>)
    ensures
        a == b || lex_less(a, b) || lex_less(b, a),
    decreases a.len(),
{
    if a.len() == 0 {
        if b.len() == 0 {
            assert(a =~= b);
        } else {
            assert(less_at(a, b, 0));
        }
    } else if b.len() == 0 {
        assert(less_at(b, a, 0));
    } else if a[0] < b[0] {
        assert(less_at(a, b, 0));
    } else if b[0] < a[0] {
        assert(less_at(b, a, 0));
    } else {
        let s: Seq<u8> = a.skip(1);
        let t: Seq<u8> = b.skip(1);
        lemma_lex_total(s, t);
        assert(seq![a[0]] + s =~= a);
        assert(seq![a[0]] + t =~= b);
        if lex_less(s, t) {
            lemma_lex_prepend(seq![a[0]], s, t);
        } else if lex_less(t, s) {
            lemma_lex_prepend(seq![a[0]], t, s);
        }
    }
}

/// A common prefix does not change the order.
pub proof fn lemma_lex_prepend(p: Seq<u8>, a: Seq<u8>, b: Seq<u8>)
    requires
        lex_less(a, b),
    ensures
        lex_less(p + a, p + b),
{
    let i = choose|i: int| less_at(a, b, i);
    assert(less_at(p + a, p + b, p.len() + i)) by {
        assert forall|j: int| 0 <= j < p.len() + i implies (p + a)[j] == (p + b)[j] by {
            if j >= p.len() {
                assert(a[j - p.len()] == b[j - p.len()]);
            }
        }
    }
}

/// Where two sequences differ before either ends, what follows does not change the order.
pub proof fn lemma_lex_extend(a: Seq<u8>, b: Seq<u8>, i: int, x: Seq<u8>, y: Seq<u8>)
    requires
        less_at(a, b, i),
        i < a.len(),
    ensures
        lex_less(a + x, b + y),
{
    assert(less_at(a + x, b + y, i)) by {
        assert forall|j: int| 0 <= j < i implies (a + x)[j] == (b + y)[j] by {
            assert(a[j] == b[j]);
        }
    }
}

} // verus!
