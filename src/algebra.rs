use vstd::prelude::*;

use crate::voxels::{difference_words, empty_words, union_words, well_formed_words};

verus! {

/// Union of a volume with itself leaves it as it is, and so does union with
/// the empty volume; difference of a volume with itself is empty, and
/// difference with the empty volume leaves it as it is.
pub proof fn lemma_identities(a: Seq<u64>)
    requires
        well_formed_words(a),
    ensures
        union_words(a, a) == a,
        difference_words(a, a) == empty_words(),
        union_words(a, empty_words()) == a,
        difference_words(a, empty_words()) == a,
{
    assert forall|i: int| 0 <= i < a.len() implies #[trigger] union_words(a, a)[i] == a[i]
        && difference_words(a, a)[i] == 0u64 && union_words(a, empty_words())[i] == a[i]
        && difference_words(a, empty_words())[i] == a[i] by {
        let w = a[i];
        assert(w | w == w && w & !w == 0 && w | 0 == w && w & !0u64 == w) by (bit_vector);
    }
    assert(union_words(a, a) =~= a);
    assert(difference_words(a, a) =~= empty_words());
    assert(union_words(a, empty_words()) =~= a);
    assert(difference_words(a, empty_words()) =~= a);
}

/// Union is commutative.
pub proof fn lemma_union_commutative(a: Seq<u64>, b: Seq<u64>)
    requires
        well_formed_words(a),
        well_formed_words(b),
    ensures
        union_words(a, b) == union_words(b, a),
{
    assert forall|i: int| 0 <= i < a.len() implies #[trigger] union_words(a, b)[i] == union_words(
        b,
        a,
    )[i] by {
        let (x, y) = (a[i], b[i]);
        assert(x | y == y | x) by (bit_vector);
    }
    assert(union_words(a, b) =~= union_words(b, a));
}

/// Union is associative.
pub proof fn lemma_union_associative(a: Seq<u64>, b: Seq<u64>, c: Seq<u64>)
    requires
        well_formed_words(a),
        well_formed_words(b),
        well_formed_words(c),
    ensures
        union_words(union_words(a, b), c) == union_words(a, union_words(b, c)),
{
    let l = union_words(union_words(a, b), c);
    let r = union_words(a, union_words(b, c));
    assert forall|i: int| 0 <= i < a.len() implies #[trigger] l[i] == r[i] by {
        let (x, y, z) = (a[i], b[i], c[i]);
        assert((x | y) | z == x | (y | z)) by (bit_vector);
    }
    assert(l =~= r);
}

} // verus!
