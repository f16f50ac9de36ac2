//! The order in which room names are kept and listed: lexicographic, by the
//! code points of their characters.

use vstd::prelude::*;
use vstd::string::StrSliceExecFns;

verus! {

/// `a` and `b` agree on their first `k` characters, and there `a` ends while
/// `b` goes on, or `a` has the smaller character.
pub open spec fn parts_at(a: Seq<char>, b: Seq<char>, k: int) -> bool {
    &&& 0 <= k <= a.len()
    &&& k < b.len()
    &&& forall|j: int| 0 <= j < k ==> a[j] == b[j]
    &&& (k < a.len() ==> (a[k] as u32) < (b[k] as u32))
}

/// `a` comes strictly before `b` in lexicographic order.
pub open spec fn precedes(a: Seq<char>, b: Seq<char>) -> bool {
    exists|k: int| parts_at(a, b, k)
}

/// `names` is strictly increasing: every name comes before all later ones.
pub open spec fn strictly_ordered(names: Seq<Seq<char>>) -> bool {
    forall|i: int, j: int| 0 <= i < j < names.len() ==> precedes(names[i], names[j])
}

/// No name comes before itself.
pub proof fn lemma_precedes_irreflexive(a: Seq<char>)
    ensures
        !precedes(a, a),
{
    assert forall|k: int| !parts_at(a, a, k) by {}
}

/// The order is transitive.
pub proof fn lemma_precedes_transitive(a: Seq<char>, b: Seq<char>, c: Seq<char>)
    requires
        precedes(a, b),
        precedes(b, c),
    ensures
        precedes(a, c),
{
    let k1 = choose|k: int| parts_at(a, b, k);
    let k2 = choose|k: int| parts_at(b, c, k);
    let k = if k1 <= k2 {
        k1
    } else {
        k2
    };
    assert(parts_at(a, c, k));
}

/// Of two names at most one comes before the other.
pub proof fn lemma_precedes_asymmetric(a: Seq<char>, b: Seq<char>)
    requires
        precedes(a, b),
    ensures
        !precedes(b, a),
        a != b,
{
    lemma_precedes_irreflexive(a);
    if precedes(b, a) {
        lemma_precedes_transitive(a, b, a);
    }
}

/// Where one name stands relative to another.
#[derive(Debug, Clone, Copy, PartialEq, Eq)]
pub enum Placement {
    Before,
    Same,
    After,
}

/// Compares two names character by character.
pub fn placement(a: &str, b: &str) -> (found: Placement)
    ensures
        (found is Before) == precedes(a@, b@),
        (found is Same) == (a@ == b@),
        (found is After) == precedes(b@, a@),
{
    let a_len: usize = a.unicode_len();
    let b_len: usize = b.unicode_len();
    let mut index: usize = 0;
    while index < a_len && index < b_len
        invariant
            a_len == a@.len(),
            b_len == b@.len(),
            index <= a_len,
            index <= b_len,
            forall|j: int| 0 <= j < index ==> a@[j] == b@[j],
        decreases a_len - index,
    {
        let left: char = a.get_char(index);
        let right: char = b.get_char(index);
        if left != right {
            let left_code: u32 = left as u32;
            let right_code: u32 = right as u32;
            if left_code < right_code {
                proof {
                    assert(parts_at(a@, b@, index as int));
                    lemma_precedes_asymmetric(a@, b@);
                }
                return Placement::Before;
            } else {
                proof {
                    assert(parts_at(b@, a@, index as int));
                    lemma_precedes_asymmetric(b@, a@);
                }
                return Placement::After;
            }
        }
        index = index + 1;
    }
    if index < b_len {
        proof {
            assert(parts_at(a@, b@, index as int));
            lemma_precedes_asymmetric(a@, b@);
        }
        Placement::Before
    } else if index < a_len {
        proof {
            assert(parts_at(b@, a@, index as int));
            lemma_precedes_asymmetric(b@, a@);
        }
        Placement::After
    } else {
        proof {
            assert(a@ =~= b@);
            lemma_precedes_irreflexive(a@);
        }
        Placement::Same
    }
}

} // verus!
