//! Sorting by a strict order.

use vstd::prelude::*;

verus! {

broadcast use vstd::seq_lib::group_to_multiset_ensures;

/// Values with a strict order: `spec_before` is asymmetric and transitive.
pub trait Ordered: Sized {
    spec fn spec_before(&self, other: &Self) -> bool;

    proof fn lemma_before(a: &Self, b: &Self, c: &Self)
        ensures
            a.spec_before(b) ==> !b.spec_before(a),
            a.spec_before(b) && b.spec_before(c) ==> a.spec_before(c),
    ;

    fn before(&self, other: &Self) -> (r: bool)
        ensures
            r == self.spec_before(other),
    ;
}

/// No element of `s` comes before an earlier one.
pub open spec fn sorted_by<T: Ordered>(s: Seq<T>) -> bool {
    forall|i: int, j: int| #![trigger s[i], s[j]] 0 <= i < j < s.len() ==> !s[j].spec_before(&s[i])
}

/// Sorts `v`; elements that are not ordered keep no particular order.
pub fn sort<T: Ordered>(v: &mut Vec<T>)
    ensures
        sorted_by(final(v)@),
        final(v)@.to_multiset() == old(v)@.to_multiset(),
{
    let mut rest: Vec<T> = Vec::new();
    std::mem::swap(&mut rest, v);
    let ghost all = rest@;
    let mut out: Vec<T> = Vec::new();
    while rest.len() > 0
        invariant
            sorted_by(out@),
            out@.to_multiset().add(rest@.to_multiset()) == all.to_multiset(),
        decreases rest@.len(),
    {
        let ghost before_pop = rest@;
        let x = rest.pop().unwrap();
        assert(before_pop =~= rest@.push(x));
        let mut i: usize = 0;
        while i < out.len() && !x.before(&out[i])
            invariant
                i <= out@.len(),
                forall|j: int| 0 <= j < i ==> !x.spec_before(&#[trigger] out@[j]),
            decreases out@.len() - i,
        {
            i += 1;
        }
        let ghost old_out = out@;
        out.insert(i, x);
        assert(sorted_by(out@)) by {
            assert forall|a: int, b: int| #![trigger out@[a], out@[b]] 0 <= a < b < out@.len() implies !out@[b].spec_before(
                &out@[a],
            ) by {
                if a < i && b > i {
                    T::lemma_before(&old_out[b - 1], &old_out[a], &x);
                    assert(!x.spec_before(&old_out[a]));
                } else if a == i && b > i {
                    T::lemma_before(&old_out[b - 1], &x, &old_out[i as int]);
                    if b - 1 > i {
                        assert(!old_out[b - 1].spec_before(&old_out[i as int]));
                    }
                    assert(x.spec_before(&old_out[i as int]));
                }
            }
        }
    }
    assert(rest@.to_multiset() =~= vstd::multiset::Multiset::empty());
    *v = out;
}

} // verus!
