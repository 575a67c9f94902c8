//! Vectors taken apart in order.

use vstd::prelude::*;

verus! {

/// The elements of `v` in reverse order; popping from the result yields them
/// in the order of `v`, without a copy.
pub fn reversed<T>(v: Vec<T>) -> (r: Vec<T>)
    ensures
        r@ == v@.reverse(),
{
    let mut pending = v;
    let mut out: Vec<T> = Vec::new();
    while pending.len() > 0
        invariant
            pending@ + out@.reverse() == v@,
        decreases pending.len(),
    {
        let ghost p = pending@;
        let ghost o = out@;
        let e = pending.pop().unwrap();
        out.push(e);
        proof {
            assert(o.push(e).reverse() =~= seq![e] + o.reverse());
            assert(p =~= p.drop_last() + seq![e]);
            assert(p.drop_last() + (seq![e] + o.reverse()) =~= (p.drop_last() + seq![e])
                + o.reverse());
        }
    }
    proof {
        assert(pending@ + out@.reverse() =~= out@.reverse());
        assert(out@ =~= out@.reverse().reverse());
    }
    out
}

} // verus!
