use vstd::prelude::*;

verus! {

/// Calls std's `<[T]>::swap`, which exchanges the elements at the two positions (and leaves
/// the slice as it is when they are equal). Its documentation states this; it panics when a
/// position is out of bounds, which `requires` excludes.
#[verifier::external_body]
pub(crate) fn swap_items<T>(v: &mut Vec<T>, i: usize, j: usize)
    requires
        i < old(v)@.len(),
        j < old(v)@.len(),
    ensures
        final(v)@ == old(v)@.update(i as int, old(v)@[j as int]).update(j as int, old(v)@[i as int]),
{
    v.swap(i, j)
}

} // verus!
