//! Output lists. A component answers a port call with the list of port calls it
//! makes in turn; contracts speak of the list by the views of its entries.
use vstd::prelude::*;

verus! {

/// The views of the entries of `s`, in order.
pub open spec fn views<T: View>(s: Seq<T>) -> Seq<T::V> {
    Seq::new(s.len(), |i: int| s[i]@)
}

/// Appends one output.
pub fn emit<T: View>(out: &mut Vec<T>, item: T)
    ensures
        final(out)@ == old(out)@.push(item),
        views(final(out)@) == views(old(out)@).push(item@),
{
    let ghost before = out@;
    out.push(item);
    assert(views(out@) =~= views(before).push(item@));
}

} // verus!
