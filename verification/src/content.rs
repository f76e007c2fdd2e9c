//! What the contracts say of unsized values: text and slices, which are
//! compared and copied item by item.
use vstd::prelude::*;
use vstd::std_specs::cmp::PartialEqSpec;

verus! {

/// `copies` holds one clone of each item of `items`, in order.
pub open spec fn clones_of<T: Clone>(items: Seq<T>, copies: Seq<T>) -> bool {
    &&& copies.len() == items.len()
    &&& forall|i: int| 0 <= i < items.len() ==> cloned(#[trigger] items[i], copies[i])
}

/// `str`'s `==`: whether the two hold the same text.
#[verifier::external_body]
pub(crate) fn str_eq(left: &str, right: &str) -> (equal: bool)
    ensures
        equal == (left@ == right@),
{
    left == right
}

/// The two sequences have one length and `==` holds of each pair of items.
pub open spec fn same_items<T: PartialEq>(left: Seq<T>, right: Seq<T>) -> bool {
    &&& left.len() == right.len()
    &&& forall|i: int| 0 <= i < left.len() ==> (#[trigger] left[i]).eq_spec(&right[i])
}

/// `[T]`'s `==`: whether the two have one length and `T`'s `==` holds of each
/// pair of items, as far as `T`'s `==` is specified.
#[verifier::external_body]
pub(crate) fn slice_eq<T: PartialEq>(left: &[T], right: &[T]) -> (equal: bool)
    ensures
        T::obeys_eq_spec() ==> equal == same_items(left@, right@),
{
    left == right
}

} // verus!
