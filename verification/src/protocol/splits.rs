//! The sector times of a lap: at most three, kept inline in a
//! `tinyvec::ArrayVec`. Verus does not look inside that container; this
//! module names what it holds and states what the calls made on it do.

use tinyvec::ArrayVec;
use vstd::prelude::*;

verus! {

/// How many sector times a lap can hold.
pub const MAX_SPLITS: usize = 3;

/// `tinyvec::ArrayVec`, opaque to the verifier.
#[verifier::external_type_specification]
#[verifier::external_body]
#[verifier::reject_recursive_types(A)]
pub struct ExArrayVec<A>(ArrayVec<A>);

/// The sector times that a container holds, first sector first.
pub uninterp spec fn split_times(splits: ArrayVec<[i32; 3]>) -> Seq<i32>;

/// `ArrayVec::new`: a container that holds nothing.
#[verifier::external_body]
pub(crate) fn no_splits() -> (splits: ArrayVec<[i32; 3]>)
    ensures
        split_times(splits) == Seq::<i32>::empty(),
{
    ArrayVec::new()
}

/// `ArrayVec::push`: appends one time. The call panics on a full container,
/// which the precondition rules out.
#[verifier::external_body]
pub(crate) fn push_split(splits: &mut ArrayVec<[i32; 3]>, time_ms: i32)
    requires
        split_times(*old(splits)).len() < MAX_SPLITS,
    ensures
        split_times(*final(splits)) == split_times(*old(splits)).push(time_ms),
{
    splits.push(time_ms)
}

} // verus!
