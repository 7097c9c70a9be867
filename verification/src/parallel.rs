//! Work on the elements of a range, handed out to threads.
use rayon::prelude::{IntoParallelIterator, ParallelIterator};
use vstd::prelude::*;

verus! {

/// Maps the range from 0 to `len` in parallel: calls
/// [`rayon::iter::IntoParallelIterator::into_par_iter`] on the range,
/// [`rayon::iter::ParallelIterator::map`] with `f`, and
/// [`rayon::iter::ParallelIterator::collect`].
///
/// What is claimed of them, without proof, is that `f` is called on the indices of
/// the range and nothing else, and that the vector holds one result for each index,
/// in the order of the indices, whatever thread computed it.
#[verifier::external_body]
pub(crate) fn map_indices<T: Send, F: Fn(usize) -> T + Send + Sync>(len: usize, f: F) -> (out: Vec<
    T,
>)
    requires
        forall|i: usize| i < len ==> call_requires(f, (i,)),
    ensures
        out@.len() == len,
        forall|i: usize| i < len ==> call_ensures(f, (i,), #[trigger] out@[i as int]),
{
    (0..len).into_par_iter().map(f).collect()
}

} // verus!
