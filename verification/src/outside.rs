use vstd::prelude::*;
use crate::chunk::ChunkPos;
use crate::update::{process_post, ChunkUpdateContext};

verus! {

/// Relies on rand::random::<u64>: a fresh pseudo-random seed drawn from the
/// thread-local generator. Nothing is promised of the value.
#[verifier::external_body]
pub(crate) fn random_u64() -> u64 {
    rand::random()
}

/// Relies on rand::random::<u32>: a fresh pseudo-random mask drawn from the
/// thread-local generator. Nothing is promised of the value.
#[verifier::external_body]
pub(crate) fn random_u32() -> u32 {
    rand::random()
}

} // verus!

verus! {

/// Hand every update context of one scheduling class to the worker pool
/// and process them concurrently. Safe because contexts of one class own
/// disjoint chunk windows.
///
/// Relies on rayon's par_iter_mut / for_each: the closure runs exactly
/// once on each element of the vector, in place.
#[verifier::external_body]
pub(crate) fn process_contexts(contexts: &mut Vec<(ChunkUpdateContext<'_>, ChunkPos)>)
    requires
        forall|i: int| 0 <= i < old(contexts)@.len() ==> (#[trigger] old(contexts)@[i]).0.wf(),
    ensures
        final(contexts)@.len() == old(contexts)@.len(),
        forall|i: int|
            0 <= i < old(contexts)@.len() ==> {
                &&& (#[trigger] final(contexts)@[i]).0.wf()
                &&& process_post(old(contexts)@[i].0, final(contexts)@[i].0)
                &&& final(contexts)@[i].1 == old(contexts)@[i].1
            },
{
    rayon::iter::ParallelIterator::for_each(
        rayon::iter::IntoParallelRefMutIterator::par_iter_mut(contexts),
        |(context, _chunk_pos): &mut (ChunkUpdateContext<'_>, ChunkPos)| {
            context.process();
        },
    );
}

} // verus!
