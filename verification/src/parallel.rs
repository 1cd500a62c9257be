//! The worker pool. The first four functions call into `rayon`; their contracts are
//! believed, not proved. The rest is proved on top of them.

use rayon::iter::IndexedParallelIterator;
use rayon::iter::IntoParallelRefIterator;
use rayon::iter::ParallelIterator;
use crate::errors::Errors;
use vstd::prelude::*;

verus! {

/// `rayon::ThreadPool`, carried through as an opaque value.
#[verifier::external_type_specification]
#[verifier::external_body]
pub struct ExThreadPool(rayon::ThreadPool);

/// `rayon::ThreadPoolBuildError`, carried through as an opaque value.
#[verifier::external_type_specification]
#[verifier::external_body]
pub struct ExThreadPoolBuildError(rayon::ThreadPoolBuildError);

/// Builds a worker pool through `rayon::ThreadPoolBuilder::build`, asking for
/// `threads` workers (zero lets rayon choose). Whether the pool can be had
/// depends on the machine, so nothing is claimed of the outcome.
#[verifier::external_body]
pub(crate) fn build_pool(
    threads: usize,
) -> (r: Result<rayon::ThreadPool, rayon::ThreadPoolBuildError>) {
    rayon::ThreadPoolBuilder::new().num_threads(threads).build()
}

/// The text of a pool-construction failure, as its `to_string` gives it.
/// Nothing is claimed of the text.
#[verifier::external_body]
pub(crate) fn pool_error_text(e: &rayon::ThreadPoolBuildError) -> (r: String) {
    e.to_string()
}

/// Runs `op` inside the pool with `rayon::ThreadPool::install`. The claim is
/// that `install` calls `op` once and hands back what it returned.
#[verifier::external_body]
pub(crate) fn in_pool<R: Send, OP: FnOnce() -> R + Send>(pool: &rayon::ThreadPool, op: OP) -> (r: R)
    requires
        call_requires(op, ()),
    ensures
        call_ensures(op, (), r),
{
    pool.install(op)
}

/// Maps every byte, with its index, through `f` on rayon's indexed parallel
/// iterator (`par_iter().enumerate().map(..).collect()`). The claim is that the
/// collected vector has the input's length and holds at each index a value `f`
/// returned for that index and the byte found there.
#[verifier::external_body]
pub(crate) fn par_map_indexed<F: Fn(usize, u8) -> u8 + Sync + Send>(data: &[u8], f: F) -> (r: Vec<
    u8,
>)
    requires
        forall|i: int|
            0 <= i < data@.len() ==> call_requires(f, (i as usize, #[trigger] data@[i])),
    ensures
        r@.len() == data@.len(),
        forall|i: int|
            0 <= i < data@.len() ==> call_ensures(f, (i as usize, data@[i]), #[trigger] r@[i]),
{
    data.par_iter().enumerate().map(|(i, b)| f(i, *b)).collect()
}

/// A worker pool of `threads` workers for one call, or the `ThreadPool` fault
/// that reports why none could be had.
pub fn make_pool(threads: usize) -> (r: Result<rayon::ThreadPool, Errors>)
    ensures
        r matches Err(e) ==> e is ThreadPool,
{
    pool_or_fault(build_pool(threads))
}

/// What a call makes of an attempt to build its pool: the pool itself where
/// the attempt gave one, and a `ThreadPool` fault with the text of the failure
/// where it did not.
pub fn pool_or_fault(
    built: Result<rayon::ThreadPool, rayon::ThreadPoolBuildError>,
) -> (r: Result<rayon::ThreadPool, Errors>)
    ensures
        built matches Ok(pool) ==> r == Ok::<rayon::ThreadPool, Errors>(pool),
        built is Err ==> (r matches Err(e) && e is ThreadPool),
{
    match built {
        Ok(pool) => Ok(pool),
        Err(e) => Err(Errors::ThreadPool(pool_error_text(&e))),
    }
}

/// Maps every byte of `data`, with its index, through `f` on the workers of
/// `pool`, keeping the order of the input.
pub fn pool_map<F: Fn(usize, u8) -> u8 + Sync + Send>(
    pool: &rayon::ThreadPool,
    data: &[u8],
    f: F,
) -> (r: Vec<u8>)
    requires
        forall|i: int|
            0 <= i < data@.len() ==> call_requires(f, (i as usize, #[trigger] data@[i])),
    ensures
        r@.len() == data@.len(),
        forall|i: int|
            0 <= i < data@.len() ==> call_ensures(f, (i as usize, data@[i]), #[trigger] r@[i]),
{
    let op = || -> (out: Vec<u8>)
        ensures
            out@.len() == data@.len(),
            forall|i: int|
                0 <= i < data@.len() ==> call_ensures(
                    f,
                    (i as usize, data@[i]),
                    #[trigger] out@[i],
                ),
        { par_map_indexed(data, &f) };
    in_pool(pool, op)
}

/// The bytes of `a` followed by the bytes of `b`.
pub fn concat_bytes(a: &[u8], b: &[u8]) -> (r: Vec<u8>)
    ensures
        r@ == a@ + b@,
{
    let mut joined: Vec<u8> = Vec::new();
    joined.extend_from_slice(a);
    joined.extend_from_slice(b);
    joined
}

} // verus!
