//! Splitting the pixel-index range into one contiguous chunk per worker.

use vstd::prelude::*;
use crate::geometry::Dimensions;

verus! {

/// Size of every chunk but the last: the total divided by the number of
/// workers, rounded down.
pub open spec fn chunk_size(total: nat, workers: nat) -> nat {
    total / workers
}

/// First index of the chunk of worker `i`.
pub open spec fn chunk_start(total: nat, workers: nat, i: nat) -> nat {
    i * chunk_size(total, workers)
}

/// One past the last index of the chunk of worker `i`. The last worker
/// takes what the division left over.
pub open spec fn chunk_stop(total: nat, workers: nat, i: nat) -> nat {
    if i + 1 == workers {
        total
    } else {
        (i + 1) * chunk_size(total, workers)
    }
}

/// The worker whose chunk holds `index`.
pub open spec fn owner_of(total: nat, workers: nat, index: nat) -> nat {
    let chunk = chunk_size(total, workers);
    if chunk == 0 || index / chunk >= workers {
        (workers - 1) as nat
    } else {
        index / chunk
    }
}

/// The half-open index range `[start, stop)` that one worker computes, for
/// an image of known dimensions.
#[derive(Clone, Copy, Debug, PartialEq, Eq)]
pub struct Job {
    worker: u32,
    start: u64,
    stop: u64,
    dims: Dimensions,
}

impl Job {
    /// Number of the worker that owns the job.
    pub closed spec fn spec_worker(self) -> nat {
        self.worker as nat
    }

    /// First index of the range.
    pub closed spec fn spec_start(self) -> nat {
        self.start as nat
    }

    /// One past the last index of the range.
    pub closed spec fn spec_stop(self) -> nat {
        self.stop as nat
    }

    /// Dimensions of the image that the indices belong to.
    pub closed spec fn spec_dims(self) -> Dimensions {
        self.dims
    }

    /// The range is ordered and lies inside the index space of the image.
    #[verifier::type_invariant]
    pub open spec fn wf(self) -> bool {
        &&& self.spec_dims().wf()
        &&& self.spec_start() <= self.spec_stop() <= self.spec_dims().spec_pixel_count()
        &&& self.spec_stop() <= u64::MAX
        &&& self.spec_worker() <= u32::MAX
    }

    /// A job for `worker` over `[start, stop)`; `None` exactly when the range
    /// is reversed or reaches past the last pixel.
    pub fn new(dims: Dimensions, worker: u32, start: u64, stop: u64) -> (r: Option<Job>)
        ensures
            r.is_some() <==> start <= stop <= dims.spec_pixel_count(),
            r matches Some(job) ==> {
                &&& job.wf()
                &&& job.spec_dims() == dims
                &&& job.spec_worker() == worker
                &&& job.spec_start() == start
                &&& job.spec_stop() == stop
            },
    {
        proof {
            use_type_invariant(dims);
        }
        if start <= stop && stop <= dims.pixel_count() {
            Some(Job { worker, start, stop, dims })
        } else {
            None
        }
    }

    /// Number of the worker that owns the job.
    pub fn worker(&self) -> (w: u32)
        ensures
            w == self.spec_worker(),
    {
        self.worker
    }

    /// First index of the range.
    pub fn start(&self) -> (s: u64)
        ensures
            s == self.spec_start(),
    {
        self.start
    }

    /// One past the last index of the range.
    pub fn stop(&self) -> (s: u64)
        ensures
            s == self.spec_stop(),
    {
        self.stop
    }

    /// Dimensions of the image that the indices belong to.
    pub fn dims(&self) -> (d: Dimensions)
        ensures
            d == self.spec_dims(),
            d.wf(),
    {
        proof {
            use_type_invariant(self);
        }
        self.dims
    }

    /// Number of indices in the range.
    pub fn len(&self) -> (n: u64)
        ensures
            n == self.spec_stop() - self.spec_start(),
    {
        proof {
            use_type_invariant(self);
        }
        self.stop - self.start
    }
}

/// Whether `jobs` is the partition of the index space of `dims` between
/// `workers` workers: one job per worker, in worker order, each over the
/// chunk that the worker's number gives.
pub open spec fn is_partition(jobs: Seq<Job>, dims: Dimensions, workers: nat) -> bool {
    &&& jobs.len() == workers
    &&& forall|i: int|
        0 <= i < jobs.len() ==> {
            &&& (#[trigger] jobs[i]).wf()
            &&& jobs[i].spec_dims() == dims
            &&& jobs[i].spec_worker() == i
            &&& jobs[i].spec_start() == chunk_start(dims.spec_pixel_count(), workers, i as nat)
            &&& jobs[i].spec_stop() == chunk_stop(dims.spec_pixel_count(), workers, i as nat)
        }
}

/// Whether `index` lies in the range of `job`.
pub open spec fn job_holds(job: Job, index: nat) -> bool {
    job.spec_start() <= index < job.spec_stop()
}

/// Whether `index` lies in the range of one of `jobs`.
pub open spec fn is_covered(jobs: Seq<Job>, index: nat) -> bool {
    exists|i: int| 0 <= i < jobs.len() && #[trigger] job_holds(jobs[i], index)
}

/// Whether the ranges of `jobs` cover `[0, total)` exactly once: none
/// reaches past `total`, every index below `total` lies in the range of some
/// job, and no index lies in the ranges of two.
pub open spec fn covers_exactly_once(jobs: Seq<Job>, total: nat) -> bool {
    &&& forall|i: int| 0 <= i < jobs.len() ==> (#[trigger] jobs[i]).spec_stop() <= total
    &&& forall|index: nat| index < total ==> #[trigger] is_covered(jobs, index)
    &&& forall|index: nat, i: int, j: int|
        0 <= i < jobs.len() && 0 <= j < jobs.len() && #[trigger] job_holds(jobs[i], index)
            && #[trigger] job_holds(jobs[j], index) ==> i == j
}

/// Splits the index space `[0, width * height)` between `workers` workers.
///
/// Worker `i` gets `[i * chunk, (i + 1) * chunk)` with
/// `chunk = total / workers`; the last worker's range ends at the total.
pub fn partition(dims: Dimensions, workers: u32) -> (jobs: Vec<Job>)
    requires
        workers >= 1,
    ensures
        jobs@.len() == workers,
        is_partition(jobs@, dims, workers as nat),
        covers_exactly_once(jobs@, dims.spec_pixel_count()),
{
    proof {
        use_type_invariant(dims);
    }
    let total: u64 = dims.pixel_count();
    let chunk: u64 = total / (workers as u64);
    let mut jobs: Vec<Job> = Vec::new();
    let mut i: u32 = 0;
    while i < workers
        invariant
            dims.wf(),
            workers >= 1,
            i <= workers,
            total == dims.spec_pixel_count(),
            chunk == chunk_size(total as nat, workers as nat),
            jobs@.len() == i,
            forall|k: int|
                0 <= k < jobs@.len() ==> {
                    &&& (#[trigger] jobs@[k]).wf()
                    &&& jobs@[k].spec_dims() == dims
                    &&& jobs@[k].spec_worker() == k
                    &&& jobs@[k].spec_start() == chunk_start(total as nat, workers as nat, k as nat)
                    &&& jobs@[k].spec_stop() == chunk_stop(total as nat, workers as nat, k as nat)
                },
        decreases workers - i,
    {
        proof {
            lemma_chunk_bounds(total as nat, workers as nat, i as nat);
        }
        let start: u64 = (i as u64) * chunk;
        let stop: u64 = if i + 1 == workers {
            total
        } else {
            (i as u64 + 1) * chunk
        };
        jobs.push(Job { worker: i, start, stop, dims });
        i = i + 1;
    }
    proof {
        lemma_partition_covers(jobs@, dims, workers as nat);
    }
    jobs
}

/// The partition between any positive number of workers covers the index
/// space of the image exactly once: the ranges have no gap and no overlap,
/// and there are as many as workers.
pub proof fn lemma_partition_covers(jobs: Seq<Job>, dims: Dimensions, workers: nat)
    requires
        dims.wf(),
        workers >= 1,
        is_partition(jobs, dims, workers),
    ensures
        jobs.len() == workers,
        covers_exactly_once(jobs, dims.spec_pixel_count()),
{
    let total = dims.spec_pixel_count();
    assert forall|index: nat| index < total implies #[trigger] is_covered(jobs, index) by {
        let owner = owner_of(total, workers, index);
        lemma_chunks_cover_exactly_once(total, workers, index, owner);
        assert(job_holds(jobs[owner as int], index));
    }
    assert forall|index: nat, i: int, j: int|
        0 <= i < jobs.len() && 0 <= j < jobs.len() && #[trigger] job_holds(jobs[i], index)
            && #[trigger] job_holds(jobs[j], index) implies i == j by {
        lemma_chunks_cover_exactly_once(total, workers, index, i as nat);
        lemma_chunks_cover_exactly_once(total, workers, index, j as nat);
    }
}

/// Every chunk is an ordered range inside `[0, total]`.
pub proof fn lemma_chunk_bounds(total: nat, workers: nat, i: nat)
    requires
        workers >= 1,
        i < workers,
    ensures
        chunk_start(total, workers, i) <= chunk_stop(total, workers, i) <= total,
        (i + 1) * chunk_size(total, workers) <= total,
{
    let c = chunk_size(total, workers) as int;
    let t = total as int;
    let k = workers as int;
    let j = i as int;
    assert(c * k <= t) by (nonlinear_arith)
        requires
            c == t / k,
            k >= 1,
            t >= 0,
    ;
    assert((j + 1) * c <= c * k) by (nonlinear_arith)
        requires
            0 <= j < k,
            c >= 0,
    ;
    assert(j * c <= (j + 1) * c) by (nonlinear_arith)
        requires
            0 <= j,
            c >= 0,
    ;
}

/// The chunks follow one another without a gap: the first starts at zero,
/// each next one starts where the one before stopped, and the last stops at
/// the total.
pub proof fn lemma_chunks_contiguous(total: nat, workers: nat, i: nat)
    requires
        workers >= 1,
        i < workers,
    ensures
        chunk_start(total, workers, 0) == 0,
        i + 1 < workers ==> chunk_stop(total, workers, i) == chunk_start(total, workers, i + 1),
        chunk_stop(total, workers, (workers - 1) as nat) == total,
{
}

/// Every index below the total lies in the chunk of exactly one worker,
/// the one that [`owner_of`] names: the chunks cover `[0, total)` with no
/// gap and no overlap.
pub proof fn lemma_chunks_cover_exactly_once(total: nat, workers: nat, index: nat, i: nat)
    requires
        workers >= 1,
        index < total,
        i < workers,
    ensures
        owner_of(total, workers, index) < workers,
        (chunk_start(total, workers, i) <= index < chunk_stop(total, workers, i)) <==> i
            == owner_of(total, workers, index),
{
    let c = chunk_size(total, workers) as int;
    let x = index as int;
    let j = i as int;
    let k = workers as int;
    assert(j * c <= (j + 1) * c) by (nonlinear_arith)
        requires
            0 <= j,
            c >= 0,
    ;
    if c == 0 {
        assert(j * c == 0 && (j + 1) * c == 0) by (nonlinear_arith)
            requires
                c == 0,
        ;
    } else {
        let q = x / c;
        assert(0 <= q && q * c <= x < (q + 1) * c) by (nonlinear_arith)
            requires
                c > 0,
                x >= 0,
                q == x / c,
        ;
        if j < q {
            assert((j + 1) * c <= q * c) by (nonlinear_arith)
                requires
                    j + 1 <= q,
                    c > 0,
            ;
        }
        if j > q {
            assert((q + 1) * c <= j * c) by (nonlinear_arith)
                requires
                    q + 1 <= j,
                    c > 0,
            ;
        }
    }
}

} // verus!
