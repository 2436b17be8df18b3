use crate::db::{index_by_chunk, row_for_chunk, rows_by_chunk, ChunkState};
use crate::download::layout::{merge_temp_text, part_file_text};
use crate::download::merge::{merge_chunks, MergePlan};
use crate::download::plan::{
    build_chunk_plan, chunk_plan, plan_bytes_sum_to_total, plan_is_contiguous, planned_bytes,
};
use crate::download::worker::{worker_start, ChunkWorker, WorkerStart, WorkerView};
use crate::error::DownloadError;
use crate::models::ChunkPlan;
use crate::network::RemoteMetadata;
use crate::scheduler::{parallelism_for, AdaptiveScheduler};
use std::collections::HashMap;
use vstd::prelude::*;

verus! {

broadcast use vstd::std_specs::hash::group_hash_axioms;

/// The two ways to fetch a resource.
#[derive(Debug, Clone, Copy, PartialEq, Eq, Structural)]
pub enum DownloadPath {
    /// In ranges, by several workers; the resource has this many bytes.
    Chunked(u64),
    /// In one request.
    SingleShot,
}

/// The way to fetch a resource of which a probe learned `metadata`: in
/// ranges where the remote serves ranges and names a size that is not zero,
/// else in one request.
pub open spec fn path_for(metadata: RemoteMetadata) -> DownloadPath {
    match metadata.content_length {
        Some(total) => if metadata.range_supported && total > 0 {
            DownloadPath::Chunked(total)
        } else {
            DownloadPath::SingleShot
        },
        None => DownloadPath::SingleShot,
    }
}

/// Chooses the way to fetch a resource. One without bytes, one of unknown
/// size, and one whose remote serves no ranges are fetched in one request.
pub fn select_path(metadata: &RemoteMetadata) -> (path: DownloadPath)
    ensures
        path == path_for(*metadata),
        metadata.content_length == Some(0u64) ==> path == DownloadPath::SingleShot,
        metadata.content_length is None ==> path == DownloadPath::SingleShot,
        !metadata.range_supported ==> path == DownloadPath::SingleShot,
{
    match metadata.content_length {
        Some(total) => {
            if metadata.range_supported && total > 0 {
                DownloadPath::Chunked(total)
            } else {
                DownloadPath::SingleShot
            }
        },
        None => DownloadPath::SingleShot,
    }
}

/// Whether the worker behind result `i` is the first that failed.
pub open spec fn is_first_failure(results: Seq<Result<(), DownloadError>>, i: int) -> bool {
    &&& 0 <= i < results.len()
    &&& results[i] is Err
    &&& forall|j: int| 0 <= j < i ==> (#[trigger] results[j]) is Ok
}

/// Gathers what the workers of a job came to, once all of them have ended.
/// The job goes on where none failed, and fails with the error of the first
/// worker in the list that failed.
pub fn first_error(results: &Vec<Result<(), DownloadError>>) -> (outcome: Result<
    (),
    DownloadError,
>)
    ensures
        outcome is Ok <==> forall|i: int| 0 <= i < results@.len() ==> (#[trigger] results@[i]) is Ok,
        outcome matches Err(error) ==> exists|i: int|
            is_first_failure(results@, i) && results@[i] == Err::<(), DownloadError>(error),
{
    let mut i: usize = 0;
    while i < results.len()
        invariant
            i <= results.len(),
            forall|j: int| 0 <= j < i ==> (#[trigger] results@[j]) is Ok,
        decreases results.len() - i,
    {
        match &results[i] {
            Ok(_) => {},
            Err(error) => {
                let copy = error.clone();
                assert(is_first_failure(results@, i as int));
                return Err(copy);
            },
        }
        i = i + 1;
    }
    Ok(())
}

/// All that the chunked path of one job does, laid out before any byte is
/// fetched.
#[derive(Debug, PartialEq, Eq)]
pub struct ChunkedJob {
    /// The ranges, in order.
    pub chunks: Vec<ChunkPlan>,
    /// How many workers may run at once.
    pub parallelism: usize,
    /// How the worker of each chunk begins, in the order of the chunks.
    pub starts: Vec<WorkerStart>,
    /// The merge that follows once every worker has ended well.
    pub merge: MergePlan,
}

/// Lays out the chunked path for a resource of `total` bytes: the plan, the
/// number of workers that the scheduler allows, how each worker begins given
/// the rows that an earlier run of the job left in the store, and the merge
/// into `output`.
pub fn download_chunked(
    download_id: &str,
    output: &str,
    total: u64,
    chunk_size: u64,
    scheduler: &AdaptiveScheduler,
    rows: &Vec<ChunkState>,
) -> (job: ChunkedJob)
    requires
        chunk_size >= 1,
    ensures
        job.chunks@ == chunk_plan(total, chunk_size),
        job.parallelism == parallelism_for(scheduler.max_parallel_chunks, Some(total)),
        job.starts@.len() == job.chunks@.len(),
        forall|i: int|
            0 <= i < job.starts@.len() ==> (#[trigger] job.starts@[i])@ == worker_start(
                download_id@,
                job.chunks@[i],
                row_for_chunk(rows@, job.chunks@[i].index),
            ),
        job.merge.target@ == output@,
        job.merge.temp@ == merge_temp_text(output@),
        job.merge.parts@.len() == job.chunks@.len(),
        forall|i: int|
            0 <= i < job.chunks@.len() ==> (#[trigger] job.merge.parts@[i])@ == part_file_text(
                i as usize,
            ),
{
    let chunks = build_chunk_plan(total, chunk_size);
    let parallelism = scheduler.choose_parallelism(Some(total));
    let resume_map = index_by_chunk(rows);
    let mut starts: Vec<WorkerStart> = Vec::new();
    let mut i: usize = 0;
    proof {
        plan_is_contiguous(total, chunk_size);
    }
    while i < chunks.len()
        invariant
            i <= chunks.len(),
            chunks@ == chunk_plan(total, chunk_size),
            forall|k: int| 0 <= k < chunks@.len() ==> (#[trigger] chunks@[k]).is_valid(),
            resume_map@ == rows_by_chunk(rows@),
            starts@.len() == i,
            forall|k: int|
                0 <= k < i ==> (#[trigger] starts@[k])@ == worker_start(
                    download_id@,
                    chunks@[k],
                    row_for_chunk(rows@, chunks@[k].index),
                ),
        decreases chunks.len() - i,
    {
        let chunk = chunks[i];
        let already = resume_map.get(&chunk.index);
        starts.push(ChunkWorker::start(download_id, chunk, already));
        i = i + 1;
    }
    let merge = merge_chunks(output, chunks.len());
    ChunkedJob { chunks, parallelism, starts, merge }
}

/// The bytes that the first `n` workers of a job have added to the job's
/// counter in this run: for each, what its part file holds beyond what it
/// held when the run began.
pub open spec fn bytes_counted(workers: Seq<WorkerView>, n: int) -> int
    decreases n,
{
    if n <= 0 {
        0
    } else {
        bytes_counted(workers, n - 1) + (workers[n - 1].downloaded - workers[n - 1].resumed_at)
    }
}

proof fn lemma_counted_within_planned(plan: Seq<ChunkPlan>, workers: Seq<WorkerView>, n: int)
    requires
        0 <= n <= plan.len(),
        workers.len() == plan.len(),
        forall|i: int|
            0 <= i < plan.len() ==> (#[trigger] workers[i]).is_valid() && workers[i].chunk
                == plan[i],
    ensures
        0 <= bytes_counted(workers, n) <= planned_bytes(plan, n),
    decreases n,
{
    if n > 0 {
        lemma_counted_within_planned(plan, workers, n - 1);
        assert(workers[n - 1].is_valid());
    }
}

/// The workers of a job never add more to the job's counter than the
/// resource has bytes, at whatever point each of them stands.
pub proof fn counter_stays_within_total(total: u64, chunk_size: u64, workers: Seq<WorkerView>)
    requires
        chunk_size >= 1,
        workers.len() == chunk_plan(total, chunk_size).len(),
        forall|i: int|
            0 <= i < workers.len() ==> (#[trigger] workers[i]).is_valid() && workers[i].chunk
                == chunk_plan(total, chunk_size)[i],
    ensures
        0 <= bytes_counted(workers, workers.len() as int) <= total,
{
    let plan = chunk_plan(total, chunk_size);
    lemma_counted_within_planned(plan, workers, plan.len() as int);
    plan_bytes_sum_to_total(total, chunk_size);
}

} // verus!
