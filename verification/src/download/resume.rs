use crate::db::ChunkStateView;
use crate::download::merge::{fetched_parts, merge_restores_resource, merged, range_of};
use crate::download::plan::{chunk_plan, plan_is_contiguous};
use crate::download::worker::{bytes_on_record, worker_start, StartView};
use crate::models::ChunkPlan;
use vstd::prelude::*;

verus! {

/// Whether a part file and the row of its chunk fit what an earlier run of
/// the job can have left behind: the part file holds bytes from the start of
/// the chunk's range and no others, the bytes on record are among them, and
/// a row that says complete has the whole range beside it.
pub open spec fn left_by_earlier_run(
    resource: Seq<u8>,
    chunk: ChunkPlan,
    prior: Option<ChunkStateView>,
    held: Seq<u8>,
) -> bool {
    let range = range_of(resource, chunk);
    &&& held.len() <= range.len()
    &&& held == range.take(held.len() as int)
    &&& bytes_on_record(prior) <= held.len()
    &&& (prior matches Some(row) && row.complete) ==> held == range
}

/// What the part file holds once the worker that began with `start` has run
/// to its end: what it held, where nothing is fetched; else what it held up
/// to the bytes on record, and after that the bytes that the worker asked
/// for.
pub open spec fn part_after_run(resource: Seq<u8>, held: Seq<u8>, start: StartView) -> Seq<u8> {
    match start {
        StartView::Skip => held,
        StartView::AlreadyFetched(_) => held,
        StartView::Fetch(worker) => held.take(worker.resumed_at as int) + resource.subrange(
            worker.chunk.start + worker.downloaded,
            worker.chunk.end_inclusive + 1,
        ),
    }
}

/// The worker of a chunk, run again over what an earlier run left behind,
/// leaves the part file with the bytes of the chunk's range: what a run from
/// nothing leaves.
pub proof fn resumed_part_is_whole(
    resource: Seq<u8>,
    download_id: Seq<char>,
    chunk: ChunkPlan,
    prior: Option<ChunkStateView>,
    held: Seq<u8>,
)
    requires
        chunk.is_valid(),
        chunk.end_inclusive < resource.len(),
        left_by_earlier_run(resource, chunk, prior, held),
    ensures
        part_after_run(resource, held, worker_start(download_id, chunk, prior)) == range_of(
            resource,
            chunk,
        ),
        part_after_run(resource, held, worker_start(download_id, chunk, prior))
            == part_after_run(resource, Seq::empty(), worker_start(download_id, chunk, None)),
{
    let range = range_of(resource, chunk);
    let on_record = bytes_on_record(prior);
    assert(range.len() == chunk.spec_len());
    match worker_start(download_id, chunk, prior) {
        StartView::Skip => {},
        StartView::AlreadyFetched(_) => {
            assert(held.len() == range.len());
            assert(range.take(range.len() as int) =~= range);
        },
        StartView::Fetch(worker) => {
            assert(held.take(on_record as int) =~= range.take(on_record as int));
            assert(range.take(on_record as int) + resource.subrange(
                chunk.start + on_record,
                chunk.end_inclusive + 1,
            ) =~= range);
        },
    }
    assert(Seq::<u8>::empty().take(0) + resource.subrange(
        chunk.start + 0,
        chunk.end_inclusive + 1,
    ) =~= range);
}

/// The part files of a job once every worker has run to its end over what an
/// earlier run left behind.
pub open spec fn parts_after_rerun(
    resource: Seq<u8>,
    download_id: Seq<char>,
    plan: Seq<ChunkPlan>,
    priors: Seq<Option<ChunkStateView>>,
    held: Seq<Seq<u8>>,
) -> Seq<Seq<u8>> {
    Seq::new(
        plan.len(),
        |i: int| part_after_run(resource, held[i], worker_start(download_id, plan[i], priors[i])),
    )
}

/// A job that is run again after it was cut short, at whatever point, gives
/// the bytes that a run without a break gives: those of the resource.
pub proof fn rerun_gives_same_output(
    resource: Seq<u8>,
    chunk_size: u64,
    download_id: Seq<char>,
    priors: Seq<Option<ChunkStateView>>,
    held: Seq<Seq<u8>>,
)
    requires
        chunk_size >= 1,
        resource.len() <= u64::MAX,
        priors.len() == chunk_plan(resource.len() as u64, chunk_size).len(),
        held.len() == priors.len(),
        forall|i: int|
            0 <= i < priors.len() ==> left_by_earlier_run(
                resource,
                #[trigger] chunk_plan(resource.len() as u64, chunk_size)[i],
                priors[i],
                held[i],
            ),
    ensures
        ({
            let plan = chunk_plan(resource.len() as u64, chunk_size);
            &&& parts_after_rerun(resource, download_id, plan, priors, held) == fetched_parts(
                resource,
                plan,
            )
            &&& merged(parts_after_rerun(resource, download_id, plan, priors, held)) == resource
        }),
{
    let total = resource.len() as u64;
    let plan = chunk_plan(total, chunk_size);
    plan_is_contiguous(total, chunk_size);
    assert forall|i: int| 0 <= i < plan.len() implies parts_after_rerun(
        resource,
        download_id,
        plan,
        priors,
        held,
    )[i] == fetched_parts(resource, plan)[i] by {
        let chunk = plan[i];
        assert(chunk.start <= chunk.end_inclusive < total);
        resumed_part_is_whole(resource, download_id, chunk, priors[i], held[i]);
    }
    assert(parts_after_rerun(resource, download_id, plan, priors, held) =~= fetched_parts(
        resource,
        plan,
    ));
    merge_restores_resource(resource, chunk_size);
}

} // verus!
