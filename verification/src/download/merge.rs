use crate::download::layout::{merge_temp_path, merge_temp_text, part_file_name, part_file_text};
use crate::download::plan::{chunk_plan, plan_is_contiguous};
use crate::models::ChunkPlan;
use vstd::prelude::*;

verus! {

/// The parts put one after another, in their order.
pub open spec fn merged(parts: Seq<Seq<u8>>) -> Seq<u8>
    decreases parts.len(),
{
    if parts.len() == 0 {
        Seq::empty()
    } else {
        merged(parts.drop_last()) + parts.last()
    }
}

/// The bytes of `resource` that lie in the range of `chunk`.
pub open spec fn range_of(resource: Seq<u8>, chunk: ChunkPlan) -> Seq<u8> {
    resource.subrange(chunk.start as int, chunk.end_inclusive + 1)
}

/// The part files of a job that fetched every range of `plan` from
/// `resource`.
pub open spec fn fetched_parts(resource: Seq<u8>, plan: Seq<ChunkPlan>) -> Seq<Seq<u8>> {
    Seq::new(plan.len(), |i: int| range_of(resource, plan[i]))
}

/// The views of the parts.
pub open spec fn part_views(parts: Seq<Vec<u8>>) -> Seq<Seq<u8>> {
    Seq::new(parts.len(), |i: int| parts[i]@)
}

/// What a merge does: the parts are read in this order, written one after
/// another to `temp`, and `temp` is then renamed to `target`.
#[derive(Debug, PartialEq, Eq)]
pub struct MergePlan {
    pub temp: String,
    pub parts: Vec<String>,
    pub target: String,
}

/// Lays out the merge of `count` part files into `output`: the names of the
/// part files in index order, and the temporary file beside the output.
pub fn merge_chunks(output: &str, count: usize) -> (plan: MergePlan)
    ensures
        plan.target@ == output@,
        plan.temp@ == merge_temp_text(output@),
        plan.parts@.len() == count,
        forall|i: int| 0 <= i < count ==> (#[trigger] plan.parts@[i])@ == part_file_text(i as usize),
{
    let mut parts: Vec<String> = Vec::new();
    let mut index: usize = 0;
    while index < count
        invariant
            index <= count,
            parts@.len() == index,
            forall|i: int| 0 <= i < index ==> (#[trigger] parts@[i])@ == part_file_text(i as usize),
        decreases count - index,
    {
        parts.push(part_file_name(index));
        index = index + 1;
    }
    MergePlan { temp: merge_temp_path(output), parts, target: output.to_owned() }
}

/// Puts the contents of the part files one after another, in the order
/// given. The result depends on nothing but the parts and their order.
pub fn merge_parts(parts: &Vec<Vec<u8>>) -> (output: Vec<u8>)
    ensures
        output@ == merged(part_views(parts@)),
{
    let mut output: Vec<u8> = Vec::new();
    let mut index: usize = 0;
    while index < parts.len()
        invariant
            index <= parts.len(),
            output@ == merged(part_views(parts@).take(index as int)),
        decreases parts.len() - index,
    {
        let part = &parts[index];
        let mut k: usize = 0;
        while k < part.len()
            invariant
                index < parts.len(),
                part == &parts[index as int],
                k <= part.len(),
                output@ == merged(part_views(parts@).take(index as int)) + part@.take(k as int),
            decreases part.len() - k,
        {
            output.push(part[k]);
            proof {
                assert(part@.take(k + 1) =~= part@.take(k as int).push(part@[k as int]));
                let before = merged(part_views(parts@).take(index as int));
                assert((before + part@.take(k as int)).push(part@[k as int]) =~= before
                    + part@.take(k + 1));
            }
            k = k + 1;
        }
        proof {
            let views = part_views(parts@);
            assert(part@.take(part.len() as int) =~= part@);
            assert(views.take(index + 1).drop_last() =~= views.take(index as int));
            assert(views.take(index + 1).last() == part@);
        }
        index = index + 1;
    }
    proof {
        assert(part_views(parts@).take(index as int) =~= part_views(parts@));
    }
    output
}

proof fn lemma_merged_prefix(resource: Seq<u8>, chunk_size: u64, n: int)
    requires
        chunk_size >= 1,
        resource.len() <= u64::MAX,
        0 <= n <= chunk_plan(resource.len() as u64, chunk_size).len(),
    ensures
        ({
            let plan = chunk_plan(resource.len() as u64, chunk_size);
            merged(fetched_parts(resource, plan).take(n)) == resource.take(
                if n == 0 {
                    0
                } else {
                    plan[n - 1].end_inclusive + 1
                },
            )
        }),
    decreases n,
{
    let total = resource.len() as u64;
    let plan = chunk_plan(total, chunk_size);
    let parts = fetched_parts(resource, plan);
    plan_is_contiguous(total, chunk_size);
    if n == 0 {
        assert(merged(parts.take(0)) =~= resource.take(0));
    } else {
        lemma_merged_prefix(resource, chunk_size, n - 1);
        assert(parts.take(n).drop_last() =~= parts.take(n - 1));
        assert(parts.take(n).last() == range_of(resource, plan[n - 1]));
        let from: int = if n == 1 {
            0
        } else {
            plan[n - 2].end_inclusive + 1
        };
        if n > 1 {
            assert(plan[n - 2 + 1].start == plan[n - 2].end_inclusive + 1);
        }
        assert(plan[n - 1].start == from);
        assert(resource.take(from) + range_of(resource, plan[n - 1]) =~= resource.take(
            plan[n - 1].end_inclusive + 1,
        ));
    }
}

/// Where every part file holds the bytes of its range, the parts merged in
/// plan order are the resource, byte for byte.
pub proof fn merge_restores_resource(resource: Seq<u8>, chunk_size: u64)
    requires
        chunk_size >= 1,
        resource.len() <= u64::MAX,
    ensures
        merged(fetched_parts(resource, chunk_plan(resource.len() as u64, chunk_size)))
            == resource,
{
    let total = resource.len() as u64;
    let plan = chunk_plan(total, chunk_size);
    let parts = fetched_parts(resource, plan);
    plan_is_contiguous(total, chunk_size);
    lemma_merged_prefix(resource, chunk_size, plan.len() as int);
    assert(parts.take(plan.len() as int) =~= parts);
    if plan.len() > 0 {
        assert(resource.take(plan.last().end_inclusive + 1) =~= resource);
    } else {
        assert(resource.take(0) =~= resource);
    }
}

/// Two runs against the same resource give the same bytes, whatever their
/// job ids, their output paths and their chunk sizes.
pub proof fn reruns_give_same_bytes(resource: Seq<u8>, first_chunk_size: u64, second_chunk_size: u64)
    requires
        first_chunk_size >= 1,
        second_chunk_size >= 1,
        resource.len() <= u64::MAX,
    ensures
        merged(fetched_parts(resource, chunk_plan(resource.len() as u64, first_chunk_size)))
            == merged(
            fetched_parts(resource, chunk_plan(resource.len() as u64, second_chunk_size)),
        ),
{
    merge_restores_resource(resource, first_chunk_size);
    merge_restores_resource(resource, second_chunk_size);
}

/// The merged bytes hold the parts in their order: after the bytes of the
/// parts before it come the bytes of part `i`, as the part has them.
pub proof fn merge_keeps_plan_order(parts: Seq<Seq<u8>>, i: int, k: int)
    requires
        0 <= i < parts.len(),
        0 <= k < parts[i].len(),
    ensures
        merged(parts.take(i)).len() + parts[i].len() <= merged(parts).len(),
        merged(parts)[merged(parts.take(i)).len() + k] == parts[i][k],
    decreases parts.len(),
{
    let before = parts.drop_last();
    if i == parts.len() - 1 {
        assert(parts.take(i) =~= before);
    } else {
        merge_keeps_plan_order(before, i, k);
        assert(before.take(i) =~= parts.take(i));
    }
}

/// What a merge gives depends on the parts and their order, and on nothing
/// else.
pub proof fn merge_is_deterministic(first: Seq<Seq<u8>>, second: Seq<Seq<u8>>)
    requires
        first.len() == second.len(),
        forall|i: int| 0 <= i < first.len() ==> first[i] == second[i],
    ensures
        merged(first) == merged(second),
{
    assert(first =~= second);
}

} // verus!
