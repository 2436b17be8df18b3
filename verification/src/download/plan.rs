use crate::models::ChunkPlan;
use vstd::prelude::*;

verus! {

/// How many chunks of `chunk_size` bytes it takes to hold `total` bytes: the
/// quotient, rounded up.
pub open spec fn chunk_count(total: u64, chunk_size: u64) -> int {
    if chunk_size == 0 {
        0
    } else if total as int % chunk_size as int == 0 {
        total as int / chunk_size as int
    } else {
        total as int / chunk_size as int + 1
    }
}

/// The offset at which chunk `i` begins.
pub open spec fn chunk_start(i: int, chunk_size: u64) -> int {
    i * chunk_size
}

/// The offset of the last byte of chunk `i`: one less than the smaller of the
/// next chunk's start and the total size.
pub open spec fn chunk_end(i: int, total: u64, chunk_size: u64) -> int {
    if chunk_start(i, chunk_size) + chunk_size < total {
        chunk_start(i, chunk_size) + chunk_size - 1
    } else {
        total - 1
    }
}

/// Entry `i` of the plan for `total` bytes in chunks of `chunk_size`.
pub open spec fn planned_chunk(i: int, total: u64, chunk_size: u64) -> ChunkPlan {
    ChunkPlan {
        index: i as usize,
        start: chunk_start(i, chunk_size) as u64,
        end_inclusive: chunk_end(i, total, chunk_size) as u64,
    }
}

/// The plan for `total` bytes in chunks of `chunk_size`, in order.
pub open spec fn chunk_plan(total: u64, chunk_size: u64) -> Seq<ChunkPlan> {
    Seq::new(chunk_count(total, chunk_size) as nat, |i: int| planned_chunk(i, total, chunk_size))
}

/// The bytes that the first `n` entries of a plan hold together.
pub open spec fn planned_bytes(plan: Seq<ChunkPlan>, n: int) -> int
    decreases n,
{
    if n <= 0 {
        0
    } else {
        planned_bytes(plan, n - 1) + plan[n - 1].spec_len()
    }
}

proof fn lemma_step(i: int, chunk_size: int)
    ensures
        (i + 1) * chunk_size == i * chunk_size + chunk_size,
        (i - 1) * chunk_size == i * chunk_size - chunk_size,
{
    assert((i + 1) * chunk_size == i * chunk_size + chunk_size) by (nonlinear_arith);
    assert((i - 1) * chunk_size == i * chunk_size - chunk_size) by (nonlinear_arith);
}

proof fn lemma_starts_grow(i: int, j: int, chunk_size: int)
    requires
        i <= j,
        chunk_size >= 0,
    ensures
        i * chunk_size <= j * chunk_size,
{
    assert(i * chunk_size <= j * chunk_size) by (nonlinear_arith)
        requires
            i <= j,
            chunk_size >= 0,
    ;
}

/// The count is the one number `n` with `(n - 1) * chunk_size < total <= n * chunk_size`.
proof fn lemma_count_bounds(total: u64, chunk_size: u64)
    requires
        chunk_size >= 1,
    ensures
        chunk_count(total, chunk_size) >= 0,
        total <= chunk_count(total, chunk_size) * chunk_size,
        (chunk_count(total, chunk_size) - 1) * chunk_size < total || total == 0,
        total == 0 ==> chunk_count(total, chunk_size) == 0,
{
    let t = total as int;
    let c = chunk_size as int;
    let q = t / c;
    let r = t % c;
    assert(t == c * q + r && 0 <= r < c && q >= 0) by (nonlinear_arith)
        requires
            q == t / c,
            r == t % c,
            c >= 1,
            t >= 0,
    ;
    assert(c * q == q * c) by (nonlinear_arith);
    lemma_step(q, c);
}

/// Entry `i` is in the plan exactly when its start lies before the end of the
/// resource.
proof fn lemma_in_plan(i: int, total: u64, chunk_size: u64)
    requires
        chunk_size >= 1,
        0 <= i,
    ensures
        i < chunk_count(total, chunk_size) <==> chunk_start(i, chunk_size) < total,
{
    let n = chunk_count(total, chunk_size);
    lemma_count_bounds(total, chunk_size);
    if i < n {
        lemma_starts_grow(i, n - 1, chunk_size as int);
    } else {
        lemma_starts_grow(n, i, chunk_size as int);
    }
}

/// What entry `i` of a plan holds, without the casts of `planned_chunk`.
proof fn lemma_entry(i: int, total: u64, chunk_size: u64)
    requires
        chunk_size >= 1,
        0 <= i < chunk_count(total, chunk_size),
    ensures
        chunk_plan(total, chunk_size)[i].start == chunk_start(i, chunk_size),
        chunk_plan(total, chunk_size)[i].end_inclusive == chunk_end(i, total, chunk_size),
        0 <= chunk_start(i, chunk_size) <= chunk_end(i, total, chunk_size) < total,
        chunk_end(i, total, chunk_size) - chunk_start(i, chunk_size) < chunk_size,
        chunk_start(i + 1, chunk_size) == chunk_start(i, chunk_size) + chunk_size,
{
    lemma_in_plan(i, total, chunk_size);
    lemma_step(i, chunk_size as int);
    lemma_starts_grow(0, i, chunk_size as int);
    assert(0 * chunk_size == 0) by (nonlinear_arith);
}

/// The ranges of a plan follow one another without gap or overlap, from
/// offset zero to the last byte of the resource. A resource without bytes has
/// an empty plan, and no other has.
pub proof fn plan_is_contiguous(total: u64, chunk_size: u64)
    requires
        chunk_size >= 1,
    ensures
        ({
            let plan = chunk_plan(total, chunk_size);
            &&& plan.len() == 0 <==> total == 0
            &&& plan.len() > 0 ==> plan[0].start == 0 && plan.last().end_inclusive == total - 1
            &&& forall|i: int|
                0 <= i < plan.len() ==> (#[trigger] plan[i]).start <= plan[i].end_inclusive
                    < total
            &&& forall|i: int|
                0 <= i < plan.len() - 1 ==> (#[trigger] plan[i + 1]).start == plan[i].end_inclusive
                    + 1
        }),
{
    let plan = chunk_plan(total, chunk_size);
    let n = chunk_count(total, chunk_size);
    lemma_count_bounds(total, chunk_size);
    assert(0 * chunk_size == 0) by (nonlinear_arith);
    assert forall|i: int| 0 <= i < plan.len() implies (#[trigger] plan[i]).start
        <= plan[i].end_inclusive < total by {
        lemma_entry(i, total, chunk_size);
    }
    assert forall|i: int| 0 <= i < plan.len() - 1 implies (#[trigger] plan[i + 1]).start
        == plan[i].end_inclusive + 1 by {
        lemma_entry(i, total, chunk_size);
        lemma_entry(i + 1, total, chunk_size);
        lemma_in_plan(i + 1, total, chunk_size);
    }
    if n > 0 {
        lemma_entry(0, total, chunk_size);
        lemma_entry(n - 1, total, chunk_size);
        lemma_step(n - 1, chunk_size as int);
    }
}

proof fn lemma_prefix_bytes(total: u64, chunk_size: u64, n: int)
    requires
        chunk_size >= 1,
        0 <= n <= chunk_count(total, chunk_size),
    ensures
        planned_bytes(chunk_plan(total, chunk_size), n) == if n == chunk_count(
            total,
            chunk_size,
        ) {
            total as int
        } else {
            chunk_start(n, chunk_size)
        },
    decreases n,
{
    lemma_count_bounds(total, chunk_size);
    if n == 0 {
        assert(0 * chunk_size == 0) by (nonlinear_arith);
    } else {
        lemma_prefix_bytes(total, chunk_size, n - 1);
        lemma_entry(n - 1, total, chunk_size);
        lemma_in_plan(n, total, chunk_size);
    }
}

/// The lengths of the ranges of a plan add up to the size of the resource.
pub proof fn plan_bytes_sum_to_total(total: u64, chunk_size: u64)
    requires
        chunk_size >= 1,
    ensures
        planned_bytes(
            chunk_plan(total, chunk_size),
            chunk_plan(total, chunk_size).len() as int,
        ) == total,
{
    lemma_count_bounds(total, chunk_size);
    lemma_prefix_bytes(total, chunk_size, chunk_count(total, chunk_size));
}

/// Every byte of the resource lies in one range of the plan and in no other,
/// and the ranges hold nothing but bytes of the resource.
pub proof fn plan_covers_each_byte_once(total: u64, chunk_size: u64, offset: int)
    requires
        chunk_size >= 1,
    ensures
        ({
            let plan = chunk_plan(total, chunk_size);
            &&& 0 <= offset < total ==> exists|i: int|
                0 <= i < plan.len() && (#[trigger] plan[i]).covers(offset)
            &&& forall|i: int, j: int|
                0 <= i < plan.len() && 0 <= j < plan.len() && (#[trigger] plan[i]).covers(offset)
                    && (#[trigger] plan[j]).covers(offset) ==> i == j
            &&& forall|i: int|
                0 <= i < plan.len() && (#[trigger] plan[i]).covers(offset) ==> 0 <= offset < total
        }),
{
    let plan = chunk_plan(total, chunk_size);
    let c = chunk_size as int;
    if 0 <= offset < total {
        let w = offset / c;
        assert(offset == c * w + offset % c && 0 <= offset % c < c && w >= 0)
            by (nonlinear_arith)
            requires
                w == offset / c,
                c >= 1,
                offset >= 0,
        ;
        assert(c * w == w * c) by (nonlinear_arith);
        lemma_in_plan(w, total, chunk_size);
        lemma_entry(w, total, chunk_size);
        assert(plan[w].covers(offset));
    }
    assert forall|i: int, j: int|
        0 <= i < plan.len() && 0 <= j < plan.len() && (#[trigger] plan[i]).covers(offset) && (
        #[trigger] plan[j]).covers(offset) implies i == j by {
        lemma_entry(i, total, chunk_size);
        lemma_entry(j, total, chunk_size);
        if i < j {
            lemma_starts_grow(i + 1, j, c);
        } else if j < i {
            lemma_starts_grow(j + 1, i, c);
        }
    }
    assert forall|i: int| 0 <= i < plan.len() && (#[trigger] plan[i]).covers(offset) implies 0
        <= offset < total by {
        lemma_entry(i, total, chunk_size);
    }
}

/// A resource smaller than one chunk, and not empty, is planned as one range
/// that holds all of it.
pub proof fn plan_of_small_resource(total: u64, chunk_size: u64)
    requires
        0 < total < chunk_size,
    ensures
        chunk_plan(total, chunk_size) == seq![
            ChunkPlan { index: 0, start: 0, end_inclusive: (total - 1) as u64 },
        ],
{
    lemma_count_bounds(total, chunk_size);
    lemma_in_plan(0, total, chunk_size);
    lemma_in_plan(1, total, chunk_size);
    lemma_entry(0, total, chunk_size);
    assert(0 * chunk_size == 0) by (nonlinear_arith);
    assert(1 * chunk_size == chunk_size) by (nonlinear_arith);
    assert(chunk_plan(total, chunk_size) =~= seq![
        ChunkPlan { index: 0, start: 0, end_inclusive: (total - 1) as u64 },
    ]);
}

/// Where the size of the resource is a multiple of the chunk size, and not
/// zero, the last range is a full chunk, as is every other.
pub proof fn plan_of_whole_chunks(total: u64, chunk_size: u64)
    requires
        chunk_size >= 1,
        total > 0,
        total as int % chunk_size as int == 0,
    ensures
        ({
            let plan = chunk_plan(total, chunk_size);
            &&& plan.len() > 0
            &&& plan.last().spec_len() == chunk_size
            &&& forall|i: int| 0 <= i < plan.len() ==> (#[trigger] plan[i]).spec_len() == chunk_size
        }),
{
    let plan = chunk_plan(total, chunk_size);
    let c = chunk_size as int;
    let t = total as int;
    let n = chunk_count(total, chunk_size);
    lemma_count_bounds(total, chunk_size);
    assert(t == c * (t / c) + t % c) by (nonlinear_arith)
        requires
            c >= 1,
            t >= 0,
    ;
    assert(c * (t / c) == (t / c) * c) by (nonlinear_arith);
    assert(n * c == t);
    assert forall|i: int| 0 <= i < plan.len() implies (#[trigger] plan[i]).spec_len()
        == chunk_size by {
        lemma_entry(i, total, chunk_size);
        lemma_starts_grow(i + 1, n, c);
    }
}

/// The planner. Cuts `[0, total)` into consecutive ranges of `chunk_size`
/// bytes, the last one shorter where `total` is no multiple of `chunk_size`.
pub fn build_chunk_plan(total: u64, chunk_size: u64) -> (plans: Vec<ChunkPlan>)
    requires
        chunk_size >= 1,
    ensures
        plans@ == chunk_plan(total, chunk_size),
{
    let mut plans: Vec<ChunkPlan> = Vec::new();
    let mut start: u64 = 0;
    proof {
        lemma_count_bounds(total, chunk_size);
        assert(0 * chunk_size == 0) by (nonlinear_arith);
    }
    while start < total
        invariant
            chunk_size >= 1,
            start <= total,
            start < total ==> start == chunk_start(plans.len() as int, chunk_size),
            start == total ==> plans.len() == chunk_count(total, chunk_size),
            plans.len() <= chunk_count(total, chunk_size),
            forall|i: int|
                0 <= i < plans.len() ==> #[trigger] plans[i] == planned_chunk(
                    i,
                    total,
                    chunk_size,
                ),
        decreases total - start,
    {
        let index: usize = plans.len();
        let remaining: u64 = total - start;
        let end: u64 = if remaining <= chunk_size {
            total - 1
        } else {
            start + chunk_size - 1
        };
        proof {
            lemma_in_plan(index as int, total, chunk_size);
            lemma_in_plan(index + 1, total, chunk_size);
            lemma_step(index as int, chunk_size as int);
            lemma_count_bounds(total, chunk_size);
        }
        plans.push(ChunkPlan { index, start, end_inclusive: end });
        start = end + 1;
    }
    proof {
        lemma_count_bounds(total, chunk_size);
        assert(plans@ =~= chunk_plan(total, chunk_size));
    }
    plans
}

} // verus!
