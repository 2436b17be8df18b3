use std::collections::HashMap;
use vstd::prelude::*;

verus! {

broadcast use vstd::std_specs::hash::group_hash_axioms;

/// How far one chunk of one job has come: the bytes that its part file holds,
/// and whether the whole range is there.
#[derive(Debug, PartialEq, Eq)]
pub struct ChunkState {
    pub download_id: String,
    pub chunk_index: usize,
    pub downloaded: u64,
    pub complete: bool,
}

/// The mathematical value of a `ChunkState`.
pub struct ChunkStateView {
    pub download_id: Seq<char>,
    pub chunk_index: usize,
    pub downloaded: u64,
    pub complete: bool,
}

impl View for ChunkState {
    type V = ChunkStateView;

    open spec fn view(&self) -> ChunkStateView {
        ChunkStateView {
            download_id: self.download_id@,
            chunk_index: self.chunk_index,
            downloaded: self.downloaded,
            complete: self.complete,
        }
    }
}

impl Clone for ChunkState {
    fn clone(&self) -> (copy: Self)
        ensures
            copy == *self,
    {
        ChunkState {
            download_id: self.download_id.clone(),
            chunk_index: self.chunk_index,
            downloaded: self.downloaded,
            complete: self.complete,
        }
    }
}

/// A progress row as the store keeps it: the job's id as text and three
/// signed 64-bit integers.
#[derive(Debug, PartialEq, Eq)]
pub struct ChunkRow {
    pub download_id: String,
    pub chunk_index: i64,
    pub downloaded: i64,
    pub complete: i64,
}

/// The stored form of a chunk index: its low 64 bits, read as signed.
pub open spec fn stored_index(index: usize) -> i64 {
    index as i64
}

/// The stored form of a byte count: the same 64 bits, read as signed.
pub open spec fn stored_count(count: u64) -> i64 {
    count as i64
}

/// The stored form of the completion flag: one for true, zero for false.
pub open spec fn stored_flag(flag: bool) -> i64 {
    if flag {
        1
    } else {
        0
    }
}

/// The chunk index that a stored integer stands for.
pub open spec fn loaded_index(stored: i64) -> usize {
    stored as usize
}

/// The byte count that a stored integer stands for.
pub open spec fn loaded_count(stored: i64) -> u64 {
    stored as u64
}

/// The completion flag that a stored integer stands for: true for one, false
/// for every other number.
pub open spec fn loaded_flag(stored: i64) -> bool {
    stored == 1
}

impl ChunkState {
    /// The row that is written to the store for this state.
    pub fn to_row(&self) -> (row: ChunkRow)
        ensures
            row.download_id@ == self.download_id@,
            row.chunk_index == stored_index(self.chunk_index),
            row.downloaded == stored_count(self.downloaded),
            row.complete == stored_flag(self.complete),
    {
        ChunkRow {
            download_id: self.download_id.clone(),
            chunk_index: self.chunk_index as i64,
            downloaded: self.downloaded as i64,
            complete: if self.complete {
                1
            } else {
                0
            },
        }
    }

    /// The state that a row read from the store stands for.
    pub fn from_row(row: ChunkRow) -> (state: ChunkState)
        ensures
            state.download_id@ == row.download_id@,
            state.chunk_index == loaded_index(row.chunk_index),
            state.downloaded == loaded_count(row.downloaded),
            state.complete == loaded_flag(row.complete),
    {
        ChunkState {
            download_id: row.download_id,
            chunk_index: row.chunk_index as usize,
            downloaded: row.downloaded as u64,
            complete: row.complete == 1,
        }
    }
}

/// What is written for a state is read back as that state: the index, the
/// byte count and the flag all survive the stored form.
pub proof fn row_round_trip(chunk_index: usize, downloaded: u64, complete: bool)
    ensures
        loaded_index(stored_index(chunk_index)) == chunk_index,
        loaded_count(stored_count(downloaded)) == downloaded,
        loaded_flag(stored_flag(complete)) == complete,
{
    assert((downloaded as i64) as u64 == downloaded) by (bit_vector);
    assert((chunk_index as i64) as usize == chunk_index) by (bit_vector);
}

/// The rows of one job by the index of their chunk; of two rows for one chunk
/// the later stands.
pub open spec fn rows_by_chunk(rows: Seq<ChunkState>) -> Map<usize, ChunkState>
    decreases rows.len(),
{
    if rows.len() == 0 {
        Map::empty()
    } else {
        rows_by_chunk(rows.drop_last()).insert(rows.last().chunk_index, rows.last())
    }
}

/// The row that an earlier run left for the chunk `index`, where it left one.
pub open spec fn row_for_chunk(rows: Seq<ChunkState>, index: usize) -> Option<ChunkStateView> {
    if rows_by_chunk(rows).contains_key(index) {
        Some(rows_by_chunk(rows)[index]@)
    } else {
        None
    }
}

/// Orders the rows of one job by the index of their chunk.
pub fn index_by_chunk(rows: &Vec<ChunkState>) -> (by_chunk: HashMap<usize, ChunkState>)
    ensures
        by_chunk@ == rows_by_chunk(rows@),
{
    let mut by_chunk: HashMap<usize, ChunkState> = HashMap::new();
    let mut i: usize = 0;
    while i < rows.len()
        invariant
            i <= rows.len(),
            by_chunk@ == rows_by_chunk(rows@.take(i as int)),
        decreases rows.len() - i,
    {
        let row = rows[i].clone();
        proof {
            assert(rows@.take(i + 1).drop_last() =~= rows@.take(i as int));
            assert(rows@.take(i + 1).last() == rows@[i as int]);
        }
        by_chunk.insert(row.chunk_index, row);
        i = i + 1;
    }
    proof {
        assert(rows@.take(i as int) =~= rows@);
    }
    by_chunk
}

/// Of the rows of one job the last that was written for a chunk is the one
/// that is found for it, and the rows of the other chunks are found as
/// before.
pub proof fn last_row_stands(rows: Seq<ChunkState>, row: ChunkState, other: usize)
    ensures
        row_for_chunk(rows.push(row), row.chunk_index) == Some(row@),
        other != row.chunk_index ==> row_for_chunk(rows.push(row), other) == row_for_chunk(
            rows,
            other,
        ),
{
    assert(rows.push(row).drop_last() =~= rows);
}

} // verus!
