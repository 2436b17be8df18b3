use netdout::db::{index_by_chunk, ChunkRow, ChunkState};

fn state_of(id: &str, index: usize, downloaded: u64, complete: bool) -> ChunkState {
    ChunkState { download_id: id.to_string(), chunk_index: index, downloaded, complete }
}

#[test]
fn row_of_a_state() {
    let row = state_of("d1", 0, 42, false).to_row();
    assert_eq!(
        row,
        ChunkRow { download_id: "d1".to_string(), chunk_index: 0, downloaded: 42, complete: 0 }
    );
    let done = state_of("d1", 3, 4096, true).to_row();
    assert_eq!(
        done,
        ChunkRow { download_id: "d1".to_string(), chunk_index: 3, downloaded: 4096, complete: 1 }
    );
}

#[test]
fn state_of_a_row() {
    let read = ChunkState::from_row(ChunkRow {
        download_id: "d1".to_string(),
        chunk_index: 0,
        downloaded: 42,
        complete: 0,
    });
    assert_eq!(read, state_of("d1", 0, 42, false));
    assert_eq!(read.downloaded, 42);
    assert!(!read.complete);
}

#[test]
fn flag_is_true_for_one_alone() {
    for (stored, flag) in [(0i64, false), (1, true), (2, false), (-1, false), (i64::MAX, false)] {
        let read = ChunkState::from_row(ChunkRow {
            download_id: "d".to_string(),
            chunk_index: 1,
            downloaded: 1,
            complete: stored,
        });
        assert_eq!(read.complete, flag);
    }
}

#[test]
fn written_state_is_read_back() {
    for index in [0usize, 1, 77, usize::MAX] {
        for downloaded in [0u64, 42, 1 << 40, i64::MAX as u64, (i64::MAX as u64) + 1, u64::MAX] {
            for complete in [false, true] {
                let written = state_of("d1", index, downloaded, complete);
                assert_eq!(ChunkState::from_row(written.to_row()), written);
            }
        }
    }
}

#[test]
fn large_counts_are_stored_as_negative_numbers() {
    assert_eq!(state_of("d", 0, u64::MAX, false).to_row().downloaded, -1);
    assert_eq!(state_of("d", 0, (i64::MAX as u64) + 1, false).to_row().downloaded, i64::MIN);
}

#[test]
fn rows_are_found_by_their_chunk() {
    let rows = vec![state_of("d1", 2, 5, false), state_of("d1", 0, 4, true)];
    let by_chunk = index_by_chunk(&rows);
    assert_eq!(by_chunk.len(), 2);
    assert_eq!(by_chunk.get(&0), Some(&state_of("d1", 0, 4, true)));
    assert_eq!(by_chunk.get(&2), Some(&state_of("d1", 2, 5, false)));
    assert_eq!(by_chunk.get(&1), None);
}

#[test]
fn of_two_rows_for_one_chunk_the_later_stands() {
    let rows = vec![state_of("d1", 1, 1, false), state_of("d1", 1, 3, false), state_of("d1", 0, 9, true)];
    let by_chunk = index_by_chunk(&rows);
    assert_eq!(by_chunk.len(), 2);
    assert_eq!(by_chunk.get(&1), Some(&state_of("d1", 1, 3, false)));
}

#[test]
fn no_rows_no_index() {
    assert!(index_by_chunk(&Vec::new()).is_empty());
}
