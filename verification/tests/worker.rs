use netdout::db::ChunkState;
use netdout::download::worker::{ChunkWorker, WorkerStart};
use netdout::error::DownloadError;
use netdout::models::ChunkPlan;

fn chunk(index: usize, start: u64, end_inclusive: u64) -> ChunkPlan {
    ChunkPlan { index, start, end_inclusive }
}

fn progress_row(index: usize, downloaded: u64, complete: bool) -> ChunkState {
    ChunkState { download_id: "d1".to_string(), chunk_index: index, downloaded, complete }
}

fn fetching(begin: WorkerStart) -> ChunkWorker {
    match begin {
        WorkerStart::Fetch(worker) => worker,
        other => panic!("the worker does not fetch: {:?}", other),
    }
}

#[test]
fn worker_without_a_row_fetches_the_whole_range() {
    let worker = fetching(ChunkWorker::start("d1", chunk(1, 4, 7), None));
    assert_eq!(worker.download_id(), "d1");
    assert_eq!(worker.chunk(), chunk(1, 4, 7));
    assert_eq!(worker.resumed_at(), 0);
    assert_eq!(worker.downloaded(), 0);
    assert_eq!(worker.range_start(), 4);
    assert_eq!(worker.range_end(), 7);
    assert_eq!(worker.range_header(), "bytes=4-7");
    assert!(!worker.is_full());
}

#[test]
fn worker_skips_a_complete_chunk() {
    let prior = progress_row(0, 4, true);
    assert_eq!(ChunkWorker::start("d1", chunk(0, 0, 3), Some(&prior)), WorkerStart::Skip);
    let odd = progress_row(0, 1, true);
    assert_eq!(ChunkWorker::start("d1", chunk(0, 0, 3), Some(&odd)), WorkerStart::Skip);
}

#[test]
fn worker_resumes_after_the_bytes_on_record() {
    let prior = progress_row(1, 2, false);
    let worker = fetching(ChunkWorker::start("d1", chunk(1, 4, 7), Some(&prior)));
    assert_eq!(worker.resumed_at(), 2);
    assert_eq!(worker.downloaded(), 2);
    assert_eq!(worker.range_start(), 6);
    assert_eq!(worker.range_header(), "bytes=6-7");
}

#[test]
fn worker_records_a_chunk_that_is_all_there() {
    let prior = progress_row(1, 4, false);
    assert_eq!(
        ChunkWorker::start("d1", chunk(1, 4, 7), Some(&prior)),
        WorkerStart::AlreadyFetched(progress_row(1, 4, true))
    );
    let beyond = progress_row(1, 9, false);
    assert_eq!(
        ChunkWorker::start("d1", chunk(1, 4, 7), Some(&beyond)),
        WorkerStart::AlreadyFetched(progress_row(1, 9, true))
    );
    let huge = progress_row(1, u64::MAX, false);
    assert_eq!(
        ChunkWorker::start("d1", chunk(1, 4, 7), Some(&huge)),
        WorkerStart::AlreadyFetched(progress_row(1, u64::MAX, true))
    );
}

#[test]
fn worker_resumes_at_the_last_byte() {
    let prior = progress_row(1, 3, false);
    let worker = fetching(ChunkWorker::start("d1", chunk(1, 4, 7), Some(&prior)));
    assert_eq!(worker.range_header(), "bytes=7-7");
}

#[test]
fn worker_counts_buffers_and_writes_rows() {
    let mut worker = fetching(ChunkWorker::start("d1", chunk(2, 8, 11), None));
    assert_eq!(worker.receive(3), Ok(progress_row(2, 3, false)));
    assert_eq!(worker.downloaded(), 3);
    assert_eq!(worker.range_start(), 11);
    assert_eq!(worker.receive(0), Ok(progress_row(2, 3, false)));
    assert_eq!(worker.receive(1), Ok(progress_row(2, 4, false)));
    assert!(worker.is_full());
    assert_eq!(worker.resumed_at(), 0);
    assert_eq!(worker.finish(), Ok(progress_row(2, 4, true)));
}

#[test]
fn worker_refuses_more_than_the_range() {
    let mut worker = fetching(ChunkWorker::start("d1", chunk(2, 8, 11), None));
    assert_eq!(worker.receive(5), Err(DownloadError::RangeOverrun(2)));
    assert_eq!(worker.downloaded(), 0);
    assert_eq!(worker.receive(4), Ok(progress_row(2, 4, false)));
    assert_eq!(worker.receive(1), Err(DownloadError::RangeOverrun(2)));
    assert_eq!(worker.downloaded(), 4);
    assert_eq!(worker.receive(usize::MAX), Err(DownloadError::RangeOverrun(2)));
    assert_eq!(worker.finish(), Ok(progress_row(2, 4, true)));
}

#[test]
fn worker_fails_on_a_stream_that_ends_early() {
    let mut worker = fetching(ChunkWorker::start("d1", chunk(2, 8, 11), None));
    assert_eq!(worker.finish(), Err(DownloadError::RangeTruncated(2)));
    assert_eq!(worker.receive(3), Ok(progress_row(2, 3, false)));
    assert_eq!(worker.finish(), Err(DownloadError::RangeTruncated(2)));
}

#[test]
fn worker_of_a_resumed_chunk_counts_from_the_record() {
    let prior = progress_row(1, 2, false);
    let mut worker = fetching(ChunkWorker::start("d1", chunk(1, 4, 7), Some(&prior)));
    assert_eq!(worker.receive(3), Err(DownloadError::RangeOverrun(1)));
    assert_eq!(worker.receive(2), Ok(progress_row(1, 4, false)));
    assert_eq!(worker.resumed_at(), 2);
    assert_eq!(worker.finish(), Ok(progress_row(1, 4, true)));
}

#[test]
fn worker_of_a_chunk_of_one_byte() {
    let mut worker = fetching(ChunkWorker::start("job", chunk(0, 0, 0), None));
    assert_eq!(worker.range_header(), "bytes=0-0");
    let written = worker.receive(1).unwrap();
    assert_eq!(written.download_id, "job");
    assert_eq!(written.downloaded, 1);
    assert!(worker.is_full());
}

#[test]
fn worker_of_the_largest_chunk() {
    let all = chunk(0, 0, u64::MAX - 1);
    let mut worker = fetching(ChunkWorker::start("d1", all, None));
    assert_eq!(worker.range_header(), "bytes=0-18446744073709551614");
    assert_eq!(worker.receive(usize::MAX).is_ok(), (usize::MAX as u128) <= (u64::MAX as u128));
    let prior = progress_row(0, u64::MAX - 1, false);
    let mut last = fetching(ChunkWorker::start("d1", all, Some(&prior)));
    assert_eq!(last.range_start(), u64::MAX - 1);
    assert_eq!(last.receive(2), Err(DownloadError::RangeOverrun(0)));
    assert_eq!(last.receive(1), Ok(progress_row(0, u64::MAX, false)));
    assert_eq!(last.finish(), Ok(progress_row(0, u64::MAX, true)));
}
