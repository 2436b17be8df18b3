use netdout::db::ChunkState;
use netdout::download::merge::merge_parts;
use netdout::download::runner::{download_chunked, first_error, select_path, DownloadPath};
use netdout::download::worker::WorkerStart;
use netdout::error::DownloadError;
use netdout::models::ChunkPlan;
use netdout::network::RemoteMetadata;
use netdout::scheduler::AdaptiveScheduler;

fn row_of(index: usize, downloaded: u64, complete: bool) -> ChunkState {
    ChunkState { download_id: "d1".to_string(), chunk_index: index, downloaded, complete }
}

/// Stands in for the remote: the bytes that a range header asks for.
fn serve(resource: &[u8], header: &str) -> Vec<u8> {
    let range = header.strip_prefix("bytes=").unwrap();
    let (start, end) = range.split_once('-').unwrap();
    let start: usize = start.parse().unwrap();
    let end: usize = end.parse().unwrap();
    resource[start..=end].to_vec()
}

/// Runs every worker of a job to its end over the part files given, and gives
/// back the range headers that were sent and the rows that were written.
fn run_workers(
    resource: &[u8],
    starts: Vec<WorkerStart>,
    parts: &mut Vec<Vec<u8>>,
    buffer: usize,
) -> (Vec<String>, Vec<ChunkState>, u64) {
    let mut headers = Vec::new();
    let mut rows = Vec::new();
    let mut counted = 0u64;
    for (i, start) in starts.into_iter().enumerate() {
        match start {
            WorkerStart::Skip => {}
            WorkerStart::AlreadyFetched(done) => rows.push(done),
            WorkerStart::Fetch(mut worker) => {
                parts[i].truncate(worker.resumed_at() as usize);
                let header = worker.range_header();
                let body = serve(resource, &header);
                headers.push(header);
                for piece in body.chunks(buffer) {
                    let written = worker.receive(piece.len()).unwrap();
                    parts[i].extend_from_slice(piece);
                    assert_eq!(written.downloaded as usize, parts[i].len());
                    assert!(!written.complete);
                    rows.push(written);
                    counted += piece.len() as u64;
                }
                rows.push(worker.finish().unwrap());
            }
        }
    }
    (headers, rows, counted)
}

#[test]
fn path_by_what_the_probe_learned() {
    let chunked = RemoteMetadata { content_length: Some(9), range_supported: true };
    assert_eq!(select_path(&chunked), DownloadPath::Chunked(9));
    let no_ranges = RemoteMetadata { content_length: Some(9), range_supported: false };
    assert_eq!(select_path(&no_ranges), DownloadPath::SingleShot);
    let no_size = RemoteMetadata { content_length: None, range_supported: true };
    assert_eq!(select_path(&no_size), DownloadPath::SingleShot);
    let nothing = RemoteMetadata { content_length: None, range_supported: false };
    assert_eq!(select_path(&nothing), DownloadPath::SingleShot);
}

#[test]
fn empty_resource_is_fetched_in_one_request() {
    let empty = RemoteMetadata { content_length: Some(0), range_supported: true };
    assert_eq!(select_path(&empty), DownloadPath::SingleShot);
    let one = RemoteMetadata { content_length: Some(1), range_supported: true };
    assert_eq!(select_path(&one), DownloadPath::Chunked(1));
}

#[test]
fn job_goes_on_where_no_worker_failed() {
    assert_eq!(first_error(&vec![]), Ok(()));
    assert_eq!(first_error(&vec![Ok(()), Ok(()), Ok(())]), Ok(()));
}

#[test]
fn job_fails_with_the_first_error() {
    let results = vec![
        Ok(()),
        Err(DownloadError::Network("reset".to_string())),
        Ok(()),
        Err(DownloadError::Io("disk full".to_string())),
    ];
    assert_eq!(first_error(&results), Err(DownloadError::Network("reset".to_string())));
    let last = vec![Ok(()), Ok(()), Err(DownloadError::RangeTruncated(2))];
    assert_eq!(first_error(&last), Err(DownloadError::RangeTruncated(2)));
    let only = vec![Err(DownloadError::Store("locked".to_string()))];
    assert_eq!(first_error(&only), Err(DownloadError::Store("locked".to_string())));
}

#[test]
fn chunked_job_is_laid_out() {
    let scheduler = AdaptiveScheduler::new(8);
    let job = download_chunked("d1", "/tmp/out.bin", 9, 4, &scheduler, &Vec::new());
    assert_eq!(
        job.chunks,
        vec![
            ChunkPlan { index: 0, start: 0, end_inclusive: 3 },
            ChunkPlan { index: 1, start: 4, end_inclusive: 7 },
            ChunkPlan { index: 2, start: 8, end_inclusive: 8 },
        ]
    );
    assert_eq!(job.parallelism, 1);
    assert_eq!(job.starts.len(), 3);
    assert_eq!(job.merge.target, "/tmp/out.bin");
    assert_eq!(job.merge.temp, "/tmp/out.bin.download_tmp");
    assert_eq!(job.merge.parts, vec!["chunk-0.part", "chunk-1.part", "chunk-2.part"]);
}

#[test]
fn chunked_job_takes_its_workers_from_the_scheduler() {
    let scheduler = AdaptiveScheduler::new(8);
    let mib: u64 = 1024 * 1024;
    assert_eq!(download_chunked("d", "o", 16 * mib, 2 * mib, &scheduler, &Vec::new()).parallelism, 4);
    assert_eq!(download_chunked("d", "o", 128 * mib, 2 * mib, &scheduler, &Vec::new()).parallelism, 8);
    assert_eq!(download_chunked("d", "o", 128 * mib, 2 * mib, &scheduler, &Vec::new()).chunks.len(), 64);
}

#[test]
fn full_job_fetches_three_ranges_and_merges_them() {
    let resource: Vec<u8> = vec![10, 11, 12, 13, 14, 15, 16, 17, 18];
    let scheduler = AdaptiveScheduler::new(8);
    let job = download_chunked("d1", "out", resource.len() as u64, 4, &scheduler, &Vec::new());
    let mut parts = vec![Vec::new(); job.chunks.len()];
    let (headers, rows, counted) = run_workers(&resource, job.starts, &mut parts, 3);
    assert_eq!(headers, vec!["bytes=0-3", "bytes=4-7", "bytes=8-8"]);
    assert_eq!(counted, 9);
    assert_eq!(rows.last().unwrap(), &row_of(2, 1, true));
    assert!(rows.contains(&row_of(0, 4, true)));
    assert!(rows.contains(&row_of(1, 4, true)));
    assert_eq!(merge_parts(&parts), resource);
}

#[test]
fn resumed_job_fetches_what_is_missing() {
    let resource: Vec<u8> = vec![10, 11, 12, 13, 14, 15, 16, 17, 18];
    let scheduler = AdaptiveScheduler::new(8);
    let left = vec![row_of(0, 4, true), row_of(1, 2, false)];
    let job = download_chunked("d1", "out", 9, 4, &scheduler, &left);
    assert_eq!(job.starts[0], WorkerStart::Skip);
    let mut parts = vec![vec![10u8, 11, 12, 13], vec![14, 15], Vec::new()];
    let (headers, rows, counted) = run_workers(&resource, job.starts, &mut parts, 64);
    assert_eq!(headers, vec!["bytes=6-7", "bytes=8-8"]);
    assert_eq!(counted, 3);
    assert_eq!(
        rows,
        vec![row_of(1, 4, false), row_of(1, 4, true), row_of(2, 1, false), row_of(2, 1, true)]
    );
    assert_eq!(merge_parts(&parts), resource);
}

#[test]
fn resumed_job_gives_the_bytes_of_a_run_without_a_break() {
    let resource: Vec<u8> = (0u8..23).collect();
    let scheduler = AdaptiveScheduler::new(4);
    let fresh = download_chunked("a", "out-a", 23, 5, &scheduler, &Vec::new());
    let mut fresh_parts = vec![Vec::new(); fresh.chunks.len()];
    run_workers(&resource, fresh.starts, &mut fresh_parts, 2);
    let whole = merge_parts(&fresh_parts);
    assert_eq!(whole, resource);

    let left = vec![row_of(0, 5, true), row_of(1, 5, false), row_of(2, 3, false), row_of(4, 0, false)];
    let mut parts = vec![
        resource[0..5].to_vec(),
        resource[5..10].to_vec(),
        resource[10..14].to_vec(),
        resource[15..16].to_vec(),
        Vec::new(),
    ];
    let again = download_chunked("d1", "out-b", 23, 5, &scheduler, &left);
    assert_eq!(again.starts[1], WorkerStart::AlreadyFetched(row_of(1, 5, true)));
    let (headers, _, counted) = run_workers(&resource, again.starts, &mut parts, 2);
    assert_eq!(headers, vec!["bytes=13-14", "bytes=15-19", "bytes=20-22"]);
    assert_eq!(counted, 10);
    assert_eq!(merge_parts(&parts), whole);
}

#[test]
fn second_job_for_the_same_resource_gives_the_same_bytes() {
    let resource: Vec<u8> = (0u8..50).map(|b| b.wrapping_mul(7)).collect();
    let scheduler = AdaptiveScheduler::new(8);
    let mut outputs = Vec::new();
    for (id, output, chunk_size) in [("first", "/tmp/a", 8u64), ("second", "/tmp/b", 8), ("third", "/tmp/c", 13)] {
        let job = download_chunked(id, output, 50, chunk_size, &scheduler, &Vec::new());
        let mut parts = vec![Vec::new(); job.chunks.len()];
        run_workers(&resource, job.starts, &mut parts, 5);
        outputs.push(merge_parts(&parts));
    }
    assert_eq!(outputs[0], resource);
    assert_eq!(outputs[0], outputs[1]);
    assert_eq!(outputs[0], outputs[2]);
}

#[test]
fn rows_of_the_later_run_stand_for_each_chunk() {
    let scheduler = AdaptiveScheduler::new(8);
    let left = vec![row_of(1, 1, false), row_of(1, 3, false)];
    let job = download_chunked("d1", "out", 9, 4, &scheduler, &left);
    match &job.starts[1] {
        WorkerStart::Fetch(worker) => assert_eq!(worker.range_header(), "bytes=7-7"),
        other => panic!("the worker does not fetch: {:?}", other),
    }
}
