use crate::db::{ChunkState, ChunkStateView};
use crate::error::{DownloadError, ErrorView};
use crate::models::ChunkPlan;
use crate::network::{range_header, range_header_text};
use vstd::prelude::*;

verus! {

/// The worker of one chunk while it fetches: whose chunk it is, how many bytes
/// the part file held when this run began, and how many it holds now.
#[derive(Debug, PartialEq, Eq)]
pub struct ChunkWorker {
    download_id: String,
    chunk: ChunkPlan,
    resumed_at: u64,
    downloaded: u64,
}

/// The mathematical value of a `ChunkWorker`.
pub struct WorkerView {
    pub download_id: Seq<char>,
    pub chunk: ChunkPlan,
    pub resumed_at: u64,
    pub downloaded: u64,
}

impl WorkerView {
    /// The part file never holds more than the chunk's range, nor less than
    /// it held when the run began.
    pub open spec fn is_valid(self) -> bool {
        &&& self.chunk.is_valid()
        &&& self.resumed_at <= self.downloaded <= self.chunk.spec_len()
    }

    /// The progress row for the bytes held now.
    pub open spec fn row(self, complete: bool) -> ChunkStateView {
        ChunkStateView {
            download_id: self.download_id,
            chunk_index: self.chunk.index,
            downloaded: self.downloaded,
            complete,
        }
    }

    /// The worker after `len` more bytes.
    pub open spec fn after(self, len: int) -> WorkerView {
        WorkerView { downloaded: (self.downloaded + len) as u64, ..self }
    }

    /// Whether the whole range is there.
    pub open spec fn is_full(self) -> bool {
        self.downloaded == self.chunk.spec_len()
    }
}

impl View for ChunkWorker {
    type V = WorkerView;

    closed spec fn view(&self) -> WorkerView {
        WorkerView {
            download_id: self.download_id@,
            chunk: self.chunk,
            resumed_at: self.resumed_at,
            downloaded: self.downloaded,
        }
    }
}

/// What a worker does first.
#[derive(Debug, PartialEq, Eq)]
pub enum WorkerStart {
    /// An earlier run completed the chunk: nothing is left to do.
    Skip,
    /// The part file holds the whole range already: this row, which records
    /// the chunk as complete, is written to the store, and nothing is fetched.
    AlreadyFetched(ChunkState),
    /// The worker fetches what is missing.
    Fetch(ChunkWorker),
}

/// The mathematical value of a `WorkerStart`.
pub enum StartView {
    Skip,
    AlreadyFetched(ChunkStateView),
    Fetch(WorkerView),
}

impl View for WorkerStart {
    type V = StartView;

    open spec fn view(&self) -> StartView {
        match *self {
            WorkerStart::Skip => StartView::Skip,
            WorkerStart::AlreadyFetched(row) => StartView::AlreadyFetched(row@),
            WorkerStart::Fetch(worker) => StartView::Fetch(worker@),
        }
    }
}

/// The view of a row that may be there.
pub open spec fn row_view(row: Option<&ChunkState>) -> Option<ChunkStateView> {
    match row {
        Some(state) => Some(state@),
        None => None,
    }
}

/// The bytes that the part file holds according to the row of an earlier run:
/// none where there is no row.
pub open spec fn bytes_on_record(prior: Option<ChunkStateView>) -> u64 {
    match prior {
        Some(row) => row.downloaded,
        None => 0,
    }
}

/// How a worker begins. A chunk whose row says complete is skipped. Else the
/// bytes on record count as fetched: where they reach past the end of the
/// range the chunk is recorded as complete, and where they do not the worker
/// fetches from the first byte that is missing.
pub open spec fn worker_start(
    download_id: Seq<char>,
    chunk: ChunkPlan,
    prior: Option<ChunkStateView>,
) -> StartView {
    let downloaded = bytes_on_record(prior);
    if prior is Some && prior->0.complete {
        StartView::Skip
    } else if chunk.start + downloaded > chunk.end_inclusive {
        StartView::AlreadyFetched(
            ChunkStateView {
                download_id,
                chunk_index: chunk.index,
                downloaded,
                complete: true,
            },
        )
    } else {
        StartView::Fetch(WorkerView { download_id, chunk, resumed_at: downloaded, downloaded })
    }
}

impl ChunkWorker {
    #[verifier::type_invariant]
    spec fn well_formed(self) -> bool {
        self@.is_valid()
    }

    /// Decides how the worker of `chunk` begins, given the row that an earlier
    /// run of the job left for it, if any.
    pub fn start(download_id: &str, chunk: ChunkPlan, prior: Option<&ChunkState>) -> (begin:
        WorkerStart)
        requires
            chunk.is_valid(),
        ensures
            begin@ == worker_start(download_id@, chunk, row_view(prior)),
            begin matches WorkerStart::Fetch(worker) ==> worker@.is_valid(),
    {
        let downloaded: u64 = match prior {
            Some(row) => {
                if row.complete {
                    return WorkerStart::Skip;
                }
                row.downloaded
            },
            None => 0,
        };
        if downloaded > chunk.end_inclusive - chunk.start {
            WorkerStart::AlreadyFetched(
                ChunkState {
                    download_id: download_id.to_owned(),
                    chunk_index: chunk.index,
                    downloaded,
                    complete: true,
                },
            )
        } else {
            WorkerStart::Fetch(
                ChunkWorker {
                    download_id: download_id.to_owned(),
                    chunk,
                    resumed_at: downloaded,
                    downloaded,
                },
            )
        }
    }

    pub fn download_id(&self) -> (id: &String)
        ensures
            id@ == self@.download_id,
    {
        &self.download_id
    }

    pub fn chunk(&self) -> (chunk: ChunkPlan)
        ensures
            chunk == self@.chunk,
    {
        self.chunk
    }

    /// The bytes that the part file held when this run began. The part file
    /// is cut to this length before the first write.
    pub fn resumed_at(&self) -> (count: u64)
        ensures
            count == self@.resumed_at,
    {
        self.resumed_at
    }

    /// The bytes that the part file holds now: never more than the chunk's
    /// range, nor less than when the run began.
    pub fn downloaded(&self) -> (count: u64)
        ensures
            count == self@.downloaded,
            self@.is_valid(),
    {
        proof {
            use_type_invariant(self);
        }
        self.downloaded
    }

    /// Whether the whole range is there.
    pub fn is_full(&self) -> (full: bool)
        ensures
            full == self@.is_full(),
    {
        proof {
            use_type_invariant(self);
        }
        self.downloaded > self.chunk.end_inclusive - self.chunk.start
    }

    /// The offset in the resource of the first byte that is missing.
    pub fn range_start(&self) -> (offset: u64)
        ensures
            offset == self@.chunk.start + self@.downloaded,
    {
        proof {
            use_type_invariant(self);
        }
        self.chunk.start + self.downloaded
    }

    /// The offset in the resource of the last byte of the chunk.
    pub fn range_end(&self) -> (offset: u64)
        ensures
            offset == self@.chunk.end_inclusive,
    {
        self.chunk.end_inclusive
    }

    /// The range header that asks for what is missing.
    pub fn range_header(&self) -> (text: String)
        ensures
            text@ == range_header_text(
                (self@.chunk.start + self@.downloaded) as u64,
                self@.chunk.end_inclusive,
            ),
    {
        range_header(self.range_start(), self.chunk.end_inclusive)
    }

    /// Takes note of a buffer of `len` bytes from the stream. Where the
    /// buffer fits in what is missing, the answer is the progress row to
    /// write once the bytes are in the part file, and `len` is what is added
    /// to the job's counter. Where it does not fit the remote has sent more
    /// than the range: the worker is unchanged and the chunk fails.
    pub fn receive(&mut self, len: usize) -> (outcome: Result<ChunkState, DownloadError>)
        ensures
            final(self)@.is_valid(),
            old(self)@.downloaded + len <= old(self)@.chunk.spec_len() ==> {
                &&& final(self)@ == old(self)@.after(len as int)
                &&& outcome matches Ok(row)
                &&& row@ == final(self)@.row(false)
            },
            old(self)@.downloaded + len > old(self)@.chunk.spec_len() ==> {
                &&& final(self)@ == old(self)@
                &&& outcome matches Err(error)
                &&& error@ == ErrorView::RangeOverrun(old(self)@.chunk.index)
            },
    {
        proof {
            use_type_invariant(&*self);
        }
        let room: u64 = self.chunk.end_inclusive - self.chunk.start + 1 - self.downloaded;
        if len as u64 > room {
            return Err(DownloadError::RangeOverrun(self.chunk.index));
        }
        self.downloaded = self.downloaded + len as u64;
        Ok(
            ChunkState {
                download_id: self.download_id.clone(),
                chunk_index: self.chunk.index,
                downloaded: self.downloaded,
                complete: false,
            },
        )
    }

    /// Takes note that the stream ended cleanly. Where the whole range is
    /// there, the answer is the last row to write, which records the chunk as
    /// complete. Where bytes are missing the chunk fails.
    pub fn finish(&self) -> (outcome: Result<ChunkState, DownloadError>)
        ensures
            self@.is_full() ==> (outcome matches Ok(row) && row@ == self@.row(true)),
            !self@.is_full() ==> (outcome matches Err(error) && error@
                == ErrorView::RangeTruncated(self@.chunk.index)),
    {
        if self.is_full() {
            Ok(
                ChunkState {
                    download_id: self.download_id.clone(),
                    chunk_index: self.chunk.index,
                    downloaded: self.downloaded,
                    complete: true,
                },
            )
        } else {
            Err(DownloadError::RangeTruncated(self.chunk.index))
        }
    }
}

} // verus!
