use vstd::prelude::*;

verus! {

/// One byte range of the remote resource, fetched by one worker.
#[derive(Debug, Clone, Copy, PartialEq, Eq, Structural)]
pub struct ChunkPlan {
    pub index: usize,
    pub start: u64,
    pub end_inclusive: u64,
}

impl ChunkPlan {
    /// The number of bytes in the range.
    pub open spec fn spec_len(self) -> int {
        self.end_inclusive - self.start + 1
    }

    /// Whether the range holds a byte at least, and ends before the largest
    /// offset that a size can name.
    pub open spec fn is_valid(self) -> bool {
        self.start <= self.end_inclusive < u64::MAX
    }

    /// Whether the range holds the byte at `offset`.
    pub open spec fn covers(self, offset: int) -> bool {
        self.start <= offset <= self.end_inclusive
    }
}

/// Where a job stands.
#[derive(Debug, PartialEq, Eq)]
pub enum DownloadStatus {
    Queued,
    Running,
    Completed,
    Failed(String),
}

/// The mathematical value of a `DownloadStatus`.
pub enum StatusView {
    Queued,
    Running,
    Completed,
    Failed(Seq<char>),
}

impl View for DownloadStatus {
    type V = StatusView;

    open spec fn view(&self) -> StatusView {
        match *self {
            DownloadStatus::Queued => StatusView::Queued,
            DownloadStatus::Running => StatusView::Running,
            DownloadStatus::Completed => StatusView::Completed,
            DownloadStatus::Failed(reason) => StatusView::Failed(reason@),
        }
    }
}

impl StatusView {
    /// A job in a terminal state never changes state again.
    pub open spec fn is_terminal(self) -> bool {
        self is Completed || self is Failed
    }

    /// The moves a job may make: from queued to running, and from running to
    /// completed or failed.
    pub open spec fn may_become(self, next: StatusView) -> bool {
        ||| (self is Queued && next is Running)
        ||| (self is Running && next is Completed)
        ||| (self is Running && next is Failed)
    }
}

impl Clone for DownloadStatus {
    fn clone(&self) -> (copy: Self)
        ensures
            copy == *self,
    {
        match self {
            DownloadStatus::Queued => DownloadStatus::Queued,
            DownloadStatus::Running => DownloadStatus::Running,
            DownloadStatus::Completed => DownloadStatus::Completed,
            DownloadStatus::Failed(reason) => DownloadStatus::Failed(reason.clone()),
        }
    }
}

impl DownloadStatus {
    /// Whether the job has come to an end, well or badly.
    pub fn is_terminal(&self) -> (terminal: bool)
        ensures
            terminal == self@.is_terminal(),
    {
        match self {
            DownloadStatus::Completed => true,
            DownloadStatus::Failed(_) => true,
            _ => false,
        }
    }

    /// Whether a job in this state may move to `next`.
    pub fn may_become(&self, next: &DownloadStatus) -> (allowed: bool)
        ensures
            allowed == self@.may_become(next@),
    {
        match (self, next) {
            (DownloadStatus::Queued, DownloadStatus::Running) => true,
            (DownloadStatus::Running, DownloadStatus::Completed) => true,
            (DownloadStatus::Running, DownloadStatus::Failed(_)) => true,
            _ => false,
        }
    }
}

/// What a submitter asks for: a source address and where the artifact goes.
#[derive(Debug, PartialEq, Eq)]
pub struct DownloadRequest {
    pub url: String,
    pub output: String,
}

impl Clone for DownloadRequest {
    fn clone(&self) -> (copy: Self)
        ensures
            copy == *self,
    {
        DownloadRequest { url: self.url.clone(), output: self.output.clone() }
    }
}

/// The live record of one job.
#[derive(Debug, PartialEq, Eq)]
pub struct DownloadInfo {
    pub id: String,
    pub url: String,
    pub output: String,
    pub total_bytes: Option<u64>,
    pub downloaded_bytes: u64,
    pub status: DownloadStatus,
}

/// The mathematical value of a `DownloadInfo`.
pub struct DownloadInfoView {
    pub id: Seq<char>,
    pub url: Seq<char>,
    pub output: Seq<char>,
    pub total_bytes: Option<u64>,
    pub downloaded_bytes: u64,
    pub status: StatusView,
}

impl View for DownloadInfo {
    type V = DownloadInfoView;

    open spec fn view(&self) -> DownloadInfoView {
        DownloadInfoView {
            id: self.id@,
            url: self.url@,
            output: self.output@,
            total_bytes: self.total_bytes,
            downloaded_bytes: self.downloaded_bytes,
            status: self.status@,
        }
    }
}

impl Clone for DownloadInfo {
    fn clone(&self) -> (copy: Self)
        ensures
            copy == *self,
    {
        DownloadInfo {
            id: self.id.clone(),
            url: self.url.clone(),
            output: self.output.clone(),
            total_bytes: self.total_bytes,
            downloaded_bytes: self.downloaded_bytes,
            status: self.status.clone(),
        }
    }
}

} // verus!
