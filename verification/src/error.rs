use crate::text::{decimal, push_decimal};
use vstd::prelude::*;
use vstd::string::*;

verus! {

/// Why a job, or one chunk of it, came to nothing.
#[derive(Debug, PartialEq, Eq)]
pub enum DownloadError {
    /// The probe was answered with this status, which is no success.
    Probe(u16),
    /// The remote sent more bytes than the range of this chunk holds.
    RangeOverrun(usize),
    /// The stream of this chunk ended before its range was complete.
    RangeTruncated(usize),
    /// A request or the reading of a body failed.
    Network(String),
    /// A part file, the chunk directory or the merge failed.
    Io(String),
    /// The resume store failed.
    Store(String),
}

/// The mathematical value of a `DownloadError`.
pub enum ErrorView {
    Probe(u16),
    RangeOverrun(usize),
    RangeTruncated(usize),
    Network(Seq<char>),
    Io(Seq<char>),
    Store(Seq<char>),
}

impl View for DownloadError {
    type V = ErrorView;

    open spec fn view(&self) -> ErrorView {
        match *self {
            DownloadError::Probe(status) => ErrorView::Probe(status),
            DownloadError::RangeOverrun(chunk) => ErrorView::RangeOverrun(chunk),
            DownloadError::RangeTruncated(chunk) => ErrorView::RangeTruncated(chunk),
            DownloadError::Network(reason) => ErrorView::Network(reason@),
            DownloadError::Io(reason) => ErrorView::Io(reason@),
            DownloadError::Store(reason) => ErrorView::Store(reason@),
        }
    }
}

impl ErrorView {
    /// The reason that a failed job's record carries for this error.
    pub open spec fn message(self) -> Seq<char> {
        match self {
            ErrorView::Probe(status) => "HEAD request failed: "@ + decimal(status as nat),
            ErrorView::RangeOverrun(chunk) => "chunk "@ + decimal(chunk as nat)
                + ": more bytes than requested"@,
            ErrorView::RangeTruncated(chunk) => "chunk "@ + decimal(chunk as nat)
                + ": stream ended early"@,
            ErrorView::Network(reason) => reason,
            ErrorView::Io(reason) => reason,
            ErrorView::Store(reason) => reason,
        }
    }
}

impl Clone for DownloadError {
    fn clone(&self) -> (copy: Self)
        ensures
            copy == *self,
    {
        match self {
            DownloadError::Probe(status) => DownloadError::Probe(*status),
            DownloadError::RangeOverrun(chunk) => DownloadError::RangeOverrun(*chunk),
            DownloadError::RangeTruncated(chunk) => DownloadError::RangeTruncated(*chunk),
            DownloadError::Network(reason) => DownloadError::Network(reason.clone()),
            DownloadError::Io(reason) => DownloadError::Io(reason.clone()),
            DownloadError::Store(reason) => DownloadError::Store(reason.clone()),
        }
    }
}

impl DownloadError {
    /// The reason in words, as a failed job's record carries it.
    pub fn message(&self) -> (text: String)
        ensures
            text@ == self@.message(),
    {
        match self {
            DownloadError::Probe(status) => {
                let mut text = String::from_str("HEAD request failed: ");
                push_decimal(&mut text, *status as u64);
                text
            },
            DownloadError::RangeOverrun(chunk) => {
                let mut text = String::from_str("chunk ");
                push_decimal(&mut text, *chunk as u64);
                text.append(": more bytes than requested");
                text
            },
            DownloadError::RangeTruncated(chunk) => {
                let mut text = String::from_str("chunk ");
                push_decimal(&mut text, *chunk as u64);
                text.append(": stream ended early");
                text
            },
            DownloadError::Network(reason) => reason.clone(),
            DownloadError::Io(reason) => reason.clone(),
            DownloadError::Store(reason) => reason.clone(),
        }
    }
}

} // verus!
