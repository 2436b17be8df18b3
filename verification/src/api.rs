use crate::models::DownloadRequest;
use vstd::prelude::*;

verus! {

/// The body of a request to take in a job.
#[derive(Debug, PartialEq, Eq)]
pub struct CreateDownload {
    pub url: String,
    pub output: String,
}

impl Clone for CreateDownload {
    fn clone(&self) -> (copy: Self)
        ensures
            copy == *self,
    {
        CreateDownload { url: self.url.clone(), output: self.output.clone() }
    }
}

impl CreateDownload {
    /// The job that the body asks for.
    pub fn into_request(self) -> (request: DownloadRequest)
        ensures
            request.url == self.url,
            request.output == self.output,
    {
        DownloadRequest { url: self.url, output: self.output }
    }
}

} // verus!
