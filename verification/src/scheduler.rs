use vstd::prelude::*;

verus! {

/// Sizes below this many bytes are fetched by a single worker.
pub const SMALL_FILE_LIMIT: u64 = 8388608;

/// Sizes below this many bytes are fetched by at most `MEDIUM_FILE_CAP` workers.
pub const MEDIUM_FILE_LIMIT: u64 = 67108864;

/// The cap on workers for a medium-sized file.
pub const MEDIUM_FILE_CAP: usize = 4;

/// The parallelism policy as a function of the configured ceiling and the
/// size of the remote resource, where the size is known.
pub open spec fn parallelism_for(max_parallel_chunks: usize, file_size: Option<u64>) -> usize {
    match file_size {
        Some(size) => if size < SMALL_FILE_LIMIT {
            1
        } else if size < MEDIUM_FILE_LIMIT {
            if max_parallel_chunks < MEDIUM_FILE_CAP {
                max_parallel_chunks
            } else {
                MEDIUM_FILE_CAP
            }
        } else {
            max_parallel_chunks
        },
        None => max_parallel_chunks,
    }
}

/// The policy that picks how many chunk workers of one job run at once,
/// under a configured ceiling.
#[derive(Debug, Clone, Copy, PartialEq, Eq, Structural)]
pub struct AdaptiveScheduler {
    pub max_parallel_chunks: usize,
}

impl AdaptiveScheduler {
    /// A scheduler with the ceiling given.
    pub fn new(max_parallel_chunks: usize) -> (scheduler: Self)
        ensures
            scheduler.max_parallel_chunks == max_parallel_chunks,
    {
        Self { max_parallel_chunks }
    }

    /// Picks how many chunk workers may run at once for a resource of the
    /// given size. With a ceiling of at least one the answer lies between one
    /// and the ceiling.
    pub fn choose_parallelism(&self, file_size: Option<u64>) -> (degree: usize)
        ensures
            degree == parallelism_for(self.max_parallel_chunks, file_size),
            self.max_parallel_chunks >= 1 ==> 1 <= degree <= self.max_parallel_chunks,
    {
        match file_size {
            Some(size) => {
                if size < SMALL_FILE_LIMIT {
                    1
                } else if size < MEDIUM_FILE_LIMIT {
                    if self.max_parallel_chunks < MEDIUM_FILE_CAP {
                        self.max_parallel_chunks
                    } else {
                        MEDIUM_FILE_CAP
                    }
                } else {
                    self.max_parallel_chunks
                }
            },
            None => self.max_parallel_chunks,
        }
    }
}

} // verus!
