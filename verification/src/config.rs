use vstd::prelude::*;
use vstd::string::*;

verus! {

/// The chunk size of a configuration that sets none: 2 MiB.
pub const DEFAULT_CHUNK_SIZE: u64 = 2097152;

/// The ceiling on workers of a configuration that sets none.
pub const DEFAULT_WORKER_THREADS: usize = 8;

/// What the agent is told at its start.
#[derive(Debug, PartialEq, Eq)]
pub struct AppConfig {
    pub api_bind_addr: String,
    pub database_path: String,
    pub worker_threads: usize,
    pub chunk_size: u64,
}

/// The mathematical value of an `AppConfig`.
pub struct AppConfigView {
    pub api_bind_addr: Seq<char>,
    pub database_path: Seq<char>,
    pub worker_threads: usize,
    pub chunk_size: u64,
}

impl View for AppConfig {
    type V = AppConfigView;

    open spec fn view(&self) -> AppConfigView {
        AppConfigView {
            api_bind_addr: self.api_bind_addr@,
            database_path: self.database_path@,
            worker_threads: self.worker_threads,
            chunk_size: self.chunk_size,
        }
    }
}

impl Clone for AppConfig {
    fn clone(&self) -> (copy: Self)
        ensures
            copy == *self,
    {
        AppConfig {
            api_bind_addr: self.api_bind_addr.clone(),
            database_path: self.database_path.clone(),
            worker_threads: self.worker_threads,
            chunk_size: self.chunk_size,
        }
    }
}

impl Default for AppConfig {
    /// The configuration of an agent that is told nothing: the API on the
    /// loopback address, the resume store beside the program, eight workers
    /// at most and chunks of 2 MiB.
    fn default() -> (config: Self)
        ensures
            config@ == (AppConfigView {
                api_bind_addr: "127.0.0.1:8472"@,
                database_path: "netdout.db"@,
                worker_threads: DEFAULT_WORKER_THREADS,
                chunk_size: DEFAULT_CHUNK_SIZE,
            }),
    {
        AppConfig {
            api_bind_addr: String::from_str("127.0.0.1:8472"),
            database_path: String::from_str("netdout.db"),
            worker_threads: DEFAULT_WORKER_THREADS,
            chunk_size: DEFAULT_CHUNK_SIZE,
        }
    }
}

} // verus!
