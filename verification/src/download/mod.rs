pub mod engine;
pub mod layout;
pub mod merge;
pub mod plan;
pub mod resume;
pub mod runner;
pub mod worker;

pub use engine::DownloadEngine;
pub use merge::merge_chunks;
pub use plan::build_chunk_plan;
