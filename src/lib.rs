//! A working-copy status reader that parses the NUL-separated porcelain v2
//! status stream, decides how each changed file's diff is obtained and
//! assembles per-file change summaries in status order.

pub mod binary;
pub mod diff;
pub mod error;
pub mod status;
pub mod summary;
pub mod text;

pub use error::HudError;
pub use status::{section_of, Repository, Section, Status, StatusCode, StatusEntry};
pub use summary::FileWithSummary;
