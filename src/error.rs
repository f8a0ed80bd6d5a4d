//! The errors of the library, one variant per failing stage.

use vstd::prelude::*;

verus! {

/// What went wrong; each variant carries a one-line description.
#[derive(Debug, Clone, PartialEq, Eq)]
pub enum HudError {
    /// The repository could not be opened.
    Git(String),
    /// The summarization service failed or is not configured.
    Api(String),
    /// A file could not be read.
    Io(String),
    /// A status record is malformed; carries the record.
    Parse(String),
    /// The status command failed; carries its diagnostic output.
    Collection(String),
    /// A diff command failed or printed something that is not text.
    Retrieval(String),
}

impl HudError {
    /// The variant and the description, as a value.
    pub open spec fn meaning(&self) -> (int, Seq<char>) {
        match self {
            HudError::Git(m) => (0, m@),
            HudError::Api(m) => (1, m@),
            HudError::Io(m) => (2, m@),
            HudError::Parse(m) => (3, m@),
            HudError::Collection(m) => (4, m@),
            HudError::Retrieval(m) => (5, m@),
        }
    }
}

} // verus!
