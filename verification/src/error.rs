use vstd::prelude::*;

verus! {

/// Why a run of the pipeline failed. Every failure of a stage aborts the whole
/// operation and is surfaced here unchanged; no partial result accompanies it.
#[derive(Debug)]
pub enum SectionsError {
    /// No repository was found at or above the given path.
    RepositoryNotFound(String),
    /// The reference string could not be parsed or does not name an object.
    ReferenceNotResolvable(String),
    /// The referenced object could not be peeled to a file tree.
    TreePeelFailed(String),
    /// The comparison against the working state could not be computed.
    DiffFailed(String),
}

impl SectionsError {
    /// The underlying cause message carried by this error.
    pub fn message(&self) -> (m: &String)
        ensures
            m@ == match self {
                SectionsError::RepositoryNotFound(s) => s@,
                SectionsError::ReferenceNotResolvable(s) => s@,
                SectionsError::TreePeelFailed(s) => s@,
                SectionsError::DiffFailed(s) => s@,
            },
    {
        match self {
            SectionsError::RepositoryNotFound(s) => s,
            SectionsError::ReferenceNotResolvable(s) => s,
            SectionsError::TreePeelFailed(s) => s,
            SectionsError::DiffFailed(s) => s,
        }
    }
}

} // verus!
