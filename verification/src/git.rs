//! The repository-facing edge of the pipeline: resolving a reference to a
//! tree, diffing it against the working state, and draining the diff into
//! plain change records. Every call into git2 stands behind a trusted item
//! here; everything computed from what comes back is verified.

use vstd::prelude::*;
use crate::error::SectionsError;
use crate::sections::{
    extract_sections, is_suffix_of, records_in_range, ChangeRecord, DeltaStatus, Section,
};

verus! {

#[verifier::external_type_specification]
#[verifier::external_body]
pub struct ExRepository(git2::Repository);

#[verifier::external_type_specification]
#[verifier::external_body]
pub struct ExObject<'repo>(git2::Object<'repo>);

#[verifier::external_type_specification]
#[verifier::external_body]
pub struct ExTree<'repo>(git2::Tree<'repo>);

#[verifier::external_type_specification]
#[verifier::external_body]
pub struct ExDiff<'repo>(git2::Diff<'repo>);

#[verifier::external_type_specification]
#[verifier::external_body]
pub struct ExGitError(git2::Error);

#[verifier::external_type_specification]
#[verifier::external_body]
pub struct ExDelta(git2::Delta);

/// Relies on git2::Repository::discover: opens the repository at or above the
/// given path, searching up the filesystem hierarchy, and fails when none is
/// found there.
#[verifier::external_body]
fn discover_repository(path: &str) -> (r: Result<git2::Repository, git2::Error>) {
    git2::Repository::discover(path)
}

/// Relies on git2::Repository::revparse_single: resolves a revision string —
/// a branch name among others — to the single object it names, and fails when
/// the string cannot be parsed or names nothing.
#[verifier::external_body]
fn revparse_single<'repo>(repo: &'repo git2::Repository, reference: &str) -> (r: Result<
    git2::Object<'repo>,
    git2::Error,
>) {
    repo.revparse_single(reference)
}

/// Relies on git2::Object::peel_to_tree: peels the object recursively until a
/// tree is found, and fails when it has none.
#[verifier::external_body]
fn peel_to_tree<'repo>(object: &git2::Object<'repo>) -> (r: Result<
    git2::Tree<'repo>,
    git2::Error,
>) {
    object.peel_to_tree()
}

/// Relies on git2::Repository::diff_tree_to_workdir_with_index, with the
/// context window set to zero surrounding lines: the diff of the tree against
/// the working directory blended with the index, each hunk bounding exactly
/// the changed span.
#[verifier::external_body]
fn diff_tree_to_workdir_with_index<'repo>(
    repo: &'repo git2::Repository,
    tree: &git2::Tree<'repo>,
) -> (r: Result<git2::Diff<'repo>, git2::Error>) {
    let mut options = git2::DiffOptions::default();
    options.context_lines(0);
    repo.diff_tree_to_workdir_with_index(Some(tree), Some(&mut options))
}

/// Relies on git2::Delta being a plain classification of a file delta: each
/// variant is carried over to the library's own status, one arm each.
#[verifier::external_body]
fn delta_status(delta: git2::Delta) -> (s: DeltaStatus) {
    match delta {
        git2::Delta::Unmodified => DeltaStatus::Unmodified,
        git2::Delta::Added => DeltaStatus::Added,
        git2::Delta::Deleted => DeltaStatus::Deleted,
        git2::Delta::Modified => DeltaStatus::Modified,
        git2::Delta::Renamed => DeltaStatus::Renamed,
        git2::Delta::Copied => DeltaStatus::Copied,
        git2::Delta::Ignored => DeltaStatus::Ignored,
        git2::Delta::Untracked => DeltaStatus::Untracked,
        git2::Delta::Typechange => DeltaStatus::TypeChanged,
        git2::Delta::Unreadable => DeltaStatus::Unreadable,
        git2::Delta::Conflicted => DeltaStatus::Conflicted,
    }
}

/// Relies on git2::Diff::foreach: visits every file delta, and every hunk
/// within it, in the diff's own enumeration order. Each visited hunk becomes
/// one plain record, its fields moved over one for one.
#[verifier::external_body]
fn collect_change_records(diff: &git2::Diff) -> (r: Result<Vec<ChangeRecord>, git2::Error>) {
    let mut records: Vec<ChangeRecord> = Vec::new();
    let outcome = diff.foreach(
        &mut |_delta, _progress| true,
        None,
        Some(&mut |delta, hunk| {
            let file_name = delta.new_file().path().map(|p| p.to_string_lossy().to_string());
            let (status, new_start, new_lines) =
                (delta_status(delta.status()), hunk.new_start(), hunk.new_lines());
            records.push(ChangeRecord { status, file_name, new_start, new_lines });
            true
        }),
        None,
    );
    outcome.map(|_unit| records)
}

/// Relies on git2::Error::message: the human-readable cause carried by the
/// error, copied into an owned string.
#[verifier::external_body]
fn git_error_message(error: &git2::Error) -> (m: String) {
    error.message().to_string()
}

/// The changed line sections of the working state relative to `reference`,
/// restricted to files whose path ends with `extension`.
///
/// On success every section's range runs forward and its path ends with the
/// extension; which sections come back is decided by the repository on disk,
/// read through git2, and each stage's failure is surfaced as its own error.
pub fn get_sections_with_extension(repo_path: &str, reference: &str, extension: &str) -> (result:
    Result<Vec<Section>, SectionsError>)
    ensures
        result matches Ok(sections) ==> forall|k: int|
            0 <= k < sections@.len() ==> (#[trigger] sections@[k]).line_start
                <= sections@[k].line_end && is_suffix_of(extension@, sections@[k].file_name@),
{
    let repo = match discover_repository(repo_path) {
        Ok(repo) => repo,
        Err(e) => return Err(SectionsError::RepositoryNotFound(git_error_message(&e))),
    };
    let object = match revparse_single(&repo, reference) {
        Ok(object) => object,
        Err(e) => return Err(SectionsError::ReferenceNotResolvable(git_error_message(&e))),
    };
    let tree = match peel_to_tree(&object) {
        Ok(tree) => tree,
        Err(e) => return Err(SectionsError::TreePeelFailed(git_error_message(&e))),
    };
    let diff = match diff_tree_to_workdir_with_index(&repo, &tree) {
        Ok(diff) => diff,
        Err(e) => return Err(SectionsError::DiffFailed(git_error_message(&e))),
    };
    let records = match collect_change_records(&diff) {
        Ok(records) => records,
        Err(e) => return Err(SectionsError::DiffFailed(git_error_message(&e))),
    };
    if !records_in_range(&records) {
        return Err(SectionsError::DiffFailed(String::from_str("a hunk line range passes the largest representable line number")));
    }
    let sections = extract_sections(&records, extension);
    proof {
        crate::sections::lemma_sections_wf(records@, extension@);
        assert forall|k: int| 0 <= k < sections@.len() implies (#[trigger] sections@[k]).line_start
            <= sections@[k].line_end && is_suffix_of(extension@, sections@[k].file_name@) by {
            assert(sections@.map_values(|s: Section| crate::sections::section_view(s))[k]
                == crate::sections::section_view(sections@[k]));
        }
    }
    Ok(sections)
}

/// The changed line sections of the working state relative to `reference`,
/// restricted to Rust source files — paths ending with `.rs`.
pub fn get_sections(repo_path: &str, reference: &str) -> (result: Result<Vec<Section>, SectionsError>)
    ensures
        result matches Ok(sections) ==> forall|k: int|
            0 <= k < sections@.len() ==> (#[trigger] sections@[k]).line_start
                <= sections@[k].line_end && is_suffix_of(".rs"@, sections@[k].file_name@),
{
    get_sections_with_extension(repo_path, reference, ".rs")
}

} // verus!
