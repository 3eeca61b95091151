//! What is said of a dataset that lacks something or could not be read.

use vstd::prelude::*;
use vstd::string::*;
use crate::text::{quote, quoted};

verus! {

/// What is said of a path that is no directory.
pub open spec fn not_a_directory_message() -> Seq<char> {
    "The provided path is not a directory"@
}

/// What is said of a dataset without subject directories.
pub open spec fn no_subjects_message() -> Seq<char> {
    "No sub-* directories found"@
}

/// What is said of a dataset that has all that is required.
pub open spec fn compatible_message() -> Seq<char> {
    "This directory is BIDS-compatible"@
}

/// What is said of a session directory without a `func` directory.
pub open spec fn no_func_message(directory: Seq<char>) -> Seq<char> {
    "No 'func' directory found in "@ + quoted(directory)
}

/// What is said of a `func` directory without any BOLD file.
pub open spec fn no_bold_files_message(func: Seq<char>) -> Seq<char> {
    "No '_bold.json', '_bold.nii', or '_bold.nii.gz' files found in "@ + quoted(func)
}

/// What is said of a `func` directory that lacks the metadata or the images.
pub open spec fn missing_bold_files_message(func: Seq<char>) -> Seq<char> {
    "Missing required '_bold.json' or '_bold.nii'/'_bold.nii.gz' files in "@ + quoted(func)
}

/// `lead` followed by `path` as `Debug` formatting writes it.
pub(crate) fn complaint_about(lead: &str, path: &str) -> (complaint: String)
    ensures
        complaint@ == lead@ + quoted(path@),
{
    let mut complaint = String::from_str(lead);
    let shown = quote(path);
    complaint.append(shown.as_str());
    complaint
}

/// What is said of a `func` directory that could not be read.
pub open spec fn unreadable_func_message(func: Seq<char>, cause: Seq<char>) -> Seq<char> {
    "Failed to read func directory "@ + quoted(func) + ": "@ + cause
}

/// What is said of an entry at which reading failed.
pub open spec fn unreadable_entry_message(cause: Seq<char>) -> Seq<char> {
    "Failed to read directory entry: "@ + cause
}

/// What is said of a subject directory that could not be read.
pub open spec fn unreadable_subject_message(subject: Seq<char>, cause: Seq<char>) -> Seq<char> {
    "Failed to read subject directory "@ + quoted(subject) + ": "@ + cause
}

/// What is said of a root that is no directory.
pub open spec fn root_not_a_directory_message(root: Seq<char>) -> Seq<char> {
    "Provided path is not a directory: "@ + root
}

/// What is said of a root that could not be read.
pub open spec fn unreadable_root_message(root: Seq<char>, cause: Seq<char>) -> Seq<char> {
    "Failed to read directory "@ + root + ": "@ + cause
}

/// `lead`, then `path` as `Debug` formatting writes it, then a colon and
/// `cause`.
pub(crate) fn complaint_with_cause(lead: &str, path: &str, cause: &str) -> (complaint: String)
    ensures
        complaint@ == lead@ + quoted(path@) + ": "@ + cause@,
{
    let mut complaint = complaint_about(lead, path);
    complaint.append(": ");
    complaint.append(cause);
    complaint
}

/// What is said of an entry at which reading failed.
pub(crate) fn unreadable_entry(cause: &str) -> (complaint: String)
    ensures
        complaint@ == unreadable_entry_message(cause@),
{
    let mut complaint = String::from_str("Failed to read directory entry: ");
    complaint.append(cause);
    complaint
}

} // verus!
