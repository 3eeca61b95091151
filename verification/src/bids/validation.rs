//! Whether a dataset has what a run needs.

use vstd::prelude::*;
use vstd::string::*;
use crate::bids::messages::{
    compatible_message, complaint_about, missing_bold_files_message, no_bold_files_message,
    no_func_message, no_subjects_message, not_a_directory_message,
};
use crate::bids::scan::{
    entry_is_session, entry_is_subject, entry_views, lemma_sessions_among_prefix,
    lemma_subjects_among_prefix, session_entry_views, sessions_among, sessions_of,
    subject_entry_views, subjects_among, subjects_of, unnamed_session, BidsScan, BidsScanView,
    Entry, EntryView, Listing, ListingView, SessionEntry, SessionListing, SessionListingView,
    SessionScan, SessionScanView, SubjectEntry, SubjectListing, SubjectListingView, SubjectScan,
    SubjectScanView,
};
use crate::text::{ends_with, has_suffix};

verus! {

/// The entry is a file of metadata of a BOLD image.
pub open spec fn is_bold_json(entry: EntryView) -> bool {
    entry matches EntryView::Found { name, .. } && has_suffix(name, "_bold.json"@)
}

/// The entry is a BOLD image, compressed or not.
pub open spec fn is_bold_image(entry: EntryView) -> bool {
    entry matches EntryView::Found { name, .. } && (has_suffix(name, "_bold.nii"@) || has_suffix(
        name,
        "_bold.nii.gz"@,
    ))
}

/// Some entry is a file of metadata of a BOLD image.
pub open spec fn has_bold_json(entries: Seq<EntryView>) -> bool {
    exists|i: int| 0 <= i < entries.len() && is_bold_json(#[trigger] entries[i])
}

/// Some entry is a BOLD image.
pub open spec fn has_bold_image(entries: Seq<EntryView>) -> bool {
    exists|i: int| 0 <= i < entries.len() && is_bold_image(#[trigger] entries[i])
}

/// Whether the `func` directory of a session has what a run needs: it is a
/// directory, it could be read, and it holds at least one file of metadata
/// and at least one image.
pub open spec fn func_validation(session: SessionScanView) -> Result<(), Seq<char>> {
    match session.func.listing {
        ListingView::NotADirectory { .. } => Err(no_func_message(session.directory)),
        ListingView::Unreadable { message } => Err(message),
        ListingView::Read { entries } => {
            if !has_bold_json(entries) && !has_bold_image(entries) {
                Err(no_bold_files_message(session.func.path))
            } else if !has_bold_json(entries) || !has_bold_image(entries) {
                Err(missing_bold_files_message(session.func.path))
            } else {
                Ok(())
            }
        },
    }
}

/// The complaint about the first session that lacks something, if any does.
pub open spec fn sessions_validation(sessions: Seq<SessionScanView>) -> Result<(), Seq<char>>
    decreases sessions.len(),
{
    if sessions.len() == 0 {
        Ok(())
    } else {
        match sessions_validation(sessions.drop_last()) {
            Err(complaint) => Err(complaint),
            Ok(_) => func_validation(sessions.last()),
        }
    }
}

/// Whether a subject has what a run needs: its directory could be read and
/// none of its sessions lacks anything. Its sessions are its `ses-`
/// directories or, where it has none, its own directory.
pub open spec fn subject_validation(subject: SubjectScanView) -> Result<(), Seq<char>> {
    match subject.listing {
        SessionListingView::Failed { message } => Err(message),
        SessionListingView::Read { .. } => sessions_validation(sessions_of(subject)),
    }
}

/// The complaint about the first subject that lacks something, if any does.
pub open spec fn subjects_validation(subjects: Seq<SubjectScanView>) -> Result<(), Seq<char>>
    decreases subjects.len(),
{
    if subjects.len() == 0 {
        Ok(())
    } else {
        match subjects_validation(subjects.drop_last()) {
            Err(complaint) => Err(complaint),
            Ok(_) => subject_validation(subjects.last()),
        }
    }
}

/// Whether a dataset has what a run needs: its root is a directory that
/// could be read and holds a subject directory, and none of its subject
/// directories lacks anything.
pub open spec fn dataset_validation(scan: BidsScanView) -> Result<Seq<char>, Seq<char>> {
    match scan.listing {
        SubjectListingView::NotADirectory => Err(not_a_directory_message()),
        SubjectListingView::Unreadable { message } => Err(message),
        SubjectListingView::Read { .. } => {
            if subjects_of(scan).len() == 0 {
                Err(no_subjects_message())
            } else {
                match subjects_validation(subjects_of(scan)) {
                    Err(complaint) => Err(complaint),
                    Ok(_) => Ok(compatible_message()),
                }
            }
        },
    }
}

/// A verdict as the contracts see it.
pub open spec fn verdict_view(verdict: Result<(), String>) -> Result<(), Seq<char>> {
    match verdict {
        Ok(_) => Ok(()),
        Err(complaint) => Err(complaint@),
    }
}

/// A message as the contracts see it.
pub open spec fn message_view(message: Result<String, String>) -> Result<Seq<char>, Seq<char>> {
    match message {
        Ok(text) => Ok(text@),
        Err(complaint) => Err(complaint@),
    }
}

/// Checks the `func` directory of one session.
pub fn validate_func_directory(session: &SessionScan) -> (verdict: Result<(), String>)
    ensures
        verdict_view(verdict) == func_validation(session@),
{
    match &session.func.listing {
        Listing::NotADirectory { .. } => Err(
            complaint_about("No 'func' directory found in ", session.directory.as_str()),
        ),
        Listing::Unreadable { message } => Err(message.clone()),
        Listing::Read { entries } => {
            let ghost views = entry_views(entries@);
            let mut has_json = false;
            let mut has_image = false;
            let mut i: usize = 0;
            while i < entries.len()
                invariant
                    i <= entries.len(),
                    views == entry_views(entries@),
                    has_json == has_bold_json(views.take(i as int)),
                    has_image == has_bold_image(views.take(i as int)),
                decreases entries.len() - i,
            {
                let ghost more = views.take(i + 1);
                let mut json_here = false;
                let mut image_here = false;
                match &entries[i] {
                    Entry::Found { name, .. } => {
                        json_here = ends_with(name.as_str(), "_bold.json");
                        image_here = ends_with(name.as_str(), "_bold.nii") || ends_with(
                            name.as_str(),
                            "_bold.nii.gz",
                        );
                    },
                    Entry::Unreadable { .. } => {},
                }
                proof {
                    assert(more[i as int] == entries@[i as int]@);
                }
                has_json = has_json || json_here;
                has_image = has_image || image_here;
                i += 1;
            }
            proof {
                assert(views.take(i as int) =~= views);
            }
            if !has_json && !has_image {
                Err(
                    complaint_about(
                        "No '_bold.json', '_bold.nii', or '_bold.nii.gz' files found in ",
                        session.func.path.as_str(),
                    ),
                )
            } else if !has_json || !has_image {
                Err(
                    complaint_about(
                        "Missing required '_bold.json' or '_bold.nii'/'_bold.nii.gz' files in ",
                        session.func.path.as_str(),
                    ),
                )
            } else {
                Ok(())
            }
        },
    }
}

/// A complaint about some of the sessions stays the complaint about all.
pub(crate) proof fn lemma_first_session_complaint(sessions: Seq<SessionScanView>, some: int)
    requires
        0 <= some <= sessions.len(),
        sessions_validation(sessions.take(some)) is Err,
    ensures
        sessions_validation(sessions) == sessions_validation(sessions.take(some)),
    decreases sessions.len() - some,
{
    if some == sessions.len() {
        assert(sessions.take(some) =~= sessions);
    } else {
        assert(sessions.drop_last().take(some) =~= sessions.take(some));
        lemma_first_session_complaint(sessions.drop_last(), some);
    }
}

/// A complaint about some of the subjects stays the complaint about all.
pub(crate) proof fn lemma_first_subject_complaint(subjects: Seq<SubjectScanView>, some: int)
    requires
        0 <= some <= subjects.len(),
        subjects_validation(subjects.take(some)) is Err,
    ensures
        subjects_validation(subjects) == subjects_validation(subjects.take(some)),
    decreases subjects.len() - some,
{
    if some == subjects.len() {
        assert(subjects.take(some) =~= subjects);
    } else {
        assert(subjects.drop_last().take(some) =~= subjects.take(some));
        lemma_first_subject_complaint(subjects.drop_last(), some);
    }
}

/// Checks one subject: each of its `ses-` directories or, where it has none,
/// its own directory.
pub fn validate_subject_directory(subject: &SubjectScan) -> (verdict: Result<(), String>)
    ensures
        verdict_view(verdict) == subject_validation(subject@),
{
    match &subject.listing {
        SessionListing::Failed { message } => Err(message.clone()),
        SessionListing::Read { entries } => {
            let ghost views = session_entry_views(entries@);
            let mut found: usize = 0;
            let mut i: usize = 0;
            while i < entries.len()
                invariant
                    i <= entries.len(),
                    subject.listing == (SessionListing::Read { entries: *entries }),
                    views == session_entry_views(entries@),
                    found == sessions_among(views.take(i as int)).len(),
                    found <= i,
                    sessions_validation(sessions_among(views.take(i as int))) is Ok,
                decreases entries.len() - i,
            {
                proof {
                    assert(views.take(i + 1).drop_last() =~= views.take(i as int));
                }
                if entry_is_session(&entries[i]) {
                    match &entries[i] {
                        SessionEntry::Found { session, .. } => {
                            let ghost some = sessions_among(views.take(i + 1));
                            proof {
                                assert(some.drop_last() =~= sessions_among(views.take(i as int)));
                            }
                            match validate_func_directory(session) {
                                Err(complaint) => {
                                    proof {
                                        let all = sessions_among(views);
                                        lemma_sessions_among_prefix(views, i + 1);
                                        lemma_first_session_complaint(all, some.len() as int);
                                    }
                                    return Err(complaint);
                                },
                                Ok(_) => {},
                            }
                            found += 1;
                        },
                        SessionEntry::Unreadable { .. } => {},
                    }
                }
                i += 1;
            }
            proof {
                assert(views.take(i as int) =~= views);
            }
            if found == 0 {
                proof {
                    let only = seq![unnamed_session(subject@)];
                    assert(only.drop_last() =~= Seq::<SessionScanView>::empty());
                }
                validate_func_directory(&subject.whole)
            } else {
                Ok(())
            }
        },
    }
}

/// Checks that a dataset has what a run needs, and says so or says what is
/// lacking.
pub fn validate_bids_directory(scan: &BidsScan) -> (verdict: Result<String, String>)
    ensures
        message_view(verdict) == dataset_validation(scan@),
{
    match &scan.listing {
        SubjectListing::NotADirectory => Err(
            String::from_str("The provided path is not a directory"),
        ),
        SubjectListing::Unreadable { message } => Err(message.clone()),
        SubjectListing::Read { entries } => {
            let ghost views = subject_entry_views(entries@);
            let mut found: usize = 0;
            let mut i: usize = 0;
            while i < entries.len()
                invariant
                    i <= entries.len(),
                    views == subject_entry_views(entries@),
                    found == subjects_among(views.take(i as int)).len(),
                    found <= i,
                decreases entries.len() - i,
            {
                proof {
                    assert(views.take(i + 1).drop_last() =~= views.take(i as int));
                }
                if entry_is_subject(&entries[i]) {
                    found += 1;
                }
                i += 1;
            }
            proof {
                assert(views.take(i as int) =~= views);
            }
            if found == 0 {
                return Err(String::from_str("No sub-* directories found"));
            }
            i = 0;
            while i < entries.len()
                invariant
                    i <= entries.len(),
                    scan.listing == (SubjectListing::Read { entries: *entries }),
                    views == subject_entry_views(entries@),
                    subjects_among(views).len() != 0,
                    subjects_validation(subjects_among(views.take(i as int))) is Ok,
                decreases entries.len() - i,
            {
                proof {
                    assert(views.take(i + 1).drop_last() =~= views.take(i as int));
                }
                if entry_is_subject(&entries[i]) {
                    match &entries[i] {
                        SubjectEntry::Found { subject, .. } => {
                            let ghost some = subjects_among(views.take(i + 1));
                            proof {
                                assert(some.drop_last() =~= subjects_among(views.take(i as int)));
                            }
                            match validate_subject_directory(subject) {
                                Err(complaint) => {
                                    proof {
                                        let all = subjects_among(views);
                                        lemma_subjects_among_prefix(views, i + 1);
                                        lemma_first_subject_complaint(all, some.len() as int);
                                    }
                                    return Err(complaint);
                                },
                                Ok(_) => {},
                            }
                        },
                        SubjectEntry::Unreadable { .. } => {},
                    }
                }
                i += 1;
            }
            Ok(String::from_str("This directory is BIDS-compatible"))
        },
    }
}

} // verus!
