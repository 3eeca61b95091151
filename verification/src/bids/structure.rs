//! The subjects and sessions of a dataset, with the paths of their echo
//! images and the metadata files of the dataset.

use vstd::prelude::*;
use vstd::string::*;
use crate::bids::images::{echo_paths, extract_echo_nifti_file_paths, paths_view};
use crate::bids::messages::{
    complaint_with_cause, root_not_a_directory_message, unreadable_root_message,
    unreadable_subject_message,
};
use crate::bids::metadata::{
    bold_metadata, extract_bold_metadata, metadata_views, BoldMetadata, BoldMetadataView,
};
use crate::bids::scan::{
    entry_is_session, entry_is_subject, lemma_sessions_among_prefix,
    lemma_subjects_among_prefix, session_entry_views, sessions_among, sessions_of,
    subject_entry_views, subjects_among, subjects_of, unnamed_session, BidsScan, BidsScanView,
    SessionEntry, SessionEntryView, SessionListing, SessionListingView, SessionScan,
    SessionScanView, SubjectEntry, SubjectListing, SubjectListingView, SubjectScan,
    SubjectScanView,
};
use crate::text::text_views;

verus! {

/// One session of a subject, with the paths of its echo images in order.
#[derive(Debug)]
pub struct Session {
    pub sub_id: usize,
    pub name: String,
    pub echo_nifti_file_paths: Vec<String>,
}

/// One subject, with its sessions in the order they were found.
#[derive(Debug)]
pub struct Subject {
    pub id: usize,
    pub name: String,
    pub sessions: Vec<Session>,
}

/// What was extracted from a dataset: the metadata files, one per echo in
/// rising order, and the subjects.
#[derive(Debug)]
pub struct BidsStructure {
    pub metadata: Vec<BoldMetadata>,
    pub subjects: Vec<Subject>,
}

/// What a session holds.
pub struct SessionView {
    pub sub_id: nat,
    pub name: Seq<char>,
    pub echo_nifti_file_paths: Seq<Seq<char>>,
}

impl View for Session {
    type V = SessionView;

    open spec fn view(&self) -> SessionView {
        SessionView {
            sub_id: self.sub_id as nat,
            name: self.name@,
            echo_nifti_file_paths: text_views(self.echo_nifti_file_paths@),
        }
    }
}

/// The views of a sequence of sessions.
pub open spec fn session_views(sessions: Seq<Session>) -> Seq<SessionView> {
    sessions.map_values(|session: Session| session@)
}

/// What a subject holds.
pub struct SubjectView {
    pub id: nat,
    pub name: Seq<char>,
    pub sessions: Seq<SessionView>,
}

impl View for Subject {
    type V = SubjectView;

    open spec fn view(&self) -> SubjectView {
        SubjectView {
            id: self.id as nat,
            name: self.name@,
            sessions: session_views(self.sessions@),
        }
    }
}

/// The views of a sequence of subjects.
pub open spec fn subject_views(subjects: Seq<Subject>) -> Seq<SubjectView> {
    subjects.map_values(|subject: Subject| subject@)
}

/// What an extracted structure holds.
pub struct BidsStructureView {
    pub metadata: Seq<BoldMetadataView>,
    pub subjects: Seq<SubjectView>,
}

impl View for BidsStructure {
    type V = BidsStructureView;

    open spec fn view(&self) -> BidsStructureView {
        BidsStructureView {
            metadata: metadata_views(self.metadata@),
            subjects: subject_views(self.subjects@),
        }
    }
}

/// The names of the sessions of a subject, in the order they were found: the
/// empty name alone where the subject has no session directories. Where the
/// subject's directory could not be read, the complaint about that.
pub open spec fn session_names(subject: SubjectScanView) -> Result<Seq<Seq<char>>, Seq<char>> {
    match subject.listing {
        SessionListingView::Failed { message } => Err(
            unreadable_subject_message(subject.whole.directory, message),
        ),
        SessionListingView::Read { .. } => Ok(
            Seq::new(sessions_of(subject).len(), |i: int| sessions_of(subject)[i].name),
        ),
    }
}

/// The names of the sessions among some entries.
pub open spec fn names_among(entries: Seq<SessionEntryView>) -> Seq<Seq<char>> {
    Seq::new(sessions_among(entries).len(), |i: int| sessions_among(entries)[i].name)
}

/// Lists the names of the sessions of a subject.
pub fn extract_sessions(subject: &SubjectScan) -> (names: Result<Vec<String>, String>)
    ensures
        paths_view(names) == session_names(subject@),
{
    match &subject.listing {
        SessionListing::Failed { message } => Err(
            complaint_with_cause(
                "Failed to read subject directory ",
                subject.whole.directory.as_str(),
                message.as_str(),
            ),
        ),
        SessionListing::Read { entries } => {
            let ghost views = session_entry_views(entries@);
            let mut names: Vec<String> = Vec::new();
            let mut i: usize = 0;
            while i < entries.len()
                invariant
                    i <= entries.len(),
                    views == session_entry_views(entries@),
                    text_views(names@) == names_among(views.take(i as int)),
                decreases entries.len() - i,
            {
                proof {
                    assert(views.take(i + 1).drop_last() =~= views.take(i as int));
                }
                let ghost earlier = text_views(names@);
                if entry_is_session(&entries[i]) {
                    match &entries[i] {
                        SessionEntry::Found { session, .. } => {
                            names.push(session.name.clone());
                            proof {
                                assert(text_views(names@) =~= earlier.push(session.name@));
                            }
                        },
                        SessionEntry::Unreadable { .. } => {},
                    }
                }
                i += 1;
            }
            proof {
                assert(views.take(i as int) =~= views);
            }
            if names.len() == 0 {
                names.push(String::new());
            }
            proof {
                let listed = sessions_of(subject@);
                assert(text_views(names@) =~= Seq::new(listed.len(), |i: int| listed[i].name));
            }
            Ok(names)
        },
    }
}

/// One session, and the metadata held after it. The metadata is that held
/// before, unless none was held and the session is the first of its subject:
/// then it is that of the session.
pub open spec fn session_structure(
    session: SessionScanView,
    sub_id: nat,
    first: bool,
    metadata: Seq<BoldMetadataView>,
) -> Result<(SessionView, Seq<BoldMetadataView>), Seq<char>> {
    match echo_paths(session) {
        Err(complaint) => Err(complaint),
        Ok(paths) => {
            let extracted = SessionView {
                sub_id,
                name: session.name,
                echo_nifti_file_paths: paths,
            };
            if metadata.len() == 0 && first {
                match bold_metadata(session) {
                    Err(complaint) => Err(complaint),
                    Ok(found) => Ok((extracted, found)),
                }
            } else {
                Ok((extracted, metadata))
            }
        },
    }
}

/// The sessions of one subject and the metadata held after them. A
/// complaint about a session, in the order in which the sessions are gone
/// through, ends it all.
pub open spec fn sessions_structure(
    sessions: Seq<SessionScanView>,
    sub_id: nat,
    metadata: Seq<BoldMetadataView>,
) -> Result<(Seq<SessionView>, Seq<BoldMetadataView>), Seq<char>>
    decreases sessions.len(),
{
    if sessions.len() == 0 {
        Ok((Seq::empty(), metadata))
    } else {
        match sessions_structure(sessions.drop_last(), sub_id, metadata) {
            Err(complaint) => Err(complaint),
            Ok((before, held)) => match session_structure(
                sessions.last(),
                sub_id,
                sessions.len() == 1,
                held,
            ) {
                Err(complaint) => Err(complaint),
                Ok((extracted, found)) => Ok((before.push(extracted), found)),
            },
        }
    }
}

/// One subject and the metadata held after it. Its sessions are its `ses-`
/// directories or, where it has none, its own directory under the empty
/// name.
pub open spec fn subject_structure(
    subject: SubjectScanView,
    id: nat,
    metadata: Seq<BoldMetadataView>,
) -> Result<(SubjectView, Seq<BoldMetadataView>), Seq<char>> {
    match subject.listing {
        SessionListingView::Failed { message } => Err(
            unreadable_subject_message(subject.whole.directory, message),
        ),
        SessionListingView::Read { .. } => match sessions_structure(
            sessions_of(subject),
            id,
            metadata,
        ) {
            Err(complaint) => Err(complaint),
            Ok((sessions, held)) => Ok(
                (SubjectView { id, name: subject.whole.name, sessions }, held),
            ),
        },
    }
}

/// The subjects, numbered in the order they were found, and the metadata of
/// the first subject whose first session has any.
pub open spec fn subjects_structure(subjects: Seq<SubjectScanView>) -> Result<
    BidsStructureView,
    Seq<char>,
>
    decreases subjects.len(),
{
    if subjects.len() == 0 {
        Ok(BidsStructureView { metadata: Seq::empty(), subjects: Seq::empty() })
    } else {
        match subjects_structure(subjects.drop_last()) {
            Err(complaint) => Err(complaint),
            Ok(before) => match subject_structure(
                subjects.last(),
                (subjects.len() - 1) as nat,
                before.metadata,
            ) {
                Err(complaint) => Err(complaint),
                Ok((subject, held)) => Ok(
                    BidsStructureView { metadata: held, subjects: before.subjects.push(subject) },
                ),
            },
        }
    }
}

/// What a dataset holds, or why it could not be extracted. Its subjects are
/// the `sub-` directories of its root, in the order they were read.
pub open spec fn dataset_structure(scan: BidsScanView) -> Result<BidsStructureView, Seq<char>> {
    match scan.listing {
        SubjectListingView::NotADirectory => Err(root_not_a_directory_message(scan.path)),
        SubjectListingView::Unreadable { message } => Err(
            unreadable_root_message(scan.path, message),
        ),
        SubjectListingView::Read { .. } => subjects_structure(subjects_of(scan)),
    }
}

/// A structure as the contracts see it.
pub open spec fn structure_view(structure: Result<BidsStructure, String>) -> Result<
    BidsStructureView,
    Seq<char>,
> {
    match structure {
        Ok(structure) => Ok(structure@),
        Err(complaint) => Err(complaint@),
    }
}

/// A complaint about some of the sessions stays the complaint about all.
proof fn lemma_sessions_structure_complaint(
    sessions: Seq<SessionScanView>,
    sub_id: nat,
    metadata: Seq<BoldMetadataView>,
    some: int,
)
    requires
        0 <= some <= sessions.len(),
        sessions_structure(sessions.take(some), sub_id, metadata) is Err,
    ensures
        sessions_structure(sessions, sub_id, metadata) == sessions_structure(
            sessions.take(some),
            sub_id,
            metadata,
        ),
    decreases sessions.len() - some,
{
    if some == sessions.len() {
        assert(sessions.take(some) =~= sessions);
    } else {
        assert(sessions.drop_last().take(some) =~= sessions.take(some));
        lemma_sessions_structure_complaint(sessions.drop_last(), sub_id, metadata, some);
    }
}

/// A complaint about some of the subjects stays the complaint about all.
proof fn lemma_subjects_structure_complaint(subjects: Seq<SubjectScanView>, some: int)
    requires
        0 <= some <= subjects.len(),
        subjects_structure(subjects.take(some)) is Err,
    ensures
        subjects_structure(subjects) == subjects_structure(subjects.take(some)),
    decreases subjects.len() - some,
{
    if some == subjects.len() {
        assert(subjects.take(some) =~= subjects);
    } else {
        assert(subjects.drop_last().take(some) =~= subjects.take(some));
        lemma_subjects_structure_complaint(subjects.drop_last(), some);
    }
}

/// What the extraction of one session or subject gave, as the contracts see
/// it.
pub open spec fn session_result_view(extracted: Result<(Session, Vec<BoldMetadata>), String>)
    -> Result<(SessionView, Seq<BoldMetadataView>), Seq<char>> {
    match extracted {
        Ok((session, held)) => Ok((session@, metadata_views(held@))),
        Err(complaint) => Err(complaint@),
    }
}

/// What the extraction of one subject gave, as the contracts see it.
pub open spec fn subject_result_view(extracted: Result<(Subject, Vec<BoldMetadata>), String>)
    -> Result<(SubjectView, Seq<BoldMetadataView>), Seq<char>> {
    match extracted {
        Ok((subject, held)) => Ok((subject@, metadata_views(held@))),
        Err(complaint) => Err(complaint@),
    }
}

/// The session as it is named in what is extracted.
pub open spec fn named_session(name: Seq<char>, session: SessionScanView) -> SessionScanView {
    SessionScanView { name, directory: session.directory, func: session.func }
}

/// Extracts one session under the given name, and the metadata where none
/// is held yet and the session is the first of its subject.
fn extract_session(
    name: String,
    session: &SessionScan,
    sub_id: usize,
    first: bool,
    metadata: Vec<BoldMetadata>,
) -> (extracted: Result<(Session, Vec<BoldMetadata>), String>)
    ensures
        session_result_view(extracted) == session_structure(
            named_session(name@, session@),
            sub_id as nat,
            first,
            metadata_views(metadata@),
        ),
{
    let paths = match extract_echo_nifti_file_paths(session) {
        Ok(paths) => paths,
        Err(complaint) => {
            return Err(complaint);
        },
    };
    let mut held = metadata;
    if held.len() == 0 && first {
        match extract_bold_metadata(session) {
            Ok(found) => {
                held = found;
            },
            Err(complaint) => {
                return Err(complaint);
            },
        }
    }
    Ok((Session { sub_id, name, echo_nifti_file_paths: paths }, held))
}

/// Extracts one subject, and the metadata where none is held yet.
pub fn extract_subject(subject: &SubjectScan, id: usize, metadata: Vec<BoldMetadata>) -> (extracted:
    Result<(Subject, Vec<BoldMetadata>), String>)
    ensures
        subject_result_view(extracted) == subject_structure(
            subject@,
            id as nat,
            metadata_views(metadata@),
        ),
{
    let entries = match &subject.listing {
        SessionListing::Failed { message } => {
            return Err(
                complaint_with_cause(
                    "Failed to read subject directory ",
                    subject.whole.directory.as_str(),
                    message.as_str(),
                ),
            );
        },
        SessionListing::Read { entries } => entries,
    };
    let ghost given = metadata_views(metadata@);
    let ghost views = session_entry_views(entries@);
    let mut held = metadata;
    let mut sessions: Vec<Session> = Vec::new();
    let mut i: usize = 0;
    proof {
        assert(session_views(sessions@) =~= Seq::<SessionView>::empty());
    }
    while i < entries.len()
        invariant
            i <= entries.len(),
            subject.listing == (SessionListing::Read { entries: *entries }),
            given == metadata_views(metadata@),
            views == session_entry_views(entries@),
            sessions.len() == sessions_among(views.take(i as int)).len(),
            sessions.len() <= i,
            sessions_structure(sessions_among(views.take(i as int)), id as nat, given) == Ok::<
                (Seq<SessionView>, Seq<BoldMetadataView>),
                Seq<char>,
            >((session_views(sessions@), metadata_views(held@))),
        decreases entries.len() - i,
    {
        proof {
            assert(views.take(i + 1).drop_last() =~= views.take(i as int));
        }
        if entry_is_session(&entries[i]) {
            match &entries[i] {
                SessionEntry::Found { session, .. } => {
                    let ghost earlier = session_views(sessions@);
                    let ghost some = sessions_among(views.take(i + 1));
                    proof {
                        assert(some.drop_last() =~= sessions_among(views.take(i as int)));
                    }
                    let first = sessions.len() == 0;
                    match extract_session(session.name.clone(), session, id, first, held) {
                        Ok((extracted, found)) => {
                            let ghost added = extracted@;
                            held = found;
                            sessions.push(extracted);
                            proof {
                                assert(session_views(sessions@) =~= earlier.push(added));
                            }
                        },
                        Err(complaint) => {
                            proof {
                                let all = sessions_among(views);
                                lemma_sessions_among_prefix(views, i + 1);
                                lemma_sessions_structure_complaint(
                                    all,
                                    id as nat,
                                    given,
                                    some.len() as int,
                                );
                            }
                            return Err(complaint);
                        },
                    }
                },
                SessionEntry::Unreadable { .. } => {},
            }
        }
        i += 1;
    }
    proof {
        assert(views.take(i as int) =~= views);
    }
    if sessions.len() == 0 {
        proof {
            let only = seq![unnamed_session(subject@)];
            assert(only.drop_last() =~= Seq::<SessionScanView>::empty());
        }
        match extract_session(String::new(), &subject.whole, id, true, held) {
            Ok((extracted, found)) => {
                let ghost added = extracted@;
                held = found;
                sessions.push(extracted);
                proof {
                    assert(session_views(sessions@) =~= seq![added]);
                }
            },
            Err(complaint) => {
                return Err(complaint);
            },
        }
    }
    Ok((Subject { id, name: subject.whole.name.clone(), sessions }, held))
}

/// Extracts the subjects of a dataset, with their sessions and the paths of
/// their echo images, and the metadata of the first subject whose first
/// session has any.
pub fn extract_bids_structure(scan: &BidsScan) -> (structure: Result<BidsStructure, String>)
    ensures
        structure_view(structure) == dataset_structure(scan@),
{
    let entries = match &scan.listing {
        SubjectListing::NotADirectory => {
            let mut complaint = String::from_str("Provided path is not a directory: ");
            complaint.append(scan.path.as_str());
            return Err(complaint);
        },
        SubjectListing::Unreadable { message } => {
            let mut complaint = String::from_str("Failed to read directory ");
            complaint.append(scan.path.as_str());
            complaint.append(": ");
            complaint.append(message.as_str());
            return Err(complaint);
        },
        SubjectListing::Read { entries } => entries,
    };
    let ghost views = subject_entry_views(entries@);
    let mut metadata: Vec<BoldMetadata> = Vec::new();
    let mut subjects: Vec<Subject> = Vec::new();
    let mut i: usize = 0;
    proof {
        assert(metadata_views(metadata@) =~= Seq::<BoldMetadataView>::empty());
        assert(subject_views(subjects@) =~= Seq::<SubjectView>::empty());
    }
    while i < entries.len()
        invariant
            i <= entries.len(),
            scan.listing == (SubjectListing::Read { entries: *entries }),
            views == subject_entry_views(entries@),
            subjects.len() == subjects_among(views.take(i as int)).len(),
            subjects.len() <= i,
            subjects_structure(subjects_among(views.take(i as int))) == Ok::<
                BidsStructureView,
                Seq<char>,
            >(
                BidsStructureView {
                    metadata: metadata_views(metadata@),
                    subjects: subject_views(subjects@),
                },
            ),
        decreases entries.len() - i,
    {
        proof {
            assert(views.take(i + 1).drop_last() =~= views.take(i as int));
        }
        if entry_is_subject(&entries[i]) {
            match &entries[i] {
                SubjectEntry::Found { subject, .. } => {
                    let ghost earlier = subject_views(subjects@);
                    let ghost some = subjects_among(views.take(i + 1));
                    proof {
                        assert(some.drop_last() =~= subjects_among(views.take(i as int)));
                    }
                    match extract_subject(subject, subjects.len(), metadata) {
                        Ok((extracted, held)) => {
                            let ghost added = extracted@;
                            metadata = held;
                            subjects.push(extracted);
                            proof {
                                assert(subject_views(subjects@) =~= earlier.push(added));
                            }
                        },
                        Err(complaint) => {
                            proof {
                                let all = subjects_among(views);
                                lemma_subjects_among_prefix(views, i + 1);
                                lemma_subjects_structure_complaint(all, some.len() as int);
                            }
                            return Err(complaint);
                        },
                    }
                },
                SubjectEntry::Unreadable { .. } => {},
            }
        }
        i += 1;
    }
    proof {
        assert(views.take(i as int) =~= views);
    }
    Ok(BidsStructure { metadata, subjects })
}

} // verus!
