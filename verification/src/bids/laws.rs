//! What holds of every dataset, proved from what validation and extraction
//! are stated to give.

use vstd::prelude::*;
use vstd::string::*;
use crate::bids::messages::compatible_message;
use crate::bids::metadata::BoldMetadataView;
use crate::bids::scan::{
    is_session, is_subject, session_prefix, sessions_among, sessions_of, subjects_among,
    subjects_of, unnamed_session, BidsScanView, SessionEntryView, SessionListingView,
    SessionScanView, SubjectEntryView, SubjectScanView,
};
use crate::bids::structure::{dataset_structure, sessions_structure, subjects_structure};
use crate::bids::validation::{
    dataset_validation, func_validation, sessions_validation, subject_validation,
    subjects_validation,
};
use crate::text::has_prefix;

verus! {

/// The subjects among the entries are the entries that are subjects: each
/// subject comes from such an entry, the subjects keep the order of their
/// entries, and no such entry is left out.
pub proof fn lemma_subjects_among(entries: Seq<SubjectEntryView>)
    ensures
        subjects_among(entries).len() <= entries.len(),
        forall|k: int|
            #![trigger subjects_among(entries)[k]]
            0 <= k < subjects_among(entries).len() ==> exists|at: int|
                0 <= at < entries.len() && is_subject(#[trigger] entries[at])
                    && entries[at]->Found_subject == subjects_among(entries)[k]
                    && subjects_among(entries.take(at)).len() == k,
        forall|at: int|
            0 <= at < entries.len() && is_subject(#[trigger] entries[at]) ==> {
                let k = subjects_among(entries.take(at)).len() as int;
                k < subjects_among(entries).len() && subjects_among(entries)[k]
                    == entries[at]->Found_subject
            },
    decreases entries.len(),
{
    if entries.len() > 0 {
        let shorter = entries.drop_last();
        let last = entries.len() - 1;
        lemma_subjects_among(shorter);
        assert forall|at: int| 0 <= at < last implies #[trigger] entries.take(at) == shorter.take(
            at,
        ) by {}
        assert forall|at: int|
            0 <= at < entries.len() && is_subject(#[trigger] entries[at]) implies {
            let k = subjects_among(entries.take(at)).len() as int;
            k < subjects_among(entries).len() && subjects_among(entries)[k]
                == entries[at]->Found_subject
        } by {
            if at < last {
                assert(entries[at] == shorter[at]);
            }
        }
    }
}

/// The sessions among the entries are the entries that are sessions: each
/// session comes from such an entry, the sessions keep the order of their
/// entries, and no such entry is left out.
pub proof fn lemma_sessions_among(entries: Seq<SessionEntryView>)
    ensures
        sessions_among(entries).len() <= entries.len(),
        forall|k: int|
            #![trigger sessions_among(entries)[k]]
            0 <= k < sessions_among(entries).len() ==> exists|at: int|
                0 <= at < entries.len() && is_session(#[trigger] entries[at])
                    && entries[at]->Found_session == sessions_among(entries)[k]
                    && sessions_among(entries.take(at)).len() == k,
        forall|at: int|
            0 <= at < entries.len() && is_session(#[trigger] entries[at]) ==> {
                let k = sessions_among(entries.take(at)).len() as int;
                k < sessions_among(entries).len() && sessions_among(entries)[k]
                    == entries[at]->Found_session
            },
    decreases entries.len(),
{
    if entries.len() > 0 {
        let shorter = entries.drop_last();
        let last = entries.len() - 1;
        lemma_sessions_among(shorter);
        assert forall|at: int| 0 <= at < last implies #[trigger] entries.take(at) == shorter.take(
            at,
        ) by {}
        assert forall|at: int|
            0 <= at < entries.len() && is_session(#[trigger] entries[at]) implies {
            let k = sessions_among(entries.take(at)).len() as int;
            k < sessions_among(entries).len() && sessions_among(entries)[k]
                == entries[at]->Found_session
        } by {
            if at < last {
                assert(entries[at] == shorter[at]);
            }
        }
    }
}

/// A subject has at least one session. Without `ses-` directories it has
/// exactly one: its own directory, under the empty name. Otherwise its
/// sessions are its `ses-` directories, and none has the empty name.
pub proof fn lemma_sessions_of(subject: SubjectScanView)
    ensures
        sessions_of(subject).len() >= 1,
        match subject.listing {
            SessionListingView::Read { entries } => if sessions_among(entries).len() == 0 {
                sessions_of(subject) == seq![unnamed_session(subject)]
            } else {
                &&& sessions_of(subject) == sessions_among(entries)
                &&& forall|j: int|
                    0 <= j < sessions_of(subject).len() ==> has_prefix(
                        (#[trigger] sessions_of(subject)[j]).name,
                        session_prefix(),
                    ) && sessions_of(subject)[j].name.len() >= 4
            },
            SessionListingView::Failed { .. } => sessions_of(subject) == seq![
                unnamed_session(subject),
            ],
        },
{
    reveal_strlit("ses-");
    match subject.listing {
        SessionListingView::Read { entries } => {
            lemma_sessions_among(entries);
        },
        SessionListingView::Failed { .. } => {},
    }
}

/// The sessions pass when each of them passes; otherwise the complaint is
/// that about the first that does not.
pub proof fn lemma_sessions_validation(sessions: Seq<SessionScanView>)
    ensures
        match sessions_validation(sessions) {
            Ok(_) => forall|i: int|
                0 <= i < sessions.len() ==> func_validation(#[trigger] sessions[i]) is Ok,
            Err(complaint) => exists|k: int|
                0 <= k < sessions.len() && func_validation(#[trigger] sessions[k]) == Err::<
                    (),
                    Seq<char>,
                >(complaint) && forall|i: int|
                    0 <= i < k ==> func_validation(#[trigger] sessions[i]) is Ok,
        },
    decreases sessions.len(),
{
    if sessions.len() > 0 {
        let shorter = sessions.drop_last();
        lemma_sessions_validation(shorter);
        match sessions_validation(shorter) {
            Ok(_) => {
                assert forall|i: int| 0 <= i < shorter.len() implies func_validation(
                    #[trigger] sessions[i],
                ) is Ok by {
                    assert(sessions[i] == shorter[i]);
                }
            },
            Err(complaint) => {
                let k = choose|k: int|
                    0 <= k < shorter.len() && func_validation(#[trigger] shorter[k]) == Err::<
                        (),
                        Seq<char>,
                    >(complaint) && forall|i: int|
                        0 <= i < k ==> func_validation(#[trigger] shorter[i]) is Ok;
                assert forall|i: int| 0 <= i < k implies func_validation(
                    #[trigger] sessions[i],
                ) is Ok by {
                    assert(sessions[i] == shorter[i]);
                }
            },
        }
    }
}

/// The subjects pass when each of them passes; otherwise the complaint is
/// that about the first that does not.
pub proof fn lemma_subjects_validation(subjects: Seq<SubjectScanView>)
    ensures
        match subjects_validation(subjects) {
            Ok(_) => forall|i: int|
                0 <= i < subjects.len() ==> subject_validation(#[trigger] subjects[i]) is Ok,
            Err(complaint) => exists|k: int|
                0 <= k < subjects.len() && subject_validation(#[trigger] subjects[k]) == Err::<
                    (),
                    Seq<char>,
                >(complaint) && forall|i: int|
                    0 <= i < k ==> subject_validation(#[trigger] subjects[i]) is Ok,
        },
    decreases subjects.len(),
{
    if subjects.len() > 0 {
        let shorter = subjects.drop_last();
        lemma_subjects_validation(shorter);
        match subjects_validation(shorter) {
            Ok(_) => {
                assert forall|i: int| 0 <= i < shorter.len() implies subject_validation(
                    #[trigger] subjects[i],
                ) is Ok by {
                    assert(subjects[i] == shorter[i]);
                }
            },
            Err(complaint) => {
                let k = choose|k: int|
                    0 <= k < shorter.len() && subject_validation(#[trigger] shorter[k]) == Err::<
                        (),
                        Seq<char>,
                    >(complaint) && forall|i: int|
                        0 <= i < k ==> subject_validation(#[trigger] shorter[i]) is Ok;
                assert forall|i: int| 0 <= i < k implies subject_validation(
                    #[trigger] subjects[i],
                ) is Ok by {
                    assert(subjects[i] == shorter[i]);
                }
            },
        }
    }
}

/// A subject whose directory was read is judged by its `ses-` directories:
/// it passes when the `func` directory of each of them passes. Where it has
/// none, it is judged by the `func` directory of its own directory, and that
/// directory is not asked for where it has some.
pub proof fn lemma_subject_validation(subject: SubjectScanView)
    requires
        subject.listing is Read,
    ensures
        ({
            let found = sessions_among(subject.listing->Read_entries);
            if found.len() == 0 {
                subject_validation(subject) == func_validation(subject.whole)
            } else {
                &&& subject_validation(subject) == sessions_validation(found)
                &&& subject_validation(subject) is Ok <==> forall|i: int|
                    0 <= i < found.len() ==> func_validation(#[trigger] found[i]) is Ok
            }
        }),
{
    let found = sessions_among(subject.listing->Read_entries);
    lemma_sessions_validation(found);
    if found.len() == 0 {
        let only = seq![unnamed_session(subject)];
        assert(sessions_validation(only.drop_last()) is Ok);
    }
}

/// A dataset is compatible exactly when its root is a directory that could
/// be read, the root holds a `sub-` directory, and each of its `sub-`
/// directories passes.
pub proof fn lemma_dataset_validation(scan: BidsScanView)
    ensures
        dataset_validation(scan) is Ok <==> {
            &&& scan.listing is Read
            &&& subjects_of(scan).len() > 0
            &&& forall|i: int|
                0 <= i < subjects_of(scan).len() ==> subject_validation(
                    #[trigger] subjects_of(scan)[i],
                ) is Ok
        },
        dataset_validation(scan) is Ok ==> dataset_validation(scan) == Ok::<Seq<char>, Seq<char>>(
            compatible_message(),
        ),
{
    let subjects = subjects_of(scan);
    lemma_subjects_validation(subjects);
}

/// The sessions extracted are those given, one for one: each under the name
/// and the number of the subject it was given with.
pub proof fn lemma_sessions_structure(
    sessions: Seq<SessionScanView>,
    sub_id: nat,
    metadata: Seq<BoldMetadataView>,
)
    ensures
        sessions_structure(sessions, sub_id, metadata) matches Ok((extracted, _)) ==> {
            &&& extracted.len() == sessions.len()
            &&& forall|j: int|
                0 <= j < sessions.len() ==> (#[trigger] extracted[j]).name == sessions[j].name
                    && extracted[j].sub_id == sub_id
        },
    decreases sessions.len(),
{
    if sessions.len() > 0 {
        lemma_sessions_structure(sessions.drop_last(), sub_id, metadata);
    }
}

/// The subjects extracted are those given, one for one and in their order:
/// each under its name, numbered from zero, with one session for each of
/// its sessions and under that session's name.
pub proof fn lemma_subjects_structure(subjects: Seq<SubjectScanView>)
    ensures
        subjects_structure(subjects) matches Ok(structure) ==> {
            &&& structure.subjects.len() == subjects.len()
            &&& forall|i: int|
                0 <= i < subjects.len() ==> {
                    let extracted = #[trigger] structure.subjects[i];
                    let sessions = sessions_of(subjects[i]);
                    &&& extracted.id == i
                    &&& extracted.name == subjects[i].whole.name
                    &&& extracted.sessions.len() == sessions.len()
                    &&& forall|j: int|
                        0 <= j < sessions.len() ==> (#[trigger] extracted.sessions[j]).name
                            == sessions[j].name && extracted.sessions[j].sub_id == i
                }
        },
    decreases subjects.len(),
{
    if subjects.len() > 0 {
        let shorter = subjects.drop_last();
        lemma_subjects_structure(shorter);
        if subjects_structure(subjects) is Ok {
            let before = subjects_structure(shorter)->Ok_0;
            let id = (subjects.len() - 1) as nat;
            lemma_sessions_structure(sessions_of(subjects.last()), id, before.metadata);
        }
    }
}

/// What is extracted from a dataset names the `sub-` directories of its
/// root, each once and in the order they were read, and under each of them
/// its sessions: at least one, the `ses-` directories of the subject, or the
/// one session with the empty name where it has none.
pub proof fn lemma_dataset_structure(scan: BidsScanView)
    ensures
        dataset_structure(scan) matches Ok(structure) ==> {
            &&& scan.listing is Read
            &&& structure.subjects.len() == subjects_of(scan).len()
            &&& forall|i: int|
                0 <= i < structure.subjects.len() ==> {
                    let extracted = #[trigger] structure.subjects[i];
                    let sessions = sessions_of(subjects_of(scan)[i]);
                    &&& extracted.id == i
                    &&& extracted.name == subjects_of(scan)[i].whole.name
                    &&& extracted.sessions.len() == sessions.len()
                    &&& extracted.sessions.len() >= 1
                    &&& forall|j: int|
                        0 <= j < sessions.len() ==> (#[trigger] extracted.sessions[j]).name
                            == sessions[j].name && extracted.sessions[j].sub_id == i
                }
        },
{
    let subjects = subjects_of(scan);
    lemma_subjects_structure(subjects);
}

} // verus!
