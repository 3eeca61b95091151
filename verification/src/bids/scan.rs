//! A dataset as it was found on the file system.
//!
//! Each directory carries what was found below it: the root its entries,
//! every entry of the root what a subject directory would hold, and every
//! entry of that what a session directory would hold. Which of the entries
//! are subjects and sessions is decided here, from their names.

use vstd::prelude::*;
use vstd::string::*;
use crate::text::{has_prefix, starts_with};

verus! {

/// One entry met while a `func` directory was read.
#[derive(Debug)]
pub enum Entry {
    /// Reading failed at this entry.
    Unreadable { message: String },
    /// A file or directory. `content` is the text of a file that was read;
    /// only the files that may hold metadata need to be.
    Found { name: String, path: String, is_dir: bool, content: Option<String> },
}

/// What an entry holds.
pub enum EntryView {
    Unreadable { message: Seq<char> },
    Found { name: Seq<char>, path: Seq<char>, is_dir: bool, content: Option<Seq<char>> },
}

impl View for Entry {
    type V = EntryView;

    open spec fn view(&self) -> EntryView {
        match self {
            Entry::Unreadable { message } => EntryView::Unreadable { message: message@ },
            Entry::Found { name, path, is_dir, content } => EntryView::Found {
                name: name@,
                path: path@,
                is_dir: *is_dir,
                content: match content {
                    Some(text) => Some(text@),
                    None => None,
                },
            },
        }
    }
}

/// The views of a sequence of entries.
pub open spec fn entry_views(entries: Seq<Entry>) -> Seq<EntryView> {
    entries.map_values(|entry: Entry| entry@)
}

/// What looking at a path and reading it as a directory gave. `message` is
/// what the failed reading said.
#[derive(Debug)]
pub enum Listing {
    /// The path does not lead to a directory.
    NotADirectory { message: String },
    /// The directory could not be read.
    Unreadable { message: String },
    /// The entries, in the order they were read.
    Read { entries: Vec<Entry> },
}

/// What a listing holds.
pub enum ListingView {
    NotADirectory { message: Seq<char> },
    Unreadable { message: Seq<char> },
    Read { entries: Seq<EntryView> },
}

impl View for Listing {
    type V = ListingView;

    open spec fn view(&self) -> ListingView {
        match self {
            Listing::NotADirectory { message } => ListingView::NotADirectory {
                message: message@,
            },
            Listing::Unreadable { message } => ListingView::Unreadable { message: message@ },
            Listing::Read { entries } => ListingView::Read { entries: entry_views(entries@) },
        }
    }
}

/// A `func` directory that was looked at: its path and what reading it gave.
#[derive(Debug)]
pub struct Directory {
    pub path: String,
    pub listing: Listing,
}

/// What a directory holds.
pub struct DirectoryView {
    pub path: Seq<char>,
    pub listing: ListingView,
}

impl View for Directory {
    type V = DirectoryView;

    open spec fn view(&self) -> DirectoryView {
        DirectoryView { path: self.path@, listing: self.listing@ }
    }
}

/// What may be a session: the name and the path of a directory, and the
/// `func` directory directly below it.
#[derive(Debug)]
pub struct SessionScan {
    pub name: String,
    pub directory: String,
    pub func: Directory,
}

/// What a session, as it was found, holds.
pub struct SessionScanView {
    pub name: Seq<char>,
    pub directory: Seq<char>,
    pub func: DirectoryView,
}

impl View for SessionScan {
    type V = SessionScanView;

    open spec fn view(&self) -> SessionScanView {
        SessionScanView { name: self.name@, directory: self.directory@, func: self.func@ }
    }
}

/// One entry met while a subject directory was read.
#[derive(Debug)]
pub enum SessionEntry {
    /// Reading failed at this entry.
    Unreadable { message: String },
    /// A file or directory, with what was found at `func` below it.
    Found { is_dir: bool, session: SessionScan },
}

/// What an entry of a subject directory holds.
pub enum SessionEntryView {
    Unreadable { message: Seq<char> },
    Found { is_dir: bool, session: SessionScanView },
}

impl View for SessionEntry {
    type V = SessionEntryView;

    open spec fn view(&self) -> SessionEntryView {
        match self {
            SessionEntry::Unreadable { message } => SessionEntryView::Unreadable {
                message: message@,
            },
            SessionEntry::Found { is_dir, session } => SessionEntryView::Found {
                is_dir: *is_dir,
                session: session@,
            },
        }
    }
}

/// The views of a sequence of entries of a subject directory.
pub open spec fn session_entry_views(entries: Seq<SessionEntry>) -> Seq<SessionEntryView> {
    entries.map_values(|entry: SessionEntry| entry@)
}

/// What reading a subject directory gave.
#[derive(Debug)]
pub enum SessionListing {
    /// The directory could not be read.
    Failed { message: String },
    /// The entries, in the order they were read.
    Read { entries: Vec<SessionEntry> },
}

/// What the listing of a subject directory holds.
pub enum SessionListingView {
    Failed { message: Seq<char> },
    Read { entries: Seq<SessionEntryView> },
}

impl View for SessionListing {
    type V = SessionListingView;

    open spec fn view(&self) -> SessionListingView {
        match self {
            SessionListing::Failed { message } => SessionListingView::Failed {
                message: message@,
            },
            SessionListing::Read { entries } => SessionListingView::Read {
                entries: session_entry_views(entries@),
            },
        }
    }
}

/// What may be a subject. `whole` is its directory taken as a session of its
/// own: its name, its path and the `func` directory directly below it.
/// `listing` is what reading the directory gave.
#[derive(Debug)]
pub struct SubjectScan {
    pub whole: SessionScan,
    pub listing: SessionListing,
}

/// What a subject, as it was found, holds.
pub struct SubjectScanView {
    pub whole: SessionScanView,
    pub listing: SessionListingView,
}

impl View for SubjectScan {
    type V = SubjectScanView;

    open spec fn view(&self) -> SubjectScanView {
        SubjectScanView { whole: self.whole@, listing: self.listing@ }
    }
}

/// One entry met while the root of a dataset was read.
#[derive(Debug)]
pub enum SubjectEntry {
    /// Reading failed at this entry.
    Unreadable { message: String },
    /// A file or directory, with what was found below it.
    Found { is_dir: bool, subject: SubjectScan },
}

/// What an entry of the root holds.
pub enum SubjectEntryView {
    Unreadable { message: Seq<char> },
    Found { is_dir: bool, subject: SubjectScanView },
}

impl View for SubjectEntry {
    type V = SubjectEntryView;

    open spec fn view(&self) -> SubjectEntryView {
        match self {
            SubjectEntry::Unreadable { message } => SubjectEntryView::Unreadable {
                message: message@,
            },
            SubjectEntry::Found { is_dir, subject } => SubjectEntryView::Found {
                is_dir: *is_dir,
                subject: subject@,
            },
        }
    }
}

/// The views of a sequence of entries of the root.
pub open spec fn subject_entry_views(entries: Seq<SubjectEntry>) -> Seq<SubjectEntryView> {
    entries.map_values(|entry: SubjectEntry| entry@)
}

/// What looking at the root of a dataset and reading it gave.
#[derive(Debug)]
pub enum SubjectListing {
    /// The path does not lead to a directory.
    NotADirectory,
    /// The directory could not be read.
    Unreadable { message: String },
    /// The entries, in the order they were read.
    Read { entries: Vec<SubjectEntry> },
}

/// What the listing of the root holds.
pub enum SubjectListingView {
    NotADirectory,
    Unreadable { message: Seq<char> },
    Read { entries: Seq<SubjectEntryView> },
}

impl View for SubjectListing {
    type V = SubjectListingView;

    open spec fn view(&self) -> SubjectListingView {
        match self {
            SubjectListing::NotADirectory => SubjectListingView::NotADirectory,
            SubjectListing::Unreadable { message } => SubjectListingView::Unreadable {
                message: message@,
            },
            SubjectListing::Read { entries } => SubjectListingView::Read {
                entries: subject_entry_views(entries@),
            },
        }
    }
}

/// A dataset as it was found: the path of its root and what reading the root
/// gave.
#[derive(Debug)]
pub struct BidsScan {
    pub path: String,
    pub listing: SubjectListing,
}

/// What a dataset, as it was found, holds.
pub struct BidsScanView {
    pub path: Seq<char>,
    pub listing: SubjectListingView,
}

impl View for BidsScan {
    type V = BidsScanView;

    open spec fn view(&self) -> BidsScanView {
        BidsScanView { path: self.path@, listing: self.listing@ }
    }
}

/// The prefix of the name of a subject directory.
pub open spec fn subject_prefix() -> Seq<char> {
    "sub-"@
}

/// The prefix of the name of a session directory.
pub open spec fn session_prefix() -> Seq<char> {
    "ses-"@
}

/// The entry is a subject: a directory whose name begins with `sub-`.
pub open spec fn is_subject(entry: SubjectEntryView) -> bool {
    entry matches SubjectEntryView::Found { is_dir, subject } && is_dir && has_prefix(
        subject.whole.name,
        subject_prefix(),
    )
}

/// The entry is a session: a directory whose name begins with `ses-`.
pub open spec fn is_session(entry: SessionEntryView) -> bool {
    entry matches SessionEntryView::Found { is_dir, session } && is_dir && has_prefix(
        session.name,
        session_prefix(),
    )
}

/// The subjects among the entries of the root, in the order of the entries.
pub open spec fn subjects_among(entries: Seq<SubjectEntryView>) -> Seq<SubjectScanView>
    decreases entries.len(),
{
    if entries.len() == 0 {
        Seq::empty()
    } else if is_subject(entries.last()) {
        subjects_among(entries.drop_last()).push(entries.last()->Found_subject)
    } else {
        subjects_among(entries.drop_last())
    }
}

/// The sessions among the entries of a subject directory, in the order of
/// the entries.
pub open spec fn sessions_among(entries: Seq<SessionEntryView>) -> Seq<SessionScanView>
    decreases entries.len(),
{
    if entries.len() == 0 {
        Seq::empty()
    } else if is_session(entries.last()) {
        sessions_among(entries.drop_last()).push(entries.last()->Found_session)
    } else {
        sessions_among(entries.drop_last())
    }
}

/// The subjects of a dataset: the directories in its root whose names begin
/// with `sub-`, in the order they were read. None where the root was not
/// read.
pub open spec fn subjects_of(scan: BidsScanView) -> Seq<SubjectScanView> {
    match scan.listing {
        SubjectListingView::Read { entries } => subjects_among(entries),
        _ => Seq::empty(),
    }
}

/// The subject's directory as the one session of a subject without session
/// directories: under the empty name.
pub open spec fn unnamed_session(subject: SubjectScanView) -> SessionScanView {
    SessionScanView {
        name: Seq::empty(),
        directory: subject.whole.directory,
        func: subject.whole.func,
    }
}

/// The sessions of a subject: the directories in the subject's directory
/// whose names begin with `ses-`, in the order they were read; or, where
/// there is none, the subject's directory itself under the empty name.
pub open spec fn sessions_of(subject: SubjectScanView) -> Seq<SessionScanView> {
    let found = match subject.listing {
        SessionListingView::Read { entries } => sessions_among(entries),
        SessionListingView::Failed { .. } => Seq::empty(),
    };
    if found.len() == 0 {
        seq![unnamed_session(subject)]
    } else {
        found
    }
}

/// Tells whether an entry of the root is a subject.
pub fn entry_is_subject(entry: &SubjectEntry) -> (subject: bool)
    ensures
        subject == is_subject(entry@),
{
    match entry {
        SubjectEntry::Found { is_dir, subject } => *is_dir && starts_with(
            subject.whole.name.as_str(),
            "sub-",
        ),
        SubjectEntry::Unreadable { .. } => false,
    }
}

/// Tells whether an entry of a subject directory is a session.
pub fn entry_is_session(entry: &SessionEntry) -> (session: bool)
    ensures
        session == is_session(entry@),
{
    match entry {
        SessionEntry::Found { is_dir, session } => *is_dir && starts_with(
            session.name.as_str(),
            "ses-",
        ),
        SessionEntry::Unreadable { .. } => false,
    }
}

/// The subjects among some of the entries are the first of the subjects
/// among all.
pub proof fn lemma_subjects_among_prefix(entries: Seq<SubjectEntryView>, some: int)
    requires
        0 <= some <= entries.len(),
    ensures
        subjects_among(entries.take(some)).is_prefix_of(subjects_among(entries)),
    decreases entries.len() - some,
{
    if some == entries.len() {
        assert(entries.take(some) =~= entries);
    } else {
        assert(entries.drop_last().take(some) =~= entries.take(some));
        lemma_subjects_among_prefix(entries.drop_last(), some);
    }
}

/// The sessions among some of the entries are the first of the sessions
/// among all.
pub proof fn lemma_sessions_among_prefix(entries: Seq<SessionEntryView>, some: int)
    requires
        0 <= some <= entries.len(),
    ensures
        sessions_among(entries.take(some)).is_prefix_of(sessions_among(entries)),
    decreases entries.len() - some,
{
    if some == entries.len() {
        assert(entries.take(some) =~= entries);
    } else {
        assert(entries.drop_last().take(some) =~= entries.take(some));
        lemma_sessions_among_prefix(entries.drop_last(), some);
    }
}

/// The message of the first entry at which reading failed, if there is one.
pub open spec fn first_unreadable(entries: Seq<EntryView>) -> Option<Seq<char>>
    decreases entries.len(),
{
    if entries.len() == 0 {
        None
    } else {
        match first_unreadable(entries.drop_last()) {
            Some(message) => Some(message),
            None => match entries.last() {
                EntryView::Unreadable { message } => Some(message),
                EntryView::Found { .. } => None,
            },
        }
    }
}

/// Reading that failed at one of some entries failed at one of all, with
/// the same message.
pub(crate) proof fn lemma_first_unreadable_stays(entries: Seq<EntryView>, some: int)
    requires
        0 <= some <= entries.len(),
        first_unreadable(entries.take(some)) is Some,
    ensures
        first_unreadable(entries) == first_unreadable(entries.take(some)),
    decreases entries.len() - some,
{
    if some == entries.len() {
        assert(entries.take(some) =~= entries);
    } else {
        assert(entries.drop_last().take(some) =~= entries.take(some));
        lemma_first_unreadable_stays(entries.drop_last(), some);
    }
}

} // verus!
