//! The metadata files of the echo images of a session: which file is for
//! which echo, and which one is kept where several are for the same.

use vstd::prelude::*;
use vstd::string::*;
use crate::bids::messages::{
    complaint_about, complaint_with_cause, no_func_message, unreadable_entry,
    unreadable_entry_message, unreadable_func_message,
};
use crate::bids::scan::{
    entry_views, first_unreadable, lemma_first_unreadable_stays, Entry, EntryView, Listing,
    ListingView, SessionScan, SessionScanView,
};
use crate::json::{
    bool_field, field_view, json_bool_field, json_document, json_text_field, reads_as_json,
    text_field,
};
use crate::pattern::{capture, decimal_byte, parse_decimal_byte, regex_group, regex_match, search};

verus! {

/// The number of an echo.
#[derive(Debug, Clone, Copy, PartialEq, Eq, Structural, PartialOrd, Ord)]
pub struct EchoNum(pub u8);

/// The metadata of the BOLD image of one echo: the number of the echo, what
/// the metadata says of the image, the path of the file that holds the
/// metadata, and the JSON document in it. The timing values are numbers with
/// a fraction; they are left in the document.
#[derive(Debug)]
pub struct BoldMetadata {
    pub echo_num: EchoNum,
    pub skull_stripped: Option<bool>,
    pub slice_timing_corrected: Option<bool>,
    pub task_name: Option<String>,
    pub path: String,
    pub document: String,
}

/// The key under which a document says whether the skull was stripped.
pub open spec fn skull_stripped_key() -> Seq<char> {
    "SkullStripped"@
}

/// The key under which a document says whether slice timing was corrected.
pub open spec fn slice_timing_corrected_key() -> Seq<char> {
    "SliceTimingCorrected"@
}

/// The key under which a document names the task.
pub open spec fn task_name_key() -> Seq<char> {
    "TaskName"@
}

/// The names of the metadata files of echo images.
pub open spec fn metadata_pattern() -> Seq<char> {
    "_echo-[1-5].*_bold\\.json$"@
}

/// The number of an echo in a path: the digits behind `echo-`.
pub open spec fn echo_pattern() -> Seq<char> {
    "echo-(\\d+)"@
}

/// What the metadata of an echo holds.
pub struct BoldMetadataView {
    pub echo_num: EchoNum,
    pub skull_stripped: Option<bool>,
    pub slice_timing_corrected: Option<bool>,
    pub task_name: Option<Seq<char>>,
    pub path: Seq<char>,
    pub document: Seq<char>,
}

impl View for BoldMetadata {
    type V = BoldMetadataView;

    open spec fn view(&self) -> BoldMetadataView {
        BoldMetadataView {
            echo_num: self.echo_num,
            skull_stripped: self.skull_stripped,
            slice_timing_corrected: self.slice_timing_corrected,
            task_name: field_view(self.task_name),
            path: self.path@,
            document: self.document@,
        }
    }
}

/// The views of a sequence of metadata files.
pub open spec fn metadata_views(files: Seq<BoldMetadata>) -> Seq<BoldMetadataView> {
    files.map_values(|file: BoldMetadata| file@)
}

/// The number of the echo that a path names: the digits behind the first
/// `echo-` that has digits behind it, where they write a number below 256.
pub open spec fn echo_number(path: Seq<char>) -> Option<EchoNum> {
    match regex_group(echo_pattern(), path, 1) {
        Some(Some(digits)) => match decimal_byte(digits) {
            Some(number) => Some(EchoNum(number)),
            None => None,
        },
        _ => None,
    }
}

/// What the JSON document `text`, in the file at `path`, says of the image
/// of echo `echo_num`.
pub open spec fn metadata_in(
    echo_num: EchoNum,
    path: Seq<char>,
    text: Seq<char>,
) -> BoldMetadataView {
    BoldMetadataView {
        echo_num,
        skull_stripped: json_bool_field(text, skull_stripped_key()),
        slice_timing_corrected: json_bool_field(text, slice_timing_corrected_key()),
        task_name: json_text_field(text, task_name_key()),
        path,
        document: text,
    }
}

/// The metadata that an entry holds, if it holds any: its name is that of
/// the metadata of an echo image, its content was read and is a JSON
/// document, and its path names the number of an echo.
pub open spec fn metadata_of(entry: EntryView) -> Option<BoldMetadataView> {
    match entry {
        EntryView::Found { name, path, content: Some(text), .. } => {
            if regex_match(metadata_pattern(), name) == Some(true) && json_document(text) {
                match echo_number(path) {
                    Some(echo_num) => Some(metadata_in(echo_num, path, text)),
                    None => None,
                }
            } else {
                None
            }
        },
        _ => None,
    }
}

/// The metadata files among `entries`, in the order of the entries.
pub open spec fn metadata_candidates(entries: Seq<EntryView>) -> Seq<BoldMetadataView>
    decreases entries.len(),
{
    if entries.len() == 0 {
        Seq::empty()
    } else {
        match metadata_of(entries.last()) {
            Some(file) => metadata_candidates(entries.drop_last()).push(file),
            None => metadata_candidates(entries.drop_last()),
        }
    }
}

/// The first of `files` that is for echo `number`.
pub open spec fn first_for_echo(files: Seq<BoldMetadataView>, number: u8) -> Option<
    BoldMetadataView,
>
    decreases files.len(),
{
    if files.len() == 0 {
        None
    } else {
        match first_for_echo(files.drop_last(), number) {
            Some(file) => Some(file),
            None => if files.last().echo_num.0 == number {
                Some(files.last())
            } else {
                None
            },
        }
    }
}

/// For each echo number below `bound` that some file is for, in rising
/// order, the first of `files` that is for it.
pub open spec fn chosen_below(files: Seq<BoldMetadataView>, bound: nat) -> Seq<BoldMetadataView>
    decreases bound,
{
    if bound == 0 {
        Seq::empty()
    } else {
        match first_for_echo(files, (bound - 1) as u8) {
            Some(file) => chosen_below(files, (bound - 1) as nat).push(file),
            None => chosen_below(files, (bound - 1) as nat),
        }
    }
}

/// One file per echo, in rising order of the echo numbers: of the files for
/// one echo, the first.
pub open spec fn chosen_metadata(files: Seq<BoldMetadataView>) -> Seq<BoldMetadataView> {
    chosen_below(files, 256)
}

/// The metadata files of a session, one per echo; or why they could not be
/// had: there is no `func` directory, it could not be read, or reading
/// failed at one of its entries.
pub open spec fn bold_metadata(session: SessionScanView) -> Result<
    Seq<BoldMetadataView>,
    Seq<char>,
> {
    match session.func.listing {
        ListingView::NotADirectory { .. } => Err(no_func_message(session.directory)),
        ListingView::Unreadable { message } => Err(
            unreadable_func_message(session.func.path, message),
        ),
        ListingView::Read { entries } => match first_unreadable(entries) {
            Some(message) => Err(unreadable_entry_message(message)),
            None => Ok(chosen_metadata(metadata_candidates(entries))),
        },
    }
}

/// A list of metadata files as the contracts see it.
pub open spec fn metadata_result_view(files: Result<Vec<BoldMetadata>, String>) -> Result<
    Seq<BoldMetadataView>,
    Seq<char>,
> {
    match files {
        Ok(files) => Ok(metadata_views(files@)),
        Err(complaint) => Err(complaint@),
    }
}

/// Reads the number of the echo that a path names.
pub fn extract_echo_number(path: &str) -> (number: Option<EchoNum>)
    ensures
        number == echo_number(path@),
{
    match capture("echo-(\\d+)", path, 1) {
        Some(Some(digits)) => match parse_decimal_byte(digits.as_str()) {
            Some(number) => Some(EchoNum(number)),
            None => None,
        },
        _ => None,
    }
}

/// Tells whether a file name is that of the metadata of an echo image.
pub fn is_metadata_name(name: &str) -> (named: bool)
    ensures
        named == (regex_match(metadata_pattern(), name@) == Some(true)),
{
    search("_echo-[1-5].*_bold\\.json$", name) == Some(true)
}

/// Takes the metadata that an entry holds, if it holds any.
pub fn extract_file_metadata(entry: &Entry) -> (file: Option<BoldMetadata>)
    ensures
        match file {
            Some(file) => metadata_of(entry@) == Some(file@),
            None => metadata_of(entry@) is None,
        },
{
    match entry {
        Entry::Found { name, path, content, .. } => {
            if !is_metadata_name(name.as_str()) {
                return None;
            }
            let text = match content {
                Some(text) => text,
                None => {
                    return None;
                },
            };
            if !reads_as_json(text.as_str()) {
                return None;
            }
            match extract_echo_number(path.as_str()) {
                Some(echo_num) => Some(
                    BoldMetadata {
                        echo_num,
                        skull_stripped: bool_field(text.as_str(), "SkullStripped"),
                        slice_timing_corrected: bool_field(
                            text.as_str(),
                            "SliceTimingCorrected",
                        ),
                        task_name: text_field(text.as_str(), "TaskName"),
                        path: path.clone(),
                        document: text.clone(),
                    },
                ),
                None => None,
            }
        },
        Entry::Unreadable { .. } => None,
    }
}

/// A file found for an echo among some of the files is the one found among
/// all.
proof fn lemma_first_for_echo_stays(files: Seq<BoldMetadataView>, number: u8, some: int)
    requires
        0 <= some <= files.len(),
        first_for_echo(files.take(some), number) is Some,
    ensures
        first_for_echo(files, number) == first_for_echo(files.take(some), number),
    decreases files.len() - some,
{
    if some == files.len() {
        assert(files.take(some) =~= files);
    } else {
        assert(files.drop_last().take(some) =~= files.take(some));
        lemma_first_for_echo_stays(files.drop_last(), number, some);
    }
}

/// Finds the first of `files` that is for echo `number`.
fn find_for_echo(files: &Vec<BoldMetadata>, number: u8) -> (at: Option<usize>)
    ensures
        match at {
            Some(at) => at < files.len() && first_for_echo(metadata_views(files@), number) == Some(
                files@[at as int]@,
            ),
            None => first_for_echo(metadata_views(files@), number) is None,
        },
{
    let ghost views = metadata_views(files@);
    let mut i: usize = 0;
    while i < files.len()
        invariant
            i <= files.len(),
            views == metadata_views(files@),
            first_for_echo(views.take(i as int), number) is None,
        decreases files.len() - i,
    {
        proof {
            assert(views.take(i + 1).drop_last() =~= views.take(i as int));
        }
        if files[i].echo_num.0 == number {
            proof {
                lemma_first_for_echo_stays(views, number, i + 1);
            }
            return Some(i);
        }
        i += 1;
    }
    proof {
        assert(views.take(i as int) =~= views);
    }
    None
}

/// Keeps one file per echo, in rising order of the echo numbers: of the
/// files for one echo, the first.
pub fn choose_metadata(files: &Vec<BoldMetadata>) -> (chosen: Vec<BoldMetadata>)
    ensures
        metadata_views(chosen@) == chosen_metadata(metadata_views(files@)),
{
    let mut chosen: Vec<BoldMetadata> = Vec::new();
    let mut bound: u16 = 0;
    while bound < 256
        invariant
            bound <= 256,
            metadata_views(chosen@) == chosen_below(metadata_views(files@), bound as nat),
        decreases 256 - bound,
    {
        match find_for_echo(files, bound as u8) {
            Some(at) => {
                let file = BoldMetadata {
                    echo_num: files[at].echo_num,
                    skull_stripped: files[at].skull_stripped,
                    slice_timing_corrected: files[at].slice_timing_corrected,
                    task_name: match &files[at].task_name {
                        Some(name) => Some(name.clone()),
                        None => None,
                    },
                    path: files[at].path.clone(),
                    document: files[at].document.clone(),
                };
                chosen.push(file);
            },
            None => {},
        }
        bound += 1;
    }
    chosen
}

/// Lists the metadata files of a session, one per echo.
pub fn extract_bold_metadata(session: &SessionScan) -> (files: Result<Vec<BoldMetadata>, String>)
    ensures
        metadata_result_view(files) == bold_metadata(session@),
{
    match &session.func.listing {
        Listing::NotADirectory { .. } => Err(
            complaint_about("No 'func' directory found in ", session.directory.as_str()),
        ),
        Listing::Unreadable { message } => Err(
            complaint_with_cause(
                "Failed to read func directory ",
                session.func.path.as_str(),
                message.as_str(),
            ),
        ),
        Listing::Read { entries } => {
            let ghost views = entry_views(entries@);
            let mut candidates: Vec<BoldMetadata> = Vec::new();
            let mut i: usize = 0;
            while i < entries.len()
                invariant
                    i <= entries.len(),
                    session.func.listing == (Listing::Read { entries: *entries }),
                    views == entry_views(entries@),
                    first_unreadable(views.take(i as int)) is None,
                    metadata_views(candidates@) == metadata_candidates(views.take(i as int)),
                decreases entries.len() - i,
            {
                proof {
                    assert(views.take(i + 1).drop_last() =~= views.take(i as int));
                }
                match &entries[i] {
                    Entry::Unreadable { message } => {
                        proof {
                            lemma_first_unreadable_stays(views, i + 1);
                        }
                        return Err(unreadable_entry(message.as_str()));
                    },
                    Entry::Found { .. } => {},
                }
                match extract_file_metadata(&entries[i]) {
                    Some(file) => {
                        candidates.push(file);
                    },
                    None => {},
                }
                i += 1;
            }
            proof {
                assert(views.take(i as int) =~= views);
            }
            Ok(choose_metadata(&candidates))
        },
    }
}

/// The file found for an echo is one of the files, is for that echo, and no
/// file before it is.
pub proof fn lemma_first_for_echo(files: Seq<BoldMetadataView>, number: u8)
    ensures
        match first_for_echo(files, number) {
            Some(file) => exists|at: int|
                0 <= at < files.len() && #[trigger] files[at] == file && file.echo_num.0 == number
                    && forall|before: int|
                    0 <= before < at ==> (#[trigger] files[before]).echo_num.0 != number,
            None => forall|at: int|
                0 <= at < files.len() ==> (#[trigger] files[at]).echo_num.0 != number,
        },
    decreases files.len(),
{
    if files.len() > 0 {
        let shorter = files.drop_last();
        lemma_first_for_echo(shorter, number);
        match first_for_echo(shorter, number) {
            Some(file) => {
                let at = choose|at: int|
                    0 <= at < shorter.len() && #[trigger] shorter[at] == file && file.echo_num.0
                        == number && forall|before: int|
                        0 <= before < at ==> (#[trigger] shorter[before]).echo_num.0 != number;
                assert forall|before: int| 0 <= before < at implies (#[trigger] files[before])
                    .echo_num.0 != number by {
                    assert(files[before] == shorter[before]);
                }
            },
            None => {
                assert forall|at: int| 0 <= at < files.len() - 1 implies (#[trigger] files[at])
                    .echo_num.0 != number by {
                    assert(files[at] == shorter[at]);
                }
            },
        }
    }
}

/// Of the files chosen, each is the first of the files for its echo, the
/// echo numbers rise from one to the next, and every echo that some file is
/// for has its file among them.
pub proof fn lemma_chosen_metadata(files: Seq<BoldMetadataView>)
    ensures
        forall|i: int|
            0 <= i < chosen_metadata(files).len() ==> first_for_echo(
                files,
                (#[trigger] chosen_metadata(files)[i]).echo_num.0,
            ) == Some(chosen_metadata(files)[i]),
        forall|i: int, j: int|
            0 <= i < j < chosen_metadata(files).len() ==> (#[trigger] chosen_metadata(
                files,
            )[i]).echo_num.0 < (#[trigger] chosen_metadata(files)[j]).echo_num.0,
        forall|at: int|
            0 <= at < files.len() ==> exists|i: int|
                0 <= i < chosen_metadata(files).len() && (#[trigger] chosen_metadata(
                    files,
                )[i]).echo_num == (#[trigger] files[at]).echo_num,
{
    lemma_chosen_below(files, 256);
}

/// What `lemma_chosen_metadata` says, for the echo numbers below `bound`.
proof fn lemma_chosen_below(files: Seq<BoldMetadataView>, bound: nat)
    requires
        bound <= 256,
    ensures
        forall|i: int|
            0 <= i < chosen_below(files, bound).len() ==> {
                &&& (#[trigger] chosen_below(files, bound)[i]).echo_num.0 < bound
                &&& first_for_echo(files, chosen_below(files, bound)[i].echo_num.0) == Some(
                    chosen_below(files, bound)[i],
                )
            },
        forall|i: int, j: int|
            0 <= i < j < chosen_below(files, bound).len() ==> (#[trigger] chosen_below(
                files,
                bound,
            )[i]).echo_num.0 < (#[trigger] chosen_below(files, bound)[j]).echo_num.0,
        forall|at: int|
            0 <= at < files.len() && (#[trigger] files[at]).echo_num.0 < bound ==> exists|i: int|
                0 <= i < chosen_below(files, bound).len() && (#[trigger] chosen_below(
                    files,
                    bound,
                )[i]).echo_num == files[at].echo_num,
    decreases bound,
{
    if bound > 0 {
        let fewer = (bound - 1) as nat;
        let number = fewer as u8;
        let before = chosen_below(files, fewer);
        let chosen = chosen_below(files, bound);
        lemma_chosen_below(files, fewer);
        lemma_first_for_echo(files, number);
        assert forall|at: int| 0 <= at < files.len() && (#[trigger] files[at]).echo_num.0
            < bound implies exists|i: int|
            0 <= i < chosen.len() && (#[trigger] chosen[i]).echo_num == files[at].echo_num by {
            if files[at].echo_num.0 < fewer {
                let i = choose|i: int|
                    0 <= i < before.len() && (#[trigger] before[i]).echo_num == files[at].echo_num;
                assert(chosen[i] == before[i]);
            } else {
                assert(chosen[chosen.len() - 1].echo_num == files[at].echo_num);
            }
        }
    }
}

} // verus!
