//! The echo images of a session.

use vstd::prelude::*;
use vstd::relations::sorted_by;
use vstd::seq_lib::lemma_sorted_unique;
use vstd::string::*;
use crate::bids::messages::{
    complaint_with_cause, unreadable_entry, unreadable_entry_message, unreadable_func_message,
};
use crate::bids::scan::{
    entry_views, first_unreadable, lemma_first_unreadable_stays, Entry, EntryView, Listing,
    ListingView, SessionScan, SessionScanView,
};
use crate::pattern::{regex_match, search};
use crate::text::{insert_sorted, lemma_text_order_total, sorted_texts, text_order, text_views};

verus! {

/// The names of echo images: an echo from one to five, and the ending of a
/// BOLD image, compressed or not.
pub open spec fn image_pattern() -> Seq<char> {
    "_echo-[1-5].*_bold\\.(nii|nii\\.gz)$"@
}

/// The entry is an echo image.
pub open spec fn is_echo_image(entry: EntryView) -> bool {
    entry matches EntryView::Found { name, .. } && regex_match(image_pattern(), name) == Some(
        true,
    )
}

/// The paths of the echo images among `entries`, in the order of the entries.
pub open spec fn echo_image_paths(entries: Seq<EntryView>) -> Seq<Seq<char>>
    decreases entries.len(),
{
    if entries.len() == 0 {
        Seq::empty()
    } else if is_echo_image(entries.last()) {
        echo_image_paths(entries.drop_last()).push(entries.last()->Found_path)
    } else {
        echo_image_paths(entries.drop_last())
    }
}

/// The paths of the echo images of a session, sorted; or why they could not
/// be had: the `func` directory could not be read, or reading failed at one
/// of its entries.
pub open spec fn echo_paths(session: SessionScanView) -> Result<Seq<Seq<char>>, Seq<char>> {
    match session.func.listing {
        ListingView::NotADirectory { message } => Err(
            unreadable_func_message(session.func.path, message),
        ),
        ListingView::Unreadable { message } => Err(
            unreadable_func_message(session.func.path, message),
        ),
        ListingView::Read { entries } => match first_unreadable(entries) {
            Some(message) => Err(unreadable_entry_message(message)),
            None => Ok(sorted_texts(echo_image_paths(entries))),
        },
    }
}

/// A list of paths as the contracts see it.
pub open spec fn paths_view(paths: Result<Vec<String>, String>) -> Result<
    Seq<Seq<char>>,
    Seq<char>,
> {
    match paths {
        Ok(paths) => Ok(text_views(paths@)),
        Err(complaint) => Err(complaint@),
    }
}

/// Lists the paths of the echo images of a session, sorted.
pub fn extract_echo_nifti_file_paths(session: &SessionScan) -> (paths: Result<
    Vec<String>,
    String,
>)
    ensures
        paths_view(paths) == echo_paths(session@),
{
    match &session.func.listing {
        Listing::NotADirectory { message } => Err(
            complaint_with_cause(
                "Failed to read func directory ",
                session.func.path.as_str(),
                message.as_str(),
            ),
        ),
        Listing::Unreadable { message } => Err(
            complaint_with_cause(
                "Failed to read func directory ",
                session.func.path.as_str(),
                message.as_str(),
            ),
        ),
        Listing::Read { entries } => {
            let ghost views = entry_views(entries@);
            let mut paths: Vec<String> = Vec::new();
            let mut i: usize = 0;
            proof {
                assert(text_views(paths@) =~= Seq::<Seq<char>>::empty());
            }
            while i < entries.len()
                invariant
                    i <= entries.len(),
                    session.func.listing == (Listing::Read { entries: *entries }),
                    views == entry_views(entries@),
                    first_unreadable(views.take(i as int)) is None,
                    sorted_by(text_views(paths@), text_order()),
                    text_views(paths@).to_multiset() == echo_image_paths(
                        views.take(i as int),
                    ).to_multiset(),
                decreases entries.len() - i,
            {
                proof {
                    assert(views.take(i + 1).drop_last() =~= views.take(i as int));
                }
                match &entries[i] {
                    Entry::Unreadable { message } => {
                        proof {
                            lemma_first_unreadable_stays(views, i + 1);
                        }
                        return Err(unreadable_entry(message.as_str()));
                    },
                    Entry::Found { name, path, .. } => {
                        let found = search("_echo-[1-5].*_bold\\.(nii|nii\\.gz)$", name.as_str());
                        if found == Some(true) {
                            proof {
                                vstd::seq_lib::to_multiset_build(
                                    echo_image_paths(views.take(i as int)),
                                    path@,
                                );
                            }
                            insert_sorted(&mut paths, path.clone());
                        }
                    },
                }
                i += 1;
            }
            proof {
                assert(views.take(i as int) =~= views);
                let listed = echo_image_paths(views);
                lemma_text_order_total();
                listed.lemma_sort_by_ensures(text_order());
                lemma_sorted_unique(text_views(paths@), sorted_texts(listed), text_order());
            }
            Ok(paths)
        },
    }
}

} // verus!
