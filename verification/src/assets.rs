//! Serving report files under the `tedana` scheme: which file a request
//! names, and the media type it is served with.

use vstd::prelude::*;
use vstd::string::*;
use crate::text::{chars_of, has_prefix, starts_with};

verus! {

/// What a request under the scheme begins with.
pub open spec fn scheme_prefix() -> Seq<char> {
    "tedana://"@
}

/// The path of the file that a request names: what follows the scheme, made
/// to begin with a separator. A request outside the scheme names none.
pub open spec fn requested_path(uri: Seq<char>) -> Option<Seq<char>> {
    if has_prefix(uri, scheme_prefix()) {
        let rest = uri.skip(scheme_prefix().len() as int);
        if has_prefix(rest, "/"@) {
            Some(rest)
        } else {
            Some("/"@ + rest)
        }
    } else {
        None
    }
}

/// A path as the contracts see it.
pub open spec fn path_view(path: Option<String>) -> Option<Seq<char>> {
    match path {
        Some(path) => Some(path@),
        None => None,
    }
}

/// The position of the last dot in `path`; `-1` where it has none.
pub open spec fn last_dot(path: Seq<char>) -> int
    decreases path.len(),
{
    if path.len() == 0 {
        -1
    } else if path.last() == '.' {
        path.len() - 1
    } else {
        last_dot(path.drop_last())
    }
}

/// What follows the last dot of `path`; all of it where it has no dot.
pub open spec fn extension(path: Seq<char>) -> Seq<char> {
    path.skip(last_dot(path) + 1)
}

/// The media type a file is served with, by the extension of its path.
pub open spec fn media_type(path: Seq<char>) -> Seq<char> {
    let ending = extension(path);
    if ending == "html"@ {
        "text/html"@
    } else if ending == "css"@ {
        "text/css"@
    } else if ending == "js"@ {
        "application/javascript"@
    } else if ending == "png"@ || ending == "jpg"@ || ending == "jpeg"@ {
        "image/jpeg"@
    } else if ending == "svg"@ {
        "image/svg+xml"@
    } else {
        "application/octet-stream"@
    }
}

/// Tells whether two strings hold the same text.
fn same_text(a: &str, b: &str) -> (same: bool)
    ensures
        same == (a@ == b@),
{
    let first = String::from_str(a);
    let second = String::from_str(b);
    first == second
}

/// Finds the path of the file that a request names.
pub fn asset_path(uri: &str) -> (path: Option<String>)
    ensures
        path_view(path) == requested_path(uri@),
{
    if !starts_with(uri, "tedana://") {
        return None;
    }
    proof {
        reveal_strlit("tedana://");
    }
    let length = uri.unicode_len();
    let rest = uri.substring_char(9, length);
    if starts_with(rest, "/") {
        Some(String::from_str(rest))
    } else {
        let mut path = String::from_str("/");
        path.append(rest);
        Some(path)
    }
}

/// Picks the media type for a path.
pub fn mime_type(path: &str) -> (media: String)
    ensures
        media@ == media_type(path@),
{
    let chars = chars_of(path);
    let mut start: usize = chars.len();
    assert(chars@.take(start as int) =~= chars@);
    while start > 0 && chars[start - 1] != '.'
        invariant
            start <= chars.len(),
            last_dot(chars@.take(start as int)) == last_dot(chars@),
        decreases start,
    {
        assert(chars@.take(start as int).drop_last() =~= chars@.take(start - 1));
        start -= 1;
    }
    let ending = path.substring_char(start, chars.len());
    if same_text(ending, "html") {
        String::from_str("text/html")
    } else if same_text(ending, "css") {
        String::from_str("text/css")
    } else if same_text(ending, "js") {
        String::from_str("application/javascript")
    } else if same_text(ending, "png") || same_text(ending, "jpg") || same_text(ending, "jpeg") {
        String::from_str("image/jpeg")
    } else if same_text(ending, "svg") {
        String::from_str("image/svg+xml")
    } else {
        String::from_str("application/octet-stream")
    }
}

} // verus!
