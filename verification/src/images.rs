//! What the image endpoint decides before it reads a file: which paths it
//! refuses and which media type goes with which extension.

use vstd::prelude::*;
use crate::text::same_text;

verus! {

/// Whether two full stops stand side by side somewhere in `path`.
pub open spec fn has_parent_reference(path: Seq<char>) -> bool {
    exists|i: int| 0 <= i && i + 1 < path.len() && path[i] == '.' && #[trigger] path[i + 1] == '.'
}

/// Decides whether a requested path could climb out of the image
/// directory: it holds `..` somewhere.
pub fn refers_to_parent(path: &str) -> (r: bool)
    ensures
        r == has_parent_reference(path@),
{
    let n: usize = path.unicode_len();
    let mut i: usize = 1;
    while i < n
        invariant
            1 <= i,
            n == path@.len(),
            forall|k: int| 0 <= k && k + 1 < i && k + 1 < n ==> !(path@[k] == '.' && #[trigger] path@[k + 1] == '.'),
        decreases n - i,
    {
        if path.get_char(i - 1) == '.' && path.get_char(i) == '.' {
            assert(path@[(i - 1) as int] == '.' && path@[(i - 1) + 1] == '.');
            return true;
        }
        i += 1;
    }
    false
}

/// The media type served for a file extension, for the image formats that
/// are served at all.
pub open spec fn media_type(extension: Seq<char>) -> Option<Seq<char>> {
    if extension == "png"@ {
        Some("image/png"@)
    } else if extension == "jpg"@ || extension == "jpeg"@ {
        Some("image/jpeg"@)
    } else if extension == "gif"@ {
        Some("image/gif"@)
    } else if extension == "webp"@ {
        Some("image/webp"@)
    } else if extension == "svg"@ {
        Some("image/svg+xml"@)
    } else {
        None
    }
}

/// Finds the media type for a file extension.
pub fn mime_for_extension(extension: &str) -> (r: Option<&'static str>)
    ensures
        r.deep_view() == media_type(extension@),
{
    if same_text(extension, "png") {
        Some("image/png")
    } else if same_text(extension, "jpg") || same_text(extension, "jpeg") {
        Some("image/jpeg")
    } else if same_text(extension, "gif") {
        Some("image/gif")
    } else if same_text(extension, "webp") {
        Some("image/webp")
    } else if same_text(extension, "svg") {
        Some("image/svg+xml")
    } else {
        None
    }
}

} // verus!
