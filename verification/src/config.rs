//! Resolution of the asset references of a quiz into absolute URLs.

use vstd::prelude::*;
use crate::text::starts_with;

verus! {

/// Whether `path` already is an absolute web address.
pub open spec fn is_absolute_url(path: Seq<char>) -> bool {
    "http://"@.is_prefix_of(path) || "https://"@.is_prefix_of(path)
}

/// The address an asset reference stands for under the base `base`.
pub open spec fn resolved_url(path: Seq<char>, base: Seq<char>) -> Seq<char> {
    if is_absolute_url(path) {
        path
    } else {
        base + "/"@ + path
    }
}

/// The address of an optional asset reference.
pub open spec fn resolved_image(path: Option<Seq<char>>, base: Seq<char>) -> Option<Seq<char>> {
    match path {
        Some(p) => Some(resolved_url(p, base)),
        None => None,
    }
}

/// Resolves an asset reference to a full address: an absolute reference is
/// kept as it is, any other is put behind `socket_url` and a slash.
pub fn resolve_image_url(image_path: Option<&str>, socket_url: &str) -> (r: Option<String>)
    ensures
        r.deep_view() == resolved_image(image_path.deep_view(), socket_url@),
{
    match image_path {
        None => None,
        Some(path) => {
            if starts_with(path, "http://") || starts_with(path, "https://") {
                Some(path.to_owned())
            } else {
                let mut url = socket_url.to_owned();
                url.append("/");
                url.append(path);
                Some(url)
            }
        },
    }
}

/// Resolves the asset reference held in a question field.
pub fn resolve_image(image: &Option<String>, base_url: &str) -> (r: Option<String>)
    ensures
        r.deep_view() == resolved_image(image.deep_view(), base_url@),
{
    match image {
        None => resolve_image_url(None, base_url),
        Some(path) => resolve_image_url(Some(path.as_str()), base_url),
    }
}

} // verus!
