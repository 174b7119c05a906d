//! The rules of the upload routes: which files count as firmware images and
//! where an upload is stored.

use crate::flat::{ends_with_extension, has_extension};
use vstd::prelude::*;
use vstd::string::StringExecFns;

verus! {

/// A file is listed as a firmware image when its name has the extension
/// `cgi` or `sgi`.
pub open spec fn is_image_name(file_name: Seq<char>) -> bool {
    has_extension(file_name, "cgi"@) || has_extension(file_name, "sgi"@)
}

/// Whether the file named `file_name` is listed as a firmware image.
pub fn is_image(file_name: &str) -> (listed: bool)
    ensures
        listed == is_image_name(file_name@),
{
    ends_with_extension(file_name, "cgi") || ends_with_extension(file_name, "sgi")
}

/// The path under which an upload named `file_name` is stored: the name
/// directly behind `dest_dir`.
pub fn upload_destination(dest_dir: &str, file_name: &str) -> (path: String)
    ensures
        path@ == dest_dir@ + file_name@,
{
    dest_dir.to_owned().concat(file_name)
}

} // verus!
