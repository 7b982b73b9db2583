//! Upload decisions: the path screen that rejects text that is not a
//! local file path, and the content type chosen for an extension. The
//! multipart HTTP call itself lives at the edge.

use vstd::prelude::*;

use crate::text::{has_substr_spec, str_contains, str_eq};
use crate::unicode::{lower_of, lowercase};

verus! {

/// What the upload endpoint answers.
pub struct UploadResponse {
    pub success: bool,
    pub message: String,
    pub url: Option<String>,
}

/// A path the upload flow accepts: not a URL pasted in place of a file
/// path, and free of the argument-separator text. (Whether the file
/// exists is the edge's extra check.)
pub open spec fn acceptable_upload_path_spec(p: Seq<char>) -> bool {
    !has_substr_spec(p, "http://"@) && !has_substr_spec(p, "https://"@) && !has_substr_spec(
        p,
        "--"@,
    )
}

/// Screen an upload path.
pub fn acceptable_upload_path(p: &str) -> (r: bool)
    ensures
        r == acceptable_upload_path_spec(p@),
{
    !(str_contains(p, "http://") || str_contains(p, "https://") || str_contains(p, "--"))
}

/// The content type declared for a case-folded file extension.
pub open spec fn mime_of(l: Seq<char>) -> Seq<char> {
    if l == "jpg"@ || l == "jpeg"@ {
        "image/jpeg"@
    } else if l == "png"@ {
        "image/png"@
    } else if l == "pdf"@ {
        "application/pdf"@
    } else if l == "txt"@ {
        "text/plain"@
    } else if l == "md"@ {
        "text/markdown"@
    } else if l == "doc"@ {
        "application/msword"@
    } else if l == "docx"@ {
        "application/vnd.openxmlformats-officedocument.wordprocessingml.document"@
    } else if l == "rtf"@ {
        "application/rtf"@
    } else {
        "application/octet-stream"@
    }
}

/// The content type for a file extension, folded before the lookup.
pub fn get_mime_type(extension: &str) -> (r: &'static str)
    ensures
        r@ == mime_of(lower_of(extension@)),
{
    let folded = lowercase(extension);
    let l = folded.as_str();
    if str_eq(l, "jpg") || str_eq(l, "jpeg") {
        "image/jpeg"
    } else if str_eq(l, "png") {
        "image/png"
    } else if str_eq(l, "pdf") {
        "application/pdf"
    } else if str_eq(l, "txt") {
        "text/plain"
    } else if str_eq(l, "md") {
        "text/markdown"
    } else if str_eq(l, "doc") {
        "application/msword"
    } else if str_eq(l, "docx") {
        "application/vnd.openxmlformats-officedocument.wordprocessingml.document"
    } else if str_eq(l, "rtf") {
        "application/rtf"
    } else {
        "application/octet-stream"
    }
}

} // verus!
