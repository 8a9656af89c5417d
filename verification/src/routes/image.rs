//! Image upload: which part of the upload is the image, and where it is
//! stored and served.
use crate::error::Error;
use crate::utils::text::{chars_of, slice_range_eq};
use vstd::prelude::*;

verus! {

/// What to do with one part of a multipart upload.
#[derive(Debug, Clone)]
pub enum UploadStep {
    /// Not the image field: look at the next part.
    Skip,
    /// The image: read it and stop looking.
    Accept,
    /// The image field is not an image: refuse the upload.
    Reject(Error),
}

/// `content_type` starts with `image/`.
pub open spec fn is_image_type(content_type: Seq<char>) -> bool {
    content_type.len() >= 6 && content_type.subrange(0, 6) == "image/"@
}

fn str_is(s: &str, lit: &str) -> (r: bool)
    ensures
        r == (s@ == lit@),
{
    crate::utils::text::str_eq(s, lit)
}

/// The step for a part named `name` with type `content_type`: only the
/// `image` field counts, and it must have an `image/` type.
pub fn upload_field_step(name: Option<&str>, content_type: Option<&str>) -> (r: UploadStep)
    ensures
        match name {
            Some(n) if n@ == "image"@ => match content_type {
                Some(t) if is_image_type(t@) => r is Accept,
                _ => r matches UploadStep::Reject(Error::BadRequest(m)) && m@
                    == "Content-Type header is missing or uploaded file is not an image"@,
            },
            _ => r is Skip,
        },
{
    let is_image_field = match name {
        Some(n) => str_is(n, "image"),
        None => false,
    };
    if !is_image_field {
        return UploadStep::Skip;
    }
    let ok = match content_type {
        Some(t) => {
            let cs = chars_of(t);
            let prefix = chars_of("image/");
            proof {
                reveal_strlit("image/");
            }
            assert(prefix@.subrange(0, 6) =~= prefix@);
            cs.len() >= 6 && slice_range_eq(cs.as_slice(), 0, 6, prefix.as_slice(), 0, 6)
        },
        None => false,
    };
    if ok {
        UploadStep::Accept
    } else {
        UploadStep::Reject(
            Error::bad_request("Content-Type header is missing or uploaded file is not an image"),
        )
    }
}

/// The error of an upload without an image field.
pub fn missing_image_error() -> (r: Error)
    ensures
        r matches Error::BadRequest(m) && m@ == "Missing 'image' field"@,
{
    Error::bad_request("Missing 'image' field")
}

/// The stored file name of an upload with identifier `id`.
pub fn image_file_name(id: &str) -> (r: String)
    ensures
        r@ == id@ + ".webp"@,
{
    let mut r = String::from_str(id);
    r.append(".webp");
    r
}

/// The public address of a stored image file.
pub fn image_public_url(filename: &str) -> (r: String)
    ensures
        r@ == "images/"@ + filename@,
{
    let mut r = String::from_str("images/");
    r.append(filename);
    r
}

} // verus!
