//! Image requests: what is checked before one is sent, and where it goes.

use vstd::prelude::*;

use crate::errors::{field_validation, is_field_error, Error};
use crate::text::{chars_of, extend_str, string_of, trim, trim_chars};

verus! {

/// An image generation is refused for a blank prompt.
pub fn validate_image_prompt(prompt: &str) -> (r: Result<(), Error>)
    ensures
        trim(prompt@).len() == 0 ==> (r matches Err(e) && is_field_error(
            e,
            "prompt is required"@,
            "prompt"@,
        )),
        trim(prompt@).len() > 0 ==> r is Ok,
{
    let c = chars_of(prompt);
    if trim_chars(c.as_slice()).len() == 0 {
        return Err(field_validation("prompt is required", "prompt"));
    }
    Ok(())
}

/// The path of an image (`/images/{id}`), or of its pin (`/images/{id}/pin`).
pub open spec fn image_path_text(image_id: Seq<char>, pin: bool) -> Seq<char> {
    "/images/"@ + image_id + if pin {
        "/pin"@
    } else {
        Seq::empty()
    }
}

/// The request path for an image or its pin; a blank image id is refused.
pub fn image_path(image_id: &str, pin: bool) -> (r: Result<String, Error>)
    ensures
        trim(image_id@).len() == 0 ==> (r matches Err(e) && is_field_error(
            e,
            "image_id is required"@,
            "image_id"@,
        )),
        trim(image_id@).len() > 0 ==> (r matches Ok(p) && p@ == image_path_text(image_id@, pin)),
{
    let c = chars_of(image_id);
    if trim_chars(c.as_slice()).len() == 0 {
        return Err(field_validation("image_id is required", "image_id"));
    }
    let mut out = chars_of("/images/");
    extend_str(&mut out, image_id);
    if pin {
        extend_str(&mut out, "/pin");
    } else {
        assert(out@ =~= out@ + Seq::<char>::empty());
    }
    Ok(string_of(out.as_slice()))
}

} // verus!
