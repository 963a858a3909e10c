//! The rules that a skin must meet before it is uploaded, and the choice
//! of the skin that a profile wears.

use vstd::prelude::*;
use crate::text::same_text;

verus! {

/// The most bytes that a skin image may have: one mebibyte.
pub const MAX_SKIN_BYTES: usize = 1048576;

/// Why a skin image is not accepted.
#[derive(Clone, Copy, Debug, PartialEq, Eq, Structural)]
pub enum SkinError {
    /// The image has more than [`MAX_SKIN_BYTES`] bytes.
    TooLarge,
    /// The image is not a PNG.
    NotPng,
    /// The image is neither 64 by 64 nor 64 by 32 pixels.
    WrongDimensions { width: u32, height: u32 },
}

/// Whether `variant` names a model that a skin can be made for.
pub open spec fn known_variant(variant: Seq<char>) -> bool {
    variant == "classic"@ || variant == "slim"@
}

/// Whether `variant` names a model that a skin can be made for: `classic`
/// or `slim`.
pub fn variant_is_known(variant: &str) -> (known: bool)
    ensures
        known == known_variant(variant@),
{
    same_text(variant, "classic") || same_text(variant, "slim")
}

/// Whether a skin may be this many pixels wide and high.
pub open spec fn allowed_dimensions(width: u32, height: u32) -> bool {
    width == 64 && (height == 64 || height == 32)
}

/// What is to be said of a skin image of which this much is known: its
/// size; whether it is a PNG, once that is found out; and its width and
/// height, once it is read.
///
/// The size is judged first, then the format, then the dimensions; what
/// is not known yet is not held against the image.
pub open spec fn skin_check(
    bytes_len: usize,
    is_png: Option<bool>,
    dimensions: Option<(u32, u32)>,
) -> Result<(), SkinError> {
    if bytes_len > MAX_SKIN_BYTES {
        Err(SkinError::TooLarge)
    } else if is_png == Some(false) {
        Err(SkinError::NotPng)
    } else {
        match dimensions {
            Some((width, height)) => if allowed_dimensions(width, height) {
                Ok(())
            } else {
                Err(SkinError::WrongDimensions { width, height })
            },
            None => Ok(()),
        }
    }
}

/// Checks what is known of a skin image: see [`skin_check`].
pub fn check_skin_image(
    bytes_len: usize,
    is_png: Option<bool>,
    dimensions: Option<(u32, u32)>,
) -> (checked: Result<(), SkinError>)
    ensures
        checked == skin_check(bytes_len, is_png, dimensions),
{
    if bytes_len > MAX_SKIN_BYTES {
        return Err(SkinError::TooLarge);
    }
    match is_png {
        Some(false) => {
            return Err(SkinError::NotPng);
        },
        _ => {},
    }
    match dimensions {
        Some((width, height)) => {
            if width == 64 && (height == 64 || height == 32) {
                Ok(())
            } else {
                Err(SkinError::WrongDimensions { width, height })
            }
        },
        None => Ok(()),
    }
}

/// The place of the skin that a profile wears: the first of its skins
/// whose state is `ACTIVE`. `states` holds the state of each skin.
pub fn active_skin(states: &Vec<String>) -> (found: Option<usize>)
    ensures
        match found {
            Some(i) => i < states.len() && states[i as int]@ == "ACTIVE"@ && forall|k: int|
                0 <= k < i ==> (#[trigger] states[k])@ != "ACTIVE"@,
            None => forall|k: int| 0 <= k < states.len() ==> (#[trigger] states[k])@ != "ACTIVE"@,
        },
{
    let mut i: usize = 0;
    while i < states.len()
        invariant
            i <= states.len(),
            forall|k: int| 0 <= k < i ==> (#[trigger] states[k])@ != "ACTIVE"@,
        decreases states.len() - i,
    {
        if same_text(states[i].as_str(), "ACTIVE") {
            return Some(i);
        }
        i += 1;
    }
    None
}

} // verus!
