//! Choosing a font size from the caption length when the caller gives none.
//!
//! Longer captions must shrink to stay legible on a fixed canvas, so absent
//! an explicit override the size comes from a fixed step table over the
//! character length of the text.

use vstd::prelude::*;

verus! {

/// The fixed step table: inclusive length ranges mapped to a font size.
pub open spec fn size_for_len(len: nat) -> u32 {
    if len <= 10 {
        100
    } else if len <= 20 {
        75
    } else if len <= 30 {
        50
    } else if len <= 40 {
        25
    } else if len <= 50 {
        17
    } else if len <= 60 {
        10
    } else {
        5
    }
}

/// What `determine_font_size` returns: the override when one is given,
/// otherwise the table entry for the text's character length.
pub open spec fn font_size_spec(len: nat, explicit: Option<u32>) -> u32 {
    match explicit {
        Some(size) => size,
        None => size_for_len(len),
    }
}

/// Pick the font size for a caption: an explicit override wins, otherwise
/// the step table over the caption's character length decides.
pub fn determine_font_size(name: &str, font_size: Option<u32>) -> (r: u32)
    ensures
        r == font_size_spec(name@.len(), font_size),
{
    let len: usize = name.unicode_len();
    match font_size {
        Some(size) => size,
        None => {
            if len <= 10 {
                100
            } else if len <= 20 {
                75
            } else if len <= 30 {
                50
            } else if len <= 40 {
                25
            } else if len <= 50 {
                17
            } else if len <= 60 {
                10
            } else {
                5
            }
        },
    }
}

} // verus!
