//! Plain data passed between the stages of a capture.

use vstd::prelude::*;

verus! {

/// Selection rectangle in screenshot pixel coordinates.
#[derive(Debug, Clone, Copy, PartialEq, Eq, Structural)]
pub struct CaptureRect {
    pub x: u32,
    pub y: u32,
    pub width: u32,
    pub height: u32,
}

/// Translation result delivered to the result window.
#[derive(Debug)]
pub struct TranslateResult {
    pub text: String,
    /// Base64 PNG of the cropped region, so that the window can show what was translated.
    pub image_base64: String,
}

} // verus!
