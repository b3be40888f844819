//! Verified core of a screenshot translator: the overlay on which a part of the screen is
//! selected, the calls to a multimodal model and what their replies come to, the settings, and
//! the order of events from a hotkey to a result.

use vstd::prelude::*;

pub mod capture;
pub mod capture_window;
pub mod encoding;
pub mod error;
pub mod exchange;
pub mod hotkeys;
pub mod ink;
pub mod llm_translate;
pub mod models;
pub mod ocr;
pub mod pipeline;
pub mod pixels;
pub mod placement;
pub mod settings;
pub mod text;
pub mod thinking;

verus! {

} // verus!
