//! The decisions of a multi-camera monitoring viewer: which buffered frame a new frame is
//! compared against, when motion is checked again, which camera is on screen, where the
//! overlay lines go and what they say.
//!
//! Capturing, image processing and the display itself are left to the caller, who hands
//! this crate plain values and acts on what it returns.

pub mod video_display;
pub mod pane;
pub mod overlay_text_providers;
