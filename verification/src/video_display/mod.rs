//! Per-channel video logic: settings, the frame buffer and motion detection, and the
//! placement of the overlay text.

pub mod frame_buffer;
pub mod motion;
pub mod overlay_layout;
pub mod video_channel;
