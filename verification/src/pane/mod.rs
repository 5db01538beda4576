//! The display loop and the timer that picks the channel it shows.

pub mod channel_selector;
pub mod display_loop;
