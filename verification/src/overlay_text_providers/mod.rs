//! The providers of the overlay lines: the clock and the temperature sensor.

pub mod file_polling;
pub mod sensor_text;
pub mod temperature_provider;
pub mod time_provider;

use vstd::prelude::*;

verus! {

/// Something that gives one line of text to draw over the frame.
pub trait OverlayTextProvider {
    /// The line to draw now.
    fn get_text(&self) -> String;
}

} // verus!
